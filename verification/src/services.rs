use vstd::prelude::*;
use crate::color::{Color, NamedColor};
use crate::ecs::Entity;
use crate::glyphs::{cp437, to_cp437};
use crate::item_type::ItemType;

verus! {

/// A blood splatter to create on tile `idx` of level `level`.
#[derive(Clone, Copy, Debug, PartialEq, Eq, Structural)]
pub struct BloodSpawnerRequest {
    pub idx: usize,
    pub fg: Color,
    pub bg: Color,
    pub glyph: u16,
    pub level: u8,
}

/// Blood splatters waiting to be created.
pub struct BloodSpawner {
    pub requests: Vec<BloodSpawnerRequest>,
}

impl BloodSpawner {
    /// No requests.
    pub fn new() -> (s: Self)
        ensures
            s.requests@.len() == 0,
    {
        BloodSpawner { requests: Vec::new() }
    }

    /// Queues a blood splatter.
    pub fn request(&mut self, idx: usize, fg: Color, bg: Color, glyph: u16, level: u8)
        ensures
            final(self).requests@ == old(self).requests@.push(
                BloodSpawnerRequest { idx, fg, bg, glyph, level },
            ),
    {
        self.requests.push(BloodSpawnerRequest { idx, fg, bg, glyph, level });
    }
}

/// What a corpse request holds, with its name as text.
pub struct CorpseRequestView {
    pub idx: usize,
    pub fg: Color,
    pub bg: Color,
    pub glyph: u16,
    pub level: u8,
    pub name: Seq<char>,
    pub items: Seq<Entity>,
}

/// A corpse to create on tile `idx` of level `level`, holding the dead one's `items`.
pub struct CorpseSpawnerRequest {
    pub idx: usize,
    pub fg: Color,
    pub bg: Color,
    pub glyph: u16,
    pub level: u8,
    pub name: String,
    pub items: Vec<Entity>,
}

impl DeepView for CorpseSpawnerRequest {
    type V = CorpseRequestView;

    open spec fn deep_view(&self) -> CorpseRequestView {
        CorpseRequestView {
            idx: self.idx,
            fg: self.fg,
            bg: self.bg,
            glyph: self.glyph,
            level: self.level,
            name: self.name@,
            items: self.items@,
        }
    }
}

/// Corpses waiting to be created.
pub struct CorpseSpawner {
    pub requests: Vec<CorpseSpawnerRequest>,
}

/// The corpse a goblin leaves: a dark red 'g' named after how it died.
pub open spec fn spec_goblin_corpse(idx: usize, level: u8, cause_of_death: Seq<char>, items: Seq<Entity>) -> CorpseRequestView {
    CorpseRequestView {
        idx,
        fg: Color::Named(NamedColor::Black),
        bg: Color::Named(NamedColor::DarkRed),
        glyph: cp437('g'),
        level,
        name: "goblin corpse, "@ + cause_of_death,
        items,
    }
}

impl CorpseSpawner {
    /// No requests.
    pub fn new() -> (s: Self)
        ensures
            s.requests@.len() == 0,
    {
        CorpseSpawner { requests: Vec::new() }
    }

    /// Queues a corpse.
    pub fn request(&mut self, idx: usize, fg: Color, bg: Color, glyph: u16, level: u8, name: String, items: Vec<Entity>)
        ensures
            final(self).requests.deep_view() == old(self).requests.deep_view().push(
                CorpseRequestView { idx, fg, bg, glyph, level, name: name@, items: items@ },
            ),
    {
        self.requests.push(CorpseSpawnerRequest { idx, fg, bg, glyph, level, name, items });
        assert(final(self).requests.deep_view() =~= old(self).requests.deep_view().push(
            CorpseRequestView { idx, fg, bg, glyph, level, name: name@, items: items@ }));
    }

    /// Queues the corpse of a goblin that died of `cause_of_death`.
    pub fn request_goblin_corpse(&mut self, idx: usize, level: u8, cause_of_death: String, items: Vec<Entity>)
        ensures
            final(self).requests.deep_view() == old(self).requests.deep_view().push(
                spec_goblin_corpse(idx, level, cause_of_death@, items@),
            ),
    {
        let mut name = String::from_str("goblin corpse, ");
        name.append(cause_of_death.as_str());
        let glyph = to_cp437('g');
        self.request(
            idx,
            Color::Named(NamedColor::Black),
            Color::Named(NamedColor::DarkRed),
            glyph,
            level,
            name,
            items,
        );
    }
}

/// What a debris request holds, with its name as text.
pub struct DebrisRequestView {
    pub idx: usize,
    pub fg: Color,
    pub bg: Color,
    pub glyph: u16,
    pub level: u8,
    pub name: Seq<char>,
    pub flammable: bool,
}

/// Debris to create on tile `idx` of level `level`.
pub struct DebrisSpawnerRequest {
    pub idx: usize,
    pub fg: Color,
    pub bg: Color,
    pub glyph: u16,
    pub level: u8,
    pub name: String,
    pub flammable: bool,
}

impl DeepView for DebrisSpawnerRequest {
    type V = DebrisRequestView;

    open spec fn deep_view(&self) -> DebrisRequestView {
        DebrisRequestView {
            idx: self.idx,
            fg: self.fg,
            bg: self.bg,
            glyph: self.glyph,
            level: self.level,
            name: self.name@,
            flammable: self.flammable,
        }
    }
}

/// Debris waiting to be created.
pub struct DebrisSpawner {
    pub requests: Vec<DebrisSpawnerRequest>,
}

/// The debris a fire leaves: a dark grey '#' that does not burn again.
pub open spec fn spec_burnt_debris(idx: usize, level: u8) -> DebrisRequestView {
    DebrisRequestView {
        idx,
        fg: Color::Named(NamedColor::Black),
        bg: Color::Named(NamedColor::DarkGray),
        glyph: cp437('#'),
        level,
        name: "Burnt Debris"@,
        flammable: false,
    }
}

impl DebrisSpawner {
    /// No requests.
    pub fn new() -> (s: Self)
        ensures
            s.requests@.len() == 0,
    {
        DebrisSpawner { requests: Vec::new() }
    }

    /// Queues debris.
    pub fn request(&mut self, idx: usize, fg: Color, bg: Color, glyph: u16, level: u8, name: String, flammable: bool)
        ensures
            final(self).requests.deep_view() == old(self).requests.deep_view().push(
                DebrisRequestView { idx, fg, bg, glyph, level, name: name@, flammable },
            ),
    {
        self.requests.push(DebrisSpawnerRequest { idx, fg, bg, glyph, level, name, flammable });
        assert(final(self).requests.deep_view() =~= old(self).requests.deep_view().push(
            DebrisRequestView { idx, fg, bg, glyph, level, name: name@, flammable }));
    }

    /// Queues the debris left by something that burnt down.
    pub fn request_burnt_debris(&mut self, idx: usize, level: u8)
        ensures
            final(self).requests.deep_view() == old(self).requests.deep_view().push(
                spec_burnt_debris(idx, level),
            ),
    {
        let glyph = to_cp437('#');
        self.request(
            idx,
            Color::Named(NamedColor::Black),
            Color::Named(NamedColor::DarkGray),
            glyph,
            level,
            String::from_str("Burnt Debris"),
            false,
        );
    }
}

/// An item to create on tile `idx` of level `level`.
#[derive(Clone, Copy, Debug, PartialEq, Eq, Structural)]
pub struct ItemSpawnerRequest {
    pub idx: usize,
    pub level: u8,
    pub item_type: ItemType,
}

/// Items waiting to be created.
pub struct ItemSpawner {
    pub requests: Vec<ItemSpawnerRequest>,
}

impl ItemSpawner {
    /// No requests.
    pub fn new() -> (s: Self)
        ensures
            s.requests@.len() == 0,
    {
        ItemSpawner { requests: Vec::new() }
    }

    /// Queues an item.
    pub fn request(&mut self, idx: usize, level: u8, item_type: ItemType)
        ensures
            final(self).requests@ == old(self).requests@.push(ItemSpawnerRequest { idx, level, item_type }),
    {
        self.requests.push(ItemSpawnerRequest { idx, level, item_type });
    }
}

/// A short-lived particle to show on tile `idx` of level `level` for `lifetime_ms` milliseconds.
#[derive(Clone, Copy, Debug, PartialEq, Eq, Structural)]
pub struct ParticleEffectSpawnerRequest {
    pub idx: usize,
    pub fg: Color,
    pub bg: Color,
    pub glyph: u16,
    pub lifetime_ms: i32,
    pub level: u8,
}

/// Particles waiting to be created.
pub struct ParticleEffectSpawner {
    pub requests: Vec<ParticleEffectSpawnerRequest>,
}

/// How long attack and search particles stay, in milliseconds.
pub const PARTICLE_LIFETIME_MS: i32 = 200;

impl ParticleEffectSpawner {
    /// No requests.
    pub fn new() -> (s: Self)
        ensures
            s.requests@.len() == 0,
    {
        ParticleEffectSpawner { requests: Vec::new() }
    }

    /// Queues a particle.
    pub fn request(&mut self, idx: usize, fg: Color, bg: Color, glyph: u16, lifetime_ms: i32, level: u8)
        ensures
            final(self).requests@ == old(self).requests@.push(
                ParticleEffectSpawnerRequest { idx, fg, bg, glyph, lifetime_ms, level },
            ),
    {
        self.requests.push(ParticleEffectSpawnerRequest { idx, fg, bg, glyph, lifetime_ms, level });
    }

    /// Queues the orange '‼' flash shown where an attack is made.
    pub fn request_attack_particle(&mut self, idx: usize, level: u8)
        ensures
            final(self).requests@ == old(self).requests@.push(
                ParticleEffectSpawnerRequest {
                    idx,
                    fg: Color::Named(NamedColor::Orange),
                    bg: Color::Named(NamedColor::Black),
                    glyph: cp437('‼'),
                    lifetime_ms: PARTICLE_LIFETIME_MS,
                    level,
                },
            ),
    {
        let glyph = to_cp437('‼');
        self.request(idx, Color::Named(NamedColor::Orange), Color::Named(NamedColor::Black), glyph, PARTICLE_LIFETIME_MS, level);
    }

    /// Queues the blue '?' shown where something is searched.
    pub fn request_search_particle(&mut self, idx: usize, level: u8)
        ensures
            final(self).requests@ == old(self).requests@.push(
                ParticleEffectSpawnerRequest {
                    idx,
                    fg: Color::Named(NamedColor::Blue),
                    bg: Color::Named(NamedColor::Black),
                    glyph: cp437('?'),
                    lifetime_ms: PARTICLE_LIFETIME_MS,
                    level,
                },
            ),
    {
        let glyph = to_cp437('?');
        self.request(idx, Color::Named(NamedColor::Blue), Color::Named(NamedColor::Black), glyph, PARTICLE_LIFETIME_MS, level);
    }
}

} // verus!
