use vstd::prelude::*;
use crate::run_state::{InteractionTargetingAction, MapAction, MenuAction, StaticAction, TargetingAction};

verus! {

/// Key bindings: each key code bound to at most one action.
pub struct ControlMap<T> {
    pub bindings: Vec<(u32, T)>,
}

/// Whether no key is bound twice.
pub open spec fn keys_unique<T>(b: Seq<(u32, T)>) -> bool {
    forall|i: int, j: int| 0 <= i < j < b.len() ==> b[i].0 != b[j].0
}

/// The action bound to `key`, if any.
pub open spec fn bound_to<T>(b: Seq<(u32, T)>, key: u32) -> Option<T> {
    if exists|i: int| 0 <= i < b.len() && b[i].0 == key {
        Some(b[choose|i: int| 0 <= i < b.len() && b[i].0 == key].1)
    } else {
        None
    }
}

impl<T: Copy> ControlMap<T> {
    /// A map binding nothing.
    pub fn new() -> (m: Self)
        ensures
            m.bindings@.len() == 0,
    {
        ControlMap { bindings: Vec::new() }
    }

    /// The action bound to `key`, if any.
    pub fn get_value(&self, key: u32) -> (r: Option<T>)
        requires
            keys_unique(self.bindings@),
        ensures
            r == bound_to(self.bindings@, key),
    {
        let mut i: usize = 0;
        while i < self.bindings.len()
            invariant
                i <= self.bindings@.len(),
                keys_unique(self.bindings@),
                forall|j: int| 0 <= j < i ==> self.bindings@[j].0 != key,
            decreases self.bindings@.len() - i,
        {
            if self.bindings[i].0 == key {
                let v = self.bindings[i].1;
                proof {
                    let b = self.bindings@;
                    assert(0 <= i < b.len() && b[i as int].0 == key);
                    let w = choose|j: int| 0 <= j < b.len() && b[j].0 == key;
                    assert(b[w].0 == key);
                    if w < i {
                        assert(b[w].0 != b[i as int].0);
                    } else if w > i {
                        assert(b[i as int].0 != b[w].0);
                    }
                }
                return Some(v);
            }
            i += 1;
        }
        None
    }

    /// Binds `key` to `value`, replacing what `key` was bound to; every other binding stays.
    pub fn insert(&mut self, key: u32, value: T)
        requires
            keys_unique(old(self).bindings@),
        ensures
            keys_unique(final(self).bindings@),
            bound_to(final(self).bindings@, key) == Some(value),
            forall|k: u32| k != key ==> bound_to(#[trigger] final(self).bindings@, k) == bound_to(old(self).bindings@, k),
    {
        let mut kept: Vec<(u32, T)> = Vec::new();
        let mut i: usize = 0;
        while i < self.bindings.len()
            invariant
                i <= self.bindings@.len(),
                self.bindings@ == old(self).bindings@,
                keys_unique(old(self).bindings@),
                keys_unique(kept@),
                forall|j: int| 0 <= j < kept@.len() ==> kept@[j].0 != key,
                forall|j: int| #![trigger kept@[j]] 0 <= j < kept@.len() ==> exists|m: int| 0 <= m < i && #[trigger] old(self).bindings@[m] == kept@[j],
                forall|m: int| #![trigger old(self).bindings@[m]] 0 <= m < i && old(self).bindings@[m].0 != key ==> exists|j: int| 0 <= j < kept@.len() && kept@[j] == #[trigger] old(self).bindings@[m],
            decreases self.bindings@.len() - i,
        {
            let b = self.bindings[i];
            if b.0 != key {
                proof {
                    assert forall|j: int| 0 <= j < kept@.len() implies kept@[j].0 != b.0 by {
                        let m = choose|m: int| 0 <= m < i && #[trigger] old(self).bindings@[m] == kept@[j];
                        assert(m != i);
                    }
                }
                let ghost before = kept@;
                kept.push(b);
                proof {
                    assert forall|j: int| #![trigger kept@[j]] 0 <= j < kept@.len() implies exists|m: int| 0 <= m < i + 1 && #[trigger] old(self).bindings@[m] == kept@[j] by {
                        if j < before.len() {
                            let m = choose|m: int| 0 <= m < i && #[trigger] old(self).bindings@[m] == before[j];
                            assert(old(self).bindings@[m] == kept@[j]);
                        } else {
                            assert(old(self).bindings@[i as int] == kept@[j]);
                        }
                    }
                    assert forall|m: int| #![trigger old(self).bindings@[m]] 0 <= m < i + 1 && old(self).bindings@[m].0 != key implies exists|j: int| 0 <= j < kept@.len() && kept@[j] == #[trigger] old(self).bindings@[m] by {
                        if m < i {
                            let j = choose|j: int| 0 <= j < before.len() && before[j] == #[trigger] old(self).bindings@[m];
                            assert(kept@[j] == old(self).bindings@[m]);
                        } else {
                            assert(kept@[before.len() as int] == old(self).bindings@[m]);
                        }
                    }
                }
            }
            i += 1;
        }
        let ghost before = kept@;
        kept.push((key, value));
        self.bindings = kept;
        proof {
            let b = self.bindings@;
            let o = old(self).bindings@;
            assert(b[before.len() as int] == (key, value));
            assert(bound_to(b, key) == Some(value));
            assert forall|k: u32| k != key implies bound_to(#[trigger] self.bindings@, k) == bound_to(old(self).bindings@, k) by {
                if exists|i: int| 0 <= i < o.len() && o[i].0 == k {
                    let m = choose|i: int| 0 <= i < o.len() && o[i].0 == k;
                    let j = choose|j: int| 0 <= j < before.len() && before[j] == #[trigger] o[m];
                    assert(b[j] == o[m]);
                    let j2 = choose|i: int| 0 <= i < b.len() && b[i].0 == k;
                    assert(j2 == j);
                }
                if exists|i: int| 0 <= i < b.len() && b[i].0 == k {
                    let j = choose|i: int| 0 <= i < b.len() && b[i].0 == k;
                    assert(j < before.len());
                    let m = choose|m: int| 0 <= m < o.len() && #[trigger] o[m] == before[j];
                    assert(o[m].0 == k);
                }
            }
        }
    }
}

impl ControlMap<MapAction> {
    /// Unbinds every key bound to `value`; every other binding stays.
    pub fn remove_by_value(&mut self, value: MapAction)
        requires
            keys_unique(old(self).bindings@),
        ensures
            keys_unique(final(self).bindings@),
            final(self).bindings@ == old(self).bindings@.filter(|b: (u32, MapAction)| b.1 != value),
    {
        let ghost f = |b: (u32, MapAction)| b.1 != value;
        let mut kept: Vec<(u32, MapAction)> = Vec::new();
        let mut i: usize = 0;
        while i < self.bindings.len()
            invariant
                i <= self.bindings@.len(),
                self.bindings@ == old(self).bindings@,
                f == (|b: (u32, MapAction)| b.1 != value),
                kept@ == self.bindings@.subrange(0, i as int).filter(f),
                keys_unique(old(self).bindings@),
                keys_unique(kept@),
                forall|j: int| #![trigger kept@[j]] 0 <= j < kept@.len() ==> exists|m: int| 0 <= m < i && #[trigger] old(self).bindings@[m] == kept@[j],
            decreases self.bindings@.len() - i,
        {
            let b = self.bindings[i];
            if b.1 != value {
                proof {
                    assert forall|j: int| 0 <= j < kept@.len() implies kept@[j].0 != b.0 by {
                        let m = choose|m: int| 0 <= m < i && #[trigger] old(self).bindings@[m] == kept@[j];
                        assert(m != i);
                    }
                }
                let ghost before = kept@;
                kept.push(b);
                proof {
                    assert forall|j: int| #![trigger kept@[j]] 0 <= j < kept@.len() implies exists|m: int| 0 <= m < i + 1 && #[trigger] old(self).bindings@[m] == kept@[j] by {
                        if j < before.len() {
                            let m = choose|m: int| 0 <= m < i && #[trigger] old(self).bindings@[m] == before[j];
                            assert(old(self).bindings@[m] == kept@[j]);
                        } else {
                            assert(old(self).bindings@[i as int] == kept@[j]);
                        }
                    }
                }
            }
            proof {
                reveal(Seq::filter);
                let t = self.bindings@.subrange(0, i + 1);
                assert(t.drop_last() =~= self.bindings@.subrange(0, i as int));
                assert(t.last() == b);
            }
            i += 1;
        }
        assert(self.bindings@.subrange(0, self.bindings@.len() as int) =~= self.bindings@);
        self.bindings = kept;
    }

    /// The key bound to `value`, if any: the first such binding.
    pub fn get_control_for_value(&self, value: MapAction) -> (r: Option<u32>)
        ensures
            r matches Some(k) ==> exists|i: int| 0 <= i < self.bindings@.len() && self.bindings@[i] == (k, value)
                && forall|j: int| 0 <= j < i ==> self.bindings@[j].1 != value,
            r is None ==> forall|i: int| 0 <= i < self.bindings@.len() ==> self.bindings@[i].1 != value,
    {
        let mut i: usize = 0;
        while i < self.bindings.len()
            invariant
                i <= self.bindings@.len(),
                forall|j: int| 0 <= j < i ==> self.bindings@[j].1 != value,
            decreases self.bindings@.len() - i,
        {
            if self.bindings[i].1 == value {
                return Some(self.bindings[i].0);
            }
            i += 1;
        }
        None
    }
}

/// The key bindings of every screen.
pub struct ControlScheme {
    pub map: ControlMap<MapAction>,
    pub menu: ControlMap<MenuAction>,
    pub horizontal_menu: ControlMap<MenuAction>,
    pub interaction: ControlMap<InteractionTargetingAction>,
    pub static_screen: ControlMap<StaticAction>,
    pub targeting: ControlMap<TargetingAction>,
}

impl ControlScheme {
    /// Whether no map binds a key twice.
    pub open spec fn wf(&self) -> bool {
        &&& keys_unique(self.map.bindings@)
        &&& keys_unique(self.menu.bindings@)
        &&& keys_unique(self.horizontal_menu.bindings@)
        &&& keys_unique(self.interaction.bindings@)
        &&& keys_unique(self.static_screen.bindings@)
        &&& keys_unique(self.targeting.bindings@)
    }
}

/// The player's settings.
pub struct Settings {
    pub control_scheme: ControlScheme,
}

impl Settings {
    /// The settings with the saved bindings when there are any, the default ones otherwise.
    pub fn load(saved: Option<ControlScheme>, default: ControlScheme) -> (s: Settings)
        ensures
            s.control_scheme == (match saved { Some(c) => c, None => default }),
    {
        match saved {
            Some(c) => Settings { control_scheme: c },
            None => Settings { control_scheme: default },
        }
    }

    /// The bindings to write out when the settings are saved.
    pub fn save(&self) -> (c: &ControlScheme)
        ensures
            *c == self.control_scheme,
    {
        &self.control_scheme
    }
}

/// The directory the settings live in, under the user's home directory.
pub fn get_settings_dir(home: &str) -> (s: String)
    ensures
        s@ == home@ + "/Library/Application Support/apprentice"@,
{
    crate::text::join_text(home, "/Library/Application Support/apprentice")
}

/// The file the key bindings are saved in, inside the settings directory.
pub fn get_settings_filepath(settings_dir: &str) -> (s: String)
    ensures
        s@ == settings_dir@ + "/key-bindings.ron"@,
{
    crate::text::join_text(settings_dir, "/key-bindings.ron")
}

} // verus!
