use vstd::prelude::*;
use crate::level::{Level, TileType};

verus! {

/// All floors of the dungeon, indexed by depth.
pub struct Dungeon {
    pub levels: Vec<Level>,
}

/// Every level is well formed and has `count` tiles.
pub open spec fn levels_wf(levels: Seq<Level>, count: int) -> bool {
    forall|l: int| #![trigger levels[l]] 0 <= l < levels.len() ==> levels[l].wf() && levels[l].tile_count() == count
}

/// Whether two levels agree on everything but the tiles, door flags and blocked/opaque/lit tables.
pub open spec fn same_layout(a: Level, b: Level) -> bool {
    &&& a.width == b.width
    &&& a.height == b.height
    &&& a.depth == b.depth
    &&& a.revealed_tiles == b.revealed_tiles
    &&& a.visible_tiles == b.visible_tiles
    &&& a.tile_content == b.tile_content
    &&& a.stairs_up == b.stairs_up
    &&& a.stairs_down == b.stairs_down
    &&& a.exit == b.exit
}

/// Whether level `b` is level `a` with the given tiles and blocked, opaque and lit tables.
pub open spec fn level_with(a: Level, b: Level, tiles: Seq<TileType>, blocked: Seq<bool>, opaque: Seq<bool>, lit: Seq<bool>) -> bool {
    &&& same_layout(a, b)
    &&& b.tiles@ == tiles
    &&& b.blocked@ == blocked
    &&& b.opaque@ == opaque
    &&& b.lit_tiles@ == lit
}

pub(crate) fn placeholder_level() -> (l: Level)
    ensures
        l.tiles@.len() == 0,
{
    Level {
        width: 0,
        height: 0,
        depth: 0,
        tiles: Vec::new(),
        revealed_tiles: Vec::new(),
        visible_tiles: Vec::new(),
        blocked: Vec::new(),
        opaque: Vec::new(),
        lit_tiles: Vec::new(),
        tile_content: Vec::new(),
        stairs_up: None,
        stairs_down: None,
        exit: None,
    }
}

/// The tile-content index of level `l` is unchanged and every other level too.
pub open spec fn only_level_changed(a: Seq<Level>, b: Seq<Level>, l: int) -> bool {
    &&& b.len() == a.len()
    &&& forall|j: int| 0 <= j < a.len() && j != l ==> #[trigger] b[j] == a[j]
}

/// Replacing one level by a well-formed one of the same size keeps the dungeon well formed.
pub proof fn lemma_levels_wf_keep(a: Seq<Level>, b: Seq<Level>, l: int, count: int)
    requires
        levels_wf(a, count),
        only_level_changed(a, b, l),
        0 <= l < a.len() ==> b[l].wf() && b[l].tile_count() == a[l].tile_count(),
    ensures
        levels_wf(b, count),
{
    assert forall|j: int| #![trigger b[j]] 0 <= j < b.len() implies b[j].wf() && b[j].tile_count() == count by {
        assert(a[j].wf() && a[j].tile_count() == count);
    }
}

impl Dungeon {
    /// Sets tile `idx` of level `l` to `tile`, its blocked flag to `blocked` and, when given,
    /// its opaque flag to `opaque`.
    pub fn set_tile_flags(&mut self, l: usize, idx: usize, tile: TileType, blocked: bool, opaque: Option<bool>)
        requires
            l < old(self).levels@.len(),
            old(self).levels@[l as int].wf(),
            idx < old(self).levels@[l as int].tiles@.len(),
        ensures
            only_level_changed(old(self).levels@, final(self).levels@, l as int),
            level_with(
                old(self).levels@[l as int],
                final(self).levels@[l as int],
                old(self).levels@[l as int].tiles@.update(idx as int, tile),
                old(self).levels@[l as int].blocked@.update(idx as int, blocked),
                match opaque {
                    Some(o) => old(self).levels@[l as int].opaque@.update(idx as int, o),
                    None => old(self).levels@[l as int].opaque@,
                },
                old(self).levels@[l as int].lit_tiles@,
            ),
            final(self).levels@[l as int].wf(),
            final(self).levels@[l as int].tile_count() == old(self).levels@[l as int].tile_count(),
    {
        let mut lv = placeholder_level();
        self.levels.set_and_swap(l, &mut lv);
        lv.tiles.set(idx, tile);
        lv.blocked.set(idx, blocked);
        match opaque {
            Some(o) => lv.opaque.set(idx, o),
            None => {},
        }
        self.levels.set_and_swap(l, &mut lv);
    }

    /// Sets the blocked flag of tile `idx` of level `l`.
    pub fn set_blocked(&mut self, l: usize, idx: usize, value: bool)
        requires
            l < old(self).levels@.len(),
            old(self).levels@[l as int].wf(),
            idx < old(self).levels@[l as int].tiles@.len(),
        ensures
            only_level_changed(old(self).levels@, final(self).levels@, l as int),
            level_with(
                old(self).levels@[l as int],
                final(self).levels@[l as int],
                old(self).levels@[l as int].tiles@,
                old(self).levels@[l as int].blocked@.update(idx as int, value),
                old(self).levels@[l as int].opaque@,
                old(self).levels@[l as int].lit_tiles@,
            ),
            final(self).levels@[l as int].wf(),
            final(self).levels@[l as int].tile_count() == old(self).levels@[l as int].tile_count(),
    {
        let mut lv = placeholder_level();
        self.levels.set_and_swap(l, &mut lv);
        lv.blocked.set(idx, value);
        self.levels.set_and_swap(l, &mut lv);
    }

    /// Marks every tile of level `l` unlit.
    pub fn clear_lit(&mut self, l: usize)
        requires
            l < old(self).levels@.len(),
            old(self).levels@[l as int].wf(),
        ensures
            only_level_changed(old(self).levels@, final(self).levels@, l as int),
            level_with(
                old(self).levels@[l as int],
                final(self).levels@[l as int],
                old(self).levels@[l as int].tiles@,
                old(self).levels@[l as int].blocked@,
                old(self).levels@[l as int].opaque@,
                Seq::new(old(self).levels@[l as int].lit_tiles@.len(), |i: int| false),
            ),
            final(self).levels@[l as int].wf(),
            final(self).levels@[l as int].tile_count() == old(self).levels@[l as int].tile_count(),
    {
        let mut lv = placeholder_level();
        self.levels.set_and_swap(l, &mut lv);
        let ghost before = lv;
        let n = lv.lit_tiles.len();
        let mut i: usize = 0;
        while i < n
            invariant
                i <= n,
                n == before.lit_tiles@.len(),
                lv.lit_tiles@.len() == n,
                forall|j: int| 0 <= j < i ==> !#[trigger] lv.lit_tiles@[j],
                lv.tiles == before.tiles && lv.blocked == before.blocked && lv.opaque == before.opaque,
                lv.width == before.width && lv.height == before.height && lv.depth == before.depth,
                lv.revealed_tiles == before.revealed_tiles && lv.visible_tiles == before.visible_tiles,
                lv.tile_content == before.tile_content,
                lv.stairs_up == before.stairs_up && lv.stairs_down == before.stairs_down && lv.exit == before.exit,
            decreases n - i,
        {
            lv.lit_tiles.set(i, false);
            i += 1;
        }
        assert(lv.lit_tiles@ =~= Seq::new(n as nat, |j: int| false));
        self.levels.set_and_swap(l, &mut lv);
    }

    /// Marks tile `t` of level `l` lit.
    pub fn light_tile(&mut self, l: usize, t: usize)
        requires
            l < old(self).levels@.len(),
            old(self).levels@[l as int].wf(),
            t < old(self).levels@[l as int].lit_tiles@.len(),
        ensures
            only_level_changed(old(self).levels@, final(self).levels@, l as int),
            level_with(
                old(self).levels@[l as int],
                final(self).levels@[l as int],
                old(self).levels@[l as int].tiles@,
                old(self).levels@[l as int].blocked@,
                old(self).levels@[l as int].opaque@,
                old(self).levels@[l as int].lit_tiles@.update(t as int, true),
            ),
            final(self).levels@[l as int].wf(),
            final(self).levels@[l as int].tile_count() == old(self).levels@[l as int].tile_count(),
    {
        let mut lv = placeholder_level();
        self.levels.set_and_swap(l, &mut lv);
        lv.lit_tiles.set(t, true);
        self.levels.set_and_swap(l, &mut lv);
    }
}

} // verus!
