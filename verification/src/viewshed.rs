use vstd::prelude::*;
use crate::components::{Position, Viewshed};
use crate::ecs::{comp, get, lookup, present, Entity};

verus! {

/// A viewshed's tiles, range and dirty flag.
pub struct ViewshedView {
    pub visible: Seq<usize>,
    pub range: i32,
    pub dirty: bool,
}

/// The viewsheds of all entities, read as plain values.
pub open spec fn viewsheds_view(v: Seq<Option<Viewshed>>) -> Seq<Option<ViewshedView>> {
    Seq::new(v.len(), |i: int| match v[i] {
        Some(w) => Some(ViewshedView { visible: w.visible_tiles@, range: w.range, dirty: w.dirty }),
        None => None,
    })
}

/// The viewsheds with entity `e`'s marked for recomputation, if it has one.
pub open spec fn mark_dirty(v: Seq<Option<ViewshedView>>, e: int) -> Seq<Option<ViewshedView>> {
    if 0 <= e < v.len() && v[e] is Some {
        v.update(e, Some(ViewshedView { dirty: true, ..v[e]->0 }))
    } else {
        v
    }
}

/// Marks entity `e`'s viewshed, if it has one, for recomputation.
pub fn mark_viewshed_dirty(viewsheds: &mut Vec<Option<Viewshed>>, e: Entity)
    ensures
        viewsheds_view(final(viewsheds)@) == mark_dirty(viewsheds_view(old(viewsheds)@), e as int),
        final(viewsheds)@.len() == old(viewsheds)@.len(),
{
    if e < viewsheds.len() {
        let mut slot: Option<Viewshed> = None;
        viewsheds.set_and_swap(e, &mut slot);
        match slot {
            Some(mut v) => {
                v.dirty = true;
                viewsheds.set(e, Some(v));
            },
            None => {},
        }
        assert(viewsheds_view(viewsheds@) =~= mark_dirty(viewsheds_view(old(viewsheds)@), e as int));
    }
}

/// Whether entity `e` stands on a level flagged in `touched`.
pub open spec fn on_touched_level(positions: Seq<Option<Position>>, touched: Seq<bool>, e: int) -> bool {
    &&& present(positions, e)
    &&& (comp(positions, e).level as int) < touched.len()
    &&& touched[comp(positions, e).level as int]
}

/// The viewsheds with those of the entities standing on a flagged level marked for recomputation.
pub open spec fn dirty_on_levels(v: Seq<Option<ViewshedView>>, positions: Seq<Option<Position>>, touched: Seq<bool>) -> Seq<Option<ViewshedView>> {
    Seq::new(v.len(), |e: int| if v[e] is Some && on_touched_level(positions, touched, e) {
        Some(ViewshedView { dirty: true, ..v[e]->0 })
    } else {
        v[e]
    })
}

/// Marks for recomputation the viewshed of every entity that stands on a level flagged in `touched`.
pub fn mark_dirty_on_levels(viewsheds: &mut Vec<Option<Viewshed>>, positions: &Vec<Option<Position>>, touched: &Vec<bool>)
    ensures
        viewsheds_view(final(viewsheds)@) == dirty_on_levels(viewsheds_view(old(viewsheds)@), positions@, touched@),
{
    let ghost v0 = viewsheds_view(viewsheds@);
    let n = viewsheds.len();
    let mut e: usize = 0;
    while e < n
        invariant
            e <= n,
            n == v0.len(),
            viewsheds@.len() == n,
            v0 == viewsheds_view(old(viewsheds)@),
            forall|i: int| 0 <= i < n ==> #[trigger] viewsheds_view(viewsheds@)[i] == (if i < e {
                dirty_on_levels(v0, positions@, touched@)[i]
            } else {
                v0[i]
            }),
        decreases n - e,
    {
        let ghost before = viewsheds_view(viewsheds@);
        match get(positions, e) {
            Some(p) => {
                let l = p.level as usize;
                if l < touched.len() && touched[l] {
                    mark_viewshed_dirty(viewsheds, e);
                }
            },
            None => {},
        }
        proof {
            assert forall|i: int| 0 <= i < n implies #[trigger] viewsheds_view(viewsheds@)[i] == (if i < e + 1 {
                dirty_on_levels(v0, positions@, touched@)[i]
            } else {
                v0[i]
            }) by {
                assert(viewsheds_view(viewsheds@)[i] == mark_dirty(before, e as int)[i] || viewsheds_view(viewsheds@)[i] == before[i]);
            }
        }
        e += 1;
    }
    assert(viewsheds_view(viewsheds@) =~= dirty_on_levels(v0, positions@, touched@));
}

} // verus!
