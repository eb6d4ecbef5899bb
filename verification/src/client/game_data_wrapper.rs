//! An inverted view of one game's name catalog: numeric id to display
//! name, which is the direction the session client needs.

use vstd::prelude::*;

use crate::protocol::{assoc, GameData, GameDataView};

verus! {

/// Inverts a name-to-id table into an id-to-name table, keeping order.
pub open spec fn invert_catalog(pairs: Seq<(Seq<char>, i64)>) -> Seq<(i64, Seq<char>)> {
    pairs.map_values(|p: (Seq<char>, i64)| (p.1, p.0))
}

/// One game's catalog, keyed by id.
pub struct GameDataWrapper {
    /// Item id to item display name.
    pub id_to_item_name: Vec<(i64, String)>,
    /// Location id to location display name.
    pub id_to_location_name: Vec<(i64, String)>,
}

/// The mathematical value of a `GameDataWrapper`.
#[verifier::ext_equal]
pub struct GameDataWrapperView {
    pub id_to_item_name: Seq<(i64, Seq<char>)>,
    pub id_to_location_name: Seq<(i64, Seq<char>)>,
}

impl View for GameDataWrapper {
    type V = GameDataWrapperView;

    open spec fn view(&self) -> GameDataWrapperView {
        GameDataWrapperView {
            id_to_item_name: self.id_to_item_name.deep_view(),
            id_to_location_name: self.id_to_location_name.deep_view(),
        }
    }
}

impl DeepView for GameDataWrapper {
    type V = GameDataWrapperView;

    open spec fn deep_view(&self) -> GameDataWrapperView {
        self@
    }
}

impl GameDataWrapperView {
    /// The wrapper a catalog inverts to.
    pub open spec fn of_game_data(gd: GameDataView) -> GameDataWrapperView {
        GameDataWrapperView {
            id_to_item_name: invert_catalog(gd.item_name_to_id),
            id_to_location_name: invert_catalog(gd.location_name_to_id),
        }
    }
}

impl GameDataWrapper {
    /// Builds the id-keyed catalog from the server's name-keyed one.
    pub fn new(inner: &GameData) -> (r: GameDataWrapper)
        ensures
            r@ == GameDataWrapperView::of_game_data(inner@),
    {
        let mut id_to_item_name: Vec<(i64, String)> = Vec::new();
        let mut i: usize = 0;
        while i < inner.item_name_to_id.len()
            invariant
                i <= inner.item_name_to_id@.len(),
                id_to_item_name.deep_view() == invert_catalog(
                    inner.item_name_to_id.deep_view().take(i as int),
                ),
            decreases inner.item_name_to_id@.len() - i,
        {
            let ghost prev = id_to_item_name.deep_view();
            let name = inner.item_name_to_id[i].0.clone();
            let id = inner.item_name_to_id[i].1;
            proof {
                assert(name == inner.item_name_to_id@[i as int].0);
            }
            id_to_item_name.push((id, name));
            proof {
                let dv = inner.item_name_to_id.deep_view();
                let new_dv = id_to_item_name.deep_view();
                assert(id_to_item_name@.len() == prev.len() + 1);
                assert(new_dv.len() == id_to_item_name@.len());
                assert(prev.len() == i);
                assert(new_dv.len() == i + 1);
                assert forall|k: int| 0 <= k < i + 1 implies new_dv[k] == invert_catalog(
                    dv.take(i + 1),
                )[k] by {
                    assert(dv.take(i + 1)[k] == dv[k]);
                    if k < i {
                        assert(new_dv[k] == prev[k]);
                        assert(prev[k] == invert_catalog(dv.take(i as int))[k]);
                        assert(invert_catalog(dv.take(i as int))[k] == (dv.take(i as int)[k].1, dv.take(i as int)[k].0));
                        assert(dv.take(i as int)[k] == dv[k]);
                    } else {
                        assert(new_dv[k] == (id, name@));
                        assert(dv[k] == (inner.item_name_to_id@[k].0@, inner.item_name_to_id@[k].1));
                    }
                }
                assert(new_dv =~~= invert_catalog(dv.take(i + 1)));
            }
            i += 1;
        }
        let mut id_to_location_name: Vec<(i64, String)> = Vec::new();
        let mut j: usize = 0;
        while j < inner.location_name_to_id.len()
            invariant
                j <= inner.location_name_to_id@.len(),
                id_to_location_name.deep_view() == invert_catalog(
                    inner.location_name_to_id.deep_view().take(j as int),
                ),
            decreases inner.location_name_to_id@.len() - j,
        {
            let ghost prev = id_to_location_name.deep_view();
            let name = inner.location_name_to_id[j].0.clone();
            let id = inner.location_name_to_id[j].1;
            proof {
                assert(name == inner.location_name_to_id@[j as int].0);
            }
            id_to_location_name.push((id, name));
            proof {
                let dv = inner.location_name_to_id.deep_view();
                let new_dv = id_to_location_name.deep_view();
                assert(id_to_location_name@.len() == prev.len() + 1);
                assert(new_dv.len() == id_to_location_name@.len());
                assert(prev.len() == j);
                assert(new_dv.len() == j + 1);
                assert forall|k: int| 0 <= k < j + 1 implies new_dv[k] == invert_catalog(
                    dv.take(j + 1),
                )[k] by {
                    assert(dv.take(j + 1)[k] == dv[k]);
                    if k < j {
                        assert(new_dv[k] == prev[k]);
                        assert(prev[k] == invert_catalog(dv.take(j as int))[k]);
                        assert(invert_catalog(dv.take(j as int))[k] == (dv.take(j as int)[k].1, dv.take(j as int)[k].0));
                        assert(dv.take(j as int)[k] == dv[k]);
                    } else {
                        assert(new_dv[k] == (id, name@));
                        assert(dv[k] == (inner.location_name_to_id@[k].0@, inner.location_name_to_id@[k].1));
                    }
                }
                assert(new_dv =~~= invert_catalog(dv.take(j + 1)));
            }
            j += 1;
        }
        let r = GameDataWrapper { id_to_item_name, id_to_location_name };
        proof {
            assert(inner.item_name_to_id.deep_view().take(i as int) =~~= inner.item_name_to_id.deep_view());
            assert(inner.location_name_to_id.deep_view().take(j as int)
                =~~= inner.location_name_to_id.deep_view());
        }
        r
    }

    /// Returns the display name for the item `id`. The catalog is
    /// guaranteed by the server to name every id it delivers, so callers
    /// must only ask for ids it defines.
    pub fn item_name(&self, id: i64) -> (r: String)
        requires
            assoc(self@.id_to_item_name, id) is Some,
        ensures
            Some(r@) == assoc(self@.id_to_item_name, id),
    {
        let mut i: usize = 0;
        proof {
            assert(self@.id_to_item_name.skip(0) =~= self@.id_to_item_name);
        }
        while i < self.id_to_item_name.len()
            invariant
                i <= self.id_to_item_name@.len(),
                assoc(self@.id_to_item_name, id) == assoc(self@.id_to_item_name.skip(i as int), id),
            decreases self.id_to_item_name@.len() - i,
        {
            proof {
                assert(self@.id_to_item_name.skip(i as int)[0] == self@.id_to_item_name[i as int]);
                assert(self@.id_to_item_name.skip(i as int).drop_first() =~= self@.id_to_item_name.skip(
                    i + 1,
                ));
            }
            if self.id_to_item_name[i].0 == id {
                return self.id_to_item_name[i].1.clone();
            }
            i += 1;
        }
        proof {
            assert(false);
        }
        unreached()
    }

    /// Returns the display name for the item `id`, or `None` when the
    /// catalog does not define it. Used when resolving rich messages,
    /// which may name items of other games.
    pub fn item_name_opt(&self, id: i64) -> (r: Option<String>)
        ensures
            match r {
                Some(n) => assoc(self@.id_to_item_name, id) == Some(n@),
                None => assoc(self@.id_to_item_name, id) is None,
            },
    {
        let mut i: usize = 0;
        proof {
            assert(self@.id_to_item_name.skip(0) =~= self@.id_to_item_name);
        }
        while i < self.id_to_item_name.len()
            invariant
                i <= self.id_to_item_name@.len(),
                assoc(self@.id_to_item_name, id) == assoc(self@.id_to_item_name.skip(i as int), id),
            decreases self.id_to_item_name@.len() - i,
        {
            proof {
                assert(self@.id_to_item_name.skip(i as int)[0] == self@.id_to_item_name[i as int]);
                assert(self@.id_to_item_name.skip(i as int).drop_first() =~= self@.id_to_item_name.skip(
                    i + 1,
                ));
            }
            if self.id_to_item_name[i].0 == id {
                return Some(self.id_to_item_name[i].1.clone());
            }
            i += 1;
        }
        None
    }

    /// Returns the display name for the location `id`, or `None` when
    /// the catalog does not define it.
    pub fn location_name(&self, id: i64) -> (r: Option<String>)
        ensures
            match r {
                Some(n) => assoc(self@.id_to_location_name, id) == Some(n@),
                None => assoc(self@.id_to_location_name, id) is None,
            },
    {
        let mut i: usize = 0;
        proof {
            assert(self@.id_to_location_name.skip(0) =~= self@.id_to_location_name);
        }
        while i < self.id_to_location_name.len()
            invariant
                i <= self.id_to_location_name@.len(),
                assoc(self@.id_to_location_name, id) == assoc(
                    self@.id_to_location_name.skip(i as int),
                    id,
                ),
            decreases self.id_to_location_name@.len() - i,
        {
            proof {
                assert(self@.id_to_location_name.skip(i as int)[0] == self@.id_to_location_name[i as int]);
                assert(self@.id_to_location_name.skip(i as int).drop_first()
                    =~= self@.id_to_location_name.skip(i + 1));
            }
            if self.id_to_location_name[i].0 == id {
                return Some(self.id_to_location_name[i].1.clone());
            }
            i += 1;
        }
        None
    }
}

} // verus!
