//! The record persisted alongside the player's save file: which delivery
//! indices have already been granted, which locations have been checked,
//! and which room seed the file belongs to.
//!
//! The granted and checked sets are kept as strictly increasing vectors,
//! which gives every record exactly one byte encoding.

use vstd::prelude::*;

verus! {

/// Whether a sequence of indices is strictly increasing, and so a
/// canonical representation of a set.
pub open spec fn strictly_increasing_u64(s: Seq<u64>) -> bool {
    forall|i: int, j: int| 0 <= i < j < s.len() ==> s[i] < s[j]
}

/// Whether a sequence of ids is strictly increasing, and so a canonical
/// representation of a set.
pub open spec fn strictly_increasing_i64(s: Seq<i64>) -> bool {
    forall|i: int, j: int| 0 <= i < j < s.len() ==> s[i] < s[j]
}

/// The mathematical value of a `SaveData`.
#[verifier::ext_equal]
pub struct SaveDataView {
    pub items_granted: Seq<u64>,
    pub locations: Seq<i64>,
    pub seed: Option<Seq<char>>,
}

impl SaveDataView {
    /// The invariant, on the mathematical value.
    pub open spec fn wf(self) -> bool {
        &&& strictly_increasing_u64(self.items_granted)
        &&& strictly_increasing_i64(self.locations)
    }
}

/// Data that is saved and loaded along with the player's game save.
pub struct SaveData {
    /// The delivery indices of every remote reward already granted to
    /// this save file, in increasing order. Keyed by delivery index, not
    /// by item id, so that re-delivery and replay never grant twice while
    /// two genuine copies of one item still grant twice.
    pub items_granted: Vec<u64>,

    /// The ids of every remote location this save file has checked, in
    /// increasing order.
    pub locations: Vec<i64>,

    /// The room seed this save file last connected to. Used to detect a
    /// save being loaded against the wrong multiworld.
    pub seed: Option<String>,
}

impl View for SaveData {
    type V = SaveDataView;

    open spec fn view(&self) -> SaveDataView {
        SaveDataView {
            items_granted: self.items_granted@,
            locations: self.locations@,
            seed: self.seed.deep_view(),
        }
    }
}

impl DeepView for SaveData {
    type V = SaveDataView;

    open spec fn deep_view(&self) -> SaveDataView {
        self@
    }
}

impl SaveData {
    /// The value of the empty record.
    pub open spec fn empty_view() -> SaveDataView {
        SaveDataView { items_granted: Seq::empty(), locations: Seq::empty(), seed: None }
    }

    /// The invariant every constructed record satisfies.
    pub open spec fn wf(&self) -> bool {
        &&& strictly_increasing_u64(self.items_granted@)
        &&& strictly_increasing_i64(self.locations@)
    }

    /// The record a brand-new save file starts from.
    pub fn empty() -> (r: SaveData)
        ensures
            r.wf(),
            r.items_granted@.len() == 0,
            r.locations@.len() == 0,
            r.seed is None,
    {
        SaveData { items_granted: Vec::new(), locations: Vec::new(), seed: None }
    }

    /// How many rewards have been granted so far; the store's cursor.
    pub fn granted_count(&self) -> (r: usize)
        ensures
            r == self.items_granted@.len(),
    {
        self.items_granted.len()
    }

    /// Whether the reward at `index` has already been granted.
    pub fn is_granted(&self, index: u64) -> (r: bool)
        ensures
            r == self.items_granted@.contains(index),
    {
        let mut i: usize = 0;
        while i < self.items_granted.len()
            invariant
                i <= self.items_granted@.len(),
                forall|j: int| 0 <= j < i ==> self.items_granted@[j] != index,
            decreases self.items_granted@.len() - i,
        {
            if self.items_granted[i] == index {
                return true;
            }
            i += 1;
        }
        false
    }

    /// Records the reward at `index` as granted.
    pub fn mark_granted(&mut self, index: u64)
        requires
            old(self).wf(),
        ensures
            final(self).wf(),
            forall|e: u64|
                final(self).items_granted@.contains(e) <==> (old(self).items_granted@.contains(e)
                    || e == index),
            final(self).items_granted@.len() <= old(self).items_granted@.len() + 1,
            old(self).items_granted@.contains(index) ==> final(self).items_granted@ == old(
                self,
            ).items_granted@,
            !old(self).items_granted@.contains(index) ==> final(self).items_granted@.len() == old(
                self,
            ).items_granted@.len() + 1,
            final(self).locations == old(self).locations,
            final(self).seed == old(self).seed,
    {
        let ghost orig = self.items_granted@;
        let mut i: usize = 0;
        while i < self.items_granted.len() && self.items_granted[i] < index
            invariant
                self.items_granted@ == orig,
                i <= orig.len(),
                forall|j: int| 0 <= j < i ==> orig[j] < index,
            decreases orig.len() - i,
        {
            i += 1;
        }
        if i < self.items_granted.len() && self.items_granted[i] == index {
            return ;
        }
        proof {
            orig.insert_ensures(i as int, index);
            assert forall|e: u64| #[trigger]
                orig.insert(i as int, index).contains(e) implies (orig.contains(e) || e
                == index) by {
                let k = choose|k: int|
                    0 <= k < orig.insert(i as int, index).len() && orig.insert(i as int, index)[k]
                        == e;
                if k < i {
                    assert(orig[k] == e);
                } else if k > i {
                    assert(orig[k - 1] == e);
                }
            }
            assert forall|e: u64| orig.contains(e) || e == index implies #[trigger]
                orig.insert(i as int, index).contains(e) by {
                if orig.contains(e) {
                    let k = choose|k: int| 0 <= k < orig.len() && orig[k] == e;
                    if k < i {
                        assert(orig.insert(i as int, index)[k] == e);
                    } else {
                        assert(orig.insert(i as int, index)[k + 1] == e);
                    }
                } else {
                    assert(orig.insert(i as int, index)[i as int] == e);
                }
            }
            assert forall|p: int, q: int|
                0 <= p < q < orig.insert(i as int, index).len() implies orig.insert(i as int, index)[p]
                < orig.insert(i as int, index)[q] by {
                let s = orig.insert(i as int, index);
                if p < i && q < i {
                    assert(s[p] == orig[p] && s[q] == orig[q]);
                } else if p < i && q == i {
                    assert(s[p] == orig[p] && s[q] == index);
                    assert(orig[i as int] >= index || i == orig.len());
                    if i < orig.len() {
                        assert(orig[p] < orig[i as int]);
                        assert(orig[i as int] != index);
                        assert(orig[p] < index);
                    } else {
                        assert(orig[p] < index);
                    }
                } else if p < i && q > i {
                    assert(s[p] == orig[p] && s[q] == orig[q - 1]);
                    assert(p <= q - 1);
                    if p == q - 1 {
                        assert(orig[p] < index);
                        assert(p == i - 1 || p < i - 1);
                        assert(orig[q - 1] == orig[p]);
                        assert(false);
                    }
                } else if p == i && q > i {
                    assert(s[p] == index && s[q] == orig[q - 1]);
                    assert(q - 1 >= i);
                    assert(orig[i as int] >= index);
                    assert(orig[i as int] != index);
                    if q - 1 == i {
                        assert(s[q] == orig[i as int]);
                    } else {
                        assert(orig[i as int] < orig[q - 1]);
                    }
                } else {
                    assert(s[p] == orig[p - 1] && s[q] == orig[q - 1]);
                }
            }
        }
        self.items_granted.insert(i, index);
    }

    /// Forgets every granted reward, forcing full re-delivery. Invoked
    /// when the record is found to be ahead of what the session reports,
    /// which signals save corruption.
    pub fn clear_granted(&mut self)
        requires
            old(self).wf(),
        ensures
            final(self).wf(),
            final(self).items_granted@.len() == 0,
            final(self).locations == old(self).locations,
            final(self).seed == old(self).seed,
    {
        self.items_granted.clear();
    }

    /// How many locations have been checked so far.
    pub fn locations_count(&self) -> (r: usize)
        ensures
            r == self.locations@.len(),
    {
        self.locations.len()
    }

    /// Records `id` as a checked location.
    pub fn record_location(&mut self, id: i64)
        requires
            old(self).wf(),
        ensures
            final(self).wf(),
            forall|e: i64|
                final(self).locations@.contains(e) <==> (old(self).locations@.contains(e) || e
                    == id),
            final(self).locations@.len() <= old(self).locations@.len() + 1,
            old(self).locations@.contains(id) ==> final(self).locations@ == old(self).locations@,
            !old(self).locations@.contains(id) ==> final(self).locations@.len() == old(
                self,
            ).locations@.len() + 1,
            final(self).items_granted == old(self).items_granted,
            final(self).seed == old(self).seed,
    {
        let ghost orig = self.locations@;
        let mut i: usize = 0;
        while i < self.locations.len() && self.locations[i] < id
            invariant
                self.locations@ == orig,
                i <= orig.len(),
                forall|j: int| 0 <= j < i ==> orig[j] < id,
            decreases orig.len() - i,
        {
            i += 1;
        }
        if i < self.locations.len() && self.locations[i] == id {
            return ;
        }
        proof {
            orig.insert_ensures(i as int, id);
            assert forall|e: i64| #[trigger]
                orig.insert(i as int, id).contains(e) implies (orig.contains(e) || e == id) by {
                let k = choose|k: int|
                    0 <= k < orig.insert(i as int, id).len() && orig.insert(i as int, id)[k] == e;
                if k < i {
                    assert(orig[k] == e);
                } else if k > i {
                    assert(orig[k - 1] == e);
                }
            }
            assert forall|e: i64| orig.contains(e) || e == id implies #[trigger]
                orig.insert(i as int, id).contains(e) by {
                if orig.contains(e) {
                    let k = choose|k: int| 0 <= k < orig.len() && orig[k] == e;
                    if k < i {
                        assert(orig.insert(i as int, id)[k] == e);
                    } else {
                        assert(orig.insert(i as int, id)[k + 1] == e);
                    }
                } else {
                    assert(orig.insert(i as int, id)[i as int] == e);
                }
            }
            assert forall|p: int, q: int|
                0 <= p < q < orig.insert(i as int, id).len() implies orig.insert(i as int, id)[p]
                < orig.insert(i as int, id)[q] by {
                let s = orig.insert(i as int, id);
                if p < i && q < i {
                    assert(s[p] == orig[p] && s[q] == orig[q]);
                } else if p < i && q == i {
                    assert(s[p] == orig[p] && s[q] == id);
                } else if p < i && q > i {
                    assert(s[p] == orig[p] && s[q] == orig[q - 1]);
                    if p == q - 1 {
                        assert(orig[p] < id);
                        assert(false);
                    }
                } else if p == i && q > i {
                    assert(s[p] == id && s[q] == orig[q - 1]);
                    assert(orig[i as int] >= id);
                    assert(orig[i as int] != id);
                    if q - 1 == i {
                        assert(s[q] == orig[i as int]);
                    } else {
                        assert(orig[i as int] < orig[q - 1]);
                    }
                } else {
                    assert(s[p] == orig[p - 1] && s[q] == orig[q - 1]);
                }
            }
        }
        self.locations.insert(i, id);
    }

    /// Whether this save file's recorded seed equals `other`, indicating
    /// that the file was created for the same room.
    pub fn seed_matches(&self, other: &str) -> (r: bool)
        ensures
            r == self.seed_matches_spec(other@),
    {
        match &self.seed {
            Some(seed) => {
                let owned = other.to_owned();
                seed.eq(&owned)
            },
            None => false,
        }
    }

    /// What `seed_matches` returns: true exactly when a seed is recorded
    /// and it equals `other`.
    pub open spec fn seed_matches_spec(&self, other: Seq<char>) -> bool {
        match self.seed {
            Some(seed) => seed@ == other,
            None => false,
        }
    }
}

impl Default for SaveData {
    /// The empty record.
    fn default() -> (r: SaveData)
        ensures
            r.wf(),
            r.items_granted@.len() == 0,
            r.locations@.len() == 0,
            r.seed is None,
    {
        SaveData::empty()
    }
}

} // verus!
