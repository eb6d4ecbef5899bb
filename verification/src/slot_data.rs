//! The per-slot configuration the generator stores with the server and
//! delivers in the handshake payload.

use vstd::prelude::*;

use crate::item::CategorizedItemID;

verus! {

/// A remote item id used as a lookup key. The wire format writes these
/// keys as strings; the surrounding application parses them before
/// handing the table over.
#[derive(Clone, Copy, PartialEq, Eq, Structural, Debug, Hash)]
pub struct I64Key(pub i64);

/// The options chosen by this player when the room was generated.
#[derive(Clone, Copy, PartialEq, Eq, Structural, Debug)]
pub struct Options {
    /// Whether to kill the player when other players die, and vice
    /// versa.
    pub death_link: bool,

    /// Whether this room expects the host's expansions to be installed.
    pub enable_dlc: bool,
}

/// The slot data supplied by the server, describing how to map remote
/// rewards onto the host game.
pub struct SlotData {
    /// Remote item id to the host item granted for it.
    pub ap_ids_to_item_ids: Vec<(I64Key, CategorizedItemID)>,

    /// Remote item id to how many instances that id grants. Ids absent
    /// from this table grant one instance.
    pub item_counts: Vec<(I64Key, u32)>,

    /// The options chosen by this player.
    pub options: Options,
}

/// The first value associated with `key`, if any. This is the spec-level
/// meaning of the lookups below.
pub open spec fn assoc_i64<T>(pairs: Seq<(I64Key, T)>, key: i64) -> Option<T>
    decreases pairs.len(),
{
    if pairs.len() == 0 {
        None
    } else if pairs[0].0.0 == key {
        Some(pairs[0].1)
    } else {
        assoc_i64(pairs.drop_first(), key)
    }
}

impl SlotData {
    /// Looks up the host item granted for the remote item `key`.
    pub fn item_id_for(&self, key: i64) -> (r: Option<CategorizedItemID>)
        ensures
            r == assoc_i64(self.ap_ids_to_item_ids@, key),
    {
        let mut i: usize = 0;
        proof {
            assert(self.ap_ids_to_item_ids@.skip(0) =~= self.ap_ids_to_item_ids@);
        }
        while i < self.ap_ids_to_item_ids.len()
            invariant
                i <= self.ap_ids_to_item_ids@.len(),
                assoc_i64(self.ap_ids_to_item_ids@, key) == assoc_i64(
                    self.ap_ids_to_item_ids@.skip(i as int),
                    key,
                ),
            decreases self.ap_ids_to_item_ids@.len() - i,
        {
            let pair = self.ap_ids_to_item_ids[i];
            proof {
                assert(self.ap_ids_to_item_ids@.skip(i as int)[0] == self.ap_ids_to_item_ids@[i as int]);
                assert(self.ap_ids_to_item_ids@.skip(i as int).drop_first()
                    =~= self.ap_ids_to_item_ids@.skip(i + 1));
            }
            if pair.0.0 == key {
                return Some(pair.1);
            }
            i += 1;
        }
        None
    }

    /// Looks up how many instances the remote item `key` grants; one
    /// when the table has no entry.
    pub fn count_for(&self, key: i64) -> (r: u32)
        ensures
            r == match assoc_i64(self.item_counts@, key) {
                Some(n) => n,
                None => 1u32,
            },
    {
        let mut i: usize = 0;
        proof {
            assert(self.item_counts@.skip(0) =~= self.item_counts@);
        }
        while i < self.item_counts.len()
            invariant
                i <= self.item_counts@.len(),
                assoc_i64(self.item_counts@, key) == assoc_i64(
                    self.item_counts@.skip(i as int),
                    key,
                ),
            decreases self.item_counts@.len() - i,
        {
            let pair = self.item_counts[i];
            proof {
                assert(self.item_counts@.skip(i as int)[0] == self.item_counts@[i as int]);
                assert(self.item_counts@.skip(i as int).drop_first() =~= self.item_counts@.skip(
                    i + 1,
                ));
            }
            if pair.0.0 == key {
                return pair.1;
            }
            i += 1;
        }
        1
    }
}

} // verus!
