//! One remote reward, fully resolved against the cached catalog and slot
//! data: ready for the reconciliation logic to grant.

use vstd::prelude::*;

use crate::item::CategorizedItemID;
use crate::protocol::{NetworkItem, FLAG_PROGRESSION, FLAG_TRAP, FLAG_USEFUL};

verus! {

/// All information about one reward delivered by the server, after the
/// session client has resolved names and host ids.
pub struct Item {
    /// The raw entry as the server sent it.
    pub ap: NetworkItem,
    /// The catalog's display name for the item.
    pub ap_name: String,
    /// The catalog's display name for the item's location, or `None`
    /// when the item has no location (such as starting inventory).
    pub location_name: Option<String>,
    /// The host item granted for this reward.
    pub ds3_id: CategorizedItemID,
    /// How many instances the host grants for this reward.
    pub quantity: u32,
    /// The absolute index of this reward among all rewards received over
    /// the life of the session, starting at zero.
    pub index: u64,
}

/// The mathematical value of an `Item`.
#[verifier::ext_equal]
pub struct ItemView {
    pub ap: NetworkItem,
    pub ap_name: Seq<char>,
    pub location_name: Option<Seq<char>>,
    pub ds3_id: CategorizedItemID,
    pub quantity: u32,
    pub index: u64,
}

impl View for Item {
    type V = ItemView;

    open spec fn view(&self) -> ItemView {
        ItemView {
            ap: self.ap,
            ap_name: self.ap_name@,
            location_name: self.location_name.deep_view(),
            ds3_id: self.ds3_id,
            quantity: self.quantity,
            index: self.index,
        }
    }
}

impl DeepView for Item {
    type V = ItemView;

    open spec fn deep_view(&self) -> ItemView {
        self@
    }
}

impl Item {
    /// The server's id for this item.
    pub fn ap_id(&self) -> (r: i64)
        ensures
            r == self.ap.item,
    {
        self.ap.item
    }

    /// The host's id for this item.
    pub fn ds3_id(&self) -> (r: CategorizedItemID)
        ensures
            r == self.ds3_id,
    {
        self.ds3_id
    }

    /// How many instances the host grants for this reward.
    pub fn quantity(&self) -> (r: u32)
        ensures
            r == self.quantity,
    {
        self.quantity
    }

    /// The server's id for the location this item was found at.
    pub fn ap_location_id(&self) -> (r: i64)
        ensures
            r == self.ap.location,
    {
        self.ap.location
    }

    /// Whether this item can unlock logical advancement.
    pub fn is_progression(&self) -> (r: bool)
        ensures
            r == (self.ap.flags & FLAG_PROGRESSION != 0),
    {
        self.ap.flags & FLAG_PROGRESSION != 0
    }

    /// Whether this item is especially useful.
    pub fn is_useful(&self) -> (r: bool)
        ensures
            r == (self.ap.flags & FLAG_USEFUL != 0),
    {
        self.ap.flags & FLAG_USEFUL != 0
    }

    /// Whether this item is a trap.
    pub fn is_trap(&self) -> (r: bool)
        ensures
            r == (self.ap.flags & FLAG_TRAP != 0),
    {
        self.ap.flags & FLAG_TRAP != 0
    }

    /// The catalog's display name for this item.
    pub fn ap_name(&self) -> (r: &str)
        ensures
            r@ == self@.ap_name,
    {
        self.ap_name.as_str()
    }

    /// The catalog's display name for this item's location, or `None`
    /// when the item has no location.
    pub fn location_name(&self) -> (r: Option<&str>)
        ensures
            match r {
                Some(n) => self@.location_name matches Some(m) && n@ == m,
                None => self@.location_name is None,
            },
    {
        match &self.location_name {
            Some(name) => Some(name.as_str()),
            None => None,
        }
    }

    /// The absolute index of this reward among all rewards received over
    /// the life of the session.
    pub fn index(&self) -> (r: u64)
        ensures
            r == self.index,
    {
        self.index
    }
}

} // verus!
