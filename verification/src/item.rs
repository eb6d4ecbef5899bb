//! The host game's item identifiers, the parameter rows the logic reads
//! from them, and the rewriting of placeholder items into their real
//! equivalents.
//!
//! Placeholder items injected by the generator are told apart from
//! vanilla items purely by numeric range, so the thresholds live here as
//! one documented table.

use vstd::prelude::*;

use crate::save_data::SaveData;

verus! {

/// The host's item categories.
#[derive(Clone, Copy, PartialEq, Eq, Structural, Debug)]
pub enum ItemCategory {
    Weapon,
    Protector,
    Accessory,
    Goods,
}

/// Lowest id above which a weapon is a generator-injected placeholder.
pub const SYNTHETIC_WEAPON_FLOOR: u32 = 23010000;

/// Lowest id above which an armor piece is a generator-injected
/// placeholder.
pub const SYNTHETIC_PROTECTOR_FLOOR: u32 = 99003000;

/// Lowest id above which an accessory or a consumable is a
/// generator-injected placeholder.
pub const SYNTHETIC_GOODS_FLOOR: u32 = 3780000;

/// The uncategorized id of the consumable that stands for the dragon
/// gesture, which is granted as a gesture rather than as an item.
pub const DRAGON_GESTURE_GOODS_ID: u32 = 9030;

/// The host's id for the dragon gesture itself.
pub const DRAGON_GESTURE_ID: u32 = 29;

/// The icon id that marks the placeholder form of the dragon gesture in
/// the host's parameter table.
pub const DRAGON_GESTURE_ICON_ID: u16 = 7039;

/// A host item id together with its category. The host packs the
/// category into the top four bits of a 32-bit id; this type keeps the
/// two apart so the logic never has to mask bits.
#[derive(Clone, Copy, PartialEq, Eq, Structural, Debug)]
pub struct CategorizedItemID {
    /// The category the id belongs to.
    pub category: ItemCategory,
    /// The id within its category; always below 2^28.
    pub value: u32,
}

/// The packed tag the host uses for each category.
pub open spec fn category_tag(c: ItemCategory) -> u32 {
    match c {
        ItemCategory::Weapon => 0,
        ItemCategory::Protector => 1,
        ItemCategory::Accessory => 2,
        ItemCategory::Goods => 4,
    }
}

impl CategorizedItemID {
    /// A well-formed id keeps its value below the category shift.
    pub open spec fn wf(&self) -> bool {
        self.value < 0x1000_0000
    }

    /// The packed 32-bit form the host stores.
    pub open spec fn encoded(&self) -> u32 {
        (category_tag(self.category) * 0x1000_0000 + self.value) as u32
    }

    /// Unpacks a host id. Returns `None` when the top bits name no known
    /// category.
    pub fn try_from_u32(raw: u32) -> (r: Option<CategorizedItemID>)
        ensures
            match r {
                Some(id) => id.wf() && id.encoded() == raw,
                None => forall|id: CategorizedItemID| id.wf() ==> id.encoded() != raw,
            },
    {
        let tag = raw / 0x1000_0000;
        let value = raw % 0x1000_0000;
        let category = match tag {
            0u32 => Some(ItemCategory::Weapon),
            1u32 => Some(ItemCategory::Protector),
            2u32 => Some(ItemCategory::Accessory),
            4u32 => Some(ItemCategory::Goods),
            _ => None,
        };
        match category {
            Some(category) => {
                let id = CategorizedItemID { category, value };
                proof {
                    assert(id.encoded() == raw) by (nonlinear_arith)
                        requires
                            tag == raw / 0x1000_0000,
                            value == raw % 0x1000_0000,
                            category_tag(id.category) == tag,
                            id.value == value,
                        ;
                }
                Some(id)
            },
            None => {
                proof {
                    assert forall|id: CategorizedItemID| id.wf() implies id.encoded() != raw by {
                        assert(id.encoded() / 0x1000_0000 == category_tag(id.category))
                            by (nonlinear_arith)
                            requires
                                id.value < 0x1000_0000,
                                category_tag(id.category) <= 4,
                        ;
                    }
                }
                None
            },
        }
    }

    /// Whether this id lies in one of the ranges reserved for
    /// generator-injected placeholder items.
    pub fn is_archipelago(&self) -> (r: bool)
        ensures
            r == self.is_archipelago_spec(),
    {
        match self.category {
            ItemCategory::Weapon => self.value > SYNTHETIC_WEAPON_FLOOR,
            ItemCategory::Protector => self.value > SYNTHETIC_PROTECTOR_FLOOR,
            ItemCategory::Accessory | ItemCategory::Goods => self.value > SYNTHETIC_GOODS_FLOOR,
        }
    }

    /// The range table behind `is_archipelago`.
    pub open spec fn is_archipelago_spec(&self) -> bool {
        match self.category {
            ItemCategory::Weapon => self.value > SYNTHETIC_WEAPON_FLOOR,
            ItemCategory::Protector => self.value > SYNTHETIC_PROTECTOR_FLOOR,
            ItemCategory::Accessory => self.value > SYNTHETIC_GOODS_FLOOR,
            ItemCategory::Goods => self.value > SYNTHETIC_GOODS_FLOOR,
        }
    }
}

/// The fields the logic reads from one of the host's equipment parameter
/// rows. The generator reuses otherwise-unused fields to smuggle remote
/// metadata into placeholder rows.
#[derive(Clone, Copy, PartialEq, Eq, Structural, Debug)]
pub struct EquipParamRow {
    /// For placeholder rows, the packed id of the real item to grant;
    /// zero when the row carries no real item.
    pub basic_price: i32,
    /// For placeholder rows, the quantity of the real item to grant.
    pub sell_value: i32,
    /// Low half of the remote location id.
    pub vagrant_item_lot_id: i32,
    /// High half of the remote location id.
    pub vagrant_bonus_ene_drop_item_lot_id: i32,
    /// Whether the row describes a consumable.
    pub is_goods: bool,
    /// The row's icon, used to recognize the dragon-gesture placeholder.
    pub icon_id: u16,
}

impl EquipParamRow {
    /// The remote location id encoded across the two vagrant fields.
    pub open spec fn location_id_spec(&self) -> int {
        self.vagrant_item_lot_id as i64 + self.vagrant_bonus_ene_drop_item_lot_id as i64
            * 0x1_0000_0000
    }

    /// Whether the two halves of the location id lie in the range the
    /// generator writes: the high half is never negative. Rows written by
    /// the generator always satisfy this.
    pub open spec fn location_encoding_ok(&self) -> bool {
        0 <= self.vagrant_bonus_ene_drop_item_lot_id
    }

    /// Recovers the remote location id this placeholder row encodes.
    pub fn archipelago_location_id(&self) -> (r: i64)
        requires
            self.location_encoding_ok(),
        ensures
            r == self.location_id_spec(),
    {
        self.vagrant_item_lot_id as i64 + (self.vagrant_bonus_ene_drop_item_lot_id as i64)
            * 0x1_0000_0000
    }

    /// Whether the row's smuggled real-item id decodes to a known
    /// category. Rows written by the generator always satisfy this.
    pub open spec fn item_encoding_ok(&self) -> bool {
        self.basic_price != 0 ==> (exists|id: CategorizedItemID|
            id.wf() && id.encoded() == self.basic_price as u32)
    }

    /// What `archipelago_item` returns: the real item behind a
    /// placeholder row, with the quantity to grant, or `None` when the
    /// row carries no real item.
    pub open spec fn item_spec(&self) -> Option<(CategorizedItemID, u32)> {
        if self.basic_price == 0 {
            None
        } else {
            Some(
                (
                    choose|id: CategorizedItemID|
                        id.wf() && id.encoded() == self.basic_price as u32,
                    self.sell_value as u32,
                ),
            )
        }
    }

    /// If this row is a placeholder wrapper around a real item, returns
    /// that item's id and the quantity to grant.
    pub fn archipelago_item(&self) -> (r: Option<(CategorizedItemID, u32)>)
        requires
            self.item_encoding_ok(),
        ensures
            r == self.item_spec(),
            r matches Some((id, _)) ==> id.wf(),
    {
        if self.basic_price == 0 {
            None
        } else {
            let id = CategorizedItemID::try_from_u32(self.basic_price as u32);
            match id {
                Some(id) => {
                    proof {
                        let w = choose|w: CategorizedItemID|
                            w.wf() && w.encoded() == self.basic_price as u32;
                        assert(w.encoded() / 0x1000_0000 == category_tag(w.category))
                            by (nonlinear_arith)
                            requires
                                w.value < 0x1000_0000,
                                category_tag(w.category) <= 4,
                        ;
                        assert(id.encoded() / 0x1000_0000 == category_tag(id.category))
                            by (nonlinear_arith)
                            requires
                                id.value < 0x1000_0000,
                                category_tag(id.category) <= 4,
                        ;
                        assert(w.encoded() % 0x1000_0000 == w.value) by (nonlinear_arith)
                            requires
                                w.value < 0x1000_0000,
                                category_tag(w.category) <= 4,
                        ;
                        assert(id.encoded() % 0x1000_0000 == id.value) by (nonlinear_arith)
                            requires
                                id.value < 0x1000_0000,
                                category_tag(id.category) <= 4,
                        ;
                        assert(category_tag(w.category) == category_tag(id.category));
                        assert(w.category == id.category);
                    }
                    Some((id, self.sell_value as u32))
                },
                None => {
                    // Unreachable: `item_encoding_ok` guarantees the id
                    // decodes.
                    None
                },
            }
        }
    }
}

/// One entry of the host's item-grant buffer, as passed to the grant
/// hook.
#[derive(Clone, Copy, PartialEq, Eq, Structural, Debug)]
pub struct ItemBufferEntry {
    /// The item being granted.
    pub id: CategorizedItemID,
    /// How many instances to grant.
    pub quantity: u32,
    /// Remaining durability; `-1` means full.
    pub durability: i32,
}

/// The first row associated with a host item id.
pub open spec fn row_for(
    rows: Seq<(CategorizedItemID, EquipParamRow)>,
    id: CategorizedItemID,
) -> Option<EquipParamRow>
    decreases rows.len(),
{
    if rows.len() == 0 {
        None
    } else if rows[0].0 == id {
        Some(rows[0].1)
    } else {
        row_for(rows.drop_first(), id)
    }
}

/// Looks up the parameter row for a host item id.
pub fn find_row(rows: &Vec<(CategorizedItemID, EquipParamRow)>, id: CategorizedItemID) -> (r: Option<
    EquipParamRow,
>)
    ensures
        r == row_for(rows@, id),
{
    let mut i: usize = 0;
    proof {
        assert(rows@.skip(0) =~= rows@);
    }
    while i < rows.len()
        invariant
            i <= rows@.len(),
            row_for(rows@, id) == row_for(rows@.skip(i as int), id),
        decreases rows@.len() - i,
    {
        proof {
            assert(rows@.skip(i as int)[0] == rows@[i as int]);
            assert(rows@.skip(i as int).drop_first() =~= rows@.skip(i + 1));
        }
        if rows[i].0 == id {
            return Some(rows[i].1);
        }
        i += 1;
    }
    None
}


/// Whether a grant-buffer entry is a generator-injected placeholder
/// that must be replaced before the host shows it.
pub open spec fn needs_replacement(e: ItemBufferEntry) -> bool {
    e.id.category is Goods && e.id.value > SYNTHETIC_GOODS_FLOOR
}

/// What the host's parameter table must provide for the grant hook:
/// every placeholder entry has a row with well-formed encodings.
pub open spec fn grant_rows_ok(
    entries: Seq<ItemBufferEntry>,
    rows: Seq<(CategorizedItemID, EquipParamRow)>,
) -> bool {
    forall|i: int|
        0 <= i < entries.len() && needs_replacement(#[trigger] entries[i]) ==> (row_for(
            rows,
            entries[i].id,
        ) matches Some(row) && row.item_encoding_ok() && row.location_encoding_ok())
}

/// One grant-buffer entry after the hook: a placeholder whose row
/// carries item metadata becomes the real item at full durability;
/// everything else passes through unchanged.
pub open spec fn replaced_entry(
    e: ItemBufferEntry,
    rows: Seq<(CategorizedItemID, EquipParamRow)>,
) -> ItemBufferEntry {
    if !needs_replacement(e) {
        e
    } else {
        match row_for(rows, e.id) {
            Some(row) => match row.item_spec() {
                Some((real_id, qty)) => ItemBufferEntry { id: real_id, quantity: qty, durability: -1i32 },
                None => e,
            },
            None => e,
        }
    }
}

/// Whether one of the first `upto` entries is a replaced placeholder
/// whose row encodes the remote location `l`.
pub open spec fn buffer_records(
    entries: Seq<ItemBufferEntry>,
    rows: Seq<(CategorizedItemID, EquipParamRow)>,
    upto: int,
    l: i64,
) -> bool {
    exists|k: int|
        0 <= k < upto && needs_replacement(#[trigger] entries[k]) && (row_for(rows, entries[k].id)
            matches Some(row) && row.item_spec() is Some && row.location_id_spec() == l)
}

/// The grant hook's logic: runs when the host is about to show granted
/// items, replacing each placeholder with its real item and recording
/// each replaced placeholder's remote location in the store (when the
/// store is available — its absence is tolerated rather than fatal).
pub fn on_grant_items(
    items: &mut Vec<ItemBufferEntry>,
    rows: &Vec<(CategorizedItemID, EquipParamRow)>,
    save: &mut SaveData,
    save_active: bool,
)
    requires
        grant_rows_ok(old(items)@, rows@),
        old(save).wf(),
    ensures
        final(save).wf(),
        final(items)@.len() == old(items)@.len(),
        forall|i: int|
            0 <= i < old(items)@.len() ==> final(items)@[i] == replaced_entry(
                #[trigger] old(items)@[i],
                rows@,
            ),
        final(save).items_granted == old(save).items_granted,
        final(save).seed == old(save).seed,
        !save_active ==> final(save).locations == old(save).locations,
        save_active ==> forall|l: i64| #![trigger final(save).locations@.contains(l)]
            final(save).locations@.contains(l) <==> (old(save).locations@.contains(l)
                || buffer_records(old(items)@, rows@, old(items)@.len() as int, l)),
{
    let ghost entries = items@;
    let ghost orig_locs = save.locations@;
    let n = items.len();
    let mut i: usize = 0;
    while i < n
        invariant
            n == entries.len(),
            i <= n,
            items@.len() == n,
            grant_rows_ok(entries, rows@),
            save.wf(),
            save.items_granted == old(save).items_granted,
            save.seed == old(save).seed,
            orig_locs == old(save).locations@,
            forall|k: int| i <= k < n ==> items@[k] == entries[k],
            forall|k: int|
                0 <= k < i ==> items@[k] == replaced_entry(#[trigger] entries[k], rows@),
            !save_active ==> save.locations == old(save).locations,
            save_active ==> forall|l: i64| #![trigger save.locations@.contains(l)]
                save.locations@.contains(l) <==> (orig_locs.contains(l) || buffer_records(
                    entries,
                    rows@,
                    i as int,
                    l,
                )),
        decreases n - i,
    {
        let ghost pre_locs = save.locations@;
        let entry = items[i];
        let replace = match entry.id.category {
            ItemCategory::Goods => entry.id.value > SYNTHETIC_GOODS_FLOOR,
            _ => false,
        };
        if replace {
            let row = match find_row(rows, entry.id) {
                Some(r) => r,
                None => unreached(),
            };
            match row.archipelago_item() {
                Some((real_id, quantity)) => {
                    let loc = row.archipelago_location_id();
                    if save_active {
                        save.record_location(loc);
                    }
                    items.set(i, ItemBufferEntry { id: real_id, quantity, durability: -1 });
                    proof {
                        if save_active {
                            assert forall|l: i64| #![trigger save.locations@.contains(l)]
                                save.locations@.contains(l) <==> (orig_locs.contains(l)
                                    || buffer_records(entries, rows@, i + 1, l)) by {
                                if save.locations@.contains(l) && !orig_locs.contains(l) {
                                    if pre_locs.contains(l) {
                                        let k = choose|k: int|
                                            0 <= k < i && needs_replacement(#[trigger] entries[k])
                                                && (row_for(rows@, entries[k].id) matches Some(rw)
                                                && rw.item_spec() is Some && rw.location_id_spec()
                                                == l);
                                        assert(buffer_records(entries, rows@, i + 1, l));
                                    } else {
                                        assert(l == loc);
                                        assert(needs_replacement(entries[i as int]) && (row_for(
                                            rows@,
                                            entries[i as int].id,
                                        ) matches Some(rw) && rw.item_spec() is Some
                                            && rw.location_id_spec() == l));
                                        assert(buffer_records(entries, rows@, i + 1, l));
                                    }
                                }
                                if orig_locs.contains(l) {
                                    assert(pre_locs.contains(l));
                                    assert(save.locations@.contains(l));
                                }
                                if buffer_records(entries, rows@, i + 1, l) {
                                    let k = choose|k: int|
                                        0 <= k < i + 1 && needs_replacement(#[trigger] entries[k])
                                            && (row_for(rows@, entries[k].id) matches Some(rw)
                                            && rw.item_spec() is Some && rw.location_id_spec()
                                            == l);
                                    if k < i {
                                        assert(buffer_records(entries, rows@, i as int, l));
                                        assert(pre_locs.contains(l));
                                        assert(save.locations@.contains(l));
                                    } else {
                                        assert(l == loc);
                                        assert(save.locations@.contains(l));
                                    }
                                }
                            }
                        }
                    }
                },
                None => {
                    proof {
                        if save_active {
                            assert forall|l: i64| #![trigger save.locations@.contains(l)]
                                save.locations@.contains(l) <==> (orig_locs.contains(l)
                                    || buffer_records(entries, rows@, i + 1, l)) by {
                                if buffer_records(entries, rows@, i + 1, l) {
                                    let k = choose|k: int|
                                        0 <= k < i + 1 && needs_replacement(#[trigger] entries[k])
                                            && (row_for(rows@, entries[k].id) matches Some(rw)
                                            && rw.item_spec() is Some && rw.location_id_spec()
                                            == l);
                                    assert(k < i || k == i);
                                    if k == i {
                                        assert(false);
                                    }
                                    assert(buffer_records(entries, rows@, i as int, l));
                                }
                                if save.locations@.contains(l) && !orig_locs.contains(l) {
                                    let k = choose|k: int|
                                        0 <= k < i && needs_replacement(#[trigger] entries[k])
                                            && (row_for(rows@, entries[k].id) matches Some(rw)
                                            && rw.item_spec() is Some && rw.location_id_spec()
                                            == l);
                                    assert(buffer_records(entries, rows@, i + 1, l));
                                }
                            }
                        }
                    }
                },
            }
        } else {
            proof {
                if save_active {
                    assert forall|l: i64| #![trigger save.locations@.contains(l)]
                        save.locations@.contains(l) <==> (orig_locs.contains(l) || buffer_records(
                            entries,
                            rows@,
                            i + 1,
                            l,
                        )) by {
                        if buffer_records(entries, rows@, i + 1, l) {
                            let k = choose|k: int|
                                0 <= k < i + 1 && needs_replacement(#[trigger] entries[k]) && (
                                row_for(rows@, entries[k].id) matches Some(rw) && rw.item_spec()
                                    is Some && rw.location_id_spec() == l);
                            assert(k < i);
                            assert(buffer_records(entries, rows@, i as int, l));
                        }
                        if save.locations@.contains(l) && !orig_locs.contains(l) {
                            let k = choose|k: int|
                                0 <= k < i && needs_replacement(#[trigger] entries[k]) && (row_for(
                                    rows@,
                                    entries[k].id,
                                ) matches Some(rw) && rw.item_spec() is Some
                                    && rw.location_id_spec() == l);
                            assert(buffer_records(entries, rows@, i + 1, l));
                        }
                    }
                }
            }
        }
        i += 1;
    }
}

} // verus!
