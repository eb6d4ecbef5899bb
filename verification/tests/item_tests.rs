//! Tests for host item ids, parameter rows, and the grant hook.

use apclient::item::{
    on_grant_items, CategorizedItemID, EquipParamRow, ItemBufferEntry, ItemCategory,
};
use apclient::save_data::SaveData;

fn goods(value: u32) -> CategorizedItemID {
    CategorizedItemID { category: ItemCategory::Goods, value }
}

fn placeholder_row(real: CategorizedItemID, quantity: i32, location: i64) -> EquipParamRow {
    EquipParamRow {
        basic_price: ((4u32 << 28) | real.value) as i32,
        sell_value: quantity,
        vagrant_item_lot_id: (location & 0xFFFF_FFFF) as i32,
        vagrant_bonus_ene_drop_item_lot_id: (location >> 32) as i32,
        is_goods: true,
        icon_id: 40,
    }
}

#[test]
fn id_packing_round_trips() {
    let id = CategorizedItemID::try_from_u32((4u32 << 28) | 9030).expect("a goods id");
    assert_eq!(id.category, ItemCategory::Goods);
    assert_eq!(id.value, 9030);
    let weapon = CategorizedItemID::try_from_u32(23010100).expect("a weapon id");
    assert_eq!(weapon.category, ItemCategory::Weapon);
    assert_eq!(weapon.value, 23010100);
    // The tag 3 names no category.
    assert!(CategorizedItemID::try_from_u32(3u32 << 28).is_none());
}

#[test]
fn placeholder_ranges() {
    assert!(CategorizedItemID { category: ItemCategory::Weapon, value: 23010001 }
        .is_archipelago());
    assert!(!CategorizedItemID { category: ItemCategory::Weapon, value: 23010000 }
        .is_archipelago());
    assert!(CategorizedItemID { category: ItemCategory::Protector, value: 99003001 }
        .is_archipelago());
    assert!(!CategorizedItemID { category: ItemCategory::Protector, value: 99003000 }
        .is_archipelago());
    assert!(goods(3780001).is_archipelago());
    assert!(!goods(3780000).is_archipelago());
    assert!(CategorizedItemID { category: ItemCategory::Accessory, value: 3780001 }
        .is_archipelago());
}

#[test]
fn location_id_spans_both_fields() {
    let row = EquipParamRow {
        basic_price: 0,
        sell_value: 0,
        vagrant_item_lot_id: 7,
        vagrant_bonus_ene_drop_item_lot_id: 3,
        is_goods: false,
        icon_id: 0,
    };
    assert_eq!(row.archipelago_location_id(), 7 + (3i64 << 32));
}

#[test]
fn row_without_price_carries_no_item() {
    let row = EquipParamRow {
        basic_price: 0,
        sell_value: 5,
        vagrant_item_lot_id: 0,
        vagrant_bonus_ene_drop_item_lot_id: 0,
        is_goods: true,
        icon_id: 0,
    };
    assert!(row.archipelago_item().is_none());
}

#[test]
fn row_with_price_decodes_item_and_quantity() {
    let row = placeholder_row(goods(550), 2, 42);
    let (id, quantity) = row.archipelago_item().expect("a real item");
    assert_eq!(id, goods(550));
    assert_eq!(quantity, 2);
}

#[test]
fn grant_hook_replaces_placeholders_and_records_locations() {
    let placeholder = goods(3780005);
    let vanilla = goods(100);
    let mut items = vec![
        ItemBufferEntry { id: vanilla, quantity: 1, durability: -1 },
        ItemBufferEntry { id: placeholder, quantity: 1, durability: -1 },
    ];
    let rows = vec![(placeholder, placeholder_row(goods(550), 2, 42))];
    let mut save = SaveData::empty();
    on_grant_items(&mut items, &rows, &mut save, true);
    // The vanilla entry passes through untouched.
    assert_eq!(items[0].id, vanilla);
    assert_eq!(items[0].quantity, 1);
    // The placeholder becomes the real item at full durability.
    assert_eq!(items[1].id, goods(550));
    assert_eq!(items[1].quantity, 2);
    assert_eq!(items[1].durability, -1);
    // Its remote location is recorded.
    assert_eq!(save.locations, vec![42]);
}

#[test]
fn grant_hook_without_store_changes_no_locations() {
    let placeholder = goods(3780005);
    let mut items = vec![ItemBufferEntry { id: placeholder, quantity: 1, durability: -1 }];
    let rows = vec![(placeholder, placeholder_row(goods(550), 2, 42))];
    let mut save = SaveData::empty();
    on_grant_items(&mut items, &rows, &mut save, false);
    assert_eq!(items[0].id, goods(550));
    assert_eq!(save.locations_count(), 0);
}
