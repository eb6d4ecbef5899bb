//! Tests for the progress store and its binary encoding.

use apclient::codec::{decode_save_data, encode_save_data};
use apclient::save_data::SaveData;

fn sample_record() -> SaveData {
    let mut data = SaveData::empty();
    data.mark_granted(0);
    data.mark_granted(1);
    data.mark_granted(5);
    data.record_location(-40);
    data.record_location(2001);
    data.seed = Some("room-seed-xyz".to_string());
    data
}

#[test]
fn empty_record() {
    let data = SaveData::empty();
    assert_eq!(data.granted_count(), 0);
    assert_eq!(data.locations_count(), 0);
    assert!(data.seed.is_none());
}

#[test]
fn granted_set_semantics() {
    let mut data = SaveData::empty();
    data.mark_granted(7);
    data.mark_granted(2);
    data.mark_granted(7);
    assert_eq!(data.granted_count(), 2);
    assert!(data.is_granted(2));
    assert!(data.is_granted(7));
    assert!(!data.is_granted(3));
    // Kept in increasing order regardless of arrival order.
    assert_eq!(data.items_granted, vec![2, 7]);
    data.clear_granted();
    assert_eq!(data.granted_count(), 0);
    assert!(!data.is_granted(7));
}

#[test]
fn locations_set_semantics() {
    let mut data = SaveData::empty();
    data.record_location(10);
    data.record_location(-3);
    data.record_location(10);
    assert_eq!(data.locations_count(), 2);
    assert_eq!(data.locations, vec![-3, 10]);
}

#[test]
fn seed_matches_only_when_recorded_and_equal() {
    let mut data = SaveData::empty();
    assert!(!data.seed_matches("anything"));
    data.seed = Some("seed-1".to_string());
    assert!(data.seed_matches("seed-1"));
    assert!(!data.seed_matches("seed-2"));
}

#[test]
fn encoding_round_trips() {
    let data = sample_record();
    let bytes = encode_save_data(&data);
    let decoded = decode_save_data(&bytes).expect("a canonical encoding must decode");
    assert_eq!(decoded.items_granted, data.items_granted);
    assert_eq!(decoded.locations, data.locations);
    assert_eq!(decoded.seed, data.seed);
}

#[test]
fn empty_record_round_trips() {
    let data = SaveData::empty();
    let bytes = encode_save_data(&data);
    // Header, two zero counts, and the no-seed tag.
    assert_eq!(bytes.len(), 25);
    let decoded = decode_save_data(&bytes).expect("a canonical encoding must decode");
    assert_eq!(decoded.granted_count(), 0);
    assert_eq!(decoded.locations_count(), 0);
    assert!(decoded.seed.is_none());
}

#[test]
fn truncated_encoding_is_rejected() {
    let data = sample_record();
    let mut bytes = encode_save_data(&data);
    bytes.pop();
    assert!(decode_save_data(&bytes).is_none());
}

#[test]
fn extended_encoding_is_rejected() {
    let data = sample_record();
    let mut bytes = encode_save_data(&data);
    bytes.push(0);
    assert!(decode_save_data(&bytes).is_none());
}

#[test]
fn corrupted_byte_in_count_is_rejected() {
    let data = sample_record();
    let mut bytes = encode_save_data(&data);
    // Blow up the granted count far past the buffer's size.
    bytes[8] = 0xFF;
    bytes[15] = 0xFF;
    assert!(decode_save_data(&bytes).is_none());
}

#[test]
fn unsorted_list_is_rejected() {
    let data = sample_record();
    let mut bytes = encode_save_data(&data);
    // Swap the first two granted indices (0 and 1) so the list is no
    // longer strictly increasing.
    bytes[16] = 1;
    bytes[24] = 0;
    assert!(decode_save_data(&bytes).is_none());
}

#[test]
fn corrupted_seed_tag_is_rejected() {
    let data = sample_record();
    let bytes = encode_save_data(&data);
    // The seed tag sits right after the two length-prefixed lists.
    let tag_pos = 8 + 8 + 8 * data.granted_count() + 8 + 8 * data.locations_count();
    assert_eq!(bytes[tag_pos], 1);
    let mut corrupted = bytes.clone();
    corrupted[tag_pos] = 2;
    assert!(decode_save_data(&corrupted).is_none());
}

#[test]
fn garbage_is_rejected() {
    assert!(decode_save_data(&Vec::new()).is_none());
    assert!(decode_save_data(&vec![1, 2, 3]).is_none());
    assert!(decode_save_data(&vec![0; 64]).is_none());
}

#[test]
fn non_ascii_seed_round_trips() {
    let mut data = SaveData::empty();
    data.seed = Some("sëèd-日本".to_string());
    let bytes = encode_save_data(&data);
    let decoded = decode_save_data(&bytes).expect("a canonical encoding must decode");
    assert_eq!(decoded.seed.as_deref(), Some("sëèd-日本"));
}
