use randomness::once::OnceCell;
use randomness::rows::{insert_row, values_of};
use randomness::setup::prefix_str;
use randomness::types::{elapsed, AuthorityName, RandomnessRound};
use std::collections::BTreeMap;

#[test]
fn cell_keeps_first_value() {
    let mut cell = OnceCell::new();
    assert!(!cell.initialized());
    assert_eq!(cell.get(), None);
    assert_eq!(cell.set(4), Ok(()));
    assert_eq!(cell.set(5), Err(5));
    assert!(cell.initialized());
    assert_eq!(cell.get(), Some(&4));
}

#[test]
fn rows_come_in_order_of_keys() {
    let mut map = BTreeMap::new();
    for (key, value) in [(7, 'a'), (0, 'b'), (u16::MAX, 'c'), (7, 'd'), (300, 'e')] {
        insert_row(&mut map, key, value);
    }
    assert_eq!(values_of(&map), vec![&'b', &'d', &'e', &'c']);
}

#[test]
fn prefix_names_chain_and_epoch() {
    let mut chain = [0u8; 32];
    for (i, byte) in chain.iter_mut().enumerate() {
        *byte = 17 * (i as u8 % 16);
    }
    assert_eq!(
        prefix_str(&chain, 0),
        "dkg 00112233445566778899aabbccddeeff00112233445566778899aabbccddeeff 0"
    );
    assert_eq!(
        prefix_str(&[0x0f; 32], 907),
        "dkg 0f0f0f0f0f0f0f0f0f0f0f0f0f0f0f0f0f0f0f0f0f0f0f0f0f0f0f0f0f0f0f0f 907"
    );
    assert!(prefix_str(&chain, u64::MAX).ends_with(" 18446744073709551615"));
    assert_ne!(prefix_str(&chain, 1), prefix_str(&chain, 11));
}

#[test]
fn time_does_not_run_backwards() {
    assert_eq!(elapsed(1_000, 1_250), 250);
    assert_eq!(elapsed(1_250, 1_000), 0);
}

#[test]
fn rounds_end_somewhere() {
    assert_eq!(RandomnessRound(4).checked_add(1), Some(RandomnessRound(5)));
    assert_eq!(RandomnessRound(u64::MAX - 1).checked_add(1), Some(RandomnessRound(u64::MAX)));
    assert_eq!(RandomnessRound(u64::MAX).checked_add(1), None);
}

#[test]
fn names_differ_in_any_byte() {
    let name = AuthorityName { bytes: [8; 96] };
    let mut other = name;
    assert!(name.is(&other));
    other.bytes[95] = 9;
    assert!(!name.is(&other));
}
