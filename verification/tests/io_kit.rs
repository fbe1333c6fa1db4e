use macmon::error::Failure;
use macmon::io_kit::{IOServiceIterator, NAME_SIZE};

fn name(text: &str) -> [u8; 128] {
    let mut buf = [0u8; 128];
    buf[..text.len()].copy_from_slice(text.as_bytes());
    buf
}

#[test]
fn matching_that_fails_is_not_found() {
    assert!(matches!(IOServiceIterator::new(-536870208, 0), Err(Failure::NotFound)));
    assert!(matches!(IOServiceIterator::new(1, 55), Err(Failure::NotFound)));
    assert_eq!(IOServiceIterator::new(0, 55).unwrap().existing(), 55);
    assert_eq!(NAME_SIZE, 128);
}

#[test]
fn walk_yields_entry_and_name() {
    let it = IOServiceIterator::new(0, 9).unwrap();
    assert_eq!(it.next(4107, 0, &name("AppleSMCKeysEndpoint")), Some((4107, "AppleSMCKeysEndpoint".to_string())));
    assert_eq!(it.next(1, 0, &name("pmgr")), Some((1, "pmgr".to_string())));
    assert_eq!(it.next(2, 0, &name("")), Some((2, String::new())));
}

#[test]
fn walk_ends_on_entry_zero_or_unreadable_name() {
    let it = IOServiceIterator::new(0, 9).unwrap();
    assert_eq!(it.next(0, 0, &name("pmgr")), None);
    assert_eq!(it.next(7, -1, &name("pmgr")), None);
    assert_eq!(it.next(0, 5, &[]), None);
}
