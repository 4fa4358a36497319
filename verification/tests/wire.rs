use callback_events::layout::{address_at, array_at, callback_at};
use callback_events::wire::le_number_at;

#[test]
fn numbers_are_read_least_significant_byte_first() {
    let bytes = [0x01u8, 0x02, 0x03, 0x04, 0x05, 0x06, 0x07, 0x08, 0x09];
    assert_eq!(le_number_at(&bytes, 0, 0), 0);
    assert_eq!(le_number_at(&bytes, 0, 1), 0x01);
    assert_eq!(le_number_at(&bytes, 0, 2), 0x0201);
    assert_eq!(le_number_at(&bytes, 0, 4), 0x0403_0201);
    assert_eq!(le_number_at(&bytes, 1, 4), 0x0504_0302);
    assert_eq!(le_number_at(&bytes, 0, 8), 0x0807_0605_0403_0201);
    assert_eq!(le_number_at(&bytes, 1, 8), 0x0908_0706_0504_0302);
    assert_eq!(le_number_at(&bytes, 9, 0), 0);
}

#[test]
fn numbers_agree_with_the_standard_library() {
    for value in [0u64, 1, 255, 256, 1_000_000_000, 0x0123_4567_89AB_CDEF, u64::MAX] {
        assert_eq!(le_number_at(&value.to_le_bytes(), 0, 8), value);
    }
    for value in [0u32, 1, 255, 256, 65_536, u32::MAX] {
        assert_eq!(le_number_at(&value.to_le_bytes(), 0, 4), value as u64);
    }
}

#[test]
fn arrays_are_copied_from_their_offset() {
    let bytes: Vec<u8> = (0..100u32).map(|i| i as u8).collect();
    let first: [u8; 4] = array_at::<4>(&bytes, 0);
    assert_eq!(first, [0, 1, 2, 3]);
    let last: [u8; 4] = array_at::<4>(&bytes, 96);
    assert_eq!(last, [96, 97, 98, 99]);
    let none: [u8; 0] = array_at::<0>(&bytes, 100);
    assert_eq!(none, []);
    let address = address_at(&bytes, 10);
    assert_eq!(&address.bytes[..], &bytes[10..42]);
}

#[test]
fn callbacks_are_read_with_their_end() {
    assert_eq!(callback_at(&[0], 0), Some((None, 1)));
    assert_eq!(callback_at(&[7, 7, 0, 7], 2), Some((None, 3)));
    assert_eq!(callback_at(&[1, 0, 0, 0, 0], 0), Some((Some(vec![]), 5)));
    assert_eq!(callback_at(&[1, 2, 0, 0, 0, 8, 9], 0), Some((Some(vec![8, 9]), 7)));
    assert_eq!(callback_at(&[5, 1, 2, 0, 0, 0, 8, 9, 5], 1), Some((Some(vec![8, 9]), 8)));
    assert_eq!(callback_at(&[], 0), None);
    assert_eq!(callback_at(&[0], 1), None);
    assert_eq!(callback_at(&[0], 9), None);
    assert_eq!(callback_at(&[2], 0), None);
    assert_eq!(callback_at(&[1], 0), None);
    assert_eq!(callback_at(&[1, 2, 0, 0], 0), None);
    assert_eq!(callback_at(&[1, 2, 0, 0, 0, 8], 0), None);
    assert_eq!(callback_at(&[1, 0, 0, 0, 1], 0), None);
}
