use sandbox_kv::bindings::{finish_read_key, read_key, write_key};
use sandbox_kv::memory::{
    read_bytes, read_result, read_u32, write_bytes, write_result, write_u32, BoundaryViolation,
    WasmBytes,
};
use sandbox_kv::store::MemoryStore;

#[test]
fn handle_inside_region_is_accepted() {
    let region = [1u8, 2, 3, 4, 5];
    let h = WasmBytes::from_slice(&region, 1, 3).unwrap();
    assert_eq!(h, WasmBytes { base: 1, len: 3 });
    assert_eq!(h.as_slice(&region).unwrap(), &[2u8, 3, 4][..]);
    assert_eq!(WasmBytes::from_slice(&region, 5, 0), Ok(WasmBytes { base: 5, len: 0 }));
}

#[test]
fn handle_past_end_is_refused() {
    let region = [0u8; 16];
    assert_eq!(WasmBytes::from_slice(&region, 10, 7), Err(BoundaryViolation));
    assert_eq!(WasmBytes::from_slice(&region, 17, 0), Err(BoundaryViolation));
    assert_eq!(read_bytes(&region, WasmBytes { base: 12, len: 5 }), Err(BoundaryViolation));
}

#[test]
fn handle_sum_does_not_wrap() {
    let region = [0u8; 16];
    let h = WasmBytes { base: u32::MAX, len: 2 };
    assert_eq!(h.as_slice(&region), Err(BoundaryViolation));
    assert_eq!(read_bytes(&region, WasmBytes { base: 2, len: u32::MAX }), Err(BoundaryViolation));
}

#[test]
fn write_bytes_in_bounds_and_out() {
    let mut region = [0u8; 8];
    assert_eq!(write_bytes(&mut region, 6, &[9, 9]), Ok(()));
    assert_eq!(region, [0, 0, 0, 0, 0, 0, 9, 9]);
    assert_eq!(write_bytes(&mut region, 7, &[1, 1]), Err(BoundaryViolation));
    assert_eq!(region, [0, 0, 0, 0, 0, 0, 9, 9]);
}

#[test]
fn u32_words_are_little_endian() {
    let mut region = [0u8; 8];
    write_u32(&mut region, 2, 0x0403_0201).unwrap();
    assert_eq!(region, [0, 0, 1, 2, 3, 4, 0, 0]);
    assert_eq!(read_u32(&region, 2), Ok(0x0403_0201));
    assert_eq!(read_u32(&region, 5), Err(BoundaryViolation));
    assert_eq!(write_u32(&mut region, 5, 1), Err(BoundaryViolation));
}

#[test]
fn result_goes_to_tail_with_header() {
    let mut region = [0u8; 16];
    let h = write_result(&mut region, 0, b"bar").unwrap();
    assert_eq!(h, WasmBytes { base: 13, len: 3 });
    assert_eq!(&region[13..], b"bar");
    assert_eq!(&region[0..8], &[13, 0, 0, 0, 3, 0, 0, 0]);
    assert_eq!(read_result(&region, 0), Ok(b"bar".to_vec()));
}

#[test]
fn empty_result_round_trip() {
    let mut region = [7u8; 12];
    let h = write_result(&mut region, 4, b"").unwrap();
    assert_eq!(h, WasmBytes { base: 12, len: 0 });
    assert_eq!(read_result(&region, 4), Ok(Vec::new()));
}

#[test]
fn result_that_reaches_header_is_refused() {
    let mut region = [0u8; 10];
    assert_eq!(write_result(&mut region, 0, b"abc"), Err(BoundaryViolation));
    assert_eq!(region, [0u8; 10]);
    assert_eq!(write_result(&mut region, 0, &[0u8; 11]), Err(BoundaryViolation));
}

#[test]
fn header_naming_bytes_past_end_is_refused() {
    let mut region = [0u8; 16];
    write_u32(&mut region, 0, 10).unwrap();
    write_u32(&mut region, 4, 7).unwrap();
    assert_eq!(read_result(&region, 0), Err(BoundaryViolation));
    assert_eq!(read_result(&region, 9), Err(BoundaryViolation));
}

#[test]
fn write_key_puts_guest_bytes() {
    let mut region = [0u8; 32];
    region[8..11].copy_from_slice(b"key");
    region[16..21].copy_from_slice(b"value");
    let mut store = MemoryStore::new();
    assert_eq!(write_key(&region, &mut store, 8, 3, 16, 5), Ok(()));
    assert_eq!(store.get_item(b"key"), Some(b"value".to_vec()));
    assert_eq!(write_key(&region, &mut store, 30, 3, 16, 5), Err(BoundaryViolation));
    assert_eq!(store.get_item(&[0u8, 0, 0]), None);
}

#[test]
fn read_key_hands_back_value() {
    let mut region = [0u8; 32];
    region[8..11].copy_from_slice(b"foo");
    let mut store = MemoryStore::new();
    store.put_item(b"foo".to_vec(), b"bar".to_vec());
    assert_eq!(read_key(&mut region, &store, 0, 8, 3), Ok(()));
    assert_eq!(&region[29..], b"bar");
    assert_eq!(read_result(&region, 0), Ok(b"bar".to_vec()));
}

#[test]
fn read_key_of_missing_key_hands_back_empty() {
    let mut region = [0u8; 32];
    region[8..11].copy_from_slice(b"zzz");
    let store = MemoryStore::new();
    assert_eq!(read_key(&mut region, &store, 0, 8, 3), Ok(()));
    assert_eq!(&region[0..8], &[32, 0, 0, 0, 0, 0, 0, 0]);
    assert_eq!(read_result(&region, 0), Ok(Vec::new()));
    assert_eq!(read_key(&mut region, &store, 0, 31, 3), Err(BoundaryViolation));
}

#[test]
fn finish_read_key_defaults_to_empty() {
    let mut region = [0u8; 16];
    assert_eq!(finish_read_key(&mut region, 0, Some(b"xy".to_vec())), Ok(()));
    assert_eq!(read_result(&region, 0), Ok(b"xy".to_vec()));
    assert_eq!(finish_read_key(&mut region, 0, None), Ok(()));
    assert_eq!(read_result(&region, 0), Ok(Vec::new()));
}
