use sandbox_kv::guest;
use sandbox_kv::guest::{entry, read};
use sandbox_kv::memory::{read_result, write_bytes, BoundaryViolation, WasmBytes};
use sandbox_kv::orchestrator::{
    entry_arguments, extract_result, write_body, Instance, Phase, RequestError, BODY_OFFSET,
    RESULT_HEADER_OFFSET,
};
use sandbox_kv::store::MemoryStore;

fn seeded_store() -> MemoryStore {
    let mut s = MemoryStore::new();
    s.put_item(b"foo".to_vec(), b"bar".to_vec());
    s
}

#[test]
fn hello_request_returns_bar() {
    let mut inst = Instance::new(65536, seeded_store());
    assert_eq!(inst.handle_request(b"hello"), Ok(b"bar".to_vec()));
    assert_eq!(inst.store.get_item(b"world"), Some(b"bar".to_vec()));
    assert_eq!(inst.store.get_item(b"foo"), Some(b"bar".to_vec()));
    assert_eq!(extract_result(&inst.memory), Ok(b"bar".to_vec()));
}

#[test]
fn request_without_foo_returns_empty() {
    let mut inst = Instance::new(64, MemoryStore::new());
    assert_eq!(inst.handle_request(b"hello"), Ok(Vec::new()));
    assert_eq!(inst.store.get_item(b"world"), Some(Vec::new()));
}

#[test]
fn request_body_too_large_for_memory() {
    let mut inst = Instance::new(12, seeded_store());
    assert_eq!(inst.handle_request(b"hello"), Err(RequestError::OutOfBounds));
}

#[test]
fn request_result_too_large_for_memory() {
    let mut s = MemoryStore::new();
    s.put_item(b"foo".to_vec(), vec![1u8; 20]);
    let mut inst = Instance::new(24, s);
    assert_eq!(inst.handle_request(b"hi"), Err(RequestError::OutOfBounds));
}

#[test]
fn fresh_instances_share_nothing() {
    let mut first = Instance::new(128, seeded_store());
    assert_eq!(first.handle_request(b"secret"), Ok(b"bar".to_vec()));
    let mut other = MemoryStore::new();
    other.put_item(b"foo".to_vec(), b"baz".to_vec());
    let mut second = Instance::new(128, other);
    assert!(second.memory.iter().all(|b| *b == 0));
    assert_eq!(second.handle_request(b"hello"), Ok(b"baz".to_vec()));
    assert!(!second.memory.windows(6).any(|w| w == b"secret"));
    assert_eq!(second.store.get_item(b"world"), Some(b"baz".to_vec()));
    assert_eq!(first.store.get_item(b"world"), Some(b"bar".to_vec()));
}

#[test]
fn body_goes_to_offset_eight() {
    let mut region = [0u8; 16];
    let h = write_body(&mut region, b"abc").unwrap();
    assert_eq!(h, WasmBytes { base: BODY_OFFSET, len: 3 });
    assert_eq!(&region[8..11], b"abc");
    assert_eq!(write_body(&mut region, b"123456789"), Err(RequestError::OutOfBounds));
}

#[test]
fn entry_arguments_are_fixed_offsets() {
    assert_eq!(entry_arguments(WasmBytes { base: 8, len: 5 }), Some((0, 8, 5)));
    assert_eq!(RESULT_HEADER_OFFSET, 0);
    assert_eq!(entry_arguments(WasmBytes { base: 8, len: u32::MAX }), None);
}

#[test]
fn entry_runs_against_region_and_store() {
    let mut region = [0u8; 64];
    write_bytes(&mut region, 8, b"hello").unwrap();
    let mut store = seeded_store();
    let body = WasmBytes { base: 8, len: 5 };
    assert_eq!(entry(&mut region, &mut store, 0, body), Ok(()));
    assert_eq!(read_result(&region, 0), Ok(b"bar".to_vec()));
    assert_eq!(read(&store, b"world", |v| v.to_vec()), b"bar".to_vec());
    assert_eq!(entry(&mut region, &mut store, 0, WasmBytes { base: 60, len: 5 }), Err(BoundaryViolation));
}

#[test]
fn guest_write_then_read() {
    let mut store = MemoryStore::new();
    guest::write(&mut store, b"k", b"v");
    assert_eq!(read(&store, b"k", |v| v.to_vec()), b"v".to_vec());
    assert_eq!(read(&store, b"missing", |v| v.len()), 0);
}

#[test]
fn phases_advance_in_order() {
    let mut p = Phase::Idle;
    let expected = [
        Phase::Compiled,
        Phase::Instantiated,
        Phase::BodyWritten,
        Phase::Invoked,
        Phase::ResultExtracted,
        Phase::ResultExtracted,
    ];
    for e in expected {
        p = p.advance(true);
        assert_eq!(p, e);
    }
    assert!(p.is_terminal());
}

#[test]
fn failed_step_ends_request() {
    assert_eq!(Phase::Instantiated.advance(false), Phase::Failed);
    assert_eq!(Phase::Failed.advance(true), Phase::Failed);
    assert_eq!(Phase::ResultExtracted.advance(false), Phase::ResultExtracted);
    assert!(!Phase::Invoked.is_terminal());
}
