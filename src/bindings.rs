//! The host functions that the guest imports: `write_key` and `read_key`.
//! They read their arguments out of guest memory, act on a Capability Store,
//! and hand results back through the tail-and-header convention.
use crate::memory::{
    bytes_at, in_bounds, read_bytes, result_fits, with_result, write_result, BoundaryViolation, WasmBytes,
};
use crate::store::{lookup, MemoryStore};
use vstd::prelude::*;

verus! {

/// The value that a `get` hands the guest: what was found, or the empty
/// sequence for a missing key.
pub open spec fn found_or_empty(found: Option<Seq<u8>>) -> Seq<u8> {
    match found {
        Some(v) => v,
        None => Seq::empty(),
    }
}

/// The view of an optional byte vector.
pub open spec fn option_view(found: Option<Vec<u8>>) -> Option<Seq<u8>> {
    match found {
        Some(v) => Some(v@),
        None => None,
    }
}

/// The value that `read_key` hands back for the key at `[key_base, key_base +
/// key_len)` of `mem`.
pub open spec fn read_key_value(
    mem: Seq<u8>,
    contents: Map<Seq<u8>, Seq<u8>>,
    key_base: u32,
    key_len: u32,
) -> Seq<u8> {
    lookup(contents, bytes_at(mem, key_base as int, key_len as int))
}

/// `write_key(key_base, key_len, value_base, value_len)`: copies the key and
/// the value out of `region` and puts them into `store`.
pub fn write_key(
    region: &[u8],
    store: &mut MemoryStore,
    key_base: u32,
    key_len: u32,
    value_base: u32,
    value_len: u32,
) -> (r: Result<(), BoundaryViolation>)
    ensures
        r is Ok <==> in_bounds(region@.len(), key_base as int, key_len as int) && in_bounds(
            region@.len(),
            value_base as int,
            value_len as int,
        ),
        r is Ok ==> final(store)@ == old(store)@.insert(
            bytes_at(region@, key_base as int, key_len as int),
            bytes_at(region@, value_base as int, value_len as int),
        ),
        r is Err ==> final(store)@ == old(store)@,
{
    let key = read_bytes(region, WasmBytes { base: key_base, len: key_len })?;
    let value = read_bytes(region, WasmBytes { base: value_base, len: value_len })?;
    store.put_item(key, value);
    Ok(())
}

/// The second half of `read_key`, for any backend: hands the guest what the
/// store found for the key (the empty sequence where it found nothing),
/// through the header at `result_header`.
pub fn finish_read_key(region: &mut [u8], result_header: u32, found: Option<Vec<u8>>) -> (r: Result<
    (),
    BoundaryViolation,
>)
    ensures
        r is Ok <==> result_fits(
            old(region)@.len(),
            result_header as int,
            found_or_empty(option_view(found)).len(),
        ),
        r is Ok ==> final(region)@ == with_result(
            old(region)@,
            result_header as int,
            found_or_empty(option_view(found)),
        ),
        r is Err ==> final(region)@ == old(region)@,
{
    let value = match found {
        Some(v) => v,
        None => Vec::new(),
    };
    write_result(region, result_header, value.as_slice())?;
    Ok(())
}

/// `read_key(result_header, key_base, key_len)`: copies the key out of
/// `region`, looks it up in `store`, and hands the value (empty where the key
/// is missing) back through the header at `result_header`.
pub fn read_key(
    region: &mut [u8],
    store: &MemoryStore,
    result_header: u32,
    key_base: u32,
    key_len: u32,
) -> (r: Result<(), BoundaryViolation>)
    ensures
        r is Ok <==> in_bounds(old(region)@.len(), key_base as int, key_len as int) && result_fits(
            old(region)@.len(),
            result_header as int,
            read_key_value(old(region)@, store@, key_base, key_len).len(),
        ),
        r is Ok ==> final(region)@ == with_result(
            old(region)@,
            result_header as int,
            read_key_value(old(region)@, store@, key_base, key_len),
        ),
        r is Err ==> final(region)@ == old(region)@,
{
    let key = read_bytes(region, WasmBytes { base: key_base, len: key_len })?;
    let found = store.get_item(key.as_slice());
    finish_read_key(region, result_header, found)
}

} // verus!
