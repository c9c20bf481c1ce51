//! The guest side of the boundary: the typed calls a guest makes on its
//! capability, and the sample guest's entry point.
use crate::memory::{
    bytes_at, read_bytes, result_fits, with_result, write_result, BoundaryViolation,
    WasmBytes,
};
use crate::store::{lookup, MemoryStore};
use vstd::prelude::*;
use vstd::slice::slice_to_vec;

verus! {

/// The key under which the sample guest records what it saw: ASCII `world`.
pub open spec fn spec_record_key() -> Seq<u8> {
    seq![119u8, 111u8, 114u8, 108u8, 100u8]
}

/// The key whose value the sample guest returns: ASCII `foo`.
pub open spec fn spec_lookup_key() -> Seq<u8> {
    seq![102u8, 111u8, 111u8]
}

fn record_key() -> (r: Vec<u8>)
    ensures
        r@ == spec_record_key(),
{
    let r: Vec<u8> = vec![119u8, 111u8, 114u8, 108u8, 100u8];
    assert(r@ =~= spec_record_key());
    r
}

fn lookup_key() -> (r: Vec<u8>)
    ensures
        r@ == spec_lookup_key(),
{
    let r: Vec<u8> = vec![102u8, 111u8, 111u8];
    assert(r@ =~= spec_lookup_key());
    r
}

/// The guest's `put`: stores `value` under `key` through its capability.
pub fn write(store: &mut MemoryStore, key: &[u8], value: &[u8])
    ensures
        final(store)@ == old(store)@.insert(key@, value@),
{
    store.put_item(slice_to_vec(key), slice_to_vec(value));
}

/// The guest's `get`: hands the value under `key` (the empty sequence where
/// there is none) to `consume`, and returns what `consume` returns.
pub fn read<R, F: FnOnce(&[u8]) -> R>(store: &MemoryStore, key: &[u8], consume: F) -> (r: R)
    requires
        forall|s: &[u8]| consume.requires((s,)),
    ensures
        exists|s: &[u8]| s@ == lookup(store@, key@) && consume.ensures((s,), r),
{
    let value = store.get_or_empty(key);
    consume(value.as_slice())
}

/// What the sample guest returns for a request `body` run against a store
/// holding `m`: the value under `foo` once `body` is recorded under `world`.
pub open spec fn entry_value(m: Map<Seq<u8>, Seq<u8>>, body: Seq<u8>) -> Seq<u8> {
    lookup(m.insert(spec_record_key(), body), spec_lookup_key())
}

/// The store after the sample guest ran: `world` first takes the body, then
/// the value returned.
pub open spec fn entry_store(m: Map<Seq<u8>, Seq<u8>>, body: Seq<u8>) -> Map<Seq<u8>, Seq<u8>> {
    m.insert(spec_record_key(), body).insert(spec_record_key(), entry_value(m, body))
}

/// The sample guest's entry point. It records the request body under `world`,
/// reads `foo`, records that value under `world` in turn, and returns it: the
/// value goes to the tail of `region` and its header to `result`.
pub fn entry(region: &mut [u8], store: &mut MemoryStore, result: u32, body: WasmBytes) -> (r: Result<
    (),
    BoundaryViolation,
>)
    ensures
        r is Ok <==> body.fits(old(region)@.len()) && result_fits(
            old(region)@.len(),
            result as int,
            entry_value(old(store)@, body_bytes(old(region)@, body)).len(),
        ),
        body.fits(old(region)@.len()) ==> final(store)@ == entry_store(
            old(store)@,
            body_bytes(old(region)@, body),
        ),
        !body.fits(old(region)@.len()) ==> final(store)@ == old(store)@,
        r is Ok ==> final(region)@ == with_result(
            old(region)@,
            result as int,
            entry_value(old(store)@, body_bytes(old(region)@, body)),
        ),
        r is Err ==> final(region)@ == old(region)@,
{
    let input = read_bytes(region, body)?;
    let world = record_key();
    let foo = lookup_key();
    write(store, world.as_slice(), input.as_slice());
    let value = read(store, foo.as_slice(), |v: &[u8]| -> (r: Vec<u8>)
        ensures
            r@ == v@,
        { slice_to_vec(v) });
    write(store, world.as_slice(), value.as_slice());
    write_result(region, result, value.as_slice())?;
    Ok(())
}

/// A request changes its own store under the record key alone: every other
/// key reads afterwards as it did before.
pub proof fn lemma_request_writes_only_record_key(
    m: Map<Seq<u8>, Seq<u8>>,
    body: Seq<u8>,
    key: Seq<u8>,
)
    requires
        key != spec_record_key(),
    ensures
        lookup(entry_store(m, body), key) == lookup(m, key),
        entry_store(m, body).contains_key(key) == m.contains_key(key),
{
}

/// The bytes of `mem` that the handle `h` names.
pub open spec fn body_bytes(mem: Seq<u8>, h: WasmBytes) -> Seq<u8> {
    bytes_at(mem, h.base as int, h.len as int)
}

} // verus!
