//! One request through one execution instance: the request body goes in at a
//! fixed offset, the entry point runs, and the result comes back out through
//! the header at offset 0.
use crate::guest::{entry, entry_store, entry_value};
use crate::memory::{
    decode_result, in_bounds, lemma_result_round_trip, overwrite, read_result, result_fits,
    with_result, write_bytes, BoundaryViolation, WasmBytes,
};
use crate::store::MemoryStore;
use vstd::prelude::*;

verus! {

/// Where the entry point writes the `(offset, length)` header of its result.
pub const RESULT_HEADER_OFFSET: u32 = 0;

/// Where the host writes the request body before it calls the entry point.
pub const BODY_OFFSET: u32 = 8;

/// Why a request failed. Either way the request is over.
#[derive(Debug, Clone, Copy, PartialEq, Eq, Structural)]
pub enum RequestError {
    /// The body's length does not fit the entry point's `i32` argument.
    BodyTooLarge,
    /// An access left the bounds of guest memory.
    OutOfBounds,
}

/// Where one request stands. It moves forward one step at a time; a failed
/// step ends it in `Failed`, and nothing leaves `ResultExtracted` or `Failed`.
#[derive(Debug, Clone, Copy, PartialEq, Eq, Structural)]
pub enum Phase {
    Idle,
    Compiled,
    Instantiated,
    BodyWritten,
    Invoked,
    ResultExtracted,
    Failed,
}

/// The phase that a successful step leads to from `p`.
pub open spec fn successor(p: Phase) -> Phase {
    match p {
        Phase::Idle => Phase::Compiled,
        Phase::Compiled => Phase::Instantiated,
        Phase::Instantiated => Phase::BodyWritten,
        Phase::BodyWritten => Phase::Invoked,
        Phase::Invoked => Phase::ResultExtracted,
        Phase::ResultExtracted => Phase::ResultExtracted,
        Phase::Failed => Phase::Failed,
    }
}

impl Phase {
    /// Whether the request is over.
    pub fn is_terminal(self) -> (r: bool)
        ensures
            r <==> (self == Phase::ResultExtracted || self == Phase::Failed),
    {
        match self {
            Phase::ResultExtracted | Phase::Failed => true,
            _ => false,
        }
    }

    /// The phase after the step from `self` succeeded or failed.
    pub fn advance(self, succeeded: bool) -> (r: Phase)
        ensures
            (self == Phase::ResultExtracted || self == Phase::Failed) ==> r == self,
            !(self == Phase::ResultExtracted || self == Phase::Failed) && succeeded ==> r
                == successor(self),
            !(self == Phase::ResultExtracted || self == Phase::Failed) && !succeeded ==> r
                == Phase::Failed,
    {
        if self.is_terminal() {
            return self;
        }
        if !succeeded {
            return Phase::Failed;
        }
        match self {
            Phase::Idle => Phase::Compiled,
            Phase::Compiled => Phase::Instantiated,
            Phase::Instantiated => Phase::BodyWritten,
            Phase::BodyWritten => Phase::Invoked,
            _ => Phase::ResultExtracted,
        }
    }
}

/// Writes the request body into `region` at the body offset, and returns the
/// handle through which the entry point reads it.
pub fn write_body(region: &mut [u8], body: &[u8]) -> (r: Result<WasmBytes, RequestError>)
    ensures
        (r == Err::<WasmBytes, RequestError>(RequestError::BodyTooLarge)) <==> body@.len()
            > i32::MAX,
        r is Ok <==> body@.len() <= i32::MAX && in_bounds(
            old(region)@.len(),
            BODY_OFFSET as int,
            body@.len() as int,
        ),
        r matches Ok(h) ==> h.base == BODY_OFFSET && h.len == body@.len(),
        r is Ok ==> final(region)@ == overwrite(old(region)@, BODY_OFFSET as int, body@),
        r is Err ==> final(region)@ == old(region)@,
{
    if body.len() > i32::MAX as usize {
        return Err(RequestError::BodyTooLarge);
    }
    match write_bytes(region, BODY_OFFSET as usize, body) {
        Ok(()) => Ok(WasmBytes { base: BODY_OFFSET, len: body.len() as u32 }),
        Err(_) => Err(RequestError::OutOfBounds),
    }
}

/// The arguments of the entry point `(result_header_offset, body_offset,
/// body_length)` for a body behind `body`, where each fits an `i32`.
pub fn entry_arguments(body: WasmBytes) -> (r: Option<(i32, i32, i32)>)
    ensures
        r is Some <==> body.base <= i32::MAX && body.len <= i32::MAX,
        r matches Some(a) ==> a.0 == RESULT_HEADER_OFFSET && a.1 == body.base && a.2 == body.len,
{
    if body.base > i32::MAX as u32 || body.len > i32::MAX as u32 {
        return None;
    }
    Some((RESULT_HEADER_OFFSET as i32, body.base as i32, body.len as i32))
}

/// Reads the result that the entry point left behind the header at offset 0.
pub fn extract_result(region: &[u8]) -> (r: Result<Vec<u8>, BoundaryViolation>)
    ensures
        r is Ok <==> decode_result(region@, RESULT_HEADER_OFFSET as int) is Some,
        r matches Ok(v) ==> Some(v@) == decode_result(region@, RESULT_HEADER_OFFSET as int),
{
    read_result(region, RESULT_HEADER_OFFSET)
}

/// Whether a request with `body` succeeds on a region of `size` bytes and a
/// store holding `m`: the body fits after the header, and the entry point's
/// result fits in the tail past the header.
pub open spec fn request_fits(size: nat, m: Map<Seq<u8>, Seq<u8>>, body: Seq<u8>) -> bool {
    &&& body.len() <= i32::MAX
    &&& in_bounds(size, BODY_OFFSET as int, body.len() as int)
    &&& result_fits(size, RESULT_HEADER_OFFSET as int, entry_value(m, body).len())
}

/// An execution instance run in process: a guest memory region of its own and
/// the Capability Store it is bound to.
pub struct Instance {
    pub memory: Vec<u8>,
    pub store: MemoryStore,
}

impl Instance {
    /// A fresh instance: `memory_size` zeroed bytes of memory, bound to `store`.
    /// Nothing of an earlier instance reaches it.
    pub fn new(memory_size: usize, store: MemoryStore) -> (r: Instance)
        ensures
            r.memory@ == Seq::new(memory_size as nat, |i: int| 0u8),
            r.store == store,
    {
        let memory: Vec<u8> = vec![0u8; memory_size];
        assert(memory@ =~= Seq::new(memory_size as nat, |i: int| 0u8));
        Instance { memory, store }
    }

    /// Runs one request: writes `body` into memory, calls the sample guest's
    /// entry point, and reads its result back out through the header.
    pub fn handle_request(&mut self, body: &[u8]) -> (r: Result<Vec<u8>, RequestError>)
        ensures
            final(self).memory@.len() == old(self).memory@.len(),
            (r == Err::<Vec<u8>, RequestError>(RequestError::BodyTooLarge)) <==> body@.len()
                > i32::MAX,
            r is Ok <==> request_fits(old(self).memory@.len(), old(self).store@, body@),
            r matches Ok(v) ==> v@ == entry_value(old(self).store@, body@),
            r is Ok ==> final(self).store@ == entry_store(old(self).store@, body@),
            r is Ok ==> final(self).memory@ == with_result(
                overwrite(old(self).memory@, BODY_OFFSET as int, body@),
                RESULT_HEADER_OFFSET as int,
                entry_value(old(self).store@, body@),
            ),
    {
        let handle = write_body(self.memory.as_mut_slice(), body)?;
        let ghost m1 = self.memory@;
        assert(crate::guest::body_bytes(m1, handle) =~= body@);
        match entry(self.memory.as_mut_slice(), &mut self.store, RESULT_HEADER_OFFSET, handle) {
            Ok(()) => {},
            Err(_) => {
                return Err(RequestError::OutOfBounds);
            },
        }
        proof {
            lemma_result_round_trip(m1, RESULT_HEADER_OFFSET as int, entry_value(old(self).store@, body@));
        }
        match extract_result(self.memory.as_slice()) {
            Ok(v) => Ok(v),
            Err(_) => Err(RequestError::OutOfBounds),
        }
    }
}

} // verus!
