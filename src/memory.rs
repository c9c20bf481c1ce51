//! Bounds-checked access to a guest memory region, and the binary convention
//! by which byte buffers cross the host/guest boundary.
use vstd::bytes::{
    lemma_auto_spec_u32_to_from_le_bytes, spec_u32_from_le_bytes, spec_u32_to_le_bytes,
    u32_from_le_bytes, u32_to_le_bytes,
};
use vstd::prelude::*;
use vstd::slice::{slice_subrange, slice_to_vec};

verus! {

/// An access that would leave the current bounds of the guest memory region.
#[derive(Debug, Clone, Copy, PartialEq, Eq, Structural)]
pub struct BoundaryViolation;

/// A buffer handle: a byte range `[base, base + len)` of one guest memory region.
#[derive(Debug, Clone, Copy, PartialEq, Eq, Structural)]
pub struct WasmBytes {
    pub base: u32,
    pub len: u32,
}

/// Whether the range `[base, base + len)` lies inside a region of `size` bytes.
pub open spec fn in_bounds(size: nat, base: int, len: int) -> bool {
    base + len <= size
}

/// The bytes `[base, base + len)` of `mem`.
pub open spec fn bytes_at(mem: Seq<u8>, base: int, len: int) -> Seq<u8> {
    mem.subrange(base, base + len)
}

/// `mem` with the bytes from `base` on replaced by `data`.
pub open spec fn overwrite(mem: Seq<u8>, base: int, data: Seq<u8>) -> Seq<u8> {
    Seq::new(
        mem.len(),
        |j: int|
            if base <= j < base + data.len() {
                data[j - base]
            } else {
                mem[j]
            },
    )
}

impl WasmBytes {
    pub open spec fn fits(self, size: nat) -> bool {
        in_bounds(size, self.base as int, self.len as int)
    }

    /// A handle over `[base, base + len)` of `region`, checked against its current size.
    pub fn from_slice(region: &[u8], base: u32, len: u32) -> (r: Result<WasmBytes, BoundaryViolation>)
        ensures
            r is Ok <==> in_bounds(region@.len(), base as int, len as int),
            r matches Ok(h) ==> h.base == base && h.len == len,
    {
        let h = WasmBytes { base, len };
        if h.check(region.len()) {
            Ok(h)
        } else {
            Err(BoundaryViolation)
        }
    }

    /// Whether the handle lies inside a region of `size` bytes; the sum is
    /// taken in 64 bits, so it cannot wrap.
    pub fn check(&self, size: usize) -> (r: bool)
        ensures
            r == self.fits(size as nat),
    {
        (self.base as u64) + (self.len as u64) <= size as u64
    }

    /// The bytes that the handle names in `region`, after one bounds check.
    pub fn as_slice<'a>(&self, region: &'a [u8]) -> (r: Result<&'a [u8], BoundaryViolation>)
        ensures
            r is Ok <==> self.fits(region@.len()),
            r matches Ok(s) ==> s@ == bytes_at(region@, self.base as int, self.len as int),
    {
        if self.check(region.len()) {
            let start = self.base as usize;
            let end = start + self.len as usize;
            Ok(slice_subrange(region, start, end))
        } else {
            Err(BoundaryViolation)
        }
    }
}

/// Copies the bytes that `handle` names out of `region`.
pub fn read_bytes(region: &[u8], handle: WasmBytes) -> (r: Result<Vec<u8>, BoundaryViolation>)
    ensures
        r is Ok <==> handle.fits(region@.len()),
        r matches Ok(v) ==> v@ == bytes_at(region@, handle.base as int, handle.len as int),
{
    let s = handle.as_slice(region)?;
    Ok(slice_to_vec(s))
}

/// Writes `data` into `region` from `base` on; nothing is written unless all
/// of it fits.
pub fn write_bytes(region: &mut [u8], base: usize, data: &[u8]) -> (r: Result<(), BoundaryViolation>)
    ensures
        r is Ok <==> in_bounds(old(region)@.len(), base as int, data@.len() as int),
        r is Ok ==> final(region)@ == overwrite(old(region)@, base as int, data@),
        r is Err ==> final(region)@ == old(region)@,
{
    let size = region.len();
    if base > size || data.len() > size - base {
        return Err(BoundaryViolation);
    }
    let n = data.len();
    let mut i: usize = 0;
    while i < n
        invariant
            base + n <= size,
            n == data@.len(),
            region@.len() == size,
            size == old(region)@.len(),
            0 <= i <= n,
            forall|j: int|
                0 <= j < size ==> #[trigger] region@[j] == if base <= j < base + i {
                    data@[j - base]
                } else {
                    old(region)@[j]
                },
        decreases n - i,
    {
        region[base + i] = data[i];
        i = i + 1;
    }
    assert(region@ =~= overwrite(old(region)@, base as int, data@));
    Ok(())
}

/// The little-endian `u32` stored at `offset` of `mem`.
pub open spec fn u32_at(mem: Seq<u8>, offset: int) -> u32 {
    spec_u32_from_le_bytes(bytes_at(mem, offset, 4))
}

/// Reads the little-endian `u32` at `offset` of `region`.
pub fn read_u32(region: &[u8], offset: usize) -> (r: Result<u32, BoundaryViolation>)
    ensures
        r is Ok <==> in_bounds(region@.len(), offset as int, 4),
        r matches Ok(v) ==> v == u32_at(region@, offset as int),
{
    if offset > region.len() || region.len() - offset < 4 {
        return Err(BoundaryViolation);
    }
    Ok(u32_from_le_bytes(slice_subrange(region, offset, offset + 4)))
}

/// Writes `v` little-endian at `offset` of `region`.
pub fn write_u32(region: &mut [u8], offset: usize, v: u32) -> (r: Result<(), BoundaryViolation>)
    ensures
        r is Ok <==> in_bounds(old(region)@.len(), offset as int, 4),
        r is Ok ==> final(region)@ == overwrite(old(region)@, offset as int, spec_u32_to_le_bytes(v)),
        r is Err ==> final(region)@ == old(region)@,
{
    proof {
        lemma_auto_spec_u32_to_from_le_bytes();
    }
    let bytes = u32_to_le_bytes(v);
    write_bytes(region, offset, bytes.as_slice())
}

/// Where a result of `len` bytes goes: the last `len` bytes of the region.
pub open spec fn tail_offset(size: nat, len: nat) -> int {
    size - len
}

/// Whether a result of `len` bytes can be handed over through a header at
/// `header` of a region of `size` bytes: it fits in the region, its offset and
/// length are `u32`s, and the 8-byte header lies before the tail.
pub open spec fn result_fits(size: nat, header: int, len: nat) -> bool {
    &&& len <= size
    &&& len <= u32::MAX
    &&& tail_offset(size, len) <= u32::MAX
    &&& 0 <= header
    &&& header + 8 <= tail_offset(size, len)
}

/// The region after the result `data` is written to its tail and its
/// `(offset, length)` header, both little-endian `u32`, at `header`.
pub open spec fn with_result(mem: Seq<u8>, header: int, data: Seq<u8>) -> Seq<u8> {
    let tail = tail_offset(mem.len(), data.len());
    let m1 = overwrite(mem, tail, data);
    let m2 = overwrite(m1, header, spec_u32_to_le_bytes(tail as u32));
    overwrite(m2, header + 4, spec_u32_to_le_bytes(data.len() as u32))
}

/// The bytes that the `(offset, length)` header at `header` of `mem` names,
/// or `None` where the header or the range it names is out of bounds.
pub open spec fn decode_result(mem: Seq<u8>, header: int) -> Option<Seq<u8>> {
    if 0 <= header && header + 8 <= mem.len() {
        let base = u32_at(mem, header) as int;
        let len = u32_at(mem, header + 4) as int;
        if in_bounds(mem.len(), base, len) {
            Some(bytes_at(mem, base, len))
        } else {
            None
        }
    } else {
        None
    }
}

/// Hands `data` to the guest: writes it into the unused tail of `region`, then
/// its `(offset, length)` header at `header`. The offset is taken from the
/// region's size at this moment. Nothing is written unless all of it fits.
pub fn write_result(region: &mut [u8], header: u32, data: &[u8]) -> (r: Result<
    WasmBytes,
    BoundaryViolation,
>)
    ensures
        r is Ok <==> result_fits(old(region)@.len(), header as int, data@.len()),
        r matches Ok(h) ==> {
            &&& h.base == tail_offset(old(region)@.len(), data@.len())
            &&& h.len == data@.len()
            &&& final(region)@ == with_result(old(region)@, header as int, data@)
        },
        r is Err ==> final(region)@ == old(region)@,
{
    let size = region.len();
    let n = data.len();
    if n > size || n as u64 > u32::MAX as u64 {
        return Err(BoundaryViolation);
    }
    let tail = size - n;
    if tail as u64 > u32::MAX as u64 || (header as u64) + 8 > tail as u64 {
        return Err(BoundaryViolation);
    }
    let h = header as usize;
    let r1 = write_bytes(region, tail, data);
    assert(r1 is Ok);
    let r2 = write_u32(region, h, tail as u32);
    assert(r2 is Ok);
    let r3 = write_u32(region, h + 4, n as u32);
    assert(r3 is Ok);
    Ok(WasmBytes { base: tail as u32, len: n as u32 })
}

/// Reads back a result through the `(offset, length)` header at `header`.
pub fn read_result(region: &[u8], header: u32) -> (r: Result<Vec<u8>, BoundaryViolation>)
    ensures
        r is Ok <==> decode_result(region@, header as int) is Some,
        r matches Ok(v) ==> Some(v@) == decode_result(region@, header as int),
{
    if (header as u64) + 8 > region.len() as u64 {
        return Err(BoundaryViolation);
    }
    let h = header as usize;
    let base = read_u32(region, h)?;
    let len = read_u32(region, h + 4)?;
    read_bytes(region, WasmBytes { base, len })
}

/// A result handed over through the tail and a header reads back, through
/// that header, as exactly the bytes written; the empty result included.
pub proof fn lemma_result_round_trip(mem: Seq<u8>, header: int, data: Seq<u8>)
    requires
        result_fits(mem.len(), header, data.len()),
    ensures
        decode_result(with_result(mem, header, data), header) == Some(data),
{
    lemma_auto_spec_u32_to_from_le_bytes();
    let tail = tail_offset(mem.len(), data.len());
    let lo = spec_u32_to_le_bytes(tail as u32);
    let hi = spec_u32_to_le_bytes(data.len() as u32);
    let m = with_result(mem, header, data);
    assert(bytes_at(m, header, 4) =~= lo);
    assert(bytes_at(m, header + 4, 4) =~= hi);
    assert(u32_at(m, header) == tail as u32);
    assert(u32_at(m, header + 4) == data.len() as u32);
    assert(bytes_at(m, tail, data.len() as int) =~= data);
}

} // verus!
