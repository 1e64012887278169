//! Save-state framing: a save state is a little-endian magic number, a
//! format version, then the encoded machine. Files with another header are
//! rejected before any decoding is attempted.
use vstd::prelude::*;
use vstd::bytes::{spec_u32_from_le_bytes, spec_u32_to_le_bytes};

verus! {

/// "GBCS"
pub const MAGIC: u32 = 0x4742_4353;
/// Save-state format version.
pub const VERSION: u32 = 1;

/// The eight header bytes: magic then version, both little-endian.
pub open spec fn header() -> Seq<u8> {
    spec_u32_to_le_bytes(MAGIC) + spec_u32_to_le_bytes(VERSION)
}

/// `bytes` starts with a header this build accepts.
pub open spec fn header_accepted(bytes: Seq<u8>) -> bool {
    &&& bytes.len() >= 8
    &&& spec_u32_from_le_bytes(bytes.subrange(0, 4)) == MAGIC
    &&& spec_u32_from_le_bytes(bytes.subrange(4, 8)) == VERSION
}

/// Prefix an encoded machine with the header.
pub fn frame(payload: &[u8]) -> (out: Vec<u8>)
    ensures
        out@ == header() + payload@,
{
    let mut out = vstd::bytes::u32_to_le_bytes(MAGIC);
    let version = vstd::bytes::u32_to_le_bytes(VERSION);
    let mut i: usize = 0;
    while i < version.len()
        invariant
            version@ == spec_u32_to_le_bytes(VERSION),
            i <= version@.len(),
            out@ == spec_u32_to_le_bytes(MAGIC) + version@.subrange(0, i as int),
        decreases version.len() - i,
    {
        out.push(version[i]);
        i += 1;
        assert(out@ =~= spec_u32_to_le_bytes(MAGIC) + version@.subrange(0, i as int));
    }
    assert(version@.subrange(0, version@.len() as int) =~= version@);
    let mut j: usize = 0;
    while j < payload.len()
        invariant
            j <= payload@.len(),
            out@ == header() + payload@.subrange(0, j as int),
        decreases payload.len() - j,
    {
        out.push(payload[j]);
        j += 1;
        assert(out@ =~= header() + payload@.subrange(0, j as int));
    }
    assert(payload@.subrange(0, payload@.len() as int) =~= payload@);
    out
}

/// The encoded machine after an accepted header, or `None` when `bytes` is
/// shorter than the header or carries another magic number or version.
pub fn unframe(bytes: &[u8]) -> (r: Option<Vec<u8>>)
    ensures
        r is Some <==> header_accepted(bytes@),
        r matches Some(p) ==> p@ == bytes@.subrange(8, bytes@.len() as int),
{
    if bytes.len() < 8 {
        return None;
    }
    let magic = vstd::bytes::u32_from_le_bytes(vstd::slice::slice_subrange(bytes, 0, 4));
    let version = vstd::bytes::u32_from_le_bytes(vstd::slice::slice_subrange(bytes, 4, 8));
    if magic != MAGIC || version != VERSION {
        return None;
    }
    Some(vstd::slice::slice_to_vec(vstd::slice::slice_subrange(bytes, 8, bytes.len())))
}

/// A framed payload is accepted and gives back exactly the payload.
pub proof fn lemma_frame_roundtrip(payload: Seq<u8>)
    ensures
        header_accepted(header() + payload),
        (header() + payload).subrange(8, (header() + payload).len() as int) == payload,
{
    vstd::bytes::lemma_auto_spec_u32_to_from_le_bytes();
    let h = header() + payload;
    assert(h.subrange(0, 4) =~= spec_u32_to_le_bytes(MAGIC));
    assert(h.subrange(4, 8) =~= spec_u32_to_le_bytes(VERSION));
    assert(h.subrange(8, h.len() as int) =~= payload);
}

} // verus!
