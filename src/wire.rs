use vstd::bytes::spec_u32_from_le_bytes;
use vstd::bytes::spec_u64_from_le_bytes;
use vstd::prelude::*;
use vstd::utf8::decode_utf8;
use vstd::utf8::valid_utf8;

use borsh::BorshDeserialize;

verus! {

/// What `String::try_from_slice` accepts: a little-endian `u32` byte count,
/// exactly that many bytes after it, and those bytes valid UTF-8.
pub open spec fn is_string_frame(b: Seq<u8>) -> bool {
    &&& b.len() >= 4
    &&& b.len() - 4 == spec_u32_from_le_bytes(b.subrange(0, 4)) as int
    &&& valid_utf8(b.subrange(4, b.len() as int))
}

/// Relies on borsh's `BorshDeserialize::try_from_slice` for `String`: a `u32`
/// length prefix, that many bytes, `String::from_utf8` on them, and a refusal
/// when bytes are left over.
#[verifier::external_body]
pub(crate) fn string_from_frame(b: &[u8]) -> (r: Option<String>)
    ensures
        r is Some <==> is_string_frame(b@),
        r is Some ==> r->Some_0@ == decode_utf8(b@.subrange(4, b@.len() as int)),
{
    String::try_from_slice(b).ok()
}

/// Relies on borsh's `BorshDeserialize::try_from_slice` for `u64`: eight
/// little-endian bytes and nothing after them.
#[verifier::external_body]
pub(crate) fn u64_from_frame(b: &[u8]) -> (r: Option<u64>)
    ensures
        r is Some <==> b@.len() == 8,
        r is Some ==> r->Some_0 == spec_u64_from_le_bytes(b@),
{
    u64::try_from_slice(b).ok()
}

} // verus!
