use vstd::prelude::*;
use vstd::utf8::*;

verus! {

/// The UTF-8 bytes of the text that lossy decoding makes of `bytes`: every
/// invalid sequence becomes U+FFFD, the rest is kept. It depends on the bytes
/// alone.
pub uninterp spec fn lossy_utf8(bytes: Seq<u8>) -> Seq<u8>;

/// Relies on `String::from_utf8_lossy`: it decodes `bytes`, replacing each
/// invalid sequence with U+FFFD, and hands valid UTF-8 back unchanged.
#[verifier::external_body]
pub(crate) fn decode_lossy(bytes: &[u8]) -> (r: String)
    ensures
        encode_utf8(r@) == lossy_utf8(bytes@),
        valid_utf8(bytes@) ==> encode_utf8(r@) == bytes@,
{
    String::from_utf8_lossy(bytes).into_owned()
}

} // verus!
