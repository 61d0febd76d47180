use vstd::prelude::*;
use vstd::utf8::encode_utf8;

use crate::errors::ApiError;

verus! {

/// Whether `b` is an ASCII hex digit, either case.
pub open spec fn is_hex_digit(b: u8) -> bool {
    (48 <= b && b <= 57) || (97 <= b && b <= 102) || (65 <= b && b <= 70)
}

/// The value of an ASCII hex digit.
pub open spec fn hex_val(b: u8) -> int {
    if 48 <= b && b <= 57 {
        b - 48
    } else if 97 <= b && b <= 102 {
        b - 87
    } else {
        b - 55
    }
}

/// Whether `s` consists of hex digits only.
pub open spec fn all_hex(s: Seq<u8>) -> bool {
    forall|i: int| 0 <= i < s.len() ==> is_hex_digit(#[trigger] s[i])
}

/// The bytes an even-length hex string denotes, big-endian within each pair.
pub open spec fn hex_decoded(s: Seq<u8>) -> Seq<u8> {
    Seq::new(s.len() / 2, |i: int| (hex_val(s[2 * i]) * 16 + hex_val(s[2 * i + 1])) as u8)
}

/// Relies on `faster_hex::hex_decode`: an even-length, all-hex-digit input
/// decodes pairwise into the destination's prefix, leaving the spare suffix
/// unchanged; an odd length, a short destination or a non-hex byte fails and
/// leaves the whole destination unchanged. Letters of either case are
/// accepted.
#[verifier::external_body]
fn hex_decode_buf(src: &[u8], dst: &mut Vec<u8>) -> (r: bool)
    ensures
        r == (src@.len() % 2 == 0 && src@.len() / 2 <= old(dst)@.len() && all_hex(src@)),
        r ==> final(dst)@ == hex_decoded(src@) + old(dst)@.skip(src@.len() as int / 2),
        !r ==> final(dst)@ == old(dst)@,
{
    faster_hex::hex_decode(src, dst.as_mut_slice()).is_ok()
}

/// Parses a 32-byte private key from its 64-digit hex rendering; anything
/// else is rejected as unusable key material.
pub fn parse_private_key(hex_str: &str) -> (r: Result<Vec<u8>, ApiError>)
    ensures
        r is Ok <==> encode_utf8(hex_str@).len() == 64 && all_hex(encode_utf8(hex_str@)),
        r is Ok ==> r->Ok_0@ == hex_decoded(encode_utf8(hex_str@)) && r->Ok_0@.len() == 32,
        r is Err ==> r == Err::<Vec<u8>, ApiError>(ApiError::SigningFailed),
{
    let src = hex_str.as_bytes();
    if src.len() != 64 {
        return Err(ApiError::SigningFailed);
    }
    let mut dst: Vec<u8> = Vec::new();
    let mut i: usize = 0;
    while i < 32
        invariant
            i <= 32,
            dst@.len() == i,
        decreases 32 - i,
    {
        dst.push(0u8);
        i = i + 1;
    }
    if hex_decode_buf(src, &mut dst) {
        proof {
            assert(dst@ =~= hex_decoded(src@));
        }
        Ok(dst)
    } else {
        Err(ApiError::SigningFailed)
    }
}

} // verus!
