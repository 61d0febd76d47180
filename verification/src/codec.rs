use vstd::prelude::*;
use vstd::utf8::encode_utf8;

verus! {

/// The four little-endian bytes of a 32-bit value.
pub open spec fn u32_le_bytes(v: u32) -> Seq<u8> {
    seq![
        (v & 0xff) as u8,
        ((v >> 8) & 0xff) as u8,
        ((v >> 16) & 0xff) as u8,
        ((v >> 24) & 0xff) as u8,
    ]
}

/// The eight little-endian bytes of a 64-bit value.
pub open spec fn u64_le_bytes(v: u64) -> Seq<u8> {
    seq![
        (v & 0xff) as u8,
        ((v >> 8) & 0xff) as u8,
        ((v >> 16) & 0xff) as u8,
        ((v >> 24) & 0xff) as u8,
        ((v >> 32) & 0xff) as u8,
        ((v >> 40) & 0xff) as u8,
        ((v >> 48) & 0xff) as u8,
        ((v >> 56) & 0xff) as u8,
    ]
}

/// A length-prefixed string on the wire: the byte length as a little-endian
/// `u32`, then the UTF-8 bytes.
pub open spec fn string_frame(s: Seq<char>) -> Seq<u8> {
    u32_le_bytes(encode_utf8(s).len() as u32) + encode_utf8(s)
}

/// A length-prefixed buffer on the wire: the length as a little-endian
/// `u32`, then the bytes.
pub open spec fn bytes_frame(b: Seq<u8>) -> Seq<u8> {
    u32_le_bytes(b.len() as u32) + b
}

/// Appends a 32-bit value in little-endian order.
pub fn push_u32_le(out: &mut Vec<u8>, v: u32)
    ensures
        final(out)@ == old(out)@ + u32_le_bytes(v),
{
    out.push((v & 0xff) as u8);
    out.push(((v >> 8) & 0xff) as u8);
    out.push(((v >> 16) & 0xff) as u8);
    out.push(((v >> 24) & 0xff) as u8);
    proof {
        assert(final(out)@ =~= old(out)@ + u32_le_bytes(v));
    }
}

/// Appends a 64-bit value in little-endian order.
pub fn push_u64_le(out: &mut Vec<u8>, v: u64)
    ensures
        final(out)@ == old(out)@ + u64_le_bytes(v),
{
    out.push((v & 0xff) as u8);
    out.push(((v >> 8) & 0xff) as u8);
    out.push(((v >> 16) & 0xff) as u8);
    out.push(((v >> 24) & 0xff) as u8);
    out.push(((v >> 32) & 0xff) as u8);
    out.push(((v >> 40) & 0xff) as u8);
    out.push(((v >> 48) & 0xff) as u8);
    out.push(((v >> 56) & 0xff) as u8);
    proof {
        assert(final(out)@ =~= old(out)@ + u64_le_bytes(v));
    }
}

/// Appends a length-prefixed string. The byte length fitting the `u32`
/// prefix is the format's own limit; callers check it first.
pub fn push_string_frame(out: &mut Vec<u8>, s: &str)
    requires
        encode_utf8(s@).len() <= u32::MAX,
    ensures
        final(out)@ == old(out)@ + string_frame(s@),
{
    let len = s.len();
    push_u32_le(out, len as u32);
    let ghost mid = out@;
    out.extend_from_slice(s.as_bytes());
    proof {
        assert(out@ =~= mid + encode_utf8(s@));
        assert(out@ =~= old(out)@ + string_frame(s@));
    }
}

/// Appends a length-prefixed buffer. The length fitting the `u32` prefix is
/// the format's own limit; callers check it first.
pub fn push_bytes_frame(out: &mut Vec<u8>, b: &Vec<u8>)
    requires
        b@.len() <= u32::MAX,
    ensures
        final(out)@ == old(out)@ + bytes_frame(b@),
{
    let len = b.len();
    push_u32_le(out, len as u32);
    let ghost mid = out@;
    out.extend_from_slice(b.as_slice());
    proof {
        assert(out@ =~= mid + b@);
        assert(out@ =~= old(out)@ + bytes_frame(b@));
    }
}

} // verus!
