//! Little-endian field access in byte images of firmware structures, byte checksums
//! and text decoding.

use vstd::prelude::*;
use vstd::utf8::*;

verus! {

/// The unsigned 16-bit little-endian value stored at `off` in `s`.
pub open spec fn u16_at(s: Seq<u8>, off: int) -> u16 {
    (s[off] + 256 * s[off + 1]) as u16
}

/// The unsigned 32-bit little-endian value stored at `off` in `s`.
pub open spec fn u32_at(s: Seq<u8>, off: int) -> u32 {
    (s[off] + 256 * s[off + 1] + 65536 * s[off + 2] + 16777216 * s[off + 3]) as u32
}

/// The unsigned 64-bit little-endian value stored at `off` in `s`.
pub open spec fn u64_at(s: Seq<u8>, off: int) -> u64 {
    (u32_at(s, off) + 4294967296 * u32_at(s, off + 4)) as u64
}

/// Sum of all bytes of `s`, as an integer.
pub open spec fn byte_sum(s: Seq<u8>) -> nat
    decreases s.len(),
{
    if s.len() == 0 {
        0
    } else {
        byte_sum(s.drop_last()) + s.last() as nat
    }
}

/// A byte region checksums to zero when its bytes add up to a multiple of 256.
pub open spec fn checksum_ok(s: Seq<u8>) -> bool {
    byte_sum(s) % 256 == 0
}

pub fn read_u8(s: &[u8], off: usize) -> (r: u8)
    requires
        off < s@.len(),
    ensures
        r == s@[off as int],
{
    s[off]
}

pub fn read_u16(s: &[u8], off: usize) -> (r: u16)
    requires
        off + 2 <= s@.len(),
    ensures
        r == u16_at(s@, off as int),
{
    let b0 = s[off] as u16;
    let b1 = s[off + 1] as u16;
    b0 + b1 * 256
}

pub fn read_u32(s: &[u8], off: usize) -> (r: u32)
    requires
        off + 4 <= s@.len(),
    ensures
        r == u32_at(s@, off as int),
{
    let b0 = s[off] as u32;
    let b1 = s[off + 1] as u32;
    let b2 = s[off + 2] as u32;
    let b3 = s[off + 3] as u32;
    b0 + b1 * 256 + b2 * 65536 + b3 * 16777216
}

pub fn read_u64(s: &[u8], off: usize) -> (r: u64)
    requires
        off + 8 <= s@.len(),
    ensures
        r == u64_at(s@, off as int),
{
    let _len = s.len();
    let lo = read_u32(s, off) as u64;
    let hi = read_u32(s, off + 4) as u64;
    lo + hi * 4294967296
}

pub fn read_array2(s: &[u8], off: usize) -> (r: [u8; 2])
    requires
        off + 2 <= s@.len(),
    ensures
        r@ == s@.subrange(off as int, off + 2),
{
    let r = [s[off], s[off + 1]];
    assert(r@ =~= s@.subrange(off as int, off + 2));
    r
}

pub fn read_array3(s: &[u8], off: usize) -> (r: [u8; 3])
    requires
        off + 3 <= s@.len(),
    ensures
        r@ == s@.subrange(off as int, off + 3),
{
    let r = [s[off], s[off + 1], s[off + 2]];
    assert(r@ =~= s@.subrange(off as int, off + 3));
    r
}

pub fn read_array4(s: &[u8], off: usize) -> (r: [u8; 4])
    requires
        off + 4 <= s@.len(),
    ensures
        r@ == s@.subrange(off as int, off + 4),
{
    let r = [s[off], s[off + 1], s[off + 2], s[off + 3]];
    assert(r@ =~= s@.subrange(off as int, off + 4));
    r
}

pub fn read_array6(s: &[u8], off: usize) -> (r: [u8; 6])
    requires
        off + 6 <= s@.len(),
    ensures
        r@ == s@.subrange(off as int, off + 6),
{
    let r = [s[off], s[off + 1], s[off + 2], s[off + 3], s[off + 4], s[off + 5]];
    assert(r@ =~= s@.subrange(off as int, off + 6));
    r
}

pub fn read_array8(s: &[u8], off: usize) -> (r: [u8; 8])
    requires
        off + 8 <= s@.len(),
    ensures
        r@ == s@.subrange(off as int, off + 8),
{
    let r = [
        s[off],
        s[off + 1],
        s[off + 2],
        s[off + 3],
        s[off + 4],
        s[off + 5],
        s[off + 6],
        s[off + 7],
    ];
    assert(r@ =~= s@.subrange(off as int, off + 8));
    r
}

/// Bytes below 128 are well-formed UTF-8 that decodes one character per byte.
pub proof fn lemma_ascii_utf8(bytes: Seq<u8>)
    requires
        forall|i: int| 0 <= i < bytes.len() ==> bytes[i] < 128,
    ensures
        valid_utf8(bytes),
        decode_utf8(bytes) == Seq::new(bytes.len(), |i: int| bytes[i] as char),
{
    let chars = Seq::new(bytes.len(), |i: int| bytes[i] as char);
    assert forall|i: int| 0 <= i < chars.len() implies '\0' <= #[trigger] chars[i] <= '\u{7f}' by {
        assert(bytes[i] < 128);
    }
    assert(is_ascii_chars(chars));
    is_ascii_chars_encode_utf8(chars);
    assert forall|i: int| 0 <= i < bytes.len() implies #[trigger] encode_utf8(chars)[i] == bytes[i] by {
        assert(chars[i] as u8 == encode_utf8(chars)[i]);
        assert(bytes[i] < 128);
    }
    assert(encode_utf8(chars) =~= bytes);
    encode_utf8_valid_utf8(chars);
    encode_utf8_decode_utf8(chars);
}

/// `core::str::from_utf8`: the bytes viewed as text when they are well-formed UTF-8.
/// Trusted: it succeeds exactly on well-formed UTF-8 and then yields the decoded
/// characters, as the standard library documents.
#[verifier::external_body]
pub(crate) fn utf8_str(b: &[u8]) -> (r: Option<&str>)
    ensures
        r is Some <==> valid_utf8(b@),
        r is Some ==> r->0@ == decode_utf8(b@),
{
    core::str::from_utf8(b).ok()
}

} // verus!
