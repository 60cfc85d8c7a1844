//! The byte layout of kernel module data: little-endian integers, a byte for a
//! boolean or an option tag, strings and sequences prefixed by a 32-bit length,
//! identifiers as their 32 bytes.
use vstd::prelude::*;
use vstd::utf8::{decode_utf8, encode_utf8, valid_utf8};
use crate::hashing::{append_bytes, append_le32, append_le64, le32, le64};
use crate::id::UnitsObjectId;

verus! {

/// The 32-bit number encoded at `pos`, with the position after it.
pub open spec fn take_u32(b: Seq<u8>, pos: int) -> Option<(u32, int)> {
    if 0 <= pos && pos + 4 <= b.len() {
        Some((vstd::bytes::spec_u32_from_le_bytes(b.subrange(pos, pos + 4)), pos + 4))
    } else {
        None
    }
}

/// The 64-bit number encoded at `pos`, with the position after it.
pub open spec fn take_u64(b: Seq<u8>, pos: int) -> Option<(u64, int)> {
    if 0 <= pos && pos + 8 <= b.len() {
        Some((vstd::bytes::spec_u64_from_le_bytes(b.subrange(pos, pos + 8)), pos + 8))
    } else {
        None
    }
}

/// The byte at `pos`, with the position after it.
pub open spec fn take_u8(b: Seq<u8>, pos: int) -> Option<(u8, int)> {
    if 0 <= pos && pos + 1 <= b.len() {
        Some((b[pos], pos + 1))
    } else {
        None
    }
}

/// The boolean encoded at `pos` (a byte 0 or 1), with the position after it.
pub open spec fn take_bool(b: Seq<u8>, pos: int) -> Option<(bool, int)> {
    match take_u8(b, pos) {
        Some((0, p)) => Some((false, p)),
        Some((1, p)) => Some((true, p)),
        _ => None,
    }
}

/// The `n` bytes at `pos`, with the position after them.
pub open spec fn take_bytes(b: Seq<u8>, pos: int, n: int) -> Option<(Seq<u8>, int)> {
    if 0 <= pos && 0 <= n && pos + n <= b.len() {
        Some((b.subrange(pos, pos + n), pos + n))
    } else {
        None
    }
}

/// The identifier encoded at `pos` (its 32 bytes), with the position after it.
pub open spec fn take_id(b: Seq<u8>, pos: int) -> Option<(Seq<u8>, int)> {
    take_bytes(b, pos, 32)
}

/// The string encoded at `pos` (a 32-bit length, then that many bytes of UTF-8),
/// with the position after it.
pub open spec fn take_string(b: Seq<u8>, pos: int) -> Option<(Seq<char>, int)> {
    match take_u32(b, pos) {
        Some((n, p)) => match take_bytes(b, p, n as int) {
            Some((s, q)) => if valid_utf8(s) {
                Some((decode_utf8(s), q))
            } else {
                None
            },
            None => None,
        },
        None => None,
    }
}

/// The encoding of a boolean.
pub open spec fn bool_bytes(x: bool) -> Seq<u8> {
    if x {
        seq![1u8]
    } else {
        seq![0u8]
    }
}

/// The encoding of a string: its UTF-8 length (32-bit), then its UTF-8 bytes.
pub open spec fn string_bytes(s: Seq<char>) -> Seq<u8> {
    le32(encode_utf8(s).len() as u32) + encode_utf8(s)
}

/// A string can be encoded: its UTF-8 length fits in 32 bits.
pub open spec fn string_fits(s: Seq<char>) -> bool {
    encode_utf8(s).len() <= u32::MAX
}

/// `String::from_utf8`: the bytes become a string exactly when they are valid
/// UTF-8, and the string's characters are the ones they encode.
#[verifier::external_body]
fn string_from_utf8(bytes: Vec<u8>) -> (r: Option<String>)
    ensures
        r is Some <==> valid_utf8(bytes@),
        r matches Some(s) ==> s@ == decode_utf8(bytes@),
{
    String::from_utf8(bytes).ok()
}

/// Read a 32-bit number at `pos`.
pub fn read_u32(b: &[u8], pos: usize) -> (r: Option<(u32, usize)>)
    ensures
        r is Some <==> take_u32(b@, pos as int) is Some,
        r matches Some((v, p)) ==> take_u32(b@, pos as int) == Some((v, p as int)),
{
    if pos > b.len() || b.len() - pos < 4 {
        return None;
    }
    let mut v: Vec<u8> = Vec::new();
    let mut i: usize = 0;
    while i < 4
        invariant
            i <= 4,
            pos + 4 <= b.len(),
            v@ == b@.subrange(pos as int, pos + i),
        decreases 4 - i,
    {
        v.push(b[pos + i]);
        i = i + 1;
        proof {
            assert(v@ =~= b@.subrange(pos as int, pos + i));
        }
    }
    Some((vstd::bytes::u32_from_le_bytes(v.as_slice()), pos + 4))
}

/// Read a 64-bit number at `pos`.
pub fn read_u64(b: &[u8], pos: usize) -> (r: Option<(u64, usize)>)
    ensures
        r is Some <==> take_u64(b@, pos as int) is Some,
        r matches Some((v, p)) ==> take_u64(b@, pos as int) == Some((v, p as int)),
{
    if pos > b.len() || b.len() - pos < 8 {
        return None;
    }
    Some((crate::hashing::read_u64_le(b, pos), pos + 8))
}

/// Read a byte at `pos`.
pub fn read_u8(b: &[u8], pos: usize) -> (r: Option<(u8, usize)>)
    ensures
        r is Some <==> take_u8(b@, pos as int) is Some,
        r matches Some((v, p)) ==> take_u8(b@, pos as int) == Some((v, p as int)),
{
    if pos >= b.len() {
        return None;
    }
    Some((b[pos], pos + 1))
}

/// Read a boolean at `pos`.
pub fn read_bool(b: &[u8], pos: usize) -> (r: Option<(bool, usize)>)
    ensures
        r is Some <==> take_bool(b@, pos as int) is Some,
        r matches Some((v, p)) ==> take_bool(b@, pos as int) == Some((v, p as int)),
{
    match read_u8(b, pos) {
        Some((0, p)) => Some((false, p)),
        Some((1, p)) => Some((true, p)),
        _ => None,
    }
}

/// Read `n` bytes at `pos`.
pub fn read_bytes(b: &[u8], pos: usize, n: usize) -> (r: Option<(Vec<u8>, usize)>)
    ensures
        r is Some <==> take_bytes(b@, pos as int, n as int) is Some,
        r matches Some((v, p)) ==> take_bytes(b@, pos as int, n as int) == Some((v@, p as int)),
{
    if pos > b.len() || b.len() - pos < n {
        return None;
    }
    let mut v: Vec<u8> = Vec::new();
    let mut i: usize = 0;
    while i < n
        invariant
            i <= n,
            pos + n <= b.len(),
            v@ == b@.subrange(pos as int, pos + i),
        decreases n - i,
    {
        v.push(b[pos + i]);
        i = i + 1;
        proof {
            assert(v@ =~= b@.subrange(pos as int, pos + i));
        }
    }
    Some((v, pos + n))
}

/// Read an identifier at `pos`.
pub fn read_id(b: &[u8], pos: usize) -> (r: Option<(UnitsObjectId, usize)>)
    ensures
        r is Some <==> take_id(b@, pos as int) is Some,
        r matches Some((v, p)) ==> take_id(b@, pos as int) == Some((v.bytes@, p as int)),
{
    if pos > b.len() || b.len() - pos < 32 {
        return None;
    }
    let bytes = crate::hashing::read_array32(b, pos);
    Some((UnitsObjectId { bytes }, pos + 32))
}

/// Read a string at `pos`.
pub fn read_string(b: &[u8], pos: usize) -> (r: Option<(String, usize)>)
    ensures
        r is Some <==> take_string(b@, pos as int) is Some,
        r matches Some((s, p)) ==> take_string(b@, pos as int) == Some((s@, p as int)),
{
    let (n, p) = match read_u32(b, pos) {
        Some(x) => x,
        None => {
            return None;
        },
    };
    let (bytes, q) = match read_bytes(b, p, n as usize) {
        Some(x) => x,
        None => {
            return None;
        },
    };
    match string_from_utf8(bytes) {
        Some(s) => Some((s, q)),
        None => None,
    }
}

/// Append the encoding of a boolean.
pub fn write_bool(v: &mut Vec<u8>, x: bool)
    ensures
        final(v)@ == old(v)@ + bool_bytes(x),
{
    if x {
        v.push(1u8);
    } else {
        v.push(0u8);
    }
    proof {
        assert(final(v)@ =~= old(v)@ + bool_bytes(x));
    }
}

/// Append the encoding of a string; refused, with `v` unchanged, when its UTF-8
/// length does not fit in 32 bits.
pub fn write_string(v: &mut Vec<u8>, s: &str) -> (ok: bool)
    ensures
        ok == string_fits(s@),
        ok ==> final(v)@ == old(v)@ + string_bytes(s@),
        !ok ==> final(v)@ == old(v)@,
{
    let bytes = s.as_bytes();
    if bytes.len() > 0xffff_ffffusize {
        return false;
    }
    append_le32(v, bytes.len() as u32);
    append_bytes(v, bytes);
    proof {
        assert(final(v)@ =~= old(v)@ + string_bytes(s@));
    }
    true
}

/// Append the encoding of an identifier.
pub fn write_id(v: &mut Vec<u8>, id: &UnitsObjectId)
    ensures
        final(v)@ == old(v)@ + id.bytes@,
{
    append_bytes(v, id.bytes.as_slice());
}

/// Decoding a string's encoding gives it back.
pub proof fn lemma_string_round_trip(s: Seq<char>, before: Seq<u8>, after: Seq<u8>)
    requires
        string_fits(s),
    ensures
        take_string(before + string_bytes(s) + after, before.len() as int) == Some(
            (s, (before.len() + string_bytes(s).len()) as int),
        ),
        string_bytes(s).len() == 4 + encode_utf8(s).len(),
{
    let b = before + string_bytes(s) + after;
    let n = encode_utf8(s).len();
    let p = before.len() as int;
    vstd::bytes::lemma_auto_spec_u32_to_from_le_bytes();
    assert(le32(n as u32).len() == 4);
    assert(b.subrange(p, p + 4) =~= le32(n as u32));
    assert(b.subrange(p + 4, p + 4 + n) =~= encode_utf8(s));
    vstd::utf8::encode_utf8_valid_utf8(s);
    vstd::utf8::encode_utf8_decode_utf8(s);
}

/// Decoding a 64-bit number's encoding gives it back.
pub proof fn lemma_u64_round_trip(x: u64, before: Seq<u8>, after: Seq<u8>)
    ensures
        take_u64(before + le64(x) + after, before.len() as int) == Some((x, before.len() + 8int)),
        le64(x).len() == 8,
{
    let b = before + le64(x) + after;
    vstd::bytes::lemma_auto_spec_u64_to_from_le_bytes();
    assert(b.subrange(before.len() as int, before.len() + 8int) =~= le64(x));
}

} // verus!
