use vstd::prelude::*;
use sha2::Digest;

verus! {

/// The SHA-256 digest of a byte string.
pub uninterp spec fn sha256_digest(data: Seq<u8>) -> Seq<u8>;

/// The SHA-512 digest of a byte string.
pub uninterp spec fn sha512_digest(data: Seq<u8>) -> Seq<u8>;

/// The 32-byte BLAKE3 hash of a byte string.
pub uninterp spec fn blake3_digest(data: Seq<u8>) -> Seq<u8>;

/// `sha2::Sha256::digest`: the result is the SHA-256 digest of `data`, a function of
/// `data` alone. Feeding a hasher several pieces with `update` gives the digest of
/// their concatenation, so callers hash concatenations through this one call.
#[verifier::external_body]
pub(crate) fn sha256(data: &[u8]) -> (h: [u8; 32])
    ensures
        h@ == sha256_digest(data@),
{
    sha2::Sha256::digest(data).into()
}

/// `sha2::Sha512::digest`: the result is the SHA-512 digest of `data`, a function of
/// `data` alone.
#[verifier::external_body]
pub(crate) fn sha512(data: &[u8]) -> (h: [u8; 64])
    ensures
        h@ == sha512_digest(data@),
{
    sha2::Sha512::digest(data).into()
}

/// `blake3::hash`: the result is the BLAKE3 hash of `data`, a function of `data` alone.
/// Feeding a `blake3::Hasher` several pieces gives the hash of their concatenation.
#[verifier::external_body]
pub(crate) fn blake3_hash(data: &[u8]) -> (h: [u8; 32])
    ensures
        h@ == blake3_digest(data@),
{
    *blake3::hash(data).as_bytes()
}

/// Append the bytes of `s` to `v`.
pub fn append_bytes(v: &mut Vec<u8>, s: &[u8])
    ensures
        final(v)@ == old(v)@ + s@,
{
    let mut i: usize = 0;
    while i < s.len()
        invariant
            i <= s@.len(),
            v@ == old(v)@ + s@.subrange(0, i as int),
        decreases s@.len() - i,
    {
        v.push(s[i]);
        i = i + 1;
        proof {
            assert(s@.subrange(0, i as int) =~= s@.subrange(0, i - 1).push(s@[i - 1]));
        }
    }
    proof {
        assert(s@.subrange(0, s@.len() as int) =~= s@);
    }
}

/// The little-endian bytes of a 64-bit word.
pub open spec fn le64(x: u64) -> Seq<u8> {
    vstd::bytes::spec_u64_to_le_bytes(x)
}

/// Append the little-endian bytes of `x` to `v`.
pub fn append_le64(v: &mut Vec<u8>, x: u64)
    ensures
        final(v)@ == old(v)@ + le64(x),
{
    let b = vstd::bytes::u64_to_le_bytes(x);
    append_bytes(v, b.as_slice());
}

/// The little-endian bytes of a 32-bit word.
pub open spec fn le32(x: u32) -> Seq<u8> {
    vstd::bytes::spec_u32_to_le_bytes(x)
}

/// Append the little-endian bytes of `x` to `v`.
pub fn append_le32(v: &mut Vec<u8>, x: u32)
    ensures
        final(v)@ == old(v)@ + le32(x),
{
    let b = vstd::bytes::u32_to_le_bytes(x);
    append_bytes(v, b.as_slice());
}

/// The bytes of an optional 32-byte hash: the hash itself, or nothing.
pub open spec fn opt_hash_bytes(h: Option<[u8; 32]>) -> Seq<u8> {
    match h {
        Some(x) => x@,
        None => Seq::empty(),
    }
}

/// Append the bytes of an optional hash to `v`.
pub fn append_opt_hash(v: &mut Vec<u8>, h: &Option<[u8; 32]>)
    ensures
        final(v)@ == old(v)@ + opt_hash_bytes(*h),
{
    match h {
        Some(x) => append_bytes(v, x.as_slice()),
        None => {
            assert(old(v)@ + Seq::<u8>::empty() =~= old(v)@);
        },
    }
}

/// Equality of two 32-byte hashes.
pub fn hash_eq(a: &[u8; 32], b: &[u8; 32]) -> (r: bool)
    ensures
        r == (a@ == b@),
{
    let mut i: usize = 0;
    while i < 32
        invariant
            i <= 32,
            a@.len() == 32,
            b@.len() == 32,
            forall|j: int| 0 <= j < i ==> a@[j] == b@[j],
        decreases 32 - i,
    {
        if a[i] != b[i] {
            return false;
        }
        i = i + 1;
    }
    proof {
        assert(a@ =~= b@);
    }
    true
}

/// Equality of two optional 32-byte hashes.
pub fn opt_hash_eq(a: &Option<[u8; 32]>, b: &Option<[u8; 32]>) -> (r: bool)
    ensures
        r == (opt_hash_view(*a) == opt_hash_view(*b)),
{
    match (a, b) {
        (Some(x), Some(y)) => hash_eq(x, y),
        (None, None) => true,
        _ => false,
    }
}

/// The view of an optional hash as an optional byte string.
pub open spec fn opt_hash_view(h: Option<[u8; 32]>) -> Option<Seq<u8>> {
    match h {
        Some(x) => Some(x@),
        None => None,
    }
}

/// A byte vector holding the bytes of `h`.
pub fn hash_to_vec(h: &[u8; 32]) -> (v: Vec<u8>)
    ensures
        v@ == h@,
{
    let mut v: Vec<u8> = Vec::new();
    append_bytes(&mut v, h.as_slice());
    proof {
        assert(v@ =~= h@);
    }
    v
}

/// The BLAKE3 hash of the concatenation of two hashes.
pub fn blake3_pair(a: &[u8; 32], b: &[u8; 32]) -> (h: [u8; 32])
    ensures
        h@ == blake3_digest(a@ + b@),
{
    let mut buf: Vec<u8> = Vec::new();
    append_bytes(&mut buf, a.as_slice());
    append_bytes(&mut buf, b.as_slice());
    blake3_hash(buf.as_slice())
}

/// Thirty-two zero bytes.
pub open spec fn zero_hash() -> Seq<u8> {
    Seq::new(32, |i: int| 0u8)
}

/// The little-endian 64-bit number at `off` in `b`.
pub open spec fn u64_at(b: Seq<u8>, off: int) -> u64 {
    vstd::bytes::spec_u64_from_le_bytes(b.subrange(off, off + 8))
}

/// Read the little-endian 64-bit number at `off`.
pub fn read_u64_le(b: &[u8], off: usize) -> (r: u64)
    requires
        off + 8 <= b@.len(),
    ensures
        r == u64_at(b@, off as int),
{
    let mut v: Vec<u8> = Vec::new();
    let mut i: usize = 0;
    while i < 8
        invariant
            i <= 8,
            off + 8 <= b.len(),
            v@ == b@.subrange(off as int, off + i),
        decreases 8 - i,
    {
        v.push(b[off + i]);
        i = i + 1;
        proof {
            assert(v@ =~= b@.subrange(off as int, off + i));
        }
    }
    vstd::bytes::u64_from_le_bytes(v.as_slice())
}

/// The 32 bytes of `b` from `off` on, as an array.
pub fn read_array32(b: &[u8], off: usize) -> (r: [u8; 32])
    requires
        off + 32 <= b@.len(),
    ensures
        r@ == b@.subrange(off as int, off + 32),
{
    let mut r = [0u8; 32];
    let mut i: usize = 0;
    while i < 32
        invariant
            i <= 32,
            off + 32 <= b.len(),
            r@.len() == 32,
            forall|j: int| 0 <= j < i ==> r@[j] == b@[off + j],
        decreases 32 - i,
    {
        r[i] = b[off + i];
        i = i + 1;
    }
    proof {
        assert(r@ =~= b@.subrange(off as int, off + 32));
    }
    r
}

/// No two different byte strings have the same BLAKE3 digest: the idealisation
/// under which a root is said to commit to its leaves.
pub open spec fn blake3_collision_free() -> bool {
    forall|x: Seq<u8>, y: Seq<u8>| #[trigger] blake3_digest(x) == #[trigger] blake3_digest(y) ==> x == y
}

/// `s` and `t` have the same length and differ at position `k` alone.
pub open spec fn differ_only_at(s: Seq<Seq<u8>>, t: Seq<Seq<u8>>, k: int) -> bool {
    &&& s.len() == t.len()
    &&& 0 <= k < s.len()
    &&& s[k] != t[k]
    &&& forall|j: int| 0 <= j < s.len() && j != k ==> #[trigger] s[j] == t[j]
}

/// Two concatenations that agree on one side agree on the other; so do two
/// doublings.
pub proof fn lemma_concat_cancel(a: Seq<u8>, b: Seq<u8>, c: Seq<u8>, d: Seq<u8>)
    requires
        a + b == c + d,
    ensures
        a == c ==> b == d,
        b == d ==> a == c,
        (b == a && d == c) ==> a == c,
{
    let x = a + b;
    if a == c {
        assert(b =~= x.subrange(a.len() as int, x.len() as int));
        assert(d =~= (c + d).subrange(c.len() as int, x.len() as int));
    }
    if b == d {
        assert(a =~= x.subrange(0, a.len() as int));
        assert(c =~= (c + d).subrange(0, c.len() as int));
    }
    if b == a && d == c {
        assert(x.len() == a.len() + b.len());
        assert((c + d).len() == c.len() + d.len());
        assert(a.len() == c.len());
        assert(a =~= x.subrange(0, a.len() as int));
        assert(c =~= (c + d).subrange(0, c.len() as int));
    }
}

} // verus!
