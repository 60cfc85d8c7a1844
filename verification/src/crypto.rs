//! Ed25519 signatures over account operations: the checks a signature must
//! pass, and the message an operation is signed as.
use vstd::prelude::*;
use curve25519_dalek::edwards::EdwardsPoint;
use curve25519_dalek::scalar::Scalar;
use crate::hashing::{append_bytes, append_le64, le64, sha512, sha512_digest};
use crate::id::{same_bytes32, UnitsObjectId};
use vstd::string::StringSliceAdditionalSpecFns;

verus! {

/// Ed25519 signature size in bytes.
pub const SIGNATURE_SIZE: usize = 64;

/// Ed25519 public key size in bytes.
pub const PUBLIC_KEY_SIZE: usize = 32;

#[verifier::external_type_specification]
#[verifier::external_body]
pub struct ExEdwardsPoint(curve25519_dalek::edwards::EdwardsPoint);

#[verifier::external_type_specification]
#[verifier::external_body]
pub struct ExScalar(curve25519_dalek::scalar::Scalar);

/// Whether 32 bytes are the compressed form (the y-coordinate and sign) of a
/// point on the Edwards curve.
pub uninterp spec fn edwards_decompresses(bytes: Seq<u8>) -> bool;

/// The little-endian number that bytes encode.
pub open spec fn le_value(b: Seq<u8>) -> nat
    decreases b.len(),
{
    if b.len() == 0 {
        0
    } else {
        b[0] as nat + 256 * le_value(b.drop_first())
    }
}

/// The order of the Ed25519 base point group.
pub open spec fn group_order() -> nat {
    7237005577332262213973186563042994240857116359379907606001950938285454250989nat
}

/// 32 bytes are the canonical encoding of a scalar: their value is below the
/// group order.
pub open spec fn canonical_scalar(b: Seq<u8>) -> bool {
    le_value(b) < group_order()
}

/// The little-endian encoding of `n` in `len` bytes (the part of `n` that fits).
pub open spec fn le_bytes(n: nat, len: nat) -> Seq<u8>
    decreases len,
{
    if len == 0 {
        Seq::empty()
    } else {
        seq![(n % 256) as u8] + le_bytes(n / 256, (len - 1) as nat)
    }
}

/// The compressed form of `s·B`, where `s` is the number the 32 bytes encode,
/// reduced modulo the group order, and `B` the Ed25519 base point.
pub uninterp spec fn ed_base_mul(s: Seq<u8>) -> Seq<u8>;

/// The compressed form of `s·P`, where `s` is the number the 32 bytes encode,
/// reduced modulo the group order, and `P` the point whose compressed form is `p`.
pub uninterp spec fn ed_scalar_mul(s: Seq<u8>, p: Seq<u8>) -> Seq<u8>;

/// The compressed form of `P + Q`, for the points whose compressed forms are
/// `a` and `b`.
pub uninterp spec fn ed_point_add(a: Seq<u8>, b: Seq<u8>) -> Seq<u8>;

/// `CompressedEdwardsY::decompress`: the point whose compressed form is
/// `bytes`, when `bytes` is one; nothing is said of the point.
#[verifier::external_body]
fn decompress(bytes: [u8; 32]) -> (r: Option<EdwardsPoint>)
    ensures
        r is Some <==> edwards_decompresses(bytes@),
{
    curve25519_dalek::edwards::CompressedEdwardsY(bytes).decompress()
}

/// `Scalar::from_canonical_bytes`: a scalar exactly when the bytes encode a
/// number below the group order; nothing is said of the scalar.
#[verifier::external_body]
fn scalar_from_canonical(bytes: [u8; 32]) -> (r: Option<Scalar>)
    ensures
        r is Some <==> canonical_scalar(bytes@),
{
    Option::from(Scalar::from_canonical_bytes(bytes))
}

/// `Scalar::from_bytes_mod_order_wide`, as bytes (`Scalar::to_bytes`): the
/// 512-bit little-endian number reduced modulo the group order, in 32
/// little-endian bytes.
#[verifier::external_body]
fn reduce_wide(bytes: &[u8; 64]) -> (r: [u8; 32])
    ensures
        r@ == le_bytes(le_value(bytes@) % group_order(), 32),
{
    Scalar::from_bytes_mod_order_wide(bytes).to_bytes()
}

/// `EdwardsPoint::mul_base` of `Scalar::from_bytes_mod_order(s)`, compressed:
/// the result is named by `ed_base_mul`, a function of `s` alone.
#[verifier::external_body]
fn basepoint_mul_bytes(s: &[u8; 32]) -> (r: [u8; 32])
    ensures
        r@ == ed_base_mul(s@),
        edwards_decompresses(r@),
{
    EdwardsPoint::mul_base(&Scalar::from_bytes_mod_order(*s)).compress().to_bytes()
}

/// `Scalar * EdwardsPoint`, from and to compressed forms: the result is named
/// by `ed_scalar_mul`, a function of `s` and `p` alone. `p` must decompress.
#[verifier::external_body]
fn point_mul_bytes(s: &[u8; 32], p: &[u8; 32]) -> (r: [u8; 32])
    requires
        edwards_decompresses(p@),
    ensures
        r@ == ed_scalar_mul(s@, p@),
        edwards_decompresses(r@),
{
    let q = curve25519_dalek::edwards::CompressedEdwardsY(*p).decompress().unwrap();
    (Scalar::from_bytes_mod_order(*s) * q).compress().to_bytes()
}

/// `EdwardsPoint + EdwardsPoint`, from and to compressed forms: the result is
/// named by `ed_point_add`, a function of `a` and `b` alone. Both must
/// decompress.
#[verifier::external_body]
fn point_add_bytes(a: &[u8; 32], b: &[u8; 32]) -> (r: [u8; 32])
    requires
        edwards_decompresses(a@),
        edwards_decompresses(b@),
    ensures
        r@ == ed_point_add(a@, b@),
        edwards_decompresses(r@),
{
    let p = curve25519_dalek::edwards::CompressedEdwardsY(*a).decompress().unwrap();
    let q = curve25519_dalek::edwards::CompressedEdwardsY(*b).decompress().unwrap();
    (p + q).compress().to_bytes()
}

/// Ed25519 signature.
#[derive(Debug, Clone, Copy)]
pub struct Signature {
    pub bytes: [u8; 64],
}

impl PartialEq for Signature {
    fn eq(&self, other: &Self) -> (r: bool) {
        let mut i: usize = 0;
        while i < 64
            invariant
                i <= 64,
                forall|j: int| 0 <= j < i ==> self.bytes@[j] == other.bytes@[j],
            decreases 64 - i,
        {
            if self.bytes[i] != other.bytes[i] {
                return false;
            }
            i = i + 1;
        }
        proof {
            assert(self.bytes@ =~= other.bytes@);
            assert(self.bytes =~= other.bytes);
        }
        true
    }
}

impl vstd::std_specs::cmp::PartialEqSpecImpl for Signature {
    open spec fn obeys_eq_spec() -> bool {
        true
    }

    open spec fn eq_spec(&self, other: &Self) -> bool {
        *self == *other
    }
}

impl Eq for Signature {}

/// Cryptographic errors.
#[derive(Debug, Clone, Copy, PartialEq, Eq, Structural)]
pub enum CryptoError {
    InvalidSignatureLength,
    InvalidPublicKey,
    InvalidSignature,
    SignatureVerificationFailed,
}

impl Signature {
    /// A signature of the given bytes.
    pub fn new(bytes: [u8; 64]) -> (s: Self)
        ensures
            s.bytes == bytes,
    {
        Signature { bytes }
    }

    /// A signature of exactly 64 bytes.
    pub fn from_slice(bytes: &[u8]) -> (r: Result<Self, CryptoError>)
        ensures
            bytes@.len() != 64 ==> r == Err::<Self, CryptoError>(CryptoError::InvalidSignatureLength),
            bytes@.len() == 64 ==> (r matches Ok(s) && s.bytes@ == bytes@),
    {
        if bytes.len() != SIGNATURE_SIZE {
            return Err(CryptoError::InvalidSignatureLength);
        }
        let mut sig_bytes = [0u8; 64];
        let mut i: usize = 0;
        while i < 64
            invariant
                i <= 64,
                bytes@.len() == 64,
                sig_bytes@.len() == 64,
                forall|j: int| 0 <= j < i ==> sig_bytes@[j] == bytes@[j],
            decreases 64 - i,
        {
            sig_bytes[i] = bytes[i];
            i = i + 1;
        }
        assert(sig_bytes@ =~= bytes@);
        Ok(Signature { bytes: sig_bytes })
    }

    /// The signature's bytes.
    pub fn to_bytes(&self) -> (b: [u8; 64])
        ensures
            b == self.bytes,
    {
        self.bytes
    }
}

/// Ed25519 public key: a curve point and its compressed form.
pub struct PublicKey {
    pub point: EdwardsPoint,
    pub compressed: [u8; 32],
}

impl PublicKey {
    /// The public key whose compressed form is `bytes`; refused when they are
    /// not the compressed form of a curve point.
    pub fn from_bytes(bytes: &[u8; 32]) -> (r: Result<Self, CryptoError>)
        ensures
            r is Ok <==> edwards_decompresses(bytes@),
            r matches Ok(k) ==> k.compressed == *bytes,
            r matches Err(e) ==> e == CryptoError::InvalidPublicKey,
    {
        match decompress(*bytes) {
            Some(point) => Ok(PublicKey { point, compressed: *bytes }),
            None => Err(CryptoError::InvalidPublicKey),
        }
    }

    /// The public key whose compressed form is the identifier's bytes.
    pub fn from_units_object_id(id: &UnitsObjectId) -> (r: Result<Self, CryptoError>)
        ensures
            r is Ok <==> edwards_decompresses(id.bytes@),
            r matches Ok(k) ==> k.compressed == id.bytes,
            r matches Err(e) ==> e == CryptoError::InvalidPublicKey,
    {
        Self::from_bytes(&id.bytes)
    }

    /// The compressed form.
    pub fn to_bytes(&self) -> (b: [u8; 32])
        ensures
            b == self.compressed,
    {
        self.compressed
    }

    /// The identifier whose bytes are the compressed form.
    pub fn to_units_object_id(&self) -> (id: UnitsObjectId)
        ensures
            id.bytes == self.compressed,
    {
        UnitsObjectId { bytes: self.compressed }
    }
}

/// The Ed25519 verification equation for the key `key` (compressed), the
/// message and the signature `sig = R ‖ S`: S·B = R + h·A, where `h` is the
/// SHA-512 digest of R ‖ A ‖ M reduced modulo the group order. Points are
/// compared by their compressed forms, which name them uniquely.
pub open spec fn ed25519_equation(key: Seq<u8>, message: Seq<u8>, sig: Seq<u8>) -> bool {
    let r = sig.subrange(0, 32);
    let s = sig.subrange(32, 64);
    let h = le_bytes(le_value(sha512_digest(r + key + message)) % group_order(), 32);
    ed_base_mul(s) == ed_point_add(r, ed_scalar_mul(h, key))
}

/// A signature is well formed: its first half is a curve point R and its
/// second half a canonical scalar S.
pub open spec fn well_formed_sig(sig: Seq<u8>) -> bool {
    edwards_decompresses(sig.subrange(0, 32)) && canonical_scalar(sig.subrange(32, 64))
}

/// Verify an Ed25519 signature: its first half must be a curve point R and its
/// second half a canonical scalar S, and then S·B = R + H(R ‖ A ‖ M)·A must hold.
pub fn verify_signature(public_key: &PublicKey, message: &[u8], signature: &Signature) -> (r: Result<
    (),
    CryptoError,
>)
    requires
        edwards_decompresses(public_key.compressed@),
    ensures
        !well_formed_sig(signature.bytes@) ==> r == Err::<(), CryptoError>(CryptoError::InvalidSignature),
        well_formed_sig(signature.bytes@) ==> (r is Ok <==> ed25519_equation(
            public_key.compressed@,
            message@,
            signature.bytes@,
        )),
        well_formed_sig(signature.bytes@) && !ed25519_equation(public_key.compressed@, message@, signature.bytes@)
            ==> r == Err::<(), CryptoError>(CryptoError::SignatureVerificationFailed),
{
    let r_bytes = crate::hashing::read_array32(signature.bytes.as_slice(), 0);
    let s_bytes = crate::hashing::read_array32(signature.bytes.as_slice(), 32);
    if decompress(r_bytes).is_none() {
        return Err(CryptoError::InvalidSignature);
    }
    if scalar_from_canonical(s_bytes).is_none() {
        return Err(CryptoError::InvalidSignature);
    }
    let mut input: Vec<u8> = Vec::new();
    append_bytes(&mut input, r_bytes.as_slice());
    append_bytes(&mut input, public_key.compressed.as_slice());
    append_bytes(&mut input, message);
    let hash = sha512(input.as_slice());
    let h_bytes = reduce_wide(&hash);
    let left_side = basepoint_mul_bytes(&s_bytes);
    let h_a = point_mul_bytes(&h_bytes, &public_key.compressed);
    let right_side = point_add_bytes(&r_bytes, &h_a);
    proof {
        assert(input@ == r_bytes@ + public_key.compressed@ + message@);
        assert(left_side@ == right_side@ <==> ed25519_equation(public_key.compressed@, message@, signature.bytes@));
    }
    if same_bytes32(&left_side, &right_side) {
        Ok(())
    } else {
        proof {
            if left_side@ == right_side@ {
                assert(left_side =~= right_side);
            }
        }
        Err(CryptoError::SignatureVerificationFailed)
    }
}

/// The message an account operation is signed as: the operation name's bytes,
/// the account identifier, the timestamp (little-endian), then the parameters.
pub open spec fn operation_message(operation: Seq<char>, account: Seq<u8>, timestamp: u64, params: Seq<
    u8,
>) -> Seq<u8> {
    vstd::utf8::encode_utf8(operation) + account + le64(timestamp) + params
}

/// The message an account operation is signed as.
pub fn create_operation_message(
    operation: &str,
    account_id: &UnitsObjectId,
    timestamp: u64,
    params: &[u8],
) -> (m: Vec<u8>)
    ensures
        m@ == operation_message(operation@, account_id.bytes@, timestamp, params@),
{
    let mut message: Vec<u8> = Vec::new();
    append_bytes(&mut message, operation.as_bytes());
    append_bytes(&mut message, account_id.bytes.as_slice());
    append_le64(&mut message, timestamp);
    append_bytes(&mut message, params);
    message
}

} // verus!
