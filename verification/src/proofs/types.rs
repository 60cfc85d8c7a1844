use vstd::prelude::*;
use crate::id::UnitsObjectId;
use crate::text::push_str;
use crate::objects::{ObjectType, UnitsObject, VMType};
use crate::hashing::{append_bytes, append_le32, append_le64, append_opt_hash, le32, le64, opt_hash_bytes, sha256, sha256_digest};
use crate::order::{id_leq, lemma_id_leq_total_ordering, sort_ids};

verus! {

/// Slot number type (represents points in time).
pub type SlotNumber = u64;

/// A cryptographic proof for a UNITS object.
///
/// The proof commits to the state of an object at a slot and may link to the
/// previous proof of the same object, forming a chain of state changes.
#[derive(Debug, Clone)]
pub struct UnitsObjectProof {
    /// The object this proof is for
    pub object_id: UnitsObjectId,
    /// The slot in which this proof was created
    pub slot: SlotNumber,
    /// Hash of the object state this proof commits to
    pub object_hash: [u8; 32],
    /// Hash of the previous proof for this object; None for the first proof
    pub prev_proof_hash: Option<[u8; 32]>,
    /// Hash of the transaction that led to this state change
    pub transaction_hash: Option<[u8; 32]>,
    /// Data that authenticates this proof
    pub proof_data: Vec<u8>,
}

/// The bytes a proof's hash is computed over: id, slot, object hash, previous
/// proof hash and transaction hash when present, then the proof data.
pub open spec fn proof_hash_input(p: UnitsObjectProof) -> Seq<u8> {
    p.object_id.bytes@ + le64(p.slot) + p.object_hash@ + opt_hash_bytes(p.prev_proof_hash)
        + opt_hash_bytes(p.transaction_hash) + p.proof_data@
}

/// The hash of a proof, which links it into a chain.
pub open spec fn spec_proof_hash(p: UnitsObjectProof) -> Seq<u8> {
    sha256_digest(proof_hash_input(p))
}

/// The previous-proof link a new proof carries.
pub open spec fn link_to(prev: Option<UnitsObjectProof>) -> Option<Seq<u8>> {
    match prev {
        Some(p) => Some(spec_proof_hash(p)),
        None => None,
    }
}

/// The view of an optional hash as an optional byte string.
pub open spec fn opt_view(h: Option<[u8; 32]>) -> Option<Seq<u8>> {
    match h {
        Some(x) => Some(x@),
        None => None,
    }
}

impl UnitsObjectProof {
    /// Creates a new proof; its link is the hash of `prev_proof`, if given.
    pub fn new(
        object_id: UnitsObjectId,
        object_hash: [u8; 32],
        slot: SlotNumber,
        proof_data: Vec<u8>,
        prev_proof: Option<&UnitsObjectProof>,
        transaction_hash: Option<[u8; 32]>,
    ) -> (p: Self)
        ensures
            p.object_id == object_id,
            p.object_hash == object_hash,
            p.slot == slot,
            p.proof_data == proof_data,
            p.transaction_hash == transaction_hash,
            opt_view(p.prev_proof_hash) == link_to(
                match prev_proof {
                    Some(q) => Some(*q),
                    None => None,
                },
            ),
    {
        let prev_proof_hash = match prev_proof {
            Some(q) => Some(q.hash()),
            None => None,
        };
        UnitsObjectProof { object_id, slot, object_hash, prev_proof_hash, transaction_hash, proof_data }
    }

    /// Computes the hash of this proof, used to link proofs in a chain.
    pub fn hash(&self) -> (h: [u8; 32])
        ensures
            h@ == spec_proof_hash(*self),
    {
        let mut buf: Vec<u8> = Vec::new();
        append_bytes(&mut buf, self.object_id.bytes.as_slice());
        append_le64(&mut buf, self.slot);
        append_bytes(&mut buf, self.object_hash.as_slice());
        append_opt_hash(&mut buf, &self.prev_proof_hash);
        append_opt_hash(&mut buf, &self.transaction_hash);
        append_bytes(&mut buf, self.proof_data.as_slice());
        proof {
            assert(buf@ =~= proof_hash_input(*self));
        }
        sha256(buf.as_slice())
    }
}

/// A state proof: the aggregated state of several objects at a slot.
#[derive(Debug, Clone)]
pub struct StateProof {
    /// The slot this state proof is for
    pub slot: SlotNumber,
    /// The hash of the previous state proof, if any
    pub prev_state_proof_hash: Option<[u8; 32]>,
    /// Objects included in this state proof
    pub object_ids: Vec<UnitsObjectId>,
    /// Data that authenticates this proof
    pub proof_data: Vec<u8>,
}

/// The bytes of a sequence of identifiers, one after another.
pub open spec fn ids_bytes(s: Seq<UnitsObjectId>) -> Seq<u8>
    decreases s.len(),
{
    if s.len() == 0 {
        Seq::empty()
    } else {
        ids_bytes(s.drop_last()) + s.last().bytes@
    }
}

/// The identifiers in byte order.
pub open spec fn sorted_ids(s: Seq<UnitsObjectId>) -> Seq<UnitsObjectId> {
    s.sort_by(|a: UnitsObjectId, b: UnitsObjectId| id_leq(a, b))
}

/// The bytes a state proof's hash is computed over: slot, previous hash if any,
/// the object identifiers in byte order, then the proof data.
pub open spec fn state_hash_input(p: StateProof) -> Seq<u8> {
    le64(p.slot) + opt_hash_bytes(p.prev_state_proof_hash) + ids_bytes(sorted_ids(p.object_ids@))
        + p.proof_data@
}

/// The hash of a state proof.
pub open spec fn spec_state_proof_hash(p: StateProof) -> Seq<u8> {
    sha256_digest(state_hash_input(p))
}

impl StateProof {
    /// Creates a new state proof; its link is the hash of `prev_state_proof`, if given.
    pub fn new(
        slot: SlotNumber,
        proof_data: Vec<u8>,
        object_ids: Vec<UnitsObjectId>,
        prev_state_proof: Option<&StateProof>,
    ) -> (p: Self)
        ensures
            p.slot == slot,
            p.proof_data == proof_data,
            p.object_ids == object_ids,
            opt_view(p.prev_state_proof_hash) == match prev_state_proof {
                Some(q) => Some(spec_state_proof_hash(*q)),
                None => None,
            },
    {
        let prev_state_proof_hash = match prev_state_proof {
            Some(q) => Some(q.hash()),
            None => None,
        };
        StateProof { slot, prev_state_proof_hash, object_ids, proof_data }
    }

    /// Computes the hash of this state proof; identifiers enter in byte order.
    pub fn hash(&self) -> (h: [u8; 32])
        ensures
            h@ == spec_state_proof_hash(*self),
    {
        let mut buf: Vec<u8> = Vec::new();
        append_le64(&mut buf, self.slot);
        append_opt_hash(&mut buf, &self.prev_state_proof_hash);
        let ids = sort_ids(&self.object_ids);
        let ghost start = buf@;
        let mut i: usize = 0;
        while i < ids.len()
            invariant
                i <= ids@.len(),
                buf@ == start + ids_bytes(ids@.subrange(0, i as int)),
            decreases ids@.len() - i,
        {
            append_bytes(&mut buf, ids[i].bytes.as_slice());
            i = i + 1;
            proof {
                assert(ids@.subrange(0, i as int).drop_last() =~= ids@.subrange(0, i - 1));
            }
        }
        append_bytes(&mut buf, self.proof_data.as_slice());
        proof {
            assert(ids@.subrange(0, ids@.len() as int) =~= ids@);
            assert(buf@ =~= state_hash_input(*self));
        }
        sha256(buf.as_slice())
    }
}

/// The hash of a state proof does not depend on the order of its object identifiers.
pub proof fn lemma_state_hash_order_independent(p: StateProof, q: StateProof)
    requires
        p.slot == q.slot,
        p.prev_state_proof_hash == q.prev_state_proof_hash,
        p.proof_data@ == q.proof_data@,
        p.object_ids@.to_multiset() == q.object_ids@.to_multiset(),
    ensures
        spec_state_proof_hash(p) == spec_state_proof_hash(q),
{
    let leq = |a: UnitsObjectId, b: UnitsObjectId| id_leq(a, b);
    lemma_id_leq_total_ordering();
    p.object_ids@.lemma_sort_by_ensures(leq);
    q.object_ids@.lemma_sort_by_ensures(leq);
    vstd::seq_lib::lemma_sorted_unique(sorted_ids(p.object_ids@), sorted_ids(q.object_ids@), leq);
    assert(state_hash_input(p) =~= state_hash_input(q));
}

/// The result of verifying a proof or a chain of proofs.
#[derive(Debug, Clone, PartialEq, Eq)]
pub enum VerificationResult {
    /// The proof chain is valid
    Valid,
    /// The proof chain is invalid for the specified reason
    Invalid(String),
    /// Missing data needed to complete verification
    MissingData(String),
}

/// A verification outcome as a value to state contracts over.
pub enum Verdict {
    Valid,
    Invalid(Seq<char>),
    Missing(Seq<char>),
}

/// `r` is the outcome `v` describes.
pub open spec fn verdict_matches(r: VerificationResult, v: Verdict) -> bool {
    match v {
        Verdict::Valid => r is Valid,
        Verdict::Invalid(m) => r matches VerificationResult::Invalid(s) && s@ == m,
        Verdict::Missing(m) => r matches VerificationResult::MissingData(s) && s@ == m,
    }
}

/// Merkle tree node for inclusion proofs.
#[derive(Debug, Clone, Copy)]
pub struct MerkleNode {
    pub hash: [u8; 32],
    pub is_left: bool,
}

/// Errors of proof operations.
#[derive(Debug, Clone)]
pub enum StorageError {
    Serialization(String),
    ProofVerification,
    ProofNotFound,
    ProofChainInvalid(String),
    ProofMissingData(String),
}

/// The text of a storage error.
pub open spec fn storage_error_text(e: StorageError) -> Seq<char> {
    match e {
        StorageError::Serialization(m) => "Serialization error: "@ + m@,
        StorageError::ProofVerification => "Proof verification failed"@,
        StorageError::ProofNotFound => "Proof not found"@,
        StorageError::ProofChainInvalid(m) => "Proof chain invalid: "@ + m@,
        StorageError::ProofMissingData(m) => "Missing proof data: "@ + m@,
    }
}

impl StorageError {
    /// The text of this error.
    pub fn message(&self) -> (s: String)
        ensures
            s@ == storage_error_text(*self),
    {
        match self {
            StorageError::Serialization(m) => {
                let mut s = "Serialization error: ".to_owned();
                push_str(&mut s, m.as_str());
                s
            },
            StorageError::ProofVerification => "Proof verification failed".to_owned(),
            StorageError::ProofNotFound => "Proof not found".to_owned(),
            StorageError::ProofChainInvalid(m) => {
                let mut s = "Proof chain invalid: ".to_owned();
                push_str(&mut s, m.as_str());
                s
            },
            StorageError::ProofMissingData(m) => {
                let mut s = "Missing proof data: ".to_owned();
                push_str(&mut s, m.as_str());
                s
            },
        }
    }
}

/// The little-endian bytes of an object type's variant index and payload.
pub open spec fn object_type_bytes(t: ObjectType) -> Seq<u8> {
    match t {
        ObjectType::Data => le32(0),
        ObjectType::Executable(VMType::RiscV) => le32(1) + le32(0),
    }
}

/// The canonical byte layout of an object: identifier, controller, type
/// (variant index, then its VM type's index), payload length (64-bit
/// little-endian), then the payload.
pub open spec fn object_encoding(o: UnitsObject) -> Seq<u8> {
    o.id.bytes@ + o.controller_id.bytes@ + object_type_bytes(o.object_type) + le64(
        o.data@.len() as u64,
    ) + o.data@
}

/// Something a proof can be made for: it has an identifier and a canonical encoding.
pub trait Proof {
    spec fn spec_id(&self) -> UnitsObjectId;

    spec fn spec_encoding(&self) -> Seq<u8>;

    fn id(&self) -> (r: UnitsObjectId)
        ensures
            r == self.spec_id(),
    ;

    fn encode(&self) -> (r: Vec<u8>)
        ensures
            r@ == self.spec_encoding(),
    ;
}

impl Proof for UnitsObject {
    open spec fn spec_id(&self) -> UnitsObjectId {
        self.id
    }

    open spec fn spec_encoding(&self) -> Seq<u8> {
        object_encoding(*self)
    }

    fn id(&self) -> (r: UnitsObjectId) {
        self.id
    }

    fn encode(&self) -> (r: Vec<u8>) {
        encode_object(self)
    }
}

/// Encode an object in its canonical byte layout.
pub fn encode_object(o: &UnitsObject) -> (r: Vec<u8>)
    ensures
        r@ == object_encoding(*o),
{
    let mut buf: Vec<u8> = Vec::new();
    append_bytes(&mut buf, o.id.bytes.as_slice());
    append_bytes(&mut buf, o.controller_id.bytes.as_slice());
    match o.object_type {
        ObjectType::Data => append_le32(&mut buf, 0),
        ObjectType::Executable(VMType::RiscV) => {
            append_le32(&mut buf, 1);
            append_le32(&mut buf, 0);
        },
    }
    append_le64(&mut buf, o.data.len() as u64);
    append_bytes(&mut buf, o.data.as_slice());
    proof {
        assert(buf@ =~= object_encoding(*o));
    }
    buf
}

} // verus!
