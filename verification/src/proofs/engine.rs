//! Hash-chain proof engine: object proofs chained by hash, state proofs that
//! commit to object proofs and to a Merkle tree of transaction hashes.
use vstd::prelude::*;
use crate::id::UnitsObjectId;
use crate::hashing::{
    append_bytes, append_le64, append_opt_hash, blake3_collision_free, blake3_digest, blake3_hash,
    blake3_pair, differ_only_at, hash_eq, lemma_concat_cancel,
    hash_to_vec, le64, opt_hash_bytes, read_array32, read_u64_le, u64_at, zero_hash,
};
use crate::objects::bytes_equal;
use crate::order::{lemma_stable_sorted_map, stable_sort_keyed, stable_sorted};
use crate::proofs::types::{
    link_to, spec_proof_hash, MerkleNode, Proof, SlotNumber, StateProof, StorageError,
    UnitsObjectProof, Verdict, VerificationResult, verdict_matches,
};
use crate::text::{decimal_chars, message_with_number, push_decimal, push_str};

verus! {

/// Proof engine using BLAKE3 hashing.
#[derive(Debug, Clone, Default)]
pub struct ProofEngine;

/// The hash of an object: BLAKE3 of its canonical encoding.
pub open spec fn object_digest<T: Proof>(o: T) -> Seq<u8> {
    blake3_digest(o.spec_encoding())
}

/// The bytes a proof's data is the hash of: object hash, slot (little-endian),
/// then the previous proof hash and the transaction hash where present.
pub open spec fn chain_data_input(
    object_hash: Seq<u8>,
    prev: Option<[u8; 32]>,
    slot: u64,
    tx: Option<[u8; 32]>,
) -> Seq<u8> {
    object_hash + le64(slot) + opt_hash_bytes(prev) + opt_hash_bytes(tx)
}

/// The data a proof must carry to be intact.
pub open spec fn chain_proof_data(p: UnitsObjectProof) -> Seq<u8> {
    blake3_digest(chain_data_input(p.object_hash@, p.prev_proof_hash, p.slot, p.transaction_hash))
}

/// The proof that a reference refers to, if any.
pub open spec fn opt_deref(o: Option<&UnitsObjectProof>) -> Option<UnitsObjectProof> {
    match o {
        Some(q) => Some(*q),
        None => None,
    }
}

/// `p` is the proof made for `o` at `slot`, after `prev`, by transaction `tx`.
pub open spec fn proof_made_for<T: Proof>(
    o: T,
    prev: Option<UnitsObjectProof>,
    tx: Option<[u8; 32]>,
    slot: u64,
    p: UnitsObjectProof,
) -> bool {
    &&& p.object_id == o.spec_id()
    &&& p.object_hash@ == object_digest(o)
    &&& p.slot == slot
    &&& crate::proofs::types::opt_view(p.prev_proof_hash) == link_to(prev)
    &&& p.transaction_hash == tx
    &&& p.proof_data@ == chain_proof_data(p)
}

/// `p` commits to the state of `o`: same identifier, same hash, intact data.
pub open spec fn proof_commits_to<T: Proof>(o: T, p: UnitsObjectProof) -> bool {
    &&& p.object_id == o.spec_id()
    &&& p.object_hash@ == object_digest(o)
    &&& p.proof_data@ == chain_proof_data(p)
}

/// The bytes of identifier/hash pairs, one after another.
pub open spec fn keyed_bytes(s: Seq<(UnitsObjectId, Seq<u8>)>) -> Seq<u8>
    decreases s.len(),
{
    if s.len() == 0 {
        Seq::empty()
    } else {
        keyed_bytes(s.drop_last()) + s.last().0.bytes@ + s.last().1
    }
}

/// Each identifier with the hash of its proof.
pub open spec fn proof_hashes(pairs: Seq<(UnitsObjectId, UnitsObjectProof)>) -> Seq<
    (UnitsObjectId, Seq<u8>),
> {
    pairs.map_values(|p: (UnitsObjectId, UnitsObjectProof)| (p.0, spec_proof_hash(p.1)))
}

/// The view of an identifier/hash pair.
pub open spec fn keyed_view() -> spec_fn((UnitsObjectId, [u8; 32])) -> (UnitsObjectId, Seq<u8>) {
    |p: (UnitsObjectId, [u8; 32])| (p.0, p.1@)
}

/// The root committing to object proofs: the hash of identifiers and proof
/// hashes, sorted by identifier (stably).
pub open spec fn object_root_of(pairs: Seq<(UnitsObjectId, UnitsObjectProof)>) -> Seq<u8> {
    blake3_digest(keyed_bytes(stable_sorted(proof_hashes(pairs))))
}

/// The views of a sequence of hashes.
pub open spec fn hash_views(s: Seq<[u8; 32]>) -> Seq<Seq<u8>> {
    s.map_values(|h: [u8; 32]| h@)
}

/// One level up a Merkle tree whose odd last node is paired with itself.
pub open spec fn dup_level(s: Seq<Seq<u8>>) -> Seq<Seq<u8>> {
    Seq::new(
        ((s.len() + 1) / 2) as nat,
        |i: int|
            if 2 * i + 1 < s.len() {
                blake3_digest(s[2 * i] + s[2 * i + 1])
            } else {
                blake3_digest(s[2 * i] + s[2 * i])
            },
    )
}

/// The root of a Merkle tree whose odd nodes are paired with themselves; zero
/// bytes for no leaves.
pub open spec fn dup_root(s: Seq<Seq<u8>>) -> Seq<u8>
    decreases s.len(),
{
    if s.len() == 0 {
        zero_hash()
    } else if s.len() == 1 {
        s[0]
    } else {
        dup_root(dup_level(s))
    }
}

/// The transaction root of a slot: the Merkle root of its transaction hashes.
pub open spec fn transaction_root_of(hashes: Seq<[u8; 32]>) -> Seq<u8> {
    dup_root(hash_views(hashes))
}

/// The root reached from `leaf` along a Merkle path: at each node the sibling
/// hash goes left or right of the running hash.
pub open spec fn path_root(leaf: Seq<u8>, path: Seq<MerkleNode>) -> Seq<u8>
    decreases path.len(),
{
    if path.len() == 0 {
        leaf
    } else {
        let cur = path_root(leaf, path.drop_last());
        let n = path.last();
        if n.is_left {
            blake3_digest(n.hash@ + cur)
        } else {
            blake3_digest(cur + n.hash@)
        }
    }
}

/// The data of a state proof: object root, transaction root, slot (little-endian).
pub open spec fn state_data_bytes(object_root: Seq<u8>, tx_root: Seq<u8>, slot: u64) -> Seq<u8> {
    object_root + tx_root + le64(slot)
}

/// The message of proof data too short to decode.
pub open spec fn eof_msg() -> Seq<char> {
    "io error: unexpected end of file"@
}

/// The first proof, from the `j`-th on, of the given slot.
pub open spec fn first_with_slot<P>(proofs: Seq<(u64, P)>, slot: u64, j: int) -> Option<int>
    decreases proofs.len() - j,
{
    if j >= proofs.len() {
        None
    } else if proofs[j].0 == slot {
        Some(j)
    } else {
        first_with_slot(proofs, slot, j + 1)
    }
}

/// Checking the object states from the `k`-th on against the first proof of their slot.
pub open spec fn states_verdict<T: Proof>(
    states: Seq<(u64, T)>,
    proofs: Seq<(u64, UnitsObjectProof)>,
    k: int,
) -> Verdict
    decreases states.len() - k,
{
    if k >= states.len() {
        Verdict::Valid
    } else {
        let slot = states[k].0;
        match first_with_slot(proofs, slot, 0) {
            None => Verdict::Missing("Missing proof for slot "@ + decimal_chars(slot as nat)),
            Some(j) => if proof_commits_to(states[k].1, proofs[j].1) {
                states_verdict(states, proofs, k + 1)
            } else {
                Verdict::Invalid("Proof verification failed for slot "@ + decimal_chars(slot as nat))
            },
        }
    }
}

/// Checking that every proof from the `i`-th on links to the one before it.
pub open spec fn links_verdict(proofs: Seq<(u64, UnitsObjectProof)>, i: int) -> Verdict
    decreases proofs.len() - i,
{
    if i >= proofs.len() {
        Verdict::Valid
    } else {
        match proofs[i].1.prev_proof_hash {
            Some(h) => if spec_proof_hash(proofs[i - 1].1) == h@ {
                links_verdict(proofs, i + 1)
            } else {
                Verdict::Invalid(
                    "Proof chain broken between slots "@ + decimal_chars(proofs[i - 1].0 as nat)
                        + " and "@ + decimal_chars(proofs[i].0 as nat),
                )
            },
            None => Verdict::Invalid(
                "Proof at slot "@ + decimal_chars(proofs[i].0 as nat)
                    + " does not reference previous proof"@,
            ),
        }
    }
}

/// The verdict on a history of object states and proofs.
pub open spec fn history_verdict<T: Proof>(
    states: Seq<(u64, T)>,
    proofs: Seq<(u64, UnitsObjectProof)>,
) -> Verdict {
    if states.len() == 0 || proofs.len() == 0 {
        Verdict::Missing("No object states or proofs provided"@)
    } else {
        match states_verdict(states, proofs, 0) {
            Verdict::Valid => links_verdict(proofs, 1),
            v => v,
        }
    }
}

impl ProofEngine {
    /// Create a new proof engine.
    pub fn new() -> Self {
        ProofEngine
    }

    fn hash_object<T: Proof>(&self, object: &T) -> (r: [u8; 32])
        ensures
            r@ == object_digest(*object),
    {
        let bytes = object.encode();
        blake3_hash(bytes.as_slice())
    }

    fn create_proof_data(
        &self,
        object_hash: &[u8; 32],
        prev_proof_hash: &Option<[u8; 32]>,
        slot: SlotNumber,
        transaction_hash: &Option<[u8; 32]>,
    ) -> (r: Vec<u8>)
        ensures
            r@ == blake3_digest(
                chain_data_input(object_hash@, *prev_proof_hash, slot, *transaction_hash),
            ),
    {
        let mut buf: Vec<u8> = Vec::new();
        append_bytes(&mut buf, object_hash.as_slice());
        append_le64(&mut buf, slot);
        append_opt_hash(&mut buf, prev_proof_hash);
        append_opt_hash(&mut buf, transaction_hash);
        let h = blake3_hash(buf.as_slice());
        hash_to_vec(&h)
    }

    /// Generate the proof of `object` at `slot`, linked to `prev_proof`.
    pub fn generate_object_proof_at<T: Proof>(
        &self,
        object: &T,
        prev_proof: Option<&UnitsObjectProof>,
        transaction_hash: Option<[u8; 32]>,
        slot: SlotNumber,
    ) -> (r: Result<UnitsObjectProof, StorageError>)
        ensures
            r matches Ok(p) && proof_made_for(*object, opt_deref(prev_proof), transaction_hash, slot, p),
    {
        let object_hash = self.hash_object(object);
        let p = UnitsObjectProof::new(object.id(), object_hash, slot, Vec::new(), prev_proof, transaction_hash);
        let proof_data = self.create_proof_data(&object_hash, &p.prev_proof_hash, slot, &transaction_hash);
        Ok(UnitsObjectProof { proof_data, ..p })
    }

    /// Generate a proof for `object` in the current slot, linked to `prev_proof`.
    pub fn generate_object_proof<T: Proof>(
        &self,
        object: &T,
        prev_proof: Option<&UnitsObjectProof>,
        transaction_hash: Option<[u8; 32]>,
    ) -> (r: Result<UnitsObjectProof, StorageError>)
        ensures
            r matches Ok(p) && proof_made_for(*object, opt_deref(prev_proof), transaction_hash, p.slot, p),
    {
        let slot = crate::proofs::current_slot();
        self.generate_object_proof_at(object, prev_proof, transaction_hash, slot)
    }

    /// Whether `proof` commits to the state of `object`.
    pub fn verify_object_proof<T: Proof>(&self, object: &T, proof: &UnitsObjectProof) -> (r: Result<
        bool,
        StorageError,
    >)
        ensures
            r == Ok::<bool, StorageError>(proof_commits_to(*object, *proof)),
    {
        if object.id() != proof.object_id {
            return Ok(false);
        }
        let computed_hash = self.hash_object(object);
        if !hash_eq(&computed_hash, &proof.object_hash) {
            return Ok(false);
        }
        let expected = self.create_proof_data(
            &proof.object_hash,
            &proof.prev_proof_hash,
            proof.slot,
            &proof.transaction_hash,
        );
        Ok(bytes_equal(&proof.proof_data, &expected))
    }

    /// Generate a state proof committing to object proofs and transaction hashes.
    pub fn generate_state_proof(
        &self,
        object_proofs: &[(UnitsObjectId, UnitsObjectProof)],
        transaction_hashes: &[[u8; 32]],
        prev_state_proof: Option<&StateProof>,
        slot: SlotNumber,
    ) -> (r: Result<StateProof, StorageError>)
        ensures
            r matches Ok(sp) && {
                &&& sp.slot == slot
                &&& sp.object_ids@ == object_proofs@.map_values(
                    |p: (UnitsObjectId, UnitsObjectProof)| p.0,
                )
                &&& sp.proof_data@ == state_data_bytes(
                    object_root_of(object_proofs@),
                    transaction_root_of(transaction_hashes@),
                    slot,
                )
                &&& crate::proofs::types::opt_view(sp.prev_state_proof_hash) == match prev_state_proof {
                    Some(q) => Some(crate::proofs::types::spec_state_proof_hash(*q)),
                    None => None,
                }
            },
    {
        let mut object_ids: Vec<UnitsObjectId> = Vec::new();
        let mut i: usize = 0;
        while i < object_proofs.len()
            invariant
                i <= object_proofs@.len(),
                object_ids@ == object_proofs@.take(i as int).map_values(
                    |p: (UnitsObjectId, UnitsObjectProof)| p.0,
                ),
            decreases object_proofs@.len() - i,
        {
            object_ids.push(object_proofs[i].0);
            i = i + 1;
            proof {
                assert(object_ids@ =~= object_proofs@.take(i as int).map_values(
                    |p: (UnitsObjectId, UnitsObjectProof)| p.0,
                ));
            }
        }
        proof {
            assert(object_proofs@.take(object_proofs@.len() as int) =~= object_proofs@);
        }
        let object_root = self.compute_object_root(object_proofs);
        let transaction_root = self.compute_transaction_root(transaction_hashes);
        let mut data: Vec<u8> = Vec::new();
        append_bytes(&mut data, object_root.as_slice());
        append_bytes(&mut data, transaction_root.as_slice());
        append_le64(&mut data, slot);
        proof {
            assert(data@ =~= state_data_bytes(object_root@, transaction_root@, slot));
        }
        Ok(StateProof::new(slot, data, object_ids, prev_state_proof))
    }

    fn decode_state_data(&self, data: &Vec<u8>) -> (r: Result<
        ([u8; 32], [u8; 32], u64),
        StorageError,
    >)
        ensures
            data@.len() < 72 ==> (r matches Err(StorageError::Serialization(m)) && m@ == eof_msg()),
            data@.len() >= 72 ==> (r matches Ok((a, b, s)) && a@ == data@.subrange(0, 32) && b@
                == data@.subrange(32, 64) && s == u64_at(data@, 64)),
    {
        if data.len() < 72 {
            return Err(StorageError::Serialization("io error: unexpected end of file".to_owned()));
        }
        let a = read_array32(data.as_slice(), 0);
        let b = read_array32(data.as_slice(), 32);
        let s = read_u64_le(data.as_slice(), 64);
        Ok((a, b, s))
    }

    /// Whether a state proof commits to the given object proofs at its slot.
    pub fn verify_state_proof(
        &self,
        state_proof: &StateProof,
        object_proofs: &[(UnitsObjectId, UnitsObjectProof)],
    ) -> (r: Result<bool, StorageError>)
        ensures
            state_proof.proof_data@.len() < 72 ==> (r matches Err(StorageError::Serialization(m))
                && m@ == eof_msg()),
            state_proof.proof_data@.len() >= 72 ==> r == Ok::<bool, StorageError>(
                object_root_of(object_proofs@) == state_proof.proof_data@.subrange(0, 32)
                    && state_proof.slot == u64_at(state_proof.proof_data@, 64),
            ),
    {
        let (object_root, _, slot) = match self.decode_state_data(&state_proof.proof_data) {
            Ok(d) => d,
            Err(e) => {
                return Err(e);
            },
        };
        let expected_root = self.compute_object_root(object_proofs);
        Ok(hash_eq(&expected_root, &object_root) && state_proof.slot == slot)
    }

    /// Whether the Merkle path from `transaction_hash` leads to the transaction
    /// root recorded in the state proof.
    pub fn verify_transaction_inclusion(
        &self,
        state_proof: &StateProof,
        transaction_hash: &[u8; 32],
        _transaction_hashes: &[[u8; 32]],
        merkle_path: &[MerkleNode],
    ) -> (r: Result<bool, StorageError>)
        ensures
            state_proof.proof_data@.len() < 72 ==> (r matches Err(StorageError::Serialization(m))
                && m@ == eof_msg()),
            state_proof.proof_data@.len() >= 72 ==> r == Ok::<bool, StorageError>(
                path_root(transaction_hash@, merkle_path@) == state_proof.proof_data@.subrange(32, 64),
            ),
    {
        let (_, transaction_root, _) = match self.decode_state_data(&state_proof.proof_data) {
            Ok(d) => d,
            Err(e) => {
                return Err(e);
            },
        };
        let computed = self.verify_merkle_path(transaction_hash, merkle_path);
        Ok(hash_eq(&computed, &transaction_root))
    }

    /// The root committing to object proofs, sorted by identifier.
    pub fn compute_object_root(&self, object_proofs: &[(UnitsObjectId, UnitsObjectProof)]) -> (r: [u8;
        32])
        ensures
            r@ == object_root_of(object_proofs@),
    {
        let mut hashed: Vec<(UnitsObjectId, [u8; 32])> = Vec::new();
        let mut i: usize = 0;
        while i < object_proofs.len()
            invariant
                i <= object_proofs@.len(),
                hashed@.len() == i,
                forall|t: int|
                    0 <= t < i ==> (#[trigger] hashed@[t]).0 == object_proofs@[t].0 && hashed@[t].1@
                        == spec_proof_hash(object_proofs@[t].1),
            decreases object_proofs@.len() - i,
        {
            let h = object_proofs[i].1.hash();
            hashed.push((object_proofs[i].0, h));
            i = i + 1;
        }
        proof {
            assert(hashed@.map_values(keyed_view()) =~= proof_hashes(object_proofs@));
        }
        let sorted = stable_sort_keyed(&hashed);
        let ghost f = keyed_view();
        proof {
            lemma_stable_sorted_map(hashed@, f);
        }
        let ghost target = sorted@.map_values(f);
        let mut buf: Vec<u8> = Vec::new();
        let mut k: usize = 0;
        while k < sorted.len()
            invariant
                k <= sorted@.len(),
                f == keyed_view(),
                target == sorted@.map_values(f),
                buf@ == keyed_bytes(target.take(k as int)),
            decreases sorted@.len() - k,
        {
            let ghost before = buf@;
            append_bytes(&mut buf, sorted[k].0.bytes.as_slice());
            append_bytes(&mut buf, sorted[k].1.as_slice());
            proof {
                assert(target.take(k + 1).drop_last() =~= target.take(k as int));
                assert(target[k as int] == f(sorted@[k as int]));
                assert(target.take(k + 1).last() == target[k as int]);
                assert(f(sorted@[k as int]) == (sorted@[k as int].0, sorted@[k as int].1@));
                assert(keyed_bytes(target.take(k + 1)) == keyed_bytes(target.take(k as int))
                    + target[k as int].0.bytes@ + target[k as int].1);
                assert(buf@ =~= before + sorted@[k as int].0.bytes@ + sorted@[k as int].1@);
            }
            k = k + 1;
        }
        proof {
            assert(target.take(target.len() as int) =~= target);
        }
        blake3_hash(buf.as_slice())
    }

    /// The Merkle root of transaction hashes; an odd node is paired with itself.
    pub fn compute_transaction_root(&self, transaction_hashes: &[[u8; 32]]) -> (r: [u8; 32])
        ensures
            r@ == transaction_root_of(transaction_hashes@),
    {
        if transaction_hashes.len() == 0 {
            let z = [0u8; 32];
            assert(z@ =~= zero_hash());
            return z;
        }
        let mut level: Vec<[u8; 32]> = vstd::slice::slice_to_vec(transaction_hashes);
        while level.len() > 1
            invariant
                level@.len() >= 1,
                dup_root(hash_views(level@)) == transaction_root_of(transaction_hashes@),
            decreases level@.len(),
        {
            let n = level.len();
            let half = n / 2 + n % 2;
            let mut next: Vec<[u8; 32]> = Vec::new();
            let mut j: usize = 0;
            while j < half
                invariant
                    n == level@.len(),
                    n > 1,
                    half == (n + 1) / 2,
                    j <= half,
                    next@.len() == j,
                    forall|t: int| 0 <= t < j ==> (#[trigger] next@[t])@ == dup_level(hash_views(level@))[t],
                decreases half - j,
            {
                let a = level[2 * j];
                let h = if 2 * j + 1 < n {
                    blake3_pair(&a, &level[2 * j + 1])
                } else {
                    blake3_pair(&a, &a)
                };
                next.push(h);
                j = j + 1;
            }
            proof {
                assert(hash_views(next@) =~= dup_level(hash_views(level@)));
            }
            level = next;
        }
        level[0]
    }

    /// The root reached from `leaf` along `path`.
    pub fn verify_merkle_path(&self, leaf: &[u8; 32], path: &[MerkleNode]) -> (r: [u8; 32])
        ensures
            r@ == path_root(leaf@, path@),
    {
        let mut current = *leaf;
        let mut i: usize = 0;
        while i < path.len()
            invariant
                i <= path@.len(),
                current@ == path_root(leaf@, path@.take(i as int)),
            decreases path@.len() - i,
        {
            let node = path[i];
            proof {
                assert(path@.take(i + 1).drop_last() =~= path@.take(i as int));
            }
            if node.is_left {
                current = blake3_pair(&node.hash, &current);
            } else {
                current = blake3_pair(&current, &node.hash);
            }
            i = i + 1;
        }
        proof {
            assert(path@.take(path@.len() as int) =~= path@);
        }
        current
    }

    /// Verify a history of object states against their proofs: every state needs
    /// the first proof of its slot to commit to it, and every proof after the
    /// first must link to the one before.
    pub fn verify_proof_history<T: Proof>(
        &self,
        object_states: &[(SlotNumber, T)],
        proofs: &[(SlotNumber, UnitsObjectProof)],
    ) -> (r: VerificationResult)
        ensures
            verdict_matches(r, history_verdict(object_states@, proofs@)),
    {
        if object_states.len() == 0 || proofs.len() == 0 {
            return VerificationResult::MissingData("No object states or proofs provided".to_owned());
        }
        let ghost st = object_states@;
        let ghost ps = proofs@;
        let mut k: usize = 0;
        while k < object_states.len()
            invariant
                st == object_states@,
                ps == proofs@,
                st.len() > 0,
                ps.len() > 0,
                k <= st.len(),
                states_verdict(st, ps, 0) == states_verdict(st, ps, k as int),
            decreases st.len() - k,
        {
            let slot = object_states[k].0;
            let mut j: usize = 0;
            while j < proofs.len() && proofs[j].0 != slot
                invariant
                    ps == proofs@,
                    j <= ps.len(),
                    first_with_slot(ps, slot, 0) == first_with_slot(ps, slot, j as int),
                decreases ps.len() - j,
            {
                j = j + 1;
            }
            if j == proofs.len() {
                let msg = message_with_number("Missing proof for slot ", slot, "");
                proof {
                    reveal_strlit("");
                    assert(msg@ =~= "Missing proof for slot "@ + decimal_chars(slot as nat));
                }
                return VerificationResult::MissingData(msg);
            }
            match self.verify_object_proof(&object_states[k].1, &proofs[j].1) {
                Ok(true) => {},
                Ok(false) => {
                    let msg = message_with_number("Proof verification failed for slot ", slot, "");
                    proof {
                        reveal_strlit("");
                        assert(msg@ =~= "Proof verification failed for slot "@ + decimal_chars(
                            slot as nat,
                        ));
                    }
                    return VerificationResult::Invalid(msg);
                },
                Err(_) => {
                    return VerificationResult::Invalid("Proof verification error".to_owned());
                },
            }
            k = k + 1;
        }
        let mut i: usize = 1;
        while i < proofs.len()
            invariant
                ps == proofs@,
                st == object_states@,
                st.len() > 0,
                1 <= i <= ps.len(),
                states_verdict(st, ps, 0) is Valid,
                links_verdict(ps, 1) == links_verdict(ps, i as int),
            decreases ps.len() - i,
        {
            let current_slot = proofs[i].0;
            let prev_slot = proofs[i - 1].0;
            match &proofs[i].1.prev_proof_hash {
                Some(prev_hash) => {
                    let computed = proofs[i - 1].1.hash();
                    if !hash_eq(&computed, prev_hash) {
                        let mut msg = message_with_number(
                            "Proof chain broken between slots ",
                            prev_slot,
                            " and ",
                        );
                        push_decimal(&mut msg, current_slot);
                        return VerificationResult::Invalid(msg);
                    }
                },
                None => {
                    let msg = message_with_number(
                        "Proof at slot ",
                        current_slot,
                        " does not reference previous proof",
                    );
                    return VerificationResult::Invalid(msg);
                },
            }
            i = i + 1;
        }
        VerificationResult::Valid
    }
}

/// A proof generated for an object verifies against that object.
pub proof fn lemma_generated_proof_verifies<T: Proof>(
    o: T,
    prev: Option<UnitsObjectProof>,
    tx: Option<[u8; 32]>,
    slot: u64,
    p: UnitsObjectProof,
)
    requires
        proof_made_for(o, prev, tx, slot, p),
    ensures
        proof_commits_to(o, p),
{
}

/// A state proof generated from object proofs and transaction hashes verifies
/// against the same object proofs, and records the transaction root. The roots
/// are passed as the 32-byte arrays that hold them.
pub proof fn lemma_state_proof_verifies(
    pairs: Seq<(UnitsObjectId, UnitsObjectProof)>,
    txs: Seq<[u8; 32]>,
    slot: u64,
    object_root: [u8; 32],
    tx_root: [u8; 32],
    sp: StateProof,
)
    requires
        object_root@ == object_root_of(pairs),
        tx_root@ == transaction_root_of(txs),
        sp.slot == slot,
        sp.proof_data@ == state_data_bytes(object_root@, tx_root@, slot),
    ensures
        sp.proof_data@.len() >= 72,
        object_root_of(pairs) == sp.proof_data@.subrange(0, 32),
        sp.slot == u64_at(sp.proof_data@, 64),
        transaction_root_of(txs) == sp.proof_data@.subrange(32, 64),
{
    let d = sp.proof_data@;
    vstd::bytes::lemma_auto_spec_u64_to_from_le_bytes();
    assert(le64(slot).len() == 8);
    assert(d.subrange(0, 32) =~= object_root@);
    assert(d.subrange(32, 64) =~= tx_root@);
    assert(d.subrange(64, 72) =~= le64(slot));
}

proof fn lemma_first_with_slot_distinct(proofs: Seq<(u64, UnitsObjectProof)>, k: int, j: int)
    requires
        0 <= j <= k < proofs.len(),
        forall|a: int, b: int| 0 <= a < b < proofs.len() ==> proofs[a].0 != proofs[b].0,
    ensures
        first_with_slot(proofs, proofs[k].0, j) == Some(k),
    decreases k - j,
{
    if j < k {
        lemma_first_with_slot_distinct(proofs, k, j + 1);
    }
}

proof fn lemma_states_valid<T: Proof>(
    states: Seq<(u64, T)>,
    proofs: Seq<(u64, UnitsObjectProof)>,
    k: int,
)
    requires
        0 <= k <= states.len(),
        states.len() == proofs.len(),
        forall|i: int| 0 <= i < states.len() ==> (#[trigger] states[i]).0 == proofs[i].0,
        forall|a: int, b: int| 0 <= a < b < proofs.len() ==> proofs[a].0 != proofs[b].0,
        forall|i: int| 0 <= i < states.len() ==> proof_commits_to(#[trigger] states[i].1, proofs[i].1),
    ensures
        states_verdict(states, proofs, k) is Valid,
    decreases states.len() - k,
{
    if k < states.len() {
        lemma_first_with_slot_distinct(proofs, k, 0);
        assert(states[k].0 == proofs[k].0);
        assert(proof_commits_to(states[k].1, proofs[k].1));
        lemma_states_valid(states, proofs, k + 1);
    }
}

proof fn lemma_links_valid(proofs: Seq<(u64, UnitsObjectProof)>, i: int)
    requires
        1 <= i <= proofs.len(),
        forall|t: int|
            1 <= t < proofs.len() ==> crate::proofs::types::opt_view(
                (#[trigger] proofs[t]).1.prev_proof_hash,
            ) == Some(spec_proof_hash(proofs[t - 1].1)),
    ensures
        links_verdict(proofs, i) is Valid,
    decreases proofs.len() - i,
{
    if i < proofs.len() {
        assert(crate::proofs::types::opt_view(proofs[i].1.prev_proof_hash) == Some(
            spec_proof_hash(proofs[i - 1].1),
        ));
        lemma_links_valid(proofs, i + 1);
    }
}

/// A history whose proofs are at distinct slots, each committing to the state of
/// its slot and each after the first linked to the one before, is valid.
pub proof fn lemma_linked_history_valid<T: Proof>(
    states: Seq<(u64, T)>,
    proofs: Seq<(u64, UnitsObjectProof)>,
)
    requires
        states.len() == proofs.len(),
        states.len() > 0,
        forall|i: int| 0 <= i < states.len() ==> (#[trigger] states[i]).0 == proofs[i].0,
        forall|a: int, b: int| 0 <= a < b < proofs.len() ==> proofs[a].0 != proofs[b].0,
        forall|i: int| 0 <= i < states.len() ==> proof_commits_to(#[trigger] states[i].1, proofs[i].1),
        forall|t: int|
            1 <= t < proofs.len() ==> crate::proofs::types::opt_view(
                (#[trigger] proofs[t]).1.prev_proof_hash,
            ) == Some(spec_proof_hash(proofs[t - 1].1)),
    ensures
        history_verdict(states, proofs) is Valid,
{
    lemma_states_valid(states, proofs, 0);
    lemma_links_valid(proofs, 1);
}

/// A single transaction hash is its own transaction root.
pub proof fn lemma_transaction_root_one(t0: [u8; 32])
    ensures
        transaction_root_of(seq![t0]) == t0@,
{
    assert(hash_views(seq![t0]) =~= seq![t0@]);
}

/// The transaction root of two hashes is the hash of the first followed by the second.
pub proof fn lemma_transaction_root_two(t0: [u8; 32], t1: [u8; 32])
    ensures
        transaction_root_of(seq![t0, t1]) == blake3_digest(t0@ + t1@),
{
    let v = hash_views(seq![t0, t1]);
    assert(v =~= seq![t0@, t1@]);
    let l = dup_level(v);
    assert(l =~= seq![blake3_digest(t0@ + t1@)]);
    assert(dup_root(v) == dup_root(l));
}

/// The transaction root of three hashes commits to each of them: the first two
/// are hashed together, and the odd last one is hashed with itself.
pub proof fn lemma_transaction_root_three(t0: [u8; 32], t1: [u8; 32], t2: [u8; 32])
    ensures
        transaction_root_of(seq![t0, t1, t2]) == blake3_digest(
            blake3_digest(t0@ + t1@) + blake3_digest(t2@ + t2@),
        ),
{
    let v = hash_views(seq![t0, t1, t2]);
    assert(v =~= seq![t0@, t1@, t2@]);
    let b01 = blake3_digest(t0@ + t1@);
    let b22 = blake3_digest(t2@ + t2@);
    let l1 = dup_level(v);
    assert(l1 =~= seq![b01, b22]);
    let l2 = dup_level(l1);
    assert(l2 =~= seq![blake3_digest(b01 + b22)]);
    assert(dup_root(v) == dup_root(l1));
    assert(dup_root(l1) == dup_root(l2));
}

/// With two or more hashes, the transaction root is the root of the level above,
/// whose node `i` hashes the hashes at `2i` and `2i + 1`, or the hash at `2i`
/// with itself when it is the odd last one; every hash goes into that level.
pub proof fn lemma_transaction_root_level(hashes: Seq<[u8; 32]>)
    requires
        hashes.len() >= 2,
    ensures
        transaction_root_of(hashes) == dup_root(
            Seq::new(
                ((hashes.len() + 1) / 2) as nat,
                |i: int|
                    if 2 * i + 1 < hashes.len() {
                        blake3_digest(hashes[2 * i]@ + hashes[2 * i + 1]@)
                    } else {
                        blake3_digest(hashes[2 * i]@ + hashes[2 * i]@)
                    },
            ),
        ),
{
    let v = hash_views(hashes);
    let up = Seq::new(
        ((hashes.len() + 1) / 2) as nat,
        |i: int|
            if 2 * i + 1 < hashes.len() {
                blake3_digest(hashes[2 * i]@ + hashes[2 * i + 1]@)
            } else {
                blake3_digest(hashes[2 * i]@ + hashes[2 * i]@)
            },
    );
    assert(dup_level(v) =~= up);
}

/// The root along a path one node longer: the running root is hashed with the
/// node's hash, the node's hash first when the node is marked left.
pub proof fn lemma_path_root_push(leaf: Seq<u8>, path: Seq<MerkleNode>, n: MerkleNode)
    ensures
        path_root(leaf, path.push(n)) == (if n.is_left {
            blake3_digest(n.hash@ + path_root(leaf, path))
        } else {
            blake3_digest(path_root(leaf, path) + n.hash@)
        }),
{
    assert(path.push(n).drop_last() =~= path);
}

/// A sibling on the left goes before the leaf: the root of `leaf` along one node
/// marked left is the hash of the node's hash followed by the leaf.
pub proof fn lemma_path_root_left_sibling(leaf: Seq<u8>, sibling: [u8; 32])
    ensures
        path_root(leaf, seq![MerkleNode { hash: sibling, is_left: true }]) == blake3_digest(
            sibling@ + leaf,
        ),
        path_root(leaf, seq![MerkleNode { hash: sibling, is_left: false }]) == blake3_digest(
            leaf + sibling@,
        ),
{
    let l = seq![MerkleNode { hash: sibling, is_left: true }];
    let r = seq![MerkleNode { hash: sibling, is_left: false }];
    assert(l.drop_last() =~= Seq::<MerkleNode>::empty());
    assert(r.drop_last() =~= Seq::<MerkleNode>::empty());
    assert(path_root(leaf, Seq::<MerkleNode>::empty()) == leaf);
    assert(l.last() == MerkleNode { hash: sibling, is_left: true });
    assert(r.last() == MerkleNode { hash: sibling, is_left: false });
}

/// Each leaf of a two-hash transaction tree, with its sibling on the correct
/// side, leads to the transaction root.
pub proof fn lemma_inclusion_two(t0: [u8; 32], t1: [u8; 32])
    ensures
        path_root(t0@, seq![MerkleNode { hash: t1, is_left: false }]) == transaction_root_of(
            seq![t0, t1],
        ),
        path_root(t1@, seq![MerkleNode { hash: t0, is_left: true }]) == transaction_root_of(
            seq![t0, t1],
        ),
{
    lemma_transaction_root_two(t0, t1);
    lemma_path_root_left_sibling(t0@, t1);
    lemma_path_root_left_sibling(t1@, t0);
}

/// Each leaf of a three-hash transaction tree leads to the transaction root along
/// its Merkle path: its sibling on the correct side (the odd last leaf is its own
/// sibling), then the other subtree's hash (`h01` of the first two leaves, `h22`
/// of the last leaf with itself).
pub proof fn lemma_inclusion_three(
    t0: [u8; 32],
    t1: [u8; 32],
    t2: [u8; 32],
    h01: [u8; 32],
    h22: [u8; 32],
)
    requires
        h01@ == blake3_digest(t0@ + t1@),
        h22@ == blake3_digest(t2@ + t2@),
    ensures
        path_root(
            t0@,
            seq![MerkleNode { hash: t1, is_left: false }, MerkleNode { hash: h22, is_left: false }],
        ) == transaction_root_of(seq![t0, t1, t2]),
        path_root(
            t1@,
            seq![MerkleNode { hash: t0, is_left: true }, MerkleNode { hash: h22, is_left: false }],
        ) == transaction_root_of(seq![t0, t1, t2]),
        path_root(
            t2@,
            seq![MerkleNode { hash: t2, is_left: false }, MerkleNode { hash: h01, is_left: true }],
        ) == transaction_root_of(seq![t0, t1, t2]),
{
    lemma_transaction_root_three(t0, t1, t2);
    let a = MerkleNode { hash: t1, is_left: false };
    let b = MerkleNode { hash: t0, is_left: true };
    let c = MerkleNode { hash: t2, is_left: false };
    let up0 = MerkleNode { hash: h22, is_left: false };
    let up2 = MerkleNode { hash: h01, is_left: true };
    lemma_path_root_left_sibling(t0@, t1);
    lemma_path_root_left_sibling(t1@, t0);
    lemma_path_root_left_sibling(t2@, t2);
    assert(seq![a, up0] =~= seq![a].push(up0));
    assert(seq![b, up0] =~= seq![b].push(up0));
    assert(seq![c, up2] =~= seq![c].push(up2));
    lemma_path_root_push(t0@, seq![a], up0);
    lemma_path_root_push(t1@, seq![b], up0);
    lemma_path_root_push(t2@, seq![c], up2);
}

proof fn lemma_dup_level_differ(s: Seq<Seq<u8>>, t: Seq<Seq<u8>>, k: int)
    requires
        differ_only_at(s, t, k),
        blake3_collision_free(),
    ensures
        differ_only_at(dup_level(s), dup_level(t), k / 2),
{
    let n = s.len();
    let us = dup_level(s);
    let ut = dup_level(t);
    let h = k / 2;
    assert(2 * h <= k <= 2 * h + 1);
    assert forall|j: int| 0 <= j < us.len() && j != h implies #[trigger] us[j] == ut[j] by {
        assert(s[2 * j] == t[2 * j]);
        if 2 * j + 1 < n {
            assert(s[2 * j + 1] == t[2 * j + 1]);
        }
    }
    if 2 * h + 1 < n {
        if us[h] == ut[h] {
            lemma_concat_cancel(s[2 * h], s[2 * h + 1], t[2 * h], t[2 * h + 1]);
            if k == 2 * h {
                assert(s[2 * h + 1] == t[2 * h + 1]);
            } else {
                assert(s[2 * h] == t[2 * h]);
            }
        }
    } else {
        if us[h] == ut[h] {
            lemma_concat_cancel(s[2 * h], s[2 * h], t[2 * h], t[2 * h]);
        }
    }
}

proof fn lemma_dup_root_differ(s: Seq<Seq<u8>>, t: Seq<Seq<u8>>, k: int)
    requires
        differ_only_at(s, t, k),
        blake3_collision_free(),
    ensures
        dup_root(s) != dup_root(t),
    decreases s.len(),
{
    if s.len() > 1 {
        lemma_dup_level_differ(s, t, k);
        lemma_dup_root_differ(dup_level(s), dup_level(t), k / 2);
    }
}

/// The transaction root commits to every hash: two lists of hashes that differ
/// in one position alone have different roots, unless BLAKE3 collides.
pub proof fn lemma_transaction_root_commits(h1: Seq<[u8; 32]>, h2: Seq<[u8; 32]>, k: int)
    requires
        h1.len() == h2.len(),
        0 <= k < h1.len(),
        h1[k]@ != h2[k]@,
        forall|j: int| 0 <= j < h1.len() && j != k ==> #[trigger] h1[j] == h2[j],
        blake3_collision_free(),
    ensures
        transaction_root_of(h1) != transaction_root_of(h2),
{
    let s = hash_views(h1);
    let t = hash_views(h2);
    assert forall|j: int| 0 <= j < s.len() && j != k implies #[trigger] s[j] == t[j] by {
        assert(h1[j] == h2[j]);
    }
    lemma_dup_root_differ(s, t, k);
}

/// The transaction root of no hashes is 32 zero bytes.
pub proof fn lemma_transaction_root_empty()
    ensures
        transaction_root_of(Seq::<[u8; 32]>::empty()) == Seq::new(32, |i: int| 0u8),
{
    assert(hash_views(Seq::<[u8; 32]>::empty()) =~= Seq::<Seq<u8>>::empty());
    assert(zero_hash() =~= Seq::new(32, |i: int| 0u8));
}

} // verus!
