//! Merkle proof engine: object proofs that carry their hash and link, and state
//! proofs that commit to a Merkle tree of objects sorted by identifier.
use vstd::prelude::*;
use crate::id::{id_debug, UnitsObjectId};
use crate::hashing::{
    append_bytes, append_le64, blake3_collision_free, blake3_digest, blake3_hash, blake3_pair,
    differ_only_at, hash_eq, lemma_concat_cancel, le64, opt_hash_eq,
    opt_hash_view, read_array32, read_u64_le, u64_at, zero_hash,
};
use crate::objects::UnitsObject;
use crate::order::{id_leq, insert_stable, lemma_stable_sorted_map, stable_sort_keyed, stable_sorted};
use crate::proofs::types::{
    link_to, object_encoding, opt_view, spec_proof_hash, spec_state_proof_hash, encode_object,
    SlotNumber, StateProof, StorageError, UnitsObjectProof, Verdict, VerificationResult,
    verdict_matches,
};
use crate::text::{decimal_chars, message_with_number, push_str};

verus! {

/// Concrete proof engine using Merkle trees; proofs are made at its current slot.
#[derive(Debug, Clone, Default)]
pub struct ProofEngine {
    /// Current slot number
    pub current_slot: SlotNumber,
}

/// The hash of an object: BLAKE3 of its canonical encoding.
pub open spec fn object_hash_of(o: UnitsObject) -> Seq<u8> {
    blake3_digest(object_encoding(o))
}

/// The bytes of an optional hash in proof data: a tag (0 or 1), then the hash.
pub open spec fn tagged_hash_bytes(h: Option<[u8; 32]>) -> Seq<u8> {
    match h {
        Some(x) => seq![1u8] + x@,
        None => seq![0u8],
    }
}

/// The data of an object proof: object hash, tagged previous proof hash,
/// timestamp (little-endian).
pub open spec fn object_data_bytes(object_hash: Seq<u8>, prev: Option<[u8; 32]>, timestamp: u64) -> Seq<
    u8,
> {
    object_hash + tagged_hash_bytes(prev) + le64(timestamp)
}

/// The message of data too short to decode.
pub open spec fn eof_msg() -> Seq<char> {
    "io error: unexpected end of file"@
}

/// Decoding object proof data: the object hash and previous proof hash it
/// records, or why it cannot be decoded.
pub open spec fn decode_object_data(b: Seq<u8>) -> Result<(Seq<u8>, Option<Seq<u8>>), Seq<char>> {
    if b.len() < 33 {
        Err(eof_msg())
    } else if b[32] == 0 {
        if b.len() < 41 {
            Err(eof_msg())
        } else {
            Ok((b.subrange(0, 32), None))
        }
    } else if b[32] == 1 {
        if b.len() < 73 {
            Err(eof_msg())
        } else {
            Ok((b.subrange(0, 32), Some(b.subrange(33, 65))))
        }
    } else {
        Err("tag for enum is not valid, found "@ + decimal_chars(b[32] as nat))
    }
}

/// The verdict on an object proof against an object.
pub open spec fn object_verdict(o: UnitsObject, p: UnitsObjectProof) -> Verdict {
    if o.id != p.object_id {
        Verdict::Invalid("Object ID mismatch"@)
    } else if object_hash_of(o) != p.object_hash@ {
        Verdict::Invalid("Object hash mismatch"@)
    } else {
        match decode_object_data(p.proof_data@) {
            Err(m) => Verdict::Invalid("Failed to deserialize proof data: "@ + m),
            Ok((h, prev)) => if h != object_hash_of(o) {
                Verdict::Invalid("Proof data hash mismatch"@)
            } else if prev != opt_hash_view(p.prev_proof_hash) {
                Verdict::Invalid("Previous proof hash mismatch"@)
            } else {
                Verdict::Valid
            },
        }
    }
}

/// The verdict on two consecutive proofs of an object.
pub open spec fn chain_verdict(
    prev_object: UnitsObject,
    prev_proof: UnitsObjectProof,
    curr_object: UnitsObject,
    curr_proof: UnitsObjectProof,
) -> Verdict {
    if !(object_verdict(prev_object, prev_proof) is Valid) {
        object_verdict(prev_object, prev_proof)
    } else if !(object_verdict(curr_object, curr_proof) is Valid) {
        object_verdict(curr_object, curr_proof)
    } else if opt_hash_view(curr_proof.prev_proof_hash) != Some(spec_proof_hash(prev_proof)) {
        Verdict::Invalid("Proof chain linkage broken"@)
    } else if curr_proof.slot <= prev_proof.slot {
        Verdict::Invalid("Invalid slot ordering in proof chain"@)
    } else {
        Verdict::Valid
    }
}

/// Checking a proof history from the `i`-th entry on.
pub open spec fn history_from(
    states: Seq<(u64, UnitsObject)>,
    proofs: Seq<(u64, UnitsObjectProof)>,
    i: int,
) -> Verdict
    decreases states.len() - i,
{
    if i >= states.len() {
        Verdict::Valid
    } else if states[i].0 != proofs[i].0 {
        Verdict::Invalid("Slot mismatch at index "@ + decimal_chars(i as nat))
    } else if !(object_verdict(states[i].1, proofs[i].1) is Valid) {
        object_verdict(states[i].1, proofs[i].1)
    } else if i > 0 && opt_hash_view(proofs[i].1.prev_proof_hash) != Some(
        spec_proof_hash(proofs[i - 1].1),
    ) {
        Verdict::Invalid("Broken chain linkage at index "@ + decimal_chars(i as nat))
    } else {
        history_from(states, proofs, i + 1)
    }
}

/// The verdict on a history of object states and their proofs, entry by entry.
pub open spec fn history_verdict(
    states: Seq<(u64, UnitsObject)>,
    proofs: Seq<(u64, UnitsObjectProof)>,
) -> Verdict {
    if states.len() != proofs.len() {
        Verdict::Invalid("Mismatched object states and proofs"@)
    } else {
        history_from(states, proofs, 0)
    }
}

/// Each object keyed by its identifier, with its hash.
pub open spec fn object_leaves(objects: Seq<UnitsObject>) -> Seq<(UnitsObjectId, Seq<u8>)> {
    objects.map_values(|o: UnitsObject| (o.id, object_hash_of(o)))
}

/// One level up a Merkle tree whose odd last node is carried up unchanged.
pub open spec fn carry_level(s: Seq<Seq<u8>>) -> Seq<Seq<u8>> {
    Seq::new(
        ((s.len() + 1) / 2) as nat,
        |i: int|
            if 2 * i + 1 < s.len() {
                blake3_digest(s[2 * i] + s[2 * i + 1])
            } else {
                s[2 * i]
            },
    )
}

/// The root of a Merkle tree whose odd nodes are carried up; zero bytes for no leaves.
pub open spec fn carry_root(s: Seq<Seq<u8>>) -> Seq<u8>
    decreases s.len(),
{
    if s.len() == 0 {
        zero_hash()
    } else if s.len() == 1 {
        s[0]
    } else {
        carry_root(carry_level(s))
    }
}

/// The Merkle root of objects: their hashes, in identifier order, as leaves.
pub open spec fn merkle_root_of(objects: Seq<UnitsObject>) -> Seq<u8> {
    carry_root(stable_sorted(object_leaves(objects)).map_values(|p: (UnitsObjectId, Seq<u8>)| p.1))
}

/// The data of a state proof: Merkle root, object count and timestamp
/// (little-endian).
pub open spec fn state_data_bytes(root: Seq<u8>, count: u64, timestamp: u64) -> Seq<u8> {
    root + le64(count) + le64(timestamp)
}

/// The first identifier, from the `k`-th on, that no object has.
pub open spec fn first_missing(ids: Seq<UnitsObjectId>, objects: Seq<UnitsObject>, k: int) -> Option<
    UnitsObjectId,
>
    decreases ids.len() - k,
{
    if k >= ids.len() {
        None
    } else if !(exists|j: int| 0 <= j < objects.len() && (#[trigger] objects[j]).id == ids[k]) {
        Some(ids[k])
    } else {
        first_missing(ids, objects, k + 1)
    }
}

/// The verdict on a state proof against objects.
pub open spec fn state_verdict(objects: Seq<UnitsObject>, p: StateProof) -> Verdict {
    if objects.len() != p.object_ids@.len() {
        Verdict::Invalid("Object count mismatch"@)
    } else {
        match first_missing(p.object_ids@, objects, 0) {
            Some(id) => Verdict::Missing("Missing object: "@ + id_debug(id)),
            None => if p.proof_data@.len() < 48 {
                Verdict::Invalid("Failed to deserialize proof data: "@ + eof_msg())
            } else if merkle_root_of(objects) != p.proof_data@.subrange(0, 32) {
                Verdict::Invalid("Merkle root mismatch"@)
            } else {
                Verdict::Valid
            },
        }
    }
}

impl ProofEngine {
    /// A proof engine at the current slot.
    pub fn new() -> Self {
        ProofEngine { current_slot: crate::proofs::current_slot() }
    }

    /// Set the current slot.
    pub fn set_slot(&mut self, slot: SlotNumber)
        ensures
            final(self).current_slot == slot,
    {
        self.current_slot = slot;
    }

    /// The current slot.
    pub fn current_slot(&self) -> (s: SlotNumber)
        ensures
            s == self.current_slot,
    {
        self.current_slot
    }

    fn hash_object(object: &UnitsObject) -> (r: [u8; 32])
        ensures
            r@ == object_hash_of(*object),
    {
        let bytes = encode_object(object);
        blake3_hash(bytes.as_slice())
    }

    /// Generate a proof for `object` at the current slot, with `timestamp` in its data.
    pub fn generate_object_proof_at(
        &self,
        object: &UnitsObject,
        prev_proof: Option<&UnitsObjectProof>,
        transaction_hash: Option<[u8; 32]>,
        timestamp: u64,
    ) -> (r: Result<UnitsObjectProof, StorageError>)
        ensures
            r matches Ok(p) && {
                &&& p.object_id == object.id
                &&& p.slot == self.current_slot
                &&& p.object_hash@ == object_hash_of(*object)
                &&& opt_view(p.prev_proof_hash) == link_to(
                    match prev_proof {
                        Some(q) => Some(*q),
                        None => None,
                    },
                )
                &&& p.transaction_hash == transaction_hash
                &&& p.proof_data@ == object_data_bytes(p.object_hash@, p.prev_proof_hash, timestamp)
            },
    {
        let object_hash = Self::hash_object(object);
        let prev_proof_hash = match prev_proof {
            Some(q) => Some(q.hash()),
            None => None,
        };
        let mut data: Vec<u8> = Vec::new();
        append_bytes(&mut data, object_hash.as_slice());
        match &prev_proof_hash {
            Some(h) => {
                data.push(1u8);
                append_bytes(&mut data, h.as_slice());
            },
            None => {
                data.push(0u8);
            },
        }
        append_le64(&mut data, timestamp);
        proof {
            assert(data@ =~= object_data_bytes(object_hash@, prev_proof_hash, timestamp));
        }
        Ok(
            UnitsObjectProof {
                object_id: object.id,
                slot: self.current_slot,
                object_hash,
                prev_proof_hash,
                transaction_hash,
                proof_data: data,
            },
        )
    }

    /// Generate a proof for `object` at the current slot; its data records the
    /// time of generation.
    pub fn generate_object_proof(
        &self,
        object: &UnitsObject,
        prev_proof: Option<&UnitsObjectProof>,
        transaction_hash: Option<[u8; 32]>,
    ) -> (r: Result<UnitsObjectProof, StorageError>)
        ensures
            r matches Ok(p) && {
                &&& p.object_id == object.id
                &&& p.slot == self.current_slot
                &&& p.object_hash@ == object_hash_of(*object)
                &&& opt_view(p.prev_proof_hash) == link_to(
                    match prev_proof {
                        Some(q) => Some(*q),
                        None => None,
                    },
                )
                &&& p.transaction_hash == transaction_hash
                &&& exists|t: u64|
                    p.proof_data@ == #[trigger] object_data_bytes(p.object_hash@, p.prev_proof_hash, t)
            },
    {
        let timestamp = crate::proofs::unix_time_secs();
        self.generate_object_proof_at(object, prev_proof, transaction_hash, timestamp)
    }

    fn decode_object_data(data: &Vec<u8>) -> (r: Result<([u8; 32], Option<[u8; 32]>), String>)
        ensures
            match decode_object_data(data@) {
                Ok((h, prev)) => r matches Ok((a, b)) && a@ == h && opt_hash_view(b) == prev,
                Err(m) => r matches Err(s) && s@ == m,
            },
    {
        if data.len() < 33 {
            return Err("io error: unexpected end of file".to_owned());
        }
        let tag = data[32];
        if tag == 0 {
            if data.len() < 41 {
                return Err("io error: unexpected end of file".to_owned());
            }
            let h = read_array32(data.as_slice(), 0);
            Ok((h, None))
        } else if tag == 1 {
            if data.len() < 73 {
                return Err("io error: unexpected end of file".to_owned());
            }
            let h = read_array32(data.as_slice(), 0);
            let p = read_array32(data.as_slice(), 33);
            Ok((h, Some(p)))
        } else {
            let msg = message_with_number("tag for enum is not valid, found ", tag as u64, "");
            proof {
                reveal_strlit("");
                assert(msg@ =~= "tag for enum is not valid, found "@ + decimal_chars(tag as nat));
            }
            Err(msg)
        }
    }

    /// Verify that a proof commits to an object's state.
    pub fn verify_object_proof(&self, object: &UnitsObject, proof: &UnitsObjectProof) -> (r:
        VerificationResult)
        ensures
            verdict_matches(r, object_verdict(*object, *proof)),
    {
        if object.id != proof.object_id {
            return VerificationResult::Invalid("Object ID mismatch".to_owned());
        }
        let computed_hash = Self::hash_object(object);
        if !hash_eq(&computed_hash, &proof.object_hash) {
            return VerificationResult::Invalid("Object hash mismatch".to_owned());
        }
        match Self::decode_object_data(&proof.proof_data) {
            Ok((h, prev)) => {
                if !hash_eq(&h, &computed_hash) {
                    return VerificationResult::Invalid("Proof data hash mismatch".to_owned());
                }
                if !opt_hash_eq(&prev, &proof.prev_proof_hash) {
                    return VerificationResult::Invalid("Previous proof hash mismatch".to_owned());
                }
                VerificationResult::Valid
            },
            Err(e) => {
                let mut msg = "Failed to deserialize proof data: ".to_owned();
                push_str(&mut msg, e.as_str());
                VerificationResult::Invalid(msg)
            },
        }
    }

    /// Verify two consecutive proofs: both commit to their objects, the second
    /// links to the first, and comes at a later slot.
    pub fn verify_proof_chain(
        &self,
        prev_object: &UnitsObject,
        prev_proof: &UnitsObjectProof,
        curr_object: &UnitsObject,
        curr_proof: &UnitsObjectProof,
    ) -> (r: VerificationResult)
        ensures
            verdict_matches(r, chain_verdict(*prev_object, *prev_proof, *curr_object, *curr_proof)),
    {
        let r1 = self.verify_object_proof(prev_object, prev_proof);
        if !matches!(r1, VerificationResult::Valid) {
            return r1;
        }
        let r2 = self.verify_object_proof(curr_object, curr_proof);
        if !matches!(r2, VerificationResult::Valid) {
            return r2;
        }
        let link = Some(prev_proof.hash());
        if !opt_hash_eq(&curr_proof.prev_proof_hash, &link) {
            return VerificationResult::Invalid("Proof chain linkage broken".to_owned());
        }
        if curr_proof.slot <= prev_proof.slot {
            return VerificationResult::Invalid("Invalid slot ordering in proof chain".to_owned());
        }
        VerificationResult::Valid
    }

    /// Verify a history entry by entry: slots agree, each proof commits to its
    /// state, and each proof after the first links to the one before.
    pub fn verify_proof_history(
        &self,
        object_states: &[(SlotNumber, UnitsObject)],
        proofs: &[(SlotNumber, UnitsObjectProof)],
    ) -> (r: VerificationResult)
        ensures
            verdict_matches(r, history_verdict(object_states@, proofs@)),
    {
        if object_states.len() != proofs.len() {
            return VerificationResult::Invalid("Mismatched object states and proofs".to_owned());
        }
        let ghost st = object_states@;
        let ghost ps = proofs@;
        let mut i: usize = 0;
        while i < object_states.len()
            invariant
                st == object_states@,
                ps == proofs@,
                st.len() == ps.len(),
                i <= st.len(),
                history_from(st, ps, 0) == history_from(st, ps, i as int),
            decreases st.len() - i,
        {
            if object_states[i].0 != proofs[i].0 {
                let msg = message_with_number("Slot mismatch at index ", i as u64, "");
                proof {
                    reveal_strlit("");
                    assert(msg@ =~= "Slot mismatch at index "@ + decimal_chars(i as nat));
                }
                return VerificationResult::Invalid(msg);
            }
            let v = self.verify_object_proof(&object_states[i].1, &proofs[i].1);
            if !matches!(v, VerificationResult::Valid) {
                return v;
            }
            if i > 0 {
                let link = Some(proofs[i - 1].1.hash());
                if !opt_hash_eq(&proofs[i].1.prev_proof_hash, &link) {
                    let msg = message_with_number("Broken chain linkage at index ", i as u64, "");
                    proof {
                        reveal_strlit("");
                        assert(msg@ =~= "Broken chain linkage at index "@ + decimal_chars(i as nat));
                    }
                    return VerificationResult::Invalid(msg);
                }
            }
            i = i + 1;
        }
        VerificationResult::Valid
    }

    /// Generate a state proof of objects at the current slot, with `timestamp`
    /// in its data.
    pub fn generate_state_proof_at(
        &self,
        objects: &[UnitsObject],
        prev_state_proof: Option<&StateProof>,
        timestamp: u64,
    ) -> (r: Result<StateProof, StorageError>)
        ensures
            r matches Ok(sp) && {
                &&& sp.slot == self.current_slot
                &&& sp.object_ids@ == objects@.map_values(|o: UnitsObject| o.id)
                &&& sp.proof_data@ == state_data_bytes(
                    merkle_root_of(objects@),
                    objects@.len() as u64,
                    timestamp,
                )
                &&& opt_view(sp.prev_state_proof_hash) == match prev_state_proof {
                    Some(q) => Some(spec_state_proof_hash(*q)),
                    None => None,
                }
            },
    {
        let mut object_ids: Vec<UnitsObjectId> = Vec::new();
        let mut i: usize = 0;
        while i < objects.len()
            invariant
                i <= objects@.len(),
                object_ids@ == objects@.take(i as int).map_values(|o: UnitsObject| o.id),
            decreases objects@.len() - i,
        {
            object_ids.push(objects[i].id);
            i = i + 1;
            proof {
                assert(object_ids@ =~= objects@.take(i as int).map_values(|o: UnitsObject| o.id));
            }
        }
        proof {
            assert(objects@.take(objects@.len() as int) =~= objects@);
        }
        let root = self.compute_merkle_root(objects);
        let mut data: Vec<u8> = Vec::new();
        append_bytes(&mut data, root.as_slice());
        append_le64(&mut data, objects.len() as u64);
        append_le64(&mut data, timestamp);
        proof {
            assert(data@ =~= state_data_bytes(root@, objects@.len() as u64, timestamp));
        }
        let prev_state_proof_hash = match prev_state_proof {
            Some(q) => Some(q.hash()),
            None => None,
        };
        Ok(
            StateProof {
                slot: self.current_slot,
                prev_state_proof_hash,
                object_ids,
                proof_data: data,
            },
        )
    }

    /// Generate a state proof of objects at the current slot; its data records
    /// the time of generation.
    pub fn generate_state_proof(&self, objects: &[UnitsObject], prev_state_proof: Option<&StateProof>) -> (r:
        Result<StateProof, StorageError>)
        ensures
            r matches Ok(sp) && {
                &&& sp.slot == self.current_slot
                &&& sp.object_ids@ == objects@.map_values(|o: UnitsObject| o.id)
                &&& exists|t: u64|
                    sp.proof_data@ == #[trigger] state_data_bytes(
                        merkle_root_of(objects@),
                        objects@.len() as u64,
                        t,
                    )
                &&& opt_view(sp.prev_state_proof_hash) == match prev_state_proof {
                    Some(q) => Some(spec_state_proof_hash(*q)),
                    None => None,
                }
            },
    {
        let timestamp = crate::proofs::unix_time_secs();
        self.generate_state_proof_at(objects, prev_state_proof, timestamp)
    }

    /// Verify a state proof against objects: as many objects as identifiers,
    /// every identifier among the objects, and the Merkle root recorded.
    pub fn verify_state_proof(&self, objects: &[UnitsObject], proof: &StateProof) -> (r:
        VerificationResult)
        ensures
            verdict_matches(r, state_verdict(objects@, *proof)),
    {
        if objects.len() != proof.object_ids.len() {
            return VerificationResult::Invalid("Object count mismatch".to_owned());
        }
        let ghost ids = proof.object_ids@;
        let mut k: usize = 0;
        while k < proof.object_ids.len()
            invariant
                ids == proof.object_ids@,
                objects@.len() == ids.len(),
                k <= ids.len(),
                first_missing(ids, objects@, 0) == first_missing(ids, objects@, k as int),
            decreases ids.len() - k,
        {
            let id = proof.object_ids[k];
            let mut j: usize = 0;
            let mut found = false;
            while j < objects.len()
                invariant
                    j <= objects@.len(),
                    found <==> exists|t: int| 0 <= t < j && (#[trigger] objects@[t]).id == id,
                decreases objects@.len() - j,
            {
                if objects[j].id == id {
                    found = true;
                }
                j = j + 1;
            }
            if !found {
                let mut msg = "Missing object: ".to_owned();
                let d = id.debug_string();
                push_str(&mut msg, d.as_str());
                return VerificationResult::MissingData(msg);
            }
            k = k + 1;
        }
        if proof.proof_data.len() < 48 {
            proof {
                reveal_strlit("Failed to deserialize proof data: io error: unexpected end of file");
                reveal_strlit("Failed to deserialize proof data: ");
                reveal_strlit("io error: unexpected end of file");
                assert("Failed to deserialize proof data: io error: unexpected end of file"@
                    =~= "Failed to deserialize proof data: "@ + eof_msg());
            }
            return VerificationResult::Invalid(
                "Failed to deserialize proof data: io error: unexpected end of file".to_owned(),
            );
        }
        let recorded = read_array32(proof.proof_data.as_slice(), 0);
        let computed = self.compute_merkle_root(objects);
        if !hash_eq(&computed, &recorded) {
            return VerificationResult::Invalid("Merkle root mismatch".to_owned());
        }
        VerificationResult::Valid
    }

    /// The Merkle root of objects: their hashes in identifier order as leaves,
    /// an odd node carried up; zero bytes for no objects.
    pub fn compute_merkle_root(&self, objects: &[UnitsObject]) -> (r: [u8; 32])
        ensures
            r@ == merkle_root_of(objects@),
    {
        let mut hashed: Vec<(UnitsObjectId, [u8; 32])> = Vec::new();
        let mut i: usize = 0;
        while i < objects.len()
            invariant
                i <= objects@.len(),
                hashed@.len() == i,
                forall|t: int|
                    0 <= t < i ==> (#[trigger] hashed@[t]).0 == objects@[t].id && hashed@[t].1@
                        == object_hash_of(objects@[t]),
            decreases objects@.len() - i,
        {
            let h = Self::hash_object(&objects[i]);
            hashed.push((objects[i].id, h));
            i = i + 1;
        }
        let ghost f = |p: (UnitsObjectId, [u8; 32])| (p.0, p.1@);
        proof {
            assert(hashed@.map_values(f) =~= object_leaves(objects@));
            lemma_stable_sorted_map(hashed@, f);
        }
        let sorted = stable_sort_keyed(&hashed);
        let mut level: Vec<[u8; 32]> = Vec::new();
        let mut k: usize = 0;
        while k < sorted.len()
            invariant
                k <= sorted@.len(),
                level@.len() == k,
                forall|t: int| 0 <= t < k ==> (#[trigger] level@[t]) == sorted@[t].1,
            decreases sorted@.len() - k,
        {
            level.push(sorted[k].1);
            k = k + 1;
        }
        let ghost leaves = stable_sorted(object_leaves(objects@)).map_values(
            |p: (UnitsObjectId, Seq<u8>)| p.1,
        );
        proof {
            assert(stable_sorted(object_leaves(objects@)) == sorted@.map_values(f));
            assert(level@.map_values(|h: [u8; 32]| h@) =~= leaves);
        }
        if level.len() == 0 {
            let z = [0u8; 32];
            assert(z@ =~= zero_hash());
            return z;
        }
        while level.len() > 1
            invariant
                level@.len() >= 1,
                carry_root(level@.map_values(|h: [u8; 32]| h@)) == carry_root(leaves),
            decreases level@.len(),
        {
            let n = level.len();
            let half = n / 2 + n % 2;
            let mut next: Vec<[u8; 32]> = Vec::new();
            let mut j: usize = 0;
            while j < half
                invariant
                    n == level@.len(),
                    n > 1,
                    half == (n + 1) / 2,
                    j <= half,
                    next@.len() == j,
                    forall|t: int|
                        0 <= t < j ==> (#[trigger] next@[t])@ == carry_level(
                            level@.map_values(|h: [u8; 32]| h@),
                        )[t],
                decreases half - j,
            {
                let a = level[2 * j];
                let h = if 2 * j + 1 < n {
                    blake3_pair(&a, &level[2 * j + 1])
                } else {
                    a
                };
                next.push(h);
                j = j + 1;
            }
            proof {
                assert(next@.map_values(|h: [u8; 32]| h@) =~= carry_level(
                    level@.map_values(|h: [u8; 32]| h@),
                ));
            }
            level = next;
        }
        level[0]
    }
}

/// A proof generated for an object verifies against that object.
pub proof fn lemma_generated_proof_valid(o: UnitsObject, timestamp: u64, p: UnitsObjectProof)
    requires
        p.object_id == o.id,
        p.object_hash@ == object_hash_of(o),
        p.proof_data@ == object_data_bytes(p.object_hash@, p.prev_proof_hash, timestamp),
    ensures
        object_verdict(o, p) is Valid,
{
    let d = p.proof_data@;
    vstd::bytes::lemma_auto_spec_u64_to_from_le_bytes();
    assert(le64(timestamp).len() == 8);
    assert(d.subrange(0, 32) =~= p.object_hash@);
    match p.prev_proof_hash {
        Some(h) => {
            assert(d[32] == 1u8);
            assert(d.subrange(33, 65) =~= h@);
        },
        None => {
            assert(d[32] == 0u8);
        },
    }
}

/// Two proofs generated one after the other, the second linked to the first and
/// made at a later slot, verify as a chain.
pub proof fn lemma_generated_chain_valid(
    o1: UnitsObject,
    p1: UnitsObjectProof,
    t1: u64,
    o2: UnitsObject,
    p2: UnitsObjectProof,
    t2: u64,
)
    requires
        p1.object_id == o1.id,
        p1.object_hash@ == object_hash_of(o1),
        p1.proof_data@ == object_data_bytes(p1.object_hash@, p1.prev_proof_hash, t1),
        p2.object_id == o2.id,
        p2.object_hash@ == object_hash_of(o2),
        p2.proof_data@ == object_data_bytes(p2.object_hash@, p2.prev_proof_hash, t2),
        opt_view(p2.prev_proof_hash) == link_to(Some(p1)),
        p1.slot < p2.slot,
    ensures
        chain_verdict(o1, p1, o2, p2) is Valid,
{
    lemma_generated_proof_valid(o1, t1, p1);
    lemma_generated_proof_valid(o2, t2, p2);
}

proof fn lemma_no_missing(objects: Seq<UnitsObject>, ids: Seq<UnitsObjectId>, k: int)
    requires
        0 <= k <= ids.len(),
        ids == objects.map_values(|o: UnitsObject| o.id),
    ensures
        first_missing(ids, objects, k) is None,
    decreases ids.len() - k,
{
    if k < ids.len() {
        assert(objects[k].id == ids[k]);
        lemma_no_missing(objects, ids, k + 1);
    }
}

/// A state proof generated from objects verifies against the same objects. The
/// root is passed as the 32-byte array that holds it.
pub proof fn lemma_generated_state_proof_valid(
    objects: Seq<UnitsObject>,
    root: [u8; 32],
    timestamp: u64,
    sp: StateProof,
)
    requires
        root@ == merkle_root_of(objects),
        objects.len() <= u64::MAX,
        sp.object_ids@ == objects.map_values(|o: UnitsObject| o.id),
        sp.proof_data@ == state_data_bytes(root@, objects.len() as u64, timestamp),
    ensures
        state_verdict(objects, sp) is Valid,
{
    lemma_no_missing(objects, sp.object_ids@, 0);
    vstd::bytes::lemma_auto_spec_u64_to_from_le_bytes();
    assert(le64(timestamp).len() == 8);
    assert(le64(objects.len() as u64).len() == 8);
    assert(sp.proof_data@.subrange(0, 32) =~= root@);
}

/// The Merkle root of three leaves commits to each of them: the first two are
/// hashed together, and the odd last leaf is carried up to be hashed with that.
pub proof fn lemma_carry_root_three(h0: Seq<u8>, h1: Seq<u8>, h2: Seq<u8>)
    ensures
        carry_root(seq![h0, h1, h2]) == blake3_digest(blake3_digest(h0 + h1) + h2),
{
    let v = seq![h0, h1, h2];
    let b01 = blake3_digest(h0 + h1);
    let l1 = carry_level(v);
    assert(l1 =~= seq![b01, h2]);
    let l2 = carry_level(l1);
    assert(l2 =~= seq![blake3_digest(b01 + h2)]);
    assert(carry_root(v) == carry_root(l1));
    assert(carry_root(l1) == carry_root(l2));
}

/// With two or more leaves, the Merkle root is the root of the level above, whose
/// node `i` hashes the leaves at `2i` and `2i + 1`, or is the leaf at `2i` itself
/// when it is the odd last one; every leaf goes into that level.
pub proof fn lemma_carry_root_level(s: Seq<Seq<u8>>)
    requires
        s.len() >= 2,
    ensures
        carry_root(s) == carry_root(
            Seq::new(
                ((s.len() + 1) / 2) as nat,
                |i: int|
                    if 2 * i + 1 < s.len() {
                        blake3_digest(s[2 * i] + s[2 * i + 1])
                    } else {
                        s[2 * i]
                    },
            ),
        ),
{
    let up = Seq::new(
        ((s.len() + 1) / 2) as nat,
        |i: int|
            if 2 * i + 1 < s.len() {
                blake3_digest(s[2 * i] + s[2 * i + 1])
            } else {
                s[2 * i]
            },
    );
    assert(carry_level(s) =~= up);
}

/// The Merkle root of three objects given in identifier order is
/// `blake3(blake3(h0 || h1) || h2)` over their object hashes: it depends on
/// every one of them, the last included.
pub proof fn lemma_merkle_root_three_objects(a: UnitsObject, b: UnitsObject, c: UnitsObject)
    requires
        id_leq(a.id, b.id),
        id_leq(b.id, c.id),
    ensures
        merkle_root_of(seq![a, b, c]) == blake3_digest(
            blake3_digest(object_hash_of(a) + object_hash_of(b)) + object_hash_of(c),
        ),
{
    let la = (a.id, object_hash_of(a));
    let lb = (b.id, object_hash_of(b));
    let lc = (c.id, object_hash_of(c));
    let leaves = object_leaves(seq![a, b, c]);
    assert(leaves =~= seq![la, lb, lc]);
    let e = Seq::<(UnitsObjectId, Seq<u8>)>::empty();
    assert(seq![la, lb, lc].drop_last() =~= seq![la, lb]);
    assert(seq![la, lb].drop_last() =~= seq![la]);
    assert(seq![la].drop_last() =~= e);
    assert(stable_sorted(e) == e);
    assert(insert_stable(e, la) == seq![la]);
    assert(stable_sorted(seq![la]) == seq![la]);
    assert(seq![la].last() == la);
    assert(insert_stable(seq![la], lb) =~= seq![la, lb]);
    assert(stable_sorted(seq![la, lb]) == seq![la, lb]);
    assert(seq![la, lb].last() == lb);
    assert(insert_stable(seq![la, lb], lc) =~= seq![la, lb, lc]);
    assert(stable_sorted(seq![la, lb, lc]) == seq![la, lb, lc]);
    assert(seq![la, lb, lc].map_values(|p: (UnitsObjectId, Seq<u8>)| p.1) =~= seq![
        object_hash_of(a),
        object_hash_of(b),
        object_hash_of(c),
    ]);
    lemma_carry_root_three(object_hash_of(a), object_hash_of(b), object_hash_of(c));
}

proof fn lemma_carry_level_differ(s: Seq<Seq<u8>>, t: Seq<Seq<u8>>, k: int)
    requires
        differ_only_at(s, t, k),
        blake3_collision_free(),
    ensures
        differ_only_at(carry_level(s), carry_level(t), k / 2),
{
    let n = s.len();
    let us = carry_level(s);
    let ut = carry_level(t);
    let h = k / 2;
    assert(2 * h <= k <= 2 * h + 1);
    assert forall|j: int| 0 <= j < us.len() && j != h implies #[trigger] us[j] == ut[j] by {
        assert(s[2 * j] == t[2 * j]);
        if 2 * j + 1 < n {
            assert(s[2 * j + 1] == t[2 * j + 1]);
        }
    }
    if 2 * h + 1 < n {
        if us[h] == ut[h] {
            lemma_concat_cancel(s[2 * h], s[2 * h + 1], t[2 * h], t[2 * h + 1]);
            if k == 2 * h {
                assert(s[2 * h + 1] == t[2 * h + 1]);
            } else {
                assert(s[2 * h] == t[2 * h]);
            }
        }
    }
}

/// The Merkle root commits to every leaf, the odd last one included: two leaf
/// sequences that differ in one position alone have different roots, unless
/// BLAKE3 collides.
pub proof fn lemma_carry_root_commits(s: Seq<Seq<u8>>, t: Seq<Seq<u8>>, k: int)
    requires
        differ_only_at(s, t, k),
        blake3_collision_free(),
    ensures
        carry_root(s) != carry_root(t),
    decreases s.len(),
{
    if s.len() > 1 {
        lemma_carry_level_differ(s, t, k);
        lemma_carry_root_commits(carry_level(s), carry_level(t), k / 2);
    }
}

/// The Merkle root of two objects hashes their object hashes in identifier
/// order, whatever order they are given in.
pub proof fn lemma_merkle_root_two_objects(a: UnitsObject, b: UnitsObject)
    ensures
        id_leq(a.id, b.id) ==> merkle_root_of(seq![a, b]) == blake3_digest(
            object_hash_of(a) + object_hash_of(b),
        ),
        !id_leq(a.id, b.id) ==> merkle_root_of(seq![a, b]) == blake3_digest(
            object_hash_of(b) + object_hash_of(a),
        ),
{
    let la = (a.id, object_hash_of(a));
    let lb = (b.id, object_hash_of(b));
    let leaves = object_leaves(seq![a, b]);
    assert(leaves =~= seq![la, lb]);
    let e = Seq::<(UnitsObjectId, Seq<u8>)>::empty();
    assert(seq![la, lb].drop_last() =~= seq![la]);
    assert(seq![la].drop_last() =~= e);
    assert(stable_sorted(e) == e);
    assert(insert_stable(e, la) == seq![la]);
    assert(stable_sorted(seq![la]) == seq![la]);
    assert(seq![la].last() == la);
    assert(seq![la, lb].last() == lb);
    assert(seq![la].drop_last() =~= e);
    assert(insert_stable(e, lb) == seq![lb]);
    if id_leq(a.id, b.id) {
        assert(insert_stable(seq![la], lb) =~= seq![la, lb]);
        assert(stable_sorted(seq![la, lb]) == seq![la, lb]);
        let hs = seq![la, lb].map_values(|p: (UnitsObjectId, Seq<u8>)| p.1);
        assert(hs =~= seq![object_hash_of(a), object_hash_of(b)]);
        assert(carry_level(hs) =~= seq![blake3_digest(object_hash_of(a) + object_hash_of(b))]);
        assert(carry_root(hs) == carry_root(carry_level(hs)));
    } else {
        assert(insert_stable(seq![la], lb) =~= seq![lb, la]);
        assert(stable_sorted(seq![la, lb]) == seq![lb, la]);
        let hs = seq![lb, la].map_values(|p: (UnitsObjectId, Seq<u8>)| p.1);
        assert(hs =~= seq![object_hash_of(b), object_hash_of(a)]);
        assert(carry_level(hs) =~= seq![blake3_digest(object_hash_of(b) + object_hash_of(a))]);
        assert(carry_root(hs) == carry_root(carry_level(hs)));
    }
}

/// The Merkle root of no objects is 32 zero bytes.
pub proof fn lemma_merkle_root_empty()
    ensures
        merkle_root_of(Seq::<UnitsObject>::empty()) == Seq::new(32, |i: int| 0u8),
{
    let leaves = object_leaves(Seq::<UnitsObject>::empty());
    assert(leaves =~= Seq::<(UnitsObjectId, Seq<u8>)>::empty());
    assert(zero_hash() =~= Seq::new(32, |i: int| 0u8));
}

} // verus!
