//! Proof generation for the node's services: object proofs signed over the
//! hashes of an object's states, and slot proofs over a SHA-256 Merkle tree
//! of object proofs.
use vstd::prelude::*;
use vstd::string::StringSliceAdditionalSpecFns;
use crate::hashing::{append_bytes, sha256, sha256_digest, zero_hash};
use crate::id::UnitsObjectId;
use crate::id_map::IdMap;
use crate::objects::UnitsObject;
use crate::proofs::types::{encode_object, object_encoding, MerkleNode, StateProof, UnitsObjectProof};
use crate::services::ServiceError;
use crate::transaction::{copy_object_proof, TransactionEffect, TransactionHash, TransactionReceipt};

verus! {

/// One level up a SHA-256 Merkle tree whose odd last node is paired with itself.
pub open spec fn sha_level(s: Seq<Seq<u8>>) -> Seq<Seq<u8>> {
    Seq::new(
        ((s.len() + 1) / 2) as nat,
        |i: int|
            if 2 * i + 1 < s.len() {
                sha256_digest(s[2 * i] + s[2 * i + 1])
            } else {
                sha256_digest(s[2 * i] + s[2 * i])
            },
    )
}

/// The root of a SHA-256 Merkle tree whose odd nodes are paired with
/// themselves; zero bytes for no leaves.
pub open spec fn sha_root(s: Seq<Seq<u8>>) -> Seq<u8>
    decreases s.len(),
{
    if s.len() == 0 {
        zero_hash()
    } else if s.len() == 1 {
        s[0]
    } else {
        sha_root(sha_level(s))
    }
}

/// The leaf hashes of object proofs.
pub open spec fn proof_leaf_hashes(s: Seq<UnitsObjectProof>) -> Seq<Seq<u8>> {
    s.map_values(|q: UnitsObjectProof| sha256_digest(leaf_bytes(q)))
}

/// The hashes of Merkle nodes.
pub open spec fn node_hashes(s: Seq<MerkleNode>) -> Seq<Seq<u8>> {
    s.map_values(|n: MerkleNode| n.hash@)
}

/// The bytes of an optional hash, nothing when absent.
pub open spec fn present_bytes(h: Option<[u8; 32]>) -> Seq<u8> {
    match h {
        Some(x) => x@,
        None => Seq::empty(),
    }
}

/// The bytes a proof's leaf hashes: object identifier, previous proof hash
/// if any, object hash, transaction hash if any.
pub open spec fn leaf_bytes(p: UnitsObjectProof) -> Seq<u8> {
    p.object_id.bytes@ + present_bytes(p.prev_proof_hash) + p.object_hash@ + present_bytes(p.transaction_hash)
}

/// The hash of an object state: SHA-256 of its encoding.
pub open spec fn state_hash(o: UnitsObject) -> Seq<u8> {
    sha256_digest(object_encoding(o))
}

/// The hash of an optional state: zero bytes for none.
pub open spec fn opt_state_hash(o: Option<UnitsObject>) -> Seq<u8> {
    match o {
        Some(x) => state_hash(x),
        None => zero_hash(),
    }
}

/// The signature of a change of state from hash `prev` to hash `new`.
pub open spec fn change_signature(prev: Seq<u8>, new: Seq<u8>) -> Seq<u8> {
    sha256_digest(prev + new + "proof_signature".spec_bytes())
}

/// The signature of a slot's state with Merkle root `root` after the slot
/// with hash `prev`.
pub open spec fn slot_signature(root: Seq<u8>, prev: Seq<u8>) -> Seq<u8> {
    sha256_digest(root + prev + "state_proof_signature".spec_bytes())
}

/// The key under which the root of leaves with hashes `h` is cached: SHA-256
/// of the hashes in order.
pub open spec fn leaves_key(h: Seq<Seq<u8>>) -> Seq<u8> {
    sha256_digest(h.flatten())
}

/// Whether a cache holds a root under the key of leaves with hashes `h`.
pub open spec fn cache_hit(c: Map<UnitsObjectId, MerkleNode>, h: Seq<Seq<u8>>) -> bool {
    exists|k: UnitsObjectId| #![trigger c.dom().contains(k)] k.bytes@ == leaves_key(h) && c.dom().contains(k)
}

/// The cache entry kept under the key of leaves with hashes `h`.
pub open spec fn cached_node(c: Map<UnitsObjectId, MerkleNode>, h: Seq<Seq<u8>>) -> MerkleNode {
    c[choose|k: UnitsObjectId| #![trigger c.dom().contains(k)] k.bytes@ == leaves_key(h) && c.dom().contains(k)]
}

/// The root answered with cache `c` for leaves with hashes `h`: a tree of two
/// or more leaves whose key is cached gets the cached root, any other the
/// computed one.
pub open spec fn cached_root(c: Map<UnitsObjectId, MerkleNode>, h: Seq<Seq<u8>>) -> Seq<u8> {
    if h.len() >= 2 && cache_hit(c, h) {
        cached_node(c, h).hash@
    } else {
        sha_root(h)
    }
}

/// Generates object and slot proofs, and caches the Merkle roots it computes
/// by the digest of their leaves.
pub struct ProofGenerator {
    merkle_cache: IdMap<MerkleNode>,
}

impl ProofGenerator {
    /// The cached Merkle roots, by key of their leaves' digest.
    pub closed spec fn cache(&self) -> Map<UnitsObjectId, MerkleNode> {
        self.merkle_cache@
    }

    /// A generator with an empty cache.
    pub fn new() -> (g: Self)
        ensures
            g.cache() == Map::<UnitsObjectId, MerkleNode>::empty(),
    {
        ProofGenerator { merkle_cache: IdMap::new() }
    }

    /// How many roots the cache holds.
    pub fn merkle_cache_size(&self) -> (n: usize)
        ensures
            n == self.cache().len(),
    {
        self.merkle_cache.len()
    }

    /// The cache key of leaves: SHA-256 of their hashes in order.
    fn leaves_to_cache_key(&self, leaves: &[MerkleNode]) -> (k: [u8; 32])
        ensures
            k@ == leaves_key(node_hashes(leaves@)),
    {
        let mut input: Vec<u8> = Vec::new();
        let mut i: usize = 0;
        while i < leaves.len()
            invariant
                i <= leaves@.len(),
                input@ == node_hashes(leaves@.take(i as int)).flatten(),
            decreases leaves@.len() - i,
        {
            proof {
                assert(node_hashes(leaves@.take(i + 1)) =~= node_hashes(leaves@.take(i as int)).push(
                    leaves@[i as int].hash@,
                ));
                node_hashes(leaves@.take(i as int)).lemma_flatten_push(leaves@[i as int].hash@);
            }
            append_bytes(&mut input, leaves[i].hash.as_slice());
            i = i + 1;
        }
        proof {
            assert(leaves@.take(leaves@.len() as int) =~= leaves@);
        }
        sha256(input.as_slice())
    }

    /// The parent of two Merkle nodes: SHA-256 of their hashes.
    fn hash_nodes(&self, left: &MerkleNode, right: &MerkleNode) -> (n: MerkleNode)
        ensures
            n.hash@ == sha256_digest(left.hash@ + right.hash@),
            !n.is_left,
    {
        let mut input: Vec<u8> = Vec::new();
        append_bytes(&mut input, left.hash.as_slice());
        append_bytes(&mut input, right.hash.as_slice());
        MerkleNode { hash: sha256(input.as_slice()), is_left: false }
    }

    /// The Merkle leaf of an object proof.
    pub fn proof_to_merkle_node(&self, proof: &UnitsObjectProof) -> (n: MerkleNode)
        ensures
            n.hash@ == sha256_digest(leaf_bytes(*proof)),
            !n.is_left,
    {
        let mut input: Vec<u8> = Vec::new();
        append_bytes(&mut input, proof.object_id.bytes.as_slice());
        match &proof.prev_proof_hash {
            Some(h) => append_bytes(&mut input, h.as_slice()),
            None => {},
        }
        append_bytes(&mut input, proof.object_hash.as_slice());
        match &proof.transaction_hash {
            Some(h) => append_bytes(&mut input, h.as_slice()),
            None => {},
        }
        assert(input@ =~= leaf_bytes(*proof));
        MerkleNode { hash: sha256(input.as_slice()), is_left: false }
    }

    /// The hash of an object state.
    pub fn compute_object_hash(&self, object: &UnitsObject) -> (h: [u8; 32])
        ensures
            h@ == state_hash(*object),
    {
        let bytes = encode_object(object);
        sha256(bytes.as_slice())
    }

    /// The signature of a state change.
    fn sign_proof(&self, previous_hash: &[u8; 32], new_hash: &[u8; 32]) -> (s: Vec<u8>)
        ensures
            s@ == change_signature(previous_hash@, new_hash@),
    {
        let mut input: Vec<u8> = Vec::new();
        append_bytes(&mut input, previous_hash.as_slice());
        append_bytes(&mut input, new_hash.as_slice());
        append_bytes(&mut input, "proof_signature".as_bytes());
        let h = sha256(input.as_slice());
        let mut out: Vec<u8> = Vec::new();
        append_bytes(&mut out, h.as_slice());
        out
    }

    /// The signature of a slot state.
    fn sign_state_proof(&self, merkle_root: &[u8; 32], previous_slot_hash: &[u8; 32]) -> (s: Vec<u8>)
        ensures
            s@ == slot_signature(merkle_root@, previous_slot_hash@),
    {
        let mut input: Vec<u8> = Vec::new();
        append_bytes(&mut input, merkle_root.as_slice());
        append_bytes(&mut input, previous_slot_hash.as_slice());
        append_bytes(&mut input, "state_proof_signature".as_bytes());
        let h = sha256(input.as_slice());
        let mut out: Vec<u8> = Vec::new();
        append_bytes(&mut out, h.as_slice());
        out
    }

    /// The hash of an optional state.
    fn state_or_zero(&self, state: Option<&UnitsObject>) -> (h: [u8; 32])
        ensures
            h@ == opt_state_hash(
                match state {
                    Some(o) => Some(*o),
                    None => None,
                },
            ),
    {
        match state {
            Some(o) => self.compute_object_hash(o),
            None => {
                let z = [0u8; 32];
                assert(z@ =~= zero_hash());
                z
            },
        }
    }

    /// The proof of an object's change from `previous_state` to `new_state`
    /// by a transaction in `slot`: it commits to the new state's hash (zero
    /// for a deletion), is signed over the old and new hashes, names the
    /// transaction, and links to no earlier proof.
    pub fn generate_object_proof(
        &self,
        object_id: &UnitsObjectId,
        previous_state: Option<&UnitsObject>,
        new_state: Option<&UnitsObject>,
        transaction_hash: TransactionHash,
        slot: u64,
    ) -> (r: Result<UnitsObjectProof, ServiceError>)
        ensures
            r matches Ok(p) && {
                &&& p.object_id == *object_id
                &&& p.slot == slot
                &&& p.object_hash@ == opt_state_hash(
                    match new_state {
                        Some(o) => Some(*o),
                        None => None,
                    },
                )
                &&& p.proof_data@ == change_signature(
                    opt_state_hash(
                        match previous_state {
                            Some(o) => Some(*o),
                            None => None,
                        },
                    ),
                    p.object_hash@,
                )
                &&& p.prev_proof_hash is None
                &&& p.transaction_hash == Some(transaction_hash)
            },
    {
        let previous_hash = self.state_or_zero(previous_state);
        let object_hash = self.state_or_zero(new_state);
        let proof_data = self.sign_proof(&previous_hash, &object_hash);
        Ok(UnitsObjectProof::new(*object_id, object_hash, slot, proof_data, None, Some(transaction_hash)))
    }

    /// The Merkle root of leaves: zero bytes for none, the leaf for one,
    /// otherwise pairs hashed level by level with an odd node paired with itself.
    fn merkle_root_of(&self, leaves: &[MerkleNode]) -> (r: [u8; 32])
        ensures
            r@ == sha_root(node_hashes(leaves@)),
    {
        if leaves.len() == 0 {
            let z = [0u8; 32];
            assert(z@ =~= zero_hash());
            return z;
        }
        if leaves.len() == 1 {
            return leaves[0].hash;
        }
        let mut level: Vec<MerkleNode> = Vec::new();
        let mut k: usize = 0;
        while k < leaves.len()
            invariant
                k <= leaves@.len(),
                level@.len() == k,
                forall|t: int| 0 <= t < k ==> (#[trigger] level@[t]).hash == leaves@[t].hash,
            decreases leaves@.len() - k,
        {
            level.push(MerkleNode { hash: leaves[k].hash, is_left: leaves[k].is_left });
            k = k + 1;
        }
        assert(node_hashes(level@) =~= node_hashes(leaves@));
        while level.len() > 1
            invariant
                level@.len() >= 1,
                sha_root(node_hashes(level@)) == sha_root(node_hashes(leaves@)),
            decreases level@.len(),
        {
            let n = level.len();
            let half = n / 2 + n % 2;
            let mut next: Vec<MerkleNode> = Vec::new();
            let mut j: usize = 0;
            while j < half
                invariant
                    n == level@.len(),
                    n > 1,
                    half == (n + 1) / 2,
                    j <= half,
                    next@.len() == j,
                    forall|t: int| 0 <= t < j ==> (#[trigger] next@[t]).hash@ == sha_level(node_hashes(level@))[t],
                decreases half - j,
            {
                let left = &level[2 * j];
                let parent = if 2 * j + 1 < n {
                    self.hash_nodes(left, &level[2 * j + 1])
                } else {
                    self.hash_nodes(left, left)
                };
                next.push(parent);
                j = j + 1;
            }
            proof {
                assert(node_hashes(next@) =~= sha_level(node_hashes(level@)));
            }
            level = next;
        }
        level[0].hash
    }

    /// The Merkle root of leaves, through the cache: for two or more leaves a
    /// root cached under their digest is answered, and a computed one is
    /// cached.
    pub fn compute_merkle_root(&mut self, leaves: &[MerkleNode]) -> (r: [u8; 32])
        ensures
            r@ == cached_root(old(self).cache(), node_hashes(leaves@)),
            leaves@.len() < 2 || cache_hit(old(self).cache(), node_hashes(leaves@)) ==> final(self).cache()
                == old(self).cache(),
            leaves@.len() >= 2 && !cache_hit(old(self).cache(), node_hashes(leaves@)) ==> exists|
                k: UnitsObjectId,
            |
                #![trigger final(self).cache().dom().contains(k)]
                k.bytes@ == leaves_key(node_hashes(leaves@)) && final(self).cache().dom().contains(k) && final(self).cache() == old(self).cache().insert(
                    k,
                    MerkleNode { hash: r, is_left: false },
                ),
    {
        if leaves.len() < 2 {
            return self.merkle_root_of(leaves);
        }
        let key = UnitsObjectId::new(self.leaves_to_cache_key(leaves));
        match self.merkle_cache.get(&key) {
            Some(cached) => {
                proof {
                    assert(self.cache().dom().contains(key));
                    assert(cache_hit(self.cache(), node_hashes(leaves@)));
                    let k = choose|k: UnitsObjectId| #![trigger self.cache().dom().contains(k)] k.bytes@ == leaves_key(
                        node_hashes(leaves@),
                    ) && self.cache().dom().contains(k);
                    assert(k.bytes@ == key.bytes@);
                    assert(k.bytes =~= key.bytes) by {
                        broadcast use vstd::array::group_array_axioms;
                    }
                    assert(k == key);
                }
                return cached.hash;
            },
            None => {},
        }
        let root = self.merkle_root_of(leaves);
        proof {
            assert forall|k: UnitsObjectId| #![trigger self.cache().dom().contains(k)] k.bytes@ == leaves_key(
                node_hashes(leaves@),
            ) implies !self.cache().dom().contains(k) by {
                assert(k.bytes =~= key.bytes) by {
                    broadcast use vstd::array::group_array_axioms;
                }
            }
        }
        self.merkle_cache.insert(key, MerkleNode { hash: root, is_left: false });
        assert(self.cache().dom().contains(key));
        root
    }

    /// The proof of a slot: a Merkle tree over the object proofs' leaves,
    /// signed with the previous slot's hash, naming the proofs' objects in
    /// order, and linking to no earlier state proof.
    pub fn generate_slot_proof(
        &mut self,
        slot: u64,
        object_proofs: &Vec<UnitsObjectProof>,
        previous_slot_hash: [u8; 32],
    ) -> (r: Result<StateProof, ServiceError>)
        ensures
            r matches Ok(p) && {
                &&& p.slot == slot
                &&& p.object_ids@ == object_proofs@.map_values(|q: UnitsObjectProof| q.object_id)
                &&& p.proof_data@ == slot_signature(
                    cached_root(old(self).cache(), proof_leaf_hashes(object_proofs@)),
                    previous_slot_hash@,
                )
                &&& p.prev_state_proof_hash is None
            },
            proof_leaf_hashes(object_proofs@).len() < 2 || cache_hit(
                old(self).cache(),
                proof_leaf_hashes(object_proofs@),
            ) ==> final(self).cache() == old(self).cache(),
            proof_leaf_hashes(object_proofs@).len() >= 2 && !cache_hit(
                old(self).cache(),
                proof_leaf_hashes(object_proofs@),
            ) ==> exists|k: UnitsObjectId|
                #![trigger final(self).cache().dom().contains(k)]
                k.bytes@ == leaves_key(proof_leaf_hashes(object_proofs@)) && final(self).cache().dom().contains(k) && final(self).cache() == old(
                    self,
                ).cache().insert(
                    k,
                    MerkleNode {
                        hash: final(self).cache()[k].hash,
                        is_left: false,
                    },
                ),
    {
        let mut leaves: Vec<MerkleNode> = Vec::new();
        let mut object_ids: Vec<UnitsObjectId> = Vec::new();
        let mut i: usize = 0;
        while i < object_proofs.len()
            invariant
                i <= object_proofs@.len(),
                leaves@.len() == i,
                object_ids@.len() == i,
                forall|t: int|
                    0 <= t < i ==> (#[trigger] leaves@[t]).hash@ == sha256_digest(leaf_bytes(object_proofs@[t])),
                forall|t: int| 0 <= t < i ==> #[trigger] object_ids@[t] == object_proofs@[t].object_id,
            decreases object_proofs@.len() - i,
        {
            leaves.push(self.proof_to_merkle_node(&object_proofs[i]));
            object_ids.push(object_proofs[i].object_id);
            i = i + 1;
        }
        assert(node_hashes(leaves@) =~= proof_leaf_hashes(object_proofs@));
        assert(object_ids@ =~= object_proofs@.map_values(|q: UnitsObjectProof| q.object_id));
        let ghost c0 = self.cache();
        let ghost h = node_hashes(leaves@);
        let merkle_root = self.compute_merkle_root(leaves.as_slice());
        proof {
            if h.len() >= 2 && !cache_hit(c0, h) {
                let k = choose|k: UnitsObjectId|
                    #![trigger self.cache().dom().contains(k)]
                    k.bytes@ == leaves_key(h) && self.cache().dom().contains(k) && self.cache() == c0.insert(
                        k,
                        MerkleNode { hash: merkle_root, is_left: false },
                    );
                assert(self.cache().dom().contains(k));
            }
        }
        let proof_data = self.sign_state_proof(&merkle_root, &previous_slot_hash);
        Ok(StateProof::new(slot, proof_data, object_ids, None))
    }
}

/// A proof's object and leaf hash.
pub open spec fn proof_leaf() -> spec_fn(UnitsObjectProof) -> (UnitsObjectId, Seq<u8>) {
    |q: UnitsObjectProof| (q.object_id, sha256_digest(leaf_bytes(q)))
}

/// The object and leaf hash of a keyed proof.
pub open spec fn entry_leaf() -> spec_fn((UnitsObjectId, UnitsObjectProof)) -> (UnitsObjectId, Seq<u8>) {
    |e: (UnitsObjectId, UnitsObjectProof)| (e.1.object_id, sha256_digest(leaf_bytes(e.1)))
}

/// The objects and leaf hashes of a receipt's proofs, in the order it holds them.
pub open spec fn receipt_leaves() -> spec_fn(TransactionReceipt) -> Seq<(UnitsObjectId, Seq<u8>)> {
    |t: TransactionReceipt| t.object_proofs.entries().map_values(entry_leaf())
}


/// `p` is the proof of effect `e` of the transaction `tx` in `slot`: it
/// commits to the state after, is signed over the states before and after,
/// names the transaction and links to no earlier proof.
pub open spec fn effect_proof(p: UnitsObjectProof, e: TransactionEffect, tx: TransactionHash, slot: u64) -> bool {
    &&& p.object_id == e.object_id
    &&& p.slot == slot
    &&& p.object_hash@ == opt_state_hash(e.after_image)
    &&& p.proof_data@ == change_signature(opt_state_hash(e.before_image), p.object_hash@)
    &&& p.prev_proof_hash is None
    &&& p.transaction_hash == Some(tx)
}

/// Effect `j` is the last of `effects` on object `k`.
pub open spec fn last_effect_on(effects: Seq<TransactionEffect>, k: UnitsObjectId, j: int) -> bool {
    &&& 0 <= j < effects.len()
    &&& effects[j].object_id == k
    &&& forall|j2: int| j < j2 < effects.len() ==> effects[j2].object_id != k
}

impl ProofGenerator {
    /// The proofs of a receipt's effects, one per object changed (a later
    /// effect on the same object replacing an earlier one's proof), each made
    /// for the receipt's transaction and slot.
    pub fn generate_transaction_proofs(&self, receipt: &TransactionReceipt) -> (r: Result<
        IdMap<UnitsObjectProof>,
        ServiceError,
    >)
        ensures
            r matches Ok(m) && m@.dom() == receipt.effects@.map_values(|e: TransactionEffect| e.object_id).to_set()
                && forall|k: UnitsObjectId| #[trigger]
                m@.dom().contains(k) ==> exists|j: int|
                last_effect_on(receipt.effects@, k, j) && effect_proof(
                    m@[k],
                    receipt.effects@[j],
                    receipt.transaction_hash,
                    receipt.slot,
                ),
    {
        let mut proofs: IdMap<UnitsObjectProof> = IdMap::new();
        let mut i: usize = 0;
        while i < receipt.effects.len()
            invariant
                i <= receipt.effects@.len(),
                proofs@.dom() == receipt.effects@.take(i as int).map_values(
                    |e: TransactionEffect| e.object_id,
                ).to_set(),
                forall|k: UnitsObjectId| #[trigger]
                    proofs@.dom().contains(k) ==> exists|j: int|
                        last_effect_on(receipt.effects@.take(i as int), k, j) && effect_proof(
                            proofs@[k],
                            receipt.effects@[j],
                            receipt.transaction_hash,
                            receipt.slot,
                        ),
            decreases receipt.effects@.len() - i,
        {
            let effect = &receipt.effects[i];
            let previous_state = match &effect.before_image {
                Some(o) => Some(o),
                None => None,
            };
            let new_state = match &effect.after_image {
                Some(o) => Some(o),
                None => None,
            };
            let proof = match self.generate_object_proof(
                &effect.object_id,
                previous_state,
                new_state,
                receipt.transaction_hash,
                receipt.slot,
            ) {
                Ok(p) => p,
                Err(e) => {
                    return Err(e);
                },
            };
            let ghost before = proofs@;
            proofs.insert(effect.object_id, proof);
            proof {
                let es = receipt.effects@;
                assert(effect_proof(proof, es[i as int], receipt.transaction_hash, receipt.slot));
                assert forall|k: UnitsObjectId| #[trigger] proofs@.dom().contains(k) implies exists|j: int|
                    last_effect_on(es.take(i + 1), k, j) && effect_proof(
                        proofs@[k],
                        es[j],
                        receipt.transaction_hash,
                        receipt.slot,
                    ) by {
                    if k == effect.object_id {
                        assert(last_effect_on(es.take(i + 1), k, i as int));
                    } else {
                        assert(before.dom().contains(k));
                        let j = choose|j: int|
                            last_effect_on(es.take(i as int), k, j) && effect_proof(
                                before[k],
                                es[j],
                                receipt.transaction_hash,
                                receipt.slot,
                            );
                        assert(last_effect_on(es.take(i + 1), k, j));
                    }
                }
                let f = |e: TransactionEffect| e.object_id;
                assert(receipt.effects@.take(i + 1).map_values(f) =~= receipt.effects@.take(i as int).map_values(
                    f,
                ).push(effect.object_id));
                assert(receipt.effects@.take(i as int).map_values(f).push(effect.object_id).to_set()
                    =~= receipt.effects@.take(i as int).map_values(f).to_set().insert(effect.object_id)) by {
                    broadcast use vstd::seq_lib::group_seq_properties;
                }
            }
            i = i + 1;
        }
        proof {
            assert(receipt.effects@.take(receipt.effects@.len() as int) =~= receipt.effects@);
        }
        Ok(proofs)
    }

    /// The object proofs of a slot's receipts, receipt after receipt, each
    /// receipt's in the order it holds them.
    pub fn collect_slot_proofs(&self, receipts: &Vec<TransactionReceipt>) -> (r: Vec<UnitsObjectProof>)
        ensures
            r@.map_values(proof_leaf()) == receipts@.map_values(receipt_leaves()).flatten(),
    {
        let ghost f = proof_leaf();
        let ghost g = entry_leaf();
        let ghost h = receipt_leaves();
        let mut out: Vec<UnitsObjectProof> = Vec::new();
        let mut i: usize = 0;
        while i < receipts.len()
            invariant
                i <= receipts@.len(),
                f == proof_leaf(),
                g == entry_leaf(),
                h == receipt_leaves(),
                out@.map_values(f) == receipts@.take(i as int).map_values(h).flatten(),
            decreases receipts@.len() - i,
        {
            let receipt = &receipts[i];
            let ghost before = out@.map_values(f);
            let n = receipt.object_proofs.len();
            let mut k: usize = 0;
            while k < n
                invariant
                    k <= n,
                    f == proof_leaf(),
                    g == entry_leaf(),
                    n == receipt.object_proofs.entries().len(),
                    out@.map_values(f) == before + receipt.object_proofs.entries().take(k as int).map_values(g),
                decreases n - k,
            {
                let entry = receipt.object_proofs.entry(k);
                let q = copy_object_proof(&entry.1);
                let ghost out_before = out@;
                out.push(q);
                proof {
                    assert(*entry == receipt.object_proofs.entries()[k as int]);
                    assert(leaf_bytes(q) == leaf_bytes(entry.1));
                    assert(f(q) == g(receipt.object_proofs.entries()[k as int]));
                    assert(out@.map_values(f) =~= out_before.map_values(f).push(f(q)));
                    assert(receipt.object_proofs.entries().take(k + 1).map_values(g) =~= receipt.object_proofs.entries().take(
                        k as int,
                    ).map_values(g).push(g(receipt.object_proofs.entries()[k as int])));
                    assert(out@.map_values(f) =~= before + receipt.object_proofs.entries().take(k + 1).map_values(g));
                }
                k = k + 1;
            }
            proof {
                assert(receipt.object_proofs.entries().take(n as int) =~= receipt.object_proofs.entries());
                assert(receipts@.take(i + 1).map_values(h) =~= receipts@.take(i as int).map_values(h).push(
                    h(receipts@[i as int]),
                ));
                receipts@.take(i as int).map_values(h).lemma_flatten_push(h(receipts@[i as int]));
                assert(h(receipts@[i as int]) == receipt.object_proofs.entries().map_values(g));
                assert(out@.map_values(f) == receipts@.take(i + 1).map_values(h).flatten());
            }
            i = i + 1;
        }
        proof {
            assert(receipts@.take(receipts@.len() as int) =~= receipts@);
        }
        out
    }
}

/// The objects and leaf hashes of the proofs of a slot's receipts, receipt
/// after receipt.
pub open spec fn slot_leaves(receipts: Seq<TransactionReceipt>) -> Seq<(UnitsObjectId, Seq<u8>)> {
    receipts.map_values(receipt_leaves()).flatten()
}

impl ProofGenerator {
    /// The state proof that finalizing slot `slot` stores: the slot proof over
    /// the object proofs of its receipts, after a previous slot hash of zero
    /// bytes.
    pub fn finalize_slot(&mut self, slot: u64, receipts: &Vec<TransactionReceipt>) -> (r: Result<
        StateProof,
        ServiceError,
    >)
        ensures
            r matches Ok(p) && {
                &&& p.slot == slot
                &&& p.object_ids@ == slot_leaves(receipts@).map_values(|x: (UnitsObjectId, Seq<u8>)| x.0)
                &&& p.proof_data@ == slot_signature(
                    cached_root(
                        old(self).cache(),
                        slot_leaves(receipts@).map_values(|x: (UnitsObjectId, Seq<u8>)| x.1),
                    ),
                    zero_hash(),
                )
                &&& p.prev_state_proof_hash is None
            },
    {
        let all_proofs = self.collect_slot_proofs(receipts);
        let ghost leaves = slot_leaves(receipts@);
        proof {
            let f = proof_leaf();
            assert(all_proofs@.map_values(|q: UnitsObjectProof| q.object_id) =~= leaves.map_values(
                |x: (UnitsObjectId, Seq<u8>)| x.0,
            )) by {
                assert forall|i: int| 0 <= i < all_proofs@.len() implies #[trigger] all_proofs@[i].object_id == leaves[i].0 by {
                    assert(all_proofs@.map_values(f)[i] == leaves[i]);
                }
            }
            assert(proof_leaf_hashes(all_proofs@) =~= leaves.map_values(|x: (UnitsObjectId, Seq<u8>)| x.1)) by {
                assert forall|i: int| 0 <= i < all_proofs@.len() implies #[trigger] proof_leaf_hashes(all_proofs@)[i]
                    == leaves[i].1 by {
                    assert(all_proofs@.map_values(f)[i] == leaves[i]);
                }
            }
        }
        let zero = [0u8; 32];
        assert(zero@ =~= zero_hash());
        self.generate_slot_proof(slot, &all_proofs, zero)
    }
}

} // verus!
