use vstd::prelude::*;
use crate::id::UnitsObjectId;
use crate::id_map::{keys_distinct, lemma_map_of_index, map_of, IdMap};
use crate::kernel::copy_object;
use crate::objects::UnitsObject;
use crate::vm_executor::same_image;
use crate::proofs::types::UnitsObjectProof;

verus! {

/// Transaction hash type (32-byte array).
pub type TransactionHash = [u8; 32];

/// The result of a transaction conflict check.
#[derive(Debug, Clone, PartialEq, Eq)]
pub enum ConflictResult {
    /// No conflicts detected, transaction can proceed
    NoConflict,
    /// Conflicts detected with these transaction hashes
    Conflict(Vec<TransactionHash>),
    /// Read-only transaction, no conflict possible
    ReadOnly,
}

/// The commitment level of a transaction.
#[derive(Debug, Clone, Copy, PartialEq, Eq, Structural)]
pub enum CommitmentLevel {
    /// In-flight, can be rolled back
    Processing,
    /// Committed, cannot be rolled back
    Committed,
    /// Failed, cannot be executed again
    Failed,
}

impl Default for CommitmentLevel {
    fn default() -> (r: Self)
        ensures
            r == CommitmentLevel::Processing,
    {
        CommitmentLevel::Processing
    }
}

/// The runtime environment for program execution.
#[derive(Debug, Clone, Copy, PartialEq, Eq, Hash, Structural)]
pub enum RuntimeType {
    /// WebAssembly virtual machine
    Wasm,
    /// eBPF virtual machine
    Ebpf,
}

impl Default for RuntimeType {
    fn default() -> (r: Self)
        ensures
            r == RuntimeType::Wasm,
    {
        RuntimeType::Wasm
    }
}

/// Standard entrypoint name used across all runtimes.
pub const STANDARD_ENTRYPOINT: &'static str = "main";

/// A call into a controller entrypoint with a target function.
#[derive(Debug, Clone)]
pub struct Instruction {
    /// The controller kernel module to execute
    pub controller_id: UnitsObjectId,
    /// Target function name within the controller
    pub target_function: String,
    /// Objects this instruction will read or modify
    pub target_objects: Vec<UnitsObjectId>,
    /// Parameters for the function call
    pub params: Vec<u8>,
}

impl Instruction {
    /// Create a new instruction.
    pub fn new(
        controller_id: UnitsObjectId,
        target_function: String,
        target_objects: Vec<UnitsObjectId>,
        params: Vec<u8>,
    ) -> (r: Self)
        ensures
            r.controller_id == controller_id,
            r.target_function == target_function,
            r.target_objects == target_objects,
            r.params == params,
    {
        Instruction { controller_id, target_function, target_objects, params }
    }

    /// All target objects of this instruction.
    pub fn target_objects(&self) -> (r: &[UnitsObjectId])
        ensures
            r@ == self.target_objects@,
    {
        self.target_objects.as_slice()
    }

    /// The controller ID of this instruction.
    pub fn controller_id(&self) -> (r: &UnitsObjectId)
        ensures
            *r == self.controller_id,
    {
        &self.controller_id
    }

    /// The target function name.
    pub fn target_function(&self) -> (r: &str)
        ensures
            r@ == self.target_function@,
    {
        self.target_function.as_str()
    }

    /// The parameters of this instruction.
    pub fn params(&self) -> (r: &[u8])
        ensures
            r@ == self.params@,
    {
        self.params.as_slice()
    }
}

/// Two instructions with the same controller, function, targets and parameters.
pub open spec fn same_instruction(a: Instruction, b: Instruction) -> bool {
    &&& a.controller_id == b.controller_id
    &&& a.target_function@ == b.target_function@
    &&& a.target_objects@ == b.target_objects@
    &&& a.params@ == b.params@
}

/// Two transactions with the same instructions, hash and commitment level.
pub open spec fn same_transaction(a: Transaction, b: Transaction) -> bool {
    &&& a.instructions@.len() == b.instructions@.len()
    &&& forall|i: int| 0 <= i < a.instructions@.len() ==> same_instruction(#[trigger] a.instructions@[i], b.instructions@[i])
    &&& a.hash == b.hash
    &&& a.commitment_level == b.commitment_level
}

/// A copy of an instruction.
pub fn copy_instruction(i: &Instruction) -> (r: Instruction)
    ensures
        same_instruction(r, *i),
{
    let target_objects = i.target_objects.clone();
    let params = i.params.clone();
    proof {
        assert forall|k: int| 0 <= k < params@.len() implies params@[k] == i.params@[k] by {
            assert(cloned(i.params@[k], params@[k]));
        }
        assert forall|k: int| 0 <= k < target_objects@.len() implies target_objects@[k] == i.target_objects@[k] by {
            assert(cloned(i.target_objects@[k], target_objects@[k]));
        }
        assert(params@ =~= i.params@);
        assert(target_objects@ =~= i.target_objects@);
    }
    Instruction {
        controller_id: i.controller_id,
        target_function: i.target_function.clone(),
        target_objects,
        params,
    }
}

/// A copy of a transaction.
pub fn copy_transaction(t: &Transaction) -> (r: Transaction)
    ensures
        same_transaction(r, *t),
{
    let mut instructions: Vec<Instruction> = Vec::new();
    let mut i: usize = 0;
    while i < t.instructions.len()
        invariant
            i <= t.instructions@.len(),
            instructions@.len() == i,
            forall|k: int| 0 <= k < i ==> same_instruction(#[trigger] instructions@[k], t.instructions@[k]),
        decreases t.instructions@.len() - i,
    {
        instructions.push(copy_instruction(&t.instructions[i]));
        i = i + 1;
    }
    Transaction { instructions, hash: t.hash, commitment_level: t.commitment_level }
}

/// A lock manager that transactions acquire object locks from.
pub trait PersistentLockManager {
    type Error;
}

/// A lock held on one object for the lifetime `'a` of the manager borrow.
pub struct ObjectLockGuard<'a, M> {
    pub manager: &'a M,
    pub object_id: UnitsObjectId,
}

/// A transaction: instructions executed together.
#[derive(Debug, Clone)]
pub struct Transaction {
    /// Instructions executed as part of this transaction
    pub instructions: Vec<Instruction>,
    /// The hash of the transaction
    pub hash: TransactionHash,
    /// The commitment level of this transaction
    pub commitment_level: CommitmentLevel,
}

impl Transaction {
    /// Create a new transaction at the Processing level.
    pub fn new(instructions: Vec<Instruction>, hash: TransactionHash) -> (t: Self)
        ensures
            t.instructions == instructions,
            t.hash == hash,
            t.commitment_level == CommitmentLevel::Processing,
    {
        Transaction { instructions, hash, commitment_level: CommitmentLevel::Processing }
    }

    /// Mark the transaction as committed.
    pub fn commit(&mut self)
        ensures
            final(self).commitment_level == CommitmentLevel::Committed,
            final(self).instructions == old(self).instructions,
            final(self).hash == old(self).hash,
    {
        self.commitment_level = CommitmentLevel::Committed;
    }

    /// Mark the transaction as failed.
    pub fn fail(&mut self)
        ensures
            final(self).commitment_level == CommitmentLevel::Failed,
            final(self).instructions == old(self).instructions,
            final(self).hash == old(self).hash,
    {
        self.commitment_level = CommitmentLevel::Failed;
    }

    /// Whether the transaction can be rolled back: only while Processing.
    pub fn can_rollback(&self) -> (r: bool)
        ensures
            r == (self.commitment_level == CommitmentLevel::Processing),
    {
        self.commitment_level == CommitmentLevel::Processing
    }

    /// Acquire all locks needed for this transaction. Instructions carry no
    /// access intents, so no lock is needed and none is taken.
    pub fn acquire_locks<'a, M: PersistentLockManager>(&self, _lock_manager: &'a M) -> (r: Result<
        Vec<ObjectLockGuard<'a, M>>,
        M::Error,
    >)
        ensures
            r matches Ok(v) && v@.len() == 0,
    {
        Ok(Vec::new())
    }

    /// Execute the transaction while holding its locks: acquire them, run
    /// `exec_fn` on this transaction, release them.
    pub fn execute_with_locks<'a, M: PersistentLockManager, F, R>(
        &self,
        lock_manager: &'a M,
        exec_fn: F,
    ) -> (r: Result<R, M::Error>) where F: FnOnce(&Self) -> R
        requires
            call_requires(exec_fn, (self,)),
        ensures
            r matches Ok(v) && call_ensures(exec_fn, (self,), v),
    {
        let locks = self.acquire_locks(lock_manager);
        match locks {
            Ok(_held) => Ok(exec_fn(self)),
            Err(e) => Err(e),
        }
    }

    /// Locks held for in-memory execution in tests: none are needed.
    pub fn create_in_memory_locks<M: PersistentLockManager>(&self) -> (r: Vec<ObjectLockGuard<'static, M>>)
        ensures
            r@.len() == 0,
    {
        Vec::new()
    }

    /// Whether all locks needed for this transaction can be acquired: always.
    pub fn can_acquire_all_locks<M: PersistentLockManager>(&self, _lock_manager: &M) -> (r: Result<bool, M::Error>)
        ensures
            r matches Ok(b) && b,
    {
        Ok(true)
    }
}

/// The before and after state of an object in a transaction.
#[derive(Debug, Clone, PartialEq)]
pub struct TransactionEffect {
    /// The transaction that caused this effect
    pub transaction_hash: TransactionHash,
    /// The object affected
    pub object_id: UnitsObjectId,
    /// State before the transaction (None if the object was created)
    pub before_image: Option<UnitsObject>,
    /// State after the transaction (None if the object was deleted)
    pub after_image: Option<UnitsObject>,
}

/// Alias kept for callers that name effects by their object.
pub type ObjectEffect = TransactionEffect;

impl TransactionEffect {
    /// The transaction hash of this effect.
    pub fn transaction_hash(&self) -> (r: &TransactionHash)
        ensures
            *r == self.transaction_hash,
    {
        &self.transaction_hash
    }

    /// The object ID of this effect.
    pub fn object_id(&self) -> (r: &UnitsObjectId)
        ensures
            *r == self.object_id,
    {
        &self.object_id
    }

    /// An effect creating `object`.
    pub fn new_creation(transaction_hash: TransactionHash, object: UnitsObject) -> (e: Self)
        ensures
            e.transaction_hash == transaction_hash,
            e.object_id == object.id,
            e.before_image is None,
            e.after_image == Some(object),
    {
        let object_id = *object.id();
        TransactionEffect { transaction_hash, object_id, before_image: None, after_image: Some(object) }
    }

    /// An effect deleting `object`.
    pub fn new_deletion(transaction_hash: TransactionHash, object: UnitsObject) -> (e: Self)
        ensures
            e.transaction_hash == transaction_hash,
            e.object_id == object.id,
            e.before_image == Some(object),
            e.after_image is None,
    {
        let object_id = *object.id();
        TransactionEffect { transaction_hash, object_id, before_image: Some(object), after_image: None }
    }

    /// An effect changing `before` into `after`; it is filed under `after`'s id.
    pub fn new_modification(transaction_hash: TransactionHash, before: UnitsObject, after: UnitsObject) -> (e: Self)
        ensures
            e.transaction_hash == transaction_hash,
            e.object_id == after.id,
            e.before_image == Some(before),
            e.after_image == Some(after),
    {
        let object_id = *after.id();
        TransactionEffect {
            transaction_hash,
            object_id,
            before_image: Some(before),
            after_image: Some(after),
        }
    }

    /// Whether this effect creates its object.
    pub fn is_creation(&self) -> (r: bool)
        ensures
            r == (self.before_image is None && self.after_image is Some),
    {
        self.before_image.is_none() && self.after_image.is_some()
    }

    /// Whether this effect deletes its object.
    pub fn is_deletion(&self) -> (r: bool)
        ensures
            r == (self.before_image is Some && self.after_image is None),
    {
        self.before_image.is_some() && self.after_image.is_none()
    }

    /// Whether this effect modifies its object.
    pub fn is_modification(&self) -> (r: bool)
        ensures
            r == (self.before_image is Some && self.after_image is Some),
    {
        self.before_image.is_some() && self.after_image.is_some()
    }
}

/// Every effect is at most one of creation, deletion and modification.
pub proof fn lemma_effect_kinds_exclusive(e: TransactionEffect)
    ensures
        !((e.before_image is None && e.after_image is Some) && (e.before_image is Some
            && e.after_image is None)),
        !((e.before_image is None && e.after_image is Some) && (e.before_image is Some
            && e.after_image is Some)),
        !((e.before_image is Some && e.after_image is None) && (e.before_image is Some
            && e.after_image is Some)),
{
}

/// A receipt of a processed transaction.
pub struct TransactionReceipt {
    /// The hash of the transaction that was executed
    pub transaction_hash: TransactionHash,
    /// The slot in which this transaction was processed
    pub slot: u64,
    /// Proofs of the objects after the transaction
    pub object_proofs: IdMap<UnitsObjectProof>,
    /// Whether the transaction was executed successfully
    pub success: bool,
    /// Timestamp when the transaction was processed
    pub timestamp: u64,
    /// The commitment level of this transaction
    pub commitment_level: CommitmentLevel,
    /// Error message of an unsuccessful execution
    pub error_message: Option<String>,
    /// Effects of the transaction on objects
    pub effects: Vec<TransactionEffect>,
}

impl TransactionReceipt {
    /// A new receipt: Committed if successful, Failed otherwise; no proofs or effects.
    pub fn new(transaction_hash: TransactionHash, slot: u64, success: bool, timestamp: u64) -> (r: Self)
        ensures
            r.transaction_hash == transaction_hash,
            r.slot == slot,
            r.success == success,
            r.timestamp == timestamp,
            r.commitment_level == (if success {
                CommitmentLevel::Committed
            } else {
                CommitmentLevel::Failed
            }),
            r.object_proofs@ == Map::<UnitsObjectId, UnitsObjectProof>::empty(),
            r.error_message is None,
            r.effects@.len() == 0,
    {
        TransactionReceipt {
            transaction_hash,
            slot,
            object_proofs: IdMap::new(),
            success,
            timestamp,
            commitment_level: if success {
                CommitmentLevel::Committed
            } else {
                CommitmentLevel::Failed
            },
            error_message: None,
            effects: Vec::new(),
        }
    }

    /// A new receipt with a given commitment level; no proofs or effects.
    pub fn with_commitment_level(
        transaction_hash: TransactionHash,
        slot: u64,
        success: bool,
        timestamp: u64,
        commitment_level: CommitmentLevel,
    ) -> (r: Self)
        ensures
            r.transaction_hash == transaction_hash,
            r.slot == slot,
            r.success == success,
            r.timestamp == timestamp,
            r.commitment_level == commitment_level,
            r.object_proofs@ == Map::<UnitsObjectId, UnitsObjectProof>::empty(),
            r.error_message is None,
            r.effects@.len() == 0,
    {
        TransactionReceipt {
            transaction_hash,
            slot,
            object_proofs: IdMap::new(),
            success,
            timestamp,
            commitment_level,
            error_message: None,
            effects: Vec::new(),
        }
    }

    /// Record the proof of an object, replacing any earlier one for it.
    pub fn add_proof(&mut self, object_id: UnitsObjectId, proof: UnitsObjectProof)
        ensures
            final(self).object_proofs@ == old(self).object_proofs@.insert(object_id, proof),
            final(self).effects == old(self).effects,
            final(self).success == old(self).success,
            final(self).commitment_level == old(self).commitment_level,
            final(self).transaction_hash == old(self).transaction_hash,
            final(self).slot == old(self).slot,
            final(self).timestamp == old(self).timestamp,
            final(self).error_message == old(self).error_message,
    {
        self.object_proofs.insert(object_id, proof);
    }

    /// Append an effect.
    pub fn add_effect(&mut self, effect: TransactionEffect)
        ensures
            final(self).effects@ == old(self).effects@.push(effect),
            final(self).object_proofs@ == old(self).object_proofs@,
            final(self).success == old(self).success,
            final(self).commitment_level == old(self).commitment_level,
    {
        self.effects.push(effect);
    }

    /// Append an effect built from its parts.
    pub fn add_object_effect(
        &mut self,
        transaction_hash: TransactionHash,
        object_id: UnitsObjectId,
        before_image: Option<UnitsObject>,
        after_image: Option<UnitsObject>,
    )
        ensures
            final(self).effects@ == old(self).effects@.push(
                TransactionEffect { transaction_hash, object_id, before_image, after_image },
            ),
            final(self).object_proofs@ == old(self).object_proofs@,
            final(self).success == old(self).success,
            final(self).commitment_level == old(self).commitment_level,
    {
        let effect = TransactionEffect { transaction_hash, object_id, before_image, after_image };
        self.effects.push(effect);
    }

    /// Record a failure with its message.
    pub fn set_error(&mut self, error: String)
        ensures
            !final(self).success,
            final(self).commitment_level == CommitmentLevel::Failed,
            final(self).error_message == Some(error),
            final(self).effects == old(self).effects,
            final(self).object_proofs@ == old(self).object_proofs@,
            final(self).transaction_hash == old(self).transaction_hash,
            final(self).slot == old(self).slot,
            final(self).timestamp == old(self).timestamp,
    {
        self.success = false;
        self.commitment_level = CommitmentLevel::Failed;
        self.error_message = Some(error);
    }

    /// Mark the transaction as committed.
    pub fn commit(&mut self)
        ensures
            final(self).commitment_level == CommitmentLevel::Committed,
            final(self).success == old(self).success,
            final(self).effects == old(self).effects,
    {
        self.commitment_level = CommitmentLevel::Committed;
    }

    /// Mark the transaction as failed.
    pub fn fail(&mut self)
        ensures
            !final(self).success,
            final(self).commitment_level == CommitmentLevel::Failed,
            final(self).effects == old(self).effects,
            final(self).error_message == old(self).error_message,
    {
        self.success = false;
        self.commitment_level = CommitmentLevel::Failed;
    }

    /// Whether the transaction can be rolled back: only while Processing.
    pub fn can_rollback(&self) -> (r: bool)
        ensures
            r == (self.commitment_level == CommitmentLevel::Processing),
    {
        self.commitment_level == CommitmentLevel::Processing
    }

    /// The number of objects with a proof in this receipt.
    pub fn object_count(&self) -> (n: usize)
        ensures
            n as nat == self.object_proofs@.dom().len(),
    {
        self.object_proofs.len()
    }

    /// The number of effects.
    pub fn effect_count(&self) -> (n: usize)
        ensures
            n as nat == self.effects@.len(),
    {
        self.effects.len()
    }
}

/// Two effects on the same object by the same transaction with the same states.
pub open spec fn same_effect(a: TransactionEffect, b: TransactionEffect) -> bool {
    &&& a.transaction_hash == b.transaction_hash
    &&& a.object_id == b.object_id
    &&& same_image(a.before_image, b.before_image)
    &&& same_image(a.after_image, b.after_image)
}

/// Two proofs with the same fields, their data taken by content.
pub open spec fn same_proof(a: UnitsObjectProof, b: UnitsObjectProof) -> bool {
    &&& a.object_id == b.object_id
    &&& a.slot == b.slot
    &&& a.object_hash == b.object_hash
    &&& a.prev_proof_hash == b.prev_proof_hash
    &&& a.transaction_hash == b.transaction_hash
    &&& a.proof_data@ == b.proof_data@
}

/// The text of an optional message, if any.
pub open spec fn opt_text(m: Option<String>) -> Option<Seq<char>> {
    match m {
        Some(s) => Some(s@),
        None => None,
    }
}

/// Two receipts that say the same: the same transaction, slot, outcome,
/// time, level and message, the same proofs by object and the same effects
/// in the same order.
pub open spec fn same_receipt(a: TransactionReceipt, b: TransactionReceipt) -> bool {
    &&& a.transaction_hash == b.transaction_hash
    &&& a.slot == b.slot
    &&& a.success == b.success
    &&& a.timestamp == b.timestamp
    &&& a.commitment_level == b.commitment_level
    &&& opt_text(a.error_message) == opt_text(b.error_message)
    &&& a.object_proofs@.dom() == b.object_proofs@.dom()
    &&& forall|k: UnitsObjectId| #[trigger]
        a.object_proofs@.dom().contains(k) ==> same_proof(a.object_proofs@[k], b.object_proofs@[k])
    &&& a.effects@.len() == b.effects@.len()
    &&& forall|i: int| 0 <= i < a.effects@.len() ==> same_effect(#[trigger] a.effects@[i], b.effects@[i])
}

fn copy_state(o: &Option<UnitsObject>) -> (r: Option<UnitsObject>)
    ensures
        same_image(r, *o),
{
    match o {
        Some(x) => Some(copy_object(x)),
        None => None,
    }
}

/// A copy of an effect.
pub fn copy_effect(e: &TransactionEffect) -> (r: TransactionEffect)
    ensures
        same_effect(r, *e),
{
    TransactionEffect {
        transaction_hash: e.transaction_hash,
        object_id: e.object_id,
        before_image: copy_state(&e.before_image),
        after_image: copy_state(&e.after_image),
    }
}

/// A copy of a proof.
pub fn copy_object_proof(p: &UnitsObjectProof) -> (r: UnitsObjectProof)
    ensures
        same_proof(r, *p),
{
    UnitsObjectProof {
        object_id: p.object_id,
        slot: p.slot,
        object_hash: p.object_hash,
        prev_proof_hash: p.prev_proof_hash,
        transaction_hash: p.transaction_hash,
        proof_data: vstd::slice::slice_to_vec(p.proof_data.as_slice()),
    }
}

/// A copy of a receipt.
pub fn copy_receipt(r: &TransactionReceipt) -> (c: TransactionReceipt)
    ensures
        same_receipt(c, *r),
{
    let mut proofs: IdMap<UnitsObjectProof> = IdMap::new();
    let n = r.object_proofs.len();
    proof {
        use_type_invariant(&r.object_proofs);
        r.object_proofs.lemma_inv();
    }
    let ghost es = r.object_proofs.entries();
    let mut i: usize = 0;
    while i < n
        invariant
            n == es.len(),
            es == r.object_proofs.entries(),
            keys_distinct(es),
            i <= n,
            proofs@.dom() == map_of(es.take(i as int)).dom(),
            forall|k: UnitsObjectId| #[trigger]
                proofs@.dom().contains(k) ==> same_proof(proofs@[k], r.object_proofs@[k]),
        decreases n - i,
    {
        let e = r.object_proofs.entry(i);
        proof {
            lemma_map_of_index(es, i as int);
            assert(es.take(i + 1).drop_last() =~= es.take(i as int));
        }
        proofs.insert(e.0, copy_object_proof(&e.1));
        proof {
            assert(map_of(es.take(i + 1)).dom() =~= map_of(es.take(i as int)).dom().insert(es[i as int].0));
        }
        i = i + 1;
    }
    proof {
        assert(es.take(n as int) =~= es);
    }
    let mut effects: Vec<TransactionEffect> = Vec::new();
    let mut j: usize = 0;
    while j < r.effects.len()
        invariant
            j <= r.effects@.len(),
            effects@.len() == j,
            forall|t: int| 0 <= t < j ==> same_effect(#[trigger] effects@[t], r.effects@[t]),
        decreases r.effects@.len() - j,
    {
        effects.push(copy_effect(&r.effects[j]));
        j = j + 1;
    }
    let error_message = match &r.error_message {
        Some(m) => Some(m.clone()),
        None => None,
    };
    TransactionReceipt {
        transaction_hash: r.transaction_hash,
        slot: r.slot,
        object_proofs: proofs,
        success: r.success,
        timestamp: r.timestamp,
        commitment_level: r.commitment_level,
        error_message,
        effects,
    }
}

} // verus!
