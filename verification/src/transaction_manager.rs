//! Transaction management: executing, storing and committing transactions,
//! filtering their history, and the context a transaction executes in.
use vstd::prelude::*;
use crate::id::UnitsObjectId;
use crate::id_map::{map_of, IdMap};
use crate::objects::UnitsObject;
use crate::proofs::types::{StorageError, UnitsObjectProof};
use crate::runtime::RuntimeError;
use crate::transaction::{
    CommitmentLevel, ConflictResult, Transaction, TransactionEffect, TransactionHash, TransactionReceipt,
};

verus! {

/// Centralized transaction management.
pub trait TransactionManager {
    /// Execute a transaction and return a receipt.
    fn execute_transaction(&self, transaction: &Transaction) -> Result<TransactionReceipt, RuntimeError>;

    /// Execute transactions one after another, stopping at the first error.
    /// Each receipt is what executing its transaction gave; an error is what
    /// executing some transaction gave, after all before it succeeded.
    fn execute_transaction_batch(&self, transactions: &[Transaction]) -> (r: Result<
        Vec<TransactionReceipt>,
        RuntimeError,
    >)
        ensures
            transactions@.len() == 0 ==> (r matches Ok(v) && v@.len() == 0),
            r matches Ok(v) ==> v@.len() == transactions@.len() && forall|i: int|
                0 <= i < v@.len() ==> call_ensures(
                    Self::execute_transaction,
                    (self, &transactions@[i]),
                    Ok::<TransactionReceipt, RuntimeError>(#[trigger] v@[i]),
                ),
            r matches Err(e) ==> exists|i: int, done: Seq<TransactionReceipt>|
                #![trigger transactions@[i], done.len()]
                0 <= i < transactions@.len() && done.len() == i && call_ensures(
                    Self::execute_transaction,
                    (self, &transactions@[i]),
                    Err::<TransactionReceipt, RuntimeError>(e),
                ) && forall|j: int|
                    0 <= j < i ==> call_ensures(
                        Self::execute_transaction,
                        (self, &transactions@[j]),
                        Ok::<TransactionReceipt, RuntimeError>(#[trigger] done[j]),
                    ),
    {
        let mut receipts: Vec<TransactionReceipt> = Vec::new();
        let mut i: usize = 0;
        while i < transactions.len()
            invariant
                i <= transactions@.len(),
                receipts@.len() == i,
                forall|j: int|
                    0 <= j < i ==> call_ensures(
                        Self::execute_transaction,
                        (self, &transactions@[j]),
                        Ok::<TransactionReceipt, RuntimeError>(#[trigger] receipts@[j]),
                    ),
            decreases transactions@.len() - i,
        {
            let execute = Self::execute_transaction;
            let result = execute(self, &transactions[i]);
            assert(call_ensures(Self::execute_transaction, (self, &transactions@[i as int]), result));
            match result {
                Ok(receipt) => receipts.push(receipt),
                Err(e) => {
                    assert(call_ensures(
                        Self::execute_transaction,
                        (self, &transactions@[i as int]),
                        Err::<TransactionReceipt, RuntimeError>(e),
                    ));
                    assert(receipts@.len() == i);
                    return Err(e);
                },
            }
            i = i + 1;
        }
        Ok(receipts)
    }

    /// Store a transaction.
    fn store_transaction(&self, transaction: &Transaction) -> Result<(), StorageError>;

    /// Get a transaction by its hash.
    fn get_transaction(&self, hash: &TransactionHash) -> Result<Option<Transaction>, StorageError>;

    /// Store a transaction receipt.
    fn store_receipt(&self, receipt: &TransactionReceipt) -> Result<(), StorageError>;

    /// Get a transaction receipt by its hash.
    fn get_receipt(&self, hash: &TransactionHash) -> Result<Option<TransactionReceipt>, StorageError>;

    /// Update a transaction's commitment level.
    fn update_commitment_level(&self, hash: &TransactionHash, level: CommitmentLevel) -> Result<(), RuntimeError>;

    /// Commit a transaction: raise it to the committed level.
    fn commit_transaction(&self, hash: &TransactionHash) -> (r: Result<(), RuntimeError>) {
        self.update_commitment_level(hash, CommitmentLevel::Committed)
    }

    /// Mark a transaction as failed.
    fn fail_transaction(&self, hash: &TransactionHash) -> (r: Result<(), RuntimeError>) {
        self.update_commitment_level(hash, CommitmentLevel::Failed)
    }

    /// Roll back a transaction, if possible.
    fn rollback_transaction(&self, hash: &TransactionHash) -> Result<bool, RuntimeError>;

    /// Check for conflicts with pending transactions.
    fn check_conflicts(&self, transaction: &Transaction) -> Result<ConflictResult, RuntimeError>;

    /// Execute a transaction unless it conflicts; a conflict is an error
    /// naming the transaction. The outcome is what executing gave when the
    /// conflict check allows it, and the refusal otherwise.
    fn try_execute_transaction(&self, transaction: &Transaction) -> (r: Result<TransactionReceipt, RuntimeError>)
        ensures
            exists|check: Result<ConflictResult, RuntimeError>, d: Result<(), RuntimeError>|
                #![trigger manager_conflict_decided(check, transaction.hash, d)]
                call_ensures(Self::check_conflicts, (self, transaction), check) && manager_conflict_decided(
                    check,
                    transaction.hash,
                    d,
                ) && match d {
                    Ok(_) => call_ensures(Self::execute_transaction, (self, transaction), r),
                    Err(e) => r == Err::<TransactionReceipt, RuntimeError>(e),
                },
    {
        let check_fn = Self::check_conflicts;
        let check = check_fn(self, transaction);
        let ghost checked = check;
        let d = manager_conflict_decision(check, transaction.hash);
        let ghost decided = d;
        assert(manager_conflict_decided(checked, transaction.hash, decided));
        match d {
            Ok(_) => {
                let execute_fn = Self::execute_transaction;
                execute_fn(self, transaction)
            },
            Err(e) => Err(e),
        }
    }

    /// All transactions of an object.
    fn get_transactions_for_object(&self, id: &UnitsObjectId) -> Result<Vec<TransactionHash>, StorageError>;

    /// All transactions of a slot.
    fn get_transactions_in_slot(&self, slot: u64) -> Result<Vec<TransactionHash>, StorageError>;

    /// Transaction history, filtered.
    fn get_transaction_history(&self, filter: TransactionFilter) -> Result<
        Vec<(TransactionHash, TransactionReceipt)>,
        StorageError,
    >;
}

/// `r` is the manager's decision on a conflict check of the transaction
/// `hash`: without conflicts or read-only it may execute; a conflict is an
/// error naming the transaction; a failed check is that failure.
pub open spec fn manager_conflict_decided(
    check: Result<ConflictResult, RuntimeError>,
    hash: TransactionHash,
    r: Result<(), RuntimeError>,
) -> bool {
    match check {
        Ok(ConflictResult::NoConflict) => r is Ok,
        Ok(ConflictResult::ReadOnly) => r is Ok,
        Ok(ConflictResult::Conflict(_)) => r matches Err(RuntimeError::TransactionConflict(h, v)) && h == hash
            && v@.len() == 0,
        Err(e) => r == Err::<(), RuntimeError>(e),
    }
}

/// Whether a transaction may execute after the manager's conflict check:
/// without conflicts or read-only it may; a conflict is an error naming the
/// transaction; a failed check is that failure.
pub fn manager_conflict_decision(check: Result<ConflictResult, RuntimeError>, hash: TransactionHash) -> (r: Result<
    (),
    RuntimeError,
>)
    ensures
        manager_conflict_decided(check, hash, r),
{
    match check {
        Ok(ConflictResult::NoConflict) => Ok(()),
        Ok(ConflictResult::ReadOnly) => Ok(()),
        Ok(ConflictResult::Conflict(_)) => Err(RuntimeError::TransactionConflict(hash, Vec::new())),
        Err(e) => Err(e),
    }
}

/// Filter criteria for querying transaction history.
#[derive(Debug, Clone)]
pub struct TransactionFilter {
    /// Filter by object IDs
    pub object_ids: Option<Vec<UnitsObjectId>>,
    /// Filter by slot range
    pub start_slot: Option<u64>,
    pub end_slot: Option<u64>,
    /// Filter by commitment level
    pub commitment_level: Option<CommitmentLevel>,
    /// Filter by success status
    pub success_only: bool,
    /// Maximum number of results
    pub limit: Option<usize>,
}

impl Default for TransactionFilter {
    /// A filter that lets everything through.
    fn default() -> (f: Self)
        ensures
            f.object_ids is None,
            f.start_slot is None,
            f.end_slot is None,
            f.commitment_level is None,
            !f.success_only,
            f.limit is None,
    {
        TransactionFilter {
            object_ids: None,
            start_slot: None,
            end_slot: None,
            commitment_level: None,
            success_only: false,
            limit: None,
        }
    }
}

/// The identifiers a filter selects on, none when it selects on no object.
pub open spec fn filter_ids(o: Option<Vec<UnitsObjectId>>) -> Seq<UnitsObjectId> {
    match o {
        Some(v) => v@,
        None => Seq::empty(),
    }
}

impl TransactionFilter {
    /// A filter that lets everything through.
    pub fn new() -> (f: Self)
        ensures
            f.object_ids is None,
            f.start_slot is None,
            f.end_slot is None,
            f.commitment_level is None,
            !f.success_only,
            f.limit is None,
    {
        Self::default()
    }

    /// Also select on the object `id`.
    pub fn with_object(self, id: UnitsObjectId) -> (f: Self)
        ensures
            f.object_ids matches Some(v) && v@ == filter_ids(self.object_ids).push(id),
            f.start_slot == self.start_slot,
            f.end_slot == self.end_slot,
            f.commitment_level == self.commitment_level,
            f.success_only == self.success_only,
            f.limit == self.limit,
    {
        let mut ids = match self.object_ids {
            Some(v) => v,
            None => Vec::new(),
        };
        ids.push(id);
        TransactionFilter { object_ids: Some(ids), ..self }
    }

    /// Select the slots from `start` to `end`.
    pub fn with_slot_range(self, start: u64, end: u64) -> (f: Self)
        ensures
            f.start_slot == Some(start),
            f.end_slot == Some(end),
            f.object_ids == self.object_ids,
            f.commitment_level == self.commitment_level,
            f.success_only == self.success_only,
            f.limit == self.limit,
    {
        TransactionFilter { start_slot: Some(start), end_slot: Some(end), ..self }
    }

    /// Select a commitment level.
    pub fn with_commitment_level(self, level: CommitmentLevel) -> (f: Self)
        ensures
            f.commitment_level == Some(level),
            f.object_ids == self.object_ids,
            f.start_slot == self.start_slot,
            f.end_slot == self.end_slot,
            f.success_only == self.success_only,
            f.limit == self.limit,
    {
        TransactionFilter { commitment_level: Some(level), ..self }
    }

    /// Select successful transactions only.
    pub fn success_only(self) -> (f: Self)
        ensures
            f.success_only,
            f.object_ids == self.object_ids,
            f.start_slot == self.start_slot,
            f.end_slot == self.end_slot,
            f.commitment_level == self.commitment_level,
            f.limit == self.limit,
    {
        TransactionFilter { success_only: true, ..self }
    }

    /// Limit the number of results.
    pub fn with_limit(self, limit: usize) -> (f: Self)
        ensures
            f.limit == Some(limit),
            f.object_ids == self.object_ids,
            f.start_slot == self.start_slot,
            f.end_slot == self.end_slot,
            f.commitment_level == self.commitment_level,
            f.success_only == self.success_only,
    {
        TransactionFilter { limit: Some(limit), ..self }
    }
}

/// The state of a transaction while it executes.
pub struct TransactionContext {
    /// The transaction being executed
    pub transaction: Transaction,
    /// Current slot number
    pub slot: u64,
    /// Objects affected by this transaction
    pub objects: IdMap<UnitsObject>,
    /// Proofs generated during execution
    pub proofs: IdMap<UnitsObjectProof>,
    /// Effects of the transaction
    pub effects: Vec<TransactionEffect>,
    /// Whether the transaction has been rolled back
    pub rolled_back: bool,
}

impl TransactionContext {
    /// The context of a transaction about to execute in `slot`.
    pub fn new(transaction: Transaction, slot: u64) -> (c: Self)
        ensures
            c.transaction == transaction,
            c.slot == slot,
            c.objects@ == Map::<UnitsObjectId, UnitsObject>::empty(),
            c.proofs@ == Map::<UnitsObjectId, UnitsObjectProof>::empty(),
            c.effects@.len() == 0,
            !c.rolled_back,
    {
        TransactionContext {
            transaction,
            slot,
            objects: IdMap::new(),
            proofs: IdMap::new(),
            effects: Vec::new(),
            rolled_back: false,
        }
    }

    /// Add an object, under its identifier.
    pub fn add_object(&mut self, object: UnitsObject)
        ensures
            final(self).objects@ == old(self).objects@.insert(object.id, object),
            final(self).proofs@ == old(self).proofs@,
            final(self).effects@ == old(self).effects@,
            final(self).rolled_back == old(self).rolled_back,
            final(self).transaction == old(self).transaction,
            final(self).slot == old(self).slot,
    {
        self.objects.insert(object.id, object);
    }

    /// Add the proof of an object.
    pub fn add_proof(&mut self, id: UnitsObjectId, proof: UnitsObjectProof)
        ensures
            final(self).proofs@ == old(self).proofs@.insert(id, proof),
            final(self).objects@ == old(self).objects@,
            final(self).effects@ == old(self).effects@,
            final(self).rolled_back == old(self).rolled_back,
            final(self).transaction == old(self).transaction,
            final(self).slot == old(self).slot,
    {
        self.proofs.insert(id, proof);
    }

    /// Add an effect.
    pub fn add_effect(&mut self, effect: TransactionEffect)
        ensures
            final(self).effects@ == old(self).effects@.push(effect),
            final(self).objects@ == old(self).objects@,
            final(self).proofs@ == old(self).proofs@,
            final(self).rolled_back == old(self).rolled_back,
            final(self).transaction == old(self).transaction,
            final(self).slot == old(self).slot,
    {
        self.effects.push(effect);
    }

    /// Mark the transaction as rolled back.
    pub fn rollback(&mut self)
        ensures
            final(self).rolled_back,
            final(self).objects@ == old(self).objects@,
            final(self).proofs@ == old(self).proofs@,
            final(self).effects@ == old(self).effects@,
    {
        self.rolled_back = true;
    }

    /// The receipt of the transaction: its hash and slot, the outcome and
    /// time given, the proofs and effects gathered, and the processing level
    /// when it succeeded or the failed level when it did not.
    pub fn into_receipt(self, success: bool, timestamp: u64) -> (r: TransactionReceipt)
        ensures
            r.transaction_hash == self.transaction.hash,
            r.slot == self.slot,
            r.success == success,
            r.timestamp == timestamp,
            r.object_proofs@ == self.proofs@,
            r.effects@ == self.effects@,
            r.commitment_level == (if success {
                CommitmentLevel::Processing
            } else {
                CommitmentLevel::Failed
            }),
            r.error_message is None,
    {
        let mut receipt = TransactionReceipt::new(self.transaction.hash, self.slot, success, timestamp);
        let ghost all = self.proofs.entries();
        let mut rest = self.proofs.into_entries();
        let ghost mut i: int = 0;
        assert(all.take(0) =~= Seq::<(UnitsObjectId, UnitsObjectProof)>::empty());
        while rest.len() > 0
            invariant
                0 <= i <= all.len(),
                rest@ == all.skip(i),
                receipt.object_proofs@ == map_of(all.take(i)),
                receipt.error_message is None,
                receipt.transaction_hash == self.transaction.hash,
                receipt.slot == self.slot,
                receipt.success == success,
                receipt.timestamp == timestamp,
            decreases rest@.len(),
        {
            let ghost before = rest@;
            let (id, proof) = rest.remove(0);
            proof {
                assert(all.skip(i)[0] == (id, proof));
                assert(all.take(i + 1).drop_last() =~= all.take(i));
                assert(rest@ =~= all.skip(i + 1));
            }
            receipt.add_proof(id, proof);
            proof {
                i = i + 1;
            }
        }
        proof {
            assert(all.take(i) =~= all);
        }
        receipt.effects = self.effects;
        receipt.commitment_level = if success {
            CommitmentLevel::Processing
        } else {
            CommitmentLevel::Failed
        };
        receipt
    }
}

} // verus!
