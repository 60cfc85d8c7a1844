//! The runtime's interfaces: executing transactions and instructions,
//! managing transactions, querying their history, and verifying proofs.
use vstd::prelude::*;
use crate::id::UnitsObjectId;
use crate::id_map::{map_of, IdMap};
use crate::kernel::copy_object;
use crate::text::{hex_chars, hex_encode, push_str};
use crate::objects::{spec_vm_type, UnitsObject, VMType};
use crate::proofs::types::{StateProof, StorageError, UnitsObjectProof, VerificationResult};
use crate::transaction::{
    CommitmentLevel, ConflictResult, Instruction, Transaction, TransactionEffect, TransactionHash,
    TransactionReceipt,
};
use crate::vm_executor::{ExecutionContext, ObjectEffect, VMExecutionError, VMExecutor};

verus! {

/// Runtime errors.
#[derive(Debug, Clone)]
pub enum RuntimeError {
    /// The operation is not supported by this runtime
    Unimplemented(String),
    /// The transaction conflicts with others on these objects
    TransactionConflict(TransactionHash, Vec<UnitsObjectId>),
}

/// The text of a runtime error: what is not supported, or the transaction
/// that conflicts.
pub open spec fn runtime_error_text(e: RuntimeError) -> Seq<char> {
    match e {
        RuntimeError::Unimplemented(m) => "Unimplemented: "@ + m@,
        RuntimeError::TransactionConflict(h, _) => "Transaction conflict: "@ + hex_chars(h@),
    }
}

impl RuntimeError {
    /// The text of this error.
    pub fn message(&self) -> (s: String)
        ensures
            s@ == runtime_error_text(*self),
    {
        match self {
            RuntimeError::Unimplemented(m) => {
                let mut s = "Unimplemented: ".to_owned();
                push_str(&mut s, m.as_str());
                s
            },
            RuntimeError::TransactionConflict(h, _) => {
                let mut s = "Transaction conflict: ".to_owned();
                let x = hex_encode(h);
                push_str(&mut s, x.as_str());
                s
            },
        }
    }
}

/// The name a VM type is written with.
pub fn vm_type_name(t: VMType) -> (s: String)
    ensures
        s@ == (match t {
            VMType::RiscV => "RiscV"@,
        }),
{
    match t {
        VMType::RiscV => "RiscV".to_owned(),
    }
}

/// `r` is the decision on a conflict check: without conflicts or read-only
/// the transaction may execute; a conflict is answered with its objects; a
/// failed check is answered with a conflict on no object.
pub open spec fn conflict_decided(check: Result<ConflictResult, RuntimeError>, r: Result<(), ConflictResult>) -> bool {
    match check {
        Ok(ConflictResult::NoConflict) => r is Ok,
        Ok(ConflictResult::ReadOnly) => r is Ok,
        Ok(ConflictResult::Conflict(v)) => r matches Err(ConflictResult::Conflict(w)) && w@ == v@,
        Err(_) => r matches Err(ConflictResult::Conflict(w)) && w@.len() == 0,
    }
}

/// Whether a transaction may execute after its conflict check: without
/// conflicts or read-only it may; a conflict is answered; a failed check
/// counts as a conflict with nothing named.
pub fn conflict_decision(check: Result<ConflictResult, RuntimeError>) -> (r: Result<(), ConflictResult>)
    ensures
        conflict_decided(check, r),
{
    match check {
        Ok(ConflictResult::NoConflict) => Ok(()),
        Ok(ConflictResult::ReadOnly) => Ok(()),
        Ok(ConflictResult::Conflict(v)) => Err(ConflictResult::Conflict(v)),
        Err(_) => Err(ConflictResult::Conflict(Vec::new())),
    }
}

/// Core verification capabilities that all runtimes provide.
pub trait Verifier {
    /// Verify a single object proof against its current state.
    fn verify_object_proof(&self, object: &UnitsObject, proof: &UnitsObjectProof) -> VerificationResult;

    /// Verify a chain of proofs for an object across multiple slots.
    fn verify_proof_chain(
        &self,
        object_states: &[(u64, UnitsObject)],
        proofs: &[(u64, UnitsObjectProof)],
    ) -> VerificationResult;

    /// Verify a state proof for multiple objects.
    fn verify_state_proof(
        &self,
        state_proof: &StateProof,
        object_proofs: &IdMap<UnitsObjectProof>,
    ) -> VerificationResult;

    /// Verify the integrity of a transaction receipt.
    fn verify_transaction_receipt(
        &self,
        receipt: &TransactionReceipt,
        objects: &IdMap<UnitsObject>,
    ) -> VerificationResult;

    /// Verify that a transaction is included in a collection of receipts.
    fn verify_transaction_included(
        &self,
        transaction_hash: &[u8; 32],
        receipts: &[TransactionReceipt],
    ) -> VerificationResult;

    /// Detect the same object modified by several transactions of a slot.
    fn detect_double_spend(&self, object_id: &UnitsObjectId, receipts: &[TransactionReceipt]) -> VerificationResult;
}

/// Runtime for executing transactions and programs.
pub trait Runtime {
    /// The kind of verifier this runtime provides.
    type RuntimeVerifier;

    /// The VM executor for a VM type, if this runtime has one.
    fn get_vm_executor(&self, vm_type: VMType) -> Option<Box<dyn VMExecutor>>;

    /// Execute a transaction and return a transaction receipt with proofs.
    fn execute_transaction(&self, transaction: Transaction) -> TransactionReceipt;

    /// Execute a transaction unless it conflicts: a conflict, or a failed
    /// check, is answered with the conflict.
    fn try_execute_transaction(&self, transaction: Transaction) -> (r: Result<TransactionReceipt, ConflictResult>)
        ensures
            r is Ok || r matches Err(ConflictResult::Conflict(_)),
            exists|check: Result<ConflictResult, RuntimeError>, d: Result<(), ConflictResult>|
                #![trigger conflict_decided(check, d)]
                call_ensures(Self::check_conflicts, (self, &transaction), check) && conflict_decided(check, d)
                    && match d {
                    Ok(_) => r matches Ok(receipt) && call_ensures(Self::execute_transaction, (self, transaction), receipt),
                    Err(c) => r == Err::<TransactionReceipt, ConflictResult>(c),
                },
    {
        let check_fn = Self::check_conflicts;
        let check = check_fn(self, &transaction);
        let ghost checked = check;
        let d = conflict_decision(check);
        let ghost decided = d;
        match d {
            Ok(_) => {
                let execute_fn = Self::execute_transaction;
                let receipt = execute_fn(self, transaction);
                assert(conflict_decided(checked, decided));
                Ok(receipt)
            },
            Err(conflict) => {
                assert(conflict_decided(checked, decided));
                Err(conflict)
            },
        }
    }

    /// Check for potential conflicts with pending or recent transactions; by
    /// default there are none.
    fn check_conflicts(&self, transaction: &Transaction) -> (r: Result<ConflictResult, RuntimeError>) {
        Ok(ConflictResult::NoConflict)
    }

    /// Execute an instruction with the program of its controller: the
    /// controller must be among the objects and executable, and this runtime
    /// must have an executor for its VM type.
    fn execute_instruction(
        &self,
        instruction: &Instruction,
        objects: IdMap<UnitsObject>,
        slot: u64,
        timestamp: u64,
    ) -> (r: Result<Vec<ObjectEffect>, VMExecutionError>)
        ensures
            !objects@.dom().contains(instruction.controller_id) ==> (r matches Err(
                VMExecutionError::InvalidBytecode(m),
            ) && m@ == "Controller object not found"@),
            objects@.dom().contains(instruction.controller_id) && spec_vm_type(
                objects@[instruction.controller_id].object_type,
            ) is None ==> (r matches Err(VMExecutionError::InvalidBytecode(m)) && m@
                == "Controller is not executable"@),
    {
        let controller = match objects.get(&instruction.controller_id) {
            Some(c) => copy_object(c),
            None => {
                return Err(VMExecutionError::InvalidBytecode("Controller object not found".to_owned()));
            },
        };
        let vm_type = match controller.vm_type() {
            Some(t) => t,
            None => {
                return Err(VMExecutionError::InvalidBytecode("Controller is not executable".to_owned()));
            },
        };
        let executor = match self.get_vm_executor(vm_type) {
            Some(e) => e,
            None => {
                return Err(VMExecutionError::UnsupportedVMType(vm_type_name(vm_type)));
            },
        };
        let context = ExecutionContext::new(instruction.clone(), objects, slot, timestamp);
        executor.load_and_execute(controller.data(), &context)
    }

    /// Get a transaction by its hash.
    fn get_transaction(&self, hash: &TransactionHash) -> Option<Transaction>;

    /// Get a transaction receipt by its hash.
    fn get_transaction_receipt(&self, hash: &TransactionHash) -> Option<TransactionReceipt>;

    /// Roll back a previously executed transaction.
    fn rollback_transaction(&self, transaction_hash: &TransactionHash) -> Result<bool, RuntimeError>;

    /// Update a transaction's commitment level; by default not supported.
    fn update_commitment_level(
        &self,
        transaction_hash: &TransactionHash,
        commitment_level: CommitmentLevel,
    ) -> (r: Result<(), RuntimeError>) {
        Err(RuntimeError::Unimplemented("Updating commitment level not supported".to_owned()))
    }

    /// Commit a transaction: raise it to the committed level.
    fn commit_transaction(&self, transaction_hash: &TransactionHash) -> (r: Result<(), RuntimeError>) {
        self.update_commitment_level(transaction_hash, CommitmentLevel::Committed)
    }

    /// Mark a transaction as failed.
    fn fail_transaction(&self, transaction_hash: &TransactionHash) -> (r: Result<(), RuntimeError>) {
        self.update_commitment_level(transaction_hash, CommitmentLevel::Failed)
    }

    /// The verifier of this runtime.
    fn get_verifier(&self) -> &Self::RuntimeVerifier where Self::RuntimeVerifier: Verifier;
}

} // verus!
