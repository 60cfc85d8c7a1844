use units_core::id::UnitsObjectId;
use units_core::proofs::types::StorageError;
use units_core::runtime::RuntimeError;
use units_core::transaction::{
    CommitmentLevel, ConflictResult, Transaction, TransactionHash, TransactionReceipt,
};
use units_core::transaction_manager::{TransactionFilter, TransactionManager};

/// A manager that refuses transactions whose hash starts with 0xEE and
/// reports a conflict for those whose hash starts with 0xCC.
struct Ledger;

impl TransactionManager for Ledger {
    fn execute_transaction(&self, transaction: &Transaction) -> Result<TransactionReceipt, RuntimeError> {
        if transaction.hash[0] == 0xEE {
            Err(RuntimeError::Unimplemented("refused".to_string()))
        } else {
            Ok(TransactionReceipt::new(transaction.hash, 7, true, 99))
        }
    }

    fn store_transaction(&self, _transaction: &Transaction) -> Result<(), StorageError> {
        Ok(())
    }

    fn get_transaction(&self, _hash: &TransactionHash) -> Result<Option<Transaction>, StorageError> {
        Ok(None)
    }

    fn store_receipt(&self, _receipt: &TransactionReceipt) -> Result<(), StorageError> {
        Ok(())
    }

    fn get_receipt(&self, _hash: &TransactionHash) -> Result<Option<TransactionReceipt>, StorageError> {
        Ok(None)
    }

    fn update_commitment_level(&self, _hash: &TransactionHash, _level: CommitmentLevel) -> Result<(), RuntimeError> {
        Ok(())
    }

    fn rollback_transaction(&self, _hash: &TransactionHash) -> Result<bool, RuntimeError> {
        Ok(false)
    }

    fn check_conflicts(&self, transaction: &Transaction) -> Result<ConflictResult, RuntimeError> {
        if transaction.hash[0] == 0xCC {
            Ok(ConflictResult::Conflict(vec![[9u8; 32]]))
        } else {
            Ok(ConflictResult::NoConflict)
        }
    }

    fn get_transactions_for_object(&self, _id: &UnitsObjectId) -> Result<Vec<TransactionHash>, StorageError> {
        Ok(Vec::new())
    }

    fn get_transactions_in_slot(&self, _slot: u64) -> Result<Vec<TransactionHash>, StorageError> {
        Ok(Vec::new())
    }

    fn get_transaction_history(
        &self,
        _filter: TransactionFilter,
    ) -> Result<Vec<(TransactionHash, TransactionReceipt)>, StorageError> {
        Ok(Vec::new())
    }
}

fn tx(first: u8) -> Transaction {
    let mut hash = [1u8; 32];
    hash[0] = first;
    Transaction::new(Vec::new(), hash)
}

#[test]
fn batch_of_nothing_succeeds_empty() {
    let receipts = Ledger.execute_transaction_batch(&[]).unwrap();
    assert!(receipts.is_empty());
}

#[test]
fn batch_gives_each_receipt_in_order() {
    let receipts = Ledger.execute_transaction_batch(&[tx(1), tx(2), tx(3)]).unwrap();
    assert_eq!(receipts.len(), 3);
    assert_eq!(receipts[0].transaction_hash[0], 1);
    assert_eq!(receipts[1].transaction_hash[0], 2);
    assert_eq!(receipts[2].transaction_hash[0], 3);
    assert_eq!(receipts[2].slot, 7);
}

#[test]
fn batch_stops_at_first_error() {
    let r = Ledger.execute_transaction_batch(&[tx(1), tx(0xEE), tx(3)]);
    assert!(matches!(r, Err(RuntimeError::Unimplemented(ref m)) if m == "refused"));
}

#[test]
fn try_execute_runs_without_conflict() {
    let receipt = Ledger.try_execute_transaction(&tx(4)).unwrap();
    assert_eq!(receipt.transaction_hash[0], 4);
    assert!(receipt.success);
}

#[test]
fn try_execute_refuses_a_conflict_naming_the_transaction() {
    let t = tx(0xCC);
    match Ledger.try_execute_transaction(&t) {
        Err(RuntimeError::TransactionConflict(h, objects)) => {
            assert_eq!(h, t.hash);
            assert!(objects.is_empty());
        }
        _ => panic!("expected a conflict"),
    }
}

#[test]
fn try_execute_passes_on_the_execution_error() {
    let r = Ledger.try_execute_transaction(&tx(0xEE));
    assert!(matches!(r, Err(RuntimeError::Unimplemented(_))));
}
