//! The node service behind the JSON-RPC API: its pool of submitted
//! transactions, the receipts it answers, and its health. The storage it
//! reads objects from and the runtime it holds stay with whoever runs it.
use vstd::prelude::*;
use crate::id::UnitsObjectId;
use crate::id_map::IdMap;
use crate::services::{HealthStatus, ServiceError};
use crate::services::transaction_service::tx_key;
use crate::text::{hex_chars, hex_encode};
use crate::transaction::{
    copy_transaction, same_transaction, CommitmentLevel, Transaction, TransactionHash, TransactionReceipt,
};

verus! {

/// The hash every submitted transaction is filed under: zero bytes.
pub open spec fn filing_hash() -> TransactionHash {
    vstd::array::spec_array_fill_for_copy_type::<u8, 32>(0)
}

/// The node service's pool of submitted transactions.
pub struct UnitsService {
    transaction_pool: IdMap<Transaction>,
}

impl UnitsService {
    /// The submitted transactions, by key of the hash they are filed under.
    pub closed spec fn pool(&self) -> Map<UnitsObjectId, Transaction> {
        self.transaction_pool@
    }

    /// A service with no submitted transactions.
    pub fn new() -> (s: Self)
        ensures
            s.pool() == Map::<UnitsObjectId, Transaction>::empty(),
    {
        UnitsService { transaction_pool: IdMap::new() }
    }

    /// Submit a transaction: one without instructions is refused; any other
    /// is filed under zero bytes, in place of the one filed before, and its
    /// own hash is answered.
    pub fn submit_transaction(&mut self, transaction: Transaction) -> (r: Result<TransactionHash, ServiceError>)
        ensures
            transaction.instructions@.len() == 0 ==> final(self).pool() == old(self).pool() && (r matches Err(
                ServiceError::InvalidRequest { message },
            ) && message@ == "Transaction has no instructions"@),
            transaction.instructions@.len() > 0 ==> final(self).pool() == old(self).pool().insert(
                tx_key(filing_hash()),
                transaction,
            ) && r == Ok::<TransactionHash, ServiceError>(transaction.hash),
    {
        let tx_hash = [0u8; 32];
        proof {
            broadcast use vstd::array::axiom_spec_array_fill_for_copy_type;
            assert(tx_hash == filing_hash());
        }
        if transaction.instructions.len() == 0 {
            return Err(ServiceError::invalid_request("Transaction has no instructions".to_owned()));
        }
        let own_hash = transaction.hash;
        self.transaction_pool.insert(UnitsObjectId::new(tx_hash), transaction);
        Ok(own_hash)
    }

    /// A copy of the transaction filed under `tx_hash`; a missing one is
    /// named by the hash in hexadecimal.
    pub fn get_transaction(&self, tx_hash: &TransactionHash) -> (r: Result<Transaction, ServiceError>)
        ensures
            match r {
                Ok(t) => self.pool().dom().contains(tx_key(*tx_hash)) && same_transaction(
                    t,
                    self.pool()[tx_key(*tx_hash)],
                ),
                Err(e) => !self.pool().dom().contains(tx_key(*tx_hash)) && (e matches ServiceError::ObjectNotFound {
                    object_id,
                } && object_id@ == hex_chars(tx_hash@)),
            },
    {
        match self.transaction_pool.get(&UnitsObjectId::new(*tx_hash)) {
            Some(t) => Ok(copy_transaction(t)),
            None => Err(ServiceError::object_not_found(hex_encode(tx_hash))),
        }
    }

    /// The receipt answered for the transaction filed under `tx_hash`, made
    /// at `timestamp`: a committed success in slot 1 with no effects or
    /// proofs. A missing transaction is named by the hash in hexadecimal.
    pub fn execute_transaction(&self, tx_hash: &TransactionHash, timestamp: u64) -> (r: Result<
        TransactionReceipt,
        ServiceError,
    >)
        ensures
            !self.pool().dom().contains(tx_key(*tx_hash)) ==> (r matches Err(ServiceError::ObjectNotFound { object_id })
                && object_id@ == hex_chars(tx_hash@)),
            self.pool().dom().contains(tx_key(*tx_hash)) ==> (r matches Ok(t) && {
                &&& t.transaction_hash == *tx_hash
                &&& t.slot == 1
                &&& t.timestamp == timestamp
                &&& t.success
                &&& t.effects@.len() == 0
                &&& t.object_proofs@ == Map::<UnitsObjectId, crate::proofs::types::UnitsObjectProof>::empty()
                &&& t.commitment_level == CommitmentLevel::Committed
                &&& t.error_message is None
            }),
    {
        match self.get_transaction(tx_hash) {
            Ok(_) => {},
            Err(e) => {
                return Err(e);
            },
        }
        Ok(TransactionReceipt {
            transaction_hash: *tx_hash,
            slot: 1,
            timestamp,
            success: true,
            effects: Vec::new(),
            object_proofs: IdMap::new(),
            commitment_level: CommitmentLevel::Committed,
            error_message: None,
        })
    }

    /// The current slot: the service does not advance slots, so 0.
    pub fn get_current_slot(&self) -> (r: Result<u64, ServiceError>)
        ensures
            r == Ok::<u64, ServiceError>(0),
    {
        Ok(0)
    }

    /// The number of objects: no count is kept, so 0.
    pub fn get_object_count(&self) -> (r: Result<u64, ServiceError>)
        ensures
            r == Ok::<u64, ServiceError>(0),
    {
        Ok(0)
    }

    /// The service's health: healthy, at the current slot 0, no objects
    /// counted, and the number of submitted transactions.
    pub fn health_check(&self) -> (r: Result<HealthStatus, ServiceError>)
        ensures
            r matches Ok(h) && h.status@ == "healthy"@ && h.slot == 0 && h.object_count == 0
                && h.pending_transactions == self.pool().len(),
    {
        let n = self.transaction_pool.len();
        Ok(HealthStatus { status: "healthy".to_owned(), slot: 0, object_count: 0, pending_transactions: n as u64 })
    }
}

} // verus!
