//! The transaction pool and the bookkeeping of submitted transactions: what
//! waits for execution, what was executed, and which slot the transactions
//! are executed in.
use vstd::prelude::*;
use crate::id::{byte_list, push_byte_list, UnitsObjectId};
use crate::id_map::IdMap;
use crate::services::{rejected_with, transaction_valid, validate_transaction, PoolStats, ServiceError};
use crate::text::{hex_chars, hex_encode, push_str};
use crate::transaction::{
    copy_transaction, same_transaction, ConflictResult, Instruction, Transaction, TransactionHash,
    TransactionReceipt,
};

verus! {

/// The key under which the transaction with hash `h`, and its receipt, are kept.
pub open spec fn tx_key(h: TransactionHash) -> UnitsObjectId {
    UnitsObjectId { bytes: h }
}

/// How adding transaction `t` changes a pool's waiting transactions `old` to
/// `new` under the limit `max`: a full pool stays as it is, any other files
/// `t` under its hash.
pub open spec fn pool_add(
    old: Map<UnitsObjectId, Transaction>,
    new: Map<UnitsObjectId, Transaction>,
    t: Transaction,
    max: usize,
) -> bool {
    if old.len() >= max {
        new == old
    } else {
        new == old.insert(tx_key(t.hash), t)
    }
}

/// A pool never holds more waiting transactions than its limit: adding to a
/// pool within its limit leaves it within.
pub proof fn lemma_pool_within_limit(
    old: Map<UnitsObjectId, Transaction>,
    new: Map<UnitsObjectId, Transaction>,
    t: Transaction,
    max: usize,
)
    requires
        old.dom().finite(),
        old.len() <= max,
        pool_add(old, new, t, max),
    ensures
        new.dom().finite(),
        new.len() <= max,
{
    if old.len() < max {
        if old.dom().contains(tx_key(t.hash)) {
            assert(new.dom() =~= old.dom());
        } else {
            assert(new.dom() =~= old.dom().insert(tx_key(t.hash)));
        }
    }
}

/// A transaction just added to a pool that did not hold its hash is taken
/// out again by removing its hash, which restores the pool.
pub proof fn lemma_add_then_remove_restores(
    old: Map<UnitsObjectId, Transaction>,
    new: Map<UnitsObjectId, Transaction>,
    t: Transaction,
    max: usize,
)
    requires
        pool_add(old, new, t, max),
        old.len() < max,
        !old.dom().contains(tx_key(t.hash)),
    ensures
        new.dom().contains(tx_key(t.hash)),
        new[tx_key(t.hash)] == t,
        new.remove(tx_key(t.hash)) == old,
{
    assert(new.remove(tx_key(t.hash)) =~= old);
}

/// A pool of transactions waiting for execution, and the receipts of those
/// executed, each kept under its transaction's hash.
pub struct TransactionPool {
    pending: IdMap<Transaction>,
    receipts: IdMap<TransactionReceipt>,
    max_pool_size: usize,
}

impl TransactionPool {
    /// The waiting transactions, by key of their hash.
    pub closed spec fn pending_map(&self) -> Map<UnitsObjectId, Transaction> {
        self.pending@
    }

    /// The receipts, by key of their transaction's hash.
    pub closed spec fn receipt_map(&self) -> Map<UnitsObjectId, TransactionReceipt> {
        self.receipts@
    }

    /// How many transactions may wait at once.
    pub closed spec fn max_size(&self) -> usize {
        self.max_pool_size
    }

    /// Each transaction and each receipt is kept under its own hash.
    #[verifier::type_invariant]
    closed spec fn keyed_by_hash(&self) -> bool {
        &&& forall|k: UnitsObjectId| #[trigger] self.pending@.dom().contains(k) ==> self.pending@[k].hash == k.bytes
        &&& forall|k: UnitsObjectId| #[trigger] self.receipts@.dom().contains(k) ==> self.receipts@[k].transaction_hash
            == k.bytes
    }

    /// An empty pool for at most `max_pool_size` waiting transactions.
    pub fn new(max_pool_size: usize) -> (p: Self)
        ensures
            p.pending_map() == Map::<UnitsObjectId, Transaction>::empty(),
            p.receipt_map() == Map::<UnitsObjectId, TransactionReceipt>::empty(),
            p.max_size() == max_pool_size,
    {
        TransactionPool { pending: IdMap::new(), receipts: IdMap::new(), max_pool_size }
    }

    /// Add a transaction to wait for execution, unless the pool is full; one
    /// with the hash of a waiting transaction takes its place.
    pub fn add_transaction(&mut self, transaction: Transaction) -> (r: Result<TransactionHash, ServiceError>)
        ensures
            final(self).receipt_map() == old(self).receipt_map(),
            final(self).max_size() == old(self).max_size(),
            pool_add(old(self).pending_map(), final(self).pending_map(), transaction, old(self).max_size()),
            old(self).pending_map().len() >= old(self).max_size() ==> (r matches Err(
                ServiceError::ServiceUnavailable { message },
            ) && message@ == "Transaction pool is full"@),
            old(self).pending_map().len() < old(self).max_size() ==> r == Ok::<TransactionHash, ServiceError>(
                transaction.hash,
            ),
    {
        proof {
            use_type_invariant(&*self);
        }
        let hash = transaction.hash;
        if self.pending.len() >= self.max_pool_size {
            return Err(ServiceError::service_unavailable("Transaction pool is full".to_owned()));
        }
        let mut pending = IdMap::new();
        std::mem::swap(&mut pending, &mut self.pending);
        pending.insert(UnitsObjectId::new(hash), transaction);
        self.pending = pending;
        Ok(hash)
    }

    /// A copy of the waiting transaction with hash `hash`, if there is one.
    pub fn get_transaction(&self, hash: &TransactionHash) -> (r: Option<Transaction>)
        ensures
            match r {
                Some(t) => self.pending_map().dom().contains(tx_key(*hash)) && same_transaction(
                    t,
                    self.pending_map()[tx_key(*hash)],
                ) && t.hash == *hash,
                None => !self.pending_map().dom().contains(tx_key(*hash)),
            },
    {
        proof {
            use_type_invariant(self);
        }
        match self.pending.get(&UnitsObjectId::new(*hash)) {
            Some(t) => Some(copy_transaction(t)),
            None => None,
        }
    }

    /// Take the waiting transaction with hash `hash` out of the pool.
    pub fn remove_transaction(&mut self, hash: &TransactionHash) -> (r: Option<Transaction>)
        ensures
            final(self).pending_map() == old(self).pending_map().remove(tx_key(*hash)),
            final(self).receipt_map() == old(self).receipt_map(),
            final(self).max_size() == old(self).max_size(),
            match r {
                Some(t) => old(self).pending_map().dom().contains(tx_key(*hash)) && t == old(
                    self,
                ).pending_map()[tx_key(*hash)],
                None => !old(self).pending_map().dom().contains(tx_key(*hash)),
            },
    {
        proof {
            use_type_invariant(&*self);
        }
        let mut pending = IdMap::new();
        std::mem::swap(&mut pending, &mut self.pending);
        let r = pending.remove(&UnitsObjectId::new(*hash));
        self.pending = pending;
        r
    }

    /// Copies of all waiting transactions, each once.
    pub fn get_pending_transactions(&self) -> (r: Vec<Transaction>)
        ensures
            r@.len() == self.pending_map().len(),
            forall|i: int|
                0 <= i < r@.len() ==> self.pending_map().dom().contains(tx_key(#[trigger] r@[i].hash))
                    && same_transaction(r@[i], self.pending_map()[tx_key(r@[i].hash)]),
            forall|i: int, j: int| 0 <= i < j < r@.len() ==> r@[i].hash != r@[j].hash,
    {
        proof {
            use_type_invariant(self);
            use_type_invariant(&self.pending);
            self.pending.lemma_inv();
        }
        let n = self.pending.len();
        let mut r: Vec<Transaction> = Vec::new();
        let mut i: usize = 0;
        while i < n
            invariant
                n == self.pending.entries().len(),
                n == self.pending@.dom().len(),
                i <= n,
                r@.len() == i,
                crate::id_map::keys_distinct(self.pending.entries()),
                forall|k: UnitsObjectId| #[trigger]
                    self.pending@.dom().contains(k) ==> self.pending@[k].hash == k.bytes,
                forall|j: int|
                    0 <= j < i ==> (#[trigger] r@[j]).hash == self.pending.entries()[j].0.bytes && same_transaction(
                        r@[j],
                        self.pending.entries()[j].1,
                    ) && self.pending.entries()[j].1.hash == r@[j].hash,
            decreases n - i,
        {
            let e = self.pending.entry(i);
            proof {
                crate::id_map::lemma_map_of_index(self.pending.entries(), i as int);
            }
            let t = copy_transaction(&e.1);
            r.push(t);
            i = i + 1;
        }
        proof {
            assert forall|j: int| 0 <= j < r@.len() implies self.pending_map().dom().contains(
                tx_key(#[trigger] r@[j].hash),
            ) && same_transaction(r@[j], self.pending_map()[tx_key(r@[j].hash)]) by {
                crate::id_map::lemma_map_of_index(self.pending.entries(), j);
                let k = self.pending.entries()[j].0;
                assert(k == tx_key(k.bytes));
            }
            assert forall|a: int, b: int| 0 <= a < b < r@.len() implies r@[a].hash != r@[b].hash by {
                let ka = self.pending.entries()[a].0;
                let kb = self.pending.entries()[b].0;
                assert(ka != kb);
                assert(ka == tx_key(ka.bytes));
                assert(kb == tx_key(kb.bytes));
            }
        }
        r
    }

    /// Keep the receipt of an executed transaction under its transaction's hash.
    pub fn store_receipt(&mut self, receipt: TransactionReceipt)
        ensures
            final(self).receipt_map() == old(self).receipt_map().insert(
                tx_key(receipt.transaction_hash),
                receipt,
            ),
            final(self).pending_map() == old(self).pending_map(),
            final(self).max_size() == old(self).max_size(),
    {
        proof {
            use_type_invariant(&*self);
        }
        let key = UnitsObjectId::new(receipt.transaction_hash);
        let mut receipts = IdMap::new();
        std::mem::swap(&mut receipts, &mut self.receipts);
        receipts.insert(key, receipt);
        self.receipts = receipts;
    }

    /// The receipt of the transaction with hash `hash`, if it was executed.
    pub fn get_receipt(&self, hash: &TransactionHash) -> (r: Option<&TransactionReceipt>)
        ensures
            match r {
                Some(t) => self.receipt_map().dom().contains(tx_key(*hash)) && *t == self.receipt_map()[tx_key(
                    *hash,
                )] && t.transaction_hash == *hash,
                None => !self.receipt_map().dom().contains(tx_key(*hash)),
            },
    {
        proof {
            use_type_invariant(self);
        }
        self.receipts.get(&UnitsObjectId::new(*hash))
    }

    /// How many transactions wait, how many receipts are kept, and the limit.
    pub fn get_stats(&self) -> (s: PoolStats)
        ensures
            s.pending_count == self.pending_map().len(),
            s.receipt_count == self.receipt_map().len(),
            s.max_pool_size == self.max_size(),
    {
        PoolStats {
            pending_count: self.pending.len(),
            receipt_count: self.receipts.len(),
            max_pool_size: self.max_pool_size,
        }
    }
}

/// The submitted transactions and the slot they are executed in.
pub struct TransactionService {
    pub pool: TransactionPool,
    pub slot_number: u64,
}

impl TransactionService {
    /// A service at slot 0 with an empty pool for `max_pool_size` transactions.
    pub fn new(max_pool_size: usize) -> (s: Self)
        ensures
            s.pool.pending_map() == Map::<UnitsObjectId, Transaction>::empty(),
            s.pool.receipt_map() == Map::<UnitsObjectId, TransactionReceipt>::empty(),
            s.pool.max_size() == max_pool_size,
            s.slot_number == 0,
    {
        TransactionService { pool: TransactionPool::new(max_pool_size), slot_number: 0 }
    }

    /// Submit a transaction: one that is not valid is refused with the error
    /// that names why; a valid one waits in the pool, if there is room.
    pub fn submit_transaction(&mut self, transaction: Transaction) -> (r: Result<TransactionHash, ServiceError>)
        ensures
            final(self).slot_number == old(self).slot_number,
            final(self).pool.receipt_map() == old(self).pool.receipt_map(),
            final(self).pool.max_size() == old(self).pool.max_size(),
            !transaction_valid(transaction) ==> final(self).pool.pending_map() == old(self).pool.pending_map()
                && (r matches Err(e) && rejected_with(transaction, e)),
            transaction_valid(transaction) && old(self).pool.pending_map().len() >= old(self).pool.max_size()
                ==> final(self).pool.pending_map() == old(self).pool.pending_map() && (r matches Err(
                ServiceError::ServiceUnavailable { message },
            ) && message@ == "Transaction pool is full"@),
            transaction_valid(transaction) && old(self).pool.pending_map().len() < old(self).pool.max_size()
                ==> final(self).pool.pending_map() == old(self).pool.pending_map().insert(
                tx_key(transaction.hash),
                transaction,
            ) && r == Ok::<TransactionHash, ServiceError>(transaction.hash),
    {
        match validate_transaction(&transaction) {
            Ok(_) => {},
            Err(e) => {
                return Err(e);
            },
        }
        self.pool.add_transaction(transaction)
    }

    /// A copy of the waiting transaction with hash `hash`; a missing one is
    /// named by its hash in hexadecimal.
    pub fn get_transaction(&self, hash: &TransactionHash) -> (r: Result<Transaction, ServiceError>)
        ensures
            match r {
                Ok(t) => self.pool.pending_map().dom().contains(tx_key(*hash)) && same_transaction(
                    t,
                    self.pool.pending_map()[tx_key(*hash)],
                ),
                Err(e) => !self.pool.pending_map().dom().contains(tx_key(*hash)) && (e matches ServiceError::ObjectNotFound {
                    object_id,
                } && object_id@ == hex_chars(hash@)),
            },
    {
        match self.pool.get_transaction(hash) {
            Some(t) => Ok(t),
            None => Err(ServiceError::object_not_found(hex_encode(hash))),
        }
    }

    /// The receipt of the transaction with hash `hash`; a missing one is
    /// named by its hash in hexadecimal.
    pub fn get_receipt(&self, hash: &TransactionHash) -> (r: Result<&TransactionReceipt, ServiceError>)
        ensures
            match r {
                Ok(t) => self.pool.receipt_map().dom().contains(tx_key(*hash)) && *t
                    == self.pool.receipt_map()[tx_key(*hash)],
                Err(e) => !self.pool.receipt_map().dom().contains(tx_key(*hash)) && (e matches ServiceError::ObjectNotFound {
                    object_id,
                } && object_id@ == hex_chars(hash@)),
            },
    {
        match self.pool.get_receipt(hash) {
            Some(t) => Ok(t),
            None => Err(ServiceError::object_not_found(hex_encode(hash))),
        }
    }

    /// A transaction was executed: it leaves the pool and its receipt is kept.
    pub fn record_executed(&mut self, hash: &TransactionHash, receipt: TransactionReceipt)
        ensures
            final(self).pool.pending_map() == old(self).pool.pending_map().remove(tx_key(*hash)),
            final(self).pool.receipt_map() == old(self).pool.receipt_map().insert(
                tx_key(receipt.transaction_hash),
                receipt,
            ),
            final(self).pool.max_size() == old(self).pool.max_size(),
            final(self).slot_number == old(self).slot_number,
    {
        self.pool.remove_transaction(hash);
        self.pool.store_receipt(receipt);
    }

    /// Move on to the next slot.
    pub fn advance_slot(&mut self) -> (r: Result<u64, ServiceError>)
        requires
            old(self).slot_number < u64::MAX,
        ensures
            final(self).slot_number == old(self).slot_number + 1,
            r == Ok::<u64, ServiceError>(final(self).slot_number),
            final(self).pool == old(self).pool,
    {
        self.slot_number = self.slot_number + 1;
        Ok(self.slot_number)
    }

    /// The current slot.
    pub fn current_slot(&self) -> (s: u64)
        ensures
            s == self.slot_number,
    {
        self.slot_number
    }

    /// Statistics of the pool.
    pub fn get_pool_stats(&self) -> (s: PoolStats)
        ensures
            s.pending_count == self.pool.pending_map().len(),
            s.receipt_count == self.pool.receipt_map().len(),
            s.max_pool_size == self.pool.max_size(),
    {
        self.pool.get_stats()
    }
}

/// The debug form of a hash: its bytes in decimal, in brackets.
pub open spec fn hash_debug(h: TransactionHash) -> Seq<char> {
    "["@ + byte_list(h@) + "]"@
}

/// The debug forms of hashes, separated by a comma and a space.
pub open spec fn hash_items(s: Seq<TransactionHash>) -> Seq<char>
    decreases s.len(),
{
    if s.len() == 0 {
        Seq::empty()
    } else if s.len() == 1 {
        hash_debug(s[0])
    } else {
        hash_items(s.drop_last()) + ", "@ + hash_debug(s.last())
    }
}

/// What a conflict check decides before a transaction is executed: a conflict
/// fails it, naming the hashes it conflicts with in their debug form.
pub open spec fn conflict_decision(c: ConflictResult, r: Result<(), ServiceError>) -> bool {
    match c {
        ConflictResult::Conflict(v) => r matches Err(ServiceError::TransactionFailed { reason }) && reason@
            == "Transaction conflicts with: ["@ + hash_items(v@) + "]"@,
        _ => r is Ok,
    }
}

/// Decide on the outcome of a conflict check.
pub fn check_conflict_result(c: &ConflictResult) -> (r: Result<(), ServiceError>)
    ensures
        conflict_decision(*c, r),
{
    match c {
        ConflictResult::Conflict(v) => {
            let mut reason = "Transaction conflicts with: [".to_owned();
            let ghost start = reason@;
            let mut i: usize = 0;
            while i < v.len()
                invariant
                    i <= v@.len(),
                    reason@ == start + hash_items(v@.take(i as int)),
                decreases v@.len() - i,
            {
                if i > 0 {
                    push_str(&mut reason, ", ");
                }
                push_str(&mut reason, "[");
                push_byte_list(&mut reason, &v[i]);
                push_str(&mut reason, "]");
                proof {
                    let t = v@.take(i + 1);
                    assert(t.drop_last() =~= v@.take(i as int));
                    if i == 0 {
                        assert(v@.take(0) =~= Seq::<TransactionHash>::empty());
                        assert(start + Seq::<char>::empty() =~= start);
                    }
                }
                i = i + 1;
            }
            push_str(&mut reason, "]");
            proof {
                assert(v@.take(v@.len() as int) =~= v@);
            }
            Err(ServiceError::TransactionFailed { reason })
        },
        _ => Ok(()),
    }
}

/// What loading the targets `ts` adds, in order, to the loads `l`: each
/// target not loaded yet.
pub open spec fn target_loads(l: Seq<UnitsObjectId>, ts: Seq<UnitsObjectId>) -> Seq<UnitsObjectId>
    decreases ts.len(),
{
    if ts.len() == 0 {
        l
    } else {
        let l1 = target_loads(l, ts.drop_last());
        if l1.contains(ts.last()) {
            l1
        } else {
            l1.push(ts.last())
        }
    }
}

/// The objects loaded for the instructions `ins`, in order: for each, its
/// controller, then those of its targets not loaded yet.
pub open spec fn instruction_loads(ins: Seq<Instruction>) -> Seq<UnitsObjectId>
    decreases ins.len(),
{
    if ins.len() == 0 {
        Seq::empty()
    } else {
        target_loads(instruction_loads(ins.drop_last()).push(ins.last().controller_id), ins.last().target_objects@)
    }
}

fn holds_id(v: &Vec<UnitsObjectId>, x: &UnitsObjectId) -> (r: bool)
    ensures
        r == v@.contains(*x),
{
    let mut i: usize = 0;
    while i < v.len()
        invariant
            i <= v@.len(),
            forall|j: int| 0 <= j < i ==> v@[j] != *x,
        decreases v@.len() - i,
    {
        if v[i] == *x {
            return true;
        }
        i = i + 1;
    }
    false
}

/// The objects that executing `transaction` loads before it runs, in the
/// order they are loaded: for each instruction its controller, then those of
/// its target objects not loaded yet. Execution fails on the first that
/// storage does not hold.
pub fn objects_to_load(transaction: &Transaction) -> (r: Vec<UnitsObjectId>)
    ensures
        r@ == instruction_loads(transaction.instructions@),
{
    let ins = &transaction.instructions;
    let mut loads: Vec<UnitsObjectId> = Vec::new();
    let mut a: usize = 0;
    while a < ins.len()
        invariant
            a <= ins@.len(),
            loads@ == instruction_loads(ins@.take(a as int)),
        decreases ins@.len() - a,
    {
        let instruction = &ins[a];
        loads.push(instruction.controller_id);
        let ghost base = loads@;
        let targets = &instruction.target_objects;
        let mut b: usize = 0;
        while b < targets.len()
            invariant
                b <= targets@.len(),
                loads@ == target_loads(base, targets@.take(b as int)),
            decreases targets@.len() - b,
        {
            proof {
                assert(targets@.take(b + 1).drop_last() =~= targets@.take(b as int));
            }
            if !holds_id(&loads, &targets[b]) {
                loads.push(targets[b]);
            }
            b = b + 1;
        }
        proof {
            assert(targets@.take(targets@.len() as int) =~= targets@);
            assert(ins@.take(a + 1).drop_last() =~= ins@.take(a as int));
        }
        a = a + 1;
    }
    proof {
        assert(ins@.take(ins@.len() as int) =~= ins@);
    }
    loads
}

} // verus!
