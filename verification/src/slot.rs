//! Slot progression: the state of the current slot and the decisions taken as
//! a slot is finalized, a new one starts, and its transactions are executed.
//! Whoever drives the slots performs the proof generation and execution these
//! decisions ask for, and hands their outcomes back.
use vstd::prelude::*;
use crate::proofs::types::StateProof;
use crate::transaction::TransactionReceipt;

verus! {

/// A slot transition event.
#[derive(Debug, Clone)]
pub enum SlotEvent {
    /// New slot started
    SlotStarted { slot: u64, timestamp: u64 },
    /// Slot execution completed
    SlotExecuted { slot: u64, transaction_count: usize, success_count: usize },
    /// Slot finalized with proof
    SlotFinalized { slot: u64, proof: StateProof },
    /// Slot failed
    SlotFailed { slot: u64, error: String },
}

/// Slot configuration.
#[derive(Debug, Clone)]
pub struct SlotConfig {
    /// Duration of each slot in milliseconds
    pub slot_duration_ms: u64,
    /// Maximum transactions per slot
    pub max_transactions_per_slot: usize,
    /// Whether to auto-advance slots
    pub auto_advance: bool,
    /// Grace period for late transactions (ms)
    pub grace_period_ms: u64,
}

impl Default for SlotConfig {
    /// One-second slots of at most 1000 transactions, advancing on their own,
    /// with a grace period of 100 ms.
    fn default() -> (c: Self)
        ensures
            c.slot_duration_ms == 1000,
            c.max_transactions_per_slot == 1000,
            c.auto_advance,
            c.grace_period_ms == 100,
    {
        SlotConfig {
            slot_duration_ms: 1000,
            max_transactions_per_slot: 1000,
            auto_advance: true,
            grace_period_ms: 100,
        }
    }
}

/// How many receipts report success.
pub open spec fn success_count(s: Seq<TransactionReceipt>) -> nat
    decreases s.len(),
{
    if s.len() == 0 {
        0
    } else {
        success_count(s.drop_last()) + if s.last().success {
            1nat
        } else {
            0nat
        }
    }
}

/// Count the receipts that report success.
pub fn count_successes(receipts: &Vec<TransactionReceipt>) -> (n: usize)
    ensures
        n == success_count(receipts@),
        n <= receipts@.len(),
{
    let mut n: usize = 0;
    let mut i: usize = 0;
    while i < receipts.len()
        invariant
            i <= receipts@.len(),
            n == success_count(receipts@.take(i as int)),
            n <= i,
        decreases receipts@.len() - i,
    {
        proof {
            assert(receipts@.take(i + 1).drop_last() =~= receipts@.take(i as int));
        }
        if receipts[i].success {
            n = n + 1;
        }
        i = i + 1;
    }
    proof {
        assert(receipts@.take(receipts@.len() as int) =~= receipts@);
    }
    n
}

/// The state of the current slot.
pub struct SlotState {
    pub current_slot: u64,
    pub slot_start_timestamp: u64,
    pub receipts: Vec<TransactionReceipt>,
    pub finalized: bool,
}

/// Information on the current slot.
#[derive(Debug, Clone)]
pub struct SlotInfo {
    pub current_slot: u64,
    pub slot_start_timestamp: u64,
    pub elapsed_ms: u64,
    pub remaining_ms: u64,
    pub transaction_count: usize,
    pub finalized: bool,
}

/// Slot statistics.
#[derive(Debug, Clone)]
pub struct SlotStats {
    pub current_slot: u64,
    pub slot_duration_ms: u64,
    pub auto_advance: bool,
    pub max_transactions_per_slot: usize,
}

impl SlotState {
    /// The first slot, started at `timestamp`, with nothing executed and not finalized.
    pub fn new(timestamp: u64) -> (s: Self)
        ensures
            s.current_slot == 0,
            s.slot_start_timestamp == timestamp,
            s.receipts@.len() == 0,
            !s.finalized,
    {
        SlotState { current_slot: 0, slot_start_timestamp: timestamp, receipts: Vec::new(), finalized: false }
    }

    /// The slot that must be finalized before the next one starts, if the
    /// current one is not finalized yet.
    pub fn pending_finalization(&self) -> (r: Option<u64>)
        ensures
            r == (if self.finalized {
                None
            } else {
                Some(self.current_slot)
            }),
    {
        if self.finalized {
            None
        } else {
            Some(self.current_slot)
        }
    }

    /// Take the outcome of finalizing the current slot: a proof finalizes it
    /// and is announced; an error leaves the state as it was, is announced as a
    /// failure, and stops the advance.
    pub fn record_finalization(&mut self, outcome: Result<StateProof, String>) -> (r: Result<SlotEvent, SlotEvent>)
        ensures
            final(self).current_slot == old(self).current_slot,
            final(self).slot_start_timestamp == old(self).slot_start_timestamp,
            final(self).receipts@ == old(self).receipts@,
            match outcome {
                Ok(proof) => final(self).finalized && r == Ok::<SlotEvent, SlotEvent>(
                    SlotEvent::SlotFinalized { slot: old(self).current_slot, proof },
                ),
                Err(error) => final(self).finalized == old(self).finalized && r == Err::<SlotEvent, SlotEvent>(
                    SlotEvent::SlotFailed { slot: old(self).current_slot, error },
                ),
            },
    {
        match outcome {
            Ok(proof) => {
                self.finalized = true;
                Ok(SlotEvent::SlotFinalized { slot: self.current_slot, proof })
            },
            Err(error) => Err(SlotEvent::SlotFailed { slot: self.current_slot, error }),
        }
    }

    /// Start the next slot at `timestamp`: its number is one more, nothing is
    /// executed in it yet, and it is not finalized.
    pub fn start_next_slot(&mut self, timestamp: u64) -> (e: SlotEvent)
        requires
            old(self).current_slot < u64::MAX,
        ensures
            final(self).current_slot == old(self).current_slot + 1,
            final(self).slot_start_timestamp == timestamp,
            final(self).receipts@.len() == 0,
            !final(self).finalized,
            e == (SlotEvent::SlotStarted { slot: final(self).current_slot, timestamp }),
    {
        self.current_slot = self.current_slot + 1;
        self.slot_start_timestamp = timestamp;
        self.receipts = Vec::new();
        self.finalized = false;
        SlotEvent::SlotStarted { slot: self.current_slot, timestamp }
    }

    /// Take the receipts of executing slot `slot`'s transactions: they become
    /// the current receipts, and their count and successes are announced.
    pub fn record_execution(&mut self, slot: u64, receipts: Vec<TransactionReceipt>) -> (e: SlotEvent)
        ensures
            final(self).receipts@ == receipts@,
            final(self).current_slot == old(self).current_slot,
            final(self).finalized == old(self).finalized,
            final(self).slot_start_timestamp == old(self).slot_start_timestamp,
            e == (SlotEvent::SlotExecuted {
                slot,
                transaction_count: receipts@.len() as usize,
                success_count: success_count(receipts@) as usize,
            }),
    {
        let transaction_count = receipts.len();
        let success_count = count_successes(&receipts);
        self.receipts = receipts;
        SlotEvent::SlotExecuted { slot, transaction_count, success_count }
    }

    /// Information on the current slot, `elapsed_ms` after it started.
    pub fn slot_info(&self, config: &SlotConfig, elapsed_ms: u64) -> (i: SlotInfo)
        ensures
            i.current_slot == self.current_slot,
            i.slot_start_timestamp == self.slot_start_timestamp,
            i.elapsed_ms == elapsed_ms,
            i.remaining_ms == (if config.slot_duration_ms >= elapsed_ms {
                config.slot_duration_ms - elapsed_ms
            } else {
                0
            }),
            i.transaction_count == self.receipts@.len(),
            i.finalized == self.finalized,
    {
        SlotInfo {
            current_slot: self.current_slot,
            slot_start_timestamp: self.slot_start_timestamp,
            elapsed_ms,
            remaining_ms: config.slot_duration_ms.saturating_sub(elapsed_ms),
            transaction_count: self.receipts.len(),
            finalized: self.finalized,
        }
    }
}

impl SlotStats {
    /// Statistics of the current slot under `config`.
    pub fn from_info(info: &SlotInfo, config: &SlotConfig) -> (s: Self)
        ensures
            s.current_slot == info.current_slot,
            s.slot_duration_ms == config.slot_duration_ms,
            s.auto_advance == config.auto_advance,
            s.max_transactions_per_slot == config.max_transactions_per_slot,
    {
        SlotStats {
            current_slot: info.current_slot,
            slot_duration_ms: config.slot_duration_ms,
            auto_advance: config.auto_advance,
            max_transactions_per_slot: config.max_transactions_per_slot,
        }
    }
}

} // verus!
