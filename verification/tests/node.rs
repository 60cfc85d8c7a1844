use units_core::allocator::BumpAllocator;
use units_core::id::UnitsObjectId;
use units_core::objects::UnitsObject;
use units_core::proofs::types::{StateProof, UnitsObjectProof};
use units_core::riscv::RiscVMemory;
use units_core::runtime::vm_type_name;
use units_core::objects::VMType;
use units_core::slot::{count_successes, SlotConfig, SlotEvent, SlotState, SlotStats};
use units_core::transaction::{CommitmentLevel, Transaction, TransactionEffect, TransactionReceipt};
use units_core::transaction_manager::{TransactionContext, TransactionFilter};

fn id(b: u8) -> UnitsObjectId {
    UnitsObjectId::new([b; 32])
}

fn receipt(success: bool) -> TransactionReceipt {
    TransactionReceipt::new([1; 32], 0, success, 0)
}

#[test]
fn slot_defaults() {
    let c = SlotConfig::default();
    assert_eq!((c.slot_duration_ms, c.max_transactions_per_slot, c.auto_advance, c.grace_period_ms), (1000, 1000, true, 100));
}

#[test]
fn slot_finalization_then_next_slot() {
    let mut state = SlotState::new(50);
    assert_eq!(state.pending_finalization(), Some(0));
    let proof = StateProof { slot: 0, prev_state_proof_hash: None, object_ids: vec![], proof_data: vec![9] };
    match state.record_finalization(Ok(proof)) {
        Ok(SlotEvent::SlotFinalized { slot, proof }) => {
            assert_eq!(slot, 0);
            assert_eq!(proof.proof_data, vec![9]);
        },
        _ => panic!("a proof finalizes the slot"),
    }
    assert!(state.finalized);
    assert_eq!(state.pending_finalization(), None);
    match state.start_next_slot(70) {
        SlotEvent::SlotStarted { slot, timestamp } => assert_eq!((slot, timestamp), (1, 70)),
        _ => panic!("a new slot starts"),
    }
    assert_eq!((state.current_slot, state.slot_start_timestamp, state.finalized), (1, 70, false));
    assert!(state.receipts.is_empty());
}

#[test]
fn failed_finalization_leaves_the_slot_open() {
    let mut state = SlotState::new(0);
    match state.record_finalization(Err("storage down".to_string())) {
        Err(SlotEvent::SlotFailed { slot, error }) => assert_eq!((slot, error.as_str()), (0, "storage down")),
        _ => panic!("an error is announced as a failure"),
    }
    assert!(!state.finalized);
    assert_eq!(state.pending_finalization(), Some(0));
}

#[test]
fn execution_counts_receipts_and_successes() {
    let mut state = SlotState::new(0);
    let receipts = vec![receipt(true), receipt(false), receipt(true)];
    assert_eq!(count_successes(&receipts), 2);
    match state.record_execution(0, receipts) {
        SlotEvent::SlotExecuted { slot, transaction_count, success_count } => {
            assert_eq!((slot, transaction_count, success_count), (0, 3, 2))
        },
        _ => panic!("execution is announced"),
    }
    let config = SlotConfig::default();
    let info = state.slot_info(&config, 300);
    assert_eq!((info.elapsed_ms, info.remaining_ms, info.transaction_count), (300, 700, 3));
    let late = state.slot_info(&config, 1500);
    assert_eq!(late.remaining_ms, 0);
    let stats = SlotStats::from_info(&info, &config);
    assert_eq!((stats.current_slot, stats.slot_duration_ms), (0, 1000));
}

#[test]
fn bump_allocations_are_aligned_and_disjoint() {
    let mut a = BumpAllocator::new();
    let first = a.allocate(3, 1).unwrap();
    assert_eq!(first, 0x80100000);
    let second = a.allocate(8, 8).unwrap();
    assert_eq!(second, 0x80100008);
    assert!(second >= first + 3);
    let third = a.allocate(1, 16).unwrap();
    assert_eq!(third, 0x80100010);
    assert!(a.allocate(0x04000000, 1).is_none());
    assert_eq!(a.allocate(1, 1).unwrap(), 0x80100011);
}

#[test]
fn vm_memory_access_stays_within_the_limit() {
    let memory = RiscVMemory::new(16);
    assert!(memory.access(12, 4));
    assert!(!memory.access(13, 4));
    assert!(memory.access(16, 0));
}

#[test]
fn vm_type_names() {
    assert_eq!(vm_type_name(VMType::RiscV), "RiscV");
}

#[test]
fn transaction_context_becomes_a_receipt() {
    let t = Transaction::new(vec![], [4; 32]);
    let mut ctx = TransactionContext::new(t, 9);
    let o = UnitsObject::new_data(id(1), id(2), vec![1]);
    ctx.add_object(o.clone());
    ctx.add_proof(id(1), UnitsObjectProof::new(id(1), [0; 32], 9, vec![], None, Some([4; 32])));
    ctx.add_effect(TransactionEffect::new_creation([4; 32], o));
    let r = ctx.into_receipt(true, 77);
    assert_eq!((r.transaction_hash, r.slot, r.success, r.timestamp), ([4; 32], 9, true, 77));
    assert_eq!(r.commitment_level, CommitmentLevel::Processing);
    assert_eq!(r.effect_count(), 1);
    assert_eq!(r.object_count(), 1);
    let mut failed = TransactionContext::new(Transaction::new(vec![], [5; 32]), 1);
    failed.rollback();
    assert!(failed.rolled_back);
    assert_eq!(failed.into_receipt(false, 0).commitment_level, CommitmentLevel::Failed);
}

#[test]
fn transaction_filter_builders() {
    let f = TransactionFilter::new().with_object(id(1)).with_object(id(2)).with_slot_range(3, 5).success_only().with_limit(10);
    assert_eq!(f.object_ids, Some(vec![id(1), id(2)]));
    assert_eq!((f.start_slot, f.end_slot, f.success_only, f.limit), (Some(3), Some(5), true, Some(10)));
    let g = TransactionFilter::default().with_commitment_level(CommitmentLevel::Committed);
    assert_eq!(g.commitment_level, Some(CommitmentLevel::Committed));
    assert!(g.object_ids.is_none());
}

use units_core::runtime::{conflict_decision, RuntimeError};
use units_core::transaction::{copy_receipt, copy_transaction, ConflictResult, Instruction};
use units_core::transaction_manager::manager_conflict_decision;

#[test]
fn conflict_checks_decide_execution() {
    assert!(conflict_decision(Ok(ConflictResult::NoConflict)).is_ok());
    assert!(conflict_decision(Ok(ConflictResult::ReadOnly)).is_ok());
    assert_eq!(conflict_decision(Ok(ConflictResult::Conflict(vec![[1; 32]]))), Err(ConflictResult::Conflict(vec![[1; 32]])));
    assert_eq!(
        conflict_decision(Err(RuntimeError::Unimplemented("x".to_string()))),
        Err(ConflictResult::Conflict(vec![]))
    );
    match manager_conflict_decision(Ok(ConflictResult::Conflict(vec![[2; 32]])), [7; 32]) {
        Err(RuntimeError::TransactionConflict(h, ids)) => {
            assert_eq!(h, [7; 32]);
            assert!(ids.is_empty());
        },
        _ => panic!("a conflict names the transaction"),
    }
    assert!(manager_conflict_decision(Ok(ConflictResult::ReadOnly), [7; 32]).is_ok());
    match manager_conflict_decision(Err(RuntimeError::Unimplemented("y".to_string())), [7; 32]) {
        Err(RuntimeError::Unimplemented(m)) => assert_eq!(m, "y"),
        _ => panic!("a failed check is passed on"),
    }
}

#[test]
fn copies_say_the_same() {
    let t = Transaction::new(vec![Instruction::new(id(1), "f".to_string(), vec![id(2)], vec![3])], [4; 32]);
    let c = copy_transaction(&t);
    assert_eq!(c.hash, t.hash);
    assert_eq!(c.instructions[0].target_function, "f");
    assert_eq!(c.instructions[0].params, vec![3]);
    let mut r = TransactionReceipt::new([4; 32], 2, false, 9);
    r.set_error("bad".to_string());
    r.add_proof(id(1), UnitsObjectProof::new(id(1), [5; 32], 2, vec![6], None, None));
    r.add_effect(TransactionEffect::new_creation([4; 32], UnitsObject::new_data(id(1), id(2), vec![7])));
    let k = copy_receipt(&r);
    assert_eq!((k.transaction_hash, k.slot, k.success, k.timestamp), ([4; 32], 2, false, 9));
    assert_eq!(k.error_message.as_deref(), Some("bad"));
    assert_eq!(k.object_count(), 1);
    assert_eq!(k.effect_count(), 1);
    assert_eq!(k.effects[0].after_image.as_ref().unwrap().data, vec![7]);
}
