use units_core::id::UnitsObjectId;
use units_core::objects::{ObjectType, UnitsObject, VMType};
use units_core::proofs::types::{MerkleNode, StorageError};
use units_core::runtime::RuntimeError;
use units_core::services::object_service::{prepare_create, prepare_update};
use units_core::services::proof_generator::ProofGenerator;
use units_core::services::rpc::{map_service_error, parse_object_id, parse_tx_hash};
use units_core::services::storage_service::{check_object_size, ObjectCache};
use units_core::services::transaction_service::{
    check_conflict_result, objects_to_load, TransactionPool, TransactionService,
};
use units_core::services::units_service::UnitsService;
use units_core::services::{
    check_storage_type, validate_transaction, CacheStats, Config, HealthReport, ObjectStats,
    ObjectValidator, PoolStats, ProofStats, ServiceError, ServiceOptions, ServiceStatus, StorageStats,
};
use units_core::slot::SlotInfo;
use units_core::transaction::{ConflictResult, Instruction, Transaction, TransactionReceipt};
use sha2::{Digest, Sha256};

fn id(b: u8) -> UnitsObjectId {
    UnitsObjectId::new([b; 32])
}

fn instruction(controller: u8, targets: &[u8], params: Vec<u8>) -> Instruction {
    Instruction::new(id(controller), "run".to_string(), targets.iter().map(|b| id(*b)).collect(), params)
}

fn transaction(hash: u8, instructions: Vec<Instruction>) -> Transaction {
    Transaction::new(instructions, [hash; 32])
}

fn sha(parts: &[&[u8]]) -> [u8; 32] {
    let mut h = Sha256::new();
    for p in parts {
        h.update(p);
    }
    h.finalize().into()
}

#[test]
fn service_error_messages() {
    assert_eq!(ServiceError::invalid_request("bad".to_string()).message(), "Invalid request: bad");
    assert_eq!(ServiceError::object_not_found("ab".to_string()).message(), "Object not found: ab");
    assert_eq!(ServiceError::transaction_failed("why".to_string()).message(), "Transaction failed: why");
    assert_eq!(ServiceError::service_unavailable("busy".to_string()).message(), "Service unavailable: busy");
    assert_eq!(ServiceError::Storage(StorageError::ProofNotFound).message(), "Storage error: Proof not found");
    assert_eq!(
        ServiceError::Storage(StorageError::ProofChainInvalid("gap".to_string())).message(),
        "Storage error: Proof chain invalid: gap"
    );
    assert_eq!(
        ServiceError::Runtime(RuntimeError::Unimplemented("x".to_string())).message(),
        "Runtime error: Unimplemented: x"
    );
}

#[test]
fn rpc_errors_are_mapped_by_kind() {
    let e = map_service_error(ServiceError::object_not_found("00ff".to_string()));
    assert_eq!((e.code, e.message.as_str()), (-32602, "Object not found: 00ff"));
    let e = map_service_error(ServiceError::invalid_request("no".to_string()));
    assert_eq!((e.code, e.message.as_str()), (-32602, "no"));
    let e = map_service_error(ServiceError::transaction_failed("boom".to_string()));
    assert_eq!((e.code, e.message.as_str()), (-32603, "Transaction failed: boom"));
    let e = map_service_error(ServiceError::service_unavailable("full".to_string()));
    assert_eq!((e.code, e.message.as_str()), (-32603, "Service unavailable: full"));
}

#[test]
fn rpc_parses_hex_identifiers() {
    let text = "0102030405060708091011121314151617181920212223242526272829303132";
    let parsed = parse_object_id(text).unwrap();
    assert_eq!(parsed.bytes[0], 0x01);
    assert_eq!(parsed.bytes[9], 0x10);
    assert_eq!(parsed.bytes[31], 0x32);
    let upper = parse_tx_hash(&"AB".repeat(32)).unwrap();
    assert_eq!(upper, [0xab; 32]);
    let short = parse_object_id("00ff").unwrap_err();
    assert_eq!((short.code, short.message.as_str()), (-32602, "Object ID must be 32 bytes"));
    let short = parse_tx_hash("00").unwrap_err();
    assert_eq!(short.message, "Transaction hash must be 32 bytes");
    let bad = parse_object_id("zz").unwrap_err();
    assert_eq!(bad.code, -32602);
    assert!(bad.message.starts_with("Invalid hex: "));
    let odd = parse_tx_hash("abc").unwrap_err();
    assert!(odd.message.starts_with("Invalid hex: "));
}

#[test]
fn pool_adds_until_full() {
    let mut pool = TransactionPool::new(2);
    assert_eq!(pool.add_transaction(transaction(1, vec![instruction(9, &[1], vec![])])).unwrap(), [1; 32]);
    assert_eq!(pool.add_transaction(transaction(2, vec![instruction(9, &[2], vec![])])).unwrap(), [2; 32]);
    match pool.add_transaction(transaction(3, vec![instruction(9, &[3], vec![])])) {
        Err(ServiceError::ServiceUnavailable { message }) => assert_eq!(message, "Transaction pool is full"),
        _ => panic!("a full pool refuses"),
    }
    let stats = pool.get_stats();
    assert_eq!((stats.pending_count, stats.receipt_count, stats.max_pool_size), (2, 0, 2));
    let got = pool.get_transaction(&[2; 32]).unwrap();
    assert_eq!(got.hash, [2; 32]);
    assert_eq!(got.instructions[0].target_objects, vec![id(2)]);
    assert!(pool.get_transaction(&[3; 32]).is_none());
    let pending = pool.get_pending_transactions();
    assert_eq!(pending.len(), 2);
    let removed = pool.remove_transaction(&[1; 32]).unwrap();
    assert_eq!(removed.hash, [1; 32]);
    assert!(pool.remove_transaction(&[1; 32]).is_none());
    assert_eq!(pool.get_stats().pending_count, 1);
}

#[test]
fn pool_keeps_receipts_by_hash() {
    let mut pool = TransactionPool::new(1);
    assert!(pool.get_receipt(&[7; 32]).is_none());
    pool.store_receipt(TransactionReceipt::new([7; 32], 3, true, 99));
    let r = pool.get_receipt(&[7; 32]).unwrap();
    assert_eq!((r.slot, r.success, r.timestamp), (3, true, 99));
    assert_eq!(pool.get_stats().receipt_count, 1);
}

#[test]
fn service_refuses_invalid_transactions() {
    let mut service = TransactionService::new(10);
    match service.submit_transaction(transaction(1, vec![])) {
        Err(ServiceError::InvalidRequest { message }) => assert_eq!(message, "Transaction has no instructions"),
        _ => panic!("a transaction without instructions is refused"),
    }
    let t = transaction(2, vec![instruction(9, &[1], vec![]), instruction(9, &[], vec![])]);
    match service.submit_transaction(t) {
        Err(ServiceError::InvalidRequest { message }) => assert_eq!(message, "Instruction 1 has no inputs or data"),
        _ => panic!("an empty instruction is refused"),
    }
    assert_eq!(service.get_pool_stats().pending_count, 0);
    let ok = transaction(3, vec![instruction(9, &[], vec![1])]);
    assert!(validate_transaction(&ok).is_ok());
    assert_eq!(service.submit_transaction(ok).unwrap(), [3; 32]);
    assert_eq!(service.get_pool_stats().pending_count, 1);
}

#[test]
fn service_names_missing_transactions_in_hex() {
    let mut service = TransactionService::new(10);
    match service.get_transaction(&[0xab; 32]) {
        Err(ServiceError::ObjectNotFound { object_id }) => assert_eq!(object_id, "ab".repeat(32)),
        _ => panic!("missing transaction"),
    }
    match service.get_receipt(&[0x0f; 32]) {
        Err(ServiceError::ObjectNotFound { object_id }) => assert_eq!(object_id, "0f".repeat(32)),
        _ => panic!("missing receipt"),
    }
    service.submit_transaction(transaction(5, vec![instruction(9, &[1], vec![])])).unwrap();
    service.record_executed(&[5; 32], TransactionReceipt::new([5; 32], 0, true, 1));
    assert!(service.get_transaction(&[5; 32]).is_err());
    assert!(service.get_receipt(&[5; 32]).unwrap().success);
    assert_eq!(service.current_slot(), 0);
    assert_eq!(service.advance_slot().unwrap(), 1);
    assert_eq!(service.current_slot(), 1);
}

#[test]
fn conflicts_fail_the_transaction() {
    assert!(check_conflict_result(&ConflictResult::NoConflict).is_ok());
    assert!(check_conflict_result(&ConflictResult::ReadOnly).is_ok());
    let mut first = [0u8; 32];
    first[0] = 1;
    match check_conflict_result(&ConflictResult::Conflict(vec![first, [2; 32]])) {
        Err(ServiceError::TransactionFailed { reason }) => {
            let expected = format!("Transaction conflicts with: {:?}", vec![first, [2u8; 32]]);
            assert_eq!(reason, expected);
        },
        _ => panic!("a conflict fails"),
    }
    match check_conflict_result(&ConflictResult::Conflict(vec![])) {
        Err(ServiceError::TransactionFailed { reason }) => assert_eq!(reason, "Transaction conflicts with: []"),
        _ => panic!("a conflict fails"),
    }
}

#[test]
fn objects_are_loaded_controller_first_without_repeats() {
    let t = transaction(1, vec![instruction(9, &[1, 2, 1, 9], vec![]), instruction(9, &[2, 3], vec![])]);
    assert_eq!(objects_to_load(&t), vec![id(9), id(1), id(2), id(9), id(3)]);
    assert!(objects_to_load(&transaction(2, vec![])).is_empty());
}

#[test]
fn cache_entries_expire_and_refresh() {
    let mut cache = ObjectCache::new(10, 2);
    let o = UnitsObject::new_data(id(1), id(2), vec![1, 2, 3]);
    cache.add_to_cache(&id(1), o, 1000);
    // 1999 ms later fewer than two whole seconds have passed: still fresh.
    let hit = cache.get_from_cache(&id(1), 2999).unwrap();
    assert_eq!(hit.data, vec![1, 2, 3]);
    // Refreshed at 2999; at 4999 two seconds have passed: stale and dropped.
    assert!(cache.get_from_cache(&id(1), 4999).is_none());
    assert_eq!(cache.cache_stats().size, 0);
    assert!(cache.get_from_cache(&id(3), 0).is_none());
}

#[test]
fn full_cache_drops_the_entry_accessed_longest_ago() {
    let mut cache = ObjectCache::new(2, 60);
    cache.add_to_cache(&id(1), UnitsObject::new_data(id(1), id(9), vec![1]), 100);
    cache.add_to_cache(&id(2), UnitsObject::new_data(id(2), id(9), vec![2]), 50);
    cache.add_to_cache(&id(3), UnitsObject::new_data(id(3), id(9), vec![3]), 200);
    assert!(cache.get_from_cache(&id(2), 300).is_none());
    assert!(cache.get_from_cache(&id(1), 300).is_some());
    assert!(cache.get_from_cache(&id(3), 300).is_some());
    let stats = cache.cache_stats();
    assert_eq!((stats.size, stats.max_size, stats.ttl_secs), (2, 2, 60));
    cache.remove_from_cache(&id(1));
    assert_eq!(cache.cache_stats().size, 1);
    cache.clear_cache();
    assert_eq!(cache.cache_stats().size, 0);
}

#[test]
fn serialized_objects_are_limited_to_ten_mebibytes() {
    assert!(check_object_size(10 * 1024 * 1024).is_ok());
    match check_object_size(10 * 1024 * 1024 + 1) {
        Err(ServiceError::InvalidRequest { message }) => {
            assert_eq!(message, "Object size 10485761 exceeds maximum 10485760")
        },
        _ => panic!("an oversized object is refused"),
    }
}

#[test]
fn creation_builds_and_checks_the_object() {
    let v = ObjectValidator::new(4, 2);
    match prepare_create(&v, true, id(0xab), ObjectType::Data, vec![], Some(id(1))) {
        Err(ServiceError::InvalidRequest { message }) => {
            assert_eq!(message, format!("Object {} already exists", "ab".repeat(32)))
        },
        _ => panic!("an existing object is refused"),
    }
    match prepare_create(&v, false, id(1), ObjectType::Data, vec![1], None) {
        Err(ServiceError::InvalidRequest { message }) => assert_eq!(message, "Object cannot control itself"),
        _ => panic!("without a controller an object controls itself"),
    }
    match prepare_create(&v, false, id(1), ObjectType::Executable(VMType::RiscV), vec![1, 2, 3], Some(id(2))) {
        Err(ServiceError::InvalidRequest { message }) => assert_eq!(message, "Program size 3 exceeds maximum 2"),
        _ => panic!("an oversized program is refused"),
    }
    let o = prepare_create(&v, false, id(1), ObjectType::Data, vec![1, 2, 3], Some(id(2))).unwrap();
    assert_eq!((o.id, o.controller_id, o.data.clone()), (id(1), id(2), vec![1, 2, 3]));
}

#[test]
fn update_keeps_what_is_not_given() {
    let v = ObjectValidator::new(4, 4);
    let existing = UnitsObject::new_data(id(1), id(2), vec![5]);
    let same = prepare_update(&v, &existing, None, None).unwrap();
    assert_eq!((same.controller_id, same.data.clone()), (id(2), vec![5]));
    let kept = prepare_update(&v, &existing, None, Some(None)).unwrap();
    assert_eq!(kept.controller_id, id(2));
    let moved = prepare_update(&v, &existing, Some(vec![7, 8]), Some(Some(id(3)))).unwrap();
    assert_eq!((moved.controller_id, moved.data.clone()), (id(3), vec![7, 8]));
    match prepare_update(&v, &existing, Some(vec![0; 5]), None) {
        Err(ServiceError::InvalidRequest { message }) => {
            assert_eq!(message, "Object data size 5 exceeds maximum 4")
        },
        _ => panic!("oversized data is refused"),
    }
    match prepare_update(&v, &existing, None, Some(Some(id(1)))) {
        Err(ServiceError::InvalidRequest { message }) => assert_eq!(message, "Object cannot control itself"),
        _ => panic!("self control is refused"),
    }
}

#[test]
fn node_service_answers_the_submitted_hash() {
    let mut service = UnitsService::new();
    match service.submit_transaction(transaction(4, vec![])) {
        Err(ServiceError::InvalidRequest { message }) => assert_eq!(message, "Transaction has no instructions"),
        _ => panic!("refused"),
    }
    assert_eq!(service.submit_transaction(transaction(4, vec![instruction(9, &[], vec![])])).unwrap(), [4; 32]);
    assert_eq!(service.get_transaction(&[0; 32]).unwrap().hash, [4; 32]);
    assert!(service.get_transaction(&[4; 32]).is_err());
    let receipt = service.execute_transaction(&[0; 32], 1234).unwrap();
    assert_eq!((receipt.slot, receipt.timestamp, receipt.success), (1, 1234, true));
    assert!(service.execute_transaction(&[1; 32], 0).is_err());
    let health = service.health_check().unwrap();
    assert_eq!((health.status.as_str(), health.slot, health.object_count, health.pending_transactions), ("healthy", 0, 0, 1));
    assert_eq!(service.get_current_slot().unwrap(), 0);
}

#[test]
fn health_report_collects_the_statistics() {
    let info = SlotInfo {
        current_slot: 7,
        slot_start_timestamp: 0,
        elapsed_ms: 0,
        remaining_ms: 0,
        transaction_count: 0,
        finalized: false,
    };
    let storage = StorageStats::from_cache(CacheStats { size: 3, max_size: 9, ttl_secs: 1 });
    assert_eq!((storage.latest_slot, storage.object_count), (0, 0));
    let proofs = ProofStats::from_cache_size(4);
    let pool = PoolStats { pending_count: 5, receipt_count: 0, max_pool_size: 10 };
    let report = HealthReport::from_stats(&info, &storage, &proofs, &pool);
    assert_eq!(report.status, ServiceStatus::Healthy);
    assert_eq!((report.current_slot, report.pending_transactions, report.cache_size, report.latest_proven_slot), (7, 5, 3, 0));
    let stats = ObjectStats::from_cache(&CacheStats { size: 1, max_size: 2, ttl_secs: 3 }, &ObjectValidator::new(10, 20));
    assert_eq!((stats.total_objects, stats.cache_size, stats.cache_max_size, stats.max_object_size, stats.max_program_size), (0, 1, 2, 10, 20));
}

#[test]
fn configured_storage_kinds() {
    let mut config = Config::default();
    assert!(check_storage_type(&config).is_ok());
    config.storage.storage_type = "file".to_string();
    assert!(check_storage_type(&config).is_ok());
    config.storage.storage_type = "disk".to_string();
    assert_eq!(check_storage_type(&config).unwrap_err(), "Unsupported storage type: disk");
    let options = ServiceOptions::create_services_options(&Config::default());
    assert_eq!(options.cache_size, 10 * 1024);
    assert_eq!(options.transaction_pool_size, 1000);
    let from = ServiceOptions::from_config(&Config::default());
    assert_eq!(from.cache_size, 1000);
}

#[test]
fn merkle_roots_are_cached_by_their_leaves() {
    let mut generator = ProofGenerator::new();
    let a = MerkleNode { hash: [1; 32], is_left: false };
    let b = MerkleNode { hash: [2; 32], is_left: false };
    assert_eq!(generator.compute_merkle_root(&[]), [0; 32]);
    assert_eq!(generator.compute_merkle_root(&[a.clone()]), [1; 32]);
    assert_eq!(generator.merkle_cache_size(), 0);
    let root = generator.compute_merkle_root(&[a.clone(), b.clone()]);
    assert_eq!(root, sha(&[&[1; 32], &[2; 32]]));
    assert_eq!(generator.merkle_cache_size(), 1);
    assert_eq!(generator.compute_merkle_root(&[a.clone(), b.clone()]), root);
    assert_eq!(generator.merkle_cache_size(), 1);
    let c = MerkleNode { hash: [3; 32], is_left: false };
    let three = generator.compute_merkle_root(&[a, b, c]);
    let left = sha(&[&[1; 32], &[2; 32]]);
    let right = sha(&[&[3; 32], &[3; 32]]);
    assert_eq!(three, sha(&[&left, &right]));
    assert_eq!(generator.merkle_cache_size(), 2);
}

#[test]
fn finalizing_an_empty_slot_signs_the_zero_root() {
    let mut generator = ProofGenerator::new();
    let proof = generator.finalize_slot(4, &vec![]).unwrap();
    assert_eq!(proof.slot, 4);
    assert!(proof.object_ids.is_empty());
    assert!(proof.prev_state_proof_hash.is_none());
    assert_eq!(proof.proof_data, sha(&[&[0; 32], &[0; 32], b"state_proof_signature"]).to_vec());
}

use units_core::transaction::TransactionEffect;

#[test]
fn transaction_proofs_follow_the_last_effect_on_each_object() {
    let generator = ProofGenerator::new();
    let first = UnitsObject::new_data(id(1), id(9), vec![1]);
    let second = UnitsObject::new_data(id(1), id(9), vec![2]);
    let other = UnitsObject::new_data(id(2), id(9), vec![3]);
    let mut receipt = TransactionReceipt::new([8; 32], 6, true, 0);
    receipt.add_effect(TransactionEffect::new_creation([8; 32], first.clone()));
    receipt.add_effect(TransactionEffect::new_modification([8; 32], first.clone(), second.clone()));
    receipt.add_effect(TransactionEffect::new_deletion([8; 32], other.clone()));
    let proofs = generator.generate_transaction_proofs(&receipt).unwrap();
    assert_eq!(proofs.len(), 2);
    let p1 = proofs.get(&id(1)).unwrap();
    assert_eq!(p1.object_hash, generator.compute_object_hash(&second));
    let before = generator.compute_object_hash(&first);
    assert_eq!(p1.proof_data, sha(&[&before, &p1.object_hash, b"proof_signature"]).to_vec());
    assert_eq!((p1.slot, p1.transaction_hash, p1.prev_proof_hash), (6, Some([8; 32]), None));
    let p2 = proofs.get(&id(2)).unwrap();
    assert_eq!(p2.object_hash, [0; 32]);
}

#[test]
fn test_units_service_creation() {
    let service = UnitsService::new();
    let health = service.health_check().expect("Health check failed");
    assert_eq!(health.status, "healthy");
    assert_eq!(health.slot, 0);
    assert_eq!(health.object_count, 0);
    assert_eq!(health.pending_transactions, 0);
}

#[test]
fn test_transaction_operations() {
    let mut service = UnitsService::new();
    let controller_id = UnitsObjectId::new([10u8; 32]);
    let target_id = UnitsObjectId::new([20u8; 32]);
    let instruction = Instruction::new(controller_id, "transfer".to_string(), vec![target_id], b"instruction params".to_vec());
    let mut transaction = Transaction::new(vec![instruction], [99u8; 32]);
    transaction.commitment_level = units_core::transaction::CommitmentLevel::Committed;
    let tx_hash = service.submit_transaction(transaction).expect("Failed to submit transaction");
    assert_eq!(tx_hash, [99u8; 32]);
    let result = service.get_transaction(&tx_hash);
    assert!(result.is_err());
}
