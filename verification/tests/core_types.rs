use units_core::id::{
    account_controller_id, is_system_controller, module_manager_id, system_loader_id,
    token_controller_id, UnitsObjectId,
};
use units_core::lock_manager::InMemoryLockManager;
use units_core::objects::{UnitsObject, VMType};
use units_core::proofs::current_slot;
use units_core::proofs::engine::ProofEngine;
use units_core::proofs::types::UnitsObjectProof;
use units_core::transaction::{TransactionEffect, TransactionReceipt};

#[test]
fn test_system_controller_validation() {
    assert!(is_system_controller(&system_loader_id()));
    assert!(is_system_controller(&token_controller_id()));
    assert!(is_system_controller(&account_controller_id()));
    assert!(is_system_controller(&module_manager_id()));

    let random_id = UnitsObjectId::new([99; 32]);
    assert!(!is_system_controller(&random_id));
}

#[test]
fn test_system_controller_uniqueness() {
    let ids = [system_loader_id(), token_controller_id(), account_controller_id(), module_manager_id()];
    for i in 0..ids.len() {
        for j in (i + 1)..ids.len() {
            assert_ne!(ids[i], ids[j], "System controller IDs must be unique");
        }
    }
}

#[test]
fn test_data_object() {
    let id = UnitsObjectId::new([1; 32]);
    let controller_id = UnitsObjectId::new([2; 32]);
    let data = vec![0, 1, 2, 3, 4];
    let data_obj = UnitsObject::new_data(id, controller_id, data.clone());
    assert!(data_obj.is_data());
    assert!(!data_obj.is_executable());
    assert_eq!(data_obj.vm_type(), None);
    assert_eq!(data_obj.data(), &data[..]);
    assert_eq!(data_obj.id(), &id);
    assert_eq!(data_obj.controller_id(), &controller_id);
}

#[test]
fn test_executable_object() {
    let id = UnitsObjectId::new([1; 32]);
    let controller_id = UnitsObjectId::new([2; 32]);
    let bytecode = vec![0x7f, 0x45, 0x4c, 0x46];
    let exec_obj = UnitsObject::new_executable(id, controller_id, VMType::RiscV, bytecode.clone());
    assert!(!exec_obj.is_data());
    assert!(exec_obj.is_executable());
    assert_eq!(exec_obj.vm_type(), Some(VMType::RiscV));
    assert_eq!(exec_obj.data(), &bytecode[..]);
    assert_eq!(exec_obj.id(), &id);
    assert_eq!(exec_obj.controller_id(), &controller_id);
}

#[test]
fn test_vm_types() {
    let id = UnitsObjectId::new([1; 32]);
    let controller_id = UnitsObjectId::new([2; 32]);
    let bytecode = vec![1, 2, 3, 4];
    let riscv_obj = UnitsObject::new_executable(id, controller_id, VMType::RiscV, bytecode);
    assert_eq!(riscv_obj.vm_type(), Some(VMType::RiscV));
    assert!(riscv_obj.is_executable());
    assert!(!riscv_obj.is_data());
}

#[test]
fn test_transaction_effect() {
    let id = UnitsObjectId::new([1; 32]);
    let controller_id = UnitsObjectId::new([2; 32]);
    let data = vec![0, 1, 2, 3, 4];
    let transaction_hash = [4; 32];
    let data_obj = UnitsObject::new_data(id, controller_id, data.clone());

    let creation_effect = TransactionEffect::new_creation(transaction_hash, data_obj.clone());
    assert!(creation_effect.is_creation());
    assert!(!creation_effect.is_deletion());
    assert!(!creation_effect.is_modification());
    assert_eq!(creation_effect.object_id, id);
    assert_eq!(creation_effect.transaction_hash, transaction_hash);
    assert_eq!(creation_effect.before_image, None);
    assert!(creation_effect.after_image.is_some());

    let modified_obj = UnitsObject::new_data(id, controller_id, vec![5, 6, 7, 8, 9]);
    let modification_effect =
        TransactionEffect::new_modification(transaction_hash, data_obj.clone(), modified_obj.clone());
    assert!(!modification_effect.is_creation());
    assert!(!modification_effect.is_deletion());
    assert!(modification_effect.is_modification());

    let deletion_effect = TransactionEffect::new_deletion(transaction_hash, data_obj.clone());
    assert!(!deletion_effect.is_creation());
    assert!(deletion_effect.is_deletion());
    assert!(!deletion_effect.is_modification());
}

#[test]
fn test_transaction_receipt() {
    let id = UnitsObjectId::new([1; 32]);
    let controller_id = UnitsObjectId::new([2; 32]);
    let data = vec![0, 1, 2, 3, 4];
    let transaction_hash = [4; 32];
    let data_obj = UnitsObject::new_data(id, controller_id, data.clone());
    // RISC-V is the only VM type.
    let exec_obj = UnitsObject::new_executable(id, controller_id, VMType::RiscV, data.clone());

    let mut receipt = TransactionReceipt::new(transaction_hash, 1234, true, 56789);
    receipt.add_object_effect(transaction_hash, id, None, Some(data_obj.clone()));
    assert_eq!(receipt.effect_count(), 1);
    assert_eq!(receipt.effects.len(), 1);

    receipt.add_object_effect(transaction_hash, id, Some(data_obj.clone()), Some(exec_obj.clone()));
    assert_eq!(receipt.effect_count(), 2);
    assert!(receipt.effects[0].is_creation());
    assert!(receipt.effects[1].is_modification());
}

#[test]
fn test_transaction_receipt_creation() {
    let transaction_hash = [1u8; 32];
    let slot = 42;
    let success = true;
    let timestamp = 123456789;

    let mut receipt = TransactionReceipt::new(transaction_hash, slot, success, timestamp);
    assert_eq!(receipt.transaction_hash, transaction_hash);
    assert_eq!(receipt.slot, slot);
    assert_eq!(receipt.success, success);
    assert_eq!(receipt.timestamp, timestamp);
    assert_eq!(receipt.object_count(), 0);
    assert_eq!(receipt.effects.len(), 0);

    let object_id1 = UnitsObjectId::unique_id_for_tests();
    let object_id2 = UnitsObjectId::unique_id_for_tests();
    let proof1 = UnitsObjectProof::new(object_id1, [1u8; 32], current_slot(), vec![1, 2, 3], None, None);
    let proof2 = UnitsObjectProof::new(object_id2, [2u8; 32], current_slot(), vec![4, 5, 6], None, None);
    receipt.add_proof(object_id1, proof1);
    receipt.add_proof(object_id2, proof2);
    assert_eq!(receipt.object_count(), 2);
    assert!(receipt.object_proofs.contains_key(&object_id1));

    let error_msg = "Transaction failed".to_string();
    receipt.set_error(error_msg.clone());
    assert_eq!(receipt.success, false);
    assert_eq!(receipt.error_message, Some(error_msg));
}

#[test]
fn test_lock_manager_basic() {
    let lock_manager = InMemoryLockManager::new();
    let object_id = UnitsObjectId::random();
    let _guard = lock_manager.lock(&object_id).unwrap();
    let _try_guard = lock_manager.try_lock(&object_id).unwrap();
    let ids = [object_id, UnitsObjectId::random()];
    let guards = lock_manager.lock_many(&ids).unwrap();
    assert_eq!(guards.len(), 2);
}

#[test]
fn test_object_proof_generation_and_verification() {
    let engine = ProofEngine::new();
    let object_id = UnitsObjectId::from_bytes([1u8; 32]);
    let object = UnitsObject::new_data(object_id, object_id, vec![1, 2, 3]);
    let proof = engine.generate_object_proof(&object, None, None).unwrap();
    assert!(engine.verify_object_proof(&object, &proof).unwrap());

    let wrong_id = UnitsObjectId::from_bytes([2u8; 32]);
    let wrong_object = UnitsObject::new_data(wrong_id, wrong_id, vec![4, 5, 6]);
    assert!(!engine.verify_object_proof(&wrong_object, &proof).unwrap());
}

#[test]
fn test_proof_chain() {
    let engine = ProofEngine::new();
    let object_id = UnitsObjectId::from_bytes([1u8; 32]);
    let mut object = UnitsObject::new_data(object_id, object_id, vec![1, 2, 3]);
    let proof1 = engine.generate_object_proof(&object, None, None).unwrap();
    object.data = vec![4, 5, 6];
    let proof2 = engine.generate_object_proof(&object, Some(&proof1), None).unwrap();
    assert_eq!(proof2.prev_proof_hash, Some(proof1.hash()));
}

use units_core::vm_executor::{validate_object_effects, ObjectEffect};

fn object_of(id_byte: u8, controller: u8, data: Vec<u8>) -> UnitsObject {
    UnitsObject::new_data(UnitsObjectId::new([id_byte; 32]), UnitsObjectId::new([controller; 32]), data)
}

#[test]
fn controller_may_only_change_objects_it_controls() {
    let me = UnitsObjectId::new([1; 32]);
    assert!(validate_object_effects(&[], me).is_ok());
    let mine_before = object_of(5, 1, vec![1]);
    let mine_after = object_of(5, 1, vec![2]);
    let theirs = object_of(6, 2, vec![1]);
    let modify_mine = ObjectEffect { object_id: mine_before.id, before_image: Some(mine_before.clone()), after_image: Some(mine_after.clone()) };
    assert!(validate_object_effects(&[modify_mine], me).is_ok());
    let delete_theirs = ObjectEffect { object_id: theirs.id, before_image: Some(theirs.clone()), after_image: None };
    assert!(validate_object_effects(&[delete_theirs], me).is_err());
    let take_over = ObjectEffect { object_id: theirs.id, before_image: Some(theirs.clone()), after_image: Some(object_of(6, 1, vec![1])) };
    assert!(validate_object_effects(&[take_over], me).is_err());
    let give_away = ObjectEffect { object_id: mine_before.id, before_image: Some(mine_before.clone()), after_image: Some(object_of(5, 2, vec![1])) };
    assert!(validate_object_effects(&[give_away], me).is_err());
    let untouched = ObjectEffect { object_id: theirs.id, before_image: Some(theirs.clone()), after_image: Some(theirs) };
    assert!(validate_object_effects(&[untouched], me).is_ok());
}
