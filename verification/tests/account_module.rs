use units_core::account::{AccountData, AccountFunction, AccountModule};
use units_core::id::UnitsObjectId;
use units_core::id_map::IdMap;
use units_core::kernel::KernelError;
use units_core::objects::{ObjectType, UnitsObject};
use units_core::transaction::Instruction;
use units_core::vm_executor::ExecutionContext;

fn id(b: u8) -> UnitsObjectId {
    UnitsObjectId::new([b; 32])
}

fn put_string(out: &mut Vec<u8>, s: &str) {
    out.extend_from_slice(&(s.len() as u32).to_le_bytes());
    out.extend_from_slice(s.as_bytes());
}

/// Creation parameters in their binary form: username, display name, no
/// metadata, recovery addresses.
fn create_params(username: Option<&str>, display: &str, recovery: &[UnitsObjectId]) -> Vec<u8> {
    let mut out = Vec::new();
    match username {
        Some(u) => {
            out.push(1);
            put_string(&mut out, u);
        },
        None => out.push(0),
    }
    put_string(&mut out, display);
    out.extend_from_slice(&0u32.to_le_bytes());
    out.extend_from_slice(&(recovery.len() as u32).to_le_bytes());
    for r in recovery {
        out.extend_from_slice(&r.bytes);
    }
    out
}

fn context(function: AccountFunction, controller: UnitsObjectId, objects: Vec<UnitsObject>, params: Vec<u8>, timestamp: u64) -> ExecutionContext {
    let mut map = IdMap::new();
    for o in objects {
        map.insert(o.id, o);
    }
    let instruction = Instruction::new(controller, function.as_str().to_string(), vec![id(1)], params);
    ExecutionContext::new(instruction, map, 1, timestamp)
}

fn created_account(recovery: &[UnitsObjectId]) -> UnitsObject {
    let ctx = context(AccountFunction::CreateAccount, id(9), vec![], create_params(Some("alice_1"), "Alice", recovery), 10);
    let effects = AccountModule::handle_create_account(&ctx).unwrap();
    effects[0].after_image.clone().unwrap()
}

fn account_of(o: &UnitsObject) -> AccountData {
    AccountData::decode(&o.data).unwrap()
}

#[test]
fn creation_writes_an_active_account() {
    let object = created_account(&[id(7)]);
    assert_eq!((object.id, object.controller_id, object.object_type), (id(1), id(9), ObjectType::Data));
    let account = account_of(&object);
    assert_eq!(account.username.as_deref(), Some("alice_1"));
    assert_eq!(account.display_name, "Alice");
    assert!(account.is_active);
    assert_eq!((account.created_at, account.updated_at), (10, 10));
    assert_eq!(account.recovery_addresses, vec![id(7)]);
}

#[test]
fn creation_refusals() {
    let bad_name = context(AccountFunction::CreateAccount, id(9), vec![], create_params(Some("a b"), "A", &[]), 0);
    assert!(matches!(AccountModule::handle_create_account(&bad_name), Err(KernelError::InvalidParams)));
    let existing = created_account(&[]);
    let again = context(AccountFunction::CreateAccount, id(9), vec![existing], create_params(None, "A", &[]), 0);
    assert!(matches!(AccountModule::handle_create_account(&again), Err(KernelError::InvalidParams)));
    let garbled = context(AccountFunction::CreateAccount, id(9), vec![], vec![9, 9], 0);
    assert!(matches!(AccountModule::handle_create_account(&garbled), Err(KernelError::InvalidParams)));
}

#[test]
fn deactivation_then_reactivation_by_recovery_address() {
    let object = created_account(&[id(7)]);
    let deactivate = context(AccountFunction::DeactivateAccount, id(9), vec![object], vec![0], 20);
    let effects = AccountModule::handle_deactivate_account(&deactivate).unwrap();
    let inactive = effects[0].after_image.clone().unwrap();
    assert!(!account_of(&inactive).is_active);
    assert_eq!(account_of(&inactive).updated_at, 20);
    let again = context(AccountFunction::DeactivateAccount, id(9), vec![inactive.clone()], vec![0], 21);
    assert!(matches!(AccountModule::handle_deactivate_account(&again), Err(KernelError::InvalidParams)));
    let stranger = context(AccountFunction::ReactivateAccount, id(8), vec![inactive.clone()], vec![0], 30);
    assert!(matches!(AccountModule::handle_reactivate_account(&stranger), Err(KernelError::Unauthorized)));
    let recovery = context(AccountFunction::ReactivateAccount, id(7), vec![inactive], vec![0], 30);
    let effects = AccountModule::handle_reactivate_account(&recovery).unwrap();
    assert!(account_of(&effects[0].after_image.clone().unwrap()).is_active);
}

#[test]
fn recovery_addresses_are_added_once_and_removed() {
    let object = created_account(&[]);
    let add = context(AccountFunction::AddRecoveryAddress, id(9), vec![object], id(5).bytes.to_vec(), 40);
    let added = AccountModule::handle_add_recovery_address(&add).unwrap()[0].after_image.clone().unwrap();
    assert_eq!(account_of(&added).recovery_addresses, vec![id(5)]);
    let twice = context(AccountFunction::AddRecoveryAddress, id(9), vec![added.clone()], id(5).bytes.to_vec(), 41);
    assert!(matches!(AccountModule::handle_add_recovery_address(&twice), Err(KernelError::InvalidParams)));
    let remove = context(AccountFunction::RemoveRecoveryAddress, id(9), vec![added.clone()], id(5).bytes.to_vec(), 42);
    let removed = AccountModule::handle_remove_recovery_address(&remove).unwrap()[0].after_image.clone().unwrap();
    assert!(account_of(&removed).recovery_addresses.is_empty());
    let missing = context(AccountFunction::RemoveRecoveryAddress, id(9), vec![removed], id(5).bytes.to_vec(), 43);
    assert!(matches!(AccountModule::handle_remove_recovery_address(&missing), Err(KernelError::InvalidParams)));
    let unauthorized = context(AccountFunction::AddRecoveryAddress, id(8), vec![added], id(6).bytes.to_vec(), 44);
    assert!(matches!(AccountModule::handle_add_recovery_address(&unauthorized), Err(KernelError::Unauthorized)));
}

#[test]
fn reading_an_account_changes_nothing() {
    let object = created_account(&[]);
    let get = context(AccountFunction::GetAccount, id(3), vec![object], vec![], 0);
    assert!(AccountModule::handle_get_account(&get).unwrap().is_empty());
    let none = context(AccountFunction::GetAccount, id(3), vec![], vec![], 0);
    assert!(matches!(AccountModule::handle_get_account(&none), Err(KernelError::ObjectNotFound)));
}

fn put_metadata(out: &mut Vec<u8>, entries: &[(&str, &str)]) {
    out.extend_from_slice(&(entries.len() as u32).to_le_bytes());
    for (k, v) in entries {
        put_string(out, k);
        put_string(out, v);
    }
}

fn put_opt_string(out: &mut Vec<u8>, s: Option<&str>) {
    match s {
        Some(x) => {
            out.push(1);
            put_string(out, x);
        },
        None => out.push(0),
    }
}

fn full_create_params(username: &str, display: &str, metadata: &[(&str, &str)], recovery: &[UnitsObjectId]) -> Vec<u8> {
    let mut out = Vec::new();
    put_opt_string(&mut out, Some(username));
    put_string(&mut out, display);
    put_metadata(&mut out, metadata);
    out.extend_from_slice(&(recovery.len() as u32).to_le_bytes());
    for r in recovery {
        out.extend_from_slice(&r.bytes);
    }
    out
}

fn update_params(display: Option<&str>, metadata: Option<&[(&str, &str)]>) -> Vec<u8> {
    let mut out = Vec::new();
    out.push(0);
    put_opt_string(&mut out, display);
    match metadata {
        Some(m) => {
            out.push(1);
            put_metadata(&mut out, m);
        },
        None => out.push(0),
    }
    out
}

fn instruction_context(function: &str, controller: UnitsObjectId, target: UnitsObjectId, objects: &[UnitsObject], params: Vec<u8>, timestamp: u64) -> ExecutionContext {
    let mut map = IdMap::new();
    for o in objects {
        map.insert(o.id, o.clone());
    }
    let instruction = Instruction::new(controller, function.to_string(), vec![target], params);
    ExecutionContext::new(instruction, map, 1, timestamp)
}

fn apply(objects: &mut Vec<UnitsObject>, effects: Vec<units_core::vm_executor::ObjectEffect>) {
    for effect in effects {
        objects.retain(|o| o.id != effect.object_id);
        if let Some(after) = effect.after_image {
            objects.push(after);
        }
    }
}

fn find(objects: &[UnitsObject], id: UnitsObjectId) -> AccountData {
    account_of(objects.iter().find(|o| o.id == id).expect("Account should exist"))
}

#[test]
fn test_complete_account_lifecycle() {
    let mut objects: Vec<UnitsObject> = Vec::new();
    let mut now = 1234567890u64;
    let alice = UnitsObjectId::new([1; 32]);
    let controller = UnitsObjectId::new([2; 32]);
    let recovery_1 = UnitsObjectId::new([3; 32]);
    let recovery_2 = UnitsObjectId::new([4; 32]);

    let params = full_create_params(
        "alice123",
        "Alice Smith",
        &[("email", "alice@example.com"), ("bio", "Software developer and crypto enthusiast")],
        &[recovery_1],
    );
    let ctx = instruction_context("create_account", controller, alice, &objects, params, now);
    let effects = AccountModule::execute(&ctx).expect("Create account should succeed");
    apply(&mut objects, effects);
    let data = find(&objects, alice);
    assert_eq!(data.username, Some("alice123".to_string()));
    assert_eq!(data.display_name, "Alice Smith");
    assert!(data.is_active);
    assert_eq!(data.recovery_addresses.len(), 1);
    assert_eq!(data.metadata.len(), 2);

    now += 3600;
    let params = update_params(
        Some("Alice Johnson"),
        Some(&[("email", "alice.johnson@example.com"), ("bio", "Senior software developer"), ("location", "San Francisco, CA")]),
    );
    let ctx = instruction_context("update_account", controller, alice, &objects, params, now);
    let effects = AccountModule::execute(&ctx).expect("Update account should succeed");
    apply(&mut objects, effects);
    let data = find(&objects, alice);
    assert_eq!(data.display_name, "Alice Johnson");
    assert_eq!(data.metadata.len(), 3);
    assert!(data.updated_at > data.created_at);

    let ctx = instruction_context("add_recovery_address", controller, alice, &objects, recovery_2.bytes.to_vec(), now);
    let effects = AccountModule::execute(&ctx).expect("Add recovery address should succeed");
    apply(&mut objects, effects);
    let data = find(&objects, alice);
    assert_eq!(data.recovery_addresses.len(), 2);
    assert!(data.recovery_addresses.contains(&recovery_2));

    let ctx = instruction_context("add_recovery_address", controller, alice, &objects, recovery_2.bytes.to_vec(), now);
    assert!(matches!(AccountModule::execute(&ctx), Err(KernelError::InvalidParams)));

    let mut reason = Vec::new();
    put_opt_string(&mut reason, Some("User requested deactivation"));
    let ctx = instruction_context("deactivate_account", controller, alice, &objects, reason, now);
    let effects = AccountModule::execute(&ctx).expect("Deactivate account should succeed");
    apply(&mut objects, effects);
    assert!(!find(&objects, alice).is_active);

    let ctx = instruction_context("update_account", controller, alice, &objects, update_params(Some("Should Fail"), None), now);
    assert!(matches!(AccountModule::execute(&ctx), Err(KernelError::InvalidParams)));

    let ctx = instruction_context("reactivate_account", recovery_1, alice, &objects, vec![0], now);
    let effects = AccountModule::execute(&ctx).expect("Reactivate account should succeed");
    apply(&mut objects, effects);
    assert!(find(&objects, alice).is_active);

    let ctx = instruction_context("remove_recovery_address", controller, alice, &objects, recovery_1.bytes.to_vec(), now);
    let effects = AccountModule::execute(&ctx).expect("Remove recovery address should succeed");
    apply(&mut objects, effects);
    let data = find(&objects, alice);
    assert_eq!(data.recovery_addresses.len(), 1);
    assert!(!data.recovery_addresses.contains(&recovery_1));
}

#[test]
fn integration_test_test_error_cases() {
    let mut objects: Vec<UnitsObject> = Vec::new();
    let account = UnitsObjectId::new([1; 32]);
    let controller = UnitsObjectId::new([2; 32]);
    let intruder = UnitsObjectId::new([3; 32]);

    let ctx = instruction_context("create_account", controller, account, &objects, full_create_params("a", "Test", &[], &[]), 0);
    assert!(matches!(AccountModule::execute(&ctx), Err(KernelError::InvalidParams)));

    let create = full_create_params("testuser", "Test User", &[], &[]);
    let ctx = instruction_context("create_account", controller, account, &objects, create.clone(), 0);
    apply(&mut objects, AccountModule::execute(&ctx).unwrap());
    let ctx = instruction_context("create_account", controller, account, &objects, create, 0);
    assert!(matches!(AccountModule::execute(&ctx), Err(KernelError::InvalidParams)));

    let ctx = instruction_context("update_account", intruder, account, &objects, update_params(Some("Hacked"), None), 0);
    assert!(matches!(AccountModule::execute(&ctx), Err(KernelError::Unauthorized)));

    let instruction = Instruction::new(controller, "invalid_function".to_string(), vec![], vec![]);
    let ctx = ExecutionContext::new(instruction, IdMap::new(), 1, 0);
    assert!(matches!(AccountModule::execute(&ctx), Err(KernelError::InvalidFunction)));

    let ctx = instruction_context("get_account", controller, UnitsObjectId::new([99; 32]), &objects, vec![], 0);
    assert!(matches!(AccountModule::execute(&ctx), Err(KernelError::ObjectNotFound)));
}
