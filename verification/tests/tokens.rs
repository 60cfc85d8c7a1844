use units_core::id::UnitsObjectId;
use units_core::token::{
    BalanceData, BurnParams, MintParams, TokenData, TokenError, TokenFunction, TokenizeParams,
    TransferParams,
};
use units_core::transaction::Instruction;

#[test]
fn test_token_data_serialization() {
    let token = TokenData {
        total_supply: 1_000_000,
        decimals: 18,
        name: "Test Token".to_string(),
        symbol: "TEST".to_string(),
        is_frozen: false,
    };
    let serialized = token.encode().unwrap();
    let deserialized = TokenData::decode(&serialized).unwrap();
    assert_eq!(token.total_supply, deserialized.total_supply);
    assert_eq!(token.decimals, deserialized.decimals);
    assert_eq!(token.name, deserialized.name);
    assert_eq!(token.symbol, deserialized.symbol);
    assert_eq!(token.is_frozen, deserialized.is_frozen);
}

#[test]
fn test_balance_data_serialization() {
    let balance = BalanceData {
        token_id: UnitsObjectId::new([1; 32]),
        owner_id: UnitsObjectId::new([2; 32]),
        amount: 500_000,
    };
    let serialized = balance.encode();
    let deserialized = BalanceData::decode(&serialized).unwrap();
    assert_eq!(balance.token_id, deserialized.token_id);
    assert_eq!(balance.owner_id, deserialized.owner_id);
    assert_eq!(balance.amount, deserialized.amount);
}

#[test]
fn test_transfer_params_serialization() {
    let params = TransferParams { amount: 100 };
    let serialized = params.encode();
    let deserialized = TransferParams::decode(&serialized).unwrap();
    assert_eq!(params.amount, deserialized.amount);
}

#[test]
fn test_tokenize_params_serialization() {
    let params = TokenizeParams {
        initial_supply: 1_000_000,
        decimals: 18,
        name: "Test Token".to_string(),
        symbol: "TEST".to_string(),
    };
    let serialized = params.encode().unwrap();
    let deserialized = TokenizeParams::decode(&serialized).unwrap();
    assert_eq!(params.initial_supply, deserialized.initial_supply);
    assert_eq!(params.decimals, deserialized.decimals);
    assert_eq!(params.name, deserialized.name);
    assert_eq!(params.symbol, deserialized.symbol);
}

#[test]
fn test_token_functions() {
    assert_eq!(TokenFunction::Tokenize.as_str(), "tokenize");
    assert_eq!(TokenFunction::Transfer.as_str(), "transfer");
    assert_eq!(TokenFunction::Mint.as_str(), "mint");
    assert_eq!(TokenFunction::Burn.as_str(), "burn");
    assert_eq!(TokenFunction::Freeze.as_str(), "freeze");
    assert_eq!(TokenFunction::Unfreeze.as_str(), "unfreeze");
}

#[test]
fn lib_test_token_error_codes() {
    let err = TokenError::from_code(TokenError::INVALID_FUNCTION);
    assert_eq!(err.code, TokenError::INVALID_FUNCTION);
    assert_eq!(err.message, "Invalid function");
    let err = TokenError::from_code(TokenError::INSUFFICIENT_BALANCE);
    assert_eq!(err.code, TokenError::INSUFFICIENT_BALANCE);
    assert_eq!(err.message, "Insufficient balance");
}

#[test]
fn test_harness_test_token_error_codes() {
    assert_eq!(TokenError::from_code(TokenError::INVALID_FUNCTION).message, "Invalid function");
    assert_eq!(TokenError::from_code(TokenError::INVALID_PARAMS).message, "Invalid parameters");
    assert_eq!(TokenError::from_code(TokenError::INSUFFICIENT_BALANCE).message, "Insufficient balance");
    assert_eq!(TokenError::from_code(TokenError::UNAUTHORIZED).message, "Unauthorized");
    assert_eq!(TokenError::from_code(TokenError::TOKEN_FROZEN).message, "Token is frozen");
    assert_eq!(TokenError::from_code(TokenError::OVERFLOW).message, "Numeric overflow");
}

#[test]
fn test_tokenize_creates_token_and_initial_balance() {
    let token_id = UnitsObjectId::new([1; 32]);
    let creator_balance_id = UnitsObjectId::new([2; 32]);
    let controller_id = UnitsObjectId::new([3; 32]);
    let params = TokenizeParams {
        initial_supply: 1_000_000,
        decimals: 18,
        name: "Test Token".to_string(),
        symbol: "TEST".to_string(),
    };
    let instruction = Instruction {
        controller_id,
        target_function: TokenFunction::Tokenize.as_str().to_string(),
        target_objects: vec![token_id, creator_balance_id],
        params: params.encode().unwrap(),
    };
    assert_eq!(instruction.target_function, "tokenize");
    assert_eq!(instruction.target_objects.len(), 2);
}

#[test]
fn test_transfer_updates_balances() {
    let token_id = UnitsObjectId::new([1; 32]);
    let from_balance_id = UnitsObjectId::new([2; 32]);
    let to_balance_id = UnitsObjectId::new([3; 32]);
    let controller_id = UnitsObjectId::new([4; 32]);
    let from_balance = BalanceData { token_id, owner_id: UnitsObjectId::new([5; 32]), amount: 1000 };
    let _to_balance = BalanceData { token_id, owner_id: UnitsObjectId::new([6; 32]), amount: 0 };
    let params = TransferParams { amount: 100 };
    let instruction = Instruction {
        controller_id,
        target_function: TokenFunction::Transfer.as_str().to_string(),
        target_objects: vec![token_id, from_balance_id, to_balance_id],
        params: params.encode(),
    };
    assert_eq!(instruction.target_function, "transfer");
    assert_eq!(instruction.target_objects.len(), 3);
    assert!(from_balance.amount >= params.amount);
}

#[test]
fn test_mint_increases_supply() {
    let token_id = UnitsObjectId::new([1; 32]);
    let balance_id = UnitsObjectId::new([2; 32]);
    let controller_id = UnitsObjectId::new([3; 32]);
    let params = MintParams { amount: 500 };
    let instruction = Instruction {
        controller_id,
        target_function: TokenFunction::Mint.as_str().to_string(),
        target_objects: vec![token_id, balance_id],
        params: params.encode(),
    };
    assert_eq!(instruction.target_function, "mint");
    assert_eq!(instruction.target_objects.len(), 2);
}

#[test]
fn test_burn_decreases_supply() {
    let token_id = UnitsObjectId::new([1; 32]);
    let balance_id = UnitsObjectId::new([2; 32]);
    let controller_id = UnitsObjectId::new([3; 32]);
    let params = BurnParams { amount: 100 };
    let instruction = Instruction {
        controller_id,
        target_function: TokenFunction::Burn.as_str().to_string(),
        target_objects: vec![token_id, balance_id],
        params: params.encode(),
    };
    assert_eq!(instruction.target_function, "burn");
    assert_eq!(instruction.target_objects.len(), 2);
}

#[test]
fn test_freeze_and_unfreeze() {
    let token_id = UnitsObjectId::new([1; 32]);
    let controller_id = UnitsObjectId::new([2; 32]);
    let freeze_instruction = Instruction {
        controller_id,
        target_function: TokenFunction::Freeze.as_str().to_string(),
        target_objects: vec![token_id],
        params: vec![],
    };
    assert_eq!(freeze_instruction.target_function, "freeze");
    assert_eq!(freeze_instruction.target_objects.len(), 1);
    let unfreeze_instruction = Instruction {
        controller_id,
        target_function: TokenFunction::Unfreeze.as_str().to_string(),
        target_objects: vec![token_id],
        params: vec![],
    };
    assert_eq!(unfreeze_instruction.target_function, "unfreeze");
    assert_eq!(unfreeze_instruction.target_objects.len(), 1);
}

use units_core::id_map::IdMap;
use units_core::kernel::KernelError;
use units_core::objects::{ObjectType, UnitsObject};
use units_core::token::{handle_burn_token, handle_mint_token, handle_transfer_token};
use units_core::vm_executor::ExecutionContext;

fn create_test_token_object(id: UnitsObjectId, controller_id: UnitsObjectId, token_data: TokenData) -> UnitsObject {
    UnitsObject { id, controller_id, object_type: ObjectType::Data, data: token_data.encode().unwrap() }
}

fn create_test_balance_object(id: UnitsObjectId, controller_id: UnitsObjectId, balance_data: BalanceData) -> UnitsObject {
    UnitsObject { id, controller_id, object_type: ObjectType::Data, data: balance_data.encode() }
}

fn token_context(frozen: bool, from_amount: u64, to_amount: u64, function: TokenFunction, params: Vec<u8>) -> ExecutionContext {
    let controller = UnitsObjectId::new([9; 32]);
    let token_id = UnitsObjectId::new([1; 32]);
    let from_id = UnitsObjectId::new([2; 32]);
    let to_id = UnitsObjectId::new([3; 32]);
    let token = TokenData {
        total_supply: from_amount + to_amount,
        decimals: 0,
        name: "T".to_string(),
        symbol: "T".to_string(),
        is_frozen: frozen,
    };
    let mut objects = IdMap::new();
    objects.insert(token_id, create_test_token_object(token_id, controller, token));
    objects.insert(
        from_id,
        create_test_balance_object(from_id, controller, BalanceData { token_id, owner_id: UnitsObjectId::new([5; 32]), amount: from_amount }),
    );
    objects.insert(
        to_id,
        create_test_balance_object(to_id, controller, BalanceData { token_id, owner_id: UnitsObjectId::new([6; 32]), amount: to_amount }),
    );
    let instruction = Instruction {
        controller_id: controller,
        target_function: function.as_str().to_string(),
        target_objects: vec![token_id, from_id, to_id],
        params,
    };
    ExecutionContext::new(instruction, objects, 1, 2)
}

fn balance_after(effect: &units_core::vm_executor::ObjectEffect) -> u64 {
    BalanceData::decode(&effect.after_image.as_ref().unwrap().data).unwrap().amount
}

#[test]
fn transfer_moves_the_amount_between_balances() {
    let ctx = token_context(false, 1000, 5, TokenFunction::Transfer, TransferParams { amount: 100 }.encode());
    let effects = handle_transfer_token(&ctx).unwrap();
    assert_eq!(effects.len(), 2);
    assert_eq!(balance_after(&effects[0]), 900);
    assert_eq!(balance_after(&effects[1]), 105);
    assert_eq!(balance_after(&effects[0]) + balance_after(&effects[1]), 1005);
}

#[test]
fn transfer_refusals() {
    let frozen = token_context(true, 1000, 0, TokenFunction::Transfer, TransferParams { amount: 1 }.encode());
    assert!(matches!(handle_transfer_token(&frozen), Err(KernelError::TokenFrozen)));
    let poor = token_context(false, 10, 0, TokenFunction::Transfer, TransferParams { amount: 11 }.encode());
    assert!(matches!(handle_transfer_token(&poor), Err(KernelError::InsufficientBalance)));
    let full = token_context(false, 10, u64::MAX - 5, TokenFunction::Transfer, TransferParams { amount: 10 }.encode());
    assert!(matches!(handle_transfer_token(&full), Err(KernelError::Overflow)));
    let garbled = token_context(false, 10, 0, TokenFunction::Transfer, vec![1, 2]);
    assert!(matches!(handle_transfer_token(&garbled), Err(KernelError::InvalidParams)));
}

#[test]
fn mint_and_burn_change_supply_and_balance() {
    let ctx = token_context(false, 100, 0, TokenFunction::Mint, MintParams { amount: 50 }.encode());
    let effects = handle_mint_token(&ctx).unwrap();
    let supply = TokenData::decode(&effects[0].after_image.as_ref().unwrap().data).unwrap().total_supply;
    assert_eq!(supply, 150);
    assert_eq!(balance_after(&effects[1]), 150);
    let ctx = token_context(false, 100, 0, TokenFunction::Burn, BurnParams { amount: 30 }.encode());
    let effects = handle_burn_token(&ctx).unwrap();
    let supply = TokenData::decode(&effects[0].after_image.as_ref().unwrap().data).unwrap().total_supply;
    assert_eq!(supply, 70);
    assert_eq!(balance_after(&effects[1]), 70);
    let ctx = token_context(false, 10, 0, TokenFunction::Burn, BurnParams { amount: 30 }.encode());
    assert!(matches!(handle_burn_token(&ctx), Err(KernelError::InsufficientBalance)));
}

use units_core::token::TokenModule;

fn run(objects: &mut Vec<UnitsObject>, controller: UnitsObjectId, function: &str, targets: Vec<UnitsObjectId>, params: Vec<u8>) -> Result<(), KernelError> {
    let mut map = IdMap::new();
    for o in objects.iter() {
        map.insert(o.id, o.clone());
    }
    let instruction = Instruction { controller_id: controller, target_function: function.to_string(), target_objects: targets, params };
    let effects = TokenModule::execute(&ExecutionContext::new(instruction, map, 1, 0))?;
    for effect in effects {
        objects.retain(|o| o.id != effect.object_id);
        if let Some(after) = effect.after_image {
            objects.push(after);
        }
    }
    Ok(())
}

fn token_in(objects: &[UnitsObject], id: UnitsObjectId) -> TokenData {
    TokenData::decode(&objects.iter().find(|o| o.id == id).expect("Token should exist").data).unwrap()
}

fn balance_in(objects: &[UnitsObject], id: UnitsObjectId) -> u64 {
    BalanceData::decode(&objects.iter().find(|o| o.id == id).expect("Alice balance should exist").data).unwrap().amount
}

#[test]
fn test_complete_token_lifecycle() {
    let mut objects: Vec<UnitsObject> = Vec::new();
    let token_id = UnitsObjectId::new([1; 32]);
    let alice_balance_id = UnitsObjectId::new([2; 32]);
    let bob_balance_id = UnitsObjectId::new([3; 32]);
    let controller_id = UnitsObjectId::new([5; 32]);
    let bob_id = UnitsObjectId::new([7; 32]);

    let tokenize = TokenizeParams { initial_supply: 1_000_000, decimals: 18, name: "Test Token".to_string(), symbol: "TEST".to_string() };
    run(&mut objects, controller_id, "create_token", vec![token_id, alice_balance_id], tokenize.encode().unwrap())
        .expect("Tokenize should succeed");
    let token = token_in(&objects, token_id);
    assert_eq!(token.total_supply, 1_000_000);
    assert_eq!(token.symbol, "TEST");
    assert!(!token.is_frozen);
    assert_eq!(balance_in(&objects, alice_balance_id), 1_000_000);

    objects.push(create_test_balance_object(bob_balance_id, controller_id, BalanceData { token_id, owner_id: bob_id, amount: 0 }));

    let three = vec![token_id, alice_balance_id, bob_balance_id];
    run(&mut objects, controller_id, "transfer_token", three.clone(), TransferParams { amount: 100_000 }.encode())
        .expect("Transfer should succeed");
    assert_eq!(balance_in(&objects, alice_balance_id), 900_000);
    assert_eq!(balance_in(&objects, bob_balance_id), 100_000);

    run(&mut objects, controller_id, "mint_token", vec![token_id, alice_balance_id], MintParams { amount: 500_000 }.encode())
        .expect("Mint should succeed");
    assert_eq!(token_in(&objects, token_id).total_supply, 1_500_000);
    assert_eq!(balance_in(&objects, alice_balance_id), 1_400_000);

    run(&mut objects, controller_id, "freeze_token", vec![token_id], vec![]).expect("Freeze should succeed");
    let frozen = run(&mut objects, controller_id, "transfer_token", three, TransferParams { amount: 50_000 }.encode());
    assert!(matches!(frozen, Err(KernelError::TokenFrozen)));

    run(&mut objects, controller_id, "unfreeze_token", vec![token_id], vec![]).expect("Unfreeze should succeed");
    run(&mut objects, controller_id, "burn_token", vec![token_id, bob_balance_id], BurnParams { amount: 50_000 }.encode())
        .expect("Burn should succeed");
    assert_eq!(token_in(&objects, token_id).total_supply, 1_450_000);
    assert_eq!(balance_in(&objects, bob_balance_id), 50_000);
}

#[test]
fn token_test_error_cases() {
    let token_id = UnitsObjectId::new([1; 32]);
    let alice_balance_id = UnitsObjectId::new([2; 32]);
    let bob_balance_id = UnitsObjectId::new([3; 32]);
    let controller_id = UnitsObjectId::new([4; 32]);
    let token = TokenData { total_supply: 1000, decimals: 18, name: "Test".to_string(), symbol: "TST".to_string(), is_frozen: false };
    let mut objects = vec![
        create_test_token_object(token_id, controller_id, token),
        create_test_balance_object(alice_balance_id, controller_id, BalanceData { token_id, owner_id: UnitsObjectId::new([5; 32]), amount: 100 }),
        create_test_balance_object(bob_balance_id, controller_id, BalanceData { token_id, owner_id: UnitsObjectId::new([6; 32]), amount: u64::MAX - 50 }),
    ];
    let three = vec![token_id, alice_balance_id, bob_balance_id];
    let r = run(&mut objects, controller_id, "transfer_token", three.clone(), TransferParams { amount: 200 }.encode());
    assert!(matches!(r, Err(KernelError::InsufficientBalance)));
    let r = run(&mut objects, controller_id, "transfer_token", three, TransferParams { amount: 100 }.encode());
    assert!(matches!(r, Err(KernelError::Overflow)));
    let r = run(&mut objects, controller_id, "invalid_function", vec![], vec![]);
    assert!(matches!(r, Err(KernelError::InvalidFunction)));
    let r = run(&mut objects, controller_id, "transfer_token", vec![token_id], TransferParams { amount: 10 }.encode());
    assert!(matches!(r, Err(KernelError::InvalidParams)));
}
