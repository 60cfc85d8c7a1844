use units_core::account::{
    validate_username, AccountData as LegacyAccountData, AccountError, AccountFunction,
    AccountMetadata as LegacyMetadata,
};
use units_core::crypto::{create_operation_message, PublicKey, Signature};
use units_core::id::UnitsObjectId;
use units_core::secure_account::{
    validate_username as validate_username_v2, AccountData, EnhancedAccountData, MetadataMap,
};
use units_core::auth::{AuthFactor, SignatureType};
use curve25519_dalek::{constants::ED25519_BASEPOINT_POINT, scalar::Scalar};

#[test]
fn lib_test_username_validation() {
    assert!(validate_username("alice"));
    assert!(validate_username("bob_123"));
    assert!(validate_username("user_name_123"));
    assert!(!validate_username("ab"));
    assert!(!validate_username("a".repeat(33).as_str()));
    assert!(!validate_username("user-name"));
    assert!(!validate_username("user name"));
    assert!(!validate_username("user@name"));
}

#[test]
fn test_account_functions() {
    assert_eq!(AccountFunction::CreateAccount.as_str(), "create_account");
    assert_eq!(AccountFunction::UpdateAccount.as_str(), "update_account");
    assert_eq!(AccountFunction::AddRecoveryAddress.as_str(), "add_recovery_address");
    assert_eq!(AccountFunction::RemoveRecoveryAddress.as_str(), "remove_recovery_address");
    assert_eq!(AccountFunction::DeactivateAccount.as_str(), "deactivate_account");
    assert_eq!(AccountFunction::ReactivateAccount.as_str(), "reactivate_account");
    assert_eq!(AccountFunction::GetAccount.as_str(), "get_account");
}

#[test]
fn test_account_error_codes() {
    let err = AccountError::from_code(AccountError::INVALID_USERNAME);
    assert_eq!(err.code, AccountError::INVALID_USERNAME);
    assert_eq!(err.message, "Invalid username format");
    let err = AccountError::from_code(AccountError::ACCOUNT_NOT_FOUND);
    assert_eq!(err.code, AccountError::ACCOUNT_NOT_FOUND);
    assert_eq!(err.message, "Account not found");
}

#[test]
fn lib_test_account_data_serialization() {
    let account = LegacyAccountData {
        account_id: UnitsObjectId::new([1; 32]),
        username: Some("alice".to_string()),
        display_name: "Alice Smith".to_string(),
        metadata: vec![LegacyMetadata { key: "email".to_string(), value: "alice@example.com".to_string() }],
        is_active: true,
        created_at: 1234567890,
        updated_at: 1234567890,
        recovery_addresses: vec![UnitsObjectId::new([2; 32])],
    };
    let serialized = account.encode().unwrap();
    let deserialized = LegacyAccountData::decode(&serialized).unwrap();
    assert_eq!(account.account_id, deserialized.account_id);
    assert_eq!(account.username, deserialized.username);
    assert_eq!(account.display_name, deserialized.display_name);
    assert_eq!(account.metadata.len(), deserialized.metadata.len());
    assert_eq!(account.is_active, deserialized.is_active);
    assert_eq!(account.created_at, deserialized.created_at);
    assert_eq!(account.recovery_addresses.len(), deserialized.recovery_addresses.len());
}

#[test]
fn test_username_edge_cases() {
    assert!(validate_username("abc"));
    assert!(validate_username("user123"));
    assert!(validate_username("test_user"));
    assert!(validate_username("_underscore"));
    assert!(validate_username("UPPERCASE"));
    assert!(validate_username("mixedCase123"));
    assert!(validate_username("a".repeat(32).as_str()));
    assert!(!validate_username("ab"));
    assert!(!validate_username("a".repeat(33).as_str()));
    assert!(!validate_username("user-name"));
    assert!(!validate_username("user name"));
    assert!(!validate_username("user@email"));
    assert!(!validate_username("user.name"));
    assert!(!validate_username(""));
}

#[test]
fn test_validate_username() {
    assert!(validate_username_v2("user123"));
    assert!(validate_username_v2("test_user"));
    assert!(validate_username_v2("ABC"));
    assert!(!validate_username_v2("ab"));
    assert!(!validate_username_v2("a".repeat(33).as_str()));
    assert!(!validate_username_v2("user@123"));
    assert!(!validate_username_v2("user name"));
}

#[test]
fn integration_test_test_username_validation() {
    assert!(validate_username_v2("user123"));
    assert!(validate_username_v2("test_user"));
    assert!(validate_username_v2("ABC"));
    assert!(validate_username_v2("user_name_123"));
    assert!(!validate_username_v2("ab"));
    assert!(!validate_username_v2(&"a".repeat(33)));
    assert!(!validate_username_v2("user@123"));
    assert!(!validate_username_v2("user name"));
    assert!(!validate_username_v2("user-name"));
    assert!(!validate_username_v2("user.name"));
}

#[test]
fn test_username_validation_still_works() {
    assert!(validate_username_v2("user123"));
    assert!(validate_username_v2("test_user"));
    assert!(validate_username_v2("ABC"));
    assert!(validate_username_v2("user_name_123"));
    assert!(!validate_username_v2("ab"));
    assert!(!validate_username_v2(&"a".repeat(33)));
    assert!(!validate_username_v2("user@123"));
    assert!(!validate_username_v2("user name"));
    assert!(!validate_username_v2("user-name"));
    assert!(!validate_username_v2("user.name"));
}

#[test]
fn test_signature_creation() {
    let sig_bytes = [1u8; 64];
    let signature = Signature::new(sig_bytes);
    assert_eq!(signature.to_bytes(), sig_bytes);
    let sig_from_slice = Signature::from_slice(&sig_bytes).unwrap();
    assert_eq!(sig_from_slice, signature);
    let invalid_slice = [1u8; 32];
    assert!(Signature::from_slice(&invalid_slice).is_err());
}

#[test]
fn test_signature_creation_and_verification() {
    let sig_bytes = [42u8; 64];
    let signature = Signature::new(sig_bytes);
    assert_eq!(signature.to_bytes(), sig_bytes);
    let sig_from_slice = Signature::from_slice(&sig_bytes).unwrap();
    assert_eq!(sig_from_slice, signature);
    let invalid_slice = [1u8; 32];
    assert!(Signature::from_slice(&invalid_slice).is_err());
}

#[test]
fn test_public_key_conversion() {
    let secret = Scalar::from_bytes_mod_order([1u8; 32]);
    let point = secret * ED25519_BASEPOINT_POINT;
    let compressed = point.compress();
    let public_key = PublicKey::from_bytes(&compressed.to_bytes()).unwrap();
    assert_eq!(public_key.compressed, compressed.to_bytes());
    assert_eq!(public_key.point, point);
    let object_id = public_key.to_units_object_id();
    let recovered_key = PublicKey::from_units_object_id(&object_id).unwrap();
    assert_eq!(recovered_key.to_bytes(), public_key.to_bytes());
}

#[test]
fn test_public_key_operations() {
    let secret = Scalar::from_bytes_mod_order([1u8; 32]);
    let point = secret * ED25519_BASEPOINT_POINT;
    let compressed = point.compress();
    let public_key = PublicKey::from_bytes(&compressed.to_bytes()).unwrap();
    assert_eq!(public_key.compressed, compressed.to_bytes());
    assert_eq!(public_key.point, point);
    let object_id = public_key.to_units_object_id();
    let recovered_key = PublicKey::from_units_object_id(&object_id).unwrap();
    assert_eq!(recovered_key.to_bytes(), public_key.to_bytes());
}

fn expected_message(account_id: &UnitsObjectId, timestamp: u64, params: &[u8]) -> Vec<u8> {
    let mut expected = Vec::new();
    expected.extend_from_slice(b"update_account");
    expected.extend_from_slice(account_id.bytes());
    expected.extend_from_slice(&timestamp.to_le_bytes());
    expected.extend_from_slice(params);
    expected
}

#[test]
fn crypto_test_operation_message_creation() {
    let account_id = UnitsObjectId::new([42u8; 32]);
    let timestamp = 1234567890u64;
    let params = vec![1, 2, 3, 4];
    let message = create_operation_message("update_account", &account_id, timestamp, &params);
    assert_eq!(message, expected_message(&account_id, timestamp, &params));
}

#[test]
fn signature_test_test_operation_message_creation() {
    let account_id = UnitsObjectId::new([42u8; 32]);
    let timestamp = 1234567890u64;
    let params = vec![1, 2, 3, 4];
    let message = create_operation_message("update_account", &account_id, timestamp, &params);
    assert_eq!(message, expected_message(&account_id, timestamp, &params));
}

#[test]
fn test_account_data_builder() {
    let account_id = UnitsObjectId::new([1u8; 32]);
    let timestamp = 1234567890;
    let account = AccountData::new(account_id, timestamp)
        .with_username("testuser".to_string())
        .with_display_name("Test User".to_string());
    assert_eq!(account.account_id, account_id);
    assert_eq!(account.username, Some("testuser".to_string()));
    assert_eq!(account.display_name, Some("Test User".to_string()));
    assert!(account.is_active);
    assert_eq!(account.created_at, timestamp);
    assert_eq!(account.updated_at, timestamp);
}

#[test]
fn test_account_data_creation() {
    let account_id = UnitsObjectId::new([1u8; 32]);
    let timestamp = 1234567890;
    let account = AccountData::new(account_id, timestamp)
        .with_username("testuser".to_string())
        .with_display_name("Test User".to_string());
    assert_eq!(account.account_id, account_id);
    assert_eq!(account.username, Some("testuser".to_string()));
    assert_eq!(account.display_name, Some("Test User".to_string()));
    assert!(account.is_active);
    assert_eq!(account.created_at, timestamp);
    assert_eq!(account.updated_at, timestamp);
}

fn same_metadata(a: &MetadataMap, b: &MetadataMap) -> bool {
    a.len() == b.len() && (0..a.len()).all(|i| a.entry(i) == b.entry(i))
}

#[test]
fn integration_test_test_account_data_serialization() {
    let account_id = UnitsObjectId::new([1u8; 32]);
    let recovery_id = UnitsObjectId::new([2u8; 32]);
    let mut metadata = MetadataMap::new();
    metadata.insert("email".to_string(), "test@example.com".to_string());
    let account = AccountData::new(account_id, 1234567890)
        .with_username("testuser".to_string())
        .with_display_name("Test User".to_string())
        .with_metadata(metadata.clone())
        .with_recovery_addresses(vec![recovery_id]);
    let serialized = account.encode().unwrap();
    let deserialized = AccountData::decode(&serialized).unwrap();
    assert_eq!(account.account_id, deserialized.account_id);
    assert_eq!(account.username, deserialized.username);
    assert_eq!(account.display_name, deserialized.display_name);
    assert!(same_metadata(&account.metadata, &deserialized.metadata));
    assert_eq!(account.is_active, deserialized.is_active);
    assert_eq!(account.recovery_addresses, deserialized.recovery_addresses);
    assert_eq!(account.created_at, deserialized.created_at);
    assert_eq!(account.updated_at, deserialized.updated_at);
}

#[test]
fn test_account_data_with_new_structure() {
    let account_id = UnitsObjectId::new([1u8; 32]);
    let timestamp = 1234567890;
    let account = AccountData::new(account_id, timestamp)
        .with_username("testuser".to_string())
        .with_display_name("Test User".to_string());
    assert_eq!(account.account_id, account_id);
    assert_eq!(account.username, Some("testuser".to_string()));
    assert_eq!(account.display_name, Some("Test User".to_string()));
    assert!(account.is_active);
    assert_eq!(account.created_at, timestamp);
    assert_eq!(account.updated_at, timestamp);
    let serialized = account.encode().unwrap();
    let deserialized = AccountData::decode(&serialized).unwrap();
    assert_eq!(account.account_id, deserialized.account_id);
    assert_eq!(account.username, deserialized.username);
    assert_eq!(account.display_name, deserialized.display_name);
}

#[test]
fn test_enhanced_account_data() {
    let account_id = UnitsObjectId::new([1u8; 32]);
    let timestamp = 1234567890;
    let account = EnhancedAccountData::new(account_id, timestamp)
        .with_username("testuser".to_string())
        .with_display_name("Test User".to_string())
        .with_supported_factors(vec![
            AuthFactor::Signature(SignatureType::Ed25519),
            AuthFactor::TimeBasedCode,
            AuthFactor::HardwareToken,
        ]);
    assert_eq!(account.account_id, account_id);
    assert_eq!(account.username, Some("testuser".to_string()));
    assert_eq!(account.display_name, Some("Test User".to_string()));
    assert!(account.is_active);
    assert_eq!(account.created_at, timestamp);
    assert_eq!(account.updated_at, timestamp);
    assert_eq!(account.supported_auth_factors.len(), 3);
    let serialized = account.encode().unwrap();
    let deserialized = EnhancedAccountData::decode(&serialized).unwrap();
    assert_eq!(account.account_id, deserialized.account_id);
    assert_eq!(account.username, deserialized.username);
    assert_eq!(account.supported_auth_factors, deserialized.supported_auth_factors);
}

use units_core::auth::schemes::Ed25519Authenticator;
use units_core::auth::{AuthContext, AuthCredential, AuthResult, Authenticator};
use units_core::crypto::{verify_signature, CryptoError};
use sha2::{Digest, Sha512};

/// The Ed25519 public key and a signer for a 32-byte seed.
struct Signer {
    a: Scalar,
    prefix: [u8; 32],
    public: [u8; 32],
}

impl Signer {
    fn new(seed: [u8; 32]) -> Self {
        let h = Sha512::digest(seed);
        let mut a_bytes = [0u8; 32];
        a_bytes.copy_from_slice(&h[..32]);
        a_bytes[0] &= 248;
        a_bytes[31] &= 127;
        a_bytes[31] |= 64;
        let mut prefix = [0u8; 32];
        prefix.copy_from_slice(&h[32..]);
        let a = Scalar::from_bytes_mod_order(a_bytes);
        let public = (a * ED25519_BASEPOINT_POINT).compress().to_bytes();
        Signer { a, prefix, public }
    }

    fn sign(&self, message: &[u8]) -> [u8; 64] {
        let mut h = Sha512::new();
        h.update(self.prefix);
        h.update(message);
        let r = Scalar::from_bytes_mod_order_wide(&h.finalize().into());
        let big_r = (r * ED25519_BASEPOINT_POINT).compress().to_bytes();
        let mut h = Sha512::new();
        h.update(big_r);
        h.update(self.public);
        h.update(message);
        let k = Scalar::from_bytes_mod_order_wide(&h.finalize().into());
        let s = r + k * self.a;
        let mut sig = [0u8; 64];
        sig[..32].copy_from_slice(&big_r);
        sig[32..].copy_from_slice(&s.to_bytes());
        sig
    }
}

fn from_hex(s: &str) -> Vec<u8> {
    (0..s.len()).step_by(2).map(|i| u8::from_str_radix(&s[i..i + 2], 16).unwrap()).collect()
}

#[test]
fn ed25519_reference_vector_verifies() {
    let key: [u8; 32] = from_hex("d75a980182b10ab7d54bfed3c964073a0ee172f3daa62325af021a68f707511a").try_into().unwrap();
    let sig: [u8; 64] = from_hex(
        "e5564300c360ac729086e2cc806e828a84877f1eb8e5d974d873e065224901555fb8821590a33bacc61e39701cf9b46bd25bf5f0595bbe24655141438e7a100b",
    )
    .try_into()
    .unwrap();
    let public_key = PublicKey::from_bytes(&key).unwrap();
    assert!(verify_signature(&public_key, b"", &Signature::new(sig)).is_ok());
    assert_eq!(verify_signature(&public_key, b"x", &Signature::new(sig)), Err(CryptoError::SignatureVerificationFailed));
    let signer = Signer::new(from_hex("9d61b19deffd5a60ba844af492ec2cc44449c5697b326919703bac031cae7f60").try_into().unwrap());
    assert_eq!(signer.public, key);
    assert_eq!(signer.sign(b""), sig);
}

#[test]
fn signatures_check_against_their_key_and_message() {
    let signer = Signer::new([7u8; 32]);
    let other = Signer::new([8u8; 32]);
    let key = PublicKey::from_bytes(&signer.public).unwrap();
    let sig = Signature::new(signer.sign(b"hello"));
    assert!(verify_signature(&key, b"hello", &sig).is_ok());
    assert_eq!(verify_signature(&key, b"hellp", &sig), Err(CryptoError::SignatureVerificationFailed));
    let forged = Signature::new(other.sign(b"hello"));
    assert_eq!(verify_signature(&key, b"hello", &forged), Err(CryptoError::SignatureVerificationFailed));
    let mut bad_s = signer.sign(b"hello");
    bad_s[63] = 0xff;
    assert_eq!(verify_signature(&key, b"hello", &Signature::new(bad_s)), Err(CryptoError::InvalidSignature));
}

#[test]
fn ed25519_authenticator_accepts_only_the_requesters_signature() {
    let signer = Signer::new([9u8; 32]);
    let requester = UnitsObjectId::new(signer.public);
    let context = AuthContext {
        operation: "update_account".to_string(),
        target_account: UnitsObjectId::new([1; 32]),
        requester,
        timestamp: 77,
        operation_data: vec![1, 2, 3],
    };
    let message = create_operation_message("update_account", &context.target_account, 77, &[1, 2, 3]);
    let good = AuthCredential::Signature {
        signature_type: SignatureType::Ed25519,
        signature_bytes: signer.sign(&message).to_vec(),
        public_key: signer.public.to_vec(),
    };
    assert!(matches!(Ed25519Authenticator.verify(&good, &context), AuthResult::Success));
    let wrong_message = AuthCredential::Signature {
        signature_type: SignatureType::Ed25519,
        signature_bytes: signer.sign(b"something else").to_vec(),
        public_key: signer.public.to_vec(),
    };
    assert!(matches!(Ed25519Authenticator.verify(&wrong_message, &context), AuthResult::Failed(_)));
    let mut stranger = context.clone();
    stranger.requester = UnitsObjectId::new([3; 32]);
    assert!(matches!(Ed25519Authenticator.verify(&good, &stranger), AuthResult::Failed(_)));
}

use units_core::id_map::IdMap;
use units_core::kernel::KernelError;
use units_core::objects::UnitsObject;
use units_core::secure_account::module::AccountModule as SignedAccountModule;
use units_core::transaction::Instruction;
use units_core::vm_executor::ExecutionContext;

/// Signed update parameters: the account, a new display name, then the
/// signature over the operation message of the parameters with the signature
/// zeroed.
fn signed_update(signer: &Signer, account: UnitsObjectId, display: &str, timestamp: u64) -> Vec<u8> {
    let mut fields = Vec::new();
    fields.extend_from_slice(&account.bytes);
    fields.push(0);
    fields.push(1);
    fields.extend_from_slice(&(display.len() as u32).to_le_bytes());
    fields.extend_from_slice(display.as_bytes());
    fields.push(0);
    let mut zeroed = fields.clone();
    zeroed.extend_from_slice(&[0u8; 64]);
    let message = create_operation_message("update_account", &account, timestamp, &zeroed);
    let mut params = fields;
    params.extend_from_slice(&signer.sign(&message));
    params
}

fn update_context(signer: &Signer, account: UnitsObjectId, params: Vec<u8>, timestamp: u64) -> ExecutionContext {
    let controller = UnitsObjectId::new(signer.public);
    let data = AccountData::new(account, 1).encode().unwrap();
    let mut objects = IdMap::new();
    objects.insert(account, UnitsObject::new_data(account, controller, data));
    let instruction = Instruction::new(controller, "update_account".to_string(), vec![account], params);
    ExecutionContext::new(instruction, objects, 1, timestamp)
}

#[test]
fn signed_update_needs_the_controllers_signature() {
    let signer = Signer::new([11u8; 32]);
    let account = UnitsObjectId::new([1; 32]);
    let ctx = update_context(&signer, account, signed_update(&signer, account, "Alice", 50), 50);
    let effects = SignedAccountModule::handle_update_account(&ctx).expect("a signed update succeeds");
    let after = AccountData::decode(&effects[0].after_image.as_ref().unwrap().data).unwrap();
    assert_eq!(after.display_name, Some("Alice".to_string()));
    assert_eq!(after.updated_at, 50);
    let forger = Signer::new([12u8; 32]);
    let forged = update_context(&signer, account, signed_update(&forger, account, "Alice", 50), 50);
    assert!(matches!(SignedAccountModule::handle_update_account(&forged), Err(KernelError::Unauthorized)));
    let stale = update_context(&signer, account, signed_update(&signer, account, "Alice", 49), 50);
    assert!(matches!(SignedAccountModule::handle_update_account(&stale), Err(KernelError::Unauthorized)));
}
