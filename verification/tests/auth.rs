use units_core::auth::multi_factor::{
    BiometricAuthenticator, BiometricTemplate, HardwareTokenAuthenticator, TokenInfo,
    TotpAlgorithm, TotpAuthenticator, TotpSecret,
};
use units_core::auth::policies::{ConfigurablePolicy, HighSecurityPolicy, StandardAccountPolicy};
use units_core::auth::schemes::{create_default_signature_authenticators, Ed25519Authenticator};
use units_core::auth::{
    AuthContext, AuthCredential, AuthError, AuthFactor, AuthManager, AuthPolicy, AuthRequirement,
    AuthResult, Authenticator, SignatureType,
};
use units_core::id::UnitsObjectId;
use sha2::{Digest, Sha256};

fn context(operation: &str, data: &[u8]) -> AuthContext {
    AuthContext {
        operation: operation.to_string(),
        target_account: UnitsObjectId::new([1u8; 32]),
        requester: UnitsObjectId::new([2u8; 32]),
        timestamp: 1234567890,
        operation_data: data.to_vec(),
    }
}

fn dummy_signature(t: SignatureType) -> AuthCredential {
    AuthCredential::Signature { signature_type: t, signature_bytes: vec![0u8; 64], public_key: vec![2u8; 32] }
}

#[test]
fn test_flexible_auth_basic_signature() {
    let mut auth_manager = AuthManager::new();
    auth_manager.add_authenticator(Box::new(Ed25519Authenticator));
    auth_manager.add_policy(Box::new(StandardAccountPolicy));
    let credentials = vec![dummy_signature(SignatureType::Ed25519)];
    match auth_manager.authenticate(&credentials, &context("update_account", b"test_data")) {
        AuthResult::Failed(_) => {},
        _ => panic!("Expected authentication to fail with dummy signature"),
    }
}

#[test]
fn test_multiple_signature_schemes() {
    let mut auth_manager = AuthManager::new();
    for authenticator in create_default_signature_authenticators() {
        auth_manager.add_authenticator(authenticator);
    }
    auth_manager.add_policy(Box::new(StandardAccountPolicy));
    let auth_context = context("update_account", b"test_data");
    for sig_type in [
        SignatureType::Ed25519,
        SignatureType::EcdsaSecp256k1,
        SignatureType::EcdsaSecp256r1,
        SignatureType::Rsa2048,
        SignatureType::Rsa4096,
    ] {
        let credentials = vec![dummy_signature(sig_type)];
        match auth_manager.authenticate(&credentials, &auth_context) {
            AuthResult::Failed(_) => {},
            _ => {},
        }
    }
}

#[test]
fn test_multi_factor_requirements() {
    let mut auth_manager = AuthManager::new();
    for authenticator in create_default_signature_authenticators() {
        auth_manager.add_authenticator(authenticator);
    }
    auth_manager.add_policy(Box::new(HighSecurityPolicy));
    let auth_context = context("update_account", b"test_data");
    let signature_only = vec![dummy_signature(SignatureType::Ed25519)];
    match auth_manager.authenticate(&signature_only, &auth_context) {
        AuthResult::Failed(_) => {},
        _ => panic!("Expected authentication to fail without MFA"),
    }
    let signature_and_totp = vec![
        dummy_signature(SignatureType::Ed25519),
        AuthCredential::TimeBasedCode { code: "123456".to_string(), timestamp: 1234567890 },
    ];
    let _result = auth_manager.authenticate(&signature_and_totp, &auth_context);
}

#[test]
fn test_configurable_policy() {
    let mut policy = ConfigurablePolicy::standard();
    policy.set_operation_requirement("get_account".to_string(), AuthRequirement::All(vec![]));
    policy.set_operation_requirement(
        "update_account".to_string(),
        AuthRequirement::Factor(AuthFactor::Signature(SignatureType::Ed25519)),
    );
    policy.set_operation_requirement(
        "deactivate_account".to_string(),
        AuthRequirement::All(vec![
            AuthRequirement::Factor(AuthFactor::Signature(SignatureType::Ed25519)),
            AuthRequirement::Factor(AuthFactor::TimeBasedCode),
        ]),
    );
    let no_credentials: Vec<AuthCredential> = vec![];
    match policy.validate(&no_credentials, &context("get_account", b"")) {
        AuthResult::Success => {},
        _ => panic!("Read operation should require no authentication"),
    }
    let signature_only = vec![dummy_signature(SignatureType::Ed25519)];
    match policy.validate(&signature_only, &context("deactivate_account", b"deactivate")) {
        AuthResult::Failed(_) => {},
        _ => panic!("Sensitive operation should require MFA"),
    }
}

fn is_failed_with(r: &AuthResult, e: AuthError) -> bool {
    matches!(r, AuthResult::Failed(x) if *x == e)
}

#[test]
fn totp_rejects_without_secret_and_wrong_kind() {
    let totp = TotpAuthenticator::new();
    let code = AuthCredential::TimeBasedCode { code: "000000".to_string(), timestamp: 59 };
    assert!(is_failed_with(&totp.verify(&code, &context("update_account", b"")), AuthError::InvalidCredentials));
    let sig = dummy_signature(SignatureType::Ed25519);
    assert!(is_failed_with(&totp.verify(&sig, &context("update_account", b"")), AuthError::UnsupportedMethod));
    assert!(totp.can_handle(&code));
    assert!(!totp.can_handle(&sig));
}

#[test]
fn totp_code_is_the_truncated_digest_of_secret_and_step() {
    let secret = b"12345678901234567890".to_vec();
    let step: u64 = 1;
    let mut hasher = Sha256::new();
    hasher.update(&secret);
    hasher.update(step.to_be_bytes());
    let h = hasher.finalize();
    let o = (h[31] & 0x0f) as usize;
    let bin = ((h[o] as u32 & 0x7f) << 24) | ((h[o + 1] as u32) << 16) | ((h[o + 2] as u32) << 8) | (h[o + 3] as u32);
    let expected = format!("{:06}", bin % 1_000_000);

    let mut totp = TotpAuthenticator::new();
    let account = UnitsObjectId::new([1u8; 32]);
    totp.add_secret(account, TotpSecret { secret, digits: 6, period: 30, algorithm: TotpAlgorithm::Sha256 });
    let ctx = context("update_account", b"");
    // timestamp 59 is step 1; steps 0, 1 and 2 are accepted.
    let ok = AuthCredential::TimeBasedCode { code: expected.clone(), timestamp: 59 };
    assert!(matches!(totp.verify(&ok, &ctx), AuthResult::Success));
    let skewed = AuthCredential::TimeBasedCode { code: expected.clone(), timestamp: 89 };
    assert!(matches!(totp.verify(&skewed, &ctx), AuthResult::Success));
    let late = AuthCredential::TimeBasedCode { code: expected.clone(), timestamp: 150 };
    assert!(is_failed_with(&totp.verify(&late, &ctx), AuthError::InvalidCredentials));
    totp.remove_secret(&account);
    assert!(is_failed_with(&totp.verify(&ok, &ctx), AuthError::InvalidCredentials));
}

#[test]
fn hardware_token_must_belong_to_target_and_answer() {
    let mut hw = HardwareTokenAuthenticator::new();
    hw.register_token(TokenInfo {
        token_id: "key-1".to_string(),
        account_id: UnitsObjectId::new([1u8; 32]),
        public_key: vec![1, 2, 3],
        credential_id: vec![4],
    });
    let ctx = context("update_account", b"");
    let good = AuthCredential::HardwareToken { token_id: "key-1".to_string(), challenge_response: vec![9] };
    assert!(matches!(hw.verify(&good, &ctx), AuthResult::Success));
    let empty = AuthCredential::HardwareToken { token_id: "key-1".to_string(), challenge_response: vec![] };
    assert!(is_failed_with(&hw.verify(&empty, &ctx), AuthError::InvalidCredentials));
    let unknown = AuthCredential::HardwareToken { token_id: "key-2".to_string(), challenge_response: vec![9] };
    assert!(is_failed_with(&hw.verify(&unknown, &ctx), AuthError::InvalidCredentials));
    hw.register_token(TokenInfo {
        token_id: "key-1".to_string(),
        account_id: UnitsObjectId::new([7u8; 32]),
        public_key: vec![],
        credential_id: vec![],
    });
    assert!(is_failed_with(&hw.verify(&good, &ctx), AuthError::InvalidCredentials));
    hw.remove_token("key-1");
    assert!(is_failed_with(&hw.verify(&good, &ctx), AuthError::InvalidCredentials));
}

#[test]
fn biometric_templates_enroll_match_and_remove() {
    let mut bio = BiometricAuthenticator::new();
    let account = UnitsObjectId::new([1u8; 32]);
    bio.enroll_biometric(account, BiometricTemplate {
        biometric_type: "fingerprint".to_string(),
        template_hash: vec![1, 2, 3],
        enrollment_date: 10,
    });
    let ctx = context("update_account", b"");
    let good = AuthCredential::Biometric { biometric_type: "fingerprint".to_string(), template_hash: vec![1, 2, 3] };
    assert!(matches!(bio.verify(&good, &ctx), AuthResult::Success));
    let wrong = AuthCredential::Biometric { biometric_type: "face".to_string(), template_hash: vec![1, 2, 3] };
    assert!(is_failed_with(&bio.verify(&wrong, &ctx), AuthError::InvalidCredentials));
    bio.remove_biometric(&account, "fingerprint");
    assert!(is_failed_with(&bio.verify(&good, &ctx), AuthError::InvalidCredentials));
}

use units_core::auth::{decide_authentication, PendingAuth};

fn code_credential() -> AuthCredential {
    AuthCredential::TimeBasedCode { code: "123456".to_string(), timestamp: 0 }
}

#[test]
fn authentication_decisions() {
    let reqs = vec![AuthRequirement::Factor(AuthFactor::TimeBasedCode)];
    let creds = vec![code_credential()];
    assert!(matches!(decide_authentication(&reqs, &creds, vec![Some(AuthResult::Success)]), AuthResult::Success));
    assert!(matches!(
        decide_authentication(&reqs, &creds, vec![None]),
        AuthResult::Failed(AuthError::InsufficientAuth)
    ));
    assert!(matches!(
        decide_authentication(&reqs, &creds, vec![Some(AuthResult::Failed(AuthError::InvalidCredentials))]),
        AuthResult::Failed(AuthError::InvalidCredentials)
    ));
    let pending = PendingAuth { session_id: "s".to_string(), required_factors: vec![], completed_factors: vec![] };
    let two = vec![code_credential(), code_credential()];
    match decide_authentication(&reqs, &two, vec![Some(AuthResult::Pending(pending)), Some(AuthResult::Failed(AuthError::RateLimited))]) {
        AuthResult::Pending(p) => assert_eq!(p.session_id, "s"),
        _ => panic!("the first stopping answer decides"),
    }
}

use units_core::secure_account::{FlexCreateAccountParams, FlexUpdateAccountParams};

fn put_bytes(out: &mut Vec<u8>, b: &[u8]) {
    out.extend_from_slice(&(b.len() as u32).to_le_bytes());
    out.extend_from_slice(b);
}

fn put_some_string(out: &mut Vec<u8>, s: &str) {
    out.push(1);
    put_bytes(out, s.as_bytes());
}

fn put_flex_credentials(out: &mut Vec<u8>) {
    out.extend_from_slice(&2u32.to_le_bytes());
    out.push(0);
    out.push(0);
    put_bytes(out, &[0u8; 64]);
    put_bytes(out, &[1u8; 32]);
    out.push(1);
    put_bytes(out, b"123456");
    out.extend_from_slice(&1234567890u64.to_le_bytes());
}

#[test]
fn test_flexible_parameters() {
    let account_id = UnitsObjectId::new([1u8; 32]);

    let mut create = Vec::new();
    put_some_string(&mut create, "testuser");
    put_some_string(&mut create, "Test User");
    create.push(1);
    create.extend_from_slice(&0u32.to_le_bytes());
    create.push(1);
    create.extend_from_slice(&1u32.to_le_bytes());
    create.extend_from_slice(&[2u8; 32]);
    put_flex_credentials(&mut create);
    let decoded = FlexCreateAccountParams::decode(&create).unwrap();
    assert_eq!(decoded.username, Some("testuser".to_string()));
    assert_eq!(decoded.credentials.len(), 2);
    assert!(matches!(&decoded.credentials[1], AuthCredential::TimeBasedCode { code, timestamp } if code == "123456" && *timestamp == 1234567890));

    let mut update = Vec::new();
    update.extend_from_slice(&account_id.bytes);
    put_some_string(&mut update, "updated_user");
    update.push(0);
    update.push(0);
    update.extend_from_slice(&1u32.to_le_bytes());
    update.push(0);
    update.push(0);
    put_bytes(&mut update, &[0u8; 64]);
    put_bytes(&mut update, &[1u8; 32]);
    let decoded = FlexUpdateAccountParams::decode(&update).unwrap();
    assert_eq!(decoded.account_id, account_id);
    assert_eq!(decoded.username, Some("updated_user".to_string()));
    assert_eq!(decoded.credentials.len(), 1);
}

#[test]
fn test_auth_requirement_logic() {
    let and_requirement = AuthRequirement::All(vec![
        AuthRequirement::Factor(AuthFactor::Signature(SignatureType::Ed25519)),
        AuthRequirement::Factor(AuthFactor::TimeBasedCode),
    ]);
    let or_requirement = AuthRequirement::Any(vec![
        AuthRequirement::Factor(AuthFactor::Signature(SignatureType::Ed25519)),
        AuthRequirement::Factor(AuthFactor::RecoveryKey),
    ]);
    let at_least_n_requirement = AuthRequirement::AtLeastN {
        n: 2,
        factors: vec![
            AuthRequirement::Factor(AuthFactor::Signature(SignatureType::Ed25519)),
            AuthRequirement::Factor(AuthFactor::TimeBasedCode),
            AuthRequirement::Factor(AuthFactor::HardwareToken),
        ],
    };
    let mut policy = ConfigurablePolicy::new();
    policy.set_operation_requirement("and".to_string(), and_requirement);
    policy.set_operation_requirement("or".to_string(), or_requirement);
    policy.set_operation_requirement("two".to_string(), at_least_n_requirement);
    let sig = dummy_signature(SignatureType::Ed25519);
    let code = AuthCredential::TimeBasedCode { code: "123456".to_string(), timestamp: 1 };
    let ok = |r: AuthResult| matches!(r, AuthResult::Success);
    assert!(!ok(policy.validate(&[sig.clone()], &context("and", b""))));
    assert!(ok(policy.validate(&[sig.clone(), code.clone()], &context("and", b""))));
    assert!(ok(policy.validate(&[sig.clone()], &context("or", b""))));
    assert!(!ok(policy.validate(&[code.clone()], &context("or", b""))));
    assert!(!ok(policy.validate(&[sig.clone()], &context("two", b""))));
    assert!(ok(policy.validate(&[sig, code], &context("two", b""))));
    let required = policy.required_auth(&context("and", b""));
    match &required[0] {
        AuthRequirement::All(v) => assert_eq!(v.len(), 2),
        _ => panic!("Serialization failed for AuthRequirement"),
    }
}

fn recovery_key(b: u8) -> AuthCredential {
    AuthCredential::RecoveryKey { recovery_address: UnitsObjectId::new([b; 32]), signature: vec![0u8; 64] }
}

#[test]
fn high_security_reactivation_takes_two_recovery_keys() {
    let success = |r: AuthResult| matches!(r, AuthResult::Success);
    let preset = ConfigurablePolicy::high_security();
    let two = vec![recovery_key(3), recovery_key(4)];
    assert!(success(preset.validate(&two, &context("reactivate_account", b""))));
    assert!(!success(preset.validate(&[recovery_key(3)], &context("reactivate_account", b""))));
    assert!(!success(preset.validate(&two, &context("update_account", b""))));
    assert!(success(preset.validate(&[], &context("get_account", b""))));
    assert!(success(preset.validate(&[], &context("create_account", b""))));
    assert!(!success(preset.validate(&[], &context("deactivate_account", b""))));
    let policy = HighSecurityPolicy;
    assert!(success(policy.validate(&two, &context("reactivate_account", b""))));
    assert!(!success(policy.validate(&[recovery_key(3)], &context("reactivate_account", b""))));
    let code = AuthCredential::TimeBasedCode { code: "123456".to_string(), timestamp: 1 };
    let owner = vec![dummy_signature(SignatureType::Ed25519), code];
    assert!(success(policy.validate(&owner, &context("reactivate_account", b""))));
}

#[test]
fn adding_a_policy_enforces_it() {
    let mut manager = AuthManager::new();
    assert!(matches!(manager.authenticate(&[], &context("update_account", b"")), AuthResult::Success));
    manager.add_policy(Box::new(StandardAccountPolicy));
    assert!(matches!(manager.authenticate(&[], &context("update_account", b"")), AuthResult::Failed(AuthError::InsufficientAuth)));
    assert!(matches!(manager.authenticate(&[], &context("get_account", b"")), AuthResult::Success));
}
