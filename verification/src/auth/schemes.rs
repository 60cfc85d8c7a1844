//! Signature authenticators: Ed25519 and recovery keys are checked; the ECDSA
//! and RSA schemes are recognized but not supported.
use vstd::prelude::*;
use crate::auth::{AuthContext, AuthCredential, AuthError, AuthFactor, AuthResult, Authenticator, SignatureType};
use crate::crypto::{
    canonical_scalar, create_operation_message, ed25519_equation, edwards_decompresses, operation_message,
    verify_signature, PublicKey, Signature,
};

verus! {

/// `r` is a failure with error `e`.
pub open spec fn fails_with(r: AuthResult, e: AuthError) -> bool {
    r matches AuthResult::Failed(x) && x == e
}

/// The message a credential signs for an operation in `context`.
pub open spec fn context_message(context: AuthContext) -> Seq<u8> {
    operation_message(context.operation@, context.target_account.bytes@, context.timestamp, context.operation_data@)
}

/// A 64-byte signature whose halves are a curve point and a canonical scalar.
pub open spec fn well_formed_signature(bytes: Seq<u8>) -> bool {
    &&& bytes.len() == 64
    &&& edwards_decompresses(bytes.subrange(0, 32))
    &&& canonical_scalar(bytes.subrange(32, 64))
}

/// Ed25519 signature authenticator.
pub struct Ed25519Authenticator;

impl Authenticator for Ed25519Authenticator {
    open spec fn spec_can_handle(&self, credential: AuthCredential) -> bool {
        credential matches AuthCredential::Signature { signature_type, .. } && signature_type
            == SignatureType::Ed25519
    }

    /// Verify an Ed25519 signature credential: the signature over the operation
    /// message must check against the public key, and the key must be the
    /// requester's identifier.
    fn verify(&self, credential: &AuthCredential, context: &AuthContext) -> (r: AuthResult)
        ensures
            !(credential is Signature) ==> fails_with(r, AuthError::UnsupportedMethod),
            credential matches AuthCredential::Signature { signature_type, signature_bytes, public_key }
                ==> {
                &&& signature_type != SignatureType::Ed25519 ==> fails_with(r, AuthError::UnsupportedMethod)
                &&& signature_type == SignatureType::Ed25519 && !(well_formed_signature(signature_bytes@)
                    && public_key@.len() == 32 && edwards_decompresses(public_key@)) ==> fails_with(
                    r,
                    AuthError::InvalidCredentials,
                )
                &&& signature_type == SignatureType::Ed25519 && public_key@ != context.requester.bytes@
                    ==> fails_with(r, AuthError::InvalidCredentials)
                &&& r is Success || fails_with(r, AuthError::InvalidCredentials) || fails_with(
                    r,
                    AuthError::UnsupportedMethod,
                )
                &&& signature_type == SignatureType::Ed25519 ==> (r is Success <==> {
                    &&& well_formed_signature(signature_bytes@)
                    &&& public_key@.len() == 32
                    &&& edwards_decompresses(public_key@)
                    &&& ed25519_equation(public_key@, context_message(*context), signature_bytes@)
                    &&& public_key@ == context.requester.bytes@
                })
            },
    {
        match credential {
            AuthCredential::Signature { signature_type, signature_bytes, public_key } => {
                if *signature_type != SignatureType::Ed25519 {
                    return AuthResult::Failed(AuthError::UnsupportedMethod);
                }
                let signature = match Signature::from_slice(signature_bytes.as_slice()) {
                    Ok(s) => s,
                    Err(_) => {
                        return AuthResult::Failed(AuthError::InvalidCredentials);
                    },
                };
                if public_key.len() != 32 {
                    return AuthResult::Failed(AuthError::InvalidCredentials);
                }
                let key_bytes = crate::hashing::read_array32(public_key.as_slice(), 0);
                proof {
                    assert(key_bytes@ =~= public_key@);
                }
                let key = match PublicKey::from_bytes(&key_bytes) {
                    Ok(k) => k,
                    Err(_) => {
                        return AuthResult::Failed(AuthError::InvalidCredentials);
                    },
                };
                let message = create_operation_message(
                    context.operation.as_str(),
                    &context.target_account,
                    context.timestamp,
                    context.operation_data.as_slice(),
                );
                match verify_signature(&key, message.as_slice(), &signature) {
                    Ok(()) => {
                        let id = key.to_units_object_id();
                        proof {
                            if public_key@ == context.requester.bytes@ {
                                assert(id.bytes =~= context.requester.bytes);
                            }
                        }
                        if id == context.requester {
                            AuthResult::Success
                        } else {
                            AuthResult::Failed(AuthError::InvalidCredentials)
                        }
                    },
                    Err(_) => AuthResult::Failed(AuthError::InvalidCredentials),
                }
            },
            _ => AuthResult::Failed(AuthError::UnsupportedMethod),
        }
    }

    fn supported_factors(&self) -> (r: Vec<AuthFactor>)
        ensures
            r@ == seq![AuthFactor::Signature(SignatureType::Ed25519)],
    {
        vec![AuthFactor::Signature(SignatureType::Ed25519)]
    }

    fn can_handle(&self, credential: &AuthCredential) -> (r: bool) {
        match credential {
            AuthCredential::Signature { signature_type, .. } => *signature_type == SignatureType::Ed25519,
            _ => false,
        }
    }
}

/// ECDSA secp256k1 signature authenticator: recognized, not supported.
pub struct EcdsaSecp256k1Authenticator;

impl Authenticator for EcdsaSecp256k1Authenticator {
    open spec fn spec_can_handle(&self, credential: AuthCredential) -> bool {
        credential matches AuthCredential::Signature { signature_type, .. } && signature_type
            == SignatureType::EcdsaSecp256k1
    }

    fn verify(&self, credential: &AuthCredential, _context: &AuthContext) -> (r: AuthResult)
        ensures
            fails_with(r, AuthError::UnsupportedMethod),
    {
        AuthResult::Failed(AuthError::UnsupportedMethod)
    }

    fn supported_factors(&self) -> (r: Vec<AuthFactor>)
        ensures
            r@ == seq![AuthFactor::Signature(SignatureType::EcdsaSecp256k1)],
    {
        vec![AuthFactor::Signature(SignatureType::EcdsaSecp256k1)]
    }

    fn can_handle(&self, credential: &AuthCredential) -> (r: bool) {
        match credential {
            AuthCredential::Signature { signature_type, .. } => *signature_type
                == SignatureType::EcdsaSecp256k1,
            _ => false,
        }
    }
}

/// ECDSA secp256r1 signature authenticator: recognized, not supported.
pub struct EcdsaSecp256r1Authenticator;

impl Authenticator for EcdsaSecp256r1Authenticator {
    open spec fn spec_can_handle(&self, credential: AuthCredential) -> bool {
        credential matches AuthCredential::Signature { signature_type, .. } && signature_type
            == SignatureType::EcdsaSecp256r1
    }

    fn verify(&self, credential: &AuthCredential, _context: &AuthContext) -> (r: AuthResult)
        ensures
            fails_with(r, AuthError::UnsupportedMethod),
    {
        AuthResult::Failed(AuthError::UnsupportedMethod)
    }

    fn supported_factors(&self) -> (r: Vec<AuthFactor>)
        ensures
            r@ == seq![AuthFactor::Signature(SignatureType::EcdsaSecp256r1)],
    {
        vec![AuthFactor::Signature(SignatureType::EcdsaSecp256r1)]
    }

    fn can_handle(&self, credential: &AuthCredential) -> (r: bool) {
        match credential {
            AuthCredential::Signature { signature_type, .. } => *signature_type
                == SignatureType::EcdsaSecp256r1,
            _ => false,
        }
    }
}

/// RSA signature authenticator for 2048- or 4096-bit keys: recognized, not supported.
pub struct RsaAuthenticator {
    pub key_size: u32,
}

/// The signature type of an RSA key size, if it is one of the two handled.
pub open spec fn rsa_type(key_size: u32) -> Option<SignatureType> {
    if key_size == 2048 {
        Some(SignatureType::Rsa2048)
    } else if key_size == 4096 {
        Some(SignatureType::Rsa4096)
    } else {
        None
    }
}

impl RsaAuthenticator {
    /// An authenticator for keys of the given size.
    pub fn new(key_size: u32) -> (a: Self)
        ensures
            a.key_size == key_size,
    {
        RsaAuthenticator { key_size }
    }

    fn expected_type(&self) -> (r: Option<SignatureType>)
        ensures
            r == rsa_type(self.key_size),
    {
        if self.key_size == 2048 {
            Some(SignatureType::Rsa2048)
        } else if self.key_size == 4096 {
            Some(SignatureType::Rsa4096)
        } else {
            None
        }
    }
}

impl Authenticator for RsaAuthenticator {
    open spec fn spec_can_handle(&self, credential: AuthCredential) -> bool {
        credential matches AuthCredential::Signature { signature_type, .. } && rsa_type(self.key_size)
            == Some(signature_type)
    }

    fn verify(&self, credential: &AuthCredential, _context: &AuthContext) -> (r: AuthResult)
        ensures
            fails_with(r, AuthError::UnsupportedMethod),
    {
        AuthResult::Failed(AuthError::UnsupportedMethod)
    }

    fn supported_factors(&self) -> (r: Vec<AuthFactor>)
        ensures
            r@ == match rsa_type(self.key_size) {
                Some(t) => seq![AuthFactor::Signature(t)],
                None => Seq::empty(),
            },
    {
        match self.expected_type() {
            Some(t) => vec![AuthFactor::Signature(t)],
            None => Vec::new(),
        }
    }

    fn can_handle(&self, credential: &AuthCredential) -> (r: bool) {
        match credential {
            AuthCredential::Signature { signature_type, .. } => match self.expected_type() {
                Some(t) => *signature_type == t,
                None => false,
            },
            _ => false,
        }
    }
}

/// Recovery key authenticator: a signature by a recovery address.
pub struct RecoveryKeyAuthenticator;

impl Authenticator for RecoveryKeyAuthenticator {
    open spec fn spec_can_handle(&self, credential: AuthCredential) -> bool {
        credential is RecoveryKey
    }

    /// Verify a recovery key credential: the signature over the operation
    /// message must check against the recovery address taken as a public key.
    fn verify(&self, credential: &AuthCredential, context: &AuthContext) -> (r: AuthResult)
        ensures
            !(credential is RecoveryKey) ==> fails_with(r, AuthError::UnsupportedMethod),
            credential matches AuthCredential::RecoveryKey { recovery_address, signature } ==> {
                &&& !(well_formed_signature(signature@) && edwards_decompresses(
                    recovery_address.bytes@,
                )) ==> fails_with(r, AuthError::InvalidCredentials)
                &&& r is Success || fails_with(r, AuthError::InvalidCredentials)
                &&& r is Success <==> {
                    &&& well_formed_signature(signature@)
                    &&& edwards_decompresses(recovery_address.bytes@)
                    &&& ed25519_equation(recovery_address.bytes@, context_message(*context), signature@)
                }
            },
    {
        match credential {
            AuthCredential::RecoveryKey { recovery_address, signature } => {
                let sig = match Signature::from_slice(signature.as_slice()) {
                    Ok(s) => s,
                    Err(_) => {
                        return AuthResult::Failed(AuthError::InvalidCredentials);
                    },
                };
                let key = match PublicKey::from_units_object_id(recovery_address) {
                    Ok(k) => k,
                    Err(_) => {
                        return AuthResult::Failed(AuthError::InvalidCredentials);
                    },
                };
                let message = create_operation_message(
                    context.operation.as_str(),
                    &context.target_account,
                    context.timestamp,
                    context.operation_data.as_slice(),
                );
                match verify_signature(&key, message.as_slice(), &sig) {
                    Ok(()) => AuthResult::Success,
                    Err(_) => AuthResult::Failed(AuthError::InvalidCredentials),
                }
            },
            _ => AuthResult::Failed(AuthError::UnsupportedMethod),
        }
    }

    fn supported_factors(&self) -> (r: Vec<AuthFactor>)
        ensures
            r@ == seq![AuthFactor::RecoveryKey],
    {
        vec![AuthFactor::RecoveryKey]
    }

    fn can_handle(&self, credential: &AuthCredential) -> (r: bool) {
        match credential {
            AuthCredential::RecoveryKey { .. } => true,
            _ => false,
        }
    }
}

/// All the signature authenticators: Ed25519, both ECDSA curves, RSA 2048 and
/// 4096, and recovery keys, in this order.
pub fn create_default_signature_authenticators() -> (v: Vec<Box<dyn Authenticator>>)
    ensures
        v@.len() == 6,
{
    let a0: Box<dyn Authenticator> = Box::new(Ed25519Authenticator);
    let a1: Box<dyn Authenticator> = Box::new(EcdsaSecp256k1Authenticator);
    let a2: Box<dyn Authenticator> = Box::new(EcdsaSecp256r1Authenticator);
    let a3: Box<dyn Authenticator> = Box::new(RsaAuthenticator::new(2048));
    let a4: Box<dyn Authenticator> = Box::new(RsaAuthenticator::new(4096));
    let a5: Box<dyn Authenticator> = Box::new(RecoveryKeyAuthenticator);
    vec![a0, a1, a2, a3, a4, a5]
}

} // verus!
