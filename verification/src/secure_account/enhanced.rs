//! The account module whose operations carry credentials, checked by an
//! authentication manager against its policies.
use vstd::prelude::*;
use crate::account::{contains_id, remove_id, username_ok, without};
use crate::auth::multi_factor::create_default_mfa_authenticators;
use crate::auth::policies::{HighSecurityPolicy, StandardAccountPolicy};
use crate::auth::schemes::create_default_signature_authenticators;
use crate::auth::{
    authentication_outcome, AuthContext, AuthCredential, AuthError, AuthManager, AuthPolicy, AuthResult, Authenticator,
};
use crate::id::UnitsObjectId;
use crate::kernel::{creates, creation_with, modification_with, names, one_change, KernelError};
use crate::objects::UnitsObject;
use crate::secure_account::codec::{
    enhanced_bytes, enhanced_fits, factors_bytes, lemma_enhanced_round_trip,
    lemma_parsed_enhanced_ids, opt_bytes_bytes, parse_enhanced,
};
use crate::account::{ids_bytes, meta_bytes, opt_string_bytes};
use crate::codec::{bool_bytes, lemma_u64_round_trip, take_bool, take_u64};
use crate::hashing::{le32, le64};
use crate::secure_account::module::{account_at, get_result, lemma_account_at};
use crate::secure_account::params::{
    fields_bytes, fields_fit, flex_account_creds, flex_account_data, flex_create_creds, flex_create_data,
    flex_recovery_creds, flex_recovery_data, flex_update_creds, flex_update_data, parse_flex_account,
    parse_flex_create, parse_flex_recovery, parse_flex_update, update_bytes, update_fits,
};
use crate::secure_account::{
    meta_from_entries, validate_username, AccountView, EnhancedAccountData, EnhancedView, FlexAddRecoveryAddressParams,
    FlexCreateAccountParams, FlexDeactivateAccountParams, FlexReactivateAccountParams,
    FlexRemoveRecoveryAddressParams, FlexUpdateAccountParams, GetAccountParams,
};
use crate::auth::{AuthFactor, SignatureType};
use crate::vm_executor::{ExecutionContext, ObjectEffect};

verus! {

/// The kernel outcome of an authentication result: success passes;
/// insufficient or invalid credentials are unauthorized; any other failure,
/// and a pending multi-step authentication, are invalid parameters.
pub open spec fn kernel_outcome(a: AuthResult) -> Result<(), KernelError> {
    match a {
        AuthResult::Success => Ok(()),
        AuthResult::Failed(AuthError::InsufficientAuth) => Err(KernelError::Unauthorized),
        AuthResult::Failed(AuthError::InvalidCredentials) => Err(KernelError::Unauthorized),
        AuthResult::Failed(_) => Err(KernelError::InvalidParams),
        AuthResult::Pending(_) => Err(KernelError::InvalidParams),
    }
}

/// The kernel outcome of an authentication result.
pub fn auth_result_to_kernel(a: AuthResult) -> (r: Result<(), KernelError>)
    ensures
        r == kernel_outcome(a),
{
    match a {
        AuthResult::Success => Ok(()),
        AuthResult::Failed(AuthError::InsufficientAuth) => Err(KernelError::Unauthorized),
        AuthResult::Failed(AuthError::InvalidCredentials) => Err(KernelError::Unauthorized),
        AuthResult::Failed(_) => Err(KernelError::InvalidParams),
        AuthResult::Pending(_) => Err(KernelError::InvalidParams),
    }
}

/// An answer authentication may give: passing, unauthorized or invalid parameters.
pub open spec fn auth_answer(o: Result<(), KernelError>) -> bool {
    o is Ok || o == Err::<(), KernelError>(KernelError::Unauthorized) || o == Err::<(), KernelError>(
        KernelError::InvalidParams,
    )
}

/// An answer authentication may give a module whose manager has `policies`
/// policies: passing, unauthorized or invalid parameters; with no policy it
/// passes.
pub open spec fn auth_allowed(policies: nat, o: Result<(), KernelError>) -> bool {
    &&& auth_answer(o)
    &&& policies == 0 ==> o is Ok
}

/// The account with a policy `acc` holds, re-encoded with fields `v`.
pub open spec fn reencode_enhanced(acc: UnitsObject, v: EnhancedView) -> Result<(UnitsObject, Seq<u8>), KernelError> {
    if enhanced_fits(v) {
        Ok((acc, enhanced_bytes(v)))
    } else {
        Err(KernelError::InvalidData)
    }
}

/// `v` with its account fields changed by `f`.
pub open spec fn with_account(v: EnhancedView, a: AccountView) -> EnhancedView {
    EnhancedView { account: a, ..v }
}

/// What a flexible creation yields, given the authentication answer.
pub open spec fn flex_create_result(ctx: ExecutionContext, o: Result<(), KernelError>) -> Result<Seq<u8>, KernelError> {
    let targets = ctx.instruction.target_objects@;
    match parse_flex_create(ctx.instruction.params@) {
        None => Err(KernelError::InvalidData),
        Some(f) => if targets.len() == 0 {
            Err(KernelError::InvalidParams)
        } else if f.0 matches Some(u) && !username_ok(u) {
            Err(KernelError::InvalidParams)
        } else if !fields_fit(f) {
            Err(KernelError::InvalidData)
        } else {
            match o {
                Err(e) => Err(e),
                Ok(_) => {
                    let v = EnhancedView {
                        account: AccountView {
                            id: targets[0].bytes@,
                            username: f.0,
                            display_name: f.1,
                            metadata: match f.2 {
                                Some(m) => m,
                                None => Seq::empty(),
                            },
                            is_active: true,
                            recovery: match f.3 {
                                Some(r) => r,
                                None => Seq::empty(),
                            },
                            created_at: ctx.timestamp,
                            updated_at: ctx.timestamp,
                        },
                        auth_policy: None,
                        factors: seq![AuthFactor::Signature(SignatureType::Ed25519)],
                    };
                    if enhanced_fits(v) {
                        Ok(enhanced_bytes(v))
                    } else {
                        Err(KernelError::InvalidData)
                    }
                },
            }
        },
    }
}

/// The account at `a` when the caller controls it.
pub open spec fn flex_controlled(ctx: ExecutionContext, a: Seq<u8>) -> Result<UnitsObject, KernelError> {
    match account_at(ctx, a) {
        None => Err(KernelError::ObjectNotFound),
        Some(acc) => if acc.controller_id != ctx.instruction.controller_id {
            Err(KernelError::Unauthorized)
        } else {
            Ok(acc)
        },
    }
}

/// What a flexible update yields, given the authentication answer.
pub open spec fn flex_update_result(ctx: ExecutionContext, o: Result<(), KernelError>) -> Result<
    (UnitsObject, Seq<u8>),
    KernelError,
> {
    match parse_flex_update(ctx.instruction.params@) {
        None => Err(KernelError::InvalidData),
        Some(f) => match flex_controlled(ctx, f.0) {
            Err(e) => Err(e),
            Ok(acc) => if !update_fits(f) {
                Err(KernelError::InvalidData)
            } else {
                match o {
                    Err(e) => Err(e),
                    Ok(_) => match parse_enhanced(acc.data@) {
                        None => Err(KernelError::InvalidData),
                        Some(v) => if !v.account.is_active {
                            Err(KernelError::InvalidParams)
                        } else if f.1 matches Some(u) && !username_ok(u) {
                            Err(KernelError::InvalidParams)
                        } else {
                            reencode_enhanced(
                                acc,
                                with_account(
                                    v,
                                    AccountView {
                                        username: if f.1 is Some {
                                            f.1
                                        } else {
                                            v.account.username
                                        },
                                        display_name: if f.2 is Some {
                                            f.2
                                        } else {
                                            v.account.display_name
                                        },
                                        metadata: match f.3 {
                                            Some(m) => m,
                                            None => v.account.metadata,
                                        },
                                        updated_at: ctx.timestamp,
                                        ..v.account
                                    },
                                ),
                            )
                        },
                    },
                }
            },
        },
    }
}

/// What flexibly adding a recovery address yields, given the authentication answer.
pub open spec fn flex_add_result(ctx: ExecutionContext, o: Result<(), KernelError>) -> Result<
    (UnitsObject, Seq<u8>),
    KernelError,
> {
    match parse_flex_recovery(ctx.instruction.params@) {
        None => Err(KernelError::InvalidData),
        Some((a, x)) => match flex_controlled(ctx, a) {
            Err(e) => Err(e),
            Ok(acc) => match o {
                Err(e) => Err(e),
                Ok(_) => match parse_enhanced(acc.data@) {
                    None => Err(KernelError::InvalidData),
                    Some(v) => if !v.account.is_active {
                        Err(KernelError::InvalidParams)
                    } else if v.account.recovery.contains(x) {
                        Err(KernelError::InvalidParams)
                    } else {
                        reencode_enhanced(
                            acc,
                            with_account(
                                v,
                                AccountView {
                                    recovery: v.account.recovery.push(x),
                                    updated_at: ctx.timestamp,
                                    ..v.account
                                },
                            ),
                        )
                    },
                },
            },
        },
    }
}

/// What flexibly removing a recovery address yields, given the authentication answer.
pub open spec fn flex_remove_result(ctx: ExecutionContext, o: Result<(), KernelError>) -> Result<
    (UnitsObject, Seq<u8>),
    KernelError,
> {
    match parse_flex_recovery(ctx.instruction.params@) {
        None => Err(KernelError::InvalidData),
        Some((a, x)) => match flex_controlled(ctx, a) {
            Err(e) => Err(e),
            Ok(acc) => match o {
                Err(e) => Err(e),
                Ok(_) => match parse_enhanced(acc.data@) {
                    None => Err(KernelError::InvalidData),
                    Some(v) => if !v.account.is_active {
                        Err(KernelError::InvalidParams)
                    } else if without(v.account.recovery, x).len() == v.account.recovery.len() {
                        Err(KernelError::InvalidParams)
                    } else {
                        reencode_enhanced(
                            acc,
                            with_account(
                                v,
                                AccountView {
                                    recovery: without(v.account.recovery, x),
                                    updated_at: ctx.timestamp,
                                    ..v.account
                                },
                            ),
                        )
                    },
                },
            },
        },
    }
}

/// What a flexible deactivation yields, given the authentication answer.
pub open spec fn flex_deactivate_result(ctx: ExecutionContext, o: Result<(), KernelError>) -> Result<
    (UnitsObject, Seq<u8>),
    KernelError,
> {
    match parse_flex_account(ctx.instruction.params@) {
        None => Err(KernelError::InvalidData),
        Some(a) => match flex_controlled(ctx, a) {
            Err(e) => Err(e),
            Ok(acc) => match o {
                Err(e) => Err(e),
                Ok(_) => match parse_enhanced(acc.data@) {
                    None => Err(KernelError::InvalidData),
                    Some(v) => if !v.account.is_active {
                        Err(KernelError::InvalidParams)
                    } else {
                        reencode_enhanced(
                            acc,
                            with_account(
                                v,
                                AccountView { is_active: false, updated_at: ctx.timestamp, ..v.account },
                            ),
                        )
                    },
                },
            },
        },
    }
}

/// What a flexible reactivation yields, given the authentication answer: the
/// controller or a recovery address may reactivate.
pub open spec fn flex_reactivate_result(ctx: ExecutionContext, o: Result<(), KernelError>) -> Result<
    (UnitsObject, Seq<u8>),
    KernelError,
> {
    match parse_flex_account(ctx.instruction.params@) {
        None => Err(KernelError::InvalidData),
        Some(a) => match account_at(ctx, a) {
            None => Err(KernelError::ObjectNotFound),
            Some(acc) => match parse_enhanced(acc.data@) {
                None => Err(KernelError::InvalidData),
                Some(v) => if !(acc.controller_id == ctx.instruction.controller_id
                    || v.account.recovery.contains(ctx.instruction.controller_id.bytes@)) {
                    Err(KernelError::Unauthorized)
                } else {
                    match o {
                        Err(e) => Err(e),
                        Ok(_) => if v.account.is_active {
                            Err(KernelError::InvalidParams)
                        } else {
                            reencode_enhanced(
                                acc,
                                with_account(
                                    v,
                                    AccountView { is_active: true, updated_at: ctx.timestamp, ..v.account },
                                ),
                            )
                        },
                    }
                },
            },
        },
    }
}

/// Authentication of operation `op` on the account with bytes `target`,
/// requested by `requester` at `timestamp` over `data` with credentials
/// `creds`, answered `o`: `o` is the kernel outcome of an authentication
/// outcome of `manager` in a context carrying exactly these.
pub open spec fn answered(
    manager: AuthManager,
    op: Seq<char>,
    target: Seq<u8>,
    requester: UnitsObjectId,
    timestamp: u64,
    data: Seq<u8>,
    creds: Seq<AuthCredential>,
    o: Result<(), KernelError>,
) -> bool {
    exists|ac: AuthContext, a: AuthResult|
        #![trigger authentication_outcome(manager, ac, creds, a)]
        ac.operation@ == op && ac.target_account.bytes@ == target && ac.requester == requester && ac.timestamp
            == timestamp && ac.operation_data@ == data && authentication_outcome(manager, ac, creds, a) && o
            == kernel_outcome(a)
}

/// Once a flexible creation reaches authentication, `o` is what `manager`
/// answered for "create_account" on the first target, over the fields, with
/// the credentials the parameters carry.
pub open spec fn flex_create_authenticated(manager: AuthManager, ctx: ExecutionContext, o: Result<(), KernelError>) -> bool {
    let targets = ctx.instruction.target_objects@;
    match parse_flex_create(ctx.instruction.params@) {
        Some(f) => (targets.len() > 0 && !(f.0 matches Some(u) && !username_ok(u)) && fields_fit(f)) ==> exists|
            creds: Seq<AuthCredential>,
        |
            #![trigger flex_create_creds(ctx.instruction.params@, creds)]
            flex_create_creds(ctx.instruction.params@, creds) && answered(
                manager,
                "create_account"@,
                targets[0].bytes@,
                ctx.instruction.controller_id,
                ctx.timestamp,
                fields_bytes(f) + le32(0),
                creds,
                o,
            ),
        None => true,
    }
}

/// Once a flexible update reaches authentication, `o` is what `manager`
/// answered for "update_account" on the account, over the fields, with the
/// credentials the parameters carry.
pub open spec fn flex_update_authenticated(manager: AuthManager, ctx: ExecutionContext, o: Result<(), KernelError>) -> bool {
    match parse_flex_update(ctx.instruction.params@) {
        Some(f) => (flex_controlled(ctx, f.0) is Ok && update_fits(f)) ==> exists|creds: Seq<AuthCredential>|
            #![trigger flex_update_creds(ctx.instruction.params@, creds)]
            flex_update_creds(ctx.instruction.params@, creds) && answered(
                manager,
                "update_account"@,
                f.0,
                ctx.instruction.controller_id,
                ctx.timestamp,
                update_bytes(f) + le32(0),
                creds,
                o,
            ),
        None => true,
    }
}

/// Once a flexible change of recovery addresses reaches authentication, `o`
/// is what `manager` answered for `op` on the account, over the account and
/// the address, with the credentials the parameters carry.
pub open spec fn flex_recovery_authenticated(
    manager: AuthManager,
    ctx: ExecutionContext,
    op: Seq<char>,
    o: Result<(), KernelError>,
) -> bool {
    match parse_flex_recovery(ctx.instruction.params@) {
        Some((a, x)) => flex_controlled(ctx, a) is Ok ==> exists|creds: Seq<AuthCredential>|
            #![trigger flex_recovery_creds(ctx.instruction.params@, creds)]
            flex_recovery_creds(ctx.instruction.params@, creds) && answered(
                manager,
                op,
                a,
                ctx.instruction.controller_id,
                ctx.timestamp,
                a + x + le32(0),
                creds,
                o,
            ),
        None => true,
    }
}

/// Once a flexible deactivation reaches authentication, `o` is what `manager`
/// answered for "deactivate_account" on the account, with the credentials the
/// parameters carry.
pub open spec fn flex_deactivate_authenticated(manager: AuthManager, ctx: ExecutionContext, o: Result<(), KernelError>) -> bool {
    match parse_flex_account(ctx.instruction.params@) {
        Some(a) => flex_controlled(ctx, a) is Ok ==> exists|creds: Seq<AuthCredential>|
            #![trigger flex_account_creds(ctx.instruction.params@, creds)]
            flex_account_creds(ctx.instruction.params@, creds) && answered(
                manager,
                "deactivate_account"@,
                a,
                ctx.instruction.controller_id,
                ctx.timestamp,
                a + le32(0),
                creds,
                o,
            ),
        None => true,
    }
}

/// Once a flexible reactivation by the controller or a recovery address
/// reaches authentication, `o` is what `manager` answered for
/// "reactivate_account" on the account, with the credentials the parameters
/// carry.
pub open spec fn flex_reactivate_authenticated(manager: AuthManager, ctx: ExecutionContext, o: Result<(), KernelError>) -> bool {
    match parse_flex_account(ctx.instruction.params@) {
        Some(a) => match account_at(ctx, a) {
            Some(acc) => match parse_enhanced(acc.data@) {
                Some(v) => (acc.controller_id == ctx.instruction.controller_id || v.account.recovery.contains(
                    ctx.instruction.controller_id.bytes@,
                )) ==> exists|creds: Seq<AuthCredential>|
                    #![trigger flex_account_creds(ctx.instruction.params@, creds)]
                    flex_account_creds(ctx.instruction.params@, creds) && answered(
                        manager,
                        "reactivate_account"@,
                        a,
                        ctx.instruction.controller_id,
                        ctx.timestamp,
                        a + le32(0),
                        creds,
                        o,
                    ),
                None => true,
            },
            None => true,
        },
        None => true,
    }
}

/// `r` is what a flexible creation yields when authentication by `manager` answered `o`.
pub open spec fn flex_create_done(manager: AuthManager, ctx: ExecutionContext, o: Result<(), KernelError>, r: Result<Vec<ObjectEffect>, KernelError>) -> bool {
    &&& auth_allowed(manager.policy_count(), o)
    &&& flex_create_authenticated(manager, ctx, o)
    &&& created_as(r, ctx, flex_create_result(ctx, o))
}

/// `r` is what a flexible update yields when authentication by `manager` answered `o`.
pub open spec fn flex_update_done(manager: AuthManager, ctx: ExecutionContext, o: Result<(), KernelError>, r: Result<Vec<ObjectEffect>, KernelError>) -> bool {
    &&& auth_allowed(manager.policy_count(), o)
    &&& flex_update_authenticated(manager, ctx, o)
    &&& one_change(r, flex_update_result(ctx, o))
}

/// `r` is what adding a recovery address yields when authentication by `manager` answered `o`.
pub open spec fn flex_add_done(manager: AuthManager, ctx: ExecutionContext, o: Result<(), KernelError>, r: Result<Vec<ObjectEffect>, KernelError>) -> bool {
    &&& auth_allowed(manager.policy_count(), o)
    &&& flex_recovery_authenticated(manager, ctx, "add_recovery_address"@, o)
    &&& one_change(r, flex_add_result(ctx, o))
}

/// `r` is what removing a recovery address yields when authentication by `manager` answered `o`.
pub open spec fn flex_remove_done(manager: AuthManager, ctx: ExecutionContext, o: Result<(), KernelError>, r: Result<Vec<ObjectEffect>, KernelError>) -> bool {
    &&& auth_allowed(manager.policy_count(), o)
    &&& flex_recovery_authenticated(manager, ctx, "remove_recovery_address"@, o)
    &&& one_change(r, flex_remove_result(ctx, o))
}

/// `r` is what a flexible deactivation yields when authentication by `manager` answered `o`.
pub open spec fn flex_deactivate_done(manager: AuthManager, ctx: ExecutionContext, o: Result<(), KernelError>, r: Result<Vec<ObjectEffect>, KernelError>) -> bool {
    &&& auth_allowed(manager.policy_count(), o)
    &&& flex_deactivate_authenticated(manager, ctx, o)
    &&& one_change(r, flex_deactivate_result(ctx, o))
}

/// `r` is what a flexible reactivation yields when authentication by `manager` answered `o`.
pub open spec fn flex_reactivate_done(manager: AuthManager, ctx: ExecutionContext, o: Result<(), KernelError>, r: Result<Vec<ObjectEffect>, KernelError>) -> bool {
    &&& auth_allowed(manager.policy_count(), o)
    &&& flex_reactivate_authenticated(manager, ctx, o)
    &&& one_change(r, flex_reactivate_result(ctx, o))
}

/// Account module whose operations carry credentials checked by its
/// authentication manager.
pub struct EnhancedAccountModule {
    auth_manager: AuthManager,
}

impl EnhancedAccountModule {
    /// How many policies the module's manager holds.
    pub closed spec fn policy_count(&self) -> nat {
        self.auth_manager.policy_count()
    }

    /// The module's authentication manager.
    pub closed spec fn manager(&self) -> AuthManager {
        self.auth_manager
    }

    fn add_default_authenticators(manager: &mut AuthManager)
        ensures
            final(manager).policy_count() == old(manager).policy_count(),
            final(manager).authenticator_count() == old(manager).authenticator_count() + 9,
            forall|ctx: AuthContext, has: spec_fn(AuthFactor) -> nat|
                #[trigger] final(manager).demands(ctx, has) == old(manager).demands(ctx, has),
    {
        let signature = create_default_signature_authenticators();
        for a in iter: signature
            invariant
                manager.policy_count() == old(manager).policy_count(),
                manager.authenticator_count() == old(manager).authenticator_count() + iter.index(),
                forall|ctx: AuthContext, has: spec_fn(AuthFactor) -> nat|
                    #[trigger] manager.demands(ctx, has) == old(manager).demands(ctx, has),
        {
            manager.add_authenticator(a);
        }
        let ghost middle = manager.authenticator_count();
        let mfa = create_default_mfa_authenticators();
        for a in iter: mfa
            invariant
                manager.policy_count() == old(manager).policy_count(),
                manager.authenticator_count() == middle + iter.index(),
                forall|ctx: AuthContext, has: spec_fn(AuthFactor) -> nat|
                    #[trigger] manager.demands(ctx, has) == old(manager).demands(ctx, has),
        {
            manager.add_authenticator(a);
        }
    }

    /// A module with every signature and second-factor authenticator, and the
    /// standard policy alone.
    pub fn new_standard() -> (m: Self)
        ensures
            m.policy_count() == 1,
            m.manager().authenticator_count() == 9,
    {
        let mut auth_manager = AuthManager::new();
        Self::add_default_authenticators(&mut auth_manager);
        auth_manager.add_policy(Box::new(StandardAccountPolicy));
        EnhancedAccountModule { auth_manager }
    }

    /// A module with every signature and second-factor authenticator, and the
    /// high-security policy alone.
    pub fn new_high_security() -> (m: Self)
        ensures
            m.policy_count() == 1,
            m.manager().authenticator_count() == 9,
    {
        let mut auth_manager = AuthManager::new();
        Self::add_default_authenticators(&mut auth_manager);
        auth_manager.add_policy(Box::new(HighSecurityPolicy));
        EnhancedAccountModule { auth_manager }
    }

    /// A module with the given manager.
    pub fn new_custom(auth_manager: AuthManager) -> (m: Self)
        ensures
            m.policy_count() == auth_manager.policy_count(),
            m.manager() == auth_manager,
    {
        EnhancedAccountModule { auth_manager }
    }

    /// Authenticate an operation with the credentials given.
    fn authenticate_operation(
        &self,
        operation: &str,
        target_account: UnitsObjectId,
        requester: UnitsObjectId,
        timestamp: u64,
        operation_data: Vec<u8>,
        credentials: &[AuthCredential],
    ) -> (r: Result<(), KernelError>)
        ensures
            auth_allowed(self.policy_count(), r),
            answered(
                self.auth_manager,
                operation@,
                target_account.bytes@,
                requester,
                timestamp,
                operation_data@,
                credentials@,
                r,
            ),
    {
        let auth_context = AuthContext {
            operation: operation.to_owned(),
            target_account,
            requester,
            timestamp,
            operation_data,
        };
        let a = self.auth_manager.authenticate(credentials, &auth_context);
        let r = auth_result_to_kernel(a);
        assert(authentication_outcome(self.auth_manager, auth_context, credentials@, a) && r == kernel_outcome(a));
        r
    }
}

/// `r` is the outcome of creating an account as `res` describes.
pub open spec fn created_as(
    r: Result<Vec<ObjectEffect>, KernelError>,
    ctx: ExecutionContext,
    res: Result<Seq<u8>, KernelError>,
) -> bool {
    match res {
        Err(e) => r == Err::<Vec<ObjectEffect>, KernelError>(e),
        Ok(d) => r matches Ok(v) && v@.len() == 1 && creates(
            v@[0],
            ctx.instruction.target_objects@[0],
            ctx.instruction.controller_id,
            d,
        ),
    }
}

/// The effect re-encoding a changed account.
fn finish_enhanced(account: &UnitsObject, data: &EnhancedAccountData) -> (r: Result<Vec<ObjectEffect>, KernelError>)
    ensures
        one_change(r, reencode_enhanced(*account, data@)),
{
    match data.encode() {
        Some(bytes) => {
            let mut effects: Vec<ObjectEffect> = Vec::new();
            effects.push(modification_with(account, bytes));
            Ok(effects)
        },
        None => Err(KernelError::InvalidData),
    }
}

/// The object at `id` when the caller controls it.
fn flex_account<'a>(ctx: &'a ExecutionContext, id: &UnitsObjectId) -> (r: Result<&'a UnitsObject, KernelError>)
    ensures
        match flex_controlled(*ctx, id.bytes@) {
            Err(e) => r == Err::<&UnitsObject, KernelError>(e),
            Ok(o) => r matches Ok(x) && *x == o,
        },
{
    proof {
        lemma_account_at(*ctx, *id);
    }
    let account = match ctx.objects.get(id) {
        Some(o) => o,
        None => {
            return Err(KernelError::ObjectNotFound);
        },
    };
    if account.controller_id != ctx.instruction.controller_id {
        return Err(KernelError::Unauthorized);
    }
    Ok(account)
}

impl EnhancedAccountModule {
    /// Create an account at the first target, once the credentials authenticate it.
    pub fn handle_flex_create_account(&self, ctx: &ExecutionContext) -> (r: Result<Vec<ObjectEffect>, KernelError>)
        ensures
            exists|o: Result<(), KernelError>|
                #![trigger flex_create_done(self.manager(), *ctx, o, r)]
                flex_create_done(self.manager(), *ctx, o, r),
    {
        let ghost ok: Result<(), KernelError> = Ok(());
        let params = match FlexCreateAccountParams::decode(ctx.instruction.params.as_slice()) {
            Some(p) => p,
            None => {
                let r: Result<Vec<ObjectEffect>, KernelError> = Err(KernelError::InvalidData);
                assert(flex_create_done(self.manager(), *ctx, ok, r));
                return r;
            },
        };
        if ctx.instruction.target_objects.len() == 0 {
            let r: Result<Vec<ObjectEffect>, KernelError> = Err(KernelError::InvalidParams);
            assert(flex_create_done(self.manager(), *ctx, ok, r));
            return r;
        }
        let account_id = ctx.instruction.target_objects[0];
        match &params.username {
            Some(u) => {
                if !validate_username(u.as_str()) {
                    let r: Result<Vec<ObjectEffect>, KernelError> = Err(KernelError::InvalidParams);
                    assert(flex_create_done(self.manager(), *ctx, ok, r));
                    return r;
                }
            },
            None => {},
        }
        let operation_data = match flex_create_data(&params) {
            Some(d) => d,
            None => {
                let r: Result<Vec<ObjectEffect>, KernelError> = Err(KernelError::InvalidData);
                assert(flex_create_done(self.manager(), *ctx, ok, r));
                return r;
            },
        };
        let o = self.authenticate_operation(
            "create_account",
            account_id,
            ctx.instruction.controller_id,
            ctx.timestamp,
            operation_data,
            params.credentials.as_slice(),
        );
        match o {
            Err(e) => {
                let r: Result<Vec<ObjectEffect>, KernelError> = Err(e);
                assert(flex_create_done(self.manager(), *ctx, o, r));
                return r;
            },
            Ok(()) => {},
        }
        let mut account_data = EnhancedAccountData::new(account_id, ctx.timestamp);
        account_data.username = params.username;
        account_data.display_name = params.display_name;
        match params.metadata {
            Some(m) => {
                account_data.metadata = m;
            },
            None => {},
        }
        match params.recovery_addresses {
            Some(r) => {
                account_data.recovery_addresses = r;
            },
            None => {},
        }
        let data = match account_data.encode() {
            Some(d) => d,
            None => {
                let r: Result<Vec<ObjectEffect>, KernelError> = Err(KernelError::InvalidData);
                assert(flex_create_done(self.manager(), *ctx, o, r));
                return r;
            },
        };
        let mut effects: Vec<ObjectEffect> = Vec::new();
        effects.push(creation_with(account_id, ctx.instruction.controller_id, data));
        let r: Result<Vec<ObjectEffect>, KernelError> = Ok(effects);
        assert(flex_create_done(self.manager(), *ctx, o, r));
        r
    }
}

impl EnhancedAccountModule {
    /// Update the username, display name and metadata given, on an active
    /// account the caller controls, once the credentials authenticate it.
    pub fn handle_flex_update_account(&self, ctx: &ExecutionContext) -> (r: Result<Vec<ObjectEffect>, KernelError>)
        ensures
            exists|o: Result<(), KernelError>|
                #![trigger flex_update_done(self.manager(), *ctx, o, r)]
                flex_update_done(self.manager(), *ctx, o, r),
    {
        let ghost ok: Result<(), KernelError> = Ok(());
        let params = match FlexUpdateAccountParams::decode(ctx.instruction.params.as_slice()) {
            Some(p) => p,
            None => {
                let r: Result<Vec<ObjectEffect>, KernelError> = Err(KernelError::InvalidData);
                assert(flex_update_done(self.manager(), *ctx, ok, r));
                return r;
            },
        };
        let account = match flex_account(ctx, &params.account_id) {
            Ok(a) => a,
            Err(e) => {
                let r: Result<Vec<ObjectEffect>, KernelError> = Err(e);
                assert(flex_update_done(self.manager(), *ctx, ok, r));
                return r;
            },
        };
        let operation_data = match flex_update_data(&params) {
            Some(d) => d,
            None => {
                let r: Result<Vec<ObjectEffect>, KernelError> = Err(KernelError::InvalidData);
                assert(flex_update_done(self.manager(), *ctx, ok, r));
                return r;
            },
        };
        let o = self.authenticate_operation(
            "update_account",
            params.account_id,
            ctx.instruction.controller_id,
            ctx.timestamp,
            operation_data,
            params.credentials.as_slice(),
        );
        match o {
            Err(e) => {
                let r: Result<Vec<ObjectEffect>, KernelError> = Err(e);
                assert(flex_update_done(self.manager(), *ctx, o, r));
                return r;
            },
            Ok(()) => {},
        }
        let mut account_data = match EnhancedAccountData::decode(account.data.as_slice()) {
            Some(d) => d,
            None => {
                let r: Result<Vec<ObjectEffect>, KernelError> = Err(KernelError::InvalidData);
                assert(flex_update_done(self.manager(), *ctx, o, r));
                return r;
            },
        };
        if !account_data.is_active {
            let r: Result<Vec<ObjectEffect>, KernelError> = Err(KernelError::InvalidParams);
                assert(flex_update_done(self.manager(), *ctx, o, r));
                return r;
        }
        match params.username {
            Some(u) => {
                if !validate_username(u.as_str()) {
                    let r: Result<Vec<ObjectEffect>, KernelError> = Err(KernelError::InvalidParams);
                assert(flex_update_done(self.manager(), *ctx, o, r));
                return r;
                }
                account_data.username = Some(u);
            },
            None => {},
        }
        match params.display_name {
            Some(d) => {
                account_data.display_name = Some(d);
            },
            None => {},
        }
        match params.metadata {
            Some(m) => {
                account_data.metadata = m;
            },
            None => {},
        }
        account_data.updated_at = ctx.timestamp;
        let r = finish_enhanced(account, &account_data);
        assert(flex_update_done(self.manager(), *ctx, o, r));
        r
    }

    /// Add a recovery address to an active account the caller controls, once
    /// the credentials authenticate it.
    pub fn handle_flex_add_recovery_address(&self, ctx: &ExecutionContext) -> (r: Result<Vec<ObjectEffect>, KernelError>)
        ensures
            exists|o: Result<(), KernelError>|
                #![trigger flex_add_done(self.manager(), *ctx, o, r)]
                flex_add_done(self.manager(), *ctx, o, r),
    {
        let ghost ok: Result<(), KernelError> = Ok(());
        let params = match FlexAddRecoveryAddressParams::decode(ctx.instruction.params.as_slice()) {
            Some(p) => p,
            None => {
                let r: Result<Vec<ObjectEffect>, KernelError> = Err(KernelError::InvalidData);
                assert(flex_add_done(self.manager(), *ctx, ok, r));
                return r;
            },
        };
        let account = match flex_account(ctx, &params.account_id) {
            Ok(a) => a,
            Err(e) => {
                let r: Result<Vec<ObjectEffect>, KernelError> = Err(e);
                assert(flex_add_done(self.manager(), *ctx, ok, r));
                return r;
            },
        };
        let operation_data = flex_recovery_data(&params.account_id, &params.recovery_address);
        let o = self.authenticate_operation(
            "add_recovery_address",
            params.account_id,
            ctx.instruction.controller_id,
            ctx.timestamp,
            operation_data,
            params.credentials.as_slice(),
        );
        match o {
            Err(e) => {
                let r: Result<Vec<ObjectEffect>, KernelError> = Err(e);
                assert(flex_add_done(self.manager(), *ctx, o, r));
                return r;
            },
            Ok(()) => {},
        }
        let mut account_data = match EnhancedAccountData::decode(account.data.as_slice()) {
            Some(d) => d,
            None => {
                let r: Result<Vec<ObjectEffect>, KernelError> = Err(KernelError::InvalidData);
                assert(flex_add_done(self.manager(), *ctx, o, r));
                return r;
            },
        };
        if !account_data.is_active {
            let r: Result<Vec<ObjectEffect>, KernelError> = Err(KernelError::InvalidParams);
                assert(flex_add_done(self.manager(), *ctx, o, r));
                return r;
        }
        if contains_id(&account_data.recovery_addresses, &params.recovery_address) {
            let r: Result<Vec<ObjectEffect>, KernelError> = Err(KernelError::InvalidParams);
                assert(flex_add_done(self.manager(), *ctx, o, r));
                return r;
        }
        let ghost before = account_data.recovery_addresses@;
        account_data.recovery_addresses.push(params.recovery_address);
        account_data.updated_at = ctx.timestamp;
        proof {
            assert(crate::account::ids_view(account_data.recovery_addresses@) =~= crate::account::ids_view(
                before,
            ).push(params.recovery_address.bytes@));
        }
        let r = finish_enhanced(account, &account_data);
        assert(flex_add_done(self.manager(), *ctx, o, r));
        r
    }

    /// Remove a recovery address from an active account the caller controls,
    /// once the credentials authenticate it; an address that is not there is
    /// refused.
    pub fn handle_flex_remove_recovery_address(&self, ctx: &ExecutionContext) -> (r: Result<Vec<ObjectEffect>, KernelError>)
        ensures
            exists|o: Result<(), KernelError>|
                #![trigger flex_remove_done(self.manager(), *ctx, o, r)]
                flex_remove_done(self.manager(), *ctx, o, r),
    {
        let ghost ok: Result<(), KernelError> = Ok(());
        let params = match FlexRemoveRecoveryAddressParams::decode(ctx.instruction.params.as_slice()) {
            Some(p) => p,
            None => {
                let r: Result<Vec<ObjectEffect>, KernelError> = Err(KernelError::InvalidData);
                assert(flex_remove_done(self.manager(), *ctx, ok, r));
                return r;
            },
        };
        let account = match flex_account(ctx, &params.account_id) {
            Ok(a) => a,
            Err(e) => {
                let r: Result<Vec<ObjectEffect>, KernelError> = Err(e);
                assert(flex_remove_done(self.manager(), *ctx, ok, r));
                return r;
            },
        };
        let operation_data = flex_recovery_data(&params.account_id, &params.recovery_address);
        let o = self.authenticate_operation(
            "remove_recovery_address",
            params.account_id,
            ctx.instruction.controller_id,
            ctx.timestamp,
            operation_data,
            params.credentials.as_slice(),
        );
        match o {
            Err(e) => {
                let r: Result<Vec<ObjectEffect>, KernelError> = Err(e);
                assert(flex_remove_done(self.manager(), *ctx, o, r));
                return r;
            },
            Ok(()) => {},
        }
        let mut account_data = match EnhancedAccountData::decode(account.data.as_slice()) {
            Some(d) => d,
            None => {
                let r: Result<Vec<ObjectEffect>, KernelError> = Err(KernelError::InvalidData);
                assert(flex_remove_done(self.manager(), *ctx, o, r));
                return r;
            },
        };
        if !account_data.is_active {
            let r: Result<Vec<ObjectEffect>, KernelError> = Err(KernelError::InvalidParams);
                assert(flex_remove_done(self.manager(), *ctx, o, r));
                return r;
        }
        let initial_len = account_data.recovery_addresses.len();
        let kept = remove_id(&account_data.recovery_addresses, &params.recovery_address);
        proof {
            assert(crate::account::ids_view(account_data.recovery_addresses@).len() == initial_len);
        }
        if kept.len() == initial_len {
            let r: Result<Vec<ObjectEffect>, KernelError> = Err(KernelError::InvalidParams);
                assert(flex_remove_done(self.manager(), *ctx, o, r));
                return r;
        }
        account_data.recovery_addresses = kept;
        account_data.updated_at = ctx.timestamp;
        let r = finish_enhanced(account, &account_data);
        assert(flex_remove_done(self.manager(), *ctx, o, r));
        r
    }

    /// Deactivate an active account the caller controls, once the credentials
    /// authenticate it.
    pub fn handle_flex_deactivate_account(&self, ctx: &ExecutionContext) -> (r: Result<Vec<ObjectEffect>, KernelError>)
        ensures
            exists|o: Result<(), KernelError>|
                #![trigger flex_deactivate_done(self.manager(), *ctx, o, r)]
                flex_deactivate_done(self.manager(), *ctx, o, r),
    {
        let ghost ok: Result<(), KernelError> = Ok(());
        let params = match FlexDeactivateAccountParams::decode(ctx.instruction.params.as_slice()) {
            Some(p) => p,
            None => {
                let r: Result<Vec<ObjectEffect>, KernelError> = Err(KernelError::InvalidData);
                assert(flex_deactivate_done(self.manager(), *ctx, ok, r));
                return r;
            },
        };
        let account = match flex_account(ctx, &params.account_id) {
            Ok(a) => a,
            Err(e) => {
                let r: Result<Vec<ObjectEffect>, KernelError> = Err(e);
                assert(flex_deactivate_done(self.manager(), *ctx, ok, r));
                return r;
            },
        };
        let operation_data = flex_account_data(&params.account_id);
        let o = self.authenticate_operation(
            "deactivate_account",
            params.account_id,
            ctx.instruction.controller_id,
            ctx.timestamp,
            operation_data,
            params.credentials.as_slice(),
        );
        match o {
            Err(e) => {
                let r: Result<Vec<ObjectEffect>, KernelError> = Err(e);
                assert(flex_deactivate_done(self.manager(), *ctx, o, r));
                return r;
            },
            Ok(()) => {},
        }
        let mut account_data = match EnhancedAccountData::decode(account.data.as_slice()) {
            Some(d) => d,
            None => {
                let r: Result<Vec<ObjectEffect>, KernelError> = Err(KernelError::InvalidData);
                assert(flex_deactivate_done(self.manager(), *ctx, o, r));
                return r;
            },
        };
        if !account_data.is_active {
            let r: Result<Vec<ObjectEffect>, KernelError> = Err(KernelError::InvalidParams);
                assert(flex_deactivate_done(self.manager(), *ctx, o, r));
                return r;
        }
        account_data.is_active = false;
        account_data.updated_at = ctx.timestamp;
        let r = finish_enhanced(account, &account_data);
        assert(flex_deactivate_done(self.manager(), *ctx, o, r));
        r
    }

    /// Reactivate an inactive account, once the credentials authenticate it:
    /// its controller or one of its recovery addresses may.
    pub fn handle_flex_reactivate_account(&self, ctx: &ExecutionContext) -> (r: Result<Vec<ObjectEffect>, KernelError>)
        ensures
            exists|o: Result<(), KernelError>|
                #![trigger flex_reactivate_done(self.manager(), *ctx, o, r)]
                flex_reactivate_done(self.manager(), *ctx, o, r),
    {
        let ghost ok: Result<(), KernelError> = Ok(());
        let params = match FlexReactivateAccountParams::decode(ctx.instruction.params.as_slice()) {
            Some(p) => p,
            None => {
                let r: Result<Vec<ObjectEffect>, KernelError> = Err(KernelError::InvalidData);
                assert(flex_reactivate_done(self.manager(), *ctx, ok, r));
                return r;
            },
        };
        proof {
            lemma_account_at(*ctx, params.account_id);
        }
        let account = match ctx.objects.get(&params.account_id) {
            Some(a) => a,
            None => {
                let r: Result<Vec<ObjectEffect>, KernelError> = Err(KernelError::ObjectNotFound);
                assert(flex_reactivate_done(self.manager(), *ctx, ok, r));
                return r;
            },
        };
        let mut account_data = match EnhancedAccountData::decode(account.data.as_slice()) {
            Some(d) => d,
            None => {
                let r: Result<Vec<ObjectEffect>, KernelError> = Err(KernelError::InvalidData);
                assert(flex_reactivate_done(self.manager(), *ctx, ok, r));
                return r;
            },
        };
        let is_controller = account.controller_id == ctx.instruction.controller_id;
        let is_recovery = contains_id(&account_data.recovery_addresses, &ctx.instruction.controller_id);
        if !is_controller && !is_recovery {
            let r: Result<Vec<ObjectEffect>, KernelError> = Err(KernelError::Unauthorized);
                assert(flex_reactivate_done(self.manager(), *ctx, ok, r));
                return r;
        }
        let operation_data = flex_account_data(&params.account_id);
        let o = self.authenticate_operation(
            "reactivate_account",
            params.account_id,
            ctx.instruction.controller_id,
            ctx.timestamp,
            operation_data,
            params.credentials.as_slice(),
        );
        match o {
            Err(e) => {
                let r: Result<Vec<ObjectEffect>, KernelError> = Err(e);
                assert(flex_reactivate_done(self.manager(), *ctx, o, r));
                return r;
            },
            Ok(()) => {},
        }
        if account_data.is_active {
            let r: Result<Vec<ObjectEffect>, KernelError> = Err(KernelError::InvalidParams);
                assert(flex_reactivate_done(self.manager(), *ctx, o, r));
                return r;
        }
        account_data.is_active = true;
        account_data.updated_at = ctx.timestamp;
        let r = finish_enhanced(account, &account_data);
        assert(flex_reactivate_done(self.manager(), *ctx, o, r));
        r
    }

    /// Read an account: no effects, when it exists.
    pub fn handle_get_account(&self, ctx: &ExecutionContext) -> (r: Result<Vec<ObjectEffect>, KernelError>)
        ensures
            match get_result(*ctx) {
                Err(e) => r == Err::<Vec<ObjectEffect>, KernelError>(e),
                Ok(_) => r matches Ok(v) && v@.len() == 0,
            },
    {
        let params = match GetAccountParams::decode(ctx.instruction.params.as_slice()) {
            Some(p) => p,
            None => {
                return Err(KernelError::InvalidData);
            },
        };
        proof {
            lemma_account_at(*ctx, params.account_id);
        }
        if ctx.objects.contains_key(&params.account_id) {
            Ok(Vec::new())
        } else {
            Err(KernelError::ObjectNotFound)
        }
    }
}

/// `name` is one of the flexible account module's function names.
pub open spec fn flex_function_name(name: Seq<char>) -> bool {
    name == "flex_create_account"@ || name == "flex_update_account"@ || name
        == "flex_add_recovery_address"@ || name == "flex_remove_recovery_address"@ || name
        == "flex_deactivate_account"@ || name == "flex_reactivate_account"@ || name == "get_account"@
}

impl EnhancedAccountModule {
    /// Run the function named by the instruction with a standard module; an
    /// unknown name is refused.
    pub fn execute(ctx: &ExecutionContext) -> (r: Result<Vec<ObjectEffect>, KernelError>)
        ensures
            ctx.instruction.target_function@ == "flex_create_account"@ ==> exists|m: AuthManager, o: Result<(), KernelError>|
                #![trigger flex_create_done(m, *ctx, o, r)]
                m.policy_count() == 1 && flex_create_done(m, *ctx, o, r),
            ctx.instruction.target_function@ == "flex_update_account"@ ==> exists|m: AuthManager, o: Result<(), KernelError>|
                #![trigger flex_update_done(m, *ctx, o, r)]
                m.policy_count() == 1 && flex_update_done(m, *ctx, o, r),
            ctx.instruction.target_function@ == "flex_add_recovery_address"@ ==> exists|m: AuthManager, o: Result<(), KernelError>|
                #![trigger flex_add_done(m, *ctx, o, r)]
                m.policy_count() == 1 && flex_add_done(m, *ctx, o, r),
            ctx.instruction.target_function@ == "flex_remove_recovery_address"@ ==> exists|m: AuthManager, o: Result<(), KernelError>|
                #![trigger flex_remove_done(m, *ctx, o, r)]
                m.policy_count() == 1 && flex_remove_done(m, *ctx, o, r),
            ctx.instruction.target_function@ == "flex_deactivate_account"@ ==> exists|m: AuthManager, o: Result<(), KernelError>|
                #![trigger flex_deactivate_done(m, *ctx, o, r)]
                m.policy_count() == 1 && flex_deactivate_done(m, *ctx, o, r),
            ctx.instruction.target_function@ == "flex_reactivate_account"@ ==> exists|m: AuthManager, o: Result<(), KernelError>|
                #![trigger flex_reactivate_done(m, *ctx, o, r)]
                m.policy_count() == 1 && flex_reactivate_done(m, *ctx, o, r),
            ctx.instruction.target_function@ == "get_account"@ ==> match get_result(*ctx) {
                Err(e) => r == Err::<Vec<ObjectEffect>, KernelError>(e),
                Ok(_) => r matches Ok(v) && v@.len() == 0,
            },
            !flex_function_name(ctx.instruction.target_function@) ==> r == Err::<
                Vec<ObjectEffect>,
                KernelError,
            >(KernelError::InvalidFunction),
    {
        let module = Self::new_standard();
        let f = &ctx.instruction.target_function;
        proof {
            reveal_strlit("flex_create_account");
            reveal_strlit("flex_update_account");
            reveal_strlit("flex_add_recovery_address");
            reveal_strlit("flex_remove_recovery_address");
            reveal_strlit("flex_deactivate_account");
            reveal_strlit("flex_reactivate_account");
            reveal_strlit("get_account");
            assert("flex_create_account"@[5] == 'c' && "flex_update_account"@[5] == 'u'
                && "flex_add_recovery_address"@[5] == 'a' && "flex_remove_recovery_address"@[5] == 'r'
                && "flex_remove_recovery_address"@[7] == 'm' && "flex_deactivate_account"@[5] == 'd'
                && "flex_reactivate_account"@[5] == 'r' && "flex_reactivate_account"@[7] == 'a'
                && "get_account"@[0] == 'g' && "flex_create_account"@[0] == 'f');
        }
        if names(f, "flex_create_account") {
            let r = module.handle_flex_create_account(ctx);
            proof {
                let o = choose|o: Result<(), KernelError>| #![trigger flex_create_result(*ctx, o)] auth_allowed(module.policy_count(), o) && created_as(r, *ctx, flex_create_result(*ctx, o));
                assert(auth_answer(o) && created_as(r, *ctx, flex_create_result(*ctx, o)));
            }
            r
        } else if names(f, "flex_update_account") {
            let r = module.handle_flex_update_account(ctx);
            proof {
                let o = choose|o: Result<(), KernelError>| #![trigger flex_update_result(*ctx, o)] auth_allowed(module.policy_count(), o) && one_change(r, flex_update_result(*ctx, o));
                assert(auth_answer(o) && one_change(r, flex_update_result(*ctx, o)));
            }
            r
        } else if names(f, "flex_add_recovery_address") {
            let r = module.handle_flex_add_recovery_address(ctx);
            proof {
                let o = choose|o: Result<(), KernelError>| #![trigger flex_add_result(*ctx, o)] auth_allowed(module.policy_count(), o) && one_change(r, flex_add_result(*ctx, o));
                assert(auth_answer(o) && one_change(r, flex_add_result(*ctx, o)));
            }
            r
        } else if names(f, "flex_remove_recovery_address") {
            let r = module.handle_flex_remove_recovery_address(ctx);
            proof {
                let o = choose|o: Result<(), KernelError>| #![trigger flex_remove_result(*ctx, o)] auth_allowed(module.policy_count(), o) && one_change(r, flex_remove_result(*ctx, o));
                assert(auth_answer(o) && one_change(r, flex_remove_result(*ctx, o)));
            }
            r
        } else if names(f, "flex_deactivate_account") {
            let r = module.handle_flex_deactivate_account(ctx);
            proof {
                let o = choose|o: Result<(), KernelError>| #![trigger flex_deactivate_result(*ctx, o)] auth_allowed(module.policy_count(), o) && one_change(r, flex_deactivate_result(*ctx, o));
                assert(auth_answer(o) && one_change(r, flex_deactivate_result(*ctx, o)));
            }
            r
        } else if names(f, "flex_reactivate_account") {
            let r = module.handle_flex_reactivate_account(ctx);
            proof {
                let o = choose|o: Result<(), KernelError>| #![trigger flex_reactivate_result(*ctx, o)] auth_allowed(module.policy_count(), o) && one_change(r, flex_reactivate_result(*ctx, o));
                assert(auth_answer(o) && one_change(r, flex_reactivate_result(*ctx, o)));
            }
            r
        } else if names(f, "get_account") {
            module.handle_get_account(ctx)
        } else {
            Err(KernelError::InvalidFunction)
        }
    }
}

/// A refused authentication changes nothing: whatever the parameters, every
/// flexible operation then fails.
pub proof fn lemma_refused_authentication_fails(ctx: ExecutionContext, e: KernelError)
    ensures
        flex_create_result(ctx, Err(e)) is Err,
        flex_update_result(ctx, Err(e)) is Err,
        flex_add_result(ctx, Err(e)) is Err,
        flex_remove_result(ctx, Err(e)) is Err,
        flex_deactivate_result(ctx, Err(e)) is Err,
        flex_reactivate_result(ctx, Err(e)) is Err,
{
}

/// Only the controller of an account changes it, except that a recovery
/// address may reactivate it: every successful flexible change other than
/// reactivation is to an account the caller controls.
pub proof fn lemma_flex_only_controller_modifies(ctx: ExecutionContext, o: Result<(), KernelError>)
    ensures
        flex_update_result(ctx, o) matches Ok((acc, _)) ==> acc.controller_id == ctx.instruction.controller_id,
        flex_add_result(ctx, o) matches Ok((acc, _)) ==> acc.controller_id == ctx.instruction.controller_id,
        flex_remove_result(ctx, o) matches Ok((acc, _)) ==> acc.controller_id == ctx.instruction.controller_id,
        flex_deactivate_result(ctx, o) matches Ok((acc, _)) ==> acc.controller_id
            == ctx.instruction.controller_id,
        flex_reactivate_result(ctx, o) matches Ok((acc, _)) ==> acc.controller_id
            == ctx.instruction.controller_id || parse_enhanced(acc.data@)->Some_0.account.recovery.contains(
            ctx.instruction.controller_id.bytes@,
        ),
{
}

/// Where the activity flag of account `a` stands in its encoding: after the
/// identifier, the two optional names and the metadata.
pub open spec fn active_flag_at(a: AccountView) -> int {
    (a.id + opt_string_bytes(a.username) + opt_string_bytes(a.display_name) + meta_bytes(
        a.metadata,
    )).len() as int
}

/// A successful flexible deactivation takes an active account and writes it back
/// with its activity flag cleared and its update time set to the timestamp, all
/// else kept: in the after-image the flag reads as inactive and the update time
/// reads as the timestamp, and the after-image decodes to the account inactive
/// and updated at the timestamp.
pub proof fn lemma_flex_deactivate_clears_active(ctx: ExecutionContext, o: Result<(), KernelError>)
    ensures
        flex_deactivate_result(ctx, o) matches Ok((acc, d)) ==> {
            &&& parse_enhanced(acc.data@) matches Some(v)
            &&& v.account.is_active
            &&& d == enhanced_bytes(
                EnhancedView {
                    account: AccountView { is_active: false, updated_at: ctx.timestamp, ..v.account },
                    ..v
                },
            )
            &&& parse_enhanced(d) == Some(
                EnhancedView {
                    account: AccountView {
                        is_active: false,
                        updated_at: ctx.timestamp,
                        metadata: meta_from_entries(v.account.metadata),
                        ..v.account
                    },
                    ..v
                },
            )
            &&& take_bool(d, active_flag_at(v.account)) == Some((false, active_flag_at(v.account) + 1))
            &&& take_u64(d, active_flag_at(v.account) + 1 + ids_bytes(v.account.recovery).len() + 8)
                == Some(
                (
                    ctx.timestamp,
                    active_flag_at(v.account) + 1 + ids_bytes(v.account.recovery).len() + 16,
                ),
            )
        },
{
    if let Ok((acc, d)) = flex_deactivate_result(ctx, o) {
        let v = parse_enhanced(acc.data@)->Some_0;
        lemma_parsed_enhanced_ids(acc.data@);
        lemma_flagged_image(v, false, ctx.timestamp);
    }
}

/// A successful flexible reactivation takes an inactive account and writes it
/// back with its activity flag set and its update time set to the timestamp, all
/// else kept: in the after-image the flag reads as active and the update time as
/// the timestamp, and the after-image decodes to the account active and updated
/// at the timestamp.
pub proof fn lemma_flex_reactivate_sets_active(ctx: ExecutionContext, o: Result<(), KernelError>)
    ensures
        flex_reactivate_result(ctx, o) matches Ok((acc, d)) ==> {
            &&& parse_enhanced(acc.data@) matches Some(v)
            &&& !v.account.is_active
            &&& d == enhanced_bytes(
                EnhancedView {
                    account: AccountView { is_active: true, updated_at: ctx.timestamp, ..v.account },
                    ..v
                },
            )
            &&& parse_enhanced(d) == Some(
                EnhancedView {
                    account: AccountView {
                        is_active: true,
                        updated_at: ctx.timestamp,
                        metadata: meta_from_entries(v.account.metadata),
                        ..v.account
                    },
                    ..v
                },
            )
            &&& take_bool(d, active_flag_at(v.account)) == Some((true, active_flag_at(v.account) + 1))
            &&& take_u64(d, active_flag_at(v.account) + 1 + ids_bytes(v.account.recovery).len() + 8)
                == Some(
                (
                    ctx.timestamp,
                    active_flag_at(v.account) + 1 + ids_bytes(v.account.recovery).len() + 16,
                ),
            )
        },
{
    if let Ok((acc, d)) = flex_reactivate_result(ctx, o) {
        let v = parse_enhanced(acc.data@)->Some_0;
        lemma_parsed_enhanced_ids(acc.data@);
        lemma_flagged_image(v, true, ctx.timestamp);
    }
}

#[verifier::spinoff_prover]
proof fn lemma_flagged_image(v: EnhancedView, act: bool, ts: u64)
    requires
        enhanced_fits(
            EnhancedView { account: AccountView { is_active: act, updated_at: ts, ..v.account }, ..v },
        ),
        v.account.id.len() == 32,
        forall|i: int| 0 <= i < v.account.recovery.len() ==> (#[trigger] v.account.recovery[i]).len() == 32,
    ensures
        ({
            let d = enhanced_bytes(
                EnhancedView { account: AccountView { is_active: act, updated_at: ts, ..v.account }, ..v },
            );
            &&& parse_enhanced(d) == Some(
                EnhancedView {
                    account: AccountView {
                        is_active: act,
                        updated_at: ts,
                        metadata: meta_from_entries(v.account.metadata),
                        ..v.account
                    },
                    ..v
                },
            )
            &&& take_bool(d, active_flag_at(v.account)) == Some((act, active_flag_at(v.account) + 1))
            &&& take_u64(d, active_flag_at(v.account) + 1 + ids_bytes(v.account.recovery).len() + 8)
                == Some((ts, active_flag_at(v.account) + 1 + ids_bytes(v.account.recovery).len() + 16))
        }),
{
    let a = AccountView { is_active: act, updated_at: ts, ..v.account };
    let w = EnhancedView { account: a, ..v };
    let d = enhanced_bytes(w);
    let pre = a.id + opt_string_bytes(a.username) + opt_string_bytes(a.display_name) + meta_bytes(
        a.metadata,
    );
    let tail = opt_bytes_bytes(w.auth_policy) + factors_bytes(w.factors);
    assert(d =~= pre + bool_bytes(act) + (ids_bytes(a.recovery) + le64(a.created_at)) + le64(ts)
        + tail);
    assert(d[pre.len() as int] == bool_bytes(act)[0]);
    lemma_u64_round_trip(ts, pre + bool_bytes(act) + (ids_bytes(a.recovery) + le64(a.created_at)), tail);
    lemma_u64_round_trip(a.created_at, Seq::empty(), Seq::empty());
    lemma_enhanced_round_trip(w);
}

} // verus!
