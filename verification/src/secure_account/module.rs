//! The account module whose updates are signed by the account's controller.
use vstd::prelude::*;
use crate::account::{contains_id, remove_id, username_ok, without};
use crate::auth::schemes::well_formed_signature;
use crate::crypto::{
    create_operation_message, ed25519_equation, edwards_decompresses, operation_message, verify_signature,
    CryptoError, PublicKey,
    Signature,
};
use crate::id::UnitsObjectId;
use crate::kernel::{creates, creation_with, modification_with, names, one_change, KernelError};
use crate::objects::UnitsObject;
use crate::secure_account::codec::{
    account_bytes, account_fits, lemma_account_view_round_trip, lemma_parsed_account_view_ids,
    parse_account,
};
use crate::secure_account::params::{
    parse_account_params, parse_create_params, parse_get_params, parse_recovery_params,
    parse_update_params, signed_update_data, update_bytes, update_fits, zero_signature,
};
use crate::secure_account::{
    meta_from_entries, validate_username, AccountData, AccountView, AddRecoveryAddressParams, CreateAccountParams,
    DeactivateAccountParams, GetAccountParams, MetadataMap, ReactivateAccountParams,
    RemoveRecoveryAddressParams, UpdateAccountParams,
};
use crate::vm_executor::{ExecutionContext, ObjectEffect};

verus! {

/// The object the context holds under the identifier with bytes `a`.
pub open spec fn account_at(ctx: ExecutionContext, a: Seq<u8>) -> Option<UnitsObject> {
    if exists|id: UnitsObjectId| id.bytes@ == a && ctx.objects@.dom().contains(id) {
        let id = choose|id: UnitsObjectId| id.bytes@ == a && ctx.objects@.dom().contains(id);
        Some(ctx.objects@[id])
    } else {
        None
    }
}

/// Looking an object up by its identifier is looking it up by the identifier's bytes.
pub proof fn lemma_account_at(ctx: ExecutionContext, id: UnitsObjectId)
    ensures
        account_at(ctx, id.bytes@) == (if ctx.objects@.dom().contains(id) {
            Some(ctx.objects@[id])
        } else {
            None
        }),
{
    if exists|x: UnitsObjectId| x.bytes@ == id.bytes@ && ctx.objects@.dom().contains(x) {
        let x = choose|x: UnitsObjectId| x.bytes@ == id.bytes@ && ctx.objects@.dom().contains(x);
        crate::id::lemma_id_bytes_eq(x, id);
    }
}

/// The account `acc` holds, re-encoded with fields `v`.
pub open spec fn reencode(acc: UnitsObject, v: AccountView) -> Result<(UnitsObject, Seq<u8>), KernelError> {
    if account_fits(v) {
        Ok((acc, account_bytes(v)))
    } else {
        Err(KernelError::InvalidData)
    }
}

/// The account at `a`, decoded, when the caller controls it.
pub open spec fn controlled_at(ctx: ExecutionContext, a: Seq<u8>) -> Result<(UnitsObject, AccountView), KernelError> {
    match account_at(ctx, a) {
        None => Err(KernelError::ObjectNotFound),
        Some(acc) => if acc.controller_id != ctx.instruction.controller_id {
            Err(KernelError::Unauthorized)
        } else {
            match parse_account(acc.data@) {
                None => Err(KernelError::InvalidData),
                Some(v) => Ok((acc, v)),
            }
        },
    }
}

/// What checking a signature by `signer` over `message` answers: a key that
/// is no curve point, or a malformed signature, give invalid parameters; a
/// well-formed signature passes exactly when the Ed25519 equation holds, and
/// the operation is unauthorized otherwise.
pub open spec fn signature_answer(signer: Seq<u8>, message: Seq<u8>, sig: Seq<u8>) -> Result<(), KernelError> {
    if !edwards_decompresses(signer) || !well_formed_signature(sig) {
        Err(KernelError::InvalidParams)
    } else if ed25519_equation(signer, message, sig) {
        Ok(())
    } else {
        Err(KernelError::Unauthorized)
    }
}

/// What creating an account yields: the new account's encoding, or the error.
pub open spec fn create_result(ctx: ExecutionContext) -> Result<Seq<u8>, KernelError> {
    let targets = ctx.instruction.target_objects@;
    match parse_create_params(ctx.instruction.params@) {
        None => Err(KernelError::InvalidData),
        Some((f, _)) => if targets.len() == 0 {
            Err(KernelError::InvalidParams)
        } else if f.0 matches Some(u) && !username_ok(u) {
            Err(KernelError::InvalidParams)
        } else {
            let v = AccountView {
                id: targets[0].bytes@,
                username: f.0,
                display_name: f.1,
                metadata: match f.2 {
                    Some(m) => m,
                    None => Seq::empty(),
                },
                is_active: true,
                recovery: match f.3 {
                    Some(r) => r,
                    None => Seq::empty(),
                },
                created_at: ctx.timestamp,
                updated_at: ctx.timestamp,
            };
            if account_fits(v) {
                Ok(account_bytes(v))
            } else {
                Err(KernelError::InvalidData)
            }
        },
    }
}

/// What updating an account yields, given what the signature check answered.
pub open spec fn update_result(ctx: ExecutionContext, sig: Result<(), KernelError>) -> Result<
    (UnitsObject, Seq<u8>),
    KernelError,
> {
    match parse_update_params(ctx.instruction.params@) {
        None => Err(KernelError::InvalidData),
        Some((f, _)) => match account_at(ctx, f.0) {
            None => Err(KernelError::ObjectNotFound),
            Some(acc) => if acc.controller_id != ctx.instruction.controller_id {
                Err(KernelError::Unauthorized)
            } else if !update_fits(f) {
                Err(KernelError::InvalidData)
            } else {
                match sig {
                    Err(e) => Err(e),
                    Ok(_) => match parse_account(acc.data@) {
                        None => Err(KernelError::InvalidData),
                        Some(a) => if !a.is_active {
                            Err(KernelError::InvalidParams)
                        } else if f.1 matches Some(u) && !username_ok(u) {
                            Err(KernelError::InvalidParams)
                        } else {
                            reencode(
                                acc,
                                AccountView {
                                    username: if f.1 is Some {
                                        f.1
                                    } else {
                                        a.username
                                    },
                                    display_name: if f.2 is Some {
                                        f.2
                                    } else {
                                        a.display_name
                                    },
                                    metadata: match f.3 {
                                        Some(m) => m,
                                        None => a.metadata,
                                    },
                                    updated_at: ctx.timestamp,
                                    ..a
                                },
                            )
                        },
                    },
                }
            },
        },
    }
}

/// What the signature check of an update answers: the caller's signature
/// over the operation "update_account", the account, the timestamp and the
/// update's parameters with the signature zeroed.
pub open spec fn update_answer(ctx: ExecutionContext) -> Result<(), KernelError> {
    match parse_update_params(ctx.instruction.params@) {
        Some((f, s)) => signature_answer(
            ctx.instruction.controller_id.bytes@,
            operation_message("update_account"@, f.0, ctx.timestamp, update_bytes(f) + zero_signature()),
            s,
        ),
        None => Ok(()),
    }
}

/// What adding a recovery address yields.
pub open spec fn add_recovery_result(ctx: ExecutionContext) -> Result<(UnitsObject, Seq<u8>), KernelError> {
    match parse_recovery_params(ctx.instruction.params@) {
        None => Err(KernelError::InvalidData),
        Some((a, x, _)) => match controlled_at(ctx, a) {
            Err(e) => Err(e),
            Ok((acc, v)) => if !v.is_active {
                Err(KernelError::InvalidParams)
            } else if v.recovery.contains(x) {
                Err(KernelError::InvalidParams)
            } else {
                reencode(acc, AccountView { recovery: v.recovery.push(x), updated_at: ctx.timestamp, ..v })
            },
        },
    }
}

/// What removing a recovery address yields.
pub open spec fn remove_recovery_result(ctx: ExecutionContext) -> Result<(UnitsObject, Seq<u8>), KernelError> {
    match parse_recovery_params(ctx.instruction.params@) {
        None => Err(KernelError::InvalidData),
        Some((a, x, _)) => match controlled_at(ctx, a) {
            Err(e) => Err(e),
            Ok((acc, v)) => if !v.is_active {
                Err(KernelError::InvalidParams)
            } else if without(v.recovery, x).len() == v.recovery.len() {
                Err(KernelError::InvalidParams)
            } else {
                reencode(
                    acc,
                    AccountView { recovery: without(v.recovery, x), updated_at: ctx.timestamp, ..v },
                )
            },
        },
    }
}

/// What deactivating an account yields.
pub open spec fn deactivate_result(ctx: ExecutionContext) -> Result<(UnitsObject, Seq<u8>), KernelError> {
    match parse_account_params(ctx.instruction.params@) {
        None => Err(KernelError::InvalidData),
        Some((a, _)) => match controlled_at(ctx, a) {
            Err(e) => Err(e),
            Ok((acc, v)) => if !v.is_active {
                Err(KernelError::InvalidParams)
            } else {
                reencode(acc, AccountView { is_active: false, updated_at: ctx.timestamp, ..v })
            },
        },
    }
}

/// What reactivating an account yields: its controller or one of its recovery
/// addresses may reactivate it.
pub open spec fn reactivate_result(ctx: ExecutionContext) -> Result<(UnitsObject, Seq<u8>), KernelError> {
    match parse_account_params(ctx.instruction.params@) {
        None => Err(KernelError::InvalidData),
        Some((a, _)) => match account_at(ctx, a) {
            None => Err(KernelError::ObjectNotFound),
            Some(acc) => match parse_account(acc.data@) {
                None => Err(KernelError::InvalidData),
                Some(v) => if !(acc.controller_id == ctx.instruction.controller_id || v.recovery.contains(
                    ctx.instruction.controller_id.bytes@,
                )) {
                    Err(KernelError::Unauthorized)
                } else if v.is_active {
                    Err(KernelError::InvalidParams)
                } else {
                    reencode(acc, AccountView { is_active: true, updated_at: ctx.timestamp, ..v })
                },
            },
        },
    }
}

/// What reading an account yields: no effects, when it exists.
pub open spec fn get_result(ctx: ExecutionContext) -> Result<(), KernelError> {
    match parse_get_params(ctx.instruction.params@) {
        None => Err(KernelError::InvalidData),
        Some(a) => if account_at(ctx, a) is Some {
            Ok(())
        } else {
            Err(KernelError::ObjectNotFound)
        },
    }
}

/// Check a signature on an account operation by `signer_id`: the signer's
/// identifier is its public key, and the message is the operation's.
fn verify_account_signature(
    signer_id: &UnitsObjectId,
    operation: &str,
    account_id: &UnitsObjectId,
    timestamp: u64,
    params: &[u8],
    signature: &Signature,
) -> (r: Result<(), KernelError>)
    ensures
        r == signature_answer(
            signer_id.bytes@,
            operation_message(operation@, account_id.bytes@, timestamp, params@),
            signature.bytes@,
        ),
{
    let public_key = match PublicKey::from_units_object_id(signer_id) {
        Ok(k) => k,
        Err(_) => {
            return Err(KernelError::InvalidParams);
        },
    };
    let message = create_operation_message(operation, account_id, timestamp, params);
    match verify_signature(&public_key, message.as_slice(), signature) {
        Ok(()) => Ok(()),
        Err(CryptoError::SignatureVerificationFailed) => Err(KernelError::Unauthorized),
        Err(_) => Err(KernelError::InvalidParams),
    }
}

/// The account at `id`, with the object holding it, when the caller controls it.
fn controlled<'a>(ctx: &'a ExecutionContext, id: &UnitsObjectId) -> (r: Result<(&'a UnitsObject, AccountData), KernelError>)
    ensures
        match controlled_at(*ctx, id.bytes@) {
            Err(e) => r == Err::<(&UnitsObject, AccountData), KernelError>(e),
            Ok((o, v)) => r matches Ok((x, d)) && *x == o && d@ == v,
        },
{
    proof {
        lemma_account_at(*ctx, *id);
    }
    let account = match ctx.objects.get(id) {
        Some(o) => o,
        None => {
            return Err(KernelError::ObjectNotFound);
        },
    };
    if account.controller_id != ctx.instruction.controller_id {
        return Err(KernelError::Unauthorized);
    }
    match AccountData::decode(account.data.as_slice()) {
        Some(d) => Ok((account, d)),
        None => Err(KernelError::InvalidData),
    }
}

/// The effect re-encoding a changed account.
fn finish(account: &UnitsObject, data: &AccountData) -> (r: Result<Vec<ObjectEffect>, KernelError>)
    ensures
        one_change(r, reencode(*account, data@)),
{
    match data.encode() {
        Some(bytes) => {
            let mut effects: Vec<ObjectEffect> = Vec::new();
            effects.push(modification_with(account, bytes));
            Ok(effects)
        },
        None => Err(KernelError::InvalidData),
    }
}

/// Account module whose updates are signed by the account's controller.
pub struct AccountModule;

impl AccountModule {
    /// Create an account at the first target.
    pub fn handle_create_account(ctx: &ExecutionContext) -> (r: Result<Vec<ObjectEffect>, KernelError>)
        ensures
            match create_result(*ctx) {
                Err(e) => r == Err::<Vec<ObjectEffect>, KernelError>(e),
                Ok(d) => r matches Ok(v) && v@.len() == 1 && creates(
                    v@[0],
                    ctx.instruction.target_objects@[0],
                    ctx.instruction.controller_id,
                    d,
                ),
            },
    {
        let params = match CreateAccountParams::decode(ctx.instruction.params.as_slice()) {
            Some(p) => p,
            None => {
                return Err(KernelError::InvalidData);
            },
        };
        if ctx.instruction.target_objects.len() == 0 {
            return Err(KernelError::InvalidParams);
        }
        let account_id = ctx.instruction.target_objects[0];
        match &params.username {
            Some(u) => {
                if !validate_username(u.as_str()) {
                    return Err(KernelError::InvalidParams);
                }
            },
            None => {},
        }
        let mut account_data = AccountData::new(account_id, ctx.timestamp);
        account_data.username = params.username;
        account_data.display_name = params.display_name;
        match params.metadata {
            Some(m) => {
                account_data.metadata = m;
            },
            None => {},
        }
        match params.recovery_addresses {
            Some(r) => {
                account_data.recovery_addresses = r;
            },
            None => {},
        }
        let data = match account_data.encode() {
            Some(d) => d,
            None => {
                return Err(KernelError::InvalidData);
            },
        };
        let mut effects: Vec<ObjectEffect> = Vec::new();
        effects.push(creation_with(account_id, ctx.instruction.controller_id, data));
        Ok(effects)
    }
}

impl AccountModule {
    /// Update the username, display name and metadata given, on an active
    /// account the caller controls, with the caller's signature over the
    /// parameters (their signature zeroed).
    pub fn handle_update_account(ctx: &ExecutionContext) -> (r: Result<Vec<ObjectEffect>, KernelError>)
        ensures
            one_change(r, update_result(*ctx, update_answer(*ctx))),
    {
        let params = match UpdateAccountParams::decode(ctx.instruction.params.as_slice()) {
            Some(p) => p,
            None => {
                let r: Result<Vec<ObjectEffect>, KernelError> = Err(KernelError::InvalidData);
                return r;
            },
        };
        proof {
            lemma_account_at(*ctx, params.account_id);
        }
        let account = match ctx.objects.get(&params.account_id) {
            Some(o) => o,
            None => {
                let r: Result<Vec<ObjectEffect>, KernelError> = Err(KernelError::ObjectNotFound);
                return r;
            },
        };
        if account.controller_id != ctx.instruction.controller_id {
            let r: Result<Vec<ObjectEffect>, KernelError> = Err(KernelError::Unauthorized);
            return r;
        }
        let operation_params = match signed_update_data(&params) {
            Some(d) => d,
            None => {
                let r: Result<Vec<ObjectEffect>, KernelError> = Err(KernelError::InvalidData);
                return r;
            },
        };
        let sig = verify_account_signature(
            &ctx.instruction.controller_id,
            "update_account",
            &params.account_id,
            ctx.timestamp,
            operation_params.as_slice(),
            &params.signature,
        );
        match sig {
            Ok(()) => {},
            Err(e) => {
                let r: Result<Vec<ObjectEffect>, KernelError> = Err(e);
                return r;
            },
        }
        let mut account_data = match AccountData::decode(account.data.as_slice()) {
            Some(d) => d,
            None => {
                let r: Result<Vec<ObjectEffect>, KernelError> = Err(KernelError::InvalidData);
                return r;
            },
        };
        if !account_data.is_active {
            let r: Result<Vec<ObjectEffect>, KernelError> = Err(KernelError::InvalidParams);
            return r;
        }
        match params.username {
            Some(u) => {
                if !validate_username(u.as_str()) {
                    let r: Result<Vec<ObjectEffect>, KernelError> = Err(KernelError::InvalidParams);
                    return r;
                }
                account_data.username = Some(u);
            },
            None => {},
        }
        match params.display_name {
            Some(d) => {
                account_data.display_name = Some(d);
            },
            None => {},
        }
        match params.metadata {
            Some(m) => {
                account_data.metadata = m;
            },
            None => {},
        }
        account_data.updated_at = ctx.timestamp;
        let r = finish(account, &account_data);
        r
    }

    /// Add a recovery address to an active account the caller controls.
    pub fn handle_add_recovery_address(ctx: &ExecutionContext) -> (r: Result<Vec<ObjectEffect>, KernelError>)
        ensures
            one_change(r, add_recovery_result(*ctx)),
    {
        let params = match AddRecoveryAddressParams::decode(ctx.instruction.params.as_slice()) {
            Some(p) => p,
            None => {
                return Err(KernelError::InvalidData);
            },
        };
        let (account, mut account_data) = match controlled(ctx, &params.account_id) {
            Ok(x) => x,
            Err(e) => {
                return Err(e);
            },
        };
        if !account_data.is_active {
            return Err(KernelError::InvalidParams);
        }
        if contains_id(&account_data.recovery_addresses, &params.recovery_address) {
            return Err(KernelError::InvalidParams);
        }
        let ghost before = account_data.recovery_addresses@;
        account_data.recovery_addresses.push(params.recovery_address);
        account_data.updated_at = ctx.timestamp;
        proof {
            assert(crate::account::ids_view(account_data.recovery_addresses@) =~= crate::account::ids_view(
                before,
            ).push(params.recovery_address.bytes@));
        }
        finish(account, &account_data)
    }
}

impl AccountModule {
    /// Remove a recovery address from an active account the caller controls;
    /// an address that is not there is refused.
    pub fn handle_remove_recovery_address(ctx: &ExecutionContext) -> (r: Result<Vec<ObjectEffect>, KernelError>)
        ensures
            one_change(r, remove_recovery_result(*ctx)),
    {
        let params = match RemoveRecoveryAddressParams::decode(ctx.instruction.params.as_slice()) {
            Some(p) => p,
            None => {
                return Err(KernelError::InvalidData);
            },
        };
        let (account, mut account_data) = match controlled(ctx, &params.account_id) {
            Ok(x) => x,
            Err(e) => {
                return Err(e);
            },
        };
        if !account_data.is_active {
            return Err(KernelError::InvalidParams);
        }
        let initial_len = account_data.recovery_addresses.len();
        let kept = remove_id(&account_data.recovery_addresses, &params.recovery_address);
        proof {
            assert(crate::account::ids_view(account_data.recovery_addresses@).len() == initial_len);
        }
        if kept.len() == initial_len {
            return Err(KernelError::InvalidParams);
        }
        account_data.recovery_addresses = kept;
        account_data.updated_at = ctx.timestamp;
        finish(account, &account_data)
    }

    /// Deactivate an active account the caller controls.
    pub fn handle_deactivate_account(ctx: &ExecutionContext) -> (r: Result<Vec<ObjectEffect>, KernelError>)
        ensures
            one_change(r, deactivate_result(*ctx)),
    {
        let params = match DeactivateAccountParams::decode(ctx.instruction.params.as_slice()) {
            Some(p) => p,
            None => {
                return Err(KernelError::InvalidData);
            },
        };
        let (account, mut account_data) = match controlled(ctx, &params.account_id) {
            Ok(x) => x,
            Err(e) => {
                return Err(e);
            },
        };
        if !account_data.is_active {
            return Err(KernelError::InvalidParams);
        }
        account_data.is_active = false;
        account_data.updated_at = ctx.timestamp;
        finish(account, &account_data)
    }

    /// Reactivate an inactive account: its controller or one of its recovery
    /// addresses may.
    pub fn handle_reactivate_account(ctx: &ExecutionContext) -> (r: Result<Vec<ObjectEffect>, KernelError>)
        ensures
            one_change(r, reactivate_result(*ctx)),
    {
        let params = match ReactivateAccountParams::decode(ctx.instruction.params.as_slice()) {
            Some(p) => p,
            None => {
                return Err(KernelError::InvalidData);
            },
        };
        proof {
            lemma_account_at(*ctx, params.account_id);
        }
        let account = match ctx.objects.get(&params.account_id) {
            Some(o) => o,
            None => {
                return Err(KernelError::ObjectNotFound);
            },
        };
        let mut account_data = match AccountData::decode(account.data.as_slice()) {
            Some(d) => d,
            None => {
                return Err(KernelError::InvalidData);
            },
        };
        let is_controller = account.controller_id == ctx.instruction.controller_id;
        let is_recovery = contains_id(&account_data.recovery_addresses, &ctx.instruction.controller_id);
        if !is_controller && !is_recovery {
            return Err(KernelError::Unauthorized);
        }
        if account_data.is_active {
            return Err(KernelError::InvalidParams);
        }
        account_data.is_active = true;
        account_data.updated_at = ctx.timestamp;
        finish(account, &account_data)
    }

    /// Read an account: no effects, when it exists.
    pub fn handle_get_account(ctx: &ExecutionContext) -> (r: Result<Vec<ObjectEffect>, KernelError>)
        ensures
            match get_result(*ctx) {
                Err(e) => r == Err::<Vec<ObjectEffect>, KernelError>(e),
                Ok(_) => r matches Ok(v) && v@.len() == 0,
            },
    {
        let params = match GetAccountParams::decode(ctx.instruction.params.as_slice()) {
            Some(p) => p,
            None => {
                return Err(KernelError::InvalidData);
            },
        };
        proof {
            lemma_account_at(*ctx, params.account_id);
        }
        if ctx.objects.contains_key(&params.account_id) {
            Ok(Vec::new())
        } else {
            Err(KernelError::ObjectNotFound)
        }
    }

    /// Run the function named by the instruction; an unknown name is refused.
    pub fn execute(ctx: &ExecutionContext) -> (r: Result<Vec<ObjectEffect>, KernelError>)
        ensures
            ctx.instruction.target_function@ == "create_account"@ ==> match create_result(*ctx) {
                Err(e) => r == Err::<Vec<ObjectEffect>, KernelError>(e),
                Ok(d) => r matches Ok(v) && v@.len() == 1 && creates(
                    v@[0],
                    ctx.instruction.target_objects@[0],
                    ctx.instruction.controller_id,
                    d,
                ),
            },
            ctx.instruction.target_function@ == "update_account"@ ==> one_change(
                r,
                update_result(*ctx, update_answer(*ctx)),
            ),
            ctx.instruction.target_function@ == "add_recovery_address"@ ==> one_change(
                r,
                add_recovery_result(*ctx),
            ),
            ctx.instruction.target_function@ == "remove_recovery_address"@ ==> one_change(
                r,
                remove_recovery_result(*ctx),
            ),
            ctx.instruction.target_function@ == "deactivate_account"@ ==> one_change(
                r,
                deactivate_result(*ctx),
            ),
            ctx.instruction.target_function@ == "reactivate_account"@ ==> one_change(
                r,
                reactivate_result(*ctx),
            ),
            ctx.instruction.target_function@ == "get_account"@ ==> match get_result(*ctx) {
                Err(e) => r == Err::<Vec<ObjectEffect>, KernelError>(e),
                Ok(_) => r matches Ok(v) && v@.len() == 0,
            },
            !crate::account::account_function_name(ctx.instruction.target_function@) ==> r
                == Err::<Vec<ObjectEffect>, KernelError>(KernelError::InvalidFunction),
    {
        let f = &ctx.instruction.target_function;
        proof {
            reveal_strlit("create_account");
            reveal_strlit("update_account");
            reveal_strlit("add_recovery_address");
            reveal_strlit("remove_recovery_address");
            reveal_strlit("deactivate_account");
            reveal_strlit("reactivate_account");
            reveal_strlit("get_account");
            assert("create_account"@[0] == 'c' && "update_account"@[0] == 'u'
                && "add_recovery_address"@[0] == 'a' && "remove_recovery_address"@[0] == 'r'
                && "remove_recovery_address"@[2] == 'm' && "deactivate_account"@[0] == 'd'
                && "reactivate_account"@[0] == 'r' && "reactivate_account"@[2] == 'a'
                && "get_account"@[0] == 'g');
        }
        if names(f, "create_account") {
            Self::handle_create_account(ctx)
        } else if names(f, "update_account") {
            Self::handle_update_account(ctx)
        } else if names(f, "add_recovery_address") {
            Self::handle_add_recovery_address(ctx)
        } else if names(f, "remove_recovery_address") {
            Self::handle_remove_recovery_address(ctx)
        } else if names(f, "deactivate_account") {
            Self::handle_deactivate_account(ctx)
        } else if names(f, "reactivate_account") {
            Self::handle_reactivate_account(ctx)
        } else if names(f, "get_account") {
            Self::handle_get_account(ctx)
        } else {
            Err(KernelError::InvalidFunction)
        }
    }
}

/// Only the controller of an account changes it, except that a recovery
/// address may reactivate it.
pub proof fn lemma_only_controller_modifies(ctx: ExecutionContext, o: Result<(), KernelError>)
    ensures
        update_result(ctx, o) matches Ok((acc, _)) ==> acc.controller_id == ctx.instruction.controller_id,
        add_recovery_result(ctx) matches Ok((acc, _)) ==> acc.controller_id == ctx.instruction.controller_id,
        remove_recovery_result(ctx) matches Ok((acc, _)) ==> acc.controller_id
            == ctx.instruction.controller_id,
        deactivate_result(ctx) matches Ok((acc, _)) ==> acc.controller_id == ctx.instruction.controller_id,
        reactivate_result(ctx) matches Ok((acc, _)) ==> acc.controller_id == ctx.instruction.controller_id
            || parse_account(acc.data@)->Some_0.recovery.contains(ctx.instruction.controller_id.bytes@),
{
}

/// An update whose signature does not check changes nothing.
pub proof fn lemma_unsigned_update_fails(ctx: ExecutionContext, e: KernelError)
    ensures
        update_result(ctx, Err(e)) is Err,
{
}

/// A successful deactivation writes the account back inactive and updated at
/// the timestamp, all else kept: the after-image decodes to exactly that, its
/// metadata in the decoder's order.
pub proof fn lemma_deactivate_clears_active(ctx: ExecutionContext)
    ensures
        deactivate_result(ctx) matches Ok((acc, d)) ==> {
            &&& parse_account(acc.data@) matches Some(v)
            &&& v.is_active
            &&& parse_account(d) == Some(
                AccountView {
                    is_active: false,
                    updated_at: ctx.timestamp,
                    metadata: meta_from_entries(v.metadata),
                    ..v
                },
            )
        },
{
    if let Ok((acc, d)) = deactivate_result(ctx) {
        let v = parse_account(acc.data@)->Some_0;
        lemma_parsed_account_view_ids(acc.data@);
        lemma_account_view_round_trip(AccountView { is_active: false, updated_at: ctx.timestamp, ..v });
    }
}

/// A successful reactivation writes the account back active and updated at the
/// timestamp, all else kept: the after-image decodes to exactly that, its
/// metadata in the decoder's order.
pub proof fn lemma_reactivate_sets_active(ctx: ExecutionContext)
    ensures
        reactivate_result(ctx) matches Ok((acc, d)) ==> {
            &&& parse_account(acc.data@) matches Some(v)
            &&& !v.is_active
            &&& parse_account(d) == Some(
                AccountView {
                    is_active: true,
                    updated_at: ctx.timestamp,
                    metadata: meta_from_entries(v.metadata),
                    ..v
                },
            )
        },
{
    if let Ok((acc, d)) = reactivate_result(ctx) {
        let v = parse_account(acc.data@)->Some_0;
        lemma_parsed_account_view_ids(acc.data@);
        lemma_account_view_round_trip(AccountView { is_active: true, updated_at: ctx.timestamp, ..v });
    }
}

} // verus!
