//! The token kernel module: fungible tokens with a total supply, and balances
//! that hold amounts of a token for an owner.
use vstd::prelude::*;
use crate::codec::{
    bool_bytes, lemma_string_round_trip, lemma_u64_round_trip, read_bool, read_id, read_string,
    read_u64, read_u8, string_bytes, string_fits, take_bool, take_id, take_string, take_u64,
    take_u8, write_bool, write_id, write_string,
};
use crate::hashing::{append_le64, le64};
use crate::id::UnitsObjectId;
use crate::objects::UnitsObject;
use crate::kernel::{
    creates, creation_with, get_target, modification_with, names, one_change, target_object,
    two_changes, KernelError,
};
use crate::vm_executor::{ExecutionContext, ObjectEffect};

verus! {

/// Name of the token module.
pub const TOKEN_MODULE_NAME: &'static str = "token";

/// A token: its supply, decimals, name, symbol, and whether it is frozen.
#[derive(Debug, Clone)]
pub struct TokenData {
    pub total_supply: u64,
    pub decimals: u8,
    pub name: String,
    pub symbol: String,
    pub is_frozen: bool,
}

/// An amount of a token held by an owner.
#[derive(Debug, Clone, Copy)]
pub struct BalanceData {
    pub token_id: UnitsObjectId,
    pub owner_id: UnitsObjectId,
    pub amount: u64,
}

/// Parameters of a transfer.
#[derive(Debug, Clone, Copy)]
pub struct TransferParams {
    pub amount: u64,
}

/// Parameters of token creation.
#[derive(Debug, Clone)]
pub struct TokenizeParams {
    pub initial_supply: u64,
    pub decimals: u8,
    pub name: String,
    pub symbol: String,
}

/// Parameters of minting.
#[derive(Debug, Clone, Copy)]
pub struct MintParams {
    pub amount: u64,
}

/// Parameters of burning.
#[derive(Debug, Clone, Copy)]
pub struct BurnParams {
    pub amount: u64,
}

/// The functions of the token module.
pub enum TokenFunction {
    Tokenize,
    Transfer,
    Mint,
    Burn,
    Freeze,
    Unfreeze,
}

impl TokenFunction {
    /// The function's name.
    pub fn as_str(&self) -> (s: &'static str)
        ensures
            s@ == match self {
                TokenFunction::Tokenize => "tokenize"@,
                TokenFunction::Transfer => "transfer"@,
                TokenFunction::Mint => "mint"@,
                TokenFunction::Burn => "burn"@,
                TokenFunction::Freeze => "freeze"@,
                TokenFunction::Unfreeze => "unfreeze"@,
            },
    {
        match self {
            TokenFunction::Tokenize => "tokenize",
            TokenFunction::Transfer => "transfer",
            TokenFunction::Mint => "mint",
            TokenFunction::Burn => "burn",
            TokenFunction::Freeze => "freeze",
            TokenFunction::Unfreeze => "unfreeze",
        }
    }
}

/// A token module error: a code and its message.
#[derive(Debug, Clone)]
pub struct TokenError {
    pub code: i32,
    pub message: String,
}

/// The message of a token error code.
pub open spec fn token_error_message(code: i32) -> Seq<char> {
    if code == -1 {
        "Invalid function"@
    } else if code == -2 {
        "Invalid parameters"@
    } else if code == -3 {
        "Insufficient balance"@
    } else if code == -4 {
        "Unauthorized"@
    } else if code == -5 {
        "Token is frozen"@
    } else if code == -6 {
        "Numeric overflow"@
    } else {
        "Unknown error"@
    }
}

impl TokenError {
    pub const INVALID_FUNCTION: i32 = -1;
    pub const INVALID_PARAMS: i32 = -2;
    pub const INSUFFICIENT_BALANCE: i32 = -3;
    pub const UNAUTHORIZED: i32 = -4;
    pub const TOKEN_FROZEN: i32 = -5;
    pub const OVERFLOW: i32 = -6;

    /// The error of a code, with its message.
    pub fn from_code(code: i32) -> (e: Self)
        ensures
            e.code == code,
            e.message@ == token_error_message(code),
    {
        let message = if code == -1 {
            "Invalid function"
        } else if code == -2 {
            "Invalid parameters"
        } else if code == -3 {
            "Insufficient balance"
        } else if code == -4 {
            "Unauthorized"
        } else if code == -5 {
            "Token is frozen"
        } else if code == -6 {
            "Numeric overflow"
        } else {
            "Unknown error"
        };
        TokenError { code, message: message.to_owned() }
    }
}

/// The fields of a token: supply, decimals, name, symbol, frozen.
pub type TokenView = (u64, u8, Seq<char>, Seq<char>, bool);

/// The fields of a balance: token identifier bytes, owner identifier bytes, amount.
pub type BalanceView = (Seq<u8>, Seq<u8>, u64);

/// The fields of a token.
pub open spec fn token_view(t: TokenData) -> TokenView {
    (t.total_supply, t.decimals, t.name@, t.symbol@, t.is_frozen)
}

/// The fields of a balance.
pub open spec fn balance_view(b: BalanceData) -> BalanceView {
    (b.token_id.bytes@, b.owner_id.bytes@, b.amount)
}

/// The encoding of a token.
pub open spec fn token_bytes(t: TokenView) -> Seq<u8> {
    le64(t.0) + seq![t.1] + string_bytes(t.2) + string_bytes(t.3) + bool_bytes(t.4)
}

/// A token can be encoded: its strings' lengths fit in 32 bits.
pub open spec fn token_fits(t: TokenView) -> bool {
    string_fits(t.2) && string_fits(t.3)
}

/// The encoding of a balance.
pub open spec fn balance_bytes(b: BalanceView) -> Seq<u8> {
    b.0 + b.1 + le64(b.2)
}

/// The token that `b` encodes, if it encodes exactly one.
pub open spec fn parse_token(b: Seq<u8>) -> Option<TokenView> {
    match take_u64(b, 0) {
        None => None,
        Some((supply, p1)) => match take_u8(b, p1) {
            None => None,
            Some((decimals, p2)) => match take_string(b, p2) {
                None => None,
                Some((name, p3)) => match take_string(b, p3) {
                    None => None,
                    Some((symbol, p4)) => match take_bool(b, p4) {
                        None => None,
                        Some((frozen, p5)) => if p5 == b.len() {
                            Some((supply, decimals, name, symbol, frozen))
                        } else {
                            None
                        },
                    },
                },
            },
        },
    }
}

/// The balance that `b` encodes, if it encodes exactly one.
pub open spec fn parse_balance(b: Seq<u8>) -> Option<BalanceView> {
    match take_id(b, 0) {
        None => None,
        Some((token, p1)) => match take_id(b, p1) {
            None => None,
            Some((owner, p2)) => match take_u64(b, p2) {
                None => None,
                Some((amount, p3)) => if p3 == b.len() {
                    Some((token, owner, amount))
                } else {
                    None
                },
            },
        },
    }
}

/// The amount that `b` encodes (the parameters of transfer, mint and burn).
pub open spec fn parse_amount(b: Seq<u8>) -> Option<u64> {
    match take_u64(b, 0) {
        Some((a, p)) => if p == b.len() {
            Some(a)
        } else {
            None
        },
        None => None,
    }
}

/// The creation parameters that `b` encodes: supply, decimals, name, symbol.
pub open spec fn parse_tokenize(b: Seq<u8>) -> Option<(u64, u8, Seq<char>, Seq<char>)> {
    match take_u64(b, 0) {
        None => None,
        Some((supply, p1)) => match take_u8(b, p1) {
            None => None,
            Some((decimals, p2)) => match take_string(b, p2) {
                None => None,
                Some((name, p3)) => match take_string(b, p3) {
                    None => None,
                    Some((symbol, p4)) => if p4 == b.len() {
                        Some((supply, decimals, name, symbol))
                    } else {
                        None
                    },
                },
            },
        },
    }
}

/// The encoding of creation parameters.
pub open spec fn tokenize_bytes(p: (u64, u8, Seq<char>, Seq<char>)) -> Seq<u8> {
    le64(p.0) + seq![p.1] + string_bytes(p.2) + string_bytes(p.3)
}

impl TokenData {
    /// Decode a token from exactly the bytes `b`.
    pub fn decode(b: &[u8]) -> (r: Option<TokenData>)
        ensures
            match parse_token(b@) {
                Some(v) => r matches Some(t) && token_view(t) == v,
                None => r is None,
            },
    {
        let (total_supply, p1) = match read_u64(b, 0) {
            Some(x) => x,
            None => {
                return None;
            },
        };
        let (decimals, p2) = match read_u8(b, p1) {
            Some(x) => x,
            None => {
                return None;
            },
        };
        let (name, p3) = match read_string(b, p2) {
            Some(x) => x,
            None => {
                return None;
            },
        };
        let (symbol, p4) = match read_string(b, p3) {
            Some(x) => x,
            None => {
                return None;
            },
        };
        let (is_frozen, p5) = match read_bool(b, p4) {
            Some(x) => x,
            None => {
                return None;
            },
        };
        if p5 != b.len() {
            return None;
        }
        Some(TokenData { total_supply, decimals, name, symbol, is_frozen })
    }

    /// Encode this token; refused when a string's length does not fit in 32 bits.
    pub fn encode(&self) -> (r: Option<Vec<u8>>)
        ensures
            r is Some <==> token_fits(token_view(*self)),
            r matches Some(v) ==> v@ == token_bytes(token_view(*self)),
    {
        let mut v: Vec<u8> = Vec::new();
        append_le64(&mut v, self.total_supply);
        v.push(self.decimals);
        if !write_string(&mut v, self.name.as_str()) {
            return None;
        }
        if !write_string(&mut v, self.symbol.as_str()) {
            return None;
        }
        write_bool(&mut v, self.is_frozen);
        proof {
            assert(v@ =~= token_bytes(token_view(*self)));
        }
        Some(v)
    }
}

impl BalanceData {
    /// Decode a balance from exactly the bytes `b`.
    pub fn decode(b: &[u8]) -> (r: Option<BalanceData>)
        ensures
            match parse_balance(b@) {
                Some(v) => r matches Some(x) && balance_view(x) == v,
                None => r is None,
            },
    {
        let (token_id, p1) = match read_id(b, 0) {
            Some(x) => x,
            None => {
                return None;
            },
        };
        let (owner_id, p2) = match read_id(b, p1) {
            Some(x) => x,
            None => {
                return None;
            },
        };
        let (amount, p3) = match read_u64(b, p2) {
            Some(x) => x,
            None => {
                return None;
            },
        };
        if p3 != b.len() {
            return None;
        }
        Some(BalanceData { token_id, owner_id, amount })
    }

    /// Encode this balance.
    pub fn encode(&self) -> (v: Vec<u8>)
        ensures
            v@ == balance_bytes(balance_view(*self)),
    {
        let mut v: Vec<u8> = Vec::new();
        write_id(&mut v, &self.token_id);
        write_id(&mut v, &self.owner_id);
        append_le64(&mut v, self.amount);
        v
    }
}

/// Decode an amount from exactly the bytes `b`.
fn decode_amount(b: &[u8]) -> (r: Option<u64>)
    ensures
        r == parse_amount(b@),
{
    match read_u64(b, 0) {
        Some((a, p)) => if p == b.len() {
            Some(a)
        } else {
            None
        },
        None => None,
    }
}

impl TransferParams {
    /// Decode transfer parameters from exactly the bytes `b`.
    pub fn decode(b: &[u8]) -> (r: Option<TransferParams>)
        ensures
            match parse_amount(b@) {
                Some(a) => r == Some(TransferParams { amount: a }),
                None => r is None,
            },
    {
        match decode_amount(b) {
            Some(amount) => Some(TransferParams { amount }),
            None => None,
        }
    }

    /// Encode transfer parameters.
    pub fn encode(&self) -> (v: Vec<u8>)
        ensures
            v@ == le64(self.amount),
    {
        let mut v: Vec<u8> = Vec::new();
        append_le64(&mut v, self.amount);
        assert(v@ =~= le64(self.amount));
        v
    }
}

impl MintParams {
    /// Decode mint parameters from exactly the bytes `b`.
    pub fn decode(b: &[u8]) -> (r: Option<MintParams>)
        ensures
            match parse_amount(b@) {
                Some(a) => r == Some(MintParams { amount: a }),
                None => r is None,
            },
    {
        match decode_amount(b) {
            Some(amount) => Some(MintParams { amount }),
            None => None,
        }
    }

    /// Encode mint parameters.
    pub fn encode(&self) -> (v: Vec<u8>)
        ensures
            v@ == le64(self.amount),
    {
        let mut v: Vec<u8> = Vec::new();
        append_le64(&mut v, self.amount);
        assert(v@ =~= le64(self.amount));
        v
    }
}

impl BurnParams {
    /// Decode burn parameters from exactly the bytes `b`.
    pub fn decode(b: &[u8]) -> (r: Option<BurnParams>)
        ensures
            match parse_amount(b@) {
                Some(a) => r == Some(BurnParams { amount: a }),
                None => r is None,
            },
    {
        match decode_amount(b) {
            Some(amount) => Some(BurnParams { amount }),
            None => None,
        }
    }

    /// Encode burn parameters.
    pub fn encode(&self) -> (v: Vec<u8>)
        ensures
            v@ == le64(self.amount),
    {
        let mut v: Vec<u8> = Vec::new();
        append_le64(&mut v, self.amount);
        assert(v@ =~= le64(self.amount));
        v
    }
}

impl TokenizeParams {
    /// Decode creation parameters from exactly the bytes `b`.
    pub fn decode(b: &[u8]) -> (r: Option<TokenizeParams>)
        ensures
            match parse_tokenize(b@) {
                Some(v) => r matches Some(p) && (p.initial_supply, p.decimals, p.name@, p.symbol@) == v,
                None => r is None,
            },
    {
        let (initial_supply, p1) = match read_u64(b, 0) {
            Some(x) => x,
            None => {
                return None;
            },
        };
        let (decimals, p2) = match read_u8(b, p1) {
            Some(x) => x,
            None => {
                return None;
            },
        };
        let (name, p3) = match read_string(b, p2) {
            Some(x) => x,
            None => {
                return None;
            },
        };
        let (symbol, p4) = match read_string(b, p3) {
            Some(x) => x,
            None => {
                return None;
            },
        };
        if p4 != b.len() {
            return None;
        }
        Some(TokenizeParams { initial_supply, decimals, name, symbol })
    }

    /// Encode creation parameters; refused when a string's length does not fit
    /// in 32 bits.
    pub fn encode(&self) -> (r: Option<Vec<u8>>)
        ensures
            r is Some <==> string_fits(self.name@) && string_fits(self.symbol@),
            r matches Some(v) ==> v@ == tokenize_bytes(
                (self.initial_supply, self.decimals, self.name@, self.symbol@),
            ),
    {
        let mut v: Vec<u8> = Vec::new();
        append_le64(&mut v, self.initial_supply);
        v.push(self.decimals);
        if !write_string(&mut v, self.name.as_str()) {
            return None;
        }
        if !write_string(&mut v, self.symbol.as_str()) {
            return None;
        }
        proof {
            assert(v@ =~= tokenize_bytes(
                (self.initial_supply, self.decimals, self.name@, self.symbol@),
            ));
        }
        Some(v)
    }
}

/// What creating a token yields: the encodings of the token and of its creator's
/// balance, or the error.
pub open spec fn create_token_result(ctx: ExecutionContext) -> Result<(Seq<u8>, Seq<u8>), KernelError> {
    let targets = ctx.instruction.target_objects@;
    match parse_tokenize(ctx.instruction.params@) {
        None => Err(KernelError::InvalidParams),
        Some(p) => if targets.len() < 2 {
            Err(KernelError::InvalidParams)
        } else if !token_fits((p.0, p.1, p.2, p.3, false)) {
            Err(KernelError::InvalidData)
        } else {
            Ok(
                (
                    token_bytes((p.0, p.1, p.2, p.3, false)),
                    balance_bytes((targets[0].bytes@, targets[1].bytes@, p.0)),
                ),
            )
        },
    }
}

/// What a transfer yields: the sender's balance object and its new encoding,
/// the receiver's and its new encoding, or the error.
pub open spec fn transfer_result(ctx: ExecutionContext) -> Result<
    (UnitsObject, Seq<u8>, UnitsObject, Seq<u8>),
    KernelError,
> {
    match parse_amount(ctx.instruction.params@) {
        None => Err(KernelError::InvalidParams),
        Some(amount) => if ctx.instruction.target_objects@.len() < 3 {
            Err(KernelError::InvalidParams)
        } else {
            match (target_object(ctx, 0), target_object(ctx, 1), target_object(ctx, 2)) {
                (Some(token), Some(from), Some(to)) => match (
                    parse_token(token.data@),
                    parse_balance(from.data@),
                    parse_balance(to.data@),
                ) {
                    (Some(t), Some(f), Some(d)) => if t.4 {
                        Err(KernelError::TokenFrozen)
                    } else if f.2 < amount {
                        Err(KernelError::InsufficientBalance)
                    } else if d.2 + amount > u64::MAX {
                        Err(KernelError::Overflow)
                    } else {
                        Ok(
                            (
                                from,
                                balance_bytes((f.0, f.1, (f.2 - amount) as u64)),
                                to,
                                balance_bytes((d.0, d.1, (d.2 + amount) as u64)),
                            ),
                        )
                    },
                    _ => Err(KernelError::InvalidData),
                },
                (None, _, _) => Err(KernelError::ObjectNotFound),
                (_, None, _) => Err(KernelError::ObjectNotFound),
                (_, _, None) => Err(KernelError::ObjectNotFound),
            }
        },
    }
}

/// What minting or burning yields: the token object and its new encoding, the
/// balance object and its new encoding, or the error.
pub open spec fn supply_change_result(ctx: ExecutionContext, mint: bool) -> Result<
    (UnitsObject, Seq<u8>, UnitsObject, Seq<u8>),
    KernelError,
> {
    match parse_amount(ctx.instruction.params@) {
        None => Err(KernelError::InvalidParams),
        Some(amount) => if ctx.instruction.target_objects@.len() < 2 {
            Err(KernelError::InvalidParams)
        } else {
            match (target_object(ctx, 0), target_object(ctx, 1)) {
                (Some(token), Some(balance)) => match (
                    parse_token(token.data@),
                    parse_balance(balance.data@),
                ) {
                    (Some(t), Some(b)) => if mint {
                        if t.0 + amount > u64::MAX || b.2 + amount > u64::MAX {
                            Err(KernelError::Overflow)
                        } else {
                            let t2 = ((t.0 + amount) as u64, t.1, t.2, t.3, t.4);
                            if !token_fits(t2) {
                                Err(KernelError::InvalidData)
                            } else {
                                Ok(
                                    (
                                        token,
                                        token_bytes(t2),
                                        balance,
                                        balance_bytes((b.0, b.1, (b.2 + amount) as u64)),
                                    ),
                                )
                            }
                        }
                    } else {
                        if b.2 < amount {
                            Err(KernelError::InsufficientBalance)
                        } else if t.0 < amount {
                            Err(KernelError::InvalidParams)
                        } else {
                            let t2 = ((t.0 - amount) as u64, t.1, t.2, t.3, t.4);
                            if !token_fits(t2) {
                                Err(KernelError::InvalidData)
                            } else {
                                Ok(
                                    (
                                        token,
                                        token_bytes(t2),
                                        balance,
                                        balance_bytes((b.0, b.1, (b.2 - amount) as u64)),
                                    ),
                                )
                            }
                        }
                    },
                    _ => Err(KernelError::InvalidData),
                },
                (None, _) => Err(KernelError::ObjectNotFound),
                (_, None) => Err(KernelError::ObjectNotFound),
            }
        },
    }
}

/// What freezing (or unfreezing) yields: the token object and its new
/// encoding, or the error.
pub open spec fn freeze_result(ctx: ExecutionContext, frozen: bool) -> Result<
    (UnitsObject, Seq<u8>),
    KernelError,
> {
    if ctx.instruction.target_objects@.len() == 0 {
        Err(KernelError::InvalidParams)
    } else {
        match target_object(ctx, 0) {
            None => Err(KernelError::ObjectNotFound),
            Some(token) => match parse_token(token.data@) {
                None => Err(KernelError::InvalidData),
                Some(t) => {
                    let t2 = (t.0, t.1, t.2, t.3, frozen);
                    if !token_fits(t2) {
                        Err(KernelError::InvalidData)
                    } else {
                        Ok((token, token_bytes(t2)))
                    }
                },
            },
        }
    }
}

/// Create a token and its creator's balance holding the whole supply.
pub fn handle_create_token(ctx: &ExecutionContext) -> (r: Result<Vec<ObjectEffect>, KernelError>)
    ensures
        match create_token_result(*ctx) {
            Err(e) => r == Err::<Vec<ObjectEffect>, KernelError>(e),
            Ok((td, bd)) => r matches Ok(v) && v@.len() == 2 && creates(
                v@[0],
                ctx.instruction.target_objects@[0],
                ctx.instruction.controller_id,
                td,
            ) && creates(
                v@[1],
                ctx.instruction.target_objects@[1],
                ctx.instruction.controller_id,
                bd,
            ),
        },
{
    let params = match TokenizeParams::decode(ctx.instruction.params.as_slice()) {
        Some(p) => p,
        None => {
            return Err(KernelError::InvalidParams);
        },
    };
    if ctx.instruction.target_objects.len() < 2 {
        return Err(KernelError::InvalidParams);
    }
    let token_data = TokenData {
        total_supply: params.initial_supply,
        decimals: params.decimals,
        name: params.name,
        symbol: params.symbol,
        is_frozen: false,
    };
    let balance_data = BalanceData {
        token_id: ctx.instruction.target_objects[0],
        owner_id: ctx.instruction.target_objects[1],
        amount: params.initial_supply,
    };
    let token_bytes = match token_data.encode() {
        Some(v) => v,
        None => {
            return Err(KernelError::InvalidData);
        },
    };
    let balance_bytes = balance_data.encode();
    let mut effects: Vec<ObjectEffect> = Vec::new();
    effects.push(
        creation_with(
            ctx.instruction.target_objects[0],
            ctx.instruction.controller_id,
            token_bytes,
        ),
    );
    effects.push(
        creation_with(
            ctx.instruction.target_objects[1],
            ctx.instruction.controller_id,
            balance_bytes,
        ),
    );
    Ok(effects)
}

/// Move an amount from one balance to another of an unfrozen token.
pub fn handle_transfer_token(ctx: &ExecutionContext) -> (r: Result<Vec<ObjectEffect>, KernelError>)
    ensures
        two_changes(r, transfer_result(*ctx)),
{
    let params = match TransferParams::decode(ctx.instruction.params.as_slice()) {
        Some(p) => p,
        None => {
            return Err(KernelError::InvalidParams);
        },
    };
    if ctx.instruction.target_objects.len() < 3 {
        return Err(KernelError::InvalidParams);
    }
    let token = match get_target(ctx, 0) {
        Some(o) => o,
        None => {
            return Err(KernelError::ObjectNotFound);
        },
    };
    let from_balance = match get_target(ctx, 1) {
        Some(o) => o,
        None => {
            return Err(KernelError::ObjectNotFound);
        },
    };
    let to_balance = match get_target(ctx, 2) {
        Some(o) => o,
        None => {
            return Err(KernelError::ObjectNotFound);
        },
    };
    let token_data = match TokenData::decode(token.data.as_slice()) {
        Some(t) => t,
        None => {
            return Err(KernelError::InvalidData);
        },
    };
    let mut from_data = match BalanceData::decode(from_balance.data.as_slice()) {
        Some(b) => b,
        None => {
            return Err(KernelError::InvalidData);
        },
    };
    let mut to_data = match BalanceData::decode(to_balance.data.as_slice()) {
        Some(b) => b,
        None => {
            return Err(KernelError::InvalidData);
        },
    };
    if token_data.is_frozen {
        return Err(KernelError::TokenFrozen);
    }
    if from_data.amount < params.amount {
        return Err(KernelError::InsufficientBalance);
    }
    to_data.amount = match to_data.amount.checked_add(params.amount) {
        Some(a) => a,
        None => {
            return Err(KernelError::Overflow);
        },
    };
    from_data.amount = from_data.amount - params.amount;
    let mut effects: Vec<ObjectEffect> = Vec::new();
    effects.push(modification_with(from_balance, from_data.encode()));
    effects.push(modification_with(to_balance, to_data.encode()));
    Ok(effects)
}

/// Raise a token's supply and a balance by an amount.
pub fn handle_mint_token(ctx: &ExecutionContext) -> (r: Result<Vec<ObjectEffect>, KernelError>)
    ensures
        two_changes(r, supply_change_result(*ctx, true)),
{
    let params = match MintParams::decode(ctx.instruction.params.as_slice()) {
        Some(p) => p,
        None => {
            return Err(KernelError::InvalidParams);
        },
    };
    change_supply(ctx, params.amount, true)
}

/// Lower a token's supply and a balance by an amount.
pub fn handle_burn_token(ctx: &ExecutionContext) -> (r: Result<Vec<ObjectEffect>, KernelError>)
    ensures
        two_changes(r, supply_change_result(*ctx, false)),
{
    let params = match BurnParams::decode(ctx.instruction.params.as_slice()) {
        Some(p) => p,
        None => {
            return Err(KernelError::InvalidParams);
        },
    };
    change_supply(ctx, params.amount, false)
}

fn change_supply(ctx: &ExecutionContext, amount: u64, mint: bool) -> (r: Result<
    Vec<ObjectEffect>,
    KernelError,
>)
    requires
        parse_amount(ctx.instruction.params@) == Some(amount),
    ensures
        two_changes(r, supply_change_result(*ctx, mint)),
{
    if ctx.instruction.target_objects.len() < 2 {
        return Err(KernelError::InvalidParams);
    }
    let token = match get_target(ctx, 0) {
        Some(o) => o,
        None => {
            return Err(KernelError::ObjectNotFound);
        },
    };
    let balance = match get_target(ctx, 1) {
        Some(o) => o,
        None => {
            return Err(KernelError::ObjectNotFound);
        },
    };
    let mut token_data = match TokenData::decode(token.data.as_slice()) {
        Some(t) => t,
        None => {
            return Err(KernelError::InvalidData);
        },
    };
    let mut balance_data = match BalanceData::decode(balance.data.as_slice()) {
        Some(b) => b,
        None => {
            return Err(KernelError::InvalidData);
        },
    };
    if mint {
        token_data.total_supply = match token_data.total_supply.checked_add(amount) {
            Some(a) => a,
            None => {
                return Err(KernelError::Overflow);
            },
        };
        balance_data.amount = match balance_data.amount.checked_add(amount) {
            Some(a) => a,
            None => {
                return Err(KernelError::Overflow);
            },
        };
    } else {
        if balance_data.amount < amount {
            return Err(KernelError::InsufficientBalance);
        }
        if token_data.total_supply < amount {
            return Err(KernelError::InvalidParams);
        }
        token_data.total_supply = token_data.total_supply - amount;
        balance_data.amount = balance_data.amount - amount;
    }
    let token_bytes = match token_data.encode() {
        Some(v) => v,
        None => {
            return Err(KernelError::InvalidData);
        },
    };
    let mut effects: Vec<ObjectEffect> = Vec::new();
    effects.push(modification_with(token, token_bytes));
    effects.push(modification_with(balance, balance_data.encode()));
    Ok(effects)
}

/// Freeze a token: no transfer of it succeeds until it is unfrozen.
pub fn handle_freeze_token(ctx: &ExecutionContext) -> (r: Result<Vec<ObjectEffect>, KernelError>)
    ensures
        one_change(r, freeze_result(*ctx, true)),
{
    set_frozen(ctx, true)
}

/// Unfreeze a token.
pub fn handle_unfreeze_token(ctx: &ExecutionContext) -> (r: Result<Vec<ObjectEffect>, KernelError>)
    ensures
        one_change(r, freeze_result(*ctx, false)),
{
    set_frozen(ctx, false)
}

fn set_frozen(ctx: &ExecutionContext, frozen: bool) -> (r: Result<Vec<ObjectEffect>, KernelError>)
    ensures
        one_change(r, freeze_result(*ctx, frozen)),
{
    if ctx.instruction.target_objects.len() == 0 {
        return Err(KernelError::InvalidParams);
    }
    let token = match get_target(ctx, 0) {
        Some(o) => o,
        None => {
            return Err(KernelError::ObjectNotFound);
        },
    };
    let mut token_data = match TokenData::decode(token.data.as_slice()) {
        Some(t) => t,
        None => {
            return Err(KernelError::InvalidData);
        },
    };
    token_data.is_frozen = frozen;
    let token_bytes = match token_data.encode() {
        Some(v) => v,
        None => {
            return Err(KernelError::InvalidData);
        },
    };
    let mut effects: Vec<ObjectEffect> = Vec::new();
    effects.push(modification_with(token, token_bytes));
    Ok(effects)
}

/// The token module: runs the function an instruction names.
pub struct TokenModule;

impl TokenModule {
    /// Run the function named by the instruction; an unknown name is refused.
    pub fn execute(ctx: &ExecutionContext) -> (r: Result<Vec<ObjectEffect>, KernelError>)
        ensures
            ctx.instruction.target_function@ == "create_token"@ ==> match create_token_result(*ctx) {
                Err(e) => r == Err::<Vec<ObjectEffect>, KernelError>(e),
                Ok((td, bd)) => r matches Ok(v) && v@.len() == 2 && creates(
                    v@[0],
                    ctx.instruction.target_objects@[0],
                    ctx.instruction.controller_id,
                    td,
                ) && creates(
                    v@[1],
                    ctx.instruction.target_objects@[1],
                    ctx.instruction.controller_id,
                    bd,
                ),
            },
            ctx.instruction.target_function@ == "transfer_token"@ ==> two_changes(
                r,
                transfer_result(*ctx),
            ),
            ctx.instruction.target_function@ == "mint_token"@ ==> two_changes(
                r,
                supply_change_result(*ctx, true),
            ),
            ctx.instruction.target_function@ == "burn_token"@ ==> two_changes(
                r,
                supply_change_result(*ctx, false),
            ),
            ctx.instruction.target_function@ == "freeze_token"@ ==> one_change(
                r,
                freeze_result(*ctx, true),
            ),
            ctx.instruction.target_function@ == "unfreeze_token"@ ==> one_change(
                r,
                freeze_result(*ctx, false),
            ),
            !token_function_name(ctx.instruction.target_function@) ==> r
                == Err::<Vec<ObjectEffect>, KernelError>(KernelError::InvalidFunction),
    {
        let f = &ctx.instruction.target_function;
        proof {
            reveal_strlit("create_token");
            reveal_strlit("transfer_token");
            reveal_strlit("mint_token");
            reveal_strlit("burn_token");
            reveal_strlit("freeze_token");
            reveal_strlit("unfreeze_token");
            assert("create_token"@[0] == 'c' && "transfer_token"@[0] == 't' && "mint_token"@[0] == 'm'
                && "burn_token"@[0] == 'b' && "freeze_token"@[0] == 'f' && "unfreeze_token"@[0]
                == 'u');
        }
        if names(f, "create_token") {
            handle_create_token(ctx)
        } else if names(f, "transfer_token") {
            handle_transfer_token(ctx)
        } else if names(f, "mint_token") {
            handle_mint_token(ctx)
        } else if names(f, "burn_token") {
            handle_burn_token(ctx)
        } else if names(f, "freeze_token") {
            handle_freeze_token(ctx)
        } else if names(f, "unfreeze_token") {
            handle_unfreeze_token(ctx)
        } else {
            Err(KernelError::InvalidFunction)
        }
    }
}

/// `name` is one of the token module's function names.
pub open spec fn token_function_name(name: Seq<char>) -> bool {
    name == "create_token"@ || name == "transfer_token"@ || name == "mint_token"@ || name
        == "burn_token"@ || name == "freeze_token"@ || name == "unfreeze_token"@
}

/// Decoding a token's encoding gives it back.
pub proof fn lemma_token_round_trip(t: TokenView)
    requires
        token_fits(t),
    ensures
        parse_token(token_bytes(t)) == Some(t),
{
    let b = token_bytes(t);
    let a0 = le64(t.0);
    let a1 = a0 + seq![t.1];
    let a2 = a1 + string_bytes(t.2);
    let a3 = a2 + string_bytes(t.3);
    lemma_u64_round_trip(t.0, Seq::empty(), seq![t.1] + string_bytes(t.2) + string_bytes(t.3) + bool_bytes(t.4));
    assert(Seq::<u8>::empty() + a0 + (seq![t.1] + string_bytes(t.2) + string_bytes(t.3) + bool_bytes(t.4)) =~= b);
    assert(b[8] == t.1);
    lemma_string_round_trip(t.2, a1, string_bytes(t.3) + bool_bytes(t.4));
    assert(a1 + string_bytes(t.2) + (string_bytes(t.3) + bool_bytes(t.4)) =~= b);
    lemma_string_round_trip(t.3, a2, bool_bytes(t.4));
    assert(a2 + string_bytes(t.3) + bool_bytes(t.4) =~= b);
    assert(b[a3.len() as int] == bool_bytes(t.4)[0]);
}

/// Decoding a balance's encoding gives it back.
pub proof fn lemma_balance_round_trip(v: BalanceView)
    requires
        v.0.len() == 32,
        v.1.len() == 32,
    ensures
        parse_balance(balance_bytes(v)) == Some(v),
{
    let b = balance_bytes(v);
    lemma_u64_round_trip(v.2, v.0 + v.1, Seq::empty());
    assert(v.0 + v.1 + le64(v.2) + Seq::<u8>::empty() =~= b);
    assert(b.subrange(0, 32) =~= v.0);
    assert(b.subrange(32, 64) =~= v.1);
}

/// A transfer moves the amount from the sender's balance to the receiver's:
/// their sum is unchanged, and so are their tokens and owners.
pub proof fn lemma_transfer_conserves(ctx: ExecutionContext)
    requires
        transfer_result(ctx) is Ok,
    ensures
        ({
            let (from, fd, to, td) = transfer_result(ctx)->Ok_0;
            let amount = parse_amount(ctx.instruction.params@)->Some_0;
            let f = parse_balance(from.data@)->Some_0;
            let d = parse_balance(to.data@)->Some_0;
            &&& parse_balance(fd) == Some((f.0, f.1, (f.2 - amount) as u64))
            &&& parse_balance(td) == Some((d.0, d.1, (d.2 + amount) as u64))
            &&& (f.2 - amount) + (d.2 + amount) == f.2 + d.2
        }),
{
    let (from, fd, to, td) = transfer_result(ctx)->Ok_0;
    let amount = parse_amount(ctx.instruction.params@)->Some_0;
    let f = parse_balance(from.data@)->Some_0;
    let d = parse_balance(to.data@)->Some_0;
    lemma_parsed_balance_ids(from.data@);
    lemma_parsed_balance_ids(to.data@);
    lemma_balance_round_trip((f.0, f.1, (f.2 - amount) as u64));
    lemma_balance_round_trip((d.0, d.1, (d.2 + amount) as u64));
}

proof fn lemma_parsed_balance_ids(b: Seq<u8>)
    requires
        parse_balance(b) is Some,
    ensures
        parse_balance(b)->Some_0.0.len() == 32,
        parse_balance(b)->Some_0.1.len() == 32,
{
}

/// Minting raises the token's supply and the balance by the amount.
pub proof fn lemma_mint_adds(ctx: ExecutionContext)
    requires
        supply_change_result(ctx, true) is Ok,
    ensures
        ({
            let (token, tdata, balance, bdata) = supply_change_result(ctx, true)->Ok_0;
            let amount = parse_amount(ctx.instruction.params@)->Some_0;
            let t = parse_token(token.data@)->Some_0;
            let b = parse_balance(balance.data@)->Some_0;
            &&& parse_token(tdata) == Some(((t.0 + amount) as u64, t.1, t.2, t.3, t.4))
            &&& parse_balance(bdata) == Some((b.0, b.1, (b.2 + amount) as u64))
        }),
{
    let (token, tdata, balance, bdata) = supply_change_result(ctx, true)->Ok_0;
    let amount = parse_amount(ctx.instruction.params@)->Some_0;
    let t = parse_token(token.data@)->Some_0;
    let b = parse_balance(balance.data@)->Some_0;
    lemma_parsed_balance_ids(balance.data@);
    lemma_token_round_trip(((t.0 + amount) as u64, t.1, t.2, t.3, t.4));
    lemma_balance_round_trip((b.0, b.1, (b.2 + amount) as u64));
}

/// Burning lowers the token's supply and the balance by the amount.
pub proof fn lemma_burn_subtracts(ctx: ExecutionContext)
    requires
        supply_change_result(ctx, false) is Ok,
    ensures
        ({
            let (token, tdata, balance, bdata) = supply_change_result(ctx, false)->Ok_0;
            let amount = parse_amount(ctx.instruction.params@)->Some_0;
            let t = parse_token(token.data@)->Some_0;
            let b = parse_balance(balance.data@)->Some_0;
            &&& parse_token(tdata) == Some(((t.0 - amount) as u64, t.1, t.2, t.3, t.4))
            &&& parse_balance(bdata) == Some((b.0, b.1, (b.2 - amount) as u64))
        }),
{
    let (token, tdata, balance, bdata) = supply_change_result(ctx, false)->Ok_0;
    let amount = parse_amount(ctx.instruction.params@)->Some_0;
    let t = parse_token(token.data@)->Some_0;
    let b = parse_balance(balance.data@)->Some_0;
    lemma_parsed_balance_ids(balance.data@);
    lemma_token_round_trip(((t.0 - amount) as u64, t.1, t.2, t.3, t.4));
    lemma_balance_round_trip((b.0, b.1, (b.2 - amount) as u64));
}

/// Freezing or unfreezing sets the token's flag and keeps the rest of it.
pub proof fn lemma_freeze_sets_flag(ctx: ExecutionContext, frozen: bool)
    requires
        freeze_result(ctx, frozen) is Ok,
    ensures
        ({
            let (token, tdata) = freeze_result(ctx, frozen)->Ok_0;
            let t = parse_token(token.data@)->Some_0;
            parse_token(tdata) == Some((t.0, t.1, t.2, t.3, frozen))
        }),
{
    let (token, tdata) = freeze_result(ctx, frozen)->Ok_0;
    let t = parse_token(token.data@)->Some_0;
    lemma_token_round_trip((t.0, t.1, t.2, t.3, frozen));
}

/// No transfer of a frozen token succeeds.
pub proof fn lemma_frozen_token_refuses_transfer(ctx: ExecutionContext)
    requires
        ctx.instruction.target_objects@.len() >= 3,
        target_object(ctx, 0) matches Some(token) && parse_token(token.data@) matches Some(t) && t.4,
    ensures
        transfer_result(ctx) is Err,
{
}

} // verus!
