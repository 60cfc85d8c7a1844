//! The account kernel module: user accounts with an optional username, a
//! display name, metadata, an active flag and recovery addresses.
use vstd::prelude::*;
use crate::codec::{
    bool_bytes, lemma_string_round_trip, lemma_u64_round_trip, read_bool, read_bytes, read_id,
    read_string, read_u32, read_u64, read_u8, string_bytes, string_fits, take_bool, take_bytes,
    take_id, take_string, take_u32, take_u64, take_u8, write_bool, write_id, write_string,
};
use crate::hashing::{append_le32, append_le64, le32, le64};
use crate::id::UnitsObjectId;
use crate::kernel::{
    creates, creation_with, get_target, modification_with, names, one_change, target_object,
    KernelError,
};
use crate::objects::UnitsObject;
use crate::vm_executor::{ExecutionContext, ObjectEffect};
use vstd::string::StringSliceAdditionalSpecFns;

verus! {

/// Name of the account module.
pub const ACCOUNT_MODULE_NAME: &'static str = "account";

/// A metadata entry of an account.
#[derive(Debug, Clone)]
pub struct AccountMetadata {
    pub key: String,
    pub value: String,
}

/// A user account.
#[derive(Debug, Clone)]
pub struct AccountData {
    /// The account ID (same as the object ID)
    pub account_id: UnitsObjectId,
    /// Human-readable username (optional)
    pub username: Option<String>,
    /// Display name for the account
    pub display_name: String,
    /// Account metadata (e.g., email, profile picture URL, etc.)
    pub metadata: Vec<AccountMetadata>,
    /// Whether the account is active
    pub is_active: bool,
    /// Account creation timestamp
    pub created_at: u64,
    /// Last update timestamp
    pub updated_at: u64,
    /// Other objects that can recover this account
    pub recovery_addresses: Vec<UnitsObjectId>,
}

/// The functions of the account module.
pub enum AccountFunction {
    CreateAccount,
    UpdateAccount,
    AddRecoveryAddress,
    RemoveRecoveryAddress,
    DeactivateAccount,
    ReactivateAccount,
    GetAccount,
}

impl AccountFunction {
    /// The function's name.
    pub fn as_str(&self) -> (s: &'static str)
        ensures
            s@ == match self {
                AccountFunction::CreateAccount => "create_account"@,
                AccountFunction::UpdateAccount => "update_account"@,
                AccountFunction::AddRecoveryAddress => "add_recovery_address"@,
                AccountFunction::RemoveRecoveryAddress => "remove_recovery_address"@,
                AccountFunction::DeactivateAccount => "deactivate_account"@,
                AccountFunction::ReactivateAccount => "reactivate_account"@,
                AccountFunction::GetAccount => "get_account"@,
            },
    {
        match self {
            AccountFunction::CreateAccount => "create_account",
            AccountFunction::UpdateAccount => "update_account",
            AccountFunction::AddRecoveryAddress => "add_recovery_address",
            AccountFunction::RemoveRecoveryAddress => "remove_recovery_address",
            AccountFunction::DeactivateAccount => "deactivate_account",
            AccountFunction::ReactivateAccount => "reactivate_account",
            AccountFunction::GetAccount => "get_account",
        }
    }
}

/// An account module error: a code and its message.
#[derive(Debug, Clone)]
pub struct AccountError {
    pub code: i32,
    pub message: String,
}

/// The message of an account error code.
pub open spec fn account_error_message(code: i32) -> Seq<char> {
    if code == -1 {
        "Invalid function"@
    } else if code == -2 {
        "Invalid parameters"@
    } else if code == -3 {
        "Account already exists"@
    } else if code == -4 {
        "Account not found"@
    } else if code == -5 {
        "Unauthorized"@
    } else if code == -6 {
        "Account is inactive"@
    } else if code == -7 {
        "Invalid username format"@
    } else if code == -8 {
        "Username already taken"@
    } else if code == -9 {
        "Invalid metadata"@
    } else if code == -10 {
        "Recovery address already exists"@
    } else if code == -11 {
        "Recovery address not found"@
    } else {
        "Unknown error"@
    }
}

impl AccountError {
    pub const INVALID_FUNCTION: i32 = -1;
    pub const INVALID_PARAMS: i32 = -2;
    pub const ACCOUNT_EXISTS: i32 = -3;
    pub const ACCOUNT_NOT_FOUND: i32 = -4;
    pub const UNAUTHORIZED: i32 = -5;
    pub const ACCOUNT_INACTIVE: i32 = -6;
    pub const INVALID_USERNAME: i32 = -7;
    pub const USERNAME_TAKEN: i32 = -8;
    pub const INVALID_METADATA: i32 = -9;
    pub const RECOVERY_ADDRESS_EXISTS: i32 = -10;
    pub const RECOVERY_ADDRESS_NOT_FOUND: i32 = -11;

    /// The error of a code, with its message.
    pub fn from_code(code: i32) -> (e: Self)
        ensures
            e.code == code,
            e.message@ == account_error_message(code),
    {
        let message = if code == -1 {
            "Invalid function"
        } else if code == -2 {
            "Invalid parameters"
        } else if code == -3 {
            "Account already exists"
        } else if code == -4 {
            "Account not found"
        } else if code == -5 {
            "Unauthorized"
        } else if code == -6 {
            "Account is inactive"
        } else if code == -7 {
            "Invalid username format"
        } else if code == -8 {
            "Username already taken"
        } else if code == -9 {
            "Invalid metadata"
        } else if code == -10 {
            "Recovery address already exists"
        } else if code == -11 {
            "Recovery address not found"
        } else {
            "Unknown error"
        };
        AccountError { code, message: message.to_owned() }
    }
}

/// Whether a character is alphanumeric by Unicode (alphabetic or numeric).
pub uninterp spec fn char_is_alphanumeric(c: char) -> bool;

/// `char::is_alphanumeric`: whether `c` is alphabetic or numeric by the Unicode
/// tables, a function of `c` alone.
#[verifier::external_body]
fn is_alphanumeric(c: char) -> (r: bool)
    ensures
        r == char_is_alphanumeric(c),
{
    c.is_alphanumeric()
}

/// A valid username: 3 to 32 bytes of UTF-8, every character alphanumeric or `_`.
pub open spec fn valid_username(u: &str) -> bool {
    &&& 3 <= u.len() <= 32
    &&& forall|i: int| 0 <= i < u@.len() ==> char_is_alphanumeric(#[trigger] u@[i]) || u@[i] == '_'
}

/// Whether a username is valid: 3 to 32 bytes, alphanumeric characters or underscores.
pub fn validate_username(username: &str) -> (r: bool)
    ensures
        r == valid_username(username),
{
    let len = username.len();
    if len < 3 || len > 32 {
        return false;
    }
    let mut ok = true;
    proof {
        broadcast use vstd::string::axiom_spec_iter;
    }
    for c in it: username.chars()
        invariant
            it.seq() == username@,
            ok <==> forall|j: int|
                0 <= j < it.index() ==> char_is_alphanumeric(#[trigger] it.seq()[j]) || it.seq()[j]
                    == '_',
    {
        if !(is_alphanumeric(c) || c == '_') {
            ok = false;
        }
    }
    assert(ok <==> forall|j: int|
        0 <= j < username@.len() ==> char_is_alphanumeric(#[trigger] username@[j]) || username@[j]
            == '_');
    ok
}

/// A valid username, by its characters: 3 to 32 bytes of UTF-8, every
/// character alphanumeric or `_`.
pub open spec fn username_ok(u: Seq<char>) -> bool {
    &&& 3 <= (vstd::utf8::encode_utf8(u).len() as usize) <= 32
    &&& forall|i: int| 0 <= i < u.len() ==> char_is_alphanumeric(#[trigger] u[i]) || u[i] == '_'
}

/// The metadata entries, as key and value strings.
pub type MetaView = Seq<(Seq<char>, Seq<char>)>;

/// The fields of an account: identifier bytes, username, display name,
/// metadata, active, created, updated, recovery identifier bytes.
pub type AccountView = (Seq<u8>, Option<Seq<char>>, Seq<char>, MetaView, bool, u64, u64, Seq<Seq<u8>>);

/// The view of metadata entries.
pub open spec fn meta_view(m: Seq<AccountMetadata>) -> MetaView {
    m.map_values(|e: AccountMetadata| (e.key@, e.value@))
}

/// The bytes of identifiers.
pub open spec fn ids_view(s: Seq<UnitsObjectId>) -> Seq<Seq<u8>> {
    s.map_values(|id: UnitsObjectId| id.bytes@)
}

/// The view of an optional string.
pub open spec fn opt_string_view(o: Option<String>) -> Option<Seq<char>> {
    match o {
        Some(s) => Some(s@),
        None => None,
    }
}

/// The fields of an account.
pub open spec fn account_view(a: AccountData) -> AccountView {
    (
        a.account_id.bytes@,
        opt_string_view(a.username),
        a.display_name@,
        meta_view(a.metadata@),
        a.is_active,
        a.created_at,
        a.updated_at,
        ids_view(a.recovery_addresses@),
    )
}

/// The optional string encoded at `pos` (a tag 0 or 1, then the string), with
/// the position after it.
pub open spec fn take_opt_string(b: Seq<u8>, pos: int) -> Option<(Option<Seq<char>>, int)> {
    match take_u8(b, pos) {
        Some((0, p)) => Some((None, p)),
        Some((1, p)) => match take_string(b, p) {
            Some((s, q)) => Some((Some(s), q)),
            None => None,
        },
        _ => None,
    }
}

/// The first `n` metadata entries encoded from `pos` on, with the position after them.
pub open spec fn take_meta_items(b: Seq<u8>, pos: int, n: nat) -> Option<(MetaView, int)>
    decreases n,
{
    if n == 0 {
        Some((Seq::empty(), pos))
    } else {
        match take_meta_items(b, pos, (n - 1) as nat) {
            None => None,
            Some((m, p)) => match take_string(b, p) {
                None => None,
                Some((k, p2)) => match take_string(b, p2) {
                    None => None,
                    Some((v, p3)) => Some((m.push((k, v)), p3)),
                },
            },
        }
    }
}

/// The metadata encoded at `pos` (a count, then the entries).
pub open spec fn take_meta(b: Seq<u8>, pos: int) -> Option<(MetaView, int)> {
    match take_u32(b, pos) {
        Some((n, p)) => take_meta_items(b, p, n as nat),
        None => None,
    }
}

/// The first `n` identifiers encoded from `pos` on, with the position after them.
pub open spec fn take_id_items(b: Seq<u8>, pos: int, n: nat) -> Option<(Seq<Seq<u8>>, int)>
    decreases n,
{
    if n == 0 {
        Some((Seq::empty(), pos))
    } else {
        match take_id_items(b, pos, (n - 1) as nat) {
            None => None,
            Some((s, p)) => match take_id(b, p) {
                None => None,
                Some((id, q)) => Some((s.push(id), q)),
            },
        }
    }
}

/// The identifiers encoded at `pos` (a count, then the identifiers).
pub open spec fn take_ids(b: Seq<u8>, pos: int) -> Option<(Seq<Seq<u8>>, int)> {
    match take_u32(b, pos) {
        Some((n, p)) => take_id_items(b, p, n as nat),
        None => None,
    }
}

/// The account that `b` encodes, if it encodes exactly one.
pub open spec fn parse_account(b: Seq<u8>) -> Option<AccountView> {
    match take_id(b, 0) {
        None => None,
        Some((id, p1)) => match take_opt_string(b, p1) {
            None => None,
            Some((username, p2)) => match take_string(b, p2) {
                None => None,
                Some((display, p3)) => match take_meta(b, p3) {
                    None => None,
                    Some((meta, p4)) => match take_bool(b, p4) {
                        None => None,
                        Some((active, p5)) => match take_u64(b, p5) {
                            None => None,
                            Some((created, p6)) => match take_u64(b, p6) {
                                None => None,
                                Some((updated, p7)) => match take_ids(b, p7) {
                                    None => None,
                                    Some((rec, p8)) => if p8 == b.len() {
                                        Some((id, username, display, meta, active, created, updated, rec))
                                    } else {
                                        None
                                    },
                                },
                            },
                        },
                    },
                },
            },
        },
    }
}

/// The encoding of an optional string.
pub open spec fn opt_string_bytes(o: Option<Seq<char>>) -> Seq<u8> {
    match o {
        Some(s) => seq![1u8] + string_bytes(s),
        None => seq![0u8],
    }
}

/// The encoding of metadata entries, one after another.
pub open spec fn meta_items_bytes(m: MetaView) -> Seq<u8>
    decreases m.len(),
{
    if m.len() == 0 {
        Seq::empty()
    } else {
        meta_items_bytes(m.drop_last()) + string_bytes(m.last().0) + string_bytes(m.last().1)
    }
}

/// The encoding of identifiers, one after another.
pub open spec fn id_items_bytes(s: Seq<Seq<u8>>) -> Seq<u8>
    decreases s.len(),
{
    if s.len() == 0 {
        Seq::empty()
    } else {
        id_items_bytes(s.drop_last()) + s.last()
    }
}

/// The encoding of metadata: a count, then the entries.
pub open spec fn meta_bytes(m: MetaView) -> Seq<u8> {
    le32(m.len() as u32) + meta_items_bytes(m)
}

/// The encoding of identifiers: a count, then the identifiers.
pub open spec fn ids_bytes(s: Seq<Seq<u8>>) -> Seq<u8> {
    le32(s.len() as u32) + id_items_bytes(s)
}

/// The encoding of an account.
pub open spec fn account_bytes(v: AccountView) -> Seq<u8> {
    v.0 + opt_string_bytes(v.1) + string_bytes(v.2) + meta_bytes(v.3) + bool_bytes(v.4) + le64(v.5)
        + le64(v.6) + ids_bytes(v.7)
}

/// Metadata can be encoded: its count and every string's length fit in 32 bits.
pub open spec fn meta_fits(m: MetaView) -> bool {
    &&& m.len() <= u32::MAX
    &&& forall|i: int| 0 <= i < m.len() ==> string_fits((#[trigger] m[i]).0) && string_fits(m[i].1)
}

/// An optional string can be encoded.
pub open spec fn opt_fits(o: Option<Seq<char>>) -> bool {
    match o {
        Some(s) => string_fits(s),
        None => true,
    }
}

/// An account can be encoded: its strings, metadata and recovery count fit.
pub open spec fn account_fits(v: AccountView) -> bool {
    &&& opt_fits(v.1)
    &&& string_fits(v.2)
    &&& meta_fits(v.3)
    &&& v.7.len() <= u32::MAX
}

pub(crate) fn read_opt_string(b: &[u8], pos: usize) -> (r: Option<(Option<String>, usize)>)
    ensures
        r is Some <==> take_opt_string(b@, pos as int) is Some,
        r matches Some((v, p)) ==> take_opt_string(b@, pos as int) == Some(
            (opt_string_view(v), p as int),
        ),
{
    match read_u8(b, pos) {
        Some((0, p)) => Some((None, p)),
        Some((1, p)) => match read_string(b, p) {
            Some((s, q)) => Some((Some(s), q)),
            None => None,
        },
        _ => None,
    }
}

pub(crate) fn read_meta(b: &[u8], pos: usize) -> (r: Option<(Vec<AccountMetadata>, usize)>)
    ensures
        r is Some <==> take_meta(b@, pos as int) is Some,
        r matches Some((v, p)) ==> take_meta(b@, pos as int) == Some((meta_view(v@), p as int)),
{
    let (n, p0) = match read_u32(b, pos) {
        Some(x) => x,
        None => {
            return None;
        },
    };
    let mut out: Vec<AccountMetadata> = Vec::new();
    let mut p = p0;
    let mut i: u32 = 0;
    while i < n
        invariant
            i <= n,
            take_meta(b@, pos as int) == take_meta_items(b@, p0 as int, n as nat),
            take_meta_items(b@, p0 as int, i as nat) == Some((meta_view(out@), p as int)),
        decreases n - i,
    {
        let (key, p2) = match read_string(b, p) {
            Some(x) => x,
            None => {
                proof {
                    lemma_meta_items_stuck(b@, p0 as int, (i + 1) as nat, n as nat);
                }
                return None;
            },
        };
        let (value, p3) = match read_string(b, p2) {
            Some(x) => x,
            None => {
                proof {
                    lemma_meta_items_stuck(b@, p0 as int, (i + 1) as nat, n as nat);
                }
                return None;
            },
        };
        out.push(AccountMetadata { key, value });
        p = p3;
        i = i + 1;
        proof {
            assert(meta_view(out@) =~= take_meta_items(b@, p0 as int, (i - 1) as nat)->Some_0.0.push(
                (out@.last().key@, out@.last().value@),
            ));
        }
    }
    Some((out, p))
}

proof fn lemma_meta_items_stuck(b: Seq<u8>, pos: int, i: nat, n: nat)
    requires
        i <= n,
        take_meta_items(b, pos, i) is None,
    ensures
        take_meta_items(b, pos, n) is None,
    decreases n - i,
{
    if i < n {
        lemma_meta_items_stuck(b, pos, i + 1, n);
    }
}

proof fn lemma_id_items_stuck(b: Seq<u8>, pos: int, i: nat, n: nat)
    requires
        i <= n,
        take_id_items(b, pos, i) is None,
    ensures
        take_id_items(b, pos, n) is None,
    decreases n - i,
{
    if i < n {
        lemma_id_items_stuck(b, pos, i + 1, n);
    }
}

pub(crate) fn read_ids(b: &[u8], pos: usize) -> (r: Option<(Vec<UnitsObjectId>, usize)>)
    ensures
        r is Some <==> take_ids(b@, pos as int) is Some,
        r matches Some((v, p)) ==> take_ids(b@, pos as int) == Some((ids_view(v@), p as int)),
{
    let (n, p0) = match read_u32(b, pos) {
        Some(x) => x,
        None => {
            return None;
        },
    };
    let mut out: Vec<UnitsObjectId> = Vec::new();
    let mut p = p0;
    let mut i: u32 = 0;
    while i < n
        invariant
            i <= n,
            take_ids(b@, pos as int) == take_id_items(b@, p0 as int, n as nat),
            take_id_items(b@, p0 as int, i as nat) == Some((ids_view(out@), p as int)),
        decreases n - i,
    {
        let (id, q) = match read_id(b, p) {
            Some(x) => x,
            None => {
                proof {
                    lemma_id_items_stuck(b@, p0 as int, (i + 1) as nat, n as nat);
                }
                return None;
            },
        };
        out.push(id);
        p = q;
        i = i + 1;
        proof {
            assert(ids_view(out@) =~= ids_view(out@.drop_last()).push(id.bytes@));
        }
    }
    Some((out, p))
}

pub(crate) fn write_opt_string(v: &mut Vec<u8>, o: &Option<String>) -> (ok: bool)
    ensures
        ok == opt_fits(opt_string_view(*o)),
        ok ==> final(v)@ == old(v)@ + opt_string_bytes(opt_string_view(*o)),
{
    match o {
        Some(s) => {
            v.push(1u8);
            let ok = write_string(v, s.as_str());
            proof {
                if ok {
                    assert(final(v)@ =~= old(v)@ + opt_string_bytes(opt_string_view(*o)));
                }
            }
            ok
        },
        None => {
            v.push(0u8);
            proof {
                assert(final(v)@ =~= old(v)@ + opt_string_bytes(opt_string_view(*o)));
            }
            true
        },
    }
}

pub(crate) fn write_meta(v: &mut Vec<u8>, m: &Vec<AccountMetadata>) -> (ok: bool)
    ensures
        ok == meta_fits(meta_view(m@)),
        ok ==> final(v)@ == old(v)@ + meta_bytes(meta_view(m@)),
{
    if m.len() > 0xffff_ffffusize {
        return false;
    }
    append_le32(v, m.len() as u32);
    let ghost start = v@;
    let mut i: usize = 0;
    while i < m.len()
        invariant
            i <= m@.len(),
            m@.len() <= u32::MAX,
            v@ == start + meta_items_bytes(meta_view(m@.take(i as int))),
            forall|j: int|
                0 <= j < i ==> string_fits((#[trigger] m@[j]).key@) && string_fits(m@[j].value@),
        decreases m@.len() - i,
    {
        let ghost before = v@;
        assert(meta_view(m@)[i as int] == (m@[i as int].key@, m@[i as int].value@));
        if !write_string(v, m[i].key.as_str()) {
            return false;
        }
        if !write_string(v, m[i].value.as_str()) {
            return false;
        }
        proof {
            let t = meta_view(m@.take(i + 1));
            assert(t.drop_last() =~= meta_view(m@.take(i as int)));
            assert(t.last() == (m@[i as int].key@, m@[i as int].value@));
            assert(v@ =~= before + string_bytes(m@[i as int].key@) + string_bytes(m@[i as int].value@));
        }
        i = i + 1;
    }
    proof {
        assert(m@.take(m@.len() as int) =~= m@);
        assert(v@ =~= old(v)@ + meta_bytes(meta_view(m@)));
    }
    true
}

pub(crate) fn write_ids(v: &mut Vec<u8>, ids: &Vec<UnitsObjectId>) -> (ok: bool)
    ensures
        ok == (ids@.len() <= u32::MAX),
        ok ==> final(v)@ == old(v)@ + ids_bytes(ids_view(ids@)),
{
    if ids.len() > 0xffff_ffffusize {
        return false;
    }
    append_le32(v, ids.len() as u32);
    let ghost start = v@;
    let mut i: usize = 0;
    while i < ids.len()
        invariant
            i <= ids@.len(),
            v@ == start + id_items_bytes(ids_view(ids@.take(i as int))),
        decreases ids@.len() - i,
    {
        write_id(v, &ids[i]);
        proof {
            let t = ids_view(ids@.take(i + 1));
            assert(t.drop_last() =~= ids_view(ids@.take(i as int)));
        }
        i = i + 1;
    }
    proof {
        assert(ids@.take(ids@.len() as int) =~= ids@);
        assert(v@ =~= old(v)@ + ids_bytes(ids_view(ids@)));
    }
    true
}

impl AccountData {
    /// Decode an account from exactly the bytes `b`.
    pub fn decode(b: &[u8]) -> (r: Option<AccountData>)
        ensures
            match parse_account(b@) {
                Some(v) => r matches Some(a) && account_view(a) == v,
                None => r is None,
            },
    {
        let (account_id, p1) = match read_id(b, 0) {
            Some(x) => x,
            None => {
                return None;
            },
        };
        let (username, p2) = match read_opt_string(b, p1) {
            Some(x) => x,
            None => {
                return None;
            },
        };
        let (display_name, p3) = match read_string(b, p2) {
            Some(x) => x,
            None => {
                return None;
            },
        };
        let (metadata, p4) = match read_meta(b, p3) {
            Some(x) => x,
            None => {
                return None;
            },
        };
        let (is_active, p5) = match read_bool(b, p4) {
            Some(x) => x,
            None => {
                return None;
            },
        };
        let (created_at, p6) = match read_u64(b, p5) {
            Some(x) => x,
            None => {
                return None;
            },
        };
        let (updated_at, p7) = match read_u64(b, p6) {
            Some(x) => x,
            None => {
                return None;
            },
        };
        let (recovery_addresses, p8) = match read_ids(b, p7) {
            Some(x) => x,
            None => {
                return None;
            },
        };
        if p8 != b.len() {
            return None;
        }
        Some(
            AccountData {
                account_id,
                username,
                display_name,
                metadata,
                is_active,
                created_at,
                updated_at,
                recovery_addresses,
            },
        )
    }

    /// Encode this account; refused when a string or a count does not fit in 32 bits.
    pub fn encode(&self) -> (r: Option<Vec<u8>>)
        ensures
            r is Some <==> account_fits(account_view(*self)),
            r matches Some(v) ==> v@ == account_bytes(account_view(*self)),
    {
        let mut v: Vec<u8> = Vec::new();
        write_id(&mut v, &self.account_id);
        if !write_opt_string(&mut v, &self.username) {
            return None;
        }
        if !write_string(&mut v, self.display_name.as_str()) {
            return None;
        }
        if !write_meta(&mut v, &self.metadata) {
            return None;
        }
        write_bool(&mut v, self.is_active);
        append_le64(&mut v, self.created_at);
        append_le64(&mut v, self.updated_at);
        if !write_ids(&mut v, &self.recovery_addresses) {
            return None;
        }
        proof {
            assert(v@ =~= account_bytes(account_view(*self)));
        }
        Some(v)
    }
}

/// Parameters of account creation.
#[derive(Debug, Clone)]
pub struct CreateAccountParams {
    pub username: Option<String>,
    pub display_name: String,
    pub metadata: Vec<AccountMetadata>,
    pub recovery_addresses: Vec<UnitsObjectId>,
}

/// Parameters of an account update: each field present is replaced.
#[derive(Debug, Clone)]
pub struct UpdateAccountParams {
    pub username: Option<String>,
    pub display_name: Option<String>,
    pub metadata: Option<Vec<AccountMetadata>>,
}

/// Parameters of adding a recovery address.
#[derive(Debug, Clone, Copy)]
pub struct AddRecoveryAddressParams {
    pub recovery_address: UnitsObjectId,
}

/// Parameters of removing a recovery address.
#[derive(Debug, Clone, Copy)]
pub struct RemoveRecoveryAddressParams {
    pub recovery_address: UnitsObjectId,
}

/// Parameters of deactivating an account.
#[derive(Debug, Clone)]
pub struct DeactivateAccountParams {
    pub reason: Option<String>,
}

/// Parameters of reactivating an account.
#[derive(Debug, Clone)]
pub struct ReactivateAccountParams {
    pub verification_data: Option<Vec<u8>>,
}

/// The creation parameters that `b` encodes: username, display name, metadata,
/// recovery addresses.
pub open spec fn parse_create_params(b: Seq<u8>) -> Option<
    (Option<Seq<char>>, Seq<char>, MetaView, Seq<Seq<u8>>),
> {
    match take_opt_string(b, 0) {
        None => None,
        Some((u, p1)) => match take_string(b, p1) {
            None => None,
            Some((d, p2)) => match take_meta(b, p2) {
                None => None,
                Some((m, p3)) => match take_ids(b, p3) {
                    None => None,
                    Some((r, p4)) => if p4 == b.len() {
                        Some((u, d, m, r))
                    } else {
                        None
                    },
                },
            },
        },
    }
}

/// The optional metadata encoded at `pos`.
pub open spec fn take_opt_meta(b: Seq<u8>, pos: int) -> Option<(Option<MetaView>, int)> {
    match take_u8(b, pos) {
        Some((0, p)) => Some((None, p)),
        Some((1, p)) => match take_meta(b, p) {
            Some((m, q)) => Some((Some(m), q)),
            None => None,
        },
        _ => None,
    }
}

/// The update parameters that `b` encodes.
pub open spec fn parse_update_params(b: Seq<u8>) -> Option<
    (Option<Seq<char>>, Option<Seq<char>>, Option<MetaView>),
> {
    match take_opt_string(b, 0) {
        None => None,
        Some((u, p1)) => match take_opt_string(b, p1) {
            None => None,
            Some((d, p2)) => match take_opt_meta(b, p2) {
                None => None,
                Some((m, p3)) => if p3 == b.len() {
                    Some((u, d, m))
                } else {
                    None
                },
            },
        },
    }
}

/// The recovery address that `b` encodes.
pub open spec fn parse_recovery_params(b: Seq<u8>) -> Option<Seq<u8>> {
    match take_id(b, 0) {
        Some((id, p)) => if p == b.len() {
            Some(id)
        } else {
            None
        },
        None => None,
    }
}

/// The deactivation reason that `b` encodes.
pub open spec fn parse_deactivate_params(b: Seq<u8>) -> Option<Option<Seq<char>>> {
    match take_opt_string(b, 0) {
        Some((r, p)) => if p == b.len() {
            Some(r)
        } else {
            None
        },
        None => None,
    }
}

/// The reactivation data that `b` encodes: a tag, then a counted byte string.
pub open spec fn parse_reactivate_params(b: Seq<u8>) -> Option<Option<Seq<u8>>> {
    match take_u8(b, 0) {
        Some((0, p)) => if p == b.len() {
            Some(None)
        } else {
            None
        },
        Some((1, p)) => match take_u32(b, p) {
            Some((n, q)) => match take_bytes(b, q, n as int) {
                Some((d, e)) => if e == b.len() {
                    Some(Some(d))
                } else {
                    None
                },
                None => None,
            },
            None => None,
        },
        _ => None,
    }
}

pub(crate) fn read_opt_meta(b: &[u8], pos: usize) -> (r: Option<(Option<Vec<AccountMetadata>>, usize)>)
    ensures
        r is Some <==> take_opt_meta(b@, pos as int) is Some,
        r matches Some((v, p)) ==> take_opt_meta(b@, pos as int) == Some(
            (
                match v {
                    Some(m) => Some(meta_view(m@)),
                    None => None,
                },
                p as int,
            ),
        ),
{
    match read_u8(b, pos) {
        Some((0, p)) => Some((None, p)),
        Some((1, p)) => match read_meta(b, p) {
            Some((m, q)) => Some((Some(m), q)),
            None => None,
        },
        _ => None,
    }
}

impl CreateAccountParams {
    /// Decode creation parameters from exactly the bytes `b`.
    pub fn decode(b: &[u8]) -> (r: Option<Self>)
        ensures
            match parse_create_params(b@) {
                Some(v) => r matches Some(p) && v == (
                    opt_string_view(p.username),
                    p.display_name@,
                    meta_view(p.metadata@),
                    ids_view(p.recovery_addresses@),
                ),
                None => r is None,
            },
    {
        let (username, p1) = match read_opt_string(b, 0) {
            Some(x) => x,
            None => {
                return None;
            },
        };
        let (display_name, p2) = match read_string(b, p1) {
            Some(x) => x,
            None => {
                return None;
            },
        };
        let (metadata, p3) = match read_meta(b, p2) {
            Some(x) => x,
            None => {
                return None;
            },
        };
        let (recovery_addresses, p4) = match read_ids(b, p3) {
            Some(x) => x,
            None => {
                return None;
            },
        };
        if p4 != b.len() {
            return None;
        }
        Some(CreateAccountParams { username, display_name, metadata, recovery_addresses })
    }
}

impl UpdateAccountParams {
    /// Decode update parameters from exactly the bytes `b`.
    pub fn decode(b: &[u8]) -> (r: Option<Self>)
        ensures
            match parse_update_params(b@) {
                Some(v) => r matches Some(p) && v == (
                    opt_string_view(p.username),
                    opt_string_view(p.display_name),
                    match p.metadata {
                        Some(m) => Some(meta_view(m@)),
                        None => None,
                    },
                ),
                None => r is None,
            },
    {
        let (username, p1) = match read_opt_string(b, 0) {
            Some(x) => x,
            None => {
                return None;
            },
        };
        let (display_name, p2) = match read_opt_string(b, p1) {
            Some(x) => x,
            None => {
                return None;
            },
        };
        let (metadata, p3) = match read_opt_meta(b, p2) {
            Some(x) => x,
            None => {
                return None;
            },
        };
        if p3 != b.len() {
            return None;
        }
        Some(UpdateAccountParams { username, display_name, metadata })
    }
}

fn decode_recovery(b: &[u8]) -> (r: Option<UnitsObjectId>)
    ensures
        match parse_recovery_params(b@) {
            Some(v) => r matches Some(id) && id.bytes@ == v,
            None => r is None,
        },
{
    match read_id(b, 0) {
        Some((id, p)) => if p == b.len() {
            Some(id)
        } else {
            None
        },
        None => None,
    }
}

impl AddRecoveryAddressParams {
    /// Decode the parameters from exactly the bytes `b`.
    pub fn decode(b: &[u8]) -> (r: Option<Self>)
        ensures
            match parse_recovery_params(b@) {
                Some(v) => r matches Some(p) && p.recovery_address.bytes@ == v,
                None => r is None,
            },
    {
        match decode_recovery(b) {
            Some(recovery_address) => Some(AddRecoveryAddressParams { recovery_address }),
            None => None,
        }
    }
}

impl RemoveRecoveryAddressParams {
    /// Decode the parameters from exactly the bytes `b`.
    pub fn decode(b: &[u8]) -> (r: Option<Self>)
        ensures
            match parse_recovery_params(b@) {
                Some(v) => r matches Some(p) && p.recovery_address.bytes@ == v,
                None => r is None,
            },
    {
        match decode_recovery(b) {
            Some(recovery_address) => Some(RemoveRecoveryAddressParams { recovery_address }),
            None => None,
        }
    }
}

impl DeactivateAccountParams {
    /// Decode the parameters from exactly the bytes `b`.
    pub fn decode(b: &[u8]) -> (r: Option<Self>)
        ensures
            match parse_deactivate_params(b@) {
                Some(v) => r matches Some(p) && opt_string_view(p.reason) == v,
                None => r is None,
            },
    {
        match read_opt_string(b, 0) {
            Some((reason, p)) => if p == b.len() {
                Some(DeactivateAccountParams { reason })
            } else {
                None
            },
            None => None,
        }
    }
}

impl ReactivateAccountParams {
    /// Decode the parameters from exactly the bytes `b`.
    pub fn decode(b: &[u8]) -> (r: Option<Self>)
        ensures
            match parse_reactivate_params(b@) {
                Some(v) => r matches Some(p) && v == match p.verification_data {
                    Some(d) => Some(d@),
                    None => None,
                },
                None => r is None,
            },
    {
        match read_u8(b, 0) {
            Some((0, p)) => if p == b.len() {
                Some(ReactivateAccountParams { verification_data: None })
            } else {
                None
            },
            Some((1, p)) => {
                let (n, q) = match read_u32(b, p) {
                    Some(x) => x,
                    None => {
                        return None;
                    },
                };
                let (d, e) = match read_bytes(b, q, n as usize) {
                    Some(x) => x,
                    None => {
                        return None;
                    },
                };
                if e != b.len() {
                    return None;
                }
                Some(ReactivateAccountParams { verification_data: Some(d) })
            },
            _ => None,
        }
    }
}

/// `s` with every occurrence of `x` taken out.
pub open spec fn without(s: Seq<Seq<u8>>, x: Seq<u8>) -> Seq<Seq<u8>>
    decreases s.len(),
{
    if s.len() == 0 {
        s
    } else if s.last() == x {
        without(s.drop_last(), x)
    } else {
        without(s.drop_last(), x).push(s.last())
    }
}

/// The account with the `0`-th target identifier, decoded, if the caller controls it.
pub open spec fn controlled_account(ctx: ExecutionContext) -> Result<(UnitsObject, AccountView), KernelError> {
    if ctx.instruction.target_objects@.len() == 0 {
        Err(KernelError::InvalidParams)
    } else {
        match target_object(ctx, 0) {
            None => Err(KernelError::ObjectNotFound),
            Some(acc) => if acc.controller_id != ctx.instruction.controller_id {
                Err(KernelError::Unauthorized)
            } else {
                match parse_account(acc.data@) {
                    None => Err(KernelError::InvalidData),
                    Some(a) => Ok((acc, a)),
                }
            },
        }
    }
}

/// The outcome of re-encoding a changed account.
pub open spec fn reencoded(acc: UnitsObject, v: AccountView) -> Result<(UnitsObject, Seq<u8>), KernelError> {
    if account_fits(v) {
        Ok((acc, account_bytes(v)))
    } else {
        Err(KernelError::InvalidData)
    }
}

/// What creating an account yields: the new account's encoding, or the error.
pub open spec fn create_account_result(ctx: ExecutionContext) -> Result<Seq<u8>, KernelError> {
    let targets = ctx.instruction.target_objects@;
    match parse_create_params(ctx.instruction.params@) {
        None => Err(KernelError::InvalidParams),
        Some(p) => if targets.len() == 0 {
            Err(KernelError::InvalidParams)
        } else if ctx.objects@.dom().contains(targets[0]) {
            Err(KernelError::InvalidParams)
        } else if p.0 matches Some(u) && !username_ok(u) {
            Err(KernelError::InvalidParams)
        } else {
            let v = (targets[0].bytes@, p.0, p.1, p.2, true, ctx.timestamp, ctx.timestamp, p.3);
            if account_fits(v) {
                Ok(account_bytes(v))
            } else {
                Err(KernelError::InvalidData)
            }
        },
    }
}

/// What updating an account yields.
pub open spec fn update_account_result(ctx: ExecutionContext) -> Result<(UnitsObject, Seq<u8>), KernelError> {
    match parse_update_params(ctx.instruction.params@) {
        None => Err(KernelError::InvalidParams),
        Some(p) => match controlled_account(ctx) {
            Err(e) => Err(e),
            Ok((acc, a)) => if !a.4 {
                Err(KernelError::InvalidParams)
            } else if p.0 matches Some(u) && !username_ok(u) {
                Err(KernelError::InvalidParams)
            } else {
                reencoded(
                    acc,
                    (
                        a.0,
                        if p.0 is Some {
                            p.0
                        } else {
                            a.1
                        },
                        match p.1 {
                            Some(d) => d,
                            None => a.2,
                        },
                        match p.2 {
                            Some(m) => m,
                            None => a.3,
                        },
                        a.4,
                        a.5,
                        ctx.timestamp,
                        a.7,
                    ),
                )
            },
        },
    }
}

/// What adding a recovery address yields.
pub open spec fn add_recovery_result(ctx: ExecutionContext) -> Result<(UnitsObject, Seq<u8>), KernelError> {
    match parse_recovery_params(ctx.instruction.params@) {
        None => Err(KernelError::InvalidParams),
        Some(addr) => match controlled_account(ctx) {
            Err(e) => Err(e),
            Ok((acc, a)) => if a.7.contains(addr) {
                Err(KernelError::InvalidParams)
            } else {
                reencoded(acc, (a.0, a.1, a.2, a.3, a.4, a.5, ctx.timestamp, a.7.push(addr)))
            },
        },
    }
}

/// What removing a recovery address yields.
pub open spec fn remove_recovery_result(ctx: ExecutionContext) -> Result<(UnitsObject, Seq<u8>), KernelError> {
    match parse_recovery_params(ctx.instruction.params@) {
        None => Err(KernelError::InvalidParams),
        Some(addr) => match controlled_account(ctx) {
            Err(e) => Err(e),
            Ok((acc, a)) => if without(a.7, addr).len() == a.7.len() {
                Err(KernelError::InvalidParams)
            } else {
                reencoded(acc, (a.0, a.1, a.2, a.3, a.4, a.5, ctx.timestamp, without(a.7, addr)))
            },
        },
    }
}

/// What deactivating an account yields.
pub open spec fn deactivate_result(ctx: ExecutionContext) -> Result<(UnitsObject, Seq<u8>), KernelError> {
    match parse_deactivate_params(ctx.instruction.params@) {
        None => Err(KernelError::InvalidParams),
        Some(_) => match controlled_account(ctx) {
            Err(e) => Err(e),
            Ok((acc, a)) => if !a.4 {
                Err(KernelError::InvalidParams)
            } else {
                reencoded(acc, (a.0, a.1, a.2, a.3, false, a.5, ctx.timestamp, a.7))
            },
        },
    }
}

/// What reactivating an account yields: its controller or one of its recovery
/// addresses may reactivate it.
pub open spec fn reactivate_result(ctx: ExecutionContext) -> Result<(UnitsObject, Seq<u8>), KernelError> {
    match parse_reactivate_params(ctx.instruction.params@) {
        None => Err(KernelError::InvalidParams),
        Some(_) => if ctx.instruction.target_objects@.len() == 0 {
            Err(KernelError::InvalidParams)
        } else {
            match target_object(ctx, 0) {
                None => Err(KernelError::ObjectNotFound),
                Some(acc) => match parse_account(acc.data@) {
                    None => Err(KernelError::InvalidData),
                    Some(a) => if !(acc.controller_id == ctx.instruction.controller_id || a.7.contains(
                        ctx.instruction.controller_id.bytes@,
                    )) {
                        Err(KernelError::Unauthorized)
                    } else if a.4 {
                        Err(KernelError::InvalidParams)
                    } else {
                        reencoded(acc, (a.0, a.1, a.2, a.3, true, a.5, ctx.timestamp, a.7))
                    },
                },
            }
        },
    }
}

pub(crate) fn contains_id(ids: &Vec<UnitsObjectId>, x: &UnitsObjectId) -> (r: bool)
    ensures
        r == ids_view(ids@).contains(x.bytes@),
{
    let mut i: usize = 0;
    while i < ids.len()
        invariant
            i <= ids@.len(),
            forall|j: int| 0 <= j < i ==> ids@[j].bytes@ != x.bytes@,
        decreases ids@.len() - i,
    {
        if ids[i] == *x {
            assert(ids_view(ids@)[i as int] == x.bytes@);
            return true;
        }
        proof {
            if ids@[i as int].bytes@ == x.bytes@ {
                crate::id::lemma_id_bytes_eq(ids@[i as int], *x);
            }
        }
        i = i + 1;
    }
    proof {
        if ids_view(ids@).contains(x.bytes@) {
            let k = choose|k: int| 0 <= k < ids_view(ids@).len() && ids_view(ids@)[k] == x.bytes@;
            assert(ids@[k].bytes@ == x.bytes@);
        }
    }
    false
}

pub(crate) fn remove_id(ids: &Vec<UnitsObjectId>, x: &UnitsObjectId) -> (r: Vec<UnitsObjectId>)
    ensures
        ids_view(r@) == without(ids_view(ids@), x.bytes@),
        r@.len() == without(ids_view(ids@), x.bytes@).len(),
{
    let mut out: Vec<UnitsObjectId> = Vec::new();
    let mut i: usize = 0;
    while i < ids.len()
        invariant
            i <= ids@.len(),
            ids_view(out@) == without(ids_view(ids@.take(i as int)), x.bytes@),
        decreases ids@.len() - i,
    {
        let id = ids[i];
        proof {
            assert(ids_view(ids@.take(i + 1)).drop_last() =~= ids_view(ids@.take(i as int)));
            assert(ids_view(ids@.take(i + 1)).last() == id.bytes@);
        }
        proof {
            if id.bytes@ == x.bytes@ {
                crate::id::lemma_id_bytes_eq(id, *x);
            }
        }
        if !(id == *x) {
            out.push(id);
            proof {
                assert(ids_view(out@) =~= ids_view(out@.drop_last()).push(id.bytes@));
            }
        }
        i = i + 1;
    }
    proof {
        assert(ids@.take(ids@.len() as int) =~= ids@);
    }
    out
}

/// Account module: runs the function an instruction names.
pub struct AccountModule;

impl AccountModule {
    /// Create an account at the first target, which must not exist yet.
    pub fn handle_create_account(ctx: &ExecutionContext) -> (r: Result<Vec<ObjectEffect>, KernelError>)
        ensures
            match create_account_result(*ctx) {
                Err(e) => r == Err::<Vec<ObjectEffect>, KernelError>(e),
                Ok(d) => r matches Ok(v) && v@.len() == 1 && creates(
                    v@[0],
                    ctx.instruction.target_objects@[0],
                    ctx.instruction.controller_id,
                    d,
                ),
            },
    {
        let params = match CreateAccountParams::decode(ctx.instruction.params.as_slice()) {
            Some(p) => p,
            None => {
                return Err(KernelError::InvalidParams);
            },
        };
        if ctx.instruction.target_objects.len() == 0 {
            return Err(KernelError::InvalidParams);
        }
        let account_id = ctx.instruction.target_objects[0];
        if ctx.objects.contains_key(&account_id) {
            return Err(KernelError::InvalidParams);
        }
        match &params.username {
            Some(u) => {
                if !validate_username(u.as_str()) {
                    return Err(KernelError::InvalidParams);
                }
            },
            None => {},
        }
        let account = AccountData {
            account_id,
            username: params.username,
            display_name: params.display_name,
            metadata: params.metadata,
            is_active: true,
            created_at: ctx.timestamp,
            updated_at: ctx.timestamp,
            recovery_addresses: params.recovery_addresses,
        };
        let data = match account.encode() {
            Some(d) => d,
            None => {
                return Err(KernelError::InvalidData);
            },
        };
        let mut effects: Vec<ObjectEffect> = Vec::new();
        effects.push(creation_with(account_id, ctx.instruction.controller_id, data));
        Ok(effects)
    }

    fn controlled<'a>(ctx: &'a ExecutionContext) -> (r: Result<(&'a UnitsObject, AccountData), KernelError>)
        ensures
            match controlled_account(*ctx) {
                Err(e) => r == Err::<(&UnitsObject, AccountData), KernelError>(e),
                Ok((o, a)) => r matches Ok((x, d)) && *x == o && account_view(d) == a,
            },
    {
        if ctx.instruction.target_objects.len() == 0 {
            return Err(KernelError::InvalidParams);
        }
        let account = match get_target(ctx, 0) {
            Some(o) => o,
            None => {
                return Err(KernelError::ObjectNotFound);
            },
        };
        if account.controller_id != ctx.instruction.controller_id {
            return Err(KernelError::Unauthorized);
        }
        match AccountData::decode(account.data.as_slice()) {
            Some(d) => Ok((account, d)),
            None => Err(KernelError::InvalidData),
        }
    }

    fn finish(account: &UnitsObject, data: &AccountData) -> (r: Result<Vec<ObjectEffect>, KernelError>)
        ensures
            one_change(r, reencoded(*account, account_view(*data))),
    {
        match data.encode() {
            Some(bytes) => {
                let mut effects: Vec<ObjectEffect> = Vec::new();
                effects.push(modification_with(account, bytes));
                Ok(effects)
            },
            None => Err(KernelError::InvalidData),
        }
    }

    /// Update the username, display name and metadata given, on an active account.
    pub fn handle_update_account(ctx: &ExecutionContext) -> (r: Result<Vec<ObjectEffect>, KernelError>)
        ensures
            one_change(r, update_account_result(*ctx)),
    {
        let params = match UpdateAccountParams::decode(ctx.instruction.params.as_slice()) {
            Some(p) => p,
            None => {
                return Err(KernelError::InvalidParams);
            },
        };
        let (account, mut data) = match Self::controlled(ctx) {
            Ok(x) => x,
            Err(e) => {
                return Err(e);
            },
        };
        if !data.is_active {
            return Err(KernelError::InvalidParams);
        }
        match params.username {
            Some(u) => {
                if !validate_username(u.as_str()) {
                    return Err(KernelError::InvalidParams);
                }
                data.username = Some(u);
            },
            None => {},
        }
        match params.display_name {
            Some(d) => {
                data.display_name = d;
            },
            None => {},
        }
        match params.metadata {
            Some(m) => {
                data.metadata = m;
            },
            None => {},
        }
        data.updated_at = ctx.timestamp;
        Self::finish(account, &data)
    }

    /// Add a recovery address the account does not have yet.
    pub fn handle_add_recovery_address(ctx: &ExecutionContext) -> (r: Result<
        Vec<ObjectEffect>,
        KernelError,
    >)
        ensures
            one_change(r, add_recovery_result(*ctx)),
    {
        let params = match AddRecoveryAddressParams::decode(ctx.instruction.params.as_slice()) {
            Some(p) => p,
            None => {
                return Err(KernelError::InvalidParams);
            },
        };
        let (account, mut data) = match Self::controlled(ctx) {
            Ok(x) => x,
            Err(e) => {
                return Err(e);
            },
        };
        if contains_id(&data.recovery_addresses, &params.recovery_address) {
            return Err(KernelError::InvalidParams);
        }
        let ghost before = data.recovery_addresses@;
        data.recovery_addresses.push(params.recovery_address);
        proof {
            assert(ids_view(data.recovery_addresses@) =~= ids_view(before).push(
                params.recovery_address.bytes@,
            ));
        }
        data.updated_at = ctx.timestamp;
        Self::finish(account, &data)
    }

    /// Remove every occurrence of a recovery address the account has.
    pub fn handle_remove_recovery_address(ctx: &ExecutionContext) -> (r: Result<
        Vec<ObjectEffect>,
        KernelError,
    >)
        ensures
            one_change(r, remove_recovery_result(*ctx)),
    {
        let params = match RemoveRecoveryAddressParams::decode(ctx.instruction.params.as_slice()) {
            Some(p) => p,
            None => {
                return Err(KernelError::InvalidParams);
            },
        };
        let (account, mut data) = match Self::controlled(ctx) {
            Ok(x) => x,
            Err(e) => {
                return Err(e);
            },
        };
        let initial_len = data.recovery_addresses.len();
        let kept = remove_id(&data.recovery_addresses, &params.recovery_address);
        if kept.len() == initial_len {
            return Err(KernelError::InvalidParams);
        }
        data.recovery_addresses = kept;
        data.updated_at = ctx.timestamp;
        Self::finish(account, &data)
    }

    /// Deactivate an active account.
    pub fn handle_deactivate_account(ctx: &ExecutionContext) -> (r: Result<
        Vec<ObjectEffect>,
        KernelError,
    >)
        ensures
            one_change(r, deactivate_result(*ctx)),
    {
        if DeactivateAccountParams::decode(ctx.instruction.params.as_slice()).is_none() {
            return Err(KernelError::InvalidParams);
        }
        let (account, mut data) = match Self::controlled(ctx) {
            Ok(x) => x,
            Err(e) => {
                return Err(e);
            },
        };
        if !data.is_active {
            return Err(KernelError::InvalidParams);
        }
        data.is_active = false;
        data.updated_at = ctx.timestamp;
        Self::finish(account, &data)
    }

    /// Reactivate an inactive account, by its controller or a recovery address.
    pub fn handle_reactivate_account(ctx: &ExecutionContext) -> (r: Result<
        Vec<ObjectEffect>,
        KernelError,
    >)
        ensures
            one_change(r, reactivate_result(*ctx)),
    {
        if ReactivateAccountParams::decode(ctx.instruction.params.as_slice()).is_none() {
            return Err(KernelError::InvalidParams);
        }
        if ctx.instruction.target_objects.len() == 0 {
            return Err(KernelError::InvalidParams);
        }
        let account = match get_target(ctx, 0) {
            Some(o) => o,
            None => {
                return Err(KernelError::ObjectNotFound);
            },
        };
        let mut data = match AccountData::decode(account.data.as_slice()) {
            Some(d) => d,
            None => {
                return Err(KernelError::InvalidData);
            },
        };
        let is_authorized = account.controller_id == ctx.instruction.controller_id || contains_id(
            &data.recovery_addresses,
            &ctx.instruction.controller_id,
        );
        if !is_authorized {
            return Err(KernelError::Unauthorized);
        }
        if data.is_active {
            return Err(KernelError::InvalidParams);
        }
        data.is_active = true;
        data.updated_at = ctx.timestamp;
        Self::finish(account, &data)
    }

    /// Check that the account exists; reading changes nothing.
    pub fn handle_get_account(ctx: &ExecutionContext) -> (r: Result<Vec<ObjectEffect>, KernelError>)
        ensures
            ctx.instruction.target_objects@.len() == 0 ==> r == Err::<Vec<ObjectEffect>, KernelError>(
                KernelError::InvalidParams,
            ),
            ctx.instruction.target_objects@.len() > 0 ==> match target_object(*ctx, 0) {
                None => r == Err::<Vec<ObjectEffect>, KernelError>(KernelError::ObjectNotFound),
                Some(_) => r matches Ok(v) && v@.len() == 0,
            },
    {
        if ctx.instruction.target_objects.len() == 0 {
            return Err(KernelError::InvalidParams);
        }
        match get_target(ctx, 0) {
            Some(_) => Ok(Vec::new()),
            None => Err(KernelError::ObjectNotFound),
        }
    }
}

/// `name` is one of the account module's function names.
pub open spec fn account_function_name(name: Seq<char>) -> bool {
    name == "create_account"@ || name == "update_account"@ || name == "add_recovery_address"@
        || name == "remove_recovery_address"@ || name == "deactivate_account"@ || name
        == "reactivate_account"@ || name == "get_account"@
}

impl AccountModule {
    /// Run the function named by the instruction; an unknown name is refused.
    pub fn execute(ctx: &ExecutionContext) -> (r: Result<Vec<ObjectEffect>, KernelError>)
        ensures
            ctx.instruction.target_function@ == "create_account"@ ==> match create_account_result(
                *ctx,
            ) {
                Err(e) => r == Err::<Vec<ObjectEffect>, KernelError>(e),
                Ok(d) => r matches Ok(v) && v@.len() == 1 && creates(
                    v@[0],
                    ctx.instruction.target_objects@[0],
                    ctx.instruction.controller_id,
                    d,
                ),
            },
            ctx.instruction.target_function@ == "update_account"@ ==> one_change(
                r,
                update_account_result(*ctx),
            ),
            ctx.instruction.target_function@ == "add_recovery_address"@ ==> one_change(
                r,
                add_recovery_result(*ctx),
            ),
            ctx.instruction.target_function@ == "remove_recovery_address"@ ==> one_change(
                r,
                remove_recovery_result(*ctx),
            ),
            ctx.instruction.target_function@ == "deactivate_account"@ ==> one_change(
                r,
                deactivate_result(*ctx),
            ),
            ctx.instruction.target_function@ == "reactivate_account"@ ==> one_change(
                r,
                reactivate_result(*ctx),
            ),
            ctx.instruction.target_function@ == "get_account"@ ==> (r is Ok ==> r->Ok_0@.len() == 0),
            !account_function_name(ctx.instruction.target_function@) ==> r
                == Err::<Vec<ObjectEffect>, KernelError>(KernelError::InvalidFunction),
    {
        let f = &ctx.instruction.target_function;
        proof {
            reveal_strlit("create_account");
            reveal_strlit("update_account");
            reveal_strlit("add_recovery_address");
            reveal_strlit("remove_recovery_address");
            reveal_strlit("deactivate_account");
            reveal_strlit("reactivate_account");
            reveal_strlit("get_account");
            assert("create_account"@[0] == 'c' && "update_account"@[0] == 'u'
                && "add_recovery_address"@[0] == 'a' && "remove_recovery_address"@[0] == 'r'
                && "remove_recovery_address"@[2] == 'm' && "deactivate_account"@[0] == 'd'
                && "reactivate_account"@[0] == 'r' && "reactivate_account"@[2] == 'a'
                && "get_account"@[0] == 'g');
        }
        if names(f, "create_account") {
            Self::handle_create_account(ctx)
        } else if names(f, "update_account") {
            Self::handle_update_account(ctx)
        } else if names(f, "add_recovery_address") {
            Self::handle_add_recovery_address(ctx)
        } else if names(f, "remove_recovery_address") {
            Self::handle_remove_recovery_address(ctx)
        } else if names(f, "deactivate_account") {
            Self::handle_deactivate_account(ctx)
        } else if names(f, "reactivate_account") {
            Self::handle_reactivate_account(ctx)
        } else if names(f, "get_account") {
            Self::handle_get_account(ctx)
        } else {
            Err(KernelError::InvalidFunction)
        }
    }
}

#[verifier::spinoff_prover]
#[verifier::rlimit(40)]
pub(crate) proof fn lemma_meta_items_round_trip(m: MetaView, pre: Seq<u8>, post: Seq<u8>)
    requires
        forall|i: int| 0 <= i < m.len() ==> string_fits((#[trigger] m[i]).0) && string_fits(m[i].1),
    ensures
        take_meta_items(pre + meta_items_bytes(m) + post, pre.len() as int, m.len()) == Some(
            (m, (pre.len() + meta_items_bytes(m).len()) as int),
        ),
    decreases m.len(),
{
    let b = pre + meta_items_bytes(m) + post;
    if m.len() == 0 {
        assert(m =~= Seq::<(Seq<char>, Seq<char>)>::empty());
    } else {
        let m2 = m.drop_last();
        let (k, v) = m.last();
        assert(string_fits(m[m.len() - 1].0) && string_fits(m[m.len() - 1].1));
        let rest = string_bytes(k) + string_bytes(v) + post;
        assert forall|i: int| 0 <= i < m2.len() implies string_fits((#[trigger] m2[i]).0)
            && string_fits(m2[i].1) by {
            assert(m2[i] == m[i]);
        }
        lemma_meta_items_round_trip(m2, pre, rest);
        assert(pre + meta_items_bytes(m2) + rest =~= b);
        let q = pre + meta_items_bytes(m2);
        lemma_string_round_trip(k, q, string_bytes(v) + post);
        assert(q + string_bytes(k) + (string_bytes(v) + post) =~= b);
        lemma_string_round_trip(v, q + string_bytes(k), post);
        assert(q + string_bytes(k) + string_bytes(v) + post =~= b);
        assert(m2.push((k, v)) =~= m);
    }
}

pub(crate) proof fn lemma_id_items_round_trip(s: Seq<Seq<u8>>, pre: Seq<u8>, post: Seq<u8>)
    requires
        forall|i: int| 0 <= i < s.len() ==> (#[trigger] s[i]).len() == 32,
    ensures
        take_id_items(pre + id_items_bytes(s) + post, pre.len() as int, s.len()) == Some(
            (s, (pre.len() + id_items_bytes(s).len()) as int),
        ),
    decreases s.len(),
{
    let b = pre + id_items_bytes(s) + post;
    if s.len() == 0 {
        assert(s =~= Seq::<Seq<u8>>::empty());
    } else {
        let s2 = s.drop_last();
        let x = s.last();
        assert(s[s.len() - 1].len() == 32);
        assert forall|i: int| 0 <= i < s2.len() implies (#[trigger] s2[i]).len() == 32 by {
            assert(s2[i] == s[i]);
        }
        lemma_id_items_round_trip(s2, pre, x + post);
        assert(pre + id_items_bytes(s2) + (x + post) =~= b);
        let q = pre + id_items_bytes(s2);
        assert(b.subrange(q.len() as int, q.len() + 32int) =~= x);
        assert(s2.push(x) =~= s);
    }
}

pub(crate) proof fn lemma_u32_at(n: u32, pre: Seq<u8>, post: Seq<u8>)
    ensures
        take_u32(pre + le32(n) + post, pre.len() as int) == Some((n, pre.len() + 4int)),
        le32(n).len() == 4,
{
    vstd::bytes::lemma_auto_spec_u32_to_from_le_bytes();
    assert((pre + le32(n) + post).subrange(pre.len() as int, pre.len() + 4int) =~= le32(n));
}

spec fn upto_user(v: AccountView) -> Seq<u8> {
    v.0 + opt_string_bytes(v.1)
}

spec fn upto_display(v: AccountView) -> Seq<u8> {
    upto_user(v) + string_bytes(v.2)
}

spec fn upto_meta(v: AccountView) -> Seq<u8> {
    upto_display(v) + meta_bytes(v.3)
}

spec fn upto_updated(v: AccountView) -> Seq<u8> {
    upto_meta(v) + bool_bytes(v.4) + le64(v.5) + le64(v.6)
}

proof fn lemma_account_layout(v: AccountView)
    ensures
        account_bytes(v) =~= upto_updated(v) + ids_bytes(v.7),
        upto_updated(v) =~= upto_meta(v) + (bool_bytes(v.4) + le64(v.5) + le64(v.6)),
{
}

proof fn lemma_account_user(v: AccountView)
    requires
        account_fits(v),
        v.0.len() == 32,
    ensures
        take_id(account_bytes(v), 0) == Some((v.0, 32int)),
        take_opt_string(account_bytes(v), 32) == Some((v.1, upto_user(v).len() as int)),
{
    let b = account_bytes(v);
    let rest = string_bytes(v.2) + meta_bytes(v.3) + bool_bytes(v.4) + le64(v.5) + le64(v.6)
        + ids_bytes(v.7);
    assert(b =~= upto_user(v) + rest);
    assert(b.subrange(0, 32) =~= v.0);
    match v.1 {
        Some(u) => {
            assert(b[32] == 1u8);
            lemma_string_round_trip(u, v.0 + seq![1u8], rest);
            assert(v.0 + seq![1u8] + string_bytes(u) + rest =~= b);
        },
        None => {
            assert(b[32] == 0u8);
        },
    }
}

proof fn lemma_account_display(v: AccountView)
    requires
        account_fits(v),
    ensures
        take_string(account_bytes(v), upto_user(v).len() as int) == Some(
            (v.2, upto_display(v).len() as int),
        ),
{
    let b = account_bytes(v);
    let rest = meta_bytes(v.3) + bool_bytes(v.4) + le64(v.5) + le64(v.6) + ids_bytes(v.7);
    lemma_string_round_trip(v.2, upto_user(v), rest);
    assert(upto_user(v) + string_bytes(v.2) + rest =~= b);
}

proof fn lemma_account_meta(v: AccountView)
    requires
        account_fits(v),
    ensures
        take_meta(account_bytes(v), upto_display(v).len() as int) == Some(
            (v.3, upto_meta(v).len() as int),
        ),
{
    let b = account_bytes(v);
    let rest = bool_bytes(v.4) + le64(v.5) + le64(v.6) + ids_bytes(v.7);
    let d = upto_display(v);
    let n = v.3.len() as u32;
    lemma_u32_at(n, d, meta_items_bytes(v.3) + rest);
    assert(d + le32(n) + (meta_items_bytes(v.3) + rest) =~= b);
    lemma_meta_items_round_trip(v.3, d + le32(n), rest);
    assert(d + le32(n) + meta_items_bytes(v.3) + rest =~= b);
}

proof fn lemma_account_tail(v: AccountView)
    requires
        account_fits(v),
        forall|i: int| 0 <= i < v.7.len() ==> (#[trigger] v.7[i]).len() == 32,
    ensures
        take_bool(account_bytes(v), upto_meta(v).len() as int) == Some(
            (v.4, upto_meta(v).len() + 1int),
        ),
        take_u64(account_bytes(v), upto_meta(v).len() + 1int) == Some(
            (v.5, upto_meta(v).len() + 9int),
        ),
        take_u64(account_bytes(v), upto_meta(v).len() + 9int) == Some(
            (v.6, upto_updated(v).len() as int),
        ),
        take_ids(account_bytes(v), upto_updated(v).len() as int) == Some(
            (v.7, account_bytes(v).len() as int),
        ),
{
    let b = account_bytes(v);
    let m = upto_meta(v);
    lemma_account_layout(v);
    assert(b =~= m + bool_bytes(v.4) + le64(v.5) + (le64(v.6) + ids_bytes(v.7)));
    assert(b[m.len() as int] == bool_bytes(v.4)[0]);
    lemma_u64_round_trip(v.5, m + bool_bytes(v.4), le64(v.6) + ids_bytes(v.7));
    lemma_u64_round_trip(v.6, m + bool_bytes(v.4) + le64(v.5), ids_bytes(v.7));
    assert(m + bool_bytes(v.4) + le64(v.5) + le64(v.6) + ids_bytes(v.7) =~= b);
    let u = upto_updated(v);
    let n = v.7.len() as u32;
    lemma_u32_at(n, u, id_items_bytes(v.7));
    assert(u + le32(n) + id_items_bytes(v.7) =~= b);
    lemma_id_items_round_trip(v.7, u + le32(n), Seq::empty());
    assert(u + le32(n) + id_items_bytes(v.7) + Seq::<u8>::empty() =~= b);
}

/// Decoding an account's encoding gives it back.
pub proof fn lemma_account_round_trip(v: AccountView)
    requires
        account_fits(v),
        v.0.len() == 32,
        forall|i: int| 0 <= i < v.7.len() ==> (#[trigger] v.7[i]).len() == 32,
    ensures
        parse_account(account_bytes(v)) == Some(v),
{
    lemma_account_user(v);
    lemma_account_display(v);
    lemma_account_meta(v);
    lemma_account_tail(v);
}

proof fn lemma_without_absent(s: Seq<Seq<u8>>, x: Seq<u8>)
    requires
        !s.contains(x),
    ensures
        without(s, x) == s,
    decreases s.len(),
{
    if s.len() > 0 {
        assert(!s.drop_last().contains(x)) by {
            if s.drop_last().contains(x) {
                let k = choose|k: int| 0 <= k < s.drop_last().len() && s.drop_last()[k] == x;
                assert(s[k] == x);
            }
        }
        lemma_without_absent(s.drop_last(), x);
        assert(s.last() != x) by {
            assert(s[s.len() - 1] == s.last());
        }
        assert(s.drop_last().push(s.last()) =~= s);
    }
}

/// Removing a recovery address just added, that the account did not have,
/// restores the recovery addresses.
pub proof fn lemma_add_then_remove_restores(s: Seq<Seq<u8>>, x: Seq<u8>)
    requires
        !s.contains(x),
    ensures
        without(s.push(x), x) == s,
{
    assert(s.push(x).drop_last() =~= s);
    lemma_without_absent(s, x);
}

/// No one but an account's controller updates it, changes its recovery
/// addresses or deactivates it.
pub proof fn lemma_only_controller_modifies(ctx: ExecutionContext)
    requires
        ctx.instruction.target_objects@.len() > 0,
        target_object(ctx, 0) matches Some(acc) && acc.controller_id != ctx.instruction.controller_id,
    ensures
        update_account_result(ctx) is Err,
        add_recovery_result(ctx) is Err,
        remove_recovery_result(ctx) is Err,
        deactivate_result(ctx) is Err,
{
}

/// A recovery address of an inactive account may reactivate it: the outcome, if
/// the account can be re-encoded, is the account made active.
pub proof fn lemma_recovery_address_reactivates(ctx: ExecutionContext)
    requires
        parse_reactivate_params(ctx.instruction.params@) is Some,
        ctx.instruction.target_objects@.len() > 0,
        target_object(ctx, 0) matches Some(acc) && parse_account(acc.data@) matches Some(a) && !a.4
            && a.7.contains(ctx.instruction.controller_id.bytes@) && account_fits(
            (a.0, a.1, a.2, a.3, true, a.5, ctx.timestamp, a.7),
        ),
    ensures
        reactivate_result(ctx) matches Ok((acc, d)) && parse_account(d) matches Some(b) && b.4,
{
    let acc = target_object(ctx, 0)->Some_0;
    let a = parse_account(acc.data@)->Some_0;
    lemma_parsed_account_ids(acc.data@);
    lemma_account_round_trip((a.0, a.1, a.2, a.3, true, a.5, ctx.timestamp, a.7));
}

/// The identifiers of a decoded account are 32 bytes long.
pub proof fn lemma_parsed_account_ids(b: Seq<u8>)
    requires
        parse_account(b) is Some,
    ensures
        parse_account(b)->Some_0.0.len() == 32,
        forall|i: int|
            0 <= i < parse_account(b)->Some_0.7.len() ==> (#[trigger] parse_account(b)->Some_0.7[i]).len()
                == 32,
{
    let a = parse_account(b)->Some_0;
    let p7 = take_u64(b, take_u64(b, take_bool(b, take_meta(b, take_string(b, take_opt_string(b,
        32)->Some_0.1)->Some_0.1)->Some_0.1)->Some_0.1)->Some_0.1)->Some_0.1;
    let n = take_u32(b, p7)->Some_0;
    lemma_id_items_len(b, n.1, n.0 as nat);
}

pub(crate) proof fn lemma_id_items_len(b: Seq<u8>, pos: int, n: nat)
    requires
        take_id_items(b, pos, n) is Some,
    ensures
        forall|i: int|
            0 <= i < take_id_items(b, pos, n)->Some_0.0.len() ==> (#[trigger] take_id_items(
                b,
                pos,
                n,
            )->Some_0.0[i]).len() == 32,
        take_id_items(b, pos, n)->Some_0.0.len() == n,
    decreases n,
{
    if n > 0 {
        lemma_id_items_len(b, pos, (n - 1) as nat);
        let (s, p) = take_id_items(b, pos, (n - 1) as nat)->Some_0;
        let (id, q) = take_id(b, p)->Some_0;
        assert forall|i: int| 0 <= i < s.push(id).len() implies (#[trigger] s.push(id)[i]).len()
            == 32 by {
            if i < s.len() {
                assert(s.push(id)[i] == s[i]);
            }
        }
    }
}

/// A successful deactivation writes the account back inactive and updated at
/// the timestamp, all else kept: the after-image decodes to exactly that.
pub proof fn lemma_deactivate_clears_active(ctx: ExecutionContext)
    ensures
        deactivate_result(ctx) matches Ok((acc, d)) ==> {
            &&& parse_account(acc.data@) matches Some(a)
            &&& a.4
            &&& parse_account(d) == Some((a.0, a.1, a.2, a.3, false, a.5, ctx.timestamp, a.7))
        },
{
    if let Ok((acc, d)) = deactivate_result(ctx) {
        let a = parse_account(acc.data@)->Some_0;
        lemma_parsed_account_ids(acc.data@);
        lemma_account_round_trip((a.0, a.1, a.2, a.3, false, a.5, ctx.timestamp, a.7));
    }
}

/// A successful reactivation writes the account back active and updated at the
/// timestamp, all else kept: the after-image decodes to exactly that.
pub proof fn lemma_reactivate_sets_active(ctx: ExecutionContext)
    ensures
        reactivate_result(ctx) matches Ok((acc, d)) ==> {
            &&& parse_account(acc.data@) matches Some(a)
            &&& !a.4
            &&& parse_account(d) == Some((a.0, a.1, a.2, a.3, true, a.5, ctx.timestamp, a.7))
        },
{
    if let Ok((acc, d)) = reactivate_result(ctx) {
        let a = parse_account(acc.data@)->Some_0;
        lemma_parsed_account_ids(acc.data@);
        lemma_account_round_trip((a.0, a.1, a.2, a.3, true, a.5, ctx.timestamp, a.7));
    }
}

} // verus!
