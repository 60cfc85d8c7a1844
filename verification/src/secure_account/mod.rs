//! Accounts whose operations are authenticated: an account module whose
//! updates are signed by the controller, and one whose operations carry
//! credentials checked against authentication policies.
pub mod codec;
pub mod params;
pub mod module;
pub mod enhanced;

use vstd::prelude::*;
use vstd::utf8::encode_utf8;
use crate::account::{meta_view, AccountMetadata as MetaEntry, MetaView};
use crate::auth::{AuthCredential, AuthFactor, SignatureType};
use crate::crypto::Signature;
use crate::id::UnitsObjectId;

verus! {

/// Name of the account module.
pub const MODULE_NAME: &'static str = "account";

/// Version of the account module.
pub const MODULE_VERSION: &'static str = "0.1.0";

pub const FN_CREATE_ACCOUNT: &'static str = "create_account";
pub const FN_UPDATE_ACCOUNT: &'static str = "update_account";
pub const FN_ADD_RECOVERY_ADDRESS: &'static str = "add_recovery_address";
pub const FN_REMOVE_RECOVERY_ADDRESS: &'static str = "remove_recovery_address";
pub const FN_DEACTIVATE_ACCOUNT: &'static str = "deactivate_account";
pub const FN_REACTIVATE_ACCOUNT: &'static str = "reactivate_account";
pub const FN_GET_ACCOUNT: &'static str = "get_account";
pub const FN_FLEX_CREATE_ACCOUNT: &'static str = "flex_create_account";
pub const FN_FLEX_UPDATE_ACCOUNT: &'static str = "flex_update_account";
pub const FN_FLEX_ADD_RECOVERY_ADDRESS: &'static str = "flex_add_recovery_address";
pub const FN_FLEX_REMOVE_RECOVERY_ADDRESS: &'static str = "flex_remove_recovery_address";
pub const FN_FLEX_DEACTIVATE_ACCOUNT: &'static str = "flex_deactivate_account";
pub const FN_FLEX_REACTIVATE_ACCOUNT: &'static str = "flex_reactivate_account";

pub const ERROR_INVALID_USERNAME: u32 = 1001;
pub const ERROR_ACCOUNT_NOT_FOUND: u32 = 1002;
pub const ERROR_UNAUTHORIZED: u32 = 1003;
pub const ERROR_ACCOUNT_INACTIVE: u32 = 1004;
pub const ERROR_RECOVERY_ADDRESS_EXISTS: u32 = 1005;
pub const ERROR_RECOVERY_ADDRESS_NOT_FOUND: u32 = 1006;
pub const ERROR_INVALID_RECOVERY_ADDRESS: u32 = 1007;
pub const ERROR_ACCOUNT_ALREADY_ACTIVE: u32 = 1008;
pub const ERROR_SERIALIZATION_FAILED: u32 = 1009;
pub const ERROR_SIGNATURE_VERIFICATION_FAILED: u32 = 1010;
pub const ERROR_INVALID_SIGNATURE: u32 = 1011;
pub const ERROR_MISSING_SIGNATURE: u32 = 1012;

/// Strict order on byte strings, as slices compare: at the first difference,
/// or a proper prefix first.
pub open spec fn bytes_lt(a: Seq<u8>, b: Seq<u8>) -> bool
    decreases a.len(),
{
    if b.len() == 0 {
        false
    } else if a.len() == 0 {
        true
    } else if a[0] != b[0] {
        a[0] < b[0]
    } else {
        bytes_lt(a.drop_first(), b.drop_first())
    }
}

/// Keys are ordered by their UTF-8 bytes, as strings compare.
pub open spec fn key_lt(a: Seq<char>, b: Seq<char>) -> bool {
    bytes_lt(encode_utf8(a), encode_utf8(b))
}

/// Whether `a` comes before `b` in the string order.
pub fn string_lt(a: &String, b: &String) -> (r: bool)
    ensures
        r == key_lt(a@, b@),
{
    let x = a.as_str().as_bytes();
    let y = b.as_str().as_bytes();
    let mut i: usize = 0;
    assert(x@.skip(0) =~= x@);
    assert(y@.skip(0) =~= y@);
    while i < x.len() && i < y.len()
        invariant
            i <= x@.len(),
            i <= y@.len(),
            x@ == encode_utf8(a@),
            y@ == encode_utf8(b@),
            bytes_lt(x@, y@) == bytes_lt(x@.skip(i as int), y@.skip(i as int)),
        decreases x@.len() - i,
    {
        let p = x[i];
        let q = y[i];
        proof {
            let sx = x@.skip(i as int);
            let sy = y@.skip(i as int);
            assert(sx[0] == p && sy[0] == q);
            assert(sx.drop_first() =~= x@.skip(i + 1));
            assert(sy.drop_first() =~= y@.skip(i + 1));
        }
        if p != q {
            return p < q;
        }
        i = i + 1;
    }
    i < y.len()
}

/// `m` with `value` at `key`: the entry with that key replaced, or a new entry
/// placed before the first larger key.
pub open spec fn meta_insert(m: MetaView, key: Seq<char>, value: Seq<char>) -> MetaView
    decreases m.len(),
{
    if m.len() == 0 {
        seq![(key, value)]
    } else if m[0].0 == key {
        seq![(key, value)] + m.drop_first()
    } else if key_lt(key, m[0].0) {
        seq![(key, value)] + m
    } else {
        seq![m[0]] + meta_insert(m.drop_first(), key, value)
    }
}

/// The metadata a list of entries makes, later entries replacing earlier ones
/// with the same key.
pub open spec fn meta_from_entries(s: MetaView) -> MetaView
    decreases s.len(),
{
    if s.len() == 0 {
        Seq::empty()
    } else {
        meta_insert(meta_from_entries(s.drop_last()), s.last().0, s.last().1)
    }
}

proof fn lemma_meta_insert_skip(m: MetaView, key: Seq<char>, value: Seq<char>, i: int)
    requires
        0 <= i < m.len(),
        m[i].0 != key,
        !key_lt(key, m[i].0),
    ensures
        meta_insert(m.skip(i), key, value) == seq![m[i]] + meta_insert(m.skip(i + 1), key, value),
{
    let s = m.skip(i);
    assert(s[0] == m[i]);
    assert(s.drop_first() =~= m.skip(i + 1));
}

/// Account metadata: key/value strings with distinct keys, kept in the order
/// of their keys.
#[derive(Debug, Clone)]
pub struct MetadataMap {
    entries: Vec<MetaEntry>,
}

impl View for MetadataMap {
    type V = MetaView;

    closed spec fn view(&self) -> MetaView {
        meta_view(self.entries@)
    }
}

impl MetadataMap {
    /// No metadata.
    pub fn new() -> (m: Self)
        ensures
            m@ == Seq::<(Seq<char>, Seq<char>)>::empty(),
    {
        let m = MetadataMap { entries: Vec::new() };
        assert(m@ =~= Seq::<(Seq<char>, Seq<char>)>::empty());
        m
    }

    /// Number of entries.
    pub fn len(&self) -> (n: usize)
        ensures
            n == self@.len(),
    {
        self.entries.len()
    }

    /// The entry at position `i`, in key order.
    pub fn entry(&self, i: usize) -> (r: (&String, &String))
        requires
            i < self@.len(),
        ensures
            r.0@ == self@[i as int].0,
            r.1@ == self@[i as int].1,
    {
        (&self.entries[i].key, &self.entries[i].value)
    }

    /// The value at `key`, if any.
    pub fn get(&self, key: &str) -> (r: Option<&String>)
        ensures
            match r {
                Some(v) => exists|i: int| 0 <= i < self@.len() && self@[i].0 == key@ && self@[i].1 == v@,
                None => forall|i: int| 0 <= i < self@.len() ==> self@[i].0 != key@,
            },
    {
        let k = key.to_owned();
        let mut i: usize = 0;
        while i < self.entries.len()
            invariant
                i <= self@.len(),
                k@ == key@,
                forall|j: int| 0 <= j < i ==> self@[j].0 != key@,
            decreases self@.len() - i,
        {
            if self.entries[i].key == k {
                assert(self@[i as int].0 == key@);
                return Some(&self.entries[i].value);
            }
            i = i + 1;
        }
        None
    }

    /// Set `key` to `value`.
    pub fn insert(&mut self, key: String, value: String)
        ensures
            final(self)@ == meta_insert(old(self)@, key@, value@),
    {
        let ghost m = old(self)@;
        let mut i: usize = 0;
        assert(m.skip(0) =~= m);
        assert(m.take(0) + m =~= m);
        while i < self.entries.len()
            invariant
                i <= self@.len(),
                self@ == m,
                m == old(self)@,
                meta_insert(m, key@, value@) == m.take(i as int) + meta_insert(m.skip(i as int), key@, value@),
            decreases self@.len() - i,
        {
            assert(m[i as int] == (self.entries@[i as int].key@, self.entries@[i as int].value@));
            if self.entries[i].key == key {
                proof {
                    let s = m.skip(i as int);
                    assert(s[0] == m[i as int]);
                    assert(s.drop_first() =~= m.skip(i + 1));
                    assert(meta_insert(s, key@, value@) == seq![(key@, value@)] + s.drop_first());
                }
                self.entries.set(i, MetaEntry { key, value });
                proof {
                    let s = m.skip(i as int);
                    assert(self@ =~= m.take(i as int) + (seq![(key@, value@)] + m.skip(i + 1)));
                    assert(meta_insert(m, key@, value@) == m.take(i as int) + meta_insert(s, key@, value@));
                    assert(meta_insert(s, key@, value@) == seq![(key@, value@)] + m.skip(i + 1));
                }
                return;
            }
            if string_lt(&key, &self.entries[i].key) {
                proof {
                    let s = m.skip(i as int);
                    assert(s[0] == m[i as int]);
                    assert(meta_insert(s, key@, value@) == seq![(key@, value@)] + s);
                }
                self.entries.insert(i, MetaEntry { key, value });
                proof {
                    let s = m.skip(i as int);
                    assert(self@ =~= m.take(i as int) + (seq![(key@, value@)] + m.skip(i as int)));
                    assert(meta_insert(m, key@, value@) == m.take(i as int) + meta_insert(s, key@, value@));
                    assert(meta_insert(s, key@, value@) == seq![(key@, value@)] + s);
                }
                return;
            }
            proof {
                lemma_meta_insert_skip(m, key@, value@, i as int);
                assert(m.take(i as int) + seq![m[i as int]] =~= m.take(i + 1));
            }
            i = i + 1;
        }
        proof {
            assert(m.skip(i as int) =~= Seq::<(Seq<char>, Seq<char>)>::empty());
            assert(m.take(i as int) =~= m);
        }
        self.entries.push(MetaEntry { key, value });
        assert(self@ =~= m + seq![(key@, value@)]);
    }

    /// Append the encoding of the entries to `v`, unless a count or a length
    /// does not fit in 32 bits.
    pub(crate) fn write_to(&self, v: &mut Vec<u8>) -> (ok: bool)
        ensures
            ok == crate::account::meta_fits(self@),
            ok ==> final(v)@ == old(v)@ + crate::account::meta_bytes(self@),
    {
        crate::account::write_meta(v, &self.entries)
    }

    /// The metadata of a list of entries, later entries replacing earlier ones
    /// with the same key.
    pub fn from_entries(entries: Vec<MetaEntry>) -> (m: Self)
        ensures
            m@ == meta_from_entries(meta_view(entries@)),
    {
        let ghost all = meta_view(entries@);
        let mut m = MetadataMap::new();
        let mut rest = entries;
        let ghost mut i: int = 0;
        while rest.len() > 0
            invariant
                0 <= i <= all.len(),
                meta_view(rest@) == all.skip(i),
                m@ == meta_from_entries(all.take(i)),
            decreases rest@.len(),
        {
            let ghost before = rest@;
            let e = rest.remove(0);
            proof {
                assert(meta_view(before).len() == before.len());
                assert(meta_view(before)[0] == (e.key@, e.value@));
                assert(all.skip(i)[0] == (e.key@, e.value@));
                assert(all.take(i + 1).drop_last() =~= all.take(i));
                assert(all.take(i + 1).last() == (e.key@, e.value@));
                assert(rest@ =~= before.skip(1));
                assert(meta_view(rest@) =~= meta_view(before).skip(1));
                assert(meta_view(rest@) =~= all.skip(i + 1));
            }
            m.insert(e.key, e.value);
            proof {
                i = i + 1;
            }
        }
        proof {
            assert(all.take(i) =~= all);
        }
        m
    }
}

/// Account metadata helper.
#[derive(Debug, Clone)]
pub struct AccountMetadata {
    pub entries: MetadataMap,
}

/// The fields of an account: identifier bytes, username, display name,
/// metadata, active flag, recovery identifier bytes, creation and update times.
pub struct AccountView {
    pub id: Seq<u8>,
    pub username: Option<Seq<char>>,
    pub display_name: Option<Seq<char>>,
    pub metadata: MetaView,
    pub is_active: bool,
    pub recovery: Seq<Seq<u8>>,
    pub created_at: u64,
    pub updated_at: u64,
}

/// An account.
#[derive(Debug, Clone)]
pub struct AccountData {
    pub account_id: UnitsObjectId,
    pub username: Option<String>,
    pub display_name: Option<String>,
    pub metadata: MetadataMap,
    pub is_active: bool,
    pub recovery_addresses: Vec<UnitsObjectId>,
    pub created_at: u64,
    pub updated_at: u64,
}

impl View for AccountData {
    type V = AccountView;

    open spec fn view(&self) -> AccountView {
        AccountView {
            id: self.account_id.bytes@,
            username: crate::account::opt_string_view(self.username),
            display_name: crate::account::opt_string_view(self.display_name),
            metadata: self.metadata@,
            is_active: self.is_active,
            recovery: crate::account::ids_view(self.recovery_addresses@),
            created_at: self.created_at,
            updated_at: self.updated_at,
        }
    }
}

/// A fresh account: no names, no metadata, active, no recovery addresses,
/// created and updated at `created_at`.
pub open spec fn fresh_account(id: Seq<u8>, created_at: u64) -> AccountView {
    AccountView {
        id,
        username: None,
        display_name: None,
        metadata: Seq::empty(),
        is_active: true,
        recovery: Seq::empty(),
        created_at,
        updated_at: created_at,
    }
}

impl AccountData {
    /// A fresh account.
    pub fn new(account_id: UnitsObjectId, created_at: u64) -> (r: Self)
        ensures
            r@ == fresh_account(account_id.bytes@, created_at),
    {
        let r = AccountData {
            account_id,
            username: None,
            display_name: None,
            metadata: MetadataMap::new(),
            is_active: true,
            recovery_addresses: Vec::new(),
            created_at,
            updated_at: created_at,
        };
        assert(r@.recovery =~= Seq::<Seq<u8>>::empty());
        r
    }

    /// The account with this username.
    pub fn with_username(self, username: String) -> (r: Self)
        ensures
            r@ == (AccountView { username: Some(username@), ..self@ }),
    {
        AccountData { username: Some(username), ..self }
    }

    /// The account with this display name.
    pub fn with_display_name(self, display_name: String) -> (r: Self)
        ensures
            r@ == (AccountView { display_name: Some(display_name@), ..self@ }),
    {
        AccountData { display_name: Some(display_name), ..self }
    }

    /// The account with this metadata.
    pub fn with_metadata(self, metadata: MetadataMap) -> (r: Self)
        ensures
            r@ == (AccountView { metadata: metadata@, ..self@ }),
    {
        AccountData { metadata, ..self }
    }

    /// The account with these recovery addresses.
    pub fn with_recovery_addresses(self, addresses: Vec<UnitsObjectId>) -> (r: Self)
        ensures
            r@ == (AccountView { recovery: crate::account::ids_view(addresses@), ..self@ }),
    {
        AccountData { recovery_addresses: addresses, ..self }
    }
}

/// The fields of an account with an authentication policy: the account's, the
/// serialized policy and the supported authentication factors.
pub struct EnhancedView {
    pub account: AccountView,
    pub auth_policy: Option<Seq<u8>>,
    pub factors: Seq<AuthFactor>,
}

/// An account with an authentication policy.
#[derive(Debug, Clone)]
pub struct EnhancedAccountData {
    pub account_id: UnitsObjectId,
    pub username: Option<String>,
    pub display_name: Option<String>,
    pub metadata: MetadataMap,
    pub is_active: bool,
    pub recovery_addresses: Vec<UnitsObjectId>,
    pub created_at: u64,
    pub updated_at: u64,
    /// Custom authentication policy for this account (serialized)
    pub auth_policy: Option<Vec<u8>>,
    /// Supported authentication factors for this account
    pub supported_auth_factors: Vec<AuthFactor>,
}

/// The view of optional bytes.
pub open spec fn opt_bytes_view(o: Option<Vec<u8>>) -> Option<Seq<u8>> {
    match o {
        Some(v) => Some(v@),
        None => None,
    }
}

impl View for EnhancedAccountData {
    type V = EnhancedView;

    open spec fn view(&self) -> EnhancedView {
        EnhancedView {
            account: AccountView {
                id: self.account_id.bytes@,
                username: crate::account::opt_string_view(self.username),
                display_name: crate::account::opt_string_view(self.display_name),
                metadata: self.metadata@,
                is_active: self.is_active,
                recovery: crate::account::ids_view(self.recovery_addresses@),
                created_at: self.created_at,
                updated_at: self.updated_at,
            },
            auth_policy: opt_bytes_view(self.auth_policy),
            factors: self.supported_auth_factors@,
        }
    }
}

impl EnhancedAccountData {
    /// A fresh account with no policy, supporting Ed25519 signatures.
    pub fn new(account_id: UnitsObjectId, created_at: u64) -> (r: Self)
        ensures
            r@ == (EnhancedView {
                account: fresh_account(account_id.bytes@, created_at),
                auth_policy: None,
                factors: seq![AuthFactor::Signature(SignatureType::Ed25519)],
            }),
    {
        let r = EnhancedAccountData {
            account_id,
            username: None,
            display_name: None,
            metadata: MetadataMap::new(),
            is_active: true,
            recovery_addresses: Vec::new(),
            created_at,
            updated_at: created_at,
            auth_policy: None,
            supported_auth_factors: vec![AuthFactor::Signature(SignatureType::Ed25519)],
        };
        assert(r@.account.recovery =~= Seq::<Seq<u8>>::empty());
        assert(r@.account == fresh_account(account_id.bytes@, created_at));
        assert(r@.factors =~= seq![AuthFactor::Signature(SignatureType::Ed25519)]);
        r
    }

    /// The account with this serialized policy.
    pub fn with_auth_policy(self, policy_bytes: Vec<u8>) -> (r: Self)
        ensures
            r@ == (EnhancedView { auth_policy: Some(policy_bytes@), ..self@ }),
    {
        EnhancedAccountData { auth_policy: Some(policy_bytes), ..self }
    }

    /// The account with these supported factors.
    pub fn with_supported_factors(self, factors: Vec<AuthFactor>) -> (r: Self)
        ensures
            r@ == (EnhancedView { factors: factors@, ..self@ }),
    {
        EnhancedAccountData { supported_auth_factors: factors, ..self }
    }

    /// The account with this username.
    pub fn with_username(self, username: String) -> (r: Self)
        ensures
            r@ == (EnhancedView { account: AccountView { username: Some(username@), ..self@.account }, ..self@ }),
    {
        EnhancedAccountData { username: Some(username), ..self }
    }

    /// The account with this display name.
    pub fn with_display_name(self, display_name: String) -> (r: Self)
        ensures
            r@ == (EnhancedView {
                account: AccountView { display_name: Some(display_name@), ..self@.account },
                ..self@
            }),
    {
        EnhancedAccountData { display_name: Some(display_name), ..self }
    }

    /// The account with this metadata.
    pub fn with_metadata(self, metadata: MetadataMap) -> (r: Self)
        ensures
            r@ == (EnhancedView { account: AccountView { metadata: metadata@, ..self@.account }, ..self@ }),
    {
        EnhancedAccountData { metadata, ..self }
    }

    /// The account with these recovery addresses.
    pub fn with_recovery_addresses(self, addresses: Vec<UnitsObjectId>) -> (r: Self)
        ensures
            r@ == (EnhancedView {
                account: AccountView { recovery: crate::account::ids_view(addresses@), ..self@.account },
                ..self@
            }),
    {
        EnhancedAccountData { recovery_addresses: addresses, ..self }
    }
}

/// Whether a username is valid: 3 to 32 bytes of letters, digits and underscores.
pub fn validate_username(username: &str) -> (r: bool)
    ensures
        r == crate::account::valid_username(username),
{
    crate::account::validate_username(username)
}

/// Parameters of creating an account; the signature is optional.
#[derive(Debug, Clone)]
pub struct CreateAccountParams {
    pub username: Option<String>,
    pub display_name: Option<String>,
    pub metadata: Option<MetadataMap>,
    pub recovery_addresses: Option<Vec<UnitsObjectId>>,
    pub signature: Option<Signature>,
}

/// Parameters of updating an account, signed by its controller.
#[derive(Debug, Clone)]
pub struct UpdateAccountParams {
    pub account_id: UnitsObjectId,
    pub username: Option<String>,
    pub display_name: Option<String>,
    pub metadata: Option<MetadataMap>,
    pub signature: Signature,
}

/// Parameters of adding a recovery address.
#[derive(Debug, Clone)]
pub struct AddRecoveryAddressParams {
    pub account_id: UnitsObjectId,
    pub recovery_address: UnitsObjectId,
    pub signature: Signature,
}

/// Parameters of removing a recovery address.
#[derive(Debug, Clone)]
pub struct RemoveRecoveryAddressParams {
    pub account_id: UnitsObjectId,
    pub recovery_address: UnitsObjectId,
    pub signature: Signature,
}

/// Parameters of deactivating an account.
#[derive(Debug, Clone)]
pub struct DeactivateAccountParams {
    pub account_id: UnitsObjectId,
    pub signature: Signature,
}

/// Parameters of reactivating an account.
#[derive(Debug, Clone)]
pub struct ReactivateAccountParams {
    pub account_id: UnitsObjectId,
    pub signature: Signature,
}

/// Parameters of reading an account.
#[derive(Debug, Clone)]
pub struct GetAccountParams {
    pub account_id: UnitsObjectId,
}

/// Parameters of creating an account, with authentication credentials.
#[derive(Debug, Clone)]
pub struct FlexCreateAccountParams {
    pub username: Option<String>,
    pub display_name: Option<String>,
    pub metadata: Option<MetadataMap>,
    pub recovery_addresses: Option<Vec<UnitsObjectId>>,
    /// Multiple authentication credentials (signatures, MFA codes, etc.)
    pub credentials: Vec<AuthCredential>,
}

/// Parameters of updating an account, with authentication credentials.
#[derive(Debug, Clone)]
pub struct FlexUpdateAccountParams {
    pub account_id: UnitsObjectId,
    pub username: Option<String>,
    pub display_name: Option<String>,
    pub metadata: Option<MetadataMap>,
    /// Multiple authentication credentials (signatures, MFA codes, etc.)
    pub credentials: Vec<AuthCredential>,
}

/// Parameters of adding a recovery address, with authentication credentials.
#[derive(Debug, Clone)]
pub struct FlexAddRecoveryAddressParams {
    pub account_id: UnitsObjectId,
    pub recovery_address: UnitsObjectId,
    /// Multiple authentication credentials (signatures, MFA codes, etc.)
    pub credentials: Vec<AuthCredential>,
}

/// Parameters of removing a recovery address, with authentication credentials.
#[derive(Debug, Clone)]
pub struct FlexRemoveRecoveryAddressParams {
    pub account_id: UnitsObjectId,
    pub recovery_address: UnitsObjectId,
    /// Multiple authentication credentials (signatures, MFA codes, etc.)
    pub credentials: Vec<AuthCredential>,
}

/// Parameters of deactivating an account, with authentication credentials.
#[derive(Debug, Clone)]
pub struct FlexDeactivateAccountParams {
    pub account_id: UnitsObjectId,
    /// Multiple authentication credentials (signatures, MFA codes, etc.)
    pub credentials: Vec<AuthCredential>,
}

/// Parameters of reactivating an account, with authentication credentials.
#[derive(Debug, Clone)]
pub struct FlexReactivateAccountParams {
    pub account_id: UnitsObjectId,
    /// Multiple authentication credentials (signatures, MFA codes, etc.)
    pub credentials: Vec<AuthCredential>,
}

} // verus!
