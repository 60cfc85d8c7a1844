//! The byte layout of accounts and of the parameters of their operations.
use vstd::prelude::*;
use crate::account::{
    id_items_bytes, ids_bytes, ids_view, lemma_id_items_len, lemma_id_items_round_trip,
    lemma_meta_items_round_trip, lemma_u32_at, meta_bytes, meta_fits, meta_items_bytes, opt_fits,
    opt_string_bytes, opt_string_view, read_ids, read_meta, read_opt_string, take_ids, take_meta,
    take_opt_string, write_ids, write_opt_string, MetaView,
};
use crate::auth::{AuthFactor, SignatureType};
use crate::codec::{
    bool_bytes, read_bool, read_bytes, read_id, read_u32, read_u64, read_u8, take_bool, take_bytes,
    take_id, take_u32, take_u64, take_u8, write_bool, write_id, lemma_string_round_trip,
    lemma_u64_round_trip, string_bytes,
};
use crate::hashing::{append_bytes, append_le32, append_le64, le32, le64};
use crate::id::UnitsObjectId;
use crate::secure_account::{
    meta_from_entries, AccountData, AccountView, EnhancedAccountData, EnhancedView, MetadataMap,
    opt_bytes_view,
};

verus! {

/// The account fields encoded from `pos`, with the position after them.
pub open spec fn take_account(b: Seq<u8>, pos: int) -> Option<(AccountView, int)> {
    match take_id(b, pos) {
        None => None,
        Some((id, p1)) => match take_opt_string(b, p1) {
            None => None,
            Some((username, p2)) => match take_opt_string(b, p2) {
                None => None,
                Some((display_name, p3)) => match take_meta(b, p3) {
                    None => None,
                    Some((m, p4)) => match take_bool(b, p4) {
                        None => None,
                        Some((is_active, p5)) => match take_ids(b, p5) {
                            None => None,
                            Some((recovery, p6)) => match take_u64(b, p6) {
                                None => None,
                                Some((created_at, p7)) => match take_u64(b, p7) {
                                    None => None,
                                    Some((updated_at, p8)) => Some(
                                        (
                                            AccountView {
                                                id,
                                                username,
                                                display_name,
                                                metadata: meta_from_entries(m),
                                                is_active,
                                                recovery,
                                                created_at,
                                                updated_at,
                                            },
                                            p8,
                                        ),
                                    ),
                                },
                            },
                        },
                    },
                },
            },
        },
    }
}

/// The account that `b` encodes, if it encodes exactly one.
pub open spec fn parse_account(b: Seq<u8>) -> Option<AccountView> {
    match take_account(b, 0) {
        Some((v, p)) => if p == b.len() {
            Some(v)
        } else {
            None
        },
        None => None,
    }
}

/// The encoding of an account.
pub open spec fn account_bytes(v: AccountView) -> Seq<u8> {
    v.id + opt_string_bytes(v.username) + opt_string_bytes(v.display_name) + meta_bytes(v.metadata)
        + bool_bytes(v.is_active) + ids_bytes(v.recovery) + le64(v.created_at) + le64(v.updated_at)
}

/// An account can be encoded: its strings, metadata and recovery count fit.
pub open spec fn account_fits(v: AccountView) -> bool {
    &&& opt_fits(v.username)
    &&& opt_fits(v.display_name)
    &&& meta_fits(v.metadata)
    &&& v.recovery.len() <= u32::MAX
}

/// The optional bytes encoded at `pos` (a tag, then a count and the bytes).
pub open spec fn take_opt_bytes(b: Seq<u8>, pos: int) -> Option<(Option<Seq<u8>>, int)> {
    match take_u8(b, pos) {
        Some((0, p)) => Some((None, p)),
        Some((1, p)) => match take_u32(b, p) {
            Some((n, q)) => match take_bytes(b, q, n as int) {
                Some((d, e)) => Some((Some(d), e)),
                None => None,
            },
            None => None,
        },
        _ => None,
    }
}

/// The encoding of optional bytes.
pub open spec fn opt_bytes_bytes(o: Option<Seq<u8>>) -> Seq<u8> {
    match o {
        Some(d) => seq![1u8] + le32(d.len() as u32) + d,
        None => seq![0u8],
    }
}

/// The signature scheme a tag names.
pub open spec fn signature_type_of(t: u8) -> Option<SignatureType> {
    if t == 0 {
        Some(SignatureType::Ed25519)
    } else if t == 1 {
        Some(SignatureType::EcdsaSecp256k1)
    } else if t == 2 {
        Some(SignatureType::EcdsaSecp256r1)
    } else if t == 3 {
        Some(SignatureType::Rsa2048)
    } else if t == 4 {
        Some(SignatureType::Rsa4096)
    } else {
        None
    }
}

/// The tag of a signature scheme.
pub open spec fn signature_type_tag(t: SignatureType) -> u8 {
    match t {
        SignatureType::Ed25519 => 0,
        SignatureType::EcdsaSecp256k1 => 1,
        SignatureType::EcdsaSecp256r1 => 2,
        SignatureType::Rsa2048 => 3,
        SignatureType::Rsa4096 => 4,
    }
}

/// The authentication factor encoded at `pos`.
pub open spec fn take_factor(b: Seq<u8>, pos: int) -> Option<(AuthFactor, int)> {
    match take_u8(b, pos) {
        Some((0, p)) => match take_u8(b, p) {
            Some((t, q)) => match signature_type_of(t) {
                Some(st) => Some((AuthFactor::Signature(st), q)),
                None => None,
            },
            None => None,
        },
        Some((1, p)) => Some((AuthFactor::TimeBasedCode, p)),
        Some((2, p)) => Some((AuthFactor::HardwareToken, p)),
        Some((3, p)) => Some((AuthFactor::Biometric, p)),
        Some((4, p)) => Some((AuthFactor::RecoveryKey, p)),
        _ => None,
    }
}

/// The encoding of an authentication factor.
pub open spec fn factor_bytes(f: AuthFactor) -> Seq<u8> {
    match f {
        AuthFactor::Signature(t) => seq![0u8, signature_type_tag(t)],
        AuthFactor::TimeBasedCode => seq![1u8],
        AuthFactor::HardwareToken => seq![2u8],
        AuthFactor::Biometric => seq![3u8],
        AuthFactor::RecoveryKey => seq![4u8],
    }
}

/// The first `n` factors encoded from `pos` on.
pub open spec fn take_factor_items(b: Seq<u8>, pos: int, n: nat) -> Option<(Seq<AuthFactor>, int)>
    decreases n,
{
    if n == 0 {
        Some((Seq::empty(), pos))
    } else {
        match take_factor_items(b, pos, (n - 1) as nat) {
            None => None,
            Some((s, p)) => match take_factor(b, p) {
                None => None,
                Some((f, q)) => Some((s.push(f), q)),
            },
        }
    }
}

/// The factors encoded at `pos` (a count, then the factors).
pub open spec fn take_factors(b: Seq<u8>, pos: int) -> Option<(Seq<AuthFactor>, int)> {
    match take_u32(b, pos) {
        Some((n, p)) => take_factor_items(b, p, n as nat),
        None => None,
    }
}

/// The encoding of factors, one after another.
pub open spec fn factor_items_bytes(s: Seq<AuthFactor>) -> Seq<u8>
    decreases s.len(),
{
    if s.len() == 0 {
        Seq::empty()
    } else {
        factor_items_bytes(s.drop_last()) + factor_bytes(s.last())
    }
}

/// The encoding of factors: a count, then the factors.
pub open spec fn factors_bytes(s: Seq<AuthFactor>) -> Seq<u8> {
    le32(s.len() as u32) + factor_items_bytes(s)
}

/// The account with a policy that `b` encodes, if it encodes exactly one.
pub open spec fn parse_enhanced(b: Seq<u8>) -> Option<EnhancedView> {
    match take_account(b, 0) {
        None => None,
        Some((a, p1)) => match take_opt_bytes(b, p1) {
            None => None,
            Some((policy, p2)) => match take_factors(b, p2) {
                None => None,
                Some((factors, p3)) => if p3 == b.len() {
                    Some(EnhancedView { account: a, auth_policy: policy, factors })
                } else {
                    None
                },
            },
        },
    }
}

/// The encoding of an account with a policy.
pub open spec fn enhanced_bytes(v: EnhancedView) -> Seq<u8> {
    account_bytes(v.account) + opt_bytes_bytes(v.auth_policy) + factors_bytes(v.factors)
}

/// An account with a policy can be encoded.
pub open spec fn enhanced_fits(v: EnhancedView) -> bool {
    &&& account_fits(v.account)
    &&& v.auth_policy matches Some(d) ==> d.len() <= u32::MAX
    &&& v.factors.len() <= u32::MAX
}

/// Read the account fields at `pos`.
fn read_account_fields(b: &[u8], pos: usize) -> (r: Option<(AccountData, usize)>)
    ensures
        r is Some <==> take_account(b@, pos as int) is Some,
        r matches Some((a, p)) ==> take_account(b@, pos as int) == Some((a@, p as int)),
{
    let (account_id, p1) = match read_id(b, pos) {
        Some(x) => x,
        None => {
            return None;
        },
    };
    let (username, p2) = match read_opt_string(b, p1) {
        Some(x) => x,
        None => {
            return None;
        },
    };
    let (display_name, p3) = match read_opt_string(b, p2) {
        Some(x) => x,
        None => {
            return None;
        },
    };
    let (entries, p4) = match read_meta(b, p3) {
        Some(x) => x,
        None => {
            return None;
        },
    };
    let (is_active, p5) = match read_bool(b, p4) {
        Some(x) => x,
        None => {
            return None;
        },
    };
    let (recovery_addresses, p6) = match read_ids(b, p5) {
        Some(x) => x,
        None => {
            return None;
        },
    };
    let (created_at, p7) = match read_u64(b, p6) {
        Some(x) => x,
        None => {
            return None;
        },
    };
    let (updated_at, p8) = match read_u64(b, p7) {
        Some(x) => x,
        None => {
            return None;
        },
    };
    let metadata = MetadataMap::from_entries(entries);
    let a = AccountData {
        account_id,
        username,
        display_name,
        metadata,
        is_active,
        recovery_addresses,
        created_at,
        updated_at,
    };
    Some((a, p8))
}

/// Append the encoding of the account fields to `v`, unless one does not fit.
fn write_account_fields(
    v: &mut Vec<u8>,
    account_id: &UnitsObjectId,
    username: &Option<String>,
    display_name: &Option<String>,
    metadata: &MetadataMap,
    is_active: bool,
    recovery_addresses: &Vec<UnitsObjectId>,
    created_at: u64,
    updated_at: u64,
) -> (ok: bool)
    ensures
        ok == account_fits(
            AccountView {
                id: account_id.bytes@,
                username: opt_string_view(*username),
                display_name: opt_string_view(*display_name),
                metadata: metadata@,
                is_active,
                recovery: ids_view(recovery_addresses@),
                created_at,
                updated_at,
            },
        ),
        ok ==> final(v)@ == old(v)@ + account_bytes(
            AccountView {
                id: account_id.bytes@,
                username: opt_string_view(*username),
                display_name: opt_string_view(*display_name),
                metadata: metadata@,
                is_active,
                recovery: ids_view(recovery_addresses@),
                created_at,
                updated_at,
            },
        ),
{
    write_id(v, account_id);
    if !write_opt_string(v, username) {
        return false;
    }
    if !write_opt_string(v, display_name) {
        return false;
    }
    if !metadata.write_to(v) {
        return false;
    }
    write_bool(v, is_active);
    if !write_ids(v, recovery_addresses) {
        return false;
    }
    append_le64(v, created_at);
    append_le64(v, updated_at);
    proof {
        assert(ids_view(recovery_addresses@).len() == recovery_addresses@.len());
    }
    assert(v@ =~= old(v)@ + account_bytes(
        AccountView {
            id: account_id.bytes@,
            username: opt_string_view(*username),
            display_name: opt_string_view(*display_name),
            metadata: metadata@,
            is_active,
            recovery: ids_view(recovery_addresses@),
            created_at,
            updated_at,
        },
    ));
    true
}

impl AccountData {
    /// Decode an account from exactly the bytes `b`.
    pub fn decode(b: &[u8]) -> (r: Option<AccountData>)
        ensures
            match parse_account(b@) {
                Some(v) => r matches Some(a) && a@ == v,
                None => r is None,
            },
    {
        match read_account_fields(b, 0) {
            Some((a, p)) => if p == b.len() {
                Some(a)
            } else {
                None
            },
            None => None,
        }
    }

    /// Encode the account, unless a length does not fit in 32 bits.
    pub fn encode(&self) -> (r: Option<Vec<u8>>)
        ensures
            match r {
                Some(bytes) => account_fits(self@) && bytes@ == account_bytes(self@),
                None => !account_fits(self@),
            },
    {
        let mut v: Vec<u8> = Vec::new();
        if write_account_fields(
            &mut v,
            &self.account_id,
            &self.username,
            &self.display_name,
            &self.metadata,
            self.is_active,
            &self.recovery_addresses,
            self.created_at,
            self.updated_at,
        ) {
            assert(v@ =~= account_bytes(self@));
            Some(v)
        } else {
            None
        }
    }
}

fn read_opt_bytes(b: &[u8], pos: usize) -> (r: Option<(Option<Vec<u8>>, usize)>)
    ensures
        r is Some <==> take_opt_bytes(b@, pos as int) is Some,
        r matches Some((o, p)) ==> take_opt_bytes(b@, pos as int) == Some((opt_bytes_view(o), p as int)),
{
    match read_u8(b, pos) {
        Some((0, p)) => Some((None, p)),
        Some((1, p)) => match read_u32(b, p) {
            Some((n, q)) => match read_bytes(b, q, n as usize) {
                Some((d, e)) => Some((Some(d), e)),
                None => None,
            },
            None => None,
        },
        _ => None,
    }
}

fn write_opt_bytes(v: &mut Vec<u8>, o: &Option<Vec<u8>>) -> (ok: bool)
    ensures
        ok == (opt_bytes_view(*o) matches Some(d) ==> d.len() <= u32::MAX),
        ok ==> final(v)@ == old(v)@ + opt_bytes_bytes(opt_bytes_view(*o)),
{
    match o {
        Some(d) => {
            if d.len() > 0xffff_ffffusize {
                return false;
            }
            v.push(1u8);
            append_le32(v, d.len() as u32);
            append_bytes(v, d.as_slice());
            assert(v@ =~= old(v)@ + opt_bytes_bytes(opt_bytes_view(*o)));
            true
        },
        None => {
            v.push(0u8);
            assert(v@ =~= old(v)@ + opt_bytes_bytes(opt_bytes_view(*o)));
            true
        },
    }
}

fn read_factor(b: &[u8], pos: usize) -> (r: Option<(AuthFactor, usize)>)
    ensures
        r is Some <==> take_factor(b@, pos as int) is Some,
        r matches Some((f, p)) ==> take_factor(b@, pos as int) == Some((f, p as int)),
{
    match read_u8(b, pos) {
        Some((0, p)) => match read_u8(b, p) {
            Some((0, q)) => Some((AuthFactor::Signature(SignatureType::Ed25519), q)),
            Some((1, q)) => Some((AuthFactor::Signature(SignatureType::EcdsaSecp256k1), q)),
            Some((2, q)) => Some((AuthFactor::Signature(SignatureType::EcdsaSecp256r1), q)),
            Some((3, q)) => Some((AuthFactor::Signature(SignatureType::Rsa2048), q)),
            Some((4, q)) => Some((AuthFactor::Signature(SignatureType::Rsa4096), q)),
            _ => None,
        },
        Some((1, p)) => Some((AuthFactor::TimeBasedCode, p)),
        Some((2, p)) => Some((AuthFactor::HardwareToken, p)),
        Some((3, p)) => Some((AuthFactor::Biometric, p)),
        Some((4, p)) => Some((AuthFactor::RecoveryKey, p)),
        _ => None,
    }
}

proof fn lemma_factor_items_stuck(b: Seq<u8>, pos: int, i: nat, n: nat)
    requires
        i <= n,
        take_factor_items(b, pos, i) is None,
    ensures
        take_factor_items(b, pos, n) is None,
    decreases n - i,
{
    if i < n {
        lemma_factor_items_stuck(b, pos, i + 1, n);
    }
}

fn read_factors(b: &[u8], pos: usize) -> (r: Option<(Vec<AuthFactor>, usize)>)
    ensures
        r is Some <==> take_factors(b@, pos as int) is Some,
        r matches Some((v, p)) ==> take_factors(b@, pos as int) == Some((v@, p as int)),
{
    let (n, p0) = match read_u32(b, pos) {
        Some(x) => x,
        None => {
            return None;
        },
    };
    let mut out: Vec<AuthFactor> = Vec::new();
    let mut p = p0;
    let mut i: u32 = 0;
    while i < n
        invariant
            i <= n,
            take_factors(b@, pos as int) == take_factor_items(b@, p0 as int, n as nat),
            take_factor_items(b@, p0 as int, i as nat) == Some((out@, p as int)),
        decreases n - i,
    {
        let (f, q) = match read_factor(b, p) {
            Some(x) => x,
            None => {
                proof {
                    lemma_factor_items_stuck(b@, p0 as int, (i + 1) as nat, n as nat);
                }
                return None;
            },
        };
        out.push(f);
        p = q;
        i = i + 1;
    }
    Some((out, p))
}

fn write_factor(v: &mut Vec<u8>, f: AuthFactor)
    ensures
        final(v)@ == old(v)@ + factor_bytes(f),
{
    match f {
        AuthFactor::Signature(t) => {
            v.push(0u8);
            let tag: u8 = match t {
                SignatureType::Ed25519 => 0,
                SignatureType::EcdsaSecp256k1 => 1,
                SignatureType::EcdsaSecp256r1 => 2,
                SignatureType::Rsa2048 => 3,
                SignatureType::Rsa4096 => 4,
            };
            v.push(tag);
        },
        AuthFactor::TimeBasedCode => v.push(1u8),
        AuthFactor::HardwareToken => v.push(2u8),
        AuthFactor::Biometric => v.push(3u8),
        AuthFactor::RecoveryKey => v.push(4u8),
    }
    assert(v@ =~= old(v)@ + factor_bytes(f));
}

fn write_factors(v: &mut Vec<u8>, fs: &Vec<AuthFactor>) -> (ok: bool)
    ensures
        ok == (fs@.len() <= u32::MAX),
        ok ==> final(v)@ == old(v)@ + factors_bytes(fs@),
{
    if fs.len() > 0xffff_ffffusize {
        return false;
    }
    append_le32(v, fs.len() as u32);
    let ghost start = v@;
    let mut i: usize = 0;
    while i < fs.len()
        invariant
            i <= fs@.len(),
            v@ == start + factor_items_bytes(fs@.take(i as int)),
        decreases fs@.len() - i,
    {
        write_factor(v, fs[i]);
        proof {
            assert(fs@.take(i + 1).drop_last() =~= fs@.take(i as int));
        }
        i = i + 1;
    }
    proof {
        assert(fs@.take(fs@.len() as int) =~= fs@);
        assert(v@ =~= old(v)@ + factors_bytes(fs@));
    }
    true
}

impl EnhancedAccountData {
    /// Decode an account with a policy from exactly the bytes `b`.
    pub fn decode(b: &[u8]) -> (r: Option<EnhancedAccountData>)
        ensures
            match parse_enhanced(b@) {
                Some(v) => r matches Some(a) && a@ == v,
                None => r is None,
            },
    {
        let (a, p1) = match read_account_fields(b, 0) {
            Some(x) => x,
            None => {
                return None;
            },
        };
        let (auth_policy, p2) = match read_opt_bytes(b, p1) {
            Some(x) => x,
            None => {
                return None;
            },
        };
        let (supported_auth_factors, p3) = match read_factors(b, p2) {
            Some(x) => x,
            None => {
                return None;
            },
        };
        if p3 != b.len() {
            return None;
        }
        Some(
            EnhancedAccountData {
                account_id: a.account_id,
                username: a.username,
                display_name: a.display_name,
                metadata: a.metadata,
                is_active: a.is_active,
                recovery_addresses: a.recovery_addresses,
                created_at: a.created_at,
                updated_at: a.updated_at,
                auth_policy,
                supported_auth_factors,
            },
        )
    }

    /// Encode the account, unless a length does not fit in 32 bits.
    pub fn encode(&self) -> (r: Option<Vec<u8>>)
        ensures
            match r {
                Some(bytes) => enhanced_fits(self@) && bytes@ == enhanced_bytes(self@),
                None => !enhanced_fits(self@),
            },
    {
        let mut v: Vec<u8> = Vec::new();
        if !write_account_fields(
            &mut v,
            &self.account_id,
            &self.username,
            &self.display_name,
            &self.metadata,
            self.is_active,
            &self.recovery_addresses,
            self.created_at,
            self.updated_at,
        ) {
            return None;
        }
        if !write_opt_bytes(&mut v, &self.auth_policy) {
            return None;
        }
        if !write_factors(&mut v, &self.supported_auth_factors) {
            return None;
        }
        assert(v@ =~= enhanced_bytes(self@));
        Some(v)
    }
}

proof fn lemma_opt_string_round_trip(o: Option<Seq<char>>, pre: Seq<u8>, post: Seq<u8>)
    requires
        opt_fits(o),
    ensures
        take_opt_string(pre + opt_string_bytes(o) + post, pre.len() as int) == Some(
            (o, (pre.len() + opt_string_bytes(o).len()) as int),
        ),
{
    let b = pre + opt_string_bytes(o) + post;
    match o {
        Some(u) => {
            assert(b[pre.len() as int] == 1u8);
            lemma_string_round_trip(u, pre + seq![1u8], post);
            assert(pre + seq![1u8] + string_bytes(u) + post =~= b);
        },
        None => {
            assert(b[pre.len() as int] == 0u8);
        },
    }
}

proof fn lemma_meta_round_trip(m: MetaView, pre: Seq<u8>, post: Seq<u8>)
    requires
        meta_fits(m),
    ensures
        take_meta(pre + meta_bytes(m) + post, pre.len() as int) == Some(
            (m, (pre.len() + meta_bytes(m).len()) as int),
        ),
{
    let b = pre + meta_bytes(m) + post;
    let n = m.len() as u32;
    lemma_u32_at(n, pre, meta_items_bytes(m) + post);
    assert(pre + le32(n) + (meta_items_bytes(m) + post) =~= b);
    lemma_meta_items_round_trip(m, pre + le32(n), post);
    assert(pre + le32(n) + meta_items_bytes(m) + post =~= b);
}

proof fn lemma_ids_round_trip(s: Seq<Seq<u8>>, pre: Seq<u8>, post: Seq<u8>)
    requires
        s.len() <= u32::MAX,
        forall|i: int| 0 <= i < s.len() ==> (#[trigger] s[i]).len() == 32,
    ensures
        take_ids(pre + ids_bytes(s) + post, pre.len() as int) == Some(
            (s, (pre.len() + ids_bytes(s).len()) as int),
        ),
{
    let b = pre + ids_bytes(s) + post;
    let n = s.len() as u32;
    lemma_u32_at(n, pre, id_items_bytes(s) + post);
    assert(pre + le32(n) + (id_items_bytes(s) + post) =~= b);
    lemma_id_items_round_trip(s, pre + le32(n), post);
    assert(pre + le32(n) + id_items_bytes(s) + post =~= b);
}

proof fn lemma_opt_bytes_round_trip(o: Option<Seq<u8>>, pre: Seq<u8>, post: Seq<u8>)
    requires
        o matches Some(d) ==> d.len() <= u32::MAX,
    ensures
        take_opt_bytes(pre + opt_bytes_bytes(o) + post, pre.len() as int) == Some(
            (o, (pre.len() + opt_bytes_bytes(o).len()) as int),
        ),
{
    let b = pre + opt_bytes_bytes(o) + post;
    match o {
        Some(d) => {
            assert(b[pre.len() as int] == 1u8);
            let n = d.len() as u32;
            lemma_u32_at(n, pre + seq![1u8], d + post);
            assert(pre + seq![1u8] + le32(n) + (d + post) =~= b);
            let q: int = pre.len() + 5int;
            assert(b.subrange(q, q + d.len() as int) =~= d);
        },
        None => {
            assert(b[pre.len() as int] == 0u8);
        },
    }
}

proof fn lemma_factor_items_round_trip(s: Seq<AuthFactor>, pre: Seq<u8>, post: Seq<u8>)
    ensures
        take_factor_items(pre + factor_items_bytes(s) + post, pre.len() as int, s.len()) == Some(
            (s, (pre.len() + factor_items_bytes(s).len()) as int),
        ),
    decreases s.len(),
{
    let b = pre + factor_items_bytes(s) + post;
    if s.len() == 0 {
        assert(s =~= Seq::<AuthFactor>::empty());
    } else {
        let s2 = s.drop_last();
        let f = s.last();
        lemma_factor_items_round_trip(s2, pre, factor_bytes(f) + post);
        assert(pre + factor_items_bytes(s2) + (factor_bytes(f) + post) =~= b);
        let p: int = (pre.len() + factor_items_bytes(s2).len()) as int;
        assert(b.subrange(p, p + factor_bytes(f).len() as int) =~= factor_bytes(f));
        match f {
            AuthFactor::Signature(t) => {
                assert(b[p] == 0u8);
                assert(b[p + 1] == signature_type_tag(t));
                assert(signature_type_of(signature_type_tag(t)) == Some(t));
            },
            _ => {
                assert(b[p] == factor_bytes(f)[0]);
            },
        }
        assert(s2.push(f) =~= s);
    }
}

proof fn lemma_factors_round_trip(s: Seq<AuthFactor>, pre: Seq<u8>, post: Seq<u8>)
    requires
        s.len() <= u32::MAX,
    ensures
        take_factors(pre + factors_bytes(s) + post, pre.len() as int) == Some(
            (s, (pre.len() + factors_bytes(s).len()) as int),
        ),
{
    let b = pre + factors_bytes(s) + post;
    let n = s.len() as u32;
    lemma_u32_at(n, pre, factor_items_bytes(s) + post);
    assert(pre + le32(n) + (factor_items_bytes(s) + post) =~= b);
    lemma_factor_items_round_trip(s, pre + le32(n), post);
    assert(pre + le32(n) + factor_items_bytes(s) + post =~= b);
}

spec fn head_bytes(a: AccountView) -> Seq<u8> {
    a.id + opt_string_bytes(a.username) + opt_string_bytes(a.display_name) + meta_bytes(a.metadata)
}

spec fn rest_bytes(v: EnhancedView) -> Seq<u8> {
    bool_bytes(v.account.is_active) + ids_bytes(v.account.recovery) + le64(v.account.created_at)
        + le64(v.account.updated_at) + opt_bytes_bytes(v.auth_policy) + factors_bytes(v.factors)
}

#[verifier::spinoff_prover]
proof fn lemma_head_round_trip(a: AccountView, post: Seq<u8>)
    requires
        account_fits(a),
        a.id.len() == 32,
    ensures
        take_id(head_bytes(a) + post, 0) == Some((a.id, 32int)),
        take_opt_string(head_bytes(a) + post, 32) == Some(
            (a.username, (a.id + opt_string_bytes(a.username)).len() as int),
        ),
        take_opt_string(head_bytes(a) + post, (a.id + opt_string_bytes(a.username)).len() as int)
            == Some(
            (
                a.display_name,
                (a.id + opt_string_bytes(a.username) + opt_string_bytes(a.display_name)).len() as int,
            ),
        ),
        take_meta(
            head_bytes(a) + post,
            (a.id + opt_string_bytes(a.username) + opt_string_bytes(a.display_name)).len() as int,
        ) == Some((a.metadata, head_bytes(a).len() as int)),
{
    let b = head_bytes(a) + post;
    let u1 = a.id;
    let u2 = u1 + opt_string_bytes(a.username);
    let u3 = u2 + opt_string_bytes(a.display_name);
    assert(b.subrange(0, 32) =~= a.id);
    let r1 = opt_string_bytes(a.display_name) + meta_bytes(a.metadata) + post;
    lemma_opt_string_round_trip(a.username, u1, r1);
    assert(u1 + opt_string_bytes(a.username) + r1 =~= b);
    let r2 = meta_bytes(a.metadata) + post;
    lemma_opt_string_round_trip(a.display_name, u2, r2);
    assert(u2 + opt_string_bytes(a.display_name) + r2 =~= b);
    lemma_meta_round_trip(a.metadata, u3, post);
}

#[verifier::spinoff_prover]
proof fn lemma_rest_round_trip(v: EnhancedView, pre: Seq<u8>)
    requires
        enhanced_fits(v),
        forall|i: int| 0 <= i < v.account.recovery.len() ==> (#[trigger] v.account.recovery[i]).len() == 32,
    ensures
        ({
            let a = v.account;
            let b = pre + rest_bytes(v);
            let p5: int = pre.len() + 1int;
            let p6: int = p5 + ids_bytes(a.recovery).len();
            let p9: int = p6 + 16 + opt_bytes_bytes(v.auth_policy).len();
            &&& take_bool(b, pre.len() as int) == Some((a.is_active, p5))
            &&& take_ids(b, p5) == Some((a.recovery, p6))
            &&& take_u64(b, p6) == Some((a.created_at, p6 + 8))
            &&& take_u64(b, p6 + 8) == Some((a.updated_at, p6 + 16))
            &&& take_opt_bytes(b, p6 + 16) == Some((v.auth_policy, p9))
            &&& take_factors(b, p9) == Some((v.factors, b.len() as int))
        }),
{
    let a = v.account;
    let b = pre + rest_bytes(v);
    let u5 = pre + bool_bytes(a.is_active);
    let u6 = u5 + ids_bytes(a.recovery);
    let u7 = u6 + le64(a.created_at);
    let u8s = u7 + le64(a.updated_at);
    let u9 = u8s + opt_bytes_bytes(v.auth_policy);
    let tail = opt_bytes_bytes(v.auth_policy) + factors_bytes(v.factors);
    assert(b[pre.len() as int] == bool_bytes(a.is_active)[0]);
    let r5 = le64(a.created_at) + le64(a.updated_at) + tail;
    lemma_ids_round_trip(a.recovery, u5, r5);
    assert(u5 + ids_bytes(a.recovery) + r5 =~= b);
    lemma_u64_round_trip(a.created_at, u6, le64(a.updated_at) + tail);
    assert(u6 + le64(a.created_at) + (le64(a.updated_at) + tail) =~= b);
    lemma_u64_round_trip(a.updated_at, u7, tail);
    assert(u7 + le64(a.updated_at) + tail =~= b);
    lemma_opt_bytes_round_trip(v.auth_policy, u8s, factors_bytes(v.factors));
    assert(u8s + opt_bytes_bytes(v.auth_policy) + factors_bytes(v.factors) =~= b);
    lemma_factors_round_trip(v.factors, u9, Seq::empty());
    assert(u9 + factors_bytes(v.factors) + Seq::<u8>::empty() =~= b);
}

/// Decoding the encoding of an account with a policy gives it back, its
/// metadata put in the decoder's order.
pub proof fn lemma_enhanced_round_trip(v: EnhancedView)
    requires
        enhanced_fits(v),
        v.account.id.len() == 32,
        forall|i: int| 0 <= i < v.account.recovery.len() ==> (#[trigger] v.account.recovery[i]).len() == 32,
    ensures
        parse_enhanced(enhanced_bytes(v)) == Some(
            EnhancedView {
                account: AccountView { metadata: meta_from_entries(v.account.metadata), ..v.account },
                ..v
            },
        ),
{
    let a = v.account;
    let h = head_bytes(a);
    assert(enhanced_bytes(v) =~= h + rest_bytes(v));
    lemma_head_round_trip(a, rest_bytes(v));
    lemma_rest_round_trip(v, h);
}

/// The identifiers of a decoded account with a policy are 32 bytes long.
pub proof fn lemma_parsed_enhanced_ids(b: Seq<u8>)
    requires
        parse_enhanced(b) is Some,
    ensures
        parse_enhanced(b)->Some_0.account.id.len() == 32,
        forall|i: int|
            0 <= i < parse_enhanced(b)->Some_0.account.recovery.len() ==> (
            #[trigger] parse_enhanced(b)->Some_0.account.recovery[i]).len() == 32,
{
    let p1 = take_id(b, 0)->Some_0.1;
    let p2 = take_opt_string(b, p1)->Some_0.1;
    let p3 = take_opt_string(b, p2)->Some_0.1;
    let p4 = take_meta(b, p3)->Some_0.1;
    let p5 = take_bool(b, p4)->Some_0.1;
    let n = take_u32(b, p5)->Some_0;
    lemma_id_items_len(b, n.1, n.0 as nat);
}

/// Decoding the encoding of an account gives it back, its metadata put in the
/// decoder's order.
pub proof fn lemma_account_view_round_trip(a: AccountView)
    requires
        account_fits(a),
        a.id.len() == 32,
        forall|i: int| 0 <= i < a.recovery.len() ==> (#[trigger] a.recovery[i]).len() == 32,
    ensures
        parse_account(account_bytes(a)) == Some(
            AccountView { metadata: meta_from_entries(a.metadata), ..a },
        ),
{
    let h = head_bytes(a);
    let b = account_bytes(a);
    let rest = bool_bytes(a.is_active) + ids_bytes(a.recovery) + le64(a.created_at) + le64(
        a.updated_at,
    );
    assert(b =~= h + rest);
    lemma_head_round_trip(a, rest);
    let u5 = h + bool_bytes(a.is_active);
    assert(b[h.len() as int] == bool_bytes(a.is_active)[0]);
    let r5 = le64(a.created_at) + le64(a.updated_at);
    lemma_ids_round_trip(a.recovery, u5, r5);
    assert(u5 + ids_bytes(a.recovery) + r5 =~= b);
    let u6 = u5 + ids_bytes(a.recovery);
    lemma_u64_round_trip(a.created_at, u6, le64(a.updated_at));
    assert(u6 + le64(a.created_at) + le64(a.updated_at) =~= b);
    lemma_u64_round_trip(a.updated_at, u6 + le64(a.created_at), Seq::empty());
    assert(u6 + le64(a.created_at) + le64(a.updated_at) + Seq::<u8>::empty() =~= b);
}

/// The identifiers of a decoded account are 32 bytes long.
pub proof fn lemma_parsed_account_view_ids(b: Seq<u8>)
    requires
        parse_account(b) is Some,
    ensures
        parse_account(b)->Some_0.id.len() == 32,
        forall|i: int|
            0 <= i < parse_account(b)->Some_0.recovery.len() ==> (
            #[trigger] parse_account(b)->Some_0.recovery[i]).len() == 32,
{
    let p1 = take_id(b, 0)->Some_0.1;
    let p2 = take_opt_string(b, p1)->Some_0.1;
    let p3 = take_opt_string(b, p2)->Some_0.1;
    let p4 = take_meta(b, p3)->Some_0.1;
    let p5 = take_bool(b, p4)->Some_0.1;
    let n = take_u32(b, p5)->Some_0;
    lemma_id_items_len(b, n.1, n.0 as nat);
}

} // verus!
