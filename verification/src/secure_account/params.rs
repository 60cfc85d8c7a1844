//! The byte layout of operation parameters, and of the data an operation is
//! authenticated over.
use vstd::prelude::*;
use crate::account::{
    ids_bytes, ids_view, meta_bytes, meta_fits, meta_view, opt_fits, opt_string_bytes,
    opt_string_view, read_ids, read_opt_meta, read_opt_string, take_ids, take_opt_meta,
    take_opt_string, write_ids, write_opt_string, MetaView,
};
use crate::auth::{AuthCredential, SignatureType};
use crate::codec::{
    read_bytes, read_id, read_string, read_u32, read_u64, read_u8, take_bytes, take_id,
    take_string, take_u32, take_u64, take_u8, write_id,
};
use crate::crypto::Signature;
use crate::hashing::{append_le32, le32};
use crate::id::UnitsObjectId;
use crate::secure_account::codec::signature_type_of;
use crate::secure_account::{
    meta_from_entries, AddRecoveryAddressParams, CreateAccountParams, DeactivateAccountParams,
    FlexAddRecoveryAddressParams, FlexCreateAccountParams, FlexDeactivateAccountParams,
    FlexReactivateAccountParams, FlexRemoveRecoveryAddressParams, FlexUpdateAccountParams,
    GetAccountParams, MetadataMap, ReactivateAccountParams, RemoveRecoveryAddressParams,
    UpdateAccountParams,
};

verus! {

/// The account fields an operation sets: username, display name, metadata and
/// recovery identifier bytes, each optional.
pub type FieldsView = (Option<Seq<char>>, Option<Seq<char>>, Option<MetaView>, Option<Seq<Seq<u8>>>);

/// The fields an update sets: account identifier bytes, username, display name
/// and metadata, the last three optional.
pub type UpdateView = (Seq<u8>, Option<Seq<char>>, Option<Seq<char>>, Option<MetaView>);

/// The view of optional metadata.
pub open spec fn opt_meta_view(o: Option<MetadataMap>) -> Option<MetaView> {
    match o {
        Some(m) => Some(m@),
        None => None,
    }
}

/// The view of optional identifiers.
pub open spec fn opt_ids_view(o: Option<Vec<UnitsObjectId>>) -> Option<Seq<Seq<u8>>> {
    match o {
        Some(v) => Some(ids_view(v@)),
        None => None,
    }
}

/// The view of an optional signature.
pub open spec fn opt_signature_view(o: Option<Signature>) -> Option<Seq<u8>> {
    match o {
        Some(s) => Some(s.bytes@),
        None => None,
    }
}

/// The optional metadata at `pos`, as a map: later entries replace earlier
/// ones with the same key.
pub open spec fn take_meta_param(b: Seq<u8>, pos: int) -> Option<(Option<MetaView>, int)> {
    match take_opt_meta(b, pos) {
        Some((Some(m), p)) => Some((Some(meta_from_entries(m)), p)),
        Some((None, p)) => Some((None, p)),
        None => None,
    }
}

/// The optional identifiers at `pos`.
pub open spec fn take_opt_ids(b: Seq<u8>, pos: int) -> Option<(Option<Seq<Seq<u8>>>, int)> {
    match take_u8(b, pos) {
        Some((0, p)) => Some((None, p)),
        Some((1, p)) => match take_ids(b, p) {
            Some((s, q)) => Some((Some(s), q)),
            None => None,
        },
        _ => None,
    }
}

/// The signature at `pos`: its 64 bytes.
pub open spec fn take_signature(b: Seq<u8>, pos: int) -> Option<(Seq<u8>, int)> {
    take_bytes(b, pos, 64)
}

/// The optional signature at `pos`.
pub open spec fn take_opt_signature(b: Seq<u8>, pos: int) -> Option<(Option<Seq<u8>>, int)> {
    match take_u8(b, pos) {
        Some((0, p)) => Some((None, p)),
        Some((1, p)) => match take_signature(b, p) {
            Some((s, q)) => Some((Some(s), q)),
            None => None,
        },
        _ => None,
    }
}

/// The byte vector at `pos`: a count, then the bytes.
pub open spec fn take_vec_bytes(b: Seq<u8>, pos: int) -> Option<(Seq<u8>, int)> {
    match take_u32(b, pos) {
        Some((n, p)) => take_bytes(b, p, n as int),
        None => None,
    }
}

/// The position after the credential encoded at `pos`: a tag, then the
/// fields of that kind of credential.
pub open spec fn take_credential(b: Seq<u8>, pos: int) -> Option<int> {
    match take_u8(b, pos) {
        Some((0, p)) => match take_u8(b, p) {
            Some((t, q)) => if signature_type_of(t) is Some {
                match take_vec_bytes(b, q) {
                    Some((_, r)) => match take_vec_bytes(b, r) {
                        Some((_, e)) => Some(e),
                        None => None,
                    },
                    None => None,
                }
            } else {
                None
            },
            None => None,
        },
        Some((1, p)) => match take_string(b, p) {
            Some((_, q)) => match take_u64(b, q) {
                Some((_, e)) => Some(e),
                None => None,
            },
            None => None,
        },
        Some((2, p)) => match take_string(b, p) {
            Some((_, q)) => match take_vec_bytes(b, q) {
                Some((_, e)) => Some(e),
                None => None,
            },
            None => None,
        },
        Some((3, p)) => match take_string(b, p) {
            Some((_, q)) => match take_vec_bytes(b, q) {
                Some((_, e)) => Some(e),
                None => None,
            },
            None => None,
        },
        Some((4, p)) => match take_id(b, p) {
            Some((_, q)) => match take_vec_bytes(b, q) {
                Some((_, e)) => Some(e),
                None => None,
            },
            None => None,
        },
        _ => None,
    }
}

/// `c` is the credential encoded at `pos`: the kind's tag, then its fields.
pub open spec fn credential_is(b: Seq<u8>, pos: int, c: AuthCredential) -> bool {
    match c {
        AuthCredential::Signature { signature_type, signature_bytes, public_key } => match take_u8(b, pos) {
            Some((0, p)) => match take_u8(b, p) {
                Some((t, q)) => signature_type_of(t) == Some(signature_type) && match take_vec_bytes(b, q) {
                    Some((sb, r)) => sb == signature_bytes@ && match take_vec_bytes(b, r) {
                        Some((pk, _)) => pk == public_key@,
                        None => false,
                    },
                    None => false,
                },
                None => false,
            },
            _ => false,
        },
        AuthCredential::TimeBasedCode { code, timestamp } => match take_u8(b, pos) {
            Some((1, p)) => match take_string(b, p) {
                Some((cd, q)) => cd == code@ && match take_u64(b, q) {
                    Some((ts, _)) => ts == timestamp,
                    None => false,
                },
                None => false,
            },
            _ => false,
        },
        AuthCredential::HardwareToken { token_id, challenge_response } => match take_u8(b, pos) {
            Some((2, p)) => match take_string(b, p) {
                Some((tk, q)) => tk == token_id@ && match take_vec_bytes(b, q) {
                    Some((cr, _)) => cr == challenge_response@,
                    None => false,
                },
                None => false,
            },
            _ => false,
        },
        AuthCredential::Biometric { biometric_type, template_hash } => match take_u8(b, pos) {
            Some((3, p)) => match take_string(b, p) {
                Some((bt, q)) => bt == biometric_type@ && match take_vec_bytes(b, q) {
                    Some((th, _)) => th == template_hash@,
                    None => false,
                },
                None => false,
            },
            _ => false,
        },
        AuthCredential::RecoveryKey { recovery_address, signature } => match take_u8(b, pos) {
            Some((4, p)) => match take_id(b, p) {
                Some((ra, q)) => ra == recovery_address.bytes@ && match take_vec_bytes(b, q) {
                    Some((sg, _)) => sg == signature@,
                    None => false,
                },
                None => false,
            },
            _ => false,
        },
    }
}

/// `creds` are the credentials encoded at `pos`: a count, then each in turn.
pub open spec fn credentials_are(b: Seq<u8>, pos: int, creds: Seq<AuthCredential>) -> bool {
    match take_u32(b, pos) {
        Some((n, p0)) => creds.len() == n && forall|i: int|
            0 <= i < creds.len() ==> credential_item_is(b, p0, i as nat, #[trigger] creds[i]),
        None => false,
    }
}

/// `c` is the credential encoded after the first `i` credentials from `p0` on.
pub open spec fn credential_item_is(b: Seq<u8>, p0: int, i: nat, c: AuthCredential) -> bool {
    match take_credential_items(b, p0, i) {
        Some(q) => credential_is(b, q, c),
        None => false,
    }
}

/// The credentials that flexible creation parameters `b` carry after their fields.
pub open spec fn flex_create_creds(b: Seq<u8>, creds: Seq<AuthCredential>) -> bool {
    match take_fields(b, 0) {
        Some((_, p)) => credentials_are(b, p, creds),
        None => false,
    }
}

/// The credentials that flexible update parameters `b` carry after their fields.
pub open spec fn flex_update_creds(b: Seq<u8>, creds: Seq<AuthCredential>) -> bool {
    match take_update(b, 0) {
        Some((_, p)) => credentials_are(b, p, creds),
        None => false,
    }
}

/// The credentials that flexible recovery parameters `b` carry after the
/// account and the address.
pub open spec fn flex_recovery_creds(b: Seq<u8>, creds: Seq<AuthCredential>) -> bool {
    match take_id(b, 0) {
        Some((_, p1)) => match take_id(b, p1) {
            Some((_, p2)) => credentials_are(b, p2, creds),
            None => false,
        },
        None => false,
    }
}

/// The credentials that flexible account parameters `b` carry after the account.
pub open spec fn flex_account_creds(b: Seq<u8>, creds: Seq<AuthCredential>) -> bool {
    match take_id(b, 0) {
        Some((_, p)) => credentials_are(b, p, creds),
        None => false,
    }
}

/// The position after the first `n` credentials encoded from `pos` on.
pub open spec fn take_credential_items(b: Seq<u8>, pos: int, n: nat) -> Option<int>
    decreases n,
{
    if n == 0 {
        Some(pos)
    } else {
        match take_credential_items(b, pos, (n - 1) as nat) {
            Some(p) => take_credential(b, p),
            None => None,
        }
    }
}

/// The position after the credentials encoded at `pos` (a count, then the credentials).
pub open spec fn take_credentials(b: Seq<u8>, pos: int) -> Option<int> {
    match take_u32(b, pos) {
        Some((n, p)) => take_credential_items(b, p, n as nat),
        None => None,
    }
}

/// The fields of a creation encoded at `pos`.
pub open spec fn take_fields(b: Seq<u8>, pos: int) -> Option<(FieldsView, int)> {
    match take_opt_string(b, pos) {
        None => None,
        Some((u, p1)) => match take_opt_string(b, p1) {
            None => None,
            Some((d, p2)) => match take_meta_param(b, p2) {
                None => None,
                Some((m, p3)) => match take_opt_ids(b, p3) {
                    None => None,
                    Some((r, p4)) => Some(((u, d, m, r), p4)),
                },
            },
        },
    }
}

/// The fields of an update encoded at `pos`.
pub open spec fn take_update(b: Seq<u8>, pos: int) -> Option<(UpdateView, int)> {
    match take_id(b, pos) {
        None => None,
        Some((id, p0)) => match take_opt_string(b, p0) {
            None => None,
            Some((u, p1)) => match take_opt_string(b, p1) {
                None => None,
                Some((d, p2)) => match take_meta_param(b, p2) {
                    None => None,
                    Some((m, p3)) => Some(((id, u, d, m), p3)),
                },
            },
        },
    }
}

/// The signed creation parameters that `b` encodes: fields and optional signature.
pub open spec fn parse_create_params(b: Seq<u8>) -> Option<(FieldsView, Option<Seq<u8>>)> {
    match take_fields(b, 0) {
        Some((f, p)) => match take_opt_signature(b, p) {
            Some((s, q)) => if q == b.len() {
                Some((f, s))
            } else {
                None
            },
            None => None,
        },
        None => None,
    }
}

/// The signed update parameters that `b` encodes: fields and signature.
pub open spec fn parse_update_params(b: Seq<u8>) -> Option<(UpdateView, Seq<u8>)> {
    match take_update(b, 0) {
        Some((f, p)) => match take_signature(b, p) {
            Some((s, q)) => if q == b.len() {
                Some((f, s))
            } else {
                None
            },
            None => None,
        },
        None => None,
    }
}

/// The signed recovery-address parameters that `b` encodes: account,
/// address and signature.
pub open spec fn parse_recovery_params(b: Seq<u8>) -> Option<(Seq<u8>, Seq<u8>, Seq<u8>)> {
    match take_id(b, 0) {
        Some((a, p1)) => match take_id(b, p1) {
            Some((r, p2)) => match take_signature(b, p2) {
                Some((s, q)) => if q == b.len() {
                    Some((a, r, s))
                } else {
                    None
                },
                None => None,
            },
            None => None,
        },
        None => None,
    }
}

/// The signed (de)activation parameters that `b` encodes: account and signature.
pub open spec fn parse_account_params(b: Seq<u8>) -> Option<(Seq<u8>, Seq<u8>)> {
    match take_id(b, 0) {
        Some((a, p1)) => match take_signature(b, p1) {
            Some((s, q)) => if q == b.len() {
                Some((a, s))
            } else {
                None
            },
            None => None,
        },
        None => None,
    }
}

/// The account that read parameters `b` name.
pub open spec fn parse_get_params(b: Seq<u8>) -> Option<Seq<u8>> {
    match take_id(b, 0) {
        Some((a, p)) => if p == b.len() {
            Some(a)
        } else {
            None
        },
        None => None,
    }
}

/// Credentials at `pos` that end the bytes.
pub open spec fn credentials_end(b: Seq<u8>, pos: int) -> bool {
    take_credentials(b, pos) == Some(b.len() as int)
}

/// The creation fields that flexible parameters `b` encode.
pub open spec fn parse_flex_create(b: Seq<u8>) -> Option<FieldsView> {
    match take_fields(b, 0) {
        Some((f, p)) => if credentials_end(b, p) {
            Some(f)
        } else {
            None
        },
        None => None,
    }
}

/// The update fields that flexible parameters `b` encode.
pub open spec fn parse_flex_update(b: Seq<u8>) -> Option<UpdateView> {
    match take_update(b, 0) {
        Some((f, p)) => if credentials_end(b, p) {
            Some(f)
        } else {
            None
        },
        None => None,
    }
}

/// The account and address that flexible recovery parameters `b` encode.
pub open spec fn parse_flex_recovery(b: Seq<u8>) -> Option<(Seq<u8>, Seq<u8>)> {
    match take_id(b, 0) {
        Some((a, p1)) => match take_id(b, p1) {
            Some((r, p2)) => if credentials_end(b, p2) {
                Some((a, r))
            } else {
                None
            },
            None => None,
        },
        None => None,
    }
}

/// The account that flexible (de)activation parameters `b` encode.
pub open spec fn parse_flex_account(b: Seq<u8>) -> Option<Seq<u8>> {
    match take_id(b, 0) {
        Some((a, p)) => if credentials_end(b, p) {
            Some(a)
        } else {
            None
        },
        None => None,
    }
}

/// The encoding of optional metadata.
pub open spec fn opt_meta_bytes(o: Option<MetaView>) -> Seq<u8> {
    match o {
        Some(m) => seq![1u8] + meta_bytes(m),
        None => seq![0u8],
    }
}

/// The encoding of optional identifiers.
pub open spec fn opt_ids_bytes(o: Option<Seq<Seq<u8>>>) -> Seq<u8> {
    match o {
        Some(s) => seq![1u8] + ids_bytes(s),
        None => seq![0u8],
    }
}

/// The encoding of creation fields.
pub open spec fn fields_bytes(f: FieldsView) -> Seq<u8> {
    opt_string_bytes(f.0) + opt_string_bytes(f.1) + opt_meta_bytes(f.2) + opt_ids_bytes(f.3)
}

/// The encoding of update fields.
pub open spec fn update_bytes(f: UpdateView) -> Seq<u8> {
    f.0 + opt_string_bytes(f.1) + opt_string_bytes(f.2) + opt_meta_bytes(f.3)
}

/// Creation fields can be encoded.
pub open spec fn fields_fit(f: FieldsView) -> bool {
    &&& opt_fits(f.0)
    &&& opt_fits(f.1)
    &&& f.2 matches Some(m) ==> meta_fits(m)
    &&& f.3 matches Some(s) ==> s.len() <= u32::MAX
}

/// Update fields can be encoded.
pub open spec fn update_fits(f: UpdateView) -> bool {
    &&& opt_fits(f.1)
    &&& opt_fits(f.2)
    &&& f.3 matches Some(m) ==> meta_fits(m)
}

fn read_meta_param(b: &[u8], pos: usize) -> (r: Option<(Option<MetadataMap>, usize)>)
    ensures
        r is Some <==> take_meta_param(b@, pos as int) is Some,
        r matches Some((o, p)) ==> take_meta_param(b@, pos as int) == Some((opt_meta_view(o), p as int)),
{
    match read_opt_meta(b, pos) {
        Some((Some(entries), p)) => Some((Some(MetadataMap::from_entries(entries)), p)),
        Some((None, p)) => Some((None, p)),
        None => None,
    }
}

fn read_opt_ids(b: &[u8], pos: usize) -> (r: Option<(Option<Vec<UnitsObjectId>>, usize)>)
    ensures
        r is Some <==> take_opt_ids(b@, pos as int) is Some,
        r matches Some((o, p)) ==> take_opt_ids(b@, pos as int) == Some((opt_ids_view(o), p as int)),
{
    match read_u8(b, pos) {
        Some((0, p)) => Some((None, p)),
        Some((1, p)) => match read_ids(b, p) {
            Some((s, q)) => Some((Some(s), q)),
            None => None,
        },
        _ => None,
    }
}

fn read_signature(b: &[u8], pos: usize) -> (r: Option<(Signature, usize)>)
    ensures
        r is Some <==> take_signature(b@, pos as int) is Some,
        r matches Some((s, p)) ==> take_signature(b@, pos as int) == Some((s.bytes@, p as int)),
{
    match read_bytes(b, pos, 64) {
        Some((d, p)) => match Signature::from_slice(d.as_slice()) {
            Ok(s) => Some((s, p)),
            Err(_) => None,
        },
        None => None,
    }
}

fn read_opt_signature(b: &[u8], pos: usize) -> (r: Option<(Option<Signature>, usize)>)
    ensures
        r is Some <==> take_opt_signature(b@, pos as int) is Some,
        r matches Some((o, p)) ==> take_opt_signature(b@, pos as int) == Some(
            (opt_signature_view(o), p as int),
        ),
{
    match read_u8(b, pos) {
        Some((0, p)) => Some((None, p)),
        Some((1, p)) => match read_signature(b, p) {
            Some((s, q)) => Some((Some(s), q)),
            None => None,
        },
        _ => None,
    }
}

fn read_vec_bytes(b: &[u8], pos: usize) -> (r: Option<(Vec<u8>, usize)>)
    ensures
        r is Some <==> take_vec_bytes(b@, pos as int) is Some,
        r matches Some((d, p)) ==> take_vec_bytes(b@, pos as int) == Some((d@, p as int)),
{
    match read_u32(b, pos) {
        Some((n, p)) => read_bytes(b, p, n as usize),
        None => None,
    }
}

fn read_signature_type(b: &[u8], pos: usize) -> (r: Option<(SignatureType, usize)>)
    ensures
        r is Some <==> (take_u8(b@, pos as int) matches Some((t, _)) && signature_type_of(t) is Some),
        r matches Some((t, p)) ==> take_u8(b@, pos as int) matches Some((x, q)) && signature_type_of(x)
            == Some(t) && q == p,
{
    match read_u8(b, pos) {
        Some((0, p)) => Some((SignatureType::Ed25519, p)),
        Some((1, p)) => Some((SignatureType::EcdsaSecp256k1, p)),
        Some((2, p)) => Some((SignatureType::EcdsaSecp256r1, p)),
        Some((3, p)) => Some((SignatureType::Rsa2048, p)),
        Some((4, p)) => Some((SignatureType::Rsa4096, p)),
        _ => None,
    }
}

/// Read the credential encoded at `pos`.
fn read_credential(b: &[u8], pos: usize) -> (r: Option<(AuthCredential, usize)>)
    ensures
        r is Some <==> take_credential(b@, pos as int) is Some,
        r matches Some((_, p)) ==> take_credential(b@, pos as int) == Some(p as int),
        r matches Some((c, _)) ==> credential_is(b@, pos as int, c),
{
    match read_u8(b, pos) {
        Some((0, p)) => {
            let (signature_type, q) = match read_signature_type(b, p) {
                Some(x) => x,
                None => {
                    return None;
                },
            };
            let (signature_bytes, r) = match read_vec_bytes(b, q) {
                Some(x) => x,
                None => {
                    return None;
                },
            };
            let (public_key, e) = match read_vec_bytes(b, r) {
                Some(x) => x,
                None => {
                    return None;
                },
            };
            Some((AuthCredential::Signature { signature_type, signature_bytes, public_key }, e))
        },
        Some((1, p)) => {
            let (code, q) = match read_string(b, p) {
                Some(x) => x,
                None => {
                    return None;
                },
            };
            let (timestamp, e) = match read_u64(b, q) {
                Some(x) => x,
                None => {
                    return None;
                },
            };
            Some((AuthCredential::TimeBasedCode { code, timestamp }, e))
        },
        Some((2, p)) => {
            let (token_id, q) = match read_string(b, p) {
                Some(x) => x,
                None => {
                    return None;
                },
            };
            let (challenge_response, e) = match read_vec_bytes(b, q) {
                Some(x) => x,
                None => {
                    return None;
                },
            };
            Some((AuthCredential::HardwareToken { token_id, challenge_response }, e))
        },
        Some((3, p)) => {
            let (biometric_type, q) = match read_string(b, p) {
                Some(x) => x,
                None => {
                    return None;
                },
            };
            let (template_hash, e) = match read_vec_bytes(b, q) {
                Some(x) => x,
                None => {
                    return None;
                },
            };
            Some((AuthCredential::Biometric { biometric_type, template_hash }, e))
        },
        Some((4, p)) => {
            let (recovery_address, q) = match read_id(b, p) {
                Some(x) => x,
                None => {
                    return None;
                },
            };
            let (signature, e) = match read_vec_bytes(b, q) {
                Some(x) => x,
                None => {
                    return None;
                },
            };
            Some((AuthCredential::RecoveryKey { recovery_address, signature }, e))
        },
        _ => None,
    }
}

proof fn lemma_credential_items_stuck(b: Seq<u8>, pos: int, i: nat, n: nat)
    requires
        i <= n,
        take_credential_items(b, pos, i) is None,
    ensures
        take_credential_items(b, pos, n) is None,
    decreases n - i,
{
    if i < n {
        lemma_credential_items_stuck(b, pos, i + 1, n);
    }
}

/// Read the credentials encoded at `pos`.
fn read_credentials(b: &[u8], pos: usize) -> (r: Option<(Vec<AuthCredential>, usize)>)
    ensures
        r is Some <==> take_credentials(b@, pos as int) is Some,
        r matches Some((_, p)) ==> take_credentials(b@, pos as int) == Some(p as int),
        r matches Some((cs, _)) ==> credentials_are(b@, pos as int, cs@),
{
    let (n, p0) = match read_u32(b, pos) {
        Some(x) => x,
        None => {
            return None;
        },
    };
    let mut out: Vec<AuthCredential> = Vec::new();
    let mut p = p0;
    let mut i: u32 = 0;
    while i < n
        invariant
            i <= n,
            take_credentials(b@, pos as int) == take_credential_items(b@, p0 as int, n as nat),
            take_credential_items(b@, p0 as int, i as nat) == Some(p as int),
            take_u32(b@, pos as int) == Some((n, p0 as int)),
            out@.len() == i,
            forall|j: int| 0 <= j < i ==> credential_item_is(b@, p0 as int, j as nat, #[trigger] out@[j]),
        decreases n - i,
    {
        let (c, q) = match read_credential(b, p) {
            Some(x) => x,
            None => {
                proof {
                    lemma_credential_items_stuck(b@, p0 as int, (i + 1) as nat, n as nat);
                }
                return None;
            },
        };
        let ghost before = out@;
        out.push(c);
        proof {
            assert forall|j: int| 0 <= j < i + 1 implies credential_item_is(b@, p0 as int, j as nat, #[trigger] out@[j]) by {
                if j < i {
                    assert(out@[j] == before[j]);
                } else {
                    assert(j == i);
                    assert(out@[j] == c);
                    assert(take_credential_items(b@, p0 as int, j as nat) == Some(p as int));
                    assert(credential_is(b@, p as int, c));
                }
            }
        }
        p = q;
        i = i + 1;
    }
    Some((out, p))
}

/// Whether the credentials at `pos` end the bytes.
fn read_final_credentials(b: &[u8], pos: usize) -> (r: Option<Vec<AuthCredential>>)
    ensures
        r is Some <==> credentials_end(b@, pos as int),
        r matches Some(cs) ==> credentials_are(b@, pos as int, cs@),
{
    match read_credentials(b, pos) {
        Some((c, p)) => if p == b.len() {
            Some(c)
        } else {
            None
        },
        None => None,
    }
}

fn read_fields(b: &[u8], pos: usize) -> (r: Option<
    (Option<String>, Option<String>, Option<MetadataMap>, Option<Vec<UnitsObjectId>>, usize),
>)
    ensures
        r is Some <==> take_fields(b@, pos as int) is Some,
        r matches Some((u, d, m, rec, p)) ==> take_fields(b@, pos as int) == Some(
            (
                (opt_string_view(u), opt_string_view(d), opt_meta_view(m), opt_ids_view(rec)),
                p as int,
            ),
        ),
{
    let (u, p1) = match read_opt_string(b, pos) {
        Some(x) => x,
        None => {
            return None;
        },
    };
    let (d, p2) = match read_opt_string(b, p1) {
        Some(x) => x,
        None => {
            return None;
        },
    };
    let (m, p3) = match read_meta_param(b, p2) {
        Some(x) => x,
        None => {
            return None;
        },
    };
    let (rec, p4) = match read_opt_ids(b, p3) {
        Some(x) => x,
        None => {
            return None;
        },
    };
    Some((u, d, m, rec, p4))
}

fn read_update(b: &[u8], pos: usize) -> (r: Option<
    (UnitsObjectId, Option<String>, Option<String>, Option<MetadataMap>, usize),
>)
    ensures
        r is Some <==> take_update(b@, pos as int) is Some,
        r matches Some((id, u, d, m, p)) ==> take_update(b@, pos as int) == Some(
            ((id.bytes@, opt_string_view(u), opt_string_view(d), opt_meta_view(m)), p as int),
        ),
{
    let (id, p0) = match read_id(b, pos) {
        Some(x) => x,
        None => {
            return None;
        },
    };
    let (u, p1) = match read_opt_string(b, p0) {
        Some(x) => x,
        None => {
            return None;
        },
    };
    let (d, p2) = match read_opt_string(b, p1) {
        Some(x) => x,
        None => {
            return None;
        },
    };
    let (m, p3) = match read_meta_param(b, p2) {
        Some(x) => x,
        None => {
            return None;
        },
    };
    Some((id, u, d, m, p3))
}

impl CreateAccountParams {
    /// The fields this creation sets.
    pub open spec fn fields(&self) -> FieldsView {
        (
            opt_string_view(self.username),
            opt_string_view(self.display_name),
            opt_meta_view(self.metadata),
            opt_ids_view(self.recovery_addresses),
        )
    }

    /// Decode the parameters from exactly the bytes `b`.
    pub fn decode(b: &[u8]) -> (r: Option<Self>)
        ensures
            match parse_create_params(b@) {
                Some((f, s)) => r matches Some(p) && p.fields() == f && opt_signature_view(p.signature)
                    == s,
                None => r is None,
            },
    {
        let (username, display_name, metadata, recovery_addresses, p) = match read_fields(b, 0) {
            Some(x) => x,
            None => {
                return None;
            },
        };
        let (signature, q) = match read_opt_signature(b, p) {
            Some(x) => x,
            None => {
                return None;
            },
        };
        if q != b.len() {
            return None;
        }
        Some(CreateAccountParams { username, display_name, metadata, recovery_addresses, signature })
    }
}

impl UpdateAccountParams {
    /// The fields this update sets.
    pub open spec fn fields(&self) -> UpdateView {
        (
            self.account_id.bytes@,
            opt_string_view(self.username),
            opt_string_view(self.display_name),
            opt_meta_view(self.metadata),
        )
    }

    /// Decode the parameters from exactly the bytes `b`.
    pub fn decode(b: &[u8]) -> (r: Option<Self>)
        ensures
            match parse_update_params(b@) {
                Some((f, s)) => r matches Some(p) && p.fields() == f && p.signature.bytes@ == s,
                None => r is None,
            },
    {
        let (account_id, username, display_name, metadata, p) = match read_update(b, 0) {
            Some(x) => x,
            None => {
                return None;
            },
        };
        let (signature, q) = match read_signature(b, p) {
            Some(x) => x,
            None => {
                return None;
            },
        };
        if q != b.len() {
            return None;
        }
        Some(UpdateAccountParams { account_id, username, display_name, metadata, signature })
    }
}

fn read_recovery_params(b: &[u8]) -> (r: Option<(UnitsObjectId, UnitsObjectId, Signature)>)
    ensures
        match parse_recovery_params(b@) {
            Some((a, x, s)) => r matches Some((ra, rx, rs)) && ra.bytes@ == a && rx.bytes@ == x
                && rs.bytes@ == s,
            None => r is None,
        },
{
    let (a, p1) = match read_id(b, 0) {
        Some(x) => x,
        None => {
            return None;
        },
    };
    let (x, p2) = match read_id(b, p1) {
        Some(x) => x,
        None => {
            return None;
        },
    };
    let (s, q) = match read_signature(b, p2) {
        Some(x) => x,
        None => {
            return None;
        },
    };
    if q != b.len() {
        return None;
    }
    Some((a, x, s))
}

fn read_account_params(b: &[u8]) -> (r: Option<(UnitsObjectId, Signature)>)
    ensures
        match parse_account_params(b@) {
            Some((a, s)) => r matches Some((ra, rs)) && ra.bytes@ == a && rs.bytes@ == s,
            None => r is None,
        },
{
    let (a, p1) = match read_id(b, 0) {
        Some(x) => x,
        None => {
            return None;
        },
    };
    let (s, q) = match read_signature(b, p1) {
        Some(x) => x,
        None => {
            return None;
        },
    };
    if q != b.len() {
        return None;
    }
    Some((a, s))
}

impl AddRecoveryAddressParams {
    /// Decode the parameters from exactly the bytes `b`.
    pub fn decode(b: &[u8]) -> (r: Option<Self>)
        ensures
            match parse_recovery_params(b@) {
                Some((a, x, s)) => r matches Some(p) && p.account_id.bytes@ == a
                    && p.recovery_address.bytes@ == x && p.signature.bytes@ == s,
                None => r is None,
            },
    {
        match read_recovery_params(b) {
            Some((account_id, recovery_address, signature)) => Some(
                AddRecoveryAddressParams { account_id, recovery_address, signature },
            ),
            None => None,
        }
    }
}

impl RemoveRecoveryAddressParams {
    /// Decode the parameters from exactly the bytes `b`.
    pub fn decode(b: &[u8]) -> (r: Option<Self>)
        ensures
            match parse_recovery_params(b@) {
                Some((a, x, s)) => r matches Some(p) && p.account_id.bytes@ == a
                    && p.recovery_address.bytes@ == x && p.signature.bytes@ == s,
                None => r is None,
            },
    {
        match read_recovery_params(b) {
            Some((account_id, recovery_address, signature)) => Some(
                RemoveRecoveryAddressParams { account_id, recovery_address, signature },
            ),
            None => None,
        }
    }
}

impl DeactivateAccountParams {
    /// Decode the parameters from exactly the bytes `b`.
    pub fn decode(b: &[u8]) -> (r: Option<Self>)
        ensures
            match parse_account_params(b@) {
                Some((a, s)) => r matches Some(p) && p.account_id.bytes@ == a && p.signature.bytes@ == s,
                None => r is None,
            },
    {
        match read_account_params(b) {
            Some((account_id, signature)) => Some(DeactivateAccountParams { account_id, signature }),
            None => None,
        }
    }
}

impl ReactivateAccountParams {
    /// Decode the parameters from exactly the bytes `b`.
    pub fn decode(b: &[u8]) -> (r: Option<Self>)
        ensures
            match parse_account_params(b@) {
                Some((a, s)) => r matches Some(p) && p.account_id.bytes@ == a && p.signature.bytes@ == s,
                None => r is None,
            },
    {
        match read_account_params(b) {
            Some((account_id, signature)) => Some(ReactivateAccountParams { account_id, signature }),
            None => None,
        }
    }
}

impl GetAccountParams {
    /// Decode the parameters from exactly the bytes `b`.
    pub fn decode(b: &[u8]) -> (r: Option<Self>)
        ensures
            match parse_get_params(b@) {
                Some(a) => r matches Some(p) && p.account_id.bytes@ == a,
                None => r is None,
            },
    {
        match read_id(b, 0) {
            Some((account_id, p)) => if p == b.len() {
                Some(GetAccountParams { account_id })
            } else {
                None
            },
            None => None,
        }
    }
}

impl FlexCreateAccountParams {
    /// The fields this creation sets.
    pub open spec fn fields(&self) -> FieldsView {
        (
            opt_string_view(self.username),
            opt_string_view(self.display_name),
            opt_meta_view(self.metadata),
            opt_ids_view(self.recovery_addresses),
        )
    }

    /// Decode the parameters from exactly the bytes `b`.
    pub fn decode(b: &[u8]) -> (r: Option<Self>)
        ensures
            match parse_flex_create(b@) {
                Some(f) => r matches Some(p) && p.fields() == f,
                None => r is None,
            },
            r matches Some(p) ==> flex_create_creds(b@, p.credentials@),
    {
        let (username, display_name, metadata, recovery_addresses, p) = match read_fields(b, 0) {
            Some(x) => x,
            None => {
                return None;
            },
        };
        let credentials = match read_final_credentials(b, p) {
            Some(c) => c,
            None => {
                return None;
            },
        };
        Some(FlexCreateAccountParams { username, display_name, metadata, recovery_addresses, credentials })
    }
}

impl FlexUpdateAccountParams {
    /// The fields this update sets.
    pub open spec fn fields(&self) -> UpdateView {
        (
            self.account_id.bytes@,
            opt_string_view(self.username),
            opt_string_view(self.display_name),
            opt_meta_view(self.metadata),
        )
    }

    /// Decode the parameters from exactly the bytes `b`.
    pub fn decode(b: &[u8]) -> (r: Option<Self>)
        ensures
            match parse_flex_update(b@) {
                Some(f) => r matches Some(p) && p.fields() == f,
                None => r is None,
            },
            r matches Some(p) ==> flex_update_creds(b@, p.credentials@),
    {
        let (account_id, username, display_name, metadata, p) = match read_update(b, 0) {
            Some(x) => x,
            None => {
                return None;
            },
        };
        let credentials = match read_final_credentials(b, p) {
            Some(c) => c,
            None => {
                return None;
            },
        };
        Some(FlexUpdateAccountParams { account_id, username, display_name, metadata, credentials })
    }
}

fn read_flex_recovery(b: &[u8]) -> (r: Option<(UnitsObjectId, UnitsObjectId, Vec<AuthCredential>)>)
    ensures
        match parse_flex_recovery(b@) {
            Some((a, x)) => r matches Some((ra, rx, _)) && ra.bytes@ == a && rx.bytes@ == x,
            None => r is None,
        },
        r matches Some((_, _, c)) ==> flex_recovery_creds(b@, c@),
{
    let (a, p1) = match read_id(b, 0) {
        Some(x) => x,
        None => {
            return None;
        },
    };
    let (x, p2) = match read_id(b, p1) {
        Some(x) => x,
        None => {
            return None;
        },
    };
    match read_final_credentials(b, p2) {
        Some(c) => Some((a, x, c)),
        None => None,
    }
}

fn read_flex_account(b: &[u8]) -> (r: Option<(UnitsObjectId, Vec<AuthCredential>)>)
    ensures
        match parse_flex_account(b@) {
            Some(a) => r matches Some((ra, _)) && ra.bytes@ == a,
            None => r is None,
        },
        r matches Some((_, c)) ==> flex_account_creds(b@, c@),
{
    let (a, p1) = match read_id(b, 0) {
        Some(x) => x,
        None => {
            return None;
        },
    };
    match read_final_credentials(b, p1) {
        Some(c) => Some((a, c)),
        None => None,
    }
}

impl FlexAddRecoveryAddressParams {
    /// Decode the parameters from exactly the bytes `b`.
    pub fn decode(b: &[u8]) -> (r: Option<Self>)
        ensures
            match parse_flex_recovery(b@) {
                Some((a, x)) => r matches Some(p) && p.account_id.bytes@ == a && p.recovery_address.bytes@ == x,
                None => r is None,
            },
            r matches Some(p) ==> flex_recovery_creds(b@, p.credentials@),
    {
        match read_flex_recovery(b) {
            Some((account_id, recovery_address, credentials)) => Some(
                FlexAddRecoveryAddressParams { account_id, recovery_address, credentials },
            ),
            None => None,
        }
    }
}

impl FlexRemoveRecoveryAddressParams {
    /// Decode the parameters from exactly the bytes `b`.
    pub fn decode(b: &[u8]) -> (r: Option<Self>)
        ensures
            match parse_flex_recovery(b@) {
                Some((a, x)) => r matches Some(p) && p.account_id.bytes@ == a && p.recovery_address.bytes@ == x,
                None => r is None,
            },
            r matches Some(p) ==> flex_recovery_creds(b@, p.credentials@),
    {
        match read_flex_recovery(b) {
            Some((account_id, recovery_address, credentials)) => Some(
                FlexRemoveRecoveryAddressParams { account_id, recovery_address, credentials },
            ),
            None => None,
        }
    }
}

impl FlexDeactivateAccountParams {
    /// Decode the parameters from exactly the bytes `b`.
    pub fn decode(b: &[u8]) -> (r: Option<Self>)
        ensures
            match parse_flex_account(b@) {
                Some(a) => r matches Some(p) && p.account_id.bytes@ == a,
                None => r is None,
            },
            r matches Some(p) ==> flex_account_creds(b@, p.credentials@),
    {
        match read_flex_account(b) {
            Some((account_id, credentials)) => Some(FlexDeactivateAccountParams { account_id, credentials }),
            None => None,
        }
    }
}

impl FlexReactivateAccountParams {
    /// Decode the parameters from exactly the bytes `b`.
    pub fn decode(b: &[u8]) -> (r: Option<Self>)
        ensures
            match parse_flex_account(b@) {
                Some(a) => r matches Some(p) && p.account_id.bytes@ == a,
                None => r is None,
            },
            r matches Some(p) ==> flex_account_creds(b@, p.credentials@),
    {
        match read_flex_account(b) {
            Some((account_id, credentials)) => Some(FlexReactivateAccountParams { account_id, credentials }),
            None => None,
        }
    }
}

fn write_opt_meta(v: &mut Vec<u8>, o: &Option<MetadataMap>) -> (ok: bool)
    ensures
        ok == (opt_meta_view(*o) matches Some(m) ==> meta_fits(m)),
        ok ==> final(v)@ == old(v)@ + opt_meta_bytes(opt_meta_view(*o)),
{
    match o {
        Some(m) => {
            v.push(1u8);
            let ok = m.write_to(v);
            proof {
                if ok {
                    assert(v@ =~= old(v)@ + opt_meta_bytes(opt_meta_view(*o)));
                }
            }
            ok
        },
        None => {
            v.push(0u8);
            assert(v@ =~= old(v)@ + opt_meta_bytes(opt_meta_view(*o)));
            true
        },
    }
}

fn write_opt_ids(v: &mut Vec<u8>, o: &Option<Vec<UnitsObjectId>>) -> (ok: bool)
    ensures
        ok == (opt_ids_view(*o) matches Some(s) ==> s.len() <= u32::MAX),
        ok ==> final(v)@ == old(v)@ + opt_ids_bytes(opt_ids_view(*o)),
{
    match o {
        Some(ids) => {
            v.push(1u8);
            let ok = write_ids(v, ids);
            proof {
                assert(ids_view(ids@).len() == ids@.len());
                if ok {
                    assert(v@ =~= old(v)@ + opt_ids_bytes(opt_ids_view(*o)));
                }
            }
            ok
        },
        None => {
            v.push(0u8);
            assert(v@ =~= old(v)@ + opt_ids_bytes(opt_ids_view(*o)));
            true
        },
    }
}

fn write_update_fields(
    v: &mut Vec<u8>,
    id: &UnitsObjectId,
    u: &Option<String>,
    d: &Option<String>,
    m: &Option<MetadataMap>,
) -> (ok: bool)
    ensures
        ok == update_fits((id.bytes@, opt_string_view(*u), opt_string_view(*d), opt_meta_view(*m))),
        ok ==> final(v)@ == old(v)@ + update_bytes(
            (id.bytes@, opt_string_view(*u), opt_string_view(*d), opt_meta_view(*m)),
        ),
{
    write_id(v, id);
    if !write_opt_string(v, u) {
        return false;
    }
    if !write_opt_string(v, d) {
        return false;
    }
    if !write_opt_meta(v, m) {
        return false;
    }
    assert(v@ =~= old(v)@ + update_bytes(
        (id.bytes@, opt_string_view(*u), opt_string_view(*d), opt_meta_view(*m)),
    ));
    true
}

/// The signature's 64 bytes, zeroed: what stands for it in the data an
/// operation is signed over.
pub open spec fn zero_signature() -> Seq<u8> {
    Seq::new(64, |i: int| 0u8)
}

/// The data a signed update is signed over: its parameters with the signature
/// zeroed; `None` when a length does not fit in 32 bits.
pub fn signed_update_data(p: &UpdateAccountParams) -> (r: Option<Vec<u8>>)
    ensures
        match r {
            Some(v) => update_fits(p.fields()) && v@ == update_bytes(p.fields()) + zero_signature(),
            None => !update_fits(p.fields()),
        },
{
    let mut v: Vec<u8> = Vec::new();
    if !write_update_fields(&mut v, &p.account_id, &p.username, &p.display_name, &p.metadata) {
        return None;
    }
    let ghost before = v@;
    let mut i: usize = 0;
    while i < 64
        invariant
            i <= 64,
            v@ == before + Seq::new(i as nat, |j: int| 0u8),
        decreases 64 - i,
    {
        v.push(0u8);
        i = i + 1;
        assert(v@ =~= before + Seq::new(i as nat, |j: int| 0u8));
    }
    Some(v)
}

/// The data a flexible creation is authenticated over: its parameters with no
/// credentials.
pub fn flex_create_data(p: &FlexCreateAccountParams) -> (r: Option<Vec<u8>>)
    ensures
        match r {
            Some(v) => fields_fit(p.fields()) && v@ == fields_bytes(p.fields()) + le32(0),
            None => !fields_fit(p.fields()),
        },
{
    let mut v: Vec<u8> = Vec::new();
    if !write_opt_string(&mut v, &p.username) {
        return None;
    }
    if !write_opt_string(&mut v, &p.display_name) {
        return None;
    }
    if !write_opt_meta(&mut v, &p.metadata) {
        return None;
    }
    if !write_opt_ids(&mut v, &p.recovery_addresses) {
        return None;
    }
    append_le32(&mut v, 0);
    assert(v@ =~= fields_bytes(p.fields()) + le32(0));
    Some(v)
}

/// The data a flexible update is authenticated over: its parameters with no
/// credentials.
pub fn flex_update_data(p: &FlexUpdateAccountParams) -> (r: Option<Vec<u8>>)
    ensures
        match r {
            Some(v) => update_fits(p.fields()) && v@ == update_bytes(p.fields()) + le32(0),
            None => !update_fits(p.fields()),
        },
{
    let mut v: Vec<u8> = Vec::new();
    if !write_update_fields(&mut v, &p.account_id, &p.username, &p.display_name, &p.metadata) {
        return None;
    }
    append_le32(&mut v, 0);
    Some(v)
}

/// The data a flexible recovery-address change is authenticated over.
pub fn flex_recovery_data(account_id: &UnitsObjectId, recovery_address: &UnitsObjectId) -> (v: Vec<u8>)
    ensures
        v@ == account_id.bytes@ + recovery_address.bytes@ + le32(0),
{
    let mut v: Vec<u8> = Vec::new();
    write_id(&mut v, account_id);
    write_id(&mut v, recovery_address);
    append_le32(&mut v, 0);
    assert(v@ =~= account_id.bytes@ + recovery_address.bytes@ + le32(0));
    v
}

/// The data a flexible (de)activation is authenticated over.
pub fn flex_account_data(account_id: &UnitsObjectId) -> (v: Vec<u8>)
    ensures
        v@ == account_id.bytes@ + le32(0),
{
    let mut v: Vec<u8> = Vec::new();
    write_id(&mut v, account_id);
    append_le32(&mut v, 0);
    assert(v@ =~= account_id.bytes@ + le32(0));
    v
}

} // verus!
