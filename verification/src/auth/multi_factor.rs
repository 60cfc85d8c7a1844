//! Second factors: time-based one-time codes, hardware tokens and biometric
//! templates.
use vstd::prelude::*;
use crate::auth::{AuthContext, AuthCredential, AuthError, AuthFactor, AuthResult, Authenticator};
use crate::auth::schemes::fails_with;
use crate::hashing::{append_bytes, sha256, sha256_digest};
use crate::id::UnitsObjectId;
use crate::id_map::IdMap;
use crate::objects::bytes_equal;
use crate::text::{decimal_chars, push_char, push_decimal};

verus! {

/// Hash algorithm named by a TOTP secret.
#[derive(Debug, Clone, Copy, PartialEq, Eq, Structural)]
pub enum TotpAlgorithm {
    Sha1,
    Sha256,
    Sha512,
}

/// A TOTP secret: key bytes, number of digits (usually 6 or 8), period in
/// seconds (usually 30) and hash algorithm.
#[derive(Debug, Clone)]
pub struct TotpSecret {
    pub secret: Vec<u8>,
    pub digits: u32,
    pub period: u64,
    pub algorithm: TotpAlgorithm,
}

/// A secret codes can be computed with: a nonzero period, and at most nine
/// digits so that the modulus fits in 32 bits.
pub open spec fn totp_secret_valid(s: TotpSecret) -> bool {
    s.period > 0 && s.digits <= 9
}

/// `10` to the power `n`.
pub open spec fn pow10(n: nat) -> nat
    decreases n,
{
    if n == 0 {
        1
    } else {
        10 * pow10((n - 1) as nat)
    }
}

proof fn lemma_pow10_mono(i: nat, j: nat)
    requires
        i <= j,
    ensures
        pow10(i) <= pow10(j),
    decreases j,
{
    if i < j {
        lemma_pow10_mono(i, (j - 1) as nat);
    }
}

/// `10` to the power `n`, for `n` up to nine.
fn pow10_u32(n: u32) -> (r: u32)
    requires
        n <= 9,
    ensures
        r == pow10(n as nat),
        r >= 1,
{
    proof {
        reveal_with_fuel(pow10, 10);
        assert(pow10(9) == 1_000_000_000);
    }
    let mut r: u32 = 1;
    let mut i: u32 = 0;
    while i < n
        invariant
            i <= n <= 9,
            r == pow10(i as nat),
            r >= 1,
            pow10(9) == 1_000_000_000,
        decreases n - i,
    {
        proof {
            lemma_pow10_mono((i + 1) as nat, 9);
        }
        r = r * 10;
        i = i + 1;
    }
    r
}

/// The big-endian bytes of a 64-bit word.
pub open spec fn be64(x: u64) -> Seq<u8> {
    seq![
        ((x >> 56) & 0xff) as u8,
        ((x >> 48) & 0xff) as u8,
        ((x >> 40) & 0xff) as u8,
        ((x >> 32) & 0xff) as u8,
        ((x >> 24) & 0xff) as u8,
        ((x >> 16) & 0xff) as u8,
        ((x >> 8) & 0xff) as u8,
        (x & 0xff) as u8,
    ]
}

/// Append the big-endian bytes of `x` to `v`.
fn append_be64(v: &mut Vec<u8>, x: u64)
    ensures
        final(v)@ == old(v)@ + be64(x),
{
    v.push(((x >> 56) & 0xff) as u8);
    v.push(((x >> 48) & 0xff) as u8);
    v.push(((x >> 40) & 0xff) as u8);
    v.push(((x >> 32) & 0xff) as u8);
    v.push(((x >> 24) & 0xff) as u8);
    v.push(((x >> 16) & 0xff) as u8);
    v.push(((x >> 8) & 0xff) as u8);
    v.push((x & 0xff) as u8);
    assert(v@ =~= old(v)@ + be64(x));
}

/// The decimal digits of `n`, padded on the left with zeros to `width`
/// characters.
pub open spec fn zero_padded(n: nat, width: nat) -> Seq<char> {
    let d = decimal_chars(n);
    if d.len() >= width {
        d
    } else {
        Seq::new((width - d.len()) as nat, |i: int| '0') + d
    }
}

/// How many decimal digits `n` has.
fn decimal_len(n: u32) -> (r: u32)
    ensures
        r == decimal_chars(n as nat).len(),
        r <= n as nat + 1,
    decreases n,
{
    if n < 10 {
        1
    } else {
        decimal_len(n / 10) + 1
    }
}

/// Append `n` to `s`, zero-padded to `width` characters.
fn push_zero_padded(s: &mut String, n: u32, width: u32)
    ensures
        final(s)@ == old(s)@ + zero_padded(n as nat, width as nat),
{
    let len = decimal_len(n);
    if len < width {
        let pad = width - len;
        let mut k: u32 = 0;
        while k < pad
            invariant
                k <= pad,
                s@ == old(s)@ + Seq::new(k as nat, |i: int| '0'),
            decreases pad - k,
        {
            push_char(s, '0');
            k = k + 1;
            assert(s@ =~= old(s)@ + Seq::new(k as nat, |i: int| '0'));
        }
    }
    let ghost before = s@;
    push_decimal(s, n as u64);
    assert(s@ =~= old(s)@ + zero_padded(n as nat, width as nat));
}

/// The 31-bit value that dynamic truncation takes from a 32-byte digest: the
/// four bytes at the offset named by the low four bits of the last byte, read
/// big-endian, with the top bit cleared.
pub open spec fn dynamic_truncation(h: Seq<u8>) -> nat {
    let o = (h[31] % 16) as int;
    ((h[o] % 128) * 0x100_0000 + h[o + 1] * 0x1_0000 + h[o + 2] * 0x100 + h[o + 3]) as nat
}

/// The code of a secret for a time step: the SHA-256 digest of the key bytes
/// followed by the big-endian step, truncated dynamically, reduced modulo
/// `10^digits` and written with `digits` digits. All three algorithms take
/// this digest.
pub open spec fn totp_code(secret: TotpSecret, step: u64) -> Seq<char> {
    let h = sha256_digest(secret.secret@ + be64(step));
    zero_padded(dynamic_truncation(h) % pow10(secret.digits as nat), secret.digits as nat)
}

/// The step before `step`, or `step` itself at zero.
pub open spec fn step_before(step: u64) -> u64 {
    if step == 0 {
        0
    } else {
        (step - 1) as u64
    }
}

/// The step after `step`, wrapping to zero past the largest.
pub open spec fn step_after(step: u64) -> u64 {
    if step == u64::MAX {
        0
    } else {
        (step + 1) as u64
    }
}

/// A code is accepted at `timestamp` when it is the code of the current time
/// step or of an adjacent one (for clock skew).
pub open spec fn totp_accepts(secret: TotpSecret, code: Seq<char>, timestamp: u64) -> bool {
    let step = (timestamp / secret.period) as u64;
    ||| totp_code(secret, step_before(step)) == code
    ||| totp_code(secret, step) == code
    ||| totp_code(secret, step_after(step)) == code
}

/// Time-based one-time password authenticator: one secret per account.
pub struct TotpAuthenticator {
    secrets: IdMap<TotpSecret>,
}

impl View for TotpAuthenticator {
    type V = Map<UnitsObjectId, TotpSecret>;

    closed spec fn view(&self) -> Map<UnitsObjectId, TotpSecret> {
        self.secrets@
    }
}

impl TotpAuthenticator {
    /// Every stored secret is valid.
    #[verifier::type_invariant]
    closed spec fn inv(&self) -> bool {
        forall|k: UnitsObjectId| #[trigger] self.secrets@.dom().contains(k) ==> totp_secret_valid(
            self.secrets@[k],
        )
    }

    /// An authenticator with no secrets.
    pub fn new() -> (r: Self)
        ensures
            r@ == Map::<UnitsObjectId, TotpSecret>::empty(),
    {
        TotpAuthenticator { secrets: IdMap::new() }
    }

    /// Add (or replace) the TOTP secret of an account.
    pub fn add_secret(&mut self, account_id: UnitsObjectId, secret: TotpSecret)
        requires
            totp_secret_valid(secret),
        ensures
            final(self)@ == old(self)@.insert(account_id, secret),
    {
        proof {
            use_type_invariant(&*self);
        }
        let mut secrets = IdMap::new();
        std::mem::swap(&mut secrets, &mut self.secrets);
        secrets.insert(account_id, secret);
        self.secrets = secrets;
    }

    /// Remove the TOTP secret of an account.
    pub fn remove_secret(&mut self, account_id: &UnitsObjectId)
        ensures
            final(self)@ == old(self)@.remove(*account_id),
    {
        proof {
            use_type_invariant(&*self);
        }
        let mut secrets = IdMap::new();
        std::mem::swap(&mut secrets, &mut self.secrets);
        let _ = secrets.remove(account_id);
        self.secrets = secrets;
    }

    /// Whether `code` is accepted for the account at `timestamp`: the account
    /// must have a secret, and the code must be that of the current time step
    /// or an adjacent one.
    fn verify_totp(&self, account_id: &UnitsObjectId, code: &str, timestamp: u64) -> (r: bool)
        ensures
            r == (self@.dom().contains(*account_id) && totp_accepts(
                self@[*account_id],
                code@,
                timestamp,
            )),
    {
        proof {
            use_type_invariant(self);
        }
        let secret = match self.secrets.get(account_id) {
            Some(s) => s,
            None => {
                return false;
            },
        };
        let time_step = timestamp / secret.period;
        let given = code.to_owned();
        let before = if time_step == 0 {
            0
        } else {
            time_step - 1
        };
        let after = if time_step == u64::MAX {
            0
        } else {
            time_step + 1
        };
        if self.generate_totp_code(secret, before) == given {
            return true;
        }
        if self.generate_totp_code(secret, time_step) == given {
            return true;
        }
        if self.generate_totp_code(secret, after) == given {
            return true;
        }
        false
    }

    /// The code of `secret` for a time step.
    fn generate_totp_code(&self, secret: &TotpSecret, time_step: u64) -> (r: String)
        requires
            totp_secret_valid(*secret),
        ensures
            r@ == totp_code(*secret, time_step),
    {
        let mut time_bytes: Vec<u8> = Vec::new();
        append_be64(&mut time_bytes, time_step);
        let hash = match secret.algorithm {
            TotpAlgorithm::Sha1 => self.simple_hash(secret.secret.as_slice(), time_bytes.as_slice()),
            TotpAlgorithm::Sha256 => self.simple_hash(
                secret.secret.as_slice(),
                time_bytes.as_slice(),
            ),
            TotpAlgorithm::Sha512 => self.simple_hash(
                secret.secret.as_slice(),
                time_bytes.as_slice(),
            ),
        };
        let offset = (hash[hash.len() - 1] % 16) as usize;
        let code = (hash[offset] % 128) as u32 * 0x100_0000 + (hash[offset + 1] as u32) * 0x1_0000
            + (hash[offset + 2] as u32) * 0x100 + (hash[offset + 3] as u32);
        let code = code % pow10_u32(secret.digits);
        let mut s = String::new();
        push_zero_padded(&mut s, code, secret.digits);
        s
    }

    /// The SHA-256 digest of `key` followed by `data`.
    fn simple_hash(&self, key: &[u8], data: &[u8]) -> (r: Vec<u8>)
        ensures
            r@ == sha256_digest(key@ + data@),
            r@.len() == 32,
    {
        let mut input: Vec<u8> = Vec::new();
        append_bytes(&mut input, key);
        append_bytes(&mut input, data);
        let h = sha256(input.as_slice());
        let mut out: Vec<u8> = Vec::new();
        append_bytes(&mut out, h.as_slice());
        out
    }
}

impl Authenticator for TotpAuthenticator {
    open spec fn spec_can_handle(&self, credential: AuthCredential) -> bool {
        credential is TimeBasedCode
    }

    /// Verify a time-based code for the target account.
    fn verify(&self, credential: &AuthCredential, context: &AuthContext) -> (r: AuthResult)
        ensures
            !(credential is TimeBasedCode) ==> fails_with(r, AuthError::UnsupportedMethod),
            credential matches AuthCredential::TimeBasedCode { code, timestamp } ==> {
                &&& (r is Success) == (self@.dom().contains(context.target_account) && totp_accepts(
                    self@[context.target_account],
                    code@,
                    *timestamp,
                ))
                &&& !(r is Success) ==> fails_with(r, AuthError::InvalidCredentials)
            },
    {
        match credential {
            AuthCredential::TimeBasedCode { code, timestamp } => {
                if self.verify_totp(&context.target_account, code.as_str(), *timestamp) {
                    AuthResult::Success
                } else {
                    AuthResult::Failed(AuthError::InvalidCredentials)
                }
            },
            _ => AuthResult::Failed(AuthError::UnsupportedMethod),
        }
    }

    fn supported_factors(&self) -> (r: Vec<AuthFactor>)
        ensures
            r@ == seq![AuthFactor::TimeBasedCode],
    {
        vec![AuthFactor::TimeBasedCode]
    }

    fn can_handle(&self, credential: &AuthCredential) -> (r: bool) {
        match credential {
            AuthCredential::TimeBasedCode { .. } => true,
            _ => false,
        }
    }
}

impl Default for TotpAuthenticator {
    fn default() -> (r: Self)
        ensures
            r@ == Map::<UnitsObjectId, TotpSecret>::empty(),
    {
        Self::new()
    }
}

/// Information on a registered hardware token.
#[derive(Debug, Clone)]
pub struct TokenInfo {
    pub token_id: String,
    pub account_id: UnitsObjectId,
    pub public_key: Vec<u8>,
    pub credential_id: Vec<u8>,
}

/// The tokens of a list by identifier, later entries taking precedence.
pub open spec fn token_map(s: Seq<TokenInfo>) -> Map<Seq<char>, TokenInfo>
    decreases s.len(),
{
    if s.len() == 0 {
        Map::empty()
    } else {
        token_map(s.drop_last()).insert(s.last().token_id@, s.last())
    }
}

/// No token identifier occurs twice in the list.
pub open spec fn token_ids_distinct(s: Seq<TokenInfo>) -> bool {
    forall|i: int, j: int|
        0 <= i < s.len() && 0 <= j < s.len() && i != j ==> s[i].token_id@ != s[j].token_id@
}

/// An identifier is in the map exactly when some entry carries it.
pub proof fn lemma_token_map_dom(s: Seq<TokenInfo>, k: Seq<char>)
    ensures
        token_map(s).dom().contains(k) <==> exists|i: int| 0 <= i < s.len() && s[i].token_id@ == k,
    decreases s.len(),
{
    if s.len() > 0 {
        lemma_token_map_dom(s.drop_last(), k);
        if token_map(s.drop_last()).dom().contains(k) {
            let i = choose|i: int| 0 <= i < s.drop_last().len() && s.drop_last()[i].token_id@ == k;
            assert(s[i].token_id@ == k);
        }
        if exists|i: int| 0 <= i < s.len() && s[i].token_id@ == k {
            let i = choose|i: int| 0 <= i < s.len() && s[i].token_id@ == k;
            if i < s.len() - 1 {
                assert(s.drop_last()[i].token_id@ == k);
            }
        }
    }
}

/// With distinct identifiers, the map holds each entry under its identifier.
pub proof fn lemma_token_map_index(s: Seq<TokenInfo>, i: int)
    requires
        token_ids_distinct(s),
        0 <= i < s.len(),
    ensures
        token_map(s).dom().contains(s[i].token_id@),
        token_map(s)[s[i].token_id@] == s[i],
    decreases s.len(),
{
    if i < s.len() - 1 {
        let t = s.drop_last();
        assert(token_ids_distinct(t));
        lemma_token_map_index(t, i);
        assert(t[i] == s[i]);
        assert(s.last().token_id@ != s[i].token_id@);
    }
}

/// Hardware token authenticator (FIDO2/WebAuthn style).
pub struct HardwareTokenAuthenticator {
    registered_tokens: Vec<TokenInfo>,
}

impl View for HardwareTokenAuthenticator {
    type V = Map<Seq<char>, TokenInfo>;

    closed spec fn view(&self) -> Map<Seq<char>, TokenInfo> {
        token_map(self.registered_tokens@)
    }
}

impl HardwareTokenAuthenticator {
    /// Token identifiers are distinct.
    #[verifier::type_invariant]
    closed spec fn inv(&self) -> bool {
        token_ids_distinct(self.registered_tokens@)
    }

    /// An authenticator with no registered token.
    pub fn new() -> (r: Self)
        ensures
            r@ == Map::<Seq<char>, TokenInfo>::empty(),
    {
        HardwareTokenAuthenticator { registered_tokens: Vec::new() }
    }

    /// Position of the token with identifier `token_id`, if registered.
    fn find(&self, token_id: &String) -> (r: Option<usize>)
        ensures
            match r {
                Some(i) => i < self.registered_tokens@.len() && self.registered_tokens@[i as int].token_id@
                    == token_id@,
                None => forall|i: int|
                    0 <= i < self.registered_tokens@.len() ==> self.registered_tokens@[i].token_id@
                        != token_id@,
            },
    {
        let mut i: usize = 0;
        while i < self.registered_tokens.len()
            invariant
                i <= self.registered_tokens@.len(),
                forall|j: int| 0 <= j < i ==> self.registered_tokens@[j].token_id@ != token_id@,
            decreases self.registered_tokens@.len() - i,
        {
            if self.registered_tokens[i].token_id == *token_id {
                return Some(i);
            }
            i = i + 1;
        }
        None
    }

    /// Register (or replace) a hardware token under its identifier.
    pub fn register_token(&mut self, token_info: TokenInfo)
        ensures
            final(self)@ == old(self)@.insert(token_info.token_id@, token_info),
    {
        proof {
            use_type_invariant(&*self);
        }
        let ghost old_tokens = self.registered_tokens@;
        let ghost key = token_info.token_id@;
        match self.find(&token_info.token_id) {
            Some(i) => {
                let mut tokens = Vec::new();
                std::mem::swap(&mut tokens, &mut self.registered_tokens);
                tokens.set(i, token_info);
                proof {
                    let s = tokens@;
                    assert(token_ids_distinct(s));
                    assert forall|k: Seq<char>| #[trigger] token_map(s).dom().contains(k)
                        <==> token_map(old_tokens).insert(key, token_info).dom().contains(k) by {
                        lemma_token_map_dom(s, k);
                        lemma_token_map_dom(old_tokens, k);
                        if exists|j: int| 0 <= j < old_tokens.len() && old_tokens[j].token_id@ == k {
                            let j = choose|j: int|
                                0 <= j < old_tokens.len() && old_tokens[j].token_id@ == k;
                            assert(s[j].token_id@ == k);
                        }
                    }
                    assert forall|k: Seq<char>| #[trigger] token_map(s).dom().contains(k) implies token_map(
                        s,
                    )[k] == token_map(old_tokens).insert(key, token_info)[k] by {
                        lemma_token_map_dom(s, k);
                        let j = choose|j: int| 0 <= j < s.len() && s[j].token_id@ == k;
                        lemma_token_map_index(s, j);
                        if j != i {
                            lemma_token_map_index(old_tokens, j);
                        }
                    }
                    assert(token_map(s) =~= token_map(old_tokens).insert(key, token_info));
                }
                self.registered_tokens = tokens;
            },
            None => {
                let mut tokens = Vec::new();
                std::mem::swap(&mut tokens, &mut self.registered_tokens);
                tokens.push(token_info);
                proof {
                    assert(tokens@.drop_last() =~= old_tokens);
                    assert forall|a: int, b: int|
                        0 <= a < tokens@.len() && 0 <= b < tokens@.len() && a != b implies tokens@[a].token_id@
                        != tokens@[b].token_id@ by {
                        if a < old_tokens.len() && b < old_tokens.len() {
                            assert(tokens@[a] == old_tokens[a]);
                            assert(tokens@[b] == old_tokens[b]);
                        }
                    }
                }
                self.registered_tokens = tokens;
            },
        }
    }

    /// Remove the hardware token with identifier `token_id`.
    pub fn remove_token(&mut self, token_id: &str)
        ensures
            final(self)@ == old(self)@.remove(token_id@),
    {
        proof {
            use_type_invariant(&*self);
            lemma_token_map_dom(self.registered_tokens@, token_id@);
        }
        let ghost old_tokens = self.registered_tokens@;
        let key = token_id.to_owned();
        match self.find(&key) {
            Some(i) => {
                let mut tokens = Vec::new();
                std::mem::swap(&mut tokens, &mut self.registered_tokens);
                let _ = tokens.remove(i);
                proof {
                    let s = tokens@;
                    assert(s =~= old_tokens.remove(i as int));
                    assert(token_ids_distinct(s));
                    assert forall|k: Seq<char>| #[trigger] token_map(s).dom().contains(k)
                        <==> token_map(old_tokens).remove(token_id@).dom().contains(k) by {
                        lemma_token_map_dom(s, k);
                        lemma_token_map_dom(old_tokens, k);
                        if exists|j: int| 0 <= j < old_tokens.len() && old_tokens[j].token_id@ == k {
                            let j = choose|j: int|
                                0 <= j < old_tokens.len() && old_tokens[j].token_id@ == k;
                            if j < i {
                                assert(s[j].token_id@ == k);
                            } else if j > i {
                                assert(s[j - 1].token_id@ == k);
                            }
                        }
                        if exists|j: int| 0 <= j < s.len() && s[j].token_id@ == k {
                            let j = choose|j: int| 0 <= j < s.len() && s[j].token_id@ == k;
                            if j < i {
                                assert(old_tokens[j].token_id@ == k);
                            } else {
                                assert(old_tokens[j + 1].token_id@ == k);
                            }
                        }
                    }
                    assert forall|k: Seq<char>| #[trigger] token_map(s).dom().contains(k) implies token_map(
                        s,
                    )[k] == token_map(old_tokens).remove(token_id@)[k] by {
                        lemma_token_map_dom(s, k);
                        let j = choose|j: int| 0 <= j < s.len() && s[j].token_id@ == k;
                        lemma_token_map_index(s, j);
                        if j < i {
                            lemma_token_map_index(old_tokens, j);
                        } else {
                            lemma_token_map_index(old_tokens, j + 1);
                        }
                    }
                    assert(token_map(s) =~= token_map(old_tokens).remove(token_id@));
                }
                self.registered_tokens = tokens;
            },
            None => {
                assert(token_map(old_tokens) =~= token_map(old_tokens).remove(token_id@));
            },
        }
    }
}

impl Authenticator for HardwareTokenAuthenticator {
    open spec fn spec_can_handle(&self, credential: AuthCredential) -> bool {
        credential is HardwareToken
    }

    /// Verify a hardware token response: the token must be registered to the
    /// target account and the response must be non-empty.
    fn verify(&self, credential: &AuthCredential, context: &AuthContext) -> (r: AuthResult)
        ensures
            !(credential is HardwareToken) ==> fails_with(r, AuthError::UnsupportedMethod),
            credential matches AuthCredential::HardwareToken { token_id, challenge_response } ==> {
                &&& (r is Success) == (self@.dom().contains(token_id@) && self@[token_id@].account_id
                    == context.target_account && challenge_response@.len() > 0)
                &&& !(r is Success) ==> fails_with(r, AuthError::InvalidCredentials)
            },
    {
        proof {
            use_type_invariant(self);
        }
        match credential {
            AuthCredential::HardwareToken { token_id, challenge_response } => {
                proof {
                    lemma_token_map_dom(self.registered_tokens@, token_id@);
                }
                let i = match self.find(token_id) {
                    Some(i) => i,
                    None => {
                        return AuthResult::Failed(AuthError::InvalidCredentials);
                    },
                };
                proof {
                    lemma_token_map_index(self.registered_tokens@, i as int);
                }
                let token_info = &self.registered_tokens[i];
                if token_info.account_id != context.target_account {
                    return AuthResult::Failed(AuthError::InvalidCredentials);
                }
                if challenge_response.len() == 0 {
                    AuthResult::Failed(AuthError::InvalidCredentials)
                } else {
                    AuthResult::Success
                }
            },
            _ => AuthResult::Failed(AuthError::UnsupportedMethod),
        }
    }

    fn supported_factors(&self) -> (r: Vec<AuthFactor>)
        ensures
            r@ == seq![AuthFactor::HardwareToken],
    {
        vec![AuthFactor::HardwareToken]
    }

    fn can_handle(&self, credential: &AuthCredential) -> (r: bool) {
        match credential {
            AuthCredential::HardwareToken { .. } => true,
            _ => false,
        }
    }
}

impl Default for HardwareTokenAuthenticator {
    fn default() -> (r: Self)
        ensures
            r@ == Map::<Seq<char>, TokenInfo>::empty(),
    {
        Self::new()
    }
}

/// An enrolled biometric template: its kind ("fingerprint", "face", "voice", ...),
/// the hash of the template and the enrollment date.
#[derive(Debug, Clone)]
pub struct BiometricTemplate {
    pub biometric_type: String,
    pub template_hash: Vec<u8>,
    pub enrollment_date: u64,
}

/// A template is kept by a removal of kind `kind` when it is of another kind.
pub open spec fn keeps_template(kind: Seq<char>) -> spec_fn(BiometricTemplate) -> bool {
    |t: BiometricTemplate| t.biometric_type@ != kind
}

/// Some template has this kind and hash.
pub open spec fn template_matches(s: Seq<BiometricTemplate>, kind: Seq<char>, hash: Seq<u8>) -> bool {
    exists|i: int| 0 <= i < s.len() && s[i].biometric_type@ == kind && s[i].template_hash@ == hash
}

/// Biometric authenticator: the templates enrolled for each account.
pub struct BiometricAuthenticator {
    enrolled_biometrics: IdMap<Vec<BiometricTemplate>>,
}

impl View for BiometricAuthenticator {
    type V = Map<UnitsObjectId, Seq<BiometricTemplate>>;

    closed spec fn view(&self) -> Map<UnitsObjectId, Seq<BiometricTemplate>> {
        self.enrolled_biometrics@.map_values(|v: Vec<BiometricTemplate>| v@)
    }
}

impl BiometricAuthenticator {
    /// An authenticator with nothing enrolled.
    pub fn new() -> (r: Self)
        ensures
            r@ == Map::<UnitsObjectId, Seq<BiometricTemplate>>::empty(),
    {
        let r = BiometricAuthenticator { enrolled_biometrics: IdMap::new() };
        assert(r@ =~= Map::<UnitsObjectId, Seq<BiometricTemplate>>::empty());
        r
    }

    /// Add a template to those enrolled for an account.
    pub fn enroll_biometric(&mut self, account_id: UnitsObjectId, template: BiometricTemplate)
        ensures
            final(self)@ == old(self)@.insert(
                account_id,
                (if old(self)@.dom().contains(account_id) {
                    old(self)@[account_id]
                } else {
                    Seq::empty()
                }).push(template),
            ),
    {
        let ghost old_map = self.enrolled_biometrics@;
        match self.enrolled_biometrics.remove(&account_id) {
            Some(mut templates) => {
                templates.push(template);
                self.enrolled_biometrics.insert(account_id, templates);
            },
            None => {
                let mut templates: Vec<BiometricTemplate> = Vec::new();
                templates.push(template);
                self.enrolled_biometrics.insert(account_id, templates);
            },
        }
        assert(self@ =~= old(self)@.insert(
            account_id,
            (if old(self)@.dom().contains(account_id) {
                old(self)@[account_id]
            } else {
                Seq::empty()
            }).push(template),
        ));
    }

    /// Remove the templates of one kind enrolled for an account; the account
    /// keeps its entry.
    pub fn remove_biometric(&mut self, account_id: &UnitsObjectId, biometric_type: &str)
        ensures
            final(self)@ == (if old(self)@.dom().contains(*account_id) {
                old(self)@.insert(
                    *account_id,
                    old(self)@[*account_id].filter(keeps_template(biometric_type@)),
                )
            } else {
                old(self)@
            }),
    {
        let kind = biometric_type.to_owned();
        let ghost keep = keeps_template(biometric_type@);
        match self.enrolled_biometrics.remove(account_id) {
            Some(mut templates) => {
                let ghost orig = templates@;
                let mut kept: Vec<BiometricTemplate> = Vec::new();
                let ghost mut i: int = 0;
                while templates.len() > 0
                    invariant
                        0 <= i <= orig.len(),
                        templates@ == orig.skip(i),
                        kept@ == orig.take(i).filter(keep),
                        keep == keeps_template(kind@),
                    decreases templates@.len(),
                {
                    let t = templates.remove(0);
                    proof {
                        assert(orig.take(i + 1).drop_last() =~= orig.take(i));
                        assert(orig.take(i + 1).last() == t);
                        assert(templates@ =~= orig.skip(i + 1));
                    }
                    let ghost kept_before = kept@;
                    let ghost kept_kind = t.biometric_type@;
                    if !(t.biometric_type == kind) {
                        kept.push(t);
                    }
                    proof {
                        assert(orig.take(i + 1) =~= orig.take(i).push(orig[i]));
                        orig.take(i).lemma_filter_push(orig[i], keep);
                        assert(keep(orig[i]) == (kept_kind != kind@));
                        i = i + 1;
                    }
                }
                proof {
                    assert(orig.take(i) =~= orig);
                }
                self.enrolled_biometrics.insert(*account_id, kept);
                assert(self@ =~= old(self)@.insert(
                    *account_id,
                    old(self)@[*account_id].filter(keeps_template(biometric_type@)),
                ));
            },
            None => {
                assert(self@ =~= old(self)@);
            },
        }
    }
}

impl Authenticator for BiometricAuthenticator {
    open spec fn spec_can_handle(&self, credential: AuthCredential) -> bool {
        credential is Biometric
    }

    /// Verify a biometric credential: some template enrolled for the target
    /// account must have its kind and hash.
    fn verify(&self, credential: &AuthCredential, context: &AuthContext) -> (r: AuthResult)
        ensures
            !(credential is Biometric) ==> fails_with(r, AuthError::UnsupportedMethod),
            credential matches AuthCredential::Biometric { biometric_type, template_hash } ==> {
                &&& (r is Success) == (self@.dom().contains(context.target_account) && template_matches(
                    self@[context.target_account],
                    biometric_type@,
                    template_hash@,
                ))
                &&& !(r is Success) ==> fails_with(r, AuthError::InvalidCredentials)
            },
    {
        match credential {
            AuthCredential::Biometric { biometric_type, template_hash } => {
                let templates = match self.enrolled_biometrics.get(&context.target_account) {
                    Some(t) => t,
                    None => {
                        return AuthResult::Failed(AuthError::InvalidCredentials);
                    },
                };
                let mut i: usize = 0;
                while i < templates.len()
                    invariant
                        i <= templates@.len(),
                        *credential == (AuthCredential::Biometric {
                            biometric_type: *biometric_type,
                            template_hash: *template_hash,
                        }),
                        self@.dom().contains(context.target_account),
                        templates@ == self@[context.target_account],
                        forall|j: int|
                            0 <= j < i ==> !(templates@[j].biometric_type@ == biometric_type@
                                && templates@[j].template_hash@ == template_hash@),
                    decreases templates@.len() - i,
                {
                    let template = &templates[i];
                    if template.biometric_type == *biometric_type && bytes_equal(
                        &template.template_hash,
                        template_hash,
                    ) {
                        return AuthResult::Success;
                    }
                    i = i + 1;
                }
                AuthResult::Failed(AuthError::InvalidCredentials)
            },
            _ => AuthResult::Failed(AuthError::UnsupportedMethod),
        }
    }

    fn supported_factors(&self) -> (r: Vec<AuthFactor>)
        ensures
            r@ == seq![AuthFactor::Biometric],
    {
        vec![AuthFactor::Biometric]
    }

    fn can_handle(&self, credential: &AuthCredential) -> (r: bool) {
        match credential {
            AuthCredential::Biometric { .. } => true,
            _ => false,
        }
    }
}

impl Default for BiometricAuthenticator {
    fn default() -> (r: Self)
        ensures
            r@ == Map::<UnitsObjectId, Seq<BiometricTemplate>>::empty(),
    {
        Self::new()
    }
}

/// The default second-factor authenticators: TOTP, hardware token, biometric.
pub fn create_default_mfa_authenticators() -> (v: Vec<Box<dyn Authenticator>>)
    ensures
        v@.len() == 3,
{
    let a0: Box<dyn Authenticator> = Box::new(TotpAuthenticator::new());
    let a1: Box<dyn Authenticator> = Box::new(HardwareTokenAuthenticator::new());
    let a2: Box<dyn Authenticator> = Box::new(BiometricAuthenticator::new());
    vec![a0, a1, a2]
}

} // verus!
