//! Flexible authentication: credentials, the factors they prove, requirements
//! over factors with AND/OR/at-least-N logic, and the manager that checks a
//! set of credentials against the policies' requirements.
pub mod policies;
pub mod schemes;
pub mod multi_factor;

use vstd::prelude::*;
use crate::id::UnitsObjectId;

verus! {

/// Authentication result.
#[derive(Debug, Clone)]
pub enum AuthResult {
    Success,
    Failed(AuthError),
    Pending(PendingAuth),
}

/// Authentication errors.
#[derive(Debug, Clone, Copy, PartialEq, Eq, Structural)]
pub enum AuthError {
    InvalidCredentials,
    InsufficientAuth,
    UnsupportedMethod,
    ExpiredCredentials,
    RateLimited,
    MultiFactorRequired,
    InvalidPolicy,
}

/// Pending authentication (for multi-step auth).
#[derive(Debug, Clone)]
pub struct PendingAuth {
    pub session_id: String,
    pub required_factors: Vec<AuthFactor>,
    pub completed_factors: Vec<AuthFactor>,
}

/// Supported signature types.
#[derive(Debug, Clone, Copy, PartialEq, Eq, Structural)]
pub enum SignatureType {
    Ed25519,
    EcdsaSecp256k1,
    EcdsaSecp256r1,
    Rsa2048,
    Rsa4096,
}

/// Authentication factor types.
#[derive(Debug, Clone, Copy, PartialEq, Eq, Structural)]
pub enum AuthFactor {
    Signature(SignatureType),
    TimeBasedCode,
    HardwareToken,
    Biometric,
    RecoveryKey,
}

/// Authentication context of an operation.
#[derive(Debug, Clone)]
pub struct AuthContext {
    pub operation: String,
    pub target_account: UnitsObjectId,
    pub requester: UnitsObjectId,
    pub timestamp: u64,
    pub operation_data: Vec<u8>,
}

/// Authentication credential.
#[derive(Debug, Clone)]
pub enum AuthCredential {
    Signature { signature_type: SignatureType, signature_bytes: Vec<u8>, public_key: Vec<u8> },
    TimeBasedCode { code: String, timestamp: u64 },
    HardwareToken { token_id: String, challenge_response: Vec<u8> },
    Biometric { biometric_type: String, template_hash: Vec<u8> },
    RecoveryKey { recovery_address: UnitsObjectId, signature: Vec<u8> },
}

/// Authentication requirement (supports AND/OR logic).
#[derive(Debug)]
pub enum AuthRequirement {
    /// Single factor required
    Factor(AuthFactor),
    /// All requirements required (AND)
    All(Vec<AuthRequirement>),
    /// Any requirement acceptable (OR)
    Any(Vec<AuthRequirement>),
    /// At least N requirements required
    AtLeastN { n: usize, factors: Vec<AuthRequirement> },
}

/// Verifies credentials of the kinds it handles.
pub trait Authenticator {
    /// Whether this authenticator handles the credential.
    spec fn spec_can_handle(&self, credential: AuthCredential) -> bool;

    /// Verify an authentication credential against a context.
    fn verify(&self, credential: &AuthCredential, context: &AuthContext) -> AuthResult;

    /// The factors this authenticator verifies.
    fn supported_factors(&self) -> Vec<AuthFactor>;

    /// Whether this authenticator handles the credential.
    fn can_handle(&self, credential: &AuthCredential) -> (r: bool)
        ensures
            r == self.spec_can_handle(*credential),
    ;
}

/// Decides which factors an operation requires.
pub trait AuthPolicy {
    /// Whether credentials giving each factor `f` `has(f)` times meet what the
    /// policy demands for the operation in `context`.
    spec fn spec_demands(&self, context: AuthContext, has: spec_fn(AuthFactor) -> nat) -> bool;

    /// The requirements of the operation in `context`: met exactly when the
    /// policy's demands are.
    fn required_auth(&self, context: &AuthContext) -> (r: Vec<AuthRequirement>)
        ensures
            forall|has: spec_fn(AuthFactor) -> nat|
                #[trigger] all_satisfied(r@, has) == self.spec_demands(*context, has),
    ;

    /// Whether the credentials satisfy the policy.
    fn validate(&self, credentials: &[AuthCredential], context: &AuthContext) -> AuthResult;
}

/// A requirement is met by credentials that give each factor `f` `has(f)`
/// times: a factor when some credential gives it; "at least `n`" when its
/// listed requirements count up to `n`, a factor counting once per credential.
pub open spec fn satisfied(req: AuthRequirement, has: spec_fn(AuthFactor) -> nat) -> bool
    decreases req, 0nat,
{
    match req {
        AuthRequirement::Factor(f) => has(f) > 0,
        AuthRequirement::All(v) => all_satisfied(v@, has),
        AuthRequirement::Any(v) => any_satisfied(v@, has),
        AuthRequirement::AtLeastN { n, factors } => count_satisfied(factors@, has) >= n,
    }
}

/// Every requirement of the sequence is met.
pub open spec fn all_satisfied(s: Seq<AuthRequirement>, has: spec_fn(AuthFactor) -> nat) -> bool
    decreases s, 1nat,
{
    if s.len() == 0 {
        true
    } else {
        all_satisfied(s.drop_last(), has) && satisfied(s.last(), has)
    }
}

/// Some requirement of the sequence is met.
pub open spec fn any_satisfied(s: Seq<AuthRequirement>, has: spec_fn(AuthFactor) -> nat) -> bool
    decreases s, 1nat,
{
    if s.len() == 0 {
        false
    } else {
        any_satisfied(s.drop_last(), has) || satisfied(s.last(), has)
    }
}

/// How many of the sequence's requirements are met: a factor requirement
/// counts once for each credential that gives the factor, any other once when
/// it is met.
pub open spec fn count_satisfied(s: Seq<AuthRequirement>, has: spec_fn(AuthFactor) -> nat) -> nat
    decreases s, 1nat,
{
    if s.len() == 0 {
        0
    } else {
        count_satisfied(s.drop_last(), has) + match s.last() {
            AuthRequirement::Factor(f) => has(f),
            _ => if satisfied(s.last(), has) {
                1nat
            } else {
                0nat
            },
        }
    }
}

/// Every requirement of a sequence is met exactly when each one is.
pub proof fn lemma_all_satisfied(s: Seq<AuthRequirement>, has: spec_fn(AuthFactor) -> nat)
    ensures
        all_satisfied(s, has) <==> forall|j: int| 0 <= j < s.len() ==> satisfied(#[trigger] s[j], has),
    decreases s.len(),
{
    if s.len() > 0 {
        lemma_all_satisfied(s.drop_last(), has);
        if all_satisfied(s, has) {
            assert forall|j: int| 0 <= j < s.len() implies satisfied(#[trigger] s[j], has) by {
                if j < s.len() - 1 {
                    assert(s.drop_last()[j] == s[j]);
                }
            }
        }
        if forall|j: int| 0 <= j < s.len() ==> satisfied(#[trigger] s[j], has) {
            assert forall|j: int| 0 <= j < s.drop_last().len() implies satisfied(
                #[trigger] s.drop_last()[j],
                has,
            ) by {
                assert(s.drop_last()[j] == s[j]);
            }
            assert(satisfied(s[s.len() - 1], has));
        }
    }
}

/// Some requirement of a sequence is met exactly when one is.
pub proof fn lemma_any_satisfied(s: Seq<AuthRequirement>, has: spec_fn(AuthFactor) -> nat)
    ensures
        any_satisfied(s, has) <==> exists|j: int| 0 <= j < s.len() && satisfied(#[trigger] s[j], has),
    decreases s.len(),
{
    if s.len() > 0 {
        lemma_any_satisfied(s.drop_last(), has);
        if any_satisfied(s.drop_last(), has) {
            let j = choose|j: int| 0 <= j < s.drop_last().len() && satisfied(
                #[trigger] s.drop_last()[j],
                has,
            );
            assert(s[j] == s.drop_last()[j]);
        }
        if exists|j: int| 0 <= j < s.len() && satisfied(#[trigger] s[j], has) {
            let j = choose|j: int| 0 <= j < s.len() && satisfied(#[trigger] s[j], has);
            if j < s.len() - 1 {
                assert(s.drop_last()[j] == s[j]);
            }
        }
    }
}

/// How many times `f` occurs in `s`.
pub open spec fn factor_count(s: Seq<AuthFactor>, f: AuthFactor) -> nat
    decreases s.len(),
{
    if s.len() == 0 {
        0
    } else {
        factor_count(s.drop_last(), f) + if s.last() == f {
            1nat
        } else {
            0nat
        }
    }
}

/// The factor counts of a sequence of verified factors, as requirements are
/// checked against them.
pub open spec fn factor_in(s: Seq<AuthFactor>) -> spec_fn(AuthFactor) -> nat {
    |f: AuthFactor| factor_count(s, f)
}

/// A factor occurs in a sequence exactly when it is among its elements, and
/// no more often than the sequence is long.
pub proof fn lemma_factor_count(s: Seq<AuthFactor>, f: AuthFactor)
    ensures
        factor_count(s, f) > 0 <==> s.contains(f),
        factor_count(s, f) <= s.len(),
    decreases s.len(),
{
    if s.len() > 0 {
        lemma_factor_count(s.drop_last(), f);
        if s.drop_last().contains(f) {
            let j = choose|j: int| 0 <= j < s.drop_last().len() && s.drop_last()[j] == f;
            assert(s[j] == f);
        }
        if s.contains(f) && s.last() != f {
            let j = choose|j: int| 0 <= j < s.len() && s[j] == f;
            assert(s.drop_last()[j] == f);
        }
        if s.last() == f {
            assert(s[s.len() - 1] == f);
        }
    }
}

/// Whether `f` is among `factors`.
pub fn contains_factor(factors: &[AuthFactor], f: &AuthFactor) -> (r: bool)
    ensures
        r == factors@.contains(*f),
{
    let mut i: usize = 0;
    while i < factors.len()
        invariant
            i <= factors@.len(),
            forall|j: int| 0 <= j < i ==> factors@[j] != *f,
        decreases factors@.len() - i,
    {
        if factors[i] == *f {
            return true;
        }
        i = i + 1;
    }
    false
}

/// How many times `f` occurs among `factors`.
pub fn count_factor(factors: &[AuthFactor], f: &AuthFactor) -> (r: usize)
    ensures
        r == factor_count(factors@, *f),
{
    let mut count: usize = 0;
    let mut i: usize = 0;
    while i < factors.len()
        invariant
            i <= factors@.len(),
            count <= i,
            count == factor_count(factors@.take(i as int), *f),
        decreases factors@.len() - i,
    {
        proof {
            assert(factors@.take(i + 1).drop_last() =~= factors@.take(i as int));
        }
        if factors[i] == *f {
            count = count + 1;
        }
        i = i + 1;
    }
    proof {
        assert(factors@.take(factors@.len() as int) =~= factors@);
    }
    count
}

/// `a + b`, or `usize::MAX` where that does not fit.
pub fn saturating_sum(a: usize, b: usize) -> (r: usize)
    ensures
        r == if a + b <= usize::MAX { a + b } else { usize::MAX as int },
{
    if b > usize::MAX - a {
        usize::MAX
    } else {
        a + b
    }
}

proof fn lemma_sub_decreases(req: AuthRequirement, v: Vec<AuthRequirement>, i: int)
    requires
        (req matches AuthRequirement::All(w) && w == v) || (req matches AuthRequirement::Any(w) && w
            == v) || (req matches AuthRequirement::AtLeastN { n, factors } && factors == v),
        0 <= i < v@.len(),
    ensures
        decreases_to!(req => v@[i]),
{
    assert(decreases_to!(req => v));
    assert(decreases_to!(v => v@));
    assert(decreases_to!(v@ => v@[i]));
}

/// Whether the verified factors meet a requirement.
pub fn check_single_requirement(requirement: &AuthRequirement, verified_factors: &[AuthFactor]) -> (r:
    bool)
    ensures
        r == satisfied(*requirement, factor_in(verified_factors@)),
    decreases requirement,
{
    let ghost has = factor_in(verified_factors@);
    match requirement {
        AuthRequirement::Factor(f) => count_factor(verified_factors, f) > 0,
        AuthRequirement::All(subs) => {
            proof {
                lemma_all_satisfied(subs@, has);
            }
            let mut i: usize = 0;
            while i < subs.len()
                invariant
                    i <= subs@.len(),
                    *requirement == AuthRequirement::All(*subs),
                    has == factor_in(verified_factors@),
                    forall|j: int| 0 <= j < i ==> satisfied(#[trigger] subs@[j], has),
                decreases subs@.len() - i,
            {
                proof {
                    lemma_sub_decreases(*requirement, *subs, i as int);
                }
                if !check_single_requirement(&subs[i], verified_factors) {
                    proof {
                        lemma_all_satisfied(subs@, has);
                    }
                    return false;
                }
                i = i + 1;
            }
            proof {
                lemma_all_satisfied(subs@, has);
            }
            true
        },
        AuthRequirement::Any(subs) => {
            proof {
                lemma_any_satisfied(subs@, has);
            }
            let mut i: usize = 0;
            while i < subs.len()
                invariant
                    i <= subs@.len(),
                    *requirement == AuthRequirement::Any(*subs),
                    has == factor_in(verified_factors@),
                    forall|j: int| 0 <= j < i ==> !satisfied(#[trigger] subs@[j], has),
                decreases subs@.len() - i,
            {
                proof {
                    lemma_sub_decreases(*requirement, *subs, i as int);
                }
                if check_single_requirement(&subs[i], verified_factors) {
                    proof {
                        lemma_any_satisfied(subs@, has);
                    }
                    return true;
                }
                i = i + 1;
            }
            proof {
                lemma_any_satisfied(subs@, has);
            }
            false
        },
        AuthRequirement::AtLeastN { n, factors } => {
            let mut count: usize = 0;
            let mut i: usize = 0;
            while i < factors.len()
                invariant
                    i <= factors@.len(),
                    *requirement == (AuthRequirement::AtLeastN { n: *n, factors: *factors }),
                    has == factor_in(verified_factors@),
                    count == if count_satisfied(factors@.take(i as int), has) <= usize::MAX {
                        count_satisfied(factors@.take(i as int), has) as int
                    } else {
                        usize::MAX as int
                    },
                decreases factors@.len() - i,
            {
                proof {
                    lemma_sub_decreases(*requirement, *factors, i as int);
                    assert(factors@.take(i + 1).drop_last() =~= factors@.take(i as int));
                }
                let weight: usize = match &factors[i] {
                    AuthRequirement::Factor(f) => count_factor(verified_factors, f),
                    _ => if check_single_requirement(&factors[i], verified_factors) {
                        1
                    } else {
                        0
                    },
                };
                count = saturating_sum(count, weight);
                i = i + 1;
            }
            proof {
                assert(factors@.take(factors@.len() as int) =~= factors@);
            }
            count >= *n
        },
    }
}

/// The factor a credential proves when it verifies.
pub open spec fn factor_of(c: AuthCredential) -> AuthFactor {
    match c {
        AuthCredential::Signature { signature_type, .. } => AuthFactor::Signature(signature_type),
        AuthCredential::TimeBasedCode { .. } => AuthFactor::TimeBasedCode,
        AuthCredential::HardwareToken { .. } => AuthFactor::HardwareToken,
        AuthCredential::Biometric { .. } => AuthFactor::Biometric,
        AuthCredential::RecoveryKey { .. } => AuthFactor::RecoveryKey,
    }
}

/// The factor a credential proves when it verifies.
pub fn credential_to_factor(credential: &AuthCredential) -> (r: Option<AuthFactor>)
    ensures
        r == Some(factor_of(*credential)),
{
    match credential {
        AuthCredential::Signature { signature_type, .. } => Some(AuthFactor::Signature(*signature_type)),
        AuthCredential::TimeBasedCode { .. } => Some(AuthFactor::TimeBasedCode),
        AuthCredential::HardwareToken { .. } => Some(AuthFactor::HardwareToken),
        AuthCredential::Biometric { .. } => Some(AuthFactor::Biometric),
        AuthCredential::RecoveryKey { .. } => Some(AuthFactor::RecoveryKey),
    }
}

/// Whether the verified factors meet every requirement: success, or failure for
/// insufficient authentication.
pub fn check_requirements(requirements: &[AuthRequirement], verified_factors: &[AuthFactor]) -> (r:
    AuthResult)
    ensures
        all_satisfied(requirements@, factor_in(verified_factors@)) ==> r is Success,
        !all_satisfied(requirements@, factor_in(verified_factors@)) ==> (r matches AuthResult::Failed(
            e,
        ) && e == AuthError::InsufficientAuth),
{
    let ghost has = factor_in(verified_factors@);
    proof {
        lemma_all_satisfied(requirements@, has);
    }
    let mut i: usize = 0;
    while i < requirements.len()
        invariant
            i <= requirements@.len(),
            has == factor_in(verified_factors@),
            forall|j: int| 0 <= j < i ==> satisfied(#[trigger] requirements@[j], has),
        decreases requirements@.len() - i,
    {
        if !check_single_requirement(&requirements[i], verified_factors) {
            proof {
                lemma_all_satisfied(requirements@, has);
            }
            return AuthResult::Failed(AuthError::InsufficientAuth);
        }
        i = i + 1;
    }
    proof {
        lemma_all_satisfied(requirements@, has);
    }
    AuthResult::Success
}

/// Checks credentials against the requirements of its policies, with its
/// authenticators.
pub struct AuthManager {
    authenticators: Vec<AuthenticatorEntry>,
    policies: Vec<PolicyEntry>,
}

/// Append a policy entry, keeping the entries before it.
fn push_policy_entry(v: &mut Vec<PolicyEntry>, e: PolicyEntry)
    ensures
        final(v)@.len() == old(v)@.len() + 1,
        forall|i: int| 0 <= i < old(v)@.len() ==> final(v)@[i] == old(v)@[i],
{
    v.push(e);
}

/// Append an authenticator entry, keeping the entries before it.
fn push_authenticator_entry(v: &mut Vec<AuthenticatorEntry>, e: AuthenticatorEntry)
    ensures
        final(v)@.len() == old(v)@.len() + 1,
        forall|i: int| 0 <= i < old(v)@.len() ==> final(v)@[i] == old(v)@[i],
{
    v.push(e);
}

/// An authenticator the manager holds.
struct AuthenticatorEntry {
    authenticator: Box<dyn Authenticator>,
}

/// A policy the manager holds.
struct PolicyEntry {
    policy: Box<dyn AuthPolicy>,
}

impl AuthManager {
    /// A manager with no authenticator and no policy.
    pub fn new() -> (m: Self)
        ensures
            m.authenticator_count() == 0,
            m.policy_count() == 0,
    {
        AuthManager { authenticators: Vec::new(), policies: Vec::new() }
    }


    /// How many authenticators the manager has.
    pub closed spec fn authenticator_count(&self) -> nat {
        self.authenticators@.len()
    }

    /// How many policies the manager has.
    pub closed spec fn policy_count(&self) -> nat {
        self.policies@.len()
    }

    /// Whether credentials giving each factor `f` `has(f)` times meet what
    /// every policy demands for the operation in `context`.
    pub closed spec fn demands(&self, context: AuthContext, has: spec_fn(AuthFactor) -> nat) -> bool {
        forall|p: int| 0 <= p < self.policies@.len() ==> #[trigger] self.policies@[p].policy.spec_demands(context, has)
    }

    /// Whether some authenticator of the manager handles the credential.
    pub closed spec fn handles(&self, credential: AuthCredential) -> bool {
        exists|a: int| 0 <= a < self.authenticators@.len() && #[trigger] self.authenticators@[a].authenticator.spec_can_handle(credential)
    }

    /// Add an authenticator.
    pub fn add_authenticator(&mut self, authenticator: Box<dyn Authenticator>)
        ensures
            final(self).authenticator_count() == old(self).authenticator_count() + 1,
            final(self).policy_count() == old(self).policy_count(),
            forall|i: int|
                0 <= i < old(self).authenticator_count() ==> #[trigger] final(self).authenticator_at(i)
                    == old(self).authenticator_at(i),
            forall|i: int|
                0 <= i < old(self).policy_count() ==> #[trigger] final(self).policy_at(i) == old(self).policy_at(i),
            forall|c: AuthCredential| #[trigger] old(self).handles(c) ==> final(self).handles(c),
            forall|ctx: AuthContext, has: spec_fn(AuthFactor) -> nat|
                #[trigger] final(self).demands(ctx, has) == old(self).demands(ctx, has),
    {
        let mut entries: Vec<AuthenticatorEntry> = Vec::new();
        std::mem::swap(&mut entries, &mut self.authenticators);
        push_authenticator_entry(&mut entries, AuthenticatorEntry { authenticator });
        self.authenticators = entries;
        proof {
            assert forall|c: AuthCredential| #[trigger] old(self).handles(c) implies self.handles(c) by {
                let a = choose|a: int|
                    0 <= a < old(self).authenticators@.len()
                        && #[trigger] old(self).authenticators@[a].authenticator.spec_can_handle(c);
                assert(self.authenticators@[a] == old(self).authenticators@[a]);
            }
            assert(self.policies@ =~= old(self).policies@);
        }
    }

    /// Whether the `i`-th authenticator, in the order they were added, handles
    /// a credential.
    pub closed spec fn authenticator_at(&self, i: int) -> spec_fn(AuthCredential) -> bool {
        |c: AuthCredential| self.authenticators@[i].authenticator.spec_can_handle(c)
    }

    /// What the `i`-th policy, in the order they were added, demands.
    pub closed spec fn policy_at(&self, i: int) -> spec_fn(AuthContext, spec_fn(AuthFactor) -> nat) -> bool {
        |ctx: AuthContext, has: spec_fn(AuthFactor) -> nat| self.policies@[i].policy.spec_demands(ctx, has)
    }

    /// Add an authorization policy.
    pub fn add_policy(&mut self, policy: Box<dyn AuthPolicy>)
        ensures
            final(self).policy_count() == old(self).policy_count() + 1,
            final(self).authenticator_count() == old(self).authenticator_count(),
            forall|i: int|
                0 <= i < old(self).policy_count() ==> #[trigger] final(self).policy_at(i) == old(self).policy_at(i),
            forall|i: int|
                0 <= i < old(self).authenticator_count() ==> #[trigger] final(self).authenticator_at(i)
                    == old(self).authenticator_at(i),
            forall|ctx: AuthContext, has: spec_fn(AuthFactor) -> nat|
                #[trigger] final(self).demands(ctx, has) ==> old(self).demands(ctx, has),
            forall|c: AuthCredential| #[trigger] final(self).handles(c) == old(self).handles(c),
    {
        let mut entries: Vec<PolicyEntry> = Vec::new();
        std::mem::swap(&mut entries, &mut self.policies);
        push_policy_entry(&mut entries, PolicyEntry { policy });
        self.policies = entries;
        proof {
            assert forall|ctx: AuthContext, has: spec_fn(AuthFactor) -> nat|
                #[trigger] self.demands(ctx, has) implies old(self).demands(ctx, has) by {
                assert forall|p: int| 0 <= p < old(self).policies@.len() implies #[trigger] old(
                    self,
                ).policies@[p].policy.spec_demands(ctx, has) by {
                    assert(self.policies@[p] == old(self).policies@[p]);
                }
            }
            assert(self.authenticators@ =~= old(self).authenticators@);
        }
    }

    /// The answer of the first authenticator that handles the credential, if
    /// any does.
    fn answer_for(&self, credential: &AuthCredential, context: &AuthContext) -> (answer: Option<AuthResult>)
        ensures
            answer is Some <==> self.handles(*credential),
    {
        let mut a: usize = 0;
        while a < self.authenticators.len()
            invariant
                a <= self.authenticators@.len(),
                forall|b: int| 0 <= b < a ==> !#[trigger] self.authenticators@[b].authenticator.spec_can_handle(*credential),
            decreases self.authenticators@.len() - a,
        {
            if self.authenticators[a].authenticator.can_handle(credential) {
                let answer = Some(self.authenticators[a].authenticator.verify(credential, context));
                assert(self.authenticators@[a as int].authenticator.spec_can_handle(*credential));
                return answer;
            }
            a = a + 1;
        }
        None
    }

    /// Authenticate an operation: gather every policy's requirements (none means
    /// success); verify each credential with the first authenticator that
    /// handles it, stopping at the first failure or pending answer; the factors
    /// of the verified credentials must then meet every requirement.
    pub fn authenticate(&self, credentials: &[AuthCredential], context: &AuthContext) -> (r:
        AuthResult)
        ensures
            authentication_outcome(*self, *context, credentials@, r),
    {
        let mut all_requirements: Vec<AuthRequirement> = Vec::new();
        let mut p: usize = 0;
        while p < self.policies.len()
            invariant
                p <= self.policies@.len(),
                self.policies@.len() == 0 ==> all_requirements@.len() == 0,
                forall|has: spec_fn(AuthFactor) -> nat|
                    #[trigger] all_satisfied(all_requirements@, has) == (forall|q: int|
                        0 <= q < p ==> #[trigger] self.policies@[q].policy.spec_demands(*context, has)),
            decreases self.policies@.len() - p,
        {
            let ghost before = all_requirements@;
            let mut reqs = self.policies[p].policy.required_auth(context);
            let ghost added = reqs@;
            all_requirements.append(&mut reqs);
            proof {
                assert(all_requirements@ == before + added);
                assert forall|has: spec_fn(AuthFactor) -> nat|
                    #[trigger] all_satisfied(all_requirements@, has) == (forall|q: int|
                        0 <= q < p + 1 ==> #[trigger] self.policies@[q].policy.spec_demands(*context, has)) by {
                    lemma_all_satisfied_append(before, added, has);
                    assert(all_satisfied(added, has) == self.policies@[p as int].policy.spec_demands(*context, has));
                    assert(all_satisfied(before, has) == (forall|q: int|
                        0 <= q < p ==> #[trigger] self.policies@[q].policy.spec_demands(*context, has)));
                }
            }
            p = p + 1;
        }
        let ghost reqs = all_requirements@;
        assert forall|has: spec_fn(AuthFactor) -> nat|
            #[trigger] all_satisfied(reqs, has) == self.demands(*context, has) by {
            assert(all_satisfied(all_requirements@, has) == (forall|q: int|
                0 <= q < self.policies@.len() ==> #[trigger] self.policies@[q].policy.spec_demands(*context, has)));
        }
        if all_requirements.len() == 0 {
            let r = AuthResult::Success;
            proof {
                let nothing = Seq::<Option<AuthResult>>::empty();
                lemma_all_satisfied(reqs, factor_in(proven_factors(credentials@, nothing)));
                assert(decided(reqs, credentials@, nothing, r));
            }
            return r;
        }
        let mut answers: Vec<Option<AuthResult>> = Vec::new();
        let mut c: usize = 0;
        while c < credentials.len()
            invariant
                c <= credentials@.len(),
                answers@.len() == c,
                self.policies@.len() > 0,
                all_requirements@ == reqs,
                forall|has: spec_fn(AuthFactor) -> nat|
                    #[trigger] all_satisfied(reqs, has) == self.demands(*context, has),
                forall|i: int| 0 <= i < c ==> (#[trigger] answers@[i] is Some <==> self.handles(credentials@[i])),
            decreases credentials@.len() - c,
        {
            let answer = self.answer_for(&credentials[c], context);
            let stop = match &answer {
                Some(AuthResult::Success) => false,
                Some(_) => true,
                None => false,
            };
            answers.push(answer);
            assert forall|i: int| 0 <= i < answers@.len() implies (#[trigger] answers@[i] is Some
                <==> self.handles(credentials@[i])) by {
                if i == c {
                    assert(answers@[i] == answer);
                }
            }
            if stop {
                let ghost given = answers@;
                let r = decide_authentication(all_requirements.as_slice(), credentials, answers);
                assert(decided(reqs, credentials@, given, r));
                return r;
            }
            c = c + 1;
        }
        let ghost given = answers@;
        let r = decide_authentication(all_requirements.as_slice(), credentials, answers);
        assert(decided(reqs, credentials@, given, r));
        r
    }
}

/// All requirements of two sequences together are met exactly when those
/// of each are.
pub proof fn lemma_all_satisfied_append(a: Seq<AuthRequirement>, b: Seq<AuthRequirement>, has: spec_fn(AuthFactor) -> nat)
    ensures
        all_satisfied(a + b, has) == (all_satisfied(a, has) && all_satisfied(b, has)),
{
    lemma_all_satisfied(a, has);
    lemma_all_satisfied(b, has);
    lemma_all_satisfied(a + b, has);
    if all_satisfied(a, has) && all_satisfied(b, has) {
        assert forall|j: int| 0 <= j < (a + b).len() implies satisfied(#[trigger] (a + b)[j], has) by {
            if j < a.len() {
                assert((a + b)[j] == a[j]);
            } else {
                assert((a + b)[j] == b[j - a.len()]);
            }
        }
    }
    if all_satisfied(a + b, has) {
        assert forall|j: int| 0 <= j < a.len() implies satisfied(#[trigger] a[j], has) by {
            assert((a + b)[j] == a[j]);
        }
        assert forall|j: int| 0 <= j < b.len() implies satisfied(#[trigger] b[j], has) by {
            assert((a + b)[j + a.len()] == b[j]);
        }
    }
}

/// An answer that ends an authentication: a failure or a pending factor.
pub open spec fn stops(a: Option<AuthResult>) -> bool {
    a matches Some(AuthResult::Failed(_)) || a matches Some(AuthResult::Pending(_))
}

/// The factors of the credentials whose authenticator answered success, in
/// order; the `i`-th answer is for the `i`-th credential.
pub open spec fn proven_factors(creds: Seq<AuthCredential>, answers: Seq<Option<AuthResult>>) -> Seq<AuthFactor>
    decreases answers.len(),
{
    if answers.len() == 0 {
        Seq::empty()
    } else {
        let rest = proven_factors(creds, answers.drop_last());
        if answers.last() matches Some(AuthResult::Success) {
            rest.push(factor_of(creds[answers.len() - 1]))
        } else {
            rest
        }
    }
}

/// `r` is the decision on an authentication under the requirements `reqs`,
/// where `answers[i]` was answered for `creds[i]`: the first failure or
/// pending answer, or else whether the factors of the credentials that
/// verified meet every requirement.
pub open spec fn decided(
    reqs: Seq<AuthRequirement>,
    creds: Seq<AuthCredential>,
    answers: Seq<Option<AuthResult>>,
    r: AuthResult,
) -> bool {
    &&& forall|i: int|
        0 <= i < answers.len() && stops(#[trigger] answers[i]) && (forall|j: int|
            0 <= j < i ==> !stops(answers[j])) ==> answers[i] == Some(r)
    &&& (forall|i: int| 0 <= i < answers.len() ==> !stops(#[trigger] answers[i])) ==> {
        &&& all_satisfied(reqs, factor_in(proven_factors(creds, answers))) ==> r is Success
        &&& !all_satisfied(reqs, factor_in(proven_factors(creds, answers))) ==> (r matches AuthResult::Failed(e)
            && e == AuthError::InsufficientAuth)
    }
}

/// What authenticating with credentials `creds` in `context` may answer,
/// whatever the authenticators answer: with no policy it succeeds; otherwise
/// it is the decision on requirements met exactly when every policy's demands
/// are, and on answers for the first credentials, one for each credential
/// that some authenticator handles.
pub open spec fn authentication_outcome(
    manager: AuthManager,
    context: AuthContext,
    creds: Seq<AuthCredential>,
    r: AuthResult,
) -> bool {
    &&& manager.policy_count() == 0 ==> r is Success
    &&& exists|reqs: Seq<AuthRequirement>, answers: Seq<Option<AuthResult>>|
        #![trigger decided(reqs, creds, answers, r)]
        {
            &&& answers.len() <= creds.len()
            &&& forall|has: spec_fn(AuthFactor) -> nat|
                #[trigger] all_satisfied(reqs, has) == manager.demands(context, has)
            &&& forall|i: int| 0 <= i < answers.len() ==> (#[trigger] answers[i] is Some <==> manager.handles(creds[i]))
            &&& decided(reqs, creds, answers, r)
        }
}

/// Decide an authentication from what the policies require and what was
/// answered for each credential, by the first authenticator that handles it
/// if any: the first failure or pending answer is the outcome; otherwise the
/// factors of the credentials that verified must meet every requirement.
pub fn decide_authentication(
    requirements: &[AuthRequirement],
    credentials: &[AuthCredential],
    answers: Vec<Option<AuthResult>>,
) -> (r: AuthResult)
    requires
        answers@.len() <= credentials@.len(),
    ensures
        decided(requirements@, credentials@, answers@, r),
{
    let ghost original = answers@;
    let mut factors: Vec<AuthFactor> = Vec::new();
    let mut i: usize = 0;
    while i < answers.len()
        invariant
            answers@ == original,
            original.len() <= credentials@.len(),
            i <= original.len(),
            forall|j: int| 0 <= j < i ==> !stops(#[trigger] original[j]),
            factors@ == proven_factors(credentials@, original.take(i as int)),
        decreases original.len() - i,
    {
        proof {
            assert(original.take(i + 1).drop_last() =~= original.take(i as int));
        }
        let stop = match &answers[i] {
            Some(AuthResult::Success) => false,
            Some(_) => true,
            None => false,
        };
        if stop {
            let mut rest = answers;
            let a = rest.remove(i);
            match a {
                Some(x) => {
                    return x;
                },
                None => {
                    return AuthResult::Success;
                },
            }
        }
        match &answers[i] {
            Some(AuthResult::Success) => {
                match credential_to_factor(&credentials[i]) {
                    Some(f) => factors.push(f),
                    None => {},
                }
            },
            _ => {},
        }
        i = i + 1;
    }
    proof {
        assert(original.take(original.len() as int) =~= original);
    }
    check_requirements(requirements, factors.as_slice())
}


/// More verified credentials of each factor never make a met requirement unmet.
pub proof fn lemma_satisfied_monotone(
    req: AuthRequirement,
    has1: spec_fn(AuthFactor) -> nat,
    has2: spec_fn(AuthFactor) -> nat,
)
    requires
        forall|f: AuthFactor| #[trigger] has1(f) <= has2(f),
    ensures
        satisfied(req, has1) ==> satisfied(req, has2),
    decreases req, 0nat,
{
    match req {
        AuthRequirement::Factor(f) => {},
        AuthRequirement::All(v) => {
            lemma_all_monotone(v@, has1, has2);
        },
        AuthRequirement::Any(v) => {
            lemma_any_monotone(v@, has1, has2);
        },
        AuthRequirement::AtLeastN { n, factors } => {
            lemma_count_monotone(factors@, has1, has2);
        },
    }
}

proof fn lemma_all_monotone(
    s: Seq<AuthRequirement>,
    has1: spec_fn(AuthFactor) -> nat,
    has2: spec_fn(AuthFactor) -> nat,
)
    requires
        forall|f: AuthFactor| #[trigger] has1(f) <= has2(f),
    ensures
        all_satisfied(s, has1) ==> all_satisfied(s, has2),
    decreases s, 1nat,
{
    if s.len() > 0 {
        lemma_all_monotone(s.drop_last(), has1, has2);
        lemma_satisfied_monotone(s.last(), has1, has2);
    }
}

proof fn lemma_any_monotone(
    s: Seq<AuthRequirement>,
    has1: spec_fn(AuthFactor) -> nat,
    has2: spec_fn(AuthFactor) -> nat,
)
    requires
        forall|f: AuthFactor| #[trigger] has1(f) <= has2(f),
    ensures
        any_satisfied(s, has1) ==> any_satisfied(s, has2),
    decreases s, 1nat,
{
    if s.len() > 0 {
        lemma_any_monotone(s.drop_last(), has1, has2);
        lemma_satisfied_monotone(s.last(), has1, has2);
    }
}

proof fn lemma_count_monotone(
    s: Seq<AuthRequirement>,
    has1: spec_fn(AuthFactor) -> nat,
    has2: spec_fn(AuthFactor) -> nat,
)
    requires
        forall|f: AuthFactor| #[trigger] has1(f) <= has2(f),
    ensures
        count_satisfied(s, has1) <= count_satisfied(s, has2),
    decreases s, 1nat,
{
    if s.len() > 0 {
        lemma_count_monotone(s.drop_last(), has1, has2);
        lemma_satisfied_monotone(s.last(), has1, has2);
    }
}

/// An empty conjunction is always met, an empty disjunction never, and "at
/// least none" always.
pub proof fn lemma_empty_requirements(has: spec_fn(AuthFactor) -> nat, v: Vec<AuthRequirement>)
    requires
        v@.len() == 0,
    ensures
        satisfied(AuthRequirement::All(v), has),
        !satisfied(AuthRequirement::Any(v), has),
        satisfied(AuthRequirement::AtLeastN { n: 0, factors: v }, has),
{
}

} // verus!
