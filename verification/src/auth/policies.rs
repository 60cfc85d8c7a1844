//! Authorization policies: which factors each account operation requires.
use vstd::prelude::*;
use crate::auth::{
    all_satisfied, any_satisfied, count_satisfied, factor_count, factor_of, lemma_all_satisfied,
    satisfied, saturating_sum,
    AuthContext, AuthCredential, AuthError, AuthFactor, AuthPolicy, AuthRequirement, AuthResult,
    SignatureType,
};
use crate::kernel::names;

verus! {

/// The factor counts of a set of credentials: how many credentials give each factor.
pub open spec fn provided_by(credentials: Seq<AuthCredential>) -> spec_fn(AuthFactor) -> nat {
    |f: AuthFactor| factor_count(credentials.map_values(|c: AuthCredential| factor_of(c)), f)
}

/// The Ed25519 signature factor.
pub open spec fn ed25519() -> AuthFactor {
    AuthFactor::Signature(SignatureType::Ed25519)
}

/// What the standard policy demands of an operation: nothing to read or create
/// an account, a signature or a recovery key to reactivate one, a signature
/// for anything else.
pub open spec fn standard_rule(op: Seq<char>, has: spec_fn(AuthFactor) -> nat) -> bool {
    if op == "get_account"@ || op == "create_account"@ {
        true
    } else if op == "reactivate_account"@ {
        (has(ed25519()) > 0) || (has(AuthFactor::RecoveryKey) > 0)
    } else {
        (has(ed25519()) > 0)
    }
}

/// What the high-security policy demands of an operation: nothing to read or
/// create an account; a signature and a time-based code or hardware token to
/// update or add a recovery address; to reactivate, a signature and a
/// time-based code, or at least two recovery-key credentials; a signature and
/// a time-based code for anything else.
pub open spec fn high_security_rule(op: Seq<char>, has: spec_fn(AuthFactor) -> nat) -> bool {
    if op == "get_account"@ || op == "create_account"@ {
        true
    } else if op == "update_account"@ || op == "add_recovery_address"@ {
        (has(ed25519()) > 0) && ((has(AuthFactor::TimeBasedCode) > 0) || (has(AuthFactor::HardwareToken) > 0))
    } else if op == "reactivate_account"@ {
        ((has(ed25519()) > 0) && (has(AuthFactor::TimeBasedCode) > 0)) || has(AuthFactor::RecoveryKey) >= 2
    } else {
        (has(ed25519()) > 0) && (has(AuthFactor::TimeBasedCode) > 0)
    }
}

/// The factor a credential gives.
fn factor_given(credential: &AuthCredential) -> (f: AuthFactor)
    ensures
        f == factor_of(*credential),
{
    match credential {
        AuthCredential::Signature { signature_type, .. } => AuthFactor::Signature(*signature_type),
        AuthCredential::TimeBasedCode { .. } => AuthFactor::TimeBasedCode,
        AuthCredential::HardwareToken { .. } => AuthFactor::HardwareToken,
        AuthCredential::Biometric { .. } => AuthFactor::Biometric,
        AuthCredential::RecoveryKey { .. } => AuthFactor::RecoveryKey,
    }
}

/// How many credentials give the factor.
pub fn count_providing(factor: &AuthFactor, credentials: &[AuthCredential]) -> (r: usize)
    ensures
        r == provided_by(credentials@)(*factor),
{
    let ghost given = credentials@.map_values(|c: AuthCredential| factor_of(c));
    let mut count: usize = 0;
    let mut i: usize = 0;
    while i < credentials.len()
        invariant
            i <= credentials@.len(),
            given == credentials@.map_values(|c: AuthCredential| factor_of(c)),
            count <= i,
            count == factor_count(given.take(i as int), *factor),
        decreases credentials@.len() - i,
    {
        proof {
            assert(given.take(i + 1).drop_last() =~= given.take(i as int));
        }
        if factor_given(&credentials[i]) == *factor {
            count = count + 1;
        }
        i = i + 1;
    }
    proof {
        assert(given.take(credentials@.len() as int) =~= given);
    }
    count
}

/// Whether some credential gives the factor.
pub fn has_factor(factor: &AuthFactor, credentials: &[AuthCredential]) -> (r: bool)
    ensures
        r == (provided_by(credentials@)(*factor) > 0),
{
    count_providing(factor, credentials) > 0
}

proof fn lemma_sub_decreases(req: AuthRequirement, v: Vec<AuthRequirement>, i: int)
    requires
        (req matches AuthRequirement::All(w) && w == v) || (req matches AuthRequirement::Any(w) && w
            == v) || (req matches AuthRequirement::AtLeastN { n, factors } && factors == v),
        0 <= i < v@.len(),
    ensures
        decreases_to!(req => v@[i]),
{
    assert(decreases_to!(req => v));
    assert(decreases_to!(v => v@));
    assert(decreases_to!(v@ => v@[i]));
}

/// Whether the credentials meet a requirement.
pub fn check_requirement(requirement: &AuthRequirement, credentials: &[AuthCredential]) -> (r: bool)
    ensures
        r == satisfied(*requirement, provided_by(credentials@)),
    decreases requirement,
{
    let ghost has = provided_by(credentials@);
    match requirement {
        AuthRequirement::Factor(f) => has_factor(f, credentials),
        AuthRequirement::All(subs) => {
            let mut i: usize = 0;
            while i < subs.len()
                invariant
                    i <= subs@.len(),
                    *requirement == AuthRequirement::All(*subs),
                    has == provided_by(credentials@),
                    forall|j: int| 0 <= j < i ==> satisfied(#[trigger] subs@[j], has),
                decreases subs@.len() - i,
            {
                proof {
                    lemma_sub_decreases(*requirement, *subs, i as int);
                }
                if !check_requirement(&subs[i], credentials) {
                    proof {
                        lemma_all_satisfied(subs@, has);
                    }
                    return false;
                }
                i = i + 1;
            }
            proof {
                lemma_all_satisfied(subs@, has);
            }
            true
        },
        AuthRequirement::Any(subs) => {
            let mut i: usize = 0;
            while i < subs.len()
                invariant
                    i <= subs@.len(),
                    *requirement == AuthRequirement::Any(*subs),
                    has == provided_by(credentials@),
                    forall|j: int| 0 <= j < i ==> !satisfied(#[trigger] subs@[j], has),
                decreases subs@.len() - i,
            {
                proof {
                    lemma_sub_decreases(*requirement, *subs, i as int);
                }
                if check_requirement(&subs[i], credentials) {
                    proof {
                        crate::auth::lemma_any_satisfied(subs@, has);
                    }
                    return true;
                }
                i = i + 1;
            }
            proof {
                crate::auth::lemma_any_satisfied(subs@, has);
            }
            false
        },
        AuthRequirement::AtLeastN { n, factors } => {
            let mut count: usize = 0;
            let mut i: usize = 0;
            while i < factors.len()
                invariant
                    i <= factors@.len(),
                    *requirement == (AuthRequirement::AtLeastN { n: *n, factors: *factors }),
                    has == provided_by(credentials@),
                    count == if count_satisfied(factors@.take(i as int), has) <= usize::MAX {
                        count_satisfied(factors@.take(i as int), has) as int
                    } else {
                        usize::MAX as int
                    },
                decreases factors@.len() - i,
            {
                proof {
                    lemma_sub_decreases(*requirement, *factors, i as int);
                    assert(factors@.take(i + 1).drop_last() =~= factors@.take(i as int));
                }
                let weight: usize = match &factors[i] {
                    AuthRequirement::Factor(f) => count_providing(f, credentials),
                    _ => if check_requirement(&factors[i], credentials) {
                        1
                    } else {
                        0
                    },
                };
                count = saturating_sum(count, weight);
                i = i + 1;
            }
            proof {
                assert(factors@.take(factors@.len() as int) =~= factors@);
            }
            count >= *n
        },
    }
}

/// Whether the credentials meet every requirement: success, or failure for
/// insufficient authentication.
pub fn validate_requirements(requirements: &[AuthRequirement], credentials: &[AuthCredential]) -> (r:
    AuthResult)
    ensures
        all_satisfied(requirements@, provided_by(credentials@)) ==> r is Success,
        !all_satisfied(requirements@, provided_by(credentials@)) ==> (r matches AuthResult::Failed(e)
            && e == AuthError::InsufficientAuth),
{
    let ghost has = provided_by(credentials@);
    let mut i: usize = 0;
    while i < requirements.len()
        invariant
            i <= requirements@.len(),
            has == provided_by(credentials@),
            forall|j: int| 0 <= j < i ==> satisfied(#[trigger] requirements@[j], has),
        decreases requirements@.len() - i,
    {
        if !check_requirement(&requirements[i], credentials) {
            proof {
                lemma_all_satisfied(requirements@, has);
            }
            return AuthResult::Failed(AuthError::InsufficientAuth);
        }
        i = i + 1;
    }
    proof {
        lemma_all_satisfied(requirements@, has);
    }
    AuthResult::Success
}

/// Standard account operations policy.
pub struct StandardAccountPolicy;

impl StandardAccountPolicy {
    /// The requirements of an operation.
    pub fn requirements_for(operation: &String) -> (r: Vec<AuthRequirement>)
        ensures
            forall|has: spec_fn(AuthFactor) -> nat|
                all_satisfied(r@, has) == #[trigger] standard_rule(operation@, has),
            (operation@ == "get_account"@ || operation@ == "create_account"@) ==> r@.len() == 0,
    {
        proof {
            reveal_strlit("get_account");
            reveal_strlit("create_account");
            reveal_strlit("reactivate_account");
        }
        if names(operation, "get_account") || names(operation, "create_account") {
            Vec::new()
        } else if names(operation, "reactivate_account") {
            let alternatives = vec![
                AuthRequirement::Factor(AuthFactor::Signature(SignatureType::Ed25519)),
                AuthRequirement::Factor(AuthFactor::RecoveryKey),
            ];
            let r = vec![AuthRequirement::Any(alternatives)];
            proof {
                assert forall|has: spec_fn(AuthFactor) -> nat|
                    all_satisfied(r@, has) == #[trigger] standard_rule(operation@, has) by {
                    lemma_all_satisfied(r@, has);
                    crate::auth::lemma_any_satisfied(alternatives@, has);
                    assert(satisfied(r@[0], has) == any_satisfied(alternatives@, has));
                    assert(satisfied(alternatives@[0], has) == (has(ed25519()) > 0));
                    assert(satisfied(alternatives@[1], has) == (has(AuthFactor::RecoveryKey) > 0));
                }
            }
            r
        } else {
            let r = vec![AuthRequirement::Factor(AuthFactor::Signature(SignatureType::Ed25519))];
            proof {
                assert forall|has: spec_fn(AuthFactor) -> nat|
                    all_satisfied(r@, has) == #[trigger] standard_rule(operation@, has) by {
                    lemma_all_satisfied(r@, has);
                    assert(satisfied(r@[0], has) == (has(ed25519()) > 0));
                }
            }
            r
        }
    }
}

impl AuthPolicy for StandardAccountPolicy {
    open spec fn spec_demands(&self, context: AuthContext, has: spec_fn(AuthFactor) -> nat) -> bool {
        standard_rule(context.operation@, has)
    }

    fn required_auth(&self, context: &AuthContext) -> (r: Vec<AuthRequirement>)
        ensures
            forall|has: spec_fn(AuthFactor) -> nat|
                all_satisfied(r@, has) == #[trigger] standard_rule(context.operation@, has),
    {
        Self::requirements_for(&context.operation)
    }

    fn validate(&self, credentials: &[AuthCredential], context: &AuthContext) -> (r: AuthResult)
        ensures
            standard_rule(context.operation@, provided_by(credentials@)) ==> r is Success,
            !standard_rule(context.operation@, provided_by(credentials@)) ==> (r matches AuthResult::Failed(
                e,
            ) && e == AuthError::InsufficientAuth),
    {
        let requirements = Self::requirements_for(&context.operation);
        if requirements.len() == 0 {
            return AuthResult::Success;
        }
        validate_requirements(requirements.as_slice(), credentials)
    }
}

/// High-security policy for sensitive operations.
pub struct HighSecurityPolicy;

impl HighSecurityPolicy {
    /// The requirements of an operation.
    pub fn requirements_for(operation: &String) -> (r: Vec<AuthRequirement>)
        ensures
            forall|has: spec_fn(AuthFactor) -> nat|
                all_satisfied(r@, has) == #[trigger] high_security_rule(operation@, has),
    {
        proof {
            reveal_strlit("get_account");
            reveal_strlit("create_account");
            reveal_strlit("update_account");
            reveal_strlit("add_recovery_address");
            reveal_strlit("remove_recovery_address");
            reveal_strlit("deactivate_account");
            reveal_strlit("reactivate_account");
            assert("remove_recovery_address"@[2] == 'm' && "deactivate_account"@[0] == 'd'
                && "reactivate_account"@[2] == 'a');
        }
        if names(operation, "get_account") || names(operation, "create_account") {
            Vec::new()
        } else if names(operation, "update_account") || names(operation, "add_recovery_address") {
            let mfa = vec![
                AuthRequirement::Factor(AuthFactor::TimeBasedCode),
                AuthRequirement::Factor(AuthFactor::HardwareToken),
            ];
            let both = vec![
                AuthRequirement::Factor(AuthFactor::Signature(SignatureType::Ed25519)),
                AuthRequirement::Any(mfa),
            ];
            let r = vec![AuthRequirement::All(both)];
            proof {
                assert forall|has: spec_fn(AuthFactor) -> nat|
                    all_satisfied(r@, has) == #[trigger] high_security_rule(operation@, has) by {
                    lemma_all_satisfied(r@, has);
                    lemma_all_satisfied(both@, has);
                    crate::auth::lemma_any_satisfied(mfa@, has);
                    assert(satisfied(r@[0], has) == all_satisfied(both@, has));
                    assert(satisfied(both@[0], has) == (has(ed25519()) > 0));
                    assert(satisfied(both@[1], has) == any_satisfied(mfa@, has));
                    assert(satisfied(mfa@[0], has) == (has(AuthFactor::TimeBasedCode) > 0));
                    assert(satisfied(mfa@[1], has) == (has(AuthFactor::HardwareToken) > 0));
                }
            }
            r
        } else if names(operation, "remove_recovery_address") || names(operation, "deactivate_account") {
            let r = Self::signature_and_code();
            r
        } else if names(operation, "reactivate_account") {
            let owner = Self::signature_and_code_requirement();
            let recovery = vec![AuthRequirement::Factor(AuthFactor::RecoveryKey)];
            let alternatives = vec![owner, AuthRequirement::AtLeastN { n: 2, factors: recovery }];
            let r = vec![AuthRequirement::Any(alternatives)];
            proof {
                assert forall|has: spec_fn(AuthFactor) -> nat|
                    all_satisfied(r@, has) == #[trigger] high_security_rule(operation@, has) by {
                    lemma_all_satisfied(r@, has);
                    crate::auth::lemma_any_satisfied(alternatives@, has);
                    assert(satisfied(r@[0], has) == any_satisfied(alternatives@, has));
                    assert(recovery@.drop_last() =~= Seq::<AuthRequirement>::empty());
                    assert(count_satisfied(recovery@.drop_last(), has) == 0);
                    assert(count_satisfied(recovery@, has) == has(AuthFactor::RecoveryKey));
                    assert(satisfied(alternatives@[1], has) == (has(AuthFactor::RecoveryKey) >= 2));
                }
            }
            r
        } else {
            Self::signature_and_code()
        }
    }

    fn signature_and_code_requirement() -> (r: AuthRequirement)
        ensures
            forall|has: spec_fn(AuthFactor) -> nat|
                #[trigger] satisfied(r, has) == ((has(ed25519()) > 0) && (has(AuthFactor::TimeBasedCode) > 0)),
    {
        let both = vec![
            AuthRequirement::Factor(AuthFactor::Signature(SignatureType::Ed25519)),
            AuthRequirement::Factor(AuthFactor::TimeBasedCode),
        ];
        let r = AuthRequirement::All(both);
        proof {
            reveal_with_fuel(satisfied, 3);
            reveal_with_fuel(all_satisfied, 3);
            assert(both@.drop_last().drop_last() =~= Seq::<AuthRequirement>::empty());
        }
        r
    }

    fn signature_and_code() -> (r: Vec<AuthRequirement>)
        ensures
            forall|has: spec_fn(AuthFactor) -> nat|
                #[trigger] all_satisfied(r@, has) == ((has(ed25519()) > 0) && (has(AuthFactor::TimeBasedCode) > 0)),
    {
        let r = vec![Self::signature_and_code_requirement()];
        proof {
            assert forall|has: spec_fn(AuthFactor) -> nat|
                #[trigger] all_satisfied(r@, has) == ((has(ed25519()) > 0) && (has(AuthFactor::TimeBasedCode) > 0)) by {
                lemma_all_satisfied(r@, has);
                assert(satisfied(r@[0], has) == ((has(ed25519()) > 0) && (has(AuthFactor::TimeBasedCode) > 0)));
            }
        }
        r
    }
}

impl AuthPolicy for HighSecurityPolicy {
    open spec fn spec_demands(&self, context: AuthContext, has: spec_fn(AuthFactor) -> nat) -> bool {
        high_security_rule(context.operation@, has)
    }

    fn required_auth(&self, context: &AuthContext) -> (r: Vec<AuthRequirement>)
        ensures
            forall|has: spec_fn(AuthFactor) -> nat|
                all_satisfied(r@, has) == #[trigger] high_security_rule(context.operation@, has),
    {
        Self::requirements_for(&context.operation)
    }

    fn validate(&self, credentials: &[AuthCredential], context: &AuthContext) -> (r: AuthResult)
        ensures
            high_security_rule(context.operation@, provided_by(credentials@)) ==> r is Success,
            !high_security_rule(context.operation@, provided_by(credentials@)) ==> (r matches AuthResult::Failed(
                e,
            ) && e == AuthError::InsufficientAuth),
    {
        let requirements = Self::requirements_for(&context.operation);
        validate_requirements(requirements.as_slice(), credentials)
    }
}

/// Every set of credentials the high-security policy accepts for an operation,
/// the standard policy accepts too.
pub proof fn lemma_high_security_implies_standard(op: Seq<char>, has: spec_fn(AuthFactor) -> nat)
    ensures
        high_security_rule(op, has) ==> standard_rule(op, has),
{
}

/// Two requirements with the same structure and factors.
pub open spec fn same_req(a: AuthRequirement, b: AuthRequirement) -> bool
    decreases a, 0nat,
{
    match (a, b) {
        (AuthRequirement::Factor(x), AuthRequirement::Factor(y)) => x == y,
        (AuthRequirement::All(v), AuthRequirement::All(w)) => same_reqs(v@, w@),
        (AuthRequirement::Any(v), AuthRequirement::Any(w)) => same_reqs(v@, w@),
        (
            AuthRequirement::AtLeastN { n, factors: v },
            AuthRequirement::AtLeastN { n: m, factors: w },
        ) => n == m && same_reqs(v@, w@),
        _ => false,
    }
}

/// Two sequences of requirements, pairwise the same.
pub open spec fn same_reqs(s: Seq<AuthRequirement>, t: Seq<AuthRequirement>) -> bool
    decreases s, 1nat,
{
    s.len() == t.len() && (s.len() == 0 || (same_reqs(s.drop_last(), t.drop_last()) && same_req(
        s.last(),
        t.last(),
    )))
}

proof fn lemma_same_req_satisfied(a: AuthRequirement, b: AuthRequirement, has: spec_fn(AuthFactor) -> nat)
    requires
        same_req(a, b),
    ensures
        satisfied(a, has) == satisfied(b, has),
    decreases a, 0nat,
{
    match (a, b) {
        (AuthRequirement::Factor(x), AuthRequirement::Factor(y)) => {},
        (AuthRequirement::All(v), AuthRequirement::All(w)) => {
            lemma_same_reqs_satisfied(v@, w@, has);
        },
        (AuthRequirement::Any(v), AuthRequirement::Any(w)) => {
            lemma_same_reqs_satisfied(v@, w@, has);
        },
        (
            AuthRequirement::AtLeastN { n, factors: v },
            AuthRequirement::AtLeastN { n: m, factors: w },
        ) => {
            lemma_same_reqs_satisfied(v@, w@, has);
        },
        _ => {},
    }
}

proof fn lemma_same_reqs_satisfied(
    s: Seq<AuthRequirement>,
    t: Seq<AuthRequirement>,
    has: spec_fn(AuthFactor) -> nat,
)
    requires
        same_reqs(s, t),
    ensures
        all_satisfied(s, has) == all_satisfied(t, has),
        any_satisfied(s, has) == any_satisfied(t, has),
        count_satisfied(s, has) == count_satisfied(t, has),
    decreases s, 1nat,
{
    if s.len() > 0 {
        lemma_same_reqs_satisfied(s.drop_last(), t.drop_last(), has);
        lemma_same_req_satisfied(s.last(), t.last(), has);
    }
}

/// A copy of a requirement.
pub fn copy_requirement(r: &AuthRequirement) -> (c: AuthRequirement)
    ensures
        same_req(c, *r),
    decreases r,
{
    match r {
        AuthRequirement::Factor(f) => AuthRequirement::Factor(*f),
        AuthRequirement::All(v) => {
            let w = copy_requirements(r, v);
            AuthRequirement::All(w)
        },
        AuthRequirement::Any(v) => {
            let w = copy_requirements(r, v);
            AuthRequirement::Any(w)
        },
        AuthRequirement::AtLeastN { n, factors } => {
            let w = copy_requirements(r, factors);
            AuthRequirement::AtLeastN { n: *n, factors: w }
        },
    }
}

fn copy_requirements(parent: &AuthRequirement, v: &Vec<AuthRequirement>) -> (w: Vec<AuthRequirement>)
    requires
        (*parent matches AuthRequirement::All(x) && x == *v) || (*parent matches AuthRequirement::Any(x)
            && x == *v) || (*parent matches AuthRequirement::AtLeastN { n, factors } && factors == *v),
    ensures
        same_reqs(w@, v@),
    decreases parent, 0nat,
{
    let mut w: Vec<AuthRequirement> = Vec::new();
    let mut i: usize = 0;
    while i < v.len()
        invariant
            i <= v@.len(),
            (*parent matches AuthRequirement::All(x) && x == *v) || (*parent matches AuthRequirement::Any(x)
                && x == *v) || (*parent matches AuthRequirement::AtLeastN { n, factors } && factors == *v),
            same_reqs(w@, v@.take(i as int)),
        decreases v@.len() - i,
    {
        proof {
            lemma_sub_decreases(*parent, *v, i as int);
        }
        let c = copy_requirement(&v[i]);
        let ghost before = w@;
        w.push(c);
        proof {
            assert(w@.drop_last() =~= before);
            assert(v@.take(i + 1).drop_last() =~= v@.take(i as int));
        }
        i = i + 1;
    }
    proof {
        assert(v@.take(v@.len() as int) =~= v@);
    }
    w
}

/// Configurable policy that can be customized per account.
pub struct ConfigurablePolicy {
    /// Operation names with their requirements; the first entry of a name holds
    pub operation_requirements: Vec<(String, AuthRequirement)>,
    /// Default requirement for unlisted operations
    pub default_requirement: AuthRequirement,
}

/// The requirement set for `op` among the entries from the `i`-th on, or the default.
pub open spec fn configured_from(
    entries: Seq<(String, AuthRequirement)>,
    op: Seq<char>,
    i: int,
    default: AuthRequirement,
) -> AuthRequirement
    decreases entries.len() - i,
{
    if i >= entries.len() {
        default
    } else if entries[i].0@ == op {
        entries[i].1
    } else {
        configured_from(entries, op, i + 1, default)
    }
}

/// The requirement a configurable policy sets for an operation.
pub open spec fn configured(p: ConfigurablePolicy, op: Seq<char>) -> AuthRequirement {
    configured_from(p.operation_requirements@, op, 0, p.default_requirement)
}

proof fn lemma_configured_same_from(
    e1: Seq<(String, AuthRequirement)>,
    e2: Seq<(String, AuthRequirement)>,
    op: Seq<char>,
    i: int,
    d: AuthRequirement,
)
    requires
        0 <= i,
        e1.len() == e2.len(),
        forall|j: int| i <= j < e1.len() ==> e1[j] == e2[j],
    ensures
        configured_from(e1, op, i, d) == configured_from(e2, op, i, d),
    decreases e1.len() - i,
{
    if i < e1.len() {
        lemma_configured_same_from(e1, e2, op, i + 1, d);
    }
}

proof fn lemma_configured_replace(
    e: Seq<(String, AuthRequirement)>,
    k: int,
    x: (String, AuthRequirement),
    op: Seq<char>,
    i: int,
    d: AuthRequirement,
)
    requires
        0 <= i <= k < e.len(),
        e[k].0@ == x.0@,
        forall|j: int| i <= j < k ==> (#[trigger] e[j]).0@ != x.0@,
    ensures
        configured_from(e.update(k, x), op, i, d) == if op == x.0@ {
            x.1
        } else {
            configured_from(e, op, i, d)
        },
    decreases k - i,
{
    if i < k {
        lemma_configured_replace(e, k, x, op, i + 1, d);
    } else {
        lemma_configured_same_from(e.update(k, x), e, op, k + 1, d);
    }
}

proof fn lemma_configured_push(
    e: Seq<(String, AuthRequirement)>,
    x: (String, AuthRequirement),
    op: Seq<char>,
    i: int,
    d: AuthRequirement,
)
    requires
        0 <= i <= e.len(),
        forall|j: int| i <= j < e.len() ==> (#[trigger] e[j]).0@ != x.0@,
    ensures
        configured_from(e.push(x), op, i, d) == if op == x.0@ {
            x.1
        } else {
            configured_from(e, op, i, d)
        },
    decreases e.len() - i,
{
    if i < e.len() {
        lemma_configured_push(e, x, op, i + 1, d);
    } else {
        assert(e.push(x)[i] == x);
        assert(configured_from(e.push(x), op, i + 1, d) == d);
    }
}

impl ConfigurablePolicy {
    /// A policy with no operation set, requiring an Ed25519 signature by default.
    pub fn new() -> (p: Self)
        ensures
            p.operation_requirements@.len() == 0,
            p.default_requirement == AuthRequirement::Factor(ed25519()),
    {
        ConfigurablePolicy {
            operation_requirements: Vec::new(),
            default_requirement: AuthRequirement::Factor(AuthFactor::Signature(SignatureType::Ed25519)),
        }
    }

    /// Set the requirement of an operation, replacing the one it had.
    pub fn set_operation_requirement(&mut self, operation: String, requirement: AuthRequirement)
        ensures
            final(self).default_requirement == old(self).default_requirement,
            forall|op: Seq<char>|
                #[trigger] configured(*final(self), op) == if op == operation@ {
                    requirement
                } else {
                    configured(*old(self), op)
                },
    {
        let ghost e = self.operation_requirements@;
        let mut i: usize = 0;
        while i < self.operation_requirements.len()
            invariant
                e == self.operation_requirements@,
                *self == *old(self),
                i <= e.len(),
                forall|j: int| 0 <= j < i ==> (#[trigger] e[j]).0@ != operation@,
            decreases e.len() - i,
        {
            if self.operation_requirements[i].0 == operation {
                let ghost x = (operation, requirement);
                self.operation_requirements.set(i, (operation, requirement));
                proof {
                    assert(self.operation_requirements@ == e.update(i as int, x));
                    assert forall|op: Seq<char>| #[trigger]
                        configured(*self, op) == if op == x.0@ {
                            x.1
                        } else {
                            configured(*old(self), op)
                        } by {
                        lemma_configured_replace(e, i as int, x, op, 0, old(self).default_requirement);
                    }
                }
                return;
            }
            i = i + 1;
        }
        let ghost x = (operation, requirement);
        self.operation_requirements.push((operation, requirement));
        proof {
            assert forall|op: Seq<char>| #[trigger]
                configured(*self, op) == if op == x.0@ {
                    x.1
                } else {
                    configured(*old(self), op)
                } by {
                lemma_configured_push(e, x, op, 0, old(self).default_requirement);
            }
        }
    }

    /// Set the default requirement for unlisted operations.
    pub fn set_default_requirement(&mut self, requirement: AuthRequirement)
        ensures
            final(self).default_requirement == requirement,
            final(self).operation_requirements@ == old(self).operation_requirements@,
    {
        self.default_requirement = requirement;
    }
}

/// What the configurable policy's high-security preset demands of an
/// operation: nothing to read or create an account; a signature and a
/// time-based code or hardware token to update it, change its recovery
/// addresses or deactivate it; to reactivate it, the same, or at least two
/// recovery-key credentials; a signature for anything else.
pub open spec fn configured_high_security_rule(op: Seq<char>, has: spec_fn(AuthFactor) -> nat) -> bool {
    if op == "get_account"@ || op == "create_account"@ {
        true
    } else if op == "update_account"@ || op == "add_recovery_address"@ || op
        == "remove_recovery_address"@ || op == "deactivate_account"@ {
        (has(ed25519()) > 0) && ((has(AuthFactor::TimeBasedCode) > 0) || (has(AuthFactor::HardwareToken) > 0))
    } else if op == "reactivate_account"@ {
        ((has(ed25519()) > 0) && ((has(AuthFactor::TimeBasedCode) > 0) || (has(AuthFactor::HardwareToken) > 0)))
            || has(AuthFactor::RecoveryKey) >= 2
    } else {
        (has(ed25519()) > 0)
    }
}

fn no_requirement() -> (r: AuthRequirement)
    ensures
        r matches AuthRequirement::All(v) && v@.len() == 0,
        forall|has: spec_fn(AuthFactor) -> nat| #[trigger] satisfied(r, has),
{
    let r = AuthRequirement::All(Vec::new());
    proof {
        assert forall|has: spec_fn(AuthFactor) -> nat| #[trigger] satisfied(r, has) by {
            lemma_all_satisfied(r->All_0@, has);
        }
    }
    r
}

fn mfa_requirement() -> (r: AuthRequirement)
    ensures
        forall|has: spec_fn(AuthFactor) -> nat|
            #[trigger] satisfied(r, has) == ((has(ed25519()) > 0) && ((has(AuthFactor::TimeBasedCode) > 0) || (has(AuthFactor::HardwareToken) > 0))),
{
    let mfa = vec![
        AuthRequirement::Factor(AuthFactor::TimeBasedCode),
        AuthRequirement::Factor(AuthFactor::HardwareToken),
    ];
    let both = vec![
        AuthRequirement::Factor(AuthFactor::Signature(SignatureType::Ed25519)),
        AuthRequirement::Any(mfa),
    ];
    let r = AuthRequirement::All(both);
    proof {
        assert forall|has: spec_fn(AuthFactor) -> nat|
            #[trigger] satisfied(r, has) == ((has(ed25519()) > 0) && ((has(AuthFactor::TimeBasedCode) > 0) || (has(AuthFactor::HardwareToken) > 0))) by {
            lemma_all_satisfied(both@, has);
            crate::auth::lemma_any_satisfied(mfa@, has);
            assert(satisfied(both@[0], has) == (has(ed25519()) > 0));
            assert(satisfied(both@[1], has) == any_satisfied(mfa@, has));
            assert(satisfied(mfa@[0], has) == (has(AuthFactor::TimeBasedCode) > 0));
            assert(satisfied(mfa@[1], has) == (has(AuthFactor::HardwareToken) > 0));
        }
    }
    r
}

fn owner_or_recovery() -> (r: AuthRequirement)
    ensures
        r matches AuthRequirement::Any(v) && v@ == seq![
            AuthRequirement::Factor(ed25519()),
            AuthRequirement::Factor(AuthFactor::RecoveryKey),
        ],
        forall|has: spec_fn(AuthFactor) -> nat|
            #[trigger] satisfied(r, has) == ((has(ed25519()) > 0) || (has(AuthFactor::RecoveryKey) > 0)),
{
    let alternatives = vec![
        AuthRequirement::Factor(AuthFactor::Signature(SignatureType::Ed25519)),
        AuthRequirement::Factor(AuthFactor::RecoveryKey),
    ];
    let r = AuthRequirement::Any(alternatives);
    proof {
        assert forall|has: spec_fn(AuthFactor) -> nat|
            #[trigger] satisfied(r, has) == ((has(ed25519()) > 0) || (has(AuthFactor::RecoveryKey) > 0)) by {
            crate::auth::lemma_any_satisfied(alternatives@, has);
            assert(satisfied(alternatives@[0], has) == (has(ed25519()) > 0));
            assert(satisfied(alternatives@[1], has) == (has(AuthFactor::RecoveryKey) > 0));
        }
    }
    r
}

impl ConfigurablePolicy {
    /// The standard preset: reading and creating accounts require nothing,
    /// reactivation an Ed25519 signature or a recovery key, and every other
    /// operation the default, an Ed25519 signature; so it demands what the
    /// standard policy demands.
    pub fn standard() -> (p: Self)
        ensures
            p.default_requirement == AuthRequirement::Factor(ed25519()),
            configured(p, "get_account"@) matches AuthRequirement::All(v) && v@.len() == 0,
            configured(p, "create_account"@) matches AuthRequirement::All(v) && v@.len() == 0,
            configured(p, "reactivate_account"@) matches AuthRequirement::Any(v) && v@ == seq![
                AuthRequirement::Factor(ed25519()),
                AuthRequirement::Factor(AuthFactor::RecoveryKey),
            ],
            forall|op: Seq<char>|
                op != "get_account"@ && op != "create_account"@ && op != "reactivate_account"@
                    ==> #[trigger] configured(p, op) == p.default_requirement,
            forall|op: Seq<char>, has: spec_fn(AuthFactor) -> nat|
                #[trigger] satisfied(configured(p, op), has) == standard_rule(op, has),
    {
        let mut policy = Self::new();
        let ghost p0 = policy;
        policy.set_operation_requirement("get_account".to_owned(), no_requirement());
        let ghost p1 = policy;
        policy.set_operation_requirement("create_account".to_owned(), no_requirement());
        let ghost p2 = policy;
        policy.set_operation_requirement("reactivate_account".to_owned(), owner_or_recovery());
        proof {
            reveal_strlit("get_account");
            reveal_strlit("create_account");
            reveal_strlit("reactivate_account");
            assert("get_account"@[0] == 'g' && "create_account"@[0] == 'c' && "reactivate_account"@[0]
                == 'r');
            assert forall|op: Seq<char>, has: spec_fn(AuthFactor) -> nat|
                #[trigger] satisfied(configured(policy, op), has) == standard_rule(op, has) by {
                assert(configured(p0, op) == p0.default_requirement);
                assert(configured(p1, op) == configured(p1, op));
                assert(configured(p2, op) == configured(p2, op));
            }
        }
        policy
    }

    /// The high-security preset: reading and creating accounts need nothing;
    /// the other account operations a signature with a time-based code or
    /// hardware token; reactivation that, or at least two recovery keys.
    pub fn high_security() -> (p: Self)
        ensures
            forall|op: Seq<char>, has: spec_fn(AuthFactor) -> nat|
                #[trigger] satisfied(configured(p, op), has) == configured_high_security_rule(op, has),
    {
        let mut policy = Self::new();
        let ghost p0 = policy;
        policy.set_operation_requirement("get_account".to_owned(), no_requirement());
        let ghost p1 = policy;
        policy.set_operation_requirement("create_account".to_owned(), no_requirement());
        let ghost p2 = policy;
        policy.set_operation_requirement("update_account".to_owned(), mfa_requirement());
        let ghost p3 = policy;
        policy.set_operation_requirement("add_recovery_address".to_owned(), mfa_requirement());
        let ghost p4 = policy;
        policy.set_operation_requirement("remove_recovery_address".to_owned(), mfa_requirement());
        let ghost p5 = policy;
        policy.set_operation_requirement("deactivate_account".to_owned(), mfa_requirement());
        let ghost p6 = policy;
        let recovery = vec![AuthRequirement::Factor(AuthFactor::RecoveryKey)];
        let alternatives = vec![
            mfa_requirement(),
            AuthRequirement::AtLeastN { n: 2, factors: recovery },
        ];
        let reactivation = AuthRequirement::Any(alternatives);
        proof {
            assert forall|has: spec_fn(AuthFactor) -> nat|
                #[trigger] satisfied(reactivation, has) == (((has(ed25519()) > 0) && ((has(
                    AuthFactor::TimeBasedCode,
                ) > 0) || (has(AuthFactor::HardwareToken) > 0))) || has(AuthFactor::RecoveryKey) >= 2) by {
                crate::auth::lemma_any_satisfied(alternatives@, has);
                assert(recovery@.drop_last() =~= Seq::<AuthRequirement>::empty());
                assert(count_satisfied(recovery@.drop_last(), has) == 0);
                assert(count_satisfied(recovery@, has) == has(AuthFactor::RecoveryKey));
                assert(satisfied(alternatives@[1], has) == (has(AuthFactor::RecoveryKey) >= 2));
            }
        }
        policy.set_operation_requirement("reactivate_account".to_owned(), reactivation);
        proof {
            reveal_strlit("get_account");
            reveal_strlit("create_account");
            reveal_strlit("update_account");
            reveal_strlit("add_recovery_address");
            reveal_strlit("remove_recovery_address");
            reveal_strlit("deactivate_account");
            reveal_strlit("reactivate_account");
            assert("get_account"@[0] == 'g' && "create_account"@[0] == 'c' && "update_account"@[0]
                == 'u' && "add_recovery_address"@[0] == 'a' && "remove_recovery_address"@[0] == 'r'
                && "remove_recovery_address"@[2] == 'm' && "deactivate_account"@[0] == 'd'
                && "reactivate_account"@[0] == 'r' && "reactivate_account"@[2] == 'a');
            assert forall|op: Seq<char>, has: spec_fn(AuthFactor) -> nat|
                #[trigger] satisfied(configured(policy, op), has) == configured_high_security_rule(
                    op,
                    has,
                ) by {
                assert(configured(p0, op) == p0.default_requirement);
                assert(configured(p1, op) == configured(p1, op));
                assert(configured(p2, op) == configured(p2, op));
                assert(configured(p3, op) == configured(p3, op));
                assert(configured(p4, op) == configured(p4, op));
                assert(configured(p5, op) == configured(p5, op));
                assert(configured(p6, op) == configured(p6, op));
            }
        }
        policy
    }

    /// The requirement this policy sets for an operation.
    pub fn requirement_for(&self, operation: &String) -> (r: &AuthRequirement)
        ensures
            *r == configured(*self, operation@),
    {
        let ghost e = self.operation_requirements@;
        let mut i: usize = 0;
        while i < self.operation_requirements.len()
            invariant
                e == self.operation_requirements@,
                i <= e.len(),
                configured(*self, operation@) == configured_from(e, operation@, i as int, self.default_requirement),
            decreases e.len() - i,
        {
            if self.operation_requirements[i].0 == *operation {
                return &self.operation_requirements[i].1;
            }
            i = i + 1;
        }
        &self.default_requirement
    }
}

impl AuthPolicy for ConfigurablePolicy {
    open spec fn spec_demands(&self, context: AuthContext, has: spec_fn(AuthFactor) -> nat) -> bool {
        satisfied(configured(*self, context.operation@), has)
    }

    /// The one requirement set for the operation, or the default: a copy of it.
    fn required_auth(&self, context: &AuthContext) -> (r: Vec<AuthRequirement>)
        ensures
            r@.len() == 1,
            same_req(r@[0], configured(*self, context.operation@)),
            forall|has: spec_fn(AuthFactor) -> nat|
                #[trigger] all_satisfied(r@, has) == satisfied(configured(*self, context.operation@), has),
    {
        let req = copy_requirement(self.requirement_for(&context.operation));
        let r = vec![req];
        proof {
            assert forall|has: spec_fn(AuthFactor) -> nat|
                #[trigger] all_satisfied(r@, has) == satisfied(configured(*self, context.operation@), has) by {
                lemma_all_satisfied(r@, has);
                lemma_same_req_satisfied(r@[0], configured(*self, context.operation@), has);
            }
        }
        r
    }

    fn validate(&self, credentials: &[AuthCredential], context: &AuthContext) -> (r: AuthResult)
        ensures
            satisfied(configured(*self, context.operation@), provided_by(credentials@)) ==> r is Success,
            !satisfied(configured(*self, context.operation@), provided_by(credentials@)) ==> (r matches AuthResult::Failed(
                e,
            ) && e == AuthError::InsufficientAuth),
    {
        let requirements = self.required_auth(context);
        validate_requirements(requirements.as_slice(), credentials)
    }
}

impl Default for ConfigurablePolicy {
    fn default() -> (p: Self)
        ensures
            p.operation_requirements@.len() == 0,
            p.default_requirement == AuthRequirement::Factor(ed25519()),
    {
        Self::new()
    }
}

} // verus!
