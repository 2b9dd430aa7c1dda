//! Parsing of AccessDenied messages and single-statement policy
//! synthesis.
//!
//! The canonical phrasing `User: <arn> is not authorized to perform:
//! <action> on resource: <resource>` is recognized anywhere inside
//! surrounding text, with any partition token inside the ARNs.  The
//! classification of the denial decides whether automatic remediation
//! is possible.

use vstd::prelude::*;
use crate::policy::{Effect, PolicyDocument, PolicyStatement, views_of_statements};
use crate::text::{chars_to_string, copy_range, find_from, matches_at, str_to_chars};

verus! {

/// Why the access was denied.
#[derive(Debug, Clone, PartialEq, Eq)]
pub enum DenialType {
    /// No identity-based policy allows the action: eligible for
    /// automatic remediation.
    ImplicitIdentity,
    /// An explicit deny blocks the action.
    ExplicitIdentity,
    /// A resource-based policy blocks the action.
    ResourcePolicy,
    /// A phrasing this library does not act on, with the reason.
    Unsupported(String),
}

/// Mathematical model of a `DenialType`.
pub enum DenialTypeModel {
    ImplicitIdentity,
    ExplicitIdentity,
    ResourcePolicy,
    Unsupported(Seq<char>),
}

impl View for DenialType {
    type V = DenialTypeModel;

    open spec fn view(&self) -> DenialTypeModel {
        match self {
            DenialType::ImplicitIdentity => DenialTypeModel::ImplicitIdentity,
            DenialType::ExplicitIdentity => DenialTypeModel::ExplicitIdentity,
            DenialType::ResourcePolicy => DenialTypeModel::ResourcePolicy,
            DenialType::Unsupported(r) => DenialTypeModel::Unsupported(r@),
        }
    }
}

/// A parsed AccessDenied message.
#[derive(Debug, Clone)]
pub struct ParsedDenial {
    /// The denied principal's ARN.
    pub principal_arn: String,
    /// The denied action, `service:Operation`.
    pub action: String,
    /// The resource the action was denied on.
    pub resource: String,
    /// The classification of the denial.
    pub denial_type: DenialType,
}

/// The parse failure of a denial message.
#[derive(Debug)]
pub enum IamPolicyAutopilotError {
    /// The message holds no principal/action/resource triple.
    ParseFailure { message: String },
}

/// Results of the denial-parsing path.
pub type IamPolicyAutopilotResult<T> = Result<T, IamPolicyAutopilotError>;

/// First index at or after `i` holding a space, or the length.
pub open spec fn first_space_from(s: Seq<char>, i: int) -> int
    decreases s.len() - i when 0 <= i <= s.len()
{
    if i >= s.len() {
        s.len() as int
    } else if s[i] == ' ' {
        i
    } else {
        first_space_from(s, i + 1)
    }
}

/// The canonical denial phrasing matches at `i`: `User: ` followed by a
/// space-free ARN, the authorization phrase, a space-free action, the
/// resource phrase and a space-free resource.
pub open spec fn denial_match_at(s: Seq<char>, i: int) -> bool {
    &&& matches_at(s, "User: "@, i)
    &&& {
        let p0 = i + "User: "@.len();
        let p1 = first_space_from(s, p0);
        &&& matches_at(s, "arn:"@, p0)
        &&& matches_at(s, " is not authorized to perform: "@, p1)
        &&& {
            let a0 = p1 + " is not authorized to perform: "@.len();
            let a1 = first_space_from(s, a0);
            &&& a1 > a0
            &&& matches_at(s, " on resource: "@, a1)
            &&& {
                let r0 = a1 + " on resource: "@.len();
                let r1 = first_space_from(s, r0);
                r1 > r0
            }
        }
    }
}

/// First index at or after `i` where the denial phrasing matches, or
/// the length.
pub open spec fn first_denial_from(s: Seq<char>, i: int) -> int
    decreases s.len() - i when 0 <= i <= s.len()
{
    if i >= s.len() {
        s.len() as int
    } else if denial_match_at(s, i) {
        i
    } else {
        first_denial_from(s, i + 1)
    }
}

/// The extracted triple of a parsed denial.
pub struct DenialTriple {
    pub principal: Seq<char>,
    pub action: Seq<char>,
    pub resource: Seq<char>,
}

/// The triple extracted at a match position.
pub open spec fn denial_triple_at(s: Seq<char>, i: int) -> DenialTriple {
    let p0 = i + "User: "@.len();
    let p1 = first_space_from(s, p0);
    let a0 = p1 + " is not authorized to perform: "@.len();
    let a1 = first_space_from(s, a0);
    let r0 = a1 + " on resource: "@.len();
    let r1 = first_space_from(s, r0);
    DenialTriple {
        principal: s.subrange(p0, p1),
        action: s.subrange(a0, a1),
        resource: s.subrange(r0, r1),
    }
}

/// What parsing a message yields: the triple at the first match, or
/// nothing.
pub open spec fn parse_denial_spec(s: Seq<char>) -> Option<DenialTriple> {
    let i = first_denial_from(s, 0);
    if i == s.len() {
        None
    } else {
        Some(denial_triple_at(s, i))
    }
}

pub open spec fn contains_pat(s: Seq<char>, pat: Seq<char>) -> bool {
    exists|i: int| matches_at(s, pat, i)
}

/// The classification rule: explicit-deny phrasing, then
/// resource-policy phrasing, then any other unrecognized denial
/// reason; a message without a recognized reason clause is the
/// absence-of-allow case.
pub open spec fn classify_denial_spec(s: Seq<char>) -> DenialTypeModel {
    if contains_pat(s, "with an explicit deny"@) {
        DenialTypeModel::ExplicitIdentity
    } else if contains_pat(s, "because no resource-based policy allows"@) {
        DenialTypeModel::ResourcePolicy
    } else if contains_pat(s, "because no "@) && !contains_pat(
        s,
        "because no identity-based policy allows"@,
    ) {
        DenialTypeModel::Unsupported("unrecognized denial reason"@)
    } else {
        DenialTypeModel::ImplicitIdentity
    }
}

/// The phrasing matches at position `i` of `v`.
fn match_at_exec(v: &Vec<char>, pat: &Vec<char>, i: usize) -> (r: bool)
    requires
        i <= v@.len(),
    ensures
        r == matches_at(v@, pat@, i as int),
{
    if pat.len() > v.len() - i {
        return false;
    }
    let mut k: usize = 0;
    while k < pat.len()
        invariant
            v@.len() <= usize::MAX,
            i + pat@.len() <= v@.len(),
            k <= pat@.len(),
            forall|m: int| 0 <= m < k ==> v@[i + m] == pat@[m],
        decreases pat@.len() - k,
    {
        if v[i + k] != pat[k] {
            proof {
                if matches_at(v@, pat@, i as int) {
                    assert(v@.subrange(i as int, i + pat@.len())[k as int] == pat@[k as int]);
                }
            }
            return false;
        }
        k += 1;
    }
    proof {
        assert(v@.subrange(i as int, i + pat@.len()) =~= pat@);
    }
    true
}

/// Finds the first space at or after `i`.
fn first_space_exec(v: &Vec<char>, i: usize) -> (r: usize)
    requires
        i <= v@.len(),
    ensures
        r as int == first_space_from(v@, i as int),
        i <= r <= v@.len(),
{
    let mut j: usize = i;
    while j < v.len() && v[j] != ' '
        invariant
            i <= j <= v@.len(),
            first_space_from(v@, i as int) == first_space_from(v@, j as int),
        decreases v@.len() - j,
    {
        j += 1;
    }
    proof {
        lemma_first_space_bounds(v@, j as int);
    }
    j
}

proof fn lemma_first_space_bounds(s: Seq<char>, i: int)
    requires
        0 <= i <= s.len(),
    ensures
        i <= first_space_from(s, i) <= s.len(),
    decreases s.len() - i,
{
    if i < s.len() && s[i] != ' ' {
        lemma_first_space_bounds(s, i + 1);
    }
}

/// The denial phrasing matches at `i`.
fn denial_match_exec(v: &Vec<char>, i: usize) -> (r: bool)
    requires
        i <= v@.len(),
    ensures
        r == denial_match_at(v@, i as int),
{
    let user_pat = str_to_chars("User: ");
    let arn_pat = str_to_chars("arn:");
    let auth_pat = str_to_chars(" is not authorized to perform: ");
    let res_pat = str_to_chars(" on resource: ");
    let n = v.len();
    if !match_at_exec(v, &user_pat, i) {
        return false;
    }
    proof {
        assert(i + user_pat@.len() <= v@.len());
    }
    let p0 = i + user_pat.len();
    proof {
        lemma_first_space_bounds(v@, p0 as int);
    }
    let p1 = first_space_exec(v, p0);
    if !match_at_exec(v, &arn_pat, p0) {
        return false;
    }
    if !match_at_exec(v, &auth_pat, p1) {
        return false;
    }
    proof {
        assert(p1 + auth_pat@.len() <= v@.len());
    }
    let a0 = p1 + auth_pat.len();
    if a0 > v.len() {
        proof {
            assert(!matches_at(v@, " is not authorized to perform: "@, p1 as int));
        }
        return false;
    }
    let a1 = first_space_exec(v, a0);
    if !(a1 > a0) {
        return false;
    }
    if !match_at_exec(v, &res_pat, a1) {
        return false;
    }
    proof {
        assert(a1 + res_pat@.len() <= v@.len());
    }
    let r0 = a1 + res_pat.len();
    if r0 > v.len() {
        proof {
            assert(!matches_at(v@, " on resource: "@, a1 as int));
        }
        return false;
    }
    let r1 = first_space_exec(v, r0);
    r1 > r0
}

/// Whether `pat` occurs anywhere in `v`.
fn contains_exec(v: &Vec<char>, pat: &Vec<char>) -> (r: bool)
    ensures
        r == contains_pat(v@, pat@),
{
    match find_from(v, pat, 0) {
        Some(_) => true,
        None => {
            proof {
                if contains_pat(v@, pat@) {
                    let w = choose|i: int| matches_at(v@, pat@, i);
                    assert(!matches_at(v@, pat@, w));
                }
            }
            false
        },
    }
}

/// Classifies the denial reason of a message.
fn classify_denial_exec(v: &Vec<char>) -> (r: DenialType)
    ensures
        r@ == classify_denial_spec(v@),
{
    let explicit_pat = str_to_chars("with an explicit deny");
    let resource_pat = str_to_chars("because no resource-based policy allows");
    let because_pat = str_to_chars("because no ");
    let identity_pat = str_to_chars("because no identity-based policy allows");
    if contains_exec(v, &explicit_pat) {
        DenialType::ExplicitIdentity
    } else if contains_exec(v, &resource_pat) {
        DenialType::ResourcePolicy
    } else if contains_exec(v, &because_pat) && !contains_exec(v, &identity_pat) {
        let reason = String::from_str("unrecognized denial reason");
        DenialType::Unsupported(reason)
    } else {
        DenialType::ImplicitIdentity
    }
}

/// Parses an AccessDenied message into its principal, action, resource
/// and denial classification.  The first position where the canonical
/// phrasing matches decides the triple; a message without a match is a
/// parse failure with no partial result.
pub fn parse(message: &str) -> (r: IamPolicyAutopilotResult<ParsedDenial>)
    ensures
        match r {
            Ok(d) => {
                &&& parse_denial_spec(message@) matches Some(t)
                &&& d.principal_arn@ == parse_denial_spec(message@)->Some_0.principal
                &&& d.action@ == parse_denial_spec(message@)->Some_0.action
                &&& d.resource@ == parse_denial_spec(message@)->Some_0.resource
                &&& d.denial_type@ == classify_denial_spec(message@)
            },
            Err(_) => parse_denial_spec(message@) is None,
        },
{
    let v = str_to_chars(message);
    let n = v.len();
    let mut i: usize = 0;
    while i < n
        invariant
            i <= n,
            n == v@.len(),
            v@ == message@,
            first_denial_from(v@, 0) == first_denial_from(v@, i as int),
        decreases n - i,
    {
        if denial_match_exec(&v, i) {
            let user_pat = str_to_chars("User: ");
            let auth_pat = str_to_chars(" is not authorized to perform: ");
            let res_pat = str_to_chars(" on resource: ");
            let p0 = i + user_pat.len();
            proof {
                lemma_first_space_bounds(v@, p0 as int);
            }
            let p1 = first_space_exec(&v, p0);
            let a0 = p1 + auth_pat.len();
            proof {
                assert(matches_at(v@, " is not authorized to perform: "@, p1 as int));
            }
            let a1 = first_space_exec(&v, a0);
            let r0 = a1 + res_pat.len();
            proof {
                assert(matches_at(v@, " on resource: "@, a1 as int));
            }
            let r1 = first_space_exec(&v, r0);
            let principal = copy_range(&v, p0, p1);
            let action = copy_range(&v, a0, a1);
            let resource = copy_range(&v, r0, r1);
            let denial_type = classify_denial_exec(&v);
            return Ok(
                ParsedDenial {
                    principal_arn: chars_to_string(&principal),
                    action: chars_to_string(&action),
                    resource: chars_to_string(&resource),
                    denial_type,
                },
            );
        }
        i += 1;
    }
    Err(
        IamPolicyAutopilotError::ParseFailure {
            message: String::from_str(
                "no principal, action and resource found in the denial message",
            ),
        },
    )
}

/// Builds the minimal Allow statement for one action and resource
/// pair.
pub fn build_single_statement(action: &str, resource: &str) -> (r: PolicyStatement)
    ensures
        r@.sid is None,
        r@.effect == Effect::Allow,
        r@.action == seq![action@],
        r@.resource == seq![resource@],
        r@.condition is None,
{
    let mut actions: Vec<String> = Vec::new();
    actions.push(action.to_owned());
    let mut resources: Vec<String> = Vec::new();
    resources.push(resource.to_owned());
    proof {
        assert(crate::arguments::views_of_strings(actions@) =~= seq![action@]);
        assert(crate::arguments::views_of_strings(resources@) =~= seq![resource@]);
    }
    PolicyStatement {
        sid: None,
        effect: Effect::Allow,
        action: actions,
        resource: resources,
        condition: None,
    }
}

/// An existing statement already grants the action on the resource.
pub open spec fn grants_spec(doc: crate::policy::DocumentModel, action: Seq<char>, resource: Seq<
    char,
>) -> bool {
    exists|i: int|
        0 <= i < doc.statements.len() && (#[trigger] doc.statements[i]).effect == Effect::Allow
            && doc.statements[i].action.contains(action) && doc.statements[i].resource.contains(
            resource,
        )
}

/// The duplicate-statement condition of the apply flow.
#[derive(Debug)]
pub enum ApplyError {
    /// The canonical policy already grants the permission.
    DuplicateStatement { action: String, resource: String },
}

/// Membership of a string among the views of a vector.
fn vec_contains_str(v: &Vec<String>, s: &str) -> (r: bool)
    ensures
        r == crate::arguments::views_of_strings(v@).contains(s@),
{
    let mut k: usize = 0;
    while k < v.len()
        invariant
            k <= v@.len(),
            forall|m: int| 0 <= m < k ==> crate::arguments::views_of_strings(v@)[m] != s@,
        decreases v@.len() - k,
    {
        proof {
            assert(crate::arguments::views_of_strings(v@)[k as int] == v@[k as int]@);
        }
        if crate::text::str_eq(v[k].as_str(), s) {
            return true;
        }
        k += 1;
    }
    proof {
        if crate::arguments::views_of_strings(v@).contains(s@) {
            let w = choose|i: int|
                0 <= i < crate::arguments::views_of_strings(v@).len()
                    && crate::arguments::views_of_strings(v@)[i] == s@;
            assert(false);
        }
    }
    false
}

/// Whether the document already grants the action on the resource
/// through an Allow statement.
pub fn document_grants(doc: &PolicyDocument, action: &str, resource: &str) -> (r: bool)
    ensures
        r == grants_spec(doc@, action@, resource@),
{
    let mut k: usize = 0;
    while k < doc.statements.len()
        invariant
            k <= doc.statements@.len(),
            forall|m: int|
                0 <= m < k ==> !((#[trigger] views_of_statements(doc.statements@)[m]).effect
                    == Effect::Allow && views_of_statements(doc.statements@)[m].action.contains(
                    action@,
                ) && views_of_statements(doc.statements@)[m].resource.contains(resource@)),
        decreases doc.statements@.len() - k,
    {
        proof {
            assert(views_of_statements(doc.statements@)[k as int] == doc.statements@[k as int]@);
        }
        let st = &doc.statements[k];
        let is_allow = match st.effect {
            Effect::Allow => true,
            Effect::Deny => false,
        };
        if is_allow && vec_contains_str(&st.action, action) && vec_contains_str(
            &st.resource,
            resource,
        ) {
            return true;
        }
        k += 1;
    }
    proof {
        if grants_spec(doc@, action@, resource@) {
            let w = choose|i: int|
                0 <= i < doc@.statements.len() && (#[trigger] doc@.statements[i]).effect
                    == Effect::Allow && doc@.statements[i].action.contains(action@)
                    && doc@.statements[i].resource.contains(resource@);
            assert(false);
        }
    }
    false
}

/// Builds the one-statement inline Allow policy for the pair, unless an
/// existing policy already grants it, which is the duplicate-statement
/// condition.
pub fn build_inline_allow(
    existing: &Option<PolicyDocument>,
    action: &str,
    resource: &str,
) -> (r: Result<PolicyDocument, ApplyError>)
    ensures
        match r {
            Ok(doc) => {
                &&& (match existing {
                    Some(e) => !grants_spec(e@, action@, resource@),
                    None => true,
                })
                &&& doc@.version == crate::policy::policy_version_spec()
                &&& doc@.statements.len() == 1
                &&& doc@.statements[0].effect == Effect::Allow
                &&& doc@.statements[0].action == seq![action@]
                &&& doc@.statements[0].resource == seq![resource@]
            },
            Err(_) => match existing {
                Some(e) => grants_spec(e@, action@, resource@),
                None => false,
            },
        },
{
    match existing {
        Some(e) => {
            if document_grants(e, action, resource) {
                return Err(
                    ApplyError::DuplicateStatement {
                        action: action.to_owned(),
                        resource: resource.to_owned(),
                    },
                );
            }
        },
        None => {},
    }
    let st = build_single_statement(action, resource);
    let mut statements: Vec<PolicyStatement> = Vec::new();
    let ghost sm = st@;
    statements.push(st);
    proof {
        assert(views_of_statements(statements@) =~= seq![sm]);
    }
    Ok(PolicyDocument { version: String::from_str("2012-10-17"), statements })
}

/// The outcome that the explain flow reports: the diagnosis and the
/// permissions that would fix it.
#[derive(Debug, Clone)]
pub struct PlanResult {
    /// The parsed denial.
    pub diagnosis: ParsedDenial,
    /// The permissions that would be granted.
    pub actions: Vec<String>,
}

} // verus!
