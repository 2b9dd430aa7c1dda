//! IAM policy statements, their generation from enriched calls, and
//! merging.
//!
//! Generation expands every ARN template against the engine's AWS
//! context, builds one Allow statement per action with the deduplicated
//! resource strings, collapses statements with equal dedup keys, and
//! assigns deterministic statement ids.

use vstd::prelude::*;
use crate::arn::{subst_template_spec, substitute_template};
use crate::arguments::views_of_strings;
use crate::enrichment::{Action, ActionModel, EnrichedSdkMethodCall, EnrichedCallModel,
    ResourceModel, views_of_actions};
use crate::errors::ExtractorError;
use crate::text::dec_str;

verus! {

/// The effect of a statement.
#[derive(Debug, Clone, Copy, PartialEq, Eq, Structural)]
pub enum Effect {
    Allow,
    Deny,
}

/// One IAM policy statement.
#[derive(Debug, Clone)]
pub struct PolicyStatement {
    /// The statement id, when one was assigned.
    pub sid: Option<String>,
    /// Allow or Deny.
    pub effect: Effect,
    /// The action names, order kept, duplicates removed.
    pub action: Vec<String>,
    /// The resource strings, order kept, duplicates removed.
    pub resource: Vec<String>,
    /// The condition, as rendered text, when there is one.
    pub condition: Option<String>,
}

/// Mathematical model of a `PolicyStatement`.
pub struct StatementModel {
    pub sid: Option<Seq<char>>,
    pub effect: Effect,
    pub action: Seq<Seq<char>>,
    pub resource: Seq<Seq<char>>,
    pub condition: Option<Seq<char>>,
}

impl View for PolicyStatement {
    type V = StatementModel;

    open spec fn view(&self) -> StatementModel {
        StatementModel {
            sid: match &self.sid {
                Some(s) => Some(s@),
                None => None,
            },
            effect: self.effect,
            action: views_of_strings(self.action@),
            resource: views_of_strings(self.resource@),
            condition: match &self.condition {
                Some(c) => Some(c@),
                None => None,
            },
        }
    }
}

/// An IAM policy document: the fixed version string and the statements
/// in their stable order.
#[derive(Debug, Clone)]
pub struct PolicyDocument {
    /// Always the fixed IAM policy language version.
    pub version: String,
    /// The statements, in generation order.
    pub statements: Vec<PolicyStatement>,
}

/// Mathematical model of a `PolicyDocument`.
pub struct DocumentModel {
    pub version: Seq<char>,
    pub statements: Seq<StatementModel>,
}

/// The views of a statement list.
pub open spec fn views_of_statements(v: Seq<PolicyStatement>) -> Seq<StatementModel> {
    v.map_values(|s: PolicyStatement| s@)
}

impl View for PolicyDocument {
    type V = DocumentModel;

    open spec fn view(&self) -> DocumentModel {
        DocumentModel { version: self.version@, statements: views_of_statements(self.statements@) }
    }
}

/// A generated policy with the call it was generated for.
#[derive(Debug, Clone)]
pub struct GeneratedPolicy {
    /// The method name of the originating call.
    pub method_name: String,
    /// The service of the originating call.
    pub service: String,
    /// The generated document.
    pub policy: PolicyDocument,
}

/// Mathematical model of a `GeneratedPolicy`.
pub struct GeneratedPolicyModel {
    pub method_name: Seq<char>,
    pub service: Seq<char>,
    pub policy: DocumentModel,
}

impl View for GeneratedPolicy {
    type V = GeneratedPolicyModel;

    open spec fn view(&self) -> GeneratedPolicyModel {
        GeneratedPolicyModel {
            method_name: self.method_name@,
            service: self.service@,
            policy: self.policy@,
        }
    }
}

/// The views of a generated-policy list.
pub open spec fn views_of_generated(v: Seq<GeneratedPolicy>) -> Seq<GeneratedPolicyModel> {
    v.map_values(|g: GeneratedPolicy| g@)
}

/// The result of policy generation: the per-call policies, and the
/// explanation texts when they were asked for.
#[derive(Debug, Clone)]
pub struct GeneratePoliciesResult {
    /// One generated policy per enriched call, in input order.
    pub policies: Vec<GeneratedPolicy>,
    /// Explanation texts, when requested.
    pub explanations: Option<Vec<String>>,
}

/// Configuration of the statement merger.
#[derive(Debug, Clone, PartialEq, Eq, Structural)]
pub struct PolicyMergerConfig {
    /// Merging of statements whose actions belong to different services
    /// is only done when this is set.
    pub allow_cross_service_merging: bool,
}

/// Substitution of a template against the AWS context alone.
pub open spec fn subst_ctx(
    t: Seq<char>,
    partition: Seq<char>,
    region: Seq<char>,
    account: Seq<char>,
) -> Option<Seq<char>> {
    subst_template_spec(t, partition, region, account, Seq::empty())
}

/// The expansions of a template list from index `k` on; the error case
/// names the first failing template.
pub open spec fn templates_expand(
    ts: Seq<Seq<char>>,
    k: int,
    partition: Seq<char>,
    region: Seq<char>,
    account: Seq<char>,
) -> Result<Seq<Seq<char>>, Seq<char>>
    decreases ts.len() - k when 0 <= k <= ts.len()
{
    if k >= ts.len() {
        Ok(Seq::empty())
    } else {
        match subst_ctx(ts[k], partition, region, account) {
            None => Err(ts[k]),
            Some(s) => match templates_expand(ts, k + 1, partition, region, account) {
                Err(t) => Err(t),
                Ok(rest) => Ok(seq![s] + rest),
            },
        }
    }
}

/// The context key of a resource: the call's service and the
/// resource-type name.
pub open spec fn resource_ctx_key(service: Seq<char>, rtype: Seq<char>) -> Seq<char> {
    service + ":"@ + rtype
}

/// The expansions of every template of every resource from index `k`
/// on, in order; resources without templates contribute nothing, and
/// each resource's fully-wildcarded expansions may be stood in for by
/// the one context ARN under its key.
pub open spec fn resources_expand(
    rs: Seq<ResourceModel>,
    k: int,
    service: Seq<char>,
    acct: Seq<(Seq<char>, Seq<Seq<char>>)>,
    tf: Seq<(Seq<char>, Seq<Seq<char>>)>,
    partition: Seq<char>,
    region: Seq<char>,
    account: Seq<char>,
) -> Result<Seq<Seq<char>>, Seq<char>>
    decreases rs.len() - k when 0 <= k <= rs.len()
{
    if k >= rs.len() {
        Ok(Seq::empty())
    } else {
        let head = match rs[k].arn_templates {
            Some(ts) => templates_expand(ts, 0, partition, region, account),
            None => Ok(Seq::empty()),
        };
        match head {
            Err(t) => Err(t),
            Ok(h) => {
                let resolved = crate::context::context_fallback_spec(
                    h,
                    resource_ctx_key(service, rs[k].resource_type_name),
                    acct,
                    tf,
                );
                match resources_expand(rs, k + 1, service, acct, tf, partition, region, account) {
                    Err(t) => Err(t),
                    Ok(rest) => Ok(resolved + rest),
                }
            },
        }
    }
}

/// First-occurrence deduplication of strings, order kept.
pub open spec fn dedup_from(xs: Seq<Seq<char>>, k: int, acc: Seq<Seq<char>>) -> Seq<Seq<char>>
    decreases xs.len() - k when 0 <= k <= xs.len()
{
    if k >= xs.len() {
        acc
    } else if acc.contains(xs[k]) {
        dedup_from(xs, k + 1, acc)
    } else {
        dedup_from(xs, k + 1, acc.push(xs[k]))
    }
}

pub open spec fn dedup_strings(xs: Seq<Seq<char>>) -> Seq<Seq<char>> {
    dedup_from(xs, 0, Seq::empty())
}

/// The statement of one action: Allow, the action's name, and its
/// deduplicated resource expansions — the bare wildcard when there are
/// none.
pub open spec fn statement_for_action_spec(
    a: ActionModel,
    service: Seq<char>,
    acct: Seq<(Seq<char>, Seq<Seq<char>>)>,
    tf: Seq<(Seq<char>, Seq<Seq<char>>)>,
    partition: Seq<char>,
    region: Seq<char>,
    account: Seq<char>,
) -> Result<StatementModel, Seq<char>> {
    match resources_expand(a.resources, 0, service, acct, tf, partition, region, account) {
        Err(t) => Err(t),
        Ok(all) => {
            let ded = dedup_strings(all);
            let res = if ded.len() == 0 {
                seq!["*"@]
            } else {
                ded
            };
            Ok(
                StatementModel {
                    sid: None,
                    effect: Effect::Allow,
                    action: seq![a.name],
                    resource: res,
                    condition: None,
                },
            )
        },
    }
}

/// The statements of a call's actions from index `k` on.
pub open spec fn statements_for_call_spec(
    actions: Seq<ActionModel>,
    k: int,
    service: Seq<char>,
    acct: Seq<(Seq<char>, Seq<Seq<char>>)>,
    tf: Seq<(Seq<char>, Seq<Seq<char>>)>,
    partition: Seq<char>,
    region: Seq<char>,
    account: Seq<char>,
) -> Result<Seq<StatementModel>, Seq<char>>
    decreases actions.len() - k when 0 <= k <= actions.len()
{
    if k >= actions.len() {
        Ok(Seq::empty())
    } else {
        match statement_for_action_spec(
            actions[k],
            service,
            acct,
            tf,
            partition,
            region,
            account,
        ) {
            Err(t) => Err(t),
            Ok(st) => match statements_for_call_spec(
                actions,
                k + 1,
                service,
                acct,
                tf,
                partition,
                region,
                account,
            ) {
                Err(t) => Err(t),
                Ok(rest) => Ok(seq![st] + rest),
            },
        }
    }
}

/// The deduplication identity of a statement: its actions, resources
/// and condition.
pub open spec fn stmt_key_eq(a: StatementModel, b: StatementModel) -> bool {
    a.action == b.action && a.resource == b.resource && a.condition == b.condition
}

pub open spec fn contains_stmt_key(acc: Seq<StatementModel>, s: StatementModel) -> bool {
    exists|i: int| 0 <= i < acc.len() && stmt_key_eq(#[trigger] acc[i], s)
}

/// First-occurrence deduplication of statements by their key.
pub open spec fn dedup_stmts_from(
    xs: Seq<StatementModel>,
    k: int,
    acc: Seq<StatementModel>,
) -> Seq<StatementModel>
    decreases xs.len() - k when 0 <= k <= xs.len()
{
    if k >= xs.len() {
        acc
    } else if contains_stmt_key(acc, xs[k]) {
        dedup_stmts_from(xs, k + 1, acc)
    } else {
        dedup_stmts_from(xs, k + 1, acc.push(xs[k]))
    }
}

pub open spec fn dedup_statements_spec(xs: Seq<StatementModel>) -> Seq<StatementModel> {
    dedup_stmts_from(xs, 0, Seq::empty())
}

pub open spec fn is_alnum_char(c: char) -> bool {
    ('0' <= c && c <= '9') || ('a' <= c && c <= 'z') || ('A' <= c && c <= 'Z')
}

/// ASCII letters mapped to upper case; all other characters unchanged.
pub open spec fn ascii_upper_char(c: char) -> char {
    if 'a' <= c && c <= 'z' {
        ((c as u32) - 32) as char
    } else {
        c
    }
}

/// Pascal-casing of an action name: split at every character that is
/// not a letter or digit, capitalize the first character of each piece,
/// drop the separators.
pub open spec fn pascal_from(s: Seq<char>, i: int, boundary: bool) -> Seq<char>
    decreases s.len() - i when 0 <= i <= s.len()
{
    if i >= s.len() {
        Seq::empty()
    } else if !is_alnum_char(s[i]) {
        pascal_from(s, i + 1, true)
    } else if boundary {
        seq![ascii_upper_char(s[i])] + pascal_from(s, i + 1, false)
    } else {
        seq![s[i]] + pascal_from(s, i + 1, false)
    }
}

/// The statement-id base of an action name.
pub open spec fn sid_base_spec(action: Seq<char>) -> Seq<char> {
    "Allow"@ + pascal_from(action, 0, true)
}

pub open spec fn is_prefix_of(a: Seq<char>, b: Seq<char>) -> bool {
    a.len() <= b.len() && b.subrange(0, a.len() as int) == a
}

/// Two statement ids collide when either is a prefix of the other.
pub open spec fn sid_collides(u: Seq<char>, base: Seq<char>) -> bool {
    is_prefix_of(u, base) || is_prefix_of(base, u)
}

/// The number of already-assigned ids that collide with `base`.
pub open spec fn count_collisions(used: Seq<Seq<char>>, k: int, base: Seq<char>) -> int
    decreases used.len() - k when 0 <= k <= used.len()
{
    if k >= used.len() {
        0
    } else {
        (if sid_collides(used[k], base) {
            1int
        } else {
            0int
        }) + count_collisions(used, k + 1, base)
    }
}

/// The id given to a statement: its base, with the count of colliding
/// earlier ids as a decimal suffix when that count is not zero.
pub open spec fn sid_for(used: Seq<Seq<char>>, base: Seq<char>) -> Seq<char> {
    let n = count_collisions(used, 0, base);
    if n == 0 {
        base
    } else {
        base + dec_str(n as nat)
    }
}

/// The action name a statement's id is derived from: its first action.
pub open spec fn stmt_sid_action(s: StatementModel) -> Seq<char> {
    if s.action.len() > 0 {
        s.action[0]
    } else {
        Seq::empty()
    }
}

/// Assigns ids to the statements from index `k` on, remembering the
/// ids already given out in `used`.
pub open spec fn assign_sids_from(
    xs: Seq<StatementModel>,
    k: int,
    used: Seq<Seq<char>>,
    out: Seq<StatementModel>,
) -> Seq<StatementModel>
    decreases xs.len() - k when 0 <= k <= xs.len()
{
    if k >= xs.len() {
        out
    } else {
        let base = sid_base_spec(stmt_sid_action(xs[k]));
        let sid = sid_for(used, base);
        let st = StatementModel {
            sid: Some(sid),
            effect: xs[k].effect,
            action: xs[k].action,
            resource: xs[k].resource,
            condition: xs[k].condition,
        };
        assign_sids_from(xs, k + 1, used.push(sid), out.push(st))
    }
}

pub open spec fn assign_sids_spec(xs: Seq<StatementModel>) -> Seq<StatementModel> {
    assign_sids_from(xs, 0, Seq::empty(), Seq::empty())
}

/// The fixed IAM policy language version.
pub open spec fn policy_version_spec() -> Seq<char> {
    "2012-10-17"@
}

/// The document generated for one call: its statements, deduplicated by
/// key and with ids assigned.
pub open spec fn document_for_call_spec(
    c: EnrichedCallModel,
    acct: Seq<(Seq<char>, Seq<Seq<char>>)>,
    tf: Seq<(Seq<char>, Seq<Seq<char>>)>,
    partition: Seq<char>,
    region: Seq<char>,
    account: Seq<char>,
) -> Result<DocumentModel, Seq<char>> {
    match statements_for_call_spec(c.actions, 0, c.service, acct, tf, partition, region, account) {
        Err(t) => Err(t),
        Ok(sts) => Ok(
            DocumentModel {
                version: policy_version_spec(),
                statements: assign_sids_spec(dedup_statements_spec(sts)),
            },
        ),
    }
}

/// The views of an enriched-call list.
pub open spec fn views_of_calls(v: Seq<EnrichedSdkMethodCall>) -> Seq<EnrichedCallModel> {
    v.map_values(|c: EnrichedSdkMethodCall| c@)
}

/// The generated policies for the calls from index `k` on, one per
/// call; the error case names the first failing template.
pub open spec fn generate_spec(
    calls: Seq<EnrichedCallModel>,
    k: int,
    acct: Seq<(Seq<char>, Seq<Seq<char>>)>,
    tf: Seq<(Seq<char>, Seq<Seq<char>>)>,
    partition: Seq<char>,
    region: Seq<char>,
    account: Seq<char>,
) -> Result<Seq<GeneratedPolicyModel>, Seq<char>>
    decreases calls.len() - k when 0 <= k <= calls.len()
{
    if k >= calls.len() {
        Ok(Seq::empty())
    } else {
        match document_for_call_spec(calls[k], acct, tf, partition, region, account) {
            Err(t) => Err(t),
            Ok(doc) => match generate_spec(calls, k + 1, acct, tf, partition, region, account) {
                Err(t) => Err(t),
                Ok(rest) => Ok(
                    seq![
                        GeneratedPolicyModel {
                            method_name: calls[k].method_name,
                            service: calls[k].service,
                            policy: doc,
                        },
                    ] + rest,
                ),
            },
        }
    }
}

/// The message put in front of the failing template's text.
pub open spec fn empty_placeholder_msg() -> Seq<char> {
    "Invalid ARN template, contains empty placeholder: "@
}

/// A finished prefix put in front of a pending tail, errors passed on.
pub open spec fn result_prepend<T>(pre: Seq<T>, r: Result<Seq<T>, Seq<char>>) -> Result<
    Seq<T>,
    Seq<char>,
> {
    match r {
        Ok(v) => Ok(pre + v),
        Err(t) => Err(t),
    }
}

/// Copies a string vector element by element.
pub fn clone_string_vec(v: &Vec<String>) -> (r: Vec<String>)
    ensures
        views_of_strings(r@) == views_of_strings(v@),
{
    let mut r: Vec<String> = Vec::new();
    let mut i: usize = 0;
    while i < v.len()
        invariant
            i <= v@.len(),
            views_of_strings(r@) == views_of_strings(v@).subrange(0, i as int),
        decreases v@.len() - i,
    {
        let ghost old_r = r@;
        r.push(v[i].clone());
        proof {
            assert(views_of_strings(v@)[i as int] == v@[i as int]@);
            assert(views_of_strings(r@) =~= views_of_strings(old_r).push(v@[i as int]@));
            assert(views_of_strings(r@) =~= views_of_strings(v@).subrange(0, i + 1));
        }
        i += 1;
    }
    proof {
        assert(views_of_strings(v@).subrange(0, v@.len() as int) =~= views_of_strings(v@));
    }
    r
}

/// Membership of a string among the views of a vector.
fn contains_str(v: &Vec<String>, s: &String) -> (r: bool)
    ensures
        r == views_of_strings(v@).contains(s@),
{
    let mut k: usize = 0;
    while k < v.len()
        invariant
            k <= v@.len(),
            forall|m: int| 0 <= m < k ==> views_of_strings(v@)[m] != s@,
        decreases v@.len() - k,
    {
        if crate::text::str_eq(v[k].as_str(), s.as_str()) {
            proof {
                assert(views_of_strings(v@)[k as int] == s@);
            }
            return true;
        }
        proof {
            assert(views_of_strings(v@)[k as int] == v@[k as int]@);
        }
        k += 1;
    }
    proof {
        if views_of_strings(v@).contains(s@) {
            let w = choose|i: int|
                0 <= i < views_of_strings(v@).len() && views_of_strings(v@)[i] == s@;
            assert(false);
        }
    }
    false
}

/// First-occurrence deduplication of a string vector.
pub(crate) fn dedup_strings_exec(xs: &Vec<String>) -> (r: Vec<String>)
    ensures
        views_of_strings(r@) == dedup_strings(views_of_strings(xs@)),
{
    let ghost xv = views_of_strings(xs@);
    let mut out: Vec<String> = Vec::new();
    let mut k: usize = 0;
    proof {
        assert(views_of_strings(out@) =~= Seq::<Seq<char>>::empty());
    }
    while k < xs.len()
        invariant
            k <= xs@.len(),
            xv == views_of_strings(xs@),
            dedup_strings(xv) == dedup_from(xv, k as int, views_of_strings(out@)),
        decreases xs@.len() - k,
    {
        proof {
            assert(xv[k as int] == xs@[k as int]@);
        }
        if !contains_str(&out, &xs[k]) {
            let ghost old_out = out@;
            out.push(xs[k].clone());
            proof {
                assert(views_of_strings(out@) =~= views_of_strings(old_out).push(
                    xs@[k as int]@,
                ));
            }
        }
        k += 1;
    }
    out
}

/// Expands each template against the AWS context; the error names the
/// first failing template.
fn expand_templates(
    ts: &Vec<String>,
    partition: &str,
    region: &str,
    account: &str,
) -> (r: Result<Vec<String>, String>)
    ensures
        match r {
            Ok(v) => templates_expand(views_of_strings(ts@), 0, partition@, region@, account@)
                == Ok::<_, Seq<char>>(views_of_strings(v@)),
            Err(t) => templates_expand(views_of_strings(ts@), 0, partition@, region@, account@)
                == Err::<Seq<Seq<char>>, _>(t@),
        },
{
    let ghost tv = views_of_strings(ts@);
    let ghost pa = partition@;
    let ghost re = region@;
    let ghost ac = account@;
    let empty_args: Vec<(String, String)> = Vec::new();
    proof {
        assert(crate::arn::pairs_view(empty_args@) =~= Seq::<(Seq<char>, Seq<char>)>::empty());
    }
    let mut out: Vec<String> = Vec::new();
    let mut k: usize = 0;
    proof {
        assert(result_prepend(views_of_strings(out@), templates_expand(tv, 0, pa, re, ac))
            == templates_expand(tv, 0, pa, re, ac)) by {
            match templates_expand(tv, 0, pa, re, ac) {
                Ok(v) => {
                    assert(views_of_strings(out@) + v =~= v);
                },
                Err(t) => {},
            }
        }
    }
    while k < ts.len()
        invariant
            k <= ts@.len(),
            tv == views_of_strings(ts@),
            pa == partition@ && re == region@ && ac == account@,
            crate::arn::pairs_view(empty_args@) == Seq::<(Seq<char>, Seq<char>)>::empty(),
            templates_expand(tv, 0, pa, re, ac) == result_prepend(
                views_of_strings(out@),
                templates_expand(tv, k as int, pa, re, ac),
            ),
        decreases ts@.len() - k,
    {
        proof {
            assert(tv[k as int] == ts@[k as int]@);
        }
        match substitute_template(ts[k].as_str(), partition, region, account, &empty_args) {
            Some(s) => {
                let ghost old_out = out@;
                out.push(s);
                proof {
                    let sv = subst_ctx(tv[k as int], pa, re, ac)->Some_0;
                    assert(views_of_strings(out@) =~= views_of_strings(old_out).push(sv));
                    match templates_expand(tv, k + 1, pa, re, ac) {
                        Ok(rest) => {
                            assert(views_of_strings(old_out) + (seq![sv] + rest)
                                =~= views_of_strings(out@) + rest);
                        },
                        Err(t) => {},
                    }
                }
            },
            None => {
                return Err(ts[k].clone());
            },
        }
        k += 1;
    }
    proof {
        assert(views_of_strings(out@) + Seq::<Seq<char>>::empty() =~= views_of_strings(out@));
    }
    Ok(out)
}

/// Expands every template of every resource of an action, applying
/// the context tier per resource; the error names the first failing
/// template.
fn expand_resources(
    rs: &Vec<crate::enrichment::Resource>,
    service: &str,
    acct: &crate::context::AccountResourceContext,
    tf: &crate::context::TerraformStateContext,
    partition: &str,
    region: &str,
    account: &str,
) -> (r: Result<Vec<String>, String>)
    ensures
        match r {
            Ok(v) => resources_expand(
                crate::enrichment::views_of_resources(rs@),
                0,
                service@,
                crate::context::account_map_view(acct.resource_map@),
                crate::context::tf_map_view(tf.resource_arns@),
                partition@,
                region@,
                account@,
            ) == Ok::<_, Seq<char>>(views_of_strings(v@)),
            Err(t) => resources_expand(
                crate::enrichment::views_of_resources(rs@),
                0,
                service@,
                crate::context::account_map_view(acct.resource_map@),
                crate::context::tf_map_view(tf.resource_arns@),
                partition@,
                region@,
                account@,
            ) == Err::<Seq<Seq<char>>, _>(t@),
        },
{
    let ghost rv = crate::enrichment::views_of_resources(rs@);
    let ghost sv = service@;
    let ghost am = crate::context::account_map_view(acct.resource_map@);
    let ghost tm = crate::context::tf_map_view(tf.resource_arns@);
    let ghost pa = partition@;
    let ghost re = region@;
    let ghost ac = account@;
    let mut out: Vec<String> = Vec::new();
    let mut k: usize = 0;
    proof {
        match resources_expand(rv, 0, sv, am, tm, pa, re, ac) {
            Ok(v) => {
                assert(views_of_strings(out@) + v =~= v);
            },
            Err(t) => {},
        }
    }
    while k < rs.len()
        invariant
            k <= rs@.len(),
            rv == crate::enrichment::views_of_resources(rs@),
            sv == service@ && pa == partition@ && re == region@ && ac == account@,
            am == crate::context::account_map_view(acct.resource_map@),
            tm == crate::context::tf_map_view(tf.resource_arns@),
            resources_expand(rv, 0, sv, am, tm, pa, re, ac) == result_prepend(
                views_of_strings(out@),
                resources_expand(rv, k as int, sv, am, tm, pa, re, ac),
            ),
        decreases rs@.len() - k,
    {
        proof {
            assert(rv[k as int] == rs@[k as int]@);
        }
        let expanded: Vec<String> = match &rs[k].arn_templates {
            Some(ts) => {
                match expand_templates(ts, partition, region, account) {
                    Ok(h) => h,
                    Err(t) => {
                        return Err(t);
                    },
                }
            },
            None => Vec::new(),
        };
        let mut key = service.to_owned();
        key.append(":");
        key.append(rs[k].resource_type_name.as_str());
        proof {
            reveal_strlit(":");
            assert(key@ == resource_ctx_key(sv, rv[k as int].resource_type_name));
        }
        let head = crate::context::context_fallback(expanded, key.as_str(), acct, tf);
        let ghost old_out = out@;
        let ghost hv = views_of_strings(head@);
        let mut j: usize = 0;
        while j < head.len()
            invariant
                j <= head@.len(),
                hv == views_of_strings(head@),
                views_of_strings(out@) == views_of_strings(old_out) + hv.subrange(0, j as int),
            decreases head@.len() - j,
        {
            out.push(head[j].clone());
            proof {
                assert(hv[j as int] == head@[j as int]@);
                assert(views_of_strings(old_out) + hv.subrange(0, j + 1)
                    =~= (views_of_strings(old_out) + hv.subrange(0, j as int)).push(
                    hv[j as int],
                ));
                assert(views_of_strings(out@) =~= (views_of_strings(old_out) + hv.subrange(
                    0,
                    j as int,
                )).push(hv[j as int]));
            }
            j += 1;
        }
        proof {
            assert(hv.subrange(0, hv.len() as int) =~= hv);
            match resources_expand(rv, k + 1, sv, am, tm, pa, re, ac) {
                Ok(rest) => {
                    assert(views_of_strings(old_out) + (hv + rest) =~= (views_of_strings(
                        old_out,
                    ) + hv) + rest);
                },
                Err(t) => {},
            }
        }
        k += 1;
    }
    proof {
        assert(views_of_strings(out@) + Seq::<Seq<char>>::empty() =~= views_of_strings(out@));
    }
    Ok(out)
}

/// Equality of two string vectors, element by element.
fn str_vecs_eq(a: &Vec<String>, b: &Vec<String>) -> (r: bool)
    ensures
        r == (views_of_strings(a@) == views_of_strings(b@)),
{
    if a.len() != b.len() {
        proof {
            assert(views_of_strings(a@).len() != views_of_strings(b@).len());
        }
        return false;
    }
    let mut k: usize = 0;
    while k < a.len()
        invariant
            k <= a@.len(),
            a@.len() == b@.len(),
            forall|m: int|
                0 <= m < k ==> views_of_strings(a@)[m] == views_of_strings(b@)[m],
        decreases a@.len() - k,
    {
        proof {
            assert(views_of_strings(a@)[k as int] == a@[k as int]@);
            assert(views_of_strings(b@)[k as int] == b@[k as int]@);
        }
        if !crate::text::str_eq(a[k].as_str(), b[k].as_str()) {
            proof {
                assert(views_of_strings(a@)[k as int] != views_of_strings(b@)[k as int]);
            }
            return false;
        }
        k += 1;
    }
    proof {
        assert(views_of_strings(a@) =~= views_of_strings(b@));
    }
    true
}

/// Equality of two optional strings by their views.
fn opt_str_eq(a: &Option<String>, b: &Option<String>) -> (r: bool)
    ensures
        r == (match (a, b) {
            (Some(x), Some(y)) => x@ == y@,
            (None, None) => true,
            _ => false,
        }),
{
    match (a, b) {
        (Some(x), Some(y)) => crate::text::str_eq(x.as_str(), y.as_str()),
        (None, None) => true,
        _ => false,
    }
}

/// Equality of two statements' deduplication keys.
fn stmt_key_eq_exec(a: &PolicyStatement, b: &PolicyStatement) -> (r: bool)
    ensures
        r == stmt_key_eq(a@, b@),
{
    let actions = str_vecs_eq(&a.action, &b.action);
    let resources = str_vecs_eq(&a.resource, &b.resource);
    let conditions = opt_str_eq(&a.condition, &b.condition);
    actions && resources && conditions
}

/// Whether a statement with the same key already stands in `acc`.
fn contains_stmt_key_exec(acc: &Vec<PolicyStatement>, s: &PolicyStatement) -> (r: bool)
    ensures
        r == contains_stmt_key(views_of_statements(acc@), s@),
{
    let mut k: usize = 0;
    while k < acc.len()
        invariant
            k <= acc@.len(),
            forall|m: int|
                0 <= m < k ==> !stmt_key_eq(#[trigger] views_of_statements(acc@)[m], s@),
        decreases acc@.len() - k,
    {
        proof {
            assert(views_of_statements(acc@)[k as int] == acc@[k as int]@);
        }
        if stmt_key_eq_exec(&acc[k], s) {
            return true;
        }
        k += 1;
    }
    proof {
        if contains_stmt_key(views_of_statements(acc@), s@) {
            let w = choose|i: int|
                0 <= i < views_of_statements(acc@).len() && stmt_key_eq(
                    #[trigger] views_of_statements(acc@)[i],
                    s@,
                );
            assert(false);
        }
    }
    false
}

/// Copies an optional string.
fn clone_opt_string(v: &Option<String>) -> (r: Option<String>)
    ensures
        match (v, &r) {
            (Some(x), Some(y)) => x@ == y@,
            (None, None) => true,
            _ => false,
        },
{
    match v {
        Some(x) => Some(x.clone()),
        None => None,
    }
}

/// Copies a statement field by field.
fn clone_statement(s: &PolicyStatement) -> (r: PolicyStatement)
    ensures
        r@ == s@,
{
    PolicyStatement {
        sid: clone_opt_string(&s.sid),
        effect: s.effect,
        action: clone_string_vec(&s.action),
        resource: clone_string_vec(&s.resource),
        condition: clone_opt_string(&s.condition),
    }
}

/// First-occurrence deduplication of statements by their key.
fn dedup_statements_exec(xs: &Vec<PolicyStatement>) -> (r: Vec<PolicyStatement>)
    ensures
        views_of_statements(r@) == dedup_statements_spec(views_of_statements(xs@)),
{
    let ghost xv = views_of_statements(xs@);
    let mut out: Vec<PolicyStatement> = Vec::new();
    let mut k: usize = 0;
    proof {
        assert(views_of_statements(out@) =~= Seq::<StatementModel>::empty());
    }
    while k < xs.len()
        invariant
            k <= xs@.len(),
            xv == views_of_statements(xs@),
            dedup_statements_spec(xv) == dedup_stmts_from(
                xv,
                k as int,
                views_of_statements(out@),
            ),
        decreases xs@.len() - k,
    {
        proof {
            assert(xv[k as int] == xs@[k as int]@);
        }
        if !contains_stmt_key_exec(&out, &xs[k]) {
            let ghost old_out = out@;
            let copy = clone_statement(&xs[k]);
            out.push(copy);
            proof {
                assert(views_of_statements(out@) =~= views_of_statements(old_out).push(
                    xs@[k as int]@,
                ));
            }
        }
        k += 1;
    }
    out
}

fn is_alnum(c: char) -> (r: bool)
    ensures
        r == is_alnum_char(c),
{
    ('0' <= c && c <= '9') || ('a' <= c && c <= 'z') || ('A' <= c && c <= 'Z')
}

fn ascii_upper(c: char) -> (r: char)
    ensures
        r == ascii_upper_char(c),
{
    if 'a' <= c && c <= 'z' {
        (((c as u32) - 32) as u8) as char
    } else {
        c
    }
}

/// The statement-id base of an action name: `Allow` plus the
/// Pascal-cased name.
fn sid_base_exec(action: &str) -> (r: String)
    ensures
        r@ == sid_base_spec(action@),
{
    let v = crate::text::str_to_chars(action);
    let n = v.len();
    let mut out: Vec<char> = Vec::new();
    let mut boundary = true;
    let mut i: usize = 0;
    proof {
        assert(out@ + pascal_from(v@, 0, true) =~= pascal_from(v@, 0, true));
    }
    while i < n
        invariant
            i <= n,
            n == v@.len(),
            v@ == action@,
            pascal_from(v@, 0, true) == out@ + pascal_from(v@, i as int, boundary),
        decreases n - i,
    {
        let c = v[i];
        proof {
            if is_alnum_char(c) {
                if boundary {
                    assert(out@ + (seq![ascii_upper_char(c)] + pascal_from(v@, i + 1, false))
                        =~= out@.push(ascii_upper_char(c)) + pascal_from(v@, i + 1, false));
                } else {
                    assert(out@ + (seq![c] + pascal_from(v@, i + 1, false)) =~= out@.push(c)
                        + pascal_from(v@, i + 1, false));
                }
            }
        }
        if !is_alnum(c) {
            boundary = true;
        } else if boundary {
            out.push(ascii_upper(c));
            boundary = false;
        } else {
            out.push(c);
        }
        i += 1;
    }
    proof {
        assert(out@ + Seq::<char>::empty() =~= out@);
    }
    let mut m = String::from_str("Allow");
    let tail = crate::text::chars_to_string(&out);
    m.append(tail.as_str());
    m
}

/// Whether either id is a prefix of the other.
fn prefix_collides(u: &str, base: &str) -> (r: bool)
    ensures
        r == sid_collides(u@, base@),
{
    let uv = crate::text::str_to_chars(u);
    let bv = crate::text::str_to_chars(base);
    let l: usize = if uv.len() <= bv.len() {
        uv.len()
    } else {
        bv.len()
    };
    let mut k: usize = 0;
    while k < l
        invariant
            k <= l,
            l == if uv@.len() <= bv@.len() {
                uv@.len()
            } else {
                bv@.len()
            },
            uv@ == u@,
            bv@ == base@,
            forall|m: int| 0 <= m < k ==> uv@[m] == bv@[m],
        decreases l - k,
    {
        if uv[k] != bv[k] {
            proof {
                if is_prefix_of(u@, base@) {
                    assert(base@.subrange(0, u@.len() as int)[k as int] == u@[k as int]);
                }
                if is_prefix_of(base@, u@) {
                    assert(u@.subrange(0, base@.len() as int)[k as int] == base@[k as int]);
                }
            }
            return false;
        }
        k += 1;
    }
    proof {
        if uv@.len() <= bv@.len() {
            assert(base@.subrange(0, u@.len() as int) =~= u@);
        } else {
            assert(u@.subrange(0, base@.len() as int) =~= base@);
        }
    }
    true
}

/// Counts the already-assigned ids that collide with `base`.
fn count_collisions_exec(used: &Vec<String>, base: &str) -> (r: usize)
    ensures
        r as int == count_collisions(views_of_strings(used@), 0, base@),
{
    let ghost uv = views_of_strings(used@);
    let mut cnt: usize = 0;
    let mut k: usize = 0;
    while k < used.len()
        invariant
            k <= used@.len(),
            cnt <= k,
            uv == views_of_strings(used@),
            count_collisions(uv, 0, base@) == cnt as int + count_collisions(
                uv,
                k as int,
                base@,
            ),
        decreases used@.len() - k,
    {
        proof {
            assert(uv[k as int] == used@[k as int]@);
        }
        if prefix_collides(used[k].as_str(), base) {
            cnt += 1;
        }
        k += 1;
    }
    cnt
}

/// Assigns deterministic ids: the base of the statement's first action,
/// with the count of colliding earlier ids as suffix when it is not
/// zero.
fn assign_sids_exec(xs: &Vec<PolicyStatement>) -> (r: Vec<PolicyStatement>)
    ensures
        views_of_statements(r@) == assign_sids_spec(views_of_statements(xs@)),
{
    let ghost xv = views_of_statements(xs@);
    let mut used: Vec<String> = Vec::new();
    let mut out: Vec<PolicyStatement> = Vec::new();
    let mut k: usize = 0;
    proof {
        assert(views_of_strings(used@) =~= Seq::<Seq<char>>::empty());
        assert(views_of_statements(out@) =~= Seq::<StatementModel>::empty());
    }
    while k < xs.len()
        invariant
            k <= xs@.len(),
            xv == views_of_statements(xs@),
            assign_sids_spec(xv) == assign_sids_from(
                xv,
                k as int,
                views_of_strings(used@),
                views_of_statements(out@),
            ),
        decreases xs@.len() - k,
    {
        proof {
            assert(xv[k as int] == xs@[k as int]@);
        }
        let base: String = if xs[k].action.len() > 0 {
            proof {
                assert(views_of_strings(xs@[k as int].action@)[0] == xs@[k as int].action@[0]@);
            }
            sid_base_exec(xs[k].action[0].as_str())
        } else {
            let e = String::new();
            let b = sid_base_exec(e.as_str());
            b
        };
        let n = count_collisions_exec(&used, base.as_str());
        let sid: String = if n == 0 {
            base
        } else {
            let digits = crate::text::u64_to_dec(n as u64);
            let ds = crate::text::chars_to_string(&digits);
            let mut b = base;
            b.append(ds.as_str());
            b
        };
        let st = PolicyStatement {
            sid: Some(sid.clone()),
            effect: xs[k].effect,
            action: clone_string_vec(&xs[k].action),
            resource: clone_string_vec(&xs[k].resource),
            condition: clone_opt_string(&xs[k].condition),
        };
        let ghost old_used = used@;
        let ghost old_out = out@;
        used.push(sid);
        out.push(st);
        proof {
            let bm = sid_base_spec(stmt_sid_action(xv[k as int]));
            let sm = sid_for(views_of_strings(old_used), bm);
            assert(views_of_strings(used@) =~= views_of_strings(old_used).push(sm));
            assert(views_of_statements(out@)[out@.len() - 1] == out@[out@.len() - 1]@);
            assert(views_of_statements(out@) =~= views_of_statements(old_out).push(
                StatementModel {
                    sid: Some(sm),
                    effect: xv[k as int].effect,
                    action: xv[k as int].action,
                    resource: xv[k as int].resource,
                    condition: xv[k as int].condition,
                },
            ));
        }
        k += 1;
    }
    out
}

/// Builds the statement of one action.
fn statement_for_action_exec(
    a: &Action,
    service: &str,
    acct: &crate::context::AccountResourceContext,
    tf: &crate::context::TerraformStateContext,
    partition: &str,
    region: &str,
    account: &str,
) -> (r: Result<PolicyStatement, String>)
    ensures
        match r {
            Ok(st) => statement_for_action_spec(
                a@,
                service@,
                crate::context::account_map_view(acct.resource_map@),
                crate::context::tf_map_view(tf.resource_arns@),
                partition@,
                region@,
                account@,
            ) == Ok::<_, Seq<char>>(st@),
            Err(t) => statement_for_action_spec(
                a@,
                service@,
                crate::context::account_map_view(acct.resource_map@),
                crate::context::tf_map_view(tf.resource_arns@),
                partition@,
                region@,
                account@,
            ) == Err::<StatementModel, _>(t@),
        },
{
    let expanded = match expand_resources(&a.resources, service, acct, tf, partition, region,
        account) {
        Ok(v) => v,
        Err(t) => {
            return Err(t);
        },
    };
    let mut res = dedup_strings_exec(&expanded);
    if res.len() == 0 {
        let mut w: Vec<char> = Vec::new();
        w.push('*');
        proof {
            reveal_strlit("*");
            assert(w@ =~= "*"@);
        }
        res.push(crate::text::chars_to_string(&w));
        proof {
            assert(views_of_strings(res@) =~= seq!["*"@]);
        }
    }
    let mut action: Vec<String> = Vec::new();
    action.push(a.name.clone());
    proof {
        assert(views_of_strings(action@) =~= seq![a.name@]);
    }
    let st = PolicyStatement {
        sid: None,
        effect: Effect::Allow,
        action,
        resource: res,
        condition: None,
    };
    Ok(st)
}

/// Builds the statements of all of a call's actions.
fn statements_for_call_exec(
    actions: &Vec<Action>,
    service: &str,
    acct: &crate::context::AccountResourceContext,
    tf: &crate::context::TerraformStateContext,
    partition: &str,
    region: &str,
    account: &str,
) -> (r: Result<Vec<PolicyStatement>, String>)
    ensures
        match r {
            Ok(v) => statements_for_call_spec(
                views_of_actions(actions@),
                0,
                service@,
                crate::context::account_map_view(acct.resource_map@),
                crate::context::tf_map_view(tf.resource_arns@),
                partition@,
                region@,
                account@,
            ) == Ok::<_, Seq<char>>(views_of_statements(v@)),
            Err(t) => statements_for_call_spec(
                views_of_actions(actions@),
                0,
                service@,
                crate::context::account_map_view(acct.resource_map@),
                crate::context::tf_map_view(tf.resource_arns@),
                partition@,
                region@,
                account@,
            ) == Err::<Seq<StatementModel>, _>(t@),
        },
{
    let ghost av = views_of_actions(actions@);
    let ghost sv = service@;
    let ghost am = crate::context::account_map_view(acct.resource_map@);
    let ghost tm = crate::context::tf_map_view(tf.resource_arns@);
    let ghost pa = partition@;
    let ghost re = region@;
    let ghost ac = account@;
    let mut out: Vec<PolicyStatement> = Vec::new();
    let mut k: usize = 0;
    proof {
        match statements_for_call_spec(av, 0, sv, am, tm, pa, re, ac) {
            Ok(v) => {
                assert(views_of_statements(out@) + v =~= v);
            },
            Err(t) => {},
        }
    }
    while k < actions.len()
        invariant
            k <= actions@.len(),
            av == views_of_actions(actions@),
            sv == service@ && pa == partition@ && re == region@ && ac == account@,
            am == crate::context::account_map_view(acct.resource_map@),
            tm == crate::context::tf_map_view(tf.resource_arns@),
            statements_for_call_spec(av, 0, sv, am, tm, pa, re, ac) == result_prepend(
                views_of_statements(out@),
                statements_for_call_spec(av, k as int, sv, am, tm, pa, re, ac),
            ),
        decreases actions@.len() - k,
    {
        proof {
            assert(av[k as int] == actions@[k as int]@);
        }
        match statement_for_action_exec(&actions[k], service, acct, tf, partition, region,
            account) {
            Ok(st) => {
                let ghost old_out = out@;
                let ghost sm = st@;
                out.push(st);
                proof {
                    assert(views_of_statements(out@) =~= views_of_statements(old_out).push(sm));
                    match statements_for_call_spec(av, k + 1, sv, am, tm, pa, re, ac) {
                        Ok(rest) => {
                            assert(views_of_statements(old_out) + (seq![sm] + rest)
                                =~= views_of_statements(out@) + rest);
                        },
                        Err(t) => {},
                    }
                }
            },
            Err(t) => {
                return Err(t);
            },
        }
        k += 1;
    }
    proof {
        assert(views_of_statements(out@) + Seq::<StatementModel>::empty()
            =~= views_of_statements(out@));
    }
    Ok(out)
}

/// The policy-generation engine: holds the AWS context that templates
/// are expanded against and the merger configuration.
#[derive(Debug, Clone)]
pub struct Engine {
    /// The partition substituted for `${Partition}`.
    pub partition: String,
    /// The region substituted for `${Region}`.
    pub region: String,
    /// The account substituted for `${Account}`.
    pub account: String,
    /// How statements may be merged.
    pub merger_config: PolicyMergerConfig,
    /// Whether account-resource context is consulted.
    pub use_account_context: bool,
    /// Whether external state context is consulted.
    pub use_terraform: bool,
}

impl Engine {
    /// An engine with the given AWS context and default merging.
    pub fn new(partition: &str, region: &str, account: &str) -> (r: Engine)
        ensures
            r.partition@ == partition@,
            r.region@ == region@,
            r.account@ == account@,
            !r.merger_config.allow_cross_service_merging,
            !r.use_account_context,
            !r.use_terraform,
    {
        Engine {
            partition: partition.to_owned(),
            region: region.to_owned(),
            account: account.to_owned(),
            merger_config: PolicyMergerConfig { allow_cross_service_merging: false },
            use_account_context: false,
            use_terraform: false,
        }
    }

    /// An engine with an explicit merger configuration and context
    /// switches.
    pub fn with_config(
        partition: &str,
        region: &str,
        account: &str,
        merger_config: PolicyMergerConfig,
        use_account_context: bool,
        use_terraform: bool,
    ) -> (r: Engine)
        ensures
            r.partition@ == partition@,
            r.region@ == region@,
            r.account@ == account@,
            r.merger_config == merger_config,
            r.use_account_context == use_account_context,
            r.use_terraform == use_terraform,
    {
        Engine {
            partition: partition.to_owned(),
            region: region.to_owned(),
            account: account.to_owned(),
            merger_config,
            use_account_context,
            use_terraform,
        }
    }

    /// Generates one policy document per enriched call against the
    /// run's resource contexts: a statement per action with its
    /// deduplicated resource expansions, statements with equal keys
    /// collapsed, and deterministic ids assigned.  An ARN template
    /// with an empty placeholder fails the whole generation with a
    /// policy-generation error naming that template.
    pub fn generate_policies_with_context(
        &self,
        calls: &[EnrichedSdkMethodCall],
        acct: &crate::context::AccountResourceContext,
        tf: &crate::context::TerraformStateContext,
    ) -> (r: Result<GeneratePoliciesResult, ExtractorError>)
        ensures
            match r {
                Ok(out) => generate_spec(
                    views_of_calls(calls@),
                    0,
                    crate::context::account_map_view(acct.resource_map@),
                    crate::context::tf_map_view(tf.resource_arns@),
                    self.partition@,
                    self.region@,
                    self.account@,
                ) == Ok::<_, Seq<char>>(views_of_generated(out.policies@)) && out.explanations
                    is None,
                Err(e) => generate_spec(
                    views_of_calls(calls@),
                    0,
                    crate::context::account_map_view(acct.resource_map@),
                    crate::context::tf_map_view(tf.resource_arns@),
                    self.partition@,
                    self.region@,
                    self.account@,
                ) is Err && (e matches ExtractorError::PolicyGeneration { message }
                    && message@ == empty_placeholder_msg() + generate_spec(
                    views_of_calls(calls@),
                    0,
                    crate::context::account_map_view(acct.resource_map@),
                    crate::context::tf_map_view(tf.resource_arns@),
                    self.partition@,
                    self.region@,
                    self.account@,
                )->Err_0),
            },
    {
        let ghost cv = views_of_calls(calls@);
        let ghost am = crate::context::account_map_view(acct.resource_map@);
        let ghost tm = crate::context::tf_map_view(tf.resource_arns@);
        let ghost pa = self.partition@;
        let ghost re = self.region@;
        let ghost ac = self.account@;
        let mut out: Vec<GeneratedPolicy> = Vec::new();
        let mut k: usize = 0;
        proof {
            match generate_spec(cv, 0, am, tm, pa, re, ac) {
                Ok(v) => {
                    assert(views_of_generated(out@) + v =~= v);
                },
                Err(t) => {},
            }
        }
        while k < calls.len()
            invariant
                k <= calls@.len(),
                cv == views_of_calls(calls@),
                pa == self.partition@ && re == self.region@ && ac == self.account@,
                am == crate::context::account_map_view(acct.resource_map@),
                tm == crate::context::tf_map_view(tf.resource_arns@),
                generate_spec(cv, 0, am, tm, pa, re, ac) == result_prepend(
                    views_of_generated(out@),
                    generate_spec(cv, k as int, am, tm, pa, re, ac),
                ),
            decreases calls@.len() - k,
        {
            let call = vstd::slice::slice_index_get(calls, k);
            proof {
                assert(cv[k as int] == calls@[k as int]@);
            }
            match statements_for_call_exec(
                &call.actions,
                call.service.as_str(),
                acct,
                tf,
                self.partition.as_str(),
                self.region.as_str(),
                self.account.as_str(),
            ) {
                Ok(sts) => {
                    let deduped = dedup_statements_exec(&sts);
                    let with_sids = assign_sids_exec(&deduped);
                    let doc = PolicyDocument {
                        version: String::from_str("2012-10-17"),
                        statements: with_sids,
                    };
                    let g = GeneratedPolicy {
                        method_name: call.method_name.clone(),
                        service: call.service.clone(),
                        policy: doc,
                    };
                    let ghost gm = g@;
                    let ghost old_out = out@;
                    out.push(g);
                    proof {
                        assert(views_of_generated(out@) =~= views_of_generated(old_out).push(
                            gm,
                        ));
                        match generate_spec(cv, k + 1, am, tm, pa, re, ac) {
                            Ok(rest) => {
                                assert(views_of_generated(old_out) + (seq![gm] + rest)
                                    =~= views_of_generated(out@) + rest);
                            },
                            Err(t) => {},
                        }
                    }
                },
                Err(t) => {
                    let mut m = String::from_str(
                        "Invalid ARN template, contains empty placeholder: ",
                    );
                    m.append(t.as_str());
                    return Err(ExtractorError::PolicyGeneration { message: m });
                },
            }
            k += 1;
        }
        proof {
            assert(views_of_generated(out@) + Seq::<GeneratedPolicyModel>::empty()
                =~= views_of_generated(out@));
        }
        Ok(GeneratePoliciesResult { policies: out, explanations: None })
    }

    /// Generation without resource contexts: every genuinely
    /// unresolvable placeholder degrades to the wildcard.
    pub fn generate_policies(&self, calls: &[EnrichedSdkMethodCall]) -> (r: Result<
        GeneratePoliciesResult,
        ExtractorError,
    >)
        ensures
            match r {
                Ok(out) => generate_spec(
                    views_of_calls(calls@),
                    0,
                    Seq::empty(),
                    Seq::empty(),
                    self.partition@,
                    self.region@,
                    self.account@,
                ) == Ok::<_, Seq<char>>(views_of_generated(out.policies@)) && out.explanations
                    is None,
                Err(e) => generate_spec(
                    views_of_calls(calls@),
                    0,
                    Seq::empty(),
                    Seq::empty(),
                    self.partition@,
                    self.region@,
                    self.account@,
                ) is Err && (e matches ExtractorError::PolicyGeneration { message }
                    && message@ == empty_placeholder_msg() + generate_spec(
                    views_of_calls(calls@),
                    0,
                    Seq::empty(),
                    Seq::empty(),
                    self.partition@,
                    self.region@,
                    self.account@,
                )->Err_0),
            },
    {
        let acct = crate::context::AccountResourceContext { resource_map: Vec::new() };
        let tf = crate::context::TerraformStateContext { resource_arns: Vec::new() };
        proof {
            assert(crate::context::account_map_view(acct.resource_map@) =~= Seq::<(
                Seq<char>,
                Seq<Seq<char>>,
            )>::empty());
            assert(crate::context::tf_map_view(tf.resource_arns@) =~= Seq::<(
                Seq<char>,
                Seq<Seq<char>>,
            )>::empty());
        }
        self.generate_policies_with_context(calls, &acct, &tf)
    }
}

/// The merge identity of a statement: its resources and condition.
pub open spec fn merge_key_eq(a: StatementModel, b: StatementModel) -> bool {
    a.resource == b.resource && a.condition == b.condition
}

/// The first index in `acc`, from `k` on, whose statement shares the
/// merge key of `s`; the length when there is none.
pub open spec fn first_key_idx_from(acc: Seq<StatementModel>, k: int, s: StatementModel) -> int
    decreases acc.len() - k when 0 <= k <= acc.len()
{
    if k >= acc.len() {
        acc.len() as int
    } else if merge_key_eq(acc[k], s) {
        k
    } else {
        first_key_idx_from(acc, k + 1, s)
    }
}

/// The union of two action lists, first occurrences kept.
pub open spec fn union_actions(a: Seq<Seq<char>>, b: Seq<Seq<char>>) -> Seq<Seq<char>> {
    dedup_strings(a + b)
}

/// Merges one statement into the accumulated list: the first statement
/// with the same merge key takes the union of the action lists; without
/// one the statement is appended.
pub open spec fn merge_into(acc: Seq<StatementModel>, s: StatementModel) -> Seq<StatementModel> {
    let i = first_key_idx_from(acc, 0, s);
    if i == acc.len() {
        acc.push(s)
    } else {
        acc.update(
            i,
            StatementModel {
                sid: acc[i].sid,
                effect: acc[i].effect,
                action: union_actions(acc[i].action, s.action),
                resource: acc[i].resource,
                condition: acc[i].condition,
            },
        )
    }
}

/// Folds all statements into a merged list, in order.
pub open spec fn merge_fold(
    xs: Seq<StatementModel>,
    k: int,
    acc: Seq<StatementModel>,
) -> Seq<StatementModel>
    decreases xs.len() - k when 0 <= k <= xs.len()
{
    if k >= xs.len() {
        acc
    } else {
        merge_fold(xs, k + 1, merge_into(acc, xs[k]))
    }
}

/// The merged document of a statement list, with fresh ids.
pub open spec fn merged_doc_spec(xs: Seq<StatementModel>) -> DocumentModel {
    DocumentModel {
        version: policy_version_spec(),
        statements: assign_sids_spec(merge_fold(xs, 0, Seq::empty())),
    }
}

/// All statements of the policies from index `k` on, in order.
pub open spec fn all_statements(ps: Seq<GeneratedPolicyModel>, k: int) -> Seq<StatementModel>
    decreases ps.len() - k when 0 <= k <= ps.len()
{
    if k >= ps.len() {
        Seq::empty()
    } else {
        ps[k].policy.statements + all_statements(ps, k + 1)
    }
}

/// The statements of the policies whose service is `svc`, in order.
pub open spec fn stmts_of_service(
    ps: Seq<GeneratedPolicyModel>,
    k: int,
    svc: Seq<char>,
) -> Seq<StatementModel>
    decreases ps.len() - k when 0 <= k <= ps.len()
{
    if k >= ps.len() {
        Seq::empty()
    } else if ps[k].service == svc {
        ps[k].policy.statements + stmts_of_service(ps, k + 1, svc)
    } else {
        stmts_of_service(ps, k + 1, svc)
    }
}

/// The method name of the first policy whose service is `svc`.
pub open spec fn first_method_for_service(
    ps: Seq<GeneratedPolicyModel>,
    k: int,
    svc: Seq<char>,
) -> Seq<char>
    decreases ps.len() - k when 0 <= k <= ps.len()
{
    if k >= ps.len() {
        Seq::empty()
    } else if ps[k].service == svc {
        ps[k].method_name
    } else {
        first_method_for_service(ps, k + 1, svc)
    }
}

/// The services of the policies, first occurrences kept.
pub open spec fn services_of_policies(ps: Seq<GeneratedPolicyModel>) -> Seq<Seq<char>> {
    dedup_strings(ps.map_values(|p: GeneratedPolicyModel| p.service))
}

/// One merged policy per service of `svcs`, from index `k` on.
pub open spec fn merge_by_service(
    ps: Seq<GeneratedPolicyModel>,
    svcs: Seq<Seq<char>>,
    k: int,
) -> Seq<GeneratedPolicyModel>
    decreases svcs.len() - k when 0 <= k <= svcs.len()
{
    if k >= svcs.len() {
        Seq::empty()
    } else {
        seq![
            GeneratedPolicyModel {
                method_name: first_method_for_service(ps, 0, svcs[k]),
                service: svcs[k],
                policy: merged_doc_spec(stmts_of_service(ps, 0, svcs[k])),
            },
        ] + merge_by_service(ps, svcs, k + 1)
    }
}

/// The merge of whole policy lists: with cross-service merging one
/// document holding every statement merged by key; without it one
/// document per service, each merging only that service's statements.
pub open spec fn merge_policies_spec(
    ps: Seq<GeneratedPolicyModel>,
    allow_cross: bool,
) -> Seq<GeneratedPolicyModel> {
    if allow_cross {
        if ps.len() == 0 {
            Seq::empty()
        } else {
            seq![
                GeneratedPolicyModel {
                    method_name: ps[0].method_name,
                    service: ps[0].service,
                    policy: merged_doc_spec(all_statements(ps, 0)),
                },
            ]
        }
    } else {
        merge_by_service(ps, services_of_policies(ps), 0)
    }
}

/// Equality of two statements' merge keys.
fn merge_key_eq_exec(a: &PolicyStatement, b: &PolicyStatement) -> (r: bool)
    ensures
        r == merge_key_eq(a@, b@),
{
    let resources = str_vecs_eq(&a.resource, &b.resource);
    let conditions = opt_str_eq(&a.condition, &b.condition);
    resources && conditions
}

/// Finds the first statement in `acc` sharing the merge key of `s`.
fn first_key_idx_exec(acc: &Vec<PolicyStatement>, s: &PolicyStatement) -> (r: usize)
    ensures
        r as int == first_key_idx_from(views_of_statements(acc@), 0, s@),
        r <= acc@.len(),
{
    let ghost av = views_of_statements(acc@);
    let mut k: usize = 0;
    while k < acc.len()
        invariant
            k <= acc@.len(),
            av == views_of_statements(acc@),
            first_key_idx_from(av, 0, s@) == first_key_idx_from(av, k as int, s@),
        decreases acc@.len() - k,
    {
        proof {
            assert(av[k as int] == acc@[k as int]@);
        }
        if merge_key_eq_exec(&acc[k], s) {
            return k;
        }
        k += 1;
    }
    acc.len()
}

/// Merges one statement into the accumulated list.
fn merge_into_exec(acc: &mut Vec<PolicyStatement>, s: &PolicyStatement)
    ensures
        views_of_statements(final(acc)@) == merge_into(views_of_statements(old(acc)@), s@),
{
    let i = first_key_idx_exec(acc, s);
    if i == acc.len() {
        let ghost old_acc = acc@;
        let copy = clone_statement(s);
        acc.push(copy);
        proof {
            assert(views_of_statements(acc@) =~= views_of_statements(old_acc).push(s@));
        }
    } else {
        let ghost old_acc = acc@;
        let mut cat = clone_string_vec(&acc[i].action);
        let ghost a0 = views_of_strings(acc@[i as int].action@);
        let mut j: usize = 0;
        while j < s.action.len()
            invariant
                j <= s.action@.len(),
                views_of_strings(cat@) == a0 + views_of_strings(s.action@).subrange(
                    0,
                    j as int,
                ),
            decreases s.action@.len() - j,
        {
            cat.push(s.action[j].clone());
            proof {
                assert(views_of_strings(s.action@)[j as int] == s.action@[j as int]@);
                assert(a0 + views_of_strings(s.action@).subrange(0, j + 1) =~= (a0
                    + views_of_strings(s.action@).subrange(0, j as int)).push(
                    s.action@[j as int]@,
                ));
                assert(views_of_strings(cat@) =~= (a0 + views_of_strings(s.action@).subrange(
                    0,
                    j as int,
                )).push(s.action@[j as int]@));
            }
            j += 1;
        }
        proof {
            assert(views_of_strings(s.action@).subrange(
                0,
                views_of_strings(s.action@).len() as int,
            ) =~= views_of_strings(s.action@));
        }
        let unioned = dedup_strings_exec(&cat);
        let st = PolicyStatement {
            sid: clone_opt_string(&acc[i].sid),
            effect: acc[i].effect,
            action: unioned,
            resource: clone_string_vec(&acc[i].resource),
            condition: clone_opt_string(&acc[i].condition),
        };
        let ghost stm = st@;
        acc.set(i, st);
        proof {
            assert(views_of_statements(acc@) =~= views_of_statements(old_acc).update(
                i as int,
                stm,
            ));
            assert(views_of_statements(old_acc)[i as int] == old_acc[i as int]@);
        }
    }
}

impl Engine {
    /// Merges generated policies: statements sharing a merge key are
    /// combined into one whose action list is the union.  Without
    /// cross-service merging each service's statements are merged into
    /// a document of their own; with it a single document takes every
    /// statement.  Ids are assigned anew in each merged document.
    pub fn merge_policies(&self, policies: &Vec<GeneratedPolicy>) -> (r: Result<
        Vec<GeneratedPolicy>,
        ExtractorError,
    >)
        ensures
            r is Ok,
            views_of_generated(r->Ok_0@) == merge_policies_spec(
                views_of_generated(policies@),
                self.merger_config.allow_cross_service_merging,
            ),
    {
        let ghost pv = views_of_generated(policies@);
        if self.merger_config.allow_cross_service_merging {
            if policies.len() == 0 {
                let out: Vec<GeneratedPolicy> = Vec::new();
                proof {
                    assert(views_of_generated(out@) =~= merge_policies_spec(pv, true));
                }
                return Ok(out);
            }
            let all = collect_all_statements(policies);
            let merged = merge_statement_list(&all);
            let with_sids = assign_sids_exec(&merged);
            let g = GeneratedPolicy {
                method_name: policies[0].method_name.clone(),
                service: policies[0].service.clone(),
                policy: PolicyDocument {
                    version: String::from_str("2012-10-17"),
                    statements: with_sids,
                },
            };
            proof {
                assert(pv[0] == policies@[0]@);
            }
            let mut out: Vec<GeneratedPolicy> = Vec::new();
            let ghost gm = g@;
            out.push(g);
            proof {
                assert(views_of_generated(out@) =~= seq![gm]);
                assert(views_of_generated(out@) =~= merge_policies_spec(pv, true));
            }
            return Ok(out);
        }
        // One document per service, in first-seen order.
        let mut svc_names: Vec<String> = Vec::new();
        let mut k: usize = 0;
        proof {
            assert(views_of_strings(svc_names@) =~= pv.map_values(
                |p: GeneratedPolicyModel| p.service,
            ).subrange(0, 0));
        }
        while k < policies.len()
            invariant
                k <= policies@.len(),
                pv == views_of_generated(policies@),
                views_of_strings(svc_names@) == pv.map_values(
                    |p: GeneratedPolicyModel| p.service,
                ).subrange(0, k as int),
            decreases policies@.len() - k,
        {
            let ghost old_names = svc_names@;
            svc_names.push(policies[k].service.clone());
            proof {
                assert(pv[k as int] == policies@[k as int]@);
                assert(pv.map_values(|p: GeneratedPolicyModel| p.service)[k as int]
                    == pv[k as int].service);
                assert(views_of_strings(svc_names@) =~= views_of_strings(old_names).push(
                    pv[k as int].service,
                ));
                assert(views_of_strings(svc_names@) =~= pv.map_values(
                    |p: GeneratedPolicyModel| p.service,
                ).subrange(0, k + 1));
            }
            k += 1;
        }
        proof {
            assert(pv.map_values(|p: GeneratedPolicyModel| p.service).subrange(
                0,
                pv.len() as int,
            ) =~= pv.map_values(|p: GeneratedPolicyModel| p.service));
        }
        let svcs = dedup_strings_exec(&svc_names);
        let ghost sv = views_of_strings(svcs@);
        let mut out: Vec<GeneratedPolicy> = Vec::new();
        let mut m: usize = 0;
        proof {
            assert(views_of_generated(out@) + merge_by_service(pv, sv, 0) =~= merge_by_service(
                pv,
                sv,
                0,
            ));
        }
        while m < svcs.len()
            invariant
                m <= svcs@.len(),
                pv == views_of_generated(policies@),
                sv == views_of_strings(svcs@),
                merge_by_service(pv, sv, 0) == views_of_generated(out@) + merge_by_service(
                    pv,
                    sv,
                    m as int,
                ),
            decreases svcs@.len() - m,
        {
            proof {
                assert(sv[m as int] == svcs@[m as int]@);
            }
            let group = collect_service_statements(policies, &svcs[m]);
            let merged = merge_statement_list(&group);
            let with_sids = assign_sids_exec(&merged);
            let name = first_method_exec(policies, &svcs[m]);
            let g = GeneratedPolicy {
                method_name: name,
                service: svcs[m].clone(),
                policy: PolicyDocument {
                    version: String::from_str("2012-10-17"),
                    statements: with_sids,
                },
            };
            let ghost gm = g@;
            let ghost old_out = out@;
            out.push(g);
            proof {
                assert(views_of_generated(out@) =~= views_of_generated(old_out).push(gm));
                assert(views_of_generated(old_out) + (seq![gm] + merge_by_service(
                    pv,
                    sv,
                    m + 1,
                )) =~= views_of_generated(out@) + merge_by_service(pv, sv, m + 1));
            }
            m += 1;
        }
        proof {
            assert(views_of_generated(out@) + Seq::<GeneratedPolicyModel>::empty()
                =~= views_of_generated(out@));
        }
        Ok(out)
    }
}

/// Collects the statements of all policies, in order.
fn collect_all_statements(policies: &Vec<GeneratedPolicy>) -> (r: Vec<PolicyStatement>)
    ensures
        views_of_statements(r@) == all_statements(views_of_generated(policies@), 0),
{
    let ghost pv = views_of_generated(policies@);
    let mut out: Vec<PolicyStatement> = Vec::new();
    let mut k: usize = 0;
    proof {
        match all_statements(pv, 0) {
            _ => {
                assert(views_of_statements(out@) + all_statements(pv, 0) =~= all_statements(
                    pv,
                    0,
                ));
            },
        }
    }
    while k < policies.len()
        invariant
            k <= policies@.len(),
            pv == views_of_generated(policies@),
            all_statements(pv, 0) == views_of_statements(out@) + all_statements(pv, k as int),
        decreases policies@.len() - k,
    {
        proof {
            assert(pv[k as int] == policies@[k as int]@);
        }
        let sts = &policies[k].policy.statements;
        let ghost old_out = out@;
        let mut j: usize = 0;
        while j < sts.len()
            invariant
                j <= sts@.len(),
                views_of_statements(out@) == views_of_statements(old_out)
                    + views_of_statements(sts@).subrange(0, j as int),
            decreases sts@.len() - j,
        {
            let copy = clone_statement(&sts[j]);
            out.push(copy);
            proof {
                assert(views_of_statements(sts@)[j as int] == sts@[j as int]@);
                assert(views_of_statements(old_out) + views_of_statements(sts@).subrange(
                    0,
                    j + 1,
                ) =~= (views_of_statements(old_out) + views_of_statements(sts@).subrange(
                    0,
                    j as int,
                )).push(sts@[j as int]@));
                assert(views_of_statements(out@) =~= (views_of_statements(old_out)
                    + views_of_statements(sts@).subrange(0, j as int)).push(sts@[j as int]@));
            }
            j += 1;
        }
        proof {
            assert(views_of_statements(sts@).subrange(
                0,
                views_of_statements(sts@).len() as int,
            ) =~= views_of_statements(sts@));
            assert(pv[k as int].policy.statements == views_of_statements(sts@));
            assert(views_of_statements(old_out) + (views_of_statements(sts@) + all_statements(
                pv,
                k + 1,
            )) =~= (views_of_statements(old_out) + views_of_statements(sts@)) + all_statements(
                pv,
                k + 1,
            ));
        }
        k += 1;
    }
    proof {
        assert(views_of_statements(out@) + Seq::<StatementModel>::empty()
            =~= views_of_statements(out@));
    }
    out
}

/// Collects the statements of the policies whose service is `svc`.
fn collect_service_statements(policies: &Vec<GeneratedPolicy>, svc: &String) -> (r: Vec<
    PolicyStatement,
>)
    ensures
        views_of_statements(r@) == stmts_of_service(views_of_generated(policies@), 0, svc@),
{
    let ghost pv = views_of_generated(policies@);
    let mut out: Vec<PolicyStatement> = Vec::new();
    let mut k: usize = 0;
    proof {
        assert(views_of_statements(out@) + stmts_of_service(pv, 0, svc@) =~= stmts_of_service(
            pv,
            0,
            svc@,
        ));
    }
    while k < policies.len()
        invariant
            k <= policies@.len(),
            pv == views_of_generated(policies@),
            stmts_of_service(pv, 0, svc@) == views_of_statements(out@) + stmts_of_service(
                pv,
                k as int,
                svc@,
            ),
        decreases policies@.len() - k,
    {
        proof {
            assert(pv[k as int] == policies@[k as int]@);
        }
        if crate::text::str_eq(policies[k].service.as_str(), svc.as_str()) {
            let sts = &policies[k].policy.statements;
            let ghost old_out = out@;
            let mut j: usize = 0;
            while j < sts.len()
                invariant
                    j <= sts@.len(),
                    views_of_statements(out@) == views_of_statements(old_out)
                        + views_of_statements(sts@).subrange(0, j as int),
                decreases sts@.len() - j,
            {
                let copy = clone_statement(&sts[j]);
                out.push(copy);
                proof {
                    assert(views_of_statements(sts@)[j as int] == sts@[j as int]@);
                    assert(views_of_statements(old_out) + views_of_statements(sts@).subrange(
                        0,
                        j + 1,
                    ) =~= (views_of_statements(old_out) + views_of_statements(sts@).subrange(
                        0,
                        j as int,
                    )).push(sts@[j as int]@));
                    assert(views_of_statements(out@) =~= (views_of_statements(old_out)
                        + views_of_statements(sts@).subrange(0, j as int)).push(
                        sts@[j as int]@,
                    ));
                }
                j += 1;
            }
            proof {
                assert(views_of_statements(sts@).subrange(
                    0,
                    views_of_statements(sts@).len() as int,
                ) =~= views_of_statements(sts@));
                assert(pv[k as int].policy.statements == views_of_statements(sts@));
                assert(views_of_statements(old_out) + (views_of_statements(sts@)
                    + stmts_of_service(pv, k + 1, svc@)) =~= (views_of_statements(old_out)
                    + views_of_statements(sts@)) + stmts_of_service(pv, k + 1, svc@));
            }
        }
        k += 1;
    }
    proof {
        assert(views_of_statements(out@) + Seq::<StatementModel>::empty()
            =~= views_of_statements(out@));
    }
    out
}

/// The method name of the first policy whose service is `svc`.
fn first_method_exec(policies: &Vec<GeneratedPolicy>, svc: &String) -> (r: String)
    ensures
        r@ == first_method_for_service(views_of_generated(policies@), 0, svc@),
{
    let ghost pv = views_of_generated(policies@);
    let mut k: usize = 0;
    while k < policies.len()
        invariant
            k <= policies@.len(),
            pv == views_of_generated(policies@),
            first_method_for_service(pv, 0, svc@) == first_method_for_service(
                pv,
                k as int,
                svc@,
            ),
        decreases policies@.len() - k,
    {
        proof {
            assert(pv[k as int] == policies@[k as int]@);
        }
        if crate::text::str_eq(policies[k].service.as_str(), svc.as_str()) {
            return policies[k].method_name.clone();
        }
        k += 1;
    }
    String::new()
}

proof fn lemma_push_contains<T>(s: Seq<T>, x: T, e: T)
    ensures
        s.push(x).contains(e) <==> (s.contains(e) || x == e),
{
    if s.push(x).contains(e) {
        let w = choose|i: int| 0 <= i < s.push(x).len() && s.push(x)[i] == e;
        if w < s.len() {
            assert(s[w] == e);
        }
    }
    if s.contains(e) {
        let w = choose|i: int| 0 <= i < s.len() && s[i] == e;
        assert(s.push(x)[w] == e);
    }
    if x == e {
        assert(s.push(x)[s.len() as int] == e);
    }
}

proof fn lemma_concat_contains<T>(a: Seq<T>, b: Seq<T>, e: T)
    ensures
        (a + b).contains(e) <==> (a.contains(e) || b.contains(e)),
{
    if (a + b).contains(e) {
        let w = choose|i: int| 0 <= i < (a + b).len() && (a + b)[i] == e;
        if w < a.len() {
            assert(a[w] == e);
        } else {
            assert(b[w - a.len()] == e);
        }
    }
    if a.contains(e) {
        let w = choose|i: int| 0 <= i < a.len() && a[i] == e;
        assert((a + b)[w] == e);
    }
    if b.contains(e) {
        let w = choose|i: int| 0 <= i < b.len() && b[i] == e;
        assert((a + b)[a.len() + w] == e);
    }
}

/// Deduplication keeps exactly the members of the accumulator and of
/// the remaining input.
proof fn lemma_dedup_from_contains(xs: Seq<Seq<char>>, k: int, acc: Seq<Seq<char>>, e: Seq<char>)
    requires
        0 <= k <= xs.len(),
    ensures
        dedup_from(xs, k, acc).contains(e) <==> (acc.contains(e) || exists|i: int|
            k <= i < xs.len() && xs[i] == e),
    decreases xs.len() - k,
{
    if k < xs.len() {
        if acc.contains(xs[k]) {
            lemma_dedup_from_contains(xs, k + 1, acc, e);
        } else {
            lemma_dedup_from_contains(xs, k + 1, acc.push(xs[k]), e);
            lemma_push_contains(acc, xs[k], e);
        }
    }
}

/// The union of two action lists holds exactly the members of either.
pub proof fn lemma_union_actions_contains(a: Seq<Seq<char>>, b: Seq<Seq<char>>, e: Seq<char>)
    ensures
        union_actions(a, b).contains(e) <==> (a.contains(e) || b.contains(e)),
{
    lemma_dedup_from_contains(a + b, 0, Seq::empty(), e);
    lemma_concat_contains(a, b, e);
    if exists|i: int| 0 <= i < (a + b).len() && (a + b)[i] == e {
        assert((a + b).contains(e));
    }
    if (a + b).contains(e) {
        let w = choose|i: int| 0 <= i < (a + b).len() && (a + b)[i] == e;
        assert(0 <= w < (a + b).len() && (a + b)[w] == e);
    }
}

/// Merging two statements into one that shares their key is
/// order-independent on the action union: either order yields one
/// statement with the same resources and the same set of actions.
pub proof fn lemma_merge_union_order_independent(
    x: StatementModel,
    a: StatementModel,
    b: StatementModel,
)
    requires
        merge_key_eq(x, a),
        merge_key_eq(x, b),
    ensures
        ({
            let ab = merge_fold(seq![a, b], 0, seq![x]);
            let ba = merge_fold(seq![b, a], 0, seq![x]);
            &&& ab.len() == 1
            &&& ba.len() == 1
            &&& ab[0].resource == x.resource
            &&& ba[0].resource == x.resource
            &&& forall|e: Seq<char>|
                #![auto]
                ab[0].action.contains(e) <==> ba[0].action.contains(e)
        }),
{
    let acc0 = seq![x];
    let xa = merge_into(acc0, a);
    assert(first_key_idx_from(acc0, 0, a) == 0);
    assert(xa.len() == 1 && xa[0].action == union_actions(x.action, a.action) && xa[0].resource
        == x.resource && xa[0].condition == x.condition);
    let xab = merge_into(xa, b);
    assert(first_key_idx_from(xa, 0, b) == 0);
    assert(xab.len() == 1 && xab[0].action == union_actions(
        union_actions(x.action, a.action),
        b.action,
    ) && xab[0].resource == x.resource);
    let xb = merge_into(acc0, b);
    assert(first_key_idx_from(acc0, 0, b) == 0);
    assert(xb.len() == 1 && xb[0].action == union_actions(x.action, b.action) && xb[0].resource
        == x.resource && xb[0].condition == x.condition);
    let xba = merge_into(xb, a);
    assert(first_key_idx_from(xb, 0, a) == 0);
    assert(xba.len() == 1 && xba[0].action == union_actions(
        union_actions(x.action, b.action),
        a.action,
    ) && xba[0].resource == x.resource);
    assert(seq![a, b][0] == a && seq![a, b][1] == b);
    assert(seq![b, a][0] == b && seq![b, a][1] == a);
    assert(merge_fold(seq![a, b], 0, acc0) == merge_fold(seq![a, b], 1, xa));
    assert(merge_fold(seq![a, b], 1, xa) == merge_fold(seq![a, b], 2, xab));
    assert(merge_fold(seq![a, b], 2, xab) == xab);
    assert(merge_fold(seq![b, a], 0, acc0) == merge_fold(seq![b, a], 1, xb));
    assert(merge_fold(seq![b, a], 1, xb) == merge_fold(seq![b, a], 2, xba));
    assert(merge_fold(seq![b, a], 2, xba) == xba);
    assert forall|e: Seq<char>| #![auto]
        xab[0].action.contains(e) <==> xba[0].action.contains(e) by {
        lemma_union_actions_contains(union_actions(x.action, a.action), b.action, e);
        lemma_union_actions_contains(x.action, a.action, e);
        lemma_union_actions_contains(union_actions(x.action, b.action), a.action, e);
        lemma_union_actions_contains(x.action, b.action, e);
    }
}

/// One of the statements holds this action.
pub open spec fn stmts_have_action(xs: Seq<StatementModel>, a: Seq<char>) -> bool {
    exists|i: int| 0 <= i < xs.len() && (#[trigger] xs[i]).action.contains(a)
}

/// Merging one statement in introduces no action from elsewhere.
proof fn lemma_merge_into_actions(acc: Seq<StatementModel>, s: StatementModel, a: Seq<char>)
    requires
        stmts_have_action(merge_into(acc, s), a),
    ensures
        stmts_have_action(acc, a) || s.action.contains(a),
{
    let i = first_key_idx_from(acc, 0, s);
    lemma_first_key_idx_bounds(acc, 0, s);
    let r = merge_into(acc, s);
    let w = choose|j: int| 0 <= j < r.len() && (#[trigger] r[j]).action.contains(a);
    if i == acc.len() {
        if w < acc.len() {
            assert(acc[w].action.contains(a));
        }
    } else {
        if w == i {
            lemma_union_actions_contains(acc[i].action, s.action, a);
            if acc[i].action.contains(a) {
                assert((#[trigger] acc[i]).action.contains(a));
            }
        } else {
            assert(acc[w].action.contains(a));
        }
    }
}

proof fn lemma_first_key_idx_bounds(acc: Seq<StatementModel>, k: int, s: StatementModel)
    requires
        0 <= k <= acc.len(),
    ensures
        k <= first_key_idx_from(acc, k, s) <= acc.len(),
    decreases acc.len() - k,
{
    if k < acc.len() && !merge_key_eq(acc[k], s) {
        lemma_first_key_idx_bounds(acc, k + 1, s);
    }
}

/// Folding statements in introduces no action from elsewhere.
proof fn lemma_merge_fold_actions(
    xs: Seq<StatementModel>,
    k: int,
    acc: Seq<StatementModel>,
    a: Seq<char>,
)
    requires
        0 <= k <= xs.len(),
        stmts_have_action(merge_fold(xs, k, acc), a),
    ensures
        stmts_have_action(acc, a) || exists|i: int|
            k <= i < xs.len() && (#[trigger] xs[i]).action.contains(a),
    decreases xs.len() - k,
{
    if k < xs.len() {
        lemma_merge_fold_actions(xs, k + 1, merge_into(acc, xs[k]), a);
        if stmts_have_action(merge_into(acc, xs[k]), a) {
            lemma_merge_into_actions(acc, xs[k], a);
        }
    }
}

/// Assigning ids changes no statement's actions, resources or
/// condition.
proof fn lemma_assign_sids_shape(
    xs: Seq<StatementModel>,
    k: int,
    used: Seq<Seq<char>>,
    out: Seq<StatementModel>,
)
    requires
        0 <= k <= xs.len(),
    ensures
        ({
            let r = assign_sids_from(xs, k, used, out);
            &&& r.len() == out.len() + xs.len() - k
            &&& forall|i: int| 0 <= i < out.len() ==> #[trigger] r[i] == out[i]
            &&& forall|j: int|
                out.len() <= j < r.len() ==> {
                    &&& (#[trigger] r[j]).action == xs[k + j - out.len()].action
                    &&& r[j].resource == xs[k + j - out.len()].resource
                    &&& r[j].condition == xs[k + j - out.len()].condition
                }
        }),
    decreases xs.len() - k,
{
    if k < xs.len() {
        let base = sid_base_spec(stmt_sid_action(xs[k]));
        let sid = sid_for(used, base);
        let st = StatementModel {
            sid: Some(sid),
            effect: xs[k].effect,
            action: xs[k].action,
            resource: xs[k].resource,
            condition: xs[k].condition,
        };
        lemma_assign_sids_shape(xs, k + 1, used.push(sid), out.push(st));
        let r = assign_sids_from(xs, k, used, out);
        assert(r == assign_sids_from(xs, k + 1, used.push(sid), out.push(st)));
        assert forall|i: int| 0 <= i < out.len() implies #[trigger] r[i] == out[i] by {
            assert(r[i] == out.push(st)[i]);
        }
        assert forall|j: int| out.len() <= j < r.len() implies {
            &&& (#[trigger] r[j]).action == xs[k + j - out.len()].action
            &&& r[j].resource == xs[k + j - out.len()].resource
            &&& r[j].condition == xs[k + j - out.len()].condition
        } by {
            if j == out.len() {
                assert(r[j] == out.push(st)[j]);
                assert(out.push(st)[out.len() as int] == st);
            } else {
                assert((#[trigger] r[j]).action == xs[(k + 1) + j - (out.len() + 1)].action);
                assert(r[j].resource == xs[(k + 1) + j - (out.len() + 1)].resource);
                assert(r[j].condition == xs[(k + 1) + j - (out.len() + 1)].condition);
            }
        }
    }
}

/// The statements of the policies whose service is `svc` take their
/// actions from those policies alone.
proof fn lemma_stmts_of_service_actions(
    ps: Seq<GeneratedPolicyModel>,
    k: int,
    svc: Seq<char>,
    a: Seq<char>,
)
    requires
        0 <= k <= ps.len(),
        stmts_have_action(stmts_of_service(ps, k, svc), a),
    ensures
        exists|p: int|
            k <= p < ps.len() && (#[trigger] ps[p]).service == svc && stmts_have_action(
                ps[p].policy.statements,
                a,
            ),
    decreases ps.len() - k,
{
    if k < ps.len() {
        if ps[k].service == svc {
            let whole = stmts_of_service(ps, k, svc);
            let head = ps[k].policy.statements;
            let tail = stmts_of_service(ps, k + 1, svc);
            let w = choose|j: int|
                0 <= j < whole.len() && (#[trigger] whole[j]).action.contains(a);
            if w < head.len() {
                assert(head[w].action.contains(a));
                assert((#[trigger] ps[k]).service == svc && stmts_have_action(
                    ps[k].policy.statements,
                    a,
                ));
            } else {
                assert(tail[w - head.len()].action.contains(a));
                lemma_stmts_of_service_actions(ps, k + 1, svc, a);
            }
        } else {
            lemma_stmts_of_service_actions(ps, k + 1, svc, a);
        }
    }
}

/// Indexing into the per-service merge output.
proof fn lemma_merge_by_service_index(
    ps: Seq<GeneratedPolicyModel>,
    svcs: Seq<Seq<char>>,
    k: int,
    g: int,
)
    requires
        0 <= k <= g < svcs.len(),
    ensures
        merge_by_service(ps, svcs, k).len() == svcs.len() - k,
        merge_by_service(ps, svcs, k)[g - k] == (GeneratedPolicyModel {
            method_name: first_method_for_service(ps, 0, svcs[g]),
            service: svcs[g],
            policy: merged_doc_spec(stmts_of_service(ps, 0, svcs[g])),
        }),
    decreases svcs.len() - k,
{
    if k < svcs.len() {
        if k + 1 <= svcs.len() {
            if k < g {
                lemma_merge_by_service_index(ps, svcs, k + 1, g);
            } else {
                lemma_merge_by_service_len(ps, svcs, k + 1);
            }
        }
    }
}

proof fn lemma_merge_by_service_len(ps: Seq<GeneratedPolicyModel>, svcs: Seq<Seq<char>>, k: int)
    requires
        0 <= k <= svcs.len(),
    ensures
        merge_by_service(ps, svcs, k).len() == svcs.len() - k,
    decreases svcs.len() - k,
{
    if k < svcs.len() {
        lemma_merge_by_service_len(ps, svcs, k + 1);
    }
}

/// Without cross-service merging, every action of every merged
/// document comes from an input policy of that document's service:
/// statements are never merged across services.
pub proof fn lemma_no_cross_service_merge(ps: Seq<GeneratedPolicyModel>, g: int, a: Seq<char>)
    requires
        0 <= g < merge_policies_spec(ps, false).len(),
        stmts_have_action(merge_policies_spec(ps, false)[g].policy.statements, a),
    ensures
        exists|p: int|
            0 <= p < ps.len() && (#[trigger] ps[p]).service == merge_policies_spec(
                ps,
                false,
            )[g].service && stmts_have_action(ps[p].policy.statements, a),
{
    let svcs = services_of_policies(ps);
    lemma_merge_by_service_len(ps, svcs, 0);
    lemma_merge_by_service_index(ps, svcs, 0, g);
    let group = stmts_of_service(ps, 0, svcs[g]);
    let merged = merge_fold(group, 0, Seq::empty());
    let doc = merge_policies_spec(ps, false)[g].policy;
    assert(doc.statements == assign_sids_spec(merged));
    lemma_assign_sids_shape(merged, 0, Seq::empty(), Seq::empty());
    assert(stmts_have_action(merged, a)) by {
        let w = choose|j: int|
            0 <= j < doc.statements.len() && (#[trigger] doc.statements[j]).action.contains(a);
        assert(assign_sids_from(merged, 0, Seq::empty(), Seq::empty())[w].action
            == merged[w].action);
        assert(doc.statements[w].action == merged[w].action);
        assert((#[trigger] merged[w]).action.contains(a));
    }
    lemma_merge_fold_actions(group, 0, Seq::empty(), a);
    assert(stmts_have_action(group, a)) by {
        if exists|i: int| 0 <= i < group.len() && (#[trigger] group[i]).action.contains(a) {
        } else {
            assert(!stmts_have_action(Seq::<StatementModel>::empty(), a));
            assert(false);
        }
    }
    lemma_stmts_of_service_actions(ps, 0, svcs[g], a);
}

/// No two statements of the list share a deduplication key.
pub open spec fn distinct_keys(xs: Seq<StatementModel>) -> bool {
    forall|i: int, j: int|
        0 <= i < j < xs.len() ==> !stmt_key_eq(#[trigger] xs[i], #[trigger] xs[j])
}

proof fn lemma_dedup_stmts_distinct(xs: Seq<StatementModel>, k: int, acc: Seq<StatementModel>)
    requires
        0 <= k <= xs.len(),
        distinct_keys(acc),
    ensures
        distinct_keys(dedup_stmts_from(xs, k, acc)),
    decreases xs.len() - k,
{
    if k < xs.len() {
        if contains_stmt_key(acc, xs[k]) {
            lemma_dedup_stmts_distinct(xs, k + 1, acc);
        } else {
            assert(distinct_keys(acc.push(xs[k]))) by {
                assert forall|i: int, j: int|
                    0 <= i < j < acc.push(xs[k]).len() implies !stmt_key_eq(
                    #[trigger] acc.push(xs[k])[i],
                    #[trigger] acc.push(xs[k])[j],
                ) by {
                    if j < acc.len() {
                        assert(acc.push(xs[k])[i] == acc[i] && acc.push(xs[k])[j] == acc[j]);
                    } else {
                        assert(acc.push(xs[k])[i] == acc[i]);
                        assert(acc.push(xs[k])[j] == xs[k]);
                        if stmt_key_eq(acc[i], xs[k]) {
                            assert(contains_stmt_key(acc, xs[k]));
                        }
                    }
                }
            }
            lemma_dedup_stmts_distinct(xs, k + 1, acc.push(xs[k]));
        }
    }
}

/// Two calls or actions producing the identical action and resource
/// pair yield one statement: the statements of a generated document
/// never share a deduplication key.
pub proof fn lemma_generation_deduplicates(
    c: EnrichedCallModel,
    acct: Seq<(Seq<char>, Seq<Seq<char>>)>,
    tf: Seq<(Seq<char>, Seq<Seq<char>>)>,
    partition: Seq<char>,
    region: Seq<char>,
    account: Seq<char>,
)
    requires
        document_for_call_spec(c, acct, tf, partition, region, account) is Ok,
    ensures
        distinct_keys(
            document_for_call_spec(c, acct, tf, partition, region, account)->Ok_0.statements,
        ),
{
    let sts = statements_for_call_spec(
        c.actions,
        0,
        c.service,
        acct,
        tf,
        partition,
        region,
        account,
    )->Ok_0;
    let ded = dedup_statements_spec(sts);
    assert(distinct_keys(Seq::<StatementModel>::empty()));
    lemma_dedup_stmts_distinct(sts, 0, Seq::empty());
    lemma_assign_sids_shape(ded, 0, Seq::empty(), Seq::empty());
    let out = assign_sids_spec(ded);
    assert(distinct_keys(out)) by {
        assert forall|i: int, j: int| 0 <= i < j < out.len() implies !stmt_key_eq(
            #[trigger] out[i],
            #[trigger] out[j],
        ) by {
            assert(assign_sids_from(ded, 0, Seq::empty(), Seq::empty())[i].action
                == ded[i].action);
            assert(assign_sids_from(ded, 0, Seq::empty(), Seq::empty())[j].action
                == ded[j].action);
            assert(out[i].action == ded[i].action && out[i].resource == ded[i].resource
                && out[i].condition == ded[i].condition);
            assert(out[j].action == ded[j].action && out[j].resource == ded[j].resource
                && out[j].condition == ded[j].condition);
            assert(!stmt_key_eq(ded[i], ded[j]));
        }
    }
}

/// Deduplication keeps only statements that satisfy whatever held of
/// the accumulator and of the input.
proof fn lemma_dedup_stmts_preserves(
    xs: Seq<StatementModel>,
    k: int,
    acc: Seq<StatementModel>,
    p: spec_fn(StatementModel) -> bool,
)
    requires
        0 <= k <= xs.len(),
        forall|i: int| 0 <= i < acc.len() ==> p(#[trigger] acc[i]),
        forall|i: int| k <= i < xs.len() ==> p(#[trigger] xs[i]),
    ensures
        forall|j: int|
            0 <= j < dedup_stmts_from(xs, k, acc).len() ==> p(
                #[trigger] dedup_stmts_from(xs, k, acc)[j],
            ),
    decreases xs.len() - k,
{
    if k < xs.len() {
        if contains_stmt_key(acc, xs[k]) {
            lemma_dedup_stmts_preserves(xs, k + 1, acc, p);
            assert(dedup_stmts_from(xs, k, acc) == dedup_stmts_from(xs, k + 1, acc));
            assert(forall|j: int|
                0 <= j < dedup_stmts_from(xs, k, acc).len() ==> p(
                    #[trigger] dedup_stmts_from(xs, k, acc)[j],
                )) by {
                assert(forall|j: int|
                    0 <= j < dedup_stmts_from(xs, k + 1, acc).len() ==> p(
                        #[trigger] dedup_stmts_from(xs, k + 1, acc)[j],
                    ));
            }
        } else {
            assert(forall|i: int|
                0 <= i < acc.push(xs[k]).len() ==> p(#[trigger] acc.push(xs[k])[i])) by {
                assert(forall|i: int|
                    0 <= i < acc.len() ==> acc.push(xs[k])[i] == #[trigger] acc[i]);
                assert(acc.push(xs[k])[acc.len() as int] == xs[k]);
            }
            lemma_dedup_stmts_preserves(xs, k + 1, acc.push(xs[k]), p);
            assert(dedup_stmts_from(xs, k, acc) == dedup_stmts_from(xs, k + 1, acc.push(xs[k])));
            assert(forall|j: int|
                0 <= j < dedup_stmts_from(xs, k, acc).len() ==> p(
                    #[trigger] dedup_stmts_from(xs, k, acc)[j],
                )) by {
                assert(forall|j: int|
                    0 <= j < dedup_stmts_from(xs, k + 1, acc.push(xs[k])).len() ==> p(
                        #[trigger] dedup_stmts_from(xs, k + 1, acc.push(xs[k]))[j],
                    ));
            }
        }
    } else {
        assert(dedup_stmts_from(xs, k, acc) == acc);
    }
}

/// The statements a call yields before deduplication: one per action,
/// each carrying exactly that one action.
proof fn lemma_statements_single_action(
    actions: Seq<ActionModel>,
    k: int,
    service: Seq<char>,
    acct: Seq<(Seq<char>, Seq<Seq<char>>)>,
    tf: Seq<(Seq<char>, Seq<Seq<char>>)>,
    partition: Seq<char>,
    region: Seq<char>,
    account: Seq<char>,
)
    requires
        0 <= k <= actions.len(),
        statements_for_call_spec(actions, k, service, acct, tf, partition, region, account)
            is Ok,
    ensures
        ({
            let r = statements_for_call_spec(
                actions,
                k,
                service,
                acct,
                tf,
                partition,
                region,
                account,
            )->Ok_0;
            forall|i: int| 0 <= i < r.len() ==> (#[trigger] r[i]).action.len() == 1
        }),
    decreases actions.len() - k,
{
    if k < actions.len() {
        lemma_statements_single_action(
            actions,
            k + 1,
            service,
            acct,
            tf,
            partition,
            region,
            account,
        );
    }
}

/// Generation builds one statement per distinct action and resource
/// identity, and every statement of a generated document carries
/// exactly one action.
pub proof fn lemma_generated_statements_single_action(
    c: EnrichedCallModel,
    acct: Seq<(Seq<char>, Seq<Seq<char>>)>,
    tf: Seq<(Seq<char>, Seq<Seq<char>>)>,
    partition: Seq<char>,
    region: Seq<char>,
    account: Seq<char>,
)
    requires
        document_for_call_spec(c, acct, tf, partition, region, account) is Ok,
    ensures
        ({
            let sts = document_for_call_spec(
                c,
                acct,
                tf,
                partition,
                region,
                account,
            )->Ok_0.statements;
            forall|i: int| 0 <= i < sts.len() ==> (#[trigger] sts[i]).action.len() == 1
        }),
{
    let raw = statements_for_call_spec(
        c.actions,
        0,
        c.service,
        acct,
        tf,
        partition,
        region,
        account,
    )->Ok_0;
    lemma_statements_single_action(c.actions, 0, c.service, acct, tf, partition, region, account);
    let p = |s: StatementModel| s.action.len() == 1;
    lemma_dedup_stmts_preserves(raw, 0, Seq::empty(), p);
    let ded = dedup_statements_spec(raw);
    lemma_assign_sids_shape(ded, 0, Seq::empty(), Seq::empty());
    let out = assign_sids_spec(ded);
    assert forall|i: int| 0 <= i < out.len() implies (#[trigger] out[i]).action.len() == 1 by {
        assert(assign_sids_from(ded, 0, Seq::empty(), Seq::empty())[i].action == ded[i].action);
        assert(p(ded[i]));
    }
}

/// Folds every statement into a merged list.
fn merge_statement_list(xs: &Vec<PolicyStatement>) -> (r: Vec<PolicyStatement>)
    ensures
        views_of_statements(r@) == merge_fold(views_of_statements(xs@), 0, Seq::empty()),
{
    let ghost xv = views_of_statements(xs@);
    let mut acc: Vec<PolicyStatement> = Vec::new();
    let mut k: usize = 0;
    proof {
        assert(views_of_statements(acc@) =~= Seq::<StatementModel>::empty());
    }
    while k < xs.len()
        invariant
            k <= xs@.len(),
            xv == views_of_statements(xs@),
            merge_fold(xv, 0, Seq::empty()) == merge_fold(
                xv,
                k as int,
                views_of_statements(acc@),
            ),
        decreases xs@.len() - k,
    {
        proof {
            assert(xv[k as int] == xs@[k as int]@);
        }
        merge_into_exec(&mut acc, &xs[k]);
        k += 1;
    }
    acc
}

} // verus!
