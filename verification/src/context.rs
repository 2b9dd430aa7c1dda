//! Resource contexts: ARNs grouped by `service:resource_type`, read
//! from external state output or from an account resource listing.
//!
//! State output is handed in as a plain JSON value of this crate's own
//! shape; the caller converts whatever its JSON reader produced.

use vstd::prelude::*;
use crate::arn::{Arn, arn_resource_type_spec, arn_service_spec, arn_well_formed, split_char};
use crate::errors::ExtractorError;
use crate::text::{str_eq, str_to_chars};

verus! {

/// A plain JSON value.  Numbers keep their original rendering as text.
#[derive(Debug)]
pub enum JsonValue {
    Null,
    Bool(bool),
    Number(String),
    Text(String),
    Array(Vec<JsonValue>),
    Object(Vec<(String, JsonValue)>),
}

/// First value bound to `key` among an object's fields.
pub open spec fn obj_lookup(fields: Seq<(String, JsonValue)>, key: Seq<char>) -> Option<
    JsonValue,
>
    decreases fields.len(),
{
    if fields.len() == 0 {
        None
    } else if fields[0].0@ == key {
        Some(fields[0].1)
    } else {
        obj_lookup(fields.subrange(1, fields.len() as int), key)
    }
}

/// The field of an object value; nothing on any other value.
pub open spec fn json_field(v: JsonValue, key: Seq<char>) -> Option<JsonValue> {
    match v {
        JsonValue::Object(fs) => obj_lookup(fs@, key),
        _ => None,
    }
}

impl JsonValue {
    /// Looks a field up on an object value.
    pub fn get_field<'a>(&'a self, key: &str) -> (r: Option<&'a JsonValue>)
        ensures
            match r {
                Some(x) => json_field(*self, key@) == Some(*x),
                None => json_field(*self, key@) is None,
            },
    {
        match self {
            JsonValue::Object(fields) => {
                let ghost fv = fields@;
                let mut k: usize = 0;
                proof {
                    assert(fv.subrange(0, fv.len() as int) =~= fv);
                }
                while k < fields.len()
                    invariant
                        k <= fields@.len(),
                        fv == fields@,
                        json_field(*self, key@) == obj_lookup(
                            fv.subrange(k as int, fv.len() as int),
                            key@,
                        ),
                    decreases fields@.len() - k,
                {
                    proof {
                        let tail = fv.subrange(k as int, fv.len() as int);
                        assert(tail[0] == fv[k as int]);
                        assert(tail.subrange(1, tail.len() as int) =~= fv.subrange(
                            k + 1,
                            fv.len() as int,
                        ));
                    }
                    if str_eq(fields[k].0.as_str(), key) {
                        return Some(&fields[k].1);
                    }
                    k += 1;
                }
                proof {
                    assert(fv.subrange(fv.len() as int, fv.len() as int) =~= Seq::<(
                        String,
                        JsonValue,
                    )>::empty());
                }
                None
            },
            _ => None,
        }
    }
}

/// A single account resource: its ARN.
#[derive(Debug, Clone, PartialEq, Eq)]
pub struct AccountResource {
    /// The resource's ARN.
    pub arn: String,
}

/// Account resources grouped by `service:resource_type`, in first-seen
/// order.
#[derive(Debug, Clone)]
pub struct AccountResourceContext {
    /// The map from `service:resource_type` to the resources seen under
    /// it.
    pub resource_map: Vec<(String, Vec<AccountResource>)>,
}

/// External-state resources grouped by `service:resource_type`, in
/// first-seen order.
#[derive(Debug)]
pub struct TerraformStateContext {
    /// The map from `service:resource_type` to the ARNs seen under it.
    pub resource_arns: Vec<(String, Vec<Arn>)>,
}

/// The ARN texts of a list of `Arn` values.
pub open spec fn arns_view(v: Seq<Arn>) -> Seq<Seq<char>> {
    v.map_values(|a: Arn| a.arn@)
}

/// The group map as pairs of key and ARN texts.
pub open spec fn tf_map_view(v: Seq<(String, Vec<Arn>)>) -> Seq<(Seq<char>, Seq<Seq<char>>)> {
    v.map_values(|p: (String, Vec<Arn>)| (p.0@, arns_view(p.1@)))
}

/// The ARN texts of a list of account resources.
pub open spec fn account_arns_view(v: Seq<AccountResource>) -> Seq<Seq<char>> {
    v.map_values(|a: AccountResource| a.arn@)
}

/// The account map as pairs of key and ARN texts.
pub open spec fn account_map_view(v: Seq<(String, Vec<AccountResource>)>) -> Seq<(
    Seq<char>,
    Seq<Seq<char>>,
)> {
    v.map_values(|p: (String, Vec<AccountResource>)| (p.0@, account_arns_view(p.1@)))
}

/// First index of a group with this key, or the length.
pub open spec fn group_idx_from(
    acc: Seq<(Seq<char>, Seq<Seq<char>>)>,
    k: int,
    key: Seq<char>,
) -> int
    decreases acc.len() - k when 0 <= k <= acc.len()
{
    if k >= acc.len() {
        acc.len() as int
    } else if acc[k].0 == key {
        k
    } else {
        group_idx_from(acc, k + 1, key)
    }
}

/// Appends one ARN under its key: to the first group with that key, or
/// as a new group at the end.
pub open spec fn add_to_group(
    acc: Seq<(Seq<char>, Seq<Seq<char>>)>,
    key: Seq<char>,
    arn: Seq<char>,
) -> Seq<(Seq<char>, Seq<Seq<char>>)> {
    let i = group_idx_from(acc, 0, key);
    if i == acc.len() {
        acc.push((key, seq![arn]))
    } else {
        acc.update(i, (acc[i].0, acc[i].1.push(arn)))
    }
}

/// The group key of an ARN: its service and resource-type parts.
pub open spec fn arn_group_key(s: Seq<char>) -> Seq<char> {
    arn_service_spec(s) + ":"@ + arn_resource_type_spec(s)
}

impl TerraformStateContext {
    /// A context from an already-grouped map.
    pub fn new(resource_arns: Vec<(String, Vec<Arn>)>) -> (r: TerraformStateContext)
        ensures
            r.resource_arns@ == resource_arns@,
    {
        TerraformStateContext { resource_arns }
    }
}

impl AccountResourceContext {
    /// A context from an already-grouped map.
    pub fn new(resource_map: Vec<(String, Vec<AccountResource>)>) -> (r: AccountResourceContext)
        ensures
            r.resource_map@ == resource_map@,
    {
        AccountResourceContext { resource_map }
    }
}

/// The ARN a state resource entry carries: the string under
/// `values.arn`, when it is present and has the ARN shape.
pub open spec fn tf_resource_arn(res: JsonValue) -> Option<Seq<char>> {
    match json_field(res, "values"@) {
        Some(v) => match json_field(v, "arn"@) {
            Some(a) => match a {
                JsonValue::Text(s) => if arn_well_formed(s@) {
                    Some(s@)
                } else {
                    None
                },
                _ => None,
            },
            None => None,
        },
        None => None,
    }
}

/// Folds the resource entries into the group map; entries without a
/// usable ARN are passed over.
pub open spec fn tf_fold(
    items: Seq<JsonValue>,
    k: int,
    acc: Seq<(Seq<char>, Seq<Seq<char>>)>,
) -> Seq<(Seq<char>, Seq<Seq<char>>)>
    decreases items.len() - k when 0 <= k <= items.len()
{
    if k >= items.len() {
        acc
    } else {
        match tf_resource_arn(items[k]) {
            Some(a) => tf_fold(items, k + 1, add_to_group(acc, arn_group_key(a), a)),
            None => tf_fold(items, k + 1, acc),
        }
    }
}

/// What reading state output yields: the grouped map, or the message
/// of the first missing piece of the expected shape.
pub open spec fn tf_context_spec(state: JsonValue) -> Result<
    Seq<(Seq<char>, Seq<Seq<char>>)>,
    Seq<char>,
> {
    if !(state is Object) {
        Err("Terraform show object is not a map"@)
    } else {
        match json_field(state, "values"@) {
            None => Err("Terraform show object does not have values field"@),
            Some(values) => match json_field(values, "root_module"@) {
                None => Err("Terraform show object does not have values.root_module field"@),
                Some(rm) => match json_field(rm, "resources"@) {
                    None => Err(
                        "Terraform show object does not have values.root_module.resources field"@,
                    ),
                    Some(res) => match res {
                        JsonValue::Array(items) => Ok(tf_fold(items@, 0, Seq::empty())),
                        _ => Err("Terraform resources object is not an array"@),
                    },
                },
            },
        }
    }
}

/// Copies an `Arn` field by field.
fn clone_arn(a: &Arn) -> (r: Arn)
    ensures
        r == *a,
{
    Arn {
        arn: a.arn.clone(),
        service: a.service.clone(),
        resource_type: a.resource_type.clone(),
    }
}

/// Copies an ARN vector element by element.
fn clone_arn_vec(v: &Vec<Arn>) -> (r: Vec<Arn>)
    ensures
        r@ == v@,
{
    let mut r: Vec<Arn> = Vec::new();
    let mut i: usize = 0;
    while i < v.len()
        invariant
            i <= v@.len(),
            r@ == v@.subrange(0, i as int),
        decreases v@.len() - i,
    {
        let c = clone_arn(&v[i]);
        r.push(c);
        proof {
            assert(v@.subrange(0, i + 1) =~= v@.subrange(0, i as int).push(v@[i as int]));
        }
        i += 1;
    }
    proof {
        assert(v@.subrange(0, v@.len() as int) =~= v@);
    }
    r
}

/// Whether the text has the ARN shape that `Arn::new` takes apart.
pub fn is_arn_well_formed(s: &str) -> (r: bool)
    ensures
        r == arn_well_formed(s@),
{
    if str_eq(s, "*") {
        return true;
    }
    let chars = str_to_chars(s);
    let parts = split_char(&chars, ':');
    parts.len() >= 6
}

/// Appends one ARN to the first group with its key, or opens a new
/// group.
fn push_tf_group(map: &mut Vec<(String, Vec<Arn>)>, key: String, arn: Arn)
    ensures
        tf_map_view(final(map)@) == add_to_group(tf_map_view(old(map)@), key@, arn.arn@),
{
    let ghost mv = tf_map_view(map@);
    let mut k: usize = 0;
    while k < map.len()
        invariant
            k <= map@.len(),
            map@ == old(map)@,
            mv == tf_map_view(map@),
            group_idx_from(mv, 0, key@) == group_idx_from(mv, k as int, key@),
        decreases map@.len() - k,
    {
        proof {
            assert(mv[k as int] == (map@[k as int].0@, arns_view(map@[k as int].1@)));
        }
        if str_eq(map[k].0.as_str(), key.as_str()) {
            let mut arns = clone_arn_vec(&map[k].1);
            let ghost old_arns = arns@;
            let ghost am = arn.arn@;
            arns.push(arn);
            let key_clone = map[k].0.clone();
            let ghost old_map = map@;
            map.set(k, (key_clone, arns));
            proof {
                assert(arns_view(old_map[k as int].1@).push(am) =~= arns_view(
                    old_arns.push(arn),
                ));
                assert(tf_map_view(map@) =~= tf_map_view(old_map).update(
                    k as int,
                    (old_map[k as int].0@, arns_view(old_map[k as int].1@).push(am)),
                ));
            }
            return;
        }
        k += 1;
    }
    let ghost old_map = map@;
    let ghost am = arn.arn@;
    let mut arns: Vec<Arn> = Vec::new();
    arns.push(arn);
    map.push((key, arns));
    proof {
        let pushed = map@[map@.len() - 1];
        assert(arns_view(pushed.1@) =~= seq![am]);
        assert(tf_map_view(map@) =~= tf_map_view(old_map).push((pushed.0@, seq![am])));
    }
}

impl TerraformStateContext {
    /// Reads the grouped resource map off state output of the expected
    /// shape; a missing piece of the shape is a typed parse error
    /// carrying the output text.  An entry without a usable ARN is
    /// passed over.
    pub fn read_from_terraform_state(state: &JsonValue, state_text: &str) -> (r: Result<
        TerraformStateContext,
        ExtractorError,
    >)
        ensures
            match r {
                Ok(ctx) => tf_context_spec(*state) == Ok::<_, Seq<char>>(tf_map_view(
                    ctx.resource_arns@,
                )),
                Err(e) => {
                    &&& tf_context_spec(*state) is Err
                    &&& e matches ExtractorError::TerraformStateParseError {
                        message,
                        terraform_state,
                    }
                    &&& message@ == tf_context_spec(*state)->Err_0
                    &&& terraform_state@ == state_text@
                },
            },
    {
        let is_object = match state {
            JsonValue::Object(_) => true,
            _ => false,
        };
        if !is_object {
            return Err(
                ExtractorError::terraform_state_parse(
                    String::from_str("Terraform show object is not a map"),
                    state_text.to_owned(),
                ),
            );
        }
        let values = match state.get_field("values") {
            Some(v) => v,
            None => {
                return Err(
                    ExtractorError::terraform_state_parse(
                        String::from_str("Terraform show object does not have values field"),
                        state_text.to_owned(),
                    ),
                );
            },
        };
        let root_module = match values.get_field("root_module") {
            Some(v) => v,
            None => {
                return Err(
                    ExtractorError::terraform_state_parse(
                        String::from_str(
                            "Terraform show object does not have values.root_module field",
                        ),
                        state_text.to_owned(),
                    ),
                );
            },
        };
        let resources = match root_module.get_field("resources") {
            Some(v) => v,
            None => {
                return Err(
                    ExtractorError::terraform_state_parse(
                        String::from_str(
                            "Terraform show object does not have values.root_module.resources field",
                        ),
                        state_text.to_owned(),
                    ),
                );
            },
        };
        let items = match resources {
            JsonValue::Array(items) => items,
            _ => {
                return Err(
                    ExtractorError::terraform_state_parse(
                        String::from_str("Terraform resources object is not an array"),
                        state_text.to_owned(),
                    ),
                );
            },
        };
        let ghost iv = items@;
        let mut map: Vec<(String, Vec<Arn>)> = Vec::new();
        let mut k: usize = 0;
        proof {
            assert(tf_map_view(map@) =~= Seq::<(Seq<char>, Seq<Seq<char>>)>::empty());
        }
        while k < items.len()
            invariant
                k <= items@.len(),
                iv == items@,
                tf_fold(iv, 0, Seq::empty()) == tf_fold(iv, k as int, tf_map_view(map@)),
            decreases items@.len() - k,
        {
            let arn_str: Option<&String> = match items[k].get_field("values") {
                Some(v) => match v.get_field("arn") {
                    Some(a) => match a {
                        JsonValue::Text(s) => Some(s),
                        _ => None,
                    },
                    None => None,
                },
                None => None,
            };
            match arn_str {
                Some(s) => {
                    if is_arn_well_formed(s.as_str()) {
                        let arn = Arn::new(s.clone());
                        let mut key = arn.service.clone();
                        key.append(":");
                        key.append(arn.resource_type.as_str());
                        proof {
                            assert(key@ == arn_group_key(arn.arn@));
                        }
                        push_tf_group(&mut map, key, arn);
                    }
                },
                None => {},
            }
            k += 1;
        }
        Ok(TerraformStateContext { resource_arns: map })
    }
}

/// The string still carries a wildcard from an unresolved placeholder.
pub open spec fn has_wildcard(s: Seq<char>) -> bool {
    s.contains('*')
}

/// There are expansions and every one still carries a wildcard.
pub open spec fn all_wildcarded(xs: Seq<Seq<char>>) -> bool {
    xs.len() > 0 && forall|i: int| 0 <= i < xs.len() ==> has_wildcard(#[trigger] xs[i])
}

/// The ARNs a group map holds under `key`.
pub open spec fn ctx_lookup(
    map: Seq<(Seq<char>, Seq<Seq<char>>)>,
    key: Seq<char>,
) -> Option<Seq<Seq<char>>> {
    let i = group_idx_from(map, 0, key);
    if i == map.len() {
        None
    } else {
        Some(map[i].1)
    }
}

/// The context tier of placeholder resolution: expansions that still
/// carry wildcards are replaced by the one ARN the account context,
/// then the state context, holds under `service:resource_type` — only
/// when that context holds exactly one, since several candidates are
/// ambiguous and keep the wildcards.
pub open spec fn context_fallback_spec(
    expanded: Seq<Seq<char>>,
    key: Seq<char>,
    acct: Seq<(Seq<char>, Seq<Seq<char>>)>,
    tf: Seq<(Seq<char>, Seq<Seq<char>>)>,
) -> Seq<Seq<char>> {
    if !all_wildcarded(expanded) {
        expanded
    } else {
        let a = ctx_lookup(acct, key);
        if a is Some && a->Some_0.len() == 1 {
            seq![a->Some_0[0]]
        } else {
            let t = ctx_lookup(tf, key);
            if t is Some && t->Some_0.len() == 1 {
                seq![t->Some_0[0]]
            } else {
                expanded
            }
        }
    }
}

/// Whether the string holds a wildcard character.
fn str_has_wildcard(s: &String) -> (r: bool)
    ensures
        r == has_wildcard(s@),
{
    let v = str_to_chars(s.as_str());
    let mut i: usize = 0;
    while i < v.len()
        invariant
            i <= v@.len(),
            v@ == s@,
            forall|m: int| 0 <= m < i ==> s@[m] != '*',
        decreases v@.len() - i,
    {
        if v[i] == '*' {
            return true;
        }
        i += 1;
    }
    proof {
        if has_wildcard(s@) {
            let w = choose|m: int| 0 <= m < s@.len() && s@[m] == '*';
            assert(false);
        }
    }
    false
}

/// Looks the ARNs of one key up in the account context.
fn account_ctx_get<'a>(map: &'a Vec<(String, Vec<AccountResource>)>, key: &str) -> (r: Option<
    &'a Vec<AccountResource>,
>)
    ensures
        match r {
            Some(v) => ctx_lookup(account_map_view(map@), key@) == Some(account_arns_view(v@)),
            None => ctx_lookup(account_map_view(map@), key@) is None,
        },
{
    let ghost mv = account_map_view(map@);
    let mut k: usize = 0;
    while k < map.len()
        invariant
            k <= map@.len(),
            mv == account_map_view(map@),
            group_idx_from(mv, 0, key@) == group_idx_from(mv, k as int, key@),
        decreases map@.len() - k,
    {
        proof {
            assert(mv[k as int] == (map@[k as int].0@, account_arns_view(map@[k as int].1@)));
        }
        if str_eq(map[k].0.as_str(), key) {
            return Some(&map[k].1);
        }
        k += 1;
    }
    None
}

/// Looks the ARNs of one key up in the state context.
fn tf_ctx_get<'a>(map: &'a Vec<(String, Vec<Arn>)>, key: &str) -> (r: Option<&'a Vec<Arn>>)
    ensures
        match r {
            Some(v) => ctx_lookup(tf_map_view(map@), key@) == Some(arns_view(v@)),
            None => ctx_lookup(tf_map_view(map@), key@) is None,
        },
{
    let ghost mv = tf_map_view(map@);
    let mut k: usize = 0;
    while k < map.len()
        invariant
            k <= map@.len(),
            mv == tf_map_view(map@),
            group_idx_from(mv, 0, key@) == group_idx_from(mv, k as int, key@),
        decreases map@.len() - k,
    {
        proof {
            assert(mv[k as int] == (map@[k as int].0@, arns_view(map@[k as int].1@)));
        }
        if str_eq(map[k].0.as_str(), key) {
            return Some(&map[k].1);
        }
        k += 1;
    }
    None
}

/// Applies the context tier to a resource's expansions: when every
/// expansion still carries a wildcard and one of the contexts holds
/// exactly one ARN under the key, that ARN stands in for them.
pub fn context_fallback(
    expanded: Vec<String>,
    key: &str,
    account: &AccountResourceContext,
    terraform: &TerraformStateContext,
) -> (r: Vec<String>)
    ensures
        crate::arguments::views_of_strings(r@) == context_fallback_spec(
            crate::arguments::views_of_strings(expanded@),
            key@,
            account_map_view(account.resource_map@),
            tf_map_view(terraform.resource_arns@),
        ),
{
    let ghost ev = crate::arguments::views_of_strings(expanded@);
    if expanded.len() == 0 {
        return expanded;
    }
    let mut k: usize = 0;
    while k < expanded.len()
        invariant
            k <= expanded@.len(),
            ev == crate::arguments::views_of_strings(expanded@),
            forall|m: int| 0 <= m < k ==> has_wildcard(#[trigger] ev[m]),
        decreases expanded@.len() - k,
    {
        proof {
            assert(ev[k as int] == expanded@[k as int]@);
        }
        if !str_has_wildcard(&expanded[k]) {
            proof {
                assert(!all_wildcarded(ev));
            }
            return expanded;
        }
        k += 1;
    }
    proof {
        assert(all_wildcarded(ev));
    }
    if let Some(arns) = account_ctx_get(&account.resource_map, key) {
        if arns.len() == 1 {
            let mut r: Vec<String> = Vec::new();
            r.push(arns[0].arn.clone());
            proof {
                assert(account_arns_view(arns@)[0] == arns@[0].arn@);
                assert(crate::arguments::views_of_strings(r@) =~= seq![arns@[0].arn@]);
            }
            return r;
        }
    }
    if let Some(arns) = tf_ctx_get(&terraform.resource_arns, key) {
        if arns.len() == 1 {
            let mut r: Vec<String> = Vec::new();
            r.push(arns[0].arn.clone());
            proof {
                assert(arns_view(arns@)[0] == arns@[0].arn@);
                assert(crate::arguments::views_of_strings(r@) =~= seq![arns@[0].arn@]);
            }
            return r;
        }
    }
    expanded
}

/// Folds account listing entries into the group map; entries without
/// both a resource type and an ARN are passed over.
pub open spec fn account_fold(
    items: Seq<(Option<String>, Option<String>)>,
    k: int,
    acc: Seq<(Seq<char>, Seq<Seq<char>>)>,
) -> Seq<(Seq<char>, Seq<Seq<char>>)>
    decreases items.len() - k when 0 <= k <= items.len()
{
    if k >= items.len() {
        acc
    } else {
        match (items[k].0, items[k].1) {
            (Some(rt), Some(arn)) => account_fold(items, k + 1, add_to_group(acc, rt@, arn@)),
            _ => account_fold(items, k + 1, acc),
        }
    }
}

/// Appends one resource to the first group with its key, or opens a
/// new group.
fn push_account_group(map: &mut Vec<(String, Vec<AccountResource>)>, key: String, arn: String)
    ensures
        account_map_view(final(map)@) == add_to_group(account_map_view(old(map)@), key@, arn@),
{
    let ghost mv = account_map_view(map@);
    let mut k: usize = 0;
    while k < map.len()
        invariant
            k <= map@.len(),
            map@ == old(map)@,
            mv == account_map_view(map@),
            group_idx_from(mv, 0, key@) == group_idx_from(mv, k as int, key@),
        decreases map@.len() - k,
    {
        proof {
            assert(mv[k as int] == (map@[k as int].0@, account_arns_view(map@[k as int].1@)));
        }
        if str_eq(map[k].0.as_str(), key.as_str()) {
            let mut rs: Vec<AccountResource> = Vec::new();
            let inner = &map[k].1;
            let mut i: usize = 0;
            while i < inner.len()
                invariant
                    i <= inner@.len(),
                    rs@ == inner@.subrange(0, i as int),
                decreases inner@.len() - i,
            {
                rs.push(AccountResource { arn: inner[i].arn.clone() });
                proof {
                    assert(inner@.subrange(0, i + 1) =~= inner@.subrange(0, i as int).push(
                        inner@[i as int],
                    ));
                }
                i += 1;
            }
            proof {
                assert(inner@.subrange(0, inner@.len() as int) =~= inner@);
            }
            let ghost old_rs = rs@;
            let ghost am = arn@;
            rs.push(AccountResource { arn });
            let key_clone = map[k].0.clone();
            let ghost old_map = map@;
            map.set(k, (key_clone, rs));
            proof {
                assert(account_arns_view(old_map[k as int].1@).push(am) =~= account_arns_view(
                    rs@,
                ));
                assert(account_map_view(map@) =~= account_map_view(old_map).update(
                    k as int,
                    (old_map[k as int].0@, account_arns_view(old_map[k as int].1@).push(am)),
                ));
            }
            return;
        }
        k += 1;
    }
    let ghost old_map = map@;
    let ghost am = arn@;
    let mut rs: Vec<AccountResource> = Vec::new();
    rs.push(AccountResource { arn });
    map.push((key, rs));
    proof {
        let pushed = map@[map@.len() - 1];
        assert(account_arns_view(pushed.1@) =~= seq![am]);
        assert(account_map_view(map@) =~= account_map_view(old_map).push((pushed.0@, seq![am])));
    }
}

/// Groups a listing of `(resource_type, arn)` pairs into an account
/// resource context; entries missing either part are passed over.
pub fn group_account_resources(items: &Vec<(Option<String>, Option<String>)>) -> (r:
    AccountResourceContext)
    ensures
        account_map_view(r.resource_map@) == account_fold(items@, 0, Seq::empty()),
{
    let ghost iv = items@;
    let mut map: Vec<(String, Vec<AccountResource>)> = Vec::new();
    let mut k: usize = 0;
    proof {
        assert(account_map_view(map@) =~= Seq::<(Seq<char>, Seq<Seq<char>>)>::empty());
    }
    while k < items.len()
        invariant
            k <= items@.len(),
            iv == items@,
            account_fold(iv, 0, Seq::empty()) == account_fold(
                iv,
                k as int,
                account_map_view(map@),
            ),
        decreases items@.len() - k,
    {
        let has_both = items[k].0.is_some() && items[k].1.is_some();
        if has_both {
            let rt = match &items[k].0 {
                Some(s) => s.clone(),
                None => String::new(),
            };
            let arn = match &items[k].1 {
                Some(s) => s.clone(),
                None => String::new(),
            };
            push_account_group(&mut map, rt, arn);
        }
        k += 1;
    }
    AccountResourceContext { resource_map: map }
}

} // verus!
