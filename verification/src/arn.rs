//! ARNs and ARN templates.
//!
//! An ARN is read as colon-separated parts; templates carry `${Name}`
//! placeholders that are substituted or collected.

use vstd::prelude::*;
use crate::arguments::{ascii_lower, ascii_lower_char, lower_seq};
use crate::text::{chars_to_string, copy_range, str_eq, str_to_chars};

verus! {

/// Splitting on a separator character, as `str::split` does: the scan
/// carries the piece built so far and the finished pieces.
pub open spec fn split_from(
    s: Seq<char>,
    i: int,
    sep: char,
    cur: Seq<char>,
    acc: Seq<Seq<char>>,
) -> Seq<Seq<char>>
    decreases s.len() - i when 0 <= i <= s.len()
{
    if i >= s.len() {
        acc.push(cur)
    } else if s[i] == sep {
        split_from(s, i + 1, sep, Seq::empty(), acc.push(cur))
    } else {
        split_from(s, i + 1, sep, cur.push(s[i]), acc)
    }
}

pub open spec fn split_char_spec(s: Seq<char>, sep: char) -> Seq<Seq<char>> {
    split_from(s, 0, sep, Seq::empty(), Seq::empty())
}

/// The split of a sequence always yields at least one piece.
pub proof fn lemma_split_from_len(
    s: Seq<char>,
    i: int,
    sep: char,
    cur: Seq<char>,
    acc: Seq<Seq<char>>,
)
    requires
        0 <= i <= s.len(),
    ensures
        split_from(s, i, sep, cur, acc).len() > acc.len(),
    decreases s.len() - i,
{
    if i < s.len() {
        if s[i] == sep {
            lemma_split_from_len(s, i + 1, sep, Seq::empty(), acc.push(cur));
        } else {
            lemma_split_from_len(s, i + 1, sep, cur.push(s[i]), acc);
        }
    }
}

/// Splits `v` on `sep` into the pieces that `split_char_spec` names.
pub fn split_char(v: &Vec<char>, sep: char) -> (r: Vec<String>)
    ensures
        crate::arguments::views_of_strings(r@) == split_char_spec(v@, sep),
        r@.len() >= 1,
{
    let mut cur: Vec<char> = Vec::new();
    let mut acc: Vec<String> = Vec::new();
    let mut i: usize = 0;
    proof {
        assert(crate::arguments::views_of_strings(acc@) =~= Seq::<Seq<char>>::empty());
    }
    while i < v.len()
        invariant
            i <= v@.len(),
            split_char_spec(v@, sep) == split_from(
                v@,
                i as int,
                sep,
                cur@,
                crate::arguments::views_of_strings(acc@),
            ),
        decreases v@.len() - i,
    {
        let c = v[i];
        if c == sep {
            let ghost old_acc = acc@;
            acc.push(chars_to_string(&cur));
            proof {
                assert(crate::arguments::views_of_strings(acc@)
                    =~= crate::arguments::views_of_strings(old_acc).push(cur@));
            }
            cur = Vec::new();
        } else {
            cur.push(c);
        }
        i += 1;
    }
    let ghost old_acc = acc@;
    acc.push(chars_to_string(&cur));
    proof {
        assert(crate::arguments::views_of_strings(acc@)
            =~= crate::arguments::views_of_strings(old_acc).push(cur@));
        lemma_split_from_len(v@, 0, sep, Seq::empty(), Seq::empty());
    }
    acc
}

/// The service part of an ARN: its third colon-separated part, or `*`
/// for the bare wildcard.
pub open spec fn arn_service_spec(s: Seq<char>) -> Seq<char> {
    if s == "*"@ {
        "*"@
    } else {
        split_char_spec(s, ':')[2]
    }
}

/// The resource-type part of an ARN: what stands before the first `/`
/// in its sixth colon-separated part, or `*` for the bare wildcard.
pub open spec fn arn_resource_type_spec(s: Seq<char>) -> Seq<char> {
    if s == "*"@ {
        "*"@
    } else {
        split_char_spec(split_char_spec(s, ':')[5], '/')[0]
    }
}

/// An ARN can be taken apart when it is the bare wildcard or has the six
/// colon-separated parts of the ARN shape.
pub open spec fn arn_well_formed(s: Seq<char>) -> bool {
    s == "*"@ || split_char_spec(s, ':').len() >= 6
}

/// An ARN together with the service and resource-type parts read from
/// it.
#[derive(Debug)]
pub struct Arn {
    /// The full ARN text.
    pub arn: String,
    /// Its service part.
    pub service: String,
    /// Its resource-type part.
    pub resource_type: String,
}

impl Arn {
    /// The parts agree with the ARN text.
    pub open spec fn wf(&self) -> bool {
        &&& self.service@ == arn_service_spec(self.arn@)
        &&& self.resource_type@ == arn_resource_type_spec(self.arn@)
    }

    /// Reads the service and resource-type parts off the ARN text.
    pub fn new(arn: String) -> (r: Arn)
        requires
            arn_well_formed(arn@),
        ensures
            r.arn@ == arn@,
            r.wf(),
    {
        let service = Self::parse_service_part(&arn);
        let resource_type = Self::parse_resource_part(&arn);
        Arn { arn, service, resource_type }
    }

    /// The third colon-separated part, or `*` for the bare wildcard.
    pub fn parse_service_part(arn: &String) -> (r: String)
        requires
            arn_well_formed(arn@),
        ensures
            r@ == arn_service_spec(arn@),
    {
        if str_eq(arn.as_str(), "*") {
            let mut v: Vec<char> = Vec::new();
            v.push('*');
            proof {
                reveal_strlit("*");
                assert(v@ =~= "*"@);
            }
            return chars_to_string(&v);
        }
        let chars = str_to_chars(arn.as_str());
        let parts = split_char(&chars, ':');
        let p = &parts[2];
        proof {
            assert(crate::arguments::views_of_strings(parts@)[2] == parts@[2]@);
        }
        p.clone()
    }

    /// The start of the sixth colon-separated part, up to its first `/`,
    /// or `*` for the bare wildcard.
    pub fn parse_resource_part(arn: &String) -> (r: String)
        requires
            arn_well_formed(arn@),
        ensures
            r@ == arn_resource_type_spec(arn@),
    {
        if str_eq(arn.as_str(), "*") {
            let mut v: Vec<char> = Vec::new();
            v.push('*');
            proof {
                reveal_strlit("*");
                assert(v@ =~= "*"@);
            }
            return chars_to_string(&v);
        }
        let chars = str_to_chars(arn.as_str());
        let parts = split_char(&chars, ':');
        let resource_final = &parts[5];
        proof {
            assert(crate::arguments::views_of_strings(parts@)[5] == parts@[5]@);
        }
        let sub = str_to_chars(resource_final.as_str());
        let pieces = split_char(&sub, '/');
        let p = &pieces[0];
        proof {
            assert(crate::arguments::views_of_strings(pieces@)[0] == pieces@[0]@);
        }
        p.clone()
    }
}

/// The placeholder names are the three AWS-context keywords, in any
/// letter case.
pub open spec fn is_partition_kw(name: Seq<char>) -> bool {
    lower_seq(name) == "partition"@
}

pub open spec fn is_region_kw(name: Seq<char>) -> bool {
    lower_seq(name) == "region"@
}

pub open spec fn is_account_kw(name: Seq<char>) -> bool {
    lower_seq(name) == "account"@
}

pub open spec fn is_context_kw(name: Seq<char>) -> bool {
    is_partition_kw(name) || is_region_kw(name) || is_account_kw(name)
}

/// The variable names of a template: the contents of each `${...}`
/// placeholder, in order, without the AWS-context keywords.  `inside`
/// says whether the scan stands inside a placeholder whose name so far
/// is `name`; an unterminated placeholder yields nothing.
pub open spec fn template_vars_from(
    s: Seq<char>,
    i: int,
    inside: bool,
    name: Seq<char>,
) -> Seq<Seq<char>>
    decreases s.len() - i when 0 <= i <= s.len()
{
    if i >= s.len() {
        Seq::empty()
    } else if inside {
        if s[i] == '}' {
            if is_context_kw(name) {
                template_vars_from(s, i + 1, false, Seq::empty())
            } else {
                seq![name] + template_vars_from(s, i + 1, false, Seq::empty())
            }
        } else {
            template_vars_from(s, i + 1, true, name.push(s[i]))
        }
    } else if s[i] == '$' && i + 1 < s.len() && s[i + 1] == '{' {
        template_vars_from(s, i + 2, true, Seq::empty())
    } else {
        template_vars_from(s, i + 1, false, Seq::empty())
    }
}

pub open spec fn template_vars_spec(s: Seq<char>) -> Seq<Seq<char>> {
    template_vars_from(s, 0, false, Seq::empty())
}

/// An ARN template and the placeholder variables found in it.
#[derive(Debug, Clone)]
pub struct ArnTemplateInfo {
    /// The template text, with its placeholders.
    pub arn_template: String,
    /// The placeholder names other than partition, region and account.
    pub arn_variables: Vec<String>,
}

/// Compares `name` with the three AWS-context keywords, in any letter
/// case.
pub fn check_context_kw(name: &Vec<char>) -> (r: bool)
    ensures
        r == is_context_kw(name@),
{
    let mut low: Vec<char> = Vec::new();
    let mut i: usize = 0;
    while i < name.len()
        invariant
            i <= name@.len(),
            low@ == lower_seq(name@).subrange(0, i as int),
        decreases name@.len() - i,
    {
        low.push(ascii_lower(name[i]));
        proof {
            assert(lower_seq(name@).subrange(0, i + 1) =~= lower_seq(name@).subrange(
                0,
                i as int,
            ).push(ascii_lower_char(name@[i as int])));
        }
        i += 1;
    }
    proof {
        assert(low@ =~= lower_seq(name@));
    }
    let ls = chars_to_string(&low);
    str_eq(ls.as_str(), "partition") || str_eq(ls.as_str(), "region") || str_eq(
        ls.as_str(),
        "account",
    )
}

impl ArnTemplateInfo {
    /// Scans the template once and records every placeholder variable
    /// that is not an AWS-context keyword.
    pub fn new(arn_template: String) -> (r: ArnTemplateInfo)
        ensures
            r.arn_template@ == arn_template@,
            crate::arguments::views_of_strings(r.arn_variables@) == template_vars_spec(
                arn_template@,
            ),
    {
        let v = str_to_chars(arn_template.as_str());
        let n = v.len();
        let mut vars: Vec<String> = Vec::new();
        let mut i: usize = 0;
        proof {
            assert(crate::arguments::views_of_strings(vars@) =~= Seq::<Seq<char>>::empty());
        }
        // The locations of finished variables stand before `i`; the spec
        // suffix from `i` contributes the rest.
        while i < n
            invariant
                i <= n,
                n == v@.len(),
                v@ == arn_template@,
                template_vars_spec(arn_template@) == crate::arguments::views_of_strings(vars@)
                    + template_vars_from(v@, i as int, false, Seq::empty()),
            decreases n - i,
        {
            if v[i] == '$' && i + 1 < n && v[i + 1] == '{' {
                // Find the closing brace.
                let mut j: usize = i + 2;
                while j < n && v[j] != '}'
                    invariant
                        i + 2 <= j <= n,
                        n == v@.len(),
                        forall|m: int| i + 2 <= m < j ==> v@[m] != '}',
                    decreases n - j,
                {
                    j += 1;
                }
                if j == n {
                    // Unterminated placeholder: nothing more matches.
                    proof {
                        lemma_template_vars_unterminated(v@, i + 2, Seq::empty());
                        assert(template_vars_from(v@, i as int, false, Seq::empty())
                            =~= Seq::<Seq<char>>::empty());
                        assert(crate::arguments::views_of_strings(vars@)
                            + Seq::<Seq<char>>::empty() =~= crate::arguments::views_of_strings(
                            vars@,
                        ));
                    }
                    return ArnTemplateInfo { arn_template, arn_variables: vars };
                }
                let name = copy_range(&v, i + 2, j);
                proof {
                    lemma_template_vars_name(v@, i + 2, j as int, Seq::empty());
                }
                if !check_context_kw(&name) {
                    let ghost old_vars = vars@;
                    vars.push(chars_to_string(&name));
                    proof {
                        assert(crate::arguments::views_of_strings(vars@)
                            =~= crate::arguments::views_of_strings(old_vars).push(name@));
                        assert(crate::arguments::views_of_strings(old_vars) + (seq![name@]
                            + template_vars_from(v@, j + 1, false, Seq::empty()))
                            =~= crate::arguments::views_of_strings(vars@) + template_vars_from(
                            v@,
                            j + 1,
                            false,
                            Seq::empty(),
                        ));
                    }
                }
                i = j + 1;
            } else {
                i += 1;
            }
        }
        proof {
            assert(crate::arguments::views_of_strings(vars@) + Seq::<Seq<char>>::empty()
                =~= crate::arguments::views_of_strings(vars@));
        }
        ArnTemplateInfo { arn_template, arn_variables: vars }
    }
}

/// Inside a placeholder with no closing brace ahead, the scan yields
/// nothing.
proof fn lemma_template_vars_unterminated(s: Seq<char>, i: int, name: Seq<char>)
    requires
        0 <= i <= s.len(),
        forall|m: int| i <= m < s.len() ==> s[m] != '}',
    ensures
        template_vars_from(s, i, true, name) =~= Seq::<Seq<char>>::empty(),
    decreases s.len() - i,
{
    if i < s.len() {
        lemma_template_vars_unterminated(s, i + 1, name.push(s[i]));
    }
}

/// Inside a placeholder whose closing brace stands at `j`, the scan
/// yields the name accumulated so far plus the characters up to `j`,
/// then continues after `j`.
proof fn lemma_template_vars_name(s: Seq<char>, i: int, j: int, name: Seq<char>)
    requires
        0 <= i <= j < s.len(),
        s[j] == '}',
        forall|m: int| i <= m < j ==> s[m] != '}',
    ensures
        template_vars_from(s, i, true, name) =~= if is_context_kw(name + s.subrange(i, j)) {
            template_vars_from(s, j + 1, false, Seq::empty())
        } else {
            seq![name + s.subrange(i, j)] + template_vars_from(s, j + 1, false, Seq::empty())
        },
    decreases s.len() - i,
{
    if i == j {
        assert(name + s.subrange(i, j) =~= name);
    } else {
        lemma_template_vars_name(s, i + 1, j, name.push(s[i]));
        assert(name.push(s[i]) + s.subrange(i + 1, j) =~= name + s.subrange(i, j));
    }
}

/// First value bound to `key` in an association list.
pub open spec fn assoc_lookup(
    pairs: Seq<(Seq<char>, Seq<char>)>,
    key: Seq<char>,
) -> Option<Seq<char>>
    decreases pairs.len(),
{
    if pairs.len() == 0 {
        None
    } else if pairs[0].0 == key {
        Some(pairs[0].1)
    } else {
        assoc_lookup(pairs.subrange(1, pairs.len() as int), key)
    }
}

/// The views of a list of string pairs.
pub open spec fn pairs_view(v: Seq<(String, String)>) -> Seq<(Seq<char>, Seq<char>)> {
    v.map_values(|p: (String, String)| (p.0@, p.1@))
}

/// Variable names are matched disregarding letter case, hyphens and
/// underscores.
pub open spec fn squash_name(s: Seq<char>) -> Seq<char>
    decreases s.len(),
{
    if s.len() == 0 {
        Seq::empty()
    } else {
        let c0 = ascii_lower_char(s[0]);
        let rest = squash_name(s.subrange(1, s.len() as int));
        if c0 == '-' || c0 == '_' {
            rest
        } else {
            seq![c0] + rest
        }
    }
}

/// The value put in for one placeholder: the AWS context for its three
/// keywords; else the first argument whose squashed name matches; else
/// the wildcard.
pub open spec fn placeholder_value(
    name: Seq<char>,
    partition: Seq<char>,
    region: Seq<char>,
    account: Seq<char>,
    args: Seq<(Seq<char>, Seq<char>)>,
) -> Seq<char> {
    if is_partition_kw(name) {
        partition
    } else if is_region_kw(name) {
        region
    } else if is_account_kw(name) {
        account
    } else {
        match assoc_lookup(args, squash_name(name)) {
            Some(v) => v,
            None => "*"@,
        }
    }
}

/// The substitution scan over a template.  Outside placeholders,
/// characters pass through; `${` opens a placeholder remembered from
/// `start`; `}` closes it and appends its value; a placeholder with an
/// empty name is the error case; an unterminated placeholder stays
/// literal text.
pub open spec fn subst_from(
    s: Seq<char>,
    i: int,
    start: int,
    inside: bool,
    name: Seq<char>,
    out: Seq<char>,
    partition: Seq<char>,
    region: Seq<char>,
    account: Seq<char>,
    args: Seq<(Seq<char>, Seq<char>)>,
) -> Option<Seq<char>>
    decreases s.len() - i when 0 <= i <= s.len()
{
    if i >= s.len() {
        if inside {
            Some(out + s.subrange(start, s.len() as int))
        } else {
            Some(out)
        }
    } else if inside {
        if s[i] == '}' {
            if name.len() == 0 {
                None
            } else {
                subst_from(
                    s,
                    i + 1,
                    0,
                    false,
                    Seq::empty(),
                    out + placeholder_value(name, partition, region, account, args),
                    partition,
                    region,
                    account,
                    args,
                )
            }
        } else {
            subst_from(
                s,
                i + 1,
                start,
                true,
                name.push(s[i]),
                out,
                partition,
                region,
                account,
                args,
            )
        }
    } else if s[i] == '$' && i + 1 < s.len() && s[i + 1] == '{' {
        subst_from(s, i + 2, i, true, Seq::empty(), out, partition, region, account, args)
    } else {
        subst_from(
            s,
            i + 1,
            0,
            false,
            Seq::empty(),
            out.push(s[i]),
            partition,
            region,
            account,
            args,
        )
    }
}

/// The substituted template, or nothing when a placeholder with an
/// empty name occurs.
pub open spec fn subst_template_spec(
    s: Seq<char>,
    partition: Seq<char>,
    region: Seq<char>,
    account: Seq<char>,
    args: Seq<(Seq<char>, Seq<char>)>,
) -> Option<Seq<char>> {
    subst_from(s, 0, 0, false, Seq::empty(), Seq::empty(), partition, region, account, args)
}

/// Inside a placeholder whose closing brace stands at `j`: the name is
/// completed with the characters up to `j`; an empty completed name is
/// the error; otherwise its value is appended and the scan continues.
proof fn lemma_subst_scan_name(
    s: Seq<char>,
    i: int,
    j: int,
    start: int,
    acc: Seq<char>,
    out: Seq<char>,
    partition: Seq<char>,
    region: Seq<char>,
    account: Seq<char>,
    args: Seq<(Seq<char>, Seq<char>)>,
)
    requires
        0 <= i <= j < s.len(),
        s[j] == '}',
        forall|m: int| i <= m < j ==> s[m] != '}',
    ensures
        subst_from(s, i, start, true, acc, out, partition, region, account, args) == if (acc
            + s.subrange(i, j)).len() == 0 {
            None::<Seq<char>>
        } else {
            subst_from(
                s,
                j + 1,
                0,
                false,
                Seq::empty(),
                out + placeholder_value(acc + s.subrange(i, j), partition, region, account, args),
                partition,
                region,
                account,
                args,
            )
        },
    decreases j - i,
{
    if i == j {
        assert(acc + s.subrange(i, j) =~= acc);
    } else {
        lemma_subst_scan_name(
            s,
            i + 1,
            j,
            start,
            acc.push(s[i]),
            out,
            partition,
            region,
            account,
            args,
        );
        assert(acc.push(s[i]) + s.subrange(i + 1, j) =~= acc + s.subrange(i, j));
    }
}

/// Substitution of one whole placeholder: `${Name}` becomes the name's
/// value — the AWS context for the partition, region and account
/// keywords in any letter case — and the empty placeholder `${}` is
/// the hard error.
pub proof fn lemma_placeholder_substitution(
    name: Seq<char>,
    partition: Seq<char>,
    region: Seq<char>,
    account: Seq<char>,
    args: Seq<(Seq<char>, Seq<char>)>,
)
    requires
        forall|i: int| 0 <= i < name.len() ==> name[i] != '}',
    ensures
        subst_template_spec(
            seq!['$', '{'] + name + seq!['}'],
            partition,
            region,
            account,
            args,
        ) == if name.len() == 0 {
            None::<Seq<char>>
        } else {
            Some(placeholder_value(name, partition, region, account, args))
        },
        is_partition_kw(name) ==> placeholder_value(name, partition, region, account, args)
            == partition,
        is_region_kw(name) ==> placeholder_value(name, partition, region, account, args)
            == region,
        is_account_kw(name) ==> placeholder_value(name, partition, region, account, args)
            == account,
{
    reveal_strlit("partition");
    reveal_strlit("region");
    reveal_strlit("account");
    assert("partition"@.len() == 9 && "region"@.len() == 6 && "account"@.len() == 7);
    let s = seq!['$', '{'] + name + seq!['}'];
    assert(s.len() == name.len() + 3);
    assert(s[0] == '$');
    assert(s[1] == '{');
    assert(s[s.len() - 1] == '}');
    assert(forall|m: int| 2 <= m < s.len() - 1 ==> #[trigger] s[m] == name[m - 2]);
    lemma_subst_scan_name(
        s,
        2,
        s.len() - 1,
        0,
        Seq::empty(),
        Seq::empty(),
        partition,
        region,
        account,
        args,
    );
    assert(Seq::<char>::empty() + s.subrange(2, s.len() - 1) =~= name);
    if name.len() > 0 {
        assert(Seq::<char>::empty() + placeholder_value(name, partition, region, account, args)
            =~= placeholder_value(name, partition, region, account, args));
    }
}

/// Squashes a variable name for matching: lower case, hyphens and
/// underscores dropped.
pub fn squash_chars(v: &Vec<char>) -> (r: Vec<char>)
    ensures
        r@ == squash_name(v@),
{
    let mut r: Vec<char> = Vec::new();
    let mut i: usize = 0;
    proof {
        assert(v@.subrange(0, v@.len() as int) =~= v@);
        assert(r@ + squash_name(v@) =~= squash_name(v@));
    }
    while i < v.len()
        invariant
            i <= v@.len(),
            squash_name(v@) == r@ + squash_name(v@.subrange(i as int, v@.len() as int)),
        decreases v@.len() - i,
    {
        proof {
            let tail = v@.subrange(i as int, v@.len() as int);
            assert(tail[0] == v@[i as int]);
            assert(tail.subrange(1, tail.len() as int) =~= v@.subrange(i + 1, v@.len() as int));
            let c0 = ascii_lower_char(v@[i as int]);
            if c0 == '-' || c0 == '_' {
            } else {
                assert(r@ + (seq![c0] + squash_name(v@.subrange(i + 1, v@.len() as int)))
                    =~= r@.push(c0) + squash_name(v@.subrange(i + 1, v@.len() as int)));
            }
        }
        let c = ascii_lower(v[i]);
        if !(c == '-' || c == '_') {
            r.push(c);
        }
        i += 1;
    }
    proof {
        assert(squash_name(v@.subrange(v@.len() as int, v@.len() as int)) =~= Seq::<
            char,
        >::empty());
        assert(r@ + Seq::<char>::empty() =~= r@);
    }
    r
}

/// Looks `key` up in the argument list, first match wins.
pub(crate) fn assoc_get(args: &Vec<(String, String)>, key: &Vec<char>) -> (r: Option<String>)
    ensures
        match r {
            Some(v) => assoc_lookup(pairs_view(args@), key@) == Some(v@),
            None => assoc_lookup(pairs_view(args@), key@) is None,
        },
{
    let ghost pv = pairs_view(args@);
    let mut k: usize = 0;
    proof {
        assert(pv.subrange(0, pv.len() as int) =~= pv);
    }
    while k < args.len()
        invariant
            k <= args@.len(),
            pv == pairs_view(args@),
            assoc_lookup(pv, key@) == assoc_lookup(pv.subrange(k as int, pv.len() as int), key@),
        decreases args@.len() - k,
    {
        proof {
            let tail = pv.subrange(k as int, pv.len() as int);
            assert(tail[0] == pv[k as int]);
            assert(pv[k as int] == (args@[k as int].0@, args@[k as int].1@));
            assert(tail.subrange(1, tail.len() as int) =~= pv.subrange(k + 1, pv.len() as int));
        }
        let ks = chars_to_string(key);
        if str_eq(args[k].0.as_str(), ks.as_str()) {
            return Some(args[k].1.clone());
        }
        k += 1;
    }
    proof {
        assert(pv.subrange(pv.len() as int, pv.len() as int) =~= Seq::<(
            Seq<char>,
            Seq<char>,
        )>::empty());
    }
    None
}

/// Computes the substitution value of one placeholder.
fn placeholder_value_exec(
    name: &Vec<char>,
    partition: &str,
    region: &str,
    account: &str,
    args: &Vec<(String, String)>,
) -> (r: Vec<char>)
    ensures
        r@ == placeholder_value(name@, partition@, region@, account@, pairs_view(args@)),
{
    let mut low: Vec<char> = Vec::new();
    let mut i: usize = 0;
    while i < name.len()
        invariant
            i <= name@.len(),
            low@ == lower_seq(name@).subrange(0, i as int),
        decreases name@.len() - i,
    {
        low.push(ascii_lower(name[i]));
        proof {
            assert(lower_seq(name@).subrange(0, i + 1) =~= lower_seq(name@).subrange(
                0,
                i as int,
            ).push(ascii_lower_char(name@[i as int])));
        }
        i += 1;
    }
    proof {
        assert(low@ =~= lower_seq(name@));
    }
    let ls = chars_to_string(&low);
    if str_eq(ls.as_str(), "partition") {
        return str_to_chars(partition);
    }
    if str_eq(ls.as_str(), "region") {
        return str_to_chars(region);
    }
    if str_eq(ls.as_str(), "account") {
        return str_to_chars(account);
    }
    let key = squash_chars(name);
    match assoc_get(args, &key) {
        Some(v) => str_to_chars(v.as_str()),
        None => {
            let mut w: Vec<char> = Vec::new();
            w.push('*');
            proof {
                reveal_strlit("*");
                assert(w@ =~= "*"@);
            }
            w
        },
    }
}

/// Substitutes every placeholder of `template`: the AWS context for the
/// three keywords, matching argument values for other names, and the
/// wildcard where no argument matches.  Returns nothing when a
/// placeholder with an empty name occurs.
pub fn substitute_template(
    template: &str,
    partition: &str,
    region: &str,
    account: &str,
    args: &Vec<(String, String)>,
) -> (r: Option<String>)
    ensures
        match r {
            Some(out) => subst_template_spec(
                template@,
                partition@,
                region@,
                account@,
                pairs_view(args@),
            ) == Some(out@),
            None => subst_template_spec(
                template@,
                partition@,
                region@,
                account@,
                pairs_view(args@),
            ) is None,
        },
{
    let ghost pa = partition@;
    let ghost re = region@;
    let ghost ac = account@;
    let ghost ag = pairs_view(args@);
    let v = str_to_chars(template);
    let n = v.len();
    let mut i: usize = 0;
    let mut start: usize = 0;
    let mut inside = false;
    let mut name: Vec<char> = Vec::new();
    let mut out: Vec<char> = Vec::new();
    while i < n
        invariant
            i <= n,
            start <= n,
            n == v@.len(),
            v@ == template@,
            !inside ==> start == 0 && name@ == Seq::<char>::empty(),
            subst_template_spec(template@, pa, re, ac, ag) == subst_from(
                v@,
                i as int,
                start as int,
                inside,
                name@,
                out@,
                pa,
                re,
                ac,
                ag,
            ),
            pa == partition@ && re == region@ && ac == account@ && ag == pairs_view(args@),
        decreases n - i,
    {
        if inside {
            let c = v[i];
            if c == '}' {
                if name.len() == 0 {
                    return None;
                }
                let val = placeholder_value_exec(&name, partition, region, account, args);
                proof {
                    assert(subst_from(
                        v@,
                        i as int,
                        start as int,
                        true,
                        name@,
                        out@,
                        pa,
                        re,
                        ac,
                        ag,
                    ) == subst_from(
                        v@,
                        i + 1,
                        0,
                        false,
                        Seq::<char>::empty(),
                        out@ + val@,
                        pa,
                        re,
                        ac,
                        ag,
                    ));
                }
                crate::text::push_chars(&mut out, &val);
                inside = false;
                name = Vec::new();
                start = 0;
                i += 1;
            } else {
                name.push(c);
                i += 1;
            }
        } else if v[i] == '$' && i + 1 < n && v[i + 1] == '{' {
            start = i;
            inside = true;
            name = Vec::new();
            i += 2;
        } else {
            out.push(v[i]);
            i += 1;
        }
    }
    if inside {
        let rest = copy_range(&v, start, n);
        crate::text::push_chars(&mut out, &rest);
    }
    Some(chars_to_string(&out))
}

} // verus!
