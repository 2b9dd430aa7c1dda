//! Classification and extraction of call-site arguments.
//!
//! Source text for an argument list or object literal is parsed into
//! `Parameter` records.  A value is `Resolved` when it is a plain literal
//! (string, number, boolean, null, or a template string without live
//! interpolation) and `Unresolved` otherwise.

use vstd::prelude::*;
use crate::text::{
    chars_to_string, copy_range, find_from, matches_at, str_eq, str_to_chars, strip_char,
    strip_char_spec, trim_chars, trim_spec,
};

verus! {

/// An argument value: a literal that could be read off the call site, or
/// the original expression text when it could not.
#[derive(Debug, Clone, PartialEq, Eq)]
pub enum ParameterValue {
    Resolved(String),
    Unresolved(String),
}

/// Mathematical model of a `ParameterValue`.
pub enum ValueModel {
    Resolved(Seq<char>),
    Unresolved(Seq<char>),
}

impl View for ParameterValue {
    type V = ValueModel;

    open spec fn view(&self) -> ValueModel {
        match self {
            ParameterValue::Resolved(s) => ValueModel::Resolved(s@),
            ParameterValue::Unresolved(s) => ValueModel::Unresolved(s@),
        }
    }
}

/// One extracted parameter of a call or object literal.
#[derive(Debug, Clone, PartialEq, Eq)]
pub enum Parameter {
    Keyword {
        name: String,
        value: ParameterValue,
        position: usize,
        type_annotation: Option<String>,
    },
}

/// Mathematical model of a `Parameter`.
pub enum ParameterModel {
    Keyword {
        name: Seq<char>,
        value: ValueModel,
        position: int,
        type_annotation: Option<Seq<char>>,
    },
}

impl View for Parameter {
    type V = ParameterModel;

    open spec fn view(&self) -> ParameterModel {
        match self {
            Parameter::Keyword { name, value, position, type_annotation } =>
                ParameterModel::Keyword {
                    name: name@,
                    value: value@,
                    position: *position as int,
                    type_annotation: match type_annotation {
                        Some(t) => Some(t@),
                        None => None,
                    },
                },
        }
    }
}

pub open spec fn is_digit_char(c: char) -> bool {
    '0' <= c && c <= '9'
}

/// ASCII letters mapped to lower case; all other characters unchanged.
pub open spec fn ascii_lower_char(c: char) -> char {
    if 'A' <= c && c <= 'Z' {
        ((c as u32) + 32) as char
    } else {
        c
    }
}

pub open spec fn lower_seq(s: Seq<char>) -> Seq<char> {
    s.map_values(|c: char| ascii_lower_char(c))
}

pub fn ascii_lower(c: char) -> (r: char)
    ensures
        r == ascii_lower_char(c),
{
    if 'A' <= c && c <= 'Z' {
        (((c as u32) + 32) as u8) as char
    } else {
        c
    }
}

/// Number of occurrences of `c` in `s`.
pub open spec fn count_char(s: Seq<char>, c: char) -> int
    decreases s.len(),
{
    if s.len() == 0 {
        0
    } else {
        (if s[0] == c {
            1int
        } else {
            0int
        }) + count_char(s.subrange(1, s.len() as int), c)
    }
}

/// Index of the first `'e'` or `'E'` in `s`, or `s.len()` if there is none.
pub open spec fn first_exp_marker(s: Seq<char>) -> int
    decreases s.len(),
{
    if s.len() == 0 {
        0
    } else if s[0] == 'e' || s[0] == 'E' {
        0
    } else {
        1 + first_exp_marker(s.subrange(1, s.len() as int))
    }
}

pub open spec fn is_sign_char(c: char) -> bool {
    c == '+' || c == '-'
}

/// Digits with at most one decimal point and at least one digit:
/// the mantissa shapes `1`, `1.`, `1.5` and `.5`.
pub open spec fn is_mantissa(s: Seq<char>) -> bool {
    &&& s.len() >= 1
    &&& forall|i: int| 0 <= i < s.len() ==> is_digit_char(#[trigger] s[i]) || s[i] == '.'
    &&& count_char(s, '.') <= 1
    &&& exists|i: int| 0 <= i < s.len() && is_digit_char(#[trigger] s[i])
}

pub open spec fn all_digits(s: Seq<char>) -> bool {
    forall|i: int| 0 <= i < s.len() ==> is_digit_char(#[trigger] s[i])
}

/// An optional sign followed by one or more digits.
pub open spec fn is_signed_digits(s: Seq<char>) -> bool {
    if s.len() >= 1 && is_sign_char(s[0]) {
        s.len() >= 2 && all_digits(s.subrange(1, s.len() as int))
    } else {
        s.len() >= 1 && all_digits(s)
    }
}

/// A number body: a mantissa, optionally followed by `e`/`E` and a signed
/// digit string.  The split is at the first exponent marker, which a valid
/// mantissa cannot contain.
pub open spec fn is_number_body(s: Seq<char>) -> bool {
    let i = first_exp_marker(s);
    if i == s.len() {
        is_mantissa(s)
    } else {
        is_mantissa(s.subrange(0, i)) && is_signed_digits(s.subrange(i + 1, s.len() as int))
    }
}

/// The grammar that `f64` parsing accepts: an optional sign, then `inf`,
/// `infinity` or `nan` in any letter case, or a number body.
pub open spec fn is_numeric_literal(s: Seq<char>) -> bool {
    let b = if s.len() >= 1 && is_sign_char(s[0]) {
        s.subrange(1, s.len() as int)
    } else {
        s
    };
    ||| lower_seq(b) == "inf"@
    ||| lower_seq(b) == "infinity"@
    ||| lower_seq(b) == "nan"@
    ||| is_number_body(b)
}

fn is_digit(c: char) -> (r: bool)
    ensures
        r == is_digit_char(c),
{
    '0' <= c && c <= '9'
}

fn lower_chars(v: &[char], from: usize) -> (r: Vec<char>)
    requires
        from <= v@.len(),
    ensures
        r@ == lower_seq(v@.subrange(from as int, v@.len() as int)),
{
    let ghost tail = v@.subrange(from as int, v@.len() as int);
    let mut r: Vec<char> = Vec::new();
    let mut i: usize = from;
    while i < v.len()
        invariant
            from <= i <= v@.len(),
            tail == v@.subrange(from as int, v@.len() as int),
            r@ == lower_seq(tail).subrange(0, i - from),
        decreases v@.len() - i,
    {
        r.push(ascii_lower(v[i]));
        proof {
            assert(lower_seq(tail)[i - from] == ascii_lower_char(v@[i as int]));
            assert(lower_seq(tail).subrange(0, i + 1 - from) =~= lower_seq(tail).subrange(
                0,
                i - from,
            ).push(ascii_lower_char(v@[i as int])));
        }
        i += 1;
    }
    proof {
        assert(lower_seq(tail).subrange(0, tail.len() as int) =~= lower_seq(tail));
    }
    r
}

/// Decides membership in the numeric-literal grammar.
#[verifier::rlimit(60)]
fn check_numeric(v: &Vec<char>) -> (r: bool)
    ensures
        r == is_numeric_literal(v@),
{
    let start: usize = if v.len() >= 1 && (v[0] == '+' || v[0] == '-') {
        1
    } else {
        0
    };
    let ghost b = if v@.len() >= 1 && is_sign_char(v@[0]) {
        v@.subrange(1, v@.len() as int)
    } else {
        v@
    };
    proof {
        if start == 0 {
            assert(b =~= v@.subrange(0, v@.len() as int));
        }
    }
    // Keyword forms first.
    let sl = v.as_slice();
    let low = lower_chars(sl, start);
    proof {
        assert(sl@.subrange(start as int, v@.len() as int) =~= b);
    }
    let lows = chars_to_string(&low);
    if crate::text::str_eq(lows.as_str(), "inf") || crate::text::str_eq(lows.as_str(), "infinity")
        || crate::text::str_eq(lows.as_str(), "nan") {
        return true;
    }
    // Mantissa scan up to the first exponent marker.
    let n = v.len();
    let mut i: usize = start;
    let mut dots: usize = 0;
    let mut has_digit = false;
    let mut valid = true;
    while i < n && v[i] != 'e' && v[i] != 'E'
        invariant
            start <= i <= n,
            n == v@.len(),
            forall|k: int| start <= k < i ==> v@[k] != 'e' && v@[k] != 'E',
            dots <= i,
            dots == count_char(v@.subrange(start as int, i as int), '.'),
            valid <==> (forall|k: int|
                start <= k < i ==> is_digit_char(#[trigger] v@[k]) || v@[k] == '.'),
            has_digit <==> (exists|k: int| start <= k < i && is_digit_char(#[trigger] v@[k])),
        decreases n - i,
    {
        let c = v[i];
        proof {
            let pre = v@.subrange(start as int, i as int);
            lemma_count_char_push(pre, v@[i as int], '.');
            assert(v@.subrange(start as int, i + 1) =~= pre.push(v@[i as int]));
        }
        if c == '.' {
            dots += 1;
        } else if is_digit(c) {
            has_digit = true;
        } else {
            valid = false;
        }
        i += 1;
    }
    let mantissa_ok = valid && i > start && dots <= 1 && has_digit;
    proof {
        let mant = v@.subrange(start as int, i as int);
        assert(forall|m: int| 0 <= m < mant.len() ==> mant[m] == v@[start + m]);
        if mantissa_ok {
            assert(is_mantissa(mant)) by {
                let w = choose|k: int| start <= k < i && is_digit_char(#[trigger] v@[k]);
                assert(is_digit_char(mant[w - start]));
            }
        } else {
            assert(!is_mantissa(mant)) by {
                if is_mantissa(mant) {
                    assert(forall|k: int|
                        start <= k < i ==> is_digit_char(#[trigger] v@[k]) || v@[k] == '.') by {
                        assert(forall|k: int|
                            start <= k < i ==> mant[k - start] == #[trigger] v@[k]);
                    }
                    let w = choose|m: int|
                        0 <= m < mant.len() && is_digit_char(#[trigger] mant[m]);
                    assert(is_digit_char(v@[start + w]));
                }
            }
        }
        lemma_first_exp_marker(v@, start as int, i as int);
        assert(first_exp_marker(b) == i - start);
        assert(b.subrange(0, first_exp_marker(b)) =~= v@.subrange(start as int, i as int));
    }
    if i == n {
        return mantissa_ok;
    }
    if !mantissa_ok {
        return false;
    }
    // Exponent tail: optional sign, then one or more digits.
    let tail_start = i + 1;
    let ds: usize = if tail_start < n && (v[tail_start] == '+' || v[tail_start] == '-') {
        tail_start + 1
    } else {
        tail_start
    };
    let mut j: usize = ds;
    while j < n && is_digit(v[j])
        invariant
            ds <= j <= n,
            n == v@.len(),
            forall|m: int| ds <= m < j ==> is_digit_char(#[trigger] v@[m]),
        decreases n - j,
    {
        j += 1;
    }
    let tail_ok = j == n && ds < n;
    proof {
        let tail = v@.subrange(tail_start as int, n as int);
        assert(b.subrange(first_exp_marker(b) + 1, b.len() as int) =~= tail);
        let d = if tail.len() >= 1 && is_sign_char(tail[0]) {
            tail.subrange(1, tail.len() as int)
        } else {
            tail
        };
        if tail.len() >= 1 && is_sign_char(tail[0]) {
            assert(tail[0] == v@[tail_start as int]);
            assert(d =~= v@.subrange(ds as int, n as int));
        } else {
            if tail.len() >= 1 {
                assert(tail[0] == v@[tail_start as int]);
            }
            assert(d =~= v@.subrange(ds as int, n as int));
        }
        assert(forall|m: int| 0 <= m < d.len() ==> d[m] == v@[ds + m]);
        if tail_ok {
            assert(is_signed_digits(tail)) by {
                assert(forall|m: int| 0 <= m < d.len() ==> is_digit_char(#[trigger] d[m]));
                assert(all_digits(d));
            }
        } else {
            assert(!is_signed_digits(tail)) by {
                if is_signed_digits(tail) {
                    assert(all_digits(d));
                    assert(d.len() >= 1);
                    if j < n {
                        assert(is_digit_char(d[j - ds]));
                        assert(d[j - ds] == v@[j as int]);
                    }
                }
            }
        }
    }
    tail_ok
}

proof fn lemma_count_char_push(s: Seq<char>, c: char, target: char)
    ensures
        count_char(s.push(c), target) == count_char(s, target) + (if c == target {
            1int
        } else {
            0int
        }),
    decreases s.len(),
{
    let p = s.push(c);
    if s.len() == 0 {
        assert(p[0] == c);
        assert(p.subrange(1, p.len() as int) =~= Seq::<char>::empty());
        assert(count_char(Seq::<char>::empty(), target) == 0);
    } else {
        assert(p[0] == s[0]);
        assert(p.subrange(1, p.len() as int) =~= s.subrange(1, s.len() as int).push(c));
        lemma_count_char_push(s.subrange(1, s.len() as int), c, target);
    }
}

/// `t` is wrapped in the quote character `q`.
pub open spec fn is_quoted_with(t: Seq<char>, q: char) -> bool {
    t.len() >= 2 && t[0] == q && t[t.len() - 1] == q
}

/// A live `${` substitution occurs somewhere in `s`.
pub open spec fn contains_interpolation(s: Seq<char>) -> bool {
    exists|i: int| matches_at(s, seq!['$', '{'], i)
}

/// The classification rule for a value's source text: after trimming,
/// string, template (without interpolation), boolean, numeric and
/// null/undefined literals are resolved to their literal content; all
/// other expressions are kept as unresolved text.
pub open spec fn classify_value_spec(s: Seq<char>) -> ValueModel {
    let t = trim_spec(s);
    if is_quoted_with(t, '"') || is_quoted_with(t, '\'') {
        ValueModel::Resolved(t.subrange(1, t.len() - 1))
    } else if is_quoted_with(t, '`') {
        if contains_interpolation(t.subrange(1, t.len() - 1)) {
            ValueModel::Unresolved(t)
        } else {
            ValueModel::Resolved(t.subrange(1, t.len() - 1))
        }
    } else if t == "true"@ || t == "false"@ {
        ValueModel::Resolved(t)
    } else if is_numeric_literal(t) {
        ValueModel::Resolved(t)
    } else if t == "null"@ || t == "undefined"@ {
        ValueModel::Resolved(t)
    } else {
        ValueModel::Unresolved(t)
    }
}

/// The key normalization rule: trim white space, then strip double
/// quotes, then single quotes.
pub open spec fn normalize_key_spec(s: Seq<char>) -> Seq<char> {
    strip_char_spec(strip_char_spec(trim_spec(s), '"'), '\'')
}

/// If no exponent marker occurs in `s[a..b)` and either `b` is the end or
/// `s[b]` is a marker, the first marker of `s[a..)` sits at `b - a`.
proof fn lemma_first_exp_marker(s: Seq<char>, a: int, b: int)
    requires
        0 <= a <= b <= s.len(),
        forall|k: int| a <= k < b ==> s[k] != 'e' && s[k] != 'E',
        b < s.len() ==> s[b] == 'e' || s[b] == 'E',
    ensures
        first_exp_marker(s.subrange(a, s.len() as int)) == b - a,
    decreases b - a,
{
    let t = s.subrange(a, s.len() as int);
    if a == b {
        if t.len() > 0 {
            assert(t[0] == s[a]);
        }
    } else {
        assert(t[0] == s[a]);
        assert(t.subrange(1, t.len() as int) =~= s.subrange(a + 1, s.len() as int));
        lemma_first_exp_marker(s, a + 1, b);
    }
}

/// The separator scan: the first `:` that sits outside string literals
/// and outside any nesting of braces, brackets or parentheses.  `sc` is
/// the quote character that opened the current string.
pub open spec fn find_sep_from(
    s: Seq<char>,
    i: int,
    in_string: bool,
    sc: char,
    depth: int,
) -> Option<int>
    decreases s.len() - i when 0 <= i <= s.len()
{
    if i >= s.len() {
        None
    } else {
        let c = s[i];
        if !in_string && (c == '"' || c == '\'') {
            find_sep_from(s, i + 1, true, c, depth)
        } else if in_string && c == sc {
            find_sep_from(s, i + 1, false, sc, depth)
        } else if !in_string && (c == '{' || c == '[' || c == '(') {
            find_sep_from(s, i + 1, in_string, sc, depth + 1)
        } else if !in_string && (c == '}' || c == ']' || c == ')') {
            find_sep_from(s, i + 1, in_string, sc, depth - 1)
        } else if !in_string && depth == 0 && c == ':' {
            Some(i)
        } else {
            find_sep_from(s, i + 1, in_string, sc, depth)
        }
    }
}

pub open spec fn find_sep_spec(s: Seq<char>) -> Option<int> {
    find_sep_from(s, 0, false, '\u{0}', 0)
}

/// A found separator lies inside the scanned range.
pub proof fn lemma_find_sep_in_range(s: Seq<char>, i: int, in_string: bool, sc: char, depth: int)
    requires
        0 <= i <= s.len(),
        find_sep_from(s, i, in_string, sc, depth) is Some,
    ensures
        i <= find_sep_from(s, i, in_string, sc, depth)->Some_0 < s.len(),
    decreases s.len() - i,
{
    if i < s.len() {
        let c = s[i];
        if !in_string && (c == '"' || c == '\'') {
            lemma_find_sep_in_range(s, i + 1, true, c, depth);
        } else if in_string && c == sc {
            lemma_find_sep_in_range(s, i + 1, false, sc, depth);
        } else if !in_string && (c == '{' || c == '[' || c == '(') {
            lemma_find_sep_in_range(s, i + 1, in_string, sc, depth + 1);
        } else if !in_string && (c == '}' || c == ']' || c == ')') {
            lemma_find_sep_in_range(s, i + 1, in_string, sc, depth - 1);
        } else if !in_string && depth == 0 && c == ':' {
        } else {
            lemma_find_sep_in_range(s, i + 1, in_string, sc, depth);
        }
    }
}

/// The splitting scan: pieces of `s` cut at commas that sit outside
/// string literals and outside braces, brackets and parentheses, each
/// piece trimmed, empty pieces dropped.
pub open spec fn split_props_from(
    s: Seq<char>,
    i: int,
    in_string: bool,
    sc: char,
    brace: int,
    bracket: int,
    paren: int,
    cur: Seq<char>,
    acc: Seq<Seq<char>>,
) -> Seq<Seq<char>>
    decreases s.len() - i when 0 <= i <= s.len()
{
    if i >= s.len() {
        if trim_spec(cur).len() > 0 {
            acc.push(trim_spec(cur))
        } else {
            acc
        }
    } else {
        let c = s[i];
        if !in_string && (c == '"' || c == '\'') {
            split_props_from(s, i + 1, true, c, brace, bracket, paren, cur.push(c), acc)
        } else if in_string && c == sc {
            split_props_from(s, i + 1, false, sc, brace, bracket, paren, cur.push(c), acc)
        } else if !in_string && c == '{' {
            split_props_from(s, i + 1, in_string, sc, brace + 1, bracket, paren, cur.push(c), acc)
        } else if !in_string && c == '}' {
            split_props_from(s, i + 1, in_string, sc, brace - 1, bracket, paren, cur.push(c), acc)
        } else if !in_string && c == '[' {
            split_props_from(s, i + 1, in_string, sc, brace, bracket + 1, paren, cur.push(c), acc)
        } else if !in_string && c == ']' {
            split_props_from(s, i + 1, in_string, sc, brace, bracket - 1, paren, cur.push(c), acc)
        } else if !in_string && c == '(' {
            split_props_from(s, i + 1, in_string, sc, brace, bracket, paren + 1, cur.push(c), acc)
        } else if !in_string && c == ')' {
            split_props_from(s, i + 1, in_string, sc, brace, bracket, paren - 1, cur.push(c), acc)
        } else if !in_string && c == ',' && brace == 0 && bracket == 0 && paren == 0 {
            if trim_spec(cur).len() > 0 {
                split_props_from(
                    s,
                    i + 1,
                    in_string,
                    sc,
                    0,
                    0,
                    0,
                    Seq::empty(),
                    acc.push(trim_spec(cur)),
                )
            } else {
                split_props_from(s, i + 1, in_string, sc, 0, 0, 0, Seq::empty(), acc)
            }
        } else {
            split_props_from(s, i + 1, in_string, sc, brace, bracket, paren, cur.push(c), acc)
        }
    }
}

pub open spec fn split_props_spec(s: Seq<char>) -> Seq<Seq<char>> {
    split_props_from(s, 0, false, '\u{0}', 0, 0, 0, Seq::empty(), Seq::empty())
}

/// The views of a sequence of strings.
pub open spec fn views_of_strings(v: Seq<String>) -> Seq<Seq<char>> {
    v.map_values(|s: String| s@)
}

/// The views of a sequence of parameters.
pub open spec fn views_of_params(v: Seq<Parameter>) -> Seq<ParameterModel> {
    v.map_values(|p: Parameter| p@)
}

/// The property text opens with a spread operator.
pub open spec fn starts_with_spread(t: Seq<char>) -> bool {
    t.len() >= 3 && t.subrange(0, 3) == seq!['.', '.', '.']
}

/// The parameter that one property text yields: none for a spread,
/// a key/value pair when a separator is found, and a shorthand
/// (name bound to itself, unresolved) otherwise.
pub open spec fn prop_to_param_spec(s: Seq<char>, position: int) -> Option<ParameterModel> {
    let t = trim_spec(s);
    if starts_with_spread(t) {
        None
    } else {
        match find_sep_spec(t) {
            Some(i) => Some(
                ParameterModel::Keyword {
                    name: normalize_key_spec(t.subrange(0, i)),
                    value: classify_value_spec(t.subrange(i + 1, t.len() as int)),
                    position,
                    type_annotation: None,
                },
            ),
            None => Some(
                ParameterModel::Keyword {
                    name: normalize_key_spec(t),
                    value: ValueModel::Unresolved(normalize_key_spec(t)),
                    position,
                    type_annotation: None,
                },
            ),
        }
    }
}

/// The parameters that a split property list yields, from index `k` on;
/// positions count all pieces, dropped spreads included.
pub open spec fn collect_params(pairs: Seq<Seq<char>>, k: int) -> Seq<ParameterModel>
    decreases pairs.len() - k when 0 <= k <= pairs.len()
{
    if k >= pairs.len() {
        Seq::empty()
    } else {
        match prop_to_param_spec(pairs[k], k) {
            Some(p) => seq![p] + collect_params(pairs, k + 1),
            None => collect_params(pairs, k + 1),
        }
    }
}

/// The parameters of a whole object literal: nothing for an empty
/// object, else the collected parameters of the brace-stripped content.
pub open spec fn object_params_spec(s: Seq<char>) -> Seq<ParameterModel> {
    let t = trim_spec(s);
    if t == "{}"@ || t.len() == 0 {
        Seq::empty()
    } else {
        let content = if t.len() >= 2 && t[0] == '{' && t[t.len() - 1] == '}' {
            t.subrange(1, t.len() - 1)
        } else {
            t
        };
        collect_params(split_props_spec(content), 0)
    }
}

/// The literal forms of a trimmed value text: quoted strings, template
/// strings without interpolation, booleans, numbers, null and
/// undefined.
pub open spec fn is_literal_form(t: Seq<char>) -> bool {
    ||| is_quoted_with(t, '"')
    ||| is_quoted_with(t, '\'')
    ||| (is_quoted_with(t, '`') && !contains_interpolation(t.subrange(1, t.len() - 1)))
    ||| t == "true"@
    ||| t == "false"@
    ||| is_numeric_literal(t)
    ||| t == "null"@
    ||| t == "undefined"@
}

proof fn lemma_fem_bounds(s: Seq<char>)
    ensures
        0 <= first_exp_marker(s) <= s.len(),
    decreases s.len(),
{
    if s.len() > 0 && !(s[0] == 'e' || s[0] == 'E') {
        lemma_fem_bounds(s.subrange(1, s.len() as int));
    }
}

/// A text that opens with a backtick is no other kind of literal.
proof fn lemma_backtick_not_other_literal(t: Seq<char>)
    requires
        t.len() >= 1,
        t[0] == '`',
    ensures
        !is_numeric_literal(t),
        t != "true"@,
        t != "false"@,
        t != "null"@,
        t != "undefined"@,
{
    reveal_strlit("true");
    reveal_strlit("false");
    reveal_strlit("null");
    reveal_strlit("undefined");
    reveal_strlit("inf");
    reveal_strlit("infinity");
    reveal_strlit("nan");
    assert(!is_numeric_literal(t)) by {
        assert(!is_sign_char(t[0]));
        let b = t;
        assert(lower_seq(b)[0] == ascii_lower_char('`'));
        assert(lower_seq(b) != "inf"@ && lower_seq(b) != "infinity"@ && lower_seq(b)
            != "nan"@);
        assert(!is_number_body(b)) by {
            lemma_fem_bounds(b);
            let i = first_exp_marker(b);
            if i == b.len() {
                assert(!is_mantissa(b)) by {
                    if is_mantissa(b) {
                        assert(is_digit_char(b[0]) || b[0] == '.');
                    }
                }
            } else {
                lemma_fem_bounds(b.subrange(1, b.len() as int));
                assert(i >= 1);
                assert(!is_mantissa(b.subrange(0, i))) by {
                    if is_mantissa(b.subrange(0, i)) {
                        assert(b.subrange(0, i)[0] == b[0]);
                        assert(is_digit_char(b[0]) || b[0] == '.');
                    }
                }
            }
        }
    }
}

/// Every literal-only value is classified `Resolved`, and its payload
/// is the literal content: the text between the quotes for string and
/// template literals, the trimmed text itself for the others.
pub proof fn lemma_classify_literal_resolved(s: Seq<char>)
    requires
        is_literal_form(trim_spec(s)),
    ensures
        classify_value_spec(s) is Resolved,
        ({
            let t = trim_spec(s);
            if is_quoted_with(t, '"') || is_quoted_with(t, '\'') || is_quoted_with(t, '`') {
                classify_value_spec(s) == ValueModel::Resolved(t.subrange(1, t.len() - 1))
            } else {
                classify_value_spec(s) == ValueModel::Resolved(t)
            }
        }),
{
    let t = trim_spec(s);
    if is_quoted_with(t, '"') || is_quoted_with(t, '\'') {
    } else if is_quoted_with(t, '`') {
        lemma_backtick_not_other_literal(t);
        assert(!contains_interpolation(t.subrange(1, t.len() - 1)));
    } else {
        assert(t == "true"@ || t == "false"@ || is_numeric_literal(t) || t == "null"@ || t
            == "undefined"@);
    }
}

/// Every other value — identifiers, member accesses, calls, spreads,
/// and template strings with live interpolation — is classified
/// `Unresolved`, and its payload is the trimmed original text.
pub proof fn lemma_classify_expression_unresolved(s: Seq<char>)
    requires
        !is_literal_form(trim_spec(s)),
    ensures
        classify_value_spec(s) == ValueModel::Unresolved(trim_spec(s)),
{
}

/// Extraction of parameters from source-level argument text.
pub struct ArgumentExtractor;

impl ArgumentExtractor {
    /// Classify a value as `Resolved` (a literal) or `Unresolved` (any
    /// other expression).
    pub fn classify_value(value_text: &str) -> (r: ParameterValue)
        ensures
            r@ == classify_value_spec(value_text@),
    {
        let chars = str_to_chars(value_text);
        let t = trim_chars(&chars);
        let n = t.len();
        if n >= 2 && ((t[0] == '"' && t[n - 1] == '"') || (t[0] == '\'' && t[n - 1] == '\'')) {
            let content = copy_range(&t, 1, n - 1);
            return ParameterValue::Resolved(chars_to_string(&content));
        }
        if n >= 2 && t[0] == '`' && t[n - 1] == '`' {
            let content = copy_range(&t, 1, n - 1);
            let mut pat: Vec<char> = Vec::new();
            pat.push('$');
            pat.push('{');
            proof {
                assert(pat@ =~= seq!['$', '{']);
            }
            match find_from(&content, &pat, 0) {
                Some(_) => {
                    return ParameterValue::Unresolved(chars_to_string(&t));
                },
                None => {
                    proof {
                        assert(!contains_interpolation(content@)) by {
                            if contains_interpolation(content@) {
                                let w = choose|i: int| matches_at(content@, seq!['$', '{'], i);
                                assert(!matches_at(content@, pat@, w));
                            }
                        }
                    }
                    return ParameterValue::Resolved(chars_to_string(&content));
                },
            }
        }
        let ts = chars_to_string(&t);
        if str_eq(ts.as_str(), "true") || str_eq(ts.as_str(), "false") {
            return ParameterValue::Resolved(ts);
        }
        if check_numeric(&t) {
            return ParameterValue::Resolved(ts);
        }
        if str_eq(ts.as_str(), "null") || str_eq(ts.as_str(), "undefined") {
            return ParameterValue::Resolved(ts);
        }
        ParameterValue::Unresolved(ts)
    }

    /// Normalize a property key: trim white space and remove surrounding
    /// quotes.
    pub fn normalize_property_key(key: &str) -> (r: String)
        ensures
            r@ == normalize_key_spec(key@),
    {
        let chars = str_to_chars(key);
        let t = trim_chars(&chars);
        let a = strip_char(&t, '"');
        let b = strip_char(&a, '\'');
        chars_to_string(&b)
    }

    /// Find the key/value separator of a property: the first `:` outside
    /// strings and nested structures.
    pub fn find_property_separator(text: &str) -> (r: Option<usize>)
        ensures
            match r {
                Some(i) => find_sep_spec(text@) == Some(i as int),
                None => find_sep_spec(text@) is None,
            },
    {
        let v = str_to_chars(text);
        let n = v.len();
        let mut i: usize = 0;
        let mut in_string = false;
        let mut sc: char = '\u{0}';
        let mut depth: i128 = 0;
        while i < n
            invariant
                i <= n,
                n == v@.len(),
                v@ == text@,
                -(i as int) <= depth as int <= i as int,
                find_sep_spec(text@) == find_sep_from(
                    v@,
                    i as int,
                    in_string,
                    sc,
                    depth as int,
                ),
            decreases n - i,
        {
            let c = v[i];
            if !in_string && (c == '"' || c == '\'') {
                in_string = true;
                sc = c;
            } else if in_string && c == sc {
                in_string = false;
            } else if !in_string && (c == '{' || c == '[' || c == '(') {
                depth += 1;
            } else if !in_string && (c == '}' || c == ']' || c == ')') {
                depth -= 1;
            } else if !in_string && depth == 0 && c == ':' {
                return Some(i);
            }
            i += 1;
        }
        None
    }

    /// Split object-literal content into property strings on top-level
    /// commas, ignoring commas inside strings, braces, brackets and
    /// parentheses; pieces are trimmed and empty pieces dropped.
    pub fn split_object_properties(content: &str) -> (r: Vec<String>)
        ensures
            views_of_strings(r@) == split_props_spec(content@),
    {
        let v = str_to_chars(content);
        let n = v.len();
        let mut i: usize = 0;
        let mut in_string = false;
        let mut sc: char = '\u{0}';
        let mut brace: i128 = 0;
        let mut bracket: i128 = 0;
        let mut paren: i128 = 0;
        let mut cur: Vec<char> = Vec::new();
        let mut acc: Vec<String> = Vec::new();
        proof {
            assert(views_of_strings(acc@) =~= Seq::<Seq<char>>::empty());
        }
        while i < n
            invariant
                i <= n,
                n == v@.len(),
                v@ == content@,
                -(i as int) <= brace as int <= i as int,
                -(i as int) <= bracket as int <= i as int,
                -(i as int) <= paren as int <= i as int,
                split_props_spec(content@) == split_props_from(
                    v@,
                    i as int,
                    in_string,
                    sc,
                    brace as int,
                    bracket as int,
                    paren as int,
                    cur@,
                    views_of_strings(acc@),
                ),
            decreases n - i,
        {
            let c = v[i];
            if !in_string && (c == '"' || c == '\'') {
                in_string = true;
                sc = c;
                cur.push(c);
            } else if in_string && c == sc {
                in_string = false;
                cur.push(c);
            } else if !in_string && c == '{' {
                brace += 1;
                cur.push(c);
            } else if !in_string && c == '}' {
                brace -= 1;
                cur.push(c);
            } else if !in_string && c == '[' {
                bracket += 1;
                cur.push(c);
            } else if !in_string && c == ']' {
                bracket -= 1;
                cur.push(c);
            } else if !in_string && c == '(' {
                paren += 1;
                cur.push(c);
            } else if !in_string && c == ')' {
                paren -= 1;
                cur.push(c);
            } else if !in_string && c == ',' && brace == 0 && bracket == 0 && paren == 0 {
                let piece = trim_chars(&cur);
                if piece.len() > 0 {
                    let ghost old_acc = acc@;
                    acc.push(chars_to_string(&piece));
                    proof {
                        assert(views_of_strings(acc@) =~= views_of_strings(old_acc).push(
                            trim_spec(cur@),
                        ));
                    }
                }
                cur = Vec::new();
            } else {
                cur.push(c);
            }
            i += 1;
        }
        let piece = trim_chars(&cur);
        if piece.len() > 0 {
            let ghost old_acc = acc@;
            acc.push(chars_to_string(&piece));
            proof {
                assert(views_of_strings(acc@) =~= views_of_strings(old_acc).push(
                    trim_spec(cur@),
                ));
            }
        }
        acc
    }

    /// Turn one property text into a parameter: spreads yield nothing,
    /// `key: value` yields a classified pair, anything else is a
    /// shorthand bound to its own unresolved name.
    pub fn parse_property_to_parameter(property: &str, position: usize) -> (r: Option<
        Parameter,
    >)
        ensures
            match r {
                Some(p) => prop_to_param_spec(property@, position as int) == Some(p@),
                None => prop_to_param_spec(property@, position as int) is None,
            },
    {
        let chars = str_to_chars(property);
        let t = trim_chars(&chars);
        if t.len() >= 3 && t[0] == '.' && t[1] == '.' && t[2] == '.' {
            proof {
                assert(t@.subrange(0, 3) =~= seq!['.', '.', '.']);
            }
            return None;
        }
        proof {
            if starts_with_spread(t@) {
                assert(t@[0] == t@.subrange(0, 3)[0]);
                assert(t@[1] == t@.subrange(0, 3)[1]);
                assert(t@[2] == t@.subrange(0, 3)[2]);
            }
        }
        let ts = chars_to_string(&t);
        match Self::find_property_separator(ts.as_str()) {
            Some(i) => {
                proof {
                    lemma_find_sep_in_range(t@, 0, false, '\u{0}', 0);
                }
                let key = copy_range(&t, 0, i);
                let val = copy_range(&t, i + 1, t.len());
                let keys = chars_to_string(&key);
                let vals = chars_to_string(&val);
                let name = Self::normalize_property_key(keys.as_str());
                let value = Self::classify_value(vals.as_str());
                Some(Parameter::Keyword { name, value, position, type_annotation: None })
            },
            None => {
                let name = Self::normalize_property_key(ts.as_str());
                let value = ParameterValue::Unresolved(name.clone());
                Some(Parameter::Keyword { name, value, position, type_annotation: None })
            },
        }
    }

    /// Parse object-literal text into parameters with resolved or
    /// unresolved values.
    pub fn parse_object_literal_with_resolution(obj_text: &str) -> (r: Vec<Parameter>)
        ensures
            views_of_params(r@) == object_params_spec(obj_text@),
    {
        let chars = str_to_chars(obj_text);
        let t = trim_chars(&chars);
        let ts = chars_to_string(&t);
        if str_eq(ts.as_str(), "{}") || t.len() == 0 {
            let r: Vec<Parameter> = Vec::new();
            proof {
                assert(views_of_params(r@) =~= Seq::<ParameterModel>::empty());
            }
            return r;
        }
        let n = t.len();
        let content: Vec<char> = if n >= 2 && t[0] == '{' && t[n - 1] == '}' {
            copy_range(&t, 1, n - 1)
        } else {
            copy_range(&t, 0, n)
        };
        proof {
            if !(n >= 2 && t@[0] == '{' && t@[n - 1] == '}') {
                assert(t@.subrange(0, n as int) =~= t@);
            }
        }
        let cs = chars_to_string(&content);
        let pairs = Self::split_object_properties(cs.as_str());
        let ghost pv = views_of_strings(pairs@);
        let mut out: Vec<Parameter> = Vec::new();
        let mut k: usize = 0;
        proof {
            assert(views_of_params(out@) + collect_params(pv, 0) =~= collect_params(pv, 0));
        }
        while k < pairs.len()
            invariant
                k <= pairs@.len(),
                pv == views_of_strings(pairs@),
                collect_params(pv, 0) == views_of_params(out@) + collect_params(pv, k as int),
            decreases pairs@.len() - k,
        {
            let ghost old_out = out@;
            proof {
                assert(pv[k as int] == pairs@[k as int]@);
            }
            match Self::parse_property_to_parameter(pairs[k].as_str(), k) {
                Some(p) => {
                    out.push(p);
                    proof {
                        assert(views_of_params(out@) =~= views_of_params(old_out).push(p@));
                        assert(views_of_params(old_out) + collect_params(pv, k as int)
                            =~= views_of_params(out@) + collect_params(pv, k + 1));
                    }
                },
                None => {
                },
            }
            k += 1;
        }
        proof {
            assert(collect_params(pv, pv.len() as int) =~= Seq::<ParameterModel>::empty());
            assert(views_of_params(out@) + collect_params(pv, k as int) =~= views_of_params(
                out@,
            ));
        }
        out
    }
}

} // verus!
