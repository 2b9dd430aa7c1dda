//! Rendering of policy documents as IAM policy JSON.
//!
//! The renderer is the crate's own and is deterministic: the same
//! document yields the same bytes.  The compact form writes no spaces;
//! the spaced form puts one space after each separator.

use vstd::prelude::*;
use crate::policy::{
    DocumentModel, Effect, PolicyDocument, PolicyStatement, StatementModel, views_of_statements,
};
use vstd::string::StringExecFns;
use crate::text::{chars_to_string, push_chars, str_to_chars};

verus! {

/// The escape of one character inside a JSON string.
pub open spec fn escape_char_spec(c: char) -> Seq<char> {
    if c == '"' {
        seq!['\\', '"']
    } else if c == '\\' {
        seq!['\\', '\\']
    } else if c == '\n' {
        seq!['\\', 'n']
    } else if c == '\r' {
        seq!['\\', 'r']
    } else if c == '\t' {
        seq!['\\', 't']
    } else {
        seq![c]
    }
}

/// The escape of a whole string body.
pub open spec fn escape_spec(s: Seq<char>) -> Seq<char>
    decreases s.len(),
{
    if s.len() == 0 {
        Seq::empty()
    } else {
        escape_char_spec(s[0]) + escape_spec(s.subrange(1, s.len() as int))
    }
}

/// A JSON string: the escaped body between double quotes.
pub open spec fn json_string_spec(s: Seq<char>) -> Seq<char> {
    seq!['"'] + escape_spec(s) + seq!['"']
}

/// The items of a JSON string array, with the separator between them.
pub open spec fn json_items_spec(xs: Seq<Seq<char>>, k: int, sep: Seq<char>) -> Seq<char>
    decreases xs.len() - k when 0 <= k <= xs.len()
{
    if k >= xs.len() {
        Seq::empty()
    } else if k == xs.len() - 1 {
        json_string_spec(xs[k])
    } else {
        json_string_spec(xs[k]) + sep + json_items_spec(xs, k + 1, sep)
    }
}

/// The separator after a name or an element: `:` or `,`, with a space
/// in the spaced form.
pub open spec fn colon_spec(spaced: bool) -> Seq<char> {
    if spaced {
        ": "@
    } else {
        ":"@
    }
}

pub open spec fn comma_spec(spaced: bool) -> Seq<char> {
    if spaced {
        ", "@
    } else {
        ","@
    }
}

/// The rendered id field, when the statement has one.
pub open spec fn sid_part_spec(s: StatementModel, spaced: bool) -> Seq<char> {
    match s.sid {
        Some(sid) => "\"Sid\""@ + colon_spec(spaced) + json_string_spec(sid) + comma_spec(
            spaced,
        ),
        None => Seq::empty(),
    }
}

/// The rendered effect field.
pub open spec fn effect_part_spec(s: StatementModel, spaced: bool) -> Seq<char> {
    "\"Effect\""@ + colon_spec(spaced) + (if s.effect is Allow {
        json_string_spec("Allow"@)
    } else {
        json_string_spec("Deny"@)
    })
}

/// The rendered action array.
pub open spec fn action_part_spec(s: StatementModel, spaced: bool) -> Seq<char> {
    comma_spec(spaced) + "\"Action\""@ + colon_spec(spaced) + seq!['['] + json_items_spec(
        s.action,
        0,
        comma_spec(spaced),
    ) + seq![']']
}

/// The rendered resource array.
pub open spec fn resource_part_spec(s: StatementModel, spaced: bool) -> Seq<char> {
    comma_spec(spaced) + "\"Resource\""@ + colon_spec(spaced) + seq!['['] + json_items_spec(
        s.resource,
        0,
        comma_spec(spaced),
    ) + seq![']']
}

/// The rendered condition field, when the statement has one.
pub open spec fn condition_part_spec(s: StatementModel, spaced: bool) -> Seq<char> {
    match s.condition {
        Some(c) => comma_spec(spaced) + "\"Condition\""@ + colon_spec(spaced)
            + json_string_spec(c),
        None => Seq::empty(),
    }
}

/// One rendered statement: its id when it has one, the effect, the
/// actions, the resources, and the condition when it has one.
pub open spec fn statement_json_spec(s: StatementModel, spaced: bool) -> Seq<char> {
    seq!['{'] + sid_part_spec(s, spaced) + effect_part_spec(s, spaced) + action_part_spec(
        s,
        spaced,
    ) + resource_part_spec(s, spaced) + condition_part_spec(s, spaced) + seq!['}']
}

/// The rendered statements, with the separator between them.
pub open spec fn statements_json_spec(
    xs: Seq<StatementModel>,
    k: int,
    spaced: bool,
) -> Seq<char>
    decreases xs.len() - k when 0 <= k <= xs.len()
{
    if k >= xs.len() {
        Seq::empty()
    } else if k == xs.len() - 1 {
        statement_json_spec(xs[k], spaced)
    } else {
        statement_json_spec(xs[k], spaced) + comma_spec(spaced) + statements_json_spec(
            xs,
            k + 1,
            spaced,
        )
    }
}

/// One rendered document: the version and the statement array.
pub open spec fn document_json_spec(d: DocumentModel, spaced: bool) -> Seq<char> {
    seq!['{'] + "\"Version\""@ + colon_spec(spaced) + json_string_spec(d.version) + comma_spec(
        spaced,
    ) + "\"Statement\""@ + colon_spec(spaced) + seq!['['] + statements_json_spec(
        d.statements,
        0,
        spaced,
    ) + seq![']'] + seq!['}']
}

/// Escapes a string body.
fn escape_chars(v: &Vec<char>) -> (r: Vec<char>)
    ensures
        r@ == escape_spec(v@),
{
    let mut out: Vec<char> = Vec::new();
    let mut i: usize = 0;
    proof {
        assert(v@.subrange(0, v@.len() as int) =~= v@);
        assert(out@ + escape_spec(v@) =~= escape_spec(v@));
    }
    while i < v.len()
        invariant
            i <= v@.len(),
            escape_spec(v@) == out@ + escape_spec(v@.subrange(i as int, v@.len() as int)),
        decreases v@.len() - i,
    {
        proof {
            let tail = v@.subrange(i as int, v@.len() as int);
            assert(tail[0] == v@[i as int]);
            assert(tail.subrange(1, tail.len() as int) =~= v@.subrange(i + 1, v@.len() as int));
        }
        let ghost out0 = out@;
        let c = v[i];
        if c == '"' {
            out.push('\\');
            out.push('"');
        } else if c == '\\' {
            out.push('\\');
            out.push('\\');
        } else if c == '\n' {
            out.push('\\');
            out.push('n');
        } else if c == '\r' {
            out.push('\\');
            out.push('r');
        } else if c == '\t' {
            out.push('\\');
            out.push('t');
        } else {
            out.push(c);
        }
        proof {
            assert(out@ =~= out0 + escape_char_spec(v@[i as int]));
            assert(out0 + (escape_char_spec(v@[i as int]) + escape_spec(
                v@.subrange(i + 1, v@.len() as int),
            )) =~= out@ + escape_spec(v@.subrange(i + 1, v@.len() as int)));
        }
        i += 1;
    }
    proof {
        assert(escape_spec(v@.subrange(v@.len() as int, v@.len() as int)) =~= Seq::<
            char,
        >::empty());
        assert(out@ + Seq::<char>::empty() =~= out@);
    }
    out
}

/// Renders one JSON string.
fn render_json_string(s: &String, out: &mut Vec<char>)
    ensures
        final(out)@ == old(out)@ + json_string_spec(s@),
{
    out.push('"');
    let v = str_to_chars(s.as_str());
    let body = escape_chars(&v);
    push_chars(out, &body);
    out.push('"');
    proof {
        assert(final(out)@ =~= old(out)@ + json_string_spec(s@));
    }
}

/// Renders a string array's items.
fn render_items(xs: &Vec<String>, spaced: bool, out: &mut Vec<char>)
    ensures
        final(out)@ == old(out)@ + json_items_spec(
            crate::arguments::views_of_strings(xs@),
            0,
            comma_spec(spaced),
        ),
{
    let ghost xv = crate::arguments::views_of_strings(xs@);
    let ghost sep = comma_spec(spaced);
    let mut k: usize = 0;
    proof {
        if xv.len() == 0 {
            assert(old(out)@ + json_items_spec(xv, 0, sep) =~= out@);
        }
    }
    while k < xs.len()
        invariant
            k <= xs@.len(),
            xv == crate::arguments::views_of_strings(xs@),
            sep == comma_spec(spaced),
            old(out)@ + json_items_spec(xv, 0, sep) == out@ + json_items_spec(
                xv,
                k as int,
                sep,
            ),
        decreases xs@.len() - k,
    {
        proof {
            assert(xv[k as int] == xs@[k as int]@);
        }
        let ghost out0 = out@;
        render_json_string(&xs[k], out);
        if k + 1 < xs.len() {
            if spaced {
                out.push(',');
                out.push(' ');
            } else {
                out.push(',');
            }
            proof {
                reveal_strlit(",");
                reveal_strlit(", ");
                assert(out@ =~= out0 + json_string_spec(xv[k as int]) + sep);
                assert(out0 + (json_string_spec(xv[k as int]) + sep + json_items_spec(
                    xv,
                    k + 1,
                    sep,
                )) =~= out@ + json_items_spec(xv, k + 1, sep));
            }
        } else {
            proof {
                assert(json_items_spec(xv, k as int, sep) == json_string_spec(xv[k as int]));
                assert(out0 + json_items_spec(xv, k as int, sep) =~= out@ + json_items_spec(
                    xv,
                    k + 1,
                    sep,
                ));
            }
        }
        k += 1;
    }
    proof {
        assert(out@ + json_items_spec(xv, xv.len() as int, sep) =~= out@);
    }
}

/// Renders one statement.
#[verifier::rlimit(100)]
fn render_statement(s: &PolicyStatement, spaced: bool, out: &mut Vec<char>)
    ensures
        final(out)@ == old(out)@ + statement_json_spec(s@, spaced),
{
    out.push('{');
    render_sid_part(s, spaced, out);
    render_effect_part(s, spaced, out);
    render_action_part(s, spaced, out);
    render_resource_part(s, spaced, out);
    render_condition_part(s, spaced, out);
    out.push('}');
    proof {
        assert(final(out)@ =~= old(out)@ + statement_json_spec(s@, spaced));
    }
}

/// Renders the separator text after a name.
fn render_colon(spaced: bool, out: &mut Vec<char>)
    ensures
        final(out)@ == old(out)@ + colon_spec(spaced),
{
    proof {
        reveal_strlit(":");
        reveal_strlit(": ");
    }
    if spaced {
        out.push(':');
        out.push(' ');
    } else {
        out.push(':');
    }
    proof {
        assert(final(out)@ =~= old(out)@ + colon_spec(spaced));
    }
}

/// Renders the separator text between elements.
fn render_comma(spaced: bool, out: &mut Vec<char>)
    ensures
        final(out)@ == old(out)@ + comma_spec(spaced),
{
    proof {
        reveal_strlit(",");
        reveal_strlit(", ");
    }
    if spaced {
        out.push(',');
        out.push(' ');
    } else {
        out.push(',');
    }
    proof {
        assert(final(out)@ =~= old(out)@ + comma_spec(spaced));
    }
}

fn render_sid_part(s: &PolicyStatement, spaced: bool, out: &mut Vec<char>)
    ensures
        final(out)@ == old(out)@ + sid_part_spec(s@, spaced),
{
    match &s.sid {
        Some(sid) => {
            let lbl = str_to_chars("\"Sid\"");
            push_chars(out, &lbl);
            render_colon(spaced, out);
            render_json_string(sid, out);
            render_comma(spaced, out);
            proof {
                assert(final(out)@ =~= old(out)@ + sid_part_spec(s@, spaced));
            }
        },
        None => {
            proof {
                assert(final(out)@ =~= old(out)@ + sid_part_spec(s@, spaced));
            }
        },
    }
}

fn render_effect_part(s: &PolicyStatement, spaced: bool, out: &mut Vec<char>)
    ensures
        final(out)@ == old(out)@ + effect_part_spec(s@, spaced),
{
    let lbl = str_to_chars("\"Effect\"");
    push_chars(out, &lbl);
    render_colon(spaced, out);
    let effect_text: String = match s.effect {
        Effect::Allow => String::from_str("Allow"),
        Effect::Deny => String::from_str("Deny"),
    };
    render_json_string(&effect_text, out);
    proof {
        assert(final(out)@ =~= old(out)@ + effect_part_spec(s@, spaced));
    }
}

fn render_action_part(s: &PolicyStatement, spaced: bool, out: &mut Vec<char>)
    ensures
        final(out)@ == old(out)@ + action_part_spec(s@, spaced),
{
    render_comma(spaced, out);
    let lbl = str_to_chars("\"Action\"");
    push_chars(out, &lbl);
    render_colon(spaced, out);
    out.push('[');
    render_items(&s.action, spaced, out);
    out.push(']');
    proof {
        assert(final(out)@ =~= old(out)@ + action_part_spec(s@, spaced));
    }
}

fn render_resource_part(s: &PolicyStatement, spaced: bool, out: &mut Vec<char>)
    ensures
        final(out)@ == old(out)@ + resource_part_spec(s@, spaced),
{
    render_comma(spaced, out);
    let lbl = str_to_chars("\"Resource\"");
    push_chars(out, &lbl);
    render_colon(spaced, out);
    out.push('[');
    render_items(&s.resource, spaced, out);
    out.push(']');
    proof {
        assert(final(out)@ =~= old(out)@ + resource_part_spec(s@, spaced));
    }
}

fn render_condition_part(s: &PolicyStatement, spaced: bool, out: &mut Vec<char>)
    ensures
        final(out)@ == old(out)@ + condition_part_spec(s@, spaced),
{
    match &s.condition {
        Some(c) => {
            render_comma(spaced, out);
            let lbl = str_to_chars("\"Condition\"");
            push_chars(out, &lbl);
            render_colon(spaced, out);
            render_json_string(c, out);
            proof {
                assert(final(out)@ =~= old(out)@ + condition_part_spec(s@, spaced));
            }
        },
        None => {
            proof {
                assert(final(out)@ =~= old(out)@ + condition_part_spec(s@, spaced));
            }
        },
    }
}

impl PolicyDocument {
    /// Renders the document as IAM policy JSON; `spaced` puts one
    /// space after each separator.  The rendering is a function of the
    /// document alone, so rendering twice yields identical bytes.
    #[verifier::rlimit(80)]
    pub fn to_json(&self, spaced: bool) -> (r: String)
        ensures
            r@ == document_json_spec(self@, spaced),
    {
        let sepc: &str = if spaced {
            ", "
        } else {
            ","
        };
        let colonc: &str = if spaced {
            ": "
        } else {
            ":"
        };
        proof {
            reveal_strlit(",");
            reveal_strlit(", ");
            reveal_strlit(":");
            reveal_strlit(": ");
        }
        let mut out: Vec<char> = Vec::new();
        out.push('{');
        let lbl = str_to_chars("\"Version\"");
        push_chars(&mut out, &lbl);
        let cl = str_to_chars(colonc);
        push_chars(&mut out, &cl);
        render_json_string(&self.version, &mut out);
        let sp = str_to_chars(sepc);
        push_chars(&mut out, &sp);
        let lbl2 = str_to_chars("\"Statement\"");
        push_chars(&mut out, &lbl2);
        let cl2 = str_to_chars(colonc);
        push_chars(&mut out, &cl2);
        out.push('[');
        let ghost sv = views_of_statements(self.statements@);
        let ghost before = out@;
        let mut k: usize = 0;
        proof {
            if sv.len() == 0 {
                assert(before + statements_json_spec(sv, 0, spaced) =~= out@);
            }
        }
        while k < self.statements.len()
            invariant
                k <= self.statements@.len(),
                sv == views_of_statements(self.statements@),
                before + statements_json_spec(sv, 0, spaced) == out@ + statements_json_spec(
                    sv,
                    k as int,
                    spaced,
                ),
            decreases self.statements@.len() - k,
        {
            proof {
                assert(sv[k as int] == self.statements@[k as int]@);
            }
            let ghost out0 = out@;
            render_statement(&self.statements[k], spaced, &mut out);
            if k + 1 < self.statements.len() {
                if spaced {
                    out.push(',');
                    out.push(' ');
                } else {
                    out.push(',');
                }
                proof {
                    reveal_strlit(",");
                    reveal_strlit(", ");
                    assert(out@ =~= out0 + statement_json_spec(sv[k as int], spaced)
                        + comma_spec(spaced));
                    assert(out0 + (statement_json_spec(sv[k as int], spaced) + comma_spec(
                        spaced,
                    ) + statements_json_spec(sv, k + 1, spaced)) =~= out@
                        + statements_json_spec(sv, k + 1, spaced));
                }
            } else {
                proof {
                    assert(statements_json_spec(sv, k as int, spaced) == statement_json_spec(
                        sv[k as int],
                        spaced,
                    ));
                    assert(out0 + statements_json_spec(sv, k as int, spaced) =~= out@
                        + statements_json_spec(sv, k + 1, spaced));
                }
            }
            k += 1;
        }
        proof {
            assert(out@ + statements_json_spec(sv, sv.len() as int, spaced) =~= out@);
        }
        out.push(']');
        out.push('}');
        proof {
            assert(out@ =~= document_json_spec(self@, spaced));
        }
        chars_to_string(&out)
    }
}

} // verus!
