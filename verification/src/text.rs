//! Character and string utilities shared by the parsing and
//! policy-construction modules.
//!
//! Strings are processed as vectors of characters so that every scan can
//! be specified over `Seq<char>` views.

use vstd::prelude::*;
use vstd::string::StrSliceExecFns;
use vstd::string::StringExecFns;

verus! {

/// Relies on `String::push` of std: appends the character to the end of
/// the string.
pub assume_specification[ String::push ](s: &mut String, ch: char)
    ensures
        final(s)@ == old(s)@.push(ch),
;

/// The characters that `str::trim` removes: the Unicode `White_Space` set.
pub open spec fn is_space_char(c: char) -> bool {
    let u = c as u32;
    (9 <= u && u <= 13) || u == 32 || u == 0x85 || u == 0xA0 || u == 0x1680
        || (0x2000 <= u && u <= 0x200A) || u == 0x2028 || u == 0x2029 || u == 0x202F
        || u == 0x205F || u == 0x3000
}

pub fn is_space(c: char) -> (r: bool)
    ensures
        r == is_space_char(c),
{
    let u = c as u32;
    (9 <= u && u <= 13) || u == 32 || u == 0x85 || u == 0xA0 || u == 0x1680
        || (0x2000 <= u && u <= 0x200A) || u == 0x2028 || u == 0x2029 || u == 0x202F
        || u == 0x205F || u == 0x3000
}

pub fn str_to_chars(s: &str) -> (r: Vec<char>)
    ensures
        r@ == s@,
{
    let n = s.unicode_len();
    let mut r: Vec<char> = Vec::new();
    let mut i: usize = 0;
    while i < n
        invariant
            i <= n,
            n == s@.len(),
            r@ == s@.subrange(0, i as int),
        decreases n - i,
    {
        let c = s.get_char(i);
        r.push(c);
        proof {
            assert(s@.subrange(0, i + 1) =~= s@.subrange(0, i as int).push(s@[i as int]));
        }
        i += 1;
    }
    proof {
        assert(s@.subrange(0, n as int) =~= s@);
    }
    r
}

pub fn chars_to_string(v: &Vec<char>) -> (r: String)
    ensures
        r@ == v@,
{
    let mut r = String::new();
    let mut i: usize = 0;
    while i < v.len()
        invariant
            i <= v.len(),
            r@ == v@.subrange(0, i as int),
        decreases v.len() - i,
    {
        r.push(v[i]);
        proof {
            assert(v@.subrange(0, i + 1) =~= v@.subrange(0, i as int).push(v@[i as int]));
        }
        i += 1;
    }
    proof {
        assert(v@.subrange(0, v@.len() as int) =~= v@);
    }
    r
}

pub fn str_eq(a: &str, b: &str) -> (r: bool)
    ensures
        r == (a@ == b@),
{
    let sa = a.to_owned();
    let sb = b.to_owned();
    sa == sb
}

/// The pattern sits in `h` at position `i`.
pub open spec fn matches_at(h: Seq<char>, pat: Seq<char>, i: int) -> bool {
    0 <= i && i + pat.len() <= h.len() && h.subrange(i, i + pat.len()) == pat
}

/// First position at or after `from` where `pat` occurs in `h`.
pub fn find_from(h: &Vec<char>, pat: &Vec<char>, from: usize) -> (r: Option<usize>)
    requires
        from <= h@.len(),
    ensures
        match r {
            Some(i) => from <= i && matches_at(h@, pat@, i as int) && forall|j: int|
                from <= j < i ==> !matches_at(h@, pat@, j),
            None => forall|j: int| from <= j ==> !matches_at(h@, pat@, j),
        },
{
    if pat.len() > h.len() {
        return None;
    }
    if pat.len() == 0 {
        proof {
            assert(h@.subrange(from as int, from as int) =~= pat@);
        }
        return Some(from);
    }
    let limit: usize = h.len() - pat.len();
    let mut i: usize = from;
    while i <= limit
        invariant
            from <= i,
            h@.len() <= usize::MAX,
            1 <= pat@.len() <= h@.len(),
            limit == h@.len() - pat@.len(),
            i <= h@.len(),
            forall|j: int| from <= j < i ==> !matches_at(h@, pat@, j),
        decreases limit + 1 - i,
    {
        let mut k: usize = 0;
        while k < pat.len() && h[i + k] == pat[k]
            invariant
                h@.len() <= usize::MAX,
                i + pat@.len() <= h@.len(),
                pat@.len() >= 1,
                k <= pat@.len(),
                forall|m: int| 0 <= m < k ==> h@[i + m] == pat@[m],
            decreases pat@.len() - k,
        {
            k = k + 1;
        }
        if k == pat.len() {
            proof {
                assert(h@.subrange(i as int, i + pat@.len()) =~= pat@);
            }
            return Some(i);
        }
        proof {
            if matches_at(h@, pat@, i as int) {
                assert(h@.subrange(i as int, i + pat@.len())[k as int] == pat@[k as int]);
                assert(false);
            }
        }
        i = i + 1;
    }
    proof {
        assert(forall|j: int|
            from <= j && j + pat@.len() > h@.len() ==> !matches_at(h@, pat@, j));
    }
    None
}

/// Number of leading characters of `s` that are white space.
pub open spec fn leading_spaces(s: Seq<char>) -> int
    decreases s.len(),
{
    if s.len() > 0 && is_space_char(s[0]) {
        1 + leading_spaces(s.subrange(1, s.len() as int))
    } else {
        0
    }
}

/// Number of trailing characters of `s` that are white space.
pub open spec fn trailing_spaces(s: Seq<char>) -> int
    decreases s.len(),
{
    if s.len() > 0 && is_space_char(s[s.len() - 1]) {
        1 + trailing_spaces(s.subrange(0, s.len() - 1))
    } else {
        0
    }
}

/// What `str::trim` leaves: `s` without leading and trailing white space.
pub open spec fn trim_spec(s: Seq<char>) -> Seq<char> {
    let a = leading_spaces(s);
    if a == s.len() {
        Seq::empty()
    } else {
        s.subrange(a, s.len() - trailing_spaces(s))
    }
}

/// Removes leading and trailing white space, as `str::trim` does.
pub fn trim_chars(v: &Vec<char>) -> (r: Vec<char>)
    ensures
        r@ == trim_spec(v@),
{
    proof {
        assert(v@.subrange(0, v@.len() as int) =~= v@);
    }
    let mut a: usize = 0;
    while a < v.len() && is_space(v[a])
        invariant
            a <= v@.len(),
            leading_spaces(v@) == a + leading_spaces(v@.subrange(a as int, v@.len() as int)),
            forall|k: int| 0 <= k < a ==> is_space_char(v@[k]),
        decreases v@.len() - a,
    {
        proof {
            let tail = v@.subrange(a as int, v@.len() as int);
            assert(tail[0] == v@[a as int]);
            assert(tail.subrange(1, tail.len() as int) =~= v@.subrange(
                a + 1,
                v@.len() as int,
            ));
        }
        a += 1;
    }
    proof {
        let tail = v@.subrange(a as int, v@.len() as int);
        if a < v@.len() {
            assert(tail[0] == v@[a as int]);
            assert(leading_spaces(tail) == 0);
        }
        assert(leading_spaces(v@) == a as int);
    }
    if a == v.len() {
        proof {
            assert(trim_spec(v@) =~= Seq::<char>::empty());
        }
        return Vec::new();
    }
    let mut b: usize = v.len();
    proof {
        assert(v@.subrange(0, v@.len() as int) =~= v@);
    }
    while b > a && is_space(v[b - 1])
        invariant
            a <= b <= v@.len(),
            a as int == leading_spaces(v@),
            a < v@.len(),
            !is_space_char(v@[a as int]),
            trailing_spaces(v@) == v@.len() - b + trailing_spaces(v@.subrange(0, b as int)),
            forall|k: int| b <= k < v@.len() ==> is_space_char(v@[k]),
        decreases b,
    {
        proof {
            let head = v@.subrange(0, b as int);
            assert(head[b - 1] == v@[b - 1]);
            assert(head.subrange(0, head.len() - 1) =~= v@.subrange(0, b - 1));
        }
        b -= 1;
    }
    proof {
        let head = v@.subrange(0, b as int);
        if b > a {
            assert(head[b - 1] == v@[b - 1]);
            assert(trailing_spaces(head) == 0);
        } else {
            assert(b == a);
            assert(head[b - 1] == v@[a as int]);
            assert(trailing_spaces(head) == 0);
        }
        assert(trailing_spaces(v@) == v@.len() - b);
    }
    let mut r: Vec<char> = Vec::new();
    let mut i: usize = a;
    while i < b
        invariant
            a <= i <= b <= v@.len(),
            r@ == v@.subrange(a as int, i as int),
        decreases b - i,
    {
        r.push(v[i]);
        proof {
            assert(v@.subrange(a as int, i + 1) =~= v@.subrange(a as int, i as int).push(
                v@[i as int],
            ));
        }
        i += 1;
    }
    proof {
        assert(r@ =~= trim_spec(v@));
    }
    r
}

/// Appends all characters of `src` to `dst`.
pub fn push_chars(dst: &mut Vec<char>, src: &Vec<char>)
    ensures
        final(dst)@ == old(dst)@ + src@,
{
    let mut i: usize = 0;
    while i < src.len()
        invariant
            i <= src@.len(),
            dst@ == old(dst)@ + src@.subrange(0, i as int),
        decreases src@.len() - i,
    {
        dst.push(src[i]);
        proof {
            assert(old(dst)@ + src@.subrange(0, i + 1) =~= (old(dst)@ + src@.subrange(
                0,
                i as int,
            )).push(src@[i as int]));
        }
        i += 1;
    }
    proof {
        assert(old(dst)@ + src@.subrange(0, src@.len() as int) =~= old(dst)@ + src@);
    }
}

/// Copy of the character range `[a, b)` of `v`.
pub fn copy_range(v: &Vec<char>, a: usize, b: usize) -> (r: Vec<char>)
    requires
        a <= b <= v@.len(),
    ensures
        r@ == v@.subrange(a as int, b as int),
{
    let mut r: Vec<char> = Vec::new();
    let mut i: usize = a;
    while i < b
        invariant
            a <= i <= b <= v@.len(),
            r@ == v@.subrange(a as int, i as int),
        decreases b - i,
    {
        r.push(v[i]);
        proof {
            assert(v@.subrange(a as int, i + 1) =~= v@.subrange(a as int, i as int).push(
                v@[i as int],
            ));
        }
        i += 1;
    }
    r
}

/// Number of leading occurrences of `q` in `s`.
pub open spec fn leading_matches(s: Seq<char>, q: char) -> int
    decreases s.len(),
{
    if s.len() > 0 && s[0] == q {
        1 + leading_matches(s.subrange(1, s.len() as int), q)
    } else {
        0
    }
}

/// Number of trailing occurrences of `q` in `s`.
pub open spec fn trailing_matches(s: Seq<char>, q: char) -> int
    decreases s.len(),
{
    if s.len() > 0 && s[s.len() - 1] == q {
        1 + trailing_matches(s.subrange(0, s.len() - 1), q)
    } else {
        0
    }
}

/// What `str::trim_matches` leaves: `s` without leading and trailing
/// occurrences of `q`.
pub open spec fn strip_char_spec(s: Seq<char>, q: char) -> Seq<char> {
    let a = leading_matches(s, q);
    if a == s.len() {
        Seq::empty()
    } else {
        s.subrange(a, s.len() - trailing_matches(s, q))
    }
}

/// Removes leading and trailing occurrences of `q`, as
/// `str::trim_matches(q)` does.
pub fn strip_char(v: &Vec<char>, q: char) -> (r: Vec<char>)
    ensures
        r@ == strip_char_spec(v@, q),
{
    proof {
        assert(v@.subrange(0, v@.len() as int) =~= v@);
    }
    let mut a: usize = 0;
    while a < v.len() && v[a] == q
        invariant
            a <= v@.len(),
            leading_matches(v@, q) == a + leading_matches(
                v@.subrange(a as int, v@.len() as int),
                q,
            ),
            forall|k: int| 0 <= k < a ==> v@[k] == q,
        decreases v@.len() - a,
    {
        proof {
            let tail = v@.subrange(a as int, v@.len() as int);
            assert(tail[0] == v@[a as int]);
            assert(tail.subrange(1, tail.len() as int) =~= v@.subrange(
                a + 1,
                v@.len() as int,
            ));
        }
        a += 1;
    }
    proof {
        let tail = v@.subrange(a as int, v@.len() as int);
        if a < v@.len() {
            assert(tail[0] == v@[a as int]);
            assert(leading_matches(tail, q) == 0);
        }
        assert(leading_matches(v@, q) == a as int);
    }
    if a == v.len() {
        proof {
            assert(strip_char_spec(v@, q) =~= Seq::<char>::empty());
        }
        return Vec::new();
    }
    let mut b: usize = v.len();
    proof {
        assert(v@.subrange(0, v@.len() as int) =~= v@);
    }
    while b > a && v[b - 1] == q
        invariant
            a <= b <= v@.len(),
            a as int == leading_matches(v@, q),
            a < v@.len(),
            v@[a as int] != q,
            trailing_matches(v@, q) == v@.len() - b + trailing_matches(v@.subrange(0, b as int), q),
            forall|k: int| b <= k < v@.len() ==> v@[k] == q,
        decreases b,
    {
        proof {
            let head = v@.subrange(0, b as int);
            assert(head[b - 1] == v@[b - 1]);
            assert(head.subrange(0, head.len() - 1) =~= v@.subrange(0, b - 1));
        }
        b -= 1;
    }
    proof {
        let head = v@.subrange(0, b as int);
        if b > a {
            assert(head[b - 1] == v@[b - 1]);
            assert(trailing_matches(head, q) == 0);
        } else {
            assert(b == a);
            assert(head[b - 1] == v@[a as int]);
            assert(trailing_matches(head, q) == 0);
        }
        assert(trailing_matches(v@, q) == v@.len() - b);
    }
    let r = copy_range(v, a, b);
    proof {
        assert(r@ =~= strip_char_spec(v@, q));
    }
    r
}

/// The decimal digit character for `d`, which is below ten.
pub open spec fn digit_char(d: int) -> char {
    if d == 0 {
        '0'
    } else if d == 1 {
        '1'
    } else if d == 2 {
        '2'
    } else if d == 3 {
        '3'
    } else if d == 4 {
        '4'
    } else if d == 5 {
        '5'
    } else if d == 6 {
        '6'
    } else if d == 7 {
        '7'
    } else if d == 8 {
        '8'
    } else {
        '9'
    }
}

/// Decimal rendering of a natural number, most significant digit first.
pub open spec fn dec_str(n: nat) -> Seq<char>
    decreases n,
{
    if n < 10 {
        seq![digit_char(n as int)]
    } else {
        dec_str(n / 10).push(digit_char((n % 10) as int))
    }
}

pub fn u64_to_dec(n: u64) -> (r: Vec<char>)
    ensures
        r@ == dec_str(n as nat),
    decreases n,
{
    if n < 10 {
        let c: char = match n {
            0 => '0',
            1 => '1',
            2 => '2',
            3 => '3',
            4 => '4',
            5 => '5',
            6 => '6',
            7 => '7',
            8 => '8',
            _ => '9',
        };
        let mut r: Vec<char> = Vec::new();
        r.push(c);
        proof {
            assert(r@ =~= dec_str(n as nat));
        }
        r
    } else {
        let mut r = u64_to_dec(n / 10);
        let d = n % 10;
        let c: char = match d {
            0 => '0',
            1 => '1',
            2 => '2',
            3 => '3',
            4 => '4',
            5 => '5',
            6 => '6',
            7 => '7',
            8 => '8',
            _ => '9',
        };
        r.push(c);
        r
    }
}

} // verus!
