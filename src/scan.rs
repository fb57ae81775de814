//! Reading JSON tokens: whitespace, punctuation, strings and integers.
//!
//! Each spec function takes the remaining input and gives back what it read
//! together with the input left after it, or `None` when the input does not
//! start with such a token. Each executable function reads from a position of
//! a character vector and agrees with its spec function on the suffix there.
use vstd::prelude::*;
use crate::text::push_char;

verus! {

pub open spec fn is_ws(c: char) -> bool {
    c == ' ' || c == '\t' || c == '\n' || c == '\r'
}

/// `s` without its leading whitespace.
pub open spec fn ws(s: Seq<char>) -> Seq<char>
    decreases s.len(),
{
    if s.len() > 0 && is_ws(s[0]) {
        ws(s.drop_first())
    } else {
        s
    }
}

/// Whitespace, then the character `c`.
pub open spec fn punct(s: Seq<char>, c: char) -> Option<Seq<char>> {
    let t = ws(s);
    if t.len() > 0 && t[0] == c {
        Some(t.drop_first())
    } else {
        None
    }
}

pub open spec fn hex_val(c: char) -> Option<nat> {
    let v = c as u32;
    if 48 <= v < 58 {
        Some((v - 48) as nat)
    } else if 97 <= v < 103 {
        Some((v - 87) as nat)
    } else if 65 <= v < 71 {
        Some((v - 55) as nat)
    } else {
        None
    }
}

/// Four hexadecimal digits at the start of `s`.
pub open spec fn hex4(s: Seq<char>) -> Option<nat> {
    if s.len() >= 4 && hex_val(s[0]) is Some && hex_val(s[1]) is Some && hex_val(s[2]) is Some
        && hex_val(s[3]) is Some {
        Some(
            ((hex_val(s[0])->0 * 16 + hex_val(s[1])->0) * 16 + hex_val(s[2])->0) * 16 + hex_val(
                s[3],
            )->0,
        )
    } else {
        None
    }
}

/// A `\u` escape's digits (`s` starts after the `u`): the character and the
/// number of characters read. A surrogate pair is read as one character; a
/// lone surrogate is refused.
pub open spec fn unicode_escape(s: Seq<char>) -> Option<(char, int)> {
    match hex4(s) {
        None => None,
        Some(h) => if 0xD800 <= h < 0xDC00 {
            if s.len() >= 6 && s[4] == '\\' && s[5] == 'u' {
                match hex4(s.skip(6)) {
                    Some(l) => if 0xDC00 <= l < 0xE000 {
                        Some(((0x10000 + (h - 0xD800) * 0x400 + (l - 0xDC00)) as u32 as char, 10))
                    } else {
                        None
                    },
                    None => None,
                }
            } else {
                None
            }
        } else if 0xDC00 <= h < 0xE000 {
            None
        } else {
            Some((h as u32 as char, 4))
        },
    }
}

/// An escape sequence at the start of `s` (which starts with the backslash):
/// the character it stands for and its length.
#[verifier::opaque]
pub open spec fn escape(s: Seq<char>) -> Option<(char, int)> {
    if s.len() < 2 {
        None
    } else {
        let e = s[1];
        if e == '"' {
            Some(('"', 2))
        } else if e == '\\' {
            Some(('\\', 2))
        } else if e == '/' {
            Some(('/', 2))
        } else if e == 'b' {
            Some((8u8 as char, 2))
        } else if e == 'f' {
            Some((12u8 as char, 2))
        } else if e == 'n' {
            Some(('\n', 2))
        } else if e == 'r' {
            Some(('\r', 2))
        } else if e == 't' {
            Some(('\t', 2))
        } else if e == 'u' {
            match unicode_escape(s.skip(2)) {
                Some((c, k)) => Some((c, k + 2)),
                None => None,
            }
        } else {
            None
        }
    }
}

/// The body of a string literal up to and including its closing quote.
#[verifier::opaque]
pub open spec fn string_body(s: Seq<char>) -> Option<(Seq<char>, Seq<char>)>
    decreases s.len(),
{
    if s.len() == 0 {
        None
    } else if s[0] == '"' {
        Some((Seq::empty(), s.drop_first()))
    } else if s[0] == '\\' {
        match escape(s) {
            Some((c, k)) => if 0 < k <= s.len() {
                match string_body(s.skip(k)) {
                    Some((t, r)) => Some((seq![c] + t, r)),
                    None => None,
                }
            } else {
                None
            },
            None => None,
        }
    } else if (s[0] as u32) < 32 {
        None
    } else {
        match string_body(s.drop_first()) {
            Some((t, r)) => Some((seq![s[0]] + t, r)),
            None => None,
        }
    }
}

/// `r` with `p` put in front of the characters it read.
pub open spec fn with_prefix(p: Seq<char>, r: Option<(Seq<char>, Seq<char>)>) -> Option<(Seq<char>, Seq<char>)> {
    match r {
        Some((t, rest)) => Some((p + t, rest)),
        None => None,
    }
}

pub proof fn lemma_with_prefix(a: Seq<char>, b: Seq<char>, r: Option<(Seq<char>, Seq<char>)>)
    ensures
        with_prefix(a, with_prefix(b, r)) == with_prefix(a + b, r),
        with_prefix(a, r) is Some <==> r is Some,
{
    match r {
        Some((t, rest)) => {
            assert(a + (b + t) =~= (a + b) + t);
        },
        None => {},
    }
}

pub proof fn lemma_string_body(x: Seq<char>)
    ensures
        x.len() == 0 ==> string_body(x) is None,
        x.len() > 0 && x[0] == '"' ==> string_body(x) == Some((Seq::<char>::empty(), x.drop_first())),
        x.len() > 0 && x[0] == '\\' ==> string_body(x) == match escape(x) {
            Some((c, k)) => if 0 < k <= x.len() {
                with_prefix(seq![c], string_body(x.skip(k)))
            } else {
                None
            },
            None => None,
        },
        x.len() > 0 && x[0] != '"' && x[0] != '\\' && (x[0] as u32) < 32 ==> string_body(x) is None,
        x.len() > 0 && x[0] != '"' && x[0] != '\\' && !((x[0] as u32) < 32) ==> string_body(x)
            == with_prefix(seq![x[0]], string_body(x.drop_first())),
{
    reveal(string_body);
}

/// Whitespace, then a string literal.
pub open spec fn json_string(s: Seq<char>) -> Option<(Seq<char>, Seq<char>)> {
    match punct(s, '"') {
        Some(t) => string_body(t),
        None => None,
    }
}

pub open spec fn is_digit(c: char) -> bool {
    48 <= c as u32 <= 57
}

/// The number of digits at the start of `s`.
pub open spec fn digit_run(s: Seq<char>) -> nat
    decreases s.len(),
{
    if s.len() > 0 && is_digit(s[0]) {
        1 + digit_run(s.drop_first())
    } else {
        0
    }
}

/// The value of a string of decimal digits.
pub open spec fn digits_value(ds: Seq<char>) -> nat
    decreases ds.len(),
{
    if ds.len() == 0 {
        0
    } else {
        digits_value(ds.drop_last()) * 10 + (ds.last() as u32 - 48) as nat
    }
}

/// Whitespace, then an integer literal: an optional minus sign and digits,
/// without leading zeros, and not followed by a fraction or an exponent.
pub open spec fn json_int(s: Seq<char>) -> Option<(int, Seq<char>)> {
    let t = ws(s);
    let neg = t.len() > 0 && t[0] == '-';
    let u = if neg {
        t.drop_first()
    } else {
        t
    };
    let n = digit_run(u);
    let r = u.skip(n as int);
    if n == 0 || (n > 1 && u[0] == '0') {
        None
    } else if r.len() > 0 && (r[0] == '.' || r[0] == 'e' || r[0] == 'E') {
        None
    } else {
        let v = digits_value(u.take(n as int));
        Some((if neg { -v } else { v as int }, r))
    }
}

pub proof fn lemma_skip_step(s: Seq<char>, i: int)
    requires
        0 <= i < s.len(),
    ensures
        s.skip(i).drop_first() == s.skip(i + 1),
        s.skip(i)[0] == s[i],
        s.skip(i).len() == s.len() - i,
{
    assert(s.skip(i).drop_first() =~= s.skip(i + 1));
}

/// The position of the first character at or after `pos` that is not
/// whitespace.
pub fn skip_ws(s: &Vec<char>, pos: usize) -> (r: usize)
    requires
        pos <= s@.len(),
    ensures
        pos <= r <= s@.len(),
        s@.skip(r as int) == ws(s@.skip(pos as int)),
{
    let mut i = pos;
    while i < s.len() && (s[i] == ' ' || s[i] == '\t' || s[i] == '\n' || s[i] == '\r')
        invariant
            pos <= i <= s@.len(),
            ws(s@.skip(i as int)) == ws(s@.skip(pos as int)),
        decreases s@.len() - i,
    {
        proof { lemma_skip_step(s@, i as int); }
        i = i + 1;
    }
    i
}

/// Whitespace, then `c`: the position after `c`.
pub fn expect(s: &Vec<char>, pos: usize, c: char) -> (r: Option<usize>)
    requires
        pos <= s@.len(),
    ensures
        match punct(s@.skip(pos as int), c) {
            Some(t) => r is Some && r->0 <= s@.len() && s@.skip(r->0 as int) == t && pos < r->0,
            None => r is None,
        },
{
    let i = skip_ws(s, pos);
    if i < s.len() && s[i] == c {
        proof { lemma_skip_step(s@, i as int); }
        Some(i + 1)
    } else {
        None
    }
}

/// Relies on `char::from_u32`: the character with that code, when there is one.
#[verifier::external_body]
fn char_from_code(v: u32) -> (r: Option<char>)
    ensures
        (v < 0xD800 || 0xE000 <= v < 0x110000) ==> r == Some(v as char),
        !(v < 0xD800 || 0xE000 <= v < 0x110000) ==> r is None,
{
    char::from_u32(v)
}

fn hex_at(s: &Vec<char>, i: usize) -> (r: Option<u32>)
    requires
        i < s@.len(),
    ensures
        match hex_val(s@[i as int]) {
            Some(v) => r == Some(v as u32),
            None => r is None,
        },
{
    let v = s[i] as u32;
    if 48 <= v && v < 58 {
        Some(v - 48)
    } else if 97 <= v && v < 103 {
        Some(v - 87)
    } else if 65 <= v && v < 71 {
        Some(v - 55)
    } else {
        None
    }
}

fn hex4_at(s: &Vec<char>, i: usize) -> (r: Option<u32>)
    requires
        i <= s@.len(),
    ensures
        match hex4(s@.skip(i as int)) {
            Some(v) => r == Some(v as u32) && v < 0x10000,
            None => r is None,
        },
{
    if s.len() - i < 4 {
        return None;
    }
    let a = hex_at(s, i);
    let b = hex_at(s, i + 1);
    let c = hex_at(s, i + 2);
    let d = hex_at(s, i + 3);
    match (a, b, c, d) {
        (Some(a), Some(b), Some(c), Some(d)) => Some(((a * 16 + b) * 16 + c) * 16 + d),
        _ => None,
    }
}

fn escape_at(s: &Vec<char>, i: usize) -> (r: Option<(char, usize)>)
    requires
        i < s@.len(),
        s@[i as int] == '\\',
    ensures
        match escape(s@.skip(i as int)) {
            Some((c, k)) => r == Some((c, k as usize)) && 0 < k <= s@.len() - i,
            None => r is None,
        },
{
    reveal(escape);
    let ghost t = s@.skip(i as int);
    if s.len() - i < 2 {
        return None;
    }
    assert(t[1] == s@[i + 1]);
    let e = s[i + 1];
    if e == '"' {
        Some(('"', 2))
    } else if e == '\\' {
        Some(('\\', 2))
    } else if e == '/' {
        Some(('/', 2))
    } else if e == 'b' {
        Some((8u8 as char, 2))
    } else if e == 'f' {
        Some((12u8 as char, 2))
    } else if e == 'n' {
        Some(('\n', 2))
    } else if e == 'r' {
        Some(('\r', 2))
    } else if e == 't' {
        Some(('\t', 2))
    } else if e == 'u' {
        assert(t.skip(2) =~= s@.skip(i + 2));
        let h = match hex4_at(s, i + 2) {
            Some(h) => h,
            None => return None,
        };
        if 0xD800 <= h && h < 0xDC00 {
            if s.len() - (i + 2) >= 6 && s[i + 6] == '\\' && s[i + 7] == 'u' {
                assert(t.skip(2).skip(6) =~= s@.skip(i + 8));
                let l = match hex4_at(s, i + 8) {
                    Some(l) => l,
                    None => return None,
                };
                if 0xDC00 <= l && l < 0xE000 {
                    let v = 0x10000 + (h - 0xD800) * 0x400 + (l - 0xDC00);
                    match char_from_code(v) {
                        Some(c) => Some((c, 12)),
                        None => None,
                    }
                } else {
                    None
                }
            } else {
                None
            }
        } else if 0xDC00 <= h && h < 0xE000 {
            None
        } else {
            match char_from_code(h) {
                Some(c) => Some((c, 6)),
                None => None,
            }
        }
    } else {
        None
    }
}

/// Whitespace, then a string literal: its characters and the position after it.
pub fn read_string(s: &Vec<char>, pos: usize) -> (r: Option<(String, usize)>)
    requires
        pos <= s@.len(),
    ensures
        match json_string(s@.skip(pos as int)) {
            Some((v, t)) => r is Some && (r->0).0@ == v && (r->0).1 <= s@.len()
                && s@.skip((r->0).1 as int) == t && pos < (r->0).1,
            None => r is None,
        },
{
    let start = match expect(s, pos, '"') {
        Some(p) => p,
        None => return None,
    };
    let mut out = String::new();
    let mut i = start;
    assert(Seq::<char>::empty() + seq![] =~= Seq::<char>::empty());
    proof {
        match string_body(s@.skip(start as int)) {
            Some((t, r)) => { assert(out@ + t =~= t); },
            None => {},
        }
    }
    loop
        invariant
            start <= i <= s@.len(),
            pos < start,
            json_string(s@.skip(pos as int)) == string_body(s@.skip(start as int)),
            string_body(s@.skip(start as int)) == with_prefix(out@, string_body(s@.skip(i as int))),
        decreases s@.len() - i,
    {
        let ghost before = out@;
        if i >= s.len() {
            proof {
                lemma_string_body(s@.skip(i as int));
                lemma_with_prefix(out@, seq![], None);
            }
            return None;
        }
        proof {
            lemma_skip_step(s@, i as int);
            lemma_string_body(s@.skip(i as int));
        }
        let c = s[i];
        if c == '"' {
            assert(out@ + Seq::<char>::empty() =~= out@);
            assert(s@.skip(i as int).drop_first() =~= s@.skip(i + 1));
            return Some((out, i + 1));
        } else if c == '\\' {
            match escape_at(s, i) {
                Some((e, k)) => {
                    assert(s@.skip(i as int).skip(k as int) =~= s@.skip(i + k));
                    push_char(&mut out, e);
                    proof {
                        lemma_with_prefix(before, seq![e], string_body(s@.skip(i + k)));
                        assert(before + seq![e] =~= out@);
                    }
                    i = i + k;
                },
                None => {
                    proof { lemma_with_prefix(out@, seq![], None); }
                    return None;
                },
            }
        } else if (c as u32) < 32 {
            proof { lemma_with_prefix(out@, seq![], None); }
            return None;
        } else {
            push_char(&mut out, c);
            proof {
                lemma_with_prefix(before, seq![c], string_body(s@.skip(i + 1)));
                assert(before + seq![c] =~= out@);
            }
            i = i + 1;
        }
    }
}

/// Whether `t` starts with the text `w`; the input after it.
pub open spec fn word(t: Seq<char>, w: Seq<char>) -> Option<Seq<char>> {
    if t.len() >= w.len() && t.take(w.len() as int) == w {
        Some(t.skip(w.len() as int))
    } else {
        None
    }
}

/// One or more digits at the start of `t`; the input after them.
pub open spec fn some_digits(t: Seq<char>) -> Option<Seq<char>> {
    if digit_run(t) == 0 {
        None
    } else {
        Some(t.skip(digit_run(t) as int))
    }
}

/// An optional fraction and an optional exponent of a number literal.
pub open spec fn number_tail(r: Seq<char>) -> Option<Seq<char>> {
    let f = if r.len() > 0 && r[0] == '.' {
        some_digits(r.drop_first())
    } else {
        Some(r)
    };
    match f {
        None => None,
        Some(e) => if e.len() > 0 && (e[0] == 'e' || e[0] == 'E') {
            let x = e.drop_first();
            if x.len() > 0 && (x[0] == '+' || x[0] == '-') {
                some_digits(x.drop_first())
            } else {
                some_digits(x)
            }
        } else {
            Some(e)
        },
    }
}

/// A number literal at the start of `t` (no leading whitespace).
pub open spec fn number(t: Seq<char>) -> Option<Seq<char>> {
    let u = if t.len() > 0 && t[0] == '-' {
        t.drop_first()
    } else {
        t
    };
    let n = digit_run(u);
    if n == 0 || (n > 1 && u[0] == '0') {
        None
    } else {
        number_tail(u.skip(n as int))
    }
}

/// Whitespace, then any JSON value; the input after it.
pub open spec fn skip_value(s: Seq<char>) -> Option<Seq<char>>
    decreases s.len(), 1nat,
{
    let t = ws(s);
    if t.len() == 0 {
        None
    } else if t[0] == '"' {
        match string_body(t.drop_first()) {
            Some((_, r)) => Some(r),
            None => None,
        }
    } else if t[0] == '[' {
        let u = t.drop_first();
        match punct(u, ']') {
            Some(r) => Some(r),
            None => if u.len() < s.len() {
                skip_items(u)
            } else {
                None
            },
        }
    } else if t[0] == '{' {
        let u = t.drop_first();
        match punct(u, '}') {
            Some(r) => Some(r),
            None => if u.len() < s.len() {
                skip_members(u)
            } else {
                None
            },
        }
    } else if t[0] == 't' {
        word(t, "true"@)
    } else if t[0] == 'f' {
        word(t, "false"@)
    } else if t[0] == 'n' {
        word(t, "null"@)
    } else if t[0] == '-' || is_digit(t[0]) {
        number(t)
    } else {
        None
    }
}

/// The items of an array after its `[`, up to and including its `]`.
pub open spec fn skip_items(s: Seq<char>) -> Option<Seq<char>>
    decreases s.len(), 2nat,
{
    match skip_value(s) {
        None => None,
        Some(r) => match punct(r, ',') {
            Some(r2) => if r2.len() < s.len() {
                skip_items(r2)
            } else {
                None
            },
            None => punct(r, ']'),
        },
    }
}

/// The members of an object after its `{`, up to and including its `}`.
pub open spec fn skip_members(s: Seq<char>) -> Option<Seq<char>>
    decreases s.len(), 2nat,
{
    match json_string(s) {
        None => None,
        Some((_, k)) => match punct(k, ':') {
            None => None,
            Some(v) => if v.len() < s.len() {
                match skip_value(v) {
                    None => None,
                    Some(r) => match punct(r, ',') {
                        Some(r2) => if r2.len() < s.len() {
                            skip_members(r2)
                        } else {
                            None
                        },
                        None => punct(r, '}'),
                    },
                }
            } else {
                None
            },
        },
    }
}

proof fn lemma_digit_run_step(s: Seq<char>, i: int)
    requires
        0 <= i < s.len(),
        is_digit(s[i]),
    ensures
        digit_run(s.skip(i)) == 1 + digit_run(s.skip(i + 1)),
{
    lemma_skip_step(s, i);
}

/// The digits starting at `i`: the position after them, and their value
/// when it fits in a `u64`.
fn read_digits(s: &Vec<char>, i: usize) -> (r: (usize, Option<u64>))
    requires
        i <= s@.len(),
    ensures
        r.0 == i + digit_run(s@.skip(i as int)),
        r.0 <= s@.len(),
        match r.1 {
            Some(v) => v == digits_value(s@.subrange(i as int, r.0 as int)),
            None => digits_value(s@.subrange(i as int, r.0 as int)) > u64::MAX,
        },
{
    let mut j = i;
    let mut acc: Option<u64> = Some(0);
    assert(s@.subrange(i as int, i as int) =~= Seq::<char>::empty());
    while j < s.len() && 48 <= s[j] as u32 && s[j] as u32 <= 57
        invariant
            i <= j <= s@.len(),
            digit_run(s@.skip(i as int)) == (j - i) + digit_run(s@.skip(j as int)),
            match acc {
                Some(v) => v == digits_value(s@.subrange(i as int, j as int)),
                None => digits_value(s@.subrange(i as int, j as int)) > u64::MAX,
            },
        decreases s@.len() - j,
    {
        proof { lemma_digit_run_step(s@, j as int); }
        let d = (s[j] as u32 - 48) as u64;
        let ghost ds = s@.subrange(i as int, j + 1);
        assert(ds.drop_last() =~= s@.subrange(i as int, j as int));
        acc = match acc {
            Some(v) => if v <= (u64::MAX - d) / 10 {
                Some(v * 10 + d)
            } else {
                None
            },
            None => None,
        };
        j = j + 1;
    }
    if j == s.len() {
        assert(s@.skip(j as int) =~= Seq::<char>::empty());
    }
    (j, acc)
}

/// Whitespace, then an integer literal: its sign, its magnitude when that
/// fits in a `u64`, and the position after it.
fn read_int(s: &Vec<char>, pos: usize) -> (r: Option<(bool, Option<u64>, usize)>)
    requires
        pos <= s@.len(),
    ensures
        match json_int(s@.skip(pos as int)) {
            Some((v, t)) => r is Some && ({
                let (neg, m, p) = r->0;
                &&& p <= s@.len()
                &&& s@.skip(p as int) == t
                &&& pos < p
                &&& (neg ==> v <= 0)
                &&& (!neg ==> v >= 0)
                &&& match m {
                    Some(x) => x == (if neg { -v } else { v }),
                    None => (if neg { -v } else { v }) > u64::MAX,
                }
            }),
            None => r is None,
        },
{
    let i = skip_ws(s, pos);
    let neg = i < s.len() && s[i] == '-';
    let k = if neg { i + 1 } else { i };
    proof {
        if neg {
            lemma_skip_step(s@, i as int);
        }
    }
    let (e, m) = read_digits(s, k);
    let n = e - k;
    if n == 0 || (n > 1 && s[k] == '0') {
        return None;
    }
    assert(s@.skip(k as int).skip(n as int) =~= s@.skip(e as int));
    assert(s@.skip(k as int).take(n as int) =~= s@.subrange(k as int, e as int));
    if e < s.len() && (s[e] == '.' || s[e] == 'e' || s[e] == 'E') {
        return None;
    }
    Some((neg, m, e))
}

/// Whitespace, then an integer literal that fits in a `u64`.
pub fn read_u64(s: &Vec<char>, pos: usize) -> (r: Option<(u64, usize)>)
    requires
        pos <= s@.len(),
    ensures
        match json_int(s@.skip(pos as int)) {
            Some((v, t)) => if 0 <= v <= u64::MAX {
                r is Some && (r->0).0 == v && (r->0).1 <= s@.len() && s@.skip((r->0).1 as int) == t
                    && pos < (r->0).1
            } else {
                r is None
            },
            None => r is None,
        },
{
    match read_int(s, pos) {
        Some((neg, Some(m), p)) => if neg && m != 0 {
            None
        } else {
            Some((m, p))
        },
        _ => None,
    }
}

/// Whitespace, then an integer literal that fits in an `i64`.
pub fn read_i64(s: &Vec<char>, pos: usize) -> (r: Option<(i64, usize)>)
    requires
        pos <= s@.len(),
    ensures
        match json_int(s@.skip(pos as int)) {
            Some((v, t)) => if i64::MIN <= v <= i64::MAX {
                r is Some && (r->0).0 == v && (r->0).1 <= s@.len() && s@.skip((r->0).1 as int) == t
                    && pos < (r->0).1
            } else {
                r is None
            },
            None => r is None,
        },
{
    match read_int(s, pos) {
        Some((neg, Some(m), p)) => if neg {
            if m <= 9223372036854775807 {
                Some((-(m as i64), p))
            } else if m == 9223372036854775808 {
                Some((i64::MIN, p))
            } else {
                None
            }
        } else if m <= 9223372036854775807 {
            Some((m as i64, p))
        } else {
            None
        },
        _ => None,
    }
}

fn read_word(s: &Vec<char>, i: usize, w: &str) -> (r: Option<usize>)
    requires
        i <= s@.len(),
        w@.len() > 0,
    ensures
        match word(s@.skip(i as int), w@) {
            Some(t) => r is Some && i < r->0 <= s@.len() && s@.skip(r->0 as int) == t,
            None => r is None,
        },
{
    let n = w.unicode_len();
    if s.len() - i < n {
        return None;
    }
    let mut j: usize = 0;
    while j < n
        invariant
            n == w@.len(),
            i + n <= s@.len(),
            j <= n,
            s@.skip(i as int).take(j as int) == w@.take(j as int),
        decreases n - j,
    {
        assert(i + j < s.len());
        if s[i + j] != w.get_char(j) {
            assert(s@.skip(i as int).take(n as int)[j as int] != w@[j as int]);
            return None;
        }
        assert(s@.skip(i as int).take(j + 1) =~= s@.skip(i as int).take(j as int).push(s@[i + j]));
        assert(w@.take(j + 1) =~= w@.take(j as int).push(w@[j as int]));
        j = j + 1;
    }
    assert(w@.take(n as int) =~= w@);
    assert(s@.skip(i as int).skip(n as int) =~= s@.skip(i + n));
    Some(i + n)
}

fn read_some_digits(s: &Vec<char>, i: usize) -> (r: Option<usize>)
    requires
        i <= s@.len(),
    ensures
        match some_digits(s@.skip(i as int)) {
            Some(t) => r is Some && i < r->0 <= s@.len() && s@.skip(r->0 as int) == t,
            None => r is None,
        },
{
    let (e, _) = read_digits(s, i);
    if e == i {
        None
    } else {
        assert(s@.skip(i as int).skip(e - i) =~= s@.skip(e as int));
        Some(e)
    }
}

fn read_number(s: &Vec<char>, i: usize) -> (r: Option<usize>)
    requires
        i <= s@.len(),
    ensures
        match number(s@.skip(i as int)) {
            Some(t) => r is Some && i < r->0 <= s@.len() && s@.skip(r->0 as int) == t,
            None => r is None,
        },
{
    let neg = i < s.len() && s[i] == '-';
    let k = if neg { i + 1 } else { i };
    proof {
        if neg {
            lemma_skip_step(s@, i as int);
        }
    }
    let (e, _) = read_digits(s, k);
    let n = e - k;
    if n == 0 || (n > 1 && s[k] == '0') {
        return None;
    }
    assert(s@.skip(k as int).skip(n as int) =~= s@.skip(e as int));
    read_number_tail(s, e)
}

fn read_number_tail(s: &Vec<char>, e: usize) -> (r: Option<usize>)
    requires
        e <= s@.len(),
    ensures
        match number_tail(s@.skip(e as int)) {
            Some(t) => r is Some && e <= r->0 <= s@.len() && s@.skip(r->0 as int) == t,
            None => r is None,
        },
{
    let f = if e < s.len() && s[e] == '.' {
        proof { lemma_skip_step(s@, e as int); }
        match read_some_digits(s, e + 1) {
            Some(f) => f,
            None => return None,
        }
    } else {
        e
    };
    if f < s.len() && (s[f] == 'e' || s[f] == 'E') {
        proof { lemma_skip_step(s@, f as int); }
        let x = f + 1;
        if x < s.len() && (s[x] == '+' || s[x] == '-') {
            proof { lemma_skip_step(s@, x as int); }
            read_some_digits(s, x + 1)
        } else {
            read_some_digits(s, x)
        }
    } else {
        Some(f)
    }
}

/// Whitespace, then any JSON value: the position after it.
pub fn skip_value_at(s: &Vec<char>, pos: usize) -> (r: Option<usize>)
    requires
        pos <= s@.len(),
    ensures
        match skip_value(s@.skip(pos as int)) {
            Some(t) => r is Some && pos < r->0 <= s@.len() && s@.skip(r->0 as int) == t,
            None => r is None,
        },
    decreases s@.len() - pos, 1nat,
{
    let i = skip_ws(s, pos);
    if i >= s.len() {
        return None;
    }
    proof { lemma_skip_step(s@, i as int); }
    let c = s[i];
    if c == '"' {
        match read_string(s, i) {
            Some((_, p)) => Some(p),
            None => None,
        }
    } else if c == '[' {
        match expect(s, i + 1, ']') {
            Some(p) => Some(p),
            None => if s.len() - (i + 1) < s.len() - pos {
                skip_items_at(s, i + 1)
            } else {
                None
            },
        }
    } else if c == '{' {
        match expect(s, i + 1, '}') {
            Some(p) => Some(p),
            None => if s.len() - (i + 1) < s.len() - pos {
                skip_members_at(s, i + 1)
            } else {
                None
            },
        }
    } else if c == 't' {
        proof { reveal_strlit("true"); }
        read_word(s, i, "true")
    } else if c == 'f' {
        proof { reveal_strlit("false"); }
        read_word(s, i, "false")
    } else if c == 'n' {
        proof { reveal_strlit("null"); }
        read_word(s, i, "null")
    } else if c == '-' || (48 <= c as u32 && c as u32 <= 57) {
        read_number(s, i)
    } else {
        None
    }
}

fn skip_items_at(s: &Vec<char>, pos: usize) -> (r: Option<usize>)
    requires
        pos <= s@.len(),
    ensures
        match skip_items(s@.skip(pos as int)) {
            Some(t) => r is Some && pos < r->0 <= s@.len() && s@.skip(r->0 as int) == t,
            None => r is None,
        },
    decreases s@.len() - pos, 2nat,
{
    match skip_value_at(s, pos) {
        None => None,
        Some(p) => match expect(s, p, ',') {
            Some(q) => if s.len() - q < s.len() - pos {
                skip_items_at(s, q)
            } else {
                None
            },
            None => expect(s, p, ']'),
        },
    }
}

fn skip_members_at(s: &Vec<char>, pos: usize) -> (r: Option<usize>)
    requires
        pos <= s@.len(),
    ensures
        match skip_members(s@.skip(pos as int)) {
            Some(t) => r is Some && pos < r->0 <= s@.len() && s@.skip(r->0 as int) == t,
            None => r is None,
        },
    decreases s@.len() - pos, 2nat,
{
    match read_string(s, pos) {
        None => None,
        Some((_, k)) => match expect(s, k, ':') {
            None => None,
            Some(v) => if s.len() - v < s.len() - pos {
                match skip_value_at(s, v) {
                    None => None,
                    Some(p) => match expect(s, p, ',') {
                        Some(q) => if s.len() - q < s.len() - pos {
                            skip_members_at(s, q)
                        } else {
                            None
                        },
                        None => expect(s, p, '}'),
                    },
                }
            } else {
                None
            },
        },
    }
}

} // verus!
