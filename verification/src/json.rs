//! A scanner for the JSON bodies that the service sends back.
//!
//! The spec functions are the definition of the accepted grammar, stated
//! over the character sequence of the input; each executable function
//! returns exactly what the corresponding spec function says.
use crate::ext::char_from_code;
use vstd::prelude::*;
use vstd::string::StrSliceExecFns;

verus! {

pub open spec fn is_ws(c: char) -> bool {
    let u = c as int;
    u == 32 || u == 9 || u == 10 || u == 13
}

pub open spec fn is_digit(c: char) -> bool {
    48 <= c as int <= 57
}

pub open spec fn digit_val(c: char) -> int {
    c as int - 48
}

pub open spec fn hex_val(c: char) -> int {
    let u = c as int;
    if 48 <= u && u <= 57 {
        u - 48
    } else if 65 <= u && u <= 70 {
        u - 55
    } else if 97 <= u && u <= 102 {
        u - 87
    } else {
        -1
    }
}

/// The value of four hex digits at `j`, or -1 where they are missing.
pub open spec fn hex4(s: Seq<char>, j: int) -> int {
    if 0 <= j && j + 4 <= s.len() && hex_val(s[j]) >= 0 && hex_val(s[j + 1]) >= 0 && hex_val(
        s[j + 2],
    ) >= 0 && hex_val(s[j + 3]) >= 0 {
        hex_val(s[j]) * 4096 + hex_val(s[j + 1]) * 256 + hex_val(s[j + 2]) * 16 + hex_val(s[j + 3])
    } else {
        -1
    }
}

/// The first position at or after `i` that does not hold whitespace.
pub open spec fn skip_ws(s: Seq<char>, i: int) -> int
    decreases s.len() - i,
{
    if 0 <= i && i < s.len() && is_ws(s[i]) {
        skip_ws(s, i + 1)
    } else {
        i
    }
}

/// The first position at or after `i` that does not hold a decimal digit.
pub open spec fn skip_digits(s: Seq<char>, i: int) -> int
    decreases s.len() - i,
{
    if 0 <= i && i < s.len() && is_digit(s[i]) {
        skip_digits(s, i + 1)
    } else {
        i
    }
}

/// The decoded content of a string literal read from position `i` (just
/// past the opening quote), together with the position past the closing
/// quote.  Escape sequences are decoded, an escaped surrogate pair
/// becoming the one supplementary character it encodes; a lone escaped
/// surrogate or an unescaped control character is a failure.
pub open spec fn str_body(s: Seq<char>, i: int, acc: Seq<char>) -> Option<(Seq<char>, int)>
    decreases s.len() - i,
{
    if !(0 <= i && i < s.len()) {
        None
    } else if s[i] == '"' {
        Some((acc, i + 1))
    } else if s[i] == '\\' {
        if i + 1 >= s.len() {
            None
        } else {
            let e = s[i + 1];
            if e == '"' {
                str_body(s, i + 2, acc.push('"'))
            } else if e == '\\' {
                str_body(s, i + 2, acc.push('\\'))
            } else if e == '/' {
                str_body(s, i + 2, acc.push('/'))
            } else if e == 'b' {
                str_body(s, i + 2, acc.push('\u{8}'))
            } else if e == 'f' {
                str_body(s, i + 2, acc.push('\u{c}'))
            } else if e == 'n' {
                str_body(s, i + 2, acc.push('\n'))
            } else if e == 'r' {
                str_body(s, i + 2, acc.push('\r'))
            } else if e == 't' {
                str_body(s, i + 2, acc.push('\t'))
            } else if e == 'u' {
                let v = hex4(s, i + 2);
                if v < 0 {
                    None
                } else if 0xD800 <= v && v < 0xDC00 {
                    if i + 7 < s.len() && s[i + 6] == '\\' && s[i + 7] == 'u' {
                        let w = hex4(s, i + 8);
                        if 0xDC00 <= w && w < 0xE000 {
                            let code = 0x10000 + (v - 0xD800) * 0x400 + (w - 0xDC00);
                            str_body(s, i + 12, acc.push((code as u32) as char))
                        } else {
                            None
                        }
                    } else {
                        None
                    }
                } else if 0xDC00 <= v && v < 0xE000 {
                    None
                } else {
                    str_body(s, i + 6, acc.push((v as u32) as char))
                }
            } else {
                None
            }
        }
    } else if (s[i] as int) < 32 {
        None
    } else {
        str_body(s, i + 1, acc.push(s[i]))
    }
}

/// A whole string literal starting with its opening quote at `i`.
pub open spec fn parse_string(s: Seq<char>, i: int) -> Option<(Seq<char>, int)> {
    if 0 <= i && i < s.len() && s[i] == '"' {
        str_body(s, i + 1, Seq::empty())
    } else {
        None
    }
}

pub open spec fn lit_true_at(s: Seq<char>, i: int) -> bool {
    0 <= i && i + 4 <= s.len() && s[i] == 't' && s[i + 1] == 'r' && s[i + 2] == 'u' && s[i + 3]
        == 'e'
}

pub open spec fn lit_false_at(s: Seq<char>, i: int) -> bool {
    0 <= i && i + 5 <= s.len() && s[i] == 'f' && s[i + 1] == 'a' && s[i + 2] == 'l' && s[i + 3]
        == 's' && s[i + 4] == 'e'
}

pub open spec fn lit_null_at(s: Seq<char>, i: int) -> bool {
    0 <= i && i + 4 <= s.len() && s[i] == 'n' && s[i + 1] == 'u' && s[i + 2] == 'l' && s[i + 3]
        == 'l'
}

/// The position past a number token starting at `i`, or a failure where
/// no well-formed number starts there.
pub open spec fn skip_number(s: Seq<char>, i: int) -> Option<int> {
    if !(0 <= i && i < s.len()) {
        None
    } else {
        let j: int = if s[i] == '-' {
            i + 1
        } else {
            i
        };
        let k: int = skip_digits(s, j);
        if k == j {
            None
        } else {
            let k2: int = if k < s.len() && s[k] == '.' {
                let d: int = skip_digits(s, k + 1);
                if d == k + 1 {
                    -1
                } else {
                    d
                }
            } else {
                k
            };
            if k2 < 0 {
                None
            } else {
                let k3: int = if k2 < s.len() && (s[k2] == 'e' || s[k2] == 'E') {
                    let j2: int = if k2 + 1 < s.len() && (s[k2 + 1] == '+' || s[k2 + 1] == '-') {
                        k2 + 2
                    } else {
                        k2 + 1
                    };
                    let d2: int = skip_digits(s, j2);
                    if d2 == j2 {
                        -1
                    } else {
                        d2
                    }
                } else {
                    k2
                };
                if k3 < 0 {
                    None
                } else {
                    Some(k3)
                }
            }
        }
    }
}

/// The value of an unsigned decimal run read from `i` on top of `acc`,
/// failing where it would not fit the machine word.
pub open spec fn usize_digits(s: Seq<char>, i: int, acc: usize) -> Option<(usize, int)>
    decreases s.len() - i,
{
    if 0 <= i && i < s.len() && is_digit(s[i]) {
        let d = digit_val(s[i]);
        if acc as int <= (usize::MAX as int - d) / 10 {
            usize_digits(s, i + 1, (acc as int * 10 + d) as usize)
        } else {
            None
        }
    } else {
        Some((acc, i))
    }
}

/// An unsigned integer literal at `i`: at least one digit, no sign.
pub open spec fn parse_usize(s: Seq<char>, i: int) -> Option<(usize, int)> {
    if 0 <= i && i < s.len() && is_digit(s[i]) {
        usize_digits(s, i, 0)
    } else {
        None
    }
}

/// The position past one JSON value whose first character stands at `i`.
pub open spec fn skip_value(s: Seq<char>, i: int) -> Option<int>
    decreases s.len() - i, 0int,
{
    if !(0 <= i && i < s.len()) {
        None
    } else {
        let c = s[i];
        if c == '"' {
            match parse_string(s, i) {
                Some(p) => Some(p.1),
                None => None,
            }
        } else if c == 't' {
            if lit_true_at(s, i) {
                Some(i + 4)
            } else {
                None
            }
        } else if c == 'f' {
            if lit_false_at(s, i) {
                Some(i + 5)
            } else {
                None
            }
        } else if c == 'n' {
            if lit_null_at(s, i) {
                Some(i + 4)
            } else {
                None
            }
        } else if c == '-' || is_digit(c) {
            skip_number(s, i)
        } else if c == '[' {
            skip_elems(s, i + 1, true)
        } else if c == '{' {
            skip_members(s, i + 1, true)
        } else {
            None
        }
    }
}

/// The position past the rest of an array body: element list and closing
/// bracket.  `first` says whether no element has been read yet.
pub open spec fn skip_elems(s: Seq<char>, i: int, first: bool) -> Option<int>
    decreases s.len() - i, 1int,
{
    if !(0 <= i && i <= s.len()) {
        None
    } else {
        let j = skip_ws(s, i);
        if !(i <= j && j < s.len()) {
            None
        } else if s[j] == ']' {
            Some(j + 1)
        } else if first {
            match skip_value(s, j) {
                Some(k) => if j < k && k <= s.len() {
                    skip_elems(s, k, false)
                } else {
                    None
                },
                None => None,
            }
        } else if s[j] == ',' {
            let j2 = skip_ws(s, j + 1);
            if !(j + 1 <= j2 && j2 <= s.len()) {
                None
            } else {
                match skip_value(s, j2) {
                    Some(k) => if j2 < k && k <= s.len() {
                        skip_elems(s, k, false)
                    } else {
                        None
                    },
                    None => None,
                }
            }
        } else {
            None
        }
    }
}

/// The position past the rest of an object body: members and closing
/// brace.  `first` says whether no member has been read yet.
pub open spec fn skip_members(s: Seq<char>, i: int, first: bool) -> Option<int>
    decreases s.len() - i, 1int,
{
    if !(0 <= i && i <= s.len()) {
        None
    } else {
        let j = skip_ws(s, i);
        if !(i <= j && j < s.len()) {
            None
        } else if s[j] == '}' {
            Some(j + 1)
        } else {
            let j1: int = if first {
                j
            } else if s[j] == ',' {
                skip_ws(s, j + 1)
            } else {
                -1
            };
            if !(j <= j1 && j1 < s.len()) {
                None
            } else {
                match parse_string(s, j1) {
                    None => None,
                    Some(p) => {
                        let k1 = p.1;
                        if !(j1 < k1 && k1 <= s.len()) {
                            None
                        } else {
                            let k2 = skip_ws(s, k1);
                            if !(k1 <= k2 && k2 < s.len()) {
                                None
                            } else if s[k2] != ':' {
                                None
                            } else {
                                let v0 = skip_ws(s, k2 + 1);
                                if !(k2 + 1 <= v0 && v0 <= s.len()) {
                                    None
                                } else {
                                    match skip_value(s, v0) {
                                        Some(k) => if v0 < k && k <= s.len() {
                                            skip_members(s, k, false)
                                        } else {
                                            None
                                        },
                                        None => None,
                                    }
                                }
                            }
                        }
                    }
                }
            }
        }
    }
}

/// How an executable scan result must relate to its spec counterpart.
pub open spec fn rel_idx(g: Option<int>, r: Option<usize>, n: usize) -> bool {
    match g {
        None => r is None,
        Some(k) => r matches Some(q) && q as int == k && q <= n,
    }
}

/// How an executable string-scan result must relate to its spec counterpart.
pub open spec fn rel_str(g: Option<(Seq<char>, int)>, r: Option<(Vec<char>, usize)>, n: usize) -> bool {
    match g {
        None => r is None,
        Some(p) => r matches Some(q) && q.0@ == p.0 && q.1 as int == p.1 && q.1 <= n,
    }
}

/// How an executable integer-scan result must relate to its spec counterpart.
pub open spec fn rel_num(g: Option<(usize, int)>, r: Option<(usize, usize)>, n: usize) -> bool {
    match g {
        None => r is None,
        Some(p) => r matches Some(q) && q.0 == p.0 && q.1 as int == p.1 && q.1 <= n,
    }
}

fn ws_at(s: &str, j: usize) -> (b: bool)
    requires
        j < s@.len(),
    ensures
        b == is_ws(s@[j as int]),
{
    let u = s.get_char(j) as u32;
    u == 32 || u == 9 || u == 10 || u == 13
}

fn digit_at(s: &str, j: usize) -> (b: bool)
    requires
        j < s@.len(),
    ensures
        b == is_digit(s@[j as int]),
{
    let u = s.get_char(j) as u32;
    48 <= u && u <= 57
}

pub(crate) fn skip_ws_x(s: &str, n: usize, i: usize) -> (j: usize)
    requires
        n == s@.len(),
        i <= n,
    ensures
        j as int == skip_ws(s@, i as int),
        i <= j <= n,
{
    let mut j: usize = i;
    while j < n && ws_at(s, j)
        invariant
            n == s@.len(),
            i <= j <= n,
            skip_ws(s@, i as int) == skip_ws(s@, j as int),
        decreases n - j,
    {
        j = j + 1;
    }
    proof {
        assert(skip_ws(s@, j as int) == j as int);
    }
    j
}

pub(crate) fn skip_digits_x(s: &str, n: usize, i: usize) -> (j: usize)
    requires
        n == s@.len(),
        i <= n,
    ensures
        j as int == skip_digits(s@, i as int),
        i <= j <= n,
{
    let mut j: usize = i;
    while j < n && digit_at(s, j)
        invariant
            n == s@.len(),
            i <= j <= n,
            skip_digits(s@, i as int) == skip_digits(s@, j as int),
        decreases n - j,
    {
        j = j + 1;
    }
    proof {
        assert(skip_digits(s@, j as int) == j as int);
    }
    j
}

fn hex_at(s: &str, j: usize) -> (h: i32)
    requires
        j < s@.len(),
    ensures
        h as int == hex_val(s@[j as int]),
{
    let u = s.get_char(j) as u32;
    if 48 <= u && u <= 57 {
        (u - 48) as i32
    } else if 65 <= u && u <= 70 {
        (u - 55) as i32
    } else if 97 <= u && u <= 102 {
        (u - 87) as i32
    } else {
        -1
    }
}

#[verifier::rlimit(60)]
pub(crate) fn str_body_x(s: &str, n: usize, i: usize, acc: Vec<char>) -> (r: Option<
    (Vec<char>, usize),
>)
    requires
        n == s@.len(),
        i <= n,
    ensures
        rel_str(str_body(s@, i as int, acc@), r, n),
    decreases n - i,
{
    if i >= n {
        return None;
    }
    let c = s.get_char(i);
    if c == '"' {
        Some((acc, i + 1))
    } else if c == '\\' {
        if i + 1 >= n {
            return None;
        }
        let e = s.get_char(i + 1);
        if e == '"' {
            let mut a = acc;
            a.push('"');
            str_body_x(s, n, i + 2, a)
        } else if e == '\\' {
            let mut a = acc;
            a.push('\\');
            str_body_x(s, n, i + 2, a)
        } else if e == '/' {
            let mut a = acc;
            a.push('/');
            str_body_x(s, n, i + 2, a)
        } else if e == 'b' {
            let mut a = acc;
            a.push('\u{8}');
            str_body_x(s, n, i + 2, a)
        } else if e == 'f' {
            let mut a = acc;
            a.push('\u{c}');
            str_body_x(s, n, i + 2, a)
        } else if e == 'n' {
            let mut a = acc;
            a.push('\n');
            str_body_x(s, n, i + 2, a)
        } else if e == 'r' {
            let mut a = acc;
            a.push('\r');
            str_body_x(s, n, i + 2, a)
        } else if e == 't' {
            let mut a = acc;
            a.push('\t');
            str_body_x(s, n, i + 2, a)
        } else if e == 'u' {
            if n - i < 6 {
                return None;
            }
            let h0 = hex_at(s, i + 2);
            let h1 = hex_at(s, i + 3);
            let h2 = hex_at(s, i + 4);
            let h3 = hex_at(s, i + 5);
            if h0 < 0 || h1 < 0 || h2 < 0 || h3 < 0 {
                return None;
            }
            let v: i32 = h0 * 4096 + h1 * 256 + h2 * 16 + h3;
            if 0xD800 <= v && v < 0xDC00 {
                if n - i < 8 {
                    return None;
                }
                if !(s.get_char(i + 6) == '\\' && s.get_char(i + 7) == 'u') {
                    return None;
                }
                if n - i < 12 {
                    return None;
                }
                let h4 = hex_at(s, i + 8);
                let h5 = hex_at(s, i + 9);
                let h6 = hex_at(s, i + 10);
                let h7 = hex_at(s, i + 11);
                if h4 < 0 || h5 < 0 || h6 < 0 || h7 < 0 {
                    return None;
                }
                let w: i32 = h4 * 4096 + h5 * 256 + h6 * 16 + h7;
                if !(0xDC00 <= w && w < 0xE000) {
                    return None;
                }
                let code: u32 = 0x10000 + (v as u32 - 0xD800) * 0x400 + (w as u32 - 0xDC00);
                let ch = char_from_code(code);
                let mut a = acc;
                a.push(ch);
                str_body_x(s, n, i + 12, a)
            } else if 0xDC00 <= v && v < 0xE000 {
                None
            } else {
                let ch = char_from_code(v as u32);
                let mut a = acc;
                a.push(ch);
                str_body_x(s, n, i + 6, a)
            }
        } else {
            None
        }
    } else if (c as u32) < 32 {
        None
    } else {
        let mut a = acc;
        a.push(c);
        str_body_x(s, n, i + 1, a)
    }
}

pub(crate) fn parse_string_x(s: &str, n: usize, i: usize) -> (r: Option<(Vec<char>, usize)>)
    requires
        n == s@.len(),
        i <= n,
    ensures
        rel_str(parse_string(s@, i as int), r, n),
{
    if i < n && s.get_char(i) == '"' {
        str_body_x(s, n, i + 1, Vec::new())
    } else {
        None
    }
}

pub(crate) fn lit_true_x(s: &str, n: usize, i: usize) -> (b: bool)
    requires
        n == s@.len(),
        i <= n,
    ensures
        b == lit_true_at(s@, i as int),
{
    if n - i < 4 {
        return false;
    }
    s.get_char(i) == 't' && s.get_char(i + 1) == 'r' && s.get_char(i + 2) == 'u' && s.get_char(
        i + 3,
    ) == 'e'
}

pub(crate) fn lit_false_x(s: &str, n: usize, i: usize) -> (b: bool)
    requires
        n == s@.len(),
        i <= n,
    ensures
        b == lit_false_at(s@, i as int),
{
    if n - i < 5 {
        return false;
    }
    s.get_char(i) == 'f' && s.get_char(i + 1) == 'a' && s.get_char(i + 2) == 'l' && s.get_char(
        i + 3,
    ) == 's' && s.get_char(i + 4) == 'e'
}

pub(crate) fn lit_null_x(s: &str, n: usize, i: usize) -> (b: bool)
    requires
        n == s@.len(),
        i <= n,
    ensures
        b == lit_null_at(s@, i as int),
{
    if n - i < 4 {
        return false;
    }
    s.get_char(i) == 'n' && s.get_char(i + 1) == 'u' && s.get_char(i + 2) == 'l' && s.get_char(
        i + 3,
    ) == 'l'
}

pub(crate) fn skip_number_x(s: &str, n: usize, i: usize) -> (r: Option<usize>)
    requires
        n == s@.len(),
        i <= n,
    ensures
        rel_idx(skip_number(s@, i as int), r, n),
{
    if i >= n {
        return None;
    }
    let j: usize = if s.get_char(i) == '-' {
        i + 1
    } else {
        i
    };
    let k: usize = skip_digits_x(s, n, j);
    if k == j {
        return None;
    }
    let mut k2: usize = k;
    if k < n && s.get_char(k) == '.' {
        let d = skip_digits_x(s, n, k + 1);
        if d == k + 1 {
            return None;
        }
        k2 = d;
    }
    let mut k3: usize = k2;
    if k2 < n {
        let e = s.get_char(k2);
        if e == 'e' || e == 'E' {
            let j2: usize = if k2 + 1 < n && (s.get_char(k2 + 1) == '+' || s.get_char(k2 + 1)
                == '-') {
                k2 + 2
            } else {
                k2 + 1
            };
            let d2 = skip_digits_x(s, n, j2);
            if d2 == j2 {
                return None;
            }
            k3 = d2;
        }
    }
    Some(k3)
}

proof fn lemma_digit_step(acc: usize, d: int)
    requires
        0 <= d <= 9,
        acc as int <= (usize::MAX as int - d) / 10,
    ensures
        acc as int * 10 + d <= usize::MAX as int,
{
    let m = usize::MAX as int - d;
    vstd::arithmetic::div_mod::lemma_fundamental_div_mod(m, 10);
    assert(acc as int * 10 <= (m / 10) * 10) by (nonlinear_arith)
        requires
            acc as int <= m / 10,
    ;
}

pub(crate) fn usize_digits_x(s: &str, n: usize, i: usize, acc: usize) -> (r: Option<
    (usize, usize),
>)
    requires
        n == s@.len(),
        i <= n,
    ensures
        rel_num(usize_digits(s@, i as int, acc), r, n),
    decreases n - i,
{
    if i < n && digit_at(s, i) {
        let d: usize = (s.get_char(i) as u32 - 48) as usize;
        if acc <= (usize::MAX - d) / 10 {
            proof {
                lemma_digit_step(acc, d as int);
            }
            usize_digits_x(s, n, i + 1, acc * 10 + d)
        } else {
            None
        }
    } else {
        Some((acc, i))
    }
}

pub(crate) fn parse_usize_x(s: &str, n: usize, i: usize) -> (r: Option<(usize, usize)>)
    requires
        n == s@.len(),
        i <= n,
    ensures
        rel_num(parse_usize(s@, i as int), r, n),
{
    if i < n && digit_at(s, i) {
        usize_digits_x(s, n, i, 0)
    } else {
        None
    }
}

pub(crate) fn skip_value_x(s: &str, n: usize, i: usize) -> (r: Option<usize>)
    requires
        n == s@.len(),
        i <= n,
    ensures
        rel_idx(skip_value(s@, i as int), r, n),
    decreases n - i, 0int,
{
    if i >= n {
        return None;
    }
    let c = s.get_char(i);
    if c == '"' {
        match parse_string_x(s, n, i) {
            Some(p) => Some(p.1),
            None => None,
        }
    } else if c == 't' {
        if lit_true_x(s, n, i) {
            Some(i + 4)
        } else {
            None
        }
    } else if c == 'f' {
        if lit_false_x(s, n, i) {
            Some(i + 5)
        } else {
            None
        }
    } else if c == 'n' {
        if lit_null_x(s, n, i) {
            Some(i + 4)
        } else {
            None
        }
    } else if c == '-' || digit_at(s, i) {
        skip_number_x(s, n, i)
    } else if c == '[' {
        skip_elems_x(s, n, i + 1, true)
    } else if c == '{' {
        skip_members_x(s, n, i + 1, true)
    } else {
        None
    }
}

pub(crate) fn skip_elems_x(s: &str, n: usize, i: usize, first: bool) -> (r: Option<usize>)
    requires
        n == s@.len(),
        i <= n,
    ensures
        rel_idx(skip_elems(s@, i as int, first), r, n),
    decreases n - i, 1int,
{
    let j = skip_ws_x(s, n, i);
    if j >= n {
        return None;
    }
    let cj = s.get_char(j);
    if cj == ']' {
        return Some(j + 1);
    }
    if first {
        match skip_value_x(s, n, j) {
            Some(k) => {
                if j < k && k <= n {
                    skip_elems_x(s, n, k, false)
                } else {
                    None
                }
            },
            None => None,
        }
    } else if cj == ',' {
        let j2 = skip_ws_x(s, n, j + 1);
        match skip_value_x(s, n, j2) {
            Some(k) => {
                if j2 < k && k <= n {
                    skip_elems_x(s, n, k, false)
                } else {
                    None
                }
            },
            None => None,
        }
    } else {
        None
    }
}

pub(crate) fn skip_members_x(s: &str, n: usize, i: usize, first: bool) -> (r: Option<usize>)
    requires
        n == s@.len(),
        i <= n,
    ensures
        rel_idx(skip_members(s@, i as int, first), r, n),
    decreases n - i, 1int,
{
    let j = skip_ws_x(s, n, i);
    if j >= n {
        return None;
    }
    let cj = s.get_char(j);
    if cj == '}' {
        return Some(j + 1);
    }
    let j1: usize = if first {
        j
    } else {
        if cj != ',' {
            return None;
        }
        skip_ws_x(s, n, j + 1)
    };
    if j1 >= n {
        return None;
    }
    match parse_string_x(s, n, j1) {
        None => None,
        Some(p) => {
            let k1 = p.1;
            if !(j1 < k1 && k1 <= n) {
                return None;
            }
            let k2 = skip_ws_x(s, n, k1);
            if k2 >= n {
                return None;
            }
            if s.get_char(k2) != ':' {
                return None;
            }
            let v0 = skip_ws_x(s, n, k2 + 1);
            match skip_value_x(s, n, v0) {
                Some(k) => {
                    if v0 < k && k <= n {
                        skip_members_x(s, n, k, false)
                    } else {
                        None
                    }
                },
                None => None,
            }
        },
    }
}

} // verus!
