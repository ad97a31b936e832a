//! The document format: a brace-delimited list of `"name": value` pairs,
//! where a value is a quoted string (no escapes), an unsigned decimal
//! integer, `true`, `false` or `null`.
//!
//! The grammar is stated once, as recursive specification functions over the
//! character sequence; the executable parser is proved to return exactly what
//! those functions denote.

use vstd::prelude::*;
use crate::addr::{is_digit, digit_val};
use crate::node::{Node, DocValue};
use crate::text::str_eq;

verus! {

/// Insignificant whitespace.
pub open spec fn is_ws(c: char) -> bool {
    c == ' ' || c == '\t' || c == '\n' || c == '\r'
}

/// The first index at or after `i` holding a non-whitespace character.
pub open spec fn skip_ws(s: Seq<char>, i: int) -> int
    decreases s.len() - i,
    when 0 <= i <= s.len()
{
    if i < s.len() && is_ws(s[i]) {
        skip_ws(s, i + 1)
    } else {
        i
    }
}

/// The index of the first `"` at or after `i`, if any.
pub open spec fn scan_quote(s: Seq<char>, i: int) -> Option<int>
    decreases s.len() - i,
    when 0 <= i <= s.len()
{
    if i >= s.len() {
        None
    } else if s[i] == '"' {
        Some(i)
    } else {
        scan_quote(s, i + 1)
    }
}

/// The first index at or after `i` holding a non-digit character.
pub open spec fn scan_digits(s: Seq<char>, i: int) -> int
    decreases s.len() - i,
    when 0 <= i <= s.len()
{
    if i < s.len() && is_digit(s[i]) {
        scan_digits(s, i + 1)
    } else {
        i
    }
}

/// The numeric value of a digit sequence, most significant digit first.
pub open spec fn digits_val(t: Seq<char>) -> int
    decreases t.len(),
{
    if t.len() == 0 {
        0
    } else {
        digits_val(t.drop_last()) * 10 + digit_val(t.last())
    }
}

/// A number: the maximal digit run starting at `i`, which must be nonempty
/// and fit in a `u64`.
pub open spec fn parse_number(s: Seq<char>, i: int) -> Option<(u64, int)> {
    let e = scan_digits(s, i);
    if e <= i {
        None
    } else {
        let v = digits_val(s.subrange(i, e));
        if v > u64::MAX as int {
            None
        } else {
            Some((v as u64, e))
        }
    }
}

/// Whether the literal `lit` occurs in `s` starting at `i`.
pub open spec fn lit_at(s: Seq<char>, i: int, lit: Seq<char>) -> bool {
    i + lit.len() <= s.len() && s.subrange(i, i + lit.len()) == lit
}

/// A single value starting at `i`: a quoted string, a number, or one of the
/// literals `true`, `false`, `null`. Yields the value and the index just
/// after it.
pub open spec fn parse_value(s: Seq<char>, i: int) -> Option<(DocValue, int)> {
    if i >= s.len() {
        None
    } else if s[i] == '"' {
        match scan_quote(s, i + 1) {
            None => None,
            Some(q) => Some((DocValue::Text(s.subrange(i + 1, q)), q + 1)),
        }
    } else if is_digit(s[i]) {
        match parse_number(s, i) {
            None => None,
            Some((v, e)) => Some((DocValue::Unsigned(v), e)),
        }
    } else if lit_at(s, i, "true"@) {
        Some((DocValue::Flag(true), i + "true"@.len()))
    } else if lit_at(s, i, "false"@) {
        Some((DocValue::Flag(false), i + "false"@.len()))
    } else if lit_at(s, i, "null"@) {
        Some((DocValue::Null, i + "null"@.len()))
    } else {
        None
    }
}

/// A nonempty, comma-separated run of `"name": value` pairs starting at `i`,
/// in document order, with the index just after the last pair.
pub open spec fn parse_pairs(s: Seq<char>, i: int) -> Option<(Seq<(Seq<char>, DocValue)>, int)>
    decreases s.len() - i,
    when 0 <= i <= s.len()
{
    if i >= s.len() || s[i] != '"' {
        None
    } else {
        match scan_quote(s, i + 1) {
            None => None,
            Some(q) => {
                let name = s.subrange(i + 1, q);
                let j = skip_ws(s, q + 1);
                if j >= s.len() || s[j] != ':' {
                    None
                } else {
                    match parse_value(s, skip_ws(s, j + 1)) {
                        None => None,
                        Some((v, m)) => {
                            let m2 = skip_ws(s, m);
                            if m2 < s.len() && s[m2] == ',' {
                                let n2 = skip_ws(s, m2 + 1);
                                if n2 <= i || n2 > s.len() {
                                    None
                                } else {
                                    match parse_pairs(s, n2) {
                                        None => None,
                                        Some((rest, e)) => Some((seq![(name, v)] + rest, e)),
                                    }
                                }
                            } else {
                                Some((seq![(name, v)], m2))
                            }
                        },
                    }
                }
            },
        }
    }
}

/// A whole document: optional whitespace, `{`, an optionally empty pair
/// list, `}`, optional whitespace, end of input.
pub open spec fn spec_parse_document(s: Seq<char>) -> Option<Seq<(Seq<char>, DocValue)>> {
    let i = skip_ws(s, 0);
    if i >= s.len() || s[i] != '{' {
        None
    } else {
        let j = skip_ws(s, i + 1);
        if j < s.len() && s[j] == '}' {
            if skip_ws(s, j + 1) == s.len() {
                Some(Seq::empty())
            } else {
                None
            }
        } else {
            match parse_pairs(s, j) {
                None => None,
                Some((ps, m)) => {
                    let m2 = skip_ws(s, m);
                    if m2 < s.len() && s[m2] == '}' {
                        if skip_ws(s, m2 + 1) == s.len() {
                            Some(ps)
                        } else {
                            None
                        }
                    } else {
                        None
                    }
                },
            }
        }
    }
}

/// The abstract value of a parsed field list.
pub open spec fn doc_view(fs: Seq<(String, Node)>) -> Seq<(Seq<char>, DocValue)> {
    fs.map_values(|p: (String, Node)| (p.0@, p.1@))
}

proof fn lemma_digits_val_nonneg(t: Seq<char>)
    requires
        forall|j: int| 0 <= j < t.len() ==> is_digit(t[j]),
    ensures
        digits_val(t) >= 0,
    decreases t.len(),
{
    if t.len() > 0 {
        lemma_digits_val_nonneg(t.drop_last());
    }
}

proof fn lemma_digits_val_mono(t: Seq<char>, m: int)
    requires
        forall|j: int| 0 <= j < t.len() ==> is_digit(t[j]),
        0 <= m <= t.len(),
    ensures
        digits_val(t.take(m)) <= digits_val(t),
    decreases t.len(),
{
    if m == t.len() {
        assert(t.take(m) =~= t);
    } else {
        assert(t.take(m) =~= t.drop_last().take(m));
        lemma_digits_val_mono(t.drop_last(), m);
        lemma_digits_val_nonneg(t.drop_last());
    }
}

pub(crate) fn skip_ws_exec(s: &str, i: usize) -> (r: usize)
    requires
        i <= s@.len(),
    ensures
        r == skip_ws(s@, i as int),
        i <= r <= s@.len(),
{
    let n = s.unicode_len();
    let mut k = i;
    loop
        invariant
            i <= k <= n,
            n == s@.len(),
            skip_ws(s@, i as int) == skip_ws(s@, k as int),
        decreases n - k,
    {
        if k >= n {
            return k;
        }
        let c = s.get_char(k);
        if !(c == ' ' || c == '\t' || c == '\n' || c == '\r') {
            return k;
        }
        k = k + 1;
    }
}

pub(crate) fn scan_quote_exec(s: &str, i: usize) -> (r: Option<usize>)
    requires
        i <= s@.len(),
    ensures
        match r {
            Some(q) => scan_quote(s@, i as int) == Some(q as int) && i <= q < s@.len(),
            None => scan_quote(s@, i as int) is None,
        },
{
    let n = s.unicode_len();
    let mut k = i;
    loop
        invariant
            i <= k <= n,
            n == s@.len(),
            scan_quote(s@, i as int) == scan_quote(s@, k as int),
        decreases n - k,
    {
        if k >= n {
            return None;
        }
        let c = s.get_char(k);
        if c == '"' {
            return Some(k);
        }
        k = k + 1;
    }
}

pub(crate) fn scan_digits_exec(s: &str, i: usize) -> (e: usize)
    requires
        i <= s@.len(),
    ensures
        e == scan_digits(s@, i as int),
        i <= e <= s@.len(),
        forall|j: int| i <= j < e ==> is_digit(s@[j]),
{
    let n = s.unicode_len();
    let mut k = i;
    loop
        invariant
            i <= k <= n,
            n == s@.len(),
            scan_digits(s@, i as int) == scan_digits(s@, k as int),
            forall|j: int| i <= j < k ==> is_digit(s@[j]),
        decreases n - k,
    {
        if k >= n {
            return k;
        }
        let c = s.get_char(k);
        if !('0' <= c && c <= '9') {
            return k;
        }
        k = k + 1;
    }
}

pub(crate) fn parse_number_exec(s: &str, i: usize) -> (r: Option<(u64, usize)>)
    requires
        i <= s@.len(),
    ensures
        match r {
            Some(p) => parse_number(s@, i as int) == Some((p.0, p.1 as int)) && i < p.1 <= s@.len(),
            None => parse_number(s@, i as int) is None,
        },
{
    let e = scan_digits_exec(s, i);
    if e == i {
        return None;
    }
    let ghost digits = s@.subrange(i as int, e as int);
    let mut acc: u64 = 0;
    let mut k = i;
    loop
        invariant
            i <= k <= e,
            e <= s@.len(),
            e == scan_digits(s@, i as int),
            i < e,
            forall|j: int| i <= j < e ==> is_digit(s@[j]),
            digits == s@.subrange(i as int, e as int),
            acc as int == digits_val(s@.subrange(i as int, k as int)),
        decreases e - k,
    {
        if k >= e {
            proof {
                assert(digits =~= s@.subrange(i as int, k as int));
            }
            return Some((acc, e));
        }
        let c = s.get_char(k);
        let d: u64 = (c as u32 - '0' as u32) as u64;
        proof {
            assert(is_digit(s@[k as int]));
            assert(d == digit_val(s@[k as int]));
            assert(s@.subrange(i as int, k as int + 1).drop_last() =~= s@.subrange(
                i as int,
                k as int,
            ));
            assert(s@.subrange(i as int, k as int + 1).last() == s@[k as int]);
        }
        let wide: u128 = (acc as u128) * 10 + (d as u128);
        if wide > u64::MAX as u128 {
            proof {
                assert(s@.subrange(i as int, k as int + 1) =~= digits.take(k as int + 1 - i));
                assert(forall|j: int| 0 <= j < digits.len() ==> is_digit(digits[j]));
                lemma_digits_val_mono(digits, k as int + 1 - i);
            }
            return None;
        }
        acc = wide as u64;
        k = k + 1;
    }
}

pub(crate) fn lit_at_exec(s: &str, i: usize, lit: &str) -> (r: bool)
    requires
        i <= s@.len(),
    ensures
        r == lit_at(s@, i as int, lit@),
{
    let n = s.unicode_len();
    let m = lit.unicode_len();
    if m > n - i {
        return false;
    }
    let sub = s.substring_char(i, i + m);
    str_eq(sub, lit)
}

pub(crate) fn parse_value_exec(s: &str, i: usize) -> (r: Option<(Node, usize)>)
    requires
        i <= s@.len(),
    ensures
        match r {
            Some(p) => parse_value(s@, i as int) == Some((p.0@, p.1 as int)) && i < p.1 <= s@.len(),
            None => parse_value(s@, i as int) is None,
        },
{
    let n = s.unicode_len();
    if i >= n {
        return None;
    }
    let c = s.get_char(i);
    if c == '"' {
        match scan_quote_exec(s, i + 1) {
            None => None,
            Some(q) => {
                let sub = s.substring_char(i + 1, q);
                let text = sub.to_owned();
                Some((Node::Text(text), q + 1))
            },
        }
    } else if '0' <= c && c <= '9' {
        match parse_number_exec(s, i) {
            None => None,
            Some(p) => Some((Node::Unsigned(p.0), p.1)),
        }
    } else if lit_at_exec(s, i, "true") {
        proof {
            reveal_strlit("true");
        }
        Some((Node::Flag(true), i + 4))
    } else if lit_at_exec(s, i, "false") {
        proof {
            reveal_strlit("false");
        }
        Some((Node::Flag(false), i + 5))
    } else if lit_at_exec(s, i, "null") {
        proof {
            reveal_strlit("null");
        }
        Some((Node::Null, i + 4))
    } else {
        None
    }
}

pub(crate) fn parse_pairs_exec(s: &str, i: usize) -> (r: Option<(Vec<(String, Node)>, usize)>)
    requires
        i <= s@.len(),
    ensures
        match r {
            Some(p) => parse_pairs(s@, i as int) == Some((doc_view(p.0@), p.1 as int)) && p.1
                <= s@.len(),
            None => parse_pairs(s@, i as int) is None,
        },
    decreases s@.len() - i,
{
    let n = s.unicode_len();
    if i >= n {
        return None;
    }
    if s.get_char(i) != '"' {
        return None;
    }
    let q = match scan_quote_exec(s, i + 1) {
        None => {
            return None;
        },
        Some(q) => q,
    };
    let name_str = s.substring_char(i + 1, q);
    let name = name_str.to_owned();
    let j = skip_ws_exec(s, q + 1);
    if j >= n {
        return None;
    }
    if s.get_char(j) != ':' {
        return None;
    }
    let k = skip_ws_exec(s, j + 1);
    let (v, m) = match parse_value_exec(s, k) {
        None => {
            return None;
        },
        Some(p) => p,
    };
    let ghost namev = name@;
    let ghost vv = v@;
    let m2 = skip_ws_exec(s, m);
    if m2 < n && s.get_char(m2) == ',' {
        let n2 = skip_ws_exec(s, m2 + 1);
        if n2 <= i {
            return None;
        }
        match parse_pairs_exec(s, n2) {
            None => None,
            Some((rest, e)) => {
                let ghost rest0 = rest@;
                let mut ps = rest;
                ps.insert(0, (name, v));
                proof {
                    assert(ps@ =~= seq![(name, v)] + rest0);
                    assert(doc_view(ps@) =~= seq![(namev, vv)] + doc_view(rest0));
                }
                Some((ps, e))
            },
        }
    } else {
        let mut ps: Vec<(String, Node)> = Vec::new();
        ps.push((name, v));
        proof {
            assert(doc_view(ps@) =~= seq![(namev, vv)]);
        }
        Some((ps, m2))
    }
}

pub(crate) fn parse_document_exec(s: &str) -> (r: Option<Vec<(String, Node)>>)
    ensures
        match r {
            Some(ps) => spec_parse_document(s@) == Some(doc_view(ps@)),
            None => spec_parse_document(s@) is None,
        },
{
    let n = s.unicode_len();
    let i = skip_ws_exec(s, 0);
    if i >= n {
        return None;
    }
    if s.get_char(i) != '{' {
        return None;
    }
    let j = skip_ws_exec(s, i + 1);
    if j < n && s.get_char(j) == '}' {
        if skip_ws_exec(s, j + 1) == n {
            let ps: Vec<(String, Node)> = Vec::new();
            proof {
                assert(doc_view(ps@) =~= Seq::<(Seq<char>, DocValue)>::empty());
            }
            Some(ps)
        } else {
            None
        }
    } else {
        match parse_pairs_exec(s, j) {
            None => None,
            Some((ps, m)) => {
                let m2 = skip_ws_exec(s, m);
                if m2 < n && s.get_char(m2) == '}' {
                    if skip_ws_exec(s, m2 + 1) == n {
                        Some(ps)
                    } else {
                        None
                    }
                } else {
                    None
                }
            },
        }
    }
}

} // verus!
