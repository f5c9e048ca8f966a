//! The tagged attribute-value representation the database hands back, the
//! JSON scalar shape the service exposes, and the translation between them.
//!
//! A numeric attribute arrives as text. The translation parses it as a
//! 64-bit signed integer first; failing that, it keeps the text as a decimal
//! literal when it has the syntax `f64::from_str` accepts (rendered as a JSON
//! number downstream); failing both, the raw text is passed through as a
//! string.

use vstd::prelude::*;
use crate::strings::find_first;
use crate::strings::lemma_find_first_is;

verus! {

/// A database attribute value, reduced to what the translation reads:
/// string, numeric text, boolean, null, or the printable form of any
/// other tag (the unsupported fallback).
pub enum AttrValue {
    S(String),
    N(String),
    Bool(bool),
    Null(bool),
    Other(String),
}

pub enum AttrValueModel {
    S(Seq<char>),
    N(Seq<char>),
    Bool(bool),
    Null(bool),
    Other(Seq<char>),
}

impl View for AttrValue {
    type V = AttrValueModel;

    open spec fn view(&self) -> AttrValueModel {
        match self {
            AttrValue::S(s) => AttrValueModel::S(s@),
            AttrValue::N(n) => AttrValueModel::N(n@),
            AttrValue::Bool(b) => AttrValueModel::Bool(*b),
            AttrValue::Null(b) => AttrValueModel::Null(*b),
            AttrValue::Other(d) => AttrValueModel::Other(d@),
        }
    }
}

/// A JSON scalar. A non-integral number keeps its decimal source text;
/// the unverified edge renders it as a JSON number.
pub enum JsonScalar {
    Str(String),
    Int(i64),
    FloatLit(String),
    Bool(bool),
    Null,
}

pub enum JsonScalarModel {
    Str(Seq<char>),
    Int(int),
    FloatLit(Seq<char>),
    Bool(bool),
    Null,
}

impl View for JsonScalar {
    type V = JsonScalarModel;

    open spec fn view(&self) -> JsonScalarModel {
        match self {
            JsonScalar::Str(s) => JsonScalarModel::Str(s@),
            JsonScalar::Int(i) => JsonScalarModel::Int(*i as int),
            JsonScalar::FloatLit(s) => JsonScalarModel::FloatLit(s@),
            JsonScalar::Bool(b) => JsonScalarModel::Bool(*b),
            JsonScalar::Null => JsonScalarModel::Null,
        }
    }
}

pub open spec fn is_digit(c: char) -> bool {
    48 <= c as int <= 57
}

pub open spec fn digit_val(c: char) -> int {
    c as int - 48
}

pub open spec fn digits_in(s: Seq<char>, a: int, b: int) -> bool {
    forall|i: int| a <= i < b ==> is_digit(s[i])
}

/// Value of the decimal digit run `s[a..b]`.
pub open spec fn digits_value(s: Seq<char>, a: int, b: int) -> int
    decreases b - a,
{
    if a < b {
        digits_value(s, a, b - 1) * 10 + digit_val(s[b - 1])
    } else {
        0
    }
}

proof fn lemma_digits_value_nonneg(s: Seq<char>, a: int, b: int)
    requires
        digits_in(s, a, b),
    ensures
        digits_value(s, a, b) >= 0,
    decreases b - a,
{
    if a < b {
        lemma_digits_value_nonneg(s, a, b - 1);
    }
}

proof fn lemma_digits_value_monotone(s: Seq<char>, a: int, b1: int, b2: int)
    requires
        a <= b1 <= b2,
        digits_in(s, a, b2),
    ensures
        digits_value(s, a, b2) >= digits_value(s, a, b1),
    decreases b2 - b1,
{
    if b1 < b2 {
        lemma_digits_value_monotone(s, a, b1, b2 - 1);
        lemma_digits_value_nonneg(s, a, b2 - 1);
    }
}

/// What `i64::from_str` accepts, and the value it returns: an optional
/// sign, then at least one decimal digit, with the signed value in range.
pub open spec fn parses_to_i64(s: Seq<char>) -> Option<int> {
    let signed = s.len() > 0 && (s[0] == '+' || s[0] == '-');
    let a: int = if signed { 1 } else { 0 };
    let neg = s.len() > 0 && s[0] == '-';
    if s.len() - a >= 1 && digits_in(s, a, s.len() as int) {
        let m = digits_value(s, a, s.len() as int);
        let v: int = if neg { -m } else { m };
        if i64::MIN <= v <= i64::MAX {
            Some(v)
        } else {
            None
        }
    } else {
        None
    }
}

/// Decimal-integer parsing as `i64::from_str` does it: `Some` exactly on
/// an optionally signed digit run whose value fits in an `i64`.
pub fn parse_i64(s: &str) -> (r: Option<i64>)
    ensures
        r is Some <==> parses_to_i64(s@) is Some,
        r matches Some(v) ==> parses_to_i64(s@) == Some(v as int),
{
    let n = s.unicode_len();
    if n == 0 {
        return None;
    }
    let c0 = s.get_char(0);
    let neg = c0 == '-';
    let a: usize = if c0 == '-' || c0 == '+' {
        1
    } else {
        0
    };
    if n == a {
        return None;
    }
    let lim: u64 = if neg {
        9223372036854775808
    } else {
        9223372036854775807
    };
    let mut acc: u64 = 0;
    let mut i: usize = a;
    while i < n
        invariant
            a <= i <= n,
            a <= 1,
            n == s@.len(),
            n > a,
            neg == (s@[0] == '-'),
            a == 1 <==> (s@[0] == '-' || s@[0] == '+'),
            lim == if neg { 9223372036854775808u64 } else { 9223372036854775807u64 },
            digits_in(s@, a as int, i as int),
            acc as int == digits_value(s@, a as int, i as int),
            acc <= lim,
        decreases n - i,
    {
        let c = s.get_char(i);
        let cu = c as u32;
        if cu < 48 || cu > 57 {
            proof {
                assert(!digits_in(s@, a as int, n as int)) by {
                    assert(!is_digit(s@[i as int]));
                }
            }
            return None;
        }
        let d = (cu - 48) as u64;
        if acc > lim / 10 || (acc == lim / 10 && d > lim % 10) {
            proof {
                let full = s@.len() as int;
                assert(digits_value(s@, a as int, i + 1) == acc as int * 10 + d);
                assert(acc as int * 10 + d > lim) by {
                    if acc > lim / 10 {
                        assert(acc as int >= lim as int / 10 + 1);
                        assert(acc as int * 10 >= (lim as int / 10 + 1) * 10) by (nonlinear_arith)
                            requires acc as int >= lim as int / 10 + 1;
                    }
                }
                if digits_in(s@, a as int, full) {
                    lemma_digits_value_monotone(s@, a as int, i + 1, full);
                    assert(digits_value(s@, a as int, full) > lim);
                }
            }
            return None;
        }
        proof {
            assert(acc * 10 + d <= lim) by {
                assert(acc as int * 10 <= (lim as int / 10) * 10) by (nonlinear_arith)
                    requires acc as int <= lim as int / 10;
            }
            assert(digits_value(s@, a as int, i + 1) == acc as int * 10 + d);
        }
        acc = acc * 10 + d;
        i += 1;
    }
    if neg {
        if acc == 9223372036854775808u64 {
            Some(i64::MIN)
        } else {
            Some(-(acc as i64))
        }
    } else {
        Some(acc as i64)
    }
}

pub open spec fn lower_code(c: char) -> int {
    if 65 <= c as int <= 90 {
        c as int + 32
    } else {
        c as int
    }
}

/// `s[a..]` equals `lit` up to ASCII case.
pub open spec fn match_ic_from(s: Seq<char>, a: int, lit: Seq<char>) -> bool {
    s.len() - a == lit.len() && (forall|i: int|
        0 <= i < lit.len() ==> lower_code(s[a + i]) == lower_code(lit[i]))
}

fn match_ic(s: &str, a: usize, lit: &str) -> (r: bool)
    requires
        a <= s@.len(),
    ensures
        r == match_ic_from(s@, a as int, lit@),
{
    let n = s.unicode_len();
    let ln = lit.unicode_len();
    if n - a != ln {
        return false;
    }
    let mut i: usize = 0;
    while i < ln
        invariant
            i <= ln,
            a + ln == n,
            n == s@.len(),
            ln == lit@.len(),
            forall|j: int| 0 <= j < i ==> lower_code(s@[a + j]) == lower_code(lit@[j]),
        decreases ln - i,
    {
        let cs = s.get_char(a + i) as u32;
        let cl = lit.get_char(i) as u32;
        let ls = if 65 <= cs && cs <= 90 {
            cs + 32
        } else {
            cs
        };
        let ll = if 65 <= cl && cl <= 90 {
            cl + 32
        } else {
            cl
        };
        if ls != ll {
            return false;
        }
        i += 1;
    }
    true
}

fn digits_range(s: &str, a: usize, b: usize) -> (r: bool)
    requires
        a <= b <= s@.len(),
    ensures
        r == digits_in(s@, a as int, b as int),
{
    let mut i: usize = a;
    while i < b
        invariant
            a <= i <= b <= s@.len(),
            digits_in(s@, a as int, i as int),
        decreases b - i,
    {
        let cu = s.get_char(i) as u32;
        if cu < 48 || cu > 57 {
            proof {
                assert(!digits_in(s@, a as int, b as int)) by {
                    assert(!is_digit(s@[i as int]));
                }
            }
            return false;
        }
        i += 1;
    }
    true
}

fn find_marker(s: &str, a: usize, b: usize, c1: char, c2: char) -> (r: usize)
    requires
        a <= b <= s@.len(),
    ensures
        r == find_first(s@, a as int, b as int, c1, c2),
        a <= r <= b,
{
    let mut i: usize = a;
    while i < b
        invariant
            a <= i <= b <= s@.len(),
            forall|j: int| a <= j < i ==> s@[j] != c1 && s@[j] != c2,
        decreases b - i,
    {
        let c = s.get_char(i);
        if c == c1 || c == c2 {
            proof {
                lemma_find_first_is(s@, a as int, b as int, c1, c2, i as int);
            }
            return i;
        }
        i += 1;
    }
    proof {
        lemma_find_first_is(s@, a as int, b as int, c1, c2, b as int);
    }
    b
}

/// A mantissa over `s[a..b]`: a digit run, possibly with one dot, with at
/// least one digit on one side of it.
pub open spec fn is_mantissa_range(s: Seq<char>, a: int, b: int) -> bool {
    let d = find_first(s, a, b, '.', '.');
    if d == b {
        b - a >= 1 && digits_in(s, a, b)
    } else {
        digits_in(s, a, d) && digits_in(s, d + 1, b) && (d > a || b > d + 1)
    }
}

/// An exponent over `s[a..b]`: an optional sign, then at least one digit.
pub open spec fn is_exp_range(s: Seq<char>, a: int, b: int) -> bool {
    let a2: int = if a < b && (s[a] == '+' || s[a] == '-') {
        a + 1
    } else {
        a
    };
    b - a2 >= 1 && digits_in(s, a2, b)
}

/// What `f64::from_str` accepts (its acceptance does not depend on the
/// magnitude of the value): an optional sign, then `inf`, `infinity` or
/// `nan` up to case, or a mantissa with an optional `e`/`E` exponent.
pub open spec fn is_f64_literal(s: Seq<char>) -> bool {
    let a: int = if s.len() > 0 && (s[0] == '+' || s[0] == '-') {
        1
    } else {
        0
    };
    ||| match_ic_from(s, a, "inf"@)
    ||| match_ic_from(s, a, "infinity"@)
    ||| match_ic_from(s, a, "nan"@)
    ||| {
        let e = find_first(s, a, s.len() as int, 'e', 'E');
        if e == s.len() as int {
            is_mantissa_range(s, a, s.len() as int)
        } else {
            is_mantissa_range(s, a, e) && is_exp_range(s, e + 1, s.len() as int)
        }
    }
}

fn mantissa_range(s: &str, a: usize, b: usize) -> (r: bool)
    requires
        a <= b <= s@.len(),
    ensures
        r == is_mantissa_range(s@, a as int, b as int),
{
    let d = find_marker(s, a, b, '.', '.');
    if d == b {
        b - a >= 1 && digits_range(s, a, b)
    } else {
        digits_range(s, a, d) && digits_range(s, d + 1, b) && (d > a || b > d + 1)
    }
}

/// Syntax check matching `f64::from_str`'s accepted grammar.
pub fn is_f64_literal_str(s: &str) -> (r: bool)
    ensures
        r == is_f64_literal(s@),
{
    let n = s.unicode_len();
    let a: usize = if n > 0 {
        let c0 = s.get_char(0);
        if c0 == '+' || c0 == '-' {
            1
        } else {
            0
        }
    } else {
        0
    };
    if match_ic(s, a, "inf") || match_ic(s, a, "infinity") || match_ic(s, a, "nan") {
        return true;
    }
    let e = find_marker(s, a, n, 'e', 'E');
    if e == n {
        mantissa_range(s, a, n)
    } else {
        if !mantissa_range(s, a, e) {
            return false;
        }
        let a2: usize = if e + 1 < n {
            let ce = s.get_char(e + 1);
            if ce == '+' || ce == '-' {
                e + 2
            } else {
                e + 1
            }
        } else {
            e + 1
        };
        n - a2 >= 1 && digits_range(s, a2, n)
    }
}

/// How one tagged value becomes a JSON scalar: strings pass through;
/// numeric text becomes an integer, else a decimal literal, else the raw
/// text; booleans and nulls map directly; any other tag falls back to its
/// printable form as a string.
pub open spec fn spec_translate(v: AttrValueModel) -> JsonScalarModel {
    match v {
        AttrValueModel::S(s) => JsonScalarModel::Str(s),
        AttrValueModel::N(n) => match parses_to_i64(n) {
            Option::Some(i) => JsonScalarModel::Int(i),
            Option::None => if is_f64_literal(n) {
                JsonScalarModel::FloatLit(n)
            } else {
                JsonScalarModel::Str(n)
            },
        },
        AttrValueModel::Bool(b) => JsonScalarModel::Bool(b),
        AttrValueModel::Null(_) => JsonScalarModel::Null,
        AttrValueModel::Other(d) => JsonScalarModel::Str(d),
    }
}

pub fn translate_value(v: &AttrValue) -> (r: JsonScalar)
    ensures
        r@ == spec_translate(v@),
{
    match v {
        AttrValue::S(s) => JsonScalar::Str(s.clone()),
        AttrValue::N(n) => match parse_i64(n.as_str()) {
            Option::Some(i) => JsonScalar::Int(i),
            Option::None => if is_f64_literal_str(n.as_str()) {
                JsonScalar::FloatLit(n.clone())
            } else {
                JsonScalar::Str(n.clone())
            },
        },
        AttrValue::Bool(b) => JsonScalar::Bool(*b),
        AttrValue::Null(_) => JsonScalar::Null,
        AttrValue::Other(d) => JsonScalar::Str(d.clone()),
    }
}

/// Translates one scanned row, column by column, keeping column order.
pub fn translate_item(row: &Vec<(String, AttrValue)>) -> (r: Vec<(String, JsonScalar)>)
    ensures
        r@.len() == row@.len(),
        forall|i: int| 0 <= i < row@.len() ==> (#[trigger] r@[i]).0@ == row@[i].0@,
        forall|i: int| 0 <= i < row@.len() ==> (#[trigger] r@[i]).1@ == spec_translate(row@[i].1@),
{
    let mut r: Vec<(String, JsonScalar)> = Vec::new();
    let mut i: usize = 0;
    while i < row.len()
        invariant
            i <= row@.len(),
            r@.len() == i,
            forall|j: int| 0 <= j < i ==> (#[trigger] r@[j]).0@ == row@[j].0@,
            forall|j: int| 0 <= j < i ==> (#[trigger] r@[j]).1@ == spec_translate(row@[j].1@),
        decreases row@.len() - i,
    {
        let (k, v) = &row[i];
        let kk = k.clone();
        let tv = translate_value(v);
        let ghost gk = kk@;
        let ghost gtv = tv@;
        r.push((kk, tv));
        proof {
            assert(r@[i as int].0@ == gk);
            assert(r@[i as int].1@ == gtv);
        }
        i += 1;
    }
    r
}

} // verus!
