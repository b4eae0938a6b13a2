//! Typed-value inference for inventory variables: a raw string is
//! classified as a boolean, a 64-bit signed integer, a floating-point
//! literal or a plain string, with one extra rule that lets a quoted run of
//! digits force string typing for a numeric-looking value.
//!
//! The classification is total: every input resolves to some variant.

use vstd::prelude::*;

use crate::text::{spec_is_digit, spec_digit_value, spec_lower, is_digit, str_eq, str_eq_ignore_case};

verus! {

/// The inferred semantic type of a free-form configuration value.
///
/// A floating-point value keeps its literal spelling: turning it into a
/// machine float is the serializer's concern, not the classifier's.
#[derive(Clone, Debug, PartialEq)]
pub enum ValueType {
    Bool(bool),
    Int64(i64),
    Float64(String),
    Str(String),
}

/// The mathematical image of a `ValueType`.
pub ghost enum ValueModel {
    Bool(bool),
    Int64(i64),
    Float64(Seq<char>),
    Str(Seq<char>),
}

impl View for ValueType {
    type V = ValueModel;

    open spec fn view(&self) -> ValueModel {
        match self {
            ValueType::Bool(b) => ValueModel::Bool(*b),
            ValueType::Int64(n) => ValueModel::Int64(*n),
            ValueType::Float64(s) => ValueModel::Float64(s@),
            ValueType::Str(s) => ValueModel::Str(s@),
        }
    }
}

/// The error the classifier's signature allows for; since classification is
/// total, it is never produced.
#[derive(Clone, Copy, Debug, PartialEq, Eq, Structural)]
pub struct ParseValueTypeError;

pub open spec fn spec_all_digits(s: Seq<char>) -> bool {
    forall|i: int| 0 <= i < s.len() ==> spec_is_digit(#[trigger] s[i])
}

/// The numeric value of a run of decimal digits.
pub open spec fn spec_digits_value(s: Seq<char>) -> int
    decreases s.len(),
{
    if s.len() == 0 {
        0
    } else {
        10 * spec_digits_value(s.drop_last()) + spec_digit_value(s.last())
    }
}

pub proof fn lemma_digits_value_nonneg(s: Seq<char>)
    requires
        spec_all_digits(s),
    ensures
        spec_digits_value(s) >= 0,
    decreases s.len(),
{
    if s.len() > 0 {
        assert(spec_all_digits(s.drop_last()));
        lemma_digits_value_nonneg(s.drop_last());
    }
}

/// A digit run is worth at least as much as any of its prefixes.
pub proof fn lemma_digits_value_prefix(s: Seq<char>, i: int)
    requires
        spec_all_digits(s),
        0 <= i <= s.len(),
    ensures
        spec_digits_value(s.take(i)) <= spec_digits_value(s),
    decreases s.len() - i,
{
    if i == s.len() {
        assert(s.take(i) =~= s);
    } else {
        assert(spec_all_digits(s.take(i)));
        lemma_digits_value_nonneg(s.take(i));
        assert(s.take(i + 1).drop_last() =~= s.take(i));
        assert(s.take(i + 1).last() == s[i]);
        lemma_digits_value_prefix(s, i + 1);
    }
}

/// The exact 64-bit signed integer spelled by the string, if it is spelled
/// as one: an optional leading minus and at least one digit, with the value
/// in range.
pub open spec fn spec_int_literal(s: Seq<char>) -> Option<i64> {
    if s.len() > 0 && s[0] == '-' {
        let d = s.drop_first();
        if d.len() > 0 && spec_all_digits(d) && spec_digits_value(d) <= 0x8000_0000_0000_0000 {
            Some((-spec_digits_value(d)) as i64)
        } else {
            None
        }
    } else if s.len() > 0 && spec_all_digits(s) && spec_digits_value(s) <= 0x7fff_ffff_ffff_ffff {
        Some(spec_digits_value(s) as i64)
    } else {
        None
    }
}

fn parse_int64(s: &str) -> (r: Option<i64>)
    ensures
        r == spec_int_literal(s@),
{
    let n = s.unicode_len();
    let neg = n > 0 && s.get_char(0) == '-';
    let start: usize = if neg { 1 } else { 0 };
    let ghost d = if neg { s@.drop_first() } else { s@ };
    assert(d.len() == n - start);
    if n == start {
        return None;
    }
    let mut acc: u128 = 0;
    let mut j: usize = 0;
    assert(d.take(0) =~= Seq::<char>::empty());
    while j < n - start
        invariant
            n == s@.len(),
            start <= 1,
            start < n,
            neg == (n > 0 && s@[0] == '-'),
            start == (if neg { 1int } else { 0int }),
            d == (if start == 1 { s@.drop_first() } else { s@ }),
            d.len() == n - start,
            j <= d.len(),
            forall|k: int| 0 <= k < j ==> spec_is_digit(#[trigger] d[k]),
            acc == spec_digits_value(d.take(j as int)),
            acc <= 0x8000_0000_0000_0000,
        decreases n - start - j,
    {
        let c = s.get_char(start + j);
        assert(d[j as int] == s@[(start + j) as int]);
        if !is_digit(c) {
            return None;
        }
        let dv: u128 = (c as u32 as u128) - 48;
        assert(dv == spec_digit_value(c)) by {
            assert('0' <= c && c <= '9');
        }
        let new_acc: u128 = acc * 10 + dv;
        assert(d.take(j + 1).drop_last() =~= d.take(j as int));
        assert(d.take(j + 1).last() == d[j as int]);
        assert(new_acc == spec_digits_value(d.take(j + 1)));
        if new_acc > 0x8000_0000_0000_0000 {
            proof {
                if spec_all_digits(d) {
                    lemma_digits_value_prefix(d, j + 1);
                }
            }
            return None;
        }
        acc = new_acc;
        j = j + 1;
    }
    assert(d.take(d.len() as int) =~= d);
    assert(acc == spec_digits_value(d));
    if neg {
        if acc == 0x8000_0000_0000_0000 {
            Some(i64::MIN)
        } else {
            Some(-(acc as i64))
        }
    } else {
        if acc > 0x7fff_ffff_ffff_ffff {
            None
        } else {
            Some(acc as i64)
        }
    }
}

/// The number of digits at the front of the string.
pub open spec fn spec_count_digits(s: Seq<char>) -> int
    decreases s.len(),
{
    if s.len() > 0 && spec_is_digit(s[0]) {
        1 + spec_count_digits(s.drop_first())
    } else {
        0
    }
}

pub proof fn lemma_count_digits_bounds(s: Seq<char>)
    ensures
        0 <= spec_count_digits(s) <= s.len(),
    decreases s.len(),
{
    if s.len() > 0 && spec_is_digit(s[0]) {
        lemma_count_digits_bounds(s.drop_first());
    }
}

/// First index at or after `from` that does not hold a digit.
fn scan_digits(s: &str, from: usize) -> (r: usize)
    requires
        from <= s@.len(),
    ensures
        r == from + spec_count_digits(s@.skip(from as int)),
        from <= r <= s@.len(),
{
    let n = s.unicode_len();
    let mut i: usize = from;
    while i < n && is_digit(s.get_char(i))
        invariant
            n == s@.len(),
            from <= i <= n,
            spec_count_digits(s@.skip(from as int)) == (i - from) + spec_count_digits(
                s@.skip(i as int),
            ),
        decreases n - i,
    {
        assert(s@.skip(i as int)[0] == s@[i as int]);
        assert(s@.skip(i as int).drop_first() =~= s@.skip(i + 1));
        i = i + 1;
    }
    proof {
        if i < n {
            assert(s@.skip(i as int)[0] == s@[i as int]);
        }
        assert(spec_count_digits(s@.skip(i as int)) == 0);
    }
    i
}

/// An exponent part: `e` or `E`, an optional sign, then one or more digits
/// reaching the end of the string.
pub open spec fn spec_is_exponent(e: Seq<char>) -> bool {
    if e.len() == 0 || (e[0] != 'e' && e[0] != 'E') {
        false
    } else {
        let t = e.drop_first();
        let t2 = if t.len() > 0 && (t[0] == '+' || t[0] == '-') {
            t.drop_first()
        } else {
            t
        };
        t2.len() > 0 && spec_count_digits(t2) == t2.len()
    }
}

/// A decimal number in the floating-point grammar: digits, an optional
/// point with further digits (at least one digit overall), then an optional
/// exponent.
pub open spec fn spec_is_decimal(b: Seq<char>) -> bool {
    let n1 = spec_count_digits(b);
    let after = b.skip(n1);
    if after.len() == 0 {
        n1 > 0
    } else if after[0] == '.' {
        let frac = after.drop_first();
        let n2 = spec_count_digits(frac);
        let rest = frac.skip(n2);
        (n1 > 0 || n2 > 0) && (rest.len() == 0 || spec_is_exponent(rest))
    } else {
        n1 > 0 && spec_is_exponent(after)
    }
}

/// A 64-bit floating-point literal: an optional sign, then either a decimal
/// number or one of the special spellings `inf`, `infinity` and `nan`,
/// compared ignoring case.
pub open spec fn spec_float_literal(s: Seq<char>) -> bool {
    let b = if s.len() > 0 && (s[0] == '+' || s[0] == '-') {
        s.drop_first()
    } else {
        s
    };
    spec_lower(b) == "inf"@ || spec_lower(b) == "infinity"@ || spec_lower(b) == "nan"@
        || spec_is_decimal(b)
}

fn is_exponent_at(s: &str, k: usize) -> (r: bool)
    requires
        k <= s@.len(),
    ensures
        r == spec_is_exponent(s@.skip(k as int)),
{
    let n = s.unicode_len();
    let ghost e = s@.skip(k as int);
    if k >= n {
        return false;
    }
    let c = s.get_char(k);
    assert(e[0] == s@[k as int]);
    if c != 'e' && c != 'E' {
        return false;
    }
    let ghost t = e.drop_first();
    assert(t =~= s@.skip(k + 1));
    let mut m: usize = k + 1;
    if m < n {
        let cs = s.get_char(m);
        assert(t[0] == s@[m as int]);
        if cs == '+' || cs == '-' {
            m = m + 1;
        }
    }
    let ghost t2 = s@.skip(m as int);
    proof {
        if t.len() > 0 && (t[0] == '+' || t[0] == '-') {
            assert(t.drop_first() =~= s@.skip(k + 2));
        }
    }
    if m >= n {
        assert(t2.len() == 0);
        return false;
    }
    let r = scan_digits(s, m);
    assert(r - m == spec_count_digits(t2));
    proof {
        lemma_count_digits_bounds(t2);
    }
    r == n
}

fn is_float_literal(s: &str) -> (r: bool)
    ensures
        r == spec_float_literal(s@),
{
    let n = s.unicode_len();
    let mut i: usize = 0;
    if n > 0 {
        let c0 = s.get_char(0);
        if c0 == '+' || c0 == '-' {
            i = 1;
        }
    }
    let ghost b = s@.skip(i as int);
    assert(i == 0 ==> b =~= s@);
    let rest = s.substring_char(i, n);
    proof {
        reveal_strlit("inf");
        reveal_strlit("infinity");
        reveal_strlit("nan");
        assert(spec_lower("inf"@) =~= "inf"@);
        assert(spec_lower("infinity"@) =~= "infinity"@);
        assert(spec_lower("nan"@) =~= "nan"@);
    }
    if str_eq_ignore_case(rest, "inf") || str_eq_ignore_case(rest, "infinity")
        || str_eq_ignore_case(rest, "nan") {
        return true;
    }
    // decimal number
    let p1 = scan_digits(s, i);
    let ghost n1 = spec_count_digits(b);
    assert(b.skip(n1) =~= s@.skip(p1 as int));
    if p1 == n {
        return p1 > i;
    }
    let c = s.get_char(p1);
    assert(s@.skip(p1 as int)[0] == s@[p1 as int]);
    if c == '.' {
        let ghost frac = b.skip(n1).drop_first();
        assert(frac =~= s@.skip(p1 + 1));
        let p2 = scan_digits(s, p1 + 1);
        let ghost n2 = spec_count_digits(frac);
        assert(frac.skip(n2) =~= s@.skip(p2 as int));
        if p2 == n {
            p1 > i || p2 > p1 + 1
        } else {
            (p1 > i || p2 > p1 + 1) && is_exponent_at(s, p2)
        }
    } else {
        p1 > i && is_exponent_at(s, p1)
    }
}

/// The digits inside one layer of matching quotes, if the string is exactly
/// a quoted digit run.
pub open spec fn spec_quoted_digits(s: Seq<char>) -> Option<Seq<char>> {
    if s.len() >= 3 && ((s[0] == '\'' && s[s.len() - 1] == '\'') || (s[0] == '"' && s[s.len() - 1]
        == '"')) && spec_all_digits(s.subrange(1, s.len() - 1)) {
        Some(s.subrange(1, s.len() - 1))
    } else {
        None
    }
}

fn quoted_digits(s: &str) -> (r: Option<String>)
    ensures
        match r {
            Some(inner) => spec_quoted_digits(s@) == Some(inner@),
            None => spec_quoted_digits(s@) is None,
        },
{
    let n = s.unicode_len();
    if n < 3 {
        return None;
    }
    let c0 = s.get_char(0);
    let cl = s.get_char(n - 1);
    if !((c0 == '\'' && cl == '\'') || (c0 == '"' && cl == '"')) {
        return None;
    }
    let ghost inner = s@.subrange(1, s@.len() - 1);
    let mut i: usize = 1;
    while i < n - 1
        invariant
            n == s@.len(),
            3 <= n,
            1 <= i <= n - 1,
            inner == s@.subrange(1, s@.len() - 1),
            forall|k: int| 0 <= k < i - 1 ==> spec_is_digit(#[trigger] inner[k]),
        decreases n - i,
    {
        let c = s.get_char(i);
        assert(inner[i - 1] == s@[i as int]);
        if !is_digit(c) {
            assert(!spec_all_digits(inner));
            return None;
        }
        i = i + 1;
    }
    assert(spec_all_digits(inner));
    let sub = s.substring_char(1, n - 1);
    Some(sub.to_owned())
}

/// The classification every raw value goes through, with its precedence:
/// boolean literal, 64-bit integer, floating-point literal, quoted digit
/// run, and finally the string itself.
pub open spec fn spec_infer(s: Seq<char>) -> ValueModel {
    if s == "true"@ {
        ValueModel::Bool(true)
    } else if s == "false"@ {
        ValueModel::Bool(false)
    } else if spec_int_literal(s) is Some {
        ValueModel::Int64(spec_int_literal(s)->0)
    } else if spec_float_literal(s) {
        ValueModel::Float64(s)
    } else if spec_quoted_digits(s) is Some {
        ValueModel::Str(spec_quoted_digits(s)->0)
    } else {
        ValueModel::Str(s)
    }
}

impl ValueType {
    /// Classify a raw value.  The result is always `Ok`: inference is total,
    /// and the error type exists only to keep the conversion's shape.
    pub fn from_str(value: &str) -> (r: Result<ValueType, ParseValueTypeError>)
        ensures
            r matches Ok(v) && v@ == spec_infer(value@),
    {
        if str_eq(value, "true") {
            return Ok(ValueType::Bool(true));
        }
        if str_eq(value, "false") {
            return Ok(ValueType::Bool(false));
        }
        match parse_int64(value) {
            Some(n) => {
                return Ok(ValueType::Int64(n));
            },
            None => {},
        }
        if is_float_literal(value) {
            return Ok(ValueType::Float64(value.to_owned()));
        }
        match quoted_digits(value) {
            Some(inner) => {
                return Ok(ValueType::Str(inner));
            },
            None => {},
        }
        Ok(ValueType::Str(value.to_owned()))
    }
}

/// The decimal digit character for a value below ten.
pub open spec fn spec_digit_char(d: int) -> char {
    if d == 0 {
        '0'
    } else if d == 1 {
        '1'
    } else if d == 2 {
        '2'
    } else if d == 3 {
        '3'
    } else if d == 4 {
        '4'
    } else if d == 5 {
        '5'
    } else if d == 6 {
        '6'
    } else if d == 7 {
        '7'
    } else if d == 8 {
        '8'
    } else {
        '9'
    }
}

/// The digits of a non-negative number, most significant first; zero
/// spells no digit at all.
pub open spec fn spec_digits_of(n: int) -> Seq<char>
    decreases n,
{
    if n <= 0 {
        Seq::empty()
    } else {
        spec_digits_of(n / 10).push(spec_digit_char(n % 10))
    }
}

/// The decimal spelling of a 64-bit signed integer, as its standard
/// formatting produces it.
pub open spec fn spec_int_chars(n: i64) -> Seq<char> {
    if n == 0 {
        seq!['0']
    } else if n > 0 {
        spec_digits_of(n as int)
    } else {
        seq!['-'] + spec_digits_of(-(n as int))
    }
}

proof fn lemma_digits_of_value(n: int)
    requires
        n >= 0,
    ensures
        spec_all_digits(spec_digits_of(n)),
        spec_digits_value(spec_digits_of(n)) == n,
        n > 0 ==> spec_digits_of(n).len() > 0,
    decreases n,
{
    if n > 0 {
        lemma_digits_of_value(n / 10);
        let prior = spec_digits_of(n / 10);
        let whole = prior.push(spec_digit_char(n % 10));
        assert(whole.drop_last() =~= prior);
        assert(whole.last() == spec_digit_char(n % 10));
        assert(spec_digit_value(spec_digit_char(n % 10)) == n % 10);
        assert(spec_digits_value(whole) == 10 * (n / 10) + n % 10);
        assert forall|i: int| 0 <= i < whole.len() implies spec_is_digit(#[trigger] whole[i]) by {
            if i < prior.len() {
                assert(whole[i] == prior[i]);
            }
        }
    }
}

/// Inference undoes integer formatting: the decimal spelling of any 64-bit
/// signed integer classifies back as exactly that integer.
pub proof fn lemma_int_inference_round_trip(n: i64)
    ensures
        spec_infer(spec_int_chars(n)) == ValueModel::Int64(n),
{
    let s = spec_int_chars(n);
    reveal_strlit("true");
    reveal_strlit("false");
    if n == 0 {
        assert(s.len() == 1 && s[0] == '0');
        assert(s != "true"@ && s != "false"@);
        assert(spec_all_digits(s));
        assert(spec_digits_value(s) == 0) by {
            assert(s.drop_last() =~= Seq::<char>::empty());
            assert(spec_digits_value(Seq::<char>::empty()) == 0);
            assert(s.last() == '0');
        }
        assert(spec_int_literal(s) == Some(0i64));
    } else if n > 0 {
        lemma_digits_of_value(n as int);
        assert(s[0] != 't' && s[0] != 'f');
        assert(s != "true"@ && s != "false"@);
        assert(spec_int_literal(s) == Some(n));
    } else {
        lemma_digits_of_value(-(n as int));
        let d = spec_digits_of(-(n as int));
        assert(s[0] == '-');
        assert(s != "true"@ && s != "false"@);
        assert(s.drop_first() =~= d);
        assert(spec_digits_value(d) == -(n as int));
        assert(-(n as int) <= 0x8000_0000_0000_0000);
        assert(spec_int_literal(s) == Some(n));
    }
}

/// First index holding a colon, or the length if there is none.
pub open spec fn spec_find_colon(s: Seq<char>) -> int
    decreases s.len(),
{
    if s.len() == 0 {
        0
    } else if s[0] == ':' {
        0
    } else {
        1 + spec_find_colon(s.drop_first())
    }
}

/// Split a `name:value` variable specification at its first colon and
/// classify the value; `None` when the string holds no colon.
pub fn parse_key_value(s: &str) -> (r: Option<(String, ValueType)>)
    ensures
        ({
            let p = spec_find_colon(s@);
            match r {
                Some(kv) => p < s@.len() && kv.0@ == s@.take(p) && kv.1@ == spec_infer(
                    s@.skip(p + 1),
                ),
                None => p == s@.len(),
            }
        }),
{
    let n = s.unicode_len();
    let mut i: usize = 0;
    assert(s@.skip(0) =~= s@);
    while i < n && s.get_char(i) != ':'
        invariant
            n == s@.len(),
            i <= n,
            spec_find_colon(s@) == i + spec_find_colon(s@.skip(i as int)),
        decreases n - i,
    {
        assert(s@.skip(i as int)[0] == s@[i as int]);
        assert(s@.skip(i as int).drop_first() =~= s@.skip(i + 1));
        i = i + 1;
    }
    proof {
        if i < n {
            assert(s@.skip(i as int)[0] == s@[i as int]);
        }
        assert(spec_find_colon(s@.skip(i as int)) == 0);
    }
    if i >= n {
        return None;
    }
    let key = s.substring_char(0, i);
    assert(key@ =~= s@.take(i as int));
    let value_str = s.substring_char(i + 1, n);
    assert(value_str@ =~= s@.skip(i + 1));
    match ValueType::from_str(value_str) {
        Ok(v) => Some((key.to_owned(), v)),
        Err(_) => None,
    }
}

} // verus!
