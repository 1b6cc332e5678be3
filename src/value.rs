//! Dynamically typed cell values and the rule that infers a cell's type from
//! its text.
use vstd::prelude::*;
use vstd::string::{StrSliceExecFns, StringExecFns};
use crate::text::same_text;

verus! {

/// A cell value whose type was inferred from its text.
///
/// A double is kept as the text that spells it, so that no precision is lost
/// and the value can be read as an `f64` where one is wanted.
#[derive(Debug, PartialEq, Clone)]
pub enum Value {
    Bool(bool),
    U64(u64),
    I64(i64),
    Float(String),
    String(String),
}

/// What a `Value` holds, with strings seen as character sequences.
pub enum ValueModel {
    Bool(bool),
    U64(u64),
    I64(i64),
    Float(Seq<char>),
    Text(Seq<char>),
}

impl View for Value {
    type V = ValueModel;

    open spec fn view(&self) -> ValueModel {
        match self {
            Value::Bool(b) => ValueModel::Bool(*b),
            Value::U64(n) => ValueModel::U64(*n),
            Value::I64(n) => ValueModel::I64(*n),
            Value::Float(t) => ValueModel::Float(t@),
            Value::String(t) => ValueModel::Text(t@),
        }
    }
}

/// The value of a cell: the first reading that takes the whole text, in the
/// order boolean, unsigned integer, signed integer, double, plain string.
pub open spec fn coerced(s: Seq<char>) -> ValueModel {
    if s == "true"@ {
        ValueModel::Bool(true)
    } else if s == "false"@ {
        ValueModel::Bool(false)
    } else if is_u64_text(s) {
        ValueModel::U64(digits_value(unsigned_body(s)) as u64)
    } else if is_i64_text(s) {
        ValueModel::I64(signed_value(s) as i64)
    } else if is_float_text(s) {
        ValueModel::Float(s)
    } else {
        ValueModel::Text(s)
    }
}

/// Infers the type of one cell from its text.
pub fn coerce(s: &str) -> (v: Value)
    ensures
        v@ == coerced(s@),
{
    if same_text(s, "true") {
        Value::Bool(true)
    } else if same_text(s, "false") {
        Value::Bool(false)
    } else if let Some(n) = read_u64(s) {
        Value::U64(n)
    } else if let Some(n) = read_i64(s) {
        Value::I64(n)
    } else if is_float(s) {
        Value::Float(String::from_str(s))
    } else {
        Value::String(String::from_str(s))
    }
}

pub open spec fn is_digit(c: char) -> bool {
    '0' <= c && c <= '9'
}

pub open spec fn digit_value(c: char) -> nat {
    (c as int - '0' as int) as nat
}

pub open spec fn all_digits(s: Seq<char>) -> bool {
    forall|i: int| 0 <= i < s.len() ==> is_digit(#[trigger] s[i])
}

/// The number written by a string of decimal digits.
pub open spec fn digits_value(s: Seq<char>) -> nat
    decreases s.len(),
{
    if s.len() == 0 {
        0
    } else {
        digits_value(s.drop_last()) * 10 + digit_value(s.last())
    }
}

/// A non-empty run of decimal digits.
pub open spec fn is_numeral(s: Seq<char>) -> bool {
    s.len() > 0 && all_digits(s)
}

/// The text after an optional leading `+`.
pub open spec fn unsigned_body(s: Seq<char>) -> Seq<char> {
    if s.len() > 0 && s[0] == '+' {
        s.drop_first()
    } else {
        s
    }
}

/// The text after an optional leading `+` or `-`.
pub open spec fn signed_body(s: Seq<char>) -> Seq<char> {
    if s.len() > 0 && (s[0] == '+' || s[0] == '-') {
        s.drop_first()
    } else {
        s
    }
}

pub open spec fn is_negative(s: Seq<char>) -> bool {
    s.len() > 0 && s[0] == '-'
}

/// Text of an unsigned 64-bit integer: an optional `+`, then decimal digits
/// whose value fits.
pub open spec fn is_u64_text(s: Seq<char>) -> bool {
    is_numeral(unsigned_body(s)) && digits_value(unsigned_body(s)) <= u64::MAX
}

/// The integer written by a signed numeral.
pub open spec fn signed_value(s: Seq<char>) -> int {
    if is_negative(s) {
        -digits_value(signed_body(s))
    } else {
        digits_value(signed_body(s)) as int
    }
}

/// Text of a signed 64-bit integer: an optional sign, then decimal digits
/// whose value fits.
pub open spec fn is_i64_text(s: Seq<char>) -> bool {
    is_numeral(signed_body(s)) && i64::MIN <= signed_value(s) <= i64::MAX
}

proof fn lemma_prefix_value_le(t: Seq<char>, k: int)
    requires
        0 <= k <= t.len(),
    ensures
        digits_value(t.take(k)) <= digits_value(t),
    decreases t.len(),
{
    if k == t.len() {
        assert(t.take(k) =~= t);
    } else {
        lemma_prefix_value_le(t.drop_last(), k);
        assert(t.drop_last().take(k) =~= t.take(k));
    }
}

/// Reads the decimal numeral `s[start..end]`; `None` where it is empty, holds
/// another character, or exceeds `u64::MAX`.
fn read_numeral(s: &str, start: usize, end: usize) -> (r: Option<u64>)
    requires
        start <= end <= s@.len(),
    ensures
        r is Some <==> (is_numeral(s@.subrange(start as int, end as int)) && digits_value(
            s@.subrange(start as int, end as int),
        ) <= u64::MAX),
        r is Some ==> r->0 == digits_value(s@.subrange(start as int, end as int)),
{
    let ghost t = s@.subrange(start as int, end as int);
    if start == end {
        return None;
    }
    let mut v: u64 = 0;
    let mut i: usize = start;
    while i < end
        invariant
            start <= i <= end <= s@.len(),
            t == s@.subrange(start as int, end as int),
            all_digits(t.take(i - start)),
            v == digits_value(t.take(i - start)),
        decreases end - i,
    {
        let c = s.get_char(i);
        assert(t[i - start] == c);
        if !('0' <= c && c <= '9') {
            return None;
        }
        let d = (c as u32 - '0' as u32) as u64;
        let ghost next = t.take(i - start + 1);
        assert(next.drop_last() =~= t.take(i - start));
        assert(next.last() == c);
        assert(all_digits(next));
        match v.checked_mul(10) {
            Some(m) => match m.checked_add(d) {
                Some(w) => {
                    v = w;
                },
                None => {
                    proof {
                        lemma_prefix_value_le(t, i - start + 1);
                    }
                    return None;
                },
            },
            None => {
                proof {
                    lemma_prefix_value_le(t, i - start + 1);
                }
                return None;
            },
        }
        i = i + 1;
    }
    assert(t.take(end - start) =~= t);
    Some(v)
}


/// Reads `s` as an unsigned 64-bit integer (an optional `+`, then digits).
pub fn read_u64(s: &str) -> (r: Option<u64>)
    ensures
        r is Some <==> is_u64_text(s@),
        r is Some ==> r->0 == digits_value(unsigned_body(s@)),
{
    let n = s.unicode_len();
    let start: usize = if n > 0 && s.get_char(0) == '+' {
        1
    } else {
        0
    };
    assert(s@.subrange(start as int, n as int) =~= unsigned_body(s@));
    read_numeral(s, start, n)
}

/// Reads `s` as a signed 64-bit integer (an optional sign, then digits).
pub fn read_i64(s: &str) -> (r: Option<i64>)
    ensures
        r is Some <==> is_i64_text(s@),
        r is Some ==> r->0 == signed_value(s@),
{
    let n = s.unicode_len();
    let neg = n > 0 && s.get_char(0) == '-';
    let start: usize = if n > 0 && (s.get_char(0) == '+' || s.get_char(0) == '-') {
        1
    } else {
        0
    };
    assert(s@.subrange(start as int, n as int) =~= signed_body(s@));
    assert(neg == is_negative(s@));
    match read_numeral(s, start, n) {
        None => None,
        Some(m) => {
            if neg {
                if m <= 9223372036854775807 {
                    Some(-(m as i64))
                } else if m == 9223372036854775808 {
                    Some(i64::MIN)
                } else {
                    None
                }
            } else if m <= 9223372036854775807 {
                Some(m as i64)
            } else {
                None
            }
        },
    }
}

pub open spec fn is_exponent_mark(c: char) -> bool {
    c == 'e' || c == 'E'
}

/// Digits and at most one `.`, with at least one digit.
pub open spec fn is_mantissa(m: Seq<char>) -> bool {
    &&& forall|k: int| 0 <= k < m.len() ==> is_digit(#[trigger] m[k]) || m[k] == '.'
    &&& forall|j: int, k: int|
        0 <= j < m.len() && 0 <= k < m.len() && #[trigger] m[j] == '.' && #[trigger] m[k] == '.'
            ==> j == k
    &&& exists|k: int| 0 <= k < m.len() && is_digit(#[trigger] m[k])
}

/// Empty, or `e`/`E` followed by an optionally signed numeral.
pub open spec fn is_exponent(e: Seq<char>) -> bool {
    e.len() == 0 || (is_exponent_mark(e[0]) && is_numeral(signed_body(e.drop_first())))
}

/// A decimal floating-point number: a mantissa, then an optional exponent.
pub open spec fn is_decimal(b: Seq<char>) -> bool {
    exists|i: int|
        0 <= i <= b.len() && is_mantissa(#[trigger] b.subrange(0, i)) && is_exponent(
            b.subrange(i, b.len() as int),
        )
}

/// `b` is the word `lower`, each letter in the case of `lower` or of `upper`.
pub open spec fn is_word(b: Seq<char>, lower: Seq<char>, upper: Seq<char>) -> bool {
    b.len() == lower.len() && b.len() == upper.len() && forall|k: int|
        0 <= k < b.len() ==> #[trigger] b[k] == lower[k] || b[k] == upper[k]
}

/// Infinity or not-a-number, in any case.
pub open spec fn is_special_float(b: Seq<char>) -> bool {
    is_word(b, "inf"@, "INF"@) || is_word(b, "infinity"@, "INFINITY"@) || is_word(
        b,
        "nan"@,
        "NAN"@,
    )
}

/// Text of an IEEE-754 double: an optional sign, then a decimal number or
/// one of the words for infinity and not-a-number.
pub open spec fn is_float_text(s: Seq<char>) -> bool {
    is_decimal(signed_body(s)) || is_special_float(signed_body(s))
}

/// Whether `s[start..]` is `lower` or `upper` letter by letter.
fn read_word(s: &str, start: usize, lower: &str, upper: &str) -> (r: bool)
    requires
        start <= s@.len(),
    ensures
        r == is_word(s@.subrange(start as int, s@.len() as int), lower@, upper@),
{
    let ghost b = s@.subrange(start as int, s@.len() as int);
    let n = s.unicode_len();
    let len = lower.unicode_len();
    if n - start != len || len != upper.unicode_len() {
        return false;
    }
    let mut k: usize = 0;
    while k < len
        invariant
            n == s@.len(),
            start <= n,
            n - start == len,
            b == s@.subrange(start as int, n as int),
            len == b.len(),
            len == lower@.len(),
            len == upper@.len(),
            k <= len,
            forall|j: int| 0 <= j < k ==> #[trigger] b[j] == lower@[j] || b[j] == upper@[j],
        decreases len - k,
    {
        let c = s.get_char(start + k);
        assert(b[k as int] == c);
        if c != lower.get_char(k) && c != upper.get_char(k) {
            return false;
        }
        k = k + 1;
    }
    true
}

/// Whether `s[start..end]` is a mantissa.
fn read_mantissa(s: &str, start: usize, end: usize) -> (r: bool)
    requires
        start <= end <= s@.len(),
    ensures
        r == is_mantissa(s@.subrange(start as int, end as int)),
{
    let ghost m = s@.subrange(start as int, end as int);
    let mut dot: Option<usize> = None;
    let mut digit: Option<usize> = None;
    let mut i: usize = start;
    while i < end
        invariant
            start <= i <= end <= s@.len(),
            m == s@.subrange(start as int, end as int),
            forall|k: int| 0 <= k < i - start ==> is_digit(#[trigger] m[k]) || m[k] == '.',
            dot is None ==> forall|k: int| 0 <= k < i - start ==> #[trigger] m[k] != '.',
            dot is Some ==> (dot->0 < i - start && m[dot->0 as int] == '.' && forall|k: int|
                0 <= k < i - start && #[trigger] m[k] == '.' ==> k == dot->0),
            digit is None ==> forall|k: int| 0 <= k < i - start ==> !is_digit(#[trigger] m[k]),
            digit is Some ==> (digit->0 < i - start && is_digit(m[digit->0 as int])),
        decreases end - i,
    {
        let c = s.get_char(i);
        assert(m[i - start] == c);
        if '0' <= c && c <= '9' {
            digit = Some(i - start);
        } else if c == '.' {
            if dot.is_some() {
                return false;
            }
            dot = Some(i - start);
        } else {
            return false;
        }
        i = i + 1;
    }
    match digit {
        Some(d) => {
            assert(is_digit(m[d as int]));
            true
        },
        None => false,
    }
}

/// Whether `s[start..]` is an exponent.
fn read_exponent(s: &str, start: usize) -> (r: bool)
    requires
        start <= s@.len(),
    ensures
        r == is_exponent(s@.subrange(start as int, s@.len() as int)),
{
    let ghost e = s@.subrange(start as int, s@.len() as int);
    let n = s.unicode_len();
    if start == n {
        return true;
    }
    let c = s.get_char(start);
    if c != 'e' && c != 'E' {
        return false;
    }
    let mut from: usize = start + 1;
    if from < n && (s.get_char(from) == '+' || s.get_char(from) == '-') {
        from = from + 1;
    }
    assert(s@.subrange(from as int, n as int) =~= signed_body(e.drop_first()));
    let mut i: usize = from;
    while i < n
        invariant
            from <= i <= n,
            n == s@.len(),
            start < n,
            e == s@.subrange(start as int, n as int),
            is_exponent_mark(e[0]),
            s@.subrange(from as int, n as int) =~= signed_body(e.drop_first()),
            forall|k: int| from <= k < i ==> is_digit(#[trigger] s@[k]),
        decreases n - i,
    {
        let c = s.get_char(i);
        if !('0' <= c && c <= '9') {
            assert(!is_digit(s@.subrange(from as int, n as int)[i - from]));
            return false;
        }
        i = i + 1;
    }
    assert(all_digits(s@.subrange(from as int, n as int)));
    from < n
}

/// Whether `s` is the text of an IEEE-754 double, as Rust's `f64` reads it.
pub fn is_float(s: &str) -> (r: bool)
    ensures
        r == is_float_text(s@),
{
    let n = s.unicode_len();
    let start: usize = if n > 0 && (s.get_char(0) == '+' || s.get_char(0) == '-') {
        1
    } else {
        0
    };
    let ghost b = signed_body(s@);
    assert(s@.subrange(start as int, n as int) =~= b);
    proof {
        reveal_strlit("inf");
        reveal_strlit("INF");
        reveal_strlit("infinity");
        reveal_strlit("INFINITY");
        reveal_strlit("nan");
        reveal_strlit("NAN");
    }
    if read_word(s, start, "inf", "INF") || read_word(s, start, "infinity", "INFINITY")
        || read_word(s, start, "nan", "NAN") {
        return true;
    }
    let mut p: usize = start;
    while p < n && s.get_char(p) != 'e' && s.get_char(p) != 'E'
        invariant
            start <= p <= n,
            n == s@.len(),
            forall|k: int| start <= k < p ==> !is_exponent_mark(#[trigger] s@[k]),
        decreases n - p,
    {
        p = p + 1;
    }
    let q = p - start;
    assert(b.subrange(0, q as int) =~= s@.subrange(start as int, p as int));
    assert(b.subrange(q as int, b.len() as int) =~= s@.subrange(p as int, n as int));
    let ok = read_mantissa(s, start, p) && read_exponent(s, p);
    if ok {
        assert(is_decimal(b));
    } else {
        assert forall|i: int| 0 <= i <= b.len() implies !(is_mantissa(
            #[trigger] b.subrange(0, i),
        ) && is_exponent(b.subrange(i, b.len() as int))) by {
            if i < q {
                assert(b.subrange(i, b.len() as int)[0] == b[i]);
                assert(!is_exponent_mark(s@[start + i]));
            } else if i > q {
                assert(b.subrange(0, i)[q as int] == b[q as int]);
                assert(is_exponent_mark(b[q as int]));
            }
        }
    }
    ok
}

/// Coercion tries its readings in a fixed order and the first that takes the
/// whole text wins: the two boolean words are booleans; any other text of an
/// unsigned integer is unsigned; a signed integer that is not unsigned (a
/// negative one) is signed; a double that is no integer is a double; all
/// else is a plain string, kept as it is.
pub proof fn lemma_coercion_order(s: Seq<char>)
    ensures
        (s == "true"@ || s == "false"@) <==> coerced(s) is Bool,
        coerced(s) is U64 <==> (is_u64_text(s) && s != "true"@ && s != "false"@),
        coerced(s) is I64 <==> (is_i64_text(s) && !is_u64_text(s) && s != "true"@ && s
            != "false"@),
        coerced(s) is Float <==> (is_float_text(s) && !is_i64_text(s) && !is_u64_text(s) && s
            != "true"@ && s != "false"@),
        coerced(s) is Text ==> coerced(s) == ValueModel::Text(s),
        is_negative(s) && is_i64_text(s) ==> coerced(s) is I64,
{
    reveal_strlit("true");
    reveal_strlit("false");
    if is_negative(s) {
        assert(!is_digit(unsigned_body(s)[0]));
        if s == "true"@ {
            assert(s[0] == 't');
        }
        if s == "false"@ {
            assert(s[0] == 'f');
        }
    }
}

/// The payload of a `Value::Bool`; any other value comes back as the error.
impl TryFrom<Value> for bool {
    type Error = Value;

    fn try_from(value: Value) -> (r: Result<bool, Value>) {
        match value {
            Value::Bool(x) => Ok(x),
            other => Err(other),
        }
    }
}

impl vstd::std_specs::convert::TryFromSpecImpl<Value> for bool {
    open spec fn obeys_try_from_spec() -> bool {
        true
    }

    open spec fn try_from_spec(value: Value) -> Result<bool, Value> {
        match value {
            Value::Bool(x) => Ok(x),
            other => Err(other),
        }
    }
}

/// The payload of a `Value::U64`; any other value comes back as the error.
impl TryFrom<Value> for u64 {
    type Error = Value;

    fn try_from(value: Value) -> (r: Result<u64, Value>) {
        match value {
            Value::U64(x) => Ok(x),
            other => Err(other),
        }
    }
}

impl vstd::std_specs::convert::TryFromSpecImpl<Value> for u64 {
    open spec fn obeys_try_from_spec() -> bool {
        true
    }

    open spec fn try_from_spec(value: Value) -> Result<u64, Value> {
        match value {
            Value::U64(x) => Ok(x),
            other => Err(other),
        }
    }
}

/// The payload of a `Value::I64`; any other value comes back as the error.
impl TryFrom<Value> for i64 {
    type Error = Value;

    fn try_from(value: Value) -> (r: Result<i64, Value>) {
        match value {
            Value::I64(x) => Ok(x),
            other => Err(other),
        }
    }
}

impl vstd::std_specs::convert::TryFromSpecImpl<Value> for i64 {
    open spec fn obeys_try_from_spec() -> bool {
        true
    }

    open spec fn try_from_spec(value: Value) -> Result<i64, Value> {
        match value {
            Value::I64(x) => Ok(x),
            other => Err(other),
        }
    }
}

/// The payload of a `Value::String`; any other value comes back as the error.
impl TryFrom<Value> for String {
    type Error = Value;

    fn try_from(value: Value) -> (r: Result<String, Value>) {
        match value {
            Value::String(x) => Ok(x),
            other => Err(other),
        }
    }
}

impl vstd::std_specs::convert::TryFromSpecImpl<Value> for String {
    open spec fn obeys_try_from_spec() -> bool {
        true
    }

    open spec fn try_from_spec(value: Value) -> Result<String, Value> {
        match value {
            Value::String(x) => Ok(x),
            other => Err(other),
        }
    }
}

} // verus!
