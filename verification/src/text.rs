//! Text helpers: joining, and whole numbers in decimal notation.
use itertools::Itertools;
use vstd::prelude::*;
use vstd::string::{StrSliceExecFns, StringExecFns};

verus! {

pub open spec fn strings_view(s: Seq<String>) -> Seq<Seq<char>> {
    Seq::new(s.len(), |i: int| s[i]@)
}

/// The parts written one after another, with `sep` between neighbours.
pub open spec fn joined(parts: Seq<Seq<char>>, sep: Seq<char>) -> Seq<char>
    decreases parts.len(),
{
    if parts.len() == 0 {
        Seq::empty()
    } else if parts.len() == 1 {
        parts[0]
    } else {
        joined(parts.drop_last(), sep) + sep + parts.last()
    }
}

/// `Itertools::join` over the strings of `parts`: the result is the first
/// string, then for every further one the separator and the string. This is
/// what the method's source does, and it is believed here, not proved.
#[verifier::external_body]
pub(crate) fn join(parts: &Vec<String>, sep: &str) -> (r: String)
    ensures
        r@ == joined(strings_view(parts@), sep@),
{
    parts.iter().join(sep)
}

/// `a` followed by `b`.
pub fn concat(a: &str, b: &str) -> (r: String)
    ensures
        r@ == a@ + b@,
{
    let mut out = String::from_str(a);
    out.append(b);
    out
}

/// The value of a decimal digit.
pub open spec fn digit_value(c: char) -> Option<int> {
    if c == '0' {
        Some(0)
    } else if c == '1' {
        Some(1)
    } else if c == '2' {
        Some(2)
    } else if c == '3' {
        Some(3)
    } else if c == '4' {
        Some(4)
    } else if c == '5' {
        Some(5)
    } else if c == '6' {
        Some(6)
    } else if c == '7' {
        Some(7)
    } else if c == '8' {
        Some(8)
    } else if c == '9' {
        Some(9)
    } else {
        None
    }
}

/// The number that a non-empty run of decimal digits denotes.
pub open spec fn decimal_value(s: Seq<char>) -> Option<int>
    decreases s.len(),
{
    if s.len() == 0 {
        None
    } else if s.len() == 1 {
        digit_value(s[0])
    } else {
        match (decimal_value(s.drop_last()), digit_value(s.last())) {
            (Some(h), Some(d)) => Some(h * 10 + d),
            _ => None,
        }
    }
}

/// The number that decimal digits with an optional leading `-` denote.
pub open spec fn signed_decimal_value(s: Seq<char>) -> Option<int> {
    if s.len() > 0 && s[0] == '-' {
        match decimal_value(s.subrange(1, s.len() as int)) {
            Some(v) => Some(-v),
            None => None,
        }
    } else {
        decimal_value(s)
    }
}

pub fn digit(c: char) -> (r: Option<u8>)
    ensures
        match r {
            Some(d) => digit_value(c) == Some(d as int) && d < 10,
            None => digit_value(c) is None,
        },
{
    if c == '0' {
        Some(0)
    } else if c == '1' {
        Some(1)
    } else if c == '2' {
        Some(2)
    } else if c == '3' {
        Some(3)
    } else if c == '4' {
        Some(4)
    } else if c == '5' {
        Some(5)
    } else if c == '6' {
        Some(6)
    } else if c == '7' {
        Some(7)
    } else if c == '8' {
        Some(8)
    } else if c == '9' {
        Some(9)
    } else {
        None
    }
}

/// A run of digits that has a prefix worth `h` is worth at least `h`, if it is a number at all.
pub proof fn lemma_decimal_value_grows(s: Seq<char>, n: int)
    requires
        0 < n <= s.len(),
        decimal_value(s.take(n)) is Some,
    ensures
        decimal_value(s.take(n))->0 >= 0,
        decimal_value(s) matches Some(v) ==> v >= decimal_value(s.take(n))->0,
    decreases s.len() - n,
{
    lemma_decimal_value_nonnegative(s.take(n));
    if n == s.len() {
        assert(s.take(n) =~= s);
    } else {
        if s.len() > 1 {
            assert(s.drop_last().take(n) =~= s.take(n));
            lemma_decimal_value_grows(s.drop_last(), n);
        }
    }
}

pub proof fn lemma_decimal_value_nonnegative(s: Seq<char>)
    ensures
        decimal_value(s) matches Some(v) ==> v >= 0,
    decreases s.len(),
{
    if s.len() > 1 {
        lemma_decimal_value_nonnegative(s.drop_last());
    }
}

/// Reads `s` as a whole number in decimal notation with an optional leading
/// `-`. The result is the number where `s` denotes one that lies between
/// `min` and `max`, and nothing otherwise.
pub fn parse_decimal(s: &str, min: i128, max: i128) -> (r: Option<i128>)
    ensures
        r == match signed_decimal_value(s@) {
            Some(v) => if min <= v <= max {
                Some(v as i128)
            } else {
                None
            },
            None => None,
        },
{
    let n = s.unicode_len();
    if n == 0 {
        return None;
    }
    let negative = s.get_char(0) == '-';
    let first: usize = if negative { 1 } else { 0 };
    let ghost digits = if negative { s@.subrange(1, s@.len() as int) } else { s@ };
    let ghost sign: int = if negative { -1 } else { 1 };
    if first >= n {
        return None;
    }
    let mut acc: i128 = 0;
    let mut i: usize = first;
    while i < n
        invariant
            first <= i <= n,
            n == s@.len(),
            first < n,
            first == if negative { 1usize } else { 0usize },
            negative == (s@[0] == '-'),
            sign == if negative { -1int } else { 1int },
            digits == if negative { s@.subrange(1, s@.len() as int) } else { s@ },
            i > first ==> decimal_value(digits.take(i - first)) == Some(sign * acc),
            i == first ==> acc == 0,
        decreases n - i,
    {
        let c = s.get_char(i);
        assert(digits[i - first] == c);
        assert(digits.take(i - first + 1).drop_last() =~= digits.take(i - first));
        assert(digits.take(i - first + 1).last() == c);
        assert(decimal_value(digits.take(i - first + 1)) == match digit_value(c) {
            Some(d) => Some(sign * acc * 10 + d),
            None => None,
        });
        let d = match digit(c) {
            Some(d) => d,
            None => {
                proof {
                    lemma_decimal_value_invalid(digits, i - first);
                }
                return None;
            },
        };
        proof {
            lemma_decimal_value_grows(digits, i - first + 1);
        }
        let scaled = match acc.checked_mul(10) {
            Some(x) => x,
            None => {
                return None;
            },
        };
        let next = if negative {
            scaled.checked_sub(d as i128)
        } else {
            scaled.checked_add(d as i128)
        };
        match next {
            Some(x) => {
                acc = x;
            },
            None => {
                return None;
            },
        }
        i += 1;
    }
    assert(digits.take(n - first) =~= digits);
    if min <= acc && acc <= max {
        Some(acc)
    } else {
        None
    }
}

/// A run that holds something other than a digit is no number.
pub proof fn lemma_decimal_value_invalid(s: Seq<char>, k: int)
    requires
        0 <= k < s.len(),
        digit_value(s[k]) is None,
    ensures
        decimal_value(s) is None,
    decreases s.len(),
{
    if s.len() > 1 && k < s.len() - 1 {
        lemma_decimal_value_invalid(s.drop_last(), k);
    }
}

/// The digit for a value below ten.
pub open spec fn digit_char(d: int) -> char {
    if d == 0 {
        '0'
    } else if d == 1 {
        '1'
    } else if d == 2 {
        '2'
    } else if d == 3 {
        '3'
    } else if d == 4 {
        '4'
    } else if d == 5 {
        '5'
    } else if d == 6 {
        '6'
    } else if d == 7 {
        '7'
    } else if d == 8 {
        '8'
    } else {
        '9'
    }
}

/// The decimal digits of `n`, without leading zeros.
pub open spec fn decimal_digits(n: nat) -> Seq<char>
    decreases n,
{
    if n < 10 {
        seq![digit_char(n as int)]
    } else {
        decimal_digits(n / 10).push(digit_char((n % 10) as int))
    }
}

/// `v` in decimal notation, with a leading `-` where it is negative.
pub open spec fn decimal_text(v: int) -> Seq<char> {
    if v < 0 {
        seq!['-'] + decimal_digits((-v) as nat)
    } else {
        decimal_digits(v as nat)
    }
}

fn digit_str(d: u128) -> (r: &'static str)
    requires
        d < 10,
    ensures
        r@ == seq![digit_char(d as int)],
{
    proof {
        reveal_strlit("0");
        reveal_strlit("1");
        reveal_strlit("2");
        reveal_strlit("3");
        reveal_strlit("4");
        reveal_strlit("5");
        reveal_strlit("6");
        reveal_strlit("7");
        reveal_strlit("8");
        reveal_strlit("9");
    }
    let r = if d == 0 {
        "0"
    } else if d == 1 {
        "1"
    } else if d == 2 {
        "2"
    } else if d == 3 {
        "3"
    } else if d == 4 {
        "4"
    } else if d == 5 {
        "5"
    } else if d == 6 {
        "6"
    } else if d == 7 {
        "7"
    } else if d == 8 {
        "8"
    } else {
        "9"
    };
    assert(r@ =~= seq![digit_char(d as int)]);
    r
}

fn push_digits(out: &mut String, n: u128)
    ensures
        final(out)@ == old(out)@ + decimal_digits(n as nat),
    decreases n,
{
    if n < 10 {
        out.append(digit_str(n));
    } else {
        push_digits(out, n / 10);
        out.append(digit_str(n % 10));
        assert(out@ =~= old(out)@ + decimal_digits(n as nat));
    }
}

/// `v` in decimal notation.
pub fn format_decimal(v: i128) -> (r: String)
    ensures
        r@ == decimal_text(v as int),
{
    let mut out = String::new();
    if v < 0 {
        proof {
            reveal_strlit("-");
        }
        out.append("-");
        let magnitude: u128 = ((-(v + 1)) as u128) + 1;
        push_digits(&mut out, magnitude);
        assert(out@ =~= decimal_text(v as int));
    } else {
        push_digits(&mut out, v as u128);
        assert(out@ =~= decimal_text(v as int));
    }
    out
}

} // verus!
