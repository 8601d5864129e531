//! Decimal text for integers: writing them (`to_string`, `{:02}`) and reading
//! them back (`str::parse` for the integer types).
use vstd::prelude::*;
use crate::text::{all_digits, digit_value, digits_value, is_ascii_digit, is_digit, push_all};

verus! {

broadcast use {vstd::string::group_string_axioms, vstd::slice::group_slice_axioms};

// ── Writing ────────────────────────────────────────────────────────────────

/// The ASCII digit for `d` (0 ≤ d ≤ 9).
pub open spec fn digit_char(d: nat) -> char {
    ('0' as int + d) as char
}

/// The decimal digits of `n`, most significant first, without leading zeros.
pub open spec fn decimal(n: nat) -> Seq<char>
    decreases n,
{
    if n < 10 {
        seq![digit_char(n)]
    } else {
        decimal(n / 10).push(digit_char(n % 10))
    }
}

/// The decimal text of a signed integer, with a leading `-` when negative.
pub open spec fn signed_decimal(n: int) -> Seq<char> {
    if n < 0 {
        seq!['-'] + decimal((-n) as nat)
    } else {
        decimal(n as nat)
    }
}

/// `s` padded on the left with `0` up to `w` characters (`{:0w}`).
pub open spec fn zero_pad(s: Seq<char>, w: nat) -> Seq<char> {
    if s.len() >= w {
        s
    } else {
        Seq::new((w - s.len()) as nat, |i: int| '0') + s
    }
}

proof fn lemma_digit_char(d: nat)
    requires
        d < 10,
    ensures
        is_digit(digit_char(d)),
        digit_value(digit_char(d)) == d,
        d > 0 ==> digit_char(d) != '0',
{
    assert(('0' as int + d) as char as int == '0' as int + d);
}

pub proof fn lemma_decimal_digits(n: nat)
    ensures
        decimal(n).len() >= 1,
        all_digits(decimal(n)),
        digits_value(decimal(n)) == n,
        decimal(n).len() > 1 ==> decimal(n)[0] != '0',
        n >= 10 ==> decimal(n).len() > 1,
    decreases n,
{
    lemma_digit_char(n % 10);
    if n < 10 {
        assert(n % 10 == n);
        assert(decimal(n).drop_last() =~= Seq::<char>::empty());
        assert(digits_value(Seq::<char>::empty()) == 0);
        assert(digits_value(decimal(n)) == n);
    } else {
        lemma_decimal_digits(n / 10);
        let d = decimal(n / 10);
        assert(decimal(n).drop_last() =~= d);
        assert(decimal(n).last() == digit_char(n % 10));
        assert(decimal(n)[0] == d[0]);
        assert(digits_value(decimal(n)) == digits_value(d) * 10 + digit_value(digit_char(n % 10)));
        assert(n / 10 * 10 + n % 10 == n);
        assert(digits_value(decimal(n)) == n);
        if n / 10 < 10 {
            lemma_digit_char(n / 10);
            assert(d == seq![digit_char(n / 10)]);
            assert(decimal(n)[0] != '0');
        }
    }
}

fn digit(d: u64) -> (c: char)
    requires
        d < 10,
    ensures
        c == digit_char(d as nat),
        is_digit(c),
{
    match d {
        0 => '0',
        1 => '1',
        2 => '2',
        3 => '3',
        4 => '4',
        5 => '5',
        6 => '6',
        7 => '7',
        8 => '8',
        _ => '9',
    }
}

/// The decimal digits of `n`.
pub fn decimal_chars(n: u64) -> (r: Vec<char>)
    ensures
        r@ == decimal(n as nat),
    decreases n,
{
    if n < 10 {
        let mut v = Vec::new();
        v.push(digit(n));
        v
    } else {
        let mut v = decimal_chars(n / 10);
        v.push(digit(n % 10));
        v
    }
}

/// The decimal text of a signed integer.
pub fn signed_decimal_chars(n: i64) -> (r: Vec<char>)
    ensures
        r@ == signed_decimal(n as int),
{
    if n < 0 {
        let mag: u64 = if n == i64::MIN {
            9223372036854775808u64
        } else {
            (-n) as u64
        };
        let mut v = Vec::new();
        v.push('-');
        let d = decimal_chars(mag);
        push_all(&mut v, &d);
        v
    } else {
        decimal_chars(n as u64)
    }
}

/// The decimal digits of `n` padded with zeros to at least `w` characters.
pub fn zero_padded(n: u64, w: usize) -> (r: Vec<char>)
    ensures
        r@ == zero_pad(decimal(n as nat), w as nat),
{
    let d = decimal_chars(n);
    if d.len() >= w {
        return d;
    }
    let mut r: Vec<char> = Vec::new();
    let pad = w - d.len();
    while r.len() < pad
        invariant
            r.len() <= pad,
            forall|i: int| 0 <= i < r@.len() ==> r@[i] == '0',
        decreases pad - r.len(),
    {
        r.push('0');
    }
    assert(r@ =~= Seq::new((w - d@.len()) as nat, |i: int| '0'));
    push_all(&mut r, &d);
    r
}

// ── Reading ────────────────────────────────────────────────────────────────

/// The integer that `s` spells under Rust's `FromStr` for integer types: an
/// optional `+` (or, when `signed`, `-`) followed by at least one ASCII
/// digit, and nothing else. Whether the value fits the target type is
/// checked separately.
pub open spec fn int_text(s: Seq<char>, signed: bool) -> Option<int> {
    if s.len() == 0 {
        None
    } else if s[0] == '+' || (signed && s[0] == '-') {
        let d = s.drop_first();
        if d.len() > 0 && all_digits(d) {
            if s[0] == '-' {
                Some(-(digits_value(d) as int))
            } else {
                Some(digits_value(d) as int)
            }
        } else {
            None
        }
    } else if all_digits(s) {
        Some(digits_value(s) as int)
    } else {
        None
    }
}

/// `int_text` restricted to the range `lo ..= hi` of the target type.
pub open spec fn int_in_range(s: Seq<char>, signed: bool, lo: int, hi: int) -> Option<int> {
    match int_text(s, signed) {
        Some(v) => if lo <= v <= hi {
            Some(v)
        } else {
            None
        },
        None => None,
    }
}

/// `str::parse::<i64>` on characters.
pub open spec fn parse_i64_spec(s: Seq<char>) -> Option<int> {
    int_in_range(s, true, i64::MIN as int, i64::MAX as int)
}

/// `str::parse::<i32>` on characters.
pub open spec fn parse_i32_spec(s: Seq<char>) -> Option<int> {
    int_in_range(s, true, i32::MIN as int, i32::MAX as int)
}

/// `str::parse::<u32>` on characters.
pub open spec fn parse_u32_spec(s: Seq<char>) -> Option<int> {
    int_in_range(s, false, 0, u32::MAX as int)
}

proof fn lemma_digits_prefix_grows(s: Seq<char>, i: int)
    requires
        0 <= i <= s.len(),
        all_digits(s),
    ensures
        digits_value(s.take(i)) <= digits_value(s),
    decreases s.len() - i,
{
    if i < s.len() {
        lemma_digits_prefix_grows(s, i + 1);
        assert(s.take(i + 1).drop_last() =~= s.take(i));
    } else {
        assert(s.take(i) =~= s);
    }
}

/// Reads an unsigned digit string whose value must not exceed `limit`.
fn read_digits(d: &[char], limit: u64) -> (r: Option<u64>)
    ensures
        r matches Some(v) ==> all_digits(d@) && d@.len() > 0 && v == digits_value(d@) && v
            <= limit,
        r is None ==> !(d@.len() > 0 && all_digits(d@) && digits_value(d@) <= limit),
{
    if d.len() == 0 {
        return None;
    }
    let mut acc: u64 = 0;
    let mut i: usize = 0;
    assert(d@.take(0) =~= Seq::<char>::empty());
    while i < d.len()
        invariant
            i <= d@.len(),
            all_digits(d@.take(i as int)),
            acc == digits_value(d@.take(i as int)),
            acc <= limit,
        decreases d@.len() - i,
    {
        let c = d[i];
        if !is_ascii_digit(c) {
            return None;
        }
        let v: u64 = (c as u32 - '0' as u32) as u64;
        assert(d@.take(i + 1).drop_last() =~= d@.take(i as int));
        assert(d@.take(i + 1).last() == c);
        let next: u128 = acc as u128 * 10 + v as u128;
        if next > limit as u128 {
            proof {
                if all_digits(d@) {
                    lemma_digits_prefix_grows(d@, i + 1);
                }
            }
            return None;
        }
        acc = next as u64;
        i = i + 1;
    }
    assert(d@.take(d@.len() as int) =~= d@);
    Some(acc)
}

/// Reads an integer the way Rust's `FromStr` for integer types does, with
/// the target type's range `-neg_limit ..= pos_limit`.
pub fn parse_integer(s: &[char], signed: bool, neg_limit: u64, pos_limit: u64) -> (r: Option<
    i128,
>)
    ensures
        r matches Some(v) ==> int_in_range(s@, signed, -(neg_limit as int), pos_limit as int)
            == Some(v as int),
        r is None ==> int_in_range(s@, signed, -(neg_limit as int), pos_limit as int) is None,
{
    if s.len() == 0 {
        return None;
    }
    let first = s[0];
    if first == '+' || (signed && first == '-') {
        let d = vstd::slice::slice_subrange(s, 1, s.len());
        assert(d@ =~= s@.drop_first());
        let limit = if first == '-' {
            neg_limit
        } else {
            pos_limit
        };
        match read_digits(d, limit) {
            Some(v) => {
                if first == '-' {
                    Some(-(v as i128))
                } else {
                    Some(v as i128)
                }
            },
            None => None,
        }
    } else {
        if first == '-' && !signed {
            assert(!is_digit(s@[0]));
        }
        match read_digits(s, pos_limit) {
            Some(v) => Some(v as i128),
            None => None,
        }
    }
}

/// `str::parse::<i64>`.
pub fn parse_i64(s: &[char]) -> (r: Option<i64>)
    ensures
        r matches Some(v) ==> parse_i64_spec(s@) == Some(v as int),
        r is None ==> parse_i64_spec(s@) is None,
{
    match parse_integer(s, true, 9223372036854775808u64, 9223372036854775807u64) {
        Some(v) => Some(v as i64),
        None => None,
    }
}

/// `str::parse::<i32>`.
pub fn parse_i32(s: &[char]) -> (r: Option<i32>)
    ensures
        r matches Some(v) ==> parse_i32_spec(s@) == Some(v as int),
        r is None ==> parse_i32_spec(s@) is None,
{
    match parse_integer(s, true, 2147483648u64, 2147483647u64) {
        Some(v) => Some(v as i32),
        None => None,
    }
}

/// `str::parse::<u32>`.
pub fn parse_u32(s: &[char]) -> (r: Option<u32>)
    ensures
        r matches Some(v) ==> parse_u32_spec(s@) == Some(v as int),
        r is None ==> parse_u32_spec(s@) is None,
{
    match parse_integer(s, false, 0, 4294967295u64) {
        Some(v) => Some(v as u32),
        None => None,
    }
}

} // verus!
