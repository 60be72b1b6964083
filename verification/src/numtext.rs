//! Decimal text: the rendering of a 64-bit integer and the parse of a
//! base-10 integer literal, as the coercion matrix uses them.

use vstd::prelude::*;
use vstd::string::StrSliceExecFns;

verus! {

/// The decimal digit character for `d`, for `0 <= d <= 9`.
pub open spec fn spec_digit_char(d: int) -> char {
    if d == 0 {
        '0'
    } else if d == 1 {
        '1'
    } else if d == 2 {
        '2'
    } else if d == 3 {
        '3'
    } else if d == 4 {
        '4'
    } else if d == 5 {
        '5'
    } else if d == 6 {
        '6'
    } else if d == 7 {
        '7'
    } else if d == 8 {
        '8'
    } else {
        '9'
    }
}

/// The decimal rendering of a non-negative integer, without sign.
pub open spec fn spec_udec(n: int) -> Seq<char>
    decreases n,
{
    if n < 10 {
        seq![spec_digit_char(n)]
    } else {
        spec_udec(n / 10).push(spec_digit_char(n % 10))
    }
}

/// The decimal rendering of an integer: digits, preceded by `-` where the
/// value is negative.
pub open spec fn spec_dec_str(v: int) -> Seq<char> {
    if v < 0 {
        seq!['-'] + spec_udec(-v)
    } else {
        spec_udec(v)
    }
}

/// The value of a decimal digit character, or `-1` where `c` is no digit.
pub open spec fn spec_digit_val(c: char) -> int {
    if c == '0' {
        0
    } else if c == '1' {
        1
    } else if c == '2' {
        2
    } else if c == '3' {
        3
    } else if c == '4' {
        4
    } else if c == '5' {
        5
    } else if c == '6' {
        6
    } else if c == '7' {
        7
    } else if c == '8' {
        8
    } else if c == '9' {
        9
    } else {
        -1
    }
}

/// Whether every character of `s` is a decimal digit.
pub open spec fn spec_all_digits(s: Seq<char>) -> bool {
    forall|i: int| 0 <= i < s.len() ==> spec_digit_val(#[trigger] s[i]) >= 0
}

/// The base-10 value of a digit string.
pub open spec fn spec_digits_val(s: Seq<char>) -> int
    decreases s.len(),
{
    if s.len() == 0 {
        0
    } else {
        spec_digits_val(s.drop_last()) * 10 + spec_digit_val(s.last())
    }
}

/// The base-10 integer parse of `s`, within the 64-bit range: an optional
/// leading `+` or `-` followed by one or more decimal digits; anything
/// else, the empty string, and an out-of-range value give `None`.
pub open spec fn spec_parse_int64(s: Seq<char>) -> Option<i64> {
    let neg = s.len() > 0 && s[0] == '-';
    let body = if s.len() > 0 && (s[0] == '-' || s[0] == '+') {
        s.drop_first()
    } else {
        s
    };
    if body.len() > 0 && spec_all_digits(body) {
        let v = if neg {
            -spec_digits_val(body)
        } else {
            spec_digits_val(body)
        };
        if i64::MIN <= v <= i64::MAX {
            Some(v as i64)
        } else {
            None
        }
    } else {
        None
    }
}

proof fn lemma_digits_val_nonneg(s: Seq<char>)
    requires
        spec_all_digits(s),
    ensures
        spec_digits_val(s) >= 0,
    decreases s.len(),
{
    if s.len() > 0 {
        assert(spec_digit_val(s.last()) >= 0);
        assert(spec_all_digits(s.drop_last()));
        lemma_digits_val_nonneg(s.drop_last());
    }
}

proof fn lemma_digits_val_step(s: Seq<char>, i: int)
    requires
        0 <= i < s.len(),
    ensures
        spec_digits_val(s.take(i + 1)) == spec_digits_val(s.take(i)) * 10 + spec_digit_val(s[i]),
{
    assert(s.take(i + 1).drop_last() =~= s.take(i));
    assert(s.take(i + 1).last() == s[i]);
}

proof fn lemma_digits_val_mono(s: Seq<char>, i: int)
    requires
        spec_all_digits(s),
        0 <= i <= s.len(),
    ensures
        spec_digits_val(s) >= spec_digits_val(s.take(i)),
    decreases s.len() - i,
{
    if i == s.len() {
        assert(s.take(i) =~= s);
    } else {
        assert(spec_all_digits(s.take(i))) by {
            assert(forall|k: int| 0 <= k < i ==> s.take(i)[k] == s[k]);
        }
        lemma_digits_val_nonneg(s.take(i));
        lemma_digits_val_step(s, i);
        assert(spec_digit_val(s[i]) >= 0);
        lemma_digits_val_mono(s, i + 1);
    }
}

/// The value of one decimal digit character.
fn digit_value(c: char) -> (r: Option<u8>)
    ensures
        match r {
            Some(d) => spec_digit_val(c) == d as int,
            None => spec_digit_val(c) < 0,
        },
{
    match c {
        '0' => Some(0),
        '1' => Some(1),
        '2' => Some(2),
        '3' => Some(3),
        '4' => Some(4),
        '5' => Some(5),
        '6' => Some(6),
        '7' => Some(7),
        '8' => Some(8),
        '9' => Some(9),
        _ => None,
    }
}

/// Parse `s` as a base-10 integer, exactly as `spec_parse_int64` states
/// it: an optional sign, one or more decimal digits, a value within the
/// 64-bit range — anything else is `None`.
pub fn parse_int64(s: &str) -> (r: Option<i64>)
    ensures
        r == spec_parse_int64(s@),
{
    let len = s.unicode_len();
    if len == 0 {
        return None;
    }
    let first = s.get_char(0);
    let neg = first == '-';
    let start: usize = if first == '-' || first == '+' {
        1
    } else {
        0
    };
    if start == len {
        return None;
    }
    let ghost body: Seq<char> = s@.subrange(start as int, len as int);
    proof {
        if start == 1 {
            assert(body =~= s@.drop_first());
        } else {
            assert(body =~= s@);
        }
    }
    // The magnitude accumulates negated, so that the least 64-bit value's
    // magnitude still fits.
    let mut acc: i64 = 0;
    let mut i: usize = start;
    while i < len
        invariant
            start <= i <= len,
            0 < len == s@.len(),
            start == 1 || start == 0,
            (start == 1) <==> (s@[0] == '-' || s@[0] == '+'),
            neg == (s@[0] == '-'),
            start < len,
            body == s@.subrange(start as int, len as int),
            body.len() == len - start,
            forall|k: int| 0 <= k < i - start ==> spec_digit_val(#[trigger] body[k]) >= 0,
            acc <= 0,
            acc as int == -spec_digits_val(body.take(i - start)),
        decreases len - i,
    {
        let c = s.get_char(i);
        proof {
            assert(body[i - start] == s@[i as int]);
        }
        match digit_value(c) {
            None => {
                proof {
                    assert(!spec_all_digits(body));
                    if start == 1 {
                        assert(body =~= s@.drop_first());
                    } else {
                        assert(body =~= s@);
                    }
                }
                return None;
            },
            Some(d) => {
                proof {
                    lemma_digits_val_step(body, i - start);
                }
                let wide: i128 = (acc as i128) * 10 - (d as i128);
                if wide < (i64::MIN as i128) {
                    proof {
                        let m = spec_digits_val(body.take(i - start + 1));
                        assert(m == -(wide as int));
                        if spec_all_digits(body) {
                            lemma_digits_val_mono(body, i - start + 1);
                            assert(spec_digits_val(body) >= m);
                        }
                        if start == 1 {
                            assert(body =~= s@.drop_first());
                        } else {
                            assert(body =~= s@);
                        }
                    }
                    return None;
                }
                acc = wide as i64;
            },
        }
        i += 1;
    }
    proof {
        assert(body.take(i - start) =~= body);
    }
    if neg {
        Some(acc)
    } else {
        if acc == i64::MIN {
            None
        } else {
            Some(-acc)
        }
    }
}

/// The decimal digit character for `d`.
fn digit_char(d: u64) -> (c: char)
    requires
        d < 10,
    ensures
        c == spec_digit_char(d as int),
{
    match d {
        0 => '0',
        1 => '1',
        2 => '2',
        3 => '3',
        4 => '4',
        5 => '5',
        6 => '6',
        7 => '7',
        8 => '8',
        _ => '9',
    }
}

/// Relies on `String`'s `FromIterator` over characters: the collected
/// string holds exactly the characters handed in, in order.
#[verifier::external_body]
fn chars_to_string(v: &Vec<char>) -> (r: String)
    ensures
        r@ == v@,
{
    v.iter().collect()
}

/// Render `v` in decimal, exactly as `spec_dec_str` states it: digits,
/// preceded by `-` where the value is negative.
pub fn int_to_decimal(v: i64) -> (r: String)
    ensures
        r@ == spec_dec_str(v as int),
{
    let neg = v < 0;
    let mut m: u64 = if v < 0 {
        (-(v as i128)) as u64
    } else {
        v as u64
    };
    let ghost mag: int = m as int;
    // The digits of the magnitude, lowest first; `suffix` mirrors them in
    // rendering order.
    let mut low: Vec<char> = Vec::new();
    let ghost mut suffix: Seq<char> = Seq::empty();
    while m >= 10
        invariant
            spec_udec(mag) == spec_udec(m as int) + suffix,
            low@.len() == suffix.len(),
            forall|j: int| 0 <= j < low@.len() ==> #[trigger] low@[j] == suffix[suffix.len() - 1 - j],
        decreases m,
    {
        let d = m % 10;
        low.push(digit_char(d));
        proof {
            assert(spec_udec(m as int) == spec_udec(m as int / 10).push(
                spec_digit_char(m as int % 10),
            ));
            let next = seq![spec_digit_char(d as int)] + suffix;
            assert(spec_udec(m as int / 10).push(spec_digit_char(m as int % 10)) + suffix
                =~= spec_udec(m as int / 10) + next);
            suffix = next;
        }
        m = m / 10;
    }
    low.push(digit_char(m));
    proof {
        suffix = seq![spec_digit_char(m as int)] + suffix;
        assert(spec_udec(m as int) =~= seq![spec_digit_char(m as int)]);
        assert(spec_udec(mag) =~= suffix);
    }
    let mut chars: Vec<char> = Vec::new();
    if neg {
        chars.push('-');
    }
    let ghost pre: Seq<char> = if neg {
        seq!['-']
    } else {
        Seq::empty()
    };
    proof {
        assert(chars@ =~= pre + suffix.take(0));
    }
    let mut k: usize = low.len();
    while k > 0
        invariant
            k <= low@.len(),
            low@.len() == suffix.len(),
            forall|j: int| 0 <= j < low@.len() ==> #[trigger] low@[j] == suffix[suffix.len() - 1 - j],
            chars@ == pre + suffix.take(suffix.len() - k),
        decreases k,
    {
        k -= 1;
        chars.push(low[k]);
        proof {
            let done = suffix.len() - k;
            assert(suffix.take(done) =~= suffix.take(done - 1).push(suffix[done - 1]));
            assert(chars@ =~= pre + suffix.take(done));
        }
    }
    proof {
        assert(suffix.take(suffix.len() as int) =~= suffix);
        if neg {
            assert(mag == -(v as int));
            assert(chars@ =~= seq!['-'] + spec_udec(-(v as int)));
        } else {
            assert(chars@ =~= spec_udec(v as int));
        }
    }
    chars_to_string(&chars)
}

} // verus!
