//! Whole numbers in decimal notation.
use vstd::prelude::*;

use crate::text::chars_of;

verus! {

/// The decimal digit `d`.
pub open spec fn digit_char(d: nat) -> char
    recommends
        d < 10,
{
    (48 + d) as char
}

/// A natural number in decimal notation, without leading zeros.
pub open spec fn decimal(n: nat) -> Seq<char>
    decreases n,
{
    if n < 10 {
        seq![digit_char(n)]
    } else {
        decimal(n / 10).push(digit_char(n % 10))
    }
}

/// A whole number in decimal notation, with a leading `-` where it is negative.
pub open spec fn signed_decimal(n: int) -> Seq<char> {
    if n < 0 {
        seq!['-'] + decimal((-n) as nat)
    } else {
        decimal(n as nat)
    }
}

/// Appends `n` in decimal notation.
pub fn push_decimal(out: &mut String, n: u128)
    ensures
        final(out)@ == old(out)@ + decimal(n as nat),
    decreases n,
{
    if n >= 10 {
        push_decimal(out, n / 10);
    }
    let d: u8 = (n % 10) as u8;
    out.push((48 + d) as char);
    proof {
        assert(out@ =~= old(out)@ + decimal(n as nat));
    }
}

/// `n` in decimal notation.
pub fn natural_text(n: u128) -> (r: String)
    ensures
        r@ == decimal(n as nat),
{
    let mut out = String::new();
    push_decimal(&mut out, n);
    proof {
        assert(out@ =~= decimal(n as nat));
    }
    out
}

/// `n` in decimal notation, with a leading `-` where it is negative.
pub fn integer_text(n: i64) -> (r: String)
    ensures
        r@ == signed_decimal(n as int),
{
    if n < 0 {
        let mut out = String::new();
        out.push('-');
        push_decimal(&mut out, (-(n as i128)) as u128);
        proof {
            assert(out@ =~= signed_decimal(n as int));
        }
        out
    } else {
        natural_text(n as u128)
    }
}

/// The decimal digits.
pub open spec fn is_digit(c: char) -> bool {
    '0' <= c <= '9'
}

/// A text of at least one character, all of them decimal digits.
pub open spec fn all_digits(s: Seq<char>) -> bool {
    s.len() > 0 && forall|i: int| 0 <= i < s.len() ==> is_digit(#[trigger] s[i])
}

/// The number that a text of decimal digits denotes.
pub open spec fn digits_value(s: Seq<char>) -> nat
    decreases s.len(),
{
    if s.len() == 0 {
        0
    } else {
        digits_value(s.drop_last()) * 10 + (s.last() as nat - 48) as nat
    }
}

/// The whole number that a text denotes: an optional sign and at least one decimal digit.
pub open spec fn denoted(s: Seq<char>) -> Option<int> {
    let signed = s.len() > 0 && (s[0] == '+' || s[0] == '-');
    let digits = if signed {
        s.skip(1)
    } else {
        s
    };
    if !all_digits(digits) {
        None
    } else if signed && s[0] == '-' {
        Some(-(digits_value(digits) as int))
    } else {
        Some(digits_value(digits) as int)
    }
}

/// The 64-bit number that a text denotes.
pub open spec fn parsed_i64(s: Seq<char>) -> Option<int> {
    match denoted(s) {
        Some(n) => if i64::MIN <= n <= i64::MAX {
            Some(n)
        } else {
            None
        },
        None => None,
    }
}

proof fn lemma_digits_value_push(s: Seq<char>, c: char)
    requires
        is_digit(c),
    ensures
        digits_value(s.push(c)) == digits_value(s) * 10 + (c as nat - 48),
        digits_value(s.push(c)) >= digits_value(s),
{
    assert(s.push(c).drop_last() =~= s);
}

/// The number that the digits from `at` on denote, where it is at most `2^63`.
fn digits_from(cs: &Vec<char>, at: usize) -> (r: Option<u64>)
    requires
        at <= cs@.len(),
    ensures
        r == (if all_digits(cs@.skip(at as int)) && digits_value(cs@.skip(at as int))
            <= 0x8000_0000_0000_0000 {
            Some(digits_value(cs@.skip(at as int)) as u64)
        } else {
            None
        }),
{
    let ghost ds = cs@.skip(at as int);
    if at == cs.len() {
        return None;
    }
    let mut value: u64 = 0;
    let mut big: bool = false;
    let mut i: usize = at;
    while i < cs.len()
        invariant
            at <= i <= cs@.len(),
            ds == cs@.skip(at as int),
            forall|j: int| 0 <= j < i - at ==> is_digit(#[trigger] ds[j]),
            big ==> digits_value(ds.take(i - at)) > 0x8000_0000_0000_0000,
            !big ==> value == digits_value(ds.take(i - at)) && value <= 0x8000_0000_0000_0000,
        decreases cs@.len() - i,
    {
        let c = cs[i];
        if !('0' <= c && c <= '9') {
            proof {
                assert(!is_digit(ds[i - at]));
            }
            return None;
        }
        proof {
            assert(ds.take(i + 1 - at) =~= ds.take(i - at).push(c));
            lemma_digits_value_push(ds.take(i - at), c);
        }
        if !big {
            let next: u128 = (value as u128) * 10 + ((c as u8 - 48) as u128);
            if next > 0x8000_0000_0000_0000 {
                big = true;
            } else {
                value = next as u64;
            }
        }
        i = i + 1;
    }
    proof {
        assert(ds.take(i - at) =~= ds);
    }
    if big {
        None
    } else {
        Some(value)
    }
}

/// Reads a 64-bit number: an optional sign and at least one decimal digit.
pub fn parse_i64(s: &str) -> (r: Option<i64>)
    ensures
        match r {
            Some(n) => parsed_i64(s@) == Some(n as int),
            None => parsed_i64(s@) is None,
        },
{
    let cs = chars_of(s);
    let signed: bool = cs.len() > 0 && (cs[0] == '+' || cs[0] == '-');
    let at: usize = if signed {
        1
    } else {
        0
    };
    proof {
        assert(cs@.skip(0) =~= s@);
    }
    match digits_from(&cs, at) {
        None => None,
        Some(value) => {
            if signed && cs[0] == '-' {
                Some((-(value as i128)) as i64)
            } else if value <= 0x7fff_ffff_ffff_ffff {
                Some(value as i64)
            } else {
                None
            }
        },
    }
}

// ---- laws of the notation ----

pub proof fn lemma_decimal_digits(n: nat)
    ensures
        all_digits(decimal(n)),
        digits_value(decimal(n)) == n,
    decreases n,
{
    if n >= 10 {
        lemma_decimal_digits(n / 10);
        assert(decimal(n).drop_last() =~= decimal(n / 10));
        assert(decimal(n).last() as nat == 48 + n % 10);
        assert forall|i: int| 0 <= i < decimal(n).len() implies is_digit(#[trigger] decimal(n)[i]) by {
            if i < decimal(n / 10).len() {
                assert(decimal(n)[i] == decimal(n / 10)[i]);
            }
        }
    } else {
        assert(decimal(n).drop_last() =~= Seq::empty());
        reveal_with_fuel(digits_value, 2);
    }
}

/// Different numbers have different notations.
pub proof fn lemma_decimal_injective(a: nat, b: nat)
    requires
        decimal(a) == decimal(b),
    ensures
        a == b,
{
    lemma_decimal_digits(a);
    lemma_decimal_digits(b);
}

/// Reading the notation of a 64-bit number gives the number back.
pub proof fn law_number_round_trip(n: i64)
    ensures
        parsed_i64(signed_decimal(n as int)) == Some(n as int),
{
    if n < 0 {
        let s = signed_decimal(n as int);
        lemma_decimal_digits((-n) as nat);
        assert(s.skip(1) =~= decimal((-n) as nat));
    } else {
        lemma_decimal_digits(n as nat);
        assert(is_digit(decimal(n as nat)[0]));
    }
}

} // verus!
