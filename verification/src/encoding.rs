//! Bytes as text, in the notation of Base64.
use vstd::prelude::*;

verus! {

/// The character for a number below 64: the letters, the digits, `+` and `/`.
pub open spec fn base64_digit(n: int) -> char {
    if n < 26 {
        ('A' as int + n) as char
    } else if n < 52 {
        ('a' as int + (n - 26)) as char
    } else if n < 62 {
        ('0' as int + (n - 52)) as char
    } else if n == 62 {
        '+'
    } else {
        '/'
    }
}

/// Bytes in Base64 with the standard alphabet: three bytes are four digits of six bits each, and
/// `=` stands for the digits that are missing at the end.
pub open spec fn base64_text(b: Seq<u8>) -> Seq<char>
    decreases b.len(),
{
    if b.len() == 0 {
        Seq::empty()
    } else if b.len() == 1 {
        seq![base64_digit(b[0] as int / 4), base64_digit(b[0] % 4 * 16), '=', '=']
    } else if b.len() == 2 {
        seq![
            base64_digit(b[0] as int / 4),
            base64_digit(b[0] % 4 * 16 + b[1] / 16),
            base64_digit(b[1] % 16 * 4),
            '=',
        ]
    } else {
        seq![
            base64_digit(b[0] as int / 4),
            base64_digit(b[0] % 4 * 16 + b[1] / 16),
            base64_digit(b[1] % 16 * 4 + b[2] / 64),
            base64_digit(b[2] as int % 64),
        ] + base64_text(b.skip(3))
    }
}

proof fn lemma_base64_digit(x: int, y: int)
    requires
        0 <= x < 64,
        0 <= y < 64,
    ensures
        base64_digit(x) != '=',
        base64_digit(x) == base64_digit(y) ==> x == y,
{
}

/// What is written in Base64 tells which bytes it was: different bytes are written differently.
pub proof fn law_base64_loses_nothing(a: Seq<u8>, b: Seq<u8>)
    requires
        base64_text(a) == base64_text(b),
    ensures
        a == b,
    decreases a.len(),
{
    let s = base64_text(a);
    let t = base64_text(b);
    assert(a.len() > 0 ==> s.len() >= 4);
    assert(b.len() > 0 ==> t.len() >= 4);
    if a.len() == 0 || b.len() == 0 {
        assert(a =~= b);
    } else {
        assert forall|x: int, y: int| 0 <= x < 64 && 0 <= y < 64 implies #[trigger] base64_digit(x)
            != '=' && (base64_digit(x) == #[trigger] base64_digit(y) ==> x == y) by {
            lemma_base64_digit(x, y);
        }
        assert(s[0] == t[0] && s[1] == t[1] && s[2] == t[2] && s[3] == t[3]);
        assert(a[0] / 4 == b[0] / 4);
        if a.len() == 1 {
            assert(b.len() == 1);
            assert(a =~= b);
        } else if a.len() == 2 {
            assert(b.len() == 2);
            assert(a =~= b);
        } else {
            assert(b.len() >= 3);
            assert(a[0] == b[0] && a[1] == b[1] && a[2] == b[2]);
            assert(s.skip(4) =~= base64_text(a.skip(3)));
            assert(t.skip(4) =~= base64_text(b.skip(3)));
            law_base64_loses_nothing(a.skip(3), b.skip(3));
            assert(a =~= seq![a[0], a[1], a[2]] + a.skip(3));
            assert(b =~= seq![b[0], b[1], b[2]] + b.skip(3));
        }
    }
}

/// Three bytes are one number of 24 bits, and its four digits of six bits are what is written,
/// whatever follows.
pub proof fn law_base64_of_three_bytes(
    x: u8,
    y: u8,
    z: u8,
    a: int,
    b: int,
    c: int,
    d: int,
    rest: Seq<u8>,
)
    requires
        0 <= a < 64,
        0 <= b < 64,
        0 <= c < 64,
        0 <= d < 64,
        x * 65536 + y * 256 + z == a * 262144 + b * 4096 + c * 64 + d,
    ensures
        base64_text(seq![x, y, z] + rest) == seq![
            base64_digit(a),
            base64_digit(b),
            base64_digit(c),
            base64_digit(d),
        ] + base64_text(rest),
{
    let s = seq![x, y, z] + rest;
    assert(s.skip(3) =~= rest);
    assert(a == x as int / 4);
    assert(b == x % 4 * 16 + y / 16);
    assert(c == y % 16 * 4 + z / 64);
    assert(d == z as int % 64);
}

/// The digits are the capital letters, the small letters, the decimal digits, `+` and `/`.
pub proof fn law_base64_digits(n: int)
    requires
        0 <= n < 64,
    ensures
        n < 26 ==> base64_digit(n) as int == 65 + n,
        26 <= n < 52 ==> base64_digit(n) as int == 97 + (n - 26),
        52 <= n < 62 ==> base64_digit(n) as int == 48 + (n - 52),
        n == 62 ==> base64_digit(n) == '+',
        n == 63 ==> base64_digit(n) == '/',
{
}

} // verus!
