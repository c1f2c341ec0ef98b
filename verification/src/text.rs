//! Text helpers.

use vstd::prelude::*;
use vstd::string::*;

verus! {

/// Whether two texts hold the same characters in the same order.
pub fn str_eq(a: &str, b: &str) -> (equal: bool)
    ensures
        equal == (a@ == b@),
{
    let x = a.as_bytes();
    let y = b.as_bytes();
    if x.len() != y.len() {
        return false;
    }
    for i in 0..x.len()
        invariant
            x@ == a.spec_bytes(),
            y@ == b.spec_bytes(),
            x.len() == y.len(),
            forall|k: int| 0 <= k < i ==> x@[k] == y@[k],
    {
        if x[i] != y[i] {
            return false;
        }
    }
    proof {
        // Text with the same bytes is the same text.
        assert(x@ =~= y@);
        vstd::utf8::encode_utf8_decode_utf8(a@);
        vstd::utf8::encode_utf8_decode_utf8(b@);
    }
    true
}

/// The digit `d`, for `d` below 10.
pub open spec fn digit_text(d: nat) -> Seq<char> {
    if d == 0 {
        "0"@
    } else if d == 1 {
        "1"@
    } else if d == 2 {
        "2"@
    } else if d == 3 {
        "3"@
    } else if d == 4 {
        "4"@
    } else if d == 5 {
        "5"@
    } else if d == 6 {
        "6"@
    } else if d == 7 {
        "7"@
    } else if d == 8 {
        "8"@
    } else {
        "9"@
    }
}

/// `n` in decimal, without leading zeros.
pub open spec fn decimal_text(n: nat) -> Seq<char>
    decreases n,
{
    if n < 10 {
        digit_text(n)
    } else {
        decimal_text(n / 10) + digit_text(n % 10)
    }
}

/// The digit that a character stands for.
pub open spec fn digit_value(c: char) -> int {
    c as int - '0' as int
}

/// The number that a row of digits stands for.
pub open spec fn number_of(text: Seq<char>) -> int
    decreases text.len(),
{
    if text.len() == 0 {
        0
    } else {
        10 * number_of(text.drop_last()) + digit_value(text.last())
    }
}

/// A number in decimal stands for that number.
pub proof fn lemma_decimal_denotes(n: nat)
    ensures
        number_of(decimal_text(n)) == n,
        decimal_text(n).len() > 0,
    decreases n,
{
    let d = n % 10;
    reveal_strlit("0");
    reveal_strlit("1");
    reveal_strlit("2");
    reveal_strlit("3");
    reveal_strlit("4");
    reveal_strlit("5");
    reveal_strlit("6");
    reveal_strlit("7");
    reveal_strlit("8");
    reveal_strlit("9");
    assert(digit_text(d).len() == 1);
    assert(digit_value(digit_text(d)[0]) == d);
    let text = decimal_text(n);
    if n < 10 {
        assert(text.drop_last() =~= Seq::empty());
        assert(number_of(text.drop_last()) == 0);
    } else {
        lemma_decimal_denotes(n / 10);
        assert(text.drop_last() =~= decimal_text(n / 10));
    }
    assert(text.last() == digit_text(d)[0]);
}

fn digit(d: u128) -> (text: &'static str)
    requires
        d < 10,
    ensures
        text@ == digit_text(d as nat),
{
    if d == 0 {
        "0"
    } else if d == 1 {
        "1"
    } else if d == 2 {
        "2"
    } else if d == 3 {
        "3"
    } else if d == 4 {
        "4"
    } else if d == 5 {
        "5"
    } else if d == 6 {
        "6"
    } else if d == 7 {
        "7"
    } else if d == 8 {
        "8"
    } else {
        "9"
    }
}

/// `n` in decimal.
pub fn decimal(n: u128) -> (text: String)
    ensures
        text@ == decimal_text(n as nat),
    decreases n,
{
    if n < 10 {
        digit(n).to_owned()
    } else {
        let mut text = decimal(n / 10);
        text.append(digit(n % 10));
        text
    }
}

/// `num / den` rounded to a whole number, halves to the even one.
pub open spec fn rounded(num: nat, den: nat) -> nat
    recommends
        den > 0,
{
    let q = num / den;
    let r = num % den;
    if 2 * r > den || (2 * r == den && q % 2 == 1) {
        q + 1
    } else {
        q
    }
}

/// A rounded quotient is within a half of the quotient itself, and even where it
/// is exactly a half off.
pub proof fn lemma_rounded_is_nearest(num: nat, den: nat)
    requires
        den > 0,
    ensures
        -(den as int) <= 2 * (rounded(num, den) * den - num) <= den,
        2 * (rounded(num, den) * den - num) == den || 2 * (rounded(num, den) * den - num) == -(
        den as int) ==> rounded(num, den) % 2 == 0,
{
    let q = (num / den) as int;
    let r = (num % den) as int;
    let d = den as int;
    vstd::arithmetic::div_mod::lemma_fundamental_div_mod(num as int, d);
    vstd::arithmetic::div_mod::lemma_mod_bound(num as int, d);
    assert(q * d == d * q && (q + 1) * d == d * q + d) by (nonlinear_arith);
}

/// The quotient of the given size can be written out: it is below 2⁶⁴, and its
/// divisor leaves room for decimal places.
pub open spec fn is_writable(num: u128, den: u128) -> bool {
    0 < den <= u64::MAX * 1_000_000 && num <= den * u64::MAX
}

/// `k` times `num / den` rounded to a whole number, halves to the even one.
fn scaled_round(num: u128, den: u128, k: u128) -> (q: u128)
    requires
        is_writable(num, den),
        0 < k <= 100,
    ensures
        q == rounded((k * num) as nat, den as nat),
{
    let whole: u128 = num / den;
    let rem: u128 = num % den;
    proof {
        let n = num as int;
        let d = den as int;
        vstd::arithmetic::div_mod::lemma_fundamental_div_mod(n, d);
        assert(n / d <= u64::MAX) by (nonlinear_arith)
            requires
                n <= d * u64::MAX,
                d > 0,
        ;
        assert(k * rem <= 100 * (u64::MAX * 1_000_000)) by (nonlinear_arith)
            requires
                0 < k <= 100,
                0 <= rem <= u64::MAX * 1_000_000,
        ;
        assert(k * whole <= 100 * u64::MAX) by (nonlinear_arith)
            requires
                0 < k <= 100,
                0 <= whole <= u64::MAX,
        ;
        let a = (k * rem) / d;
        let b = (k * rem) % d;
        vstd::arithmetic::div_mod::lemma_fundamental_div_mod(k * rem, d);
        assert(k * n == (k * whole + a) * d + b) by (nonlinear_arith)
            requires
                n == d * whole + rem,
                k * rem == d * a + b,
        ;
        vstd::arithmetic::div_mod::lemma_fundamental_div_mod_converse(
            k * n,
            d,
            k * whole + a,
            b,
        );
        assert(a <= k * rem) by (nonlinear_arith)
            requires
                k * rem == d * a + b,
                d > 0,
                b >= 0,
                a >= 0,
        ;
    }
    let q: u128 = k * whole + (k * rem) / den;
    let r: u128 = (k * rem) % den;
    if 2 * r > den || (2 * r == den && q % 2 == 1) {
        q + 1
    } else {
        q
    }
}

/// `num / den` with one decimal place.
pub open spec fn one_place_text(num: nat, den: nat) -> Seq<char> {
    let tenths = rounded(10 * num, den);
    decimal_text(tenths / 10) + "."@ + digit_text(tenths % 10)
}

/// `num / den` with two decimal places.
pub open spec fn two_places_text(num: nat, den: nat) -> Seq<char> {
    let hundredths = rounded(100 * num, den);
    decimal_text(hundredths / 100) + "."@ + digit_text(hundredths / 10 % 10) + digit_text(
        hundredths % 10,
    )
}

/// `num / den` with one decimal place.
pub fn one_place(num: u128, den: u128) -> (text: String)
    requires
        is_writable(num, den),
    ensures
        text@ == one_place_text(num as nat, den as nat),
{
    let tenths: u128 = scaled_round(num, den, 10);
    let mut text = decimal(tenths / 10);
    text.append(".");
    text.append(digit(tenths % 10));
    text
}

/// `num / den` with two decimal places.
pub fn two_places(num: u128, den: u128) -> (text: String)
    requires
        is_writable(num, den),
    ensures
        text@ == two_places_text(num as nat, den as nat),
{
    let hundredths: u128 = scaled_round(num, den, 100);
    let mut text = decimal(hundredths / 100);
    text.append(".");
    text.append(digit(hundredths / 10 % 10));
    text.append(digit(hundredths % 10));
    text
}

/// What `bool_name` returns.
pub open spec fn bool_text(b: bool) -> Seq<char> {
    if b {
        "true"@
    } else {
        "false"@
    }
}

/// The word for a truth value.
pub fn bool_name(b: bool) -> (name: &'static str)
    ensures
        name@ == bool_text(b),
{
    if b {
        "true"
    } else {
        "false"
    }
}

/// A number with one or two decimal places is the nearest number of tenths or
/// hundredths, written as its whole part, a point and its last digits.
pub proof fn lemma_decimal_places(num: nat, den: nat)
    requires
        den > 0,
    ensures
        exists|tenths: nat|
            #![trigger decimal_text(tenths / 10)]
            -(den as int) <= 2 * (tenths * den - 10 * num) <= den && one_place_text(num, den)
                == decimal_text(tenths / 10) + "."@ + decimal_text(tenths % 10),
        exists|hundredths: nat|
            #![trigger decimal_text(hundredths / 100)]
            -(den as int) <= 2 * (hundredths * den - 100 * num) <= den && two_places_text(num, den)
                == decimal_text(hundredths / 100) + "."@ + decimal_text(hundredths / 10 % 10)
                + decimal_text(hundredths % 10),
{
    let tenths = rounded(10 * num, den);
    let hundredths = rounded(100 * num, den);
    lemma_rounded_is_nearest(10 * num, den);
    lemma_rounded_is_nearest(100 * num, den);
    assert(decimal_text(tenths % 10) == digit_text(tenths % 10));
    assert(decimal_text(hundredths / 10 % 10) == digit_text(hundredths / 10 % 10));
    assert(decimal_text(hundredths % 10) == digit_text(hundredths % 10));
    assert(one_place_text(num, den) == decimal_text(tenths / 10) + "."@ + decimal_text(
        tenths % 10,
    ));
    assert(two_places_text(num, den) == decimal_text(hundredths / 100) + "."@ + decimal_text(
        hundredths / 10 % 10,
    ) + decimal_text(hundredths % 10));
}

/// A number is written without leading zeros, its last digit last.
pub proof fn lemma_decimal_has_no_leading_zero(n: nat)
    ensures
        n > 0 ==> decimal_text(n)[0] != '0',
        forall|i: int|
            0 <= i < decimal_text(n).len() ==> '0' <= #[trigger] decimal_text(n)[i] <= '9',
        bool_text(true) == "true"@ && bool_text(false) == "false"@,
    decreases n,
{
    reveal_strlit("0");
    reveal_strlit("1");
    reveal_strlit("2");
    reveal_strlit("3");
    reveal_strlit("4");
    reveal_strlit("5");
    reveal_strlit("6");
    reveal_strlit("7");
    reveal_strlit("8");
    reveal_strlit("9");
    let last = digit_text(n % 10);
    assert(last.len() == 1 && '0' <= last[0] <= '9');
    if n >= 10 {
        lemma_decimal_has_no_leading_zero(n / 10);
        lemma_decimal_denotes(n / 10);
        let head = decimal_text(n / 10);
        let text = decimal_text(n);
        assert(text == head + last);
        assert(text[0] == head[0]);
        assert forall|i: int| 0 <= i < text.len() implies '0' <= #[trigger] text[i] <= '9' by {
            if i < head.len() {
                assert(text[i] == head[i]);
            } else {
                assert(text[i] == last[i - head.len()]);
            }
        }
    }
}

} // verus!
