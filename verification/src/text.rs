//! Decimal text for the numbers that appear in engine arguments.

use vstd::prelude::*;
use vstd::string::StringExecFns;

verus! {

/// Ten to the power `n`.
pub open spec fn pow10(n: nat) -> nat
    decreases n,
{
    if n == 0 {
        1
    } else {
        10 * pow10((n - 1) as nat)
    }
}

/// The character that writes the single digit `d`.
pub open spec fn digit_char(d: nat) -> char {
    if d == 0 {
        '0'
    } else if d == 1 {
        '1'
    } else if d == 2 {
        '2'
    } else if d == 3 {
        '3'
    } else if d == 4 {
        '4'
    } else if d == 5 {
        '5'
    } else if d == 6 {
        '6'
    } else if d == 7 {
        '7'
    } else if d == 8 {
        '8'
    } else {
        '9'
    }
}

/// The decimal digits of `n`, most significant first, without leading zeros
/// (zero itself is written `0`).
pub open spec fn digits(n: nat) -> Seq<char>
    decreases n,
{
    if n < 10 {
        seq![digit_char(n)]
    } else {
        digits(n / 10).push(digit_char(n % 10))
    }
}

/// The digits after the decimal point of `frac / 10^scale`, where
/// `frac < 10^scale`: most significant first, stopping once nothing but zeros
/// would follow.
pub open spec fn fraction_digits(frac: nat, scale: nat) -> Seq<char>
    decreases scale,
{
    if frac == 0 || scale == 0 {
        Seq::<char>::empty()
    } else {
        let unit = pow10((scale - 1) as nat);
        seq![digit_char(frac / unit)] + fraction_digits(frac % unit, (scale - 1) as nat)
    }
}

/// The text of `whole + frac / 10^scale`: the whole part, then a point and
/// the fraction's digits unless the fraction is zero.
pub open spec fn fixed_text(whole: nat, frac: nat, scale: nat) -> Seq<char> {
    if frac == 0 {
        digits(whole)
    } else {
        digits(whole) + seq!['.'] + fraction_digits(frac, scale)
    }
}

/// The text of `units / 10^scale`.
pub open spec fn decimal_text(units: nat, scale: nat) -> Seq<char> {
    fixed_text(units / pow10(scale), units % pow10(scale), scale)
}

pub proof fn lemma_pow10_positive(n: nat)
    ensures
        pow10(n) > 0,
    decreases n,
{
    if n > 0 {
        lemma_pow10_positive((n - 1) as nat);
    }
}

/// `c` writes a digit.
pub open spec fn is_digit(c: char) -> bool {
    c == '0' || c == '1' || c == '2' || c == '3' || c == '4' || c == '5' || c == '6' || c == '7'
        || c == '8' || c == '9'
}

/// Every character of `text` writes a digit.
pub open spec fn all_digits(text: Seq<char>) -> bool {
    forall|i: int| 0 <= i < text.len() ==> is_digit(#[trigger] text[i])
}

/// Two sequences that are equal as wholes and split at the same place are
/// equal part by part.
pub proof fn lemma_equal_parts(a: Seq<char>, b: Seq<char>, c: Seq<char>, d: Seq<char>)
    requires
        a + b == c + d,
        a.len() == c.len(),
    ensures
        a == c,
        b == d,
{
    let n = a.len() as int;
    assert(a =~= (a + b).take(n));
    assert(c =~= (c + d).take(n));
    assert(b =~= (a + b).skip(n));
    assert(d =~= (c + d).skip(n));
}

/// Two sequences of digits, each followed by something that does not start
/// with a digit, end at the same place if the wholes are equal.
pub proof fn lemma_digits_end_together(a: Seq<char>, b: Seq<char>, c: Seq<char>, d: Seq<char>)
    requires
        a + b == c + d,
        all_digits(a),
        all_digits(c),
        b.len() == 0 || !is_digit(b[0]),
        d.len() == 0 || !is_digit(d[0]),
    ensures
        a == c,
        b == d,
{
    let whole = a + b;
    assert(whole == c + d);
    assert(whole.len() == a.len() + b.len());
    assert(whole.len() == c.len() + d.len());
    if a.len() < c.len() {
        let i = a.len() as int;
        assert(b.len() > 0);
        assert(whole[i] == b[0]);
        assert((c + d)[i] == c[i]);
        assert(is_digit(c[i]));
    } else if c.len() < a.len() {
        let i = c.len() as int;
        assert(d.len() > 0);
        assert((c + d)[i] == d[0]);
        assert(whole[i] == a[i]);
        assert(is_digit(a[i]));
    }
    lemma_equal_parts(a, b, c, d);
}

/// Different digits are written by different characters.
pub proof fn lemma_digit_char_injective(a: nat, b: nat)
    requires
        a < 10,
        b < 10,
        digit_char(a) == digit_char(b),
    ensures
        a == b,
{
}

/// Two sequences free of the character `stop`, each followed by nothing or
/// by something that starts with `stop`, end at the same place if the wholes
/// are equal.
pub proof fn lemma_split_at_first(
    a: Seq<char>,
    b: Seq<char>,
    c: Seq<char>,
    d: Seq<char>,
    stop: char,
)
    requires
        a + b == c + d,
        forall|i: int| 0 <= i < a.len() ==> a[i] != stop,
        forall|i: int| 0 <= i < c.len() ==> c[i] != stop,
        b.len() == 0 || b[0] == stop,
        d.len() == 0 || d[0] == stop,
    ensures
        a == c,
        b == d,
{
    let whole = a + b;
    assert(whole == c + d);
    assert(whole.len() == a.len() + b.len());
    assert(whole.len() == c.len() + d.len());
    if a.len() < c.len() {
        let i = a.len() as int;
        assert(whole[i] == b[0]);
        assert((c + d)[i] == c[i]);
    } else if c.len() < a.len() {
        let i = c.len() as int;
        assert((c + d)[i] == d[0]);
        assert(whole[i] == a[i]);
    }
    lemma_equal_parts(a, b, c, d);
}

/// The digits of a number are digits, and there is at least one.
pub proof fn lemma_digits_shape(n: nat)
    ensures
        digits(n).len() >= 1,
        all_digits(digits(n)),
    decreases n,
{
    if n >= 10 {
        lemma_digits_shape(n / 10);
    }
}

/// Different numbers have different digits.
pub proof fn lemma_digits_injective(a: nat, b: nat)
    requires
        digits(a) == digits(b),
    ensures
        a == b,
    decreases a,
{
    lemma_digits_shape(a / 10);
    lemma_digits_shape(b / 10);
    if a < 10 && b < 10 {
        assert(digits(a)[0] == digit_char(a));
        assert(digits(b)[0] == digit_char(b));
        lemma_digit_char_injective(a, b);
    } else if a >= 10 && b >= 10 {
        let front_a = digits(a / 10);
        let front_b = digits(b / 10);
        assert(digits(a) == front_a.push(digit_char(a % 10)));
        assert(digits(b) == front_b.push(digit_char(b % 10)));
        assert(front_a =~= digits(a).drop_last());
        assert(front_b =~= digits(b).drop_last());
        assert(digits(a).last() == digit_char(a % 10));
        assert(digits(b).last() == digit_char(b % 10));
        lemma_digit_char_injective(a % 10, b % 10);
        lemma_digits_injective(a / 10, b / 10);
    } else if a < 10 {
        assert(digits(a).len() == 1);
        assert(digits(b) == digits(b / 10).push(digit_char(b % 10)));
        assert(digits(b).len() >= 2);
    } else {
        assert(digits(b).len() == 1);
        assert(digits(a) == digits(a / 10).push(digit_char(a % 10)));
        assert(digits(a).len() >= 2);
    }
}

/// The digits after the point are digits.
pub proof fn lemma_fraction_digits_shape(frac: nat, scale: nat)
    ensures
        all_digits(fraction_digits(frac, scale)),
    decreases scale,
{
    let text = fraction_digits(frac, scale);
    if frac == 0 || scale == 0 {
        assert(text.len() == 0);
    } else {
        let unit = pow10((scale - 1) as nat);
        let head = seq![digit_char(frac / unit)];
        let tail = fraction_digits(frac % unit, (scale - 1) as nat);
        lemma_pow10_positive((scale - 1) as nat);
        assert(text == head + tail);
        lemma_fraction_digits_shape(frac % unit, (scale - 1) as nat);
        assert(is_digit(head[0]));
        assert forall|i: int| 0 <= i < text.len() implies is_digit(#[trigger] text[i]) by {
            if i > 0 {
                assert(text[i] == tail[i - 1]);
            }
        }
    }
}

/// Fractions with the same digits after the point are the same fraction:
/// `frac1 / 10^scale1` equals `frac2 / 10^scale2`.
pub proof fn lemma_fraction_digits_injective(frac1: nat, scale1: nat, frac2: nat, scale2: nat)
    requires
        frac1 < pow10(scale1),
        frac2 < pow10(scale2),
        fraction_digits(frac1, scale1) == fraction_digits(frac2, scale2),
    ensures
        frac1 * pow10(scale2) == frac2 * pow10(scale1),
    decreases scale1,
{
    let text1 = fraction_digits(frac1, scale1);
    let text2 = fraction_digits(frac2, scale2);
    if frac1 == 0 || scale1 == 0 {
        assert(frac1 == 0);
        assert(text1.len() == 0);
        if frac2 != 0 && scale2 != 0 {
            assert(text2.len() >= 1);
        }
        assert(frac2 == 0);
        assert(0 * pow10(scale2) == 0 * pow10(scale1)) by (nonlinear_arith);
    } else if frac2 == 0 || scale2 == 0 {
        assert(text2.len() == 0);
        assert(text1.len() >= 1);
    } else {
        let s1 = (scale1 - 1) as nat;
        let s2 = (scale2 - 1) as nat;
        let u1 = pow10(s1);
        let u2 = pow10(s2);
        lemma_pow10_positive(s1);
        lemma_pow10_positive(s2);
        let tail1 = fraction_digits(frac1 % u1, s1);
        let tail2 = fraction_digits(frac2 % u2, s2);
        assert(text1[0] == digit_char(frac1 / u1));
        assert(text2[0] == digit_char(frac2 / u2));
        assert(tail1 =~= text1.skip(1));
        assert(tail2 =~= text2.skip(1));
        let d1 = frac1 / u1;
        let d2 = frac2 / u2;
        let r1 = frac1 % u1;
        let r2 = frac2 % u2;
        assert(d1 < 10 && frac1 == d1 * u1 + r1 && r1 < u1) by (nonlinear_arith)
            requires
                frac1 < 10 * u1,
                u1 > 0,
                d1 == frac1 / u1,
                r1 == frac1 % u1,
        ;
        assert(d2 < 10 && frac2 == d2 * u2 + r2 && r2 < u2) by (nonlinear_arith)
            requires
                frac2 < 10 * u2,
                u2 > 0,
                d2 == frac2 / u2,
                r2 == frac2 % u2,
        ;
        lemma_digit_char_injective(d1, d2);
        lemma_fraction_digits_injective(r1, s1, r2, s2);
        assert((d1 * u1 + r1) * (10 * u2) == (d1 * u2 + r2) * (10 * u1)) by (nonlinear_arith)
            requires
                r1 * u2 == r2 * u1,
        ;
    }
}

/// Texts of the same shape are texts of the same number: the whole parts
/// are equal, and so are the fractions.
pub proof fn lemma_fixed_text_injective(
    whole1: nat,
    frac1: nat,
    scale1: nat,
    whole2: nat,
    frac2: nat,
    scale2: nat,
)
    requires
        frac1 < pow10(scale1),
        frac2 < pow10(scale2),
        fixed_text(whole1, frac1, scale1) == fixed_text(whole2, frac2, scale2),
    ensures
        whole1 == whole2,
        frac1 * pow10(scale2) == frac2 * pow10(scale1),
{
    lemma_digits_shape(whole1);
    lemma_digits_shape(whole2);
    let point = seq!['.'];
    let rest1 = if frac1 == 0 {
        Seq::<char>::empty()
    } else {
        point + fraction_digits(frac1, scale1)
    };
    let rest2 = if frac2 == 0 {
        Seq::<char>::empty()
    } else {
        point + fraction_digits(frac2, scale2)
    };
    assert(fixed_text(whole1, frac1, scale1) =~= digits(whole1) + rest1);
    assert(fixed_text(whole2, frac2, scale2) =~= digits(whole2) + rest2);
    assert(!is_digit('.'));
    lemma_digits_end_together(digits(whole1), rest1, digits(whole2), rest2);
    lemma_digits_injective(whole1, whole2);
    if frac1 == 0 && frac2 == 0 {
        assert(0 * pow10(scale2) == 0 * pow10(scale1)) by (nonlinear_arith);
    } else if frac1 != 0 && frac2 != 0 {
        lemma_equal_parts(
            point,
            fraction_digits(frac1, scale1),
            point,
            fraction_digits(frac2, scale2),
        );
        lemma_fraction_digits_injective(frac1, scale1, frac2, scale2);
    } else {
        assert(rest1.len() != rest2.len());
    }
}

/// A decimal text is made of digits and at most a point.
pub proof fn lemma_decimal_text_chars(units: nat, scale: nat)
    ensures
        forall|i: int|
            0 <= i < decimal_text(units, scale).len() ==> is_digit(
                #[trigger] decimal_text(units, scale)[i],
            ) || decimal_text(units, scale)[i] == '.',
{
    let whole = units / pow10(scale);
    let frac = units % pow10(scale);
    let text = decimal_text(units, scale);
    lemma_digits_shape(whole);
    lemma_fraction_digits_shape(frac, scale);
    let front = digits(whole);
    let back = fraction_digits(frac, scale);
    assert forall|i: int| 0 <= i < text.len() implies is_digit(#[trigger] text[i]) || text[i]
        == '.' by {
        if frac == 0 {
            assert(text[i] == front[i]);
        } else {
            assert(text =~= front + seq!['.'] + back);
            if i < front.len() {
                assert(text[i] == front[i]);
            } else if i > front.len() {
                assert(text[i] == back[i - front.len() - 1]);
            }
        }
    }
}

/// Decimal texts that are equal write the same number:
/// `units1 / 10^scale1` equals `units2 / 10^scale2`.
pub proof fn lemma_decimal_text_injective(units1: nat, scale1: nat, units2: nat, scale2: nat)
    requires
        decimal_text(units1, scale1) == decimal_text(units2, scale2),
    ensures
        units1 * pow10(scale2) == units2 * pow10(scale1),
{
    let p1 = pow10(scale1);
    let p2 = pow10(scale2);
    lemma_pow10_positive(scale1);
    lemma_pow10_positive(scale2);
    let w1 = units1 / p1;
    let f1 = units1 % p1;
    let w2 = units2 / p2;
    let f2 = units2 % p2;
    assert(units1 == w1 * p1 + f1 && f1 < p1) by (nonlinear_arith)
        requires
            p1 > 0,
            w1 == units1 / p1,
            f1 == units1 % p1,
    ;
    assert(units2 == w2 * p2 + f2 && f2 < p2) by (nonlinear_arith)
        requires
            p2 > 0,
            w2 == units2 / p2,
            f2 == units2 % p2,
    ;
    lemma_fixed_text_injective(w1, f1, scale1, w2, f2, scale2);
    assert((w1 * p1 + f1) * p2 == (w1 * p2 + f2) * p1) by (nonlinear_arith)
        requires
            f1 * p2 == f2 * p1,
    ;
}

fn digit_str(d: u8) -> (s: &'static str)
    requires
        d < 10,
    ensures
        s@ == seq![digit_char(d as nat)],
{
    proof {
        reveal_strlit("0");
        reveal_strlit("1");
        reveal_strlit("2");
        reveal_strlit("3");
        reveal_strlit("4");
        reveal_strlit("5");
        reveal_strlit("6");
        reveal_strlit("7");
        reveal_strlit("8");
        reveal_strlit("9");
    }
    let s: &'static str = if d == 0 {
        "0"
    } else if d == 1 {
        "1"
    } else if d == 2 {
        "2"
    } else if d == 3 {
        "3"
    } else if d == 4 {
        "4"
    } else if d == 5 {
        "5"
    } else if d == 6 {
        "6"
    } else if d == 7 {
        "7"
    } else if d == 8 {
        "8"
    } else {
        "9"
    };
    assert(s@ =~= seq![digit_char(d as nat)]);
    s
}

/// Appends the decimal digits of `n` to `out`.
pub fn push_digits(out: &mut String, n: u128)
    ensures
        final(out)@ == old(out)@ + digits(n as nat),
    decreases n,
{
    if n >= 10 {
        push_digits(out, n / 10);
    }
    let d: u8 = (n % 10) as u8;
    out.append(digit_str(d));
    assert(out@ =~= old(out)@ + digits(n as nat));
}

/// Appends the digits after the point of `frac / unit`, where `unit` is
/// `10^scale` and `frac < unit`.
pub(crate) fn push_fraction_digits(
    out: &mut String,
    frac: u128,
    unit: u128,
    Ghost(scale): Ghost<nat>,
)
    requires
        unit == pow10(scale),
        frac < unit,
    ensures
        final(out)@ == old(out)@ + fraction_digits(frac as nat, scale),
{
    let mut rest: u128 = frac;
    let mut place: u128 = unit;
    let ghost mut left: nat = scale;
    while rest != 0
        invariant
            place == pow10(left),
            rest < place,
            out@ + fraction_digits(rest as nat, left) == old(out)@ + fraction_digits(
                frac as nat,
                scale,
            ),
        decreases left,
    {
        proof {
            lemma_pow10_positive((left - 1) as nat);
        }
        let ghost before = out@;
        place = place / 10;
        let d: u8 = (rest / place) as u8;
        assert(rest / place < 10) by (nonlinear_arith)
            requires
                rest < 10 * place,
                place > 0,
        ;
        out.append(digit_str(d));
        let ghost tail = fraction_digits((rest % place) as nat, (left - 1) as nat);
        assert(before + fraction_digits(rest as nat, left) =~= out@ + tail);
        rest = rest % place;
        proof {
            left = (left - 1) as nat;
        }
    }
}

/// Appends the text of `whole + frac / unit`, where `unit` is `10^scale` and
/// `frac < unit`.
pub(crate) fn push_fixed(
    out: &mut String,
    whole: u128,
    frac: u128,
    unit: u128,
    Ghost(scale): Ghost<nat>,
)
    requires
        unit == pow10(scale),
        frac < unit,
    ensures
        final(out)@ == old(out)@ + fixed_text(whole as nat, frac as nat, scale),
{
    push_digits(out, whole);
    if frac != 0 {
        proof {
            reveal_strlit(".");
        }
        out.append(".");
        push_fraction_digits(out, frac, unit, Ghost(scale));
    }
    assert(out@ =~= old(out)@ + fixed_text(whole as nat, frac as nat, scale));
}

/// Ten to the power `n`, for the exponents a fixed-point field can carry.
pub fn ten_to(n: u8) -> (p: u32)
    requires
        n <= 9,
    ensures
        p == pow10(n as nat),
{
    proof {
        reveal_with_fuel(pow10, 10);
    }
    if n == 0 {
        1
    } else if n == 1 {
        10
    } else if n == 2 {
        100
    } else if n == 3 {
        1_000
    } else if n == 4 {
        10_000
    } else if n == 5 {
        100_000
    } else if n == 6 {
        1_000_000
    } else if n == 7 {
        10_000_000
    } else if n == 8 {
        100_000_000
    } else {
        1_000_000_000
    }
}

/// The decimal text of `n`.
pub fn number_text(n: u128) -> (s: String)
    ensures
        s@ == digits(n as nat),
{
    let mut s = String::new();
    push_digits(&mut s, n);
    assert(s@ =~= digits(n as nat));
    s
}

} // verus!
