//! Fixed-point decimal numbers for gains, tempo factors and decays.

use vstd::prelude::*;
use vstd::string::StringExecFns;
use crate::text::{
    decimal_text, digits, is_digit, lemma_decimal_text_injective, lemma_digits_shape,
    lemma_equal_parts, lemma_pow10_positive, pow10, push_fixed, ten_to,
};

verus! {

/// The most digits a `Decimal` may carry after the point.
pub const MAX_SCALE: u8 = 9;

/// The number `units / 10^scale`, with at most nine digits after the point.
/// `Decimal::new(15, 1)` is 1.5 and `Decimal::new(-25, 2)` is -0.25.
#[derive(Clone, Copy, Debug, PartialEq, Eq)]
pub struct Decimal {
    units: i32,
    scale: u8,
}

/// The text of a number that is not below zero starts with a digit.
pub proof fn lemma_starts_with_digit(units: nat, scale: nat)
    ensures
        decimal_text(units, scale).len() >= 1,
        is_digit(decimal_text(units, scale)[0]),
{
    let whole = units / pow10(scale);
    lemma_digits_shape(whole);
    assert(decimal_text(units, scale)[0] == digits(whole)[0]);
}

impl Decimal {
    /// Holds of every decimal the library hands out or accepts.
    #[verifier::type_invariant]
    pub closed spec fn wf(self) -> bool {
        self.scale <= MAX_SCALE
    }

    /// The numerator: the number times `10^scale`.
    pub closed spec fn units(self) -> int {
        self.units as int
    }

    /// How many digits stand after the point.
    pub closed spec fn scale(self) -> nat {
        self.scale as nat
    }

    /// The number is above zero.
    pub open spec fn positive(self) -> bool {
        self.units() > 0
    }

    /// The number is no greater than one.
    pub open spec fn within_one(self) -> bool {
        self.units() <= pow10(self.scale())
    }

    /// The number as text: a minus sign if it is below zero, the whole part,
    /// and the digits after the point as far as they are not zero.
    pub open spec fn text(self) -> Seq<char> {
        if self.units() < 0 {
            seq!['-'] + decimal_text((-self.units()) as nat, self.scale())
        } else {
            decimal_text(self.units() as nat, self.scale())
        }
    }

    /// What `wf` says, over the scale.
    pub proof fn lemma_wf(self)
        ensures
            self.wf() <==> self.scale() <= 9,
            i32::MIN <= self.units() <= i32::MAX,
    {
    }

    /// The two decimals are the same number, whatever their scales.
    pub open spec fn same_number(self, other: Decimal) -> bool {
        self.units() * pow10(other.scale()) == other.units() * pow10(self.scale())
    }

    /// Decimals that read the same are the same number.
    pub proof fn lemma_text_injective(self, other: Decimal)
        requires
            self.text() == other.text(),
        ensures
            self.same_number(other),
    {
        let a = self.units();
        let b = other.units();
        let minus = seq!['-'];
        assert(!is_digit('-'));
        if a < 0 && b < 0 {
            let ta = decimal_text((-a) as nat, self.scale());
            let tb = decimal_text((-b) as nat, other.scale());
            lemma_equal_parts(minus, ta, minus, tb);
            lemma_decimal_text_injective((-a) as nat, self.scale(), (-b) as nat, other.scale());
            let pa = pow10(self.scale()) as int;
            let pb = pow10(other.scale()) as int;
            assert(a * pb == b * pa) by (nonlinear_arith)
                requires
                    (-a) * pb == (-b) * pa,
            ;
        } else if a >= 0 && b >= 0 {
            lemma_decimal_text_injective(a as nat, self.scale(), b as nat, other.scale());
        } else if a < 0 {
            lemma_starts_with_digit(b as nat, other.scale());
            assert(self.text()[0] == '-');
        } else {
            lemma_starts_with_digit(a as nat, self.scale());
            assert(other.text()[0] == '-');
        }
    }

    /// The number `units / 10^scale`, if `scale` is at most nine.
    pub fn new(units: i32, scale: u8) -> (r: Option<Decimal>)
        ensures
            r is Some <==> scale <= 9,
            r matches Some(d) ==> d.wf() && d.units() == units && d.scale() == scale,
    {
        if scale <= MAX_SCALE {
            Some(Decimal { units, scale })
        } else {
            None
        }
    }

    /// The whole number `n`.
    pub fn from_int(n: i32) -> (d: Decimal)
        ensures
            d.wf(),
            d.units() == n,
            d.scale() == 0,
    {
        Decimal { units: n, scale: 0 }
    }

    /// The numerator.
    pub fn numerator(&self) -> (u: i32)
        ensures
            u == self.units(),
    {
        self.units
    }

    /// The number of digits after the point.
    pub fn fraction_len(&self) -> (s: u8)
        ensures
            s == self.scale(),
            s <= 9,
    {
        proof {
            use_type_invariant(self);
        }
        self.scale
    }

    /// Whether the number is above zero.
    pub fn is_positive(&self) -> (b: bool)
        ensures
            b == self.positive(),
    {
        self.units > 0
    }

    /// Whether the number is no greater than one.
    pub fn is_within_one(&self) -> (b: bool)
        ensures
            b == self.within_one(),
    {
        proof {
            use_type_invariant(self);
        }
        let unit: u32 = ten_to(self.scale);
        (self.units as i64) <= (unit as i64)
    }

    /// Appends the number, as `text` writes it.
    pub fn push_text(&self, out: &mut String)
        ensures
            final(out)@ == old(out)@ + self.text(),
    {
        proof {
            use_type_invariant(self);
            lemma_pow10_positive(self.scale());
        }
        let unit: u128 = ten_to(self.scale) as u128;
        let wide: i64 = self.units as i64;
        let magnitude: u128 = if wide < 0 {
            proof {
                reveal_strlit("-");
            }
            out.append("-");
            (-wide) as u128
        } else {
            wide as u128
        };
        push_fixed(out, magnitude / unit, magnitude % unit, unit, Ghost(self.scale()));
        assert(out@ =~= old(out)@ + self.text());
    }

    /// The number as text.
    pub fn to_text(&self) -> (s: String)
        ensures
            s@ == self.text(),
    {
        let mut s = String::new();
        self.push_text(&mut s);
        assert(s@ =~= self.text());
        s
    }
}

} // verus!
