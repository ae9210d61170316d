//! Splitting a tempo factor into stages the engine can run.
//!
//! One `atempo` stage takes a factor from one half to two. A factor outside
//! that range is reached by a chain of stages whose product is the factor:
//! stages of two (or of one half) until what is left lies in the range.

use vstd::prelude::*;
use crate::text::{
    decimal_text, is_digit, lemma_decimal_text_chars, lemma_decimal_text_injective,
    lemma_equal_parts, lemma_pow10_positive, lemma_split_at_first, pow10,
};

verus! {

/// Two to the power `n`.
pub open spec fn pow2(n: nat) -> nat
    decreases n,
{
    if n == 0 {
        1
    } else {
        2 * pow2((n - 1) as nat)
    }
}

/// Five to the power `n`.
pub open spec fn pow5(n: nat) -> nat
    decreases n,
{
    if n == 0 {
        1
    } else {
        5 * pow5((n - 1) as nat)
    }
}

/// One stage of a tempo chain: the factor `units / 10^scale`.
pub struct Stage {
    pub units: nat,
    pub scale: nat,
}

/// The stage that doubles the tempo.
pub open spec fn stage_two() -> Stage {
    Stage { units: 2, scale: 0 }
}

/// The stage that halves the tempo.
pub open spec fn stage_half() -> Stage {
    Stage { units: 5, scale: 1 }
}

/// A stage the engine runs as it stands: its factor lies between one half and
/// two, both included.
pub open spec fn native(s: Stage) -> bool {
    pow10(s.scale) <= 2 * s.units && s.units <= 2 * pow10(s.scale)
}

/// How often `units / unit` must be halved until it is at most two.
pub open spec fn halvings(units: nat, unit: nat) -> nat
    decreases
            (if units > 2 * unit {
                units - 2 * unit
            } else {
                0
            }),
{
    if unit > 0 && units > 2 * unit {
        1 + halvings(units, 2 * unit)
    } else {
        0
    }
}

/// How often `units / unit` must be doubled until it is at least one half.
pub open spec fn doublings(units: nat, unit: nat) -> nat
    decreases
            (if 2 * units < unit {
                unit - 2 * units
            } else {
                0
            }),
{
    if units > 0 && 2 * units < unit {
        1 + doublings(2 * units, unit)
    } else {
        0
    }
}

/// The chain for the factor `units / 10^scale`, which is above zero. A factor
/// in the native range is its own single stage. A larger one is halved `k`
/// times, `k` the least count that brings it to two or under: `k` stages of
/// two, then the factor over `2^k`. A smaller one is doubled in the same way
/// by stages of one half.
pub open spec fn tempo_stages(units: nat, scale: nat) -> Seq<Stage> {
    let unit = pow10(scale);
    if units > 2 * unit {
        let k = halvings(units, unit);
        Seq::new(k, |i: int| stage_two()).push(
            Stage { units: units * pow5(k), scale: scale + k },
        )
    } else if 2 * units < unit {
        let k = doublings(units, unit);
        Seq::new(k, |i: int| stage_half()).push(Stage { units: units * pow2(k), scale: scale })
    } else {
        seq![Stage { units: units, scale: scale }]
    }
}

/// The product of the stages' numerators.
pub open spec fn product_units(stages: Seq<Stage>) -> nat
    decreases stages.len(),
{
    if stages.len() == 0 {
        1
    } else {
        product_units(stages.drop_last()) * stages.last().units
    }
}

/// The product of the stages' denominators.
pub open spec fn product_unit(stages: Seq<Stage>) -> nat
    decreases stages.len(),
{
    if stages.len() == 0 {
        1
    } else {
        product_unit(stages.drop_last()) * pow10(stages.last().scale)
    }
}

/// The text of one stage.
pub open spec fn stage_text(s: Stage) -> Seq<char> {
    "atempo="@ + decimal_text(s.units, s.scale)
}

/// The text of a chain: its stages in order, joined by commas.
pub open spec fn chain_text(stages: Seq<Stage>) -> Seq<char>
    decreases stages.len(),
{
    if stages.len() == 0 {
        Seq::<char>::empty()
    } else if stages.len() == 1 {
        stage_text(stages[0])
    } else {
        stage_text(stages[0]) + ","@ + chain_text(stages.drop_first())
    }
}

pub proof fn lemma_pow2_positive(n: nat)
    ensures
        pow2(n) > 0,
    decreases n,
{
    if n > 0 {
        lemma_pow2_positive((n - 1) as nat);
    }
}

pub proof fn lemma_pow5_positive(n: nat)
    ensures
        pow5(n) > 0,
    decreases n,
{
    if n > 0 {
        lemma_pow5_positive((n - 1) as nat);
    }
}

pub proof fn lemma_pow2_monotonic(a: nat, b: nat)
    requires
        a <= b,
    ensures
        pow2(a) <= pow2(b),
    decreases b,
{
    if a < b {
        lemma_pow2_monotonic(a, (b - 1) as nat);
    }
}

pub proof fn lemma_pow5_monotonic(a: nat, b: nat)
    requires
        a <= b,
    ensures
        pow5(a) <= pow5(b),
    decreases b,
{
    if a < b {
        lemma_pow5_monotonic(a, (b - 1) as nat);
    }
}

/// `10^(a + b)` is `10^a * 2^b * 5^b`.
pub proof fn lemma_pow10_split(a: nat, b: nat)
    ensures
        pow10(a + b) == pow10(a) * pow2(b) * pow5(b),
    decreases b,
{
    if b == 0 {
        assert(pow10(a) * 1 * 1 == pow10(a));
    } else {
        let c = (b - 1) as nat;
        lemma_pow10_split(a, c);
        let p = pow10(a);
        let x = pow2(c);
        let y = pow5(c);
        assert(pow10(a + b) == 10 * pow10(a + c));
        assert(10 * (p * x * y) == p * (2 * x) * (5 * y)) by (nonlinear_arith);
    }
}

/// After `k` halvings, `k` the count that `halvings` gives, what is left of
/// `units / unit` is at most two, and above one if any halving took place.
pub proof fn lemma_halvings_reach(units: nat, unit: nat)
    requires
        unit > 0,
    ensures
        units <= 2 * (unit * pow2(halvings(units, unit))),
        halvings(units, unit) > 0 ==> units > unit * pow2(halvings(units, unit)),
    decreases
            (if units > 2 * unit {
                units - 2 * unit
            } else {
                0
            }),
{
    if units > 2 * unit {
        lemma_halvings_reach(units, 2 * unit);
        let k = halvings(units, 2 * unit);
        assert((2 * unit) * pow2(k) == unit * (2 * pow2(k))) by (nonlinear_arith);
        assert(pow2(k + 1) == 2 * pow2(k));
        if k == 0 {
            assert(unit * pow2(1) == 2 * unit) by (nonlinear_arith)
                requires
                    pow2(1) == 2,
            ;
        }
    } else {
        assert(unit * pow2(0) == unit) by (nonlinear_arith)
            requires
                pow2(0) == 1,
        ;
    }
}

/// After `k` doublings, `k` the count that `doublings` gives, what is left of
/// `units / unit` is at least one half, and under one if any doubling took
/// place.
pub proof fn lemma_doublings_reach(units: nat, unit: nat)
    requires
        units > 0,
    ensures
        unit <= 2 * (units * pow2(doublings(units, unit))),
        doublings(units, unit) > 0 ==> units * pow2(doublings(units, unit)) < unit,
    decreases
            (if 2 * units < unit {
                unit - 2 * units
            } else {
                0
            }),
{
    if 2 * units < unit {
        lemma_doublings_reach(2 * units, unit);
        let k = doublings(2 * units, unit);
        assert((2 * units) * pow2(k) == units * (2 * pow2(k))) by (nonlinear_arith);
        assert(pow2(k + 1) == 2 * pow2(k));
        if k == 0 {
            assert(units * pow2(1) == 2 * units) by (nonlinear_arith)
                requires
                    pow2(1) == 2,
            ;
        }
    } else {
        assert(units * pow2(0) == units) by (nonlinear_arith)
            requires
                pow2(0) == 1,
        ;
    }
}

/// `k` stages of two multiply to `2^k`.
proof fn lemma_product_of_twos(k: nat)
    ensures
        product_units(Seq::new(k, |i: int| stage_two())) == pow2(k),
        product_unit(Seq::new(k, |i: int| stage_two())) == 1,
    decreases k,
{
    let s = Seq::new(k, |i: int| stage_two());
    if k > 0 {
        let j = (k - 1) as nat;
        lemma_product_of_twos(j);
        assert(s.drop_last() =~= Seq::new(j, |i: int| stage_two()));
        assert(s.last() == stage_two());
        assert(pow10(0) == 1);
        assert(product_units(s) == pow2(j) * 2);
        assert(product_unit(s) == product_unit(s.drop_last()) * pow10(s.last().scale));
    }
}

/// `k` stages of one half multiply to `5^k / 10^k`.
proof fn lemma_product_of_halves(k: nat)
    ensures
        product_units(Seq::new(k, |i: int| stage_half())) == pow5(k),
        product_unit(Seq::new(k, |i: int| stage_half())) == pow10(k),
    decreases k,
{
    let s = Seq::new(k, |i: int| stage_half());
    if k > 0 {
        let j = (k - 1) as nat;
        lemma_product_of_halves(j);
        assert(s.drop_last() =~= Seq::new(j, |i: int| stage_half()));
        assert(s.last() == stage_half());
        assert(pow10(1) == 10) by {
            reveal_with_fuel(pow10, 2);
        }
        assert(pow5(j) * 5 == 5 * pow5(j));
        assert(pow10(j) * 10 == 10 * pow10(j));
    }
}

/// A factor above zero makes a chain of one stage exactly when it lies in
/// the native range, and that stage is then the factor itself.
pub proof fn lemma_single_stage_iff_native(units: nat, scale: nat)
    requires
        units > 0,
    ensures
        tempo_stages(units, scale).len() >= 1,
        tempo_stages(units, scale).len() == 1 <==> native(Stage { units: units, scale: scale }),
        native(Stage { units: units, scale: scale }) ==> tempo_stages(units, scale) == seq![
            Stage { units: units, scale: scale },
        ],
        native(Stage { units: units, scale: scale }) ==> chain_text(tempo_stages(units, scale))
            == stage_text(Stage { units: units, scale: scale }),
{
    lemma_pow10_positive(scale);
    let unit = pow10(scale);
    if units > 2 * unit {
        assert(halvings(units, unit) >= 1);
    } else if 2 * units < unit {
        assert(doublings(units, unit) >= 1);
    }
}

/// The stages of a chain multiply to the factor it was made for: with the
/// stages as fractions, the product of their numerators over the product of
/// their denominators equals `units / 10^scale`.
pub proof fn lemma_stages_multiply_to_factor(units: nat, scale: nat)
    requires
        units > 0,
    ensures
        product_units(tempo_stages(units, scale)) * pow10(scale) == units * product_unit(
            tempo_stages(units, scale),
        ),
{
    let unit = pow10(scale);
    let stages = tempo_stages(units, scale);
    if units > 2 * unit {
        let k = halvings(units, unit);
        let head = Seq::new(k, |i: int| stage_two());
        assert(stages.drop_last() =~= head);
        lemma_product_of_twos(k);
        lemma_pow10_split(scale, k);
        let a = pow2(k);
        let b = pow5(k);
        assert(product_units(stages) == a * (units * b));
        assert(product_unit(stages) == 1 * pow10(scale + k));
        assert((a * (units * b)) * unit == units * (1 * (unit * a * b))) by (nonlinear_arith);
    } else if 2 * units < unit {
        let k = doublings(units, unit);
        let head = Seq::new(k, |i: int| stage_half());
        assert(stages.drop_last() =~= head);
        lemma_product_of_halves(k);
        lemma_pow10_split(0, k);
        assert(pow10(0) == 1);
        let a = pow2(k);
        let b = pow5(k);
        assert(product_units(stages) == b * (units * a));
        assert(product_unit(stages) == pow10(k) * unit);
        assert(pow10(k) == 1 * a * b);
        assert((b * (units * a)) * unit == units * ((1 * a * b) * unit)) by (nonlinear_arith);
    } else {
        assert(stages.drop_last() =~= Seq::<Stage>::empty());
        assert(product_units(Seq::<Stage>::empty()) == 1);
        assert(product_unit(Seq::<Stage>::empty()) == 1);
        assert(product_units(stages) == 1 * units);
        assert(product_unit(stages) == 1 * unit);
        assert((1 * units) * unit == units * (1 * unit)) by (nonlinear_arith);
    }
}

/// Every stage of a chain lies in the native range.
pub proof fn lemma_stages_native(units: nat, scale: nat)
    requires
        units > 0,
    ensures
        forall|i: int|
            0 <= i < tempo_stages(units, scale).len() ==> native(
                #[trigger] tempo_stages(units, scale)[i],
            ),
{
    lemma_pow10_positive(scale);
    let unit = pow10(scale);
    let stages = tempo_stages(units, scale);
    assert(pow10(0) == 1);
    assert(pow10(1) == 10) by {
        reveal_with_fuel(pow10, 2);
    }
    if units > 2 * unit {
        let k = halvings(units, unit);
        lemma_halvings_reach(units, unit);
        lemma_pow10_split(scale, k);
        lemma_pow5_positive(k);
        let a = pow2(k);
        let b = pow5(k);
        assert(k > 0);
        assert(units * b <= 2 * (unit * a * b) && unit * a * b <= 2 * (units * b))
            by (nonlinear_arith)
            requires
                units <= 2 * (unit * a),
                units > unit * a,
                b > 0,
        ;
        assert(native(stages[k as int]));
        assert forall|i: int| 0 <= i < stages.len() implies native(#[trigger] stages[i]) by {
            if i < k {
                assert(stages[i] == stage_two());
            }
        }
    } else if 2 * units < unit {
        let k = doublings(units, unit);
        lemma_doublings_reach(units, unit);
        assert(k > 0);
        assert(native(stages[k as int]));
        assert forall|i: int| 0 <= i < stages.len() implies native(#[trigger] stages[i]) by {
            if i < k {
                assert(stages[i] == stage_half());
            }
        }
    } else {
        assert(native(stages[0]));
    }
}

/// The two stages have the same factor, whatever their scales.
pub open spec fn same_factor(a: Stage, b: Stage) -> bool {
    a.units * pow10(b.scale) == b.units * pow10(a.scale)
}

/// The text of a stage holds no comma.
proof fn lemma_stage_text_has_no_comma(s: Stage)
    ensures
        stage_text(s).len() >= 1,
        forall|i: int| 0 <= i < stage_text(s).len() ==> stage_text(s)[i] != ',',
{
    reveal_strlit("atempo=");
    lemma_decimal_text_chars(s.units, s.scale);
    let opening = "atempo="@;
    let number = decimal_text(s.units, s.scale);
    let text = stage_text(s);
    assert(!is_digit(','));
    assert forall|i: int| 0 <= i < text.len() implies text[i] != ',' by {
        if i < opening.len() {
            assert(text[i] == opening[i]);
        } else {
            assert(text[i] == number[i - opening.len()]);
        }
    }
}

/// Chains with the same text have equally many stages, and the same text
/// stage by stage.
proof fn lemma_chain_text_parts(a: Seq<Stage>, b: Seq<Stage>)
    requires
        a.len() >= 1,
        b.len() >= 1,
        chain_text(a) == chain_text(b),
    ensures
        a.len() == b.len(),
        forall|i: int| 0 <= i < a.len() ==> stage_text(#[trigger] a[i]) == stage_text(b[i]),
    decreases a.len(),
{
    reveal_strlit(",");
    let comma = ","@;
    let head_a = stage_text(a[0]);
    let head_b = stage_text(b[0]);
    let rest_a = a.drop_first();
    let rest_b = b.drop_first();
    let tail_a = if a.len() == 1 {
        Seq::<char>::empty()
    } else {
        comma + chain_text(rest_a)
    };
    let tail_b = if b.len() == 1 {
        Seq::<char>::empty()
    } else {
        comma + chain_text(rest_b)
    };
    assert(chain_text(a) =~= head_a + tail_a);
    assert(chain_text(b) =~= head_b + tail_b);
    lemma_stage_text_has_no_comma(a[0]);
    lemma_stage_text_has_no_comma(b[0]);
    lemma_split_at_first(head_a, tail_a, head_b, tail_b, ',');
    if a.len() == 1 {
        assert(tail_b.len() == 0);
        assert(b.len() == 1);
    } else {
        assert(tail_b.len() > 0);
        lemma_equal_parts(comma, chain_text(rest_a), comma, chain_text(rest_b));
        lemma_chain_text_parts(rest_a, rest_b);
        assert forall|i: int| 0 <= i < a.len() implies stage_text(#[trigger] a[i]) == stage_text(
            b[i],
        ) by {
            if i > 0 {
                assert(a[i] == rest_a[i - 1]);
                assert(b[i] == rest_b[i - 1]);
            }
        }
    }
}

/// The denominators of a chain multiply to a number above zero.
proof fn lemma_product_unit_positive(stages: Seq<Stage>)
    ensures
        product_unit(stages) > 0,
    decreases stages.len(),
{
    if stages.len() > 0 {
        lemma_product_unit_positive(stages.drop_last());
        lemma_pow10_positive(stages.last().scale);
        let p = product_unit(stages.drop_last());
        let q = pow10(stages.last().scale);
        assert(p * q > 0) by (nonlinear_arith)
            requires
                p > 0,
                q > 0,
        ;
    }
}

/// Chains that agree in factor stage by stage have the same product.
proof fn lemma_products_agree(a: Seq<Stage>, b: Seq<Stage>)
    requires
        a.len() == b.len(),
        forall|i: int| 0 <= i < a.len() ==> same_factor(#[trigger] a[i], b[i]),
    ensures
        product_units(a) * product_unit(b) == product_units(b) * product_unit(a),
    decreases a.len(),
{
    if a.len() == 0 {
        assert(product_units(a) == 1 && product_unit(a) == 1);
        assert(product_units(b) == 1 && product_unit(b) == 1);
    } else {
        let front_a = a.drop_last();
        let front_b = b.drop_last();
        assert forall|i: int| 0 <= i < front_a.len() implies same_factor(
            #[trigger] front_a[i],
            front_b[i],
        ) by {
            assert(front_a[i] == a[i]);
            assert(front_b[i] == b[i]);
        }
        lemma_products_agree(front_a, front_b);
        let n = a.len() - 1;
        assert(same_factor(a[n], b[n]));
        let ua = product_units(front_a);
        let ub = product_units(front_b);
        let da = product_unit(front_a);
        let db = product_unit(front_b);
        let x = a.last().units;
        let y = b.last().units;
        let p = pow10(a.last().scale);
        let q = pow10(b.last().scale);
        assert((ua * x) * (db * q) == (ub * y) * (da * p)) by (nonlinear_arith)
            requires
                ua * db == ub * da,
                x * q == y * p,
        ;
    }
}

/// Factors whose chains read the same are the same factor: no two tempo
/// changes that differ share a filter text.
pub proof fn lemma_chain_text_injective(units1: nat, scale1: nat, units2: nat, scale2: nat)
    requires
        units1 > 0,
        units2 > 0,
        chain_text(tempo_stages(units1, scale1)) == chain_text(tempo_stages(units2, scale2)),
    ensures
        units1 * pow10(scale2) == units2 * pow10(scale1),
{
    let a = tempo_stages(units1, scale1);
    let b = tempo_stages(units2, scale2);
    lemma_single_stage_iff_native(units1, scale1);
    lemma_single_stage_iff_native(units2, scale2);
    lemma_chain_text_parts(a, b);
    assert forall|i: int| 0 <= i < a.len() implies same_factor(#[trigger] a[i], b[i]) by {
        assert(stage_text(a[i]) == stage_text(b[i]));
        lemma_equal_parts(
            "atempo="@,
            decimal_text(a[i].units, a[i].scale),
            "atempo="@,
            decimal_text(b[i].units, b[i].scale),
        );
        lemma_decimal_text_injective(a[i].units, a[i].scale, b[i].units, b[i].scale);
    }
    lemma_products_agree(a, b);
    lemma_stages_multiply_to_factor(units1, scale1);
    lemma_stages_multiply_to_factor(units2, scale2);
    lemma_product_unit_positive(a);
    lemma_product_unit_positive(b);
    let ua = product_units(a);
    let ub = product_units(b);
    let da = product_unit(a);
    let db = product_unit(b);
    let p1 = pow10(scale1);
    let p2 = pow10(scale2);
    // u1/p1 = ua/da and u2/p2 = ub/db and ua/da = ub/db.
    assert((units1 * p2) * (da * db) == (units2 * p1) * (da * db)) by (nonlinear_arith)
        requires
            ua * p1 == units1 * da,
            ub * p2 == units2 * db,
            ua * db == ub * da,
    ;
    let m = da * db;
    let l = units1 * p2;
    let r = units2 * p1;
    assert(m > 0) by (nonlinear_arith)
        requires
            m == da * db,
            da > 0,
            db > 0,
    ;
    assert(l == r) by (nonlinear_arith)
        requires
            l * m == r * m,
            m > 0,
    ;
}

} // verus!
