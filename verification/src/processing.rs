//! Effects, and the filter text that asks the engine for each transform.

use vstd::prelude::*;
use vstd::string::StringExecFns;
use crate::command::{flag_with, input_with, no_options, CommandDescriptor, OperationKind};
use crate::decimal::Decimal;
use crate::errors::{AudioError, AudioErrorView};
use crate::plan::{normalize_plan_to, reverse_plan_to};
use crate::tempo::{
    chain_text, doublings, halvings, lemma_chain_text_injective, lemma_pow2_monotonic,
    lemma_pow5_monotonic, lemma_pow5_positive, pow2, pow5, stage_half, stage_text, stage_two,
    tempo_stages, Stage,
};
use crate::text::{
    digits, is_digit, lemma_digits_end_together, lemma_digits_injective, lemma_digits_shape,
    lemma_equal_parts, lemma_pow10_positive, pow10, push_digits, push_fixed, ten_to,
};
use crate::time::TimeSpan;

verus! {

/// The effects that `apply_effect` knows.
#[derive(Clone, Copy, Debug, PartialEq, Eq)]
pub enum AudioEffect {
    /// Fade in from silence over the given time, from the start of the clip.
    FadeIn(TimeSpan),
    /// Fade out to silence over the given time. The fade starts at offset
    /// zero: the library does not know how long the clip is, so it cannot
    /// place the fade at the clip's end.
    FadeOut(TimeSpan),
    /// One echo, `delay` after the sound, at `decay` times its level.
    Echo { delay: TimeSpan, decay: Decimal },
}

impl AudioEffect {
    /// The effect's parameters lie in their domains: an echo's decay is
    /// above zero and at most one. Times cannot be negative.
    pub open spec fn valid(self) -> bool {
        match self {
            AudioEffect::FadeIn(_) => true,
            AudioEffect::FadeOut(_) => true,
            AudioEffect::Echo { delay, decay } => decay.positive() && decay.within_one(),
        }
    }

    /// The times and numbers that the effect holds are well formed.
    pub open spec fn wf(self) -> bool {
        match self {
            AudioEffect::FadeIn(length) => length.wf(),
            AudioEffect::FadeOut(length) => length.wf(),
            AudioEffect::Echo { delay, decay } => delay.wf() && decay.wf(),
        }
    }

    /// The two effects ask the engine for the same thing: they are of one
    /// kind; fades last equally long; echoes have the same delay in whole
    /// milliseconds and the same decay.
    pub open spec fn same_request(self, other: AudioEffect) -> bool {
        match (self, other) {
            (AudioEffect::FadeIn(a), AudioEffect::FadeIn(b)) => a == b,
            (AudioEffect::FadeOut(a), AudioEffect::FadeOut(b)) => a == b,
            (
                AudioEffect::Echo { delay: delay_a, decay: decay_a },
                AudioEffect::Echo { delay: delay_b, decay: decay_b },
            ) => delay_a.millis() == delay_b.millis() && decay_a.same_number(decay_b),
            _ => false,
        }
    }

    /// Whether the effect's parameters lie in their domains.
    pub fn is_valid(&self) -> (b: bool)
        ensures
            b == self.valid(),
    {
        match self {
            AudioEffect::FadeIn(_) => true,
            AudioEffect::FadeOut(_) => true,
            AudioEffect::Echo { delay, decay } => decay.is_positive() && decay.is_within_one(),
        }
    }
}

/// The filter text of an effect. A fade names its direction, the start
/// offset zero and its length in seconds. An echo names the input gain 0.8,
/// the output gain 0.9, its delay in whole milliseconds and its decay.
pub open spec fn effect_filter(effect: AudioEffect) -> Seq<char> {
    match effect {
        AudioEffect::FadeIn(length) => "afade=t=in:st=0:d="@ + length.seconds_text(),
        AudioEffect::FadeOut(length) => "afade=t=out:st=0:d="@ + length.seconds_text(),
        AudioEffect::Echo { delay, decay } => "aecho=0.8:0.9:"@ + digits(delay.millis()) + ":"@
            + decay.text(),
    }
}

/// The filter text that scales the volume by `factor`.
pub open spec fn volume_filter(factor: Decimal) -> Seq<char> {
    "volume="@ + factor.text()
}

/// The filter text that changes the tempo by `factor`, which is above zero:
/// the chain of stages for it.
pub open spec fn tempo_filter(factor: Decimal) -> Seq<char> {
    chain_text(tempo_stages(factor.units() as nat, factor.scale()))
}

/// The filter graph that lays a second input over the first from `start` on:
/// the second input is delayed by `start` in whole milliseconds and named
/// `d`, then the first input and `d` are mixed for as long as the first
/// lasts.
pub open spec fn overlay_filter(start: TimeSpan) -> Seq<char> {
    let delay = digits(start.millis());
    "[1]adelay="@ + delay + "|"@ + delay + "|"@ + delay
        + "[d]; [0][d]amix=inputs=2:duration=first"@
}

/// Effects with the same filter text ask for the same thing: no two
/// requests that differ share a text.
pub proof fn lemma_effect_filter_injective(a: AudioEffect, b: AudioEffect)
    requires
        a.wf(),
        b.wf(),
        effect_filter(a) == effect_filter(b),
    ensures
        a.same_request(b),
{
    reveal_strlit("afade=t=in:st=0:d=");
    reveal_strlit("afade=t=out:st=0:d=");
    reveal_strlit("aecho=0.8:0.9:");
    reveal_strlit(":");
    let fade_in = "afade=t=in:st=0:d="@;
    let fade_out = "afade=t=out:st=0:d="@;
    let echo = "aecho=0.8:0.9:"@;
    let colon = ":"@;
    let ta = effect_filter(a);
    let tb = effect_filter(b);
    // The three openings differ at their second or their ninth character.
    lemma_effect_filter_opening(a);
    lemma_effect_filter_opening(b);
    match (a, b) {
        (AudioEffect::FadeIn(x), AudioEffect::FadeIn(y)) => {
            lemma_equal_parts(fade_in, x.seconds_text(), fade_in, y.seconds_text());
            x.lemma_seconds_text_injective(y);
        },
        (AudioEffect::FadeOut(x), AudioEffect::FadeOut(y)) => {
            lemma_equal_parts(fade_out, x.seconds_text(), fade_out, y.seconds_text());
            x.lemma_seconds_text_injective(y);
        },
        (
            AudioEffect::Echo { delay: delay_a, decay: decay_a },
            AudioEffect::Echo { delay: delay_b, decay: decay_b },
        ) => {
            let da = digits(delay_a.millis());
            let db = digits(delay_b.millis());
            let ra = colon + decay_a.text();
            let rb = colon + decay_b.text();
            assert(ta =~= echo + (da + ra));
            assert(tb =~= echo + (db + rb));
            lemma_equal_parts(echo, da + ra, echo, db + rb);
            lemma_digits_shape(delay_a.millis());
            lemma_digits_shape(delay_b.millis());
            assert(ra[0] == ':' && rb[0] == ':');
            assert(!is_digit(':'));
            lemma_digits_end_together(da, ra, db, rb);
            lemma_digits_injective(delay_a.millis(), delay_b.millis());
            lemma_equal_parts(colon, decay_a.text(), colon, decay_b.text());
            decay_a.lemma_text_injective(decay_b);
        },
        _ => {},
    }
}

/// How the filter text of an effect opens: its second and its ninth
/// character tell the three kinds apart.
proof fn lemma_effect_filter_opening(effect: AudioEffect)
    ensures
        effect_filter(effect).len() > 8,
        effect matches AudioEffect::FadeIn(_) ==> effect_filter(effect)[1] == 'f' && effect_filter(
            effect,
        )[8] == 'i',
        effect matches AudioEffect::FadeOut(_) ==> effect_filter(effect)[1] == 'f'
            && effect_filter(effect)[8] == 'o',
        effect matches AudioEffect::Echo { .. } ==> effect_filter(effect)[1] == 'e',
{
    reveal_strlit("afade=t=in:st=0:d=");
    reveal_strlit("afade=t=out:st=0:d=");
    reveal_strlit("aecho=0.8:0.9:");
    match effect {
        AudioEffect::FadeIn(length) => {
            let opening = "afade=t=in:st=0:d="@;
            assert(effect_filter(effect) == opening + length.seconds_text());
            assert(opening.len() == 18);
            assert(effect_filter(effect)[1] == opening[1]);
            assert(effect_filter(effect)[8] == opening[8]);
        },
        AudioEffect::FadeOut(length) => {
            let opening = "afade=t=out:st=0:d="@;
            assert(effect_filter(effect) == opening + length.seconds_text());
            assert(opening.len() == 19);
            assert(effect_filter(effect)[1] == opening[1]);
            assert(effect_filter(effect)[8] == opening[8]);
        },
        AudioEffect::Echo { delay, decay } => {
            let opening = "aecho=0.8:0.9:"@;
            let rest = digits(delay.millis()) + ":"@ + decay.text();
            assert(effect_filter(effect) =~= opening + rest);
            assert(opening.len() == 14);
            assert(effect_filter(effect)[1] == opening[1]);
        },
    }
}

/// Volume filters with the same text scale by the same factor.
pub proof fn lemma_volume_filter_injective(a: Decimal, b: Decimal)
    requires
        volume_filter(a) == volume_filter(b),
    ensures
        a.same_number(b),
{
    lemma_equal_parts("volume="@, a.text(), "volume="@, b.text());
    a.lemma_text_injective(b);
}

/// Tempo filters with the same text change the tempo by the same factor.
pub proof fn lemma_tempo_filter_injective(a: Decimal, b: Decimal)
    requires
        a.positive(),
        b.positive(),
        tempo_filter(a) == tempo_filter(b),
    ensures
        a.same_number(b),
{
    lemma_chain_text_injective(a.units() as nat, a.scale(), b.units() as nat, b.scale());
}

/// Overlay graphs with the same text delay by the same whole milliseconds.
pub proof fn lemma_overlay_filter_injective(a: TimeSpan, b: TimeSpan)
    requires
        overlay_filter(a) == overlay_filter(b),
    ensures
        a.millis() == b.millis(),
{
    reveal_strlit("|");
    let opening = "[1]adelay="@;
    let bar = "|"@;
    let closing = "[d]; [0][d]amix=inputs=2:duration=first"@;
    let da = digits(a.millis());
    let db = digits(b.millis());
    let ra = bar + da + bar + da + closing;
    let rb = bar + db + bar + db + closing;
    assert(overlay_filter(a) =~= opening + (da + ra));
    assert(overlay_filter(b) =~= opening + (db + rb));
    lemma_equal_parts(opening, da + ra, opening, db + rb);
    lemma_digits_shape(a.millis());
    lemma_digits_shape(b.millis());
    assert(ra[0] == '|' && rb[0] == '|');
    assert(!is_digit('|'));
    lemma_digits_end_together(da, ra, db, rb);
    lemma_digits_injective(a.millis(), b.millis());
}

/// Converts an effect into its filter text.
pub fn effect_to_filter(effect: &AudioEffect) -> (s: String)
    ensures
        s@ == effect_filter(*effect),
{
    match effect {
        AudioEffect::FadeIn(length) => {
            let mut s = String::from_str("afade=t=in:st=0:d=");
            length.push_seconds(&mut s);
            s
        },
        AudioEffect::FadeOut(length) => {
            let mut s = String::from_str("afade=t=out:st=0:d=");
            length.push_seconds(&mut s);
            s
        },
        AudioEffect::Echo { delay, decay } => {
            let mut s = String::from_str("aecho=0.8:0.9:");
            push_digits(&mut s, delay.as_millis());
            s.append(":");
            decay.push_text(&mut s);
            s
        },
    }
}

/// The filter text that scales the volume by `factor`.
pub fn volume_to_filter(factor: &Decimal) -> (s: String)
    ensures
        s@ == volume_filter(*factor),
{
    let mut s = String::from_str("volume=");
    factor.push_text(&mut s);
    s
}

/// The filter graph that overlays a second input from `start` on.
pub fn overlay_to_filter(start: &TimeSpan) -> (s: String)
    ensures
        s@ == overlay_filter(*start),
{
    let millis: u128 = start.as_millis();
    let mut s = String::from_str("[1]adelay=");
    push_digits(&mut s, millis);
    s.append("|");
    push_digits(&mut s, millis);
    s.append("|");
    push_digits(&mut s, millis);
    s.append("[d]; [0][d]amix=inputs=2:duration=first");
    s
}

/// A chain that starts with `first` and goes on with `rest` reads as the
/// text of `first`, a comma, and the text of `rest`.
proof fn lemma_chain_text_step(first: Stage, rest: Seq<Stage>)
    requires
        rest.len() > 0,
    ensures
        chain_text(seq![first] + rest) == stage_text(first) + ","@ + chain_text(rest),
{
    let all = seq![first] + rest;
    assert(all.drop_first() =~= rest);
    assert(all[0] == first);
}

/// Appends the text of the one stage `units / unit`.
fn push_stage(out: &mut String, units: u128, unit: u128, Ghost(scale): Ghost<nat>)
    requires
        unit == pow10(scale),
    ensures
        final(out)@ == old(out)@ + stage_text(Stage { units: units as nat, scale: scale }),
{
    proof {
        lemma_pow10_positive(scale);
    }
    out.append("atempo=");
    push_fixed(out, units / unit, units % unit, unit, Ghost(scale));
    assert(out@ =~= old(out)@ + stage_text(Stage { units: units as nat, scale: scale }));
}

/// Appends the chain for a factor above two.
fn push_speedup(out: &mut String, units: u128, unit: u128, scale: u8)
    requires
        unit == pow10(scale as nat),
        units > 2 * unit,
        units < 0x8000_0000,
    ensures
        final(out)@ == old(out)@ + chain_text(tempo_stages(units as nat, scale as nat)),
{
    let ghost total = halvings(units as nat, unit as nat);
    let ghost last = Stage { units: units as nat * pow5(total), scale: scale as nat + total };
    let ghost full = tempo_stages(units as nat, scale as nat);
    proof {
        lemma_pow10_positive(scale as nat);
        assert(full =~= Seq::new(total, |i: int| stage_two()).push(last));
        assert(units as nat * pow5(0) == units) by (nonlinear_arith)
            requires
                pow5(0) == 1,
        ;
        assert(unit as nat * pow5(0) == unit) by (nonlinear_arith)
            requires
                pow5(0) == 1,
        ;
    }
    let mut doubled: u128 = unit;
    let mut rem: u128 = units;
    let mut den: u128 = unit;
    let ghost mut done: nat = 0;
    while units > 2 * doubled
        invariant
            units < 0x8000_0000,
            done <= total,
            halvings(units as nat, doubled as nat) == total - done,
            doubled > 0,
            doubled >= pow2(done),
            doubled <= units,
            rem == units as nat * pow5(done),
            den == pow10(scale as nat + done),
            den == doubled as nat * pow5(done),
            last == (Stage { units: units as nat * pow5(total), scale: scale as nat + total }),
            out@ + chain_text(Seq::new((total - done) as nat, |i: int| stage_two()).push(last))
                == old(out)@ + chain_text(full),
        decreases total - done,
    {
        proof {
            // The count of halvings so far is small, so the numbers fit.
            if done >= 30 {
                lemma_pow2_monotonic(30, done);
                assert(pow2(30) == 0x4000_0000) by {
                    reveal_with_fuel(pow2, 31);
                }
            }
            assert(done < 30);
            lemma_pow5_monotonic(done, 30);
            lemma_pow5_positive(done);
            assert(pow5(30) == 931322574615478515625) by {
                reveal_with_fuel(pow5, 31);
            }
            let p = pow5(done);
            assert(units as nat * p <= 0x8000_0000 * 931322574615478515625
                && doubled as nat * p <= 0x8000_0000 * 931322574615478515625)
                by (nonlinear_arith)
                requires
                    units < 0x8000_0000,
                    doubled <= units,
                    0 < p <= 931322574615478515625,
            ;
            let left = (total - done) as nat;
            let shorter = Seq::new((left - 1) as nat, |i: int| stage_two()).push(last);
            assert(Seq::new(left, |i: int| stage_two()).push(last) =~= seq![stage_two()]
                + shorter);
            lemma_chain_text_step(stage_two(), shorter);
            assert(pow10(0) == 1);
            assert(5 * (units as nat * p) == units as nat * (5 * p)) by (nonlinear_arith);
            assert(10 * (doubled as nat * p) == (2 * doubled as nat) * (5 * p))
                by (nonlinear_arith);
        }
        let ghost before = out@;
        push_stage(out, 2, 1, Ghost(0nat));
        out.append(",");
        assert(out@ =~= before + (stage_text(stage_two()) + ","@));
        doubled = 2 * doubled;
        rem = 5 * rem;
        den = 10 * den;
        proof {
            done = done + 1;
        }
    }
    let ghost before = out@;
    push_stage(out, rem, den, Ghost(scale as nat + done));
    proof {
        assert(done == total);
        assert(Seq::new(0nat, |i: int| stage_two()).push(last) =~= seq![last]);
        assert(chain_text(seq![last]) == stage_text(last));
        assert(out@ == before + stage_text(last));
    }
}

/// Appends the chain for a factor above zero and under one half.
fn push_slowdown(out: &mut String, units: u128, unit: u128, scale: u8)
    requires
        unit == pow10(scale as nat),
        0 < units,
        2 * units < unit,
        unit <= 1_000_000_000,
    ensures
        final(out)@ == old(out)@ + chain_text(tempo_stages(units as nat, scale as nat)),
{
    let ghost total = doublings(units as nat, unit as nat);
    let ghost last = Stage { units: units as nat * pow2(total), scale: scale as nat };
    let ghost full = tempo_stages(units as nat, scale as nat);
    proof {
        assert(full =~= Seq::new(total, |i: int| stage_half()).push(last));
        assert(units as nat * pow2(0) == units) by (nonlinear_arith)
            requires
                pow2(0) == 1,
        ;
    }
    let mut rem: u128 = units;
    let ghost mut done: nat = 0;
    while 2 * rem < unit
        invariant
            unit == pow10(scale as nat),
            unit <= 1_000_000_000,
            done <= total,
            doublings(rem as nat, unit as nat) == total - done,
            0 < rem,
            rem < unit,
            rem == units as nat * pow2(done),
            last == (Stage { units: units as nat * pow2(total), scale: scale as nat }),
            out@ + chain_text(Seq::new((total - done) as nat, |i: int| stage_half()).push(last))
                == old(out)@ + chain_text(full),
        decreases total - done,
    {
        proof {
            let left = (total - done) as nat;
            let shorter = Seq::new((left - 1) as nat, |i: int| stage_half()).push(last);
            assert(Seq::new(left, |i: int| stage_half()).push(last) =~= seq![stage_half()]
                + shorter);
            lemma_chain_text_step(stage_half(), shorter);
            assert(pow10(1) == 10) by {
                reveal_with_fuel(pow10, 2);
            }
            let p = pow2(done);
            assert(2 * (units as nat * p) == units as nat * (2 * p)) by (nonlinear_arith);
        }
        let ghost before = out@;
        push_stage(out, 5, 10, Ghost(1nat));
        out.append(",");
        assert(out@ =~= before + (stage_text(stage_half()) + ","@));
        rem = 2 * rem;
        proof {
            done = done + 1;
        }
    }
    let ghost before = out@;
    push_stage(out, rem, unit, Ghost(scale as nat));
    proof {
        assert(done == total);
        assert(Seq::new(0nat, |i: int| stage_half()).push(last) =~= seq![last]);
        assert(chain_text(seq![last]) == stage_text(last));
        assert(out@ == before + stage_text(last));
    }
}

/// The filter text that changes the tempo by `factor`: one stage where the
/// factor lies between one half and two, a chain of stages that multiply to
/// it where it does not. A factor of zero or under is refused.
pub fn speed_to_filter(factor: &Decimal) -> (r: Result<String, AudioError>)
    ensures
        factor.positive() ==> (r matches Ok(s) && s@ == tempo_filter(*factor)),
        !factor.positive() ==> (r matches Err(e) && e@ == AudioErrorView::InvalidParameter(
            "speed factor must be positive"@,
        )),
{
    if !factor.is_positive() {
        return Err(AudioError::invalid_parameter("speed factor must be positive"));
    }
    let scale: u8 = factor.fraction_len();
    let units: u128 = factor.numerator() as u128;
    let unit: u128 = ten_to(scale) as u128;
    let mut out = String::new();
    proof {
        reveal_with_fuel(pow10, 10);
    }
    if units > 2 * unit {
        push_speedup(&mut out, units, unit, scale);
    } else if 2 * units < unit {
        push_slowdown(&mut out, units, unit, scale);
    } else {
        push_stage(&mut out, units, unit, Ghost(scale as nat));
        assert(tempo_stages(units as nat, scale as nat) =~= seq![
            Stage { units: units as nat, scale: scale as nat },
        ]);
    }
    assert(out@ =~= tempo_filter(*factor));
    Ok(out)
}

/// The command that reverses the audio at `input_path` into `output_path`.
pub fn reverse_audio(input_path: &str, output_path: &str) -> (command: CommandDescriptor)
    ensures
        command@ == reverse_plan_to(input_path@, output_path@),
{
    CommandDescriptor::over_one(
        OperationKind::Reverse,
        input_with(no_options(), input_path),
        flag_with("-af", String::from_str("areverse")),
        String::from_str(output_path),
    )
}

/// The command that normalizes the loudness of the audio at `input_path`
/// into `output_path`.
pub fn normalize_volume(input_path: &str, output_path: &str) -> (command: CommandDescriptor)
    ensures
        command@ == normalize_plan_to(input_path@, output_path@),
{
    CommandDescriptor::over_one(
        OperationKind::Normalize,
        input_with(no_options(), input_path),
        flag_with("-af", String::from_str("loudnorm")),
        String::from_str(output_path),
    )
}

} // verus!
