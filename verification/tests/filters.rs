use audio_processor::command::{
    flag_with, input_with, no_options, push_arg, CommandDescriptor, OperationKind,
};
use audio_processor::decimal::Decimal;
use audio_processor::errors::AudioError;
use audio_processor::manifest::{push_escaped, push_manifest_line};
use audio_processor::processing::{
    effect_to_filter, overlay_to_filter, speed_to_filter, volume_to_filter, AudioEffect,
};
use audio_processor::text::{number_text, push_digits, ten_to};
use audio_processor::time::TimeSpan;

fn decimal(units: i32, scale: u8) -> Decimal {
    Decimal::new(units, scale).expect("scale is at most nine")
}

fn tempo(units: i32, scale: u8) -> String {
    speed_to_filter(&decimal(units, scale)).expect("factor is positive")
}

fn stage_values(filter: &str) -> Vec<f64> {
    filter
        .split(',')
        .map(|stage| {
            let value = stage.strip_prefix("atempo=").expect("each stage is an atempo");
            value.parse::<f64>().expect("each stage holds a number")
        })
        .collect()
}

#[test]
fn echo_filter_text() {
    let effect = AudioEffect::Echo {
        delay: TimeSpan::from_millis(500),
        decay: decimal(5, 1),
    };
    assert_eq!(effect_to_filter(&effect), "aecho=0.8:0.9:500:0.5");
}

#[test]
fn echo_delay_is_in_whole_milliseconds() {
    let effect = AudioEffect::Echo {
        delay: TimeSpan::new(1, 234_999_999).unwrap(),
        decay: decimal(25, 2),
    };
    assert_eq!(effect_to_filter(&effect), "aecho=0.8:0.9:1234:0.25");
}

#[test]
fn fade_filter_text() {
    assert_eq!(
        effect_to_filter(&AudioEffect::FadeIn(TimeSpan::from_secs(2))),
        "afade=t=in:st=0:d=2"
    );
    assert_eq!(
        effect_to_filter(&AudioEffect::FadeOut(TimeSpan::from_secs(2))),
        "afade=t=out:st=0:d=2"
    );
    assert_eq!(
        effect_to_filter(&AudioEffect::FadeIn(TimeSpan::from_millis(1500))),
        "afade=t=in:st=0:d=1.5"
    );
    assert_eq!(
        effect_to_filter(&AudioEffect::FadeOut(TimeSpan::from_millis(1))),
        "afade=t=out:st=0:d=0.001"
    );
    assert_eq!(
        effect_to_filter(&AudioEffect::FadeIn(TimeSpan::new(0, 1).unwrap())),
        "afade=t=in:st=0:d=0.000000001"
    );
    assert_eq!(
        effect_to_filter(&AudioEffect::FadeIn(TimeSpan::from_secs(0))),
        "afade=t=in:st=0:d=0"
    );
}

#[test]
fn effect_validity() {
    assert!(AudioEffect::FadeIn(TimeSpan::from_secs(0)).is_valid());
    assert!(AudioEffect::FadeOut(TimeSpan::from_secs(9)).is_valid());
    let echo = |units: i32, scale: u8| AudioEffect::Echo {
        delay: TimeSpan::from_secs(0),
        decay: decimal(units, scale),
    };
    assert!(echo(1, 0).is_valid());
    assert!(echo(1, 9).is_valid());
    assert!(echo(1_000_000_000, 9).is_valid());
    assert!(!echo(1_000_000_001, 9).is_valid());
    assert!(!echo(0, 3).is_valid());
    assert!(!echo(-1, 3).is_valid());
}

#[test]
fn volume_filter_text() {
    assert_eq!(volume_to_filter(&decimal(15, 1)), "volume=1.5");
    assert_eq!(volume_to_filter(&decimal(2, 0)), "volume=2");
    assert_eq!(volume_to_filter(&decimal(2000, 3)), "volume=2");
    assert_eq!(volume_to_filter(&decimal(5, 2)), "volume=0.05");
    assert_eq!(volume_to_filter(&decimal(-25, 2)), "volume=-0.25");
}

#[test]
fn overlay_filter_text() {
    assert_eq!(
        overlay_to_filter(&TimeSpan::from_secs(1)),
        "[1]adelay=1000|1000|1000[d]; [0][d]amix=inputs=2:duration=first"
    );
    assert_eq!(
        overlay_to_filter(&TimeSpan::from_millis(0)),
        "[1]adelay=0|0|0[d]; [0][d]amix=inputs=2:duration=first"
    );
    assert_eq!(
        overlay_to_filter(&TimeSpan::new(2, 500_999_999).unwrap()),
        "[1]adelay=2500|2500|2500[d]; [0][d]amix=inputs=2:duration=first"
    );
    let far = "18446744073709551615000";
    assert_eq!(
        overlay_to_filter(&TimeSpan::from_secs(u64::MAX)),
        format!("[1]adelay={far}|{far}|{far}[d]; [0][d]amix=inputs=2:duration=first")
    );
}

#[test]
fn tempo_in_the_native_range_is_one_stage() {
    assert_eq!(tempo(5, 1), "atempo=0.5");
    assert_eq!(tempo(1, 0), "atempo=1");
    assert_eq!(tempo(125, 2), "atempo=1.25");
    assert_eq!(tempo(2, 0), "atempo=2");
    assert_eq!(tempo(2_000_000_000, 9), "atempo=2");
    assert_eq!(tempo(500_000_000, 9), "atempo=0.5");
}

#[test]
fn tempo_above_two_is_halved() {
    assert_eq!(tempo(3, 0), "atempo=2,atempo=1.5");
    assert_eq!(tempo(4, 0), "atempo=2,atempo=2");
    assert_eq!(tempo(5, 0), "atempo=2,atempo=2,atempo=1.25");
    assert_eq!(tempo(8, 0), "atempo=2,atempo=2,atempo=2");
    assert_eq!(tempo(2001, 3), "atempo=2,atempo=1.0005");
    assert_eq!(tempo(41, 1), "atempo=2,atempo=2,atempo=1.025");
}

#[test]
fn tempo_under_one_half_is_doubled() {
    assert_eq!(tempo(25, 2), "atempo=0.5,atempo=0.5");
    assert_eq!(tempo(2, 1), "atempo=0.5,atempo=0.5,atempo=0.8");
    assert_eq!(tempo(499, 3), "atempo=0.5,atempo=0.998");
    assert_eq!(tempo(1, 1), "atempo=0.5,atempo=0.5,atempo=0.5,atempo=0.8");
}

#[test]
fn tempo_of_the_largest_factor() {
    let filter = tempo(i32::MAX, 0);
    let stages: Vec<&str> = filter.split(',').collect();
    assert_eq!(stages.len(), 31);
    assert!(stages[..30].iter().all(|stage| *stage == "atempo=2"));
    assert_eq!(stages[30], "atempo=1.999999999068677425384521484375");
}

#[test]
fn tempo_of_the_smallest_factor() {
    let filter = tempo(1, 9);
    let stages: Vec<&str> = filter.split(',').collect();
    assert_eq!(stages.len(), 30);
    assert!(stages[..29].iter().all(|stage| *stage == "atempo=0.5"));
    assert_eq!(stages[29], "atempo=0.536870912");
}

#[test]
fn tempo_stages_multiply_to_the_factor() {
    let factors: [(i32, u8); 12] = [
        (3, 0),
        (5, 1),
        (2, 0),
        (7, 0),
        (100, 0),
        (1, 2),
        (333, 3),
        (12345, 2),
        (1, 1),
        (49, 2),
        (201, 2),
        (999_999, 0),
    ];
    for (units, scale) in factors {
        let factor = units as f64 / 10f64.powi(scale as i32);
        let stages = stage_values(&tempo(units, scale));
        let product: f64 = stages.iter().product();
        assert!((product - factor).abs() <= factor * 1e-12, "{} != {}", product, factor);
        assert!(stages.iter().all(|stage| 0.5 <= *stage && *stage <= 2.0));
        let native = 0.5 <= factor && factor <= 2.0;
        assert_eq!(stages.len() == 1, native);
    }
}

#[test]
fn tempo_refuses_zero_and_less() {
    for factor in [decimal(0, 0), decimal(0, 5), decimal(-1, 0), decimal(i32::MIN, 9)] {
        match speed_to_filter(&factor) {
            Err(AudioError::InvalidParameter(rule)) => {
                assert_eq!(rule, "speed factor must be positive")
            }
            other => panic!("expected an invalid parameter, got {:?}", other),
        }
    }
}

#[test]
fn decimal_text() {
    assert_eq!(decimal(0, 0).to_text(), "0");
    assert_eq!(decimal(0, 4).to_text(), "0");
    assert_eq!(decimal(100, 0).to_text(), "100");
    assert_eq!(decimal(150, 2).to_text(), "1.5");
    assert_eq!(decimal(1005, 3).to_text(), "1.005");
    assert_eq!(decimal(1, 9).to_text(), "0.000000001");
    assert_eq!(decimal(-25, 2).to_text(), "-0.25");
    assert_eq!(decimal(i32::MAX, 0).to_text(), "2147483647");
    assert_eq!(decimal(i32::MIN, 0).to_text(), "-2147483648");
    assert_eq!(decimal(i32::MIN, 9).to_text(), "-2.147483648");
    assert_eq!(Decimal::from_int(-7).to_text(), "-7");
}

#[test]
fn decimal_parts_and_tests() {
    assert!(Decimal::new(1, 10).is_none());
    assert!(Decimal::new(1, 255).is_none());
    let d = decimal(-25, 2);
    assert_eq!(d.numerator(), -25);
    assert_eq!(d.fraction_len(), 2);
    assert!(!d.is_positive());
    assert!(d.is_within_one());
    assert!(decimal(1, 9).is_positive());
    assert!(!decimal(0, 9).is_positive());
    assert!(decimal(10, 1).is_within_one());
    assert!(!decimal(11, 1).is_within_one());
    assert_eq!(Decimal::from_int(3).fraction_len(), 0);
    assert_eq!(decimal(15, 1), decimal(15, 1));
}

#[test]
fn time_span_parts() {
    assert!(TimeSpan::new(1, 1_000_000_000).is_none());
    assert!(TimeSpan::new(1, u32::MAX).is_none());
    let t = TimeSpan::new(3, 999_999_999).unwrap();
    assert_eq!(t.as_secs(), 3);
    assert_eq!(t.subsec_nanos(), 999_999_999);
    assert_eq!(t.as_millis(), 3999);
    let m = TimeSpan::from_millis(1500);
    assert_eq!(m.as_secs(), 1);
    assert_eq!(m.subsec_nanos(), 500_000_000);
    assert_eq!(m.as_millis(), 1500);
    assert_eq!(TimeSpan::from_millis(u64::MAX).as_millis(), u64::MAX as u128);
    assert_eq!(TimeSpan::from_secs(u64::MAX).as_millis(), u64::MAX as u128 * 1000);
    assert_eq!(TimeSpan::from_secs(2), TimeSpan::from_millis(2000));
}

#[test]
fn time_span_order() {
    let a = TimeSpan::new(1, 5).unwrap();
    let b = TimeSpan::new(1, 6).unwrap();
    let c = TimeSpan::new(2, 0).unwrap();
    assert!(a.is_at_most(&a));
    assert!(a.is_at_most(&b));
    assert!(!b.is_at_most(&a));
    assert!(b.is_at_most(&c));
    assert!(!c.is_at_most(&b));
}

#[test]
fn time_span_seconds_text() {
    let mut out = String::from("d=");
    TimeSpan::new(12, 340_000_000).unwrap().push_seconds(&mut out);
    assert_eq!(out, "d=12.34");
    let mut whole = String::new();
    TimeSpan::from_secs(u64::MAX).push_seconds(&mut whole);
    assert_eq!(whole, "18446744073709551615");
}

#[test]
fn number_text_of_integers() {
    assert_eq!(number_text(0), "0");
    assert_eq!(number_text(9), "9");
    assert_eq!(number_text(10), "10");
    assert_eq!(number_text(1234567890), "1234567890");
    assert_eq!(number_text(u128::MAX), "340282366920938463463374607431768211455");
    let mut out = String::from("x");
    push_digits(&mut out, 407);
    assert_eq!(out, "x407");
}

#[test]
fn powers_of_ten() {
    let mut expected: u32 = 1;
    for n in 0..=9u8 {
        assert_eq!(ten_to(n), expected);
        if n < 9 {
            expected *= 10;
        }
    }
}

#[test]
fn quoting_in_the_manifest() {
    let mut out = String::new();
    push_escaped(&mut out, "a'b");
    assert_eq!(out, "a'\\''b");
    let mut line = String::from("# list\n");
    push_manifest_line(&mut line, "plain.wav");
    assert_eq!(line, "# list\nfile 'plain.wav'\n");
    let mut empty = String::new();
    push_manifest_line(&mut empty, "");
    assert_eq!(empty, "file ''\n");
}

#[test]
fn arguments_follow_the_engine_order() {
    let first = input_with(flag_with("-ss", "1".to_string()), "a.wav");
    let second = input_with(no_options(), "b.wav");
    let mut output_options = flag_with("-af", "volume=2".to_string());
    push_arg(&mut output_options, "-c:v");
    push_arg(&mut output_options, "copy");
    let command = CommandDescriptor::new(
        OperationKind::Overlay,
        vec![first, second],
        output_options,
        "out.wav".to_string(),
        Vec::new(),
    );
    let expected: Vec<String> = [
        "-ss", "1", "-i", "a.wav", "-i", "b.wav", "-af", "volume=2", "-c:v", "copy", "out.wav",
        "-y",
    ]
    .iter()
    .map(|a| a.to_string())
    .collect();
    assert_eq!(command.args(), expected);
    let bare = CommandDescriptor::new(
        OperationKind::Transcode,
        Vec::new(),
        Vec::new(),
        "out.wav".to_string(),
        Vec::new(),
    );
    assert_eq!(bare.args(), vec!["out.wav".to_string(), "-y".to_string()]);
}

#[test]
fn requests_that_differ_have_texts_that_differ() {
    let half = decimal(5, 1);
    let effects = [
        AudioEffect::FadeIn(TimeSpan::from_secs(2)),
        AudioEffect::FadeOut(TimeSpan::from_secs(2)),
        AudioEffect::FadeIn(TimeSpan::from_millis(2001)),
        AudioEffect::FadeIn(TimeSpan::new(2, 1).unwrap()),
        AudioEffect::Echo { delay: TimeSpan::from_secs(2), decay: half },
        AudioEffect::Echo { delay: TimeSpan::from_millis(20), decay: half },
        AudioEffect::Echo { delay: TimeSpan::from_secs(2), decay: decimal(51, 2) },
    ];
    for (i, a) in effects.iter().enumerate() {
        for (j, b) in effects.iter().enumerate() {
            assert_eq!(effect_to_filter(a) == effect_to_filter(b), i == j);
        }
    }
    assert_eq!(volume_to_filter(&decimal(15, 1)), volume_to_filter(&decimal(1500, 3)));
    assert_ne!(volume_to_filter(&decimal(15, 1)), volume_to_filter(&decimal(1501, 3)));
    assert_eq!(tempo(4, 0), tempo(4000, 3));
    assert_ne!(tempo(4, 0), tempo(8, 0));
    assert_ne!(tempo(4, 0), tempo(2, 0));
    assert_ne!(
        overlay_to_filter(&TimeSpan::from_millis(11)),
        overlay_to_filter(&TimeSpan::from_millis(1))
    );
}

#[test]
fn escaped_locations_that_differ_stay_apart() {
    let locations = ["a'b", "a'\\''b", "ab", "a''b", "a\\b", "'", ""];
    let escaped: Vec<String> = locations
        .iter()
        .map(|location| {
            let mut out = String::new();
            push_escaped(&mut out, location);
            out
        })
        .collect();
    for i in 0..escaped.len() {
        for j in 0..escaped.len() {
            assert_eq!(escaped[i] == escaped[j], i == j);
        }
    }
    assert_eq!(escaped[1], "a'\\''\\'\\'''\\''b");
}
