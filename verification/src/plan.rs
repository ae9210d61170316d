//! What each operation asks of the engine, as a function of its parameters.

use vstd::prelude::*;
use crate::command::{derived_name, no_args, CommandView, InputView, OperationKind};
use crate::decimal::Decimal;
use crate::processing::{effect_filter, overlay_filter, tempo_filter, volume_filter, AudioEffect};
use crate::text::digits;
use crate::time::TimeSpan;

verus! {

/// The input at `location`, without options.
pub open spec fn plain(location: Seq<char>) -> InputView {
    InputView { options: no_args(), location: location }
}

/// Seek: the position, in whole seconds, stands before the input, so the
/// engine seeks in the input; the streams are copied, not encoded again.
pub open spec fn seek_plan(source: Seq<char>, position: TimeSpan) -> CommandView {
    CommandView {
        kind: OperationKind::Seek,
        inputs: seq![
            InputView { options: seq!["-ss"@, digits(position.secs())], location: source },
        ],
        output_options: seq!["-c"@, "copy"@],
        output: derived_name(OperationKind::Seek, source),
        temporaries: no_args(),
    }
}

/// Trim: the start, in whole seconds, stands before the input; the end, in
/// whole seconds, follows the input and stands before the copy flags; the
/// streams are copied.
pub open spec fn trim_plan(source: Seq<char>, start: TimeSpan, end: TimeSpan) -> CommandView {
    CommandView {
        kind: OperationKind::Trim,
        inputs: seq![InputView { options: seq!["-ss"@, digits(start.secs())], location: source }],
        output_options: seq!["-to"@, digits(end.secs()), "-c"@, "copy"@],
        output: derived_name(OperationKind::Trim, source),
        temporaries: no_args(),
    }
}

/// Transcode: one input and the output location as the caller gave it. No
/// codec is named; the engine goes by the output's extension.
pub open spec fn transcode_plan(source: Seq<char>, output: Seq<char>) -> CommandView {
    CommandView {
        kind: OperationKind::Transcode,
        inputs: seq![plain(source)],
        output_options: no_args(),
        output: output,
        temporaries: no_args(),
    }
}

/// One input, one filter flag that carries the filter text, one output.
pub open spec fn filter_plan(
    kind: OperationKind,
    source: Seq<char>,
    flag: Seq<char>,
    filter: Seq<char>,
    output: Seq<char>,
) -> CommandView {
    CommandView {
        kind: kind,
        inputs: seq![plain(source)],
        output_options: seq![flag, filter],
        output: output,
        temporaries: no_args(),
    }
}

/// Volume: the volume filter under `-af`.
pub open spec fn volume_plan(source: Seq<char>, factor: Decimal) -> CommandView {
    filter_plan(
        OperationKind::AdjustVolume,
        source,
        "-af"@,
        volume_filter(factor),
        derived_name(OperationKind::AdjustVolume, source),
    )
}

/// Speed: the tempo chain under `-filter:a`.
pub open spec fn speed_plan(source: Seq<char>, factor: Decimal) -> CommandView {
    filter_plan(
        OperationKind::ChangeSpeed,
        source,
        "-filter:a"@,
        tempo_filter(factor),
        derived_name(OperationKind::ChangeSpeed, source),
    )
}

/// Effect: the effect's filter under `-af`.
pub open spec fn effect_plan(source: Seq<char>, effect: AudioEffect) -> CommandView {
    filter_plan(
        OperationKind::ApplyEffect,
        source,
        "-af"@,
        effect_filter(effect),
        derived_name(OperationKind::ApplyEffect, source),
    )
}

/// Reverse, to the output that the caller names.
pub open spec fn reverse_plan_to(source: Seq<char>, output: Seq<char>) -> CommandView {
    filter_plan(OperationKind::Reverse, source, "-af"@, "areverse"@, output)
}

/// Reverse, to the derived output.
pub open spec fn reverse_plan(source: Seq<char>) -> CommandView {
    reverse_plan_to(source, derived_name(OperationKind::Reverse, source))
}

/// Normalize, to the output that the caller names.
pub open spec fn normalize_plan_to(source: Seq<char>, output: Seq<char>) -> CommandView {
    filter_plan(OperationKind::Normalize, source, "-af"@, "loudnorm"@, output)
}

/// Normalize, to the derived output.
pub open spec fn normalize_plan(source: Seq<char>) -> CommandView {
    normalize_plan_to(source, derived_name(OperationKind::Normalize, source))
}

/// Overlay: the base input first, the overlaid input second, then the
/// filter graph under `-filter_complex`.
pub open spec fn overlay_plan(source: Seq<char>, other: Seq<char>, start: TimeSpan) -> CommandView {
    CommandView {
        kind: OperationKind::Overlay,
        inputs: seq![plain(source), plain(other)],
        output_options: seq!["-filter_complex"@, overlay_filter(start)],
        output: derived_name(OperationKind::Overlay, source),
        temporaries: no_args(),
    }
}

/// Merge: the manifest is the one input, read by the concat demuxer with
/// unsafe paths allowed; the streams are copied to the output that the
/// caller names. The manifest is the command's temporary resource.
pub open spec fn merge_plan(manifest: Seq<char>, output: Seq<char>) -> CommandView {
    CommandView {
        kind: OperationKind::Merge,
        inputs: seq![
            InputView { options: seq!["-f"@, "concat"@, "-safe"@, "0"@], location: manifest },
        ],
        output_options: seq!["-c"@, "copy"@],
        output: output,
        temporaries: seq![manifest],
    }
}

} // verus!
