//! Builds the argument vectors that drive an `ffmpeg` executable through a
//! small set of audio edits, and turns the way the process ended into a typed
//! result. Nothing here touches a file or starts a process: each operation
//! yields a [`command::CommandDescriptor`], the caller runs it, and
//! [`AudioProcessor::complete`] says what came of it.
//!
//! An [`AudioProcessor`] names audio content by its location and is never
//! changed by an operation: a successful operation yields a new processor at
//! a new location.

pub mod command;
pub mod decimal;
pub mod errors;
pub mod invocation;
pub mod manifest;
pub mod plan;
pub mod processing;
pub mod tempo;
pub mod text;
pub mod time;
pub mod transcoding;

use vstd::prelude::*;
use vstd::string::StringExecFns;
use crate::command::{
    derived_name, flag_with, input_with, no_options, push_arg, strings, CommandDescriptor,
    InputSpec, OperationKind,
};
use crate::decimal::Decimal;
use crate::errors::{AudioError, AudioErrorView};
use crate::invocation::{classify, ExecutionOutcome, OutcomeView, Termination};
use crate::manifest::{manifest_text, push_manifest_line};
use crate::plan::{
    effect_plan, merge_plan, normalize_plan, overlay_plan, reverse_plan, seek_plan, speed_plan,
    transcode_plan, trim_plan, volume_plan,
};
use crate::processing::{
    effect_to_filter, overlay_to_filter, speed_to_filter, volume_to_filter, AudioEffect,
};
use crate::text::{digits, number_text};
use crate::time::TimeSpan;
use crate::transcoding::AudioFormat;

verus! {

/// Audio content at a location.
#[derive(Debug, Clone)]
pub struct AudioProcessor {
    pub file_path: String,
}

/// The locations of `audios`, in order.
pub open spec fn locations(audios: Seq<AudioProcessor>) -> Seq<Seq<char>> {
    audios.map_values(|a: AudioProcessor| a.file_path@)
}

/// The processor that a finished command leaves: the one at the command's
/// output for a success, the engine's failure under its label otherwise.
pub open spec fn artifact_of(outcome: OutcomeView) -> Result<Seq<char>, AudioErrorView> {
    match outcome {
        OutcomeView::Success(location) => Ok(location),
        OutcomeView::Failure(label) => Err(AudioErrorView::FfmpegError(label)),
    }
}

/// The name of the output that an operation of kind `kind` derives from
/// `source`.
fn derived_output(kind: OperationKind, source: &str) -> (name: String)
    requires
        kind.prefix() is Some,
    ensures
        name@ == derived_name(kind, source@),
{
    let mut name = match kind.output_prefix() {
        Some(prefix) => String::from_str(prefix),
        None => String::new(),
    };
    name.append(source);
    name
}

/// A derived name is longer than the location it was derived from, so it is
/// never that location.
pub proof fn lemma_derived_name_is_new(kind: OperationKind, source: Seq<char>)
    requires
        kind.prefix() is Some,
    ensures
        derived_name(kind, source).len() > source.len(),
        derived_name(kind, source) != source,
{
    reveal_strlit("seeked_");
    reveal_strlit("trimmed_");
    reveal_strlit("volume_adjusted_");
    reveal_strlit("speed_changed_");
    reveal_strlit("effected_");
    reveal_strlit("reversed_");
    reveal_strlit("normalized_");
    reveal_strlit("overlayed_");
}

/// Reversing twice is two runs of the engine, not none: the second command
/// is a reverse in its own right, reads what the first one wrote, and writes
/// to a location that is neither the first one's output nor the source.
pub proof fn lemma_reverse_twice_chains(source: Seq<char>)
    ensures
        ({
            let first = reverse_plan(source);
            let second = reverse_plan(first.output);
            &&& second.kind == OperationKind::Reverse
            &&& second.inputs.len() == 1
            &&& second.inputs[0].location == first.output
            &&& second.output_options == seq!["-af"@, "areverse"@]
            &&& second.output == "reversed_"@ + ("reversed_"@ + source)
            &&& second.output != first.output
            &&& second.output != source
            &&& first.output != source
        }),
{
    let first = reverse_plan(source);
    lemma_derived_name_is_new(OperationKind::Reverse, source);
    lemma_derived_name_is_new(OperationKind::Reverse, first.output);
}

impl AudioProcessor {
    /// The processor for the content at `file_path`. The caller has seen to
    /// it that the location exists; the content is neither read nor copied.
    pub fn new(file_path: &str) -> (processor: AudioProcessor)
        ensures
            processor.file_path@ == file_path@,
    {
        AudioProcessor { file_path: String::from_str(file_path) }
    }

    /// The command that seeks to `position`.
    pub fn seek(&self, position: TimeSpan) -> (command: CommandDescriptor)
        ensures
            command@ == seek_plan(self.file_path@, position),
            command@.output != self.file_path@,
    {
        proof {
            lemma_derived_name_is_new(OperationKind::Seek, self.file_path@);
        }
        let source: &str = self.file_path.as_str();
        let input = input_with(flag_with("-ss", number_text(position.as_secs() as u128)), source);
        CommandDescriptor::over_one(
            OperationKind::Seek,
            input,
            flag_with("-c", String::from_str("copy")),
            derived_output(OperationKind::Seek, source),
        )
    }

    /// The command that keeps what lies between `start` and `end`. A start
    /// after the end is refused.
    pub fn trim(&self, start: TimeSpan, end: TimeSpan) -> (r: Result<CommandDescriptor, AudioError>)
        ensures
            start.total_nanos() <= end.total_nanos() ==> (r matches Ok(command) && command@
                == trim_plan(self.file_path@, start, end)),
            start.total_nanos() > end.total_nanos() ==> (r matches Err(e) && e@
                == AudioErrorView::InvalidParameter("trim start lies after its end"@)),
    {
        if !start.is_at_most(&end) {
            return Err(AudioError::invalid_parameter("trim start lies after its end"));
        }
        let source: &str = self.file_path.as_str();
        let input = input_with(flag_with("-ss", number_text(start.as_secs() as u128)), source);
        let mut output_options = flag_with("-to", number_text(end.as_secs() as u128));
        push_arg(&mut output_options, "-c");
        push_arg(&mut output_options, "copy");
        assert(strings(output_options@) =~= seq!["-to"@, digits(end.secs()), "-c"@, "copy"@]);
        Ok(
            CommandDescriptor::over_one(
                OperationKind::Trim,
                input,
                output_options,
                derived_output(OperationKind::Trim, source),
            ),
        )
    }

    /// The command that transcodes to `output_path`. The engine chooses the
    /// codec by that location's extension, so the location goes into the
    /// command as it stands, whatever `output_format` is.
    pub fn transcode(&self, output_format: AudioFormat, output_path: &str) -> (command:
        CommandDescriptor)
        ensures
            command@ == transcode_plan(self.file_path@, output_path@),
    {
        CommandDescriptor::over_one(
            OperationKind::Transcode,
            input_with(no_options(), self.file_path.as_str()),
            no_options(),
            String::from_str(output_path),
        )
    }

    /// The command with the one filter `filter` under `flag`.
    fn filtered(&self, kind: OperationKind, flag: &str, filter: String) -> (command:
        CommandDescriptor)
        requires
            kind.prefix() is Some,
        ensures
            command@ == crate::plan::filter_plan(
                kind,
                self.file_path@,
                flag@,
                filter@,
                derived_name(kind, self.file_path@),
            ),
    {
        let source: &str = self.file_path.as_str();
        CommandDescriptor::over_one(
            kind,
            input_with(no_options(), source),
            flag_with(flag, filter),
            derived_output(kind, source),
        )
    }

    /// The command that scales the volume by `factor`. A factor of zero or
    /// under is refused.
    pub fn adjust_volume(&self, factor: Decimal) -> (r: Result<CommandDescriptor, AudioError>)
        ensures
            factor.positive() ==> (r matches Ok(command) && command@ == volume_plan(
                self.file_path@,
                factor,
            )),
            !factor.positive() ==> (r matches Err(e) && e@ == AudioErrorView::InvalidParameter(
                "volume factor must be positive"@,
            )),
    {
        if !factor.is_positive() {
            return Err(AudioError::invalid_parameter("volume factor must be positive"));
        }
        Ok(self.filtered(OperationKind::AdjustVolume, "-af", volume_to_filter(&factor)))
    }

    /// The command that changes the tempo by `factor`. A factor of zero or
    /// under is refused.
    pub fn change_speed(&self, factor: Decimal) -> (r: Result<CommandDescriptor, AudioError>)
        ensures
            factor.positive() ==> (r matches Ok(command) && command@ == speed_plan(
                self.file_path@,
                factor,
            )),
            !factor.positive() ==> (r matches Err(e) && e@ == AudioErrorView::InvalidParameter(
                "speed factor must be positive"@,
            )),
    {
        match speed_to_filter(&factor) {
            Ok(filter) => Ok(self.filtered(OperationKind::ChangeSpeed, "-filter:a", filter)),
            Err(e) => Err(e),
        }
    }

    /// The command that applies `effect`. An echo whose decay is not above
    /// zero and at most one is refused.
    pub fn apply_effect(&self, effect: AudioEffect) -> (r: Result<CommandDescriptor, AudioError>)
        ensures
            effect.valid() ==> (r matches Ok(command) && command@ == effect_plan(
                self.file_path@,
                effect,
            )),
            !effect.valid() ==> (r matches Err(e) && e@ == AudioErrorView::InvalidParameter(
                "echo decay must be above zero and at most one"@,
            )),
    {
        if !effect.is_valid() {
            return Err(
                AudioError::invalid_parameter("echo decay must be above zero and at most one"),
            );
        }
        Ok(self.filtered(OperationKind::ApplyEffect, "-af", effect_to_filter(&effect)))
    }

    /// The manifest for merging `audios`: one line for each, in order. An
    /// empty list is refused.
    pub fn merge_manifest(audios: &[AudioProcessor]) -> (r: Result<String, AudioError>)
        ensures
            audios@.len() > 0 ==> (r matches Ok(text) && text@ == manifest_text(
                locations(audios@),
            )),
            audios@.len() == 0 ==> (r matches Err(e) && e@ == AudioErrorView::InvalidParameter(
                "nothing to merge"@,
            )),
    {
        if audios.len() == 0 {
            return Err(AudioError::invalid_parameter("nothing to merge"));
        }
        let ghost all = locations(audios@);
        let mut text = String::new();
        let mut i: usize = 0;
        assert(text@ =~= manifest_text(all.take(0)));
        while i < audios.len()
            invariant
                i <= audios.len(),
                all == locations(audios@),
                text@ == manifest_text(all.take(i as int)),
            decreases audios.len() - i,
        {
            let ghost upto = all.take(i + 1);
            assert(upto.drop_last() =~= all.take(i as int));
            assert(upto.last() == audios@[i as int].file_path@);
            push_manifest_line(&mut text, audios[i].file_path.as_str());
            i = i + 1;
        }
        assert(all.take(i as int) =~= all);
        Ok(text)
    }

    /// The command that merges `audios`, in order, into `output_path`, once
    /// their manifest has been written to `manifest_path`. An empty list is
    /// refused.
    pub fn merge_audios(audios: &[AudioProcessor], output_path: &str, manifest_path: &str) -> (r:
        Result<CommandDescriptor, AudioError>)
        ensures
            audios@.len() > 0 ==> (r matches Ok(command) && command@ == merge_plan(
                manifest_path@,
                output_path@,
            )),
            audios@.len() == 0 ==> (r matches Err(e) && e@ == AudioErrorView::InvalidParameter(
                "nothing to merge"@,
            )),
    {
        if audios.len() == 0 {
            return Err(AudioError::invalid_parameter("nothing to merge"));
        }
        let mut options = flag_with("-f", String::from_str("concat"));
        push_arg(&mut options, "-safe");
        push_arg(&mut options, "0");
        assert(strings(options@) =~= seq!["-f"@, "concat"@, "-safe"@, "0"@]);
        let mut inputs: Vec<InputSpec> = Vec::new();
        let input = input_with(options, manifest_path);
        inputs.push(input);
        assert(inputs@.map_values(|i: InputSpec| i@) =~= seq![input@]);
        let mut temporaries: Vec<String> = Vec::new();
        push_arg(&mut temporaries, manifest_path);
        assert(strings(temporaries@) =~= seq![manifest_path@]);
        Ok(
            CommandDescriptor::new(
                OperationKind::Merge,
                inputs,
                flag_with("-c", String::from_str("copy")),
                String::from_str(output_path),
                temporaries,
            ),
        )
    }

    /// The command that reverses the audio.
    pub fn reverse(&self) -> (command: CommandDescriptor)
        ensures
            command@ == reverse_plan(self.file_path@),
            command@.output != self.file_path@,
    {
        proof {
            lemma_derived_name_is_new(OperationKind::Reverse, self.file_path@);
        }
        self.filtered(OperationKind::Reverse, "-af", String::from_str("areverse"))
    }

    /// The command that normalizes the loudness.
    pub fn normalize(&self) -> (command: CommandDescriptor)
        ensures
            command@ == normalize_plan(self.file_path@),
    {
        self.filtered(OperationKind::Normalize, "-af", String::from_str("loudnorm"))
    }

    /// The command that lays `overlay_audio` over this audio from
    /// `start_time` on.
    pub fn overlay(&self, overlay_audio: &AudioProcessor, start_time: TimeSpan) -> (command:
        CommandDescriptor)
        ensures
            command@ == overlay_plan(self.file_path@, overlay_audio.file_path@, start_time),
    {
        let source: &str = self.file_path.as_str();
        let base = input_with(no_options(), source);
        let over = input_with(no_options(), overlay_audio.file_path.as_str());
        let mut inputs: Vec<InputSpec> = Vec::new();
        inputs.push(base);
        inputs.push(over);
        assert(inputs@.map_values(|i: InputSpec| i@) =~= seq![base@, over@]);
        CommandDescriptor::new(
            OperationKind::Overlay,
            inputs,
            flag_with("-filter_complex", overlay_to_filter(&start_time)),
            derived_output(OperationKind::Overlay, source),
            no_options(),
        )
    }

    /// The processor that an outcome leaves.
    pub fn from_outcome(outcome: ExecutionOutcome) -> (r: Result<AudioProcessor, AudioError>)
        ensures
            artifact_of(outcome@) matches Ok(location) ==> (r matches Ok(p) && p.file_path@
                == location),
            artifact_of(outcome@) matches Err(error) ==> (r matches Err(e) && e@ == error),
    {
        match outcome {
            ExecutionOutcome::Success(location) => Ok(AudioProcessor { file_path: location }),
            ExecutionOutcome::Failure(label) => Err(AudioError::FfmpegError(label)),
        }
    }

    /// What came of `command`, given how starting and running the engine
    /// went. Where the process could not be started, the error of the start
    /// is handed on. Where it ran and exited with status zero, the result is
    /// the processor at the command's output. Where it ran and ended in any
    /// other way, the result is the engine's failure under the label of the
    /// command's kind.
    pub fn complete(command: &CommandDescriptor, exit: Result<Termination, std::io::Error>) -> (r:
        Result<AudioProcessor, AudioError>)
        ensures
            exit matches Err(cause) ==> (r matches Err(e) && e@ == AudioErrorView::IoError(cause)),
            exit matches Ok(termination) && termination.succeeded() ==> (r matches Ok(p)
                && p.file_path@ == command@.output),
            exit matches Ok(termination) && !termination.succeeded() ==> (r matches Err(e) && e@
                == AudioErrorView::FfmpegError(command@.kind.failure_label())),
    {
        match exit {
            Err(cause) => Err(AudioError::IoError(cause)),
            Ok(termination) => AudioProcessor::from_outcome(classify(command, termination)),
        }
    }
}

} // verus!
