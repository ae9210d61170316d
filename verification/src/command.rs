//! Command descriptors: what one engine run is asked to do, and the argument
//! vector that asks it.
//!
//! The engine reads its arguments by position. Options that concern an input
//! stand directly before that input's `-i` token; options that concern the
//! output (filters among them) stand after the last input and before the
//! output location; the overwrite flag `-y` ends the vector. A descriptor
//! keeps these groups apart, and `args` lays them out in that one order.

use vstd::prelude::*;
use vstd::string::StringExecFns;

verus! {

/// The kind of an operation. It decides how a derived output is named and
/// what a failed run is called.
#[derive(Clone, Copy, Debug, PartialEq, Eq)]
pub enum OperationKind {
    Seek,
    Trim,
    Transcode,
    AdjustVolume,
    ChangeSpeed,
    ApplyEffect,
    Merge,
    Reverse,
    Normalize,
    Overlay,
}

impl OperationKind {
    /// What is put before the source location to name the output. Transcode
    /// and merge have none: their caller names the output.
    pub open spec fn prefix(self) -> Option<Seq<char>> {
        match self {
            OperationKind::Seek => Some("seeked_"@),
            OperationKind::Trim => Some("trimmed_"@),
            OperationKind::Transcode => None,
            OperationKind::AdjustVolume => Some("volume_adjusted_"@),
            OperationKind::ChangeSpeed => Some("speed_changed_"@),
            OperationKind::ApplyEffect => Some("effected_"@),
            OperationKind::Merge => None,
            OperationKind::Reverse => Some("reversed_"@),
            OperationKind::Normalize => Some("normalized_"@),
            OperationKind::Overlay => Some("overlayed_"@),
        }
    }

    /// The message of the error for a run of this kind that did not succeed.
    pub open spec fn failure_label(self) -> Seq<char> {
        match self {
            OperationKind::Seek => "ffmpeg seek failed"@,
            OperationKind::Trim => "ffmpeg trim failed"@,
            OperationKind::Transcode => "ffmpeg transcode failed"@,
            OperationKind::AdjustVolume => "ffmpeg adjust volume failed"@,
            OperationKind::ChangeSpeed => "ffmpeg change speed failed"@,
            OperationKind::ApplyEffect => "ffmpeg apply effect failed"@,
            OperationKind::Merge => "ffmpeg merge failed"@,
            OperationKind::Reverse => "ffmpeg reverse failed"@,
            OperationKind::Normalize => "ffmpeg normalize failed"@,
            OperationKind::Overlay => "ffmpeg overlay failed"@,
        }
    }

    /// The naming prefix of this kind, if it has one.
    pub fn output_prefix(&self) -> (p: Option<&'static str>)
        ensures
            p is Some <==> self.prefix() is Some,
            p matches Some(s) ==> self.prefix() == Some(s@),
    {
        match self {
            OperationKind::Seek => Some("seeked_"),
            OperationKind::Trim => Some("trimmed_"),
            OperationKind::Transcode => None,
            OperationKind::AdjustVolume => Some("volume_adjusted_"),
            OperationKind::ChangeSpeed => Some("speed_changed_"),
            OperationKind::ApplyEffect => Some("effected_"),
            OperationKind::Merge => None,
            OperationKind::Reverse => Some("reversed_"),
            OperationKind::Normalize => Some("normalized_"),
            OperationKind::Overlay => Some("overlayed_"),
        }
    }

    /// The message for a failed run of this kind.
    pub fn label(&self) -> (s: &'static str)
        ensures
            s@ == self.failure_label(),
    {
        match self {
            OperationKind::Seek => "ffmpeg seek failed",
            OperationKind::Trim => "ffmpeg trim failed",
            OperationKind::Transcode => "ffmpeg transcode failed",
            OperationKind::AdjustVolume => "ffmpeg adjust volume failed",
            OperationKind::ChangeSpeed => "ffmpeg change speed failed",
            OperationKind::ApplyEffect => "ffmpeg apply effect failed",
            OperationKind::Merge => "ffmpeg merge failed",
            OperationKind::Reverse => "ffmpeg reverse failed",
            OperationKind::Normalize => "ffmpeg normalize failed",
            OperationKind::Overlay => "ffmpeg overlay failed",
        }
    }
}

/// The name of an output derived from `source` by an operation of kind
/// `kind`: the kind's prefix, then the source location as it stands.
pub open spec fn derived_name(kind: OperationKind, source: Seq<char>) -> Seq<char>
    recommends
        kind.prefix() is Some,
{
    kind.prefix()->0 + source
}

/// The strings of a vector, each as its characters.
pub open spec fn strings(v: Seq<String>) -> Seq<Seq<char>> {
    v.map_values(|s: String| s@)
}

/// One input of a command: its location and the options that concern it.
#[derive(Debug)]
pub struct InputSpec {
    pub options: Vec<String>,
    pub location: String,
}

/// An `InputSpec` as character sequences.
pub struct InputView {
    pub options: Seq<Seq<char>>,
    pub location: Seq<char>,
}

impl View for InputSpec {
    type V = InputView;

    open spec fn view(&self) -> InputView {
        InputView { options: strings(self.options@), location: self.location@ }
    }
}

/// One run of the engine: its inputs in order, the options for the output,
/// the output location, and the temporary resources that the run reads and
/// that are to be released when it has ended, however it ended.
#[derive(Debug)]
pub struct CommandDescriptor {
    pub kind: OperationKind,
    pub inputs: Vec<InputSpec>,
    pub output_options: Vec<String>,
    pub output: String,
    pub temporaries: Vec<String>,
}

/// A `CommandDescriptor` as character sequences.
pub struct CommandView {
    pub kind: OperationKind,
    pub inputs: Seq<InputView>,
    pub output_options: Seq<Seq<char>>,
    pub output: Seq<char>,
    pub temporaries: Seq<Seq<char>>,
}

impl View for CommandDescriptor {
    type V = CommandView;

    open spec fn view(&self) -> CommandView {
        CommandView {
            kind: self.kind,
            inputs: self.inputs@.map_values(|i: InputSpec| i@),
            output_options: strings(self.output_options@),
            output: self.output@,
            temporaries: strings(self.temporaries@),
        }
    }
}

/// The arguments of one input: its options, then `-i` and its location.
pub open spec fn input_args(input: InputView) -> Seq<Seq<char>> {
    input.options + seq!["-i"@, input.location]
}

/// The arguments of the inputs, one input after the other.
pub open spec fn inputs_args(inputs: Seq<InputView>) -> Seq<Seq<char>>
    decreases inputs.len(),
{
    if inputs.len() == 0 {
        Seq::<Seq<char>>::empty()
    } else {
        inputs_args(inputs.drop_last()) + input_args(inputs.last())
    }
}

/// The argument vector of a command: every input with its options before
/// it, then the output's options, the output location, and `-y`.
pub open spec fn argv(command: CommandView) -> Seq<Seq<char>> {
    inputs_args(command.inputs) + command.output_options + seq![command.output, "-y"@]
}

/// The output location and the overwrite flag end every argument vector, so
/// every input and every option for the output stands before the output
/// location.
pub proof fn lemma_argv_ends_with_output(command: CommandView)
    ensures
        argv(command).len() >= 2,
        argv(command)[argv(command).len() - 2] == command.output,
        argv(command).last() == "-y"@,
        argv(command).subrange(0, argv(command).len() - 2) == inputs_args(command.inputs)
            + command.output_options,
{
    let front = inputs_args(command.inputs) + command.output_options;
    assert(argv(command) =~= front + seq![command.output, "-y"@]);
    assert(argv(command).subrange(0, argv(command).len() - 2) =~= front);
}

/// In the arguments of the inputs, each input's options stand directly
/// before its `-i`, and its location directly after: the arguments of the
/// inputs up to `n`, then those of the input `n`, then those of the rest.
pub proof fn lemma_inputs_args_split(inputs: Seq<InputView>, n: int)
    requires
        0 <= n < inputs.len(),
    ensures
        inputs_args(inputs) == inputs_args(inputs.take(n)) + inputs[n].options + seq![
            "-i"@,
            inputs[n].location,
        ] + inputs_args(inputs.skip(n + 1)),
    decreases inputs.len(),
{
    let front = inputs.drop_last();
    if n == inputs.len() - 1 {
        assert(inputs.take(n) =~= front);
        assert(inputs.skip(n + 1) =~= Seq::<InputView>::empty());
        assert(inputs_args(inputs) =~= inputs_args(front) + inputs[n].options + seq![
            "-i"@,
            inputs[n].location,
        ] + Seq::<Seq<char>>::empty());
    } else {
        lemma_inputs_args_split(front, n);
        assert(front.take(n) =~= inputs.take(n));
        assert(front[n] == inputs[n]);
        let rest = inputs.skip(n + 1);
        assert(rest.drop_last() =~= front.skip(n + 1));
        assert(rest.last() == inputs.last());
        assert(inputs_args(rest) == inputs_args(front.skip(n + 1)) + input_args(inputs.last()));
        assert(inputs_args(inputs) =~= inputs_args(inputs.take(n)) + inputs[n].options + seq![
            "-i"@,
            inputs[n].location,
        ] + inputs_args(rest));
    }
}

/// No arguments.
pub open spec fn no_args() -> Seq<Seq<char>> {
    Seq::<Seq<char>>::empty()
}

/// The input at `location`, with `options` before it.
pub fn input_with(options: Vec<String>, location: &str) -> (input: InputSpec)
    ensures
        input@ == (InputView { options: strings(options@), location: location@ }),
{
    InputSpec { options: options, location: String::from_str(location) }
}

/// The two arguments `flag` and `value`.
pub fn flag_with(flag: &str, value: String) -> (v: Vec<String>)
    ensures
        strings(v@) == seq![flag@, value@],
{
    let mut v: Vec<String> = Vec::new();
    v.push(String::from_str(flag));
    v.push(value);
    assert(strings(v@) =~= seq![flag@, value@]);
    v
}

/// An empty argument list.
pub fn no_options() -> (v: Vec<String>)
    ensures
        strings(v@) == no_args(),
{
    let v: Vec<String> = Vec::new();
    assert(strings(v@) =~= no_args());
    v
}

/// Appends `arg` to `args`.
pub fn push_arg(args: &mut Vec<String>, arg: &str)
    ensures
        strings(final(args)@) == strings(old(args)@).push(arg@),
{
    args.push(String::from_str(arg));
    assert(strings(args@) =~= strings(old(args)@).push(arg@));
}

/// Appends a copy of each of `more` to `args`.
fn extend_args(args: &mut Vec<String>, more: &Vec<String>)
    ensures
        strings(final(args)@) == strings(old(args)@) + strings(more@),
{
    let mut i: usize = 0;
    while i < more.len()
        invariant
            i <= more.len(),
            strings(args@) == strings(old(args)@) + strings(more@.take(i as int)),
        decreases more.len() - i,
    {
        let ghost before = args@;
        args.push(more[i].clone());
        assert(strings(args@) =~= strings(before).push(more@[i as int]@));
        assert(more@.take(i + 1) =~= more@.take(i as int).push(more@[i as int]));
        assert(strings(args@) =~= strings(old(args)@) + strings(more@.take(i + 1)));
        i = i + 1;
    }
    assert(more@.take(i as int) =~= more@);
}

impl CommandDescriptor {
    /// The command of kind `kind` over `inputs`, with `output_options` for
    /// the output at `output`, and `temporaries` to release afterwards.
    pub fn new(
        kind: OperationKind,
        inputs: Vec<InputSpec>,
        output_options: Vec<String>,
        output: String,
        temporaries: Vec<String>,
    ) -> (command: CommandDescriptor)
        ensures
            command@ == (CommandView {
                kind: kind,
                inputs: inputs@.map_values(|i: InputSpec| i@),
                output_options: strings(output_options@),
                output: output@,
                temporaries: strings(temporaries@),
            }),
    {
        CommandDescriptor {
            kind: kind,
            inputs: inputs,
            output_options: output_options,
            output: output,
            temporaries: temporaries,
        }
    }

    /// The command of kind `kind` over the one input `input`, with
    /// `output_options` for the output at `output`.
    pub fn over_one(
        kind: OperationKind,
        input: InputSpec,
        output_options: Vec<String>,
        output: String,
    ) -> (command: CommandDescriptor)
        ensures
            command@ == (CommandView {
                kind: kind,
                inputs: seq![input@],
                output_options: strings(output_options@),
                output: output@,
                temporaries: no_args(),
            }),
    {
        let mut inputs: Vec<InputSpec> = Vec::new();
        inputs.push(input);
        assert(inputs@.map_values(|i: InputSpec| i@) =~= seq![input@]);
        CommandDescriptor::new(kind, inputs, output_options, output, no_options())
    }

    /// The argument vector for the engine, in the order it reads them.
    pub fn args(&self) -> (v: Vec<String>)
        ensures
            strings(v@) == argv(self@),
    {
        let mut v: Vec<String> = Vec::new();
        let ghost inputs = self@.inputs;
        assert(strings(v@) =~= inputs_args(inputs.take(0)));
        let mut i: usize = 0;
        while i < self.inputs.len()
            invariant
                i <= self.inputs.len(),
                inputs == self@.inputs,
                inputs.len() == self.inputs.len(),
                strings(v@) == inputs_args(inputs.take(i as int)),
            decreases self.inputs.len() - i,
        {
            let input = &self.inputs[i];
            let ghost before = strings(v@);
            extend_args(&mut v, &input.options);
            push_arg(&mut v, "-i");
            let ghost flagged = v@;
            v.push(input.location.clone());
            proof {
                assert(strings(v@) =~= strings(flagged).push(input.location@));
                assert(inputs[i as int] == input@);
                assert(inputs.take(i + 1).drop_last() =~= inputs.take(i as int));
                assert(inputs.take(i + 1).last() == input@);
                assert(strings(v@) =~= before + input_args(input@));
            }
            i = i + 1;
        }
        assert(inputs.take(i as int) =~= inputs);
        extend_args(&mut v, &self.output_options);
        let ghost optioned = v@;
        v.push(self.output.clone());
        assert(strings(v@) =~= strings(optioned).push(self.output@));
        push_arg(&mut v, "-y");
        assert(strings(v@) =~= argv(self@));
        v
    }
}

} // verus!
