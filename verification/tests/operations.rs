use audio_processor::command::{CommandDescriptor, OperationKind};
use audio_processor::decimal::Decimal;
use audio_processor::errors::AudioError;
use audio_processor::invocation::{classify, ExecutionOutcome, Termination};
use audio_processor::processing::{normalize_volume, reverse_audio, AudioEffect};
use audio_processor::time::TimeSpan;
use audio_processor::transcoding::AudioFormat;
use audio_processor::AudioProcessor;

const SOURCE: &str = "tests/test_data/silence.wav";

fn expect(args: &[&str]) -> Vec<String> {
    args.iter().map(|a| a.to_string()).collect()
}

fn succeed(command: &CommandDescriptor) -> AudioProcessor {
    AudioProcessor::complete(command, Ok(Termination::Exited(0))).expect("exit 0 is a success")
}

fn failure_label(command: &CommandDescriptor, termination: Termination) -> String {
    match AudioProcessor::complete(command, Ok(termination)) {
        Err(AudioError::FfmpegError(label)) => label,
        other => panic!("expected an engine failure, got {:?}", other),
    }
}

fn invalid(result: Result<CommandDescriptor, AudioError>) -> String {
    match result {
        Err(AudioError::InvalidParameter(rule)) => rule,
        other => panic!("expected an invalid parameter, got {:?}", other),
    }
}

#[test]
fn test_seek() {
    let processor = AudioProcessor::new(SOURCE);
    let command = processor.seek(TimeSpan::from_secs(2));
    assert_eq!(
        command.args(),
        expect(&[
            "-ss",
            "2",
            "-i",
            "tests/test_data/silence.wav",
            "-c",
            "copy",
            "seeked_tests/test_data/silence.wav",
            "-y",
        ])
    );
    let seeked_processor = succeed(&command);
    assert_eq!(seeked_processor.file_path, "seeked_tests/test_data/silence.wav");
    assert_ne!(seeked_processor.file_path, processor.file_path);
    assert_eq!(failure_label(&command, Termination::Exited(1)), "ffmpeg seek failed");
}

#[test]
fn seek_cuts_the_position_to_whole_seconds() {
    let command = AudioProcessor::new("a.wav").seek(TimeSpan::from_millis(2999));
    assert_eq!(command.inputs[0].options, expect(&["-ss", "2"]));
}

#[test]
fn test_trim() {
    let processor = AudioProcessor::new(SOURCE);
    let command = processor
        .trim(TimeSpan::from_secs(1), TimeSpan::from_secs(4))
        .expect("Trim failed");
    assert_eq!(command.kind, OperationKind::Trim);
    assert_eq!(command.inputs.len(), 1);
    assert_eq!(command.inputs[0].options, expect(&["-ss", "1"]));
    assert_eq!(command.output_options, expect(&["-to", "4", "-c", "copy"]));
    assert_eq!(
        command.args(),
        expect(&[
            "-ss",
            "1",
            "-i",
            "tests/test_data/silence.wav",
            "-to",
            "4",
            "-c",
            "copy",
            "trimmed_tests/test_data/silence.wav",
            "-y",
        ])
    );
    let trimmed_processor = succeed(&command);
    assert_eq!(trimmed_processor.file_path, "trimmed_tests/test_data/silence.wav");
    assert_eq!(failure_label(&command, Termination::Exited(1)), "ffmpeg trim failed");
    assert_eq!(failure_label(&command, Termination::Exited(-1)), "ffmpeg trim failed");
    assert_eq!(failure_label(&command, Termination::Signaled), "ffmpeg trim failed");
}

#[test]
fn trim_refuses_a_start_after_the_end() {
    let processor = AudioProcessor::new("a.wav");
    let rule = invalid(processor.trim(TimeSpan::from_secs(4), TimeSpan::from_secs(1)));
    assert_eq!(rule, "trim start lies after its end");
    let by_a_nanosecond = processor.trim(TimeSpan::new(1, 1).unwrap(), TimeSpan::from_secs(1));
    assert_eq!(invalid(by_a_nanosecond), "trim start lies after its end");
}

#[test]
fn trim_accepts_an_empty_range() {
    let processor = AudioProcessor::new("a.wav");
    let command = processor
        .trim(TimeSpan::from_secs(3), TimeSpan::from_secs(3))
        .expect("start == end is allowed");
    assert_eq!(
        command.args(),
        expect(&["-ss", "3", "-i", "a.wav", "-to", "3", "-c", "copy", "trimmed_a.wav", "-y"])
    );
}

#[test]
fn test_transcode() {
    let processor = AudioProcessor::new(SOURCE);
    let output_path = "tests/test_data/transcoded.mp3";
    let command = processor.transcode(AudioFormat::Mp3, output_path);
    assert_eq!(
        command.args(),
        expect(&["-i", "tests/test_data/silence.wav", "tests/test_data/transcoded.mp3", "-y"])
    );
    assert_eq!(command.output, output_path);
    assert_eq!(succeed(&command).file_path, output_path);
    assert_eq!(failure_label(&command, Termination::Exited(1)), "ffmpeg transcode failed");
}

#[test]
fn transcode_keeps_the_extension_the_caller_chose() {
    let processor = AudioProcessor::new("a.wav");
    for format in [AudioFormat::Mp3, AudioFormat::Wav, AudioFormat::Flac, AudioFormat::Ogg] {
        let command = processor.transcode(format, "out.custom");
        assert_eq!(command.output, "out.custom");
        assert_eq!(command.args(), expect(&["-i", "a.wav", "out.custom", "-y"]));
    }
}

#[test]
fn test_adjust_volume() {
    let processor = AudioProcessor::new(SOURCE);
    let command = processor
        .adjust_volume(Decimal::new(15, 1).unwrap())
        .expect("Adjust volume failed");
    assert_eq!(
        command.args(),
        expect(&[
            "-i",
            "tests/test_data/silence.wav",
            "-af",
            "volume=1.5",
            "volume_adjusted_tests/test_data/silence.wav",
            "-y",
        ])
    );
    assert_eq!(succeed(&command).file_path, "volume_adjusted_tests/test_data/silence.wav");
    assert_eq!(failure_label(&command, Termination::Exited(2)), "ffmpeg adjust volume failed");
}

#[test]
fn adjust_volume_refuses_zero_and_less() {
    let processor = AudioProcessor::new("a.wav");
    assert_eq!(
        invalid(processor.adjust_volume(Decimal::from_int(0))),
        "volume factor must be positive"
    );
    assert_eq!(
        invalid(processor.adjust_volume(Decimal::new(-15, 1).unwrap())),
        "volume factor must be positive"
    );
}

#[test]
fn test_change_speed() {
    let processor = AudioProcessor::new(SOURCE);
    let command = processor
        .change_speed(Decimal::new(125, 2).unwrap())
        .expect("Change speed failed");
    assert_eq!(
        command.args(),
        expect(&[
            "-i",
            "tests/test_data/silence.wav",
            "-filter:a",
            "atempo=1.25",
            "speed_changed_tests/test_data/silence.wav",
            "-y",
        ])
    );
    assert_eq!(succeed(&command).file_path, "speed_changed_tests/test_data/silence.wav");
    assert_eq!(failure_label(&command, Termination::Exited(1)), "ffmpeg change speed failed");
}

#[test]
fn change_speed_chains_outside_the_native_range() {
    let processor = AudioProcessor::new("a.wav");
    let command = processor.change_speed(Decimal::from_int(3)).unwrap();
    assert_eq!(command.output_options, expect(&["-filter:a", "atempo=2,atempo=1.5"]));
    assert_eq!(
        invalid(processor.change_speed(Decimal::from_int(0))),
        "speed factor must be positive"
    );
    assert_eq!(
        invalid(processor.change_speed(Decimal::from_int(-2))),
        "speed factor must be positive"
    );
}

#[test]
fn test_apply_effect() {
    let processor = AudioProcessor::new(SOURCE);
    let command = processor
        .apply_effect(AudioEffect::FadeIn(TimeSpan::from_secs(2)))
        .expect("Apply effect failed");
    assert_eq!(
        command.args(),
        expect(&[
            "-i",
            "tests/test_data/silence.wav",
            "-af",
            "afade=t=in:st=0:d=2",
            "effected_tests/test_data/silence.wav",
            "-y",
        ])
    );
    assert_eq!(succeed(&command).file_path, "effected_tests/test_data/silence.wav");
    assert_eq!(failure_label(&command, Termination::Exited(1)), "ffmpeg apply effect failed");
}

#[test]
fn apply_effect_checks_the_decay() {
    let processor = AudioProcessor::new("a.wav");
    let delay = TimeSpan::from_millis(500);
    let echo = |units: i32, scale: u8| AudioEffect::Echo {
        delay,
        decay: Decimal::new(units, scale).unwrap(),
    };
    let rule = "echo decay must be above zero and at most one";
    assert_eq!(invalid(processor.apply_effect(echo(0, 0))), rule);
    assert_eq!(invalid(processor.apply_effect(echo(-5, 1))), rule);
    assert_eq!(invalid(processor.apply_effect(echo(1001, 3))), rule);
    assert_eq!(invalid(processor.apply_effect(echo(2, 0))), rule);
    let at_one = processor.apply_effect(echo(1, 0)).unwrap();
    assert_eq!(at_one.output_options, expect(&["-af", "aecho=0.8:0.9:500:1"]));
    let half = processor.apply_effect(echo(5, 1)).unwrap();
    assert_eq!(half.output_options, expect(&["-af", "aecho=0.8:0.9:500:0.5"]));
    let tiny = processor.apply_effect(echo(1, 9)).unwrap();
    assert_eq!(tiny.output_options, expect(&["-af", "aecho=0.8:0.9:500:0.000000001"]));
}

#[test]
fn test_merge_audios() {
    let processor1 = AudioProcessor::new(SOURCE);
    let processor2 = AudioProcessor::new(SOURCE);
    let merged_output = "tests/test_data/merged.wav";
    let audios = [processor1, processor2];
    let manifest = AudioProcessor::merge_manifest(&audios).expect("Merge audios failed");
    assert_eq!(
        manifest,
        "file 'tests/test_data/silence.wav'\nfile 'tests/test_data/silence.wav'\n"
    );
    let command = AudioProcessor::merge_audios(&audios, merged_output, "/tmp/list.txt")
        .expect("Merge audios failed");
    assert_eq!(
        command.args(),
        expect(&[
            "-f",
            "concat",
            "-safe",
            "0",
            "-i",
            "/tmp/list.txt",
            "-c",
            "copy",
            "tests/test_data/merged.wav",
            "-y",
        ])
    );
    assert_eq!(command.temporaries, expect(&["/tmp/list.txt"]));
    let merged_processor = succeed(&command);
    assert_eq!(merged_processor.file_path, merged_output);
    assert_eq!(failure_label(&command, Termination::Exited(1)), "ffmpeg merge failed");
}

#[test]
fn merge_refuses_an_empty_list() {
    let none: [AudioProcessor; 0] = [];
    assert_eq!(
        invalid(AudioProcessor::merge_audios(&none, "out.wav", "/tmp/list.txt")),
        "nothing to merge"
    );
    match AudioProcessor::merge_manifest(&none) {
        Err(AudioError::InvalidParameter(rule)) => assert_eq!(rule, "nothing to merge"),
        other => panic!("expected an invalid parameter, got {:?}", other),
    }
}

#[test]
fn merge_manifest_keeps_the_order() {
    let audios = [
        AudioProcessor::new("b.wav"),
        AudioProcessor::new("a.wav"),
        AudioProcessor::new("c.wav"),
    ];
    assert_eq!(
        AudioProcessor::merge_manifest(&audios).unwrap(),
        "file 'b.wav'\nfile 'a.wav'\nfile 'c.wav'\n"
    );
}

#[test]
fn merge_manifest_escapes_quotes() {
    let audios = [AudioProcessor::new("it's here.wav"), AudioProcessor::new("''")];
    assert_eq!(
        AudioProcessor::merge_manifest(&audios).unwrap(),
        "file 'it'\\''s here.wav'\nfile ''\\'''\\'''\n"
    );
}

#[test]
fn merge_manifest_takes_any_characters() {
    let audios = [AudioProcessor::new("dossier/\u{e9}t\u{e9} \u{1f3b5}.wav")];
    assert_eq!(
        AudioProcessor::merge_manifest(&audios).unwrap(),
        "file 'dossier/\u{e9}t\u{e9} \u{1f3b5}.wav'\n"
    );
}

#[test]
fn test_reverse() {
    let processor = AudioProcessor::new(SOURCE);
    let command = processor.reverse();
    assert_eq!(
        command.args(),
        expect(&[
            "-i",
            "tests/test_data/silence.wav",
            "-af",
            "areverse",
            "reversed_tests/test_data/silence.wav",
            "-y",
        ])
    );
    assert_eq!(succeed(&command).file_path, "reversed_tests/test_data/silence.wav");
    assert_eq!(failure_label(&command, Termination::Exited(1)), "ffmpeg reverse failed");
}

#[test]
fn reverse_twice_is_two_commands() {
    let processor = AudioProcessor::new("a.wav");
    let first = processor.reverse();
    let once = succeed(&first);
    let second = once.reverse();
    let twice = succeed(&second);
    assert_eq!(
        second.args(),
        expect(&["-i", "reversed_a.wav", "-af", "areverse", "reversed_reversed_a.wav", "-y"])
    );
    assert_eq!(second.inputs[0].location, first.output);
    assert_eq!(twice.file_path, "reversed_reversed_a.wav");
    assert_ne!(twice.file_path, processor.file_path);
    assert_eq!(processor.file_path, "a.wav");
}

#[test]
fn test_normalize() {
    let processor = AudioProcessor::new(SOURCE);
    let command = processor.normalize();
    assert_eq!(
        command.args(),
        expect(&[
            "-i",
            "tests/test_data/silence.wav",
            "-af",
            "loudnorm",
            "normalized_tests/test_data/silence.wav",
            "-y",
        ])
    );
    assert_eq!(succeed(&command).file_path, "normalized_tests/test_data/silence.wav");
    assert_eq!(failure_label(&command, Termination::Exited(1)), "ffmpeg normalize failed");
}

#[test]
fn test_overlay() {
    let base_processor = AudioProcessor::new(SOURCE);
    let overlay_processor = AudioProcessor::new("tests/test_data/voice.wav");
    let command = base_processor.overlay(&overlay_processor, TimeSpan::from_secs(1));
    assert_eq!(
        command.args(),
        expect(&[
            "-i",
            "tests/test_data/silence.wav",
            "-i",
            "tests/test_data/voice.wav",
            "-filter_complex",
            "[1]adelay=1000|1000|1000[d]; [0][d]amix=inputs=2:duration=first",
            "overlayed_tests/test_data/silence.wav",
            "-y",
        ])
    );
    assert_eq!(succeed(&command).file_path, "overlayed_tests/test_data/silence.wav");
    assert_eq!(failure_label(&command, Termination::Exited(1)), "ffmpeg overlay failed");
}

#[test]
fn operations_leave_the_receiver_as_it_was() {
    let processor = AudioProcessor::new("a.wav");
    let _ = processor.seek(TimeSpan::from_secs(1));
    let _ = processor.reverse();
    let _ = processor.normalize();
    let _ = processor.adjust_volume(Decimal::from_int(2));
    assert_eq!(processor.file_path, "a.wav");
    let again = processor.clone();
    assert_eq!(again.file_path, "a.wav");
}

#[test]
fn free_functions_take_the_output_from_the_caller() {
    let reversed = reverse_audio("in.wav", "out.wav");
    assert_eq!(reversed.args(), expect(&["-i", "in.wav", "-af", "areverse", "out.wav", "-y"]));
    assert_eq!(failure_label(&reversed, Termination::Exited(1)), "ffmpeg reverse failed");
    let normalized = normalize_volume("in.wav", "out.wav");
    assert_eq!(normalized.args(), expect(&["-i", "in.wav", "-af", "loudnorm", "out.wav", "-y"]));
    assert_eq!(failure_label(&normalized, Termination::Exited(1)), "ffmpeg normalize failed");
    assert_eq!(succeed(&normalized).file_path, "out.wav");
}

#[test]
fn a_failed_start_is_an_io_error() {
    let command = AudioProcessor::new("a.wav").reverse();
    let cause = std::io::Error::new(std::io::ErrorKind::NotFound, "no such executable");
    match AudioProcessor::complete(&command, Err(cause)) {
        Err(AudioError::IoError(e)) => {
            assert_eq!(e.kind(), std::io::ErrorKind::NotFound);
            assert_eq!(e.to_string(), "no such executable");
        }
        other => panic!("expected an I/O error, got {:?}", other),
    }
}

#[test]
fn classify_goes_by_the_exit_status() {
    let command = AudioProcessor::new("a.wav").seek(TimeSpan::from_secs(0));
    match classify(&command, Termination::Exited(0)) {
        ExecutionOutcome::Success(location) => assert_eq!(location, "seeked_a.wav"),
        other => panic!("expected a success, got {:?}", other),
    }
    match classify(&command, Termination::Exited(255)) {
        ExecutionOutcome::Failure(label) => assert_eq!(label, "ffmpeg seek failed"),
        other => panic!("expected a failure, got {:?}", other),
    }
    match classify(&command, Termination::Signaled) {
        ExecutionOutcome::Failure(label) => assert_eq!(label, "ffmpeg seek failed"),
        other => panic!("expected a failure, got {:?}", other),
    }
    assert!(Termination::Exited(0).success());
    assert!(!Termination::Exited(1).success());
    assert!(!Termination::Signaled.success());
}

#[test]
fn from_outcome_maps_both_outcomes() {
    let ok = AudioProcessor::from_outcome(ExecutionOutcome::Success("x.wav".to_string()));
    assert_eq!(ok.unwrap().file_path, "x.wav");
    let failed = ExecutionOutcome::Failure("ffmpeg seek failed".to_string());
    match AudioProcessor::from_outcome(failed) {
        Err(AudioError::FfmpegError(label)) => assert_eq!(label, "ffmpeg seek failed"),
        other => panic!("expected an engine failure, got {:?}", other),
    }
}

#[test]
fn every_kind_has_its_prefix_and_label() {
    let table = [
        (OperationKind::Seek, Some("seeked_"), "ffmpeg seek failed"),
        (OperationKind::Trim, Some("trimmed_"), "ffmpeg trim failed"),
        (OperationKind::Transcode, None, "ffmpeg transcode failed"),
        (OperationKind::AdjustVolume, Some("volume_adjusted_"), "ffmpeg adjust volume failed"),
        (OperationKind::ChangeSpeed, Some("speed_changed_"), "ffmpeg change speed failed"),
        (OperationKind::ApplyEffect, Some("effected_"), "ffmpeg apply effect failed"),
        (OperationKind::Merge, None, "ffmpeg merge failed"),
        (OperationKind::Reverse, Some("reversed_"), "ffmpeg reverse failed"),
        (OperationKind::Normalize, Some("normalized_"), "ffmpeg normalize failed"),
        (OperationKind::Overlay, Some("overlayed_"), "ffmpeg overlay failed"),
    ];
    for (kind, prefix, label) in table {
        assert_eq!(kind.output_prefix(), prefix);
        assert_eq!(kind.label(), label);
    }
}
