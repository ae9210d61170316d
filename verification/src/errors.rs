//! The error type shared by every operation.

use vstd::prelude::*;
use vstd::string::StringExecFns;

verus! {

/// `std::io::Error`, carried through unread: nothing is known of a value of
/// it, and nothing here looks inside one.
#[verifier::external_type_specification]
#[verifier::external_body]
pub struct ExIoError(std::io::Error);

/// Why an operation failed.
#[derive(Debug)]
pub enum AudioError {
    /// The backing store or the engine's executable could not be reached.
    IoError(std::io::Error),
    /// The engine ran and did not end in success; the text names the
    /// operation.
    FfmpegError(String),
    /// A parameter lies outside its domain; the text names the rule.
    InvalidParameter(String),
}

/// An `AudioError` with its messages as character sequences.
pub enum AudioErrorView {
    IoError(std::io::Error),
    FfmpegError(Seq<char>),
    InvalidParameter(Seq<char>),
}

impl View for AudioError {
    type V = AudioErrorView;

    open spec fn view(&self) -> AudioErrorView {
        match *self {
            AudioError::IoError(e) => AudioErrorView::IoError(e),
            AudioError::FfmpegError(m) => AudioErrorView::FfmpegError(m@),
            AudioError::InvalidParameter(m) => AudioErrorView::InvalidParameter(m@),
        }
    }
}

impl AudioError {
    /// The error for a parameter that breaks the rule `rule`.
    pub fn invalid_parameter(rule: &str) -> (e: AudioError)
        ensures
            e@ == AudioErrorView::InvalidParameter(rule@),
    {
        AudioError::InvalidParameter(String::from_str(rule))
    }
}

} // verus!
