//! Target formats for transcoding.

use vstd::prelude::*;

verus! {

/// The audio formats a caller may name as the target of a transcode. The
/// engine picks the codec from the output location's extension, so the
/// format is a statement of intent and never rewrites that location.
#[derive(Clone, Copy, Debug, PartialEq, Eq)]
pub enum AudioFormat {
    Mp3,
    Wav,
    Flac,
    Ogg,
}

} // verus!
