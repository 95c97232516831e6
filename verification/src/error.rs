//! The ways a conversion can fail.

use vstd::prelude::*;

verus! {

/// A failed conversion. Every failure ends the run; none is retried.
#[derive(Clone, Copy, Debug, PartialEq, Eq, Structural)]
pub enum ConversionError {
    /// The raw capture could not be opened.
    InputOpen,
    /// The index of the raw capture is malformed or unreadable.
    IndexRead,
    /// The index holds no entry.
    EmptyIndex,
    /// An entry could not be read while the track was being selected.
    FrameRead,
    /// The index ended before any video frame was found.
    NoVideoTrackFound,
    /// A frame of an unsupported format came before the first video frame.
    UnsupportedFormat,
    /// The destination could not be created.
    OutputCreate,
    /// The muxer could not begin the container.
    MuxStart,
    /// The muxer refused the track.
    MuxAddTrack,
    /// The muxer could not take a sample.
    MuxWrite,
    /// The muxer could not complete the container.
    MuxFinalize,
}

impl ConversionError {
    /// The text of the message for this failure.
    pub open spec fn text(self) -> Seq<char> {
        match self {
            ConversionError::InputOpen => "vraw_convert: failed to open file"@,
            ConversionError::IndexRead => "vraw_convert: failed to read index"@,
            ConversionError::EmptyIndex => "vraw_convert: index contains no frames"@,
            ConversionError::FrameRead => "vraw_convert: unable to read frame"@,
            ConversionError::NoVideoTrackFound => "vraw_convert: no video track found"@,
            ConversionError::UnsupportedFormat => "VideoCaptureFormat not supported"@,
            ConversionError::OutputCreate => "vraw_convert: file creation failed"@,
            ConversionError::MuxStart => "vraw_convert: failed to start writing mp4"@,
            ConversionError::MuxAddTrack => "vraw_convert: failed to add mp4 track"@,
            ConversionError::MuxWrite => "vraw_convert: failed to write sample"@,
            ConversionError::MuxFinalize => "vraw_convert: failed to end mp4 writing"@,
        }
    }

    /// True of the failures that the muxer reports.
    pub open spec fn is_mux(self) -> bool {
        self == ConversionError::MuxStart || self == ConversionError::MuxAddTrack || self
            == ConversionError::MuxWrite || self == ConversionError::MuxFinalize
    }

    /// The message for this failure.
    pub fn message(&self) -> (text: String)
        ensures
            text@ == self.text(),
    {
        match self {
            ConversionError::InputOpen => String::from_str("vraw_convert: failed to open file"),
            ConversionError::IndexRead => String::from_str("vraw_convert: failed to read index"),
            ConversionError::EmptyIndex => String::from_str(
                "vraw_convert: index contains no frames",
            ),
            ConversionError::FrameRead => String::from_str("vraw_convert: unable to read frame"),
            ConversionError::NoVideoTrackFound => String::from_str(
                "vraw_convert: no video track found",
            ),
            ConversionError::UnsupportedFormat => String::from_str(
                "VideoCaptureFormat not supported",
            ),
            ConversionError::OutputCreate => String::from_str("vraw_convert: file creation failed"),
            ConversionError::MuxStart => String::from_str(
                "vraw_convert: failed to start writing mp4",
            ),
            ConversionError::MuxAddTrack => String::from_str(
                "vraw_convert: failed to add mp4 track",
            ),
            ConversionError::MuxWrite => String::from_str("vraw_convert: failed to write sample"),
            ConversionError::MuxFinalize => String::from_str(
                "vraw_convert: failed to end mp4 writing",
            ),
        }
    }
}

} // verus!
