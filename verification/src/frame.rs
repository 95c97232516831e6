//! Frame records of a raw capture, as the index reader and the frame parser
//! hand them over.

use vstd::prelude::*;

verus! {

/// The format tag of a frame.
#[derive(Clone, Copy, Debug, PartialEq, Eq, Structural)]
pub enum VideoCaptureFormat {
    /// An AVC video frame.
    H264,
    /// An HEVC video frame.
    H265,
    /// A statistics record: it carries no media.
    Stats,
    /// Any format that the conversion does not support.
    Other,
}

/// One parsed frame: its format tag, its capture-clock timestamp and its
/// payload.
#[derive(Clone, Debug, PartialEq, Eq)]
pub struct Frame {
    pub format: VideoCaptureFormat,
    pub timestamp: u64,
    pub raw_data: Vec<u8>,
}

/// The mathematical content of a [`Frame`].
pub ghost struct FrameView {
    pub format: VideoCaptureFormat,
    pub timestamp: u64,
    pub payload: Seq<u8>,
}

impl View for Frame {
    type V = FrameView;

    open spec fn view(&self) -> FrameView {
        FrameView { format: self.format, timestamp: self.timestamp, payload: self.raw_data@ }
    }
}

/// The content of one index entry after parsing: a frame, or `None` where the
/// entry could not be read.
pub open spec fn read_view(read: Option<Frame>) -> Option<FrameView> {
    match read {
        Some(frame) => Some(frame@),
        None => None,
    }
}

/// The content of a capture: one parse outcome per index entry, in index
/// order.
pub open spec fn reads_view(reads: Seq<Option<Frame>>) -> Seq<Option<FrameView>> {
    Seq::new(reads.len(), |i: int| read_view(reads[i]))
}

/// A readable frame tagged `Stats`.
pub open spec fn is_stats(read: Option<FrameView>) -> bool {
    read matches Some(frame) && frame.format == VideoCaptureFormat::Stats
}

/// A readable frame tagged `H264` or `H265`.
pub open spec fn is_video(read: Option<FrameView>) -> bool {
    read matches Some(frame) && (frame.format == VideoCaptureFormat::H264 || frame.format
        == VideoCaptureFormat::H265)
}

/// A readable frame of a format that the conversion does not support.
pub open spec fn is_unsupported(read: Option<FrameView>) -> bool {
    read matches Some(frame) && frame.format == VideoCaptureFormat::Other
}

} // verus!
