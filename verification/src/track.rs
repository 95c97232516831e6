//! Track selection: the scan for the first video frame, which decides the
//! codec of the single output track.

use vstd::prelude::*;
use crate::error::ConversionError;
use crate::frame::{Frame, FrameView, VideoCaptureFormat, is_stats, reads_view, read_view};

verus! {

/// The configuration of the output track.
#[derive(Clone, Debug, PartialEq, Eq)]
pub enum TrackConfiguration {
    /// An HEVC track with the muxer's default parameters.
    Hevc,
    /// An AVC track with its picture size and parameter sets.
    Avc { width: u16, height: u16, seq_param_set: Vec<u8>, pic_param_set: Vec<u8> },
}

/// The mathematical content of a [`TrackConfiguration`].
pub ghost enum TrackView {
    Hevc,
    Avc { width: u16, height: u16, seq_param_set: Seq<u8>, pic_param_set: Seq<u8> },
}

impl View for TrackConfiguration {
    type V = TrackView;

    open spec fn view(&self) -> TrackView {
        match *self {
            TrackConfiguration::Hevc => TrackView::Hevc,
            TrackConfiguration::Avc { width, height, seq_param_set, pic_param_set } => {
                TrackView::Avc {
                    width,
                    height,
                    seq_param_set: seq_param_set@,
                    pic_param_set: pic_param_set@,
                }
            },
        }
    }
}

/// The sequence parameter set that stands in for the one a raw capture never
/// carries.
pub open spec fn placeholder_sps() -> Seq<u8> {
    seq![0x00u8, 0x00u8, 0x00u8, 0x01u8, 0x67u8, 0x42u8, 0x00u8, 0x0au8, 0xf8u8, 0x41u8, 0xa2u8]
}

/// The picture parameter set that stands in for the one a raw capture never
/// carries.
pub open spec fn placeholder_pps() -> Seq<u8> {
    seq![0x00u8, 0x00u8, 0x00u8, 0x01u8, 0x68u8, 0xceu8, 0x38u8, 0x80u8]
}

/// The AVC track of a raw capture: no picture size, placeholder parameter sets.
pub open spec fn placeholder_avc() -> TrackView {
    TrackView::Avc {
        width: 0,
        height: 0,
        seq_param_set: placeholder_sps(),
        pic_param_set: placeholder_pps(),
    }
}

/// What the scan makes of one index entry.
pub ghost enum ScanView {
    Scanning,
    TrackChosen { track: TrackView, baseline: u64 },
    Aborted { error: ConversionError },
}

/// What the scan makes of one index entry: it goes on past a `Stats` frame,
/// chooses the track at a video frame, and gives up at anything else.
pub open spec fn scan_of(read: Option<FrameView>) -> ScanView {
    match read {
        None => ScanView::Aborted { error: ConversionError::FrameRead },
        Some(frame) => match frame.format {
            VideoCaptureFormat::Stats => ScanView::Scanning,
            VideoCaptureFormat::H265 => ScanView::TrackChosen {
                track: TrackView::Hevc,
                baseline: frame.timestamp,
            },
            VideoCaptureFormat::H264 => ScanView::TrackChosen {
                track: placeholder_avc(),
                baseline: frame.timestamp,
            },
            VideoCaptureFormat::Other => ScanView::Aborted {
                error: ConversionError::UnsupportedFormat,
            },
        },
    }
}

/// The state of the scan after one index entry.
#[derive(Clone, Debug, PartialEq, Eq)]
pub enum ScanState {
    /// The entry was a `Stats` frame: the scan goes on.
    Scanning,
    /// The entry was a video frame: the track is chosen, and the frame's
    /// timestamp is the baseline for the first duration.
    TrackChosen { track: TrackConfiguration, baseline: u64 },
    /// The entry ended the conversion.
    Aborted { error: ConversionError },
}

impl View for ScanState {
    type V = ScanView;

    open spec fn view(&self) -> ScanView {
        match *self {
            ScanState::Scanning => ScanView::Scanning,
            ScanState::TrackChosen { track, baseline } => ScanView::TrackChosen {
                track: track@,
                baseline,
            },
            ScanState::Aborted { error } => ScanView::Aborted { error },
        }
    }
}

/// The placeholder AVC track configuration.
pub fn placeholder_avc_track() -> (track: TrackConfiguration)
    ensures
        track@ == placeholder_avc(),
{
    let seq_param_set: Vec<u8> = vec![
        0x00u8, 0x00u8, 0x00u8, 0x01u8, 0x67u8, 0x42u8, 0x00u8, 0x0au8, 0xf8u8, 0x41u8, 0xa2u8,
    ];
    let pic_param_set: Vec<u8> = vec![
        0x00u8, 0x00u8, 0x00u8, 0x01u8, 0x68u8, 0xceu8, 0x38u8, 0x80u8,
    ];
    assert(seq_param_set@ =~= placeholder_sps());
    assert(pic_param_set@ =~= placeholder_pps());
    TrackConfiguration::Avc { width: 0, height: 0, seq_param_set, pic_param_set }
}

/// Decides what one index entry means to the scan.
pub fn scan_frame(read: &Option<Frame>) -> (state: ScanState)
    ensures
        state@ == scan_of(read_view(*read)),
{
    match read {
        None => ScanState::Aborted { error: ConversionError::FrameRead },
        Some(frame) => match frame.format {
            VideoCaptureFormat::Stats => ScanState::Scanning,
            VideoCaptureFormat::H265 => ScanState::TrackChosen {
                track: TrackConfiguration::Hevc,
                baseline: frame.timestamp,
            },
            VideoCaptureFormat::H264 => ScanState::TrackChosen {
                track: placeholder_avc_track(),
                baseline: frame.timestamp,
            },
            VideoCaptureFormat::Other => ScanState::Aborted {
                error: ConversionError::UnsupportedFormat,
            },
        },
    }
}

/// The number of `Stats` frames at the head of the capture, before the first
/// entry that is anything else.
pub open spec fn leading_stats(reads: Seq<Option<FrameView>>) -> nat
    decreases reads.len(),
{
    if reads.len() > 0 && is_stats(reads[0]) {
        1 + leading_stats(reads.drop_first())
    } else {
        0
    }
}

/// The outcome of track selection.
#[derive(Clone, Debug, PartialEq, Eq)]
pub struct TrackSelection {
    /// The index of the entry at which the track was chosen.
    pub index: usize,
    /// The chosen track.
    pub track: TrackConfiguration,
    /// The timestamp of that entry.
    pub baseline: u64,
}

/// The mathematical content of a [`TrackSelection`].
pub ghost struct SelectionView {
    pub index: int,
    pub track: TrackView,
    pub baseline: u64,
}

impl View for TrackSelection {
    type V = SelectionView;

    open spec fn view(&self) -> SelectionView {
        SelectionView { index: self.index as int, track: self.track@, baseline: self.baseline }
    }
}

/// The track selection of a capture: the decision at the first entry that is
/// not a `Stats` frame. An empty capture and one of `Stats` frames alone have
/// none.
pub open spec fn selected(reads: Seq<Option<FrameView>>) -> Result<SelectionView, ConversionError> {
    let first = leading_stats(reads) as int;
    if reads.len() == 0 {
        Err(ConversionError::EmptyIndex)
    } else if first >= reads.len() {
        Err(ConversionError::NoVideoTrackFound)
    } else {
        match scan_of(reads[first]) {
            ScanView::TrackChosen { track, baseline } => Ok(
                SelectionView { index: first, track, baseline },
            ),
            ScanView::Aborted { error } => Err(error),
            ScanView::Scanning => Err(ConversionError::NoVideoTrackFound),
        }
    }
}

/// The view of the result of a track selection.
pub open spec fn selection_view(r: Result<TrackSelection, ConversionError>) -> Result<
    SelectionView,
    ConversionError,
> {
    match r {
        Ok(selection) => Ok(selection@),
        Err(error) => Err(error),
    }
}

/// Where every entry before `end` is a `Stats` frame and the entry at `end`,
/// if there is one, is not, `end` is the number of leading `Stats` frames.
pub proof fn lemma_leading_stats(reads: Seq<Option<FrameView>>, end: int)
    requires
        0 <= end <= reads.len(),
        forall|j: int| 0 <= j < end ==> is_stats(#[trigger] reads[j]),
        end < reads.len() ==> !is_stats(reads[end]),
    ensures
        leading_stats(reads) == end,
    decreases end,
{
    if end > 0 {
        let rest = reads.drop_first();
        assert forall|j: int| 0 <= j < end - 1 implies is_stats(#[trigger] rest[j]) by {
            assert(rest[j] == reads[j + 1]);
        }
        if end < reads.len() {
            assert(rest[end - 1] == reads[end]);
        }
        lemma_leading_stats(rest, end - 1);
    }
}

/// Every entry before the first that is not a `Stats` frame is one, and that
/// entry, if the capture has one, is not.
pub proof fn lemma_leading_stats_ends(reads: Seq<Option<FrameView>>)
    ensures
        leading_stats(reads) <= reads.len(),
        forall|j: int| 0 <= j < leading_stats(reads) ==> is_stats(#[trigger] reads[j]),
        leading_stats(reads) < reads.len() ==> !is_stats(reads[leading_stats(reads) as int]),
    decreases reads.len(),
{
    if reads.len() > 0 && is_stats(reads[0]) {
        let rest = reads.drop_first();
        lemma_leading_stats_ends(rest);
        assert forall|j: int| 0 <= j < leading_stats(reads) implies is_stats(
            #[trigger] reads[j],
        ) by {
            if j > 0 {
                assert(reads[j] == rest[j - 1]);
            }
        }
        if leading_stats(reads) < reads.len() {
            assert(reads[leading_stats(reads) as int] == rest[leading_stats(rest) as int]);
        }
    }
}

/// Selects the output track: scans the capture from its start, past `Stats`
/// frames, to the first entry that is anything else, and decides there.
pub fn select_track(reads: &Vec<Option<Frame>>) -> (r: Result<TrackSelection, ConversionError>)
    ensures
        selection_view(r) == selected(reads_view(reads@)),
        (r matches Err(error) && error == ConversionError::EmptyIndex) <==> reads@.len() == 0,
        r matches Ok(selection) ==> selection.index < reads@.len(),
{
    let ghost content = reads_view(reads@);
    if reads.len() == 0 {
        return Err(ConversionError::EmptyIndex);
    }
    let mut i: usize = 0;
    while i < reads.len()
        invariant
            i <= reads.len(),
            reads.len() > 0,
            content == reads_view(reads@),
            forall|j: int| 0 <= j < i ==> is_stats(#[trigger] content[j]),
        decreases reads.len() - i,
    {
        let state = scan_frame(&reads[i]);
        assert(content[i as int] == read_view(reads@[i as int]));
        match state {
            ScanState::Scanning => {
                i += 1;
            },
            ScanState::TrackChosen { track, baseline } => {
                proof {
                    lemma_leading_stats(content, i as int);
                }
                return Ok(TrackSelection { index: i, track, baseline });
            },
            ScanState::Aborted { error } => {
                proof {
                    lemma_leading_stats(content, i as int);
                }
                return Err(error);
            },
        }
    }
    proof {
        lemma_leading_stats(content, reads.len() as int);
    }
    Err(ConversionError::NoVideoTrackFound)
}

} // verus!
