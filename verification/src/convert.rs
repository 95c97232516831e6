//! The conversion as a whole: from the parsed capture to the bytes of the
//! container.

use vstd::prelude::*;
use crate::error::ConversionError;
use crate::frame::{Frame, FrameView, is_stats, is_unsupported, reads_view};
use crate::mux::{
    MuxedTrack,
    bytes_view,
    container_image,
    lemma_with_all,
    muxed,
    muxed_samples,
    standard_container,
    takes_all,
    write_container,
    writer_starts,
    written_track,
};
use crate::plan::{
    fails_with,
    lemma_capture_without_video,
    lemma_sample_count,
    plan_conversion,
    planned,
    well_formed,
};
use crate::sample::stats_count;
use crate::track::lemma_leading_stats_ends;

verus! {

/// What converting a capture comes to. A capture without a plan fails as its
/// planning does, before the muxer is asked; a capture with a plan comes to
/// what muxing that plan comes to.
pub open spec fn converted(reads: Seq<Option<FrameView>>) -> Result<Seq<u8>, ConversionError> {
    match planned(reads) {
        Ok(plan) => muxed(plan),
        Err(error) => Err(error),
    }
}

/// Converts a raw capture, given as the parse outcome of each index entry in
/// index order, into the bytes of an MP4 container with one video track.
pub fn convert_vraw_to_mp4(reads: &Vec<Option<Frame>>) -> (r: Result<Vec<u8>, ConversionError>)
    ensures
        bytes_view(r) == converted(reads_view(reads@)),
        (r matches Err(error) && error == ConversionError::EmptyIndex) <==> reads@.len() == 0,
{
    match plan_conversion(reads) {
        Ok(plan) => write_container(&plan),
        Err(error) => Err(error),
    }
}

/// Conversion is repeatable: two conversions of captures with the same
/// content come to the same, bytes or failure. Nothing but the content of the
/// capture enters the container.
pub proof fn lemma_conversion_is_repeatable(
    first: Seq<Option<Frame>>,
    second: Seq<Option<Frame>>,
    first_result: Result<Vec<u8>, ConversionError>,
    second_result: Result<Vec<u8>, ConversionError>,
)
    requires
        reads_view(first) == reads_view(second),
        bytes_view(first_result) == converted(reads_view(first)),
        bytes_view(second_result) == converted(reads_view(second)),
    ensures
        bytes_view(first_result) == bytes_view(second_result),
{
}

/// A well-formed capture converts wherever the muxer does its part: the
/// writer starts, takes every sample of the plan, and completes the container.
/// It fails only at a stage of the muxer. The container then has exactly one
/// track, of the codec of the first video frame, with one sample for every
/// frame but the `Stats` frames and the frame at which the track was chosen.
pub proof fn lemma_well_formed_capture_converts(reads: Seq<Option<FrameView>>)
    requires
        well_formed(reads),
    ensures
        planned(reads) is Ok,
        converted(reads) is Ok <==> {
            &&& writer_starts(standard_container())
            &&& takes_all(
                MuxedTrack::fresh(planned(reads)->Ok_0.track),
                muxed_samples(planned(reads)->Ok_0.samples),
            )
            &&& container_image(
                standard_container(),
                seq![written_track(planned(reads)->Ok_0)],
            ) is Some
        },
        converted(reads) matches Err(error) ==> error.is_mux(),
        converted(reads) matches Ok(bytes) ==> exists|track: MuxedTrack|
            {
                &&& container_image(standard_container(), seq![track]) == Some(bytes)
                &&& track.config == planned(reads)->Ok_0.track
                &&& track.samples.len() == reads.len() - stats_count(reads) - 1
            },
{
    lemma_sample_count(reads);
    lemma_leading_stats_ends(reads);
    let plan = planned(reads)->Ok_0;
    let track = written_track(plan);
    lemma_with_all(MuxedTrack::fresh(plan.track), muxed_samples(plan.samples));
    if converted(reads) is Ok {
        assert(container_image(standard_container(), seq![track]) == Some(converted(reads)->Ok_0));
    }
}

/// A capture that has frames, all of them readable and none a video frame,
/// does not convert: where all are `Stats` frames no video track is found, and
/// where one is of an unsupported format the format is refused. No container
/// comes of it.
pub proof fn lemma_capture_without_video_fails(reads: Seq<Option<FrameView>>)
    requires
        reads.len() > 0,
        forall|i: int|
            0 <= i < reads.len() ==> is_stats(#[trigger] reads[i]) || is_unsupported(reads[i]),
    ensures
        (forall|i: int| 0 <= i < reads.len() ==> is_stats(#[trigger] reads[i])) ==> fails_with(
            converted(reads),
            ConversionError::NoVideoTrackFound,
        ),
        (exists|i: int| 0 <= i < reads.len() && is_unsupported(#[trigger] reads[i])) ==> fails_with(
            converted(reads),
            ConversionError::UnsupportedFormat,
        ),
{
    lemma_capture_without_video(reads);
}

} // verus!
