//! The plan of a conversion: the track to add and the samples to write.

use vstd::prelude::*;
use crate::error::ConversionError;
use crate::frame::{Frame, FrameView, is_stats, is_unsupported, is_video, reads_view};
use crate::sample::{
    OutputSample,
    SampleView,
    build_samples,
    emitted,
    lemma_consecutive_frames,
    lemma_unreadable_entry_ends_stream,
    lemma_emitted_count,
    lemma_first_sample,
    lemma_stats_count_split,
    sample_of,
    samples_view,
    stats_count,
};
use crate::track::{
    TrackConfiguration,
    TrackView,
    leading_stats,
    lemma_leading_stats,
    lemma_leading_stats_ends,
    select_track,
    selected,
};

verus! {

/// What a conversion hands to the muxer: one track, then its samples in order.
#[derive(Clone, Debug, PartialEq, Eq)]
pub struct ConversionPlan {
    pub track: TrackConfiguration,
    pub samples: Vec<OutputSample>,
}

/// The mathematical content of a [`ConversionPlan`].
pub ghost struct PlanView {
    pub track: TrackView,
    pub samples: Seq<SampleView>,
}

impl View for ConversionPlan {
    type V = PlanView;

    open spec fn view(&self) -> PlanView {
        PlanView { track: self.track@, samples: samples_view(self.samples@) }
    }
}

/// The plan of a capture. The frame at which the track is chosen is spent on
/// that choice: it gives the baseline timestamp and no sample. The samples are
/// those of the entries after it.
pub open spec fn planned(reads: Seq<Option<FrameView>>) -> Result<PlanView, ConversionError> {
    match selected(reads) {
        Ok(selection) => Ok(
            PlanView {
                track: selection.track,
                samples: emitted(reads.skip(selection.index + 1), selection.baseline),
            },
        ),
        Err(error) => Err(error),
    }
}

/// The view of the result of planning.
pub open spec fn plan_view(r: Result<ConversionPlan, ConversionError>) -> Result<
    PlanView,
    ConversionError,
> {
    match r {
        Ok(plan) => Ok(plan@),
        Err(error) => Err(error),
    }
}

/// Plans the conversion of a capture, given the parse outcome of each index
/// entry in index order.
pub fn plan_conversion(reads: &Vec<Option<Frame>>) -> (r: Result<ConversionPlan, ConversionError>)
    ensures
        plan_view(r) == planned(reads_view(reads@)),
        (r matches Err(error) && error == ConversionError::EmptyIndex) <==> reads@.len() == 0,
{
    let count = reads.len();
    match select_track(reads) {
        Ok(selection) => {
            assert(selection.index < count);
            let samples = build_samples(reads, selection.index + 1, selection.baseline);
            Ok(ConversionPlan { track: selection.track, samples })
        },
        Err(error) => Err(error),
    }
}

/// The outcome is the failure `error`.
pub open spec fn fails_with<T>(outcome: Result<T, ConversionError>, error: ConversionError) -> bool {
    outcome matches Err(found) && found == error
}

/// Planning looks at no entry beyond the first unreadable one: a capture and
/// its head up to that entry have the same plan.
pub proof fn lemma_plan_ends_at_unreadable_entry(reads: Seq<Option<FrameView>>, end: int)
    requires
        0 <= end < reads.len(),
        reads[end] is None,
        forall|m: int| 0 <= m < end ==> (#[trigger] reads[m]) is Some,
    ensures
        planned(reads) == planned(reads.take(end + 1)),
{
    let head = reads.take(end + 1);
    let first = leading_stats(reads) as int;
    lemma_leading_stats_ends(reads);
    if first > end {
        assert(is_stats(reads[end]));
    }
    assert forall|j: int| 0 <= j < first implies is_stats(#[trigger] head[j]) by {
        assert(head[j] == reads[j]);
    }
    assert(head[first] == reads[first]);
    lemma_leading_stats(head, first);
    if first < end && selected(reads) is Ok {
        let rest = reads.skip(first + 1);
        let cut = end - first - 1;
        assert(rest[cut] == reads[end]);
        assert forall|m: int| 0 <= m < cut implies (#[trigger] rest[m]) is Some by {
            assert(rest[m] == reads[m + first + 1]);
        }
        assert(head.skip(first + 1) =~= rest.take(cut + 1));
        let short = rest.take(cut + 1);
        assert(short[cut] == rest[cut]);
        assert forall|m: int| 0 <= m < cut implies (#[trigger] short[m]) is Some by {
            assert(short[m] == rest[m]);
        }
        assert(short.take(cut) =~= rest.take(cut));
        let baseline = selected(reads)->Ok_0.baseline;
        lemma_unreadable_entry_ends_stream(rest, baseline, cut);
        lemma_unreadable_entry_ends_stream(short, baseline, cut);
    }
}

/// A capture is well formed for conversion where every entry is readable, some
/// frame is a video frame, and no frame of an unsupported format comes before
/// the first video frame.
pub open spec fn well_formed(reads: Seq<Option<FrameView>>) -> bool {
    &&& forall|i: int| 0 <= i < reads.len() ==> (#[trigger] reads[i]) is Some
    &&& exists|i: int| 0 <= i < reads.len() && is_video(#[trigger] reads[i])
    &&& forall|i: int|
        0 <= i < reads.len() && is_unsupported(#[trigger] reads[i]) ==> exists|j: int|
            0 <= j < i && is_video(#[trigger] reads[j])
}

/// A well-formed capture has a plan, chosen at its first video frame, with one
/// sample for every frame but the `Stats` frames and the frame at which the
/// track is chosen.
pub proof fn lemma_sample_count(reads: Seq<Option<FrameView>>)
    requires
        well_formed(reads),
    ensures
        planned(reads) is Ok,
        is_video(reads[selected(reads)->Ok_0.index]),
        planned(reads)->Ok_0.samples.len() == reads.len() - stats_count(reads) - 1,
{
    let first = leading_stats(reads) as int;
    lemma_leading_stats_ends(reads);
    let video = choose|i: int| 0 <= i < reads.len() && is_video(#[trigger] reads[i]);
    if first >= reads.len() {
        assert(is_stats(reads[video]));
    }
    assert(reads[first] is Some);
    if is_unsupported(reads[first]) {
        let before = choose|j: int| 0 <= j < first && is_video(#[trigger] reads[j]);
        assert(is_stats(reads[before]));
    }
    assert(is_video(reads[first]));
    let rest = reads.skip(first + 1);
    assert forall|m: int| 0 <= m < rest.len() implies (#[trigger] rest[m]) is Some by {
        assert(rest[m] == reads[m + first + 1]);
    }
    lemma_emitted_count(rest, reads[first]->0.timestamp);
    lemma_stats_count_split(reads, first);
}

/// A capture that has frames, all of them readable and none a video frame, has
/// no plan: where all are `Stats` frames no video track is found, and where one
/// is of an unsupported format the format is refused.
pub proof fn lemma_capture_without_video(reads: Seq<Option<FrameView>>)
    requires
        reads.len() > 0,
        forall|i: int|
            0 <= i < reads.len() ==> is_stats(#[trigger] reads[i]) || is_unsupported(reads[i]),
    ensures
        (forall|i: int| 0 <= i < reads.len() ==> is_stats(#[trigger] reads[i])) ==> fails_with(
            planned(reads),
            ConversionError::NoVideoTrackFound,
        ),
        (exists|i: int| 0 <= i < reads.len() && is_unsupported(#[trigger] reads[i])) ==> fails_with(
            planned(reads),
            ConversionError::UnsupportedFormat,
        ),
{
    let first = leading_stats(reads) as int;
    lemma_leading_stats_ends(reads);
    if first < reads.len() {
        assert(is_unsupported(reads[first]));
    }
    if exists|i: int| 0 <= i < reads.len() && is_unsupported(#[trigger] reads[i]) {
        let other = choose|i: int| 0 <= i < reads.len() && is_unsupported(#[trigger] reads[i]);
        if first >= reads.len() {
            assert(is_stats(reads[other]));
        }
    }
}

/// In a planned capture, durations follow the timestamps of consecutive
/// frames from the chosen frame on. Where two frames are not `Stats` frames,
/// the earlier is the chosen frame or comes after it, only `Stats` frames lie
/// between the two, and every entry up to the later one is readable, the plan
/// has the sample of the later frame, with the duration of the step from the
/// earlier timestamp to the later one.
pub proof fn lemma_plan_follows_timestamps(
    reads: Seq<Option<FrameView>>,
    earlier: int,
    later: int,
)
    requires
        selected(reads) is Ok,
        selected(reads)->Ok_0.index <= earlier < later < reads.len(),
        forall|m: int| 0 <= m <= later ==> (#[trigger] reads[m]) is Some,
        !is_stats(reads[earlier]),
        !is_stats(reads[later]),
        forall|m: int| earlier < m < later ==> is_stats(#[trigger] reads[m]),
    ensures
        planned(reads) is Ok,
        planned(reads)->Ok_0.samples.contains(
            sample_of(reads[later]->0, reads[earlier]->0.timestamp),
        ),
{
    let chosen = selected(reads)->Ok_0.index;
    let baseline = selected(reads)->Ok_0.baseline;
    let rest = reads.skip(chosen + 1);
    lemma_leading_stats_ends(reads);
    assert(reads[chosen] is Some && reads[chosen]->0.timestamp == baseline);
    assert forall|m: int| 0 <= m <= later - chosen - 1 implies (#[trigger] rest[m]) is Some by {
        assert(rest[m] == reads[m + chosen + 1]);
    }
    assert(rest[later - chosen - 1] == reads[later]);
    if earlier == chosen {
        assert forall|m: int| 0 <= m < later - chosen - 1 implies is_stats(#[trigger] rest[m]) by {
            assert(rest[m] == reads[m + chosen + 1]);
        }
        lemma_first_sample(rest, baseline, later - chosen - 1);
    } else {
        assert(rest[earlier - chosen - 1] == reads[earlier]);
        assert forall|m: int| earlier - chosen - 1 < m < later - chosen - 1 implies is_stats(
            #[trigger] rest[m],
        ) by {
            assert(rest[m] == reads[m + chosen + 1]);
        }
        lemma_consecutive_frames(rest, baseline, earlier - chosen - 1, later - chosen - 1);
    }
}

} // verus!
