//! Sample building: the frames after the selected one become timed samples.

use vstd::prelude::*;
use vstd::slice::slice_to_vec;
use crate::frame::{Frame, FrameView, VideoCaptureFormat, is_stats, reads_view, read_view};
use crate::timing::{duration_between, sample_duration};

verus! {

/// One timed unit of payload for the output track.
#[derive(Clone, Debug, PartialEq, Eq)]
pub struct OutputSample {
    /// The capture-clock timestamp of the frame.
    pub start_time: u64,
    /// Milliseconds since the previous frame that was not a `Stats` frame.
    pub duration: u32,
    /// Always 0: a raw capture has no reordered frames.
    pub rendering_offset: i32,
    /// Always false: a raw capture does not say which frames are key frames.
    pub is_sync: bool,
    /// The frame's payload, byte for byte.
    pub payload: Vec<u8>,
}

/// The mathematical content of an [`OutputSample`].
pub ghost struct SampleView {
    pub start_time: u64,
    pub duration: u32,
    pub rendering_offset: i32,
    pub is_sync: bool,
    pub payload: Seq<u8>,
}

impl View for OutputSample {
    type V = SampleView;

    open spec fn view(&self) -> SampleView {
        SampleView {
            start_time: self.start_time,
            duration: self.duration,
            rendering_offset: self.rendering_offset,
            is_sync: self.is_sync,
            payload: self.payload@,
        }
    }
}

/// The content of a list of samples.
pub open spec fn samples_view(samples: Seq<OutputSample>) -> Seq<SampleView> {
    Seq::new(samples.len(), |i: int| samples[i]@)
}

/// The sample of a frame whose predecessor had the timestamp `last`.
pub open spec fn sample_of(frame: FrameView, last: u64) -> SampleView {
    SampleView {
        start_time: frame.timestamp,
        duration: duration_between(last, frame.timestamp),
        rendering_offset: 0,
        is_sync: false,
        payload: frame.payload,
    }
}

/// The samples of a run of index entries, where the frame before the run had
/// the timestamp `last`. The first unreadable entry ends the usable stream; a
/// `Stats` frame gives no sample and leaves the timing alone; every other
/// frame gives one sample and its timestamp to the frame after it.
pub open spec fn emitted(reads: Seq<Option<FrameView>>, last: u64) -> Seq<SampleView>
    decreases reads.len(),
{
    if reads.len() == 0 {
        Seq::empty()
    } else {
        match reads[0] {
            None => Seq::empty(),
            Some(frame) => if frame.format == VideoCaptureFormat::Stats {
                emitted(reads.drop_first(), last)
            } else {
                seq![sample_of(frame, last)] + emitted(reads.drop_first(), frame.timestamp)
            },
        }
    }
}

/// Where a run begins with `Stats` frames and then has a frame that is not
/// one, the first sample of the run is the sample of that frame, timed from
/// `last`.
pub proof fn lemma_first_sample(reads: Seq<Option<FrameView>>, last: u64, next: int)
    requires
        0 <= next < reads.len(),
        forall|m: int| 0 <= m < next ==> is_stats(#[trigger] reads[m]),
        reads[next] is Some,
        !is_stats(reads[next]),
    ensures
        emitted(reads, last).len() > 0,
        emitted(reads, last)[0] == sample_of(reads[next]->0, last),
    decreases next,
{
    if next > 0 {
        let rest = reads.drop_first();
        assert(is_stats(reads[0]));
        assert forall|m: int| 0 <= m < next - 1 implies is_stats(#[trigger] rest[m]) by {
            assert(rest[m] == reads[m + 1]);
        }
        assert(rest[next - 1] == reads[next]);
        lemma_first_sample(rest, last, next - 1);
    }
}

/// Durations follow the timestamps of consecutive frames. Where two frames of
/// a run are not `Stats` frames, only `Stats` frames lie between them, and
/// every entry up to the later one is readable, the later frame gives a sample
/// whose duration is that of the step from the earlier timestamp to the later
/// one.
pub proof fn lemma_consecutive_frames(
    reads: Seq<Option<FrameView>>,
    last: u64,
    earlier: int,
    later: int,
)
    requires
        0 <= earlier < later < reads.len(),
        forall|m: int| 0 <= m <= later ==> (#[trigger] reads[m]) is Some,
        !is_stats(reads[earlier]),
        !is_stats(reads[later]),
        forall|m: int| earlier < m < later ==> is_stats(#[trigger] reads[m]),
    ensures
        emitted(reads, last).contains(sample_of(reads[later]->0, reads[earlier]->0.timestamp)),
    decreases earlier,
{
    let rest = reads.drop_first();
    let wanted = sample_of(reads[later]->0, reads[earlier]->0.timestamp);
    assert(reads[0] is Some);
    let head = reads[0]->0;
    if earlier == 0 {
        let tail = emitted(rest, head.timestamp);
        assert forall|m: int| 0 <= m < later - 1 implies is_stats(#[trigger] rest[m]) by {
            assert(rest[m] == reads[m + 1]);
        }
        assert(rest[later - 1] == reads[later]);
        lemma_first_sample(rest, head.timestamp, later - 1);
        assert((seq![sample_of(head, last)] + tail)[1] == tail[0]);
        assert(emitted(reads, last)[1] == wanted);
    } else {
        assert forall|m: int| 0 <= m <= later - 1 implies (#[trigger] rest[m]) is Some by {
            assert(rest[m] == reads[m + 1]);
        }
        assert forall|m: int| earlier - 1 < m < later - 1 implies is_stats(#[trigger] rest[m]) by {
            assert(rest[m] == reads[m + 1]);
        }
        assert(rest[earlier - 1] == reads[earlier]);
        assert(rest[later - 1] == reads[later]);
        if is_stats(reads[0]) {
            lemma_consecutive_frames(rest, last, earlier - 1, later - 1);
        } else {
            lemma_consecutive_frames(rest, head.timestamp, earlier - 1, later - 1);
            let tail = emitted(rest, head.timestamp);
            let k = choose|k: int| 0 <= k < tail.len() && tail[k] == wanted;
            assert((seq![sample_of(head, last)] + tail)[k + 1] == tail[k]);
            assert(emitted(reads, last)[k + 1] == wanted);
        }
    }
}

/// Every sample after the first is timed from the sample before it, and the
/// first from `last`.
pub proof fn lemma_durations_chain(reads: Seq<Option<FrameView>>, last: u64)
    ensures
        emitted(reads, last).len() > 0 ==> emitted(reads, last)[0].duration == duration_between(
            last,
            emitted(reads, last)[0].start_time,
        ),
        forall|k: int|
            0 < k < emitted(reads, last).len() ==> (#[trigger] emitted(reads, last)[k]).duration
                == duration_between(
                emitted(reads, last)[k - 1].start_time,
                emitted(reads, last)[k].start_time,
            ),
    decreases reads.len(),
{
    if reads.len() > 0 && reads[0] is Some {
        let head = reads[0]->0;
        let rest = reads.drop_first();
        if head.format == VideoCaptureFormat::Stats {
            lemma_durations_chain(rest, last);
        } else {
            lemma_durations_chain(rest, head.timestamp);
            let tail = emitted(rest, head.timestamp);
            let all = emitted(reads, last);
            assert(all == seq![sample_of(head, last)] + tail);
            assert forall|k: int| 0 < k < all.len() implies (#[trigger] all[k]).duration
                == duration_between(all[k - 1].start_time, all[k].start_time) by {
                assert(all[k] == tail[k - 1]);
                if k > 1 {
                    assert(all[k - 1] == tail[k - 2]);
                }
            }
        }
    }
}

/// The number of `Stats` frames among the entries of a run.
pub open spec fn stats_count(reads: Seq<Option<FrameView>>) -> nat
    decreases reads.len(),
{
    if reads.len() == 0 {
        0
    } else if is_stats(reads[0]) {
        1 + stats_count(reads.drop_first())
    } else {
        stats_count(reads.drop_first())
    }
}

/// The `Stats` frames of a run that begins with `first` of them and then has
/// an entry that is not one: those `first`, and the ones after that entry.
pub proof fn lemma_stats_count_split(reads: Seq<Option<FrameView>>, first: int)
    requires
        0 <= first < reads.len(),
        forall|m: int| 0 <= m < first ==> is_stats(#[trigger] reads[m]),
        !is_stats(reads[first]),
    ensures
        stats_count(reads) == first + stats_count(reads.skip(first + 1)),
    decreases first,
{
    let rest = reads.drop_first();
    if first == 0 {
        assert(rest =~= reads.skip(1));
    } else {
        assert(is_stats(reads[0]));
        assert forall|m: int| 0 <= m < first - 1 implies is_stats(#[trigger] rest[m]) by {
            assert(rest[m] == reads[m + 1]);
        }
        assert(rest[first - 1] == reads[first]);
        lemma_stats_count_split(rest, first - 1);
        assert(rest.skip(first) =~= reads.skip(first + 1));
    }
}

/// A run of readable entries gives one sample for each frame that is not a
/// `Stats` frame.
pub proof fn lemma_emitted_count(reads: Seq<Option<FrameView>>, last: u64)
    requires
        forall|m: int| 0 <= m < reads.len() ==> (#[trigger] reads[m]) is Some,
    ensures
        emitted(reads, last).len() == reads.len() - stats_count(reads),
    decreases reads.len(),
{
    if reads.len() > 0 {
        let rest = reads.drop_first();
        assert forall|m: int| 0 <= m < rest.len() implies (#[trigger] rest[m]) is Some by {
            assert(rest[m] == reads[m + 1]);
        }
        assert(reads[0] is Some);
        lemma_emitted_count(rest, last);
        lemma_emitted_count(rest, reads[0]->0.timestamp);
    }
}

/// No sample comes from beyond the first unreadable entry: a run gives the
/// samples of its readable head.
pub proof fn lemma_unreadable_entry_ends_stream(
    reads: Seq<Option<FrameView>>,
    last: u64,
    end: int,
)
    requires
        0 <= end < reads.len(),
        reads[end] is None,
        forall|m: int| 0 <= m < end ==> (#[trigger] reads[m]) is Some,
    ensures
        emitted(reads, last) == emitted(reads.take(end), last),
    decreases end,
{
    let head = reads.take(end);
    if end == 0 {
        assert(head.len() == 0);
    } else {
        let rest = reads.drop_first();
        assert(reads[0] is Some);
        assert(head[0] == reads[0]);
        assert(head.drop_first() =~= rest.take(end - 1));
        assert(rest[end - 1] == reads[end]);
        assert forall|m: int| 0 <= m < end - 1 implies (#[trigger] rest[m]) is Some by {
            assert(rest[m] == reads[m + 1]);
        }
        lemma_unreadable_entry_ends_stream(rest, last, end - 1);
        lemma_unreadable_entry_ends_stream(rest, reads[0]->0.timestamp, end - 1);
    }
}

/// `zerocopy::AsBytes::as_bytes` on a byte slice: the bytes of the value, which
/// for a slice of bytes are its elements in order.
#[verifier::external_body]
fn payload_bytes(data: &[u8]) -> (bytes: &[u8])
    ensures
        bytes@ == data@,
{
    zerocopy::AsBytes::as_bytes(data)
}

/// Builds the sample of one frame whose predecessor had the timestamp `last`.
pub fn frame_sample(frame: &Frame, last: u64) -> (sample: OutputSample)
    ensures
        sample@ == sample_of(frame@, last),
{
    OutputSample {
        start_time: frame.timestamp,
        duration: sample_duration(last, frame.timestamp),
        rendering_offset: 0,
        is_sync: false,
        payload: slice_to_vec(payload_bytes(frame.raw_data.as_slice())),
    }
}

/// Builds the samples of the entries from `from` on, where the frame before
/// them had the timestamp `baseline`.
pub fn build_samples(reads: &Vec<Option<Frame>>, from: usize, baseline: u64) -> (samples: Vec<
    OutputSample,
>)
    requires
        from <= reads@.len(),
    ensures
        samples_view(samples@) == emitted(reads_view(reads@).skip(from as int), baseline),
{
    let ghost content = reads_view(reads@);
    let mut samples: Vec<OutputSample> = Vec::new();
    let mut last: u64 = baseline;
    let mut i: usize = from;
    assert(samples_view(samples@) =~= Seq::<SampleView>::empty());
    while i < reads.len()
        invariant
            from <= i <= reads.len(),
            content == reads_view(reads@),
            emitted(content.skip(from as int), baseline) == samples_view(samples@) + emitted(
                content.skip(i as int),
                last,
            ),
        decreases reads.len() - i,
    {
        let ghost rest = content.skip(i as int);
        assert(rest[0] == read_view(reads@[i as int]));
        assert(rest.drop_first() =~= content.skip(i + 1));
        match &reads[i] {
            None => {
                assert(emitted(rest, last) =~= Seq::<SampleView>::empty());
                assert(samples_view(samples@) + Seq::<SampleView>::empty() =~= samples_view(
                    samples@,
                ));
                return samples;
            },
            Some(frame) => {
                if frame.format != VideoCaptureFormat::Stats {
                    let sample = frame_sample(frame, last);
                    let ghost before = samples_view(samples@);
                    samples.push(sample);
                    assert(samples_view(samples@) =~= before.push(sample_of(frame@, last)));
                    assert(before + (seq![sample_of(frame@, last)] + emitted(
                        rest.drop_first(),
                        frame.timestamp,
                    )) =~= before.push(sample_of(frame@, last)) + emitted(
                        rest.drop_first(),
                        frame.timestamp,
                    ));
                    last = frame.timestamp;
                }
            },
        }
        i += 1;
    }
    assert(emitted(content.skip(i as int), last) =~= Seq::<SampleView>::empty());
    assert(samples_view(samples@) + Seq::<SampleView>::empty() =~= samples_view(samples@));
    samples
}

} // verus!
