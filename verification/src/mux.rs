//! Muxing: track and samples go to the `mp4` writer, which builds the
//! container in memory.
//!
//! The writer is an outside type, so the library speaks of it through a model:
//! the settings it was started with and, for each of its tracks, the samples it
//! has taken and the chunk it is gathering. The functions of this module that
//! call the writer are trusted to change the model as their contracts say; the
//! rest is proved from those contracts.

use vstd::prelude::*;
use crate::error::ConversionError;
use crate::plan::{ConversionPlan, PlanView};
use crate::sample::{OutputSample, SampleView, samples_view};
use crate::track::{TrackConfiguration, TrackView};

verus! {

/// The writer of the `mp4` crate, generic in the byte sink it writes to.
#[verifier::external_type_specification]
#[verifier::external_body]
#[verifier::reject_recursive_types(W)]
pub struct ExMp4Writer<W>(mp4::Mp4Writer<W>);

/// The in-memory byte sink of the standard library.
#[verifier::external_type_specification]
#[verifier::external_body]
#[verifier::reject_recursive_types(T)]
pub struct ExCursor<T>(std::io::Cursor<T>);

/// The error type of the `mp4` crate.
#[verifier::external_type_specification]
#[verifier::external_body]
pub struct ExMuxError(mp4::Error);

/// Ticks of the track's timescale after which the writer closes a chunk: one
/// second of the timescale that the `mp4` crate gives every track.
pub const CHUNK_SPAN: u32 = 1000;

/// The last sample count at which the writer can still take a sample: it
/// numbers samples from 1 in 32 bits, one ahead of the samples it holds.
pub const SAMPLE_ROOM: usize = 0xffff_fffd;

/// Container-level settings: brands and the movie timescale.
#[derive(Clone, Debug, PartialEq, Eq)]
pub struct ContainerConfig {
    pub major_brand: [u8; 4],
    pub minor_version: u32,
    pub compatible_brands: Vec<[u8; 4]>,
    pub timescale: u32,
}

/// The mathematical content of a [`ContainerConfig`].
pub ghost struct ContainerView {
    pub major_brand: Seq<u8>,
    pub minor_version: u32,
    pub compatible_brands: Seq<Seq<u8>>,
    pub timescale: u32,
}

impl View for ContainerConfig {
    type V = ContainerView;

    open spec fn view(&self) -> ContainerView {
        ContainerView {
            major_brand: self.major_brand@,
            minor_version: self.minor_version,
            compatible_brands: Seq::new(
                self.compatible_brands@.len(),
                |i: int| self.compatible_brands@[i]@,
            ),
            timescale: self.timescale,
        }
    }
}

/// The brand `isom`.
pub open spec fn brand_isom() -> Seq<u8> {
    seq![0x69u8, 0x73u8, 0x6fu8, 0x6du8]
}

/// The brand `iso2`.
pub open spec fn brand_iso2() -> Seq<u8> {
    seq![0x69u8, 0x73u8, 0x6fu8, 0x32u8]
}

/// The brand `avc1`.
pub open spec fn brand_avc1() -> Seq<u8> {
    seq![0x61u8, 0x76u8, 0x63u8, 0x31u8]
}

/// The brand `mp41`.
pub open spec fn brand_mp41() -> Seq<u8> {
    seq![0x6du8, 0x70u8, 0x34u8, 0x31u8]
}

/// The brand `hev1`.
pub open spec fn brand_hev1() -> Seq<u8> {
    seq![0x68u8, 0x65u8, 0x76u8, 0x31u8]
}

/// The settings of every container this library writes: major brand `isom`,
/// minor version 512, compatible brands `isom`, `iso2`, `avc1`, `mp41`, `hev1`,
/// and a timescale of 1000, so that durations are milliseconds.
pub open spec fn standard_container() -> ContainerView {
    ContainerView {
        major_brand: brand_isom(),
        minor_version: 512,
        compatible_brands: seq![
            brand_isom(),
            brand_iso2(),
            brand_avc1(),
            brand_mp41(),
            brand_hev1(),
        ],
        timescale: 1000,
    }
}

/// The settings of every container this library writes.
pub fn standard_config() -> (config: ContainerConfig)
    ensures
        config@ == standard_container(),
{
    let isom: [u8; 4] = [0x69u8, 0x73u8, 0x6fu8, 0x6du8];
    let iso2: [u8; 4] = [0x69u8, 0x73u8, 0x6fu8, 0x32u8];
    let avc1: [u8; 4] = [0x61u8, 0x76u8, 0x63u8, 0x31u8];
    let mp41: [u8; 4] = [0x6du8, 0x70u8, 0x34u8, 0x31u8];
    let hev1: [u8; 4] = [0x68u8, 0x65u8, 0x76u8, 0x31u8];
    assert(isom@ =~= brand_isom());
    assert(iso2@ =~= brand_iso2());
    assert(avc1@ =~= brand_avc1());
    assert(mp41@ =~= brand_mp41());
    assert(hev1@ =~= brand_hev1());
    let compatible_brands: Vec<[u8; 4]> = vec![isom, iso2, avc1, mp41, hev1];
    let config = ContainerConfig {
        major_brand: isom,
        minor_version: 512,
        compatible_brands,
        timescale: 1000,
    };
    assert(config@.compatible_brands =~= standard_container().compatible_brands);
    config
}

/// What the writer keeps of a sample. The start time is not among it: the
/// container gives each sample the sum of the durations before it.
pub ghost struct MuxedSample {
    pub duration: u32,
    pub rendering_offset: i32,
    pub is_sync: bool,
    pub payload: Seq<u8>,
}

/// What the writer keeps of a sample of the library.
pub open spec fn muxed_sample(sample: SampleView) -> MuxedSample {
    MuxedSample {
        duration: sample.duration,
        rendering_offset: sample.rendering_offset,
        is_sync: sample.is_sync,
        payload: sample.payload,
    }
}

/// What the writer keeps of each sample of a list.
pub open spec fn muxed_samples(samples: Seq<SampleView>) -> Seq<MuxedSample> {
    Seq::new(samples.len(), |i: int| muxed_sample(samples[i]))
}

/// One track of the writer: its configuration, the samples it has taken, and
/// the chunk it is gathering, by the sum of that chunk's durations and by
/// whether the chunk has any payload byte yet.
pub ghost struct MuxedTrack {
    pub config: TrackView,
    pub samples: Seq<MuxedSample>,
    pub open_duration: nat,
    pub open_payload: bool,
}

impl MuxedTrack {
    /// A track that has taken no sample.
    pub open spec fn fresh(config: TrackView) -> MuxedTrack {
        MuxedTrack { config, samples: Seq::empty(), open_duration: 0, open_payload: false }
    }

    /// The writer's 32-bit counters have room for the sample: the count of
    /// samples, and the sum of the durations of the chunk being gathered.
    pub open spec fn accepts(self, sample: MuxedSample) -> bool {
        &&& self.samples.len() <= SAMPLE_ROOM
        &&& self.open_duration + sample.duration <= u32::MAX
    }

    /// The track after one more sample. The sample joins the chunk being
    /// gathered; the chunk is closed, and a new one begun, once it spans
    /// `CHUNK_SPAN` and holds a payload byte.
    pub open spec fn with(self, sample: MuxedSample) -> MuxedTrack {
        let duration = self.open_duration + sample.duration as nat;
        let payload = self.open_payload || sample.payload.len() > 0;
        let closes = duration >= CHUNK_SPAN && payload;
        MuxedTrack {
            config: self.config,
            samples: self.samples.push(sample),
            open_duration: if closes {
                0
            } else {
                duration
            },
            open_payload: !closes && payload,
        }
    }

    /// The track after the samples of a list, in order.
    pub open spec fn with_all(self, samples: Seq<MuxedSample>) -> MuxedTrack
        decreases samples.len(),
    {
        if samples.len() == 0 {
            self
        } else {
            self.with_all(samples.drop_last()).with(samples.last())
        }
    }
}

/// A track that takes a list of samples keeps its configuration and holds the
/// samples it had, then those of the list in order.
pub proof fn lemma_with_all(track: MuxedTrack, samples: Seq<MuxedSample>)
    ensures
        track.with_all(samples).config == track.config,
        track.with_all(samples).samples == track.samples + samples,
    decreases samples.len(),
{
    if samples.len() > 0 {
        lemma_with_all(track, samples.drop_last());
        assert(track.samples + samples =~= (track.samples + samples.drop_last()).push(
            samples.last(),
        ));
    } else {
        assert(track.samples + samples =~= track.samples);
    }
}

/// The writer takes the track: an AVC track needs a sequence parameter set of
/// at least four bytes, from which the writer reads profile and level.
pub open spec fn track_fits(track: TrackView) -> bool {
    track matches TrackView::Avc { seq_param_set, .. } ==> seq_param_set.len() >= 4
}

/// The settings that a writer was started with.
pub uninterp spec fn muxer_config(w: mp4::Mp4Writer<std::io::Cursor<Vec<u8>>>) -> ContainerView;

/// The tracks of a writer, in the order in which they were added.
pub uninterp spec fn muxer_tracks(w: mp4::Mp4Writer<std::io::Cursor<Vec<u8>>>) -> Seq<MuxedTrack>;

/// Whether `mp4::Mp4Writer::write_start` succeeds with the given settings on
/// an empty in-memory sink.
pub uninterp spec fn writer_starts(config: ContainerView) -> bool;

/// Whether `mp4::Mp4Writer::write_sample` succeeds for a writer with the given
/// settings and tracks, a number of one of its tracks, and a sample. The writer
/// itself refuses no sample of a track it has; a sample that closes a chunk
/// sends the chunk to the sink, whose answer the writer passes on.
pub uninterp spec fn sample_lands(
    config: ContainerView,
    tracks: Seq<MuxedTrack>,
    track_id: int,
    sample: MuxedSample,
) -> bool;

/// The bytes of the container that `mp4::Mp4Writer::write_end` completes for a
/// writer with the given settings and tracks; `None` where it fails.
pub uninterp spec fn container_image(config: ContainerView, tracks: Seq<MuxedTrack>) -> Option<
    Seq<u8>,
>;

/// `mp4::Mp4Writer::write_start` on an empty in-memory sink. Whether it
/// succeeds depends on the settings alone. Where it does, the writer has the
/// given settings and no track.
#[verifier::external_body]
fn start_muxer(config: &ContainerConfig) -> (r: Result<
    mp4::Mp4Writer<std::io::Cursor<Vec<u8>>>,
    mp4::Error,
>)
    ensures
        r is Ok <==> writer_starts(config@),
        r matches Ok(w) ==> muxer_config(w) == config@,
        r matches Ok(w) ==> muxer_tracks(w) == Seq::<MuxedTrack>::empty(),
{
    let brands = config.compatible_brands.iter().copied().map(mp4::FourCC::from).collect();
    let settings = mp4::Mp4Config {
        major_brand: mp4::FourCC::from(config.major_brand),
        minor_version: config.minor_version,
        compatible_brands: brands,
        timescale: config.timescale,
    };
    mp4::Mp4Writer::write_start(std::io::Cursor::new(Vec::new()), &settings)
}

/// `mp4::Mp4Writer::add_track`, with the track configuration that
/// `mp4::TrackConfig::from` makes of the media configuration. It builds the
/// track in memory and has no way to fail; afterwards the writer has one more
/// track, which has taken no sample. The writer indexes into the sequence
/// parameter set of an AVC track, so that set must have four bytes.
#[verifier::external_body]
fn add_track(w: &mut mp4::Mp4Writer<std::io::Cursor<Vec<u8>>>, track: &TrackConfiguration) -> (r:
    Result<(), mp4::Error>)
    requires
        track_fits(track@),
    ensures
        r is Ok,
        muxer_config(*final(w)) == muxer_config(*old(w)),
        muxer_tracks(*final(w)) == muxer_tracks(*old(w)).push(MuxedTrack::fresh(track@)),
{
    let media = match track {
        TrackConfiguration::Hevc => mp4::MediaConfig::HevcConfig(mp4::HevcConfig::default()),
        TrackConfiguration::Avc { width, height, seq_param_set, pic_param_set } => {
            mp4::MediaConfig::AvcConfig(mp4::AvcConfig {
                width: *width,
                height: *height,
                seq_param_set: seq_param_set.clone(),
                pic_param_set: pic_param_set.clone(),
            })
        },
    };
    w.add_track(&mp4::TrackConfig::from(media))
}

/// `mp4::Mp4Writer::write_sample`. It succeeds where the track with that
/// number exists and the sample lands; the track has then taken the sample.
/// The writer adds the duration to the 32-bit sum of the chunk being gathered
/// and counts samples in 32 bits, so the track must have room for the sample;
/// it scales durations by the movie timescale over the track's 1000 in 64 bits,
/// so the movie timescale must not exceed that.
#[verifier::external_body]
fn write_sample(
    w: &mut mp4::Mp4Writer<std::io::Cursor<Vec<u8>>>,
    track_id: u32,
    sample: &OutputSample,
) -> (r: Result<(), mp4::Error>)
    requires
        muxer_config(*old(w)).timescale <= 1000,
        1 <= track_id <= muxer_tracks(*old(w)).len() ==> muxer_tracks(*old(w))[track_id
            - 1].accepts(muxed_sample(sample@)),
    ensures
        muxer_config(*final(w)) == muxer_config(*old(w)),
        r is Ok <==> 1 <= track_id <= muxer_tracks(*old(w)).len() && sample_lands(
            muxer_config(*old(w)),
            muxer_tracks(*old(w)),
            track_id as int,
            muxed_sample(sample@),
        ),
        r is Ok ==> muxer_tracks(*final(w)) == muxer_tracks(*old(w)).update(
            track_id - 1,
            muxer_tracks(*old(w))[track_id - 1].with(muxed_sample(sample@)),
        ),
{
    let timed = mp4::Mp4Sample {
        start_time: sample.start_time,
        duration: sample.duration,
        rendering_offset: sample.rendering_offset,
        is_sync: sample.is_sync,
        bytes: mp4::Bytes::copy_from_slice(&sample.payload),
    };
    w.write_sample(track_id, &timed)
}

/// `mp4::Mp4Writer::write_end`, then `into_writer` and the sink's
/// `into_inner` for the bytes, on a writer with one track. Whether it succeeds,
/// and with which bytes, depends on the writer's settings and on what its track
/// has taken. With several tracks the bytes would also depend on the order in
/// which their chunks reached the sink, which the model does not keep.
#[verifier::external_body]
fn finish_muxer(w: mp4::Mp4Writer<std::io::Cursor<Vec<u8>>>) -> (r: Result<Vec<u8>, mp4::Error>)
    requires
        muxer_tracks(w).len() == 1,
    ensures
        r matches Ok(bytes) ==> container_image(muxer_config(w), muxer_tracks(w)) == Some(bytes@),
        r is Err ==> container_image(muxer_config(w), muxer_tracks(w)) is None,
{
    let mut w = w;
    match w.write_end() {
        Ok(()) => Ok(w.into_writer().into_inner()),
        Err(e) => Err(e),
    }
}

/// Names the stage at which the muxer failed: a success passes through, and
/// any failure of the muxer becomes the failure of that stage.
pub fn at_stage<T>(outcome: Result<T, mp4::Error>, stage: ConversionError) -> (r: Result<
    T,
    ConversionError,
>)
    ensures
        outcome matches Ok(value) ==> (r matches Ok(passed) && passed == value),
        outcome is Err ==> (r matches Err(error) && error == stage),
{
    match outcome {
        Ok(value) => Ok(value),
        Err(_) => Err(stage),
    }
}

/// The writer of a container with the standard settings takes the sample into
/// its one track: the track has room for it, and the sample lands.
pub open spec fn writer_takes(track: MuxedTrack, sample: MuxedSample) -> bool {
    &&& track.accepts(sample)
    &&& sample_lands(standard_container(), seq![track], 1, sample)
}

/// The writer takes every sample of a list, each in its turn.
pub open spec fn takes_all(track: MuxedTrack, samples: Seq<MuxedSample>) -> bool {
    forall|k: int|
        0 <= k < samples.len() ==> writer_takes(
            #[trigger] track.with_all(samples.take(k)),
            samples[k],
        )
}

/// The track of a plan once the writer has taken every sample of the plan.
pub open spec fn written_track(plan: PlanView) -> MuxedTrack {
    MuxedTrack::fresh(plan.track).with_all(muxed_samples(plan.samples))
}

/// What muxing a plan comes to. The run fails at the first stage that does
/// not succeed: the start of the writer, the track, the samples, the end of the
/// container. Where all succeed, the result is the container of the standard
/// settings and one track, which has taken the samples of the plan in order.
pub open spec fn muxed(plan: PlanView) -> Result<Seq<u8>, ConversionError> {
    if !writer_starts(standard_container()) {
        Err(ConversionError::MuxStart)
    } else if !track_fits(plan.track) {
        Err(ConversionError::MuxAddTrack)
    } else if !takes_all(MuxedTrack::fresh(plan.track), muxed_samples(plan.samples)) {
        Err(ConversionError::MuxWrite)
    } else {
        match container_image(standard_container(), seq![written_track(plan)]) {
            Some(bytes) => Ok(bytes),
            None => Err(ConversionError::MuxFinalize),
        }
    }
}

/// The view of the result of muxing.
pub open spec fn bytes_view(r: Result<Vec<u8>, ConversionError>) -> Result<
    Seq<u8>,
    ConversionError,
> {
    match r {
        Ok(bytes) => Ok(bytes@),
        Err(error) => Err(error),
    }
}

/// Writes the container of a plan into memory: starts the writer with the
/// standard settings, adds the track, writes every sample to track 1 in order,
/// and completes the container. A track or a sample for which the writer has
/// no room is not handed to it: the run fails at that stage instead.
pub fn write_container(plan: &ConversionPlan) -> (r: Result<Vec<u8>, ConversionError>)
    ensures
        bytes_view(r) == muxed(plan@),
{
    let config = standard_config();
    let mut w = match at_stage(start_muxer(&config), ConversionError::MuxStart) {
        Ok(w) => w,
        Err(error) => {
            return Err(error);
        },
    };
    let fits = match &plan.track {
        TrackConfiguration::Hevc => true,
        TrackConfiguration::Avc { seq_param_set, .. } => seq_param_set.len() >= 4,
    };
    if !fits {
        return Err(ConversionError::MuxAddTrack);
    }
    match at_stage(add_track(&mut w, &plan.track), ConversionError::MuxAddTrack) {
        Ok(()) => {},
        Err(error) => {
            return Err(error);
        },
    }
    let ghost start = MuxedTrack::fresh(plan.track@);
    let ghost samples = muxed_samples(samples_view(plan.samples@));
    let mut open_duration: u32 = 0;
    let mut open_payload: bool = false;
    let mut i: usize = 0;
    assert(samples.take(0) =~= Seq::<MuxedSample>::empty());
    assert(muxer_tracks(w) =~= seq![start.with_all(samples.take(0))]);
    while i < plan.samples.len()
        invariant
            i <= plan.samples.len(),
            start == MuxedTrack::fresh(plan.track@),
            samples == muxed_samples(samples_view(plan.samples@)),
            track_fits(plan.track@),
            writer_starts(standard_container()),
            muxer_config(w) == standard_container(),
            muxer_tracks(w) == seq![start.with_all(samples.take(i as int))],
            start.with_all(samples.take(i as int)).samples.len() == i,
            start.with_all(samples.take(i as int)).open_duration == open_duration,
            start.with_all(samples.take(i as int)).open_payload == open_payload,
            forall|k: int|
                0 <= k < i ==> writer_takes(
                    #[trigger] start.with_all(samples.take(k)),
                    samples[k],
                ),
        decreases plan.samples.len() - i,
    {
        let sample = &plan.samples[i];
        let ghost track = start.with_all(samples.take(i as int));
        let ghost taken = muxed_sample(sample@);
        assert(samples[i as int] == taken);
        let total: u64 = open_duration as u64 + sample.duration as u64;
        if i > SAMPLE_ROOM || total > 0xffff_ffff {
            assert(!writer_takes(track, taken));
            return Err(ConversionError::MuxWrite);
        }
        match at_stage(write_sample(&mut w, 1, sample), ConversionError::MuxWrite) {
            Ok(()) => {},
            Err(error) => {
                assert(!writer_takes(track, taken));
                return Err(error);
            },
        }
        proof {
            let next = samples.take(i + 1);
            assert(next.drop_last() =~= samples.take(i as int));
            assert(next.last() == taken);
            assert(start.with_all(next) == track.with(taken));
            assert(muxer_tracks(w) =~= seq![start.with_all(next)]);
            assert(writer_takes(track, taken));
        }
        let payload = open_payload || sample.payload.len() > 0;
        if total >= CHUNK_SPAN as u64 && payload {
            open_duration = 0;
            open_payload = false;
        } else {
            open_duration = total as u32;
            open_payload = payload;
        }
        i += 1;
    }
    assert(samples.take(i as int) =~= samples);
    at_stage(finish_muxer(w), ConversionError::MuxFinalize)
}

} // verus!
