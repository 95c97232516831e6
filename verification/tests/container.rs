use std::io::Cursor;

use vraw_convert::convert::convert_vraw_to_mp4;
use vraw_convert::error::ConversionError;
use vraw_convert::frame::{Frame, VideoCaptureFormat};
use vraw_convert::mux::{at_stage, standard_config, write_container};
use vraw_convert::plan::ConversionPlan;
use vraw_convert::sample::OutputSample;
use vraw_convert::track::TrackConfiguration;

fn frame(format: VideoCaptureFormat, timestamp: u64, raw_data: &[u8]) -> Option<Frame> {
    Some(Frame { format, timestamp, raw_data: raw_data.to_vec() })
}

fn sample(duration: u32, payload: &[u8]) -> OutputSample {
    OutputSample {
        start_time: 0,
        duration,
        rendering_offset: 0,
        is_sync: false,
        payload: payload.to_vec(),
    }
}

fn open(bytes: &[u8]) -> mp4::Mp4Reader<Cursor<Vec<u8>>> {
    mp4::Mp4Reader::read_header(Cursor::new(bytes.to_vec()), bytes.len() as u64).unwrap()
}

#[test]
fn empty_index_fails_before_any_muxing() {
    assert_eq!(convert_vraw_to_mp4(&Vec::new()), Err(ConversionError::EmptyIndex));
}

#[test]
fn capture_without_video_gives_no_container() {
    let stats = vec![frame(VideoCaptureFormat::Stats, 1, &[1])];
    assert_eq!(convert_vraw_to_mp4(&stats), Err(ConversionError::NoVideoTrackFound));
    let other = vec![
        frame(VideoCaptureFormat::Stats, 1, &[1]),
        frame(VideoCaptureFormat::Other, 2, &[2]),
    ];
    assert_eq!(convert_vraw_to_mp4(&other), Err(ConversionError::UnsupportedFormat));
    let unreadable = vec![None];
    assert_eq!(convert_vraw_to_mp4(&unreadable), Err(ConversionError::FrameRead));
}

#[test]
fn example_capture_gives_one_hevc_track_with_two_samples() {
    let reads = vec![
        frame(VideoCaptureFormat::H265, 0, &[1, 2, 3]),
        frame(VideoCaptureFormat::Stats, 5, &[9]),
        frame(VideoCaptureFormat::H265, 1000, &[4, 5]),
        frame(VideoCaptureFormat::H265, 2000, &[6]),
    ];
    let bytes = convert_vraw_to_mp4(&reads).unwrap();
    let mut container = open(&bytes);
    assert_eq!(container.tracks().len(), 1);
    let track = container.tracks().get(&1).unwrap();
    assert_eq!(track.media_type().unwrap(), mp4::MediaType::H265);
    assert_eq!(track.sample_count(), 2);
    let first = container.read_sample(1, 1).unwrap().unwrap();
    assert_eq!(first.duration, 0);
    assert_eq!(first.bytes.to_vec(), vec![4, 5]);
    let second = container.read_sample(1, 2).unwrap().unwrap();
    assert_eq!(second.bytes.to_vec(), vec![6]);
}

#[test]
fn container_has_the_standard_settings() {
    let reads = vec![
        frame(VideoCaptureFormat::H265, 0, &[1]),
        frame(VideoCaptureFormat::H265, 40_000_000, &[2]),
    ];
    let bytes = convert_vraw_to_mp4(&reads).unwrap();
    let container = open(&bytes);
    assert_eq!(container.major_brand().to_string(), "isom");
    assert_eq!(container.minor_version(), 512);
    let brands: Vec<String> = container.compatible_brands().iter().map(|b| b.to_string()).collect();
    assert_eq!(brands, vec!["isom", "iso2", "avc1", "mp41", "hev1"]);
    assert_eq!(container.timescale(), 1000);
    let config = standard_config();
    assert_eq!(&config.major_brand, b"isom");
    assert_eq!(config.minor_version, 512);
    assert_eq!(config.compatible_brands, vec![*b"isom", *b"iso2", *b"avc1", *b"mp41", *b"hev1"]);
    assert_eq!(config.timescale, 1000);
}

#[test]
fn h264_capture_gives_an_avc_track() {
    let reads = vec![
        frame(VideoCaptureFormat::Stats, 0, &[0]),
        frame(VideoCaptureFormat::H264, 1_000_000, &[1]),
        frame(VideoCaptureFormat::H264, 34_000_000, &[2, 2]),
        frame(VideoCaptureFormat::H264, 67_000_000, &[3, 3, 3]),
    ];
    let bytes = convert_vraw_to_mp4(&reads).unwrap();
    let mut container = open(&bytes);
    assert_eq!(container.tracks().len(), 1);
    let track = container.tracks().get(&1).unwrap();
    assert_eq!(track.media_type().unwrap(), mp4::MediaType::H264);
    assert_eq!(track.sample_count(), 2);
    let first = container.read_sample(1, 1).unwrap().unwrap();
    assert_eq!(first.start_time, 0);
    assert_eq!(first.duration, 33);
    assert_eq!(first.bytes.to_vec(), vec![2, 2]);
    let second = container.read_sample(1, 2).unwrap().unwrap();
    assert_eq!(second.start_time, 33);
    assert_eq!(second.duration, 33);
    assert_eq!(second.bytes.to_vec(), vec![3, 3, 3]);
}

#[test]
fn capture_of_one_video_frame_gives_a_track_without_samples() {
    let reads = vec![frame(VideoCaptureFormat::H265, 0, &[1, 2, 3])];
    let bytes = convert_vraw_to_mp4(&reads).unwrap();
    let container = open(&bytes);
    assert_eq!(container.tracks().len(), 1);
    assert_eq!(container.tracks().get(&1).unwrap().sample_count(), 0);
}

#[test]
fn conversion_is_repeatable() {
    let reads = vec![
        frame(VideoCaptureFormat::H265, 0, &[1, 2, 3]),
        frame(VideoCaptureFormat::H265, 33_000_000, &[4, 5]),
        frame(VideoCaptureFormat::Stats, 40_000_000, &[0]),
        frame(VideoCaptureFormat::H265, 66_000_000, &[6]),
    ];
    let first = convert_vraw_to_mp4(&reads).unwrap();
    let second = convert_vraw_to_mp4(&reads).unwrap();
    assert_eq!(first, second);
    assert!(!first.is_empty());
}

#[test]
fn start_times_do_not_enter_the_container() {
    let early = ConversionPlan {
        track: TrackConfiguration::Hevc,
        samples: vec![OutputSample { start_time: 10, ..sample(5, &[1]) }],
    };
    let late = ConversionPlan {
        track: TrackConfiguration::Hevc,
        samples: vec![OutputSample { start_time: 99, ..sample(5, &[1]) }],
    };
    assert_eq!(write_container(&early).unwrap(), write_container(&late).unwrap());
    let longer = ConversionPlan {
        track: TrackConfiguration::Hevc,
        samples: vec![OutputSample { start_time: 10, ..sample(6, &[1]) }],
    };
    assert_ne!(write_container(&early).unwrap(), write_container(&longer).unwrap());
}

#[test]
fn samples_spread_over_several_chunks_come_back_in_order() {
    let mut samples = Vec::new();
    for i in 0..50u8 {
        samples.push(sample(400, &[i, i, i]));
    }
    let plan = ConversionPlan { track: TrackConfiguration::Hevc, samples };
    let bytes = write_container(&plan).unwrap();
    let mut container = open(&bytes);
    assert_eq!(container.tracks().get(&1).unwrap().sample_count(), 50);
    for i in 0..50u8 {
        let read = container.read_sample(1, i as u32 + 1).unwrap().unwrap();
        assert_eq!(read.bytes.to_vec(), vec![i, i, i]);
        assert_eq!(read.duration, 400);
        assert_eq!(read.start_time, 400 * i as u64);
    }
}

#[test]
fn avc_track_with_a_short_parameter_set_is_refused() {
    let plan = ConversionPlan {
        track: TrackConfiguration::Avc {
            width: 0,
            height: 0,
            seq_param_set: vec![0, 0, 1],
            pic_param_set: vec![],
        },
        samples: Vec::new(),
    };
    assert_eq!(write_container(&plan), Err(ConversionError::MuxAddTrack));
}

#[test]
fn durations_beyond_the_room_of_a_chunk_are_refused() {
    let plan = ConversionPlan {
        track: TrackConfiguration::Hevc,
        samples: vec![sample(u32::MAX, &[]), sample(1, &[1])],
    };
    assert_eq!(write_container(&plan), Err(ConversionError::MuxWrite));
    let closed = ConversionPlan {
        track: TrackConfiguration::Hevc,
        samples: vec![sample(u32::MAX, &[1]), sample(u32::MAX, &[2])],
    };
    let bytes = write_container(&closed).unwrap();
    assert_eq!(open(&bytes).tracks().get(&1).unwrap().sample_count(), 2);
}

#[test]
fn muxer_failures_take_the_name_of_their_stage() {
    let failed: Result<u8, mp4::Error> = Err(mp4::Error::TrakNotFound(1));
    assert_eq!(at_stage(failed, ConversionError::MuxWrite), Err(ConversionError::MuxWrite));
    let passed: Result<u8, mp4::Error> = Ok(7);
    assert_eq!(at_stage(passed, ConversionError::MuxWrite), Ok(7));
}

#[test]
fn every_failure_has_its_message() {
    assert_eq!(ConversionError::InputOpen.message(), "vraw_convert: failed to open file");
    assert_eq!(ConversionError::IndexRead.message(), "vraw_convert: failed to read index");
    assert_eq!(ConversionError::EmptyIndex.message(), "vraw_convert: index contains no frames");
    assert_eq!(ConversionError::FrameRead.message(), "vraw_convert: unable to read frame");
    assert_eq!(ConversionError::NoVideoTrackFound.message(), "vraw_convert: no video track found");
    assert_eq!(ConversionError::UnsupportedFormat.message(), "VideoCaptureFormat not supported");
    assert_eq!(ConversionError::OutputCreate.message(), "vraw_convert: file creation failed");
    assert_eq!(ConversionError::MuxStart.message(), "vraw_convert: failed to start writing mp4");
    assert_eq!(ConversionError::MuxAddTrack.message(), "vraw_convert: failed to add mp4 track");
    assert_eq!(ConversionError::MuxWrite.message(), "vraw_convert: failed to write sample");
    assert_eq!(ConversionError::MuxFinalize.message(), "vraw_convert: failed to end mp4 writing");
}
