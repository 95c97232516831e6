use vraw_convert::error::ConversionError;
use vraw_convert::frame::{Frame, VideoCaptureFormat};
use vraw_convert::plan::plan_conversion;
use vraw_convert::sample::{build_samples, frame_sample, OutputSample};
use vraw_convert::timing::sample_duration;
use vraw_convert::track::{
    placeholder_avc_track, scan_frame, select_track, ScanState, TrackConfiguration,
};

fn frame(format: VideoCaptureFormat, timestamp: u64, raw_data: &[u8]) -> Option<Frame> {
    Some(Frame { format, timestamp, raw_data: raw_data.to_vec() })
}

fn example_capture() -> Vec<Option<Frame>> {
    vec![
        frame(VideoCaptureFormat::H265, 0, &[1, 2, 3]),
        frame(VideoCaptureFormat::Stats, 5, &[9]),
        frame(VideoCaptureFormat::H265, 1000, &[4, 5]),
        frame(VideoCaptureFormat::H265, 2000, &[6]),
    ]
}

#[test]
fn duration_rounds_to_the_nearest_millisecond() {
    assert_eq!(sample_duration(0, 0), 0);
    assert_eq!(sample_duration(0, 499_999), 0);
    assert_eq!(sample_duration(0, 500_000), 1);
    assert_eq!(sample_duration(0, 1_000_000), 1);
    assert_eq!(sample_duration(0, 1_499_999), 1);
    assert_eq!(sample_duration(0, 1_500_000), 2);
    assert_eq!(sample_duration(1000, 2000), 0);
    assert_eq!(sample_duration(7_000_000, 40_000_000), 33);
}

#[test]
fn duration_of_a_clock_that_steps_back_is_zero() {
    assert_eq!(sample_duration(5, 3), 0);
    assert_eq!(sample_duration(u64::MAX, 0), 0);
}

#[test]
fn duration_saturates() {
    assert_eq!(sample_duration(0, u64::MAX), u32::MAX);
    assert_eq!(sample_duration(0, 4_294_967_295_000_000), u32::MAX);
    assert_eq!(sample_duration(0, 4_294_967_294_499_999), 4_294_967_294);
    assert_eq!(sample_duration(0, 4_294_967_294_500_000), u32::MAX);
}

#[test]
fn scan_goes_on_past_stats() {
    assert_eq!(scan_frame(&frame(VideoCaptureFormat::Stats, 7, &[])), ScanState::Scanning);
}

#[test]
fn scan_chooses_hevc_at_h265() {
    assert_eq!(
        scan_frame(&frame(VideoCaptureFormat::H265, 7, &[])),
        ScanState::TrackChosen { track: TrackConfiguration::Hevc, baseline: 7 }
    );
}

#[test]
fn scan_chooses_placeholder_avc_at_h264() {
    let expected = TrackConfiguration::Avc {
        width: 0,
        height: 0,
        seq_param_set: vec![0x00, 0x00, 0x00, 0x01, 0x67, 0x42, 0x00, 0x0a, 0xf8, 0x41, 0xa2],
        pic_param_set: vec![0x00, 0x00, 0x00, 0x01, 0x68, 0xce, 0x38, 0x80],
    };
    assert_eq!(placeholder_avc_track(), expected);
    assert_eq!(
        scan_frame(&frame(VideoCaptureFormat::H264, 11, &[])),
        ScanState::TrackChosen { track: expected, baseline: 11 }
    );
}

#[test]
fn scan_gives_up_at_other_formats_and_unreadable_entries() {
    assert_eq!(
        scan_frame(&frame(VideoCaptureFormat::Other, 7, &[])),
        ScanState::Aborted { error: ConversionError::UnsupportedFormat }
    );
    assert_eq!(scan_frame(&None), ScanState::Aborted { error: ConversionError::FrameRead });
}

#[test]
fn selection_skips_leading_stats() {
    let reads = vec![
        frame(VideoCaptureFormat::Stats, 1, &[]),
        frame(VideoCaptureFormat::Stats, 2, &[]),
        frame(VideoCaptureFormat::H264, 30, &[1]),
        frame(VideoCaptureFormat::H265, 40, &[2]),
    ];
    let selection = select_track(&reads).unwrap();
    assert_eq!(selection.index, 2);
    assert_eq!(selection.baseline, 30);
    assert_eq!(selection.track, placeholder_avc_track());
}

#[test]
fn empty_index_has_no_plan() {
    assert_eq!(plan_conversion(&Vec::new()), Err(ConversionError::EmptyIndex));
    assert_eq!(select_track(&Vec::new()), Err(ConversionError::EmptyIndex));
}

#[test]
fn stats_alone_find_no_video_track() {
    let reads = vec![
        frame(VideoCaptureFormat::Stats, 1, &[]),
        frame(VideoCaptureFormat::Stats, 2, &[]),
    ];
    assert_eq!(plan_conversion(&reads), Err(ConversionError::NoVideoTrackFound));
}

#[test]
fn unsupported_format_before_video_is_refused() {
    let reads = vec![
        frame(VideoCaptureFormat::Stats, 1, &[]),
        frame(VideoCaptureFormat::Other, 2, &[]),
        frame(VideoCaptureFormat::H265, 3, &[]),
    ];
    assert_eq!(plan_conversion(&reads), Err(ConversionError::UnsupportedFormat));
}

#[test]
fn unreadable_entry_before_video_is_a_failure() {
    let reads = vec![
        frame(VideoCaptureFormat::Stats, 1, &[]),
        None,
        frame(VideoCaptureFormat::H265, 3, &[]),
    ];
    assert_eq!(plan_conversion(&reads), Err(ConversionError::FrameRead));
}

#[test]
fn example_capture_plans_two_samples() {
    let plan = plan_conversion(&example_capture()).unwrap();
    assert_eq!(plan.track, TrackConfiguration::Hevc);
    assert_eq!(
        plan.samples,
        vec![
            OutputSample {
                start_time: 1000,
                duration: 0,
                rendering_offset: 0,
                is_sync: false,
                payload: vec![4, 5],
            },
            OutputSample {
                start_time: 2000,
                duration: 0,
                rendering_offset: 0,
                is_sync: false,
                payload: vec![6],
            },
        ]
    );
}

#[test]
fn sample_count_leaves_out_stats_and_the_chosen_frame() {
    let reads = vec![
        frame(VideoCaptureFormat::Stats, 0, &[]),
        frame(VideoCaptureFormat::H264, 10, &[1]),
        frame(VideoCaptureFormat::H264, 20, &[2]),
        frame(VideoCaptureFormat::Stats, 25, &[]),
        frame(VideoCaptureFormat::Other, 30, &[3]),
        frame(VideoCaptureFormat::H265, 40, &[4]),
        frame(VideoCaptureFormat::Stats, 45, &[]),
    ];
    let plan = plan_conversion(&reads).unwrap();
    assert_eq!(plan.samples.len(), 7 - 3 - 1);
    let starts: Vec<u64> = plan.samples.iter().map(|s| s.start_time).collect();
    assert_eq!(starts, vec![20, 30, 40]);
}

#[test]
fn durations_follow_consecutive_timestamps() {
    let reads = vec![
        frame(VideoCaptureFormat::H265, 1_000_000, &[0]),
        frame(VideoCaptureFormat::H265, 34_000_000, &[1]),
        frame(VideoCaptureFormat::Stats, 50_000_000, &[2]),
        frame(VideoCaptureFormat::H265, 67_600_000, &[3]),
        frame(VideoCaptureFormat::H265, 67_600_000, &[4]),
        frame(VideoCaptureFormat::H265, 60_000_000, &[5]),
    ];
    let plan = plan_conversion(&reads).unwrap();
    let durations: Vec<u32> = plan.samples.iter().map(|s| s.duration).collect();
    assert_eq!(durations, vec![33, 34, 0, 0]);
}

#[test]
fn unreadable_entry_ends_the_stream() {
    let mut reads = example_capture();
    reads.insert(3, None);
    let plan = plan_conversion(&reads).unwrap();
    assert_eq!(plan.samples.len(), 1);
    assert_eq!(plan.samples[0].start_time, 1000);
    let cut: Vec<Option<Frame>> = reads[..4].to_vec();
    assert_eq!(plan_conversion(&cut), plan_conversion(&reads));
}

#[test]
fn frame_sample_copies_the_payload() {
    let source = Frame { format: VideoCaptureFormat::H265, timestamp: 3_000_000, raw_data: vec![7, 8, 9] };
    let sample = frame_sample(&source, 1_000_000);
    assert_eq!(
        sample,
        OutputSample {
            start_time: 3_000_000,
            duration: 2,
            rendering_offset: 0,
            is_sync: false,
            payload: vec![7, 8, 9],
        }
    );
}

#[test]
fn build_samples_starts_where_it_is_told() {
    let reads = example_capture();
    assert_eq!(build_samples(&reads, 4, 0).len(), 0);
    let all = build_samples(&reads, 0, 0);
    assert_eq!(all.len(), 3);
    assert_eq!(all[0].start_time, 0);
}
