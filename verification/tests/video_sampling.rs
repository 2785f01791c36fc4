//! Video sampler: keyframe and frame queries gated by known coverage.

use media_core::demux::StreamInfo;
use media_core::frame;
use media_core::units::Rational;
use media_core::units::Seconds;
use media_core::units::Timestamp;
use media_core::video::Decoder;
use media_core::video::Sampler;
use media_core::video::VideoSink;

fn test_video_decoder() -> Decoder {
    Decoder {
        stream_info: StreamInfo {
            index: 0,
            timebase: Rational::new(1, 30),
            start_time: Timestamp(0),
            byte_pos_can_update: true,
            byte_pos: -1,
        },
        sample_aspect_ratio: Rational::new(1, 1),
        original_size: (640, 480),
        is_vfr: false,
        framerate: Rational::new(30, 1),
        pixel_format: 0,
        accelerated: false,
    }
}

fn video_frame(time_us: i64, byte_pos: i64, is_key: bool) -> frame::Video {
    frame::Video {
        meta: frame::FrameMetadata {
            byte_pos,
            pkt_pos: byte_pos,
            time: Seconds { micros: time_us },
        },
        is_key,
        stride: 0,
        data: Vec::new(),
    }
}

fn sec(s: f64) -> Seconds {
    Seconds { micros: (s * 1_000_000.0) as i64 }
}

/// Keyframes at 0.0, 2.0, 4.0 s; video processed up to 5.0 s.
fn sampled_video() -> Sampler {
    let d = test_video_decoder();
    let mut s = Sampler::create(&d).unwrap();
    for i in 0..=10 {
        let t = (i as i64) * 500_000;
        let is_key = t % 2_000_000 == 0 && t <= 4_000_000;
        s.process(video_frame(t, 1000 + i as i64, is_key)).unwrap();
    }
    s
}

#[test]
fn keyframe_query_finds_nearest_at_or_before() {
    let s = sampled_video();
    let r = s.get_keyframe_before(sec(3.5)).expect("keyframe");
    assert_eq!(r.0.micros, 2_000_000);
    let r = s.get_keyframe_before(sec(0.5)).expect("keyframe");
    assert_eq!(r.0.micros, 0);
    let r = s.get_keyframe_before(sec(4.0)).expect("keyframe");
    assert_eq!(r.0.micros, 4_000_000);
}

#[test]
fn query_beyond_known_range_is_unknown() {
    let s = sampled_video();
    // there may be a keyframe between 5 s and 10 s that was never decoded:
    // the answer is unknown, not "none"
    assert!(s.get_keyframe_before(sec(10.0)).is_none());
    assert!(s.get_frame_before(sec(10.0)).is_none());
}

#[test]
fn frame_query_is_strictly_before() {
    let s = sampled_video();
    let r = s.get_frame_before(sec(5.0)).expect("frame");
    assert!(r.0.micros < 5_000_000);
    assert_eq!(r.0.micros, 4_500_000);
    // the frame exactly at 3.0 s does not answer a query at 3.0 s
    let r = s.get_frame_before(sec(3.0)).expect("frame");
    assert_eq!(r.0.micros, 2_500_000);
}

#[test]
fn equal_timestamps_overwrite_the_index_entry() {
    let d = test_video_decoder();
    let mut s = Sampler::create(&d).unwrap();
    s.process(video_frame(1_000_000, 5, false)).unwrap();
    s.process(video_frame(1_000_000, 6, false)).unwrap();
    s.process(video_frame(2_000_000, 7, false)).unwrap();
    assert_eq!(s.frames, vec![(1_000_000, 6), (2_000_000, 7)]);
    let r = s.get_frame_before(sec(1.5)).expect("frame");
    assert_eq!(r.1, 6);
}

#[test]
fn delta_reports_keyframes_and_window() {
    let d = test_video_decoder();
    let mut s = Sampler::create(&d).unwrap();
    s.process(video_frame(0, 7, true)).unwrap();
    s.process(video_frame(500_000, 8, false)).unwrap();
    s.process(video_frame(1_000_000, 9, true)).unwrap();
    let delta = s.get_delta().expect("delta");
    assert_eq!(delta.start_time.micros, 0);
    assert_eq!(delta.end_time.micros, 1_000_000);
    assert_eq!(delta.keyframes.len(), 2);
    assert_eq!(delta.keyframes[0].1, 7);
    assert_eq!(delta.keyframes[1].1, 9);
    assert!(s.get_delta().is_none());
    // coverage survives the drain
    assert!(s.known_range.covers_range(0, 1_000_000));
}
