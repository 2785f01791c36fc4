//! Audio sampler: bucket folding, delta contiguity, and the player queue.

use media_core::audio::AudioSink;
use media_core::audio::AudioSinkKind;
use media_core::audio::Decoder;
use media_core::audio::Player;
use media_core::audio::Sampler;
use media_core::demux::StreamInfo;
use media_core::frame;
use media_core::units::Rational;
use media_core::units::Seconds;
use media_core::units::Timestamp;

fn test_stream_info() -> StreamInfo {
    StreamInfo {
        index: 1,
        timebase: Rational::new(1, 48_000),
        start_time: Timestamp(0),
        byte_pos_can_update: true,
        byte_pos: -1,
    }
}

fn test_decoder(rate: u32, seconds: usize) -> Decoder {
    Decoder {
        stream_info: test_stream_info(),
        sample_rate: rate,
        estimated_length: rate as usize * seconds,
    }
}

fn constant_frame(time_us: i64, rate: u32, n: usize, amplitude: f32) -> frame::Audio {
    frame::Audio {
        meta: frame::FrameMetadata {
            byte_pos: 0,
            pkt_pos: 0,
            time: Seconds { micros: time_us },
        },
        samples: vec![amplitude.to_bits(); n],
        rate,
    }
}

#[test]
fn constant_audio_fills_contiguous_delta() {
    // 10 buckets per second, 100 samples per second, 2 seconds of
    // constant amplitude split into frames that straddle bucket edges,
    // then one extra sample to close the last bucket
    let rate = 100u32;
    let d = test_decoder(rate, 4);
    let mut s = Sampler::create(&d, 10).unwrap();
    let amp = 0.5f32;
    let mut sent: i64 = 0;
    // the last frame runs just past the 2-second mark, closing bucket 19
    for n in [43i64, 41, 47, 44, 31] {
        let t = sent * 10_000;
        s.process(constant_frame(t, rate, n as usize, amp)).unwrap();
        sent += n;
    }
    assert_eq!(sent, 206);
    let delta = s.get_delta().expect("delta present");
    assert_eq!(delta.start_index, 0);
    assert_eq!(delta.intensity.len(), 20);
    for (i, v) in delta.intensity.iter().enumerate() {
        assert_eq!(f32::from_bits(*v), amp, "bucket {}", i);
    }
    assert!(s.get_delta().is_none());
}

#[test]
fn magnitudes_fold_by_maximum_of_absolute_value() {
    let rate = 4u32;
    let d = test_decoder(rate, 4);
    let mut s = Sampler::create(&d, 2).unwrap();
    // one second of 4 samples at 2 buckets/s: buckets of 2 samples
    let mut f = constant_frame(0, rate, 5, 0.0);
    f.samples = vec![
        0.25f32.to_bits(),
        (-0.75f32).to_bits(),
        0.5f32.to_bits(),
        (-0.125f32).to_bits(),
        // a fifth sample lands in the next bucket and closes the second
        0.0f32.to_bits(),
    ];
    s.process(f).unwrap();
    let delta = s.get_delta().unwrap();
    assert_eq!(delta.intensity.len(), 2);
    assert_eq!(f32::from_bits(delta.intensity[0]), 0.75);
    assert_eq!(f32::from_bits(delta.intensity[1]), 0.5);
    // the tree sees the same values
    assert_eq!(f32::from_bits(s.intensities.at(0)), 0.75);
    assert_eq!(f32::from_bits(s.intensities.at(1)), 0.5);
}

#[test]
fn out_of_capacity_samples_are_ignored() {
    let rate = 10u32;
    let d = test_decoder(rate, 1);
    // capacity 1 * 2 buckets
    let mut s = Sampler::create(&d, 2).unwrap();
    let len = s.intensities.length;
    // a frame far past the end must be ignored entirely
    s.process(constant_frame(100_000_000, rate, 10, 1.0)).unwrap();
    assert!(s.get_delta().is_none());
    // a frame before the start is ignored as well
    s.process(constant_frame(-5_000_000, rate, 10, 1.0)).unwrap();
    assert!(s.get_delta().is_none());
    assert_eq!(s.intensities.length, len);
}

#[test]
fn player_queues_and_drains() {
    let d = test_decoder(48_000, 10);
    let mut p = Player::create(&d).unwrap();
    assert!(p.is_empty());
    p.process(constant_frame(0, 48_000, 8, 0.1)).unwrap();
    p.process(constant_frame(1000, 48_000, 8, 0.2)).unwrap();
    assert!(!p.is_empty());
    let drained = p.get_delta();
    assert_eq!(drained.len(), 2);
    assert_eq!(drained[0].meta.time.micros, 0);
    assert_eq!(drained[1].meta.time.micros, 1000);
    assert!(p.is_empty());
}

#[test]
fn sink_kind_dispatches() {
    let d = test_decoder(100, 4);
    let mut kind = AudioSinkKind::Sampler(Sampler::create(&d, 10).unwrap());
    assert!(kind.is_empty());
    kind.process(constant_frame(0, 100, 50, 0.5)).unwrap();
    assert!(!kind.is_empty());
    kind.clear();
    assert!(kind.is_empty());
}
