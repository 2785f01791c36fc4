//! Decoder recovery policy: the full-decoder and malformed-data paths, and
//! receive-time bookkeeping.

use media_core::audio;
use media_core::audio::FeedResponse;
use media_core::audio::FeedStep;
use media_core::audio::ReceiveResponse;
use media_core::demux::Packet;
use media_core::demux::StreamInfo;
use media_core::internal::MediaError;
use media_core::units::Rational;
use media_core::units::Timestamp;
use media_core::video;
use media_core::video::HwConfig;
use media_core::video::select_hw_pixel_format;

fn audio_decoder() -> audio::Decoder {
    audio::Decoder {
        stream_info: StreamInfo {
            index: 1,
            timebase: Rational::new(1, 48_000),
            start_time: Timestamp(0),
            byte_pos_can_update: true,
            byte_pos: -1,
        },
        sample_rate: 48_000,
        estimated_length: 480_000,
    }
}

#[test]
fn full_decoder_gets_one_flush_and_resubmit() {
    let mut d = audio_decoder();
    let p = Packet { position: 777 };
    d.begin_feed(&p);
    assert_eq!(d.stream_info.byte_pos, 777);
    // the backend reports a full decoder: exactly one flush-and-resubmit
    let step = d.on_feed_response(&p, FeedResponse::Full).unwrap();
    assert_eq!(step, FeedStep::FlushAndResubmit);
    // the packet's byte position stays anchored after the flush
    assert_eq!(d.stream_info.byte_pos, 777);
    assert!(d.stream_info.byte_pos_can_update);
    // the resubmission is accepted: the packet is consumed, nothing dropped
    let step = d.on_feed_response(&p, FeedResponse::Accepted).unwrap();
    assert_eq!(step, FeedStep::Done);
    assert_eq!(d.stream_info.byte_pos, 777);
}

#[test]
fn malformed_data_is_flushed_and_skipped() {
    let mut d = audio_decoder();
    let p = Packet { position: 100 };
    d.begin_feed(&p);
    let step = d.on_feed_response(&p, FeedResponse::InvalidData).unwrap();
    assert_eq!(step, FeedStep::FlushAndSkip);
    assert_eq!(d.stream_info.byte_pos, -1);
    assert!(d.stream_info.byte_pos_can_update);
}

#[test]
fn other_backend_failures_propagate() {
    let mut d = audio_decoder();
    let p = Packet { position: 100 };
    let e = d.on_feed_response(&p, FeedResponse::Failed(-5)).unwrap_err();
    match e {
        MediaError::BackendError { code, .. } => assert_eq!(code, -5),
        MediaError::InternalError(_) => panic!("expected a backend error"),
    }
}

#[test]
fn audio_receive_computes_time_with_dts_fallback() {
    let mut d = audio_decoder();
    let p = Packet { position: 4096 };
    d.begin_feed(&p);
    let meta = d
        .on_receive(ReceiveResponse::Frame { pts: Some(48_000), dts: 0, pkt_pos: 4096 })
        .unwrap()
        .expect("frame");
    assert_eq!(meta.time.micros, 1_000_000);
    assert_eq!(meta.byte_pos, 4096);
    assert_eq!(meta.pkt_pos, 4096);
    // a frame without a presentation timestamp uses the decode timestamp
    let meta = d
        .on_receive(ReceiveResponse::Frame { pts: None, dts: 24_000, pkt_pos: 0 })
        .unwrap()
        .expect("frame");
    assert_eq!(meta.time.micros, 500_000);
    // "not ready" is not an error
    assert!(d.on_receive(ReceiveResponse::NotReady).unwrap().is_none());
}

#[test]
fn hw_pixel_format_picks_first_matching_config() {
    let configs = vec![
        // right method, wrong device
        HwConfig { methods: 0x1, device_type: 2, pix_fmt: 100 },
        // right device, wrong method
        HwConfig { methods: 0x4, device_type: 7, pix_fmt: 101 },
        // first real match
        HwConfig { methods: 0x3, device_type: 7, pix_fmt: 102 },
        // a later match must not shadow the first
        HwConfig { methods: 0x1, device_type: 7, pix_fmt: 103 },
    ];
    assert_eq!(select_hw_pixel_format(&configs, 7, 0x1), Some(102));
    assert_eq!(select_hw_pixel_format(&configs, 9, 0x1), None);
    assert_eq!(select_hw_pixel_format(&Vec::new(), 7, 0x1), None);
}

#[test]
fn video_receive_falls_back_to_dts() {
    let mut d = video::Decoder {
        stream_info: StreamInfo {
            index: 0,
            timebase: Rational::new(1, 30),
            start_time: Timestamp(0),
            byte_pos_can_update: true,
            byte_pos: -1,
        },
        sample_aspect_ratio: Rational::new(1, 1),
        original_size: (1920, 1080),
        is_vfr: false,
        framerate: Rational::new(30, 1),
        pixel_format: 0,
        accelerated: false,
    };
    let meta = d
        .on_receive(ReceiveResponse::Frame { pts: None, dts: 60, pkt_pos: 9 })
        .unwrap()
        .expect("frame");
    assert_eq!(meta.time.micros, 2_000_000);
    let meta = d
        .on_receive(ReceiveResponse::Frame { pts: Some(30), dts: 60, pkt_pos: 9 })
        .unwrap()
        .expect("frame");
    assert_eq!(meta.time.micros, 1_000_000);
}
