//! End-to-end session flow over a simulated backend: a 10-second,
//! 30 fps, 48 kHz file sampled at 10 buckets per second.

use media_core::audio;
use media_core::audio::AudioCodecParams;
use media_core::audio::ReceiveResponse;
use media_core::demux::Demuxer;
use media_core::demux::Packet;
use media_core::demux::RawStream;
use media_core::demux::SeekRequest;
use media_core::demux::StreamKind;
use media_core::frame;
use media_core::session::Session;
use media_core::units::Rational;
use media_core::units::Seconds;
use media_core::video;
use media_core::video::VideoCodecParams;

fn test_demuxer() -> Demuxer {
    let streams = vec![
        RawStream {
            index: 0,
            timebase: Rational::new(1, 30),
            start_time_raw: 0,
            kind: StreamKind::Video,
            language: None,
            codec_id: Some("h264".to_string()),
        },
        RawStream {
            index: 1,
            timebase: Rational::new(1, 48_000),
            start_time_raw: 0,
            kind: StreamKind::Audio,
            language: Some("en".to_string()),
            codec_id: Some("aac".to_string()),
        },
    ];
    Demuxer::new(streams, 10_000_000, Some(1), Some(0))
}

fn open_samplers(session: &mut Session) {
    session
        .open_video_sampler(
            None,
            VideoCodecParams {
                width: 1280,
                height: 720,
                sample_aspect_ratio: Rational::new(1, 1),
                avg_frame_rate: Rational::new(30, 1),
                frame_rate: Rational::new(30, 1),
                pixel_format: 0,
                accelerated: false,
            },
        )
        .unwrap();
    session
        .open_audio_sampler(
            None,
            10,
            AudioCodecParams { time_base: Rational::new(1, 48_000), sample_rate: 48_000 },
        )
        .unwrap();
}

#[test]
fn sampling_a_whole_file() {
    let mut session = Session::create(test_demuxer());
    open_samplers(&mut session);

    // 300 video frames, a keyframe every 2 seconds
    for i in 0..300i64 {
        let more = session.try_feed(Some((0, Packet { position: 10_000 + i })));
        assert!(more);
        let meta = {
            let (d, _) = session.video.as_mut().unwrap();
            d.on_receive(ReceiveResponse::Frame { pts: Some(i), dts: i, pkt_pos: 10_000 + i })
                .unwrap()
                .expect("video frame")
        };
        let vf = frame::Video {
            meta,
            is_key: i % 60 == 0,
            stride: 1280,
            data: Vec::new(),
        };
        let n = session.try_process(None, Some(vf)).unwrap();
        assert_eq!(n, 1);
    }

    // 10 seconds of audio in frames that straddle bucket edges
    let mut sent: i64 = 0;
    let mut k: i64 = 0;
    while sent < 480_000 {
        let n_samples: i64 = if 480_000 - sent > 25_000 { 25_000 } else { 480_000 - sent };
        let more = session.try_feed(Some((1, Packet { position: 500_000 + k })));
        assert!(more);
        let pts = sent;
        let meta = {
            let (d, _) = session.audio.as_mut().unwrap();
            d.on_receive(ReceiveResponse::Frame { pts: Some(pts), dts: pts, pkt_pos: 0 })
                .unwrap()
                .expect("audio frame")
        };
        let af = frame::Audio {
            meta,
            samples: vec![0.5f32.to_bits(); n_samples as usize],
            rate: 48_000,
        };
        let n = session.try_process(Some(af), None).unwrap();
        assert_eq!(n, 1);
        sent += n_samples;
        k += 1;
    }

    // end of stream
    assert!(!session.try_feed(None));

    // audio: about 100 intensity buckets (the last one may still be open)
    let audio_delta = match &mut session.audio {
        Some((_, audio::AudioSinkKind::Sampler(s))) => s.get_delta().expect("audio delta"),
        _ => panic!("audio sampler expected"),
    };
    assert_eq!(audio_delta.start_index, 0);
    assert!(audio_delta.intensity.len() == 99 || audio_delta.intensity.len() == 100,
        "got {} buckets", audio_delta.intensity.len());
    for v in &audio_delta.intensity {
        assert_eq!(f32::from_bits(*v), 0.5);
    }

    // video: keyframes were seen, and a frame query inside the decoded
    // range answers with a covered timestamp
    let (frame_q, kf_count) = match &mut session.video {
        Some((_, video::VideoSinkKind::Sampler(s))) => {
            let delta = s.get_delta().expect("video delta");
            (s.get_frame_before(Seconds { micros: 5_000_000 }), delta.keyframes.len())
        },
        _ => panic!("video sampler expected"),
    };
    assert!(kf_count >= 1);
    let (t, _pos) = frame_q.expect("a frame before 5 s");
    assert!(t.micros < 5_000_000);
    match &session.video {
        Some((_, video::VideoSinkKind::Sampler(s))) => {
            assert!(s.known_range.contains(t.micros));
        },
        _ => unreachable!(),
    }
}

#[test]
fn seek_clears_sinks_and_resets_tracking() {
    let mut session = Session::create(test_demuxer());
    open_samplers(&mut session);
    // process one frame so the sinks hold something
    let vf = frame::Video {
        meta: frame::FrameMetadata {
            byte_pos: 1,
            pkt_pos: 1,
            time: Seconds { micros: 0 },
        },
        is_key: true,
        stride: 1280,
        data: Vec::new(),
    };
    session.try_process(None, Some(vf)).unwrap();
    let req = session.seek(Seconds { micros: 4_000_000 });
    match req {
        SeekRequest::Time { ticks } => assert_eq!(ticks, 4_000_000),
        _ => panic!("container seek expected"),
    }
    match &session.video {
        Some((d, video::VideoSinkKind::Sampler(s))) => {
            assert!(s.data.is_none());
            assert_eq!(d.stream_info.byte_pos, -1);
        },
        _ => panic!("video sampler expected"),
    }
}

#[test]
fn stream_seeks_rescale_into_the_stream_timebase() {
    let mut session = Session::create(test_demuxer());
    open_samplers(&mut session);
    match session.seek_video(Seconds { micros: 2_000_000 }) {
        SeekRequest::Stream { stream_index, ticks } => {
            assert_eq!(stream_index, 0);
            assert_eq!(ticks, 60);
        },
        _ => panic!("stream seek expected"),
    }
    match session.seek_audio(Seconds { micros: 1_500_000 }) {
        SeekRequest::Stream { stream_index, ticks } => {
            assert_eq!(stream_index, 1);
            assert_eq!(ticks, 72_000);
        },
        _ => panic!("stream seek expected"),
    }
    match session.seek_byte_pos(12_345) {
        SeekRequest::BytePos { pos } => assert_eq!(pos, 12_345),
        _ => panic!("byte seek expected"),
    }
}

#[test]
fn output_pending_tracks_the_sinks() {
    let mut session = Session::create(test_demuxer());
    open_samplers(&mut session);
    // nothing produced yet: the budget loop must keep working
    assert!(!session.any_output_pending());
    assert_eq!(session.output_ready(), (false, false));
    let vf = frame::Video {
        meta: frame::FrameMetadata {
            byte_pos: 1,
            pkt_pos: 1,
            time: Seconds { micros: 0 },
        },
        is_key: true,
        stride: 1280,
        data: Vec::new(),
    };
    session.try_process(None, Some(vf)).unwrap();
    // one medium produced output: the budget loop may yield, the
    // skip-ahead loop (which wants both) may not
    assert!(session.any_output_pending());
    assert_eq!(session.output_ready(), (false, true));
}

#[test]
fn feed_routes_by_stream_index() {
    let mut session = Session::create(test_demuxer());
    open_samplers(&mut session);
    session.try_feed(Some((0, Packet { position: 42 })));
    let (vd, _) = session.video.as_ref().unwrap();
    let (ad, _) = session.audio.as_ref().unwrap();
    assert_eq!(vd.stream_info.byte_pos, 42);
    assert_eq!(ad.stream_info.byte_pos, -1);
}
