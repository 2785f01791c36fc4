//! Demuxer model: stream resolution, descriptions, duration and players.

use media_core::demux::Demuxer;
use media_core::demux::NO_PTS;
use media_core::demux::RawStream;
use media_core::demux::SerializableStreamKind;
use media_core::demux::StreamKind;
use media_core::units::Rational;
use media_core::video;
use media_core::video::VideoSink;

fn demuxer_with_odd_streams() -> Demuxer {
    let streams = vec![
        RawStream {
            index: 0,
            timebase: Rational::new(1, 90_000),
            start_time_raw: NO_PTS,
            kind: StreamKind::Video,
            language: None,
            codec_id: None,
        },
        RawStream {
            index: 1,
            timebase: Rational::new(1, 44_100),
            start_time_raw: 44_100,
            kind: StreamKind::Audio,
            language: Some("de".to_string()),
            codec_id: Some("mp3".to_string()),
        },
        RawStream {
            index: 2,
            timebase: Rational::new(1, 1000),
            start_time_raw: 0,
            kind: StreamKind::Subtitle,
            language: None,
            codec_id: None,
        },
    ];
    Demuxer::new(streams, 60_000_000, Some(1), Some(0))
}

#[test]
fn descriptions_default_the_language_tag() {
    let d = demuxer_with_odd_streams();
    let descr = d.describe_streams();
    assert_eq!(descr.len(), 3);
    assert_eq!(descr[0].kind, SerializableStreamKind::Video);
    assert_eq!(descr[0].language_code, "--");
    assert!(descr[0].codec_id.is_none());
    assert_eq!(descr[1].kind, SerializableStreamKind::Audio);
    assert_eq!(descr[1].language_code, "de");
    assert_eq!(descr[1].codec_id.as_deref(), Some("mp3"));
    assert_eq!(descr[2].kind, SerializableStreamKind::Subtitle);
}

#[test]
fn missing_start_time_counts_as_zero() {
    let d = demuxer_with_odd_streams();
    let info = d.get_stream_from_index(0).unwrap();
    assert_eq!(info.start_time().0, 0);
    assert_eq!(info.byte_pos, -1);
    assert!(info.byte_pos_can_update);
    let info = d.get_stream_from_index(1).unwrap();
    assert_eq!(info.start_time().0, 44_100);
    assert_eq!(info.start_time_seconds().micros, 1_000_000);
    assert!(d.get_stream_from_index(3).is_err());
}

#[test]
fn best_of_kind_resolution() {
    let d = demuxer_with_odd_streams();
    assert_eq!(d.get_stream_from_kind(StreamKind::Audio).unwrap().index(), 1);
    assert_eq!(d.get_stream_from_kind(StreamKind::Video).unwrap().index(), 0);
    assert!(d.get_stream_from_kind(StreamKind::Subtitle).is_err());
    assert_eq!(d.duration().micros, 60_000_000);
}

#[test]
fn video_player_rebuilds_only_on_change() {
    let dec = video::Decoder {
        stream_info: demuxer_with_odd_streams().get_stream_from_index(0).unwrap(),
        sample_aspect_ratio: Rational::new(4, 3),
        original_size: (720, 576),
        is_vfr: false,
        framerate: Rational::new(25, 1),
        pixel_format: 7,
        accelerated: false,
    };
    let mut p = video::Player::create(&dec, 99).unwrap();
    // anamorphic source: output width is aspect-corrected (720 * 3/4)
    assert_eq!(p.output_size, (540, 576));
    assert_eq!(p.original_format, 7);
    // same size: no rebuild
    assert!(p.set_output_size((540, 576)).is_none());
    // new size: rebuild with the new geometry
    let spec = p.set_output_size((768, 432)).expect("rebuild");
    assert_eq!((spec.dst_w, spec.dst_h), (768, 432));
    assert_eq!(spec.format, 7);
    // same frame format: no rebuild; a new format rebuilds
    assert!(p.note_frame_format(7).is_none());
    let spec = p.note_frame_format(23).expect("rebuild");
    assert_eq!(spec.format, 23);
    // frames queue up and drain once
    let f = media_core::frame::Video {
        meta: media_core::frame::FrameMetadata {
            byte_pos: 0,
            pkt_pos: 0,
            time: media_core::units::Seconds { micros: 0 },
        },
        is_key: true,
        stride: 768,
        data: Vec::new(),
    };
    p.process(f).unwrap();
    assert!(!p.is_empty());
    assert_eq!(p.get_delta().len(), 1);
    assert!(p.is_empty());
}

#[test]
fn decode_thread_count_is_positive_and_capped() {
    let n = video::decode_thread_count();
    assert!(n >= 1 && n <= 16);
}
