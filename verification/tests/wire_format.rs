//! Wire packing: exact byte layout of frame batches.

use media_core::wire::WireAudioFrame;
use media_core::wire::WireVideoFrame;
use media_core::wire::pack_audio_frames;
use media_core::wire::pack_video_frames;

#[test]
fn empty_batches_are_just_a_count() {
    let mut buf: Vec<u8> = Vec::new();
    pack_video_frames(&Vec::new(), &mut buf);
    assert_eq!(buf, vec![0, 0, 0, 0]);
    pack_audio_frames(&Vec::new(), &mut buf);
    assert_eq!(buf, vec![0, 0, 0, 0, 0, 0, 0, 0]);
}

#[test]
fn video_frame_layout_is_exact() {
    let f = WireVideoFrame {
        time_bits: 1.5f64.to_bits(),
        pkt_pos: 0x0102_0304,
        stride: 2,
        data: vec![0xaa, 0xbb, 0xcc, 0xdd],
    };
    let mut buf: Vec<u8> = Vec::new();
    pack_video_frames(&vec![f], &mut buf);
    let mut expected: Vec<u8> = Vec::new();
    expected.extend(1u32.to_le_bytes());
    expected.extend(1.5f64.to_bits().to_le_bytes());
    expected.extend(0x0102_0304i32.to_le_bytes());
    expected.extend(2u32.to_le_bytes());
    expected.extend(4u32.to_le_bytes());
    expected.extend([0xaa, 0xbb, 0xcc, 0xdd]);
    assert_eq!(buf, expected);
}

#[test]
fn audio_frame_layout_is_exact() {
    let f = WireAudioFrame {
        time_bits: 0.25f64.to_bits(),
        pkt_pos: -1,
        samples: vec![0.5f32.to_bits(), (-0.5f32).to_bits()],
    };
    let mut buf: Vec<u8> = Vec::new();
    pack_audio_frames(&vec![f], &mut buf);
    let mut expected: Vec<u8> = Vec::new();
    expected.extend(1u32.to_le_bytes());
    expected.extend(0.25f64.to_bits().to_le_bytes());
    expected.extend((-1i32).to_le_bytes());
    expected.extend(2i32.to_le_bytes());
    expected.extend(0.5f32.to_bits().to_le_bytes());
    expected.extend((-0.5f32).to_bits().to_le_bytes());
    assert_eq!(buf, expected);
}

#[test]
fn batches_concatenate_in_order() {
    let f1 = WireVideoFrame { time_bits: 0, pkt_pos: 0, stride: 1, data: vec![1] };
    let f2 = WireVideoFrame { time_bits: 0, pkt_pos: 0, stride: 1, data: vec![2, 3] };
    let mut buf: Vec<u8> = Vec::new();
    pack_video_frames(&vec![f1, f2], &mut buf);
    assert_eq!(&buf[0..4], &2u32.to_le_bytes());
    // first frame: 8 + 4 + 4 + 4 + 1 bytes, second follows immediately
    assert_eq!(buf.len(), 4 + 21 + 22);
    assert_eq!(buf[4 + 20], 1);
    assert_eq!(buf[4 + 21 + 20], 2);
    assert_eq!(buf[4 + 21 + 21], 3);
}
