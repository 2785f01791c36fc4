//! Flat binary packing of decoded frames for delivery to the host.
//!
//! For throughput, frames cross the host boundary as one contiguous byte
//! buffer, not as structured objects.  A video frame is
//! `[time: f64][packet_byte_pos: i32][row_stride/4: u32][data_len: u32][RGBA bytes]`,
//! an audio frame is `[time: f64][packet_byte_pos: i32][sample_count: i32][f32 samples]`,
//! and a batch is `[count: u32]` followed by that many frames back-to-back.
//! All numbers are little-endian; the floating-point fields travel as their
//! IEEE bit patterns, which the host produces and consumes.

use vstd::prelude::*;

verus! {

/// One video frame ready for the wire: presentation time as an IEEE
/// double-precision bit pattern, packet byte offset, row stride in pixels,
/// and the RGBA payload.
pub struct WireVideoFrame {
    pub time_bits: u64,
    pub pkt_pos: i32,
    pub stride: u32,
    pub data: Vec<u8>,
}

/// One audio frame ready for the wire: presentation time as an IEEE
/// double-precision bit pattern, packet byte offset, and the mono samples
/// as IEEE single-precision bit patterns.
pub struct WireAudioFrame {
    pub time_bits: u64,
    pub pkt_pos: i32,
    pub samples: Vec<u32>,
}

/// The four little-endian bytes of a 32-bit value.
pub open spec fn le32(x: u32) -> Seq<u8> {
    seq![
        (x % 256) as u8,
        ((x / 256) % 256) as u8,
        ((x / 65536) % 256) as u8,
        ((x / 16777216) % 256) as u8,
    ]
}

/// The eight little-endian bytes of a 64-bit value.
pub open spec fn le64(x: u64) -> Seq<u8> {
    seq![
        (x % 256) as u8,
        ((x / 256) % 256) as u8,
        ((x / 65536) % 256) as u8,
        ((x / 16777216) % 256) as u8,
        ((x / 0x1_0000_0000) % 256) as u8,
        ((x / 0x100_0000_0000) % 256) as u8,
        ((x / 0x1_0000_0000_0000) % 256) as u8,
        ((x / 0x100_0000_0000_0000) % 256) as u8,
    ]
}

/// A video frame's wire bytes.
pub open spec fn video_frame_bytes(f: WireVideoFrame) -> Seq<u8> {
    le64(f.time_bits) + le32(f.pkt_pos as u32) + le32(f.stride)
        + le32(f.data@.len() as u32) + f.data@
}

/// An audio frame's wire bytes.
pub open spec fn audio_frame_bytes(f: WireAudioFrame) -> Seq<u8> {
    le64(f.time_bits) + le32(f.pkt_pos as u32) + le32(f.samples@.len() as u32)
        + sample_bytes(f.samples@)
}

/// Samples back-to-back, each as four little-endian bytes.
pub open spec fn sample_bytes(s: Seq<u32>) -> Seq<u8>
    decreases s.len(),
{
    if s.len() == 0 {
        Seq::empty()
    } else {
        sample_bytes(s.drop_last()) + le32(s.last())
    }
}

/// A batch of video frames back-to-back.
pub open spec fn video_batch_bytes(fs: Seq<WireVideoFrame>) -> Seq<u8>
    decreases fs.len(),
{
    if fs.len() == 0 {
        Seq::empty()
    } else {
        video_batch_bytes(fs.drop_last()) + video_frame_bytes(fs.last())
    }
}

/// A batch of audio frames back-to-back.
pub open spec fn audio_batch_bytes(fs: Seq<WireAudioFrame>) -> Seq<u8>
    decreases fs.len(),
{
    if fs.len() == 0 {
        Seq::empty()
    } else {
        audio_batch_bytes(fs.drop_last()) + audio_frame_bytes(fs.last())
    }
}

/// Appends the four little-endian bytes of a 32-bit value.
fn push_le32(buf: &mut Vec<u8>, x: u32)
    ensures
        final(buf)@ =~= old(buf)@ + le32(x),
{
    buf.push((x % 256) as u8);
    buf.push(((x / 256) % 256) as u8);
    buf.push(((x / 65536) % 256) as u8);
    buf.push(((x / 16777216) % 256) as u8);
}

/// Appends the eight little-endian bytes of a 64-bit value.
fn push_le64(buf: &mut Vec<u8>, x: u64)
    ensures
        final(buf)@ =~= old(buf)@ + le64(x),
{
    buf.push((x % 256) as u8);
    buf.push(((x / 256) % 256) as u8);
    buf.push(((x / 65536) % 256) as u8);
    buf.push(((x / 16777216) % 256) as u8);
    buf.push(((x / 0x1_0000_0000) % 256) as u8);
    buf.push(((x / 0x100_0000_0000) % 256) as u8);
    buf.push(((x / 0x1_0000_0000_0000) % 256) as u8);
    buf.push(((x / 0x100_0000_0000_0000) % 256) as u8);
}

/// Appends a byte run.
fn push_bytes(buf: &mut Vec<u8>, data: &Vec<u8>)
    ensures
        final(buf)@ =~= old(buf)@ + data@,
{
    let n: usize = data.len();
    let mut i: usize = 0;
    while i < n
        invariant
            i <= n,
            n == data@.len(),
            buf@ =~= old(buf)@ + data@.subrange(0, i as int),
        decreases n - i,
    {
        buf.push(data[i]);
        proof {
            assert(buf@ =~= old(buf)@ + data@.subrange(0, i + 1));
        }
        i = i + 1;
    }
    proof {
        assert(data@.subrange(0, n as int) =~= data@);
    }
}

/// Packs a batch of video frames onto `buf`, exactly in the wire layout:
/// the count, then each frame's time, packet position, stride, payload
/// length, and payload.
pub fn pack_video_frames(frames: &Vec<WireVideoFrame>, buf: &mut Vec<u8>)
    requires
        frames@.len() <= 0xffff_ffff,
    ensures
        final(buf)@ =~= old(buf)@ + le32(frames@.len() as u32)
            + video_batch_bytes(frames@),
{
    let n: usize = frames.len();
    push_le32(buf, n as u32);
    let mut i: usize = 0;
    proof {
        assert(video_batch_bytes(frames@.subrange(0, 0)) =~= Seq::empty());
    }
    while i < n
        invariant
            i <= n,
            n == frames@.len(),
            n <= 0xffff_ffff,
            buf@ =~= old(buf)@ + le32(frames@.len() as u32)
                + video_batch_bytes(frames@.subrange(0, i as int)),
        decreases n - i,
    {
        let f: &WireVideoFrame = &frames[i];
        push_le64(buf, f.time_bits);
        push_le32(buf, f.pkt_pos as u32);
        push_le32(buf, f.stride);
        push_le32(buf, f.data.len() as u32);
        push_bytes(buf, &f.data);
        proof {
            let sub1 = frames@.subrange(0, i + 1);
            assert(sub1.drop_last() =~= frames@.subrange(0, i as int));
            assert(sub1.last() == frames@[i as int]);
            assert(buf@ =~= old(buf)@ + le32(frames@.len() as u32)
                + video_batch_bytes(sub1));
        }
        i = i + 1;
    }
    proof {
        assert(frames@.subrange(0, n as int) =~= frames@);
    }
}

/// Packs a batch of audio frames onto `buf`, exactly in the wire layout:
/// the count, then each frame's time, packet position, sample count, and
/// samples.
pub fn pack_audio_frames(frames: &Vec<WireAudioFrame>, buf: &mut Vec<u8>)
    requires
        frames@.len() <= 0xffff_ffff,
    ensures
        final(buf)@ =~= old(buf)@ + le32(frames@.len() as u32)
            + audio_batch_bytes(frames@),
{
    let n: usize = frames.len();
    push_le32(buf, n as u32);
    let mut i: usize = 0;
    proof {
        assert(audio_batch_bytes(frames@.subrange(0, 0)) =~= Seq::empty());
    }
    while i < n
        invariant
            i <= n,
            n == frames@.len(),
            n <= 0xffff_ffff,
            buf@ =~= old(buf)@ + le32(frames@.len() as u32)
                + audio_batch_bytes(frames@.subrange(0, i as int)),
        decreases n - i,
    {
        let f: &WireAudioFrame = &frames[i];
        push_le64(buf, f.time_bits);
        push_le32(buf, f.pkt_pos as u32);
        push_le32(buf, f.samples.len() as u32);
        let m: usize = f.samples.len();
        let mut j: usize = 0;
        let ghost mid = buf@;
        proof {
            assert(sample_bytes(f.samples@.subrange(0, 0)) =~= Seq::empty());
            assert(mid =~= mid + sample_bytes(f.samples@.subrange(0, 0)));
        }
        while j < m
            invariant
                j <= m,
                m == f.samples@.len(),
                buf@ =~= mid + sample_bytes(f.samples@.subrange(0, j as int)),
            decreases m - j,
        {
            push_le32(buf, f.samples[j]);
            proof {
                let sub1 = f.samples@.subrange(0, j + 1);
                assert(sub1.drop_last() =~= f.samples@.subrange(0, j as int));
                assert(sub1.last() == f.samples@[j as int]);
                assert(buf@ =~= mid + sample_bytes(sub1));
            }
            j = j + 1;
        }
        proof {
            assert(f.samples@.subrange(0, m as int) =~= f.samples@);
            let sub1 = frames@.subrange(0, i + 1);
            assert(sub1.drop_last() =~= frames@.subrange(0, i as int));
            assert(sub1.last() == frames@[i as int]);
            assert(buf@ =~= old(buf)@ + le32(frames@.len() as u32)
                + audio_batch_bytes(sub1));
        }
        i = i + 1;
    }
    proof {
        assert(frames@.subrange(0, n as int) =~= frames@);
    }
}

} // verus!
