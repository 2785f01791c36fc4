//! Video decoding bookkeeping and the two video sinks.
//!
//! As for audio, the backend decoder is an opaque state machine driven by
//! the host; this module holds the verified decisions around it: stream
//! resolution, aspect-ratio normalization, the shared feed recovery policy,
//! presentation-time computation with decode-timestamp fallback, the player
//! sink's converter-rebuild decisions, and the sampler sink's keyframe and
//! coverage indexes.

use vstd::prelude::*;
use crate::audio::FeedResponse;
use crate::audio::FeedStep;
use crate::audio::ReceiveResponse;
use crate::audio::feed_transition;
use crate::demux;
use crate::demux::Demuxer;
use crate::demux::Packet;
use crate::demux::StreamInfo;
use crate::demux::StreamKind;
use crate::disjoint_interval_set::DisjointIntervalSet;
use crate::frame;
use crate::internal::MediaError;
use crate::units;
use crate::units::Rational;
use crate::units::Seconds;

verus! {

/// A usable sample aspect ratio: positive, as `sar_normalize` guarantees.
pub open spec fn sar_normalize(r: Rational) -> Rational {
    if r.num <= 0 || r.den <= 0 {
        Rational { num: 1, den: 1 }
    } else {
        r
    }
}

/// Backend-derived facts about the opened video codec.
pub struct VideoCodecParams {
    /// Decoded picture width and height.
    pub width: u32,
    pub height: u32,
    /// The decoder's sample aspect ratio as reported.
    pub sample_aspect_ratio: Rational,
    /// The stream's average frame rate.
    pub avg_frame_rate: Rational,
    /// The stream's base frame rate.
    pub frame_rate: Rational,
    /// The decoder's native pixel format, as an opaque backend code.
    pub pixel_format: i32,
    /// Whether a hardware decode device was successfully attached.
    pub accelerated: bool,
}

/// Bookkeeping around one elementary video stream's backend decoder.
pub struct Decoder {
    pub stream_info: StreamInfo,
    /// Normalized sample aspect ratio.
    pub sample_aspect_ratio: Rational,
    /// Decoded picture size.
    pub original_size: (u32, u32),
    /// Whether the stream's frame rate varies.
    pub is_vfr: bool,
    /// The stream's base frame rate; inaccurate when `is_vfr`.
    pub framerate: Rational,
    /// The decoder's native pixel format code.
    pub pixel_format: i32,
    /// Whether decoded frames arrive in device memory and must be
    /// transferred to the host.
    pub accelerated: bool,
}

impl Decoder {
    pub fn stream_info(&self) -> (r: &StreamInfo)
        ensures
            r == &self.stream_info,
    {
        &self.stream_info
    }

    pub fn sample_aspect_ratio(&self) -> (r: Rational)
        ensures
            r == self.sample_aspect_ratio,
    {
        self.sample_aspect_ratio
    }

    pub fn original_size(&self) -> (r: (u32, u32))
        ensures
            r == self.original_size,
    {
        self.original_size
    }

    pub fn is_vfr(&self) -> (r: bool)
        ensures
            r == self.is_vfr,
    {
        self.is_vfr
    }

    pub fn framerate(&self) -> (r: Rational)
        ensures
            r == self.framerate,
    {
        self.framerate
    }

    /// Resolves the stream (an explicit index, or the backend's best video
    /// stream) and records the codec facts: the aspect ratio normalized to
    /// a positive value, and the stream flagged as variable-rate when its
    /// base and average frame rates disagree.  Hardware acceleration is
    /// advisory: `accelerated` only switches the frame path, never fails.
    pub fn create(
        demuxer: &Demuxer,
        index: Option<usize>,
        params: VideoCodecParams,
    ) -> (r: Result<Decoder, MediaError>)
        requires
            demuxer.wf(),
        ensures
            match r {
                Ok(d) => {
                    &&& d.sample_aspect_ratio == sar_normalize(params.sample_aspect_ratio)
                    &&& d.sample_aspect_ratio.wf()
                    &&& d.original_size == (params.width, params.height)
                    &&& d.is_vfr == (params.frame_rate != params.avg_frame_rate)
                    &&& d.framerate == params.frame_rate
                    &&& d.pixel_format == params.pixel_format
                    &&& d.accelerated == params.accelerated
                    &&& d.stream_info.wf()
                    &&& d.stream_info.byte_pos_can_update == true
                    &&& d.stream_info.byte_pos == -1
                    &&& d.stream_info.index < demuxer.streams@.len()
                    &&& d.stream_info.timebase
                        == demuxer.streams@[d.stream_info.index as int].timebase
                    &&& d.stream_info.start_time.0 == demux::effective_start(
                        demuxer.streams@[d.stream_info.index as int].start_time_raw)
                    &&& match index {
                        Some(i) => i < demuxer.streams@.len() && d.stream_info.index == i,
                        None => demux::best_of_kind(demuxer, StreamKind::Video)
                            matches Some(i) && d.stream_info.index == i,
                    }
                },
                Err(e) => {
                    &&& e.is_internal()
                    &&& match index {
                        Some(i) => i >= demuxer.streams@.len(),
                        None => demux::best_of_kind(demuxer, StreamKind::Video) is None,
                    }
                },
            },
    {
        let stream_info: StreamInfo = match index {
            Some(i) => demuxer.get_stream_from_index(i)?,
            None => demuxer.get_stream_from_kind(StreamKind::Video)?,
        };
        let sar: Rational = params.sample_aspect_ratio;
        let sample_aspect_ratio: Rational = if sar.num <= 0 || sar.den <= 0 {
            Rational { num: 1, den: 1 }
        } else {
            sar
        };
        let is_vfr: bool = !(params.frame_rate == params.avg_frame_rate);
        Ok(Decoder {
            stream_info,
            sample_aspect_ratio,
            original_size: (params.width, params.height),
            is_vfr,
            framerate: params.frame_rate,
            pixel_format: params.pixel_format,
            accelerated: params.accelerated,
        })
    }

    /// Discards the decode position: the backend decoder is flushed by the
    /// host, and the byte tracking resets so the next fed packet re-anchors
    /// it.
    pub fn flush(&mut self)
        ensures
            final(self).stream_info.byte_pos == -1,
            final(self).stream_info.byte_pos_can_update == true,
            final(self).stream_info.index == old(self).stream_info.index,
            final(self).stream_info.timebase == old(self).stream_info.timebase,
            final(self).stream_info.start_time == old(self).stream_info.start_time,
            final(self).sample_aspect_ratio == old(self).sample_aspect_ratio,
            final(self).original_size == old(self).original_size,
            final(self).is_vfr == old(self).is_vfr,
            final(self).framerate == old(self).framerate,
            final(self).pixel_format == old(self).pixel_format,
            final(self).accelerated == old(self).accelerated,
    {
        self.stream_info.byte_pos = -1;
        self.stream_info.byte_pos_can_update = true;
    }

    /// Anchors the byte tracking to the packet about to be submitted, when
    /// an anchor is wanted.
    pub fn begin_feed(&mut self, packet: &Packet)
        ensures
            final(self).stream_info.byte_pos == (if old(self).stream_info.byte_pos_can_update {
                packet.position
            } else {
                old(self).stream_info.byte_pos
            }),
            final(self).stream_info.byte_pos_can_update
                == old(self).stream_info.byte_pos_can_update,
            final(self).stream_info.index == old(self).stream_info.index,
            final(self).stream_info.timebase == old(self).stream_info.timebase,
            final(self).stream_info.start_time == old(self).stream_info.start_time,
            final(self).sample_aspect_ratio == old(self).sample_aspect_ratio,
            final(self).original_size == old(self).original_size,
            final(self).is_vfr == old(self).is_vfr,
            final(self).framerate == old(self).framerate,
            final(self).pixel_format == old(self).pixel_format,
            final(self).accelerated == old(self).accelerated,
    {
        if self.stream_info.byte_pos_can_update {
            self.stream_info.byte_pos = packet.position;
        }
    }

    /// Applies the shared recovery policy to the backend's response for
    /// one submitted packet (see the audio decoder's transition).
    pub fn on_feed_response(&mut self, packet: &Packet, resp: FeedResponse)
        -> (r: Result<FeedStep, MediaError>)
        ensures
            ({
                let (info2, step) = feed_transition(
                    old(self).stream_info, packet.position, resp);
                &&& final(self).stream_info == info2
                &&& final(self).sample_aspect_ratio == old(self).sample_aspect_ratio
                &&& final(self).original_size == old(self).original_size
                &&& final(self).is_vfr == old(self).is_vfr
                &&& final(self).framerate == old(self).framerate
                &&& final(self).pixel_format == old(self).pixel_format
                &&& final(self).accelerated == old(self).accelerated
                &&& match step {
                    Some(s) => r matches Ok(got) && got == s,
                    None => r matches Err(e) && e.is_backend()
                        && (resp matches FeedResponse::Failed(code)
                            ==> e matches MediaError::BackendError { code: c, .. }
                                && c == code),
                }
            }),
    {
        match resp {
            FeedResponse::Accepted => Ok(FeedStep::Done),
            FeedResponse::Full => {
                self.flush();
                self.begin_feed(packet);
                Ok(FeedStep::FlushAndResubmit)
            },
            FeedResponse::InvalidData => {
                self.flush();
                Ok(FeedStep::FlushAndSkip)
            },
            FeedResponse::Failed(code) => Err(MediaError::BackendError {
                func: "send_packet".to_owned(),
                code,
                line: 0,
            }),
        }
    }

    /// Turns the backend's receive response into frame metadata.  A frame
    /// without a presentation timestamp falls back to its packet's decode
    /// timestamp (some containers omit presentation timestamps); "no frame
    /// ready" is not an error.  When accelerated, the host must additionally
    /// transfer the frame from device to host memory.
    pub fn on_receive(&mut self, resp: ReceiveResponse)
        -> (r: Result<Option<frame::FrameMetadata>, MediaError>)
        requires
            old(self).stream_info.wf(),
            resp matches ReceiveResponse::Frame { pts, dts, .. }
                ==> -0x7fff_ffff_ffff_ffff <= units::to_micros_spec(
                    old(self).stream_info.timebase,
                    (match pts {
                        Some(p) => p,
                        None => dts,
                    }) as int) <= 0x7fff_ffff_ffff_ffff,
        ensures
            final(self).stream_info.index == old(self).stream_info.index,
            final(self).stream_info.timebase == old(self).stream_info.timebase,
            final(self).stream_info.start_time == old(self).stream_info.start_time,
            final(self).sample_aspect_ratio == old(self).sample_aspect_ratio,
            final(self).original_size == old(self).original_size,
            final(self).is_vfr == old(self).is_vfr,
            final(self).framerate == old(self).framerate,
            final(self).pixel_format == old(self).pixel_format,
            final(self).accelerated == old(self).accelerated,
            match resp {
                ReceiveResponse::Frame { pts, dts, pkt_pos } => r matches Ok(Some(meta))
                    && meta.time.micros == units::to_micros_spec(
                        old(self).stream_info.timebase,
                        (match pts {
                            Some(p) => p,
                            None => dts,
                        }) as int)
                    && meta.byte_pos == old(self).stream_info.byte_pos
                    && meta.pkt_pos == pkt_pos
                    && final(self).stream_info.byte_pos_can_update == true
                    && final(self).stream_info.byte_pos == old(self).stream_info.byte_pos,
                ReceiveResponse::NotReady => r matches Ok(o) && o is None
                    && final(self).stream_info == old(self).stream_info,
                ReceiveResponse::Failed(code) => r matches Err(e) && e.is_backend()
                    && (e matches MediaError::BackendError { code: c, .. } && c == code)
                    && final(self).stream_info == old(self).stream_info,
            },
    {
        match resp {
            ReceiveResponse::Frame { pts, dts, pkt_pos } => {
                let p: i64 = match pts {
                    Some(p) => p,
                    None => dts,
                };
                let byte_pos: i64 = self.stream_info.byte_pos;
                self.stream_info.byte_pos_can_update = true;
                let time: Seconds = units::Timestamp(p).to_seconds(self.stream_info.timebase);
                Ok(Some(frame::FrameMetadata { byte_pos, pkt_pos, time }))
            },
            ReceiveResponse::NotReady => Ok(None),
            ReceiveResponse::Failed(code) => Err(MediaError::BackendError {
                func: "receive_frame".to_owned(),
                code,
                line: 0,
            }),
        }
    }
}

/// One hardware configuration a codec advertises: its access methods, the
/// device type it serves, and the pixel format it decodes into.
#[derive(Clone, Copy, Debug, PartialEq, Eq, Structural)]
pub struct HwConfig {
    pub methods: i32,
    pub device_type: i32,
    pub pix_fmt: i32,
}

/// The configuration offers the wanted device type through the wanted
/// access method.
pub open spec fn config_matches(c: HwConfig, hwtype: i32, method_flag: i32) -> bool {
    c.methods & method_flag != 0 && c.device_type == hwtype
}

/// Picks the pixel format for hardware decoding: the first advertised
/// configuration that offers a device context of the wanted type.  `None`
/// means the device is not supported by the codec, and the caller stays in
/// software mode.
pub fn select_hw_pixel_format(configs: &Vec<HwConfig>, hwtype: i32, method_flag: i32)
    -> (r: Option<i32>)
    ensures
        match r {
            Some(f) => exists|k: int| 0 <= k < configs@.len()
                && #[trigger] config_matches(configs@[k], hwtype, method_flag)
                && f == configs@[k].pix_fmt
                && (forall|j: int| 0 <= j < k
                    ==> !config_matches(configs@[j], hwtype, method_flag)),
            None => forall|k: int| 0 <= k < configs@.len()
                ==> !(#[trigger] config_matches(configs@[k], hwtype, method_flag)),
        },
{
    let n: usize = configs.len();
    let mut i: usize = 0;
    while i < n
        invariant
            i <= n,
            n == configs@.len(),
            forall|j: int| 0 <= j < i
                ==> !(#[trigger] config_matches(configs@[j], hwtype, method_flag)),
        decreases n - i,
    {
        let c: HwConfig = configs[i];
        if c.methods & method_flag != 0 && c.device_type == hwtype {
            proof {
                assert(config_matches(configs@[i as int], hwtype, method_flag));
            }
            return Some(c.pix_fmt);
        }
        i = i + 1;
    }
    None
}

/// Relies on `num_cpus::get`: the number of logical cores; the library
/// documents that it always returns at least one.
#[verifier::external_body]
fn cpu_count() -> (r: usize)
    ensures
        r >= 1,
{
    num_cpus::get()
}

/// How many frame-level decode threads to configure: one per logical
/// core, capped at sixteen.
pub fn decode_thread_count() -> (r: usize)
    ensures
        1 <= r <= 16,
{
    let c: usize = cpu_count();
    if c > 16 {
        16
    } else {
        c
    }
}

/// The capability shared by the video sinks.
pub trait VideoSink: Sized {
    /// Whether the sink holds no pending output.
    spec fn sink_empty(&self) -> bool;

    /// What the sink asks of a frame before processing it.
    spec fn process_req(&self, f: frame::Video) -> bool;

    /// What one processed frame does to the sink.
    spec fn process_ens(pre: Self, post: Self, f: frame::Video, ok: bool) -> bool;

    fn clear(&mut self)
        ensures
            final(self).sink_empty(),
    ;

    fn is_empty(&self) -> (r: bool)
        ensures
            r == self.sink_empty(),
    ;

    fn process(&mut self, f: frame::Video) -> (r: Result<(), MediaError>)
        requires
            old(self).process_req(f),
        ensures
            Self::process_ens(*old(self), *final(self), f, r is Ok),
    ;
}

/// What a pixel-format converter is built from and to.
#[derive(Clone, Copy, Debug, PartialEq, Eq, Structural)]
pub struct ScalerSpec {
    /// Source pixel format code.
    pub format: i32,
    /// Source size.
    pub src_w: u32,
    pub src_h: u32,
    /// Output size, in RGBA.
    pub dst_w: u32,
    pub dst_h: u32,
}

/// The player sink: converted RGBA frames queue up until drained; the
/// converter is rebuilt only when the source format or the output size
/// actually changes.
pub struct Player {
    pub original_format: i32,
    pub original_size: (u32, u32),
    pub output_size: (u32, u32),
    pub frames: Vec<frame::Video>,
}

impl Player {
    /// The converter the host must currently hold.
    pub open spec fn scaler_spec(&self) -> ScalerSpec {
        ScalerSpec {
            format: self.original_format,
            src_w: self.original_size.0,
            src_h: self.original_size.1,
            dst_w: self.output_size.0,
            dst_h: self.output_size.1,
        }
    }

    /// The converter description for the host.
    pub fn current_scaler(&self) -> (r: ScalerSpec)
        ensures
            r == self.scaler_spec(),
    {
        ScalerSpec {
            format: self.original_format,
            src_w: self.original_size.0,
            src_h: self.original_size.1,
            dst_w: self.output_size.0,
            dst_h: self.output_size.1,
        }
    }

    /// Builds the player for a decoder's output.  The source format is the
    /// decoder's native one — or, on the hardware path, the host-memory
    /// format the transfer produces (`hw_host_format`).  The initial output
    /// width is the source width corrected by the sample aspect ratio.
    pub fn create(decoder: &Decoder, hw_host_format: i32) -> (r: Result<Player, MediaError>)
        requires
            decoder.sample_aspect_ratio.wf(),
            units::round_div(
                decoder.original_size.0 * decoder.sample_aspect_ratio.den as int,
                decoder.sample_aspect_ratio.num as int) <= u32::MAX,
        ensures
            r matches Ok(p) && {
                &&& p.original_format == (if decoder.accelerated {
                    hw_host_format
                } else {
                    decoder.pixel_format
                })
                &&& p.original_size == decoder.original_size
                &&& p.output_size.0 == units::round_div(
                    decoder.original_size.0 * decoder.sample_aspect_ratio.den as int,
                    decoder.sample_aspect_ratio.num as int)
                &&& p.output_size.1 == decoder.original_size.1
                &&& p.frames@.len() == 0
            },
    {
        let format: i32 = if decoder.accelerated {
            hw_host_format
        } else {
            decoder.pixel_format
        };
        let (w, h) = decoder.original_size;
        // Aspect-corrected width: w rescaled by the inverse aspect ratio,
        // rounded to nearest as the backend's rescale does.
        proof {
            assert((w as int) * (decoder.sample_aspect_ratio.den as int)
                <= 0x1_0000_0000 * 0x8000_0000) by (nonlinear_arith)
                requires
                    w <= 0xffff_ffffu32,
                    1 <= decoder.sample_aspect_ratio.den <= 0x7fff_ffff,
            ;
        }
        let num: u128 = (w as u128) * (decoder.sample_aspect_ratio.den as u128);
        let den: u128 = decoder.sample_aspect_ratio.num as u128;
        let corrected: u128 = (2 * num + den) / (2 * den);
        proof {
            assert(corrected == units::round_div(
                (w as int) * (decoder.sample_aspect_ratio.den as int),
                decoder.sample_aspect_ratio.num as int));
            assert((w as int) * (decoder.sample_aspect_ratio.den as int)
                == decoder.original_size.0 * decoder.sample_aspect_ratio.den as int);
        }
        Ok(Player {
            original_format: format,
            original_size: (w, h),
            output_size: (corrected as u32, h),
            frames: Vec::new(),
        })
    }

    /// Atomically drains and returns the queue.
    pub fn get_delta(&mut self) -> (r: Vec<frame::Video>)
        ensures
            r@ == old(self).frames@,
            final(self).frames@.len() == 0,
            final(self).original_format == old(self).original_format,
            final(self).original_size == old(self).original_size,
            final(self).output_size == old(self).output_size,
    {
        let mut out: Vec<frame::Video> = Vec::new();
        core::mem::swap(&mut out, &mut self.frames);
        out
    }

    /// Requests a new output size.  The converter is rebuilt only when the
    /// size actually changes: the returned description is `Some` exactly
    /// then.
    pub fn set_output_size(&mut self, size: (u32, u32)) -> (r: Option<ScalerSpec>)
        ensures
            old(self).output_size == size ==> r is None && *final(self) == *old(self),
            old(self).output_size != size ==> final(self).output_size == size
                && (r matches Some(s) && s == final(self).scaler_spec())
                && final(self).original_format == old(self).original_format
                && final(self).original_size == old(self).original_size
                && final(self).frames@ == old(self).frames@,
    {
        if self.output_size.0 == size.0 && self.output_size.1 == size.1 {
            return None;
        }
        self.output_size = size;
        Some(self.current_scaler())
    }

    /// Notes the format a frame actually arrived in (some hardware paths
    /// deliver a different format than negotiated): the converter is
    /// rebuilt only when the format differs from the current one.
    pub fn note_frame_format(&mut self, fmt: i32) -> (r: Option<ScalerSpec>)
        ensures
            old(self).original_format == fmt ==> r is None && *final(self) == *old(self),
            old(self).original_format != fmt ==> final(self).original_format == fmt
                && (r matches Some(s) && s == final(self).scaler_spec())
                && final(self).original_size == old(self).original_size
                && final(self).output_size == old(self).output_size
                && final(self).frames@ == old(self).frames@,
    {
        if self.original_format == fmt {
            return None;
        }
        self.original_format = fmt;
        Some(self.current_scaler())
    }
}

impl VideoSink for Player {
    open spec fn sink_empty(&self) -> bool {
        self.frames@.len() == 0
    }

    open spec fn process_req(&self, f: frame::Video) -> bool {
        true
    }

    open spec fn process_ens(pre: Self, post: Self, f: frame::Video, ok: bool) -> bool {
        &&& ok
        &&& post.frames@ == pre.frames@.push(f)
        &&& post.original_format == pre.original_format
        &&& post.original_size == pre.original_size
        &&& post.output_size == pre.output_size
    }

    fn clear(&mut self) {
        self.frames.clear();
    }

    fn is_empty(&self) -> (r: bool) {
        self.frames.len() == 0
    }

    fn process(&mut self, f: frame::Video) -> (r: Result<(), MediaError>) {
        self.frames.push(f);
        Ok(())
    }
}

/// Keys ascend strictly: the sequence is a map ordered by key.
pub open spec fn map_wf(s: Seq<(i64, i64)>) -> bool {
    forall|k: int| 0 <= k < s.len() - 1 ==> (#[trigger] s[k]).0 < s[k + 1].0
}

/// The entry with the greatest key at or before `key`, scanning from the
/// end; on an ordered map this is the floor entry.
pub open spec fn lookup_at_or_before(s: Seq<(i64, i64)>, key: int) -> Option<(i64, i64)>
    decreases s.len(),
{
    if s.len() == 0 {
        None
    } else if s.last().0 <= key {
        Some(s.last())
    } else {
        lookup_at_or_before(s.drop_last(), key)
    }
}

/// The entry with the greatest key strictly before `key`.
pub open spec fn lookup_before(s: Seq<(i64, i64)>, key: int) -> Option<(i64, i64)>
    decreases s.len(),
{
    if s.len() == 0 {
        None
    } else if s.last().0 < key {
        Some(s.last())
    } else {
        lookup_before(s.drop_last(), key)
    }
}

/// Inserting into the ordered map: an equal key is overwritten, otherwise
/// the entry lands at its ordered position.
pub open spec fn map_insert_spec(s: Seq<(i64, i64)>, key: i64, val: i64) -> Seq<(i64, i64)>
    decreases s.len(),
{
    if s.len() == 0 {
        seq![(key, val)]
    } else if s.last().0 < key {
        s.push((key, val))
    } else if s.last().0 == key {
        s.update(s.len() - 1, (key, val))
    } else {
        map_insert_spec(s.drop_last(), key, val).push(s.last())
    }
}

/// A found entry's key is at or before the query.
proof fn lemma_lookup_le(s: Seq<(i64, i64)>, key: int)
    ensures
        lookup_at_or_before(s, key) matches Some(e) ==> e.0 <= key,
        lookup_before(s, key) matches Some(e) ==> e.0 < key,
    decreases s.len(),
{
    if s.len() > 0 {
        lemma_lookup_le(s.drop_last(), key);
    }
}

/// In an ordered map every earlier key is smaller.
proof fn lemma_map_sorted(s: Seq<(i64, i64)>, a: int, b: int)
    requires
        map_wf(s),
        0 <= a < b < s.len(),
    ensures
        s[a].0 < s[b].0,
    decreases b - a,
{
    if a + 1 < b {
        lemma_map_sorted(s, a + 1, b);
    }
}

/// Entries past `j` all have keys above `key`, so inserting touches only
/// the front part.
proof fn lemma_insert_skip(s: Seq<(i64, i64)>, key: i64, val: i64, j: int)
    requires
        0 <= j <= s.len(),
        forall|k: int| j <= k < s.len() ==> (#[trigger] s[k]).0 > key,
    ensures
        map_insert_spec(s, key, val) =~= map_insert_spec(s.subrange(0, j), key, val)
            + s.subrange(j, s.len() as int),
    decreases s.len() - j,
{
    if j == s.len() {
        assert(s.subrange(0, j) =~= s);
        assert(s.subrange(j, s.len() as int) =~= Seq::empty());
    } else {
        assert(s.last().0 > key);
        lemma_insert_skip(s.drop_last(), key, val, j);
        assert(s.drop_last().subrange(0, j) =~= s.subrange(0, j));
        assert(s.drop_last().subrange(j, s.drop_last().len() as int)
            =~= s.subrange(j, s.len() - 1));
    }
}

/// Inserts into an ordered map held as a sorted vector.
fn map_insert(v: &mut Vec<(i64, i64)>, key: i64, val: i64)
    requires
        map_wf(old(v)@),
    ensures
        final(v)@ == map_insert_spec(old(v)@, key, val),
        map_wf(final(v)@),
{
    let n: usize = v.len();
    let mut j: usize = n;
    while j > 0 && v[j - 1].0 > key
        invariant
            j <= n,
            n == v@.len(),
            v == old(v),
            forall|k: int| j <= k < n ==> (#[trigger] v@[k]).0 > key,
        decreases j,
    {
        j = j - 1;
    }
    proof {
        lemma_insert_skip(v@, key, val, j as int);
    }
    if j > 0 && v[j - 1].0 == key {
        let ghost s = v@;
        v[j - 1] = (key, val);
        proof {
            assert(s.subrange(0, j as int).last() == s[j - 1]);
            assert(map_insert_spec(s.subrange(0, j as int), key, val)
                =~= s.subrange(0, j as int).update(j - 1, (key, val)));
            assert(v@ =~= map_insert_spec(s, key, val));
            assert forall|k: int| 0 <= k < v@.len() - 1 implies
                (#[trigger] v@[k]).0 < v@[k + 1].0 by {
                assert(s[k].0 < s[k + 1].0);
            }
        }
    } else {
        let ghost s = v@;
        v.insert(j, (key, val));
        proof {
            if j > 0 {
                assert(s.subrange(0, j as int).last() == s[j - 1]);
                assert(s[j - 1].0 < key);
                assert(map_insert_spec(s.subrange(0, j as int), key, val)
                    =~= s.subrange(0, j as int).push((key, val)));
            } else {
                assert(s.subrange(0, 0) =~= Seq::empty());
            }
            assert(v@ =~= map_insert_spec(s, key, val));
            assert forall|k: int| 0 <= k < v@.len() - 1 implies
                (#[trigger] v@[k]).0 < v@[k + 1].0 by {
                if k + 1 < j {
                    assert(s[k].0 < s[k + 1].0);
                } else if k + 1 == j {
                    assert(v@[k] == s[k]);
                    if k < j - 1 {
                        lemma_map_sorted(s, k, j - 1);
                    }
                    assert(s[j - 1].0 < key);
                } else if k == j {
                    assert(v@[k + 1] == s[k]);
                } else {
                    assert(v@[k] == s[k - 1] && v@[k + 1] == s[k]);
                    assert(s[k - 1].0 < s[k].0);
                }
            }
        }
    }
}

/// Finds the entry with the greatest key at or before `key`.
fn map_lookup_at_or_before(v: &Vec<(i64, i64)>, key: i64) -> (r: Option<(i64, i64)>)
    ensures
        r == lookup_at_or_before(v@, key as int),
{
    let mut j: usize = v.len();
    proof {
        assert(v@.subrange(0, v@.len() as int) =~= v@);
    }
    while j > 0
        invariant
            j <= v@.len(),
            lookup_at_or_before(v@, key as int)
                == lookup_at_or_before(v@.subrange(0, j as int), key as int),
        decreases j,
    {
        let e: (i64, i64) = v[j - 1];
        proof {
            assert(v@.subrange(0, j as int).last() == e);
            assert(v@.subrange(0, j as int).drop_last() =~= v@.subrange(0, j - 1));
        }
        if e.0 <= key {
            return Some(e);
        }
        j = j - 1;
    }
    proof {
        assert(v@.subrange(0, 0) =~= Seq::empty());
    }
    None
}

/// Finds the entry with the greatest key strictly before `key`.
fn map_lookup_before(v: &Vec<(i64, i64)>, key: i64) -> (r: Option<(i64, i64)>)
    ensures
        r == lookup_before(v@, key as int),
{
    let mut j: usize = v.len();
    proof {
        assert(v@.subrange(0, v@.len() as int) =~= v@);
    }
    while j > 0
        invariant
            j <= v@.len(),
            lookup_before(v@, key as int)
                == lookup_before(v@.subrange(0, j as int), key as int),
        decreases j,
    {
        let e: (i64, i64) = v[j - 1];
        proof {
            assert(v@.subrange(0, j as int).last() == e);
            assert(v@.subrange(0, j as int).drop_last() =~= v@.subrange(0, j - 1));
        }
        if e.0 < key {
            return Some(e);
        }
        j = j - 1;
    }
    proof {
        assert(v@.subrange(0, 0) =~= Seq::empty());
    }
    None
}

/// The batch of position data produced since the last drain.
pub struct SamplerDeltaData {
    /// Keyframes seen, in arrival order.
    pub keyframes: Vec<(Seconds, i64)>,
    pub start_time: Seconds,
    pub end_time: Seconds,
}

/// The sampler sink: ordered frame and keyframe indexes (keyed by the
/// canonical-tick timestamp, valued by packet byte position), a coverage
/// set of time ranges actually decoded, and the open delta.
pub struct Sampler {
    pub frames: Vec<(i64, i64)>,
    pub keyframes: Vec<(i64, i64)>,
    pub known_range: DisjointIntervalSet,
    pub data: Option<SamplerDeltaData>,
}

impl Sampler {
    /// The structural invariant: ordered indexes, a well-formed coverage
    /// set, and a delta whose window is ordered.
    pub open spec fn wf(&self) -> bool {
        &&& map_wf(self.frames@)
        &&& map_wf(self.keyframes@)
        &&& self.known_range.wf()
        &&& match self.data {
            Some(d) => d.start_time.micros <= d.end_time.micros,
            None => true,
        }
    }

    /// Creates an empty sampler.
    pub fn create(_decoder: &Decoder) -> (r: Result<Self, MediaError>)
        ensures
            r matches Ok(s) && {
                &&& s.wf()
                &&& s.frames@.len() == 0
                &&& s.keyframes@.len() == 0
                &&& s.known_range.intervals@.len() == 0
                &&& s.data is None
            },
    {
        Ok(Sampler {
            frames: Vec::new(),
            keyframes: Vec::new(),
            known_range: DisjointIntervalSet::new(),
            data: None,
        })
    }

    /// Drains the accumulated delta.
    pub fn get_delta(&mut self) -> (r: Option<SamplerDeltaData>)
        ensures
            r == old(self).data,
            final(self).data is None,
            final(self).frames == old(self).frames,
            final(self).keyframes == old(self).keyframes,
            final(self).known_range == old(self).known_range,
    {
        let mut out: Option<SamplerDeltaData> = None;
        core::mem::swap(&mut out, &mut self.data);
        out
    }

    /// The nearest keyframe at or before `time`, but only when the span
    /// from it to the query lies inside a known-decoded range — otherwise
    /// the true answer is unknown and the result is "no result".
    pub fn get_keyframe_before(&self, time: Seconds) -> (r: Option<(Seconds, i64)>)
        requires
            self.wf(),
            time.micros > i64::MIN,
        ensures
            match lookup_at_or_before(self.keyframes@, time.micros as int) {
                Some(e) => {
                    if self.known_range.covers(e.0 as int, time.micros as int) {
                        r matches Some(p) && p.0.micros == e.0 && p.1 == e.1
                    } else {
                        r is None
                    }
                },
                None => r is None,
            },
    {
        proof {
            units::lemma_default_timebase_identity(time.micros as int);
            lemma_lookup_le(self.keyframes@, time.micros as int);
        }
        let units::Timestamp(ts) = units::Timestamp::from_seconds(
            time, units::default_timebase());
        match map_lookup_at_or_before(&self.keyframes, ts) {
            Some((t, pos)) => {
                if self.known_range.covers_range(t, ts) {
                    Some((Seconds { micros: t }, pos))
                } else {
                    None
                }
            },
            None => None,
        }
    }

    /// The nearest frame strictly before `time`, gated by the same
    /// known-range check as the keyframe query.
    pub fn get_frame_before(&self, time: Seconds) -> (r: Option<(Seconds, i64)>)
        requires
            self.wf(),
            time.micros > i64::MIN,
        ensures
            match lookup_before(self.frames@, time.micros as int) {
                Some(e) => {
                    if self.known_range.covers(e.0 as int, time.micros as int) {
                        r matches Some(p) && p.0.micros == e.0 && p.1 == e.1
                    } else {
                        r is None
                    }
                },
                None => r is None,
            },
    {
        proof {
            units::lemma_default_timebase_identity(time.micros as int);
            lemma_lookup_le(self.frames@, time.micros as int);
        }
        let units::Timestamp(ts) = units::Timestamp::from_seconds(
            time, units::default_timebase());
        match map_lookup_before(&self.frames, ts) {
            Some((t, pos)) => {
                if self.known_range.covers_range(t, ts) {
                    Some((Seconds { micros: t }, pos))
                } else {
                    None
                }
            },
            None => None,
        }
    }
}

impl VideoSink for Sampler {
    open spec fn sink_empty(&self) -> bool {
        self.data is None
    }

    open spec fn process_req(&self, f: frame::Video) -> bool {
        &&& self.wf()
        &&& f.meta.time.micros > i64::MIN
    }

    open spec fn process_ens(pre: Self, post: Self, f: frame::Video, ok: bool) -> bool {
        let ts = f.meta.time.micros;
        let pos = f.meta.byte_pos;
        &&& ok
        &&& post.wf()
        &&& post.frames@ == map_insert_spec(pre.frames@, ts, pos)
        &&& (f.is_key ==> post.keyframes@ == map_insert_spec(pre.keyframes@, ts, pos))
        &&& (!f.is_key ==> post.keyframes@ == pre.keyframes@)
        &&& match pre.data {
            Some(d0) => {
                &&& post.data matches Some(d2) && {
                    &&& d2.start_time == d0.start_time
                    &&& (f.is_key ==> d2.keyframes@
                        == d0.keyframes@.push((f.meta.time, pos)))
                    &&& (!f.is_key ==> d2.keyframes@ == d0.keyframes@)
                    &&& d2.end_time == (if ts > d0.end_time.micros {
                        f.meta.time
                    } else {
                        d0.end_time
                    })
                }
                &&& (ts > d0.end_time.micros ==> forall|x: int|
                    post.known_range.covered(x) <==> (pre.known_range.covered(x)
                        || d0.start_time.micros <= x <= ts))
                &&& (ts <= d0.end_time.micros
                    ==> post.known_range == pre.known_range)
            },
            None => {
                &&& post.data matches Some(d2) && {
                    &&& d2.start_time == f.meta.time
                    &&& d2.end_time == f.meta.time
                    &&& (f.is_key ==> d2.keyframes@ =~= seq![(f.meta.time, pos)])
                    &&& (!f.is_key ==> d2.keyframes@.len() == 0)
                }
                &&& post.known_range == pre.known_range
            },
        }
    }

    fn clear(&mut self) {
        self.data = None;
    }

    fn is_empty(&self) -> (r: bool) {
        self.data.is_none()
    }

    fn process(&mut self, f: frame::Video) -> (r: Result<(), MediaError>) {
        if self.data.is_none() {
            self.data = Some(SamplerDeltaData {
                keyframes: Vec::new(),
                start_time: f.meta.time,
                end_time: f.meta.time,
            });
        }
        let mut taken: Option<SamplerDeltaData> = None;
        core::mem::swap(&mut taken, &mut self.data);
        let mut sd: SamplerDeltaData = match taken {
            Some(d) => d,
            None => vstd::pervasive::unreached(),
        };
        proof {
            units::lemma_default_timebase_identity(f.meta.time.micros as int);
        }
        let units::Timestamp(ts) = units::Timestamp::from_seconds(
            f.meta.time, units::default_timebase());
        map_insert(&mut self.frames, ts, f.meta.byte_pos);
        if f.is_key {
            sd.keyframes.push((f.meta.time, f.meta.byte_pos));
            map_insert(&mut self.keyframes, ts, f.meta.byte_pos);
        }
        if f.meta.time.micros > sd.end_time.micros {
            sd.end_time = f.meta.time;
            self.known_range.add(sd.start_time.micros, ts);
        }
        self.data = Some(sd);
        Ok(())
    }
}

/// The video sink in use: a closed set of two variants sharing one
/// capability interface.
pub enum VideoSinkKind {
    Player(Player),
    Sampler(Sampler),
}

impl VideoSink for VideoSinkKind {
    open spec fn sink_empty(&self) -> bool {
        match self {
            VideoSinkKind::Player(p) => p.sink_empty(),
            VideoSinkKind::Sampler(s) => s.sink_empty(),
        }
    }

    open spec fn process_req(&self, f: frame::Video) -> bool {
        match self {
            VideoSinkKind::Player(p) => p.process_req(f),
            VideoSinkKind::Sampler(s) => s.process_req(f),
        }
    }

    open spec fn process_ens(pre: Self, post: Self, f: frame::Video, ok: bool) -> bool {
        match (pre, post) {
            (VideoSinkKind::Player(a), VideoSinkKind::Player(b)) =>
                <Player as VideoSink>::process_ens(a, b, f, ok),
            (VideoSinkKind::Sampler(a), VideoSinkKind::Sampler(b)) =>
                <Sampler as VideoSink>::process_ens(a, b, f, ok),
            _ => false,
        }
    }

    fn clear(&mut self) {
        match self {
            VideoSinkKind::Player(p) => p.clear(),
            VideoSinkKind::Sampler(s) => s.clear(),
        }
    }

    fn is_empty(&self) -> (r: bool) {
        match self {
            VideoSinkKind::Player(p) => p.is_empty(),
            VideoSinkKind::Sampler(s) => s.is_empty(),
        }
    }

    fn process(&mut self, f: frame::Video) -> (r: Result<(), MediaError>) {
        match self {
            VideoSinkKind::Player(p) => p.process(f),
            VideoSinkKind::Sampler(s) => s.process(f),
        }
    }
}

} // verus!
