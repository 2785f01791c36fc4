//! Audio decoding bookkeeping and the two audio sinks.
//!
//! The backend decoder itself is an opaque state machine driven by the host;
//! this module holds the verified decisions around it: byte-position
//! tracking per packet, the recovery policy when the backend reports a full
//! decoder or malformed data, presentation-time computation for received
//! frames, and the two frame consumers — a player queue and an incremental
//! intensity sampler.

use vstd::prelude::*;
use crate::aggregation_tree::AggregationTree;
use crate::aggregation_tree::Aggregator;
use crate::aggregation_tree::MaxU32;
use crate::demux;
use crate::demux::Demuxer;
use crate::demux::Packet;
use crate::demux::StreamInfo;
use crate::demux::StreamKind;
use crate::frame;
use crate::internal::MediaError;
use crate::units;
use crate::units::Seconds;

verus! {

/// What the backend reported for one packet-submit call.
#[derive(Clone, Copy, Debug, PartialEq, Eq, Structural)]
pub enum FeedResponse {
    /// The packet was accepted.
    Accepted,
    /// The decoder is full: frames must be drained first.
    Full,
    /// The packet holds malformed data.
    InvalidData,
    /// Any other backend failure, by error code.
    Failed(i32),
}

/// What the host must do next after a packet-submit attempt.
#[derive(Clone, Copy, Debug, PartialEq, Eq, Structural)]
pub enum FeedStep {
    /// The packet was consumed.
    Done,
    /// Flush the backend decoder, then submit the same packet again and
    /// report the new response.
    FlushAndResubmit,
    /// Malformed data: flush the backend decoder and move on; the packet
    /// is skipped, which counts as success.
    FlushAndSkip,
}

/// What the backend reported for one frame-receive call.
pub enum ReceiveResponse {
    /// A decoded frame with its timing and provenance.
    Frame { pts: Option<i64>, dts: i64, pkt_pos: i64 },
    /// No frame is ready now; this is not an error.
    NotReady,
    /// Any other backend failure, by error code.
    Failed(i32),
}

/// How the byte tracking and the step decision react to one submit
/// response.  `None` stands for a hard failure that propagates.
pub open spec fn feed_transition(
    info: StreamInfo,
    packet_pos: i64,
    resp: FeedResponse,
) -> (StreamInfo, Option<FeedStep>) {
    match resp {
        FeedResponse::Accepted => (info, Some(FeedStep::Done)),
        FeedResponse::Full => (
            StreamInfo { byte_pos: packet_pos, byte_pos_can_update: true, ..info },
            Some(FeedStep::FlushAndResubmit),
        ),
        FeedResponse::InvalidData => (
            StreamInfo { byte_pos: -1i64, byte_pos_can_update: true, ..info },
            Some(FeedStep::FlushAndSkip),
        ),
        FeedResponse::Failed(_) => (info, None),
    }
}

/// Feed resilience: when the backend reports a full decoder, the policy
/// asks for exactly one flush and one resubmission of the same packet, and
/// when that resubmission is accepted the packet is consumed with its byte
/// position re-anchored — nothing is silently dropped.
pub proof fn lemma_feed_full_recovery(info: StreamInfo, packet_pos: i64)
    ensures
        ({
            let (s1, step1) = feed_transition(info, packet_pos, FeedResponse::Full);
            let (s2, step2) = feed_transition(s1, packet_pos, FeedResponse::Accepted);
            &&& step1 == Some(FeedStep::FlushAndResubmit)
            &&& step2 == Some(FeedStep::Done)
            &&& s2.byte_pos == packet_pos
            &&& s2.byte_pos_can_update == true
            &&& s2.index == info.index
            &&& s2.timebase == info.timebase
            &&& s2.start_time == info.start_time
        }),
{
}

/// Backend-derived facts about the opened audio codec.
pub struct AudioCodecParams {
    /// The decoder's own time base.
    pub time_base: units::Rational,
    /// Samples per second; inaccurate for variable-rate streams.
    pub sample_rate: u32,
}

/// Bookkeeping around one elementary audio stream's backend decoder.
pub struct Decoder {
    pub stream_info: StreamInfo,
    /// Samples per second; inaccurate for variable-rate streams.
    pub sample_rate: u32,
    /// Estimated stream length in samples.
    pub estimated_length: usize,
}

impl Decoder {
    pub fn stream_info(&self) -> (r: &StreamInfo)
        ensures
            r == &self.stream_info,
    {
        &self.stream_info
    }

    pub fn sample_rate(&self) -> (r: u32)
        ensures
            r == self.sample_rate,
    {
        self.sample_rate
    }

    pub fn estimated_length(&self) -> (r: usize)
        ensures
            r == self.estimated_length,
    {
        self.estimated_length
    }

    /// Resolves the stream (an explicit index, or the backend's best audio
    /// stream) and records the codec facts; the stream's estimated length
    /// in samples comes from rescaling the container duration into the
    /// decoder's time base.
    pub fn create(
        demuxer: &Demuxer,
        index: Option<usize>,
        params: AudioCodecParams,
    ) -> (r: Result<Decoder, MediaError>)
        requires
            demuxer.wf(),
            params.time_base.wf(),
            0 <= units::from_micros_spec(params.time_base, demuxer.duration_micros as int)
                < 0x8000_0000,
        ensures
            match r {
                Ok(d) => {
                    &&& d.sample_rate == params.sample_rate
                    &&& d.estimated_length == units::from_micros_spec(
                        params.time_base, demuxer.duration_micros as int)
                    &&& d.stream_info.wf()
                    &&& d.stream_info.byte_pos_can_update == true
                    &&& d.stream_info.byte_pos == -1
                    &&& d.stream_info.index < demuxer.streams@.len()
                    &&& d.stream_info.timebase
                        == demuxer.streams@[d.stream_info.index as int].timebase
                    &&& d.stream_info.start_time.0 == demux::effective_start(
                        demuxer.streams@[d.stream_info.index as int].start_time_raw)
                    &&& match index {
                        Some(i) => i < demuxer.streams@.len() && d.stream_info.index == i,
                        None => demux::best_of_kind(demuxer, StreamKind::Audio)
                            matches Some(i) && d.stream_info.index == i,
                    }
                },
                Err(e) => {
                    &&& e.is_internal()
                    &&& match index {
                        Some(i) => i >= demuxer.streams@.len(),
                        None => demux::best_of_kind(demuxer, StreamKind::Audio) is None,
                    }
                },
            },
    {
        let stream_info: StreamInfo = match index {
            Some(i) => self_get_stream(demuxer, i)?,
            None => demuxer.get_stream_from_kind(StreamKind::Audio)?,
        };
        let duration: Seconds = demuxer.duration();
        let units::Timestamp(est) = units::Timestamp::from_seconds(duration, params.time_base);
        Ok(Decoder {
            stream_info,
            sample_rate: params.sample_rate,
            estimated_length: est as usize,
        })
    }

    /// Discards the decode position: the backend decoder is flushed by the
    /// host, and the byte tracking resets so the next fed packet re-anchors
    /// it.
    pub fn flush(&mut self)
        ensures
            final(self).stream_info.byte_pos == -1,
            final(self).stream_info.byte_pos_can_update == true,
            final(self).stream_info.index == old(self).stream_info.index,
            final(self).stream_info.timebase == old(self).stream_info.timebase,
            final(self).stream_info.start_time == old(self).stream_info.start_time,
            final(self).sample_rate == old(self).sample_rate,
            final(self).estimated_length == old(self).estimated_length,
    {
        self.stream_info.byte_pos = -1;
        self.stream_info.byte_pos_can_update = true;
    }

    /// Anchors the byte tracking to the packet about to be submitted, when
    /// an anchor is wanted.
    pub fn begin_feed(&mut self, packet: &Packet)
        ensures
            final(self).stream_info.byte_pos == (if old(self).stream_info.byte_pos_can_update {
                packet.position
            } else {
                old(self).stream_info.byte_pos
            }),
            final(self).stream_info.byte_pos_can_update
                == old(self).stream_info.byte_pos_can_update,
            final(self).stream_info.index == old(self).stream_info.index,
            final(self).stream_info.timebase == old(self).stream_info.timebase,
            final(self).stream_info.start_time == old(self).stream_info.start_time,
            final(self).sample_rate == old(self).sample_rate,
            final(self).estimated_length == old(self).estimated_length,
    {
        if self.stream_info.byte_pos_can_update {
            self.stream_info.byte_pos = packet.position;
        }
    }

    /// Applies the recovery policy to the backend's response for one
    /// submitted packet: accepted packets are done; a full decoder is
    /// flushed and the same packet resubmitted; malformed data is flushed
    /// and skipped as a success; any other failure propagates.
    pub fn on_feed_response(&mut self, packet: &Packet, resp: FeedResponse)
        -> (r: Result<FeedStep, MediaError>)
        ensures
            ({
                let (info2, step) = feed_transition(
                    old(self).stream_info, packet.position, resp);
                &&& final(self).stream_info == info2
                &&& final(self).sample_rate == old(self).sample_rate
                &&& final(self).estimated_length == old(self).estimated_length
                &&& match step {
                    Some(s) => r matches Ok(got) && got == s,
                    None => r matches Err(e) && e.is_backend()
                        && (resp matches FeedResponse::Failed(code)
                            ==> e matches MediaError::BackendError { code: c, .. }
                                && c == code),
                }
            }),
    {
        match resp {
            FeedResponse::Accepted => Ok(FeedStep::Done),
            FeedResponse::Full => {
                self.flush();
                self.begin_feed(packet);
                Ok(FeedStep::FlushAndResubmit)
            },
            FeedResponse::InvalidData => {
                self.flush();
                Ok(FeedStep::FlushAndSkip)
            },
            FeedResponse::Failed(code) => Err(MediaError::BackendError {
                func: "send_packet".to_owned(),
                code,
                line: 0,
            }),
        }
    }

    /// Turns the backend's receive response into frame metadata: the
    /// presentation timestamp rescaled into the canonical time domain, the
    /// tracked byte position, and the packet offset.  A frame without a
    /// presentation timestamp falls back to its packet's decode timestamp
    /// (some containers omit presentation timestamps); "no frame ready" is
    /// not an error.
    pub fn on_receive(&mut self, resp: ReceiveResponse)
        -> (r: Result<Option<frame::FrameMetadata>, MediaError>)
        requires
            old(self).stream_info.wf(),
            resp matches ReceiveResponse::Frame { pts, dts, .. }
                ==> -0x7fff_ffff_ffff_ffff <= units::to_micros_spec(
                    old(self).stream_info.timebase,
                    (match pts {
                        Some(p) => p,
                        None => dts,
                    }) as int) <= 0x7fff_ffff_ffff_ffff,
        ensures
            final(self).stream_info.index == old(self).stream_info.index,
            final(self).stream_info.timebase == old(self).stream_info.timebase,
            final(self).stream_info.start_time == old(self).stream_info.start_time,
            final(self).sample_rate == old(self).sample_rate,
            final(self).estimated_length == old(self).estimated_length,
            match resp {
                ReceiveResponse::Frame { pts, dts, pkt_pos } => r matches Ok(Some(meta))
                    && meta.time.micros == units::to_micros_spec(
                        old(self).stream_info.timebase,
                        (match pts {
                            Some(p) => p,
                            None => dts,
                        }) as int)
                    && meta.byte_pos == old(self).stream_info.byte_pos
                    && meta.pkt_pos == pkt_pos
                    && final(self).stream_info.byte_pos_can_update == true
                    && final(self).stream_info.byte_pos == old(self).stream_info.byte_pos,
                ReceiveResponse::NotReady => r matches Ok(o) && o is None
                    && final(self).stream_info == old(self).stream_info,
                ReceiveResponse::Failed(code) => r matches Err(e) && e.is_backend()
                    && (e matches MediaError::BackendError { code: c, .. } && c == code)
                    && final(self).stream_info == old(self).stream_info,
            },
    {
        match resp {
            ReceiveResponse::Frame { pts, dts, pkt_pos } => {
                let p: i64 = match pts {
                    Some(p) => p,
                    None => dts,
                };
                let byte_pos: i64 = self.stream_info.byte_pos;
                self.stream_info.byte_pos_can_update = true;
                let time: Seconds = units::Timestamp(p).to_seconds(self.stream_info.timebase);
                Ok(Some(frame::FrameMetadata { byte_pos, pkt_pos, time }))
            },
            ReceiveResponse::NotReady => Ok(None),
            ReceiveResponse::Failed(code) => Err(MediaError::BackendError {
                func: "receive_frame".to_owned(),
                code,
                line: 0,
            }),
        }
    }
}

/// Resolves a stream by explicit index.
fn self_get_stream(demuxer: &Demuxer, i: usize) -> (r: Result<StreamInfo, MediaError>)
    requires
        demuxer.wf(),
    ensures
        i < demuxer.streams@.len() ==> (r matches Ok(info)
            && info.index == i
            && info.timebase == demuxer.streams@[i as int].timebase
            && info.start_time.0 == demux::effective_start(
                demuxer.streams@[i as int].start_time_raw)
            && info.byte_pos_can_update == true
            && info.byte_pos == -1
            && info.wf()),
        i >= demuxer.streams@.len() ==> (r matches Err(e) && e.is_internal()),
{
    demuxer.get_stream_from_index(i)
}

/// The capability shared by the audio sinks: clear pending output, report
/// emptiness, consume one decoded frame.  Each sink states through
/// `process_req` and `process_ens` what it asks of a frame and what
/// processing one means for it.
pub trait AudioSink: Sized {
    /// Whether the sink holds no pending output.
    spec fn sink_empty(&self) -> bool;

    /// What the sink asks of a frame before processing it.
    spec fn process_req(&self, f: frame::Audio) -> bool;

    /// What one processed frame does to the sink.
    spec fn process_ens(pre: Self, post: Self, f: frame::Audio, ok: bool) -> bool;

    fn clear(&mut self)
        ensures
            final(self).sink_empty(),
    ;

    fn is_empty(&self) -> (r: bool)
        ensures
            r == self.sink_empty(),
    ;

    fn process(&mut self, f: frame::Audio) -> (r: Result<(), MediaError>)
        requires
            old(self).process_req(f),
        ensures
            Self::process_ens(*old(self), *final(self), f, r is Ok),
    ;
}

/// The player sink: decoded frames, already in canonical form, queue up
/// until the host drains them.
pub struct Player {
    pub frames: Vec<frame::Audio>,
}

impl Player {
    /// Creates the player queue for a decoder's output.
    pub fn create(_decoder: &Decoder) -> (r: Result<Self, MediaError>)
        ensures
            r matches Ok(p) && p.frames@.len() == 0,
    {
        Ok(Player { frames: Vec::new() })
    }

    /// Atomically drains and returns the queue.
    pub fn get_delta(&mut self) -> (r: Vec<frame::Audio>)
        ensures
            r@ == old(self).frames@,
            final(self).frames@.len() == 0,
    {
        let mut out: Vec<frame::Audio> = Vec::new();
        core::mem::swap(&mut out, &mut self.frames);
        out
    }
}

impl AudioSink for Player {
    open spec fn sink_empty(&self) -> bool {
        self.frames@.len() == 0
    }

    open spec fn process_req(&self, f: frame::Audio) -> bool {
        true
    }

    open spec fn process_ens(pre: Self, post: Self, f: frame::Audio, ok: bool) -> bool {
        ok && post.frames@ == pre.frames@.push(f)
    }

    fn clear(&mut self) {
        self.frames.clear();
    }

    fn is_empty(&self) -> (r: bool) {
        self.frames.len() == 0
    }

    fn process(&mut self, f: frame::Audio) -> (r: Result<(), MediaError>) {
        self.frames.push(f);
        Ok(())
    }
}

/// The batch of intensity data produced since the last drain: a contiguous
/// run of buckets beginning at `start_index`.
pub struct SamplerDeltaData {
    pub start_index: usize,
    pub start_time: Seconds,
    pub end_time: Seconds,
    pub intensity: Vec<u32>,
}

/// The delta record, mathematically.
pub ghost struct DeltaModel {
    pub start_index: int,
    pub start_us: int,
    pub end_us: int,
    pub intensity: Seq<u32>,
}

/// The sampler's rolling state while folding one frame's samples: the tree
/// leaves, the open delta, the open bucket (`index`, `sum`), and whether
/// the frame ran past the tree's capacity.
pub ghost struct SamplerState {
    pub leaves: Seq<u32>,
    pub delta: DeltaModel,
    pub index: int,
    pub sum: u32,
    pub stopped: bool,
}

/// Quotient truncated toward zero, for `b >= 1`.
pub open spec fn trunc_div(a: int, b: int) -> int {
    if a >= 0 {
        a / b
    } else {
        -((-a) / b)
    }
}

/// Magnitude of a sample held as an IEEE single-precision bit pattern: the
/// sign bit cleared.  For finite values the unsigned order of these
/// patterns equals the numeric order of the magnitudes.
pub open spec fn abs_bits(s: u32) -> u32 {
    s & 0x7fff_ffff
}

/// The bucket that the `i`-th sample of a frame falls into: the documented
/// rule is truncation of `sample_per_second * elapsed`, computed exactly
/// over the integers as
/// `trunc(sps * (elapsed_us * rate + i * 1_000_000) / (1_000_000 * rate))`.
pub open spec fn bucket_of(sps: int, elapsed_us: int, i: int, rate: int) -> int {
    trunc_div(sps * (elapsed_us * rate + i * 1_000_000), 1_000_000 * rate)
}

/// Offset of the `i`-th sample from its frame's start, in microseconds.
pub open spec fn dt_us(i: int, rate: int) -> int {
    i * 1_000_000 / rate
}

/// A run of zero intensities.
pub open spec fn zero_fill(n: int) -> Seq<u32> {
    Seq::new(n as nat, |j: int| 0u32)
}

/// Committing a finished bucket into the delta: a bucket inside the run
/// overwrites its slot; a bucket at or past the end extends the run,
/// filling any skipped buckets with zero to keep the delta contiguous;
/// a bucket before the run is dropped.
pub open spec fn delta_commit(d: DeltaModel, index: int, sum: u32, end_us: int) -> DeltaModel {
    let expected_next = d.start_index + d.intensity.len();
    if expected_next > index {
        if index >= d.start_index {
            DeltaModel { intensity: d.intensity.update(index - d.start_index, sum), ..d }
        } else {
            d
        }
    } else {
        DeltaModel {
            intensity: d.intensity + zero_fill(index - expected_next) + seq![sum],
            end_us: end_us,
            ..d
        }
    }
}

/// One sample of a frame folded into the sampler state: on a bucket
/// transition the finished bucket is committed to the tree and the delta;
/// a transition past the tree's capacity stops the frame; otherwise the
/// sample's magnitude folds into the open bucket by maximum.
pub open spec fn sample_step(
    st: SamplerState,
    sample: u32,
    i: int,
    sps: int,
    elapsed_us: int,
    rate: int,
    length: int,
    frame_us: int,
) -> SamplerState {
    if st.stopped {
        st
    } else {
        let ni = bucket_of(sps, elapsed_us, i, rate);
        if ni != st.index {
            let leaves2 = st.leaves.update(st.index, st.sum);
            let d2 = delta_commit(st.delta, st.index, st.sum, frame_us + dt_us(i, rate));
            if ni >= length {
                SamplerState { leaves: leaves2, delta: d2, index: ni, sum: st.sum, stopped: true }
            } else {
                SamplerState {
                    leaves: leaves2,
                    delta: d2,
                    index: ni,
                    sum: <MaxU32 as Aggregator<u32>>::combine_spec(
                        leaves2[ni], abs_bits(sample)),
                    stopped: false,
                }
            }
        } else {
            SamplerState {
                sum: <MaxU32 as Aggregator<u32>>::combine_spec(st.sum, abs_bits(sample)),
                ..st
            }
        }
    }
}

/// The first `upto` samples of a frame folded into the sampler state.
pub open spec fn sample_fold(
    init: SamplerState,
    samples: Seq<u32>,
    upto: int,
    sps: int,
    elapsed_us: int,
    rate: int,
    length: int,
    frame_us: int,
) -> SamplerState
    decreases upto,
{
    if upto <= 0 {
        init
    } else {
        sample_step(
            sample_fold(init, samples, upto - 1, sps, elapsed_us, rate, length, frame_us),
            samples[upto - 1],
            upto - 1,
            sps,
            elapsed_us,
            rate,
            length,
            frame_us,
        )
    }
}

/// Delta contiguity, at one commit: committing bucket `index` never moves
/// the delta's window start; a bucket at or past the run's end extends the
/// run to end exactly at `index`, with every skipped bucket zero-filled and
/// `sum` recorded at `index` — the run never has a gap; a bucket inside the
/// run overwrites its slot in place.
pub proof fn lemma_delta_commit_contiguous(d: DeltaModel, index: int, sum: u32, end_us: int)
    ensures
        ({
            let d2 = delta_commit(d, index, sum, end_us);
            &&& d2.start_index == d.start_index
            &&& d2.start_us == d.start_us
            &&& d2.intensity.len() >= d.intensity.len()
            &&& (index >= d.start_index + d.intensity.len() ==> {
                &&& d2.intensity.len() == index - d.start_index + 1
                &&& d2.intensity[index - d.start_index] == sum
                &&& (forall|j: int| d.start_index + d.intensity.len() <= j < index
                    ==> #[trigger] d2.intensity[j - d.start_index] == 0u32)
                &&& (forall|j: int| 0 <= j < d.intensity.len()
                    ==> #[trigger] d2.intensity[j] == d.intensity[j])
            })
            &&& (d.start_index <= index < d.start_index + d.intensity.len() ==> {
                &&& d2.intensity.len() == d.intensity.len()
                &&& d2.intensity[index - d.start_index] == sum
                &&& (forall|j: int| 0 <= j < d.intensity.len()
                    && j != index - d.start_index
                    ==> #[trigger] d2.intensity[j] == d.intensity[j])
            })
            &&& (index < d.start_index ==> d2 == d)
        }),
{
    let d2 = delta_commit(d, index, sum, end_us);
    if index >= d.start_index + d.intensity.len() {
        assert forall|j: int| d.start_index + d.intensity.len() <= j < index implies
            #[trigger] d2.intensity[j - d.start_index] == 0u32 by {
            assert(d2.intensity[j - d.start_index]
                == zero_fill(index - (d.start_index + d.intensity.len()))[
                    j - d.start_index - d.intensity.len()]);
        }
    }
}

/// Delta contiguity, over a whole frame: folding any run of samples never
/// moves the delta's window start or its opening time, and the recorded
/// run only grows.
pub proof fn lemma_fold_delta_window(
    init: SamplerState,
    samples: Seq<u32>,
    upto: int,
    sps: int,
    elapsed_us: int,
    rate: int,
    length: int,
    frame_us: int,
)
    ensures
        ({
            let fin = sample_fold(init, samples, upto, sps, elapsed_us, rate, length,
                frame_us);
            &&& fin.delta.start_index == init.delta.start_index
            &&& fin.delta.start_us == init.delta.start_us
            &&& fin.delta.intensity.len() >= init.delta.intensity.len()
        }),
    decreases upto,
{
    if upto > 0 {
        lemma_fold_delta_window(init, samples, upto - 1, sps, elapsed_us, rate, length,
            frame_us);
        let mid = sample_fold(init, samples, upto - 1, sps, elapsed_us, rate, length,
            frame_us);
        if !mid.stopped {
            let ni = bucket_of(sps, elapsed_us, upto - 1, rate);
            if ni != mid.index {
                lemma_delta_commit_contiguous(mid.delta, mid.index, mid.sum,
                    frame_us + dt_us(upto - 1, rate));
            }
        }
    }
}

/// Once a frame has stopped (run past capacity), folding more samples
/// changes nothing.
proof fn lemma_fold_stopped(
    init: SamplerState,
    samples: Seq<u32>,
    from: int,
    upto: int,
    sps: int,
    elapsed_us: int,
    rate: int,
    length: int,
    frame_us: int,
)
    requires
        0 <= from <= upto,
        sample_fold(init, samples, from, sps, elapsed_us, rate, length, frame_us).stopped,
    ensures
        sample_fold(init, samples, upto, sps, elapsed_us, rate, length, frame_us)
            == sample_fold(init, samples, from, sps, elapsed_us, rate, length, frame_us),
    decreases upto - from,
{
    if from < upto {
        lemma_fold_stopped(init, samples, from, upto - 1, sps, elapsed_us, rate, length,
            frame_us);
    }
}

/// The sampler sink: folds each decoded sample into a multi-resolution
/// intensity envelope and an incremental, contiguous delta record.
pub struct Sampler {
    pub start_time: Seconds,
    pub sample_per_second: usize,
    pub intensities: AggregationTree<u32, MaxU32>,
    pub data: Option<SamplerDeltaData>,
}

/// What a sampler's delta record corresponds to mathematically.
pub open spec fn model_of(sd: SamplerDeltaData) -> DeltaModel {
    DeltaModel {
        start_index: sd.start_index as int,
        start_us: sd.start_time.micros as int,
        end_us: sd.end_time.micros as int,
        intensity: sd.intensity@,
    }
}

/// An optional delta matches an optional model.
pub open spec fn delta_models(sd: Option<SamplerDeltaData>, m: Option<DeltaModel>) -> bool {
    match (sd, m) {
        (Some(d), Some(dm)) => model_of(d) == dm,
        (None, None) => true,
        _ => false,
    }
}

/// Expected capacity of the intensity tree: whole seconds of estimated
/// stream length, times buckets per second.
pub open spec fn capacity_spec(est: int, rate: int, sps: int) -> int {
    (if est % rate == 0 {
        est / rate
    } else {
        est / rate + 1
    }) * sps
}

impl Sampler {
    /// The structural invariant: a consistent tree, bounded configuration,
    /// and a delta that stays within the tree.
    pub open spec fn wf(&self) -> bool {
        &&& self.intensities.wf()
        &&& 1 <= self.sample_per_second <= 0x10_0000
        &&& self.intensities.length <= 0x1000_0000
        &&& -0x4000_0000_0000_0000 <= self.start_time.micros <= 0x4000_0000_0000_0000
        &&& match self.data {
            Some(d) => d.start_index + d.intensity@.len() <= self.intensities.length,
            None => true,
        }
    }

    /// Builds the sampler for a decoder's output: an intensity tree sized
    /// to the estimated stream length at `sample_per_second` buckets per
    /// second, and no delta yet.
    pub fn create(decoder: &Decoder, sample_per_second: usize) -> (r: Result<Self, MediaError>)
        requires
            1 <= sample_per_second <= 0x10_0000,
            decoder.sample_rate >= 1,
            decoder.stream_info.wf(),
            -0x4000_0000_0000_0000 <= units::to_micros_spec(
                decoder.stream_info.timebase, decoder.stream_info.start_time.0 as int)
                <= 0x4000_0000_0000_0000,
            2 <= capacity_spec(decoder.estimated_length as int, decoder.sample_rate as int,
                sample_per_second as int) <= 0x1000_0000,
        ensures
            r matches Ok(s) && {
                &&& s.wf()
                &&& s.sample_per_second == sample_per_second
                &&& s.start_time.micros == units::to_micros_spec(
                    decoder.stream_info.timebase, decoder.stream_info.start_time.0 as int)
                &&& s.intensities.length == capacity_spec(
                    decoder.estimated_length as int, decoder.sample_rate as int,
                    sample_per_second as int)
                &&& s.data is None
                &&& forall|i: int| 0 <= i < s.intensities.length
                    ==> s.intensities.leaves()[i] == 0u32
            },
    {
        let est: usize = decoder.estimated_length;
        let rate: usize = decoder.sample_rate as usize;
        let whole: usize = est / rate;
        proof {
            vstd::arithmetic::div_mod::lemma_div_pos_is_pos(est as int, rate as int);
            let su = if (est as int) % (rate as int) == 0 {
                (est as int) / (rate as int)
            } else {
                (est as int) / (rate as int) + 1
            };
            assert(su <= su * (sample_per_second as int)) by (nonlinear_arith)
                requires
                    sample_per_second >= 1,
                    su >= 0,
            ;
        }
        let seconds_up: usize = if est % rate == 0 {
            whole
        } else {
            whole + 1
        };
        let capacity: usize = seconds_up * sample_per_second;
        let intensities: AggregationTree<u32, MaxU32> = AggregationTree::new(capacity, 0u32);
        let start_time: Seconds = decoder.stream_info.start_time_seconds();
        Ok(Sampler {
            start_time,
            sample_per_second,
            intensities,
            data: None,
        })
    }

    /// Drains the accumulated delta.
    pub fn get_delta(&mut self) -> (r: Option<SamplerDeltaData>)
        ensures
            r == old(self).data,
            final(self).data is None,
            final(self).start_time == old(self).start_time,
            final(self).sample_per_second == old(self).sample_per_second,
            final(self).intensities == old(self).intensities,
    {
        let mut out: Option<SamplerDeltaData> = None;
        core::mem::swap(&mut out, &mut self.data);
        out
    }

    /// What processing one frame leaves behind: the tree's data points and
    /// the delta model.  A frame starting before the stream or at or past
    /// the tree's capacity is ignored.
    pub open spec fn process_result(pre: Sampler, f: frame::Audio) -> (Seq<u32>, Option<
        DeltaModel,
    >) {
        let sps = pre.sample_per_second as int;
        let elapsed = f.meta.time.micros - pre.start_time.micros;
        let rate = f.rate as int;
        let length = pre.intensities.length as int;
        let idx0 = bucket_of(sps, elapsed, 0, rate);
        if idx0 < 0 || idx0 >= length {
            (
                pre.intensities.leaves(),
                match pre.data {
                    Some(d) => Some(model_of(d)),
                    None => None,
                },
            )
        } else {
            let d0 = match pre.data {
                Some(d) => model_of(d),
                None => DeltaModel {
                    start_index: idx0,
                    start_us: f.meta.time.micros as int,
                    end_us: f.meta.time.micros as int,
                    intensity: Seq::empty(),
                },
            };
            let init = SamplerState {
                leaves: pre.intensities.leaves(),
                delta: d0,
                index: idx0,
                sum: pre.intensities.leaves()[idx0],
                stopped: false,
            };
            let fin = sample_fold(init, f.samples@, f.samples@.len() as int, sps, elapsed,
                rate, length, f.meta.time.micros as int);
            if fin.stopped {
                (fin.leaves, Some(fin.delta))
            } else {
                (fin.leaves.update(fin.index, fin.sum), Some(fin.delta))
            }
        }
    }
}

/// Truncating division is monotone in the dividend.
proof fn lemma_trunc_div_ordered(a1: int, a2: int, b: int)
    requires
        a1 <= a2,
        b >= 1,
    ensures
        trunc_div(a1, b) <= trunc_div(a2, b),
{
    if a1 >= 0 {
        vstd::arithmetic::div_mod::lemma_div_is_ordered(a1, a2, b);
    } else if a2 < 0 {
        vstd::arithmetic::div_mod::lemma_div_is_ordered(-a2, -a1, b);
    } else {
        vstd::arithmetic::div_mod::lemma_div_pos_is_pos(-a1, b);
        vstd::arithmetic::div_mod::lemma_div_pos_is_pos(a2, b);
    }
}

/// Computes the bucket of the `i`-th sample, exactly as `bucket_of` says.
fn bucket_index_exec(sps: usize, elapsed: i128, rate: u32, i: usize) -> (r: i128)
    requires
        1 <= sps <= 0x10_0000,
        1 <= rate,
        -0x8000_0000_0000_0000 <= elapsed <= 0x8000_0000_0000_0000,
        i <= 0x1_0000_0000,
    ensures
        r == bucket_of(sps as int, elapsed as int, i as int, rate as int),
{
    proof {
        assert(-0x8000_0000_0000_0000 * 0x1_0000_0000
            <= elapsed * (rate as i128)
            <= 0x8000_0000_0000_0000 * 0x1_0000_0000) by (nonlinear_arith)
            requires
                -0x8000_0000_0000_0000 <= elapsed <= 0x8000_0000_0000_0000,
                1 <= (rate as i128) <= 0x1_0000_0000,
        ;
    }
    let v: i128 = elapsed * (rate as i128) + (i as i128) * 1_000_000;
    let den: u128 = 1_000_000u128 * (rate as u128);
    let neg: bool = v < 0;
    let mag: u128 = if v < 0 {
        (-v) as u128
    } else {
        v as u128
    };
    proof {
        assert(mag * (sps as u128) <= 0x2_0000_0000_0000_0000_0000_0000
            * 0x10_0000) by (nonlinear_arith)
            requires
                mag <= 0x2_0000_0000_0000_0000_0000_0000,
                sps <= 0x10_0000,
        ;
    }
    let num: u128 = mag * (sps as u128);
    let q: u128 = num / den;
    let r: i128 = if neg {
        -(q as i128)
    } else {
        q as i128
    };
    proof {
        let a = (sps as int) * ((elapsed as int) * (rate as int) + (i as int) * 1_000_000);
        let b = 1_000_000 * (rate as int);
        assert(den == b);
        if v >= 0 {
            assert(num == a) by (nonlinear_arith)
                requires
                    mag == v,
                    num == mag * (sps as u128),
                    v == (elapsed as int) * (rate as int) + (i as int) * 1_000_000,
                    a == (sps as int) * ((elapsed as int) * (rate as int)
                        + (i as int) * 1_000_000),
            ;
            assert(a >= 0);
            assert(r == trunc_div(a, b));
        } else {
            assert(num == -a) by (nonlinear_arith)
                requires
                    mag == -(v as int),
                    num == mag * (sps as u128),
                    v == (elapsed as int) * (rate as int) + (i as int) * 1_000_000,
                    a == (sps as int) * ((elapsed as int) * (rate as int)
                        + (i as int) * 1_000_000),
            ;
            assert(a < 0) by (nonlinear_arith)
                requires
                    num == -a,
                    num == mag * (sps as u128),
                    mag >= 1,
                    sps >= 1,
                    mag == -(v as int),
                    v < 0,
            ;
            assert(r == trunc_div(a, b));
        }
    }
    r
}

impl AudioSink for Sampler {
    open spec fn sink_empty(&self) -> bool {
        self.data is None
    }

    open spec fn process_req(&self, f: frame::Audio) -> bool {
        &&& self.wf()
        &&& f.rate >= 1
        &&& f.samples@.len() <= 0x1_0000_0000
        &&& -0x4000_0000_0000_0000 <= f.meta.time.micros <= 0x4000_0000_0000_0000
    }

    open spec fn process_ens(pre: Self, post: Self, f: frame::Audio, ok: bool) -> bool {
        &&& ok
        &&& post.wf()
        &&& post.sample_per_second == pre.sample_per_second
        &&& post.start_time == pre.start_time
        &&& post.intensities.length == pre.intensities.length
        &&& ({
            let (leaves2, dm) = Sampler::process_result(pre, f);
            &&& post.intensities.leaves() == leaves2
            &&& delta_models(post.data, dm)
        })
    }

    fn clear(&mut self) {
        self.data = None;
    }

    fn is_empty(&self) -> (r: bool) {
        self.data.is_none()
    }

    #[verifier::loop_isolation(false)]
    #[verifier::rlimit(100)]
    fn process(&mut self, f: frame::Audio) -> (r: Result<(), MediaError>) {
        let ghost pre = *self;
        let sps: usize = self.sample_per_second;
        let length: usize = self.intensities.length;
        let elapsed: i128 = (f.meta.time.micros as i128) - (self.start_time.micros as i128);
        let rate: u32 = f.rate;
        let ghost gsps = sps as int;
        let ghost gelapsed = f.meta.time.micros - pre.start_time.micros;
        let ghost grate = rate as int;
        let ghost glength = length as int;
        let ghost gframe = f.meta.time.micros as int;
        let idx0_s: i128 = bucket_index_exec(sps, elapsed, rate, 0);
        if idx0_s < 0 {
            // before the stream's start: ignore the frame
            return Ok(());
        }
        if idx0_s >= length as i128 {
            // past the tree's capacity: ignore the frame
            return Ok(());
        }
        let idx0: usize = idx0_s as usize;
        if self.data.is_none() {
            self.data = Some(SamplerDeltaData {
                start_index: idx0,
                start_time: f.meta.time,
                end_time: f.meta.time,
                intensity: Vec::new(),
            });
        }
        let mut taken: Option<SamplerDeltaData> = None;
        core::mem::swap(&mut taken, &mut self.data);
        let mut sd: SamplerDeltaData = match taken {
            Some(d) => d,
            None => vstd::pervasive::unreached(),
        };
        let mut index: usize = idx0;
        let mut sum: u32 = self.intensities.at(index);
        let ghost init = SamplerState {
            leaves: pre.intensities.leaves(),
            delta: model_of(sd),
            index: idx0 as int,
            sum: pre.intensities.leaves()[idx0 as int],
            stopped: false,
        };
        let n: usize = f.samples.len();
        let mut i: usize = 0;
        while i < n
            invariant
                i <= n,
                self.sample_per_second == pre.sample_per_second,
                self.start_time == pre.start_time,
                self.data is None,
                self.intensities.wf(),
                self.intensities.length == pre.intensities.length,
                index < length,
                sd.start_index + sd.intensity@.len() <= length,
                ({
                    let cur = sample_fold(init, f.samples@, i as int, gsps, gelapsed, grate,
                        glength, gframe);
                    &&& !cur.stopped
                    &&& cur.leaves == self.intensities.leaves()
                    &&& cur.delta.start_index == sd.start_index
                    &&& cur.delta.start_us == sd.start_time.micros
                    &&& cur.delta.end_us == sd.end_time.micros
                    &&& cur.delta.intensity == sd.intensity@
                    &&& cur.index == index
                    &&& cur.sum == sum
                }),
            decreases n - i,
        {
            let ghost cur = sample_fold(init, f.samples@, i as int, gsps, gelapsed, grate,
                glength, gframe);
            let s: u32 = f.samples[i];
            let ni_s: i128 = bucket_index_exec(sps, elapsed, rate, i);
            proof {
                assert(sample_fold(init, f.samples@, i + 1, gsps, gelapsed, grate, glength,
                    gframe) == sample_step(cur, s, i as int, gsps, gelapsed, grate, glength,
                    gframe));
                // buckets never move backwards below zero
                assert(gsps * (gelapsed * grate + 0 * 1_000_000)
                    <= gsps * (gelapsed * grate + (i as int) * 1_000_000)) by (nonlinear_arith)
                    requires
                        gsps >= 1,
                        i >= 0,
                ;
                lemma_trunc_div_ordered(
                    gsps * (gelapsed * grate + 0 * 1_000_000),
                    gsps * (gelapsed * grate + (i as int) * 1_000_000),
                    1_000_000 * grate,
                );
                assert(ni_s >= idx0_s >= 0);
            }
            if ni_s != index as i128 {
                // the open bucket is finished: commit it to the tree
                let arr: [u32; 1] = [sum];
                self.intensities.set(arr.as_slice(), index);
                proof {
                    assert(self.intensities.leaves()
                        =~= cur.leaves.update(index as int, sum));
                }
                // and to the delta, keeping it contiguous
                let end_dt: u128 = (i as u128) * 1_000_000 / (rate as u128);
                let end_us: i64 = f.meta.time.micros + (end_dt as i64);
                let ghost dpre = model_of(sd);
                let expected_next: usize = sd.start_index + sd.intensity.len();
                if expected_next > index {
                    if index >= sd.start_index {
                        let slot: usize = index - sd.start_index;
                        sd.intensity[slot] = sum;
                    }
                } else {
                    let ghost base = sd.intensity@;
                    while sd.start_index + sd.intensity.len() < index
                        invariant
                            sd.start_index == dpre.start_index,
                            sd.start_time.micros == dpre.start_us,
                            sd.end_time.micros == dpre.end_us,
                            sd.intensity@.len() >= base.len(),
                            sd.start_index + sd.intensity@.len() <= index,
                            sd.intensity@ =~= base + zero_fill(
                                sd.intensity@.len() - base.len()),
                        decreases index - (sd.start_index + sd.intensity@.len()),
                    {
                        sd.intensity.push(0);
                        proof {
                            assert(sd.intensity@ =~= base + zero_fill(
                                sd.intensity@.len() - base.len()));
                        }
                    }
                    sd.intensity.push(sum);
                    sd.end_time = Seconds { micros: end_us };
                    proof {
                        assert(sd.intensity@ =~= dpre.intensity + zero_fill(
                            index - (dpre.start_index + dpre.intensity.len())) + seq![sum]);
                    }
                }
                proof {
                    let d2 = delta_commit(dpre, index as int, sum,
                        gframe + dt_us(i as int, grate));
                    assert(end_dt == dt_us(i as int, grate));
                    assert(model_of(sd).intensity =~= d2.intensity);
                    assert(model_of(sd) == d2);
                }
                if ni_s >= length as i128 {
                    // the rest of the frame falls outside the tree: stop
                    self.data = Some(sd);
                    proof {
                        let nxt = sample_fold(init, f.samples@, i + 1, gsps, gelapsed, grate,
                            glength, gframe);
                        assert(nxt.stopped);
                        lemma_fold_stopped(init, f.samples@, i + 1, n as int, gsps, gelapsed,
                            grate, glength, gframe);
                        assert(self.intensities.leaves() == nxt.leaves);
                    }
                    return Ok(());
                }
                index = ni_s as usize;
                sum = self.intensities.at(index);
            }
            let masked: u32 = s & 0x7fff_ffff;
            sum = MaxU32::combine(sum, masked);
            i = i + 1;
        }
        // commit the still-open bucket to the tree; the delta keeps it open
        let arr2: [u32; 1] = [sum];
        self.intensities.set(arr2.as_slice(), index);
        self.data = Some(sd);
        proof {
            let fin = sample_fold(init, f.samples@, n as int, gsps, gelapsed, grate, glength,
                gframe);
            assert(self.intensities.leaves() =~= fin.leaves.update(fin.index, fin.sum));
        }
        Ok(())
    }
}

/// The audio sink in use: a closed set of two variants sharing one
/// capability interface.
pub enum AudioSinkKind {
    Player(Player),
    Sampler(Sampler),
}

impl AudioSink for AudioSinkKind {
    open spec fn sink_empty(&self) -> bool {
        match self {
            AudioSinkKind::Player(p) => p.sink_empty(),
            AudioSinkKind::Sampler(s) => s.sink_empty(),
        }
    }

    open spec fn process_req(&self, f: frame::Audio) -> bool {
        match self {
            AudioSinkKind::Player(p) => p.process_req(f),
            AudioSinkKind::Sampler(s) => s.process_req(f),
        }
    }

    open spec fn process_ens(pre: Self, post: Self, f: frame::Audio, ok: bool) -> bool {
        match (pre, post) {
            (AudioSinkKind::Player(a), AudioSinkKind::Player(b)) =>
                <Player as AudioSink>::process_ens(a, b, f, ok),
            (AudioSinkKind::Sampler(a), AudioSinkKind::Sampler(b)) =>
                <Sampler as AudioSink>::process_ens(a, b, f, ok),
            _ => false,
        }
    }

    fn clear(&mut self) {
        match self {
            AudioSinkKind::Player(p) => p.clear(),
            AudioSinkKind::Sampler(s) => s.clear(),
        }
    }

    fn is_empty(&self) -> (r: bool) {
        match self {
            AudioSinkKind::Player(p) => p.is_empty(),
            AudioSinkKind::Sampler(s) => s.is_empty(),
        }
    }

    fn process(&mut self, f: frame::Audio) -> (r: Result<(), MediaError>) {
        match self {
            AudioSinkKind::Player(p) => p.process(f),
            AudioSinkKind::Sampler(s) => s.process(f),
        }
    }
}

} // verus!
