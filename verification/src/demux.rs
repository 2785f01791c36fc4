//! The demuxer model: the container's stream table and seek planning.
//!
//! The backend library opens the container and reads packets; this model
//! holds what the logic reads from it — per-stream time bases, start times,
//! kinds and labels, the container duration, and the backend's best-stream
//! choices — and performs stream resolution and seek-target rescaling as
//! verified computations.  A seek is returned as a request for the host to
//! execute against the backend.

use vstd::prelude::*;
use crate::internal::MediaError;
use crate::units;
use crate::units::Rational;
use crate::units::Seconds;
use crate::units::Timestamp;

verus! {

/// The backend's "no presentation timestamp" marker.
pub const NO_PTS: i64 = i64::MIN;

/// Kind of an elementary stream.
#[derive(Clone, Copy, Debug, PartialEq, Eq, Structural)]
pub enum StreamKind {
    Video,
    Audio,
    Subtitle,
    Unknown,
}

/// Stream kind as reported to the host.
#[derive(Clone, Copy, Debug, PartialEq, Eq, Structural)]
pub enum SerializableStreamKind {
    Audio,
    Video,
    Subtitle,
    Unknown,
}

/// One row of the container's stream table, as the backend reports it.
pub struct RawStream {
    /// Position of the stream in the container.
    pub index: usize,
    /// The stream's time base.
    pub timebase: Rational,
    /// The stream's start time in its own time base; `NO_PTS` when absent.
    pub start_time_raw: i64,
    /// The medium of the stream.
    pub kind: StreamKind,
    /// Language tag from the stream metadata, if any.
    pub language: Option<String>,
    /// Resolved codec identifier, if any.
    pub codec_id: Option<String>,
}

/// A stream description for the host.
pub struct StreamDescription {
    pub kind: SerializableStreamKind,
    pub index: usize,
    pub language_code: String,
    pub codec_id: Option<String>,
}

/// Resolved facts about one stream plus the decoder's byte-position
/// tracking, which the decoder mutates per packet.
#[derive(Clone, Copy)]
pub struct StreamInfo {
    pub index: usize,
    pub timebase: Rational,
    pub start_time: Timestamp,
    /// Whether the next packet fed may re-anchor `byte_pos`.
    pub byte_pos_can_update: bool,
    /// Byte position of the packet owning the next produced frame
    /// (`-1` when unknown).
    pub byte_pos: i64,
}

/// The effective start time: an absent start time counts as zero.
pub open spec fn effective_start(raw: i64) -> i64 {
    if raw == NO_PTS {
        0
    } else {
        raw
    }
}

impl StreamInfo {
    /// The time base is usable and the start time rescales into range.
    pub open spec fn wf(&self) -> bool {
        &&& self.timebase.wf()
        &&& -0x7fff_ffff_ffff_ffff
            <= units::to_micros_spec(self.timebase, self.start_time.0 as int)
            <= 0x7fff_ffff_ffff_ffff
    }

    pub fn index(&self) -> (r: usize)
        ensures
            r == self.index,
    {
        self.index
    }

    pub fn timebase(&self) -> (r: Rational)
        ensures
            r == self.timebase,
    {
        self.timebase
    }

    pub fn start_time(&self) -> (r: Timestamp)
        ensures
            r == self.start_time,
    {
        self.start_time
    }

    /// The stream's start time in the canonical time domain.
    pub fn start_time_seconds(&self) -> (r: Seconds)
        requires
            self.wf(),
        ensures
            r.micros == units::to_micros_spec(self.timebase, self.start_time.0 as int),
    {
        self.start_time.to_seconds(self.timebase)
    }
}

/// One demuxed packet, as far as the engine reads it: the byte position it
/// was read at.
pub struct Packet {
    pub position: i64,
}

/// A seek for the host to execute against the backend container.
pub enum SeekRequest {
    /// Container-level seek to a tick count in the canonical time base,
    /// bound above by the target.
    Time { ticks: i64 },
    /// Backward-biased, keyframe-aligned seek on one stream, in that
    /// stream's own time base.
    Stream { stream_index: usize, ticks: i64 },
    /// Raw byte-offset seek.
    BytePos { pos: i64 },
}

/// What the engine knows of one open container.
pub struct Demuxer {
    /// The container's stream table.
    pub streams: Vec<RawStream>,
    /// Container duration in canonical ticks (microseconds).
    pub duration_micros: i64,
    /// The backend's best audio stream, if any.
    pub best_audio: Option<usize>,
    /// The backend's best video stream, if any.
    pub best_video: Option<usize>,
}

impl Demuxer {
    /// Stream table rows sit at their own indices, time bases are usable,
    /// start times rescale into range, and best-stream choices are valid.
    pub open spec fn wf(&self) -> bool {
        &&& forall|i: int| 0 <= i < self.streams@.len()
            ==> (#[trigger] self.streams@[i]).index == i
        &&& forall|i: int| 0 <= i < self.streams@.len()
            ==> (#[trigger] self.streams@[i]).timebase.wf()
        &&& forall|i: int| 0 <= i < self.streams@.len()
            ==> -0x7fff_ffff_ffff_ffff <= units::to_micros_spec(
                (#[trigger] self.streams@[i]).timebase,
                effective_start(self.streams@[i].start_time_raw) as int,
            ) <= 0x7fff_ffff_ffff_ffff
        &&& match self.best_audio {
            Some(i) => i < self.streams@.len(),
            None => true,
        }
        &&& match self.best_video {
            Some(i) => i < self.streams@.len(),
            None => true,
        }
    }

    /// Assembles the model of an open container from what the backend
    /// reported.
    pub fn new(
        streams: Vec<RawStream>,
        duration_micros: i64,
        best_audio: Option<usize>,
        best_video: Option<usize>,
    ) -> (r: Demuxer)
        requires
            ({
                let d = Demuxer { streams, duration_micros, best_audio, best_video };
                d.wf()
            }),
        ensures
            r.wf(),
            r.streams == streams,
            r.duration_micros == duration_micros,
            r.best_audio == best_audio,
            r.best_video == best_video,
    {
        Demuxer { streams, duration_micros, best_audio, best_video }
    }

    /// The container duration in the canonical time domain.
    pub fn duration(&self) -> (r: Seconds)
        ensures
            r.micros == self.duration_micros,
            r.micros == units::to_micros_spec(
                units::default_timebase_spec(), self.duration_micros as int),
    {
        proof {
            units::lemma_default_timebase_identity(self.duration_micros as int);
        }
        Seconds { micros: self.duration_micros }
    }

    /// Describes every stream for the host: kind, index, language tag
    /// (defaulting to "--"), and codec identifier when resolvable.
    pub fn describe_streams(&self) -> (r: Vec<StreamDescription>)
        ensures
            r@.len() == self.streams@.len(),
            forall|i: int| 0 <= i < r@.len() ==> equals_description(
                #[trigger] r@[i], self.streams@[i]),
    {
        let mut out: Vec<StreamDescription> = Vec::new();
        let n: usize = self.streams.len();
        let mut i: usize = 0;
        while i < n
            invariant
                i <= n,
                n == self.streams@.len(),
                out@.len() == i,
                forall|k: int| 0 <= k < i ==> equals_description(
                    #[trigger] out@[k], self.streams@[k]),
            decreases n - i,
        {
            let s: &RawStream = &self.streams[i];
            let language_code: String = match &s.language {
                Some(l) => l.clone(),
                None => default_language_tag(),
            };
            let codec_id: Option<String> = match &s.codec_id {
                Some(c) => Some(c.clone()),
                None => None,
            };
            let kind: SerializableStreamKind = match s.kind {
                StreamKind::Video => SerializableStreamKind::Video,
                StreamKind::Audio => SerializableStreamKind::Audio,
                StreamKind::Subtitle => SerializableStreamKind::Subtitle,
                StreamKind::Unknown => SerializableStreamKind::Unknown,
            };
            out.push(StreamDescription { kind, index: s.index, language_code, codec_id });
            i = i + 1;
        }
        out
    }

    /// Resolves the stream at `index`: its time base and effective start
    /// time, with byte tracking reset.  An invalid index is an internal
    /// error.
    pub fn get_stream_from_index(&self, index: usize) -> (r: Result<StreamInfo, MediaError>)
        requires
            self.wf(),
        ensures
            index < self.streams@.len() ==> (r matches Ok(info)
                && info.index == index
                && info.timebase == self.streams@[index as int].timebase
                && info.start_time.0 == effective_start(
                    self.streams@[index as int].start_time_raw)
                && info.byte_pos_can_update == true
                && info.byte_pos == -1
                && info.wf()),
            index >= self.streams@.len() ==> (r matches Err(e) && e.is_internal()),
    {
        if index >= self.streams.len() {
            return Err(MediaError::InternalError(
                "get_stream_from_index: invalid stream index".to_owned()));
        }
        let s: &RawStream = &self.streams[index];
        let start_raw: i64 = s.start_time_raw;
        let start_time: Timestamp = if start_raw == NO_PTS {
            Timestamp(0)
        } else {
            Timestamp(start_raw)
        };
        Ok(StreamInfo {
            index,
            timebase: s.timebase,
            start_time,
            byte_pos_can_update: true,
            byte_pos: -1,
        })
    }

    /// Resolves the backend's best stream of the given kind.  Only audio
    /// and video carry a best-of-kind choice; a missing stream is an
    /// internal error.
    pub fn get_stream_from_kind(&self, kind: StreamKind) -> (r: Result<StreamInfo, MediaError>)
        requires
            self.wf(),
        ensures
            match best_of_kind(self, kind) {
                Some(i) => r matches Ok(info) && info.index == i
                    && info.timebase == self.streams@[i as int].timebase
                    && info.start_time.0 == effective_start(
                        self.streams@[i as int].start_time_raw)
                    && info.byte_pos_can_update == true
                    && info.byte_pos == -1
                    && info.wf(),
                None => r matches Err(e) && e.is_internal(),
            },
    {
        let best: Option<usize> = match kind {
            StreamKind::Audio => self.best_audio,
            StreamKind::Video => self.best_video,
            _ => None,
        };
        match best {
            Some(i) => self.get_stream_from_index(i),
            None => Err(MediaError::InternalError(
                "get_stream_from_kind: no stream of this kind".to_owned())),
        }
    }

    /// Plans a container-level seek: the target rescaled to canonical
    /// ticks, bound above by itself.
    pub fn seek(&self, time: Seconds) -> (r: SeekRequest)
        requires
            time.micros > i64::MIN,
        ensures
            r == (SeekRequest::Time { ticks: time.micros }),
    {
        proof {
            units::lemma_default_timebase_identity(time.micros as int);
        }
        let Timestamp(rescaled) = Timestamp::from_seconds(time, units::default_timebase());
        SeekRequest::Time { ticks: rescaled }
    }

    /// Plans a backward-biased, keyframe-aligned seek on one stream, in
    /// that stream's own time base.
    pub fn seek_stream(&self, time: Seconds, stream: &StreamInfo) -> (r: SeekRequest)
        requires
            stream.wf(),
            -0x7fff_ffff_ffff_ffff
                <= units::from_micros_spec(stream.timebase, time.micros as int)
                <= 0x7fff_ffff_ffff_ffff,
        ensures
            r matches SeekRequest::Stream { stream_index, ticks }
                && stream_index == stream.index
                && ticks == units::from_micros_spec(stream.timebase, time.micros as int),
    {
        let Timestamp(rescaled) = Timestamp::from_seconds(time, stream.timebase);
        SeekRequest::Stream { stream_index: stream.index, ticks: rescaled }
    }

    /// Plans a raw byte-offset seek.
    pub fn seek_byte_pos(&self, pos: i64) -> (r: SeekRequest)
        ensures
            r == (SeekRequest::BytePos { pos }),
    {
        SeekRequest::BytePos { pos }
    }
}

/// The backend's best stream of a kind, as the model records it.
pub open spec fn best_of_kind(d: &Demuxer, kind: StreamKind) -> Option<usize> {
    match kind {
        StreamKind::Audio => d.best_audio,
        StreamKind::Video => d.best_video,
        _ => None,
    }
}

/// The language tag reported when a stream has none.
pub fn default_language_tag() -> (r: String)
    ensures
        r@ == "--"@,
{
    "--".to_owned()
}

/// The description row matches the stream table row.
pub open spec fn equals_description(d: StreamDescription, s: RawStream) -> bool {
    &&& d.index == s.index
    &&& d.kind == (match s.kind {
        StreamKind::Video => SerializableStreamKind::Video,
        StreamKind::Audio => SerializableStreamKind::Audio,
        StreamKind::Subtitle => SerializableStreamKind::Subtitle,
        StreamKind::Unknown => SerializableStreamKind::Unknown,
    })
    &&& (match s.language {
        Some(l) => d.language_code == l,
        None => d.language_code@ == "--"@,
    })
    &&& (match s.codec_id {
        Some(c) => d.codec_id matches Some(x) && x == c,
        None => d.codec_id is None,
    })
}

} // verus!
