//! One open media session: a demuxer model, at most one audio and one video
//! (decoder, sink) pair, and feed/process/seek exposed as one coherent
//! unit.
//!
//! The host pulls packets and decoded frames from the backend and hands
//! them in; the session routes each packet to the matching decoder's byte
//! tracking, delivers each decoded frame to its sink, and turns seeks into
//! backend requests while guaranteeing that no stale frame survives one.

use vstd::prelude::*;
use crate::audio;
use crate::audio::AudioSink;
use crate::demux;
use crate::demux::Demuxer;
use crate::demux::Packet;
use crate::demux::SeekRequest;
use crate::frame;
use crate::internal::MediaError;
use crate::units;
use crate::units::Seconds;
use crate::video;
use crate::video::VideoSink;

verus! {

/// The audio sink's own invariant, by variant.
pub open spec fn audio_sink_wf(s: audio::AudioSinkKind) -> bool {
    match s {
        audio::AudioSinkKind::Player(_) => true,
        audio::AudioSinkKind::Sampler(sam) => sam.wf(),
    }
}

/// The video sink's own invariant, by variant.
pub open spec fn video_sink_wf(s: video::VideoSinkKind) -> bool {
    match s {
        video::VideoSinkKind::Player(_) => true,
        video::VideoSinkKind::Sampler(sam) => sam.wf(),
    }
}

/// One open media file.
pub struct Session {
    pub demuxer: Demuxer,
    pub audio: Option<(audio::Decoder, audio::AudioSinkKind)>,
    pub video: Option<(video::Decoder, video::VideoSinkKind)>,
}

impl Session {
    /// The session invariant: a valid container model and valid open
    /// pairs.
    pub open spec fn wf(&self) -> bool {
        &&& self.demuxer.wf()
        &&& match self.audio {
            Some((d, s)) => d.stream_info.wf() && audio_sink_wf(s),
            None => true,
        }
        &&& match self.video {
            Some((d, s)) => d.stream_info.wf() && video_sink_wf(s),
            None => true,
        }
    }

    pub fn demuxer(&self) -> (r: &Demuxer)
        ensures
            r == &self.demuxer,
    {
        &self.demuxer
    }

    pub fn audio(&self) -> (r: Option<&(audio::Decoder, audio::AudioSinkKind)>)
        ensures
            match r {
                Some(p) => self.audio matches Some(q) && *p == q,
                None => self.audio is None,
            },
    {
        self.audio.as_ref()
    }

    pub fn video(&self) -> (r: Option<&(video::Decoder, video::VideoSinkKind)>)
        ensures
            match r {
                Some(p) => self.video matches Some(q) && *p == q,
                None => self.video is None,
            },
    {
        self.video.as_ref()
    }

    /// Opens a session on a container the host has opened: only the
    /// demuxer; decoders are opened on demand.
    pub fn create(demuxer: Demuxer) -> (r: Session)
        requires
            demuxer.wf(),
        ensures
            r.wf(),
            r.demuxer == demuxer,
            r.audio is None,
            r.video is None,
    {
        Session { demuxer, audio: None, video: None }
    }

    /// Flushes both decoders' byte tracking and clears both sinks, so no
    /// stale frame survives.
    fn flush(&mut self)
        ensures
            final(self).demuxer == old(self).demuxer,
            old(self).audio is Some <==> final(self).audio is Some,
            old(self).video is Some <==> final(self).video is Some,
            match final(self).audio {
                Some((d, s)) => s.sink_empty()
                    && d.stream_info.byte_pos == -1
                    && d.stream_info.byte_pos_can_update == true
                    && (old(self).audio matches Some((d0, _))
                        && d.stream_info.index == d0.stream_info.index
                        && d.stream_info.timebase == d0.stream_info.timebase
                        && d.stream_info.start_time == d0.stream_info.start_time
                        && d.sample_rate == d0.sample_rate
                        && d.estimated_length == d0.estimated_length),
                None => true,
            },
            match final(self).video {
                Some((d, s)) => s.sink_empty()
                    && d.stream_info.byte_pos == -1
                    && d.stream_info.byte_pos_can_update == true
                    && (old(self).video matches Some((d0, _))
                        && d.stream_info.index == d0.stream_info.index
                        && d.stream_info.timebase == d0.stream_info.timebase
                        && d.stream_info.start_time == d0.stream_info.start_time),
                None => true,
            },
    {
        if let Some((d, s)) = &mut self.audio {
            d.flush();
            s.clear();
        }
        if let Some((d, s)) = &mut self.video {
            d.flush();
            s.clear();
        }
    }

    /// Container-level seek: plans the backend request and guarantees that
    /// both decoders are reset and both sinks empty.
    pub fn seek(&mut self, time: Seconds) -> (r: SeekRequest)
        requires
            time.micros > i64::MIN,
        ensures
            r == (SeekRequest::Time { ticks: time.micros }),
            final(self).demuxer == old(self).demuxer,
            match final(self).audio {
                Some((d, s)) => s.sink_empty() && d.stream_info.byte_pos == -1,
                None => old(self).audio is None,
            },
            match final(self).video {
                Some((d, s)) => s.sink_empty() && d.stream_info.byte_pos == -1,
                None => old(self).video is None,
            },
    {
        let req: SeekRequest = self.demuxer.seek(time);
        self.flush();
        req
    }

    /// Raw byte-offset seek with the same reset guarantee.
    pub fn seek_byte_pos(&mut self, pos: i64) -> (r: SeekRequest)
        ensures
            r == (SeekRequest::BytePos { pos }),
            final(self).demuxer == old(self).demuxer,
            match final(self).audio {
                Some((d, s)) => s.sink_empty() && d.stream_info.byte_pos == -1,
                None => old(self).audio is None,
            },
            match final(self).video {
                Some((d, s)) => s.sink_empty() && d.stream_info.byte_pos == -1,
                None => old(self).video is None,
            },
    {
        let req: SeekRequest = self.demuxer.seek_byte_pos(pos);
        self.flush();
        req
    }

    /// Keyframe-aligned seek on the open audio stream, with the same reset
    /// guarantee.
    pub fn seek_audio(&mut self, time: Seconds) -> (r: SeekRequest)
        requires
            old(self).wf(),
            old(self).audio is Some,
            ({
                let (d, _) = old(self).audio->Some_0;
                -0x7fff_ffff_ffff_ffff <= units::from_micros_spec(
                    d.stream_info.timebase, time.micros as int) <= 0x7fff_ffff_ffff_ffff
            }),
        ensures
            ({
                let (d, _) = old(self).audio->Some_0;
                r matches SeekRequest::Stream { stream_index, ticks }
                    && stream_index == d.stream_info.index
                    && ticks == units::from_micros_spec(
                        d.stream_info.timebase, time.micros as int)
            }),
            final(self).demuxer == old(self).demuxer,
            match final(self).audio {
                Some((d, s)) => s.sink_empty() && d.stream_info.byte_pos == -1,
                None => old(self).audio is None,
            },
            match final(self).video {
                Some((d, s)) => s.sink_empty() && d.stream_info.byte_pos == -1,
                None => old(self).video is None,
            },
    {
        let req: SeekRequest = match &self.audio {
            Some((d, _)) => self.demuxer.seek_stream(time, d.stream_info()),
            None => vstd::pervasive::unreached(),
        };
        self.flush();
        req
    }

    /// Keyframe-aligned seek on the open video stream, with the same reset
    /// guarantee.
    pub fn seek_video(&mut self, time: Seconds) -> (r: SeekRequest)
        requires
            old(self).wf(),
            old(self).video is Some,
            ({
                let (d, _) = old(self).video->Some_0;
                -0x7fff_ffff_ffff_ffff <= units::from_micros_spec(
                    d.stream_info.timebase, time.micros as int) <= 0x7fff_ffff_ffff_ffff
            }),
        ensures
            ({
                let (d, _) = old(self).video->Some_0;
                r matches SeekRequest::Stream { stream_index, ticks }
                    && stream_index == d.stream_info.index
                    && ticks == units::from_micros_spec(
                        d.stream_info.timebase, time.micros as int)
            }),
            final(self).demuxer == old(self).demuxer,
            match final(self).audio {
                Some((d, s)) => s.sink_empty() && d.stream_info.byte_pos == -1,
                None => old(self).audio is None,
            },
            match final(self).video {
                Some((d, s)) => s.sink_empty() && d.stream_info.byte_pos == -1,
                None => old(self).video is None,
            },
    {
        let req: SeekRequest = match &self.video {
            Some((d, _)) => self.demuxer.seek_stream(time, d.stream_info()),
            None => vstd::pervasive::unreached(),
        };
        self.flush();
        req
    }

    /// Builds a fresh audio decoder and player sink, replacing any open
    /// audio pair.
    pub fn open_audio_player(
        &mut self,
        index: Option<usize>,
        params: audio::AudioCodecParams,
    ) -> (r: Result<(), MediaError>)
        requires
            old(self).wf(),
            params.time_base.wf(),
            0 <= units::from_micros_spec(params.time_base,
                old(self).demuxer.duration_micros as int) < 0x8000_0000,
        ensures
            final(self).demuxer == old(self).demuxer,
            final(self).video == old(self).video,
            final(self).wf(),
            r is Ok ==> (final(self).audio matches Some((d, s))
                && (s matches audio::AudioSinkKind::Player(p) && p.frames@.len() == 0)
                && (match index {
                    Some(i) => i < old(self).demuxer.streams@.len()
                        && d.stream_info.index == i,
                    None => demux::best_of_kind(&old(self).demuxer, demux::StreamKind::Audio)
                        matches Some(i) && d.stream_info.index == i,
                })),
            r is Err ==> final(self).audio == old(self).audio
                && (match index {
                    Some(i) => i >= old(self).demuxer.streams@.len(),
                    None => demux::best_of_kind(&old(self).demuxer, demux::StreamKind::Audio)
                        is None,
                }),
    {
        let decoder: audio::Decoder = match audio::Decoder::create(&self.demuxer, index,
            params) {
            Ok(d) => d,
            Err(e) => {
                return Err(e);
            },
        };
        let sink: audio::Player = match audio::Player::create(&decoder) {
            Ok(s) => s,
            Err(e) => {
                return Err(e);
            },
        };
        self.audio = Some((decoder, audio::AudioSinkKind::Player(sink)));
        Ok(())
    }

    /// Builds a fresh audio decoder and sampler sink at the given bucket
    /// rate, replacing any open audio pair.
    pub fn open_audio_sampler(
        &mut self,
        index: Option<usize>,
        sample_per_second: usize,
        params: audio::AudioCodecParams,
    ) -> (r: Result<(), MediaError>)
        requires
            old(self).wf(),
            params.time_base.wf(),
            params.sample_rate >= 1,
            1 <= sample_per_second <= 0x10_0000,
            0 <= units::from_micros_spec(params.time_base,
                old(self).demuxer.duration_micros as int) < 0x8000_0000,
            2 <= audio::capacity_spec(
                units::from_micros_spec(params.time_base,
                    old(self).demuxer.duration_micros as int),
                params.sample_rate as int, sample_per_second as int) <= 0x1000_0000,
            forall|i: int| 0 <= i < old(self).demuxer.streams@.len()
                ==> -0x4000_0000_0000_0000 <= units::to_micros_spec(
                    (#[trigger] old(self).demuxer.streams@[i]).timebase,
                    demux::effective_start(old(self).demuxer.streams@[i].start_time_raw)
                        as int) <= 0x4000_0000_0000_0000,
        ensures
            final(self).demuxer == old(self).demuxer,
            final(self).video == old(self).video,
            final(self).wf(),
            r is Ok ==> (final(self).audio matches Some((d, s))
                && (match index {
                    Some(i) => i < old(self).demuxer.streams@.len()
                        && d.stream_info.index == i,
                    None => demux::best_of_kind(&old(self).demuxer, demux::StreamKind::Audio)
                        matches Some(i) && d.stream_info.index == i,
                })
                && (s matches audio::AudioSinkKind::Sampler(sam)
                && sam.wf()
                && sam.sample_per_second == sample_per_second
                && sam.data is None
                && sam.intensities.length == audio::capacity_spec(
                    units::from_micros_spec(params.time_base,
                        old(self).demuxer.duration_micros as int),
                    params.sample_rate as int, sample_per_second as int)
                && (forall|i: int| 0 <= i < sam.intensities.length
                    ==> sam.intensities.leaves()[i] == 0u32))),
            r is Err ==> final(self).audio == old(self).audio
                && (match index {
                    Some(i) => i >= old(self).demuxer.streams@.len(),
                    None => demux::best_of_kind(&old(self).demuxer, demux::StreamKind::Audio)
                        is None,
                }),
    {
        let decoder: audio::Decoder = match audio::Decoder::create(&self.demuxer, index,
            params) {
            Ok(d) => d,
            Err(e) => {
                return Err(e);
            },
        };
        let sink: audio::Sampler = match audio::Sampler::create(&decoder, sample_per_second) {
            Ok(s) => s,
            Err(e) => {
                return Err(e);
            },
        };
        self.audio = Some((decoder, audio::AudioSinkKind::Sampler(sink)));
        Ok(())
    }

    /// Builds a fresh video decoder and player sink, replacing any open
    /// video pair.  `hw_host_format` is the host-memory format the hardware
    /// transfer produces, used only on the accelerated path.
    pub fn open_video_player(
        &mut self,
        index: Option<usize>,
        params: video::VideoCodecParams,
        hw_host_format: i32,
    ) -> (r: Result<(), MediaError>)
        requires
            old(self).wf(),
            units::round_div(
                params.width * video::sar_normalize(params.sample_aspect_ratio).den as int,
                video::sar_normalize(params.sample_aspect_ratio).num as int) <= u32::MAX,
        ensures
            final(self).demuxer == old(self).demuxer,
            final(self).audio == old(self).audio,
            final(self).wf(),
            r is Ok ==> (final(self).video matches Some((d, s))
                && (match index {
                    Some(i) => i < old(self).demuxer.streams@.len()
                        && d.stream_info.index == i,
                    None => demux::best_of_kind(&old(self).demuxer, demux::StreamKind::Video)
                        matches Some(i) && d.stream_info.index == i,
                })
                && (s matches video::VideoSinkKind::Player(p) && p.frames@.len() == 0)
                && d.sample_aspect_ratio == video::sar_normalize(params.sample_aspect_ratio)
                && d.accelerated == params.accelerated
                && d.is_vfr == (params.frame_rate != params.avg_frame_rate)),
            r is Err ==> final(self).video == old(self).video
                && (match index {
                    Some(i) => i >= old(self).demuxer.streams@.len(),
                    None => demux::best_of_kind(&old(self).demuxer, demux::StreamKind::Video)
                        is None,
                }),
    {
        let decoder: video::Decoder = match video::Decoder::create(&self.demuxer, index,
            params) {
            Ok(d) => d,
            Err(e) => {
                return Err(e);
            },
        };
        let sink: video::Player = match video::Player::create(&decoder, hw_host_format) {
            Ok(s) => s,
            Err(e) => {
                return Err(e);
            },
        };
        self.video = Some((decoder, video::VideoSinkKind::Player(sink)));
        Ok(())
    }

    /// Builds a fresh video decoder and sampler sink, replacing any open
    /// video pair.  The sampling path always decodes in software: hardware
    /// acceleration is switched off whatever the codec facts say.
    pub fn open_video_sampler(
        &mut self,
        index: Option<usize>,
        params: video::VideoCodecParams,
    ) -> (r: Result<(), MediaError>)
        requires
            old(self).wf(),
        ensures
            final(self).demuxer == old(self).demuxer,
            final(self).audio == old(self).audio,
            final(self).wf(),
            r is Ok ==> (final(self).video matches Some((d, s))
                && (match index {
                    Some(i) => i < old(self).demuxer.streams@.len()
                        && d.stream_info.index == i,
                    None => demux::best_of_kind(&old(self).demuxer, demux::StreamKind::Video)
                        matches Some(i) && d.stream_info.index == i,
                })
                && d.accelerated == false
                && (s matches video::VideoSinkKind::Sampler(sam)
                && sam.frames@.len() == 0 && sam.keyframes@.len() == 0
                && sam.data is None)),
            r is Err ==> final(self).video == old(self).video
                && (match index {
                    Some(i) => i >= old(self).demuxer.streams@.len(),
                    None => demux::best_of_kind(&old(self).demuxer, demux::StreamKind::Video)
                        is None,
                }),
    {
        let software_params: video::VideoCodecParams = video::VideoCodecParams {
            accelerated: false,
            ..params
        };
        let decoder: video::Decoder = match video::Decoder::create(&self.demuxer, index,
            software_params) {
            Ok(d) => d,
            Err(e) => {
                return Err(e);
            },
        };
        let sink: video::Sampler = match video::Sampler::create(&decoder) {
            Ok(s) => s,
            Err(e) => {
                return Err(e);
            },
        };
        self.video = Some((decoder, video::VideoSinkKind::Sampler(sink)));
        Ok(())
    }

    /// Routes one demuxed packet: each open decoder whose stream index
    /// matches gets its byte tracking anchored, ready for the host to
    /// submit the packet.  Returns `false` at end of stream.
    pub fn try_feed(&mut self, next: Option<(usize, Packet)>) -> (r: bool)
        ensures
            final(self).demuxer == old(self).demuxer,
            r == next is Some,
            next is None ==> final(self).audio == old(self).audio
                && final(self).video == old(self).video,
            match (next, old(self).audio, final(self).audio) {
                (Some((i, p)), Some((d0, s0)), Some((d1, s1))) => {
                    &&& s1 == s0
                    &&& (d0.stream_info.index == i ==> d1.stream_info.byte_pos == (
                        if d0.stream_info.byte_pos_can_update {
                            p.position
                        } else {
                            d0.stream_info.byte_pos
                        }) && d1.stream_info.byte_pos_can_update
                            == d0.stream_info.byte_pos_can_update)
                    &&& (d0.stream_info.index != i ==> d1 == d0)
                },
                (Some(_), None, None) => true,
                (None, _, _) => true,
                _ => false,
            },
            match (next, old(self).video, final(self).video) {
                (Some((i, p)), Some((d0, s0)), Some((d1, s1))) => {
                    &&& s1 == s0
                    &&& (d0.stream_info.index == i ==> d1.stream_info.byte_pos == (
                        if d0.stream_info.byte_pos_can_update {
                            p.position
                        } else {
                            d0.stream_info.byte_pos
                        }) && d1.stream_info.byte_pos_can_update
                            == d0.stream_info.byte_pos_can_update)
                    &&& (d0.stream_info.index != i ==> d1 == d0)
                },
                (Some(_), None, None) => true,
                (None, _, _) => true,
                _ => false,
            },
    {
        let (i, packet): (usize, Packet) = match next {
            Some(p) => p,
            None => {
                return false;
            },
        };
        if let Some((d, _)) = &mut self.audio {
            if d.stream_info.index == i {
                d.begin_feed(&packet);
            }
        }
        if let Some((d, _)) = &mut self.video {
            if d.stream_info.index == i {
                d.begin_feed(&packet);
            }
        }
        true
    }

    /// Whether at least one open sink holds pending output.  This is the
    /// budgeted work loop's stop condition: yield once the budget is spent
    /// and something has actually been produced.
    pub fn any_output_pending(&self) -> (r: bool)
        ensures
            r == ((match self.audio {
                Some((_, s)) => !s.sink_empty(),
                None => false,
            }) || (match self.video {
                Some((_, s)) => !s.sink_empty(),
                None => false,
            })),
    {
        let a: bool = match &self.audio {
            Some((_, s)) => !s.is_empty(),
            None => false,
        };
        let v: bool = match &self.video {
            Some((_, s)) => !s.is_empty(),
            None => false,
        };
        a || v
    }

    /// Per-medium readiness for the skip-ahead loop, which runs until every
    /// open sink holds output: a closed medium counts as ready, since
    /// nothing more can arrive for it.
    pub fn output_ready(&self) -> (r: (bool, bool))
        ensures
            r.0 == match self.audio {
                Some((_, s)) => !s.sink_empty(),
                None => true,
            },
            r.1 == match self.video {
                Some((_, s)) => !s.sink_empty(),
                None => true,
            },
    {
        let a: bool = match &self.audio {
            Some((_, s)) => !s.is_empty(),
            None => true,
        };
        let v: bool = match &self.video {
            Some((_, s)) => !s.is_empty(),
            None => true,
        };
        (a, v)
    }

    /// Delivers at most one decoded frame per open stream into its sink,
    /// skipping frames before `when`, and counts how many were delivered.
    pub fn try_process_skipping_before(
        &mut self,
        when: Seconds,
        audio_frame: Option<frame::Audio>,
        video_frame: Option<frame::Video>,
    ) -> (r: Result<i32, MediaError>)
        requires
            audio_frame is Some ==> old(self).audio is Some,
            video_frame is Some ==> old(self).video is Some,
            match (old(self).audio, audio_frame) {
                (Some((_, s)), Some(f)) => f.meta.time.micros >= when.micros
                    ==> s.process_req(f),
                _ => true,
            },
            match (old(self).video, video_frame) {
                (Some((_, s)), Some(f)) => f.meta.time.micros >= when.micros
                    ==> s.process_req(f),
                _ => true,
            },
        ensures
            final(self).demuxer == old(self).demuxer,
            ({
                let a_used = match (old(self).audio, audio_frame) {
                    (Some(_), Some(f)) => f.meta.time.micros >= when.micros,
                    _ => false,
                };
                let v_used = match (old(self).video, video_frame) {
                    (Some(_), Some(f)) => f.meta.time.micros >= when.micros,
                    _ => false,
                };
                &&& r matches Ok(c) && c == (if a_used { 1int } else { 0int })
                    + (if v_used { 1int } else { 0int })
                &&& (a_used ==> (old(self).audio matches Some((d0, s0))
                    && (final(self).audio matches Some((d1, s1)) && d1 == d0
                    && audio::AudioSinkKind::process_ens(
                        s0, s1, audio_frame->Some_0, true))))
                &&& (!a_used ==> final(self).audio == old(self).audio)
                &&& (v_used ==> (old(self).video matches Some((d0, s0))
                    && (final(self).video matches Some((d1, s1)) && d1 == d0
                    && video::VideoSinkKind::process_ens(
                        s0, s1, video_frame->Some_0, true))))
                &&& (!v_used ==> final(self).video == old(self).video)
            }),
    {
        let mut count: i32 = 0;
        if let Some(f) = audio_frame {
            if f.meta.time.micros >= when.micros {
                match &mut self.audio {
                    Some((_, s)) => {
                        let res: Result<(), MediaError> = s.process(f);
                        if let Err(e) = res {
                            return Err(e);
                        }
                        count = count + 1;
                    },
                    None => {
                        proof {
                            assert(false);
                        }
                    },
                }
            }
        }
        if let Some(f) = video_frame {
            if f.meta.time.micros >= when.micros {
                match &mut self.video {
                    Some((_, s)) => {
                        let res: Result<(), MediaError> = s.process(f);
                        if let Err(e) = res {
                            return Err(e);
                        }
                        count = count + 1;
                    },
                    None => {
                        proof {
                            assert(false);
                        }
                    },
                }
            }
        }
        Ok(count)
    }

    /// Delivers at most one decoded frame per open stream into its sink
    /// and counts how many were delivered.
    pub fn try_process(
        &mut self,
        audio_frame: Option<frame::Audio>,
        video_frame: Option<frame::Video>,
    ) -> (r: Result<i32, MediaError>)
        requires
            audio_frame is Some ==> old(self).audio is Some,
            video_frame is Some ==> old(self).video is Some,
            match (old(self).audio, audio_frame) {
                (Some((_, s)), Some(f)) => s.process_req(f),
                _ => true,
            },
            match (old(self).video, video_frame) {
                (Some((_, s)), Some(f)) => s.process_req(f),
                _ => true,
            },
        ensures
            final(self).demuxer == old(self).demuxer,
            ({
                let a_used = old(self).audio is Some && audio_frame is Some;
                let v_used = old(self).video is Some && video_frame is Some;
                &&& r matches Ok(c) && c == (if a_used { 1int } else { 0int })
                    + (if v_used { 1int } else { 0int })
                &&& (a_used ==> (old(self).audio matches Some((d0, s0))
                    && (final(self).audio matches Some((d1, s1)) && d1 == d0
                    && audio::AudioSinkKind::process_ens(
                        s0, s1, audio_frame->Some_0, true))))
                &&& (!a_used ==> final(self).audio == old(self).audio)
                &&& (v_used ==> (old(self).video matches Some((d0, s0))
                    && (final(self).video matches Some((d1, s1)) && d1 == d0
                    && video::VideoSinkKind::process_ens(
                        s0, s1, video_frame->Some_0, true))))
                &&& (!v_used ==> final(self).video == old(self).video)
            }),
    {
        self.try_process_skipping_before(Seconds { micros: i64::MIN }, audio_frame,
            video_frame)
    }
}

} // verus!
