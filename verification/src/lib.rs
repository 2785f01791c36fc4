//! Core of a media decode-and-sampling session engine.
//!
//! The crate models one open media session: a demuxer description, per-medium
//! decoder bookkeeping, and two interchangeable frame consumers (player and
//! sampler sinks).  All decisions — packet routing, timestamp rescaling,
//! decoder-full recovery, incremental aggregation — are verified here over
//! plain values; the host process performs the actual container and codec
//! calls and feeds their results back in.

pub mod aggregation_tree;
pub mod audio;
pub mod demux;
pub mod disjoint_interval_set;
pub mod encoding;
pub mod frame;
pub mod history;
pub mod internal;
pub mod registry;
pub mod session;
pub mod subset;
pub mod units;
pub mod video;
pub mod wire;
