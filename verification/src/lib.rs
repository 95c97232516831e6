//! Conversion of raw video captures into MP4 containers.
//!
//! A raw capture is an index of frame records. The library selects the single
//! video track of the output from the first video frame, turns the frames that
//! follow it into timed samples, and hands track and samples to the `mp4`
//! muxer, which serialises the container into memory.

pub mod convert;
pub mod error;
pub mod frame;
pub mod mux;
pub mod output_path;
pub mod plan;
pub mod sample;
pub mod timing;
pub mod track;
