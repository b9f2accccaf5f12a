//! Annex-B NAL unit demuxing, a decoder session protocol and YUV 4:2:0 to RGB
//! conversion, with machine-checked contracts.

pub mod color;
pub mod error;
pub mod nal;
pub mod picture;
pub mod pipeline;
pub mod ppm;
pub mod session;
