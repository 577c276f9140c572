//! Reading RIFF-based astronomy video containers and turning raw sensor
//! frames into displayable BGRA buffers.

pub mod avi;
pub mod codec;
pub mod debayer;
pub mod error;
pub mod fourcc;
pub mod le;
pub mod riff;
pub mod sample;
pub mod ui;
pub mod video_format;
