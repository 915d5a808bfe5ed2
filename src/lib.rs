//! Splitting downloaded videos into bounded-length parts: manifest parsing,
//! the decision to merge an undersized tail part, and the per-video workflow.

pub mod duration;
pub mod errors;
pub mod ffmpeg;
pub mod merge;
pub mod playlist;
pub mod seconds;
pub mod session;
pub mod chars;
pub mod text;
