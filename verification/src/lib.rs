//! Planning and analysis logic for a video-preparation tool: reading the
//! stream list that ffprobe reports, recommending an audio track, measuring
//! the audio/video start offset, and building the ffmpeg argument lists for
//! every requested output.

pub mod text;
pub mod paths;
pub mod json;
pub mod probe;
pub mod encode;
pub mod tools;
pub mod mpvdl;
pub mod player;
pub mod laws;
