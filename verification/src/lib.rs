//! Decision core of a media toolkit: which streams are kept, how packets
//! are timed, when buffers are flushed and what every failure reports.

pub mod text;
pub mod errors;
pub mod media;
pub mod audio;
pub mod clock;
pub mod source_clock;
pub mod audio_flow;
pub mod cancel;
pub mod progress;
pub mod path;
pub mod input;
pub mod atomic_output;
pub mod video;
pub mod video_flow;
pub mod remux;
pub mod concat_layout;
pub mod concat;
pub mod extract_frame;
pub mod transcode_plan;
pub mod transcode;
pub mod extract_audio;
pub mod metadata;
pub mod probe;
pub mod version;
