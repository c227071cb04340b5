//! Playback logic of a media player: what to decode, convert, show and skip.

// Numbers and text.
pub mod bytes;
pub mod text;
pub mod timing;

// Opening a source.
pub mod context;
pub mod hdr;
pub mod hw_accel;
pub mod launch;
pub mod probe;

// Decoding.
pub mod audio;
pub mod pcm;
pub mod pixel;
pub mod subtitle;
pub mod tempo;
pub mod video;

// Playback.
pub mod cpu_probe;
pub mod demuxer;
pub mod pipeline;
pub mod seek;
pub mod video_worker;

// The screen.
pub mod color;
pub mod frame_upload;
pub mod icon;
pub mod video_callback;
pub mod video_renderer;
pub mod zero_copy;
