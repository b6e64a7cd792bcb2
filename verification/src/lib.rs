//! Decision logic of a video-trigger pipeline driven by an external `ffmpeg`
//! process: the ffmpeg command line and filter graph, the size of the video
//! read from ffmpeg's log, the routing of raw frames read from ffmpeg's
//! standard output to the triggers, the bytes written to ffmpeg's standard
//! input, and the pipeline builder.
pub mod text;
pub mod command;
pub mod frames;
pub mod stdin;
pub mod pipeline;
pub mod video_size;
