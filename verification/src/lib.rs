//! Supervision core of a desktop front end for the `yt-dlp` and `ffmpeg`
//! tools: what to launch, how to read what the tools print, and how the
//! set-up of the tools and a queue of downloads move from one state to the
//! next. Everything here works on plain values; processes, files and the
//! network belong to the program around it.

pub mod archive;
pub mod config;
pub mod downloader;
pub mod initializer;
pub mod percent;
pub mod platform;
pub mod playlist;
pub mod session;
pub mod text;

