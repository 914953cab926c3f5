//! Decisions and text handling of a yt-dlp front end.
pub mod base64;
pub mod downloads;
pub mod json;
pub mod metadata;
pub mod recording;
pub mod registry;
pub mod setup;
pub mod text;
pub mod ytdlp;
