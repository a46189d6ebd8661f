//! Where media lives on disk, which database file a URL names, and what the
//! transcoder is asked to produce.
pub mod database;
pub mod ffmpeg;
pub mod storage;
