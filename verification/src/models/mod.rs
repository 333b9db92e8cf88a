//! The library's records: songs, artists and albums.
pub mod song;
