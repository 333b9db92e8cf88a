//! Songs, artists and albums as the library stores them.
use vstd::prelude::*;

verus! {

/// `std::time::Instant`, an opaque point in time.
#[verifier::external_type_specification]
#[verifier::external_body]
pub struct ExInstant(std::time::Instant);

/// A song together with its artist and album.
#[allow(dead_code)]
pub struct FullSongContext<'a> {
    song: &'a Song,
    artist: &'a Artist,
    album: &'a Album,
}

/// A song of the library.
#[allow(dead_code)]
pub struct Song {
    id: Vec<u8>,
    title: String,
    duration_ms: u32,
    artist_id: Vec<u8>,
    album_id: Vec<u8>,
    track_number: i8,
}

/// An artist of the library.
#[allow(dead_code)]
pub struct Artist {
    id: Vec<u8>,
    name: String,
}

/// An album of the library.
#[allow(dead_code)]
pub struct Album {
    id: Vec<u8>,
    artist_id: Vec<u8>,
    name: String,
    release_date: std::time::Instant,
    track_count: u8,
    duration_ms: u32,
}

} // verus!
