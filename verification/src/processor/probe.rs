//! What ffprobe reports of an audio file, and how it is asked.
use vstd::prelude::*;
use crate::storage::words::chars_of_strings;

verus! {

/// The streams and container format ffprobe found in a file.
pub struct ProbeData {
    pub streams: Vec<Stream>,
    pub format: Format,
}

/// One stream of the file.
pub struct Stream {
    /// "audio", "video", ...
    pub codec_type: String,
    pub codec: Option<String>,
    /// The bitrate, as ffprobe writes it (a decimal string).
    pub bitrate: Option<String>,
    pub channels: Option<u32>,
    /// "stereo", "mono", ...
    pub channel_layout: Option<String>,
    pub duration: Option<String>,
}

/// The container format of the file.
pub struct Format {
    pub filename: String,
    pub nb_streams: u32,
    pub nb_programs: u32,
    pub nb_stream_groups: u32,
    pub format_name: String,
    pub format_long_name: String,
    pub start_time: Option<String>,
    pub duration: Option<String>,
    pub size: Option<String>,
    pub bit_rate: Option<String>,
    pub probe_score: u32,
    pub tags: Option<FormatTags>,
}

/// The metadata tags of the container.
#[allow(non_snake_case)]
pub struct FormatTags {
    pub major_brand: Option<String>,
    pub minor_version: Option<String>,
    pub compatible_brands: Option<String>,
    pub creation_time: Option<String>,
    pub title: Option<String>,
    pub artist: Option<String>,
    pub album_artist: Option<String>,
    pub album: Option<String>,
    pub composer: Option<String>,
    pub genre: Option<String>,
    /// "1/1"
    pub track: Option<String>,
    /// "1/1"
    pub disc: Option<String>,
    pub date: Option<String>,
    pub copyright: Option<String>,
    pub iTunSMPB: Option<String>,
    pub iTunNORM: Option<String>,
    pub compilation: Option<String>,
    pub gapless_playback: Option<String>,
    pub media_type: Option<String>,
    pub purchase_date: Option<String>,
    pub sort_name: Option<String>,
    pub sort_album: Option<String>,
    pub sort_artist: Option<String>,
}

/// The arguments ffprobe is run with to describe `path` as JSON, with
/// warnings only on its log.
pub open spec fn probe_args_of(path: Seq<char>) -> Seq<Seq<char>> {
    seq![
        "-loglevel"@,
        "warning"@,
        "-show_format"@,
        "-show_streams"@,
        "-print_format"@,
        "json"@,
        path,
    ]
}

/// The command-line arguments of ffprobe for `path`.
pub fn probe_args(path: &str) -> (r: Vec<String>)
    ensures
        chars_of_strings(r@) == probe_args_of(path@),
{
    let mut args: Vec<String> = Vec::new();
    args.push("-loglevel".to_owned());
    args.push("warning".to_owned());
    args.push("-show_format".to_owned());
    args.push("-show_streams".to_owned());
    args.push("-print_format".to_owned());
    args.push("json".to_owned());
    args.push(path.to_owned());
    assert(chars_of_strings(args@) =~= probe_args_of(path@));
    args
}

} // verus!
