//! How ffmpeg is asked to cut an import into short AAC segments.
use vstd::prelude::*;
use crate::storage::words::chars_of_strings;
use crate::number::{decimal, push_decimal};
use crate::text::{chars_of, string_of};

verus! {

/// Length of each segment, in seconds.
pub const SEGMENT_TIME_SECS: &'static str = "8";

/// Threads ffmpeg may use.
pub const THREADS: &'static str = "6";

/// Where segments are written.
pub const DATA_FOLDER: &'static str = "data/fs/transcodes";

/// The ffmpeg bitrate argument: the bitrate in decimal followed by `k`.
pub open spec fn bitrate_arg(kbs: u32) -> Seq<char> {
    decimal(kbs as nat).push('k')
}

/// The segment file pattern: numbered `.m4a` files in the data folder.
pub open spec fn segment_output() -> Seq<char> {
    DATA_FOLDER@ + "/out_%03d.m4a"@
}

/// The arguments ffmpeg is run with: read `path`, cut it into segments of
/// `SEGMENT_TIME_SECS` seconds, log warnings only, drop video, use `THREADS`
/// threads, encode AAC at `kbs` kbit/s with fragmented-MP4 flags for
/// streaming, and write the numbered segments.
pub open spec fn transcode_args_of(path: Seq<char>, kbs: u32) -> Seq<Seq<char>> {
    seq![
        "-i"@,
        path,
        "-f"@,
        "segment"@,
        "-segment_time"@,
        SEGMENT_TIME_SECS@,
        "-loglevel"@,
        "warning"@,
        "-vn"@,
        "-threads"@,
        THREADS@,
        "-c:a"@,
        "aac"@,
        "-b:a"@,
        bitrate_arg(kbs),
        "-movflags"@,
        "+faststart+frag_keyframe+empty_moov+default_base_moof"@,
        segment_output(),
    ]
}

/// The command-line arguments of ffmpeg that transcode `path` at
/// `bitrate_kbs` kbit/s.
pub fn transcode_args(path: &str, bitrate_kbs: u32) -> (r: Vec<String>)
    ensures
        chars_of_strings(r@) == transcode_args_of(path@, bitrate_kbs),
{
    let mut kbs: Vec<char> = Vec::new();
    push_decimal(&mut kbs, bitrate_kbs as u64);
    kbs.push('k');
    let kbs = string_of(&kbs);
    let mut output = chars_of(DATA_FOLDER);
    let suffix = chars_of("/out_%03d.m4a");
    crate::text::append_chars(&mut output, &suffix);
    let output = string_of(&output);
    let mut args: Vec<String> = Vec::new();
    args.push("-i".to_owned());
    args.push(path.to_owned());
    args.push("-f".to_owned());
    args.push("segment".to_owned());
    args.push("-segment_time".to_owned());
    args.push(SEGMENT_TIME_SECS.to_owned());
    args.push("-loglevel".to_owned());
    args.push("warning".to_owned());
    args.push("-vn".to_owned());
    args.push("-threads".to_owned());
    args.push(THREADS.to_owned());
    args.push("-c:a".to_owned());
    args.push("aac".to_owned());
    args.push("-b:a".to_owned());
    args.push(kbs);
    args.push("-movflags".to_owned());
    args.push("+faststart+frag_keyframe+empty_moov+default_base_moof".to_owned());
    args.push(output);
    assert(chars_of_strings(args@) =~= transcode_args_of(path@, bitrate_kbs));
    args
}

} // verus!
