use arperge::config::Config;
use arperge::processor::probe::{probe_args, Format, FormatTags, ProbeData, Stream};
use arperge::processor::processor::{
    begin, job_result_abort, ProcessAction, ProcessEvent, ProcessState, Processor, ProcessorJob,
    TranscodePlan,
};
use arperge::processor::transcode::transcode_args;

fn stream(codec: Option<&str>, duration: Option<&str>) -> Stream {
    Stream {
        codec_type: "audio".to_owned(),
        codec: codec.map(|s| s.to_owned()),
        bitrate: None,
        channels: Some(2),
        channel_layout: Some("stereo".to_owned()),
        duration: duration.map(|s| s.to_owned()),
    }
}

fn tags(title: Option<&str>, artist: Option<&str>) -> FormatTags {
    FormatTags {
        major_brand: None,
        minor_version: None,
        compatible_brands: None,
        creation_time: None,
        title: title.map(|s| s.to_owned()),
        artist: artist.map(|s| s.to_owned()),
        album_artist: None,
        album: Some("Some Album".to_owned()),
        composer: None,
        genre: None,
        track: None,
        disc: None,
        date: None,
        copyright: None,
        iTunSMPB: None,
        iTunNORM: None,
        compilation: None,
        gapless_playback: None,
        media_type: None,
        purchase_date: None,
        sort_name: None,
        sort_album: None,
        sort_artist: None,
    }
}

fn probe(streams: Vec<Stream>, bit_rate: Option<&str>, tags: Option<FormatTags>) -> ProbeData {
    ProbeData {
        streams,
        format: Format {
            filename: "./data/import/ato.m4a".to_owned(),
            nb_streams: 2,
            nb_programs: 0,
            nb_stream_groups: 0,
            format_name: "mov,mp4,m4a,3gp,3g2,mj2".to_owned(),
            format_long_name: "QuickTime / MOV".to_owned(),
            start_time: None,
            duration: None,
            size: None,
            bit_rate: bit_rate.map(|s| s.to_owned()),
            probe_score: 100,
            tags,
        },
    }
}

fn config(enabled: bool, dup: bool) -> Config {
    Config {
        transcode_bitrate_kbs: 192,
        transcode_codec: "aac".to_owned(),
        transcode_enabled: enabled,
        duplicates_reimport: dup,
        data_dir: "./data".to_owned(),
    }
}

fn job() -> ProcessorJob {
    ProcessorJob { path: "./data/import/ato.m4a".to_owned() }
}

#[test]
fn abort_result() {
    let r = job_result_abort();
    assert!(!r.remove_import());
    assert_eq!(r.matches(), 0);
    assert!(!r.transcoded());
}

#[test]
fn match_criteria_take_the_first_stream() {
    let mut p = probe(
        vec![stream(Some("aac"), Some("243")), stream(Some("mjpeg"), None)],
        Some("261610"),
        Some(tags(Some("24"), Some("ATO"))),
    );
    let c = job().new_db_match_criteria("./data/import/ato.m4a", &mut p).unwrap();
    assert_eq!(c.duration_ms, 243);
    assert_eq!(c.title, "24");
    assert_eq!(c.artists, "ATO");
    // the album criteria come from the artist tag
    assert_eq!(c.album_tokens, vec!["ato".to_owned()]);
    assert_eq!(p.streams.len(), 1);
    assert_eq!(p.streams[0].codec.as_deref(), Some("mjpeg"));
}

#[test]
fn match_criteria_need_streams_and_tags() {
    let mut p = probe(vec![], None, Some(tags(Some("24"), None)));
    assert!(job().new_db_match_criteria("x", &mut p).is_none());
    let mut p = probe(vec![stream(None, Some("243.438005"))], None, None);
    assert!(job().new_db_match_criteria("x", &mut p).is_none());
    assert!(p.streams.is_empty());
}

#[test]
fn unreadable_duration_is_zero() {
    let mut p = probe(vec![stream(None, Some("243.438005"))], None, Some(tags(None, None)));
    let c = job().new_db_match_criteria("x", &mut p).unwrap();
    assert_eq!(c.duration_ms, 0);
    assert_eq!(c.title, "");
}

#[test]
fn transcode_decision() {
    let j = job();
    let p = probe(vec![stream(Some(" AAC\n"), None)], Some("196608"), None);
    assert!(matches!(j.transcode(&config(false, false), "x", &p), TranscodePlan::Skip));
    assert!(matches!(j.transcode(&config(true, false), "x", &p), TranscodePlan::Skip));
    let p = probe(vec![stream(Some("aac"), None)], Some("197632"), None);
    assert!(matches!(j.transcode(&config(true, false), "x", &p), TranscodePlan::Run));
    let p = probe(vec![stream(Some("mp3"), None)], Some("1000"), None);
    assert!(matches!(j.transcode(&config(true, false), "x", &p), TranscodePlan::Run));
    let p = probe(vec![stream(Some("aac"), None)], Some("fast"), None);
    assert!(matches!(j.transcode(&config(true, false), "x", &p), TranscodePlan::Run));
    let p = probe(vec![stream(Some("aac"), None)], None, None);
    assert!(matches!(j.transcode(&config(true, false), "x", &p), TranscodePlan::Fail));
    let p = probe(vec![stream(None, None)], Some("1000"), None);
    assert!(matches!(j.transcode(&config(true, false), "x", &p), TranscodePlan::Fail));
}

fn full_probe() -> ProbeData {
    probe(
        vec![stream(Some("aac"), Some("243")), stream(Some("mjpeg"), None)],
        Some("329708"),
        Some(tags(Some("24"), Some("ATO"))),
    )
}

#[test]
fn processing_a_new_file_transcodes_it() {
    let j = job();
    let cfg = config(true, false);
    let (state, action) = begin();
    assert!(matches!(state, ProcessState::AwaitProbe));
    assert!(matches!(action, ProcessAction::RunProbe));
    let (state, action) = j.step(&cfg, state, ProcessEvent::Probed(Some(full_probe())));
    assert!(matches!(state, ProcessState::AwaitMatches { .. }));
    assert!(matches!(action, ProcessAction::RunFindMeta(_)));
    let (state, action) = j.step(&cfg, state, ProcessEvent::MatchesFound(Some(0)));
    // the video stream moved to the front: its codec is not the configured one
    assert!(matches!(state, ProcessState::AwaitTranscode { .. }));
    assert!(matches!(action, ProcessAction::RunTranscode));
    let (state, action) = j.step(&cfg, state, ProcessEvent::Transcoded(true));
    assert!(matches!(state, ProcessState::Finished));
    match action {
        ProcessAction::Complete(r) => {
            assert!(r.remove_import());
            assert!(r.transcoded());
            assert_eq!(r.matches(), 0);
        }
        _ => panic!("job not complete"),
    }
}

#[test]
fn processing_a_duplicate_skips_it() {
    let j = job();
    let cfg = config(true, false);
    let (state, _) = j.step(&cfg, ProcessState::AwaitProbe, ProcessEvent::Probed(Some(full_probe())));
    let (state, action) = j.step(&cfg, state, ProcessEvent::MatchesFound(Some(3)));
    assert!(matches!(state, ProcessState::Finished));
    match action {
        ProcessAction::Complete(r) => {
            assert!(r.remove_import());
            assert!(!r.transcoded());
            assert_eq!(r.matches(), 3);
        }
        _ => panic!("job not complete"),
    }
}

#[test]
fn failures_give_the_job_up() {
    let j = job();
    let cfg = config(true, true);
    let (_, action) = j.step(&cfg, ProcessState::AwaitProbe, ProcessEvent::Probed(None));
    assert!(matches!(action, ProcessAction::Complete(ref r) if !r.remove_import()));
    let (state, _) = j.step(&cfg, ProcessState::AwaitProbe, ProcessEvent::Probed(Some(full_probe())));
    let (_, action) = j.step(&cfg, state, ProcessEvent::MatchesFound(None));
    assert!(matches!(action, ProcessAction::Complete(ref r) if !r.remove_import()));
    let (state, _) = j.step(&cfg, ProcessState::AwaitProbe, ProcessEvent::Probed(Some(full_probe())));
    let (state, _) = j.step(&cfg, state, ProcessEvent::MatchesFound(Some(1)));
    let (_, action) = j.step(&cfg, state, ProcessEvent::Transcoded(false));
    assert!(matches!(action, ProcessAction::Complete(ref r) if !r.remove_import() && !r.transcoded()));
    let (_, action) = j.step(&cfg, ProcessState::Finished, ProcessEvent::Transcoded(true));
    assert!(matches!(action, ProcessAction::Complete(ref r) if !r.remove_import()));
}

#[test]
fn a_single_stream_file_cannot_be_transcoded() {
    let j = job();
    let cfg = config(true, false);
    let p = probe(vec![stream(Some("aac"), None)], Some("1000"), Some(tags(Some("a"), Some("b"))));
    let (state, _) = j.step(&cfg, ProcessState::AwaitProbe, ProcessEvent::Probed(Some(p)));
    assert!(j.try_step(&cfg, state, ProcessEvent::MatchesFound(Some(0))).is_none());
}

#[test]
fn a_title_with_cut_characters_cannot_be_looked_up() {
    let j = job();
    let cfg = config(true, false);
    let p = probe(vec![stream(None, None)], None, Some(tags(Some("été"), None)));
    assert!(j.try_step(&cfg, ProcessState::AwaitProbe, ProcessEvent::Probed(Some(p))).is_none());
}

#[test]
fn import_destination_is_under_origin() {
    let j = job();
    assert_eq!(j.import_destination("./data"), Some("./data/fs/origin/ato.m4a".to_owned()));
    let j = ProcessorJob { path: "music/..".to_owned() };
    assert_eq!(j.import_destination("./data"), None);
    let j = ProcessorJob { path: "a/b/".to_owned() };
    assert_eq!(j.import_destination("/srv"), Some("/srv/fs/origin/b".to_owned()));
}

#[test]
fn processor_sends_jobs_once_started() {
    let mut p = Processor::new();
    let rx = p.start();
    p.push(job());
    let got = rx.recv().unwrap();
    assert_eq!(got.path, "./data/import/ato.m4a");
}

#[test]
fn ffprobe_arguments() {
    assert_eq!(
        probe_args("a.m4a"),
        vec!["-loglevel", "warning", "-show_format", "-show_streams", "-print_format", "json", "a.m4a"]
    );
}

#[test]
fn ffmpeg_arguments() {
    assert_eq!(
        transcode_args("a.m4a", 192),
        vec![
            "-i", "a.m4a", "-f", "segment", "-segment_time", "8", "-loglevel", "warning", "-vn",
            "-threads", "6", "-c:a", "aac", "-b:a", "192k", "-movflags",
            "+faststart+frag_keyframe+empty_moov+default_base_moof",
            "data/fs/transcodes/out_%03d.m4a",
        ]
    );
}
