use arperge::config::{set_missing_defaults, Config};

fn cfg(bitrate: u32, codec: &str, data_dir: &str) -> Config {
    Config {
        transcode_bitrate_kbs: bitrate,
        transcode_codec: codec.to_owned(),
        transcode_enabled: false,
        duplicates_reimport: true,
        data_dir: data_dir.to_owned(),
    }
}

#[test]
fn default_config_values() {
    let c = Config::default();
    assert_eq!(c.transcode_bitrate_kbs, 192);
    assert_eq!(c.transcode_codec, "aac");
    assert!(c.transcode_enabled);
    assert!(!c.duplicates_reimport);
    assert_eq!(c.data_dir, "./data");
}

#[test]
fn missing_values_take_the_defaults() {
    let mut c = cfg(0, "", "");
    set_missing_defaults(&mut c);
    assert_eq!(c.transcode_bitrate_kbs, 192);
    assert_eq!(c.transcode_codec, "aac");
    assert_eq!(c.data_dir, "./data");
    assert!(!c.transcode_enabled);
    assert!(c.duplicates_reimport);
}

#[test]
fn given_values_are_kept_and_filling_twice_changes_nothing() {
    let mut c = cfg(320, "opus", "/srv/music");
    set_missing_defaults(&mut c);
    assert_eq!(c.transcode_bitrate_kbs, 320);
    assert_eq!(c.transcode_codec, "opus");
    assert_eq!(c.data_dir, "/srv/music");
    let mut d = cfg(0, "mp3", "");
    set_missing_defaults(&mut d);
    set_missing_defaults(&mut d);
    assert_eq!(d.transcode_bitrate_kbs, 192);
    assert_eq!(d.transcode_codec, "mp3");
    assert_eq!(d.data_dir, "./data");
}

#[test]
fn loaded_config() {
    let c = Config::from_loaded(None);
    assert_eq!(c.transcode_codec, "aac");
    let c = Config::from_loaded(Some(cfg(0, "flac", "")));
    assert_eq!(c.transcode_bitrate_kbs, 192);
    assert_eq!(c.transcode_codec, "flac");
    assert_eq!(c.data_dir, "./data");
}
