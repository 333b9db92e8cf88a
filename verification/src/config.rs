//! The server's configuration and its defaults.
use vstd::prelude::*;

verus! {

/// The server's configuration, as read from its YAML file.
pub struct Config {
    /// Bitrate of transcoded audio, in kbit/s.
    pub transcode_bitrate_kbs: u32,
    /// Codec that imports are transcoded to (aac, mp3, flac, opus, wav, alac).
    pub transcode_codec: String,
    pub transcode_enabled: bool,
    pub duplicates_reimport: bool,
    pub data_dir: String,
}

/// The values a configuration holds.
pub ghost struct ConfigView {
    pub transcode_bitrate_kbs: u32,
    pub transcode_codec: Seq<char>,
    pub transcode_enabled: bool,
    pub duplicates_reimport: bool,
    pub data_dir: Seq<char>,
}

impl View for Config {
    type V = ConfigView;

    open spec fn view(&self) -> ConfigView {
        ConfigView {
            transcode_bitrate_kbs: self.transcode_bitrate_kbs,
            transcode_codec: self.transcode_codec@,
            transcode_enabled: self.transcode_enabled,
            duplicates_reimport: self.duplicates_reimport,
            data_dir: self.data_dir@,
        }
    }
}

/// The default bitrate, in kbit/s.
pub const DEFAULT_BITRATE_KBS: u32 = 192;

/// The default configuration: 192 kbit/s AAC, transcoding on, duplicates
/// not reimported, data under `./data`.
pub open spec fn default_config() -> ConfigView {
    ConfigView {
        transcode_bitrate_kbs: DEFAULT_BITRATE_KBS,
        transcode_codec: "aac"@,
        transcode_enabled: true,
        duplicates_reimport: false,
        data_dir: "./data"@,
    }
}

/// A configuration with its missing values (empty codec, zero bitrate,
/// empty data directory) taken from the defaults.
pub open spec fn with_defaults(c: ConfigView) -> ConfigView {
    let def = default_config();
    ConfigView {
        transcode_bitrate_kbs: if c.transcode_bitrate_kbs == 0 {
            def.transcode_bitrate_kbs
        } else {
            c.transcode_bitrate_kbs
        },
        transcode_codec: if c.transcode_codec.len() == 0 {
            def.transcode_codec
        } else {
            c.transcode_codec
        },
        data_dir: if c.data_dir.len() == 0 {
            def.data_dir
        } else {
            c.data_dir
        },
        ..c
    }
}

/// Whether a configuration lacks a value that has a default.
pub open spec fn has_missing(c: ConfigView) -> bool {
    c.transcode_bitrate_kbs == 0 || c.transcode_codec.len() == 0 || c.data_dir.len() == 0
}

impl Default for Config {
    fn default() -> (r: Self)
        ensures
            r@ == default_config(),
    {
        Config {
            transcode_bitrate_kbs: DEFAULT_BITRATE_KBS,
            transcode_codec: "aac".to_owned(),
            transcode_enabled: true,
            duplicates_reimport: false,
            data_dir: "./data".to_owned(),
        }
    }
}

/// Fills the codec, the bitrate and the data directory from the defaults
/// where the configuration leaves them empty or zero.
pub fn set_missing_defaults(cfg: &mut Config)
    ensures
        final(cfg)@ == with_defaults(old(cfg)@),
{
    let def = Config::default();
    if cfg.transcode_codec.as_str().is_empty() {
        cfg.transcode_codec = def.transcode_codec;
    }
    if cfg.transcode_bitrate_kbs == 0 {
        cfg.transcode_bitrate_kbs = def.transcode_bitrate_kbs;
    }
    if cfg.data_dir.as_str().is_empty() {
        cfg.data_dir = def.data_dir;
    }
}

impl Config {
    /// The configuration in effect once the file was read: the defaults when
    /// the file was empty (`None`), else what it held with its missing values
    /// filled from the defaults.
    pub fn from_loaded(loaded: Option<Config>) -> (r: Config)
        ensures
            r@ == match loaded {
                None => default_config(),
                Some(c) => with_defaults(c@),
            },
    {
        match loaded {
            None => Config::default(),
            Some(c) => {
                let mut c = c;
                set_missing_defaults(&mut c);
                c
            },
        }
    }
}

/// Filling the defaults leaves nothing missing, and filling them again
/// changes nothing.
pub proof fn lemma_with_defaults_complete(c: ConfigView)
    ensures
        !has_missing(with_defaults(c)),
        with_defaults(with_defaults(c)) == with_defaults(c),
{
    reveal_strlit("aac");
    reveal_strlit("./data");
}

/// Filling the defaults keeps every value that was already given.
pub proof fn lemma_with_defaults_keeps_given(c: ConfigView)
    requires
        !has_missing(c),
    ensures
        with_defaults(c) == c,
{
}

} // verus!
