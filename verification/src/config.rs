//! The settings that the program keeps between runs, and the names under
//! which it stores the download format and finds its language.

use crate::downloader::DownloadFormat;
use crate::text::same_text;
use vstd::prelude::*;

verus! {

/// The settings kept between runs.
#[derive(Debug, Clone, PartialEq, Eq)]
pub struct AppConfig {
    /// Where downloads go; `None` until the user has chosen.
    pub download_dir: Option<String>,
    /// The download format, by its stored name.
    pub format: String,
    /// The audio quality handed to the download tool.
    pub audio_quality: String,
    /// A language tag, or `auto` for the system's language.
    pub language: String,
}

/// The language setting of a configuration that names none: `auto`.
pub fn default_language() -> (r: String)
    ensures
        r@ == "auto"@,
{
    "auto".to_string()
}

impl Default for AppConfig {
    /// No directory chosen, `mp3` at `320K`, the system's language.
    fn default() -> (r: AppConfig)
        ensures
            r.download_dir is None,
            r.format@ == "mp3"@,
            r.audio_quality@ == "320K"@,
            r.language@ == "auto"@,
    {
        AppConfig {
            download_dir: None,
            format: "mp3".to_string(),
            audio_quality: "320K".to_string(),
            language: "auto".to_string(),
        }
    }
}

/// The name under which a format is stored.
pub open spec fn format_name(format: DownloadFormat) -> Seq<char> {
    match format {
        DownloadFormat::Mp3 => "mp3"@,
        DownloadFormat::Wav => "wav"@,
        DownloadFormat::M4a => "m4a"@,
        DownloadFormat::Flac => "flac"@,
        DownloadFormat::Mp4 => "mp4"@,
        DownloadFormat::Webm => "webm"@,
    }
}

/// The format that a stored name stands for. A name that is none of the
/// six stands for `Mp3`.
pub open spec fn format_named(name: Seq<char>) -> DownloadFormat {
    if name == "wav"@ {
        DownloadFormat::Wav
    } else if name == "m4a"@ {
        DownloadFormat::M4a
    } else if name == "flac"@ {
        DownloadFormat::Flac
    } else if name == "mp4"@ {
        DownloadFormat::Mp4
    } else if name == "webm"@ {
        DownloadFormat::Webm
    } else {
        DownloadFormat::Mp3
    }
}

/// The language to show: the configured one, unless that is `auto`; then
/// the system's, and `en` where the system names none.
pub open spec fn locale_for(language: Seq<char>, system: Option<Seq<char>>) -> Seq<char> {
    if language == "auto"@ {
        match system {
            Some(tag) => tag,
            None => "en"@,
        }
    } else {
        language
    }
}

/// A stored name read back gives the format that was stored.
pub proof fn law_format_name_round_trip(format: DownloadFormat)
    ensures
        format_named(format_name(format)) == format,
{
    reveal_strlit("mp3");
    reveal_strlit("wav");
    reveal_strlit("m4a");
    reveal_strlit("flac");
    reveal_strlit("mp4");
    reveal_strlit("webm");
    assert("mp3"@.len() == 3 && "mp3"@[2] == '3');
    assert("wav"@.len() == 3 && "wav"@[2] == 'v');
    assert("m4a"@.len() == 3 && "m4a"@[2] == 'a');
    assert("flac"@.len() == 4 && "flac"@[0] == 'f');
    assert("mp4"@.len() == 3 && "mp4"@[2] == '4');
    assert("webm"@.len() == 4 && "webm"@[0] == 'w');
}

impl AppConfig {
    /// The name under which a format is stored.
    pub fn format_to_string(format: &DownloadFormat) -> (r: String)
        ensures
            r@ == format_name(*format),
    {
        match format {
            DownloadFormat::Mp3 => "mp3".to_string(),
            DownloadFormat::Wav => "wav".to_string(),
            DownloadFormat::M4a => "m4a".to_string(),
            DownloadFormat::Flac => "flac".to_string(),
            DownloadFormat::Mp4 => "mp4".to_string(),
            DownloadFormat::Webm => "webm".to_string(),
        }
    }

    /// The format that a stored name stands for; `Mp3` for any other text.
    pub fn string_to_format(s: &str) -> (r: DownloadFormat)
        ensures
            r == format_named(s@),
    {
        if same_text(s, "wav") {
            DownloadFormat::Wav
        } else if same_text(s, "m4a") {
            DownloadFormat::M4a
        } else if same_text(s, "flac") {
            DownloadFormat::Flac
        } else if same_text(s, "mp4") {
            DownloadFormat::Mp4
        } else if same_text(s, "webm") {
            DownloadFormat::Webm
        } else {
            DownloadFormat::Mp3
        }
    }

    /// The language to show for this configuration, given the language that
    /// the system reports, if it reports one.
    pub fn resolve_locale(&self, system: Option<String>) -> (r: String)
        ensures
            r@ == locale_for(
                self.language@,
                match system {
                    Some(tag) => Some(tag@),
                    None => None,
                },
            ),
    {
        if same_text(self.language.as_str(), "auto") {
            match system {
                Some(tag) => tag,
                None => "en".to_string(),
            }
        } else {
            self.language.clone()
        }
    }
}

} // verus!
