//! What the download tool says about a URL before anything is downloaded:
//! a single video or a playlist, as the list of entries the user picks from.

use crate::platform::{Platform, ToolPath, ToolPathView};
use crate::text::{
    decimal_text, push_decimal, push_two_digits, same_text, string_of, string_texts,
    two_digit_text,
};
use vstd::prelude::*;
use vstd::string::StringExecFns;

verus! {

/// One video offered for download.
#[derive(Debug, Clone, PartialEq, Eq)]
pub struct VideoEntry {
    pub id: String,
    pub title: String,
    pub url: String,
    /// The URL of a preview picture.
    pub thumbnail: Option<String>,
    /// The length in whole seconds.
    pub duration: Option<u64>,
    /// The length in the tool's own words.
    pub duration_string: Option<String>,
    /// Whether the user wants this one.
    pub selected: bool,
}

/// A playlist, or a single video as a list of one.
#[derive(Debug, Clone, PartialEq, Eq)]
pub struct PlaylistInfo {
    pub title: String,
    pub entries: Vec<VideoEntry>,
    pub is_playlist: bool,
}

/// One entry of a playlist as the download tool describes it.
#[derive(Debug, Clone, PartialEq, Eq)]
pub struct YtDlpEntry {
    pub id: Option<String>,
    pub title: Option<String>,
    pub url: Option<String>,
    pub thumbnail: Option<String>,
    pub duration: Option<u64>,
    pub duration_string: Option<String>,
}

/// The download tool's description of a URL.
#[derive(Debug, Clone, PartialEq, Eq)]
pub struct YtDlpResponse {
    pub title: Option<String>,
    pub id: Option<String>,
    pub webpage_url: Option<String>,
    pub thumbnail: Option<String>,
    pub duration: Option<u64>,
    pub duration_string: Option<String>,
    pub entries: Option<Vec<YtDlpEntry>>,
    /// The tool's `_type`; `playlist` for a playlist.
    pub response_type: Option<String>,
}

/// The text of a string that may be missing.
pub open spec fn text_of(s: Option<String>) -> Option<Seq<char>> {
    match s {
        Some(s) => Some(s@),
        None => None,
    }
}

/// The text that may be missing, or the other text in its place.
pub open spec fn text_or(s: Option<Seq<char>>, other: Seq<char>) -> Seq<char> {
    match s {
        Some(s) => s,
        None => other,
    }
}

/// A `VideoEntry` as a mathematical value.
pub struct VideoEntryView {
    pub id: Seq<char>,
    pub title: Seq<char>,
    pub url: Seq<char>,
    pub thumbnail: Option<Seq<char>>,
    pub duration: Option<u64>,
    pub duration_string: Option<Seq<char>>,
    pub selected: bool,
}

impl View for VideoEntry {
    type V = VideoEntryView;

    open spec fn view(&self) -> VideoEntryView {
        VideoEntryView {
            id: self.id@,
            title: self.title@,
            url: self.url@,
            thumbnail: text_of(self.thumbnail),
            duration: self.duration,
            duration_string: text_of(self.duration_string),
            selected: self.selected,
        }
    }
}

/// The entries that a list holds, as mathematical values.
pub open spec fn entry_views(v: Seq<VideoEntry>) -> Seq<VideoEntryView> {
    Seq::new(v.len(), |i: int| v[i]@)
}

/// A `PlaylistInfo` as a mathematical value.
pub struct PlaylistInfoView {
    pub title: Seq<char>,
    pub entries: Seq<VideoEntryView>,
    pub is_playlist: bool,
}

impl View for PlaylistInfo {
    type V = PlaylistInfoView;

    open spec fn view(&self) -> PlaylistInfoView {
        PlaylistInfoView {
            title: self.title@,
            entries: entry_views(self.entries@),
            is_playlist: self.is_playlist,
        }
    }
}

/// A `YtDlpEntry` as a mathematical value.
pub struct YtDlpEntryView {
    pub id: Option<Seq<char>>,
    pub title: Option<Seq<char>>,
    pub url: Option<Seq<char>>,
    pub thumbnail: Option<Seq<char>>,
    pub duration: Option<u64>,
    pub duration_string: Option<Seq<char>>,
}

impl View for YtDlpEntry {
    type V = YtDlpEntryView;

    open spec fn view(&self) -> YtDlpEntryView {
        YtDlpEntryView {
            id: text_of(self.id),
            title: text_of(self.title),
            url: text_of(self.url),
            thumbnail: text_of(self.thumbnail),
            duration: self.duration,
            duration_string: text_of(self.duration_string),
        }
    }
}

/// The described entries that a list holds, as mathematical values.
pub open spec fn described_views(v: Seq<YtDlpEntry>) -> Seq<YtDlpEntryView> {
    Seq::new(v.len(), |i: int| v[i]@)
}

/// A `YtDlpResponse` as a mathematical value.
pub struct YtDlpResponseView {
    pub title: Option<Seq<char>>,
    pub id: Option<Seq<char>>,
    pub webpage_url: Option<Seq<char>>,
    pub thumbnail: Option<Seq<char>>,
    pub duration: Option<u64>,
    pub duration_string: Option<Seq<char>>,
    pub entries: Option<Seq<YtDlpEntryView>>,
    pub response_type: Option<Seq<char>>,
}

impl View for YtDlpResponse {
    type V = YtDlpResponseView;

    open spec fn view(&self) -> YtDlpResponseView {
        YtDlpResponseView {
            title: text_of(self.title),
            id: text_of(self.id),
            webpage_url: text_of(self.webpage_url),
            thumbnail: text_of(self.thumbnail),
            duration: self.duration,
            duration_string: text_of(self.duration_string),
            entries: match self.entries {
                Some(list) => Some(described_views(list@)),
                None => None,
            },
            response_type: text_of(self.response_type),
        }
    }
}

/// The length of a video as shown: the tool's own words where it gave
/// them; else minutes and two-digit seconds, with the minutes capped at the
/// largest 32-bit number; `??:??` where nothing is known.
pub open spec fn duration_text(entry: VideoEntryView) -> Seq<char> {
    match entry.duration_string {
        Some(words) => words,
        None => match entry.duration {
            Some(seconds) => {
                let minutes = if seconds / 60 > u32::MAX {
                    u32::MAX as nat
                } else {
                    (seconds / 60) as nat
                };
                decimal_text(minutes) + ":"@ + two_digit_text((seconds % 60) as nat)
            },
            None => "??:??"@,
        },
    }
}

impl VideoEntry {
    /// The length of the video as shown to the user.
    pub fn format_duration(&self) -> (r: String)
        ensures
            r@ == duration_text(self@),
    {
        match &self.duration_string {
            Some(words) => words.clone(),
            None => match self.duration {
                Some(seconds) => {
                    let minutes: u64 = if seconds / 60 > 0xffff_ffff {
                        0xffff_ffff
                    } else {
                        seconds / 60
                    };
                    let mut digits: Vec<char> = Vec::new();
                    push_decimal(&mut digits, minutes);
                    let mut text = string_of(&digits);
                    text.append(":");
                    let mut rest: Vec<char> = Vec::new();
                    push_two_digits(&mut rest, seconds % 60);
                    let rest_text = string_of(&rest);
                    text.append(rest_text.as_str());
                    text
                },
                None => "??:??".to_string(),
            },
        }
    }
}

/// The entry offered for a described one. One without an id is left out.
/// A missing title becomes `제목 없음`; a missing URL is made from the id.
/// Every entry starts out selected.
pub open spec fn entry_from(described: YtDlpEntryView) -> Option<VideoEntryView> {
    match described.id {
        None => None,
        Some(id) => Some(
            VideoEntryView {
                id: id,
                title: text_or(described.title, "제목 없음"@),
                url: text_or(described.url, "https://www.youtube.com/watch?v="@ + id),
                thumbnail: described.thumbnail,
                duration: described.duration,
                duration_string: described.duration_string,
                selected: true,
            },
        ),
    }
}

/// The list that may be missing, or the empty list in its place.
pub open spec fn list_or_empty(list: Option<Seq<YtDlpEntryView>>) -> Seq<YtDlpEntryView> {
    match list {
        Some(list) => list,
        None => Seq::empty(),
    }
}

/// `entry_from` as a function value.
pub open spec fn entry_mapper() -> spec_fn(YtDlpEntryView) -> Option<VideoEntryView> {
    |described: YtDlpEntryView| entry_from(described)
}

/// What the user picks from, for a description and the URL that was asked
/// about. A description of type `playlist` gives its entries that have an
/// id, in order; any other gives the one video it describes, whose URL is
/// the page's where the tool names it and else the URL asked about.
pub open spec fn playlist_of(response: YtDlpResponseView, url: Seq<char>) -> PlaylistInfoView {
    if response.response_type == Some("playlist"@) {
        PlaylistInfoView {
            title: text_or(response.title, "플레이리스트"@),
            entries: match response.entries {
                Some(list) => list.filter_map(entry_mapper()),
                None => Seq::empty(),
            },
            is_playlist: true,
        }
    } else {
        PlaylistInfoView {
            title: text_or(response.title, "영상"@),
            entries: seq![
                VideoEntryView {
                    id: text_or(response.id, Seq::empty()),
                    title: text_or(response.title, "제목 없음"@),
                    url: text_or(response.webpage_url, url),
                    thumbnail: response.thumbnail,
                    duration: response.duration,
                    duration_string: response.duration_string,
                    selected: true,
                },
            ],
            is_playlist: false,
        }
    }
}

/// A copy of a string that may be missing.
fn copy_text(s: &Option<String>) -> (r: Option<String>)
    ensures
        text_of(r) == text_of(*s),
{
    match s {
        Some(s) => Some(s.clone()),
        None => None,
    }
}

/// The string, or a copy of `other` where it is missing.
fn text_or_else(s: Option<String>, other: &str) -> (r: String)
    ensures
        r@ == text_or(text_of(s), other@),
{
    match s {
        Some(s) => s,
        None => other.to_string(),
    }
}

/// The entry offered for a described one, if it has an id.
fn entry_for(described: &YtDlpEntry) -> (r: Option<VideoEntry>)
    ensures
        match r {
            Some(entry) => entry_from(described@) == Some(entry@),
            None => entry_from(described@) is None,
        },
{
    match &described.id {
        None => None,
        Some(id) => {
            let url = match &described.url {
                Some(url) => url.clone(),
                None => {
                    let mut url = "https://www.youtube.com/watch?v=".to_string();
                    url.append(id.as_str());
                    url
                },
            };
            Some(
                VideoEntry {
                    id: id.clone(),
                    title: text_or_else(copy_text(&described.title), "제목 없음"),
                    url,
                    thumbnail: copy_text(&described.thumbnail),
                    duration: described.duration,
                    duration_string: copy_text(&described.duration_string),
                    selected: true,
                },
            )
        },
    }
}

/// Turns the download tool's description of a URL into what the user picks
/// from.
pub fn playlist_from_response(response: YtDlpResponse, url: &str) -> (r: PlaylistInfo)
    ensures
        r@ == playlist_of(response@, url@),
{
    let is_playlist = match &response.response_type {
        Some(kind) => same_text(kind.as_str(), "playlist"),
        None => false,
    };
    if is_playlist {
        let mut entries: Vec<VideoEntry> = Vec::new();
        let ghost described = list_or_empty(response@.entries);
        match &response.entries {
            Some(list) => {
                let mut i: usize = 0;
                assert(described.take(0) =~= Seq::<YtDlpEntryView>::empty());
                while i < list.len()
                    invariant
                        i <= list.len(),
                        described == described_views(list@),
                        entry_views(entries@) == described.take(i as int).filter_map(
                            entry_mapper(),
                        ),
                    decreases list.len() - i,
                {
                    let ghost before = entry_views(entries@);
                    proof {
                        described.lemma_filter_map_take_succ(entry_mapper(), i as int);
                        assert(described[i as int] == list@[i as int]@);
                    }
                    match entry_for(&list[i]) {
                        Some(entry) => {
                            entries.push(entry);
                            assert(entry_views(entries@) =~= before + seq![entry@]);
                        },
                        None => {},
                    }
                    i = i + 1;
                }
                assert(described.take(list.len() as int) =~= described);
            },
            None => {
                assert(entry_views(entries@) =~= Seq::<VideoEntryView>::empty());
            },
        }
        PlaylistInfo {
            title: text_or_else(response.title, "플레이리스트"),
            entries,
            is_playlist: true,
        }
    } else {
        let entry = VideoEntry {
            id: text_or_else(response.id, ""),
            title: text_or_else(copy_text(&response.title), "제목 없음"),
            url: text_or_else(response.webpage_url, url),
            thumbnail: response.thumbnail,
            duration: response.duration,
            duration_string: response.duration_string,
            selected: true,
        };
        let ghost view = entry@;
        let mut entries: Vec<VideoEntry> = Vec::new();
        entries.push(entry);
        proof {
            reveal_strlit("");
            assert(""@ =~= Seq::<char>::empty());
            assert(entry_views(entries@) =~= seq![view]);
        }
        PlaylistInfo { title: text_or_else(response.title, "영상"), entries, is_playlist: false }
    }
}

/// The arguments with which the download tool describes a URL: playlists
/// listed without being resolved, one JSON document, no warnings.
pub open spec fn describe_args(url: Seq<char>) -> Seq<Seq<char>> {
    seq!["--flat-playlist"@, "-J"@, "--no-warnings"@, url]
}

/// Builds the arguments with which the download tool describes a URL.
pub fn playlist_args(url: &str) -> (args: Vec<String>)
    ensures
        string_texts(args@) == describe_args(url@),
{
    let mut args: Vec<String> = Vec::new();
    args.push("--flat-playlist".to_string());
    args.push("-J".to_string());
    args.push("--no-warnings".to_string());
    args.push(url.to_string());
    assert(string_texts(args@) =~= describe_args(url@));
    args
}

/// How asking the download tool about a URL went.
#[derive(Debug, Clone, PartialEq, Eq)]
pub enum FetchOutcome {
    /// The tool could not be started; the system's reason.
    LaunchFailed(String),
    /// The tool exited without success; what it wrote to its error output.
    ToolFailed(String),
    /// The tool's output was no description; the parser's reason.
    BadJson(String),
    /// The tool described the URL.
    Described(YtDlpResponse),
}

/// What the user is told when asking about a URL failed.
pub open spec fn fetch_error(outcome: FetchOutcome) -> Seq<char> {
    match outcome {
        FetchOutcome::LaunchFailed(reason) => "yt-dlp 실행 실패: "@ + reason@,
        FetchOutcome::ToolFailed(errors) => "영상 정보를 가져올 수 없습니다: "@ + errors@,
        FetchOutcome::BadJson(reason) => "JSON 파싱 실패: "@ + reason@,
        FetchOutcome::Described(_) => Seq::empty(),
    }
}

/// What asking about a URL comes to: the list to pick from where the tool
/// described the URL, and else the message for the user.
pub fn playlist_result(outcome: FetchOutcome, url: &str) -> (r: Result<PlaylistInfo, String>)
    ensures
        match outcome {
            FetchOutcome::Described(response) => r matches Ok(info) && info@ == playlist_of(
                response@,
                url@,
            ),
            _ => r matches Err(message) && message@ == fetch_error(outcome),
        },
{
    match outcome {
        FetchOutcome::LaunchFailed(reason) => {
            let mut message = "yt-dlp 실행 실패: ".to_string();
            message.append(reason.as_str());
            Err(message)
        },
        FetchOutcome::ToolFailed(errors) => {
            let mut message = "영상 정보를 가져올 수 없습니다: ".to_string();
            message.append(errors.as_str());
            Err(message)
        },
        FetchOutcome::BadJson(reason) => {
            let mut message = "JSON 파싱 실패: ".to_string();
            message.append(reason.as_str());
            Err(message)
        },
        FetchOutcome::Described(response) => Ok(playlist_from_response(response, url)),
    }
}

/// The place in the user's home directory where a download tool installed
/// by the user is looked for.
pub open spec fn user_local_path(home: Seq<char>) -> Seq<char> {
    home + "/.local/bin/yt-dlp"@
}

/// The place where a download tool installed by the user is looked for.
/// `home` is the user's home directory, `/home` where none is known.
pub fn user_local_ytdlp(home: &str) -> (r: String)
    ensures
        r@ == user_local_path(home@),
{
    let mut path = home.to_string();
    path.append("/.local/bin/yt-dlp");
    path
}

/// Where the download tool is started from. On Windows it is the program's
/// own copy in its data directory; on macOS whatever the search path
/// offers; elsewhere the user's own installation where there is one, and
/// else whatever the search path offers. The answer is a best guess: the
/// file need not exist.
pub open spec fn ytdlp_location(platform: Platform, home: Seq<char>, user_local_present: bool)
    -> ToolPathView {
    match platform {
        Platform::Windows => ToolPathView::InAppDir("yt-dlp.exe"@),
        Platform::MacOs => ToolPathView::OnSearchPath("yt-dlp"@),
        Platform::Linux => if user_local_present {
            ToolPathView::At(user_local_path(home))
        } else {
            ToolPathView::OnSearchPath("yt-dlp"@)
        },
    }
}

/// Says where the download tool is started from. `user_local_present`
/// tells whether a file exists at `user_local_ytdlp(home)`.
pub fn get_ytdlp_path(platform: Platform, home: &str, user_local_present: bool) -> (r: ToolPath)
    ensures
        r@ == ytdlp_location(platform, home@, user_local_present),
{
    match platform {
        Platform::Windows => ToolPath::InAppDir("yt-dlp.exe".to_string()),
        Platform::MacOs => ToolPath::OnSearchPath("yt-dlp".to_string()),
        Platform::Linux => if user_local_present {
            ToolPath::At(user_local_ytdlp(home))
        } else {
            ToolPath::OnSearchPath("yt-dlp".to_string())
        },
    }
}

} // verus!
