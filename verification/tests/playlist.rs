use rust_yt::platform::{Platform, ToolPath};
use rust_yt::playlist::{
    get_ytdlp_path, playlist_args, playlist_from_response, playlist_result, user_local_ytdlp,
    FetchOutcome, PlaylistInfo, VideoEntry, YtDlpEntry, YtDlpResponse,
};

fn some(s: &str) -> Option<String> {
    Some(s.to_string())
}

fn entry(duration: Option<u64>, words: Option<&str>) -> VideoEntry {
    VideoEntry {
        id: "id".to_string(),
        title: "t".to_string(),
        url: "u".to_string(),
        thumbnail: None,
        duration,
        duration_string: words.map(|w| w.to_string()),
        selected: true,
    }
}

fn empty_response() -> YtDlpResponse {
    YtDlpResponse {
        title: None,
        id: None,
        webpage_url: None,
        thumbnail: None,
        duration: None,
        duration_string: None,
        entries: None,
        response_type: None,
    }
}

#[test]
fn duration_is_shown_in_minutes_and_seconds() {
    assert_eq!(entry(Some(0), None).format_duration(), "0:00");
    assert_eq!(entry(Some(5), None).format_duration(), "0:05");
    assert_eq!(entry(Some(59), None).format_duration(), "0:59");
    assert_eq!(entry(Some(60), None).format_duration(), "1:00");
    assert_eq!(entry(Some(125), None).format_duration(), "2:05");
    assert_eq!(entry(Some(3600), None).format_duration(), "60:00");
    assert_eq!(entry(Some(36_000 + 59), None).format_duration(), "600:59");
}

#[test]
fn duration_prefers_the_tools_words_and_admits_ignorance() {
    assert_eq!(entry(Some(125), Some("2:05")).format_duration(), "2:05");
    assert_eq!(entry(None, Some("1:02:03")).format_duration(), "1:02:03");
    assert_eq!(entry(Some(1), Some("")).format_duration(), "");
    assert_eq!(entry(None, None).format_duration(), "??:??");
}

#[test]
fn minutes_are_capped_at_32_bits() {
    assert_eq!(entry(Some(u32::MAX as u64 * 60 + 7), None).format_duration(), "4294967295:07");
    assert_eq!(entry(Some(u32::MAX as u64 * 60 + 60), None).format_duration(), "4294967295:00");
    assert_eq!(entry(Some(u64::MAX), None).format_duration(), "4294967295:15");
}

#[test]
fn playlist_keeps_the_entries_that_have_an_id() {
    let response = YtDlpResponse {
        title: some("My List"),
        id: some("PL1"),
        entries: Some(vec![
            YtDlpEntry {
                id: some("a1"),
                title: some("First"),
                url: some("https://example.com/a1"),
                thumbnail: some("https://example.com/a1.jpg"),
                duration: Some(61),
                duration_string: some("1:01"),
            },
            YtDlpEntry {
                id: None,
                title: some("No id"),
                url: some("https://example.com/x"),
                thumbnail: None,
                duration: None,
                duration_string: None,
            },
            YtDlpEntry {
                id: some("b2"),
                title: None,
                url: None,
                thumbnail: None,
                duration: None,
                duration_string: None,
            },
        ]),
        response_type: some("playlist"),
        ..empty_response()
    };
    assert_eq!(
        playlist_from_response(response, "https://example.com/list"),
        PlaylistInfo {
            title: "My List".to_string(),
            entries: vec![
                VideoEntry {
                    id: "a1".to_string(),
                    title: "First".to_string(),
                    url: "https://example.com/a1".to_string(),
                    thumbnail: some("https://example.com/a1.jpg"),
                    duration: Some(61),
                    duration_string: some("1:01"),
                    selected: true,
                },
                VideoEntry {
                    id: "b2".to_string(),
                    title: "제목 없음".to_string(),
                    url: "https://www.youtube.com/watch?v=b2".to_string(),
                    thumbnail: None,
                    duration: None,
                    duration_string: None,
                    selected: true,
                },
            ],
            is_playlist: true,
        }
    );
}

#[test]
fn playlist_without_title_or_entries() {
    let response = YtDlpResponse { response_type: some("playlist"), ..empty_response() };
    assert_eq!(
        playlist_from_response(response, "u"),
        PlaylistInfo { title: "플레이리스트".to_string(), entries: vec![], is_playlist: true }
    );
}

#[test]
fn single_video_becomes_a_list_of_one() {
    let response = YtDlpResponse {
        title: some("Clip"),
        id: some("v9"),
        webpage_url: some("https://example.com/watch?v=v9"),
        thumbnail: some("https://example.com/v9.jpg"),
        duration: Some(200),
        duration_string: some("3:20"),
        entries: Some(vec![]),
        response_type: some("video"),
    };
    assert_eq!(
        playlist_from_response(response, "https://short.example/v9"),
        PlaylistInfo {
            title: "Clip".to_string(),
            entries: vec![VideoEntry {
                id: "v9".to_string(),
                title: "Clip".to_string(),
                url: "https://example.com/watch?v=v9".to_string(),
                thumbnail: some("https://example.com/v9.jpg"),
                duration: Some(200),
                duration_string: some("3:20"),
                selected: true,
            }],
            is_playlist: false,
        }
    );
}

#[test]
fn single_video_with_nothing_known() {
    assert_eq!(
        playlist_from_response(empty_response(), "https://example.com/asked"),
        PlaylistInfo {
            title: "영상".to_string(),
            entries: vec![VideoEntry {
                id: String::new(),
                title: "제목 없음".to_string(),
                url: "https://example.com/asked".to_string(),
                thumbnail: None,
                duration: None,
                duration_string: None,
                selected: true,
            }],
            is_playlist: false,
        }
    );
    let odd = YtDlpResponse { response_type: some("Playlist"), ..empty_response() };
    assert!(!playlist_from_response(odd, "u").is_playlist);
}

#[test]
fn failures_of_the_question_become_messages() {
    assert_eq!(
        playlist_result(FetchOutcome::LaunchFailed("not found".to_string()), "u"),
        Err("yt-dlp 실행 실패: not found".to_string())
    );
    assert_eq!(
        playlist_result(FetchOutcome::ToolFailed("ERROR: private video\n".to_string()), "u"),
        Err("영상 정보를 가져올 수 없습니다: ERROR: private video\n".to_string())
    );
    assert_eq!(
        playlist_result(FetchOutcome::BadJson("EOF at line 1".to_string()), "u"),
        Err("JSON 파싱 실패: EOF at line 1".to_string())
    );
    let ok = playlist_result(FetchOutcome::Described(empty_response()), "asked").unwrap();
    assert_eq!(ok.entries[0].url, "asked");
}

#[test]
fn arguments_for_describing_a_url() {
    assert_eq!(
        playlist_args("https://example.com/x"),
        vec!["--flat-playlist", "-J", "--no-warnings", "https://example.com/x"]
    );
}

#[test]
fn download_tool_is_started_from_the_right_place() {
    assert_eq!(
        get_ytdlp_path(Platform::Windows, "C:\\Users\\u", true),
        ToolPath::InAppDir("yt-dlp.exe".to_string())
    );
    assert_eq!(
        get_ytdlp_path(Platform::MacOs, "/Users/u", true),
        ToolPath::OnSearchPath("yt-dlp".to_string())
    );
    assert_eq!(
        get_ytdlp_path(Platform::Linux, "/home/u", true),
        ToolPath::At("/home/u/.local/bin/yt-dlp".to_string())
    );
    assert_eq!(
        get_ytdlp_path(Platform::Linux, "/home/u", false),
        ToolPath::OnSearchPath("yt-dlp".to_string())
    );
    assert_eq!(user_local_ytdlp("/home"), "/home/.local/bin/yt-dlp");
}
