use rust_yt::initializer::{
    app_dir_name, archive_kind, executable_mode, get_ffmpeg_path, get_ytdlp_path, holds_build,
    judge, needs_executable_bit, pause_millis, update_summary, version_summary, ArchiveKind,
    Attempt, Bootstrap, BootstrapAction, BootstrapEvent, BootstrapPhase, DownloadMeter, Effect,
    InitMessage, InitStatus, RetryPolicy, Sources, Tool, ToolBinary, Verdict, Wording,
};
use rust_yt::percent::Percent;
use rust_yt::platform::{Platform, ToolPath};

fn percent(n: u128, d: u128) -> Percent {
    Percent::new(n, d).unwrap()
}

fn starting(wording: Wording, about: &str) -> Effect {
    Effect::Report(InitStatus::Starting(InitMessage::Worded(wording, about.to_string())))
}

fn failed(wording: Wording, about: &str) -> Effect {
    Effect::Report(InitStatus::Failed(InitMessage::Worded(wording, about.to_string())))
}

fn run(events: Vec<BootstrapEvent>) -> (Bootstrap, Vec<Effect>, Vec<BootstrapAction>) {
    let mut boot = Bootstrap::new();
    let mut effects = Vec::new();
    let mut actions = vec![boot.next_action()];
    for event in events {
        assert!(boot.can_take(&event));
        effects.extend(boot.step(event));
        actions.push(boot.next_action());
    }
    (boot, effects, actions)
}

fn ends(effects: &[Effect]) -> usize {
    effects
        .iter()
        .filter(|e| {
            matches!(e, Effect::Report(InitStatus::Completed) | Effect::Report(InitStatus::Failed(_)))
        })
        .count()
}

#[test]
fn tools_are_installed_in_the_programs_directory() {
    assert_eq!(app_dir_name(), "rust-yt");
    assert_eq!(get_ytdlp_path(Platform::Windows), ToolPath::InAppDir("yt-dlp.exe".to_string()));
    assert_eq!(get_ytdlp_path(Platform::Linux), ToolPath::InAppDir("yt-dlp".to_string()));
    assert_eq!(get_ytdlp_path(Platform::MacOs), ToolPath::InAppDir("yt-dlp".to_string()));
    assert_eq!(get_ffmpeg_path(Platform::Windows), ToolPath::InAppDir("ffmpeg.exe".to_string()));
    assert_eq!(get_ffmpeg_path(Platform::Linux), ToolPath::InAppDir("ffmpeg".to_string()));
    assert_eq!(get_ffmpeg_path(Platform::MacOs), ToolPath::InAppDir("ffmpeg".to_string()));
}

#[test]
fn installed_tools_are_made_executable_except_on_windows() {
    assert!(needs_executable_bit(Platform::Linux));
    assert!(needs_executable_bit(Platform::MacOs));
    assert!(!needs_executable_bit(Platform::Windows));
    assert_eq!(executable_mode(), 0o755);
    assert_eq!(executable_mode(), 493);
}

#[test]
fn archive_kind_goes_by_the_end_of_the_name() {
    assert_eq!(archive_kind("ffmpeg.zip"), Some(ArchiveKind::Zip));
    assert_eq!(archive_kind("ffmpeg.tar.xz"), Some(ArchiveKind::TarXz));
    assert_eq!(archive_kind("a.zip.tar.xz"), Some(ArchiveKind::TarXz));
    assert_eq!(archive_kind(".zip"), Some(ArchiveKind::Zip));
    assert_eq!(archive_kind("ffmpeg.tar.gz"), None);
    assert_eq!(archive_kind("ffmpeg.ZIP"), None);
    assert_eq!(archive_kind("zip"), None);
    assert_eq!(archive_kind(""), None);
}

#[test]
fn build_directory_is_a_directory_named_after_the_tool() {
    assert!(holds_build("ffmpeg-master-latest-linux64-gpl", true));
    assert!(holds_build("my-ffmpeg", true));
    assert!(!holds_build("ffmpeg-master-latest-linux64-gpl", false));
    assert!(!holds_build("yt-dlp", true));
    assert!(!holds_build("FFmpeg", true));
}

#[test]
fn standard_sources_by_platform() {
    let linux = Sources::standard(Platform::Linux);
    assert_eq!(linux.ytdlp_url, "https://github.com/yt-dlp/yt-dlp/releases/latest/download/yt-dlp");
    assert_eq!(
        linux.ffmpeg_url,
        "https://github.com/BtbN/FFmpeg-Builds/releases/download/latest/ffmpeg-master-latest-linux64-gpl.tar.xz"
    );
    assert_eq!(linux.ffmpeg_archive, "ffmpeg.tar.xz");
    let mac = Sources::standard(Platform::MacOs);
    assert_eq!(
        mac.ytdlp_url,
        "https://github.com/yt-dlp/yt-dlp/releases/latest/download/yt-dlp_macos"
    );
    assert_eq!(mac.ffmpeg_url, "https://evermeet.cx/ffmpeg/ffmpeg-6.0.zip");
    assert_eq!(mac.ffmpeg_archive, "ffmpeg.zip");
    let windows = Sources::standard(Platform::Windows);
    assert_eq!(
        windows.ytdlp_url,
        "https://github.com/yt-dlp/yt-dlp/releases/latest/download/yt-dlp.exe"
    );
    assert_eq!(
        windows.ffmpeg_url,
        "https://github.com/BtbN/FFmpeg-Builds/releases/download/latest/ffmpeg-master-latest-win64-gpl.zip"
    );
    assert_eq!(windows.ffmpeg_archive, "ffmpeg.zip");
    for platform in [Platform::Linux, Platform::MacOs, Platform::Windows] {
        assert!(archive_kind(&Sources::standard(platform).ffmpeg_archive).is_some());
    }
}

#[test]
fn standard_retry_policy() {
    let policy = RetryPolicy::standard();
    assert_eq!(policy.initial_interval, 1);
    assert_eq!(policy.max_interval, 10);
    assert_eq!(policy.max_elapsed, 60);
    assert_eq!(policy.connect_timeout, 30);
    assert_eq!(policy.request_timeout, 300);
}

#[test]
fn a_try_is_repeated_only_without_an_answer() {
    assert_eq!(judge(Attempt::NoAnswer), Verdict::Retry);
    assert_eq!(judge(Attempt::Answered(200)), Verdict::Proceed);
    assert_eq!(judge(Attempt::Answered(206)), Verdict::Proceed);
    assert_eq!(judge(Attempt::Answered(299)), Verdict::Proceed);
    assert_eq!(judge(Attempt::Answered(199)), Verdict::GiveUp);
    assert_eq!(judge(Attempt::Answered(300)), Verdict::GiveUp);
    assert_eq!(judge(Attempt::Answered(404)), Verdict::GiveUp);
    assert_eq!(judge(Attempt::Answered(503)), Verdict::GiveUp);
}

#[test]
fn meter_reports_bytes_against_the_length() {
    let mut meter = DownloadMeter::new(Some(4000));
    assert_eq!((meter.total(), meter.received()), (4000, 0));
    assert_eq!(meter.record(1000), Some(percent(100_000, 4000)));
    assert_eq!(meter.record(0), Some(percent(100_000, 4000)));
    assert_eq!(meter.record(2000), Some(percent(300_000, 4000)));
    assert_eq!(meter.record(1000), Some(percent(400_000, 4000)));
    assert_eq!(meter.received(), 4000);
}

#[test]
fn percent_of_a_download_never_goes_down_and_ends_at_100() {
    let chunks = [8192u64, 8192, 100, 8192, 1, 0, 8192, 7];
    let total: u64 = chunks.iter().sum();
    let mut meter = DownloadMeter::new(Some(total));
    let mut last = (0u128, 1u128);
    for chunk in chunks {
        assert!(meter.has_room(chunk));
        let now = meter.record(chunk).unwrap().as_fraction().unwrap();
        assert_eq!(now.1, total as u128);
        assert!(last.0 * now.1 <= now.0 * last.1, "{:?} then {:?}", last, now);
        last = now;
    }
    assert_eq!(last.0, 100 * last.1);
}

#[test]
fn meter_without_a_length_reports_nothing() {
    let mut meter = DownloadMeter::new(None);
    assert_eq!(meter.record(8192), None);
    assert_eq!(meter.record(8192), None);
    assert_eq!(meter.received(), 16384);
    let mut zero = DownloadMeter::new(Some(0));
    assert_eq!(zero.record(10), None);
}

#[test]
fn meter_knows_when_the_count_would_not_fit() {
    let mut meter = DownloadMeter::new(Some(10));
    assert!(meter.has_room(u64::MAX));
    meter.record(1);
    assert!(!meter.has_room(u64::MAX));
    assert!(meter.has_room(u64::MAX - 1));
}

#[test]
fn update_summary_picks_the_line_that_reports() {
    assert_eq!(
        update_summary(
            true,
            "Latest version: 2024.01.01\n  yt-dlp is up to date (2024.01.01)  \nbye\n",
            ""
        ),
        Ok("yt-dlp is up to date (2024.01.01)".to_string())
    );
    assert_eq!(
        update_summary(true, "Updating...\r\nUpdated yt-dlp to 2024.02.02\r\n", ""),
        Ok("Updated yt-dlp to 2024.02.02".to_string())
    );
    assert_eq!(
        update_summary(true, "first up to date\nthen Updated\n", "x"),
        Ok("first up to date".to_string())
    );
    assert_eq!(update_summary(true, "nothing to see\n", ""), Ok("업데이트 확인 완료".to_string()));
    assert_eq!(update_summary(true, "", ""), Ok("업데이트 확인 완료".to_string()));
    assert_eq!(update_summary(true, "UP TO DATE", ""), Ok("업데이트 확인 완료".to_string()));
}

#[test]
fn update_summary_of_a_failure_gives_the_errors() {
    assert_eq!(
        update_summary(false, "yt-dlp is up to date", "  ERROR: no network \n"),
        Err("업데이트 실패: ERROR: no network".to_string())
    );
    assert_eq!(update_summary(false, "", ""), Err("업데이트 실패: ".to_string()));
}

#[test]
fn version_summary_shows_the_first_line_cut_to_30() {
    assert_eq!(
        version_summary(
            true,
            "ffmpeg version n6.0-22-g111 Copyright (c) 2000-2023 the FFmpeg developers\nbuilt with gcc\n"
        ),
        Ok("정상 작동 (ffmpeg version n6.0-22-g111 Co)".to_string())
    );
    assert_eq!(version_summary(true, "ffmpeg 6\n"), Ok("정상 작동 (ffmpeg 6)".to_string()));
    assert_eq!(
        version_summary(true, "123456789012345678901234567890"),
        Ok("정상 작동 (123456789012345678901234567890)".to_string())
    );
    assert_eq!(
        version_summary(true, "1234567890123456789012345678901"),
        Ok("정상 작동 (123456789012345678901234567890)".to_string())
    );
    // eleven characters of three bytes each: ten of them fit within 30 bytes
    assert_eq!(
        version_summary(true, "가나다라마바사아자차카\nnext"),
        Ok("정상 작동 (가나다라마바사아자차)".to_string())
    );
    // byte 30 falls inside a character: the cut is before that character
    assert_eq!(
        version_summary(true, "ffmpeg version 6.0 — 한국어 빌드"),
        Ok("정상 작동 (ffmpeg version 6.0 — 한국)".to_string())
    );
    assert_eq!(
        version_summary(true, "12345678901234567890123456789é"),
        Ok("정상 작동 (12345678901234567890123456789)".to_string())
    );
    assert_eq!(
        version_summary(true, "1234567890123456789012345678é9"),
        Ok("정상 작동 (1234567890123456789012345678é)".to_string())
    );
    assert_eq!(version_summary(true, ""), Ok("정상 작동 (ffmpeg 감지됨)".to_string()));
    assert_eq!(version_summary(true, "\nsecond"), Ok("정상 작동 ()".to_string()));
    assert_eq!(version_summary(false, "ffmpeg 6"), Err("ffmpeg 실행 중 오류 발생".to_string()));
}

#[test]
fn wordings_name_their_translations() {
    assert_eq!(Wording::Preparing.key(), "initialization.preparing");
    assert_eq!(Wording::FolderError.key(), "initialization.folder_error");
    assert_eq!(Wording::YtdlpDownloadFail.key(), "initialization.ytdlp_download_fail");
    assert_eq!(Wording::FfmpegDownloadFail.key(), "initialization.ffmpeg_download_fail");
    assert_eq!(Wording::YtdlpUpdateCheck.key(), "initialization.ytdlp_update_check");
    assert_eq!(Wording::YtdlpUpdateFail.key(), "initialization.ytdlp_update_fail");
    assert_eq!(Wording::FfmpegCheck.key(), "initialization.ffmpeg_check");
    assert_eq!(Wording::FfmpegCheckFail.key(), "initialization.ffmpeg_check_fail");
    assert_eq!(Wording::DownloadingPrep.key(), "initialization.downloading_prep");
    assert_eq!(Wording::DownloadingAttempt.key(), "initialization.downloading_attempt");
    assert_eq!(Wording::DownloadingRetry.key(), "initialization.downloading_retry");
    assert_eq!(Wording::DownloadFailedRetry.key(), "initialization.download_failed_retry");
    assert_eq!(Wording::Extracting.key(), "initialization.extracting");
    assert_eq!(Wording::Preparing.parameter(), "");
    assert_eq!(Wording::FfmpegCheck.parameter(), "");
    assert_eq!(Wording::DownloadingPrep.parameter(), "file");
    assert_eq!(Wording::Extracting.parameter(), "file");
    assert_eq!(Wording::FolderError.parameter(), "error");
    assert_eq!(Wording::DownloadFailedRetry.parameter(), "error");
}

#[test]
fn present_tools_are_checked_and_nothing_is_fetched() {
    let (boot, effects, actions) = run(vec![
        BootstrapEvent::DirReady,
        BootstrapEvent::Found,
        BootstrapEvent::Found,
        BootstrapEvent::Ran("yt-dlp is up to date".to_string()),
        BootstrapEvent::Ran("정상 작동 (ffmpeg version 6)".to_string()),
    ]);
    assert_eq!(boot.phase, BootstrapPhase::Completed);
    assert_eq!(
        actions,
        vec![
            BootstrapAction::EnsureDir,
            BootstrapAction::Probe(Tool::YtDlp),
            BootstrapAction::Probe(Tool::Ffmpeg),
            BootstrapAction::RunUpdate,
            BootstrapAction::RunCheck,
            BootstrapAction::Stop,
        ]
    );
    assert_eq!(
        effects,
        vec![
            starting(Wording::YtdlpUpdateCheck, ""),
            Effect::Report(InitStatus::Starting(InitMessage::Text(
                "yt-dlp: yt-dlp is up to date".to_string()
            ))),
            Effect::Pause,
            starting(Wording::FfmpegCheck, ""),
            Effect::Report(InitStatus::Starting(InitMessage::Text(
                "ffmpeg: 정상 작동 (ffmpeg version 6)".to_string()
            ))),
            Effect::Pause,
            Effect::Report(InitStatus::Completed),
        ]
    );
    assert!(!effects.iter().any(|e| matches!(
        e,
        Effect::Report(InitStatus::Downloading(..)) | Effect::Report(InitStatus::Extracting(_))
    )));
    assert_eq!(ends(&effects), 1);
    assert_eq!(pause_millis(), 1500);
}

#[test]
fn failing_checks_do_not_fail_the_setup() {
    let (boot, effects, _) = run(vec![
        BootstrapEvent::DirReady,
        BootstrapEvent::Found,
        BootstrapEvent::Found,
        BootstrapEvent::of_summary(Err("업데이트 실패: offline".to_string())),
        BootstrapEvent::of_summary(Err("ffmpeg 실행 중 오류 발생".to_string())),
    ]);
    assert_eq!(boot.phase, BootstrapPhase::Completed);
    assert_eq!(
        effects,
        vec![
            starting(Wording::YtdlpUpdateCheck, ""),
            starting(Wording::YtdlpUpdateFail, "업데이트 실패: offline"),
            Effect::Pause,
            starting(Wording::FfmpegCheck, ""),
            starting(Wording::FfmpegCheckFail, "ffmpeg 실행 중 오류 발생"),
            Effect::Pause,
            Effect::Report(InitStatus::Completed),
        ]
    );
}

#[test]
fn missing_tools_are_fetched_one_after_the_other() {
    let (boot, effects, actions) = run(vec![
        BootstrapEvent::DirReady,
        BootstrapEvent::Missing,
        BootstrapEvent::Attempt,
        BootstrapEvent::AttemptFailed,
        BootstrapEvent::Attempt,
        BootstrapEvent::Connected(Some(200)),
        BootstrapEvent::Chunk(50),
        BootstrapEvent::Chunk(150),
        BootstrapEvent::Stored,
        BootstrapEvent::Missing,
        BootstrapEvent::Attempt,
        BootstrapEvent::Connected(None),
        BootstrapEvent::Chunk(8192),
        BootstrapEvent::Stored,
        BootstrapEvent::Unpacked,
        BootstrapEvent::Ran("a".to_string()),
        BootstrapEvent::Ran("b".to_string()),
    ]);
    assert_eq!(boot.phase, BootstrapPhase::Completed);
    assert_eq!(
        effects,
        vec![
            starting(Wording::DownloadingPrep, "yt-dlp"),
            starting(Wording::DownloadingAttempt, "yt-dlp"),
            starting(Wording::DownloadingRetry, "yt-dlp"),
            starting(Wording::DownloadingAttempt, "yt-dlp"),
            Effect::Report(InitStatus::Downloading(percent(5000, 200), "yt-dlp".to_string())),
            Effect::Report(InitStatus::Downloading(percent(20000, 200), "yt-dlp".to_string())),
            starting(Wording::FfmpegCheck, ""),
            starting(Wording::DownloadingPrep, "ffmpeg archive"),
            starting(Wording::DownloadingAttempt, "ffmpeg archive"),
            Effect::Report(InitStatus::Extracting(InitMessage::Worded(
                Wording::Extracting,
                "ffmpeg".to_string()
            ))),
            starting(Wording::YtdlpUpdateCheck, ""),
            Effect::Report(InitStatus::Starting(InitMessage::Text("yt-dlp: a".to_string()))),
            Effect::Pause,
            starting(Wording::FfmpegCheck, ""),
            Effect::Report(InitStatus::Starting(InitMessage::Text("ffmpeg: b".to_string()))),
            Effect::Pause,
            Effect::Report(InitStatus::Completed),
        ]
    );
    assert_eq!(
        actions,
        vec![
            BootstrapAction::EnsureDir,
            BootstrapAction::Probe(Tool::YtDlp),
            BootstrapAction::Request(Tool::YtDlp),
            BootstrapAction::Request(Tool::YtDlp),
            BootstrapAction::Request(Tool::YtDlp),
            BootstrapAction::Request(Tool::YtDlp),
            BootstrapAction::ReadBody(Tool::YtDlp),
            BootstrapAction::ReadBody(Tool::YtDlp),
            BootstrapAction::ReadBody(Tool::YtDlp),
            BootstrapAction::Probe(Tool::Ffmpeg),
            BootstrapAction::Request(Tool::Ffmpeg),
            BootstrapAction::Request(Tool::Ffmpeg),
            BootstrapAction::ReadBody(Tool::Ffmpeg),
            BootstrapAction::ReadBody(Tool::Ffmpeg),
            BootstrapAction::Unpack,
            BootstrapAction::RunUpdate,
            BootstrapAction::RunCheck,
            BootstrapAction::Stop,
        ]
    );
    assert_eq!(ends(&effects), 1);
}

#[test]
fn each_failure_ends_the_setup_with_its_reason() {
    let (boot, effects, _) = run(vec![BootstrapEvent::DirFailed("denied".to_string())]);
    assert_eq!(boot.phase, BootstrapPhase::Failed);
    assert_eq!(effects, vec![failed(Wording::FolderError, "denied")]);

    let (boot, effects, _) = run(vec![
        BootstrapEvent::DirReady,
        BootstrapEvent::Missing,
        BootstrapEvent::Attempt,
        BootstrapEvent::GaveUp("timed out".to_string()),
    ]);
    assert_eq!(boot.phase, BootstrapPhase::Failed);
    assert_eq!(
        effects.last(),
        Some(&Effect::Report(InitStatus::Failed(InitMessage::Nested(
            Wording::YtdlpDownloadFail,
            Wording::DownloadFailedRetry,
            "timed out".to_string()
        ))))
    );

    let (boot, effects, _) = run(vec![
        BootstrapEvent::DirReady,
        BootstrapEvent::Found,
        BootstrapEvent::Missing,
        BootstrapEvent::StoreFailed("no client".to_string()),
    ]);
    assert_eq!(boot.phase, BootstrapPhase::Failed);
    assert_eq!(effects.last(), Some(&failed(Wording::FfmpegDownloadFail, "no client")));

    let (boot, effects, _) = run(vec![
        BootstrapEvent::DirReady,
        BootstrapEvent::Missing,
        BootstrapEvent::Connected(Some(10)),
        BootstrapEvent::Chunk(5),
        BootstrapEvent::StoreFailed("disk full".to_string()),
    ]);
    assert_eq!(boot.phase, BootstrapPhase::Failed);
    assert_eq!(effects.last(), Some(&failed(Wording::YtdlpDownloadFail, "disk full")));

    let (boot, effects, actions) = run(vec![
        BootstrapEvent::DirReady,
        BootstrapEvent::Found,
        BootstrapEvent::Missing,
        BootstrapEvent::Connected(None),
        BootstrapEvent::Stored,
        BootstrapEvent::UnpackFailed("tar 압축 해제 실패".to_string()),
        BootstrapEvent::Ran("late".to_string()),
    ]);
    assert_eq!(boot.phase, BootstrapPhase::Failed);
    assert_eq!(effects.last(), Some(&failed(Wording::FfmpegDownloadFail, "tar 압축 해제 실패")));
    assert_eq!(actions.last(), Some(&BootstrapAction::Stop));
    assert_eq!(ends(&effects), 1);
}

#[test]
fn setup_takes_no_event_that_overflows_the_count() {
    let mut boot = Bootstrap::new();
    boot.step(BootstrapEvent::DirReady);
    boot.step(BootstrapEvent::Missing);
    boot.step(BootstrapEvent::Connected(Some(100)));
    assert!(boot.can_take(&BootstrapEvent::Chunk(u64::MAX)));
    boot.step(BootstrapEvent::Chunk(1));
    assert!(!boot.can_take(&BootstrapEvent::Chunk(u64::MAX)));
    assert!(boot.can_take(&BootstrapEvent::Stored));
}

#[test]
fn all_about_each_tool() {
    let sources = Sources::standard(Platform::Windows);
    assert_eq!(
        ToolBinary::resolve(Tool::YtDlp, Platform::Windows, &sources),
        ToolBinary {
            tool: Tool::YtDlp,
            name: "yt-dlp".to_string(),
            path: ToolPath::InAppDir("yt-dlp.exe".to_string()),
            check_args: vec!["-U".to_string()],
            url: "https://github.com/yt-dlp/yt-dlp/releases/latest/download/yt-dlp.exe"
                .to_string(),
            needs_executable_bit: false,
        }
    );
    let own = Sources {
        ytdlp_url: "https://mirror.example/yt-dlp".to_string(),
        ffmpeg_url: "https://mirror.example/ffmpeg.tar.xz".to_string(),
        ffmpeg_archive: "ffmpeg.tar.xz".to_string(),
    };
    assert_eq!(
        ToolBinary::resolve(Tool::Ffmpeg, Platform::Linux, &own),
        ToolBinary {
            tool: Tool::Ffmpeg,
            name: "ffmpeg".to_string(),
            path: ToolPath::InAppDir("ffmpeg".to_string()),
            check_args: vec!["-version".to_string()],
            url: "https://mirror.example/ffmpeg.tar.xz".to_string(),
            needs_executable_bit: true,
        }
    );
}
