use rust_yt::downloader::{
    build_args, child_search_path, classify_line, output_file_name, sanitize_filename,
    DownloadConfig, DownloadFormat, DownloadStatus, JobAction, JobEvent, JobPhase, Supervisor,
};
use rust_yt::percent::Percent;
use rust_yt::platform::Platform;

fn percent(n: u128, d: u128) -> Percent {
    Percent::new(n, d).unwrap()
}

fn config(format: DownloadFormat) -> DownloadConfig {
    DownloadConfig {
        url: "https://example.com/watch?v=1".to_string(),
        format,
        audio_quality: "320K".to_string(),
        output_dir: "/music".to_string(),
    }
}

fn terminal_count(statuses: &[DownloadStatus]) -> usize {
    statuses.iter().filter(|s| s.terminal()).count()
}

fn run(title: &str, events: Vec<JobEvent>) -> (Supervisor, Vec<DownloadStatus>) {
    let mut job = Supervisor::new(title.to_string());
    let mut seen = Vec::new();
    for event in events {
        seen.extend(job.step(event));
    }
    (job, seen)
}

#[test]
fn title_with_slash_and_colon_is_sanitized() {
    // the slash and the colon are not kept, the whitespace between the words is
    assert_eq!(sanitize_filename("Test / Song: 1"), "Test  Song 1");
    assert_eq!(output_file_name("Test / Song: 1"), "Test  Song 1.%(ext)s");
}

#[test]
fn sanitize_keeps_letters_numbers_and_allowed_punctuation() {
    assert_eq!(sanitize_filename("abc XYZ 019"), "abc XYZ 019");
    assert_eq!(sanitize_filename("-_()[].,!&'"), "-_()[].,!&'");
    assert_eq!(sanitize_filename("한글 제목 — 日本語 (Live)"), "한글 제목  日本語 (Live)");
    assert_eq!(sanitize_filename("a+b=c#d@e"), "abcde");
    assert_eq!(sanitize_filename("¾ ① ٣"), "¾ ① ٣");
    assert_eq!(sanitize_filename("tab\tand\nnewline"), "tab\tand\nnewline");
}

#[test]
fn sanitize_drops_reserved_characters_and_trims() {
    assert_eq!(sanitize_filename("/ \\ : * ? \" < > |"), "");
    assert_eq!(sanitize_filename("  padded  "), "padded");
    assert_eq!(sanitize_filename("*** title ***"), "title");
    assert_eq!(sanitize_filename(""), "");
    assert_eq!(sanitize_filename("\u{3000}wide\u{a0}"), "wide");
    assert_eq!(sanitize_filename("a/b\\c:d*e?f\"g<h>i|j"), "abcdefghij");
}

#[test]
fn sanitize_twice_is_sanitize_once() {
    for title in [
        "Test / Song: 1",
        "  a  ",
        "***",
        "x | y",
        " (Official Video) [4K] ",
        "한글 :: 제목 ",
        "\t\u{2003}é!\u{2003}\n",
        "",
    ] {
        let once = sanitize_filename(title);
        assert_eq!(sanitize_filename(&once), once, "{:?}", title);
        assert!(!once.chars().any(|c| "/\\:*?\"<>|".contains(c)), "{:?}", title);
    }
}

#[test]
fn arguments_for_mp3_name_the_quality() {
    let args = build_args(&config(DownloadFormat::Mp3), "/music/Test  Song 1.%(ext)s");
    assert_eq!(
        args,
        vec![
            "--no-playlist",
            "--newline",
            "--progress",
            "--embed-thumbnail",
            "--add-metadata",
            "-o",
            "/music/Test  Song 1.%(ext)s",
            "-x",
            "--audio-format",
            "mp3",
            "--audio-quality",
            "320K",
            "https://example.com/watch?v=1",
        ]
    );
}

#[test]
fn arguments_for_the_other_audio_formats() {
    for (format, name) in
        [(DownloadFormat::Wav, "wav"), (DownloadFormat::M4a, "m4a"), (DownloadFormat::Flac, "flac")]
    {
        let args = build_args(&config(format), "out.%(ext)s");
        assert_eq!(
            args,
            vec![
                "--no-playlist",
                "--newline",
                "--progress",
                "--embed-thumbnail",
                "--add-metadata",
                "-o",
                "out.%(ext)s",
                "-x",
                "--audio-format",
                name,
                "https://example.com/watch?v=1",
            ]
        );
    }
}

#[test]
fn arguments_for_the_video_formats() {
    let mp4 = build_args(&config(DownloadFormat::Mp4), "out.%(ext)s");
    assert_eq!(
        mp4[7..],
        [
            "-f",
            "bestvideo[ext=mp4]+bestaudio[ext=m4a]/best[ext=mp4]/best",
            "--merge-output-format",
            "mp4",
            "https://example.com/watch?v=1",
        ]
    );
    let webm = build_args(&config(DownloadFormat::Webm), "out.%(ext)s");
    assert_eq!(
        webm[7..],
        [
            "-f",
            "bestvideo[ext=webm]+bestaudio/best",
            "--merge-output-format",
            "webm",
            "https://example.com/watch?v=1",
        ]
    );
    assert_eq!(mp4[..7], webm[..7]);
    assert_eq!(mp4.len(), 12);
}

#[test]
fn search_path_of_the_child_by_platform() {
    assert_eq!(
        child_search_path(Platform::Windows, "C:\\Windows", "C:\\data\\rust-yt", "C:\\Users\\u"),
        "C:\\data\\rust-yt;C:\\Windows"
    );
    assert_eq!(
        child_search_path(Platform::MacOs, "/usr/bin:/bin", "/data/rust-yt", "/Users/u"),
        "/usr/bin:/bin:/opt/homebrew/bin:/usr/local/bin:/Users/u/.cargo/bin"
    );
    assert_eq!(
        child_search_path(Platform::Linux, "/usr/bin:/bin", "/data/rust-yt", "/home/u"),
        "/usr/bin:/bin"
    );
    assert_eq!(child_search_path(Platform::MacOs, "", "", ""), ":/opt/homebrew/bin:/usr/local/bin:/.cargo/bin");
}

#[test]
fn progress_line_gives_percent_and_speed() {
    assert_eq!(
        classify_line("[download]  45.3% of ~10.00MiB at  1.23MiB/s ETA 00:05"),
        vec![DownloadStatus::Progress(percent(453, 10), "1.23MiB/s".to_string())]
    );
    assert_eq!(
        classify_line("[download] 100% of 3.50MiB in 00:02"),
        vec![DownloadStatus::Progress(percent(100, 1), String::new())]
    );
    assert_eq!(
        classify_line("[download]   0.0% of 3.50MiB at Unknown B/s ETA Unknown"),
        vec![DownloadStatus::Progress(percent(0, 10), "B/s".to_string())]
    );
}

#[test]
fn every_percent_from_0_to_100_is_read_exactly() {
    for tenths in 0..=1000u128 {
        let text = format!("{}.{}", tenths / 10, tenths % 10);
        let line = format!("[download]  {}% of 12.34MiB at 512.00KiB/s ETA 00:10", text);
        assert_eq!(
            classify_line(&line),
            vec![DownloadStatus::Progress(percent(tenths, 10), "512.00KiB/s".to_string())],
            "{}",
            line
        );
    }
    for whole in 0..=100u128 {
        let line = format!("[download] {}% of 1MiB at Xs", whole);
        assert_eq!(
            classify_line(&line),
            vec![DownloadStatus::Progress(percent(whole, 1), String::new())]
        );
    }
}

#[test]
fn conversion_lines_give_converting() {
    assert_eq!(
        classify_line("[ExtractAudio] Destination: Test  Song 1.mp3"),
        vec![DownloadStatus::Converting]
    );
    assert_eq!(
        classify_line("[Merger] Merging formats into \"x.mp4\""),
        vec![DownloadStatus::Converting]
    );
    assert_eq!(
        classify_line("[Merger] [download] 12% 3KiB/s"),
        vec![
            DownloadStatus::Progress(percent(12, 1), "3KiB/s".to_string()),
            DownloadStatus::Converting
        ]
    );
}

#[test]
fn other_lines_give_nothing() {
    for line in [
        "",
        "[youtube] Extracting URL: https://example.com",
        "[download] Destination: Test.webm",
        "45.3% without the tag",
        "[download] no percent here",
        "[download] abc% is no number",
        "[download] % alone",
        "[download] -5% is negative",
        "[download] -0.01% is negative",
        "[download] 150% is above a hundred",
        "[download] 100.1% is above a hundred",
        "[download] 101% is above a hundred",
        "[download] 1e3% is above a hundred",
        "[download] 10.01e1% is above a hundred",
        "[download] inf% is no number",
        "[download] nan% is no number",
        "[download] 5e% lacks the exponent",
        "[download] 50 % apart",
        "[download] file 100%.mp3 has been downloaded",
        "[Download] 45% wrong case",
        "[extractaudio] wrong case",
    ] {
        assert_eq!(classify_line(line), Vec::<DownloadStatus>::new(), "{:?}", line);
    }
}

#[test]
fn percent_word_may_end_with_several_signs_and_first_one_counts() {
    assert_eq!(
        classify_line("[download] 50%% of it"),
        vec![DownloadStatus::Progress(percent(50, 1), String::new())]
    );
    assert_eq!(
        classify_line("[download] 10% then 20% at 1KiB/s 2KiB/s"),
        vec![DownloadStatus::Progress(percent(10, 1), "1KiB/s".to_string())]
    );
    // the first word with the sign is no number: the line is passed over
    assert_eq!(classify_line("[download] x% then 20%"), Vec::<DownloadStatus>::new());
}

#[test]
fn successful_run_reports_start_progress_and_completion() {
    let (job, seen) = run(
        "My Title",
        vec![
            JobEvent::Spawned,
            JobEvent::Line("[youtube] abc: Downloading webpage".to_string()),
            JobEvent::Line("[download]  50.0% of 2MiB at 1MiB/s ETA 00:01".to_string()),
            JobEvent::Line("[download] 100% of 2MiB in 00:02".to_string()),
            JobEvent::Line("[ExtractAudio] Destination: My Title.mp3".to_string()),
            JobEvent::OutputClosed,
            JobEvent::Exited(true),
        ],
    );
    assert_eq!(
        seen,
        vec![
            DownloadStatus::Starting("다운로드 시작...".to_string()),
            DownloadStatus::Progress(percent(500, 10), "1MiB/s".to_string()),
            DownloadStatus::Progress(percent(100, 1), String::new()),
            DownloadStatus::Converting,
            DownloadStatus::Completed("My Title".to_string()),
        ]
    );
    assert!(job.is_done());
    assert_eq!(job.next_action(), JobAction::Finish);
    assert_eq!(terminal_count(&seen), 1);
}

#[test]
fn failed_run_reports_one_failure() {
    let (job, seen) = run(
        "t",
        vec![
            JobEvent::Spawned,
            JobEvent::Line("ERROR: unable to download".to_string()),
            JobEvent::OutputClosed,
            JobEvent::Exited(false),
        ],
    );
    assert_eq!(
        seen,
        vec![
            DownloadStatus::Starting("다운로드 시작...".to_string()),
            DownloadStatus::Failed("다운로드 실패 (또는 중단)".to_string()),
        ]
    );
    assert!(job.is_done());
    assert_eq!(terminal_count(&seen), 1);
}

#[test]
fn killed_run_still_reports_exactly_one_final_status() {
    // the process is killed while its output is read: the output ends, and
    // the wait gives an exit without success
    let (job, seen) = run(
        "t",
        vec![
            JobEvent::Spawned,
            JobEvent::Line("[download]  10.0% of 2MiB at 1MiB/s ETA 00:09".to_string()),
            JobEvent::OutputClosed,
            JobEvent::Exited(false),
        ],
    );
    assert_eq!(terminal_count(&seen), 1);
    assert!(seen.last().unwrap().terminal());
    assert!(matches!(seen.last(), Some(DownloadStatus::Failed(_))));
    assert!(job.is_done());
}

#[test]
fn spawn_failure_reports_only_the_failure() {
    let (job, seen) = run("t", vec![JobEvent::SpawnFailed("No such file".to_string())]);
    assert_eq!(seen, vec![DownloadStatus::Failed("실행 실패: No such file".to_string())]);
    assert!(job.is_done());
}

#[test]
fn wait_error_reports_a_failure() {
    let (job, seen) =
        run("t", vec![JobEvent::Spawned, JobEvent::OutputClosed, JobEvent::WaitFailed]);
    assert_eq!(
        seen,
        vec![
            DownloadStatus::Starting("다운로드 시작...".to_string()),
            DownloadStatus::Failed("프로세스 대기 오류".to_string()),
        ]
    );
    assert!(job.is_done());
}

#[test]
fn supervisor_asks_for_the_next_step_of_each_phase() {
    let mut job = Supervisor::new("t".to_string());
    assert_eq!(job.phase, JobPhase::Launching);
    assert_eq!(job.next_action(), JobAction::Spawn);
    job.step(JobEvent::Spawned);
    assert_eq!(job.next_action(), JobAction::ReadLine);
    job.step(JobEvent::Line("x".to_string()));
    assert_eq!(job.next_action(), JobAction::ReadLine);
    job.step(JobEvent::OutputClosed);
    assert_eq!(job.next_action(), JobAction::Wait);
    job.step(JobEvent::Exited(true));
    assert_eq!(job.next_action(), JobAction::Finish);
}

#[test]
fn events_out_of_turn_change_nothing() {
    let mut job = Supervisor::new("t".to_string());
    assert!(job.step(JobEvent::Line("[download] 5% 1KiB/s".to_string())).is_empty());
    assert!(job.step(JobEvent::Exited(true)).is_empty());
    assert!(job.step(JobEvent::OutputClosed).is_empty());
    assert_eq!(job.phase, JobPhase::Launching);
    job.step(JobEvent::Spawned);
    assert!(job.step(JobEvent::Spawned).is_empty());
    assert!(job.step(JobEvent::Exited(true)).is_empty());
    assert_eq!(job.phase, JobPhase::Reading);
    job.step(JobEvent::OutputClosed);
    assert!(job.step(JobEvent::Line("[Merger] x".to_string())).is_empty());
    job.step(JobEvent::Exited(true));
    assert!(job.step(JobEvent::Exited(false)).is_empty());
    assert!(job.step(JobEvent::WaitFailed).is_empty());
    assert!(job.step(JobEvent::Line("[download] 5%".to_string())).is_empty());
    assert_eq!(job.phase, JobPhase::Done);
}

#[test]
fn statuses_that_end_a_job() {
    assert!(DownloadStatus::Completed("t".to_string()).terminal());
    assert!(DownloadStatus::Failed("e".to_string()).terminal());
    assert!(DownloadStatus::Stopped.terminal());
    assert!(!DownloadStatus::Starting("m".to_string()).terminal());
    assert!(!DownloadStatus::Progress(Percent::zero(), String::new()).terminal());
    assert!(!DownloadStatus::Converting.terminal());
}

#[test]
fn percent_may_carry_a_sign_or_an_exponent() {
    assert_eq!(
        classify_line("[download] 5e1% 1KiB/s"),
        vec![DownloadStatus::Progress(percent(50, 1), "1KiB/s".to_string())]
    );
    assert_eq!(
        classify_line("[download] 1e2% has an exponent"),
        vec![DownloadStatus::Progress(percent(100, 1), String::new())]
    );
    assert_eq!(
        classify_line("[download] +7.5% of 1MiB at 2MiB/s"),
        vec![DownloadStatus::Progress(percent(75, 10), "2MiB/s".to_string())]
    );
    assert_eq!(
        classify_line("[download] 1000E-1% done"),
        vec![DownloadStatus::Progress(percent(1000, 10), String::new())]
    );
    assert_eq!(
        classify_line("[download] -0% 3B/s"),
        vec![DownloadStatus::Progress(percent(0, 1), "3B/s".to_string())]
    );
}

#[test]
fn progress_is_never_below_0_or_above_100() {
    let words = [
        "0", "0.0", "50", "99.999", "100", "100.0", "100.000001", "100.1", "101", "150", "1e2",
        "1.0001e2", "1e3", "9e99", "-0", "-0.0", "-1", "-1e-9", "+100", "+100.5", "5e-3", "1e-9",
        "inf", "-inf", "nan", "infinity", "abc", "", "1e", "٣",
    ];
    for word in words {
        let line = format!("[download] {}% of 1MiB at 1MiB/s", word);
        let read = word.parse::<f64>().ok().filter(|v| 0.0 <= *v && *v <= 100.0);
        match (classify_line(&line).as_slice(), read) {
            ([DownloadStatus::Progress(p, speed)], Some(v)) => {
                let (n, d) = p.as_fraction().unwrap();
                assert!(n <= 100 * d, "{}", line);
                assert_eq!(n as f64 / d as f64, v, "{}", line);
                assert_eq!(speed, "1MiB/s");
            }
            ([], None) => {}
            (other, read) => panic!("{:?}: {:?} against {:?}", line, other, read),
        }
    }
}

#[test]
fn percent_of_any_length_is_read_exactly() {
    for word in [
        format!("50.{}", "0".repeat(45)),
        format!("33.{}", "3".repeat(80)),
        format!("{}99.5", "0".repeat(45)),
        format!("100.{}", "0".repeat(45)),
        format!("0.{}1", "0".repeat(45)),
    ] {
        let line = format!("[download]  {}% of 10.00MiB at 1.00MiB/s ETA 00:01", word);
        let statuses = classify_line(&line);
        assert_eq!(statuses.len(), 1, "{}", line);
        match &statuses[0] {
            DownloadStatus::Progress(p, speed) => {
                assert_eq!(speed, "1.00MiB/s");
                let chars: Vec<char> = word.chars().collect();
                assert_eq!(Some(p.clone()), Percent::from_numeral(&chars));
                let text = match p.as_fraction() {
                    Some((n, d)) => format!("{}", n as f64 / d as f64),
                    None => p.as_written().unwrap(),
                };
                assert_eq!(text.parse::<f64>().unwrap(), word.parse::<f64>().unwrap());
            }
            other => panic!("{:?}", other),
        }
    }
    let above = format!("[download]  100.{}1% of 10.00MiB", "0".repeat(45));
    assert_eq!(classify_line(&above), Vec::<DownloadStatus>::new());
}
