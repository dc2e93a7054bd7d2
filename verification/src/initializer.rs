//! Making sure that the download tool and the conversion tool are in place
//! before the first download: where they belong, where they come from, how
//! a download of one is retried and measured, and the course of the whole
//! set-up from its start to `Completed` or `Failed`.

use crate::percent::Percent;
use crate::platform::{Platform, ToolPath, ToolPathView};
use crate::text::{
    chars_of, contains, contains_text, cut_to_bytes, ends_with, ends_with_text, lines_of,
    split_lines, string_of, string_texts, texts, trim, trim_text, truncate_to_bytes,
};
use vstd::prelude::*;
use vstd::string::StringExecFns;

verus! {

/// One of the two tools that the program depends on.
#[derive(Debug, Clone, Copy, PartialEq, Eq, Structural)]
pub enum Tool {
    /// The download tool, `yt-dlp`.
    YtDlp,
    /// The conversion tool, `ffmpeg`.
    Ffmpeg,
}

/// The name of the program's own directory inside the user's local data
/// directory.
pub fn app_dir_name() -> (r: String)
    ensures
        r@ == "rust-yt"@,
{
    "rust-yt".to_string()
}

/// The file name under which a tool is installed: the tool's name, with
/// `.exe` on Windows.
pub open spec fn install_name(tool: Tool, platform: Platform) -> Seq<char> {
    match (tool, platform) {
        (Tool::YtDlp, Platform::Windows) => "yt-dlp.exe"@,
        (Tool::YtDlp, _) => "yt-dlp"@,
        (Tool::Ffmpeg, Platform::Windows) => "ffmpeg.exe"@,
        (Tool::Ffmpeg, _) => "ffmpeg"@,
    }
}

/// Where the program installs the download tool: in its own directory.
pub fn get_ytdlp_path(platform: Platform) -> (r: ToolPath)
    ensures
        r@ == ToolPathView::InAppDir(install_name(Tool::YtDlp, platform)),
{
    match platform {
        Platform::Windows => ToolPath::InAppDir("yt-dlp.exe".to_string()),
        _ => ToolPath::InAppDir("yt-dlp".to_string()),
    }
}

/// Where the program installs the conversion tool: in its own directory.
pub fn get_ffmpeg_path(platform: Platform) -> (r: ToolPath)
    ensures
        r@ == ToolPathView::InAppDir(install_name(Tool::Ffmpeg, platform)),
{
    match platform {
        Platform::Windows => ToolPath::InAppDir("ffmpeg.exe".to_string()),
        _ => ToolPath::InAppDir("ffmpeg".to_string()),
    }
}

/// Whether a newly installed tool has to be made executable: everywhere but
/// on Windows.
pub fn needs_executable_bit(platform: Platform) -> (b: bool)
    ensures
        b == (platform != Platform::Windows),
{
    match platform {
        Platform::Windows => false,
        _ => true,
    }
}

/// The permission bits of an installed tool: read and execute for all,
/// write for the owner (octal 755).
pub fn executable_mode() -> (mode: u32)
    ensures
        mode == 0o755,
{
    0o755
}

/// The kinds of archive that the conversion tool is shipped in.
#[derive(Debug, Clone, Copy, PartialEq, Eq, Structural)]
pub enum ArchiveKind {
    Zip,
    TarXz,
}

/// The kind of an archive by the end of its name; `None` for any other name.
pub open spec fn kind_of_archive(name: Seq<char>) -> Option<ArchiveKind> {
    if ends_with_text(name, ".zip"@) {
        Some(ArchiveKind::Zip)
    } else if ends_with_text(name, ".tar.xz"@) {
        Some(ArchiveKind::TarXz)
    } else {
        None
    }
}

/// Tells the kind of an archive from its name. An archive of neither kind
/// is not unpacked.
pub fn archive_kind(name: &str) -> (r: Option<ArchiveKind>)
    ensures
        r == kind_of_archive(name@),
{
    let chars = chars_of(name);
    if ends_with(&chars, &chars_of(".zip")) {
        Some(ArchiveKind::Zip)
    } else if ends_with(&chars, &chars_of(".tar.xz")) {
        Some(ArchiveKind::TarXz)
    } else {
        None
    }
}

/// A directory that an unpacked tar archive left behind holds the tool's
/// build: it is a directory and its name holds `ffmpeg`. The tool itself is
/// then `bin/ffmpeg` inside it.
pub open spec fn is_build_directory(name: Seq<char>, is_directory: bool) -> bool {
    is_directory && contains_text(name, "ffmpeg"@)
}

/// Tests whether an entry of the program's directory is the directory that
/// an unpacked tar archive left behind.
pub fn holds_build(name: &str, is_directory: bool) -> (b: bool)
    ensures
        b == is_build_directory(name@, is_directory),
{
    is_directory && contains(&chars_of(name), &chars_of("ffmpeg"))
}

/// Where the tools are downloaded from. The addresses are settings, not
/// fixed: `Sources::standard` gives the usual ones.
#[derive(Debug, Clone, PartialEq, Eq)]
pub struct Sources {
    /// The download tool itself, ready to run.
    pub ytdlp_url: String,
    /// An archive that holds the conversion tool.
    pub ffmpeg_url: String,
    /// The name under which that archive is kept while it is unpacked. Its
    /// end tells the archive's kind.
    pub ffmpeg_archive: String,
}

/// The usual address of the download tool.
pub open spec fn standard_ytdlp_url(platform: Platform) -> Seq<char> {
    match platform {
        Platform::Linux => "https://github.com/yt-dlp/yt-dlp/releases/latest/download/yt-dlp"@,
        Platform::MacOs => "https://github.com/yt-dlp/yt-dlp/releases/latest/download/yt-dlp_macos"@,
        Platform::Windows => "https://github.com/yt-dlp/yt-dlp/releases/latest/download/yt-dlp.exe"@,
    }
}

/// The usual address of the conversion tool's archive. The one for macOS
/// names a fixed release and does not follow newer ones.
pub open spec fn standard_ffmpeg_url(platform: Platform) -> Seq<char> {
    match platform {
        Platform::Linux => "https://github.com/BtbN/FFmpeg-Builds/releases/download/latest/ffmpeg-master-latest-linux64-gpl.tar.xz"@,
        Platform::MacOs => "https://evermeet.cx/ffmpeg/ffmpeg-6.0.zip"@,
        Platform::Windows => "https://github.com/BtbN/FFmpeg-Builds/releases/download/latest/ffmpeg-master-latest-win64-gpl.zip"@,
    }
}

/// The usual name of the conversion tool's archive.
pub open spec fn standard_ffmpeg_archive(platform: Platform) -> Seq<char> {
    match platform {
        Platform::Linux => "ffmpeg.tar.xz"@,
        _ => "ffmpeg.zip"@,
    }
}

impl Sources {
    /// The usual sources for a platform.
    pub fn standard(platform: Platform) -> (r: Sources)
        ensures
            r.ytdlp_url@ == standard_ytdlp_url(platform),
            r.ffmpeg_url@ == standard_ffmpeg_url(platform),
            r.ffmpeg_archive@ == standard_ffmpeg_archive(platform),
    {
        match platform {
            Platform::Linux => Sources {
                ytdlp_url: "https://github.com/yt-dlp/yt-dlp/releases/latest/download/yt-dlp".to_string(),
                ffmpeg_url: "https://github.com/BtbN/FFmpeg-Builds/releases/download/latest/ffmpeg-master-latest-linux64-gpl.tar.xz".to_string(),
                ffmpeg_archive: "ffmpeg.tar.xz".to_string(),
            },
            Platform::MacOs => Sources {
                ytdlp_url: "https://github.com/yt-dlp/yt-dlp/releases/latest/download/yt-dlp_macos".to_string(),
                ffmpeg_url: "https://evermeet.cx/ffmpeg/ffmpeg-6.0.zip".to_string(),
                ffmpeg_archive: "ffmpeg.zip".to_string(),
            },
            Platform::Windows => Sources {
                ytdlp_url: "https://github.com/yt-dlp/yt-dlp/releases/latest/download/yt-dlp.exe".to_string(),
                ffmpeg_url: "https://github.com/BtbN/FFmpeg-Builds/releases/download/latest/ffmpeg-master-latest-win64-gpl.zip".to_string(),
                ffmpeg_archive: "ffmpeg.zip".to_string(),
            },
        }
    }
}

/// The name that a tool goes by.
pub open spec fn tool_name(tool: Tool) -> Seq<char> {
    match tool {
        Tool::YtDlp => "yt-dlp"@,
        Tool::Ffmpeg => "ffmpeg"@,
    }
}

/// The arguments of the run that checks a tool: the download tool is asked
/// to update itself, the conversion tool for its version.
pub open spec fn check_arguments(tool: Tool) -> Seq<Seq<char>> {
    match tool {
        Tool::YtDlp => seq!["-U"@],
        Tool::Ffmpeg => seq!["-version"@],
    }
}

/// The address that a tool is downloaded from, among the sources.
pub open spec fn source_of(tool: Tool, sources: Sources) -> Seq<char> {
    match tool {
        Tool::YtDlp => sources.ytdlp_url@,
        Tool::Ffmpeg => sources.ffmpeg_url@,
    }
}

/// One of the tools with all that the set-up has to know about it. It is
/// resolved once and does not change afterwards.
#[derive(Debug, Clone, PartialEq, Eq)]
pub struct ToolBinary {
    pub tool: Tool,
    /// The name the tool goes by.
    pub name: String,
    /// Where it is installed.
    pub path: ToolPath,
    /// The arguments of the run that checks it.
    pub check_args: Vec<String>,
    /// Where it is downloaded from.
    pub url: String,
    /// Whether its file has to be made executable once it is in place.
    pub needs_executable_bit: bool,
}

impl ToolBinary {
    /// All about a tool on a platform, with the given sources.
    pub fn resolve(tool: Tool, platform: Platform, sources: &Sources) -> (r: ToolBinary)
        ensures
            r.tool == tool,
            r.name@ == tool_name(tool),
            r.path@ == ToolPathView::InAppDir(install_name(tool, platform)),
            string_texts(r.check_args@) == check_arguments(tool),
            r.url@ == source_of(tool, *sources),
            r.needs_executable_bit == (platform != Platform::Windows),
    {
        let mut check_args: Vec<String> = Vec::new();
        match tool {
            Tool::YtDlp => {
                check_args.push("-U".to_string());
                assert(string_texts(check_args@) =~= check_arguments(tool));
                ToolBinary {
                    tool,
                    name: "yt-dlp".to_string(),
                    path: get_ytdlp_path(platform),
                    check_args,
                    url: sources.ytdlp_url.clone(),
                    needs_executable_bit: needs_executable_bit(platform),
                }
            },
            Tool::Ffmpeg => {
                check_args.push("-version".to_string());
                assert(string_texts(check_args@) =~= check_arguments(tool));
                ToolBinary {
                    tool,
                    name: "ffmpeg".to_string(),
                    path: get_ffmpeg_path(platform),
                    check_args,
                    url: sources.ffmpeg_url.clone(),
                    needs_executable_bit: needs_executable_bit(platform),
                }
            },
        }
    }
}

/// How a download is retried and how long it may take, in seconds.
#[derive(Debug, Clone, Copy, PartialEq, Eq, Structural)]
pub struct RetryPolicy {
    /// The wait before the first retry.
    pub initial_interval: u64,
    /// The longest wait between two tries.
    pub max_interval: u64,
    /// After this long no new try is made.
    pub max_elapsed: u64,
    /// The longest that connecting may take.
    pub connect_timeout: u64,
    /// The longest that one request may take in all.
    pub request_timeout: u64,
}

impl RetryPolicy {
    /// The policy for downloading a tool: waits that grow from 1 s to 10 s
    /// at most, no new try after 60 s, 30 s to connect, 300 s for a request.
    pub fn standard() -> (r: RetryPolicy)
        ensures
            r == (RetryPolicy {
                initial_interval: 1,
                max_interval: 10,
                max_elapsed: 60,
                connect_timeout: 30,
                request_timeout: 300,
            }),
    {
        RetryPolicy {
            initial_interval: 1,
            max_interval: 10,
            max_elapsed: 60,
            connect_timeout: 30,
            request_timeout: 300,
        }
    }
}

/// How one try of a request went.
#[derive(Debug, Clone, Copy, PartialEq, Eq, Structural)]
pub enum Attempt {
    /// No answer came: the connection failed or timed out.
    NoAnswer,
    /// The server answered with this status code.
    Answered(u16),
}

/// What follows a try.
#[derive(Debug, Clone, Copy, PartialEq, Eq, Structural)]
pub enum Verdict {
    /// The answer is good: read the body.
    Proceed,
    /// Try again after a wait, while the policy allows.
    Retry,
    /// Give up at once.
    GiveUp,
}

/// The status code says that the request succeeded: 200 to 299.
pub open spec fn is_success(status: u16) -> bool {
    200 <= status <= 299
}

/// What follows a try: a missing answer is tried again, an answer of
/// success is read, and any other answer ends the download at once.
pub open spec fn verdict_of(attempt: Attempt) -> Verdict {
    match attempt {
        Attempt::NoAnswer => Verdict::Retry,
        Attempt::Answered(status) => if is_success(status) {
            Verdict::Proceed
        } else {
            Verdict::GiveUp
        },
    }
}

/// Decides what follows a try.
pub fn judge(attempt: Attempt) -> (v: Verdict)
    ensures
        v == verdict_of(attempt),
{
    match attempt {
        Attempt::NoAnswer => Verdict::Retry,
        Attempt::Answered(status) => if 200 <= status && status <= 299 {
            Verdict::Proceed
        } else {
            Verdict::GiveUp
        },
    }
}

/// The share that a download of `total` bytes has reached with `received`
/// bytes, as the numerator and denominator of a percentage.
pub open spec fn reported(total: nat, received: nat) -> (nat, nat) {
    (100 * received, total)
}

/// The first percentage, given as numerator and denominator, is no greater
/// than the second.
pub open spec fn share_at_most(a: (nat, nat), b: (nat, nat)) -> bool {
    a.0 * b.1 <= b.0 * a.1
}

/// How many bytes are in after the first `k` chunks.
pub open spec fn received_after(chunks: Seq<nat>, k: int) -> nat
    decreases k,
{
    if k <= 0 || k > chunks.len() {
        0
    } else {
        received_after(chunks, k - 1) + chunks[k - 1]
    }
}

/// The byte count does not go down from one chunk to a later one.
pub proof fn lemma_received_grows(chunks: Seq<nat>, i: int, j: int)
    requires
        0 <= i <= j <= chunks.len(),
    ensures
        received_after(chunks, i) <= received_after(chunks, j),
    decreases j - i,
{
    if i < j {
        lemma_received_grows(chunks, i, j - 1);
    }
}

/// While a download of known length runs, the percentage reported never
/// goes down, and the one reported when all bytes are in is exactly 100.
/// `total` is the length announced, `chunks` the sizes of the pieces in the
/// order in which they arrive, `i` and `j` two moments of the download.
pub proof fn law_download_percent_grows(total: nat, chunks: Seq<nat>, i: int, j: int)
    requires
        total > 0,
        0 <= i <= j <= chunks.len(),
    ensures
        share_at_most(
            reported(total, received_after(chunks, i)),
            reported(total, received_after(chunks, j)),
        ),
        received_after(chunks, chunks.len() as int) == total ==> reported(
            total,
            received_after(chunks, chunks.len() as int),
        ).0 == 100 * reported(total, received_after(chunks, chunks.len() as int)).1,
{
    lemma_received_grows(chunks, i, j);
    let a = received_after(chunks, i);
    let b = received_after(chunks, j);
    assert((100 * a) * total <= (100 * b) * total) by (nonlinear_arith)
        requires
            a <= b,
    ;
}

/// Counts the bytes of one download against the length that the server
/// announced.
#[derive(Debug, Clone, Copy, PartialEq, Eq)]
pub struct DownloadMeter {
    total: u64,
    received: u64,
}

impl DownloadMeter {
    /// The length announced; 0 where none was.
    pub closed spec fn total_bytes(self) -> nat {
        self.total as nat
    }

    /// The bytes that are in.
    pub closed spec fn received_bytes(self) -> nat {
        self.received as nat
    }

    /// A meter for a download that begins. `content_length` is the length
    /// that the server announced, if it announced one.
    pub fn new(content_length: Option<u64>) -> (r: DownloadMeter)
        ensures
            r.received_bytes() == 0,
            r.total_bytes() == match content_length {
                Some(n) => n as nat,
                None => 0,
            },
    {
        DownloadMeter {
            total: match content_length {
                Some(n) => n,
                None => 0,
            },
            received: 0,
        }
    }

    /// The length announced; 0 where none was.
    pub fn total(&self) -> (n: u64)
        ensures
            n == self.total_bytes(),
    {
        self.total
    }

    /// The bytes that are in.
    pub fn received(&self) -> (n: u64)
        ensures
            n == self.received_bytes(),
    {
        self.received
    }

    /// Whether `chunk` more bytes can be counted: the count has to stay
    /// within 64 bits.
    pub fn has_room(&self, chunk: u64) -> (b: bool)
        ensures
            b == (self.received_bytes() + chunk <= u64::MAX),
    {
        chunk <= u64::MAX - self.received
    }

    /// Counts `chunk` more bytes and gives the percentage to report: the
    /// bytes that are in against the length announced, and nothing where no
    /// length was announced.
    pub fn record(&mut self, chunk: u64) -> (r: Option<Percent>)
        requires
            old(self).received_bytes() + chunk <= u64::MAX,
        ensures
            final(self).total_bytes() == old(self).total_bytes(),
            final(self).received_bytes() == old(self).received_bytes() + chunk,
            r is Some <==> old(self).total_bytes() > 0,
            r matches Some(p) ==> (p.num(), p.den()) == reported(
                final(self).total_bytes(),
                final(self).received_bytes(),
            ),
    {
        self.received = self.received + chunk;
        if self.total > 0 {
            let units: u128 = 100u128 * (self.received as u128);
            Percent::new(units, self.total as u128)
        } else {
            None
        }
    }
}

/// The line tells how the download tool's update of itself went: it holds
/// `up to date` or `Updated`.
pub open spec fn reports_update(line: Seq<char>) -> bool {
    contains_text(line, "up to date"@) || contains_text(line, "Updated"@)
}

/// The first of the lines that tells how the update went.
pub open spec fn first_report(lines: Seq<Seq<char>>) -> Option<Seq<char>>
    decreases lines.len(),
{
    if lines.len() == 0 {
        None
    } else if reports_update(lines[0]) {
        Some(lines[0])
    } else {
        first_report(lines.drop_first())
    }
}

/// Where none of the first `k` lines tells of the update, the search goes
/// on among the lines from `k` on.
proof fn lemma_first_report_skip(lines: Seq<Seq<char>>, k: int)
    requires
        0 <= k <= lines.len(),
        forall|j: int| 0 <= j < k ==> !reports_update(#[trigger] lines[j]),
    ensures
        first_report(lines) == first_report(lines.skip(k)),
    decreases k,
{
    if k == 0 {
        assert(lines.skip(0) =~= lines);
    } else {
        assert(!reports_update(lines[0]));
        let rest = lines.drop_first();
        assert forall|j: int| 0 <= j < k - 1 implies !reports_update(#[trigger] rest[j]) by {
            assert(rest[j] == lines[j + 1]);
        }
        lemma_first_report_skip(rest, k - 1);
        assert(rest.skip(k - 1) =~= lines.skip(k));
    }
}

/// What the check of the download tool comes to. The tool was asked to
/// update itself; `success` tells whether it exited well, `output` and
/// `errors` are what it printed. Success gives the line of the output that
/// tells how the update went, trimmed, or `업데이트 확인 완료` where no line
/// does; failure gives the errors, trimmed, as the reason.
pub open spec fn update_outcome(success: bool, output: Seq<char>, errors: Seq<char>) -> Result<
    Seq<char>,
    Seq<char>,
> {
    if !success {
        Err("업데이트 실패: "@ + trim_text(errors))
    } else {
        Ok(
            match first_report(lines_of(output)) {
                Some(line) => trim_text(line),
                None => "업데이트 확인 완료"@,
            },
        )
    }
}

/// What the check of the conversion tool comes to. The tool was asked for
/// its version. Success gives the first line of the output, cut to what of
/// its start fits within 30 bytes of UTF-8, in brackets after `정상 작동`;
/// an empty output counts as the line `ffmpeg 감지됨`. Failure gives a
/// fixed reason.
pub open spec fn version_outcome(success: bool, output: Seq<char>) -> Result<
    Seq<char>,
    Seq<char>,
> {
    if !success {
        Err("ffmpeg 실행 중 오류 발생"@)
    } else {
        let line = if lines_of(output).len() > 0 {
            lines_of(output)[0]
        } else {
            "ffmpeg 감지됨"@
        };
        Ok("정상 작동 ("@ + cut_to_bytes(line, 30) + ")"@)
    }
}

/// A result of two strings as a mathematical value.
pub open spec fn result_text(r: Result<String, String>) -> Result<Seq<char>, Seq<char>> {
    match r {
        Ok(s) => Ok(s@),
        Err(s) => Err(s@),
    }
}

/// Sums up the download tool's attempt to update itself.
pub fn update_summary(success: bool, output: &str, errors: &str) -> (r: Result<String, String>)
    ensures
        result_text(r) == update_outcome(success, output@, errors@),
{
    if !success {
        let reason = string_of(&trim(&chars_of(errors)));
        let mut message = "업데이트 실패: ".to_string();
        message.append(reason.as_str());
        return Err(message);
    }
    let lines = split_lines(&chars_of(output));
    let up_to_date = chars_of("up to date");
    let updated = chars_of("Updated");
    let mut k: usize = 0;
    while k < lines.len()
        invariant
            k <= lines.len(),
            success,
            texts(lines@) == lines_of(output@),
            up_to_date@ == "up to date"@,
            updated@ == "Updated"@,
            forall|j: int| 0 <= j < k ==> !reports_update(#[trigger] texts(lines@)[j]),
        decreases lines.len() - k,
    {
        if contains(&lines[k], &up_to_date) || contains(&lines[k], &updated) {
            proof {
                lemma_first_report_skip(texts(lines@), k as int);
                assert(texts(lines@).skip(k as int)[0] == lines@[k as int]@);
            }
            return Ok(string_of(&trim(&lines[k])));
        }
        assert(texts(lines@)[k as int] == lines@[k as int]@);
        k = k + 1;
    }
    proof {
        lemma_first_report_skip(texts(lines@), k as int);
    }
    Ok("업데이트 확인 완료".to_string())
}

/// Sums up the conversion tool's answer to the question for its version.
pub fn version_summary(success: bool, output: &str) -> (r: Result<String, String>)
    ensures
        result_text(r) == version_outcome(success, output@),
{
    if !success {
        return Err("ffmpeg 실행 중 오류 발생".to_string());
    }
    let lines = split_lines(&chars_of(output));
    let mut message = "정상 작동 (".to_string();
    if lines.len() > 0 {
        let line = &lines[0];
        assert(texts(lines@)[0] == line@);
        let shown = truncate_to_bytes(line, 30);
        message.append(string_of(&shown).as_str());
    } else {
        let shown = truncate_to_bytes(&chars_of("ffmpeg 감지됨"), 30);
        message.append(string_of(&shown).as_str());
    }
    message.append(")");
    Ok(message)
}

/// The messages of the set-up that the program words in the user's
/// language. Each stands for an entry of the program's translations.
#[derive(Debug, Clone, Copy, PartialEq, Eq, Structural)]
pub enum Wording {
    Preparing,
    FolderError,
    YtdlpDownloadFail,
    FfmpegDownloadFail,
    YtdlpUpdateCheck,
    YtdlpUpdateFail,
    FfmpegCheck,
    FfmpegCheckFail,
    DownloadingPrep,
    DownloadingAttempt,
    DownloadingRetry,
    DownloadFailedRetry,
    Extracting,
}

/// The entry of the translations that a wording stands for.
pub open spec fn wording_key(wording: Wording) -> Seq<char> {
    match wording {
        Wording::Preparing => "initialization.preparing"@,
        Wording::FolderError => "initialization.folder_error"@,
        Wording::YtdlpDownloadFail => "initialization.ytdlp_download_fail"@,
        Wording::FfmpegDownloadFail => "initialization.ffmpeg_download_fail"@,
        Wording::YtdlpUpdateCheck => "initialization.ytdlp_update_check"@,
        Wording::YtdlpUpdateFail => "initialization.ytdlp_update_fail"@,
        Wording::FfmpegCheck => "initialization.ffmpeg_check"@,
        Wording::FfmpegCheckFail => "initialization.ffmpeg_check_fail"@,
        Wording::DownloadingPrep => "initialization.downloading_prep"@,
        Wording::DownloadingAttempt => "initialization.downloading_attempt"@,
        Wording::DownloadingRetry => "initialization.downloading_retry"@,
        Wording::DownloadFailedRetry => "initialization.download_failed_retry"@,
        Wording::Extracting => "initialization.extracting"@,
    }
}

/// The name of the one thing that a wording speaks about: `error`, `file`,
/// or the empty text where it speaks about nothing.
pub open spec fn wording_parameter(wording: Wording) -> Seq<char> {
    match wording {
        Wording::Preparing | Wording::YtdlpUpdateCheck | Wording::FfmpegCheck => ""@,
        Wording::DownloadingPrep | Wording::DownloadingAttempt | Wording::DownloadingRetry
        | Wording::Extracting => "file"@,
        _ => "error"@,
    }
}

impl Wording {
    /// The entry of the translations that the wording stands for.
    pub fn key(&self) -> (r: String)
        ensures
            r@ == wording_key(*self),
    {
        match self {
            Wording::Preparing => "initialization.preparing".to_string(),
            Wording::FolderError => "initialization.folder_error".to_string(),
            Wording::YtdlpDownloadFail => "initialization.ytdlp_download_fail".to_string(),
            Wording::FfmpegDownloadFail => "initialization.ffmpeg_download_fail".to_string(),
            Wording::YtdlpUpdateCheck => "initialization.ytdlp_update_check".to_string(),
            Wording::YtdlpUpdateFail => "initialization.ytdlp_update_fail".to_string(),
            Wording::FfmpegCheck => "initialization.ffmpeg_check".to_string(),
            Wording::FfmpegCheckFail => "initialization.ffmpeg_check_fail".to_string(),
            Wording::DownloadingPrep => "initialization.downloading_prep".to_string(),
            Wording::DownloadingAttempt => "initialization.downloading_attempt".to_string(),
            Wording::DownloadingRetry => "initialization.downloading_retry".to_string(),
            Wording::DownloadFailedRetry => "initialization.download_failed_retry".to_string(),
            Wording::Extracting => "initialization.extracting".to_string(),
        }
    }

    /// The name of the one thing that the wording speaks about.
    pub fn parameter(&self) -> (r: String)
        ensures
            r@ == wording_parameter(*self),
    {
        match self {
            Wording::Preparing | Wording::YtdlpUpdateCheck | Wording::FfmpegCheck => "".to_string(),
            Wording::DownloadingPrep
            | Wording::DownloadingAttempt
            | Wording::DownloadingRetry
            | Wording::Extracting => "file".to_string(),
            _ => "error".to_string(),
        }
    }
}

/// A message of the set-up.
#[derive(Debug, Clone, PartialEq, Eq)]
pub enum InitMessage {
    /// Text to show as it is.
    Text(String),
    /// A wording and what it speaks about.
    Worded(Wording, String),
    /// A wording that speaks about another wording, which speaks about the
    /// text.
    Nested(Wording, Wording, String),
}

/// An `InitMessage` as a mathematical value.
pub enum InitMessageView {
    Text(Seq<char>),
    Worded(Wording, Seq<char>),
    Nested(Wording, Wording, Seq<char>),
}

impl View for InitMessage {
    type V = InitMessageView;

    open spec fn view(&self) -> InitMessageView {
        match self {
            InitMessage::Text(text) => InitMessageView::Text(text@),
            InitMessage::Worded(wording, about) => InitMessageView::Worded(*wording, about@),
            InitMessage::Nested(outer, inner, about) => InitMessageView::Nested(
                *outer,
                *inner,
                about@,
            ),
        }
    }
}

/// What the set-up reports. `Completed` and `Failed` end it.
#[derive(Debug, Clone, PartialEq, Eq)]
pub enum InitStatus {
    /// A step begins or has something to say.
    Starting(InitMessage),
    /// How far the download of the named file is.
    Downloading(Percent, String),
    /// An archive is being unpacked.
    Extracting(InitMessage),
    /// Both tools are in place.
    Completed,
    /// The set-up cannot go on.
    Failed(InitMessage),
}

/// An `InitStatus` as a mathematical value.
pub enum InitStatusView {
    Starting(InitMessageView),
    Downloading { units: nat, scale: nat, label: Seq<char> },
    Extracting(InitMessageView),
    Completed,
    Failed(InitMessageView),
}

impl View for InitStatus {
    type V = InitStatusView;

    open spec fn view(&self) -> InitStatusView {
        match self {
            InitStatus::Starting(m) => InitStatusView::Starting(m@),
            InitStatus::Downloading(p, label) => InitStatusView::Downloading {
                units: p.num(),
                scale: p.den(),
                label: label@,
            },
            InitStatus::Extracting(m) => InitStatusView::Extracting(m@),
            InitStatus::Completed => InitStatusView::Completed,
            InitStatus::Failed(m) => InitStatusView::Failed(m@),
        }
    }
}

/// What the program around the set-up does with one step's answer, in order.
#[derive(Debug, Clone, PartialEq, Eq)]
pub enum Effect {
    /// Pass the status on.
    Report(InitStatus),
    /// Wait a moment, so that the status before can be read.
    Pause,
}

/// An `Effect` as a mathematical value.
pub enum EffectView {
    Report(InitStatusView),
    Pause,
}

impl View for Effect {
    type V = EffectView;

    open spec fn view(&self) -> EffectView {
        match self {
            Effect::Report(status) => EffectView::Report(status@),
            Effect::Pause => EffectView::Pause,
        }
    }
}

/// The effects that a list holds, as mathematical values.
pub open spec fn effect_views(v: Seq<Effect>) -> Seq<EffectView> {
    Seq::new(v.len(), |i: int| v[i]@)
}

/// How long a `Pause` lasts, in milliseconds.
pub fn pause_millis() -> (r: u64)
    ensures
        r == 1500,
{
    1500
}

/// Where the set-up stands.
#[derive(Debug, Clone, Copy, PartialEq, Eq, Structural)]
pub enum BootstrapPhase {
    /// The program's directory is being made sure of.
    EnsureDir,
    /// The tool is being looked for.
    Probe(Tool),
    /// The tool is missing and its source is being asked for it.
    Connect(Tool),
    /// The source answered and the tool is coming in.
    Receive(Tool),
    /// The conversion tool's archive is being unpacked.
    Unpack,
    /// The download tool is updating itself.
    Update,
    /// The conversion tool is asked for its version.
    Check,
    /// Both tools are in place: the set-up has ended well.
    Completed,
    /// The set-up has ended in failure.
    Failed,
}

/// What happened, as the program around the set-up saw it.
#[derive(Debug, Clone, PartialEq, Eq)]
pub enum BootstrapEvent {
    /// The program's directory is there.
    DirReady,
    /// The program's directory could not be made; the reason.
    DirFailed(String),
    /// The tool that was looked for is there.
    Found,
    /// The tool that was looked for is not there.
    Missing,
    /// A try of the request begins.
    Attempt,
    /// The try got no answer and will be repeated.
    AttemptFailed,
    /// The source answered with success; the length it announced.
    Connected(Option<u64>),
    /// No try succeeded within the policy, or the source refused; the reason.
    GaveUp(String),
    /// So many bytes came in and were written.
    Chunk(u64),
    /// All bytes are in, and the file is in place.
    Stored,
    /// The file could not be fetched or written, for a reason other than
    /// the source's.
    StoreFailed(String),
    /// The archive was unpacked and removed.
    Unpacked,
    /// The archive could not be unpacked; the reason.
    UnpackFailed(String),
    /// A tool was run and did well; what it said, summed up.
    Ran(String),
    /// A tool was run and did not do well; the reason.
    RunFailed(String),
}

/// A `BootstrapEvent` as a mathematical value.
pub enum BootstrapEventView {
    DirReady,
    DirFailed(Seq<char>),
    Found,
    Missing,
    Attempt,
    AttemptFailed,
    Connected(Option<u64>),
    GaveUp(Seq<char>),
    Chunk(u64),
    Stored,
    StoreFailed(Seq<char>),
    Unpacked,
    UnpackFailed(Seq<char>),
    Ran(Seq<char>),
    RunFailed(Seq<char>),
}

impl View for BootstrapEvent {
    type V = BootstrapEventView;

    open spec fn view(&self) -> BootstrapEventView {
        match self {
            BootstrapEvent::DirReady => BootstrapEventView::DirReady,
            BootstrapEvent::DirFailed(e) => BootstrapEventView::DirFailed(e@),
            BootstrapEvent::Found => BootstrapEventView::Found,
            BootstrapEvent::Missing => BootstrapEventView::Missing,
            BootstrapEvent::Attempt => BootstrapEventView::Attempt,
            BootstrapEvent::AttemptFailed => BootstrapEventView::AttemptFailed,
            BootstrapEvent::Connected(length) => BootstrapEventView::Connected(*length),
            BootstrapEvent::GaveUp(e) => BootstrapEventView::GaveUp(e@),
            BootstrapEvent::Chunk(n) => BootstrapEventView::Chunk(*n),
            BootstrapEvent::Stored => BootstrapEventView::Stored,
            BootstrapEvent::StoreFailed(e) => BootstrapEventView::StoreFailed(e@),
            BootstrapEvent::Unpacked => BootstrapEventView::Unpacked,
            BootstrapEvent::UnpackFailed(e) => BootstrapEventView::UnpackFailed(e@),
            BootstrapEvent::Ran(words) => BootstrapEventView::Ran(words@),
            BootstrapEvent::RunFailed(e) => BootstrapEventView::RunFailed(e@),
        }
    }
}

/// What the program around the set-up does next.
#[derive(Debug, Clone, Copy, PartialEq, Eq, Structural)]
pub enum BootstrapAction {
    /// Make the program's directory unless it is there; report `DirReady`
    /// or `DirFailed`.
    EnsureDir,
    /// Look whether the tool's file is there; report `Found` or `Missing`.
    Probe(Tool),
    /// Ask the tool's source for it under the retry policy; report each
    /// `Attempt` and `AttemptFailed`, and at last `Connected`, `GaveUp` or
    /// `StoreFailed`.
    Request(Tool),
    /// Write what comes in to the tool's file, or to the archive's; report
    /// each `Chunk`, and at last `Stored`, once the download tool has been
    /// made executable where that is needed, or `StoreFailed`.
    ReadBody(Tool),
    /// Unpack the archive, make the conversion tool executable where that
    /// is needed, and remove the archive whatever came of it; report
    /// `Unpacked` or `UnpackFailed`.
    Unpack,
    /// Run the download tool's update of itself; report `Ran` or
    /// `RunFailed`, as `update_summary` has it.
    RunUpdate,
    /// Ask the conversion tool for its version; report `Ran` or
    /// `RunFailed`, as `version_summary` has it.
    RunCheck,
    /// Nothing: the set-up has ended.
    Stop,
}

/// The name under which a tool's download is shown.
pub open spec fn label_of(tool: Tool) -> Seq<char> {
    match tool {
        Tool::YtDlp => "yt-dlp"@,
        Tool::Ffmpeg => "ffmpeg archive"@,
    }
}

/// The wording for the failure to fetch a tool.
pub open spec fn fetch_failure(tool: Tool) -> Wording {
    match tool {
        Tool::YtDlp => Wording::YtdlpDownloadFail,
        Tool::Ffmpeg => Wording::FfmpegDownloadFail,
    }
}

/// The phase that follows once a tool is in place: the conversion tool is
/// looked for after the download tool, and the checks follow once both are
/// there.
pub open spec fn after_tool(tool: Tool) -> BootstrapPhase {
    match tool {
        Tool::YtDlp => BootstrapPhase::Probe(Tool::Ffmpeg),
        Tool::Ffmpeg => BootstrapPhase::Update,
    }
}

/// The set-up has ended.
pub open spec fn has_ended(phase: BootstrapPhase) -> bool {
    phase is Completed || phase is Failed
}

/// The phase after an event. An event that the phase does not wait for
/// changes nothing.
pub open spec fn boot_next(phase: BootstrapPhase, event: BootstrapEventView) -> BootstrapPhase {
    match (phase, event) {
        (BootstrapPhase::EnsureDir, BootstrapEventView::DirReady) => BootstrapPhase::Probe(
            Tool::YtDlp,
        ),
        (BootstrapPhase::EnsureDir, BootstrapEventView::DirFailed(_)) => BootstrapPhase::Failed,
        (BootstrapPhase::Probe(tool), BootstrapEventView::Found) => after_tool(tool),
        (BootstrapPhase::Probe(tool), BootstrapEventView::Missing) => BootstrapPhase::Connect(
            tool,
        ),
        (BootstrapPhase::Connect(tool), BootstrapEventView::Connected(_)) => BootstrapPhase::Receive(
            tool,
        ),
        (BootstrapPhase::Connect(_), BootstrapEventView::GaveUp(_)) => BootstrapPhase::Failed,
        (BootstrapPhase::Connect(_), BootstrapEventView::StoreFailed(_)) => BootstrapPhase::Failed,
        (BootstrapPhase::Receive(tool), BootstrapEventView::Stored) => match tool {
            Tool::YtDlp => BootstrapPhase::Probe(Tool::Ffmpeg),
            Tool::Ffmpeg => BootstrapPhase::Unpack,
        },
        (BootstrapPhase::Receive(_), BootstrapEventView::StoreFailed(_)) => BootstrapPhase::Failed,
        (BootstrapPhase::Unpack, BootstrapEventView::Unpacked) => BootstrapPhase::Update,
        (BootstrapPhase::Unpack, BootstrapEventView::UnpackFailed(_)) => BootstrapPhase::Failed,
        (BootstrapPhase::Update, BootstrapEventView::Ran(_)) => BootstrapPhase::Check,
        (BootstrapPhase::Update, BootstrapEventView::RunFailed(_)) => BootstrapPhase::Check,
        (BootstrapPhase::Check, BootstrapEventView::Ran(_)) => BootstrapPhase::Completed,
        (BootstrapPhase::Check, BootstrapEventView::RunFailed(_)) => BootstrapPhase::Completed,
        _ => phase,
    }
}

/// The byte counts of the download under way after an event, as the length
/// announced and the bytes that are in: an answer of the source starts a
/// new count, a chunk adds to it, anything else leaves it.
pub open spec fn boot_meter(
    phase: BootstrapPhase,
    total: nat,
    received: nat,
    event: BootstrapEventView,
) -> (nat, nat) {
    match (phase, event) {
        (BootstrapPhase::Connect(_), BootstrapEventView::Connected(length)) => (
            match length {
                Some(n) => n as nat,
                None => 0,
            },
            0,
        ),
        (BootstrapPhase::Receive(_), BootstrapEventView::Chunk(n)) => (total, (received + n) as nat),
        _ => (total, received),
    }
}

/// A status with a wording that speaks about nothing.
pub open spec fn starting(wording: Wording) -> EffectView {
    EffectView::Report(InitStatusView::Starting(InitMessageView::Worded(wording, ""@)))
}

/// What an event gives rise to in a phase, in order. `total` and `received`
/// are the byte counts of the download under way.
pub open spec fn boot_effects(
    phase: BootstrapPhase,
    total: nat,
    received: nat,
    event: BootstrapEventView,
) -> Seq<EffectView> {
    match (phase, event) {
        (BootstrapPhase::EnsureDir, BootstrapEventView::DirFailed(reason)) => seq![
            EffectView::Report(
                InitStatusView::Failed(InitMessageView::Worded(Wording::FolderError, reason)),
            ),
        ],
        (BootstrapPhase::Probe(Tool::Ffmpeg), BootstrapEventView::Found) => seq![
            starting(Wording::YtdlpUpdateCheck),
        ],
        (BootstrapPhase::Probe(Tool::YtDlp), BootstrapEventView::Missing) => seq![
            EffectView::Report(
                InitStatusView::Starting(
                    InitMessageView::Worded(Wording::DownloadingPrep, label_of(Tool::YtDlp)),
                ),
            ),
        ],
        (BootstrapPhase::Probe(Tool::Ffmpeg), BootstrapEventView::Missing) => seq![
            starting(Wording::FfmpegCheck),
            EffectView::Report(
                InitStatusView::Starting(
                    InitMessageView::Worded(Wording::DownloadingPrep, label_of(Tool::Ffmpeg)),
                ),
            ),
        ],
        (BootstrapPhase::Connect(tool), BootstrapEventView::Attempt) => seq![
            EffectView::Report(
                InitStatusView::Starting(
                    InitMessageView::Worded(Wording::DownloadingAttempt, label_of(tool)),
                ),
            ),
        ],
        (BootstrapPhase::Connect(tool), BootstrapEventView::AttemptFailed) => seq![
            EffectView::Report(
                InitStatusView::Starting(
                    InitMessageView::Worded(Wording::DownloadingRetry, label_of(tool)),
                ),
            ),
        ],
        (BootstrapPhase::Connect(tool), BootstrapEventView::GaveUp(reason)) => seq![
            EffectView::Report(
                InitStatusView::Failed(
                    InitMessageView::Nested(
                        fetch_failure(tool),
                        Wording::DownloadFailedRetry,
                        reason,
                    ),
                ),
            ),
        ],
        (BootstrapPhase::Connect(tool), BootstrapEventView::StoreFailed(reason)) => seq![
            EffectView::Report(
                InitStatusView::Failed(InitMessageView::Worded(fetch_failure(tool), reason)),
            ),
        ],
        (BootstrapPhase::Receive(tool), BootstrapEventView::StoreFailed(reason)) => seq![
            EffectView::Report(
                InitStatusView::Failed(InitMessageView::Worded(fetch_failure(tool), reason)),
            ),
        ],
        (BootstrapPhase::Receive(tool), BootstrapEventView::Chunk(n)) => if total > 0 {
            seq![
                EffectView::Report(
                    InitStatusView::Downloading {
                        units: reported(total, (received + n) as nat).0,
                        scale: reported(total, (received + n) as nat).1,
                        label: label_of(tool),
                    },
                ),
            ]
        } else {
            Seq::empty()
        },
        (BootstrapPhase::Receive(Tool::Ffmpeg), BootstrapEventView::Stored) => seq![
            EffectView::Report(
                InitStatusView::Extracting(
                    InitMessageView::Worded(Wording::Extracting, "ffmpeg"@),
                ),
            ),
        ],
        (BootstrapPhase::Unpack, BootstrapEventView::Unpacked) => seq![
            starting(Wording::YtdlpUpdateCheck),
        ],
        (BootstrapPhase::Unpack, BootstrapEventView::UnpackFailed(reason)) => seq![
            EffectView::Report(
                InitStatusView::Failed(
                    InitMessageView::Worded(Wording::FfmpegDownloadFail, reason),
                ),
            ),
        ],
        (BootstrapPhase::Update, BootstrapEventView::Ran(words)) => seq![
            EffectView::Report(
                InitStatusView::Starting(InitMessageView::Text("yt-dlp: "@ + words)),
            ),
            EffectView::Pause,
            starting(Wording::FfmpegCheck),
        ],
        (BootstrapPhase::Update, BootstrapEventView::RunFailed(reason)) => seq![
            EffectView::Report(
                InitStatusView::Starting(
                    InitMessageView::Worded(Wording::YtdlpUpdateFail, reason),
                ),
            ),
            EffectView::Pause,
            starting(Wording::FfmpegCheck),
        ],
        (BootstrapPhase::Check, BootstrapEventView::Ran(words)) => seq![
            EffectView::Report(
                InitStatusView::Starting(InitMessageView::Text("ffmpeg: "@ + words)),
            ),
            EffectView::Pause,
            EffectView::Report(InitStatusView::Completed),
        ],
        (BootstrapPhase::Check, BootstrapEventView::RunFailed(reason)) => seq![
            EffectView::Report(
                InitStatusView::Starting(
                    InitMessageView::Worded(Wording::FfmpegCheckFail, reason),
                ),
            ),
            EffectView::Pause,
            EffectView::Report(InitStatusView::Completed),
        ],
        _ => Seq::empty(),
    }
}

/// The action that a phase asks for.
pub open spec fn boot_action(phase: BootstrapPhase) -> BootstrapAction {
    match phase {
        BootstrapPhase::EnsureDir => BootstrapAction::EnsureDir,
        BootstrapPhase::Probe(tool) => BootstrapAction::Probe(tool),
        BootstrapPhase::Connect(tool) => BootstrapAction::Request(tool),
        BootstrapPhase::Receive(tool) => BootstrapAction::ReadBody(tool),
        BootstrapPhase::Unpack => BootstrapAction::Unpack,
        BootstrapPhase::Update => BootstrapAction::RunUpdate,
        BootstrapPhase::Check => BootstrapAction::RunCheck,
        BootstrapPhase::Completed | BootstrapPhase::Failed => BootstrapAction::Stop,
    }
}

impl BootstrapEvent {
    /// The event that reports a run of a tool, from its summary.
    pub fn of_summary(summary: Result<String, String>) -> (r: BootstrapEvent)
        ensures
            r@ == match summary {
                Ok(words) => BootstrapEventView::Ran(words@),
                Err(reason) => BootstrapEventView::RunFailed(reason@),
            },
    {
        match summary {
            Ok(words) => BootstrapEvent::Ran(words),
            Err(reason) => BootstrapEvent::RunFailed(reason),
        }
    }
}

/// The name under which a tool's download is shown.
fn label(tool: Tool) -> (r: String)
    ensures
        r@ == label_of(tool),
{
    match tool {
        Tool::YtDlp => "yt-dlp".to_string(),
        Tool::Ffmpeg => "ffmpeg archive".to_string(),
    }
}

/// The wording for the failure to fetch a tool.
fn failure_wording(tool: Tool) -> (r: Wording)
    ensures
        r == fetch_failure(tool),
{
    match tool {
        Tool::YtDlp => Wording::YtdlpDownloadFail,
        Tool::Ffmpeg => Wording::FfmpegDownloadFail,
    }
}

/// A status with a wording that speaks about nothing.
fn starting_with(wording: Wording) -> (r: Effect)
    ensures
        r@ == starting(wording),
{
    Effect::Report(InitStatus::Starting(InitMessage::Worded(wording, "".to_string())))
}

/// A status with a wording and what it speaks about.
fn starting_about(wording: Wording, about: String) -> (r: Effect)
    ensures
        r@ == EffectView::Report(
            InitStatusView::Starting(InitMessageView::Worded(wording, about@)),
        ),
{
    Effect::Report(InitStatus::Starting(InitMessage::Worded(wording, about)))
}

/// A status of plain text: a prefix and what follows it.
fn starting_text(prefix: &str, words: String) -> (r: Effect)
    ensures
        r@ == EffectView::Report(
            InitStatusView::Starting(InitMessageView::Text(prefix@ + words@)),
        ),
{
    let mut text = prefix.to_string();
    text.append(words.as_str());
    Effect::Report(InitStatus::Starting(InitMessage::Text(text)))
}

/// The failure of the set-up with a wording and a reason.
fn failed_with(wording: Wording, reason: String) -> (r: Effect)
    ensures
        r@ == EffectView::Report(
            InitStatusView::Failed(InitMessageView::Worded(wording, reason@)),
        ),
{
    Effect::Report(InitStatus::Failed(InitMessage::Worded(wording, reason)))
}

/// The course of the set-up. The program around it looks, fetches, unpacks
/// and runs, and tells the bootstrap each thing that happened; the
/// bootstrap answers with what to report and says what to do next.
#[derive(Debug)]
pub struct Bootstrap {
    pub phase: BootstrapPhase,
    pub meter: DownloadMeter,
}

impl Bootstrap {
    /// A set-up that has not begun.
    pub fn new() -> (r: Bootstrap)
        ensures
            r.phase == BootstrapPhase::EnsureDir,
            r.meter.total_bytes() == 0,
            r.meter.received_bytes() == 0,
    {
        Bootstrap { phase: BootstrapPhase::EnsureDir, meter: DownloadMeter::new(None) }
    }

    /// What to do next.
    pub fn next_action(&self) -> (a: BootstrapAction)
        ensures
            a == boot_action(self.phase),
    {
        match self.phase {
            BootstrapPhase::EnsureDir => BootstrapAction::EnsureDir,
            BootstrapPhase::Probe(tool) => BootstrapAction::Probe(tool),
            BootstrapPhase::Connect(tool) => BootstrapAction::Request(tool),
            BootstrapPhase::Receive(tool) => BootstrapAction::ReadBody(tool),
            BootstrapPhase::Unpack => BootstrapAction::Unpack,
            BootstrapPhase::Update => BootstrapAction::RunUpdate,
            BootstrapPhase::Check => BootstrapAction::RunCheck,
            BootstrapPhase::Completed | BootstrapPhase::Failed => BootstrapAction::Stop,
        }
    }

    /// The event can be taken in: a chunk must leave the byte count within
    /// 64 bits. Every other event can.
    pub open spec fn accepts(self, event: BootstrapEventView) -> bool {
        self.phase is Receive ==> (event matches BootstrapEventView::Chunk(n)
            ==> self.meter.received_bytes() + n <= u64::MAX)
    }

    /// Tests whether the event can be taken in.
    pub fn can_take(&self, event: &BootstrapEvent) -> (b: bool)
        ensures
            b == self.accepts(event@),
    {
        match self.phase {
            BootstrapPhase::Receive(_) => match event {
                BootstrapEvent::Chunk(n) => self.meter.has_room(*n),
                _ => true,
            },
            _ => true,
        }
    }

    /// Takes in one event and gives what to report, in order.
    pub fn step(&mut self, event: BootstrapEvent) -> (out: Vec<Effect>)
        requires
            old(self).accepts(event@),
        ensures
            final(self).phase == boot_next(old(self).phase, event@),
            (final(self).meter.total_bytes(), final(self).meter.received_bytes()) == boot_meter(
                old(self).phase,
                old(self).meter.total_bytes(),
                old(self).meter.received_bytes(),
                event@,
            ),
            effect_views(out@) == boot_effects(
                old(self).phase,
                old(self).meter.total_bytes(),
                old(self).meter.received_bytes(),
                event@,
            ),
    {
        let mut out: Vec<Effect> = Vec::new();
        match self.phase {
            BootstrapPhase::EnsureDir => match event {
                BootstrapEvent::DirReady => {
                    self.phase = BootstrapPhase::Probe(Tool::YtDlp);
                },
                BootstrapEvent::DirFailed(reason) => {
                    out.push(failed_with(Wording::FolderError, reason));
                    self.phase = BootstrapPhase::Failed;
                },
                _ => {},
            },
            BootstrapPhase::Probe(tool) => match event {
                BootstrapEvent::Found => match tool {
                    Tool::YtDlp => {
                        self.phase = BootstrapPhase::Probe(Tool::Ffmpeg);
                    },
                    Tool::Ffmpeg => {
                        out.push(starting_with(Wording::YtdlpUpdateCheck));
                        self.phase = BootstrapPhase::Update;
                    },
                },
                BootstrapEvent::Missing => {
                    match tool {
                        Tool::YtDlp => {},
                        Tool::Ffmpeg => {
                            out.push(starting_with(Wording::FfmpegCheck));
                        },
                    }
                    out.push(starting_about(Wording::DownloadingPrep, label(tool)));
                    self.phase = BootstrapPhase::Connect(tool);
                },
                _ => {},
            },
            BootstrapPhase::Connect(tool) => match event {
                BootstrapEvent::Attempt => {
                    out.push(starting_about(Wording::DownloadingAttempt, label(tool)));
                },
                BootstrapEvent::AttemptFailed => {
                    out.push(starting_about(Wording::DownloadingRetry, label(tool)));
                },
                BootstrapEvent::Connected(length) => {
                    self.meter = DownloadMeter::new(length);
                    self.phase = BootstrapPhase::Receive(tool);
                },
                BootstrapEvent::GaveUp(reason) => {
                    out.push(
                        Effect::Report(
                            InitStatus::Failed(
                                InitMessage::Nested(
                                    failure_wording(tool),
                                    Wording::DownloadFailedRetry,
                                    reason,
                                ),
                            ),
                        ),
                    );
                    self.phase = BootstrapPhase::Failed;
                },
                BootstrapEvent::StoreFailed(reason) => {
                    out.push(failed_with(failure_wording(tool), reason));
                    self.phase = BootstrapPhase::Failed;
                },
                _ => {},
            },
            BootstrapPhase::Receive(tool) => match event {
                BootstrapEvent::Chunk(n) => {
                    match self.meter.record(n) {
                        Some(percent) => {
                            out.push(Effect::Report(InitStatus::Downloading(percent, label(tool))));
                        },
                        None => {},
                    }
                },
                BootstrapEvent::Stored => match tool {
                    Tool::YtDlp => {
                        self.phase = BootstrapPhase::Probe(Tool::Ffmpeg);
                    },
                    Tool::Ffmpeg => {
                        out.push(
                            Effect::Report(
                                InitStatus::Extracting(
                                    InitMessage::Worded(Wording::Extracting, "ffmpeg".to_string()),
                                ),
                            ),
                        );
                        self.phase = BootstrapPhase::Unpack;
                    },
                },
                BootstrapEvent::StoreFailed(reason) => {
                    out.push(failed_with(failure_wording(tool), reason));
                    self.phase = BootstrapPhase::Failed;
                },
                _ => {},
            },
            BootstrapPhase::Unpack => match event {
                BootstrapEvent::Unpacked => {
                    out.push(starting_with(Wording::YtdlpUpdateCheck));
                    self.phase = BootstrapPhase::Update;
                },
                BootstrapEvent::UnpackFailed(reason) => {
                    out.push(failed_with(Wording::FfmpegDownloadFail, reason));
                    self.phase = BootstrapPhase::Failed;
                },
                _ => {},
            },
            BootstrapPhase::Update => match event {
                BootstrapEvent::Ran(words) => {
                    out.push(starting_text("yt-dlp: ", words));
                    out.push(Effect::Pause);
                    out.push(starting_with(Wording::FfmpegCheck));
                    self.phase = BootstrapPhase::Check;
                },
                BootstrapEvent::RunFailed(reason) => {
                    out.push(starting_about(Wording::YtdlpUpdateFail, reason));
                    out.push(Effect::Pause);
                    out.push(starting_with(Wording::FfmpegCheck));
                    self.phase = BootstrapPhase::Check;
                },
                _ => {},
            },
            BootstrapPhase::Check => match event {
                BootstrapEvent::Ran(words) => {
                    out.push(starting_text("ffmpeg: ", words));
                    out.push(Effect::Pause);
                    out.push(Effect::Report(InitStatus::Completed));
                    self.phase = BootstrapPhase::Completed;
                },
                BootstrapEvent::RunFailed(reason) => {
                    out.push(starting_about(Wording::FfmpegCheckFail, reason));
                    out.push(Effect::Pause);
                    out.push(Effect::Report(InitStatus::Completed));
                    self.phase = BootstrapPhase::Completed;
                },
                _ => {},
            },
            BootstrapPhase::Completed | BootstrapPhase::Failed => {},
        }
        assert(effect_views(out@) =~= boot_effects(
            old(self).phase,
            old(self).meter.total_bytes(),
            old(self).meter.received_bytes(),
            event@,
        ));
        out
    }
}

/// Where a set-up stands, as a mathematical value: the phase, and the byte
/// counts of the download under way.
pub struct BootState {
    pub phase: BootstrapPhase,
    pub total: nat,
    pub received: nat,
}

/// Where a new set-up stands after the given events, in order.
pub open spec fn boot_run(events: Seq<BootstrapEventView>) -> BootState
    decreases events.len(),
{
    if events.len() == 0 {
        BootState { phase: BootstrapPhase::EnsureDir, total: 0, received: 0 }
    } else {
        let before = boot_run(events.drop_last());
        let counts = boot_meter(before.phase, before.total, before.received, events.last());
        BootState {
            phase: boot_next(before.phase, events.last()),
            total: counts.0,
            received: counts.1,
        }
    }
}

/// Everything that a new set-up has given to report after the given events,
/// in order.
pub open spec fn boot_log(events: Seq<BootstrapEventView>) -> Seq<EffectView>
    decreases events.len(),
{
    if events.len() == 0 {
        Seq::empty()
    } else {
        let before = boot_run(events.drop_last());
        boot_log(events.drop_last()) + boot_effects(
            before.phase,
            before.total,
            before.received,
            events.last(),
        )
    }
}

/// The effect reports the end of the set-up: `Completed` or `Failed`.
pub open spec fn ends_setup(effect: EffectView) -> bool {
    effect matches EffectView::Report(status) && (status is Completed || status is Failed)
}

/// The effect tells of a download or of unpacking.
pub open spec fn tells_of_fetching(effect: EffectView) -> bool {
    effect matches EffectView::Report(status) && (status is Downloading || status is Extracting)
}

/// In this phase a tool is being fetched: asked for, received or unpacked.
pub open spec fn is_fetching(phase: BootstrapPhase) -> bool {
    phase is Connect || phase is Receive || phase is Unpack
}

/// How many of the effects report the end of the set-up.
pub open spec fn end_count(effects: Seq<EffectView>) -> nat
    decreases effects.len(),
{
    if effects.len() == 0 {
        0
    } else {
        end_count(effects.drop_last()) + if ends_setup(effects.last()) {
            1nat
        } else {
            0nat
        }
    }
}

/// Counting over two lists, one after the other.
pub proof fn lemma_end_count_add(a: Seq<EffectView>, b: Seq<EffectView>)
    ensures
        end_count(a + b) == end_count(a) + end_count(b),
    decreases b.len(),
{
    if b.len() == 0 {
        assert(a + b =~= a);
    } else {
        lemma_end_count_add(a, b.drop_last());
        assert((a + b).drop_last() =~= a + b.drop_last());
    }
}

/// What one event gives to report ends the set-up exactly where the event
/// brings the set-up to its end, and then as the last thing; after the end
/// nothing more is reported.
pub proof fn lemma_boot_step_end(
    phase: BootstrapPhase,
    total: nat,
    received: nat,
    event: BootstrapEventView,
)
    ensures
        end_count(boot_effects(phase, total, received, event)) == if !has_ended(phase)
            && has_ended(boot_next(phase, event)) {
            1nat
        } else {
            0nat
        },
        !has_ended(phase) && has_ended(boot_next(phase, event)) ==> boot_effects(
            phase,
            total,
            received,
            event,
        ).len() > 0 && ends_setup(boot_effects(phase, total, received, event).last()),
        has_ended(phase) ==> boot_next(phase, event) == phase && boot_effects(
            phase,
            total,
            received,
            event,
        ).len() == 0,
{
    reveal_with_fuel(end_count, 4);
    let effects = boot_effects(phase, total, received, event);
    if effects.len() == 3 {
        assert(effects.drop_last().len() == 2);
        assert(effects.drop_last().drop_last().len() == 1);
        assert(effects.drop_last().last() == effects[1]);
        assert(effects.drop_last().drop_last().last() == effects[0]);
    } else if effects.len() == 2 {
        assert(effects.drop_last().len() == 1);
        assert(effects.drop_last().last() == effects[0]);
    }
}

/// The set-up reports its end exactly once, and last. After any events
/// whatever, what was reported so far holds one `Completed` or `Failed`
/// where the set-up has ended, and none where it has not; where it has
/// ended, that is the last thing reported.
pub proof fn law_setup_ends_once(events: Seq<BootstrapEventView>)
    ensures
        end_count(boot_log(events)) == if has_ended(boot_run(events).phase) {
            1nat
        } else {
            0nat
        },
        has_ended(boot_run(events).phase) ==> boot_log(events).len() > 0 && ends_setup(
            boot_log(events).last(),
        ),
    decreases events.len(),
{
    if events.len() > 0 {
        let before = boot_run(events.drop_last());
        law_setup_ends_once(events.drop_last());
        lemma_boot_step_end(before.phase, before.total, before.received, events.last());
        lemma_end_count_add(
            boot_log(events.drop_last()),
            boot_effects(before.phase, before.total, before.received, events.last()),
        );
    }
}

/// Tools that are in place are not fetched. Where no tool is ever reported
/// missing, the set-up never comes to ask for a download or for unpacking,
/// and never reports a download's progress or an archive being unpacked,
/// whatever else happens and however far the set-up has come.
pub proof fn law_present_tools_not_fetched(events: Seq<BootstrapEventView>)
    requires
        forall|i: int| 0 <= i < events.len() ==> !(#[trigger] events[i] is Missing),
    ensures
        !is_fetching(boot_run(events).phase),
        forall|k: int|
            0 <= k < boot_log(events).len() ==> !tells_of_fetching(#[trigger] boot_log(events)[k]),
    decreases events.len(),
{
    if events.len() > 0 {
        let shorter = events.drop_last();
        assert forall|i: int| 0 <= i < shorter.len() implies !(#[trigger] shorter[i] is Missing) by {
            assert(shorter[i] == events[i]);
        }
        law_present_tools_not_fetched(shorter);
        let before = boot_run(shorter);
        let effects = boot_effects(before.phase, before.total, before.received, events.last());
        assert(!(events[events.len() - 1] is Missing));
        assert forall|k: int| 0 <= k < effects.len() implies !tells_of_fetching(
            #[trigger] effects[k],
        ) by {}
        assert forall|k: int| 0 <= k < boot_log(events).len() implies !tells_of_fetching(
            #[trigger] boot_log(events)[k],
        ) by {
            if k < boot_log(shorter).len() {
                assert(boot_log(events)[k] == boot_log(shorter)[k]);
            } else {
                assert(boot_log(events)[k] == effects[k - boot_log(shorter).len()]);
            }
        }
    }
}

/// With both tools in place the set-up runs straight to `Completed`: the
/// directory is there, both tools are found, the two checks are run, and
/// however the checks went, the last thing reported is `Completed`.
pub proof fn law_present_tools_complete(update: BootstrapEventView, check: BootstrapEventView)
    requires
        update is Ran || update is RunFailed,
        check is Ran || check is RunFailed,
    ensures
        boot_run(
            seq![
                BootstrapEventView::DirReady,
                BootstrapEventView::Found,
                BootstrapEventView::Found,
                update,
                check,
            ],
        ).phase == BootstrapPhase::Completed,
        boot_log(
            seq![
                BootstrapEventView::DirReady,
                BootstrapEventView::Found,
                BootstrapEventView::Found,
                update,
                check,
            ],
        ).last() == EffectView::Report(InitStatusView::Completed),
{
    let e5 = seq![
        BootstrapEventView::DirReady,
        BootstrapEventView::Found,
        BootstrapEventView::Found,
        update,
        check,
    ];
    let e4 = e5.drop_last();
    let e3 = e4.drop_last();
    let e2 = e3.drop_last();
    let e1 = e2.drop_last();
    let e0 = e1.drop_last();
    assert(e0.len() == 0);
    assert(boot_run(e0).phase == BootstrapPhase::EnsureDir);
    assert(e1.last() == BootstrapEventView::DirReady);
    assert(boot_run(e1).phase == BootstrapPhase::Probe(Tool::YtDlp));
    assert(e2.last() == BootstrapEventView::Found);
    assert(boot_run(e2).phase == BootstrapPhase::Probe(Tool::Ffmpeg));
    assert(e3.last() == BootstrapEventView::Found);
    assert(boot_run(e3).phase == BootstrapPhase::Update);
    assert(e4.last() == update);
    assert(boot_run(e4).phase == BootstrapPhase::Check);
    assert(e5.last() == check);
    assert(boot_run(e5).phase == BootstrapPhase::Completed);
    let last = boot_effects(boot_run(e4).phase, boot_run(e4).total, boot_run(e4).received, check);
    assert(last.len() == 3);
    assert(boot_log(e5).last() == last[2]);
}

} // verus!
