//! One download job: the file name it writes to, the arguments the download
//! tool is started with, the reading of what the tool prints, and the course
//! of the job from its start to its one final status.

use crate::percent::{
    is_digit, is_exponent_mark, is_number, is_percentage, is_sign, lemma_number_chars,
    lemma_number_scale_positive, number_scale, number_units, Percent,
};
use crate::platform::Platform;
use crate::text::{
    all_whitespace, char_is_alphanumeric, char_is_whitespace, chars_of, contains, contains_text,
    ends_with_text, find_ending_with, first_ending_with, free_of_whitespace, is_whitespace,
    lemma_first_ending_with_found, lemma_first_ending_with_two, lemma_other_last_char,
    lemma_strip_trailing, lemma_tokens_two_words, lemma_trim_end,
    lemma_trim_end_shape, lemma_trim_start, lemma_trim_start_shape, lemma_trim_text_edges,
    occurs_at, split_whitespace, string_of, string_texts, strip_trailing, tokens, trim,
    trim_end_matches, trim_start_text, trim_text,
};
use vstd::prelude::*;
use vstd::string::StringExecFns;

verus! {

/// The container or codec a download is converted to.
#[derive(Debug, Clone, Copy, PartialEq, Eq, Structural)]
pub enum DownloadFormat {
    Mp3,
    Wav,
    M4a,
    Flac,
    Mp4,
    Webm,
}

/// The punctuation that a file name keeps besides letters, numbers and
/// whitespace: `-_()[].,!&'`.
pub open spec fn is_allowed_punctuation(c: char) -> bool {
    c == '-' || c == '_' || c == '(' || c == ')' || c == '[' || c == ']' || c == '.' || c == ','
        || c == '!' || c == '&' || c == '\''
}

/// The characters that file systems reserve: `/ \ : * ? " < > |`.
pub open spec fn is_reserved(c: char) -> bool {
    c == '/' || c == '\\' || c == ':' || c == '*' || c == '?' || c == '"' || c == '<' || c == '>'
        || c == '|'
}

/// A file name keeps letters, numbers, whitespace and the allowed punctuation.
pub open spec fn is_kept(c: char) -> bool {
    char_is_alphanumeric(c) || is_whitespace(c) || is_allowed_punctuation(c)
}

/// An underscore in place of a reserved character; any other character as it is.
pub open spec fn replace_reserved(c: char) -> char {
    if is_reserved(c) {
        '_'
    } else {
        c
    }
}

/// The characters of `s` that a file name keeps, in order, with an
/// underscore in place of each reserved character among them.
pub open spec fn cleaned(s: Seq<char>) -> Seq<char> {
    s.filter(|c: char| is_kept(c)).map_values(|c: char| replace_reserved(c))
}

/// The file name made from a title: the kept characters, reserved ones
/// replaced, without the whitespace around them.
pub open spec fn sanitized(s: Seq<char>) -> Seq<char> {
    trim_text(cleaned(s))
}

/// No character of the text is reserved.
pub open spec fn free_of_reserved(s: Seq<char>) -> bool {
    forall|i: int| 0 <= i < s.len() ==> !is_reserved(#[trigger] s[i])
}

/// Every character of the text is one that a file name keeps as it is.
pub open spec fn all_plain(s: Seq<char>) -> bool {
    forall|i: int| 0 <= i < s.len() ==> is_kept(#[trigger] s[i]) && !is_reserved(s[i])
}

/// Cleaning a text and one more character.
pub proof fn lemma_cleaned_push(s: Seq<char>, c: char)
    ensures
        cleaned(s.push(c)) == if is_kept(c) {
            cleaned(s).push(replace_reserved(c))
        } else {
            cleaned(s)
        },
{
    let keep = |c: char| is_kept(c);
    let repl = |c: char| replace_reserved(c);
    s.lemma_filter_push(c, keep);
    if is_kept(c) {
        s.filter(keep).lemma_push_map_commute(repl, c);
    }
}

/// Cleaning leaves only characters that a file name keeps as they are.
pub proof fn lemma_cleaned_plain(s: Seq<char>)
    ensures
        all_plain(cleaned(s)),
    decreases s.len(),
{
    if s.len() == 0 {
        reveal(Seq::filter);
    } else {
        lemma_cleaned_plain(s.drop_last());
        lemma_cleaned_push(s.drop_last(), s.last());
        assert(s.drop_last().push(s.last()) =~= s);
    }
}

/// Cleaning changes nothing in a text that holds only characters that a
/// file name keeps as they are.
pub proof fn lemma_cleaned_fixed(s: Seq<char>)
    requires
        all_plain(s),
    ensures
        cleaned(s) == s,
    decreases s.len(),
{
    if s.len() == 0 {
        reveal(Seq::filter);
        assert(cleaned(s) =~= s);
    } else {
        let t = s.drop_last();
        assert forall|i: int| 0 <= i < t.len() implies is_kept(#[trigger] t[i]) && !is_reserved(
            t[i],
        ) by {
            assert(t[i] == s[i]);
        }
        lemma_cleaned_fixed(t);
        lemma_cleaned_push(t, s.last());
        assert(t.push(s.last()) =~= s);
    }
}

/// Sanitizing twice gives what sanitizing once gives, and a sanitized name
/// holds none of the reserved characters `/ \ : * ? " < > |`.
pub proof fn law_sanitize_idempotent(s: Seq<char>)
    ensures
        sanitized(sanitized(s)) == sanitized(s),
        free_of_reserved(sanitized(s)),
{
    let c = cleaned(s);
    let t = sanitized(s);
    lemma_cleaned_plain(s);
    lemma_trim_start_shape(c);
    let m = trim_start_text(c);
    lemma_trim_end_shape(m);
    assert forall|i: int| 0 <= i < t.len() implies is_kept(#[trigger] t[i]) && !is_reserved(
        t[i],
    ) by {
        assert(t[i] == m[i]);
        assert(m[i] == c[i + (c.len() - m.len())]);
    }
    lemma_cleaned_fixed(t);
    lemma_trim_text_edges(c);
    lemma_trim_start(t, 0);
    assert(t.skip(0) =~= t);
    lemma_trim_end(t, t.len() as int);
    assert(t.take(t.len() as int) =~= t);
}

/// Tests for the punctuation that a file name keeps.
fn allowed_punctuation(c: char) -> (b: bool)
    ensures
        b == is_allowed_punctuation(c),
{
    c == '-' || c == '_' || c == '(' || c == ')' || c == '[' || c == ']' || c == '.' || c == ','
        || c == '!' || c == '&' || c == '\''
}

/// Tests for the characters that file systems reserve.
fn reserved(c: char) -> (b: bool)
    ensures
        b == is_reserved(c),
{
    c == '/' || c == '\\' || c == ':' || c == '*' || c == '?' || c == '"' || c == '<' || c == '>'
        || c == '|'
}

/// Makes a file name from a title. Characters other than letters, numbers,
/// whitespace and `-_()[].,!&'` are dropped; a reserved character that is
/// left becomes an underscore; whitespace at both ends is cut off.
pub fn sanitize_filename(filename: &str) -> (r: String)
    ensures
        r@ == sanitized(filename@),
        free_of_reserved(r@),
{
    let chars = chars_of(filename);
    let mut kept: Vec<char> = Vec::new();
    let mut i: usize = 0;
    proof {
        reveal(Seq::filter);
        assert(chars@.take(0) =~= Seq::<char>::empty());
        assert(cleaned(Seq::<char>::empty()) =~= Seq::<char>::empty());
    }
    while i < chars.len()
        invariant
            i <= chars.len(),
            kept@ == cleaned(chars@.take(i as int)),
        decreases chars.len() - i,
    {
        let c = chars[i];
        proof {
            lemma_cleaned_push(chars@.take(i as int), c);
            assert(chars@.take(i as int).push(c) =~= chars@.take(i + 1));
        }
        if c.is_alphanumeric() || char_is_whitespace(c) || allowed_punctuation(c) {
            if reserved(c) {
                kept.push('_');
            } else {
                kept.push(c);
            }
        }
        i = i + 1;
    }
    assert(chars@.take(chars@.len() as int) =~= chars@);
    let trimmed = trim(&kept);
    proof {
        law_sanitize_idempotent(filename@);
    }
    string_of(&trimmed)
}

/// What one download needs to know: where from, into which format, at which
/// audio quality, and into which directory.
#[derive(Debug, Clone, PartialEq, Eq)]
pub struct DownloadConfig {
    pub url: String,
    pub format: DownloadFormat,
    pub audio_quality: String,
    pub output_dir: String,
}

/// What a running download reports. `Completed`, `Failed` and `Stopped` end
/// a job; the others do not.
#[derive(Debug, Clone, PartialEq, Eq)]
pub enum DownloadStatus {
    /// The tool was started; a message to show.
    Starting(String),
    /// How far the download is, and the speed as the tool printed it.
    Progress(Percent, String),
    /// The tool is extracting audio or merging streams.
    Converting,
    /// The job succeeded; the title it was given.
    Completed(String),
    /// The job failed; why.
    Failed(String),
    /// The job was stopped on request.
    Stopped,
}

/// A `DownloadStatus` as a mathematical value.
pub enum StatusView {
    Starting(Seq<char>),
    Progress { units: nat, scale: nat, label: Seq<char> },
    Converting,
    Completed(Seq<char>),
    Failed(Seq<char>),
    Stopped,
}

impl View for DownloadStatus {
    type V = StatusView;

    open spec fn view(&self) -> StatusView {
        match self {
            DownloadStatus::Starting(m) => StatusView::Starting(m@),
            DownloadStatus::Progress(p, l) => StatusView::Progress {
                units: p.num(),
                scale: p.den(),
                label: l@,
            },
            DownloadStatus::Converting => StatusView::Converting,
            DownloadStatus::Completed(t) => StatusView::Completed(t@),
            DownloadStatus::Failed(m) => StatusView::Failed(m@),
            DownloadStatus::Stopped => StatusView::Stopped,
        }
    }
}

/// The statuses that a list holds, as mathematical values.
pub open spec fn status_views(v: Seq<DownloadStatus>) -> Seq<StatusView> {
    Seq::new(v.len(), |i: int| v[i]@)
}

/// The status ends a job.
pub open spec fn is_terminal(s: StatusView) -> bool {
    s is Completed || s is Failed || s is Stopped
}

impl DownloadStatus {
    /// Tells the statuses that end a job from those that do not.
    pub fn terminal(&self) -> (b: bool)
        ensures
            b == is_terminal(self@),
    {
        match self {
            DownloadStatus::Completed(_) | DownloadStatus::Failed(_) | DownloadStatus::Stopped => true,
            _ => false,
        }
    }
}

/// The name of the file a job writes, as a template of the download tool:
/// the sanitized title, then `.%(ext)s`, for which the tool puts the
/// extension.
pub open spec fn output_template(title: Seq<char>) -> Seq<char> {
    sanitized(title) + ".%(ext)s"@
}

/// The file name template for a title.
pub fn output_file_name(title: &str) -> (r: String)
    ensures
        r@ == output_template(title@),
{
    let mut name = sanitize_filename(title);
    name.append(".%(ext)s");
    name
}

/// The arguments that choose the format. The four audio formats ask for the
/// audio to be extracted into that codec, and `Mp3` also names the quality;
/// the two video formats ask for the best streams in that container and for
/// a merge into it.
pub open spec fn format_args(format: DownloadFormat, quality: Seq<char>) -> Seq<Seq<char>> {
    match format {
        DownloadFormat::Mp3 => seq!["-x"@, "--audio-format"@, "mp3"@, "--audio-quality"@, quality],
        DownloadFormat::Wav => seq!["-x"@, "--audio-format"@, "wav"@],
        DownloadFormat::M4a => seq!["-x"@, "--audio-format"@, "m4a"@],
        DownloadFormat::Flac => seq!["-x"@, "--audio-format"@, "flac"@],
        DownloadFormat::Mp4 => seq![
            "-f"@,
            "bestvideo[ext=mp4]+bestaudio[ext=m4a]/best[ext=mp4]/best"@,
            "--merge-output-format"@,
            "mp4"@,
        ],
        DownloadFormat::Webm => seq![
            "-f"@,
            "bestvideo[ext=webm]+bestaudio/best"@,
            "--merge-output-format"@,
            "webm"@,
        ],
    }
}

/// The whole argument list of the download tool for one job: no playlist
/// expansion, one progress line per update, thumbnail and metadata embedded,
/// the output path template, the arguments of the format, and the URL last.
pub open spec fn download_args(
    format: DownloadFormat,
    quality: Seq<char>,
    output_path: Seq<char>,
    url: Seq<char>,
) -> Seq<Seq<char>> {
    seq![
        "--no-playlist"@,
        "--newline"@,
        "--progress"@,
        "--embed-thumbnail"@,
        "--add-metadata"@,
        "-o"@,
        output_path,
    ] + format_args(format, quality) + seq![url]
}

/// Builds the argument list of the download tool for one job. `output_path`
/// is the output directory joined with `output_file_name` of the title.
pub fn build_args(config: &DownloadConfig, output_path: &str) -> (args: Vec<String>)
    ensures
        string_texts(args@) == download_args(
            config.format,
            config.audio_quality@,
            output_path@,
            config.url@,
        ),
{
    let mut args: Vec<String> = Vec::new();
    args.push("--no-playlist".to_string());
    args.push("--newline".to_string());
    args.push("--progress".to_string());
    args.push("--embed-thumbnail".to_string());
    args.push("--add-metadata".to_string());
    args.push("-o".to_string());
    args.push(output_path.to_string());
    match config.format {
        DownloadFormat::Mp3 => {
            args.push("-x".to_string());
            args.push("--audio-format".to_string());
            args.push("mp3".to_string());
            args.push("--audio-quality".to_string());
            args.push(config.audio_quality.clone());
        },
        DownloadFormat::Wav => {
            args.push("-x".to_string());
            args.push("--audio-format".to_string());
            args.push("wav".to_string());
        },
        DownloadFormat::M4a => {
            args.push("-x".to_string());
            args.push("--audio-format".to_string());
            args.push("m4a".to_string());
        },
        DownloadFormat::Flac => {
            args.push("-x".to_string());
            args.push("--audio-format".to_string());
            args.push("flac".to_string());
        },
        DownloadFormat::Mp4 => {
            args.push("-f".to_string());
            args.push("bestvideo[ext=mp4]+bestaudio[ext=m4a]/best[ext=mp4]/best".to_string());
            args.push("--merge-output-format".to_string());
            args.push("mp4".to_string());
        },
        DownloadFormat::Webm => {
            args.push("-f".to_string());
            args.push("bestvideo[ext=webm]+bestaudio/best".to_string());
            args.push("--merge-output-format".to_string());
            args.push("webm".to_string());
        },
    }
    args.push(config.url.clone());
    assert(string_texts(args@) =~= download_args(
        config.format,
        config.audio_quality@,
        output_path@,
        config.url@,
    ));
    args
}

/// The search path that the download tool is started with, so that it finds
/// the conversion tool. On Windows the application's directory comes first;
/// on macOS the usual places of package managers are added at the end;
/// elsewhere the path stays as it is.
pub open spec fn search_path(
    platform: Platform,
    current: Seq<char>,
    app_dir: Seq<char>,
    home: Seq<char>,
) -> Seq<char> {
    match platform {
        Platform::Windows => app_dir + ";"@ + current,
        Platform::MacOs => current + ":/opt/homebrew/bin:/usr/local/bin:"@ + home + "/.cargo/bin"@,
        Platform::Linux => current,
    }
}

/// Computes the search path for the child process from the current one, the
/// application's directory and the user's home directory. It is meant for
/// the child alone: the program's own environment stays as it is.
pub fn child_search_path(platform: Platform, current: &str, app_dir: &str, home: &str) -> (r:
    String)
    ensures
        r@ == search_path(platform, current@, app_dir@, home@),
{
    match platform {
        Platform::Windows => {
            let mut path = app_dir.to_string();
            path.append(";");
            path.append(current);
            path
        },
        Platform::MacOs => {
            let mut path = current.to_string();
            path.append(":/opt/homebrew/bin:/usr/local/bin:");
            path.append(home);
            path.append("/.cargo/bin");
            path
        },
        Platform::Linux => current.to_string(),
    }
}

/// The line reports progress: it holds the tag `[download]` and a `%`.
pub open spec fn is_progress_line(line: Seq<char>) -> bool {
    contains_text(line, "[download]"@) && contains_text(line, "%"@)
}

/// The line reports conversion: it holds the tag `[ExtractAudio]` or `[Merger]`.
pub open spec fn is_converting_line(line: Seq<char>) -> bool {
    contains_text(line, "[ExtractAudio]"@) || contains_text(line, "[Merger]"@)
}

/// The percentage of a progress line, as it is written: the line's first
/// word that ends with `%`, without the `%` signs at its end, where that is
/// a decimal number from 0 to 100, of whatever length. A line that is no
/// progress line, has no such word, or has one that is no such number, has
/// none: a number below 0 or above 100 is no percentage.
pub open spec fn percent_numeral(line: Seq<char>) -> Option<Seq<char>> {
    if !is_progress_line(line) {
        None
    } else {
        match first_ending_with(tokens(line), "%"@) {
            Some(word) => {
                let numeral = strip_trailing(word, '%');
                if is_percentage(numeral) {
                    Some(numeral)
                } else {
                    None
                }
            },
            None => None,
        }
    }
}

/// The speed that a line names: its first word that ends with `/s`, or the
/// empty text where it has none.
pub open spec fn speed_label(line: Seq<char>) -> Seq<char> {
    match first_ending_with(tokens(line), "/s"@) {
        Some(word) => word,
        None => Seq::empty(),
    }
}

/// The statuses that one line of the tool's output gives rise to: a
/// `Progress` where it has a percent numeral, then a `Converting` where it
/// reports conversion. Most lines give none.
pub open spec fn line_statuses(line: Seq<char>) -> Seq<StatusView> {
    let progress = match percent_numeral(line) {
        Some(numeral) => seq![
            StatusView::Progress {
                units: number_units(numeral),
                scale: number_scale(numeral),
                label: speed_label(line),
            },
        ],
        None => Seq::empty(),
    };
    let converting = if is_converting_line(line) {
        seq![StatusView::Converting]
    } else {
        Seq::empty()
    };
    progress + converting
}

/// Reads one line of the download tool's output. A line that is malformed
/// or not recognised gives no status; it is never an error.
pub fn classify_line(line: &str) -> (r: Vec<DownloadStatus>)
    ensures
        status_views(r@) == line_statuses(line@),
{
    let chars = chars_of(line);
    let mut out: Vec<DownloadStatus> = Vec::new();
    let percent_sign = chars_of("%");
    if contains(&chars, &chars_of("[download]")) && contains(&chars, &percent_sign) {
        let words = split_whitespace(&chars);
        match find_ending_with(&words, &percent_sign) {
            Some(k) => {
                let numeral = trim_end_matches(&words[k], '%');
                match Percent::from_numeral(&numeral) {
                    Some(p) => {
                        let label = match find_ending_with(&words, &chars_of("/s")) {
                            Some(j) => string_of(&words[j]),
                            None => String::new(),
                        };
                        out.push(DownloadStatus::Progress(p, label));
                    },
                    None => {},
                }
            },
            None => {},
        }
    }
    if contains(&chars, &chars_of("[ExtractAudio]")) || contains(&chars, &chars_of("[Merger]")) {
        out.push(DownloadStatus::Converting);
    }
    assert(status_views(out@) =~= line_statuses(line@));
    out
}

/// A progress line gives back its percentage exactly. Take the tag
/// `[download]`, some whitespace, any decimal number from 0 to 100, of
/// whatever length, with or without a sign or an exponent, a `%`, and a
/// rest that is empty or begins with whitespace: the line's first status is a
/// `Progress` with exactly the number's value, and its label is the first
/// word of the rest that ends with `/s`, which is then not empty, or the
/// empty text where the rest has no such word.
pub proof fn law_progress_line_read_exactly(gap: Seq<char>, numeral: Seq<char>, rest: Seq<char>)
    requires
        gap.len() > 0,
        all_whitespace(gap),
        is_percentage(numeral),
        rest.len() == 0 || is_whitespace(rest[0]),
    ensures
        ({
            let line = "[download]"@ + gap + numeral + "%"@ + rest;
            &&& percent_numeral(line) == Some(numeral)
            &&& line_statuses(line).len() >= 1
            &&& line_statuses(line)[0] == StatusView::Progress {
                units: number_units(numeral),
                scale: number_scale(numeral),
                label: speed_label(line),
            }
            &&& speed_label(line) == match first_ending_with(tokens(rest), "/s"@) {
                Some(word) => word,
                None => Seq::empty(),
            }
            &&& first_ending_with(tokens(rest), "/s"@) is Some ==> speed_label(line).len() >= 2
                && ends_with_text(speed_label(line), "/s"@)
        }),
{
    let tag = "[download]"@;
    let word = numeral + "%"@;
    lemma_progress_line_tags(gap, numeral, rest);
    lemma_progress_line_words(gap, numeral, rest);
    lemma_progress_word(numeral);
    lemma_progress_tag();
    lemma_first_ending_with_two(tag, word, tokens(rest), "%"@);
    lemma_first_ending_with_two(tag, word, tokens(rest), "/s"@);
    if first_ending_with(tokens(rest), "/s"@) is Some {
        lemma_first_ending_with_found(tokens(rest), "/s"@);
        lemma_progress_texts();
    }
}

/// What the texts that the classifier looks for hold.
proof fn lemma_progress_texts()
    ensures
        "[download]"@.len() == 10,
        "[download]"@.last() == ']',
        free_of_whitespace("[download]"@),
        "%"@ == seq!['%'],
        "/s"@ == seq!['/', 's'],
        "/s"@.len() == 2,
{
    reveal_strlit("[download]");
    reveal_strlit("%");
    reveal_strlit("/s");
    assert("%"@ =~= seq!['%']);
    assert("/s"@ =~= seq!['/', 's']);
}

/// The tag `[download]` ends neither with `%` nor with `/s`.
proof fn lemma_progress_tag()
    ensures
        !ends_with_text("[download]"@, "%"@),
        !ends_with_text("[download]"@, "/s"@),
{
    lemma_progress_texts();
    lemma_other_last_char("[download]"@, "%"@);
    lemma_other_last_char("[download]"@, "/s"@);
}

/// A number with a `%` behind it is one word that ends with `%` and not
/// with `/s`, and without its `%` it is the number again.
proof fn lemma_progress_word(numeral: Seq<char>)
    requires
        is_number(numeral),
    ensures
        (numeral + "%"@).len() > 0,
        free_of_whitespace(numeral + "%"@),
        ends_with_text(numeral + "%"@, "%"@),
        !ends_with_text(numeral + "%"@, "/s"@),
        strip_trailing(numeral + "%"@, '%') == numeral,
{
    let sign = "%"@;
    let word = numeral + sign;
    lemma_number_chars(numeral);
    lemma_progress_texts();
    assert(word.last() == '%');
    assert forall|i: int| 0 <= i < word.len() implies !is_whitespace(#[trigger] word[i]) by {
        if i < numeral.len() {
            assert(word[i] == numeral[i]);
            assert(is_digit(numeral[i]) || numeral[i] == '.' || is_sign(numeral[i])
                || is_exponent_mark(numeral[i]));
        }
    }
    assert(word.subrange(word.len() - 1, word.len() as int) =~= sign);
    lemma_other_last_char(word, "/s"@);
    let last = numeral[numeral.len() - 1];
    assert(is_digit(last) || last == '.' || is_sign(last) || is_exponent_mark(last));
    assert(word[numeral.len() - 1] == numeral[numeral.len() - 1]);
    lemma_strip_trailing(word, '%', numeral.len() as int);
    assert(word.take(numeral.len() as int) =~= numeral);
}

/// A line that begins with the tag and holds a `%` is a progress line.
proof fn lemma_progress_line_tags(gap: Seq<char>, numeral: Seq<char>, rest: Seq<char>)
    ensures
        is_progress_line("[download]"@ + gap + numeral + "%"@ + rest),
{
    reveal(contains_text);
    let tag = "[download]"@;
    let sign = "%"@;
    let line = tag + gap + numeral + sign + rest;
    assert(line.subrange(0, tag.len() as int) =~= tag);
    assert(occurs_at(line, tag, 0));
    let at: int = (tag.len() + gap.len() + numeral.len()) as int;
    assert(line.subrange(at, at + sign.len()) =~= sign);
    assert(occurs_at(line, sign, at));
}

/// The words of a line made of the tag, whitespace, a number with its `%`,
/// and a rest that is empty or begins with whitespace.
proof fn lemma_progress_line_words(gap: Seq<char>, numeral: Seq<char>, rest: Seq<char>)
    requires
        gap.len() > 0,
        all_whitespace(gap),
        is_number(numeral),
        rest.len() == 0 || is_whitespace(rest[0]),
    ensures
        tokens("[download]"@ + gap + numeral + "%"@ + rest) == seq![
            "[download]"@,
            numeral + "%"@,
        ] + tokens(rest),
{
    let tag = "[download]"@;
    let word = numeral + "%"@;
    lemma_progress_texts();
    lemma_progress_word(numeral);
    assert(tag + gap + numeral + "%"@ + rest =~= tag + gap + word + rest);
    lemma_tokens_two_words(tag, gap, word, rest);
}

/// Where a job stands: about to start the tool, reading what it prints,
/// waiting for it to exit, or done.
#[derive(Debug, Clone, Copy, PartialEq, Eq, Structural)]
pub enum JobPhase {
    Launching,
    Reading,
    Waiting,
    Done,
}

/// What happened to the tool's process, as the program that runs it saw it.
#[derive(Debug, Clone, PartialEq, Eq)]
pub enum JobEvent {
    /// The process was started.
    Spawned,
    /// The process could not be started; the system's reason.
    SpawnFailed(String),
    /// The process printed one line.
    Line(String),
    /// Its output came to an end, or reading it failed.
    OutputClosed,
    /// The process exited; whether with success.
    Exited(bool),
    /// Waiting for the process failed.
    WaitFailed,
}

/// A `JobEvent` as a mathematical value.
pub enum JobEventView {
    Spawned,
    SpawnFailed(Seq<char>),
    Line(Seq<char>),
    OutputClosed,
    Exited(bool),
    WaitFailed,
}

impl View for JobEvent {
    type V = JobEventView;

    open spec fn view(&self) -> JobEventView {
        match self {
            JobEvent::Spawned => JobEventView::Spawned,
            JobEvent::SpawnFailed(e) => JobEventView::SpawnFailed(e@),
            JobEvent::Line(l) => JobEventView::Line(l@),
            JobEvent::OutputClosed => JobEventView::OutputClosed,
            JobEvent::Exited(ok) => JobEventView::Exited(*ok),
            JobEvent::WaitFailed => JobEventView::WaitFailed,
        }
    }
}

/// What the program that runs the tool does next.
#[derive(Debug, Clone, Copy, PartialEq, Eq, Structural)]
pub enum JobAction {
    /// Start the process and report `Spawned` or `SpawnFailed`.
    Spawn,
    /// Read a line and report `Line`, or `OutputClosed` where there is none.
    ReadLine,
    /// Wait for the process and report `Exited` or `WaitFailed`.
    Wait,
    /// Nothing: the job has reported its final status.
    Finish,
}

/// The phase after an event. An event that the phase does not wait for
/// changes nothing.
pub open spec fn next_phase(phase: JobPhase, event: JobEventView) -> JobPhase {
    match (phase, event) {
        (JobPhase::Launching, JobEventView::Spawned) => JobPhase::Reading,
        (JobPhase::Launching, JobEventView::SpawnFailed(_)) => JobPhase::Done,
        (JobPhase::Reading, JobEventView::OutputClosed) => JobPhase::Waiting,
        (JobPhase::Waiting, JobEventView::Exited(_)) => JobPhase::Done,
        (JobPhase::Waiting, JobEventView::WaitFailed) => JobPhase::Done,
        _ => phase,
    }
}

/// The statuses that an event gives rise to in a phase, for a job with the
/// given title. The start is reported once the process runs; a line may
/// report progress or conversion; the exit gives the one final status. An
/// event that the phase does not wait for gives none.
pub open spec fn emitted(phase: JobPhase, title: Seq<char>, event: JobEventView) -> Seq<
    StatusView,
> {
    match (phase, event) {
        (JobPhase::Launching, JobEventView::Spawned) => seq![
            StatusView::Starting("다운로드 시작..."@),
        ],
        (JobPhase::Launching, JobEventView::SpawnFailed(reason)) => seq![
            StatusView::Failed("실행 실패: "@ + reason),
        ],
        (JobPhase::Reading, JobEventView::Line(line)) => line_statuses(line),
        (JobPhase::Waiting, JobEventView::Exited(ok)) => if ok {
            seq![StatusView::Completed(title)]
        } else {
            seq![StatusView::Failed("다운로드 실패 (또는 중단)"@)]
        },
        (JobPhase::Waiting, JobEventView::WaitFailed) => seq![
            StatusView::Failed("프로세스 대기 오류"@),
        ],
        _ => Seq::empty(),
    }
}

/// The action that a phase asks for.
pub open spec fn action_of(phase: JobPhase) -> JobAction {
    match phase {
        JobPhase::Launching => JobAction::Spawn,
        JobPhase::Reading => JobAction::ReadLine,
        JobPhase::Waiting => JobAction::Wait,
        JobPhase::Done => JobAction::Finish,
    }
}

/// The course of one job. The program around it starts the process, reads
/// its output and waits for it, and tells the supervisor each thing that
/// happened; the supervisor answers with the statuses to pass on.
#[derive(Debug)]
pub struct Supervisor {
    pub phase: JobPhase,
    pub title: String,
}

impl Supervisor {
    /// A job that has not been started, for a download with the given title.
    pub fn new(title: String) -> (r: Supervisor)
        ensures
            r.phase == JobPhase::Launching,
            r.title == title,
    {
        Supervisor { phase: JobPhase::Launching, title }
    }

    /// What to do next.
    pub fn next_action(&self) -> (a: JobAction)
        ensures
            a == action_of(self.phase),
    {
        match self.phase {
            JobPhase::Launching => JobAction::Spawn,
            JobPhase::Reading => JobAction::ReadLine,
            JobPhase::Waiting => JobAction::Wait,
            JobPhase::Done => JobAction::Finish,
        }
    }

    /// Whether the job has reported its final status.
    pub fn is_done(&self) -> (b: bool)
        ensures
            b == (self.phase == JobPhase::Done),
    {
        match self.phase {
            JobPhase::Done => true,
            _ => false,
        }
    }

    /// Takes in one event and gives the statuses to pass on, in order.
    pub fn step(&mut self, event: JobEvent) -> (out: Vec<DownloadStatus>)
        ensures
            final(self).phase == next_phase(old(self).phase, event@),
            final(self).title == old(self).title,
            status_views(out@) == emitted(old(self).phase, old(self).title@, event@),
    {
        let mut out: Vec<DownloadStatus> = Vec::new();
        match self.phase {
            JobPhase::Launching => match event {
                JobEvent::Spawned => {
                    out.push(DownloadStatus::Starting("다운로드 시작...".to_string()));
                    self.phase = JobPhase::Reading;
                },
                JobEvent::SpawnFailed(reason) => {
                    let mut message = "실행 실패: ".to_string();
                    message.append(reason.as_str());
                    out.push(DownloadStatus::Failed(message));
                    self.phase = JobPhase::Done;
                },
                _ => {},
            },
            JobPhase::Reading => match event {
                JobEvent::Line(line) => {
                    out = classify_line(line.as_str());
                },
                JobEvent::OutputClosed => {
                    self.phase = JobPhase::Waiting;
                },
                _ => {},
            },
            JobPhase::Waiting => match event {
                JobEvent::Exited(ok) => {
                    if ok {
                        out.push(DownloadStatus::Completed(self.title.clone()));
                    } else {
                        out.push(DownloadStatus::Failed("다운로드 실패 (또는 중단)".to_string()));
                    }
                    self.phase = JobPhase::Done;
                },
                JobEvent::WaitFailed => {
                    out.push(DownloadStatus::Failed("프로세스 대기 오류".to_string()));
                    self.phase = JobPhase::Done;
                },
                _ => {},
            },
            JobPhase::Done => {},
        }
        assert(status_views(out@) =~= emitted(old(self).phase, old(self).title@, event@));
        out
    }
}

/// How many of the statuses end a job.
pub open spec fn terminal_count(statuses: Seq<StatusView>) -> nat
    decreases statuses.len(),
{
    if statuses.len() == 0 {
        0
    } else {
        terminal_count(statuses.drop_last()) + if is_terminal(statuses.last()) {
            1nat
        } else {
            0nat
        }
    }
}

/// The phase that a new job is in after the given events, in order.
pub open spec fn run_phase(events: Seq<JobEventView>) -> JobPhase
    decreases events.len(),
{
    if events.len() == 0 {
        JobPhase::Launching
    } else {
        next_phase(run_phase(events.drop_last()), events.last())
    }
}

/// All the statuses that a new job with the given title has reported after
/// the given events, in order.
pub open spec fn run_statuses(title: Seq<char>, events: Seq<JobEventView>) -> Seq<StatusView>
    decreases events.len(),
{
    if events.len() == 0 {
        Seq::empty()
    } else {
        run_statuses(title, events.drop_last()) + emitted(
            run_phase(events.drop_last()),
            title,
            events.last(),
        )
    }
}

/// The events of a run in which the process prints the given lines.
pub open spec fn line_events(lines: Seq<Seq<char>>) -> Seq<JobEventView> {
    Seq::new(lines.len(), |i: int| JobEventView::Line(lines[i]))
}

/// Counting over two lists, one after the other.
pub proof fn lemma_terminal_count_add(a: Seq<StatusView>, b: Seq<StatusView>)
    ensures
        terminal_count(a + b) == terminal_count(a) + terminal_count(b),
    decreases b.len(),
{
    if b.len() == 0 {
        assert(a + b =~= a);
    } else {
        lemma_terminal_count_add(a, b.drop_last());
        assert((a + b).drop_last() =~= a + b.drop_last());
    }
}

/// A line of output never ends a job.
pub proof fn lemma_line_never_terminal(line: Seq<char>)
    ensures
        terminal_count(line_statuses(line)) == 0,
{
    let statuses = line_statuses(line);
    reveal_with_fuel(terminal_count, 3);
    if statuses.len() == 2 {
        assert(statuses.drop_last().len() == 1);
    }
}

/// What one event reports ends a job exactly where the event brings the job
/// to `Done` from another phase.
pub proof fn lemma_step_terminal(phase: JobPhase, title: Seq<char>, event: JobEventView)
    ensures
        terminal_count(emitted(phase, title, event)) == if phase != JobPhase::Done && next_phase(
            phase,
            event,
        ) == JobPhase::Done {
            1nat
        } else {
            0nat
        },
        next_phase(phase, event) == JobPhase::Done && phase != JobPhase::Done ==> emitted(
            phase,
            title,
            event,
        ).len() == 1 && is_terminal(emitted(phase, title, event)[0]),
        phase == JobPhase::Done ==> next_phase(phase, event) == JobPhase::Done && emitted(
            phase,
            title,
            event,
        ).len() == 0,
{
    reveal_with_fuel(terminal_count, 2);
    match (phase, event) {
        (JobPhase::Reading, JobEventView::Line(line)) => {
            lemma_line_never_terminal(line);
        },
        _ => {},
    }
}

/// Every job reports exactly one final status, and reports it last. After
/// any events whatever, the statuses reported so far hold one of
/// `Completed`, `Failed`, `Stopped` where the job is done, and none where
/// it is not; where the job is done that status is the last one reported.
pub proof fn law_one_terminal_status(title: Seq<char>, events: Seq<JobEventView>)
    ensures
        terminal_count(run_statuses(title, events)) == if run_phase(events) == JobPhase::Done {
            1nat
        } else {
            0nat
        },
        run_phase(events) == JobPhase::Done ==> run_statuses(title, events).len() > 0
            && is_terminal(run_statuses(title, events).last()),
    decreases events.len(),
{
    if events.len() > 0 {
        let before = events.drop_last();
        law_one_terminal_status(title, before);
        lemma_step_terminal(run_phase(before), title, events.last());
        lemma_terminal_count_add(
            run_statuses(title, before),
            emitted(run_phase(before), title, events.last()),
        );
    }
}

/// The status is no progress, or a progress from 0 to 100.
pub open spec fn within_hundred(status: StatusView) -> bool {
    status matches StatusView::Progress { units, scale, .. } ==> scale >= 1 && units <= 100
        * scale
}

/// Every progress that a line gives is from 0 to 100.
pub proof fn lemma_line_within_hundred(line: Seq<char>)
    ensures
        forall|k: int|
            0 <= k < line_statuses(line).len() ==> within_hundred(
                #[trigger] line_statuses(line)[k],
            ),
{
    match percent_numeral(line) {
        Some(numeral) => {
            lemma_number_scale_positive(numeral);
        },
        None => {},
    }
}

/// No job reports a progress below 0 or above 100, whatever its process
/// prints and whatever else happens to it.
pub proof fn law_progress_within_hundred(title: Seq<char>, events: Seq<JobEventView>)
    ensures
        forall|k: int|
            0 <= k < run_statuses(title, events).len() ==> within_hundred(
                #[trigger] run_statuses(title, events)[k],
            ),
    decreases events.len(),
{
    if events.len() > 0 {
        let before = events.drop_last();
        law_progress_within_hundred(title, before);
        let earlier = run_statuses(title, before);
        let step = emitted(run_phase(before), title, events.last());
        match (run_phase(before), events.last()) {
            (JobPhase::Reading, JobEventView::Line(line)) => {
                lemma_line_within_hundred(line);
            },
            _ => {},
        }
        assert forall|k: int| 0 <= k < run_statuses(title, events).len() implies within_hundred(
            #[trigger] run_statuses(title, events)[k],
        ) by {
            if k < earlier.len() {
                assert(run_statuses(title, events)[k] == earlier[k]);
            } else {
                assert(run_statuses(title, events)[k] == step[k - earlier.len()]);
            }
        }
    }
}

/// While the process only prints, the job stays in the reading phase.
pub proof fn lemma_reading_run(lines: Seq<Seq<char>>)
    ensures
        run_phase(seq![JobEventView::Spawned] + line_events(lines)) == JobPhase::Reading,
    decreases lines.len(),
{
    let events = seq![JobEventView::Spawned] + line_events(lines);
    if lines.len() == 0 {
        assert(events.drop_last() =~= Seq::<JobEventView>::empty());
        assert(run_phase(events.drop_last()) == JobPhase::Launching);
        assert(events.last() == JobEventView::Spawned);
    } else {
        lemma_reading_run(lines.drop_last());
        assert(events.drop_last() =~= seq![JobEventView::Spawned] + line_events(
            lines.drop_last(),
        ));
        assert(events.last() == JobEventView::Line(lines.last()));
    }
}

/// Every run comes to its end. A process that cannot be started ends the
/// job at once; one that was started, printed any lines, closed its output
/// and was waited for ends the job however the wait went: by success, by
/// failure, by being killed, or by an error of the wait itself.
pub proof fn law_run_reaches_done(lines: Seq<Seq<char>>, reason: Seq<char>, end: JobEventView)
    requires
        end is Exited || end is WaitFailed,
    ensures
        run_phase(seq![JobEventView::SpawnFailed(reason)]) == JobPhase::Done,
        run_phase(
            seq![JobEventView::Spawned] + line_events(lines) + seq![
                JobEventView::OutputClosed,
                end,
            ],
        ) == JobPhase::Done,
{
    let failed = seq![JobEventView::SpawnFailed(reason)];
    assert(failed.drop_last() =~= Seq::<JobEventView>::empty());
    assert(run_phase(failed.drop_last()) == JobPhase::Launching);
    assert(failed.last() == JobEventView::SpawnFailed(reason));
    let reading = seq![JobEventView::Spawned] + line_events(lines);
    let closed = reading + seq![JobEventView::OutputClosed];
    let events = reading + seq![JobEventView::OutputClosed, end];
    lemma_reading_run(lines);
    assert(closed.drop_last() =~= reading);
    assert(closed.last() == JobEventView::OutputClosed);
    assert(run_phase(closed) == JobPhase::Waiting);
    assert(events.drop_last() =~= closed);
    assert(events.last() == end);
}

} // verus!
