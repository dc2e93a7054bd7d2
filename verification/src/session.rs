//! The state of the program as its user sees it, apart from how it is
//! drawn: which screen is shown, what was found behind a URL, the queue of
//! downloads and how far it has come. Messages from the workers and
//! commands of the user move it on; what the program has to do in turn
//! comes back as an action.

use crate::config::{format_name, format_named, AppConfig};
use crate::downloader::{DownloadConfig, DownloadFormat, DownloadStatus, StatusView};
use crate::initializer::{
    InitMessage, InitMessageView, InitStatus, InitStatusView, Wording,
};
use crate::percent::Percent;
use crate::playlist::{
    entry_views, text_of, PlaylistInfo, PlaylistInfoView, VideoEntry, VideoEntryView,
};
use crate::text::{chars_of, trim};
use vstd::prelude::*;

verus! {

/// The screen that the program shows.
#[derive(Debug, Clone, Copy, PartialEq, Eq, Structural)]
pub enum AppState {
    /// The tools are being set up.
    Initializing,
    /// The user is asked where downloads go.
    SetPath,
    /// A URL can be entered.
    Input,
    /// The download tool is asked about the URL.
    Analyzing,
    /// What was found is shown, and a download can be started.
    Ready,
    /// The queue is being downloaded.
    Downloading,
    /// The queue has been downloaded.
    Finished,
}

impl AppState {
    /// Whether this is the screen on which a URL is entered.
    pub fn is_input(&self) -> (b: bool)
        ensures
            b == (*self == AppState::Input),
    {
        match self {
            AppState::Input => true,
            _ => false,
        }
    }
}

/// What the line above the progress bar says.
#[derive(Debug, Clone, PartialEq, Eq)]
pub enum ProgressText {
    /// Nothing.
    Empty,
    /// A message of the download, as it is.
    Message(String),
    /// A percentage and the speed.
    Percent(Percent, String),
    /// That the download is being converted.
    Converting,
    /// That the download was stopped.
    Stopped,
    /// That the download failed, and why.
    Error(String),
    /// That the whole queue is done.
    AllCompleted,
    /// That the video of this title is being prepared.
    Preparing(String),
}

/// A `ProgressText` as a mathematical value.
pub enum ProgressTextView {
    Empty,
    Message(Seq<char>),
    Percent { units: nat, scale: nat, label: Seq<char> },
    Converting,
    Stopped,
    Error(Seq<char>),
    AllCompleted,
    Preparing(Seq<char>),
}

impl View for ProgressText {
    type V = ProgressTextView;

    open spec fn view(&self) -> ProgressTextView {
        match self {
            ProgressText::Empty => ProgressTextView::Empty,
            ProgressText::Message(m) => ProgressTextView::Message(m@),
            ProgressText::Percent(p, label) => ProgressTextView::Percent {
                units: p.num(),
                scale: p.den(),
                label: label@,
            },
            ProgressText::Converting => ProgressTextView::Converting,
            ProgressText::Stopped => ProgressTextView::Stopped,
            ProgressText::Error(e) => ProgressTextView::Error(e@),
            ProgressText::AllCompleted => ProgressTextView::AllCompleted,
            ProgressText::Preparing(title) => ProgressTextView::Preparing(title@),
        }
    }
}

/// What went wrong, to be shown until the next attempt.
#[derive(Debug, Clone, PartialEq, Eq)]
pub enum ErrorNote {
    /// The set-up of the tools failed.
    InitFailed(InitMessage),
    /// A message to show as it is.
    Plain(String),
    /// A download failed and the queue stands still; why.
    DownloadPaused(String),
    /// A download was asked for before anything was analysed.
    NeedAnalysis,
    /// A download was asked for with nothing selected.
    NoSelection,
}

/// An `ErrorNote` as a mathematical value.
pub enum ErrorNoteView {
    InitFailed(InitMessageView),
    Plain(Seq<char>),
    DownloadPaused(Seq<char>),
    NeedAnalysis,
    NoSelection,
}

impl View for ErrorNote {
    type V = ErrorNoteView;

    open spec fn view(&self) -> ErrorNoteView {
        match self {
            ErrorNote::InitFailed(m) => ErrorNoteView::InitFailed(m@),
            ErrorNote::Plain(m) => ErrorNoteView::Plain(m@),
            ErrorNote::DownloadPaused(e) => ErrorNoteView::DownloadPaused(e@),
            ErrorNote::NeedAnalysis => ErrorNoteView::NeedAnalysis,
            ErrorNote::NoSelection => ErrorNoteView::NoSelection,
        }
    }
}

/// What the set-up screen says.
#[derive(Debug, Clone, PartialEq, Eq)]
pub enum InitDisplay {
    /// A message of the set-up.
    Message(InitMessage),
    /// That the named file is being downloaded, and how far it is.
    Downloading(Percent, String),
}

/// An `InitDisplay` as a mathematical value.
pub enum InitDisplayView {
    Message(InitMessageView),
    Downloading { units: nat, scale: nat, label: Seq<char> },
}

impl View for InitDisplay {
    type V = InitDisplayView;

    open spec fn view(&self) -> InitDisplayView {
        match self {
            InitDisplay::Message(m) => InitDisplayView::Message(m@),
            InitDisplay::Downloading(p, label) => InitDisplayView::Downloading {
                units: p.num(),
                scale: p.den(),
                label: label@,
            },
        }
    }
}

/// What a worker tells the program.
#[derive(Debug, Clone, PartialEq, Eq)]
pub enum UiMessage {
    /// The set-up of the tools reports.
    InitStatus(InitStatus),
    /// The URL was analysed.
    AnalysisDone(PlaylistInfo),
    /// The URL could not be analysed; why.
    AnalysisFailed(String),
    /// The running download reports.
    DownloadProgress(DownloadStatus),
}

/// A `UiMessage` as a mathematical value.
pub enum UiMessageView {
    InitStatus(InitStatusView),
    AnalysisDone(PlaylistInfoView),
    AnalysisFailed(Seq<char>),
    DownloadProgress(StatusView),
}

impl View for UiMessage {
    type V = UiMessageView;

    open spec fn view(&self) -> UiMessageView {
        match self {
            UiMessage::InitStatus(s) => UiMessageView::InitStatus(s@),
            UiMessage::AnalysisDone(info) => UiMessageView::AnalysisDone(info@),
            UiMessage::AnalysisFailed(e) => UiMessageView::AnalysisFailed(e@),
            UiMessage::DownloadProgress(s) => UiMessageView::DownloadProgress(s@),
        }
    }
}

/// A `DownloadConfig` as a mathematical value.
pub struct DownloadConfigView {
    pub url: Seq<char>,
    pub format: DownloadFormat,
    pub audio_quality: Seq<char>,
    pub output_dir: Seq<char>,
}

/// The mathematical value of a `DownloadConfig`.
pub open spec fn config_view(config: DownloadConfig) -> DownloadConfigView {
    DownloadConfigView {
        url: config.url@,
        format: config.format,
        audio_quality: config.audio_quality@,
        output_dir: config.output_dir@,
    }
}

/// What the program has to do after a message or a command.
#[derive(Debug, Clone, PartialEq, Eq)]
pub enum UiAction {
    /// Nothing.
    Idle,
    /// Ask the download tool about this URL, and send back `AnalysisDone`
    /// or `AnalysisFailed`.
    Analyze(String),
    /// Run this download under this title, and send back each status as
    /// `DownloadProgress`.
    StartJob(DownloadConfig, String),
    /// Tell the running download to stop.
    StopJob,
}

/// A `UiAction` as a mathematical value.
pub enum UiActionView {
    Idle,
    Analyze(Seq<char>),
    StartJob(DownloadConfigView, Seq<char>),
    StopJob,
}

impl View for UiAction {
    type V = UiActionView;

    open spec fn view(&self) -> UiActionView {
        match self {
            UiAction::Idle => UiActionView::Idle,
            UiAction::Analyze(url) => UiActionView::Analyze(url@),
            UiAction::StartJob(config, title) => UiActionView::StartJob(
                config_view(*config),
                title@,
            ),
            UiAction::StopJob => UiActionView::StopJob,
        }
    }
}

/// The state of the program as its user sees it. While a download runs,
/// the queue holds the video that is being downloaded.
#[derive(Debug)]
pub struct Session {
    download_dir: String,
    url: String,
    format: DownloadFormat,
    state: AppState,
    playlist_info: Option<PlaylistInfo>,
    error_msg: Option<ErrorNote>,
    download_queue: Vec<VideoEntry>,
    current_download_idx: usize,
    progress: Percent,
    progress_text: ProgressText,
    stop_requested: bool,
    job_running: bool,
    init_status: InitDisplay,
    init_progress: Percent,
    skip_set_path: bool,
}

/// A `Session` as a mathematical value.
pub struct SessionView {
    /// Where downloads go.
    pub download_dir: Seq<char>,
    /// The URL in the entry field.
    pub url: Seq<char>,
    /// The format chosen.
    pub format: DownloadFormat,
    /// The screen shown.
    pub state: AppState,
    /// What was found behind the URL analysed last.
    pub playlist_info: Option<PlaylistInfoView>,
    /// What went wrong last.
    pub error_msg: Option<ErrorNoteView>,
    /// The videos to download, in order.
    pub download_queue: Seq<VideoEntryView>,
    /// Which of them is being downloaded, or comes next.
    pub current_download_idx: nat,
    /// How far the running download is, as numerator and denominator.
    pub progress: (nat, nat),
    /// The line above the progress bar.
    pub progress_text: ProgressTextView,
    /// Whether the user asked for the running download to stop.
    pub stop_requested: bool,
    /// Whether a download is running.
    pub job_running: bool,
    /// What the set-up screen says.
    pub init_status: InitDisplayView,
    /// How far the set-up's download is, as numerator and denominator.
    pub init_progress: (nat, nat),
    /// Whether the question where downloads go is skipped after the set-up.
    pub skip_set_path: bool,
}

impl View for Session {
    type V = SessionView;

    closed spec fn view(&self) -> SessionView {
        SessionView {
            download_dir: self.download_dir@,
            url: self.url@,
            format: self.format,
            state: self.state,
            playlist_info: match self.playlist_info {
                Some(info) => Some(info@),
                None => None,
            },
            error_msg: match self.error_msg {
                Some(note) => Some(note@),
                None => None,
            },
            download_queue: entry_views(self.download_queue@),
            current_download_idx: self.current_download_idx as nat,
            progress: (self.progress.num(), self.progress.den()),
            progress_text: self.progress_text@,
            stop_requested: self.stop_requested,
            job_running: self.job_running,
            init_status: self.init_status@,
            init_progress: (self.init_progress.num(), self.init_progress.den()),
            skip_set_path: self.skip_set_path,
        }
    }
}

/// While a download runs, the queue holds the video that is being
/// downloaded.
pub open spec fn well_formed(s: SessionView) -> bool {
    s.job_running ==> s.current_download_idx < s.download_queue.len()
}

/// The state and the action after the queue moves on to the video at
/// `current_download_idx`: where there is one, it is prepared and its
/// download is started at the fixed audio quality `320K`; where the queue
/// is at its end, the program shows that all is done.
pub open spec fn next_job(s: SessionView) -> (SessionView, UiActionView) {
    if s.current_download_idx >= s.download_queue.len() {
        (
            SessionView {
                state: AppState::Finished,
                progress_text: ProgressTextView::AllCompleted,
                progress: (100, 1),
                job_running: false,
                ..s
            },
            UiActionView::Idle,
        )
    } else {
        let video = s.download_queue[s.current_download_idx as int];
        (
            SessionView {
                progress: (0, 1),
                progress_text: ProgressTextView::Preparing(video.title),
                job_running: true,
                stop_requested: false,
                ..s
            },
            UiActionView::StartJob(
                DownloadConfigView {
                    url: video.url,
                    format: s.format,
                    audio_quality: "320K"@,
                    output_dir: s.download_dir,
                },
                video.title,
            ),
        )
    }
}

/// The state after a report of the set-up. Its end leads to the question
/// where downloads go, or past it where a place is known; a failure is
/// noted and leads to that question too.
pub open spec fn after_init_status(s: SessionView, status: InitStatusView) -> SessionView {
    match status {
        InitStatusView::Starting(message) => SessionView {
            init_status: InitDisplayView::Message(message),
            init_progress: (0, 1),
            ..s
        },
        InitStatusView::Downloading { units, scale, label } => SessionView {
            init_status: InitDisplayView::Downloading { units, scale, label },
            init_progress: (units, scale),
            ..s
        },
        InitStatusView::Extracting(message) => SessionView {
            init_status: InitDisplayView::Message(message),
            init_progress: (100, 1),
            ..s
        },
        InitStatusView::Completed => SessionView {
            state: if s.skip_set_path {
                AppState::Input
            } else {
                AppState::SetPath
            },
            ..s
        },
        InitStatusView::Failed(message) => SessionView {
            error_msg: Some(ErrorNoteView::InitFailed(message)),
            state: AppState::SetPath,
            ..s
        },
    }
}

/// The state and the action after a report of the running download. Where
/// no download runs, a report changes nothing. `Completed` moves the queue
/// on. `Failed` ends the queue: as stopped where the user had asked for the
/// stop, and else as an error that is noted. `Stopped` ends it as stopped.
pub open spec fn after_download_status(s: SessionView, status: StatusView) -> (
    SessionView,
    UiActionView,
) {
    if !s.job_running {
        (s, UiActionView::Idle)
    } else {
        match status {
            StatusView::Starting(message) => (
                SessionView {
                    progress_text: ProgressTextView::Message(message),
                    progress: (0, 1),
                    ..s
                },
                UiActionView::Idle,
            ),
            StatusView::Progress { units, scale, label } => (
                SessionView {
                    progress: (units, scale),
                    progress_text: ProgressTextView::Percent { units, scale, label },
                    ..s
                },
                UiActionView::Idle,
            ),
            StatusView::Converting => (
                SessionView { progress_text: ProgressTextView::Converting, ..s },
                UiActionView::Idle,
            ),
            StatusView::Completed(_) => next_job(
                SessionView {
                    job_running: false,
                    current_download_idx: s.current_download_idx + 1,
                    ..s
                },
            ),
            StatusView::Failed(reason) => if s.stop_requested {
                (
                    SessionView {
                        state: AppState::Ready,
                        progress_text: ProgressTextView::Stopped,
                        job_running: false,
                        stop_requested: false,
                        ..s
                    },
                    UiActionView::Idle,
                )
            } else {
                (
                    SessionView {
                        state: AppState::Ready,
                        progress_text: ProgressTextView::Error(reason),
                        error_msg: Some(ErrorNoteView::DownloadPaused(reason)),
                        job_running: false,
                        ..s
                    },
                    UiActionView::Idle,
                )
            },
            StatusView::Stopped => (
                SessionView {
                    state: AppState::Ready,
                    progress_text: ProgressTextView::Stopped,
                    job_running: false,
                    stop_requested: false,
                    ..s
                },
                UiActionView::Idle,
            ),
        }
    }
}

/// The state and the action after a message of a worker.
pub open spec fn after_message(s: SessionView, message: UiMessageView) -> (
    SessionView,
    UiActionView,
) {
    match message {
        UiMessageView::InitStatus(status) => (after_init_status(s, status), UiActionView::Idle),
        UiMessageView::AnalysisDone(info) => (
            SessionView { playlist_info: Some(info), state: AppState::Ready, ..s },
            UiActionView::Idle,
        ),
        UiMessageView::AnalysisFailed(reason) => (
            SessionView {
                error_msg: Some(ErrorNoteView::Plain(reason)),
                state: AppState::Input,
                ..s
            },
            UiActionView::Idle,
        ),
        UiMessageView::DownloadProgress(status) => after_download_status(s, status),
    }
}

/// The program offers the analysis: the screen is one of those with the
/// button for it, and the URL holds more than whitespace.
pub open spec fn can_analyze(s: SessionView) -> bool {
    &&& s.state == AppState::Input || s.state == AppState::Ready || s.state
        == AppState::Finished
    &&& crate::text::trim_text(s.url).len() > 0
}

/// The state and the action after the user asks for the URL to be
/// analysed: the program waits for the analysis, and the last note is gone.
pub open spec fn after_analyze(s: SessionView) -> (SessionView, UiActionView) {
    (
        SessionView { state: AppState::Analyzing, error_msg: None, ..s },
        UiActionView::Analyze(s.url),
    )
}

/// The entries that the user has selected, in order.
pub open spec fn selected_entries(entries: Seq<VideoEntryView>) -> Seq<VideoEntryView> {
    entries.filter(|entry: VideoEntryView| entry.selected)
}

/// The state and the action after the user asks for the download to
/// start, on whatever screen. While a download runs nothing happens: there
/// is one download at a time. With nothing analysed, or with nothing
/// selected, the note says so and nothing else changes but the queue. Else
/// the queue is made of the selected entries and its first download starts.
pub open spec fn after_start_download(s: SessionView) -> (SessionView, UiActionView) {
    if s.job_running {
        (s, UiActionView::Idle)
    } else {
        match s.playlist_info {
            None => (
                SessionView { error_msg: Some(ErrorNoteView::NeedAnalysis), ..s },
                UiActionView::Idle,
            ),
            Some(info) => {
                let queue = selected_entries(info.entries);
                if queue.len() == 0 {
                    (
                        SessionView {
                            download_queue: queue,
                            error_msg: Some(ErrorNoteView::NoSelection),
                            ..s
                        },
                        UiActionView::Idle,
                    )
                } else {
                    next_job(
                        SessionView {
                            download_queue: queue,
                            current_download_idx: 0,
                            state: AppState::Downloading,
                            ..s
                        },
                    )
                }
            },
        }
    }
}

/// The state and the action after the user asks for the download to stop.
/// The line above the progress bar says so at once; a running download is
/// told to stop, and the request is kept in mind until that download ends.
pub open spec fn after_stop(s: SessionView) -> (SessionView, UiActionView) {
    if s.job_running {
        (
            SessionView {
                progress_text: ProgressTextView::Stopped,
                stop_requested: true,
                ..s
            },
            UiActionView::StopJob,
        )
    } else {
        (SessionView { progress_text: ProgressTextView::Stopped, ..s }, UiActionView::Idle)
    }
}

/// Downloads run one after another. Whatever message comes in: a download
/// is started only by the message that the running download has completed,
/// and it is the download of the next video in the queue; a message that
/// does not end the running download leaves it running and the queue where
/// it is; and no message starts a download beside a running one.
pub proof fn law_one_download_at_a_time(s: SessionView, message: UiMessageView)
    requires
        well_formed(s),
    ensures
        ({
            let (t, action) = after_message(s, message);
            &&& well_formed(t)
            &&& action is StartJob ==> {
                &&& s.job_running
                &&& message matches UiMessageView::DownloadProgress(status) && status is Completed
                &&& t.job_running
                &&& t.current_download_idx == s.current_download_idx + 1
                &&& t.download_queue == s.download_queue
                &&& action->StartJob_1 == t.download_queue[t.current_download_idx as int].title
                &&& action->StartJob_0.url == t.download_queue[t.current_download_idx as int].url
            }
            &&& !(action is StartJob) && t.job_running ==> s.job_running && t.current_download_idx
                == s.current_download_idx && t.download_queue == s.download_queue
            &&& s.job_running && !(message matches UiMessageView::DownloadProgress(status)
                && crate::downloader::is_terminal(status)) ==> t.job_running
        }),
{
}

/// The user's commands respect the order too: asking for an analysis or
/// for a stop never starts a download, and asking for the download starts
/// one only where none is running.
pub proof fn law_commands_keep_order(s: SessionView)
    requires
        well_formed(s),
    ensures
        well_formed(after_analyze(s).0),
        !(after_analyze(s).1 is StartJob),
        after_analyze(s).0.job_running == s.job_running,
        well_formed(after_stop(s).0),
        !(after_stop(s).1 is StartJob),
        after_stop(s).0.job_running == s.job_running,
        well_formed(after_start_download(s).0),
        after_start_download(s).1 is StartJob ==> !s.job_running && after_start_download(
            s,
        ).0.current_download_idx == 0,
        s.job_running ==> after_start_download(s).0 == s,
{
}

/// Asking for a stop twice is asking once: the second request leaves the
/// state as the first left it. With no download running a request changes
/// only the line above the progress bar and asks nothing of the program.
pub proof fn law_stop_is_idempotent(s: SessionView)
    ensures
        after_stop(after_stop(s).0).0 == after_stop(s).0,
        !s.job_running ==> after_stop(s).1 == UiActionView::Idle && after_stop(s).0 == (
        SessionView { progress_text: ProgressTextView::Stopped, ..s }),
{
}

/// A copy of an entry.
fn copy_entry(entry: &VideoEntry) -> (r: VideoEntry)
    ensures
        r@ == entry@,
{
    VideoEntry {
        id: entry.id.clone(),
        title: entry.title.clone(),
        url: entry.url.clone(),
        thumbnail: match &entry.thumbnail {
            Some(t) => Some(t.clone()),
            None => None,
        },
        duration: entry.duration,
        duration_string: match &entry.duration_string {
            Some(t) => Some(t.clone()),
            None => None,
        },
        selected: entry.selected,
    }
}

/// Copies of the selected entries, in order.
fn copy_selected(entries: &Vec<VideoEntry>) -> (r: Vec<VideoEntry>)
    ensures
        entry_views(r@) == selected_entries(entry_views(entries@)),
{
    let mut out: Vec<VideoEntry> = Vec::new();
    let ghost all = entry_views(entries@);
    let ghost wanted = |entry: VideoEntryView| entry.selected;
    let mut i: usize = 0;
    proof {
        reveal(Seq::filter);
        assert(all.take(0) =~= Seq::<VideoEntryView>::empty());
        assert(entry_views(out@) =~= all.take(0).filter(wanted));
    }
    while i < entries.len()
        invariant
            i <= entries.len(),
            all == entry_views(entries@),
            wanted == (|entry: VideoEntryView| entry.selected),
            entry_views(out@) == all.take(i as int).filter(wanted),
        decreases entries.len() - i,
    {
        let ghost before = entry_views(out@);
        proof {
            all.take(i as int).lemma_filter_push(all[i as int], wanted);
            assert(all.take(i as int).push(all[i as int]) =~= all.take(i + 1));
            assert(all[i as int] == entries@[i as int]@);
        }
        if entries[i].selected {
            let copy = copy_entry(&entries[i]);
            out.push(copy);
            assert(entry_views(out@) =~= before.push(all[i as int]));
        }
        i = i + 1;
    }
    assert(all.take(entries.len() as int) =~= all);
    out
}

impl Session {
    #[verifier::type_invariant]
    spec fn holds_running_job(self) -> bool {
        self.job_running ==> self.current_download_idx < self.download_queue.len()
    }

    /// The state at the program's start, from the settings kept: the set-up
    /// screen, the directory and the format of the settings, nothing
    /// analysed, nothing queued.
    pub open spec fn initial(
        download_dir: Option<Seq<char>>,
        format: Seq<char>,
    ) -> SessionView {
        SessionView {
            download_dir: match download_dir {
                Some(dir) => dir,
                None => Seq::empty(),
            },
            url: Seq::empty(),
            format: format_named(format),
            state: AppState::Initializing,
            playlist_info: None,
            error_msg: None,
            download_queue: Seq::empty(),
            current_download_idx: 0,
            progress: (0, 1),
            progress_text: ProgressTextView::Empty,
            stop_requested: false,
            job_running: false,
            init_status: InitDisplayView::Message(
                InitMessageView::Worded(Wording::Preparing, ""@),
            ),
            init_progress: (0, 1),
            skip_set_path: download_dir is Some,
        }
    }

    /// The state at the program's start, from the settings kept.
    pub fn new(saved: &AppConfig) -> (r: Session)
        ensures
            r@ == Session::initial(text_of(saved.download_dir), saved.format@),
            well_formed(r@),
    {
        let download_dir = match &saved.download_dir {
            Some(dir) => dir.clone(),
            None => String::new(),
        };
        let r = Session {
            download_dir,
            url: String::new(),
            format: AppConfig::string_to_format(saved.format.as_str()),
            state: AppState::Initializing,
            playlist_info: None,
            error_msg: None,
            download_queue: Vec::new(),
            current_download_idx: 0,
            progress: Percent::zero(),
            progress_text: ProgressText::Empty,
            stop_requested: false,
            job_running: false,
            init_status: InitDisplay::Message(
                InitMessage::Worded(Wording::Preparing, "".to_string()),
            ),
            init_progress: Percent::zero(),
            skip_set_path: saved.download_dir.is_some(),
        };
        proof {
            assert(entry_views(r.download_queue@) =~= Seq::<VideoEntryView>::empty());
        }
        r
    }

    /// Moves the queue on to the video at `current_download_idx`.
    fn download_next(&mut self) -> (action: UiAction)
        requires
            !old(self).job_running,
        ensures
            (final(self)@, action@) == next_job(old(self)@),
    {
        if self.current_download_idx >= self.download_queue.len() {
            self.state = AppState::Finished;
            self.progress_text = ProgressText::AllCompleted;
            self.progress = Percent::full();
            UiAction::Idle
        } else {
            let video = &self.download_queue[self.current_download_idx];
            let title = video.title.clone();
            let config = DownloadConfig {
                url: video.url.clone(),
                format: self.format,
                audio_quality: "320K".to_string(),
                output_dir: self.download_dir.clone(),
            };
            self.progress = Percent::zero();
            self.progress_text = ProgressText::Preparing(title.clone());
            self.stop_requested = false;
            self.job_running = true;
            UiAction::StartJob(config, title)
        }
    }

    /// Takes in a report of the set-up.
    fn on_init_status(&mut self, status: InitStatus)
        ensures
            final(self)@ == after_init_status(old(self)@, status@),
    {
        proof {
            use_type_invariant(&*self);
        }
        match status {
            InitStatus::Starting(message) => {
                self.init_status = InitDisplay::Message(message);
                self.init_progress = Percent::zero();
            },
            InitStatus::Downloading(percent, label) => {
                self.init_progress = percent.clone();
                self.init_status = InitDisplay::Downloading(percent, label);
            },
            InitStatus::Extracting(message) => {
                self.init_status = InitDisplay::Message(message);
                self.init_progress = Percent::full();
            },
            InitStatus::Completed => {
                if self.skip_set_path {
                    self.state = AppState::Input;
                } else {
                    self.state = AppState::SetPath;
                }
            },
            InitStatus::Failed(message) => {
                self.error_msg = Some(ErrorNote::InitFailed(message));
                self.state = AppState::SetPath;
            },
        }
    }

    /// Takes in a report of the running download.
    fn on_download_status(&mut self, status: DownloadStatus) -> (action: UiAction)
        ensures
            (final(self)@, action@) == after_download_status(old(self)@, status@),
    {
        proof {
            use_type_invariant(&*self);
        }
        if !self.job_running {
            return UiAction::Idle;
        }
        match status {
            DownloadStatus::Starting(message) => {
                self.progress_text = ProgressText::Message(message);
                self.progress = Percent::zero();
                UiAction::Idle
            },
            DownloadStatus::Progress(percent, label) => {
                self.progress = percent.clone();
                self.progress_text = ProgressText::Percent(percent, label);
                UiAction::Idle
            },
            DownloadStatus::Converting => {
                self.progress_text = ProgressText::Converting;
                UiAction::Idle
            },
            DownloadStatus::Completed(_) => {
                self.job_running = false;
                self.current_download_idx = self.current_download_idx + 1;
                self.download_next()
            },
            DownloadStatus::Failed(reason) => {
                self.job_running = false;
                self.state = AppState::Ready;
                if self.stop_requested {
                    self.progress_text = ProgressText::Stopped;
                    self.stop_requested = false;
                } else {
                    self.progress_text = ProgressText::Error(reason.clone());
                    self.error_msg = Some(ErrorNote::DownloadPaused(reason));
                }
                UiAction::Idle
            },
            DownloadStatus::Stopped => {
                self.job_running = false;
                self.state = AppState::Ready;
                self.progress_text = ProgressText::Stopped;
                self.stop_requested = false;
                UiAction::Idle
            },
        }
    }

    /// Takes in a message of a worker and says what the program has to do.
    pub fn handle_message(&mut self, message: UiMessage) -> (action: UiAction)
        ensures
            (final(self)@, action@) == after_message(old(self)@, message@),
            well_formed(final(self)@),
    {
        proof {
            use_type_invariant(&*self);
        }
        let action = match message {
            UiMessage::InitStatus(status) => {
                self.on_init_status(status);
                UiAction::Idle
            },
            UiMessage::AnalysisDone(info) => {
                self.playlist_info = Some(info);
                self.state = AppState::Ready;
                UiAction::Idle
            },
            UiMessage::AnalysisFailed(reason) => {
                self.error_msg = Some(ErrorNote::Plain(reason));
                self.state = AppState::Input;
                UiAction::Idle
            },
            UiMessage::DownloadProgress(status) => self.on_download_status(status),
        };
        proof {
            use_type_invariant(&*self);
        }
        action
    }

    /// The user asks for the URL to be analysed.
    pub fn start_analysis(&mut self) -> (action: UiAction)
        ensures
            (final(self)@, action@) == after_analyze(old(self)@),
            well_formed(final(self)@),
    {
        proof {
            use_type_invariant(&*self);
        }
        self.state = AppState::Analyzing;
        self.error_msg = None;
        UiAction::Analyze(self.url.clone())
    }

    /// Whether the program offers the analysis: on the screens with the
    /// button for it, once the URL holds more than whitespace.
    pub fn can_analyze(&self) -> (b: bool)
        ensures
            b == can_analyze(self@),
    {
        let offered = match self.state {
            AppState::Input | AppState::Ready | AppState::Finished => true,
            _ => false,
        };
        offered && trim(&chars_of(self.url.as_str())).len() > 0
    }

    /// Whether the program offers the start of the download: on the `Ready`
    /// screen, once something was analysed.
    pub fn can_start_download(&self) -> (b: bool)
        ensures
            b == (self@.state == AppState::Ready && self@.playlist_info is Some),
    {
        let ready = match self.state {
            AppState::Ready => true,
            _ => false,
        };
        ready && self.playlist_info.is_some()
    }

    /// The user asks for the download to start.
    pub fn start_download(&mut self) -> (action: UiAction)
        ensures
            (final(self)@, action@) == after_start_download(old(self)@),
            well_formed(final(self)@),
    {
        proof {
            use_type_invariant(&*self);
        }
        if self.job_running {
            return UiAction::Idle;
        }
        let queue = match &self.playlist_info {
            None => {
                self.error_msg = Some(ErrorNote::NeedAnalysis);
                return UiAction::Idle;
            },
            Some(info) => copy_selected(&info.entries),
        };
        let empty = queue.len() == 0;
        self.download_queue = queue;
        if empty {
            self.error_msg = Some(ErrorNote::NoSelection);
            return UiAction::Idle;
        }
        self.current_download_idx = 0;
        self.state = AppState::Downloading;
        let action = self.download_next();
        proof {
            use_type_invariant(&*self);
        }
        action
    }

    /// The user asks for the download to stop.
    pub fn stop_download(&mut self) -> (action: UiAction)
        ensures
            (final(self)@, action@) == after_stop(old(self)@),
            well_formed(final(self)@),
    {
        proof {
            use_type_invariant(&*self);
        }
        self.progress_text = ProgressText::Stopped;
        if self.job_running {
            self.stop_requested = true;
            UiAction::StopJob
        } else {
            UiAction::Idle
        }
    }
}

/// The entry with its mark set.
pub open spec fn marked(entry: VideoEntryView, selected: bool) -> VideoEntryView {
    VideoEntryView { selected: selected, ..entry }
}

/// What was found, with the mark of every entry set.
pub open spec fn all_marked(info: PlaylistInfoView, selected: bool) -> PlaylistInfoView {
    PlaylistInfoView {
        entries: Seq::new(info.entries.len(), |i: int| marked(info.entries[i], selected)),
        ..info
    }
}

/// What was found, with the mark of the entry at `index` set. An index
/// beyond the entries changes nothing.
pub open spec fn one_marked(info: PlaylistInfoView, index: int, selected: bool)
    -> PlaylistInfoView {
    if 0 <= index < info.entries.len() {
        PlaylistInfoView {
            entries: info.entries.update(index, marked(info.entries[index], selected)),
            ..info
        }
    } else {
        info
    }
}

/// The settings to keep for a state: its directory, its format by name, the
/// fixed audio quality, and the language shown.
pub open spec fn settings_of(s: SessionView, language: Seq<char>) -> (
    Option<Seq<char>>,
    Seq<char>,
    Seq<char>,
    Seq<char>,
) {
    (Some(s.download_dir), format_name(s.format), "320K"@, language)
}

impl Session {
    /// The screen shown.
    pub fn state(&self) -> (r: AppState)
        ensures
            r == self@.state,
    {
        self.state
    }

    /// Where downloads go.
    pub fn download_dir(&self) -> (r: &String)
        ensures
            r@ == self@.download_dir,
    {
        &self.download_dir
    }

    /// The URL in the entry field.
    pub fn url(&self) -> (r: &String)
        ensures
            r@ == self@.url,
    {
        &self.url
    }

    /// The format chosen.
    pub fn format(&self) -> (r: DownloadFormat)
        ensures
            r == self@.format,
    {
        self.format
    }

    /// What was found behind the URL analysed last.
    pub fn playlist_info(&self) -> (r: &Option<PlaylistInfo>)
        ensures
            match *r {
                Some(info) => self@.playlist_info == Some(info@),
                None => self@.playlist_info is None,
            },
    {
        &self.playlist_info
    }

    /// What went wrong last.
    pub fn error_msg(&self) -> (r: &Option<ErrorNote>)
        ensures
            match *r {
                Some(note) => self@.error_msg == Some(note@),
                None => self@.error_msg is None,
            },
    {
        &self.error_msg
    }

    /// The videos to download, in order.
    pub fn download_queue(&self) -> (r: &Vec<VideoEntry>)
        ensures
            entry_views(r@) == self@.download_queue,
    {
        &self.download_queue
    }

    /// Which video of the queue is being downloaded, or comes next.
    pub fn current_download_idx(&self) -> (r: usize)
        ensures
            r == self@.current_download_idx,
    {
        self.current_download_idx
    }

    /// How far the running download is.
    pub fn progress(&self) -> (r: Percent)
        ensures
            (r.num(), r.den()) == self@.progress,
    {
        self.progress.clone()
    }

    /// The line above the progress bar.
    pub fn progress_text(&self) -> (r: &ProgressText)
        ensures
            r@ == self@.progress_text,
    {
        &self.progress_text
    }

    /// Whether the user asked for the running download to stop.
    pub fn stop_requested(&self) -> (r: bool)
        ensures
            r == self@.stop_requested,
    {
        self.stop_requested
    }

    /// Whether a download is running.
    pub fn job_running(&self) -> (r: bool)
        ensures
            r == self@.job_running,
    {
        self.job_running
    }

    /// What the set-up screen says.
    pub fn init_status(&self) -> (r: &InitDisplay)
        ensures
            r@ == self@.init_status,
    {
        &self.init_status
    }

    /// How far the set-up's download is.
    pub fn init_progress(&self) -> (r: Percent)
        ensures
            (r.num(), r.den()) == self@.init_progress,
    {
        self.init_progress.clone()
    }

    /// Whether the question where downloads go is skipped after the set-up.
    pub fn skip_set_path(&self) -> (r: bool)
        ensures
            r == self@.skip_set_path,
    {
        self.skip_set_path
    }

    /// Whether the screen has to be drawn again without waiting for input:
    /// while downloads run, so that progress shows.
    pub fn needs_repaint(&self) -> (r: bool)
        ensures
            r == (self@.state == AppState::Downloading),
    {
        match self.state {
            AppState::Downloading => true,
            _ => false,
        }
    }

    /// The user edits the URL.
    pub fn set_url(&mut self, url: String)
        ensures
            final(self)@ == (SessionView { url: url@, ..old(self)@ }),
            well_formed(final(self)@),
    {
        proof {
            use_type_invariant(&*self);
        }
        self.url = url;
    }

    /// The user chooses a format.
    pub fn set_format(&mut self, format: DownloadFormat)
        ensures
            final(self)@ == (SessionView { format: format, ..old(self)@ }),
            well_formed(final(self)@),
    {
        proof {
            use_type_invariant(&*self);
        }
        self.format = format;
    }

    /// The user chooses where downloads go. On the screen that asks for it,
    /// the choice leads on to the entry of a URL.
    pub fn set_download_dir(&mut self, path: String)
        ensures
            final(self)@ == (SessionView {
                download_dir: path@,
                state: if old(self)@.state == AppState::SetPath {
                    AppState::Input
                } else {
                    old(self)@.state
                },
                ..old(self)@
            }),
            well_formed(final(self)@),
    {
        proof {
            use_type_invariant(&*self);
        }
        self.download_dir = path;
        match self.state {
            AppState::SetPath => {
                self.state = AppState::Input;
            },
            _ => {},
        }
    }

    /// The user goes back from the finished queue to what was found.
    /// Elsewhere nothing happens.
    pub fn back_to_list(&mut self)
        ensures
            final(self)@ == if old(self)@.state == AppState::Finished {
                SessionView {
                    state: AppState::Ready,
                    current_download_idx: 0,
                    progress: (0, 1),
                    ..old(self)@
                }
            } else {
                old(self)@
            },
            well_formed(final(self)@),
    {
        proof {
            use_type_invariant(&*self);
        }
        match self.state {
            AppState::Finished => {
                self.state = AppState::Ready;
                self.current_download_idx = 0;
                self.progress = Percent::zero();
            },
            _ => {},
        }
    }

    /// The user marks all entries, or none.
    pub fn select_all(&mut self, selected: bool)
        ensures
            final(self)@ == (SessionView {
                playlist_info: match old(self)@.playlist_info {
                    Some(info) => Some(all_marked(info, selected)),
                    None => None,
                },
                ..old(self)@
            }),
            well_formed(final(self)@),
    {
        proof {
            use_type_invariant(&*self);
        }
        let changed = match &self.playlist_info {
            None => None,
            Some(info) => {
                let mut entries: Vec<VideoEntry> = Vec::new();
                let mut i: usize = 0;
                while i < info.entries.len()
                    invariant
                        i <= info.entries.len(),
                        entries.len() == i,
                        forall|k: int|
                            0 <= k < i ==> (#[trigger] entries@[k])@ == marked(
                                info.entries@[k]@,
                                selected,
                            ),
                    decreases info.entries.len() - i,
                {
                    let mut entry = copy_entry(&info.entries[i]);
                    entry.selected = selected;
                    entries.push(entry);
                    i = i + 1;
                }
                let r = PlaylistInfo {
                    title: info.title.clone(),
                    entries,
                    is_playlist: info.is_playlist,
                };
                assert(r@.entries =~= all_marked(info@, selected).entries);
                Some(r)
            },
        };
        self.playlist_info = changed;
    }

    /// The user marks one entry, or takes its mark away.
    pub fn set_selected(&mut self, index: usize, selected: bool)
        ensures
            final(self)@ == (SessionView {
                playlist_info: match old(self)@.playlist_info {
                    Some(info) => Some(one_marked(info, index as int, selected)),
                    None => None,
                },
                ..old(self)@
            }),
            well_formed(final(self)@),
    {
        proof {
            use_type_invariant(&*self);
        }
        let changed = match &self.playlist_info {
            None => None,
            Some(info) => {
                let mut entries: Vec<VideoEntry> = Vec::new();
                let mut i: usize = 0;
                while i < info.entries.len()
                    invariant
                        i <= info.entries.len(),
                        entries.len() == i,
                        forall|k: int|
                            0 <= k < i ==> (#[trigger] entries@[k])@ == if k == index {
                                marked(info.entries@[k]@, selected)
                            } else {
                                info.entries@[k]@
                            },
                    decreases info.entries.len() - i,
                {
                    let mut entry = copy_entry(&info.entries[i]);
                    if i == index {
                        entry.selected = selected;
                    }
                    entries.push(entry);
                    i = i + 1;
                }
                let r = PlaylistInfo {
                    title: info.title.clone(),
                    entries,
                    is_playlist: info.is_playlist,
                };
                assert(r@.entries =~= one_marked(info@, index as int, selected).entries);
                Some(r)
            },
        };
        self.playlist_info = changed;
    }

    /// The settings to keep, with the language that is shown.
    pub fn config_to_save(&self, language: &str) -> (r: AppConfig)
        ensures
            (text_of(r.download_dir), r.format@, r.audio_quality@, r.language@) == settings_of(
                self@,
                language@,
            ),
    {
        AppConfig {
            download_dir: Some(self.download_dir.clone()),
            format: AppConfig::format_to_string(&self.format),
            audio_quality: "320K".to_string(),
            language: language.to_string(),
        }
    }
}

impl UiMessage {
    /// The message that reports an analysis, from its result.
    pub fn of_analysis(result: Result<PlaylistInfo, String>) -> (r: UiMessage)
        ensures
            r@ == match result {
                Ok(info) => UiMessageView::AnalysisDone(info@),
                Err(reason) => UiMessageView::AnalysisFailed(reason@),
            },
    {
        match result {
            Ok(info) => UiMessage::AnalysisDone(info),
            Err(reason) => UiMessage::AnalysisFailed(reason),
        }
    }
}

} // verus!
