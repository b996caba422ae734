//! The state of an interactive session: what the keys do to it, and what the events of a
//! running worker do to it.
use crate::modes::first_focus;
use crate::modes::initial_focus;
use crate::modes::{DownloadMode, FocusField, RunMode};
use crate::text::{all_digits, is_control, is_digit, lemma_texts_newest, lemma_texts_push, newest, texts, trimmed};
use crate::text::{control, digit, join2, join3, keep_newest, trim};
use vstd::prelude::*;

verus! {

// ---------------------------------------------------------------------------
// What a run reports
// ---------------------------------------------------------------------------

/// The figures of a finished run.
#[derive(Debug)]
pub struct RunSummary {
    pub target_label: String,
    pub steam_path: String,
    pub output_path: String,
    pub app_count: usize,
    pub lua_files: usize,
    pub depot_ids: Vec<String>,
    pub failed_apps: usize,
    pub recent_errors: Vec<String>,
    pub total: usize,
    pub downloaded: usize,
    pub skipped: usize,
    pub unavailable: usize,
    pub failed: usize,
    pub downloaded_bytes: u64,
    pub elapsed: String,
}

/// The contents of a `RunSummary`.
#[verifier::ext_equal]
pub struct SummaryView {
    pub target_label: Seq<char>,
    pub steam_path: Seq<char>,
    pub output_path: Seq<char>,
    pub app_count: usize,
    pub lua_files: usize,
    pub depot_ids: Seq<Seq<char>>,
    pub failed_apps: usize,
    pub recent_errors: Seq<Seq<char>>,
    pub total: usize,
    pub downloaded: usize,
    pub skipped: usize,
    pub unavailable: usize,
    pub failed: usize,
    pub downloaded_bytes: u64,
    pub elapsed: Seq<char>,
}

impl View for RunSummary {
    type V = SummaryView;

    open spec fn view(&self) -> SummaryView {
        SummaryView {
            target_label: self.target_label@,
            steam_path: self.steam_path@,
            output_path: self.output_path@,
            app_count: self.app_count,
            lua_files: self.lua_files,
            depot_ids: texts(self.depot_ids@),
            failed_apps: self.failed_apps,
            recent_errors: texts(self.recent_errors@),
            total: self.total,
            downloaded: self.downloaded,
            skipped: self.skipped,
            unavailable: self.unavailable,
            failed: self.failed,
            downloaded_bytes: self.downloaded_bytes,
            elapsed: self.elapsed@,
        }
    }
}

/// What a worker tells the session.
pub enum WorkerEvent {
    Reset,
    Log(String),
    Status(String),
    Progress(u16),
    Summary(RunSummary),
    Finished,
    Failed(String),
}

/// The contents of a `WorkerEvent`.
#[verifier::ext_equal]
pub enum EventView {
    Reset,
    Log(Seq<char>),
    Status(Seq<char>),
    Progress(u16),
    Summary(SummaryView),
    Finished,
    Failed(Seq<char>),
}

impl View for WorkerEvent {
    type V = EventView;

    open spec fn view(&self) -> EventView {
        match *self {
            WorkerEvent::Reset => EventView::Reset,
            WorkerEvent::Log(line) => EventView::Log(line@),
            WorkerEvent::Status(status) => EventView::Status(status@),
            WorkerEvent::Progress(progress) => EventView::Progress(progress),
            WorkerEvent::Summary(summary) => EventView::Summary(summary@),
            WorkerEvent::Finished => EventView::Finished,
            WorkerEvent::Failed(error) => EventView::Failed(error@),
        }
    }
}

/// The contents of a sequence of events.
pub open spec fn event_views(events: Seq<WorkerEvent>) -> Seq<EventView> {
    Seq::new(events.len(), |i: int| events[i]@)
}

/// What the user asks a worker to do.
pub struct RunRequest {
    pub mode: DownloadMode,
    pub run_mode: RunMode,
    pub app_id: String,
    pub api_key: String,
}

/// The contents of a `RunRequest`.
#[verifier::ext_equal]
pub struct RequestView {
    pub mode: DownloadMode,
    pub run_mode: RunMode,
    pub app_id: Seq<char>,
    pub api_key: Seq<char>,
}

impl View for RunRequest {
    type V = RequestView;

    open spec fn view(&self) -> RequestView {
        RequestView {
            mode: self.mode,
            run_mode: self.run_mode,
            app_id: self.app_id@,
            api_key: self.api_key@,
        }
    }
}

// ---------------------------------------------------------------------------
// The session
// ---------------------------------------------------------------------------

/// An interactive session. `lua_dir` is the directory that the user named for the Lua
/// files, as it is shown to them.
pub struct App {
    pub mode: DownloadMode,
    pub run_mode: RunMode,
    pub focus: FocusField,
    pub app_id: String,
    pub api_key: String,
    pub logs: Vec<String>,
    pub status: String,
    pub progress: u16,
    pub busy: bool,
    pub summary: Option<RunSummary>,
    pub lua_dir: Option<String>,
}

/// The contents of an `App`.
#[verifier::ext_equal]
pub struct AppView {
    pub mode: DownloadMode,
    pub run_mode: RunMode,
    pub focus: FocusField,
    pub app_id: Seq<char>,
    pub api_key: Seq<char>,
    pub logs: Seq<Seq<char>>,
    pub status: Seq<char>,
    pub progress: u16,
    pub busy: bool,
    pub summary: Option<SummaryView>,
    pub lua_dir: Option<Seq<char>>,
}

impl View for App {
    type V = AppView;

    open spec fn view(&self) -> AppView {
        AppView {
            mode: self.mode,
            run_mode: self.run_mode,
            focus: self.focus,
            app_id: self.app_id@,
            api_key: self.api_key@,
            logs: texts(self.logs@),
            status: self.status@,
            progress: self.progress,
            busy: self.busy,
            summary: match self.summary {
                Some(summary) => Some(summary@),
                None => None,
            },
            lua_dir: match self.lua_dir {
                Some(path) => Some(path@),
                None => None,
            },
        }
    }
}

/// The number of log lines that a session keeps.
pub const LOG_LIMIT: usize = 200;

/// The number of bytes at which an app id takes no further digit.
pub const APP_ID_LIMIT: usize = 12;

impl AppView {
    /// The log with one more line; only the newest lines are kept.
    pub open spec fn logged(self, line: Seq<char>) -> AppView {
        AppView { logs: newest(self.logs.push(line), LOG_LIMIT as nat), ..self }
    }

    /// The log with a line on the Lua directory, where the user named one.
    pub open spec fn lua_dir_logged(self) -> AppView {
        match self.lua_dir {
            Some(path) => self.logged("[*] Custom Lua directory: "@ + path),
            None => self,
        }
    }

    /// A session that has just been opened.
    pub open spec fn opened(lua_dir: Option<Seq<char>>) -> AppView {
        AppView {
            mode: DownloadMode::Github,
            run_mode: RunMode::SingleApp,
            focus: FocusField::AppId,
            app_id: Seq::empty(),
            api_key: Seq::empty(),
            logs: Seq::empty(),
            status: "Enter a Steam AppID and press Enter."@,
            progress: 0,
            busy: false,
            summary: None,
            lua_dir,
        }.logged("[*] Steam manifest downloader ready."@).lua_dir_logged()
    }

    /// The invitation to start a run.
    pub open spec fn invitation(self) -> Seq<char> {
        if self.run_mode.wants_app_id() {
            "Enter a Steam AppID and press Enter."@
        } else {
            "Press Enter to scan every Lua file in "@ + (match self.lua_dir {
                Some(path) => path,
                None => "stplug-in"@,
            }) + "."@
        }
    }

    /// The session made ready for another run: the modes and the API key stay.
    pub open spec fn reset(self) -> AppView {
        AppView {
            app_id: Seq::empty(),
            logs: Seq::empty(),
            summary: None,
            status: self.invitation(),
            progress: 0,
            focus: initial_focus(self.mode, self.run_mode),
            ..self
        }.logged("[*] Session reset."@).lua_dir_logged()
    }

    /// The session after an event of the worker.
    pub open spec fn informed(self, event: EventView) -> AppView {
        match event {
            EventView::Reset => AppView {
                logs: Seq::empty(),
                summary: None,
                progress: 0,
                ..self
            },
            EventView::Log(line) => self.logged(line),
            EventView::Status(status) => AppView { status, ..self },
            EventView::Progress(progress) => AppView { progress, ..self },
            EventView::Summary(summary) => AppView { summary: Some(summary), ..self },
            EventView::Finished => AppView { busy: false, ..self },
            EventView::Failed(error) => AppView {
                status: "Error: "@ + error,
                busy: false,
                ..self.logged("[-] "@ + error)
            },
        }
    }

    /// The session after a sequence of events.
    pub open spec fn informed_all(self, events: Seq<EventView>) -> AppView
        decreases events.len(),
    {
        if events.len() == 0 {
            self
        } else {
            self.informed_all(events.drop_last()).informed(events.last())
        }
    }

    /// The session with the next source chosen. The focus leaves the API key where no
    /// key is asked for any more.
    pub open spec fn source_switched(self) -> AppView {
        let mode = self.mode.following();
        AppView {
            mode,
            focus: if mode.wants_api_key() {
                self.focus
            } else {
                FocusField::AppId
            },
            status: "Selected source: "@ + mode.label_text(),
            ..self
        }
    }

    /// The session with the next run mode chosen.
    pub open spec fn run_mode_switched(self) -> AppView {
        let run_mode = self.run_mode.following();
        AppView {
            run_mode,
            focus: initial_focus(self.mode, run_mode),
            status: "Selected run mode: "@ + run_mode.label_text(),
            ..self
        }
    }

    /// The session with the last character of the input removed.
    pub open spec fn erased(self) -> AppView {
        match self.focus {
            FocusField::AppId => AppView {
                app_id: if self.app_id.len() > 0 {
                    self.app_id.drop_last()
                } else {
                    self.app_id
                },
                ..self
            },
            FocusField::ApiKey => AppView {
                api_key: if self.api_key.len() > 0 {
                    self.api_key.drop_last()
                } else {
                    self.api_key
                },
                ..self
            },
        }
    }

    /// The session with one character typed: an app id takes digits, as long as there
    /// is room; an API key takes everything but control codes.
    pub open spec fn typed(self, c: char) -> AppView {
        match self.focus {
            FocusField::AppId => if is_digit(c) && vstd::utf8::encode_utf8(self.app_id).len()
                < APP_ID_LIMIT {
                AppView { app_id: self.app_id.push(c), ..self }
            } else {
                self
            },
            FocusField::ApiKey => if !is_control(c) {
                AppView { api_key: self.api_key.push(c), ..self }
            } else {
                self
            },
        }
    }

    /// The run that the session asks for.
    pub open spec fn request(self) -> RequestView {
        RequestView {
            mode: self.mode,
            run_mode: self.run_mode,
            app_id: trimmed(self.app_id),
            api_key: trimmed(self.api_key),
        }
    }

    /// The session after a key was pressed. While a worker is busy no key changes it.
    pub open spec fn after_key(self, key: Key) -> AppView {
        if self.busy {
            self
        } else {
            match key {
                Key::Esc => self,
                Key::Tab => AppView {
                    focus: self.focus.following(self.mode, self.run_mode),
                    ..self
                },
                Key::Function(2) => self.source_switched(),
                Key::Function(3) => self.run_mode_switched(),
                Key::Function(_) => self,
                Key::Char('r') => self.reset(),
                Key::Char('R') => self.reset(),
                Key::Backspace => self.erased(),
                Key::Enter => AppView { busy: true, ..self },
                Key::Char(c) => self.typed(c),
                Key::Other => self,
            }
        }
    }

    /// What a key asks the program to do.
    pub open spec fn key_action(self, key: Key) -> ActionView {
        match key {
            Key::Esc => ActionView::Quit,
            Key::Enter => if self.busy {
                ActionView::Stay
            } else {
                ActionView::Start(self.request())
            },
            _ => ActionView::Stay,
        }
    }

    /// What holds of every session: the log is bounded, an app id is a short string of
    /// digits, an API key holds no control code, and the focus is on the API key only
    /// where one is asked for.
    pub open spec fn consistent(self) -> bool {
        &&& self.logs.len() <= LOG_LIMIT
        &&& all_digits(self.app_id)
        &&& self.app_id.len() <= APP_ID_LIMIT
        &&& forall|i: int| 0 <= i < self.api_key.len() ==> !is_control(#[trigger] self.api_key[i])
        &&& self.focus == FocusField::ApiKey ==> self.mode.wants_api_key()
    }
}

/// The keys that a session knows.
#[derive(Clone, Copy, Debug, PartialEq, Eq)]
pub enum Key {
    Esc,
    Tab,
    Function(u8),
    Backspace,
    Enter,
    Char(char),
    Other,
}

/// What a key asks the program to do.
pub enum KeyAction {
    Stay,
    Quit,
    Start(RunRequest),
}

/// The contents of a `KeyAction`.
#[verifier::ext_equal]
pub enum ActionView {
    Stay,
    Quit,
    Start(RequestView),
}

impl View for KeyAction {
    type V = ActionView;

    open spec fn view(&self) -> ActionView {
        match *self {
            KeyAction::Stay => ActionView::Stay,
            KeyAction::Quit => ActionView::Quit,
            KeyAction::Start(request) => ActionView::Start(request@),
        }
    }
}

impl App {
    /// Opens a session.
    pub fn new(lua_dir: Option<String>) -> (app: App)
        ensures
            app@ == AppView::opened(
                match lua_dir {
                    Some(path) => Some(path@),
                    None => None,
                },
            ),
    {
        let mut app: App = App {
            mode: DownloadMode::Github,
            run_mode: RunMode::SingleApp,
            focus: FocusField::AppId,
            app_id: String::new(),
            api_key: String::new(),
            logs: Vec::new(),
            status: "Enter a Steam AppID and press Enter.".to_owned(),
            progress: 0,
            busy: false,
            summary: None,
            lua_dir,
        };
        assert(texts(app.logs@) =~= Seq::<Seq<char>>::empty());
        app.push_log("[*] Steam manifest downloader ready.".to_owned());
        app.log_lua_dir();
        app
    }

    /// Adds a line to the log.
    pub fn push_log(&mut self, message: String)
        ensures
            final(self)@ == old(self)@.logged(message@),
    {
        proof {
            lemma_texts_push(self.logs@, message);
            lemma_texts_newest(self.logs@.push(message), LOG_LIMIT as nat);
        }
        self.logs.push(message);
        keep_newest(&mut self.logs, LOG_LIMIT);
    }

    /// Adds a line on the Lua directory to the log, where the user named one.
    fn log_lua_dir(&mut self)
        ensures
            final(self)@ == old(self)@.lua_dir_logged(),
    {
        let line: Option<String> = match &self.lua_dir {
            Some(path) => Some(join2("[*] Custom Lua directory: ", path.as_str())),
            None => None,
        };
        if let Some(line) = line {
            self.push_log(line);
        }
    }

    /// Makes the session ready for another run.
    pub fn reset_for_next_run(&mut self)
        ensures
            final(self)@ == old(self)@.reset(),
    {
        self.app_id = String::new();
        self.logs = Vec::new();
        self.summary = None;
        self.status = if self.run_mode.needs_app_id() {
            "Enter a Steam AppID and press Enter.".to_owned()
        } else {
            match &self.lua_dir {
                Some(path) => join3("Press Enter to scan every Lua file in ", path.as_str(), "."),
                None => join3("Press Enter to scan every Lua file in ", "stplug-in", "."),
            }
        };
        self.progress = 0;
        self.focus = first_focus(self.mode, self.run_mode);
        assert(texts(self.logs@) =~= Seq::<Seq<char>>::empty());
        self.push_log("[*] Session reset.".to_owned());
        self.log_lua_dir();
    }

    /// The text of the field that has the focus.
    pub fn current_input(&mut self) -> (input: &mut String)
        ensures
            old(self).focus == FocusField::AppId ==> *input == old(self).app_id && *final(self) == (
            App { app_id: *final(input), ..*old(self) }),
            old(self).focus == FocusField::ApiKey ==> *input == old(self).api_key && *final(self)
                == (App { api_key: *final(input), ..*old(self) }),
    {
        match self.focus {
            FocusField::AppId => &mut self.app_id,
            FocusField::ApiKey => &mut self.api_key,
        }
    }

    /// The run that the session asks for.
    fn run_request(&self) -> (request: RunRequest)
        ensures
            request@ == self@.request(),
    {
        RunRequest {
            mode: self.mode,
            run_mode: self.run_mode,
            app_id: trim(self.app_id.as_str()),
            api_key: trim(self.api_key.as_str()),
        }
    }

    /// Takes a key event. Events other than presses change nothing.
    pub fn handle_key(&mut self, key: Key, pressed: bool) -> (action: KeyAction)
        ensures
            pressed ==> final(self)@ == old(self)@.after_key(key) && action@
                == old(self)@.key_action(key),
            !pressed ==> final(self)@ == old(self)@ && action is Stay,
    {
        if !pressed {
            return KeyAction::Stay;
        }
        if let Key::Esc = key {
            return KeyAction::Quit;
        }
        if self.busy {
            return KeyAction::Stay;
        }
        match key {
            Key::Esc => KeyAction::Quit,
            Key::Tab => {
                self.focus = self.focus.next(self.mode, self.run_mode);
                KeyAction::Stay
            },
            Key::Function(n) => {
                if n == 2 {
                    self.mode = self.mode.next();
                    if !self.mode.needs_api_key() && !self.run_mode.needs_app_id() {
                        self.focus = FocusField::AppId;
                    } else if !self.mode.needs_api_key() && self.focus == FocusField::ApiKey {
                        self.focus = FocusField::AppId;
                    }
                    self.status = join2("Selected source: ", self.mode.label());
                } else if n == 3 {
                    self.run_mode = self.run_mode.next();
                    self.focus = first_focus(self.mode, self.run_mode);
                    self.status = join2("Selected run mode: ", self.run_mode.label());
                }
                KeyAction::Stay
            },
            Key::Backspace => {
                let input: &mut String = self.current_input();
                let _: Option<char> = input.pop();
                KeyAction::Stay
            },
            Key::Enter => {
                let request: RunRequest = self.run_request();
                self.busy = true;
                KeyAction::Start(request)
            },
            Key::Char(c) => {
                if c == 'r' || c == 'R' {
                    self.reset_for_next_run();
                } else if self.focus == FocusField::AppId {
                    if digit(c) && self.app_id.as_str().as_bytes().len() < APP_ID_LIMIT {
                        self.app_id.push(c);
                    }
                } else if !control(c) {
                    self.api_key.push(c);
                }
                KeyAction::Stay
            },
            Key::Other => KeyAction::Stay,
        }
    }
}

/// Takes an event of the worker into the session. The result tells whether the worker
/// is done.
pub fn apply_worker_event(app: &mut App, event: WorkerEvent) -> (done: bool)
    ensures
        final(app)@ == old(app)@.informed(event@),
        done == (event@ is Finished || event@ is Failed),
{
    match event {
        WorkerEvent::Reset => {
            app.logs = Vec::new();
            app.summary = None;
            app.progress = 0;
            assert(texts(app.logs@) =~= Seq::<Seq<char>>::empty());
        },
        WorkerEvent::Log(line) => app.push_log(line),
        WorkerEvent::Status(status) => {
            app.status = status;
        },
        WorkerEvent::Progress(progress) => {
            app.progress = progress;
        },
        WorkerEvent::Summary(summary) => {
            app.summary = Some(summary);
        },
        WorkerEvent::Finished => {
            app.busy = false;
            return true;
        },
        WorkerEvent::Failed(error) => {
            app.push_log(join2("[-] ", error.as_str()));
            app.status = join2("Error: ", error.as_str());
            app.busy = false;
            return true;
        },
    }
    false
}

/// Takes the pending events of the worker into the session, in order. The result tells
/// whether the last of them says that the worker is done.
pub fn apply_worker_events(app: &mut App, events: Vec<WorkerEvent>) -> (done: bool)
    ensures
        final(app)@ == old(app)@.informed_all(event_views(events@)),
        done == (events@.len() > 0 && (events@.last()@ is Finished || events@.last()@ is Failed)),
{
    let mut pending: Vec<WorkerEvent> = events;
    let mut done: bool = false;
    let ghost all = event_views(events@);
    let ghost mut n: int = 0;
    assert(all.take(0) =~= Seq::<EventView>::empty());
    while pending.len() > 0
        invariant
            0 <= n <= events@.len(),
            pending@ == events@.skip(n),
            all == event_views(events@),
            app@ == old(app)@.informed_all(all.take(n)),
            done == (n > 0 && (events@[n - 1]@ is Finished || events@[n - 1]@ is Failed)),
        decreases pending@.len(),
    {
        let event: WorkerEvent = pending.remove(0);
        proof {
            assert(event@ == all[n]);
            assert(all.take(n + 1).drop_last() =~= all.take(n));
            assert(pending@ =~= events@.skip(n + 1));
            n = n + 1;
        }
        done = apply_worker_event(app, event);
    }
    assert(all.take(n) =~= all);
    done
}

// ---------------------------------------------------------------------------
// Laws
// ---------------------------------------------------------------------------

/// A session is consistent from the start.
pub proof fn law_opened_session_is_consistent(lua_dir: Option<Seq<char>>)
    ensures
        AppView::opened(lua_dir).consistent(),
{
}

/// No key breaks the consistency of a session.
pub proof fn law_keys_keep_consistency(app: AppView, key: Key)
    requires
        app.consistent(),
    ensures
        app.after_key(key).consistent(),
{
    assert forall|c: char| app.typed(c).consistent() by {
        assert(vstd::utf8::is_ascii_chars(app.app_id)) by {
            assert forall|i: int| 0 <= i < app.app_id.len() implies 0
                <= #[trigger] app.app_id[i] as nat <= 127 by {
                assert(is_digit(app.app_id[i]));
            }
        }
        vstd::utf8::is_ascii_chars_encode_utf8(app.app_id);
    }
}

/// No event of a worker breaks the consistency of a session.
pub proof fn law_events_keep_consistency(app: AppView, event: EventView)
    requires
        app.consistent(),
    ensures
        app.informed(event).consistent(),
{
}

/// No sequence of events breaks the consistency of a session.
pub proof fn law_event_sequences_keep_consistency(app: AppView, events: Seq<EventView>)
    requires
        app.consistent(),
    ensures
        app.informed_all(events).consistent(),
    decreases events.len(),
{
    if events.len() > 0 {
        law_event_sequences_keep_consistency(app, events.drop_last());
        law_events_keep_consistency(app.informed_all(events.drop_last()), events.last());
    }
}

/// While a worker is busy no key but Esc has any effect, and Esc only quits.
pub proof fn law_busy_session_ignores_keys(app: AppView, key: Key)
    requires
        app.busy,
    ensures
        app.after_key(key) == app,
        key != Key::Esc ==> app.key_action(key) == ActionView::Stay,
{
}

/// A session becomes busy exactly when it starts a run.
pub proof fn law_busy_means_started(app: AppView, key: Key)
    requires
        !app.busy,
    ensures
        app.after_key(key).busy <==> app.key_action(key) is Start,
{
}

/// A worker that is done leaves the session ready for keys; a worker that is not done
/// leaves the session as busy as it was.
pub proof fn law_done_means_ready(app: AppView, event: EventView)
    ensures
        (event is Finished || event is Failed) ==> !app.informed(event).busy,
        !(event is Finished || event is Failed) ==> app.informed(event).busy == app.busy,
{
}

/// A reset forgets the last run and keeps the choices: the modes, the API key and the
/// Lua directory.
pub proof fn law_reset_keeps_the_choices(app: AppView)
    ensures
        app.reset().mode == app.mode,
        app.reset().run_mode == app.run_mode,
        app.reset().api_key == app.api_key,
        app.reset().lua_dir == app.lua_dir,
        app.reset().app_id.len() == 0,
        app.reset().summary is None,
        app.reset().progress == 0,
        app.reset().reset() == app.reset(),
{
}

/// Switching the source twice, or the run mode twice, restores the mode.
pub proof fn law_switches_cycle(app: AppView)
    ensures
        app.source_switched().source_switched().mode == app.mode,
        app.run_mode_switched().run_mode_switched().run_mode == app.run_mode,
{
}

/// Erasing takes back the character that was typed.
pub proof fn law_erase_undoes_typing(app: AppView, c: char)
    requires
        app.typed(c) != app,
    ensures
        app.typed(c).erased() == app,
{
    match app.focus {
        FocusField::AppId => {
            assert(app.app_id.push(c).drop_last() =~= app.app_id);
        },
        FocusField::ApiKey => {
            assert(app.api_key.push(c).drop_last() =~= app.api_key);
        },
    }
}

/// No event tells of a progress beyond 100.
pub open spec fn in_percent(events: Seq<EventView>) -> bool {
    forall|i: int|
        0 <= i < events.len() ==> ((#[trigger] events[i]) matches EventView::Progress(progress)
            ==> progress <= 100)
}

/// The progress of a session stays a percentage, as long as the events tell of one.
pub proof fn law_progress_is_a_percentage(app: AppView, events: Seq<EventView>)
    requires
        app.progress <= 100,
        in_percent(events),
    ensures
        app.informed_all(events).progress <= 100,
    decreases events.len(),
{
    if events.len() > 0 {
        let head = events.drop_last();
        assert forall|i: int| 0 <= i < head.len() implies ((
        #[trigger] head[i]) matches EventView::Progress(progress) ==> progress <= 100) by {
            assert(head[i] == events[i]);
        }
        law_progress_is_a_percentage(app, head);
        assert(events[events.len() - 1] == events.last());
    }
}

/// Each key does one thing to a session that is not busy, and leaves everything else as it
/// is.
pub proof fn law_each_key_has_its_effect(app: AppView, n: u8)
    requires
        !app.busy,
    ensures
        app.after_key(Key::Esc) == app && app.after_key(Key::Other) == app,
        n != 2 && n != 3 ==> app.after_key(Key::Function(n)) == app,
        app.after_key(Key::Tab) == (AppView {
            focus: match (app.mode, app.run_mode, app.focus) {
                (DownloadMode::Github, _, _) => FocusField::AppId,
                (DownloadMode::GithubExternal, RunMode::FullRebase, _) => FocusField::ApiKey,
                (DownloadMode::GithubExternal, RunMode::SingleApp, FocusField::AppId) => {
                    FocusField::ApiKey
                },
                (DownloadMode::GithubExternal, RunMode::SingleApp, FocusField::ApiKey) => {
                    FocusField::AppId
                },
            },
            ..app
        }),
        app.mode is Github ==> app.after_key(Key::Function(2)) == (AppView {
            mode: DownloadMode::GithubExternal,
            status: "Selected source: "@ + "GitHub + External Site"@,
            ..app
        }),
        app.mode is GithubExternal ==> app.after_key(Key::Function(2)) == (AppView {
            mode: DownloadMode::Github,
            focus: FocusField::AppId,
            status: "Selected source: "@ + "GitHub only"@,
            ..app
        }),
        app.run_mode is SingleApp ==> app.after_key(Key::Function(3)) == (AppView {
            run_mode: RunMode::FullRebase,
            focus: if app.mode is Github {
                FocusField::AppId
            } else {
                FocusField::ApiKey
            },
            status: "Selected run mode: "@ + "Full Rebase"@,
            ..app
        }),
        app.run_mode is FullRebase ==> app.after_key(Key::Function(3)) == (AppView {
            run_mode: RunMode::SingleApp,
            focus: FocusField::AppId,
            status: "Selected run mode: "@ + "Single App"@,
            ..app
        }),
        app.after_key(Key::Enter) == (AppView { busy: true, ..app }),
        app.after_key(Key::Char('r')) == app.after_key(Key::Char('R')),
        app.after_key(Key::Char('r')) == app.reset(),
{
}

/// A character that is typed goes to the end of the field with the focus. An app id of
/// fewer than twelve bytes takes digits; an API key of any length takes every character that
/// is no control code. Nothing else changes.
pub proof fn law_typing_appends(app: AppView, c: char)
    requires
        !app.busy,
        c != 'r' && c != 'R',
    ensures
        app.after_key(Key::Char(c)) == (AppView {
            app_id: if app.focus is AppId && '0' <= c <= '9' && vstd::utf8::encode_utf8(
                app.app_id,
            ).len() < 12 {
                app.app_id + seq![c]
            } else {
                app.app_id
            },
            api_key: if app.focus is ApiKey && !(c as u32 <= 0x1f || 0x7f <= c as u32 <= 0x9f) {
                app.api_key + seq![c]
            } else {
                app.api_key
            },
            ..app
        }),
{
    assert(app.app_id + seq![c] =~= app.app_id.push(c));
    assert(app.api_key + seq![c] =~= app.api_key.push(c));
}

/// Backspace takes the last character away from the field with the focus, and changes
/// nothing else.
pub proof fn law_backspace_takes_the_last(app: AppView, head: Seq<char>, c: char)
    requires
        !app.busy,
    ensures
        app.focus is AppId && app.app_id == head + seq![c] ==> app.after_key(Key::Backspace) == (
        AppView { app_id: head, ..app }),
        app.focus is ApiKey && app.api_key == head + seq![c] ==> app.after_key(Key::Backspace) == (
        AppView { api_key: head, ..app }),
        app.focus is AppId && app.app_id == Seq::<char>::empty() ==> app.after_key(Key::Backspace)
            == app,
        app.focus is ApiKey && app.api_key == Seq::<char>::empty() ==> app.after_key(Key::Backspace)
            == app,
{
    assert((head + seq![c]).drop_last() =~= head);
}

/// Esc quits, Enter starts the run that the fields describe unless one is on its way, and no
/// other key asks for anything.
pub proof fn law_each_key_has_its_action(app: AppView, key: Key)
    ensures
        app.key_action(Key::Esc) is Quit,
        app.busy ==> app.key_action(Key::Enter) is Stay,
        !app.busy ==> app.key_action(Key::Enter) == ActionView::Start(
            RequestView {
                mode: app.mode,
                run_mode: app.run_mode,
                app_id: trimmed(app.app_id),
                api_key: trimmed(app.api_key),
            },
        ),
        key != Key::Esc && key != Key::Enter ==> app.key_action(key) is Stay,
{
}

/// One more line in the log: it comes last, the lines before it keep their order, and at
/// most two hundred are kept. Nothing else changes.
pub proof fn law_log_keeps_the_newest_lines(app: AppView, line: Seq<char>, i: int)
    ensures
        app.logged(line) == (AppView { logs: app.logged(line).logs, ..app }),
        app.logs.len() < 200 ==> app.logged(line).logs == app.logs + seq![line],
        app.logs.len() >= 200 ==> app.logged(line).logs.len() == 200,
        app.logged(line).logs.last() == line,
        app.logs.len() >= 200 && 0 <= i < 199 ==> app.logged(line).logs[i]
            == app.logs[app.logs.len() - 199 + i],
{
    assert(app.logs + seq![line] =~= app.logs.push(line));
    if app.logs.len() < 200 {
        assert(app.logged(line).logs =~= app.logs + seq![line]);
    }
}

/// What a session shows when it is opened, and after it was made ready for another run.
pub proof fn law_fresh_session(app: AppView, path: Seq<char>)
    ensures
        AppView::opened(None) == (AppView {
            mode: DownloadMode::Github,
            run_mode: RunMode::SingleApp,
            focus: FocusField::AppId,
            app_id: Seq::empty(),
            api_key: Seq::empty(),
            logs: seq!["[*] Steam manifest downloader ready."@],
            status: "Enter a Steam AppID and press Enter."@,
            progress: 0,
            busy: false,
            summary: None,
            lua_dir: None,
        }),
        AppView::opened(Some(path)) == (AppView {
            logs: seq![
                "[*] Steam manifest downloader ready."@,
                "[*] Custom Lua directory: "@ + path,
            ],
            lua_dir: Some(path),
            ..AppView::opened(None)
        }),
        app.reset() == (AppView {
            app_id: Seq::empty(),
            logs: match app.lua_dir {
                Some(dir) => seq!["[*] Session reset."@, "[*] Custom Lua directory: "@ + dir],
                None => seq!["[*] Session reset."@],
            },
            summary: None,
            status: match (app.run_mode, app.lua_dir) {
                (RunMode::SingleApp, _) => "Enter a Steam AppID and press Enter."@,
                (RunMode::FullRebase, Some(dir)) => "Press Enter to scan every Lua file in "@ + dir
                    + "."@,
                (RunMode::FullRebase, None) => "Press Enter to scan every Lua file in "@
                    + "stplug-in"@ + "."@,
            },
            progress: 0,
            focus: if app.run_mode is FullRebase && app.mode is GithubExternal {
                FocusField::ApiKey
            } else {
                FocusField::AppId
            },
            ..app
        }),
{
    assert(AppView::opened(None).logs =~= seq!["[*] Steam manifest downloader ready."@]);
    assert(AppView::opened(Some(path)).logs =~= seq![
        "[*] Steam manifest downloader ready."@,
        "[*] Custom Lua directory: "@ + path,
    ]);
    assert(app.reset().logs =~= match app.lua_dir {
        Some(dir) => seq!["[*] Session reset."@, "[*] Custom Lua directory: "@ + dir],
        None => seq!["[*] Session reset."@],
    });
}

/// Each event of a worker changes what it tells of, and nothing else.
pub proof fn law_each_event_has_its_effect(
    app: AppView,
    text: Seq<char>,
    progress: u16,
    summary: SummaryView,
)
    ensures
        app.informed(EventView::Reset) == (AppView {
            logs: Seq::empty(),
            summary: None,
            progress: 0,
            ..app
        }),
        app.informed(EventView::Log(text)) == app.logged(text),
        app.informed(EventView::Status(text)) == (AppView { status: text, ..app }),
        app.informed(EventView::Progress(progress)) == (AppView { progress, ..app }),
        app.informed(EventView::Summary(summary)) == (AppView { summary: Some(summary), ..app }),
        app.informed(EventView::Finished) == (AppView { busy: false, ..app }),
        app.informed(EventView::Failed(text)) == (AppView {
            status: "Error: "@ + text,
            busy: false,
            ..app.logged("[-] "@ + text)
        }),
{
}

/// Events are taken one after the other: what two sequences do together is what the second
/// does after the first.
pub proof fn law_events_are_taken_in_order(
    app: AppView,
    first: Seq<EventView>,
    second: Seq<EventView>,
    event: EventView,
)
    ensures
        app.informed_all(Seq::empty()) == app,
        app.informed_all(seq![event]) == app.informed(event),
        app.informed_all(first + second) == app.informed_all(first).informed_all(second),
    decreases second.len(),
{
    assert(seq![event].drop_last() =~= Seq::<EventView>::empty());
    assert(app.informed_all(seq![event].drop_last()) == app);
    if second.len() == 0 {
        assert(first + second =~= first);
    } else {
        assert((first + second).drop_last() =~= first + second.drop_last());
        assert((first + second).last() == second.last());
        law_events_are_taken_in_order(app, first, second.drop_last(), event);
    }
}

/// All of a session is seen.
pub proof fn law_session_is_seen(app: App, request: RunRequest, action: KeyAction)
    ensures
        app@.mode == app.mode && app@.run_mode == app.run_mode && app@.focus == app.focus,
        app@.app_id == app.app_id@ && app@.api_key == app.api_key@ && app@.status == app.status@,
        app@.progress == app.progress && app@.busy == app.busy,
        app@.logs == texts(app.logs@),
        app.summary is None ==> app@.summary is None,
        app.summary matches Some(summary) ==> app@.summary == Some(summary@),
        app.lua_dir is None ==> app@.lua_dir is None,
        app.lua_dir matches Some(path) ==> app@.lua_dir == Some(path@),
        request@.mode == request.mode && request@.run_mode == request.run_mode,
        request@.app_id == request.app_id@ && request@.api_key == request.api_key@,
        action is Stay <==> action@ is Stay,
        action is Quit <==> action@ is Quit,
        action matches KeyAction::Start(request) ==> action@ == ActionView::Start(request@),
{
}

/// All of an event and all of a summary is seen.
pub proof fn law_events_are_seen(
    summary: RunSummary,
    event: WorkerEvent,
    events: Seq<WorkerEvent>,
    i: int,
)
    ensures
        summary@.target_label == summary.target_label@,
        summary@.steam_path == summary.steam_path@,
        summary@.output_path == summary.output_path@,
        summary@.app_count == summary.app_count,
        summary@.lua_files == summary.lua_files,
        summary@.depot_ids == texts(summary.depot_ids@),
        summary@.failed_apps == summary.failed_apps,
        summary@.recent_errors == texts(summary.recent_errors@),
        summary@.total == summary.total,
        summary@.downloaded == summary.downloaded,
        summary@.skipped == summary.skipped,
        summary@.unavailable == summary.unavailable,
        summary@.failed == summary.failed,
        summary@.downloaded_bytes == summary.downloaded_bytes,
        summary@.elapsed == summary.elapsed@,
        event is Reset <==> event@ is Reset,
        event is Finished <==> event@ is Finished,
        event matches WorkerEvent::Log(line) ==> event@ == EventView::Log(line@),
        event matches WorkerEvent::Status(status) ==> event@ == EventView::Status(status@),
        event matches WorkerEvent::Progress(progress) ==> event@ == EventView::Progress(progress),
        event matches WorkerEvent::Summary(figures) ==> event@ == EventView::Summary(figures@),
        event matches WorkerEvent::Failed(error) ==> event@ == EventView::Failed(error@),
        event_views(events).len() == events.len(),
        0 <= i < events.len() ==> event_views(events)[i] == events[i]@,
{
}

} // verus!
