//! A whole run: the checks before it, the jobs in turn, and the summary after it.
use crate::depots::ascending;
use crate::depots::insert_unique;
use crate::display::elapsed_text;
use crate::display::{format_elapsed, push_recent_error, ERROR_LIMIT};
use crate::job::JobSummary;
use crate::jobs::LuaJob;
use crate::modes::RunMode;
use crate::session::{event_views, AppView, EventView, RequestView, SummaryView};
use crate::session::{RunRequest, RunSummary, WorkerEvent};
use crate::text::{all_digits, decimal, lemma_prefix_set, newest, texts, trimmed};
use crate::text::{decimal_text, join2, join3, join5, only_digits, trim};
use vstd::prelude::*;

verus! {

// ---------------------------------------------------------------------------
// Before the jobs
// ---------------------------------------------------------------------------

/// What a stage of the run tells the session, and whether the run goes on. A run that
/// does not go on has told why.
pub struct RunStep {
    pub events: Vec<WorkerEvent>,
    pub proceed: bool,
}

impl RunStep {
    /// The stage tells these events, and the run goes on.
    pub open spec fn continues(&self, events: Seq<EventView>) -> bool {
        self.proceed && event_views(self.events@) == events
    }

    /// The stage tells these events and then the error, and the run is over.
    pub open spec fn stops(&self, events: Seq<EventView>, error: Seq<char>) -> bool {
        !self.proceed && event_views(self.events@) == events.push(EventView::Failed(error))
    }
}

/// What is wrong with a request, if anything is.
pub open spec fn request_error(request: RequestView) -> Option<Seq<char>> {
    let app_id = trimmed(request.app_id);
    if request.run_mode.wants_app_id() && (app_id.len() == 0 || !all_digits(app_id)) {
        Some("Enter a valid numeric AppID."@)
    } else if request.mode.wants_api_key() && trimmed(request.api_key).len() == 0 {
        Some("This mode requires an API key."@)
    } else {
        None
    }
}

/// What a valid request is answered with.
pub open spec fn opening_events(request: RequestView) -> Seq<EventView> {
    let app_id = trimmed(request.app_id);
    let head = seq![
        EventView::Reset,
        EventView::Status(
            match request.run_mode {
                RunMode::SingleApp => "Inspecting AppID "@ + app_id,
                RunMode::FullRebase => "Preparing full rebase scan"@,
            },
        ),
        EventView::Log("[*] Source: "@ + request.mode.label_text()),
        EventView::Log("[*] Run mode: "@ + request.run_mode.label_text()),
    ];
    let named = if request.run_mode.wants_app_id() {
        head.push(EventView::Log("[*] AppID: "@ + app_id))
    } else {
        head
    };
    named.push(EventView::Progress(5)).push(
        EventView::Log("[*] Looking for Steam installation..."@),
    )
}

/// Opens a run: the request is checked, and the search for the installation announced.
pub fn open_run(request: &RunRequest) -> (step: RunStep)
    ensures
        match request_error(request@) {
            Some(error) => step.stops(seq![EventView::Reset], error),
            None => step.continues(opening_events(request@)),
        },
{
    let app_id: String = trim(request.app_id.as_str());
    let mut events: Vec<WorkerEvent> = Vec::new();
    events.push(WorkerEvent::Reset);
    if request.run_mode.needs_app_id() && (app_id.as_str().is_empty() || !only_digits(
        app_id.as_str(),
    )) {
        events.push(WorkerEvent::Failed("Enter a valid numeric AppID.".to_owned()));
        assert(event_views(events@) =~= seq![EventView::Reset].push(
            EventView::Failed("Enter a valid numeric AppID."@),
        ));
        return RunStep { events, proceed: false };
    }
    let api_key: String = trim(request.api_key.as_str());
    if request.mode.needs_api_key() && api_key.as_str().is_empty() {
        events.push(WorkerEvent::Failed("This mode requires an API key.".to_owned()));
        assert(event_views(events@) =~= seq![EventView::Reset].push(
            EventView::Failed("This mode requires an API key."@),
        ));
        return RunStep { events, proceed: false };
    }
    let status: String = match request.run_mode {
        RunMode::SingleApp => join2("Inspecting AppID ", app_id.as_str()),
        RunMode::FullRebase => "Preparing full rebase scan".to_owned(),
    };
    events.push(WorkerEvent::Status(status));
    events.push(WorkerEvent::Log(join2("[*] Source: ", request.mode.label())));
    events.push(WorkerEvent::Log(join2("[*] Run mode: ", request.run_mode.label())));
    if request.run_mode.needs_app_id() {
        events.push(WorkerEvent::Log(join2("[*] AppID: ", app_id.as_str())));
    }
    events.push(WorkerEvent::Progress(5));
    events.push(WorkerEvent::Log("[*] Looking for Steam installation...".to_owned()));
    assert(event_views(events@) =~= opening_events(request@));
    RunStep { events, proceed: true }
}

fn failed_step(error: &str) -> (step: RunStep)
    ensures
        step.stops(Seq::empty(), error@),
{
    let events: Vec<WorkerEvent> = vec![WorkerEvent::Failed(error.to_owned())];
    assert(event_views(events@) =~= Seq::<EventView>::empty().push(EventView::Failed(error@)));
    RunStep { events, proceed: false }
}

/// The search for the installation is over; `path` is where it is, if it was found.
pub fn steam_located(path: Option<&str>) -> (step: RunStep)
    ensures
        match path {
            Some(path) => step.continues(seq![EventView::Log("[+] Steam found at "@ + path@)]),
            None => step.stops(Seq::empty(), "Steam installation not found"@),
        },
{
    match path {
        Some(path) => {
            let events: Vec<WorkerEvent> = vec![
                WorkerEvent::Log(join2("[+] Steam found at ", path)),
            ];
            assert(event_views(events@) =~= seq![EventView::Log("[+] Steam found at "@ + path@)]);
            RunStep { events, proceed: true }
        },
        None => failed_step("Steam installation not found"),
    }
}

/// The output directory is there, or it could not be made.
pub fn output_prepared(path: Option<&str>) -> (step: RunStep)
    ensures
        match path {
            Some(path) => step.continues(
                seq![EventView::Log("[*] Output: "@ + path@), EventView::Progress(15)],
            ),
            None => step.stops(Seq::empty(), "Unable to create depotcache directory"@),
        },
{
    match path {
        Some(path) => {
            let events: Vec<WorkerEvent> = vec![
                WorkerEvent::Log(join2("[*] Output: ", path)),
                WorkerEvent::Progress(15),
            ];
            assert(event_views(events@) =~= seq![
                EventView::Log("[*] Output: "@ + path@),
                EventView::Progress(15),
            ]);
            RunStep { events, proceed: true }
        },
        None => failed_step("Unable to create depotcache directory"),
    }
}

/// The Lua files were collected, so many of them; or that failed.
pub fn jobs_collected(count: Result<usize, String>) -> (step: RunStep)
    ensures
        match count {
            Ok(n) => if n == 0 {
                step.stops(Seq::empty(), "No eligible Lua files were found."@)
            } else {
                step.continues(
                    seq![
                        EventView::Log(
                            "[+] Collected "@ + decimal(n as nat) + " Lua file(s) to process"@,
                        ),
                    ],
                )
            },
            Err(error) => step.stops(Seq::empty(), error@),
        },
{
    match count {
        Ok(n) => {
            if n == 0 {
                failed_step("No eligible Lua files were found.")
            } else {
                let digits: String = decimal_text(n as u64);
                let events: Vec<WorkerEvent> = vec![
                    WorkerEvent::Log(
                        join3("[+] Collected ", digits.as_str(), " Lua file(s) to process"),
                    ),
                ];
                assert(event_views(events@) =~= seq![
                    EventView::Log(
                        "[+] Collected "@ + decimal(n as nat) + " Lua file(s) to process"@,
                    ),
                ]);
                RunStep { events, proceed: true }
            }
        },
        Err(error) => failed_step(error.as_str()),
    }
}

// ---------------------------------------------------------------------------
// The jobs in turn
// ---------------------------------------------------------------------------

/// The contents of a `JobSummary`.
#[verifier::ext_equal]
pub struct JobView {
    pub depot_ids: Seq<Seq<char>>,
    pub total: nat,
    pub downloaded: nat,
    pub skipped: nat,
    pub unavailable: nat,
    pub failed: nat,
    pub downloaded_bytes: nat,
}

impl View for JobSummary {
    type V = JobView;

    open spec fn view(&self) -> JobView {
        JobView {
            depot_ids: texts(self.depot_ids@),
            total: self.total as nat,
            downloaded: self.downloaded as nat,
            skipped: self.skipped as nat,
            unavailable: self.unavailable as nat,
            failed: self.failed as nat,
            downloaded_bytes: self.downloaded_bytes as nat,
        }
    }
}

impl JobView {
    /// Every download of the job is counted under one heading.
    pub open spec fn balanced(self) -> bool {
        self.total == self.downloaded + self.skipped + self.unavailable + self.failed
    }
}

/// The figures of a run, as far as it has gone.
pub struct BatchTotals {
    pub app_count: usize,
    pub total: usize,
    pub downloaded: usize,
    pub skipped: usize,
    pub unavailable: usize,
    pub failed: usize,
    pub failed_apps: usize,
    pub downloaded_bytes: u64,
    pub recent_errors: Vec<String>,
}

/// The contents of `BatchTotals`.
#[verifier::ext_equal]
pub struct TotalsView {
    pub app_count: nat,
    pub total: nat,
    pub downloaded: nat,
    pub skipped: nat,
    pub unavailable: nat,
    pub failed: nat,
    pub failed_apps: nat,
    pub downloaded_bytes: nat,
    pub recent_errors: Seq<Seq<char>>,
}

impl View for BatchTotals {
    type V = TotalsView;

    open spec fn view(&self) -> TotalsView {
        TotalsView {
            app_count: self.app_count as nat,
            total: self.total as nat,
            downloaded: self.downloaded as nat,
            skipped: self.skipped as nat,
            unavailable: self.unavailable as nat,
            failed: self.failed as nat,
            failed_apps: self.failed_apps as nat,
            downloaded_bytes: self.downloaded_bytes as nat,
            recent_errors: texts(self.recent_errors@),
        }
    }
}

impl TotalsView {
    /// Nothing is counted yet.
    pub open spec fn none() -> TotalsView {
        TotalsView {
            app_count: 0,
            total: 0,
            downloaded: 0,
            skipped: 0,
            unavailable: 0,
            failed: 0,
            failed_apps: 0,
            downloaded_bytes: 0,
            recent_errors: Seq::empty(),
        }
    }

    /// The figures with a finished job added. A job with failed downloads counts as a
    /// failed app, and is remembered as an error.
    pub open spec fn with_job(self, app_id: Seq<char>, job: JobView) -> TotalsView {
        TotalsView {
            app_count: self.app_count + 1,
            total: self.total + job.total,
            downloaded: self.downloaded + job.downloaded,
            skipped: self.skipped + job.skipped,
            unavailable: self.unavailable + job.unavailable,
            failed: self.failed + job.failed,
            failed_apps: if job.failed > 0 {
                self.failed_apps + 1
            } else {
                self.failed_apps
            },
            downloaded_bytes: self.downloaded_bytes + job.downloaded_bytes,
            recent_errors: if job.failed > 0 {
                newest(
                    self.recent_errors.push(
                        "App "@ + app_id + " had "@ + decimal(job.failed) + " failed depot(s)"@,
                    ),
                    ERROR_LIMIT as nat,
                )
            } else {
                self.recent_errors
            },
        }
    }

    /// The figures with a job that could not be done.
    pub open spec fn with_error(self, app_id: Seq<char>, error: Seq<char>) -> TotalsView {
        TotalsView {
            failed: self.failed + 1,
            failed_apps: self.failed_apps + 1,
            recent_errors: newest(
                self.recent_errors.push(skip_text(app_id, error)),
                ERROR_LIMIT as nat,
            ),
            ..self
        }
    }

    /// The sums fit the machine's numbers.
    pub open spec fn fits(self) -> bool {
        &&& self.total <= usize::MAX
        &&& self.downloaded <= usize::MAX
        &&& self.skipped <= usize::MAX
        &&& self.unavailable <= usize::MAX
        &&& self.failed <= usize::MAX
        &&& self.downloaded_bytes <= u64::MAX
    }
}

/// The text on a job that could not be done.
pub open spec fn skip_text(app_id: Seq<char>, error: Seq<char>) -> Seq<char> {
    "App "@ + app_id + " skipped: "@ + error
}

/// What came of a job.
pub enum JobEnd {
    Done(JobView),
    Failed(Seq<char>),
}

/// The contents of what came of a job.
pub open spec fn job_end(outcome: Result<JobSummary, String>) -> JobEnd {
    match outcome {
        Ok(summary) => JobEnd::Done(summary@),
        Err(error) => JobEnd::Failed(error@),
    }
}

/// The progress when job `index` of `count` begins.
pub open spec fn job_progress(index: int, count: int) -> int {
    20 + (index * 70) / count
}

/// The events that announce job `index` of `count`.
pub open spec fn announcement(
    app_id: Seq<char>,
    lua_path: Seq<char>,
    index: nat,
    count: nat,
) -> Seq<EventView> {
    let number = decimal(index + 1);
    let total = decimal(count);
    seq![
        EventView::Progress(job_progress(index as int, count as int) as u16),
        EventView::Status("Processing app "@ + app_id + " ("@ + number + "/"@ + total + ")"@),
        EventView::Log("[*] ["@ + number + " / "@ + total + "] Checking "@ + lua_path),
    ]
}

/// A run over its jobs: how far it has come, and the figures and depots so far.
pub struct BatchRun {
    pub request: RunRequest,
    pub jobs: Vec<LuaJob>,
    pub cursor: usize,
    pub totals: BatchTotals,
    pub depots: Vec<String>,
}

impl BatchRun {
    /// What holds at every stage: each job up to the cursor is counted as done or as
    /// failed, few errors are remembered, and the depots are in ascending order.
    pub open spec fn well_formed(&self) -> bool {
        &&& self.cursor <= self.jobs@.len()
        &&& self.totals.app_count <= self.cursor
        &&& self.cursor <= self.totals.app_count + self.totals.failed_apps
        &&& self.totals.failed_apps <= self.cursor
        &&& self.totals.recent_errors@.len() <= ERROR_LIMIT
        &&& ascending(texts(self.depots@))
    }

    /// The different depots so far.
    pub open spec fn depot_set(&self) -> Set<Seq<char>> {
        texts(self.depots@).to_set()
    }

    /// Begins the jobs.
    pub fn new(request: RunRequest, jobs: Vec<LuaJob>) -> (run: BatchRun)
        ensures
            run.well_formed(),
            run.request == request,
            run.jobs == jobs,
            run.cursor == 0,
            run.totals@ == TotalsView::none(),
            run.depot_set() == Set::<Seq<char>>::empty(),
    {
        let run: BatchRun = BatchRun {
            request,
            jobs,
            cursor: 0,
            totals: BatchTotals {
                app_count: 0,
                total: 0,
                downloaded: 0,
                skipped: 0,
                unavailable: 0,
                failed: 0,
                failed_apps: 0,
                downloaded_bytes: 0,
                recent_errors: Vec::new(),
            },
            depots: Vec::new(),
        };
        proof {
            assert(texts(run.depots@) =~= Seq::<Seq<char>>::empty());
            assert(run.depot_set() =~= Set::<Seq<char>>::empty());
            assert(texts(run.totals.recent_errors@) =~= Seq::<Seq<char>>::empty());
        }
        run
    }

    /// The events that announce the next job; `None` where all jobs are done.
    pub fn announce(&self) -> (r: Option<Vec<WorkerEvent>>)
        ensures
            match r {
                Some(events) => {
                    &&& self.cursor < self.jobs@.len()
                    &&& event_views(events@) == announcement(
                        self.jobs@[self.cursor as int].app_id@,
                        self.jobs@[self.cursor as int].lua_path@,
                        self.cursor as nat,
                        self.jobs@.len(),
                    )
                },
                None => self.cursor >= self.jobs@.len(),
            },
    {
        if self.cursor >= self.jobs.len() {
            return None;
        }
        let job: &LuaJob = &self.jobs[self.cursor];
        let index: u128 = self.cursor as u128;
        let count: u128 = self.jobs.len() as u128;
        proof {
            law_progress_is_bounded(self.cursor as int, self.jobs@.len() as int);
        }
        let done: u128 = index * 70 / count;
        let progress: u16 = 20 + done as u16;
        let number: String = decimal_text(self.cursor as u64 + 1);
        let total: String = decimal_text(self.jobs.len() as u64);
        let head: String = join3("Processing app ", job.app_id.as_str(), " (");
        let status: String = join5(head.as_str(), number.as_str(), "/", total.as_str(), ")");
        let head: String = join5("[*] [", number.as_str(), " / ", total.as_str(), "] Checking ");
        let line: String = join2(head.as_str(), job.lua_path.as_str());
        let events: Vec<WorkerEvent> = vec![
            WorkerEvent::Progress(progress),
            WorkerEvent::Status(status),
            WorkerEvent::Log(line),
        ];
        assert(event_views(events@) =~= announcement(
            job.app_id@,
            job.lua_path@,
            self.cursor as nat,
            self.jobs@.len(),
        ));
        Some(events)
    }

    /// Whether the figures can take what came of a job.
    pub fn has_room_for(&self, outcome: &Result<JobSummary, String>) -> (r: bool)
        ensures
            r == (match job_end(*outcome) {
                JobEnd::Done(job) => self.totals@.with_job(Seq::empty(), job).fits(),
                JobEnd::Failed(_) => self.totals@.failed < usize::MAX,
            }),
    {
        match outcome {
            Ok(job) => {
                job.total <= usize::MAX - self.totals.total && job.downloaded <= usize::MAX
                    - self.totals.downloaded && job.skipped <= usize::MAX - self.totals.skipped
                    && job.unavailable <= usize::MAX - self.totals.unavailable && job.failed
                    <= usize::MAX - self.totals.failed && job.downloaded_bytes <= u64::MAX
                    - self.totals.downloaded_bytes
            },
            Err(_) => self.totals.failed < usize::MAX,
        }
    }

    /// Adds the depots of a job to those of the run.
    fn add_depots(&mut self, depot_ids: &Vec<String>)
        requires
            ascending(texts(old(self).depots@)),
        ensures
            ascending(texts(final(self).depots@)),
            final(self).depot_set() == old(self).depot_set().union(texts(depot_ids@).to_set()),
            final(self).request == old(self).request,
            final(self).jobs == old(self).jobs,
            final(self).cursor == old(self).cursor,
            final(self).totals == old(self).totals,
    {
        let ghost ids = texts(depot_ids@);
        let ghost start = self.depot_set();
        let mut i: usize = 0;
        proof {
            assert(ids.take(0).to_set() =~= Set::<Seq<char>>::empty());
            assert(start.union(ids.take(0).to_set()) =~= start);
        }
        while i < depot_ids.len()
            invariant
                i <= depot_ids@.len(),
                ids == texts(depot_ids@),
                start == old(self).depot_set(),
                ascending(texts(self.depots@)),
                self.depot_set() == start.union(ids.take(i as int).to_set()),
                self.request == old(self).request,
                self.jobs == old(self).jobs,
                self.cursor == old(self).cursor,
                self.totals == old(self).totals,
            decreases depot_ids@.len() - i,
        {
            proof {
                lemma_prefix_set(ids, i as int);
                assert(start.union(ids.take(i + 1).to_set()) =~= start.union(
                    ids.take(i as int).to_set(),
                ).insert(ids[i as int]));
            }
            insert_unique(&mut self.depots, depot_ids[i].clone());
            i += 1;
        }
        assert(ids.take(i as int) =~= ids);
    }

    /// The job at the cursor is over. A job that could not be done ends a run for one
    /// app; a run over all Lua files counts it and goes on.
    pub fn job_finished(&mut self, outcome: Result<JobSummary, String>) -> (step: RunStep)
        requires
            old(self).well_formed(),
            old(self).cursor < old(self).jobs@.len(),
            match job_end(outcome) {
                JobEnd::Done(job) => old(self).totals@.with_job(Seq::empty(), job).fits(),
                JobEnd::Failed(_) => old(self).totals@.failed < usize::MAX,
            },
        ensures
            final(self).well_formed(),
            final(self).request == old(self).request,
            final(self).jobs == old(self).jobs,
            match (job_end(outcome), old(self).request.run_mode) {
                (JobEnd::Done(job), _) => {
                    &&& step.continues(Seq::empty())
                    &&& final(self).cursor == old(self).cursor + 1
                    &&& final(self).totals@ == old(self).totals@.with_job(
                        old(self).jobs@[old(self).cursor as int].app_id@,
                        job,
                    )
                    &&& final(self).depot_set() == old(self).depot_set().union(
                        job.depot_ids.to_set(),
                    )
                },
                (JobEnd::Failed(error), RunMode::FullRebase) => {
                    let app_id = old(self).jobs@[old(self).cursor as int].app_id@;
                    &&& step.continues(
                        seq![EventView::Log("[-] "@ + skip_text(app_id, error))],
                    )
                    &&& final(self).cursor == old(self).cursor + 1
                    &&& final(self).totals@ == old(self).totals@.with_error(app_id, error)
                    &&& final(self).depot_set() == old(self).depot_set()
                },
                (JobEnd::Failed(error), RunMode::SingleApp) => {
                    &&& step.stops(Seq::empty(), error)
                    &&& *final(self) == *old(self)
                },
            },
    {
        let at: usize = self.cursor;
        assert(at < self.jobs.len());
        match outcome {
            Ok(job) => {
                let app_id: &str = self.jobs[at].app_id.as_str();
                let failed: String = decimal_text(job.failed as u64);
                let message: String = join5(
                    "App ",
                    app_id,
                    " had ",
                    failed.as_str(),
                    " failed depot(s)",
                );
                self.cursor = at + 1;
                self.totals.app_count = self.totals.app_count + 1;
                self.totals.total = self.totals.total + job.total;
                self.totals.downloaded = self.totals.downloaded + job.downloaded;
                self.totals.skipped = self.totals.skipped + job.skipped;
                self.totals.unavailable = self.totals.unavailable + job.unavailable;
                self.totals.failed = self.totals.failed + job.failed;
                self.totals.downloaded_bytes = self.totals.downloaded_bytes + job.downloaded_bytes;
                if job.failed > 0 {
                    self.totals.failed_apps = self.totals.failed_apps + 1;
                    push_recent_error(&mut self.totals.recent_errors, message);
                }
                self.add_depots(&job.depot_ids);
                let events: Vec<WorkerEvent> = Vec::new();
                assert(event_views(events@) =~= Seq::<EventView>::empty());
                RunStep { events, proceed: true }
            },
            Err(error) => {
                if self.request.run_mode == RunMode::FullRebase {
                    let app_id: &str = self.jobs[at].app_id.as_str();
                    let head: String = join3("App ", app_id, " skipped: ");
                    let message: String = join2(head.as_str(), error.as_str());
                    let line: String = join2("[-] ", message.as_str());
                    self.cursor = at + 1;
                    self.totals.failed = self.totals.failed + 1;
                    self.totals.failed_apps = self.totals.failed_apps + 1;
                    push_recent_error(&mut self.totals.recent_errors, message);
                    let events: Vec<WorkerEvent> = vec![WorkerEvent::Log(line)];
                    assert(event_views(events@) =~= seq![events@[0]@]);
                    RunStep { events, proceed: true }
                } else {
                    failed_step(error.as_str())
                }
            },
        }
    }

    /// The summary of the run. `elapsed_seconds` is how long the jobs took.
    pub open spec fn summary_view(
        &self,
        steam_path: Seq<char>,
        output_path: Seq<char>,
        elapsed_seconds: nat,
    ) -> SummaryView {
        SummaryView {
            target_label: match self.request.run_mode {
                RunMode::SingleApp => trimmed(self.request.app_id@),
                RunMode::FullRebase => "Full Rebase"@,
            },
            steam_path,
            output_path,
            app_count: self.totals.app_count,
            lua_files: self.jobs@.len() as usize,
            depot_ids: texts(self.depots@),
            failed_apps: self.totals.failed_apps,
            recent_errors: texts(self.totals.recent_errors@),
            total: self.totals.total,
            downloaded: self.totals.downloaded,
            skipped: self.totals.skipped,
            unavailable: self.totals.unavailable,
            failed: self.totals.failed,
            downloaded_bytes: self.totals.downloaded_bytes,
            elapsed: elapsed_text(elapsed_seconds),
        }
    }

    /// Ends the run.
    pub fn complete(self, steam_path: String, output_path: String, elapsed_seconds: u64) -> (events:
        Vec<WorkerEvent>)
        ensures
            event_views(events@) == closing_events(
                if self.totals.failed == 0 {
                    "Run completed"@
                } else {
                    "Run completed with "@ + decimal(self.totals.failed as nat) + " errors"@
                },
                self.summary_view(steam_path@, output_path@, elapsed_seconds as nat),
            ),
    {
        let status: String = if self.totals.failed == 0 {
            "Run completed".to_owned()
        } else {
            let digits: String = decimal_text(self.totals.failed as u64);
            join3("Run completed with ", digits.as_str(), " errors")
        };
        let target_label: String = if self.request.run_mode == RunMode::SingleApp {
            trim(self.request.app_id.as_str())
        } else {
            "Full Rebase".to_owned()
        };
        let ghost whole = self;
        let lua_files: usize = self.jobs.len();
        let summary: RunSummary = RunSummary {
            target_label,
            steam_path,
            output_path,
            app_count: self.totals.app_count,
            lua_files,
            depot_ids: self.depots,
            failed_apps: self.totals.failed_apps,
            recent_errors: self.totals.recent_errors,
            total: self.totals.total,
            downloaded: self.totals.downloaded,
            skipped: self.totals.skipped,
            unavailable: self.totals.unavailable,
            failed: self.totals.failed,
            downloaded_bytes: self.totals.downloaded_bytes,
            elapsed: format_elapsed(elapsed_seconds),
        };
        let events: Vec<WorkerEvent> = vec![
            WorkerEvent::Progress(100),
            WorkerEvent::Status(status),
            WorkerEvent::Log("[+] Processing complete.".to_owned()),
            WorkerEvent::Summary(summary),
            WorkerEvent::Finished,
        ];
        assert(summary@ == whole.summary_view(steam_path@, output_path@, elapsed_seconds as nat));
        assert(event_views(events@) =~= seq![
            events@[0]@,
            events@[1]@,
            events@[2]@,
            events@[3]@,
            events@[4]@,
        ]);
        events
    }
}

// ---------------------------------------------------------------------------
// Laws
// ---------------------------------------------------------------------------

/// While the jobs run the progress stays between 20 and 90.
pub proof fn law_progress_is_bounded(index: int, count: int)
    requires
        0 <= index < count,
    ensures
        20 <= job_progress(index, count) < 90,
{
    assert(0 <= (index * 70) / count < 70) by (nonlinear_arith)
        requires
            0 <= index < count,
    ;
}

/// The progress never goes back from one job to the next.
pub proof fn law_progress_is_monotone(index: int, count: int)
    requires
        0 <= index,
        index + 1 < count,
    ensures
        job_progress(index, count) <= job_progress(index + 1, count),
{
    assert((index * 70) / count <= ((index + 1) * 70) / count) by (nonlinear_arith)
        requires
            0 <= index,
            0 < count,
    ;
}

/// Over all jobs of a run the progress rises from 20, and stays below 90.
pub proof fn law_progress_rises(i: int, j: int, count: int)
    requires
        0 <= i <= j < count,
    ensures
        20 <= job_progress(i, count) <= job_progress(j, count) < 90,
    decreases j - i,
{
    law_progress_is_bounded(i, count);
    law_progress_is_bounded(j, count);
    if i < j {
        law_progress_rises(i, j - 1, count);
        law_progress_is_monotone(j - 1, count);
    }
}

/// The figures of a run over all Lua files.
pub open spec fn totals_of(app_ids: Seq<Seq<char>>, ends: Seq<JobEnd>) -> TotalsView
    decreases ends.len(),
{
    if ends.len() == 0 {
        TotalsView::none()
    } else {
        let earlier = totals_of(app_ids, ends.drop_last());
        let app_id = app_ids[ends.len() - 1];
        match ends.last() {
            JobEnd::Done(job) => earlier.with_job(app_id, job),
            JobEnd::Failed(error) => earlier.with_error(app_id, error),
        }
    }
}

/// The number of jobs that could not be done.
pub open spec fn failed_jobs(ends: Seq<JobEnd>) -> nat
    decreases ends.len(),
{
    if ends.len() == 0 {
        0
    } else {
        failed_jobs(ends.drop_last()) + (if ends.last() is Failed {
            1nat
        } else {
            0nat
        })
    }
}

/// In a run over all Lua files every job is counted as done or as failed, and every
/// download under one heading: what is counted beyond the downloads is one failure for
/// each job that could not be done. One error is remembered for each failed app, up to
/// the limit.
pub proof fn law_run_is_accounted_for(app_ids: Seq<Seq<char>>, ends: Seq<JobEnd>)
    requires
        forall|i: int|
            0 <= i < ends.len() ==> ((#[trigger] ends[i]) matches JobEnd::Done(job)
                ==> job.balanced()),
    ensures
        totals_of(app_ids, ends).app_count + failed_jobs(ends) == ends.len(),
        totals_of(app_ids, ends).total + failed_jobs(ends) == totals_of(app_ids, ends).downloaded
            + totals_of(app_ids, ends).skipped + totals_of(app_ids, ends).unavailable + totals_of(
            app_ids,
            ends,
        ).failed,
        failed_jobs(ends) <= totals_of(app_ids, ends).failed_apps <= ends.len(),
        totals_of(app_ids, ends).recent_errors.len() == (if totals_of(app_ids, ends).failed_apps
            < ERROR_LIMIT {
            totals_of(app_ids, ends).failed_apps
        } else {
            ERROR_LIMIT as nat
        }),
        totals_of(app_ids, ends).failed == 0 <==> totals_of(app_ids, ends).failed_apps == 0,
    decreases ends.len(),
{
    if ends.len() > 0 {
        let head = ends.drop_last();
        assert forall|i: int| 0 <= i < head.len() implies ((
        #[trigger] head[i]) matches JobEnd::Done(job) ==> job.balanced()) by {
            assert(head[i] == ends[i]);
        }
        law_run_is_accounted_for(app_ids, head);
        assert(ends[ends.len() - 1] == ends.last());
    }
}

/// A refused request leaves a session that is ready for keys, shows the error, and has
/// nothing else in its log.
pub proof fn law_refusal_is_shown(app: AppView, error: Seq<char>)
    ensures
        ({
            let events = seq![EventView::Reset].push(EventView::Failed(error));
            let after = app.informed_all(events);
            &&& !after.busy
            &&& after.status == "Error: "@ + error
            &&& after.logs == seq!["[-] "@ + error]
            &&& after.summary is None
            &&& after.progress == 0
            &&& after.api_key == app.api_key
            &&& after.app_id == app.app_id
        }),
{
    let events = seq![EventView::Reset].push(EventView::Failed(error));
    let first = events.drop_last();
    assert(first =~= seq![EventView::Reset]);
    assert(first.drop_last() =~= Seq::<EventView>::empty());
    assert(app.informed_all(first.drop_last()) == app);
    assert(app.informed_all(first) == app.informed(EventView::Reset));
    assert(app.informed_all(events).logs =~= seq!["[-] "@ + error]);
}

/// A completed run leaves a session that is ready for keys, at full progress, with the
/// summary of the run.
pub proof fn law_completion_is_shown(app: AppView, status: Seq<char>, summary: SummaryView)
    ensures
        ({
            let after = app.informed_all(closing_events(status, summary));
            &&& !after.busy
            &&& after.progress == 100
            &&& after.status == status
            &&& after.summary == Some(summary)
            &&& after.logs == newest(
                app.logs.push("[+] Processing complete."@),
                crate::session::LOG_LIMIT as nat,
            )
        }),
{
    let events = closing_events(status, summary);
    let e4 = events.drop_last();
    let e3 = e4.drop_last();
    let e2 = e3.drop_last();
    let e1 = e2.drop_last();
    let e0 = e1.drop_last();
    assert(e0 =~= Seq::<EventView>::empty());
    assert(app.informed_all(e0) == app);
    assert(app.informed_all(e1) == app.informed(EventView::Progress(100)));
    assert(app.informed_all(e2).status == status);
    assert(app.informed_all(e3).progress == 100);
    assert(app.informed_all(e4).summary == Some(summary));
}

/// The event says that the worker is done.
pub open spec fn is_terminal(event: EventView) -> bool {
    event is Finished || event is Failed
}

/// No event says that the worker is done.
pub open spec fn quiet(events: Seq<EventView>) -> bool {
    forall|i: int| 0 <= i < events.len() ==> !is_terminal(#[trigger] events[i])
}

/// Every event is a log line.
pub open spec fn only_logs(events: Seq<EventView>) -> bool {
    forall|i: int| 0 <= i < events.len() ==> (#[trigger] events[i]) is Log
}

/// The last event, and no other, says that the worker is done.
pub open spec fn ends_once(events: Seq<EventView>) -> bool {
    events.len() > 0 && is_terminal(events.last()) && quiet(events.drop_last())
}

/// The events that end a completed run.
pub open spec fn closing_events(status: Seq<char>, summary: SummaryView) -> Seq<EventView> {
    seq![
        EventView::Progress(100),
        EventView::Status(status),
        EventView::Log("[+] Processing complete."@),
        EventView::Summary(summary),
        EventView::Finished,
    ]
}

/// Quiet events may stand before those that end once.
pub proof fn lemma_ends_once_behind(head: Seq<EventView>, tail: Seq<EventView>)
    requires
        quiet(head),
        ends_once(tail),
    ensures
        ends_once(head + tail),
{
    let all = head + tail;
    assert(all.last() == tail.last());
    assert forall|i: int| 0 <= i < all.drop_last().len() implies !is_terminal(
        #[trigger] all.drop_last()[i],
    ) by {
        if i < head.len() {
            assert(all.drop_last()[i] == head[i]);
        } else {
            assert(all.drop_last()[i] == tail.drop_last()[i - head.len()]);
        }
    }
}

/// Quiet events stay quiet side by side.
pub proof fn lemma_quiet_concat(a: Seq<EventView>, b: Seq<EventView>)
    requires
        quiet(a),
        quiet(b),
    ensures
        quiet(a + b),
{
    assert forall|i: int| 0 <= i < (a + b).len() implies !is_terminal(#[trigger] (a + b)[i]) by {
        if i < a.len() {
            assert((a + b)[i] == a[i]);
        } else {
            assert((a + b)[i] == b[i - a.len()]);
        }
    }
}

proof fn lemma_quiet_keeps_busy(app: AppView, events: Seq<EventView>)
    requires
        quiet(events),
    ensures
        app.informed_all(events).busy == app.busy,
    decreases events.len(),
{
    if events.len() > 0 {
        let head = events.drop_last();
        assert forall|i: int| 0 <= i < head.len() implies !is_terminal(#[trigger] head[i]) by {
            assert(head[i] == events[i]);
        }
        lemma_quiet_keeps_busy(app, head);
        assert(!is_terminal(events[events.len() - 1]));
    }
}

/// A session stays as busy as it is until the last event of a run, and is ready for keys
/// after it.
pub proof fn law_session_is_released_at_the_end(app: AppView, events: Seq<EventView>)
    requires
        ends_once(events),
    ensures
        app.informed_all(events.drop_last()).busy == app.busy,
        !app.informed_all(events).busy,
{
    lemma_quiet_keeps_busy(app, events.drop_last());
}

/// A request without an app id, or with one that is not a number, is refused in a run
/// for one app; a request without a key is refused where a key is needed; and every
/// other request is accepted.
pub proof fn law_requests_are_checked(request: RequestView)
    ensures
        request_error(request) is None <==> {
            &&& request.run_mode.wants_app_id() ==> trimmed(request.app_id).len() > 0
                && all_digits(trimmed(request.app_id))
            &&& request.mode.wants_api_key() ==> trimmed(request.api_key).len() > 0
        },
{
}

/// What is wrong with a request: for one app, an id that is empty or holds anything but
/// digits once it is trimmed; then, with the external site, a key that is empty once it is
/// trimmed; and nothing else.
pub proof fn law_requests_are_refused_for_their_first_defect(request: RequestView)
    ensures
        ({
            let app_id = trimmed(request.app_id);
            let bad_id = request.run_mode is SingleApp && (app_id.len() == 0 || !(forall|i: int|
                0 <= i < app_id.len() ==> '0' <= #[trigger] app_id[i] <= '9'));
            let bad_key = request.mode is GithubExternal && trimmed(request.api_key).len() == 0;
            &&& bad_id ==> request_error(request) == Some("Enter a valid numeric AppID."@)
            &&& !bad_id && bad_key ==> request_error(request) == Some(
                "This mode requires an API key."@,
            )
            &&& !bad_id && !bad_key ==> request_error(request) is None
        }),
{
    crate::text::law_digits_are_the_ten(trimmed(request.app_id));
}

/// What a run tells of the request before it begins.
pub proof fn law_opening_tells_the_request(request: RequestView)
    ensures
        ({
            let source = if request.mode is Github {
                "GitHub only"@
            } else {
                "GitHub + External Site"@
            };
            &&& request.run_mode is SingleApp ==> opening_events(request) == seq![
                EventView::Reset,
                EventView::Status("Inspecting AppID "@ + trimmed(request.app_id)),
                EventView::Log("[*] Source: "@ + source),
                EventView::Log("[*] Run mode: "@ + "Single App"@),
                EventView::Log("[*] AppID: "@ + trimmed(request.app_id)),
                EventView::Progress(5),
                EventView::Log("[*] Looking for Steam installation..."@),
            ]
            &&& request.run_mode is FullRebase ==> opening_events(request) == seq![
                EventView::Reset,
                EventView::Status("Preparing full rebase scan"@),
                EventView::Log("[*] Source: "@ + source),
                EventView::Log("[*] Run mode: "@ + "Full Rebase"@),
                EventView::Progress(5),
                EventView::Log("[*] Looking for Steam installation..."@),
            ]
        }),
{
    let source = if request.mode is Github {
        "GitHub only"@
    } else {
        "GitHub + External Site"@
    };
    if request.run_mode is SingleApp {
        assert(opening_events(request) =~= seq![
            EventView::Reset,
            EventView::Status("Inspecting AppID "@ + trimmed(request.app_id)),
            EventView::Log("[*] Source: "@ + source),
            EventView::Log("[*] Run mode: "@ + "Single App"@),
            EventView::Log("[*] AppID: "@ + trimmed(request.app_id)),
            EventView::Progress(5),
            EventView::Log("[*] Looking for Steam installation..."@),
        ]);
    } else {
        assert(opening_events(request) =~= seq![
            EventView::Reset,
            EventView::Status("Preparing full rebase scan"@),
            EventView::Log("[*] Source: "@ + source),
            EventView::Log("[*] Run mode: "@ + "Full Rebase"@),
            EventView::Progress(5),
            EventView::Log("[*] Looking for Steam installation..."@),
        ]);
    }
}

/// A stage that goes on has told just its events; one that does not has told its events and
/// the error.
pub proof fn law_stages_tell_their_events(
    step: RunStep,
    events: Seq<EventView>,
    error: Seq<char>,
    i: int,
)
    ensures
        step.continues(events) ==> step.proceed && step.events@.len() == events.len(),
        step.continues(events) && 0 <= i < events.len() ==> step.events@[i]@ == events[i],
        step.stops(events, error) ==> !step.proceed && step.events@.len() == events.len() + 1,
        step.stops(events, error) ==> step.events@[events.len() as int]@ == EventView::Failed(
            error,
        ),
        step.stops(events, error) && 0 <= i < events.len() ==> step.events@[i]@ == events[i],
{
    assert(event_views(step.events@).len() == step.events@.len());
    if 0 <= i < step.events@.len() {
        assert(event_views(step.events@)[i] == step.events@[i]@);
    }
    if step.stops(events, error) {
        assert(event_views(step.events@)[events.len() as int] == step.events@[events.len() as int]@);
        if 0 <= i < events.len() {
            assert(events.push(EventView::Failed(error))[i] == events[i]);
        }
    }
}

/// The share of the jobs that are done takes the progress from 20 towards 90, rounded down;
/// each job is announced by its number, counted from one.
pub proof fn law_jobs_are_announced(
    app_id: Seq<char>,
    lua_path: Seq<char>,
    index: nat,
    count: nat,
)
    requires
        index < count,
    ensures
        announcement(app_id, lua_path, index, count).len() == 3,
        announcement(app_id, lua_path, index, count)[0] matches EventView::Progress(progress)
            && count * (progress - 20) <= 70 * index < count * (progress - 20) + count,
        announcement(app_id, lua_path, index, count)[1] == EventView::Status(
            "Processing app "@ + app_id + " ("@ + decimal(index + 1) + "/"@ + decimal(count)
                + ")"@,
        ),
        announcement(app_id, lua_path, index, count)[2] == EventView::Log(
            "[*] ["@ + decimal(index + 1) + " / "@ + decimal(count) + "] Checking "@ + lua_path,
        ),
{
    law_progress_is_bounded(index as int, count as int);
    let share = (index as int * 70) / (count as int);
    assert(count * share <= 70 * index < count * share + count) by (nonlinear_arith)
        requires
            share == (index as int * 70) / (count as int),
            index < count,
    ;
    let progress = job_progress(index as int, count as int) as u16;
    assert(progress - 20 == share);
}

/// A finished job adds its figures to those of the run. Where one of its downloads failed it
/// counts as a failed app and is remembered behind the last three errors.
pub proof fn law_finished_jobs_are_added(totals: TotalsView, app_id: Seq<char>, job: JobView)
    ensures
        totals.with_job(app_id, job).app_count == totals.app_count + 1,
        totals.with_job(app_id, job).total == totals.total + job.total,
        totals.with_job(app_id, job).downloaded == totals.downloaded + job.downloaded,
        totals.with_job(app_id, job).skipped == totals.skipped + job.skipped,
        totals.with_job(app_id, job).unavailable == totals.unavailable + job.unavailable,
        totals.with_job(app_id, job).failed == totals.failed + job.failed,
        totals.with_job(app_id, job).downloaded_bytes == totals.downloaded_bytes
            + job.downloaded_bytes,
        job.failed == 0 ==> totals.with_job(app_id, job).failed_apps == totals.failed_apps
            && totals.with_job(app_id, job).recent_errors == totals.recent_errors,
        job.failed > 0 ==> totals.with_job(app_id, job).failed_apps == totals.failed_apps + 1,
        job.failed > 0 && totals.recent_errors.len() < 4 ==> totals.with_job(
            app_id,
            job,
        ).recent_errors == totals.recent_errors + seq![
            "App "@ + app_id + " had "@ + decimal(job.failed) + " failed depot(s)"@,
        ],
        job.failed > 0 && totals.recent_errors.len() >= 4 ==> totals.with_job(
            app_id,
            job,
        ).recent_errors == totals.recent_errors.skip(totals.recent_errors.len() - 3) + seq![
            "App "@ + app_id + " had "@ + decimal(job.failed) + " failed depot(s)"@,
        ],
{
    lemma_remembered(
        totals.recent_errors,
        "App "@ + app_id + " had "@ + decimal(job.failed) + " failed depot(s)"@,
    );
}

proof fn lemma_remembered(errors: Seq<Seq<char>>, error: Seq<char>)
    ensures
        errors.len() < 4 ==> newest(errors.push(error), ERROR_LIMIT as nat) == errors + seq![error],
        errors.len() >= 4 ==> newest(errors.push(error), ERROR_LIMIT as nat) == errors.skip(
            errors.len() - 3,
        ) + seq![error],
{
    if errors.len() < 4 {
        assert(newest(errors.push(error), ERROR_LIMIT as nat) =~= errors + seq![error]);
    } else {
        assert(newest(errors.push(error), ERROR_LIMIT as nat) =~= errors.skip(errors.len() - 3)
            + seq![error]);
    }
}

/// A job that could not be done counts as one failure and one failed app, is remembered
/// behind the last three errors, and changes no other figure.
pub proof fn law_skipped_jobs_are_added(totals: TotalsView, app_id: Seq<char>, error: Seq<char>)
    ensures
        totals.with_error(app_id, error) == (TotalsView {
            failed: totals.failed + 1,
            failed_apps: totals.failed_apps + 1,
            recent_errors: totals.with_error(app_id, error).recent_errors,
            ..totals
        }),
        totals.recent_errors.len() < 4 ==> totals.with_error(app_id, error).recent_errors
            == totals.recent_errors + seq!["App "@ + app_id + " skipped: "@ + error],
        totals.recent_errors.len() >= 4 ==> totals.with_error(app_id, error).recent_errors
            == totals.recent_errors.skip(totals.recent_errors.len() - 3) + seq![
            "App "@ + app_id + " skipped: "@ + error,
        ],
        skip_text(app_id, error) == "App "@ + app_id + " skipped: "@ + error,
{
    lemma_remembered(totals.recent_errors, "App "@ + app_id + " skipped: "@ + error);
}

/// The figures fit exactly where none of the sums is too large for its number.
pub proof fn law_figures_fit(totals: TotalsView)
    ensures
        totals.fits() <==> {
            &&& totals.total <= usize::MAX && totals.downloaded <= usize::MAX && totals.skipped
                <= usize::MAX
            &&& totals.unavailable <= usize::MAX && totals.failed <= usize::MAX
            &&& totals.downloaded_bytes <= 0xffff_ffff_ffff_ffff
        },
        TotalsView::none() == (TotalsView {
            app_count: 0,
            total: 0,
            downloaded: 0,
            skipped: 0,
            unavailable: 0,
            failed: 0,
            failed_apps: 0,
            downloaded_bytes: 0,
            recent_errors: Seq::empty(),
        }),
{
}

/// The summary of a run tells of its request, its jobs, its figures and its depots.
pub proof fn law_summary_tells_the_run(
    run: BatchRun,
    steam_path: Seq<char>,
    output_path: Seq<char>,
    seconds: nat,
)
    ensures
        ({
            let summary = run.summary_view(steam_path, output_path, seconds);
            &&& run.request.run_mode is SingleApp ==> summary.target_label == trimmed(
                run.request.app_id@,
            )
            &&& run.request.run_mode is FullRebase ==> summary.target_label == "Full Rebase"@
            &&& summary.steam_path == steam_path && summary.output_path == output_path
            &&& summary.app_count == run.totals.app_count && summary.failed_apps
                == run.totals.failed_apps
            &&& summary.lua_files == run.jobs@.len()
            &&& summary.depot_ids == texts(run.depots@)
            &&& summary.recent_errors == texts(run.totals.recent_errors@)
            &&& summary.total == run.totals.total && summary.downloaded == run.totals.downloaded
            &&& summary.skipped == run.totals.skipped && summary.unavailable
                == run.totals.unavailable
            &&& summary.failed == run.totals.failed && summary.downloaded_bytes
                == run.totals.downloaded_bytes
            &&& summary.elapsed == elapsed_text(seconds)
        }),
{
    assert(run.jobs@.len() == run.jobs.len());
}

/// A run ends with full progress, its status, a line in the log, its summary and the end.
pub proof fn law_closing_tells_the_end(status: Seq<char>, summary: SummaryView)
    ensures
        closing_events(status, summary) == seq![
            EventView::Progress(100),
            EventView::Status(status),
            EventView::Log("[+] Processing complete."@),
            EventView::Summary(summary),
            EventView::Finished,
        ],
        is_terminal(EventView::Finished) && is_terminal(EventView::Failed(status)),
        !is_terminal(EventView::Reset) && !is_terminal(EventView::Log(status)) && !is_terminal(
            EventView::Status(status),
        ) && !is_terminal(EventView::Progress(100)) && !is_terminal(EventView::Summary(summary)),
{
}

/// All of the figures of a job and of a run are seen.
pub proof fn law_totals_are_seen(
    job: JobSummary,
    totals: BatchTotals,
    run: BatchRun,
    outcome: Result<JobSummary, String>,
    i: int,
)
    ensures
        job@.depot_ids == texts(job.depot_ids@) && job@.total == job.total,
        job@.downloaded == job.downloaded && job@.skipped == job.skipped,
        job@.unavailable == job.unavailable && job@.failed == job.failed,
        job@.downloaded_bytes == job.downloaded_bytes,
        totals@.app_count == totals.app_count && totals@.total == totals.total,
        totals@.downloaded == totals.downloaded && totals@.skipped == totals.skipped,
        totals@.unavailable == totals.unavailable && totals@.failed == totals.failed,
        totals@.failed_apps == totals.failed_apps,
        totals@.downloaded_bytes == totals.downloaded_bytes,
        totals@.recent_errors == texts(totals.recent_errors@),
        0 <= i < run.depots@.len() ==> run.depot_set().contains(run.depots@[i]@),
        forall|id: Seq<char>| #[trigger]
            run.depot_set().contains(id) ==> texts(run.depots@).contains(id),
        outcome matches Ok(summary) ==> job_end(outcome) == JobEnd::Done(summary@),
        outcome matches Err(error) ==> job_end(outcome) == JobEnd::Failed(error@),
{
    if 0 <= i < run.depots@.len() {
        assert(texts(run.depots@)[i] == run.depots@[i]@);
    }
}

} // verus!
