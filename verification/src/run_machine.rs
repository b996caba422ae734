//! The course of a run as a machine: what is done next, and what each result leads to.
use crate::batch::{
    announcement, closing_events, ends_once, job_end, law_progress_is_bounded, lemma_quiet_concat,
    opening_events, quiet, request_error, skip_text, JobEnd, TotalsView,
};
use crate::batch::{jobs_collected, open_run, output_prepared, steam_located, BatchRun, RunStep};
use crate::job::JobSummary;
use crate::jobs::{jobs_for_directory, lemma_jobs_where_eligible, some_eligible};
use crate::jobs::{jobs_of_run, LuaFound};
use crate::modes::RunMode;
use crate::session::{event_views, in_percent, EventView};
use crate::session::{RunRequest, WorkerEvent};
use crate::text::{decimal, texts, trimmed};
use vstd::prelude::*;

verus! {

/// How far a run has come, and what it has gathered on its way.
pub enum RunMachine {
    /// The installation is looked for.
    Locating { request: RunRequest },
    /// The output directory is made.
    Preparing { request: RunRequest, steam_path: String },
    /// The Lua files are collected.
    Collecting { request: RunRequest, steam_path: String, output_path: String },
    /// The jobs are done in turn.
    Working { run: BatchRun, steam_path: String, output_path: String },
    /// The run is over.
    Over,
}

/// What is to be done next.
#[derive(Clone, Copy, Debug, PartialEq, Eq, Structural)]
pub enum RunAction {
    FindInstallation,
    PrepareOutput,
    /// Look up the Lua file of the app.
    FindLuaFile,
    /// Read the Lua directory.
    ScanLuaDirectory,
    /// Do the job with this number.
    RunJob(usize),
    /// Tell how long the jobs took.
    ReadClock,
    Stop,
}

/// What came of the last action.
pub enum RunInput {
    /// Where the installation is, if it was found.
    Installation(Option<String>),
    /// Where the output goes, if the directory could be made.
    Output(Option<String>),
    /// What was found of the Lua files.
    Lua(LuaFound),
    /// What came of a job.
    Job(Result<JobSummary, String>),
    /// How many seconds the jobs took.
    Elapsed(u64),
}

/// A step of the machine: where it stands now, and what it tells the session.
pub struct RunTurn {
    pub machine: RunMachine,
    pub events: Vec<WorkerEvent>,
}

/// The figures of the run can take what came of the job.
pub open spec fn room_for(totals: TotalsView, end: JobEnd) -> bool {
    match end {
        JobEnd::Done(job) => totals.with_job(Seq::empty(), job).fits(),
        JobEnd::Failed(_) => totals.failed < usize::MAX,
    }
}

/// The announcement of the next job, if there is one.
pub open spec fn next_announcement(run: BatchRun) -> Seq<EventView> {
    if run.cursor < run.jobs@.len() {
        announcement(
            run.jobs@[run.cursor as int].app_id@,
            run.jobs@[run.cursor as int].lua_path@,
            run.cursor as nat,
            run.jobs@.len(),
        )
    } else {
        Seq::empty()
    }
}

impl RunTurn {
    /// The run is over, and these events and the error were told.
    pub open spec fn stopped(&self, events: Seq<EventView>, error: Seq<char>) -> bool {
        self.machine is Over && event_views(self.events@) == events.push(EventView::Failed(error))
    }

    /// The turn says that the worker is done exactly where the run is over, and then with
    /// its last event.
    pub open spec fn tells_the_end(&self) -> bool {
        if self.machine is Over {
            ends_once(event_views(self.events@))
        } else {
            quiet(event_views(self.events@))
        }
    }
}

/// Appends the announcement of the next job.
fn announce_next(run: &BatchRun, events: Vec<WorkerEvent>) -> (all: Vec<WorkerEvent>)
    ensures
        event_views(all@) == event_views(events@) + next_announcement(*run),
        quiet(event_views(events@)) ==> quiet(event_views(all@)),
        in_percent(event_views(events@)) ==> in_percent(event_views(all@)),
{
    let mut all: Vec<WorkerEvent> = events;
    let ghost told = event_views(events@);
    let ghost next = next_announcement(*run);
    match run.announce() {
        Some(more) => {
            let mut more: Vec<WorkerEvent> = more;
            let ghost added = more@;
            all.append(&mut more);
            assert(event_views(all@) =~= told + event_views(added));
            proof {
                law_progress_is_bounded(run.cursor as int, run.jobs@.len() as int);
            }
        },
        None => {
            assert(event_views(all@) =~= told + next);
        },
    }
    proof {
        assert(quiet(next) && in_percent(next));
        if quiet(told) {
            lemma_quiet_concat(told, next);
        }
        assert forall|i: int| 0 <= i < (told + next).len() && in_percent(told) implies ((
        #[trigger] (told + next)[i]) matches EventView::Progress(progress) ==> progress <= 100) by {
            if i < told.len() {
                assert((told + next)[i] == told[i]);
            } else {
                assert((told + next)[i] == next[i - told.len()]);
            }
        }
    }
    all
}

impl RunMachine {
    /// What holds of the machine at every stage: the jobs are well formed, and a run for
    /// one app has exactly one job, which is for that app.
    pub open spec fn well_formed(&self) -> bool {
        self matches RunMachine::Working { run, .. } ==> {
            &&& run.well_formed()
            &&& run.request.run_mode == RunMode::SingleApp ==> run.jobs@.len() == 1
                && run.jobs@[0].app_id@ == trimmed(run.request.app_id@)
        }
    }

    /// How many stages are still to come.
    pub open spec fn stages_left(&self) -> nat {
        match *self {
            RunMachine::Locating { .. } => 4,
            RunMachine::Preparing { .. } => 3,
            RunMachine::Collecting { .. } => 2,
            RunMachine::Working { .. } => 1,
            RunMachine::Over => 0,
        }
    }

    /// How many jobs are still to be done.
    pub open spec fn jobs_left(&self) -> int {
        match *self {
            RunMachine::Working { run, .. } => run.jobs@.len() - run.cursor,
            _ => 0,
        }
    }

    /// The machine is nearer to the end than the other: by a stage, or by a job.
    pub open spec fn beyond(&self, other: RunMachine) -> bool {
        ||| self.stages_left() < other.stages_left()
        ||| self.stages_left() == other.stages_left() && 0 <= self.jobs_left() < other.jobs_left()
    }

    /// The input is what the machine waits for.
    pub open spec fn expects(&self, input: RunInput) -> bool {
        match (*self, input) {
            (RunMachine::Locating { .. }, RunInput::Installation(_)) => true,
            (RunMachine::Preparing { .. }, RunInput::Output(_)) => true,
            (RunMachine::Collecting { request, .. }, RunInput::Lua(found)) => found.suits(
                request.run_mode,
            ),
            (RunMachine::Working { run, .. }, RunInput::Job(outcome)) => {
                &&& run.cursor < run.jobs@.len()
                &&& room_for(run.totals@, job_end(outcome))
            },
            (RunMachine::Working { run, .. }, RunInput::Elapsed(_)) => run.cursor
                >= run.jobs@.len(),
            _ => false,
        }
    }

    /// What is to be done next.
    pub fn action(&self) -> (r: RunAction)
        ensures
            r == (match *self {
                RunMachine::Locating { .. } => RunAction::FindInstallation,
                RunMachine::Preparing { .. } => RunAction::PrepareOutput,
                RunMachine::Collecting { request, .. } => match request.run_mode {
                    RunMode::SingleApp => RunAction::FindLuaFile,
                    RunMode::FullRebase => RunAction::ScanLuaDirectory,
                },
                RunMachine::Working { run, .. } => if run.cursor < run.jobs@.len() {
                    RunAction::RunJob(run.cursor)
                } else {
                    RunAction::ReadClock
                },
                RunMachine::Over => RunAction::Stop,
            }),
    {
        match self {
            RunMachine::Locating { .. } => RunAction::FindInstallation,
            RunMachine::Preparing { .. } => RunAction::PrepareOutput,
            RunMachine::Collecting { request, .. } => match request.run_mode {
                RunMode::SingleApp => RunAction::FindLuaFile,
                RunMode::FullRebase => RunAction::ScanLuaDirectory,
            },
            RunMachine::Working { run, .. } => {
                if run.cursor < run.jobs.len() {
                    RunAction::RunJob(run.cursor)
                } else {
                    RunAction::ReadClock
                }
            },
            RunMachine::Over => RunAction::Stop,
        }
    }

    /// Whether the input is what the machine waits for.
    pub fn awaits(&self, input: &RunInput) -> (r: bool)
        ensures
            r == self.expects(*input),
    {
        match (self, input) {
            (RunMachine::Locating { .. }, RunInput::Installation(_)) => true,
            (RunMachine::Preparing { .. }, RunInput::Output(_)) => true,
            (RunMachine::Collecting { request, .. }, RunInput::Lua(found)) => found.fits(
                request.run_mode,
            ),
            (RunMachine::Working { run, .. }, RunInput::Job(outcome)) => {
                run.cursor < run.jobs.len() && run.has_room_for(outcome)
            },
            (RunMachine::Working { run, .. }, RunInput::Elapsed(_)) => run.cursor
                >= run.jobs.len(),
            _ => false,
        }
    }

    /// Starts a run: the request is checked before anything else is done.
    pub fn start(request: RunRequest) -> (turn: RunTurn)
        ensures
            turn.machine.well_formed(),
            turn.tells_the_end(),
            in_percent(event_views(turn.events@)),
            starts(request, turn),
    {
        let step: RunStep = open_run(&request);
        if step.proceed {
            RunTurn { machine: RunMachine::Locating { request }, events: step.events }
        } else {
            RunTurn { machine: RunMachine::Over, events: step.events }
        }
    }

    /// The installation was looked for.
    fn after_installation(request: RunRequest, path: Option<String>) -> (turn: RunTurn)
        ensures
            turn.tells_the_end(),
            in_percent(event_views(turn.events@)),
            match path {
                Some(path) => {
                    &&& turn.machine == (RunMachine::Preparing { request, steam_path: path })
                    &&& event_views(turn.events@) == seq![
                        EventView::Log("[+] Steam found at "@ + path@),
                    ]
                },
                None => turn.stopped(Seq::empty(), "Steam installation not found"@),
            },
    {
        match path {
            Some(path) => {
                let step: RunStep = steam_located(Some(path.as_str()));
                RunTurn {
                    machine: RunMachine::Preparing { request, steam_path: path },
                    events: step.events,
                }
            },
            None => {
                let step: RunStep = steam_located(None);
                RunTurn { machine: RunMachine::Over, events: step.events }
            },
        }
    }

    /// The output directory was made, or could not be.
    fn after_output(request: RunRequest, steam_path: String, path: Option<String>) -> (turn:
        RunTurn)
        ensures
            turn.tells_the_end(),
            in_percent(event_views(turn.events@)),
            match path {
                Some(path) => {
                    &&& turn.machine == (RunMachine::Collecting {
                        request,
                        steam_path,
                        output_path: path,
                    })
                    &&& event_views(turn.events@) == seq![
                        EventView::Log("[*] Output: "@ + path@),
                        EventView::Progress(15),
                    ]
                },
                None => turn.stopped(Seq::empty(), "Unable to create depotcache directory"@),
            },
    {
        match path {
            Some(path) => {
                let step: RunStep = output_prepared(Some(path.as_str()));
                RunTurn {
                    machine: RunMachine::Collecting { request, steam_path, output_path: path },
                    events: step.events,
                }
            },
            None => {
                let step: RunStep = output_prepared(None);
                RunTurn { machine: RunMachine::Over, events: step.events }
            },
        }
    }

    /// The Lua files were looked for.
    fn after_lua(
        request: RunRequest,
        steam_path: String,
        output_path: String,
        found: LuaFound,
    ) -> (turn: RunTurn)
        requires
            found.suits(request.run_mode),
        ensures
            turn.machine.well_formed(),
            turn.tells_the_end(),
            in_percent(event_views(turn.events@)),
            lua_leads_to(request, steam_path, output_path, found, turn),
    {
        let ghost seen = found;
        match jobs_of_run(request.app_id.as_str(), found) {
            Ok(jobs) => {
                let ghost all = jobs@;
                let step: RunStep = jobs_collected(Ok(jobs.len()));
                proof {
                    if seen is Directory {
                        lemma_jobs_where_eligible(seen->Directory_0->Ok_0@, all);
                    }
                }
                if step.proceed {
                    let run: BatchRun = BatchRun::new(request, jobs);
                    let events: Vec<WorkerEvent> = announce_next(&run, step.events);
                    RunTurn { machine: RunMachine::Working { run, steam_path, output_path }, events }
                } else {
                    RunTurn { machine: RunMachine::Over, events: step.events }
                }
            },
            Err(error) => {
                let step: RunStep = jobs_collected(Err(error));
                RunTurn { machine: RunMachine::Over, events: step.events }
            },
        }
    }

    /// A job is over.
    fn after_job(
        run: BatchRun,
        steam_path: String,
        output_path: String,
        outcome: Result<JobSummary, String>,
    ) -> (turn: RunTurn)
        requires
            (RunMachine::Working { run, steam_path, output_path }).well_formed(),
            run.cursor < run.jobs@.len(),
            room_for(run.totals@, job_end(outcome)),
        ensures
            turn.machine.well_formed(),
            turn.tells_the_end(),
            in_percent(event_views(turn.events@)),
            job_leads_to(run, steam_path, output_path, job_end(outcome), turn),
    {
        let mut run: BatchRun = run;
        let step: RunStep = run.job_finished(outcome);
        if step.proceed {
            let events: Vec<WorkerEvent> = announce_next(&run, step.events);
            assert(Seq::<EventView>::empty() + next_announcement(run) =~= next_announcement(run));
            RunTurn { machine: RunMachine::Working { run, steam_path, output_path }, events }
        } else {
            RunTurn { machine: RunMachine::Over, events: step.events }
        }
    }

    /// Takes what came of the last action.
    pub fn advance(self, input: RunInput) -> (turn: RunTurn)
        requires
            self.well_formed(),
            self.expects(input),
        ensures
            turn.machine.well_formed(),
            turn.machine.beyond(self),
            turn.tells_the_end(),
            in_percent(event_views(turn.events@)),
            leads_to(self, input, turn),
    {
        match (self, input) {
            (RunMachine::Locating { request }, RunInput::Installation(path)) => {
                Self::after_installation(request, path)
            },
            (RunMachine::Preparing { request, steam_path }, RunInput::Output(path)) => {
                Self::after_output(request, steam_path, path)
            },
            (
                RunMachine::Collecting { request, steam_path, output_path },
                RunInput::Lua(found),
            ) => Self::after_lua(request, steam_path, output_path, found),
            (RunMachine::Working { run, steam_path, output_path }, RunInput::Job(outcome)) => {
                Self::after_job(run, steam_path, output_path, outcome)
            },
            (RunMachine::Working { run, steam_path, output_path }, RunInput::Elapsed(seconds)) => {
                let events: Vec<WorkerEvent> = run.complete(steam_path, output_path, seconds);
                RunTurn { machine: RunMachine::Over, events }
            },
            _ => RunTurn { machine: RunMachine::Over, events: Vec::new() },
        }
    }
}

/// What a request leads to: the request is checked, and the search for the installation
/// announced.
pub open spec fn starts(request: RunRequest, turn: RunTurn) -> bool {
    match request_error(request@) {
        Some(error) => turn.stopped(seq![EventView::Reset], error),
        None => {
            &&& turn.machine == (RunMachine::Locating { request })
            &&& event_views(turn.events@) == opening_events(request@)
        },
    }
}

/// What an input leads to, stage by stage.
pub open spec fn leads_to(machine: RunMachine, input: RunInput, turn: RunTurn) -> bool {
    match (machine, input) {
        (RunMachine::Locating { request }, RunInput::Installation(Some(path))) => {
            &&& turn.machine == (RunMachine::Preparing { request, steam_path: path })
            &&& event_views(turn.events@) == seq![
                EventView::Log("[+] Steam found at "@ + path@),
            ]
        },
        (RunMachine::Locating { .. }, RunInput::Installation(None)) => turn.stopped(
            Seq::empty(),
            "Steam installation not found"@,
        ),
        (RunMachine::Preparing { request, steam_path }, RunInput::Output(Some(path))) => {
            &&& turn.machine == (RunMachine::Collecting {
                request,
                steam_path,
                output_path: path,
            })
            &&& event_views(turn.events@) == seq![
                EventView::Log("[*] Output: "@ + path@),
                EventView::Progress(15),
            ]
        },
        (RunMachine::Preparing { .. }, RunInput::Output(None)) => turn.stopped(
            Seq::empty(),
            "Unable to create depotcache directory"@,
        ),
        (
            RunMachine::Collecting { request, steam_path, output_path },
            RunInput::Lua(found),
        ) => lua_leads_to(request, steam_path, output_path, found, turn),
        (
            RunMachine::Working { run, steam_path, output_path },
            RunInput::Job(outcome),
        ) => job_leads_to(run, steam_path, output_path, job_end(outcome), turn),
        (
            RunMachine::Working { run, steam_path, output_path },
            RunInput::Elapsed(seconds),
        ) => {
            &&& turn.machine is Over
            &&& event_views(turn.events@) == closing_events(
                if run.totals.failed == 0 {
                    "Run completed"@
                } else {
                    "Run completed with "@ + decimal(run.totals.failed as nat)
                        + " errors"@
                },
                run.summary_view(steam_path@, output_path@, seconds as nat),
            )
        },
        _ => false,
    }
}

/// The jobs begin: none is done yet, and the first is announced.
pub open spec fn begins_jobs(
    request: RunRequest,
    steam_path: String,
    output_path: String,
    turn: RunTurn,
) -> bool {
    &&& turn.machine matches RunMachine::Working {
        run,
        steam_path: steam,
        output_path: output,
    }
    &&& steam == steam_path
    &&& output == output_path
    &&& run.request == request
    &&& run.jobs@.len() > 0
    &&& run.cursor == 0
    &&& run.totals@ == TotalsView::none()
    &&& run.depot_set() == Set::<Seq<char>>::empty()
    &&& event_views(turn.events@) == seq![
        EventView::Log(
            "[+] Collected "@ + decimal(run.jobs@.len()) + " Lua file(s) to process"@,
        ),
    ] + next_announcement(run)
}

/// What the search for the Lua files leads to. A run for one app has one job, for the file
/// of that app; a run over all files has a job for each Lua file of the directory that is
/// named by an app id. Without a job the run is over.
pub open spec fn lua_leads_to(
    request: RunRequest,
    steam_path: String,
    output_path: String,
    found: LuaFound,
    turn: RunTurn,
) -> bool {
    match found {
        LuaFound::NoDirectory { dir } => turn.stopped(
            Seq::empty(),
            "Lua directory not found: "@ + dir@,
        ),
        LuaFound::File { path, exists } => if exists {
            &&& begins_jobs(request, steam_path, output_path, turn)
            &&& turn.machine->run.jobs@.len() == 1
            &&& turn.machine->run.jobs@[0].app_id@ == trimmed(request.app_id@)
            &&& turn.machine->run.jobs@[0].lua_path@ == path@
            &&& turn.machine->run.jobs@[0].source == 0
        } else {
            turn.stopped(Seq::empty(), "Lua file not found: "@ + path@)
        },
        LuaFound::Directory(Ok(entries)) => if some_eligible(entries@) {
            &&& begins_jobs(request, steam_path, output_path, turn)
            &&& jobs_for_directory(entries@, turn.machine->run.jobs@)
        } else {
            turn.stopped(Seq::empty(), "No eligible Lua files were found."@)
        },
        LuaFound::Directory(Err(error)) => turn.stopped(Seq::empty(), error@),
    }
}

/// What the end of a job leads to. The figures and the depots take it up, and the next
/// job is announced; but a job that could not be done ends a run for one app.
pub open spec fn job_leads_to(
    run: BatchRun,
    steam_path: String,
    output_path: String,
    end: JobEnd,
    turn: RunTurn,
) -> bool {
    let app_id = run.jobs@[run.cursor as int].app_id@;
    if end is Failed && run.request.run_mode == RunMode::SingleApp {
        turn.stopped(Seq::empty(), end->Failed_0)
    } else {
        &&& turn.machine matches RunMachine::Working {
            run: next,
            steam_path: steam,
            output_path: output,
        }
        &&& steam == steam_path
        &&& output == output_path
        &&& next.request == run.request
        &&& next.jobs == run.jobs
        &&& next.cursor == run.cursor + 1
        &&& match end {
            JobEnd::Done(job) => {
                &&& next.totals@ == run.totals@.with_job(app_id, job)
                &&& next.depot_set() == run.depot_set().union(job.depot_ids.to_set())
                &&& event_views(turn.events@) == next_announcement(next)
            },
            JobEnd::Failed(error) => {
                &&& next.totals@ == run.totals@.with_error(app_id, error)
                &&& next.depot_set() == run.depot_set()
                &&& event_views(turn.events@) == seq![
                    EventView::Log("[-] "@ + skip_text(app_id, error)),
                ] + next_announcement(next)
            },
        }
    }
}

/// A request that is refused ends the run at once with the reason; every other one starts
/// the search for the installation.
pub proof fn law_run_checks_the_request(request: RunRequest, turn: RunTurn)
    requires
        starts(request, turn),
    ensures
        request_error(request@) matches Some(error) ==> {
            &&& turn.machine is Over
            &&& turn.events@.len() == 2
            &&& turn.events@[0]@ is Reset
            &&& turn.events@[1]@ == EventView::Failed(error)
        },
        request_error(request@) is None ==> {
            &&& turn.machine == (RunMachine::Locating { request })
            &&& event_views(turn.events@) == opening_events(request@)
        },
{
    if let Some(error) = request_error(request@) {
        assert(event_views(turn.events@).len() == turn.events@.len());
        assert(event_views(turn.events@)[0] == turn.events@[0]@);
        assert(event_views(turn.events@)[1] == turn.events@[1]@);
    }
}

/// A run needs an installation and an output directory: it tells where they are, and ends
/// where one of them is missing.
pub proof fn law_run_needs_its_directories(
    machine: RunMachine,
    path: Option<String>,
    turn: RunTurn,
)
    ensures
        machine is Locating && leads_to(machine, RunInput::Installation(path), turn) ==> {
            if path is None {
                &&& turn.machine is Over
                &&& turn.events@.len() == 1
                &&& turn.events@[0]@ == EventView::Failed("Steam installation not found"@)
            } else {
                &&& turn.machine matches RunMachine::Preparing { request, steam_path }
                &&& request == machine->Locating_request
                &&& steam_path@ == path->0@
                &&& turn.events@.len() == 1
                &&& turn.events@[0]@ == EventView::Log("[+] Steam found at "@ + path->0@)
            }
        },
        machine is Preparing && leads_to(machine, RunInput::Output(path), turn) ==> {
            if path is None {
                &&& turn.machine is Over
                &&& turn.events@.len() == 1
                &&& turn.events@[0]@ == EventView::Failed("Unable to create depotcache directory"@)
            } else {
                &&& turn.machine matches RunMachine::Collecting { request, steam_path, output_path }
                &&& request == machine->Preparing_request
                &&& steam_path == machine->Preparing_steam_path
                &&& output_path@ == path->0@
                &&& turn.events@.len() == 2
                &&& turn.events@[0]@ == EventView::Log("[*] Output: "@ + path->0@)
                &&& turn.events@[1]@ == EventView::Progress(15)
            }
        },
{
    assert(event_views(turn.events@).len() == turn.events@.len());
    if turn.events@.len() > 0 {
        assert(event_views(turn.events@)[0] == turn.events@[0]@);
    }
    if turn.events@.len() > 1 {
        assert(event_views(turn.events@)[1] == turn.events@[1]@);
    }
}

/// Without a Lua file for it a run ends with the reason.
pub proof fn law_run_needs_lua_files(machine: RunMachine, found: LuaFound, turn: RunTurn)
    requires
        machine is Collecting,
        leads_to(machine, RunInput::Lua(found), turn),
        turn.machine is Over,
    ensures
        turn.events@.len() == 1,
        turn.events@[0]@ == EventView::Failed(
            match found {
                LuaFound::NoDirectory { dir } => "Lua directory not found: "@ + dir@,
                LuaFound::File { path, .. } => "Lua file not found: "@ + path@,
                LuaFound::Directory(Ok(_)) => "No eligible Lua files were found."@,
                LuaFound::Directory(Err(error)) => error@,
            },
        ),
        found matches LuaFound::File { exists: there, .. } ==> !there,
        found matches LuaFound::Directory(Ok(entries)) ==> forall|e: int|
            0 <= e < entries@.len() ==> !(#[trigger] entries@[e]).is_eligible(),
{
    assert(event_views(turn.events@).len() == turn.events@.len());
    assert(event_views(turn.events@)[0] == turn.events@[0]@);
}

/// With a Lua file for it a run begins its jobs, in the same directories and for the same
/// request, with no figures yet; it tells their number, and announces the first of them.
pub proof fn law_run_begins_its_jobs(machine: RunMachine, found: LuaFound, turn: RunTurn)
    requires
        machine is Collecting,
        leads_to(machine, RunInput::Lua(found), turn),
        !(turn.machine is Over),
    ensures
        turn.machine matches RunMachine::Working { run, steam_path, output_path } && {
            &&& steam_path == machine->Collecting_steam_path
            &&& output_path == machine->Collecting_output_path
            &&& run.request == machine->Collecting_request
            &&& run.cursor == 0 && run.jobs@.len() > 0
            &&& run.totals.app_count == 0 && run.totals.total == 0 && run.totals.downloaded == 0
            &&& run.totals.skipped == 0 && run.totals.unavailable == 0 && run.totals.failed == 0
            &&& run.totals.failed_apps == 0 && run.totals.downloaded_bytes == 0
            &&& run.totals.recent_errors@.len() == 0 && run.depots@.len() == 0
            &&& found matches LuaFound::File { path, exists: there } ==> there && run.jobs@.len()
                == 1 && run.jobs@[0].app_id@ == trimmed(run.request.app_id@)
                && run.jobs@[0].lua_path@ == path@
            &&& found matches LuaFound::Directory(Ok(entries)) ==> jobs_for_directory(
                entries@,
                run.jobs@,
            )
            &&& event_views(turn.events@) == seq![
                EventView::Log(
                    "[+] Collected "@ + decimal(run.jobs@.len()) + " Lua file(s) to process"@,
                ),
            ] + announcement(run.jobs@[0].app_id@, run.jobs@[0].lua_path@, 0, run.jobs@.len())
        },
        !(found is NoDirectory) && !(found matches LuaFound::Directory(Err(_))),
{
    let run = turn.machine->run;
    assert(run.totals@.app_count == 0);
    assert(texts(run.totals.recent_errors@).len() == 0);
    if run.depots@.len() > 0 {
        assert(texts(run.depots@)[0] == run.depots@[0]@);
        assert(run.depot_set().contains(run.depots@[0]@));
    }
}

/// A job that could not be done ends a run for one app with its error. Every other job is
/// counted, its depots are taken up, and the next one is announced; a job that could not be
/// done is told in the log.
pub proof fn law_run_takes_each_job(
    run: BatchRun,
    steam_path: String,
    output_path: String,
    outcome: Result<JobSummary, String>,
    turn: RunTurn,
)
    requires
        run.cursor < run.jobs@.len(),
        leads_to(
            (RunMachine::Working { run, steam_path, output_path }),
            RunInput::Job(outcome),
            turn,
        ),
    ensures
        run.request.run_mode is SingleApp ==> (outcome matches Err(error) ==> turn.machine is Over
            && turn.events@.len() == 1 && turn.events@[0]@ == EventView::Failed(error@)),
        outcome is Ok || run.request.run_mode is FullRebase ==> {
            &&& turn.machine matches RunMachine::Working {
                run: next,
                steam_path: steam,
                output_path: output,
            }
            &&& steam == steam_path && output == output_path
            &&& next.request == run.request && next.jobs == run.jobs
            &&& next.cursor == run.cursor + 1
            &&& outcome matches Ok(job) ==> next.totals@ == run.totals@.with_job(
                run.jobs@[run.cursor as int].app_id@,
                job@,
            )
            &&& outcome matches Err(error) ==> next.totals@ == run.totals@.with_error(
                run.jobs@[run.cursor as int].app_id@,
                error@,
            )
            &&& forall|id: Seq<char>| #[trigger]
                next.depot_set().contains(id) <==> run.depot_set().contains(id) || (
                outcome matches Ok(job) && texts(job.depot_ids@).contains(id))
            &&& event_views(turn.events@) == (match outcome {
                Ok(_) => Seq::empty(),
                Err(error) => seq![
                    EventView::Log(
                        "[-] "@ + ("App "@ + run.jobs@[run.cursor as int].app_id@ + " skipped: "@
                            + error@),
                    ),
                ],
            }) + (if run.cursor + 1 < run.jobs@.len() {
                announcement(
                    run.jobs@[run.cursor + 1].app_id@,
                    run.jobs@[run.cursor + 1].lua_path@,
                    (run.cursor + 1) as nat,
                    run.jobs@.len(),
                )
            } else {
                Seq::empty()
            })
        },
{
    assert(event_views(turn.events@).len() == turn.events@.len());
    if outcome is Err && run.request.run_mode is SingleApp {
        assert(event_views(turn.events@)[0] == turn.events@[0]@);
    } else {
        let next = turn.machine->run;
        let rest = next_announcement(next);
        assert(Seq::<EventView>::empty() + rest =~= rest);
        assert forall|id: Seq<char>| #[trigger]
            next.depot_set().contains(id) <==> run.depot_set().contains(id) || (
            outcome matches Ok(job) && texts(job.depot_ids@).contains(id)) by {
            if let Ok(job) = outcome {
                assert(texts(job.depot_ids@).to_set().contains(id) <==> texts(
                    job.depot_ids@,
                ).contains(id));
            }
        }
    }
}

/// After its jobs a run is over; it tells whether there were failures, and how many.
pub proof fn law_run_is_completed(
    run: BatchRun,
    steam_path: String,
    output_path: String,
    seconds: u64,
    turn: RunTurn,
)
    requires
        leads_to(
            (RunMachine::Working { run, steam_path, output_path }),
            RunInput::Elapsed(seconds),
            turn,
        ),
    ensures
        turn.machine is Over,
        turn.events@.len() == 5,
        turn.events@[0]@ == EventView::Progress(100),
        run.totals.failed == 0 ==> turn.events@[1]@ == EventView::Status("Run completed"@),
        run.totals.failed > 0 ==> turn.events@[1]@ == EventView::Status(
            "Run completed with "@ + decimal(run.totals.failed as nat) + " errors"@,
        ),
        turn.events@[2]@ == EventView::Log("[+] Processing complete."@),
        turn.events@[3]@ == EventView::Summary(
            run.summary_view(steam_path@, output_path@, seconds as nat),
        ),
        turn.events@[4]@ is Finished,
{
    assert(event_views(turn.events@).len() == turn.events@.len());
    assert(event_views(turn.events@)[0] == turn.events@[0]@);
    assert(event_views(turn.events@)[1] == turn.events@[1]@);
    assert(event_views(turn.events@)[2] == turn.events@[2]@);
    assert(event_views(turn.events@)[3] == turn.events@[3]@);
    assert(event_views(turn.events@)[4] == turn.events@[4]@);
}

/// Each stage waits for what its action brings, and for nothing else; and a job is taken
/// only where the figures have room for it.
pub proof fn law_run_waits_for_its_input(machine: RunMachine, input: RunInput)
    ensures
        machine.expects(input) <==> {
            ||| machine is Locating && input is Installation
            ||| machine is Preparing && input is Output
            ||| machine is Collecting && (input matches RunInput::Lua(found) && found.suits(
                machine->Collecting_request.run_mode,
            ))
            ||| machine is Working && machine->run.cursor < machine->run.jobs@.len() && (
            input matches RunInput::Job(outcome) && match outcome {
                Ok(job) => machine->run.totals@.with_job(Seq::empty(), job@).fits(),
                Err(_) => machine->run.totals.failed < usize::MAX,
            })
            ||| machine is Working && machine->run.cursor >= machine->run.jobs@.len() && input
                is Elapsed
        },
{
}

} // verus!
