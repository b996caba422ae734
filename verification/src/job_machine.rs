//! The course of a job as a machine: what is done next, and what each result leads to.
use crate::batch::only_logs;
use crate::depots::{depot_pattern, first_groups};
use crate::download::DownloadResult;
use crate::job::{
    depots_announced, info_url, job_opening, job_queue, queue_announced, read_depots, InfoReply,
    JobRun, JobSummary,
};
use crate::job::{
    depots_announcement, depots_read, outcome_line, outcome_view, queue_made, OutcomeView,
    TallyView,
};
use crate::jobs::LuaJob;
use crate::manifest::item_views;
use crate::session::{event_views, EventView};
use crate::session::WorkerEvent;
use crate::text::{decimal, texts};
use vstd::prelude::*;

verus! {

/// How far a job has come, and what it has gathered on its way.
pub enum JobMachine {
    /// The Lua file is read.
    Reading { app_id: String, lua_path: String },
    /// The information service is asked.
    Fetching { app_id: String, depot_ids: Vec<String> },
    /// The manifests are downloaded in turn.
    Downloading { run: JobRun },
    /// The job is over.
    Done(Result<JobSummary, String>),
}

/// What is to be done next.
pub enum JobAction {
    /// Read the Lua file.
    ReadLua,
    /// Ask the information service at this address.
    FetchInfo { url: String },
    /// Do the download with this number.
    Download(usize),
    Stop,
}

/// What came of the last action.
pub enum JobInput {
    /// What the Lua file holds, if it could be read.
    Content(Option<String>),
    /// What the information service replied.
    Info(InfoReply),
    /// What came of a download; the text is the size of the file as it is shown.
    Download { outcome: Result<DownloadResult, String>, size_text: String },
}

/// A step of the machine: where it stands now, and what it tells the session.
pub struct JobTurn {
    pub machine: JobMachine,
    pub events: Vec<WorkerEvent>,
}

/// The event that announces a download.
pub open spec fn download_announcement(
    app_id: Seq<char>,
    item: (Seq<char>, Seq<char>),
) -> EventView {
    EventView::Log("[*] App "@ + app_id + " depot "@ + item.0 + " -> manifest "@ + item.1)
}

/// The announcement of the next download, if there is one.
pub open spec fn next_download(run: JobRun) -> Seq<EventView> {
    if run.cursor < run.queue@.len() {
        seq![download_announcement(run.app_id@, run.queue@[run.cursor as int]@)]
    } else {
        Seq::empty()
    }
}

impl JobTurn {
    /// The job is over with the error, and nothing more is told.
    pub open spec fn failed(&self, error: Seq<char>) -> bool {
        &&& self.machine matches JobMachine::Done(Err(message))
        &&& message@ == error
        &&& event_views(self.events@) == Seq::<EventView>::empty()
    }
}

fn failed_turn(error: String) -> (turn: JobTurn)
    ensures
        turn.failed(error@),
        turn.machine == JobMachine::Done(Err(error)),
{
    let events: Vec<WorkerEvent> = Vec::new();
    assert(event_views(events@) =~= Seq::<EventView>::empty());
    JobTurn { machine: JobMachine::Done(Err(error)), events }
}

/// What a download leads to: it is counted and reported, and the next one is announced;
/// after the last one the job is done.
pub open spec fn download_leads_to(
    run: JobRun,
    outcome: OutcomeView,
    size_text: Seq<char>,
    turn: JobTurn,
) -> bool {
    let line = EventView::Log(
        outcome_line(run.queue@[run.cursor as int].depot_id@, outcome, size_text),
    );
    let tally = run.tally().counting(outcome);
    match turn.machine {
        JobMachine::Downloading { run: next } => {
            &&& run.cursor + 1 < run.queue@.len()
            &&& next.app_id == run.app_id
            &&& next.depot_ids == run.depot_ids
            &&& next.queue == run.queue
            &&& next.cursor == run.cursor + 1
            &&& next.tally() == tally
            &&& event_views(turn.events@) == seq![line] + next_download(next)
        },
        JobMachine::Done(Ok(summary)) => {
            &&& run.cursor + 1 == run.queue@.len()
            &&& summary.depot_ids == run.depot_ids
            &&& summary.total == run.queue@.len()
            &&& summary.tally() == tally
            &&& summary@.balanced()
            &&& event_views(turn.events@) == seq![line]
        },
        _ => false,
    }
}

impl JobSummary {
    /// The figures of the job.
    pub open spec fn tally(&self) -> TallyView {
        TallyView {
            downloaded: self.downloaded as nat,
            skipped: self.skipped as nat,
            unavailable: self.unavailable as nat,
            failed: self.failed as nat,
            downloaded_bytes: self.downloaded_bytes as nat,
        }
    }
}

impl JobMachine {
    /// What holds of the machine at every stage.
    pub open spec fn well_formed(&self) -> bool {
        self matches JobMachine::Downloading { run } ==> run.well_formed() && run.cursor
            < run.queue@.len()
    }

    /// The input is what the machine waits for.
    pub open spec fn expects(&self, input: JobInput) -> bool {
        match (*self, input) {
            (JobMachine::Reading { .. }, JobInput::Content(_)) => true,
            (JobMachine::Fetching { .. }, JobInput::Info(_)) => true,
            (JobMachine::Downloading { run }, JobInput::Download { outcome, .. }) => run.takes(
                outcome_view(outcome),
            ),
            _ => false,
        }
    }

    /// How many stages are still to come.
    pub open spec fn stages_left(&self) -> nat {
        match *self {
            JobMachine::Reading { .. } => 3,
            JobMachine::Fetching { .. } => 2,
            JobMachine::Downloading { .. } => 1,
            JobMachine::Done(_) => 0,
        }
    }

    /// How many downloads are still to be done.
    pub open spec fn downloads_left(&self) -> int {
        match *self {
            JobMachine::Downloading { run } => run.queue@.len() - run.cursor,
            _ => 0,
        }
    }

    /// The machine is nearer to the end than the other: by a stage, or by a download.
    pub open spec fn beyond(&self, other: JobMachine) -> bool {
        ||| self.stages_left() < other.stages_left()
        ||| self.stages_left() == other.stages_left() && 0 <= self.downloads_left()
            < other.downloads_left()
    }

    /// Starts a job.
    pub fn start(job: &LuaJob) -> (turn: JobTurn)
        ensures
            turn.machine.well_formed(),
            only_logs(event_views(turn.events@)),
            turn.machine matches JobMachine::Reading { app_id, lua_path } && app_id@ == job.app_id@
                && lua_path@ == job.lua_path@,
            event_views(turn.events@) == seq![
                EventView::Log("[*] Reading Lua data for app "@ + job.app_id@),
            ],
    {
        let events: Vec<WorkerEvent> = vec![job_opening(job.app_id.as_str())];
        assert(event_views(events@) =~= seq![
            EventView::Log("[*] Reading Lua data for app "@ + job.app_id@),
        ]);
        JobTurn {
            machine: JobMachine::Reading {
                app_id: job.app_id.as_str().to_owned(),
                lua_path: job.lua_path.as_str().to_owned(),
            },
            events,
        }
    }

    /// What is to be done next.
    pub fn action(&self) -> (r: JobAction)
        ensures
            match (*self, r) {
                (JobMachine::Reading { .. }, JobAction::ReadLua) => true,
                (JobMachine::Fetching { app_id, .. }, JobAction::FetchInfo { url }) => url@
                    == "https://api.steamcmd.net/v1/info/"@ + app_id@,
                (JobMachine::Downloading { run }, JobAction::Download(index)) => index
                    == run.cursor,
                (JobMachine::Done(_), JobAction::Stop) => true,
                _ => false,
            },
    {
        match self {
            JobMachine::Reading { .. } => JobAction::ReadLua,
            JobMachine::Fetching { app_id, .. } => JobAction::FetchInfo {
                url: info_url(app_id.as_str()),
            },
            JobMachine::Downloading { run } => JobAction::Download(run.cursor),
            JobMachine::Done(_) => JobAction::Stop,
        }
    }

    /// Whether the input is what the machine waits for.
    pub fn awaits(&self, input: &JobInput) -> (r: bool)
        ensures
            r == self.expects(*input),
    {
        match (self, input) {
            (JobMachine::Reading { .. }, JobInput::Content(_)) => true,
            (JobMachine::Fetching { .. }, JobInput::Info(_)) => true,
            (JobMachine::Downloading { run }, JobInput::Download { outcome, .. }) => {
                run.has_room_for(outcome)
            },
            _ => false,
        }
    }

    /// The Lua file was read, or could not be.
    fn after_content(app_id: String, lua_path: String, content: Option<String>) -> (turn: JobTurn)
        ensures
            turn.machine.well_formed(),
            only_logs(event_views(turn.events@)),
            content_leads_to(app_id@, lua_path@, content, turn),
    {
        let read: Result<Vec<String>, String> = match &content {
            Some(text) => read_depots(lua_path.as_str(), Some(text.as_str())),
            None => read_depots(lua_path.as_str(), None),
        };
        match read {
            Ok(depot_ids) => {
                let events: Vec<WorkerEvent> = depots_announced(app_id.as_str(), depot_ids.len());
                JobTurn { machine: JobMachine::Fetching { app_id, depot_ids }, events }
            },
            Err(error) => failed_turn(error),
        }
    }

    /// The information service replied, or did not.
    fn after_info(app_id: String, depot_ids: Vec<String>, reply: InfoReply) -> (turn: JobTurn)
        ensures
            turn.machine.well_formed(),
            only_logs(event_views(turn.events@)),
            info_leads_to(app_id@, depot_ids, reply, turn),
    {
        match job_queue(app_id.as_str(), &depot_ids, &reply) {
            Ok(queue) => {
                let matched: WorkerEvent = queue_announced(app_id.as_str(), queue.len());
                let run: JobRun = JobRun::new(app_id, depot_ids, queue);
                let mut events: Vec<WorkerEvent> = vec![matched];
                if let Some(event) = run.announce() {
                    events.push(event);
                }
                assert(event_views(events@) =~= seq![matched@] + next_download(run));
                JobTurn { machine: JobMachine::Downloading { run }, events }
            },
            Err(error) => failed_turn(error),
        }
    }

    /// A download is over.
    fn after_download(
        run: JobRun,
        outcome: Result<DownloadResult, String>,
        size_text: String,
    ) -> (turn: JobTurn)
        requires
            run.well_formed(),
            run.cursor < run.queue@.len(),
            run.takes(outcome_view(outcome)),
        ensures
            turn.machine.well_formed(),
            only_logs(event_views(turn.events@)),
            download_leads_to(run, outcome_view(outcome), size_text@, turn),
    {
        let mut run: JobRun = run;
        let line: WorkerEvent = run.record(outcome, size_text.as_str());
        let mut events: Vec<WorkerEvent> = vec![line];
        match run.announce() {
            Some(event) => {
                events.push(event);
                assert(event_views(events@) =~= seq![line@] + next_download(run));
                JobTurn { machine: JobMachine::Downloading { run }, events }
            },
            None => {
                assert(event_views(events@) =~= seq![line@]);
                JobTurn { machine: JobMachine::Done(Ok(run.finish())), events }
            },
        }
    }

    /// Takes what came of the last action.
    pub fn advance(self, input: JobInput) -> (turn: JobTurn)
        requires
            self.well_formed(),
            self.expects(input),
        ensures
            turn.machine.well_formed(),
            turn.machine.beyond(self),
            only_logs(event_views(turn.events@)),
            leads_to(self, input, turn),
    {
        match (self, input) {
            (JobMachine::Reading { app_id, lua_path }, JobInput::Content(content)) => {
                Self::after_content(app_id, lua_path, content)
            },
            (JobMachine::Fetching { app_id, depot_ids }, JobInput::Info(reply)) => {
                Self::after_info(app_id, depot_ids, reply)
            },
            (JobMachine::Downloading { run }, JobInput::Download { outcome, size_text }) => {
                Self::after_download(run, outcome, size_text)
            },
            (machine, _) => JobTurn { machine, events: Vec::new() },
        }
    }
}

/// What an input leads to, stage by stage.
pub open spec fn leads_to(machine: JobMachine, input: JobInput, turn: JobTurn) -> bool {
    match (machine, input) {
        (JobMachine::Reading { app_id, lua_path }, JobInput::Content(content)) => content_leads_to(
            app_id@,
            lua_path@,
            content,
            turn,
        ),
        (JobMachine::Fetching { app_id, depot_ids }, JobInput::Info(reply)) => info_leads_to(
            app_id@,
            depot_ids,
            reply,
            turn,
        ),
        (JobMachine::Downloading { run }, JobInput::Download { outcome, size_text }) => {
            download_leads_to(run, outcome_view(outcome), size_text@, turn)
        },
        _ => false,
    }
}

/// What the Lua file leads to: the depots are announced and the information service is
/// asked; an error ends the job.
pub open spec fn content_leads_to(
    app_id: Seq<char>,
    lua_path: Seq<char>,
    content: Option<String>,
    turn: JobTurn,
) -> bool {
    let text = match content {
        Some(text) => Some(text@),
        None => None,
    };
    match turn.machine {
        JobMachine::Fetching { app_id: next_id, depot_ids } => {
            &&& depots_read(lua_path, text, Ok(texts(depot_ids@)))
            &&& next_id@ == app_id
            &&& event_views(turn.events@) == depots_announcement(app_id, depot_ids@.len())
        },
        JobMachine::Done(Err(error)) => depots_read(lua_path, text, Err(error@)) && turn.failed(
            error@,
        ),
        _ => false,
    }
}

/// What the reply of the information service leads to: the downloads are announced, and
/// the first of them begins; an error ends the job.
pub open spec fn info_leads_to(
    app_id: Seq<char>,
    depot_ids: Vec<String>,
    reply: InfoReply,
    turn: JobTurn,
) -> bool {
    match turn.machine {
        JobMachine::Downloading { run } => {
            &&& queue_made(app_id, texts(depot_ids@), reply, Ok(item_views(run.queue@)))
            &&& run.app_id@ == app_id
            &&& run.depot_ids == depot_ids
            &&& run.cursor == 0
            &&& run.tally() == TallyView::none()
            &&& event_views(turn.events@) == seq![
                EventView::Log(
                    "[+] App "@ + app_id + " matched "@ + decimal(run.queue@.len())
                        + " public manifests"@,
                ),
            ] + next_download(run)
        },
        JobMachine::Done(Err(error)) => queue_made(
            app_id,
            texts(depot_ids@),
            reply,
            Err(error@),
        ) && turn.failed(error@),
        _ => false,
    }
}

/// The figures of a job are those of the downloads that it has done: it begins with none,
/// and every download adds to them what came of it.
pub proof fn law_figures_follow_the_downloads(
    run: JobRun,
    outcomes: Seq<OutcomeView>,
    outcome: OutcomeView,
    size_text: Seq<char>,
    turn: JobTurn,
)
    requires
        run.tally() == TallyView::of(outcomes),
        download_leads_to(run, outcome, size_text, turn),
    ensures
        TallyView::of(Seq::empty()) == TallyView::none(),
        match turn.machine {
            JobMachine::Downloading { run: next } => next.tally() == TallyView::of(
                outcomes.push(outcome),
            ),
            JobMachine::Done(Ok(summary)) => summary.tally() == TallyView::of(
                outcomes.push(outcome),
            ),
            _ => false,
        },
{
    assert(outcomes.push(outcome).drop_last() =~= outcomes);
}

/// A job from its start: each turn but the first is what `JobMachine::advance` makes of the
/// turn before it and an input that it waits for.
pub open spec fn is_job_course(turns: Seq<JobTurn>, inputs: Seq<JobInput>) -> bool {
    &&& turns.len() == inputs.len() + 1
    &&& turns[0].machine is Reading
    &&& forall|i: int|
        #![trigger inputs[i]]
        0 <= i < inputs.len() ==> turns[i].machine.expects(inputs[i]) && leads_to(
            turns[i].machine,
            inputs[i],
            turns[i + 1],
        )
}

/// What came of the downloads of a job, in order.
pub open spec fn outcomes_of(inputs: Seq<JobInput>) -> Seq<OutcomeView>
    decreases inputs.len(),
{
    if inputs.len() == 0 {
        Seq::empty()
    } else {
        match inputs.last() {
            JobInput::Download { outcome, .. } => outcomes_of(inputs.drop_last()).push(
                outcome_view(outcome),
            ),
            _ => outcomes_of(inputs.drop_last()),
        }
    }
}

/// The figures of the machine are those of the downloads; before they begin there are
/// none.
pub open spec fn accounts_for(machine: JobMachine, outcomes: Seq<OutcomeView>) -> bool {
    match machine {
        JobMachine::Downloading { run } => {
            &&& run.cursor == outcomes.len()
            &&& run.tally() == TallyView::of(outcomes)
        },
        JobMachine::Done(Ok(summary)) => {
            &&& summary.total == outcomes.len()
            &&& summary.tally() == TallyView::of(outcomes)
            &&& summary@.balanced()
        },
        JobMachine::Done(Err(_)) => true,
        _ => outcomes.len() == 0,
    }
}

/// At every stage of a job its figures account for the downloads so far; so the figures of
/// a job that is done account for all its downloads, each of them under one heading.
pub proof fn law_job_accounts_for_its_downloads(
    turns: Seq<JobTurn>,
    inputs: Seq<JobInput>,
    i: int,
)
    requires
        is_job_course(turns, inputs),
        0 <= i <= inputs.len(),
    ensures
        accounts_for(turns[i].machine, outcomes_of(inputs.take(i))),
    decreases i,
{
    assert(inputs.take(0) =~= Seq::<JobInput>::empty());
    if i > 0 {
        let outcomes = outcomes_of(inputs.take(i - 1));
        law_job_accounts_for_its_downloads(turns, inputs, i - 1);
        assert(inputs.take(i).drop_last() =~= inputs.take(i - 1));
        assert(inputs.take(i).last() == inputs[i - 1]);
        match (turns[i - 1].machine, inputs[i - 1]) {
            (JobMachine::Downloading { run }, JobInput::Download { outcome, size_text }) => {
                law_figures_follow_the_downloads(
                    run,
                    outcomes,
                    outcome_view(outcome),
                    size_text@,
                    turns[i],
                );
            },
            _ => {
                assert(outcomes =~= Seq::<OutcomeView>::empty());
            },
        }
    }
}

/// A job reads its Lua file first. A file that cannot be read, or that names no depot, ends
/// the job with an error; otherwise the depots are announced and the information service is
/// asked for the same app.
pub proof fn law_job_reads_the_lua_file(
    machine: JobMachine,
    content: Option<String>,
    turn: JobTurn,
)
    requires
        machine is Reading,
        leads_to(machine, JobInput::Content(content), turn),
    ensures
        content is None ==> {
            &&& turn.machine matches JobMachine::Done(Err(error))
            &&& error@ == "Unable to read Lua file"@
            &&& turn.events@.len() == 0
        },
        content matches Some(text) ==> if first_groups(
            r#"addappid\s*\(\s*(\d+)\s*,\s*\d+\s*,\s*"[a-fA-F0-9]+""#@,
            text@,
        ).len() == 0 {
            &&& turn.machine matches JobMachine::Done(Err(error))
            &&& error@ == "No valid depot IDs were found in "@ + machine->lua_path@
            &&& turn.events@.len() == 0
        } else {
            &&& turn.machine matches JobMachine::Fetching { app_id, depot_ids }
            &&& app_id@ == machine->Reading_app_id@
            &&& texts(depot_ids@).to_set() == first_groups(
                r#"addappid\s*\(\s*(\d+)\s*,\s*\d+\s*,\s*"[a-fA-F0-9]+""#@,
                text@,
            ).to_set()
            &&& forall|i: int, j: int|
                0 <= i < j < depot_ids@.len() ==> crate::text::before(
                    (#[trigger] depot_ids@[i])@,
                    (#[trigger] depot_ids@[j])@,
                )
            &&& turn.events@.len() == 2
            &&& turn.events@[0]@ == EventView::Log(
                "[+] App "@ + app_id@ + " exposes "@ + decimal(depot_ids@.len()) + " depot IDs"@,
            )
            &&& turn.events@[1]@ == EventView::Log("[*] Fetching SteamCMD app info for "@ + app_id@)
        },
{
    assert(event_views(turn.events@).len() == turn.events@.len());
    if let Some(text) = content {
        let named = first_groups(depot_pattern(), text@);
        if let JobMachine::Fetching { app_id, depot_ids } = turn.machine {
            let ids = texts(depot_ids@);
            assert(ids.to_set().contains(ids[0]));
            assert(named.contains(ids[0]));
            assert(event_views(turn.events@)[0] == turn.events@[0]@);
            assert(event_views(turn.events@)[1] == turn.events@[1]@);
            assert forall|i: int, j: int| 0 <= i < j < depot_ids@.len() implies crate::text::before(
                (#[trigger] depot_ids@[i])@,
                (#[trigger] depot_ids@[j])@,
            ) by {
                assert(crate::text::before(ids[i], ids[j]));
            }
        }
    }
}

/// A reply that tells of manifests starts the downloads: they are announced by their number,
/// then the first of them is. Every other reply ends the job with an error.
pub proof fn law_job_takes_the_reply(machine: JobMachine, reply: InfoReply, turn: JobTurn)
    requires
        machine is Fetching,
        leads_to(machine, JobInput::Info(reply), turn),
    ensures
        !(turn.machine is Downloading) ==> {
            &&& turn.machine matches JobMachine::Done(Err(error))
            &&& queue_made(
                machine->Fetching_app_id@,
                texts(machine->depot_ids@),
                reply,
                Err(error@),
            )
            &&& turn.events@.len() == 0
        },
        turn.machine matches JobMachine::Downloading { run } ==> {
            &&& queue_made(
                machine->Fetching_app_id@,
                texts(machine->depot_ids@),
                reply,
                Ok(item_views(run.queue@)),
            )
            &&& run.app_id@ == machine->Fetching_app_id@
            &&& run.depot_ids@ == machine->depot_ids@
            &&& run.cursor == 0 && run.downloaded == 0 && run.skipped == 0 && run.unavailable == 0
                && run.failed == 0 && run.downloaded_bytes == 0
            &&& run.queue@.len() > 0
            &&& turn.events@.len() == 2
            &&& turn.events@[0]@ == EventView::Log(
                "[+] App "@ + run.app_id@ + " matched "@ + decimal(run.queue@.len())
                    + " public manifests"@,
            )
            &&& turn.events@[1]@ == EventView::Log(
                "[*] App "@ + run.app_id@ + " depot "@ + run.queue@[0].depot_id@
                    + " -> manifest "@ + run.queue@[0].manifest_id@,
            )
        },
{
    assert(event_views(turn.events@).len() == turn.events@.len());
    if let JobMachine::Downloading { run } = turn.machine {
        assert(item_views(run.queue@).len() == run.queue@.len());
        assert(event_views(turn.events@)[0] == turn.events@[0]@);
        assert(event_views(turn.events@)[1] == turn.events@[1]@);
        assert(run.tally().downloaded == 0);
    }
}

/// A download is reported and counted. The next one is then announced, and after the last
/// one the job is done, with the number of downloads and the figures.
pub proof fn law_job_counts_each_download(
    run: JobRun,
    outcome: Result<DownloadResult, String>,
    size_text: String,
    turn: JobTurn,
)
    requires
        run.cursor < run.queue@.len(),
        leads_to(
            JobMachine::Downloading { run },
            (JobInput::Download { outcome, size_text }),
            turn,
        ),
    ensures
        turn.events@.len() > 0,
        turn.events@[0]@ == EventView::Log(
            outcome_line(
                run.queue@[run.cursor as int].depot_id@,
                outcome_view(outcome),
                size_text@,
            ),
        ),
        run.cursor + 1 < run.queue@.len() ==> {
            &&& turn.machine matches JobMachine::Downloading { run: next }
            &&& next.app_id@ == run.app_id@
            &&& next.depot_ids@ == run.depot_ids@
            &&& next.queue@ == run.queue@
            &&& next.cursor == run.cursor + 1
            &&& next.tally() == run.tally().counting(outcome_view(outcome))
            &&& turn.events@.len() == 2
            &&& turn.events@[1]@ == EventView::Log(
                "[*] App "@ + run.app_id@ + " depot "@ + run.queue@[run.cursor + 1].depot_id@
                    + " -> manifest "@ + run.queue@[run.cursor + 1].manifest_id@,
            )
        },
        run.cursor + 1 == run.queue@.len() ==> {
            &&& turn.machine matches JobMachine::Done(Ok(summary))
            &&& summary.depot_ids@ == run.depot_ids@
            &&& summary.total == run.queue@.len()
            &&& summary.tally() == run.tally().counting(outcome_view(outcome))
            &&& turn.events@.len() == 1
        },
{
    assert(event_views(turn.events@).len() == turn.events@.len());
    assert(event_views(turn.events@)[0] == turn.events@[0]@);
    if run.cursor + 1 < run.queue@.len() {
        assert(event_views(turn.events@)[1] == turn.events@[1]@);
    }
}

/// Each stage waits for what its action brings, and for nothing else; and all of the figures
/// of a finished job are seen.
pub proof fn law_job_waits_for_its_input(
    machine: JobMachine,
    input: JobInput,
    summary: JobSummary,
)
    ensures
        machine.expects(input) <==> {
            ||| machine is Reading && input is Content
            ||| machine is Fetching && input is Info
            ||| machine is Downloading && (input matches JobInput::Download { outcome, .. }
                && machine->run.takes(outcome_view(outcome)))
        },
        summary.tally().downloaded == summary.downloaded,
        summary.tally().skipped == summary.skipped,
        summary.tally().unavailable == summary.unavailable,
        summary.tally().failed == summary.failed,
        summary.tally().downloaded_bytes == summary.downloaded_bytes,
{
}

} // verus!
