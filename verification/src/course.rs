//! Whole runs: what holds of a run from its request to its last event.
use crate::batch::{
    ends_once, job_end, job_progress, law_progress_is_bounded, law_progress_rises,
    law_run_is_accounted_for, lemma_ends_once_behind, lemma_quiet_concat, only_logs, quiet,
    totals_of, BatchRun, JobEnd, TotalsView,
};
use crate::depots::ascending;
use crate::display::ERROR_LIMIT;
use crate::jobs::LuaJob;
use crate::run_machine::{job_leads_to, leads_to, starts, RunInput, RunMachine, RunTurn};
use crate::session::{event_views, EventView, SummaryView};
use crate::session::RunRequest;
use vstd::prelude::*;

verus! {

// ---------------------------------------------------------------------------
// The course of a run
// ---------------------------------------------------------------------------

/// Each turn but the first is what `RunMachine::advance` makes of the turn before it and
/// an input that it waits for.
pub open spec fn follows(turns: Seq<RunTurn>, inputs: Seq<RunInput>) -> bool {
    &&& turns.len() == inputs.len() + 1
    &&& forall|i: int|
        0 <= i < turns.len() ==> (#[trigger] turns[i]).machine.well_formed()
            && turns[i].tells_the_end()
    &&& forall|i: int|
        #![trigger inputs[i]]
        0 <= i < inputs.len() ==> turns[i].machine.expects(inputs[i]) && leads_to(
            turns[i].machine,
            inputs[i],
            turns[i + 1],
        )
}

/// A run for the request, as `RunMachine::start` and `RunMachine::advance` make it of the
/// inputs.
pub open spec fn is_course(
    request: RunRequest,
    turns: Seq<RunTurn>,
    inputs: Seq<RunInput>,
) -> bool {
    follows(turns, inputs) && starts(request, turns[0])
}

proof fn lemma_follows_rest(turns: Seq<RunTurn>, inputs: Seq<RunInput>)
    requires
        follows(turns, inputs),
        inputs.len() > 0,
    ensures
        follows(turns.drop_first(), inputs.drop_first()),
        turns[0].machine.expects(inputs[0]),
        leads_to(turns[0].machine, inputs[0], turns[1]),
{
    let later = turns.drop_first();
    let rest = inputs.drop_first();
    assert(turns[0].machine.expects(inputs[0]));
    assert forall|i: int| 0 <= i < later.len() implies (
    #[trigger] later[i]).machine.well_formed() && later[i].tells_the_end() by {
        assert(later[i] == turns[i + 1]);
    }
    assert forall|i: int| #![trigger rest[i]] 0 <= i < rest.len() implies later[i].machine.expects(
        rest[i],
    ) && leads_to(later[i].machine, rest[i], later[i + 1]) by {
        assert(rest[i] == inputs[i + 1]);
        assert(later[i] == turns[i + 1] && later[i + 1] == turns[i + 2]);
    }
}

// ---------------------------------------------------------------------------
// The figures
// ---------------------------------------------------------------------------

/// The app ids of the jobs.
pub open spec fn app_ids(jobs: Seq<LuaJob>) -> Seq<Seq<char>> {
    Seq::new(jobs.len(), |i: int| jobs[i].app_id@)
}

/// The figures of a run are those of the jobs that it has done: it begins with none, and
/// as long as it goes on every job adds to them what came of it.
pub proof fn law_figures_follow_the_jobs(
    run: BatchRun,
    steam_path: String,
    output_path: String,
    ends: Seq<JobEnd>,
    end: JobEnd,
    turn: RunTurn,
)
    requires
        ends.len() == run.cursor < run.jobs@.len(),
        run.totals@ == totals_of(app_ids(run.jobs@), ends),
        job_leads_to(run, steam_path, output_path, end, turn),
    ensures
        totals_of(app_ids(run.jobs@), Seq::empty()) == TotalsView::none(),
        turn.machine matches RunMachine::Working { run: next, .. } ==> next.totals@ == totals_of(
            app_ids(next.jobs@),
            ends.push(end),
        ),
{
    assert(ends.push(end).drop_last() =~= ends);
    assert(app_ids(run.jobs@)[run.cursor as int] == run.jobs@[run.cursor as int].app_id@);
}

/// What came of the jobs of a run, in order.
pub open spec fn ends_of(inputs: Seq<RunInput>) -> Seq<JobEnd>
    decreases inputs.len(),
{
    if inputs.len() == 0 {
        Seq::empty()
    } else {
        match inputs.last() {
            RunInput::Job(outcome) => ends_of(inputs.drop_last()).push(job_end(outcome)),
            _ => ends_of(inputs.drop_last()),
        }
    }
}

/// The different depots of the jobs.
pub open spec fn depots_of(ends: Seq<JobEnd>) -> Set<Seq<char>>
    decreases ends.len(),
{
    if ends.len() == 0 {
        Set::empty()
    } else {
        match ends.last() {
            JobEnd::Done(job) => depots_of(ends.drop_last()).union(job.depot_ids.to_set()),
            JobEnd::Failed(_) => depots_of(ends.drop_last()),
        }
    }
}

/// Every job that was done counts each of its downloads under one heading.
pub open spec fn all_balanced(ends: Seq<JobEnd>) -> bool {
    forall|i: int|
        0 <= i < ends.len() ==> ((#[trigger] ends[i]) matches JobEnd::Done(job) ==> job.balanced())
}

/// The figures and the depots of the machine are those of the jobs; before the jobs begin
/// there are none.
pub open spec fn accounts_for(machine: RunMachine, ends: Seq<JobEnd>) -> bool {
    match machine {
        RunMachine::Working { run, .. } => {
            &&& run.cursor == ends.len()
            &&& run.totals@ == totals_of(app_ids(run.jobs@), ends)
            &&& run.depot_set() == depots_of(ends)
        },
        RunMachine::Over => true,
        _ => ends.len() == 0,
    }
}

proof fn lemma_course_accounts(
    request: RunRequest,
    turns: Seq<RunTurn>,
    inputs: Seq<RunInput>,
    i: int,
)
    requires
        is_course(request, turns, inputs),
        0 <= i <= inputs.len(),
    ensures
        accounts_for(turns[i].machine, ends_of(inputs.take(i))),
    decreases i,
{
    assert(inputs.take(0) =~= Seq::<RunInput>::empty());
    if i > 0 {
        let ends = ends_of(inputs.take(i - 1));
        lemma_course_accounts(request, turns, inputs, i - 1);
        assert(inputs.take(i).drop_last() =~= inputs.take(i - 1));
        assert(inputs.take(i).last() == inputs[i - 1]);
        assert(turns[i - 1].machine.well_formed());
        match (turns[i - 1].machine, inputs[i - 1]) {
            (RunMachine::Working { run, steam_path, output_path }, RunInput::Job(outcome)) => {
                let end = job_end(outcome);
                law_figures_follow_the_jobs(run, steam_path, output_path, ends, end, turns[i]);
                assert(ends.push(end).drop_last() =~= ends);
            },
            (RunMachine::Collecting { .. }, _) => {
                assert(ends =~= Seq::<JobEnd>::empty());
            },
            _ => {},
        }
    }
}

/// The summary accounts for the jobs: its figures and depots are those of the jobs, every
/// job is counted as done or as failed, what is counted beyond the downloads is one
/// failure for each job that could not be done, there are failures exactly where an app
/// failed, and one error is remembered for each failed app, up to the limit.
pub open spec fn summary_accounts_for(
    summary: SummaryView,
    jobs: Seq<LuaJob>,
    ends: Seq<JobEnd>,
) -> bool {
    let totals = totals_of(app_ids(jobs), ends);
    &&& summary.lua_files == jobs.len() == ends.len()
    &&& summary.app_count == totals.app_count
    &&& summary.total == totals.total
    &&& summary.downloaded == totals.downloaded
    &&& summary.skipped == totals.skipped
    &&& summary.unavailable == totals.unavailable
    &&& summary.failed == totals.failed
    &&& summary.failed_apps == totals.failed_apps
    &&& summary.downloaded_bytes == totals.downloaded_bytes
    &&& summary.recent_errors == totals.recent_errors
    &&& ascending(summary.depot_ids)
    &&& summary.depot_ids.to_set() == depots_of(ends)
    &&& summary.app_count <= summary.lua_files
    &&& summary.downloaded + summary.skipped + summary.unavailable + summary.failed
        == summary.total + (summary.lua_files - summary.app_count)
    &&& summary.failed == 0 <==> summary.failed_apps == 0
    &&& summary.recent_errors.len() == (if summary.failed_apps < ERROR_LIMIT {
        summary.failed_apps
    } else {
        ERROR_LIMIT
    })
}

/// A run that comes to its end tells one summary, which accounts for all its jobs.
pub proof fn law_summary_accounts_for_the_run(
    request: RunRequest,
    turns: Seq<RunTurn>,
    inputs: Seq<RunInput>,
)
    requires
        is_course(request, turns, inputs),
        inputs.len() > 0,
        inputs.last() is Elapsed,
        all_balanced(ends_of(inputs)),
    ensures
        turns[turns.len() - 2].machine is Working,
        event_views(turns.last().events@).len() == 5,
        event_views(turns.last().events@)[3] matches EventView::Summary(summary)
            && summary_accounts_for(
            summary,
            turns[turns.len() - 2].machine->run.jobs@,
            ends_of(inputs),
        ),
{
    let n = inputs.len() - 1;
    let ends = ends_of(inputs);
    assert(inputs[n] == inputs.last());
    assert(turns[n].machine.expects(inputs[n]));
    assert(turns[n].machine.well_formed());
    lemma_course_accounts(request, turns, inputs, n);
    assert(inputs.drop_last() =~= inputs.take(n));
    let run = turns[n].machine->run;
    law_run_is_accounted_for(app_ids(run.jobs@), ends);
    assert(run.totals@.recent_errors.len() == run.totals.recent_errors@.len());
}

// ---------------------------------------------------------------------------
// The events
// ---------------------------------------------------------------------------

/// All that a run tells: before the events of each turn stands what the job told that
/// the turn is the answer to.
pub open spec fn run_log(turns: Seq<RunTurn>, told: Seq<Seq<EventView>>) -> Seq<EventView>
    decreases turns.len(),
{
    if turns.len() == 0 {
        Seq::empty()
    } else {
        told[0] + event_views(turns[0].events@) + run_log(turns.drop_first(), told.drop_first())
    }
}

proof fn lemma_turns_end_once(turns: Seq<RunTurn>, told: Seq<Seq<EventView>>)
    requires
        turns.len() > 0,
        told.len() == turns.len(),
        forall|i: int| 0 <= i < turns.len() ==> (#[trigger] turns[i]).tells_the_end(),
        forall|i: int|
            0 <= i < turns.len() ==> ((#[trigger] turns[i]).machine is Over <==> i == turns.len()
                - 1),
        forall|i: int| 0 <= i < told.len() ==> quiet(#[trigger] told[i]),
    ensures
        ends_once(run_log(turns, told)),
    decreases turns.len(),
{
    let first = event_views(turns[0].events@);
    let rest = run_log(turns.drop_first(), told.drop_first());
    assert(turns[0].tells_the_end());
    assert(quiet(told[0]));
    if turns.len() == 1 {
        assert(turns[0].machine is Over);
        assert(rest =~= Seq::<EventView>::empty());
        lemma_ends_once_behind(told[0], first);
        assert(told[0] + first + rest =~= told[0] + first);
    } else {
        let later = turns.drop_first();
        let later_told = told.drop_first();
        assert forall|i: int| 0 <= i < later.len() implies (#[trigger] later[i]).tells_the_end()
            && (later[i].machine is Over <==> i == later.len() - 1) by {
            assert(later[i] == turns[i + 1]);
        }
        assert forall|i: int| 0 <= i < later_told.len() implies quiet(#[trigger] later_told[i]) by {
            assert(later_told[i] == told[i + 1]);
        }
        lemma_turns_end_once(later, later_told);
        lemma_quiet_concat(told[0], first);
        lemma_ends_once_behind(told[0] + first, rest);
    }
}

proof fn lemma_logs_are_quiet(events: Seq<EventView>)
    requires
        only_logs(events),
    ensures
        quiet(events),
{
}

/// A run says that it is done exactly once, with its last event; the jobs tell log lines
/// only.
pub proof fn law_runs_end_once(
    request: RunRequest,
    turns: Seq<RunTurn>,
    inputs: Seq<RunInput>,
    told: Seq<Seq<EventView>>,
)
    requires
        is_course(request, turns, inputs),
        turns.last().machine is Over,
        told.len() == turns.len(),
        forall|i: int| 0 <= i < told.len() ==> only_logs(#[trigger] told[i]),
    ensures
        ends_once(run_log(turns, told)),
{
    assert forall|i: int| 0 <= i < turns.len() implies ((
    #[trigger] turns[i]).machine is Over <==> i == turns.len() - 1) by {
        if i < inputs.len() {
            assert(turns[i].machine.expects(inputs[i]));
        }
    }
    assert forall|i: int| 0 <= i < told.len() implies quiet(#[trigger] told[i]) by {
        lemma_logs_are_quiet(told[i]);
    }
    lemma_turns_end_once(turns, told);
}

/// The progress that an event tells, if it tells one.
pub open spec fn told_progress(event: EventView) -> Option<int> {
    match event {
        EventView::Progress(progress) => Some(progress as int),
        _ => None,
    }
}

/// The progress that the events tell never goes back, and stays within the bounds.
pub open spec fn rises(events: Seq<EventView>, low: int, high: int) -> bool {
    &&& forall|i: int|
        0 <= i < events.len() ==> (told_progress(#[trigger] events[i]) matches Some(p) ==> low <= p
            <= high)
    &&& forall|i: int, j: int|
        0 <= i <= j < events.len() ==> (told_progress(#[trigger] events[i]) matches Some(p)
            ==> told_progress(#[trigger] events[j]) matches Some(q) ==> p <= q)
}

proof fn lemma_rises_concat(
    a: Seq<EventView>,
    b: Seq<EventView>,
    low: int,
    mid: int,
    high: int,
)
    requires
        rises(a, low, mid),
        rises(b, mid, high),
        low <= mid <= high,
    ensures
        rises(a + b, low, high),
{
    let all = a + b;
    assert forall|i: int| 0 <= i < all.len() implies (told_progress(
        #[trigger] all[i],
    ) matches Some(p) ==> low <= p <= high) by {
        if i < a.len() {
            assert(all[i] == a[i]);
        } else {
            assert(all[i] == b[i - a.len()]);
        }
    }
    assert forall|i: int, j: int| 0 <= i <= j < all.len() implies (told_progress(
        #[trigger] all[i],
    ) matches Some(p) ==> told_progress(#[trigger] all[j]) matches Some(q) ==> p <= q) by {
        if j < a.len() {
            assert(all[i] == a[i] && all[j] == a[j]);
        } else if i < a.len() {
            assert(all[i] == a[i] && all[j] == b[j - a.len()]);
        } else {
            assert(all[i] == b[i - a.len()] && all[j] == b[j - a.len()]);
        }
    }
}

/// How far the progress has come at a stage.
pub open spec fn reached(machine: RunMachine) -> int {
    match machine {
        RunMachine::Locating { .. } => 5,
        RunMachine::Preparing { .. } => 5,
        RunMachine::Collecting { .. } => 15,
        RunMachine::Working { run, .. } => if run.cursor < run.jobs@.len() {
            job_progress(run.cursor as int, run.jobs@.len() as int)
        } else {
            90
        },
        RunMachine::Over => 100,
    }
}

proof fn lemma_reached(machine: RunMachine)
    ensures
        5 <= reached(machine) <= 100,
{
    if let RunMachine::Working { run, .. } = machine {
        if run.cursor < run.jobs@.len() {
            law_progress_is_bounded(run.cursor as int, run.jobs@.len() as int);
        }
    }
}

proof fn lemma_turn_rises(machine: RunMachine, input: RunInput, turn: RunTurn)
    requires
        machine.well_formed(),
        machine.expects(input),
        leads_to(machine, input, turn),
    ensures
        reached(machine) <= reached(turn.machine),
        rises(event_views(turn.events@), reached(machine), reached(turn.machine)),
{
    lemma_reached(machine);
    lemma_reached(turn.machine);
    if let RunMachine::Working { run, .. } = machine {
        if let RunMachine::Working { run: next, .. } = turn.machine {
            if next.cursor < next.jobs@.len() {
                law_progress_rises(
                    run.cursor as int,
                    next.cursor as int,
                    next.jobs@.len() as int,
                );
            } else {
                law_progress_is_bounded(run.cursor as int, run.jobs@.len() as int);
            }
        }
    } else if let RunMachine::Working { run: next, .. } = turn.machine {
        law_progress_is_bounded(next.cursor as int, next.jobs@.len() as int);
    }
}

proof fn lemma_log_rises(
    turns: Seq<RunTurn>,
    inputs: Seq<RunInput>,
    told: Seq<Seq<EventView>>,
    low: int,
)
    requires
        follows(turns, inputs),
        told.len() == turns.len(),
        forall|i: int| 0 <= i < told.len() ==> only_logs(#[trigger] told[i]),
        low <= reached(turns[0].machine),
        rises(event_views(turns[0].events@), low, reached(turns[0].machine)),
    ensures
        rises(run_log(turns, told), low, 100),
    decreases turns.len(),
{
    let here = reached(turns[0].machine);
    let first = event_views(turns[0].events@);
    let rest = run_log(turns.drop_first(), told.drop_first());
    assert(only_logs(told[0]));
    lemma_reached(turns[0].machine);
    lemma_rises_concat(told[0], first, low, low, here);
    if inputs.len() == 0 {
        assert(rest =~= Seq::<EventView>::empty());
    } else {
        assert(turns[0].machine.well_formed());
        lemma_follows_rest(turns, inputs);
        lemma_turn_rises(turns[0].machine, inputs[0], turns[1]);
        assert forall|i: int| 0 <= i < told.drop_first().len() implies only_logs(
            #[trigger] told.drop_first()[i],
        ) by {
            assert(told.drop_first()[i] == told[i + 1]);
        }
        lemma_log_rises(turns.drop_first(), inputs.drop_first(), told.drop_first(), here);
    }
    lemma_rises_concat(told[0] + first, rest, low, here, 100);
}

/// The progress that a run tells never goes back from its first event to its last, and
/// stays a percentage.
pub proof fn law_progress_never_goes_back(
    request: RunRequest,
    turns: Seq<RunTurn>,
    inputs: Seq<RunInput>,
    told: Seq<Seq<EventView>>,
)
    requires
        is_course(request, turns, inputs),
        told.len() == turns.len(),
        forall|i: int| 0 <= i < told.len() ==> only_logs(#[trigger] told[i]),
    ensures
        rises(run_log(turns, told), 5, 100),
{
    lemma_reached(turns[0].machine);
    lemma_log_rises(turns, inputs, told, 5);
}

} // verus!
