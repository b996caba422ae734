use steam_tools::batch::{jobs_collected, open_run, output_prepared, steam_located, BatchRun};
use steam_tools::job::JobSummary;
use steam_tools::jobs::{LuaEntry, LuaFound, LuaJob};
use steam_tools::modes::{DownloadMode, RunMode};
use steam_tools::run_machine::{RunAction, RunInput, RunMachine, RunTurn};
use steam_tools::session::{apply_worker_events, App, Key, RunRequest, RunSummary, WorkerEvent};

fn request(mode: DownloadMode, run_mode: RunMode, app_id: &str, api_key: &str) -> RunRequest {
    RunRequest { mode, run_mode, app_id: app_id.to_owned(), api_key: api_key.to_owned() }
}

fn single() -> RunRequest {
    request(DownloadMode::Github, RunMode::SingleApp, " 730 ", "")
}

fn full() -> RunRequest {
    request(DownloadMode::GithubExternal, RunMode::FullRebase, "", "key")
}

fn job(app_id: &str) -> LuaJob {
    LuaJob { app_id: app_id.to_owned(), lua_path: format!("dir/{app_id}.lua"), source: 0 }
}

fn figures(depots: &[&str], counts: [usize; 4], bytes: u64) -> JobSummary {
    JobSummary {
        depot_ids: depots.iter().map(|depot| depot.to_string()).collect(),
        total: counts.iter().sum(),
        downloaded: counts[0],
        skipped: counts[1],
        unavailable: counts[2],
        failed: counts[3],
        downloaded_bytes: bytes,
    }
}

fn told(events: &[WorkerEvent]) -> Vec<String> {
    events
        .iter()
        .map(|event| match event {
            WorkerEvent::Reset => "reset".to_owned(),
            WorkerEvent::Log(line) => format!("log {line}"),
            WorkerEvent::Status(status) => format!("status {status}"),
            WorkerEvent::Progress(progress) => format!("progress {progress}"),
            WorkerEvent::Summary(_) => "summary".to_owned(),
            WorkerEvent::Finished => "finished".to_owned(),
            WorkerEvent::Failed(error) => format!("failed {error}"),
        })
        .collect()
}

fn summary_of(events: Vec<WorkerEvent>) -> RunSummary {
    for event in events {
        if let WorkerEvent::Summary(summary) = event {
            return summary;
        }
    }
    panic!("there is no summary")
}

fn advance(turn: RunTurn, input: RunInput) -> RunTurn {
    assert!(turn.machine.awaits(&input));
    turn.machine.advance(input)
}

fn entry(app_id: &str) -> LuaEntry {
    LuaEntry {
        extension: Some("lua".to_owned()),
        stem: Some(app_id.to_owned()),
        path: format!("dir/{app_id}.lua"),
    }
}

fn file(exists: bool) -> RunInput {
    RunInput::Lua(LuaFound::File { path: "dir/730.lua".to_owned(), exists })
}

fn directory(app_ids: &[&str]) -> RunInput {
    let entries = app_ids.iter().map(|app_id| entry(app_id)).collect();
    RunInput::Lua(LuaFound::Directory(Ok(entries)))
}

fn working(request: RunRequest, lua: RunInput) -> RunTurn {
    let turn = RunMachine::start(request);
    let turn = advance(turn, RunInput::Installation(Some("C:\\Steam".to_owned())));
    let turn = advance(turn, RunInput::Output(Some("C:\\Steam\\depotcache".to_owned())));
    advance(turn, lua)
}

#[test]
fn a_valid_request_is_announced() {
    let step = open_run(&single());
    assert!(step.proceed);
    assert_eq!(
        told(&step.events),
        vec![
            "reset",
            "status Inspecting AppID 730",
            "log [*] Source: GitHub only",
            "log [*] Run mode: Single App",
            "log [*] AppID: 730",
            "progress 5",
            "log [*] Looking for Steam installation...",
        ]
    );
    let step = open_run(&full());
    assert!(step.proceed);
    assert_eq!(
        told(&step.events),
        vec![
            "reset",
            "status Preparing full rebase scan",
            "log [*] Source: GitHub + External Site",
            "log [*] Run mode: Full Rebase",
            "progress 5",
            "log [*] Looking for Steam installation...",
        ]
    );
}

#[test]
fn a_request_without_what_it_needs_is_refused() {
    for app_id in ["", "  ", "73O", "-1", "7 3"] {
        let step = open_run(&request(DownloadMode::Github, RunMode::SingleApp, app_id, ""));
        assert!(!step.proceed);
        assert_eq!(told(&step.events), vec!["reset", "failed Enter a valid numeric AppID."]);
    }
    for run_mode in [RunMode::SingleApp, RunMode::FullRebase] {
        let step = open_run(&request(DownloadMode::GithubExternal, run_mode, "730", " \t"));
        assert!(!step.proceed);
        assert_eq!(told(&step.events), vec!["reset", "failed This mode requires an API key."]);
    }
    let both = request(DownloadMode::GithubExternal, RunMode::SingleApp, "x", "");
    assert_eq!(told(&open_run(&both).events)[1], "failed Enter a valid numeric AppID.");
    assert!(open_run(&request(DownloadMode::Github, RunMode::FullRebase, "x", "")).proceed);
}

#[test]
fn the_stages_before_the_jobs_tell_what_they_found() {
    let step = steam_located(Some("C:\\Steam"));
    assert!(step.proceed);
    assert_eq!(told(&step.events), vec!["log [+] Steam found at C:\\Steam"]);
    let step = steam_located(None);
    assert!(!step.proceed);
    assert_eq!(told(&step.events), vec!["failed Steam installation not found"]);
    let step = output_prepared(Some("C:\\out"));
    assert!(step.proceed);
    assert_eq!(told(&step.events), vec!["log [*] Output: C:\\out", "progress 15"]);
    let step = output_prepared(None);
    assert!(!step.proceed);
    assert_eq!(told(&step.events), vec!["failed Unable to create depotcache directory"]);
    let step = jobs_collected(Ok(2));
    assert!(step.proceed);
    assert_eq!(told(&step.events), vec!["log [+] Collected 2 Lua file(s) to process"]);
    let step = jobs_collected(Ok(0));
    assert!(!step.proceed);
    assert_eq!(told(&step.events), vec!["failed No eligible Lua files were found."]);
    let step = jobs_collected(Err("Lua directory not found: x".to_owned()));
    assert!(!step.proceed);
    assert_eq!(told(&step.events), vec!["failed Lua directory not found: x"]);
}

#[test]
fn the_progress_goes_from_job_to_job() {
    let jobs: Vec<LuaJob> = (0..7).map(|i| job(&format!("{i}"))).collect();
    let mut run = BatchRun::new(full(), jobs);
    let mut seen = Vec::new();
    while let Some(events) = run.announce() {
        match &events[0] {
            WorkerEvent::Progress(progress) => seen.push(*progress),
            _ => panic!("the progress is told first"),
        }
        assert!(run.job_finished(Err("x".to_owned())).proceed);
    }
    assert_eq!(seen, vec![20, 30, 40, 50, 60, 70, 80]);
    let jobs: Vec<LuaJob> = (0..3).map(|i| job(&format!("{i}"))).collect();
    let mut run = BatchRun::new(full(), jobs);
    run.job_finished(Ok(figures(&[], [0; 4], 0)));
    assert_eq!(
        told(&run.announce().unwrap()),
        vec![
            "progress 43",
            "status Processing app 1 (2/3)",
            "log [*] [2 / 3] Checking dir/1.lua",
        ]
    );
}

#[test]
fn the_figures_of_the_jobs_add_up() {
    let jobs = ["1", "2", "3", "4", "5", "6"].map(job).into_iter().collect();
    let mut run = BatchRun::new(full(), jobs);
    assert!(run.job_finished(Ok(figures(&["20", "10"], [1, 2, 3, 0], 100))).proceed);
    assert!(run.job_finished(Ok(figures(&["10", "30"], [4, 0, 0, 2], 50))).proceed);
    for error in ["a", "b", "c", "d"] {
        let step = run.job_finished(Err(error.to_owned()));
        assert!(step.proceed);
        assert_eq!(step.events.len(), 1);
    }
    let events = run.complete("S".to_owned(), "O".to_owned(), 61);
    assert_eq!(
        told(&events),
        vec![
            "progress 100",
            "status Run completed with 6 errors",
            "log [+] Processing complete.",
            "summary",
            "finished",
        ]
    );
    let summary = summary_of(events);
    assert_eq!(summary.target_label, "Full Rebase");
    assert_eq!((summary.steam_path.as_str(), summary.output_path.as_str()), ("S", "O"));
    assert_eq!((summary.app_count, summary.lua_files, summary.failed_apps), (2, 6, 5));
    assert_eq!(summary.depot_ids, vec!["10", "20", "30"]);
    assert_eq!(
        summary.recent_errors,
        vec!["App 3 skipped: a", "App 4 skipped: b", "App 5 skipped: c", "App 6 skipped: d"]
    );
    assert_eq!(summary.total, 12);
    assert_eq!(
        (summary.downloaded, summary.skipped, summary.unavailable, summary.failed),
        (5, 2, 3, 6)
    );
    assert_eq!(summary.total + 4, 5 + 2 + 3 + 6);
    assert_eq!(summary.recent_errors.len(), summary.failed_apps.min(4));
    assert_eq!(summary.downloaded_bytes, 150);
    assert_eq!(summary.elapsed, "01:01");
}

#[test]
fn figures_that_overflow_are_noticed() {
    let mut run = BatchRun::new(full(), vec![job("1"), job("2")]);
    run.job_finished(Ok(figures(&[], [0, 0, 0, 0], u64::MAX)));
    assert!(!run.has_room_for(&Ok(figures(&[], [0; 4], 1))));
    assert!(run.has_room_for(&Ok(figures(&[], [1, 1, 1, 1], 0))));
    assert!(run.has_room_for(&Err("x".to_owned())));
}

#[test]
fn a_run_goes_through_its_stages() {
    let turn = RunMachine::start(single());
    assert_eq!(turn.events.len(), 7);
    assert_eq!(turn.machine.action(), RunAction::FindInstallation);
    let turn = advance(turn, RunInput::Installation(Some("C:\\Steam".to_owned())));
    assert_eq!(told(&turn.events), vec!["log [+] Steam found at C:\\Steam"]);
    assert_eq!(turn.machine.action(), RunAction::PrepareOutput);
    let turn = advance(turn, RunInput::Output(Some("C:\\out".to_owned())));
    assert_eq!(told(&turn.events), vec!["log [*] Output: C:\\out", "progress 15"]);
    assert_eq!(turn.machine.action(), RunAction::FindLuaFile);
    assert!(!turn.machine.awaits(&directory(&["730"])));
    let turn = advance(turn, file(true));
    assert_eq!(
        told(&turn.events),
        vec![
            "log [+] Collected 1 Lua file(s) to process",
            "progress 20",
            "status Processing app 730 (1/1)",
            "log [*] [1 / 1] Checking dir/730.lua",
        ]
    );
    assert_eq!(turn.machine.action(), RunAction::RunJob(0));
    let turn = advance(turn, RunInput::Job(Ok(figures(&["731"], [1, 0, 0, 0], 9))));
    assert!(turn.events.is_empty());
    assert_eq!(turn.machine.action(), RunAction::ReadClock);
    let turn = advance(turn, RunInput::Elapsed(5));
    assert_eq!(turn.machine.action(), RunAction::Stop);
    assert_eq!(told(&turn.events)[1], "status Run completed");
    let summary = summary_of(turn.events);
    assert_eq!(summary.target_label, "730");
    assert_eq!((summary.steam_path.as_str(), summary.output_path.as_str()), ("C:\\Steam", "C:\\out"));
    assert_eq!(summary.elapsed, "00:05");
}

#[test]
fn each_stage_can_end_a_run() {
    let refused = RunMachine::start(request(DownloadMode::Github, RunMode::SingleApp, "", ""));
    assert_eq!(refused.machine.action(), RunAction::Stop);
    assert_eq!(told(&refused.events), vec!["reset", "failed Enter a valid numeric AppID."]);
    let lost = advance(RunMachine::start(single()), RunInput::Installation(None));
    assert_eq!(lost.machine.action(), RunAction::Stop);
    assert_eq!(told(&lost.events), vec!["failed Steam installation not found"]);
    let located = |request| {
        advance(RunMachine::start(request), RunInput::Installation(Some("S".to_owned())))
    };
    let unmade = advance(located(single()), RunInput::Output(None));
    assert_eq!(told(&unmade.events), vec!["failed Unable to create depotcache directory"]);
    let prepared = |request| advance(located(request), RunInput::Output(Some("O".to_owned())));
    let none = advance(prepared(single()), file(false));
    assert_eq!(told(&none.events), vec!["failed Lua file not found: dir/730.lua"]);
    for request in [single(), full()] {
        let dir = "D:\\lua".to_owned();
        let gone = advance(prepared(request), RunInput::Lua(LuaFound::NoDirectory { dir }));
        assert_eq!(told(&gone.events), vec!["failed Lua directory not found: D:\\lua"]);
    }
    assert_eq!(prepared(full()).machine.action(), RunAction::ScanLuaDirectory);
    assert!(!prepared(full()).machine.awaits(&file(true)));
    for app_ids in [&[][..], &["readme"][..]] {
        let none = advance(prepared(full()), directory(app_ids));
        assert_eq!(told(&none.events), vec!["failed No eligible Lua files were found."]);
    }
    let unread = LuaFound::Directory(Err("Unable to scan Lua directory".to_owned()));
    let error = advance(prepared(full()), RunInput::Lua(unread));
    assert_eq!(told(&error.events), vec!["failed Unable to scan Lua directory"]);
    assert_eq!(error.machine.action(), RunAction::Stop);
}

#[test]
fn a_failed_job_ends_a_run_for_one_app() {
    let turn = working(single(), file(true));
    let turn = advance(turn, RunInput::Job(Err("SteamCMD request failed".to_owned())));
    assert_eq!(told(&turn.events), vec!["failed SteamCMD request failed"]);
    assert_eq!(turn.machine.action(), RunAction::Stop);
}

#[test]
fn a_failed_job_is_skipped_in_a_run_over_all_files() {
    let turn = working(full(), directory(&["2", "readme", "1"]));
    let turn = advance(turn, RunInput::Job(Err("SteamCMD request failed".to_owned())));
    assert_eq!(
        told(&turn.events),
        vec![
            "log [-] App 1 skipped: SteamCMD request failed",
            "progress 55",
            "status Processing app 2 (2/2)",
            "log [*] [2 / 2] Checking dir/2.lua",
        ]
    );
    assert_eq!(turn.machine.action(), RunAction::RunJob(1));
    let turn = advance(turn, RunInput::Job(Ok(figures(&["9"], [0, 0, 0, 3], 0))));
    let turn = advance(turn, RunInput::Elapsed(0));
    let summary = summary_of(turn.events);
    assert_eq!(
        summary.recent_errors,
        vec!["App 1 skipped: SteamCMD request failed", "App 2 had 3 failed depot(s)"]
    );
    assert_eq!((summary.app_count, summary.failed_apps, summary.failed), (1, 2, 4));
    assert_eq!(summary.recent_errors.len(), summary.failed_apps.min(4));
}

#[test]
fn a_run_waits_for_one_kind_of_input() {
    let turn = RunMachine::start(single());
    assert!(turn.machine.awaits(&RunInput::Installation(None)));
    assert!(!turn.machine.awaits(&RunInput::Output(None)));
    assert!(!turn.machine.awaits(&RunInput::Elapsed(0)));
    let turn = working(single(), file(true));
    assert!(!turn.machine.awaits(&RunInput::Elapsed(0)));
    assert!(turn.machine.awaits(&RunInput::Job(Err(String::new()))));
}

#[test]
fn a_run_says_once_that_it_is_done_and_releases_the_session() {
    let mut app = App::new(None);
    app.handle_key(Key::Enter, true);
    assert!(app.busy);
    let mut events = Vec::new();
    let mut turn = RunMachine::start(full());
    loop {
        events.append(&mut turn.events);
        let input = match turn.machine.action() {
            RunAction::FindInstallation => RunInput::Installation(Some("S".to_owned())),
            RunAction::PrepareOutput => RunInput::Output(Some("O".to_owned())),
            RunAction::FindLuaFile => file(true),
            RunAction::ScanLuaDirectory => directory(&["1", "2", "3"]),
            RunAction::RunJob(1) => RunInput::Job(Err("x".to_owned())),
            RunAction::RunJob(_) => RunInput::Job(Ok(figures(&["1"], [1, 0, 0, 0], 1))),
            RunAction::ReadClock => RunInput::Elapsed(1),
            RunAction::Stop => break,
        };
        turn = advance(turn, input);
    }
    let ends = |event: &WorkerEvent| {
        matches!(event, WorkerEvent::Finished | WorkerEvent::Failed(_))
    };
    assert_eq!(events.iter().filter(|event| ends(event)).count(), 1);
    assert!(ends(events.last().unwrap()));
    let progress: Vec<u16> = events
        .iter()
        .filter_map(|event| match event {
            WorkerEvent::Progress(progress) => Some(*progress),
            _ => None,
        })
        .collect();
    assert_eq!(progress, vec![5, 15, 20, 43, 66, 100]);
    let last = events.split_off(events.len() - 1);
    assert!(!apply_worker_events(&mut app, events));
    assert!(app.busy);
    assert!(apply_worker_events(&mut app, last));
    assert!(!app.busy);
    assert_eq!(app.progress, 100);
    assert_eq!(app.status, "Run completed with 1 errors");
    assert_eq!(app.logs.last().unwrap(), "[+] Processing complete.");
    let summary = app.summary.as_ref().unwrap();
    assert_eq!((summary.app_count, summary.lua_files), (2, 3));
    assert_eq!(
        summary.downloaded + summary.skipped + summary.unavailable + summary.failed,
        summary.total + (summary.lua_files - summary.app_count)
    );
    assert_eq!(summary.recent_errors, vec!["App 2 skipped: x"]);
    assert_eq!(summary.depot_ids, vec!["1"]);
}

#[test]
fn a_refusal_leaves_nothing_but_the_error() {
    let mut app = App::new(None);
    app.handle_key(Key::Enter, true);
    let turn = RunMachine::start(request(app.mode, app.run_mode, &app.app_id, &app.api_key));
    assert!(apply_worker_events(&mut app, turn.events));
    assert!(!app.busy);
    assert_eq!(app.status, "Error: Enter a valid numeric AppID.");
    assert_eq!(app.logs, vec!["[-] Enter a valid numeric AppID."]);
    assert!(app.summary.is_none());
}
