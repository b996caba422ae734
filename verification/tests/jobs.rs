use steam_tools::download::{DownloadOutcome, DownloadResult};
use steam_tools::job::{
    checked_depots, depots_announced, info_url, job_opening, job_queue, queue_announced,
    read_depots, InfoReply, JobRun, JobSummary,
};
use steam_tools::job_machine::{JobAction, JobInput, JobMachine, JobTurn};
use steam_tools::jobs::{
    jobs_of_run, lua_file_name, lua_jobs, missing_lua_dir, single_job, LuaEntry, LuaFound, LuaJob,
};
use steam_tools::manifest::{AppData, AppEntry, DownloadItem, Json, Member, SteamResponse};
use steam_tools::modes::RunMode;
use steam_tools::session::WorkerEvent;

fn entry(stem: Option<&str>, extension: Option<&str>) -> LuaEntry {
    LuaEntry {
        extension: extension.map(str::to_owned),
        stem: stem.map(str::to_owned),
        path: format!("dir/{}", stem.unwrap_or("?")),
    }
}

fn job() -> LuaJob {
    LuaJob { app_id: "730".to_owned(), lua_path: "dir/730.lua".to_owned(), source: 0 }
}

fn item(depot: &str, manifest: &str) -> DownloadItem {
    DownloadItem { depot_id: depot.to_owned(), manifest_id: manifest.to_owned() }
}

fn ids(texts: &[&str]) -> Vec<String> {
    texts.iter().map(|text| text.to_string()).collect()
}

fn lines(events: &[WorkerEvent]) -> Vec<&str> {
    events
        .iter()
        .map(|event| match event {
            WorkerEvent::Log(line) => line.as_str(),
            _ => panic!("a job tells log lines only"),
        })
        .collect()
}

fn line(event: WorkerEvent) -> String {
    match event {
        WorkerEvent::Log(line) => line,
        _ => panic!("a job tells log lines only"),
    }
}

fn done(outcome: DownloadOutcome, size: u64) -> Result<DownloadResult, String> {
    Ok(DownloadResult { outcome, size })
}

fn object(members: Vec<(&str, Json)>) -> Json {
    let members = members.into_iter().map(|(key, value)| Member { key: key.to_owned(), value });
    Json::Object(members.collect())
}

fn response(manifests: &[(&str, &str)]) -> SteamResponse {
    let depots = manifests
        .iter()
        .map(|(depot, gid)| Member {
            key: depot.to_string(),
            value: object(vec![(
                "manifests",
                object(vec![("public", object(vec![("gid", Json::Text(gid.to_string()))]))]),
            )]),
        })
        .collect();
    SteamResponse {
        status: Some("success".to_owned()),
        data: vec![AppEntry { app_id: "730".to_owned(), data: AppData { depots } }],
    }
}

#[test]
fn lua_files_named_by_app_ids_become_jobs_in_order() {
    let entries = vec![
        entry(Some("9"), Some("lua")),
        entry(Some("readme"), Some("txt")),
        entry(Some("10"), Some("lua")),
        entry(Some("10"), Some("LUA")),
        entry(Some("abc"), Some("lua")),
        entry(Some("12a"), Some("lua")),
        entry(Some("100"), None),
        entry(None, Some("lua")),
        entry(Some("100"), Some("lua")),
    ];
    let jobs = lua_jobs(&entries);
    let found: Vec<(&str, usize)> =
        jobs.iter().map(|job| (job.app_id.as_str(), job.source)).collect();
    assert_eq!(found, vec![("10", 2), ("100", 8), ("9", 0)]);
    assert_eq!(jobs[0].lua_path, "dir/10");
    assert!(lua_jobs(&Vec::new()).is_empty());
}

#[test]
fn the_order_of_the_entries_does_not_matter() {
    let forward = vec![entry(Some("2"), Some("lua")), entry(Some("1"), Some("lua"))];
    let backward = vec![entry(Some("1"), Some("lua")), entry(Some("2"), Some("lua"))];
    let names = |entries: &Vec<LuaEntry>| -> Vec<String> {
        lua_jobs(entries).into_iter().map(|job| job.app_id).collect()
    };
    assert_eq!(names(&forward), names(&backward));
}

#[test]
fn a_single_job_needs_its_file() {
    assert_eq!(lua_file_name(" 730 "), "730.lua");
    let job = single_job(" 730 ", "dir/730.lua", true).unwrap_or_else(|_| panic!("it exists"));
    assert_eq!((job.app_id.as_str(), job.lua_path.as_str(), job.source), ("730", "dir/730.lua", 0));
    match single_job("730", "dir/730.lua", false) {
        Err(error) => assert_eq!(error, "Lua file not found: dir/730.lua"),
        Ok(_) => panic!("it does not exist"),
    }
    assert_eq!(missing_lua_dir("D:\\lua"), "Lua directory not found: D:\\lua");
}

#[test]
fn a_run_has_the_jobs_of_what_was_found() {
    let path = "dir/730.lua".to_owned();
    let jobs = jobs_of_run(" 730", LuaFound::File { path, exists: true }).unwrap_or_default();
    assert_eq!(jobs.len(), 1);
    assert_eq!((jobs[0].app_id.as_str(), jobs[0].lua_path.as_str()), ("730", "dir/730.lua"));
    let entries = vec![entry(Some("9"), Some("lua")), entry(Some("10"), Some("lua"))];
    let jobs = jobs_of_run("", LuaFound::Directory(Ok(entries))).unwrap_or_default();
    let ids: Vec<&str> = jobs.iter().map(|job| job.app_id.as_str()).collect();
    assert_eq!(ids, vec!["10", "9"]);
    let error = |found: LuaFound| jobs_of_run("730", found).err().unwrap();
    assert_eq!(
        error(LuaFound::File { path: "p".to_owned(), exists: false }),
        "Lua file not found: p"
    );
    assert_eq!(
        error(LuaFound::NoDirectory { dir: "d".to_owned() }),
        "Lua directory not found: d"
    );
    assert_eq!(error(LuaFound::Directory(Err("denied".to_owned()))), "denied");
}

#[test]
fn a_run_for_one_app_looks_up_one_file() {
    let file = LuaFound::File { path: String::new(), exists: true };
    assert!(file.fits(RunMode::SingleApp));
    assert!(!file.fits(RunMode::FullRebase));
    let directory = LuaFound::Directory(Ok(Vec::new()));
    assert!(!directory.fits(RunMode::SingleApp));
    assert!(directory.fits(RunMode::FullRebase));
    let gone = LuaFound::NoDirectory { dir: String::new() };
    assert!(gone.fits(RunMode::SingleApp) && gone.fits(RunMode::FullRebase));
}

#[test]
fn depots_are_read_from_the_file() {
    let lua = "addappid(2, 1, \"ab\")\naddappid(1, 1, \"cd\")";
    assert_eq!(read_depots("p", Some(lua)), Ok(ids(&["1", "2"])));
    let none = Err("No valid depot IDs were found in p".to_owned());
    assert_eq!(read_depots("p", Some("print(1)")), none);
    assert_eq!(read_depots("p", None), Err("Unable to read Lua file".to_owned()));
    assert_eq!(checked_depots("p", Vec::new()), none);
    assert_eq!(checked_depots("p", ids(&["7"])), Ok(ids(&["7"])));
}

#[test]
fn a_job_tells_what_it_does() {
    assert_eq!(line(job_opening("730")), "[*] Reading Lua data for app 730");
    assert_eq!(
        lines(&depots_announced("730", 12)),
        vec!["[+] App 730 exposes 12 depot IDs", "[*] Fetching SteamCMD app info for 730"]
    );
    assert_eq!(info_url("730"), "https://api.steamcmd.net/v1/info/730");
    assert_eq!(line(queue_announced("730", 3)), "[+] App 730 matched 3 public manifests");
}

#[test]
fn each_reply_of_the_service_has_its_answer() {
    let depots = ids(&["731"]);
    let error = |reply: InfoReply| match job_queue("730", &ids(&["731"]), &reply) {
        Err(error) => error,
        Ok(_) => panic!("there is no queue"),
    };
    assert_eq!(error(InfoReply::RequestFailed), "SteamCMD request failed");
    assert_eq!(error(InfoReply::BodyUnreadable), "SteamCMD response body could not be read");
    assert_eq!(error(InfoReply::InvalidJson), "SteamCMD returned invalid JSON");
    assert_eq!(
        error(InfoReply::Response(response(&[("9", "1")]))),
        "No public manifests were found for app 730"
    );
    let good = InfoReply::Response(response(&[("731", "111")]));
    let queue = job_queue("730", &depots, &good).unwrap();
    assert_eq!(queue.len(), 1);
    assert_eq!((queue[0].depot_id.as_str(), queue[0].manifest_id.as_str()), ("731", "111"));
}

#[test]
fn downloads_are_counted_and_reported() {
    let queue = vec![item("1", "a"), item("2", "b"), item("3", "c"), item("4", "d")];
    let mut run = JobRun::new("730".to_owned(), ids(&["1", "2", "3", "4"]), queue);
    assert_eq!(line(run.announce().unwrap()), "[*] App 730 depot 1 -> manifest a");
    assert_eq!(
        line(run.record(done(DownloadOutcome::Downloaded, 2048), "2.00 KB")),
        "[+] Depot 1 downloaded (2.00 KB)"
    );
    assert_eq!(
        line(run.record(done(DownloadOutcome::SkippedExisting, 5), "5 B")),
        "[!] Depot 2 already up to date (5 B)"
    );
    assert_eq!(
        line(run.record(done(DownloadOutcome::Unavailable, 0), "0 B")),
        "[!] Depot 3 is not available on the selected source, skipped"
    );
    assert_eq!(line(run.announce().unwrap()), "[*] App 730 depot 4 -> manifest d");
    assert_eq!(
        line(run.record(Err("HTTP 500".to_owned()), "0 B")),
        "[-] Depot 4 failed: HTTP 500"
    );
    assert!(run.announce().is_none());
    let summary = run.finish();
    assert_eq!(summary.total, 4);
    assert_eq!(
        (summary.downloaded, summary.skipped, summary.unavailable, summary.failed),
        (1, 1, 1, 1)
    );
    assert_eq!(summary.downloaded_bytes, 2048);
    assert_eq!(summary.depot_ids.len(), 4);
}

#[test]
fn only_downloads_need_room() {
    let mut run = JobRun::new("1".to_owned(), Vec::new(), vec![item("1", "a"), item("2", "b")]);
    run.record(done(DownloadOutcome::Downloaded, u64::MAX), "");
    assert!(!run.has_room_for(&done(DownloadOutcome::Downloaded, 1)));
    assert!(run.has_room_for(&done(DownloadOutcome::Downloaded, 0)));
    assert!(run.has_room_for(&done(DownloadOutcome::SkippedExisting, u64::MAX)));
    assert!(run.has_room_for(&Err("x".to_owned())));
}

fn advance(turn: JobTurn, input: JobInput) -> JobTurn {
    assert!(turn.machine.awaits(&input));
    turn.machine.advance(input)
}

fn result(turn: JobTurn) -> Result<JobSummary, String> {
    match turn.machine {
        JobMachine::Done(result) => result,
        _ => panic!("the job is not over"),
    }
}

#[test]
fn a_job_runs_from_its_file_to_its_figures() {
    let turn = JobMachine::start(&job());
    assert_eq!(lines(&turn.events), vec!["[*] Reading Lua data for app 730"]);
    assert!(matches!(turn.machine.action(), JobAction::ReadLua));
    let lua = "addappid(731, 1, \"a\") addappid(732, 1, \"b\") addappid(733, 1, \"c\")";
    let turn = advance(turn, JobInput::Content(Some(lua.to_owned())));
    assert_eq!(
        lines(&turn.events),
        vec!["[+] App 730 exposes 3 depot IDs", "[*] Fetching SteamCMD app info for 730"]
    );
    match turn.machine.action() {
        JobAction::FetchInfo { url } => {
            assert_eq!(url, "https://api.steamcmd.net/v1/info/730");
        }
        _ => panic!("the service is asked"),
    }
    let reply = response(&[("733", "33"), ("731", "11")]);
    let turn = advance(turn, JobInput::Info(InfoReply::Response(reply)));
    assert_eq!(
        lines(&turn.events),
        vec![
            "[+] App 730 matched 2 public manifests",
            "[*] App 730 depot 731 -> manifest 11"
        ]
    );
    assert!(matches!(turn.machine.action(), JobAction::Download(0)));
    let outcome = done(DownloadOutcome::Downloaded, 7);
    let turn = advance(turn, JobInput::Download { outcome, size_text: "7 B".to_owned() });
    assert_eq!(
        lines(&turn.events),
        vec!["[+] Depot 731 downloaded (7 B)", "[*] App 730 depot 733 -> manifest 33"]
    );
    assert!(matches!(turn.machine.action(), JobAction::Download(1)));
    let outcome = Err("GitHub failed".to_owned());
    let turn = advance(turn, JobInput::Download { outcome, size_text: "0 B".to_owned() });
    assert_eq!(lines(&turn.events), vec!["[-] Depot 733 failed: GitHub failed"]);
    assert!(matches!(turn.machine.action(), JobAction::Stop));
    let summary = result(turn).unwrap_or_else(|error| panic!("{error}"));
    assert_eq!(summary.depot_ids, vec!["731", "732", "733"]);
    assert_eq!((summary.total, summary.downloaded, summary.failed), (2, 1, 1));
    assert_eq!(summary.downloaded_bytes, 7);
}

#[test]
fn a_job_ends_with_its_first_error() {
    let turn = advance(JobMachine::start(&job()), JobInput::Content(None));
    assert!(turn.events.is_empty());
    assert_eq!(result(turn).err().unwrap(), "Unable to read Lua file");
    let turn = advance(JobMachine::start(&job()), JobInput::Content(Some(String::new())));
    assert_eq!(result(turn).err().unwrap(), "No valid depot IDs were found in dir/730.lua");
    let lua = "addappid(731, 1, \"a\")".to_owned();
    let turn = advance(JobMachine::start(&job()), JobInput::Content(Some(lua)));
    let turn = advance(turn, JobInput::Info(InfoReply::RequestFailed));
    assert!(turn.events.is_empty());
    assert_eq!(result(turn).err().unwrap(), "SteamCMD request failed");
}

#[test]
fn a_job_waits_for_one_kind_of_input() {
    let turn = JobMachine::start(&job());
    assert!(turn.machine.awaits(&JobInput::Content(None)));
    assert!(!turn.machine.awaits(&JobInput::Info(InfoReply::InvalidJson)));
    let turn = advance(turn, JobInput::Content(None));
    assert!(!turn.machine.awaits(&JobInput::Content(None)));
}
