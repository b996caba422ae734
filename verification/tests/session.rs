use steam_tools::modes::{first_focus, DownloadMode, FocusField, RunMode};
use steam_tools::session::{
    apply_worker_event, apply_worker_events, App, Key, KeyAction, RunRequest, RunSummary,
    WorkerEvent,
};

fn press(app: &mut App, key: Key) -> KeyAction {
    app.handle_key(key, true)
}

fn type_text(app: &mut App, text: &str) {
    for c in text.chars() {
        press(app, Key::Char(c));
    }
}

fn started(action: KeyAction) -> RunRequest {
    match action {
        KeyAction::Start(request) => request,
        _ => panic!("no run was started"),
    }
}

fn summary() -> RunSummary {
    RunSummary {
        target_label: "730".to_owned(),
        steam_path: String::new(),
        output_path: String::new(),
        app_count: 1,
        lua_files: 1,
        depot_ids: Vec::new(),
        failed_apps: 0,
        recent_errors: Vec::new(),
        total: 0,
        downloaded: 0,
        skipped: 0,
        unavailable: 0,
        failed: 0,
        downloaded_bytes: 0,
        elapsed: "00:00".to_owned(),
    }
}

#[test]
fn modes_have_labels_and_cycle() {
    assert_eq!(DownloadMode::Github.label(), "GitHub only");
    assert_eq!(DownloadMode::GithubExternal.label(), "GitHub + External Site");
    assert_eq!(RunMode::SingleApp.label(), "Single App");
    assert_eq!(RunMode::FullRebase.label(), "Full Rebase");
    assert_eq!(DownloadMode::Github.next(), DownloadMode::GithubExternal);
    assert_eq!(DownloadMode::GithubExternal.next(), DownloadMode::Github);
    assert_eq!(RunMode::SingleApp.next(), RunMode::FullRebase);
    assert_eq!(RunMode::FullRebase.next(), RunMode::SingleApp);
    assert!(!DownloadMode::Github.needs_api_key());
    assert!(DownloadMode::GithubExternal.needs_api_key());
    assert!(RunMode::SingleApp.needs_app_id());
    assert!(!RunMode::FullRebase.needs_app_id());
}

#[test]
fn the_focus_moves_between_the_fields_that_are_asked_for() {
    let (github, external) = (DownloadMode::Github, DownloadMode::GithubExternal);
    let (single, full) = (RunMode::SingleApp, RunMode::FullRebase);
    let (id, key) = (FocusField::AppId, FocusField::ApiKey);
    for field in [id, key] {
        assert_eq!(field.next(github, single), id);
        assert_eq!(field.next(external, full), key);
        assert_eq!(field.next(github, full), id);
    }
    assert_eq!(id.next(external, single), key);
    assert_eq!(key.next(external, single), id);
    assert_eq!(first_focus(github, single), id);
    assert_eq!(first_focus(external, single), id);
    assert_eq!(first_focus(external, full), key);
    assert_eq!(first_focus(github, full), id);
}

#[test]
fn a_session_opens_with_a_greeting() {
    let app = App::new(None);
    assert_eq!(app.logs, vec!["[*] Steam manifest downloader ready."]);
    assert_eq!(app.status, "Enter a Steam AppID and press Enter.");
    assert_eq!((app.mode, app.run_mode), (DownloadMode::Github, RunMode::SingleApp));
    assert_eq!(app.focus, FocusField::AppId);
    assert_eq!((app.progress, app.busy), (0, false));
    assert!(app.summary.is_none());
    let custom = App::new(Some("D:\\lua".to_owned()));
    assert_eq!(
        custom.logs,
        vec!["[*] Steam manifest downloader ready.", "[*] Custom Lua directory: D:\\lua"]
    );
}

#[test]
fn an_app_id_takes_twelve_digits() {
    let mut app = App::new(None);
    type_text(&mut app, "12a-3 4567890123456");
    assert_eq!(app.app_id, "123456789012");
    press(&mut app, Key::Backspace);
    assert_eq!(app.app_id, "12345678901");
    for _ in 0..20 {
        press(&mut app, Key::Backspace);
    }
    assert_eq!(app.app_id, "");
}

#[test]
fn an_api_key_takes_everything_but_control_codes() {
    let mut app = App::new(None);
    press(&mut app, Key::Function(2));
    press(&mut app, Key::Tab);
    assert_eq!(app.focus, FocusField::ApiKey);
    type_text(&mut app, "k\u{7}e\u{e9} \u{1f600}");
    assert_eq!(app.api_key, "ke\u{e9} \u{1f600}");
    press(&mut app, Key::Backspace);
    assert_eq!(app.api_key, "ke\u{e9} ");
    let before = app.api_key.clone();
    type_text(&mut app, "x");
    press(&mut app, Key::Backspace);
    assert_eq!(app.api_key, before);
    assert_eq!(app.app_id, "");
}

#[test]
fn the_current_input_follows_the_focus() {
    let mut app = App::new(None);
    app.current_input().push_str("42");
    app.focus = FocusField::ApiKey;
    app.current_input().push_str("key");
    assert_eq!((app.app_id.as_str(), app.api_key.as_str()), ("42", "key"));
}

#[test]
fn switching_the_source_moves_the_focus_from_a_key_that_is_not_needed() {
    let mut app = App::new(None);
    press(&mut app, Key::Function(2));
    assert_eq!(app.status, "Selected source: GitHub + External Site");
    assert_eq!(app.focus, FocusField::AppId);
    press(&mut app, Key::Tab);
    assert_eq!(app.focus, FocusField::ApiKey);
    press(&mut app, Key::Function(2));
    assert_eq!(app.status, "Selected source: GitHub only");
    assert_eq!(app.focus, FocusField::AppId);
    assert_eq!(app.mode, DownloadMode::Github);
}

#[test]
fn switching_the_run_mode_sets_the_focus() {
    let mut app = App::new(None);
    press(&mut app, Key::Function(2));
    press(&mut app, Key::Function(3));
    assert_eq!(app.run_mode, RunMode::FullRebase);
    assert_eq!(app.status, "Selected run mode: Full Rebase");
    assert_eq!(app.focus, FocusField::ApiKey);
    press(&mut app, Key::Function(3));
    assert_eq!(app.status, "Selected run mode: Single App");
    assert_eq!(app.focus, FocusField::AppId);
    press(&mut app, Key::Function(4));
    assert_eq!(app.status, "Selected run mode: Single App");
}

#[test]
fn a_reset_keeps_the_modes_and_the_key() {
    let mut app = App::new(Some("D:\\lua".to_owned()));
    type_text(&mut app, "730");
    press(&mut app, Key::Function(2));
    press(&mut app, Key::Tab);
    type_text(&mut app, "token");
    press(&mut app, Key::Function(3));
    app.progress = 50;
    app.summary = Some(summary());
    press(&mut app, Key::Char('R'));
    assert_eq!(app.app_id, "");
    assert_eq!(app.api_key, "token");
    assert_eq!(app.mode, DownloadMode::GithubExternal);
    assert_eq!(app.run_mode, RunMode::FullRebase);
    assert_eq!(app.focus, FocusField::ApiKey);
    assert_eq!(app.status, "Press Enter to scan every Lua file in D:\\lua.");
    assert_eq!(app.logs, vec!["[*] Session reset.", "[*] Custom Lua directory: D:\\lua"]);
    assert_eq!(app.progress, 0);
    assert!(app.summary.is_none());
}

#[test]
fn a_reset_invites_to_the_next_run() {
    let mut app = App::new(None);
    press(&mut app, Key::Char('r'));
    assert_eq!(app.status, "Enter a Steam AppID and press Enter.");
    assert_eq!(app.logs, vec!["[*] Session reset."]);
    press(&mut app, Key::Function(3));
    press(&mut app, Key::Char('r'));
    assert_eq!(app.status, "Press Enter to scan every Lua file in stplug-in.");
}

#[test]
fn enter_starts_a_run_with_trimmed_texts() {
    let mut app = App::new(None);
    type_text(&mut app, "730");
    app.api_key = " key ".to_owned();
    let request = started(press(&mut app, Key::Enter));
    assert_eq!(request.app_id, "730");
    assert_eq!(request.api_key, "key");
    assert_eq!((request.mode, request.run_mode), (DownloadMode::Github, RunMode::SingleApp));
    assert!(app.busy);
    assert_eq!(app.api_key, " key ");
}

#[test]
fn a_busy_session_takes_no_key_but_escape() {
    let mut app = App::new(None);
    type_text(&mut app, "730");
    press(&mut app, Key::Enter);
    let keys = [
        Key::Tab,
        Key::Function(2),
        Key::Function(3),
        Key::Backspace,
        Key::Enter,
        Key::Char('r'),
        Key::Char('1'),
        Key::Other,
    ];
    for key in keys {
        assert!(matches!(press(&mut app, key), KeyAction::Stay));
    }
    assert_eq!(app.app_id, "730");
    assert_eq!((app.mode, app.run_mode), (DownloadMode::Github, RunMode::SingleApp));
    assert!(app.busy);
    assert!(matches!(press(&mut app, Key::Esc), KeyAction::Quit));
}

#[test]
fn only_presses_count() {
    let mut app = App::new(None);
    assert!(matches!(app.handle_key(Key::Esc, false), KeyAction::Stay));
    assert!(matches!(app.handle_key(Key::Enter, false), KeyAction::Stay));
    app.handle_key(Key::Char('1'), false);
    assert_eq!(app.app_id, "");
    assert!(!app.busy);
}

#[test]
fn the_log_keeps_two_hundred_lines() {
    let mut app = App::new(None);
    for i in 0..250 {
        app.push_log(format!("line {i}"));
    }
    assert_eq!(app.logs.len(), 200);
    assert_eq!(app.logs[0], "line 50");
    assert_eq!(app.logs[199], "line 249");
}

#[test]
fn events_are_taken_into_the_session() {
    let mut app = App::new(None);
    app.busy = true;
    assert!(!apply_worker_event(&mut app, WorkerEvent::Reset));
    assert!(app.logs.is_empty());
    assert!(!apply_worker_event(&mut app, WorkerEvent::Log("one".to_owned())));
    assert!(!apply_worker_event(&mut app, WorkerEvent::Status("working".to_owned())));
    assert!(!apply_worker_event(&mut app, WorkerEvent::Progress(40)));
    assert!(!apply_worker_event(&mut app, WorkerEvent::Summary(summary())));
    assert_eq!(app.logs, vec!["one"]);
    assert_eq!(app.status, "working");
    assert_eq!(app.progress, 40);
    assert_eq!(app.summary.as_ref().unwrap().target_label, "730");
    assert!(app.busy);
    assert!(apply_worker_event(&mut app, WorkerEvent::Finished));
    assert!(!app.busy);
    assert_eq!(app.status, "working");
}

#[test]
fn a_failure_is_shown_and_releases_the_session() {
    let mut app = App::new(None);
    app.busy = true;
    assert!(apply_worker_event(&mut app, WorkerEvent::Failed("no such app".to_owned())));
    assert_eq!(app.status, "Error: no such app");
    assert_eq!(app.logs.last().unwrap(), "[-] no such app");
    assert!(!app.busy);
}

#[test]
fn the_last_pending_event_tells_whether_the_worker_is_done() {
    let mut app = App::new(None);
    assert!(!apply_worker_events(&mut app, Vec::new()));
    let events = vec![WorkerEvent::Reset, WorkerEvent::Progress(10)];
    assert!(!apply_worker_events(&mut app, events));
    assert_eq!(app.progress, 10);
    let events = vec![WorkerEvent::Progress(100), WorkerEvent::Finished];
    assert!(apply_worker_events(&mut app, events));
    let events = vec![WorkerEvent::Finished, WorkerEvent::Progress(3)];
    assert!(!apply_worker_events(&mut app, events));
    assert_eq!(app.progress, 3);
}
