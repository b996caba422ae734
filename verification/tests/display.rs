use steam_tools::display::{
    api_key_display, api_key_focused, app_id_display, app_id_focused, error_panel, focus_label,
    format_elapsed, log_level, progress_label, push_recent_error, scope_display, size_label,
    summary_rows, truncate_path, visible_logs, ErrorPanel, LogLevel, SizeLabel,
};
use steam_tools::modes::{DownloadMode, FocusField, RunMode};
use steam_tools::session::{App, RunSummary};

fn summary(errors: Vec<String>) -> RunSummary {
    RunSummary {
        target_label: "Full Rebase".to_owned(),
        steam_path: "C:\\Program Files (x86)\\Steam".to_owned(),
        output_path: "C:\\Program Files (x86)\\Steam\\depotcache".to_owned(),
        app_count: 11,
        lua_files: 12,
        depot_ids: vec!["1".to_owned(), "2".to_owned(), "3".to_owned()],
        failed_apps: 13,
        recent_errors: errors,
        total: 14,
        downloaded: 15,
        skipped: 16,
        unavailable: 17,
        failed: 18,
        downloaded_bytes: 19,
        elapsed: "01:02".to_owned(),
    }
}

#[test]
fn long_paths_are_shown_by_their_end() {
    assert_eq!(truncate_path("abcdef", 6), "abcdef");
    assert_eq!(truncate_path("abcdefg", 6), "...efg");
    assert_eq!(truncate_path("abcdefg", 3), "...");
    assert_eq!(truncate_path("abcdefg", 2), "...");
    assert_eq!(truncate_path("", 0), "");
    assert_eq!(truncate_path("\u{e9}\u{e8}\u{ea}\u{eb}\u{1f600}", 4), "...\u{1f600}");
}

#[test]
fn times_have_minutes_and_seconds() {
    assert_eq!(format_elapsed(0), "00:00");
    assert_eq!(format_elapsed(59), "00:59");
    assert_eq!(format_elapsed(60), "01:00");
    assert_eq!(format_elapsed(3661), "61:01");
    assert_eq!(format_elapsed(60000), "1000:00");
    assert_ne!(format_elapsed(61), format_elapsed(62));
}

#[test]
fn sizes_have_their_units() {
    assert!(matches!(size_label(0), SizeLabel::Plain(text) if text == "0 B"));
    assert!(matches!(size_label(1023), SizeLabel::Plain(text) if text == "1023 B"));
    assert!(matches!(size_label(1024), SizeLabel::Scaled { divisor: 1024, unit: "KB" }));
    assert!(matches!(size_label(1048575), SizeLabel::Scaled { divisor: 1024, unit: "KB" }));
    assert!(matches!(size_label(1048576), SizeLabel::Scaled { divisor: 1048576, unit: "MB" }));
    assert!(matches!(size_label(u64::MAX), SizeLabel::Scaled { divisor: 1048576, unit: "MB" }));
}

#[test]
fn four_errors_are_remembered() {
    let mut errors = Vec::new();
    for i in 1..=6 {
        push_recent_error(&mut errors, format!("error {i}"));
    }
    assert_eq!(errors, vec!["error 3", "error 4", "error 5", "error 6"]);
}

#[test]
fn log_lines_have_levels() {
    assert_eq!(log_level("[+] done"), LogLevel::Success);
    assert_eq!(log_level("[-] failed"), LogLevel::Error);
    assert_eq!(log_level("[!] skipped"), LogLevel::Warning);
    assert_eq!(log_level("[*] working"), LogLevel::Info);
    assert_eq!(log_level("plain"), LogLevel::Plain);
    assert_eq!(log_level("[+"), LogLevel::Plain);
    assert_eq!(log_level(" [+] indented"), LogLevel::Plain);
}

#[test]
fn the_newest_log_lines_are_shown() {
    let logs: Vec<String> = (0..5).map(|i| format!("{i}")).collect();
    assert_eq!(visible_logs(&logs, 4), vec!["3", "4"]);
    assert_eq!(visible_logs(&logs, 100), logs);
    assert!(visible_logs(&logs, 2).is_empty());
    assert!(visible_logs(&logs, 0).is_empty());
}

#[test]
fn an_api_key_is_hidden() {
    let mut app = App::new(None);
    assert_eq!(api_key_display(&app), "not required");
    app.mode = DownloadMode::GithubExternal;
    assert_eq!(api_key_display(&app), "<empty>");
    app.api_key = "abc".to_owned();
    assert_eq!(api_key_display(&app), "***");
    app.api_key = "x".repeat(16);
    assert_eq!(api_key_display(&app), "****************");
    app.api_key = "y".repeat(17);
    assert_eq!(api_key_display(&app), "****************...");
    app.api_key = "\u{e9}".to_owned();
    assert_eq!(api_key_display(&app), "**");
}

#[test]
fn keys_of_the_same_length_look_the_same() {
    let mut one = App::new(None);
    one.mode = DownloadMode::GithubExternal;
    one.api_key = "first".to_owned();
    let mut two = App::new(None);
    two.mode = DownloadMode::GithubExternal;
    two.api_key = "other".to_owned();
    assert_eq!(api_key_display(&one), api_key_display(&two));
    one.mode = DownloadMode::Github;
    two.mode = DownloadMode::Github;
    two.api_key = String::new();
    assert_eq!(api_key_display(&one), api_key_display(&two));
}

#[test]
fn the_controls_show_the_inputs() {
    let mut app = App::new(None);
    assert_eq!(app_id_display(&app), "<enter app id>");
    app.app_id = "730".to_owned();
    assert_eq!(app_id_display(&app), "730");
    assert_eq!(scope_display(&app), "Every .lua file in Steam\\config\\stplug-in");
    let custom = App::new(Some("D:\\lua".to_owned()));
    assert_eq!(scope_display(&custom), "Every .lua file in D:\\lua");
}

#[test]
fn the_focused_field_is_marked() {
    let mut app = App::new(None);
    assert!(app_id_focused(&app));
    assert!(!api_key_focused(&app));
    app.run_mode = RunMode::FullRebase;
    assert!(!app_id_focused(&app));
    app.focus = FocusField::ApiKey;
    assert!(api_key_focused(&app));
    assert!(!app_id_focused(&app));
    assert_eq!(focus_label(FocusField::AppId, RunMode::SingleApp), "AppID field");
    assert_eq!(focus_label(FocusField::AppId, RunMode::FullRebase), "Batch scope");
    assert_eq!(focus_label(FocusField::ApiKey, RunMode::SingleApp), "API key field");
    assert_eq!(focus_label(FocusField::ApiKey, RunMode::FullRebase), "API key field");
}

#[test]
fn the_progress_is_a_percentage() {
    assert_eq!(progress_label(0), "0%");
    assert_eq!(progress_label(100), "100%");
}

#[test]
fn the_summary_has_fourteen_rows() {
    let expected = [
        ("Target", "Full Rebase"),
        ("Apps", "11"),
        ("Lua files", "12"),
        ("Failed apps", "13"),
        ("Queued depots", "14"),
        ("Unique depots", "3"),
        ("Downloaded", "15"),
        ("Skipped", "16"),
        ("Unavailable", "17"),
        ("Failed", "18"),
        ("Download size", "19 B"),
        ("Elapsed", "01:02"),
        ("Steam", "C:\\Program Files (x86)\\Steam"),
        ("Output", "...iles (x86)\\Steam\\depotcache"),
    ];
    let rows = summary_rows(&Some(summary(Vec::new())), "19 B");
    let shown: Vec<(&str, &str)> = rows.iter().map(|r| (r.label, r.value.as_str())).collect();
    assert_eq!(shown, expected);
    let idle = summary_rows(&None, "");
    assert_eq!(idle.len(), 14);
    for (row, (label, _)) in idle.iter().zip(expected) {
        assert_eq!((row.label, row.value.as_str()), (label, "-"));
    }
}

#[test]
fn the_error_panel_tells_of_the_last_run() {
    assert!(matches!(
        error_panel(&None),
        ErrorPanel::Idle("Errors from the last run will appear here.")
    ));
    assert!(matches!(
        error_panel(&Some(summary(Vec::new()))),
        ErrorPanel::Clean("No recent batch errors.")
    ));
    let errors = vec!["one".to_owned(), "two".to_owned()];
    match error_panel(&Some(summary(errors.clone()))) {
        ErrorPanel::Errors(shown) => assert_eq!(shown, errors),
        _ => panic!("there are errors"),
    }
}
