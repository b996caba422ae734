use steam_tools::download::{
    after_fallback, after_github, check_existing, fallback_url, github_url, manifest_file_name,
    Attempt, AttemptResult, AttemptStep, DownloadOutcome, DownloadResult, DownloadStep,
    ExistingFile,
};
use steam_tools::download_machine::{Download, FetchAction, FetchInput, Stage};
use steam_tools::manifest::DownloadItem;
use steam_tools::modes::DownloadMode;

const REPOSITORY: &str =
    "https://raw.githubusercontent.com/qwe213312/k25FCdfEOoEJ42S6/main/731_111.manifest";
const EXTERNAL: &str =
    "https://api.manifesthub1.filegear-sg.me/manifest?apikey=key&depotid=731&manifestid=111";

fn item() -> DownloadItem {
    DownloadItem { depot_id: "731".to_owned(), manifest_id: "111".to_owned() }
}

fn success(size: u64) -> AttemptResult {
    AttemptResult { success: true, is_404: false, size, attempts: 1, error: None }
}

fn missing() -> AttemptResult {
    AttemptResult {
        success: false,
        is_404: true,
        size: 0,
        attempts: 1,
        error: Some("not found (404)".to_owned()),
    }
}

fn failure(attempts: usize, error: Option<&str>) -> AttemptResult {
    let error = error.map(str::to_owned);
    AttemptResult { success: false, is_404: false, size: 0, attempts, error }
}

#[test]
fn manifests_have_names_and_addresses() {
    assert_eq!(manifest_file_name(&item()), "731_111.manifest");
    assert_eq!(github_url(&item()), REPOSITORY);
}

#[test]
fn the_external_site_needs_its_mode_and_a_key() {
    let (github, external) = (DownloadMode::Github, DownloadMode::GithubExternal);
    assert_eq!(fallback_url(external, "key", &item()).as_deref(), Some(EXTERNAL));
    assert_eq!(fallback_url(external, "", &item()), None);
    assert_eq!(fallback_url(github, "key", &item()), None);
    assert_eq!(fallback_url(github, "", &item()), None);
}

#[test]
fn a_file_with_contents_is_kept() {
    match check_existing(Some(5)) {
        ExistingFile::Keep(result) => {
            assert_eq!(result.outcome, DownloadOutcome::SkippedExisting);
            assert_eq!(result.size, 5);
        }
        _ => panic!("the file has contents"),
    }
    assert!(matches!(check_existing(Some(0)), ExistingFile::Remove));
    assert!(matches!(check_existing(None), ExistingFile::Absent));
}

#[test]
fn attempts_begin_without_a_wait() {
    match Attempt::begin(2) {
        AttemptStep::Send { attempt, wait_seconds } => {
            assert_eq!(attempt, Attempt { number: 1, allowed: 2 });
            assert_eq!(wait_seconds, 0);
        }
        _ => panic!("the first request is sent"),
    }
    match Attempt::begin(0) {
        AttemptStep::Finish(result) => {
            assert!(!result.success && !result.is_404);
            assert_eq!(result.attempts, 0);
            assert_eq!(result.error, None);
        }
        _ => panic!("no attempt is allowed"),
    }
}

#[test]
fn a_failed_attempt_is_repeated_after_three_seconds() {
    let first = Attempt { number: 1, allowed: 2 };
    match first.on_error("timeout".to_owned()) {
        AttemptStep::Send { attempt, wait_seconds } => {
            assert_eq!(attempt, Attempt { number: 2, allowed: 2 });
            assert_eq!(wait_seconds, 3);
        }
        _ => panic!("another attempt is allowed"),
    }
    match (Attempt { number: 2, allowed: 2 }).on_error("timeout".to_owned()) {
        AttemptStep::Finish(result) => {
            assert!(!result.success && !result.is_404);
            assert_eq!((result.size, result.attempts), (0, 2));
            assert_eq!(result.error.as_deref(), Some("timeout"));
        }
        _ => panic!("no attempt is left"),
    }
}

#[test]
fn responses_are_told_apart_by_their_status() {
    let last = Attempt { number: 3, allowed: 3 };
    for status in [200, 204, 299] {
        assert!(matches!(last.on_response(status, "OK"), AttemptStep::ReadBody(_)));
    }
    match last.on_response(404, "404 Not Found") {
        AttemptStep::Finish(result) => {
            assert!(result.is_404 && !result.success);
            assert_eq!(result.attempts, 3);
            assert_eq!(result.error.as_deref(), Some("not found (404)"));
        }
        _ => panic!("the file is not there"),
    }
    for status in [100, 199, 300, 403, 500] {
        match last.on_response(status, "503 Service Unavailable") {
            AttemptStep::Finish(result) => {
                assert!(!result.is_404);
                assert_eq!(result.error.as_deref(), Some("HTTP 503 Service Unavailable"));
            }
            _ => panic!("the last attempt failed"),
        }
    }
}

#[test]
fn an_empty_body_is_a_failure() {
    let last = Attempt { number: 1, allowed: 1 };
    match last.on_body(0) {
        AttemptStep::Finish(result) => assert_eq!(result.error.as_deref(), Some("empty file")),
        _ => panic!("an empty file is no success"),
    }
    match last.on_body(7) {
        AttemptStep::Store(result) => {
            assert!(result.success);
            assert_eq!((result.size, result.attempts), (7, 1));
            assert_eq!(result.error, None);
        }
        _ => panic!("the body is stored"),
    }
}

#[test]
fn the_repository_decides_about_the_external_site() {
    let external = DownloadMode::GithubExternal;
    match after_github(external, "key", &item(), success(9)) {
        DownloadStep::Done(result) => {
            assert_eq!(result, DownloadResult { outcome: DownloadOutcome::Downloaded, size: 9 });
        }
        _ => panic!("the file was fetched"),
    }
    match after_github(external, "key", &item(), missing()) {
        DownloadStep::Fallback { url } => assert_eq!(url, EXTERNAL),
        _ => panic!("the external site may be asked"),
    }
    for (mode, key) in [(DownloadMode::Github, "key"), (external, "")] {
        match after_github(mode, key, &item(), missing()) {
            DownloadStep::Done(result) => {
                assert_eq!(
                    result,
                    DownloadResult { outcome: DownloadOutcome::Unavailable, size: 0 }
                );
            }
            _ => panic!("the external site may not be asked"),
        }
    }
    match after_github(external, "key", &item(), failure(2, Some("HTTP 500"))) {
        DownloadStep::Failed(error) => {
            assert_eq!(error, "GitHub failed after 2 attempts: HTTP 500");
        }
        _ => panic!("the repository could not be asked"),
    }
    match after_github(external, "key", &item(), failure(0, None)) {
        DownloadStep::Failed(error) => {
            assert_eq!(error, "GitHub failed after 0 attempts: unknown error");
        }
        _ => panic!("the repository was not asked"),
    }
}

#[test]
fn the_external_site_has_the_last_word() {
    let done = after_fallback(success(4)).unwrap();
    assert_eq!(done, DownloadResult { outcome: DownloadOutcome::Downloaded, size: 4 });
    assert_eq!(
        after_fallback(missing()).unwrap_err(),
        "fallback failed after 1 attempts: not found (404)"
    );
    assert_eq!(
        after_fallback(failure(5, Some("timeout"))).unwrap_err(),
        "fallback failed after 5 attempts: timeout"
    );
}

/// What a server does with one request.
#[derive(Clone, Copy)]
enum Reply {
    Status(u16),
    Body(u64),
    Broken,
}

/// Does a download with the given replies. The result, and the requests that were sent.
fn drive(
    mode: DownloadMode,
    key: &str,
    size: Option<u64>,
    replies: &[Reply],
) -> (Result<DownloadResult, String>, Vec<(String, u64)>) {
    let mut sent = Vec::new();
    let mut body = 0;
    let mut download = Download::start(mode, key, &item());
    loop {
        let input = match download.action() {
            FetchAction::CheckFile => FetchInput::FileSize(size),
            FetchAction::RemoveFile => FetchInput::Removed,
            FetchAction::Send { url, wait_seconds } => {
                let reply = replies[sent.len()];
                sent.push((url, wait_seconds));
                match reply {
                    Reply::Status(status) => {
                        FetchInput::Response { status, status_text: format!("{status} X") }
                    }
                    Reply::Body(size) => {
                        body = size;
                        FetchInput::Response { status: 200, status_text: "200 OK".to_owned() }
                    }
                    Reply::Broken => FetchInput::SendFailed("broken".to_owned()),
                }
            }
            FetchAction::ReadBody => FetchInput::Body(Ok(body)),
            FetchAction::Store => FetchInput::Stored(Ok(())),
            FetchAction::Stop => match download.stage {
                Stage::Done(result) => return (result, sent),
                _ => panic!("the download is not done"),
            },
        };
        assert!(download.awaits(&input));
        download = download.advance(input);
    }
}

fn requests(expected: &[(&str, u64)]) -> Vec<(String, u64)> {
    expected.iter().map(|(url, wait)| (url.to_string(), *wait)).collect()
}

#[test]
fn nothing_is_fetched_for_a_file_that_is_there() {
    let (result, sent) = drive(DownloadMode::Github, "", Some(12), &[]);
    assert_eq!(
        result.unwrap(),
        DownloadResult { outcome: DownloadOutcome::SkippedExisting, size: 12 }
    );
    assert!(sent.is_empty());
}

#[test]
fn an_empty_file_is_fetched_again() {
    let (result, sent) = drive(DownloadMode::Github, "", Some(0), &[Reply::Body(3)]);
    assert_eq!(result.unwrap(), DownloadResult { outcome: DownloadOutcome::Downloaded, size: 3 });
    assert_eq!(sent, requests(&[(REPOSITORY, 0)]));
}

#[test]
fn the_first_settled_request_decides() {
    let replies = [Reply::Broken, Reply::Body(8), Reply::Body(9)];
    let (result, sent) = drive(DownloadMode::GithubExternal, "key", None, &replies);
    assert_eq!(result.unwrap(), DownloadResult { outcome: DownloadOutcome::Downloaded, size: 8 });
    assert_eq!(sent, requests(&[(REPOSITORY, 0), (REPOSITORY, 3)]));
}

#[test]
fn the_repository_is_asked_twice_at_most() {
    let replies = [Reply::Status(500), Reply::Body(0), Reply::Body(9)];
    let (result, sent) = drive(DownloadMode::GithubExternal, "key", None, &replies);
    assert_eq!(result.unwrap_err(), "GitHub failed after 2 attempts: empty file");
    assert_eq!(sent.len(), 2);
}

#[test]
fn the_external_site_is_asked_only_after_a_404() {
    let replies = [Reply::Status(404), Reply::Body(6)];
    let (result, sent) = drive(DownloadMode::GithubExternal, "key", None, &replies);
    assert_eq!(result.unwrap(), DownloadResult { outcome: DownloadOutcome::Downloaded, size: 6 });
    assert_eq!(sent, requests(&[(REPOSITORY, 0), (EXTERNAL, 0)]));
    let (result, sent) = drive(DownloadMode::Github, "key", None, &replies);
    assert_eq!(result.unwrap(), DownloadResult { outcome: DownloadOutcome::Unavailable, size: 0 });
    assert_eq!(sent, requests(&[(REPOSITORY, 0)]));
}

#[test]
fn no_more_than_seven_requests_are_sent() {
    let mut replies = vec![Reply::Broken, Reply::Status(404)];
    replies.extend([Reply::Status(503); 9]);
    let (result, sent) = drive(DownloadMode::GithubExternal, "key", None, &replies);
    assert_eq!(result.unwrap_err(), "fallback failed after 5 attempts: HTTP 503 X");
    assert_eq!(
        sent,
        requests(&[
            (REPOSITORY, 0),
            (REPOSITORY, 3),
            (EXTERNAL, 0),
            (EXTERNAL, 3),
            (EXTERNAL, 3),
            (EXTERNAL, 3),
            (EXTERNAL, 3),
        ])
    );
}

#[test]
fn a_404_of_the_external_site_is_a_failure() {
    let replies = [Reply::Status(404), Reply::Status(404)];
    let (result, _) = drive(DownloadMode::GithubExternal, "key", None, &replies);
    assert_eq!(result.unwrap_err(), "fallback failed after 1 attempts: not found (404)");
}

#[test]
fn a_body_that_is_lost_ends_the_download() {
    let start = || {
        let download = Download::start(DownloadMode::Github, "", &item());
        let download = download.advance(FetchInput::FileSize(None));
        download.advance(FetchInput::Response { status: 200, status_text: "200 OK".to_owned() })
    };
    let unread = start().advance(FetchInput::Body(Err("reset".to_owned())));
    assert!(matches!(unread.stage, Stage::Done(Err(error)) if error == "reset"));
    let unwritten = start()
        .advance(FetchInput::Body(Ok(4)))
        .advance(FetchInput::Stored(Err("disk full".to_owned())));
    assert!(matches!(unwritten.stage, Stage::Done(Err(error)) if error == "disk full"));
}

#[test]
fn a_download_waits_for_one_kind_of_input() {
    let download = Download::start(DownloadMode::Github, "", &item());
    assert!(download.awaits(&FetchInput::FileSize(None)));
    assert!(!download.awaits(&FetchInput::Removed));
    assert!(!download.awaits(&FetchInput::Body(Ok(1))));
    assert!(!download.awaits(&FetchInput::Stored(Ok(()))));
    let done = download.advance(FetchInput::FileSize(Some(1)));
    assert!(!done.awaits(&FetchInput::FileSize(None)));
}
