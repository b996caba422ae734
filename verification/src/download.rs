//! The download of one manifest: which sources are tried, how often, and what comes of
//! it.
use crate::manifest::DownloadItem;
use crate::modes::DownloadMode;
use crate::text::decimal;
use crate::text::{decimal_text, join2, join3, join5};
use vstd::prelude::*;

verus! {

// ---------------------------------------------------------------------------
// Attempts at one address
// ---------------------------------------------------------------------------

/// What came of the attempts to fetch one address.
#[derive(Debug)]
pub struct AttemptResult {
    pub success: bool,
    pub is_404: bool,
    pub size: u64,
    pub attempts: usize,
    pub error: Option<String>,
}

/// The contents of an `AttemptResult`.
#[verifier::ext_equal]
pub struct AttemptView {
    pub success: bool,
    pub is_404: bool,
    pub size: u64,
    pub attempts: usize,
    pub error: Option<Seq<char>>,
}

impl View for AttemptResult {
    type V = AttemptView;

    open spec fn view(&self) -> AttemptView {
        AttemptView {
            success: self.success,
            is_404: self.is_404,
            size: self.size,
            attempts: self.attempts,
            error: match self.error {
                Some(error) => Some(error@),
                None => None,
            },
        }
    }
}

/// A file of `size` bytes was fetched.
pub open spec fn fetched(size: u64, attempts: usize) -> AttemptView {
    AttemptView { success: true, is_404: false, size, attempts, error: None }
}

/// The server does not have the file.
pub open spec fn not_found(attempts: usize) -> AttemptView {
    AttemptView {
        success: false,
        is_404: true,
        size: 0,
        attempts,
        error: Some("not found (404)"@),
    }
}

/// All attempts failed; `error` is the error of the last one, if there was one.
pub open spec fn exhausted(attempts: usize, error: Option<Seq<char>>) -> AttemptView {
    AttemptView { success: false, is_404: false, size: 0, attempts, error }
}

/// The attempt that is under way: its number, counted from one, and the number of
/// attempts allowed.
#[derive(Clone, Copy, Debug, PartialEq, Eq, Structural)]
pub struct Attempt {
    pub number: usize,
    pub allowed: usize,
}

/// What is to be done next.
pub enum AttemptStep {
    /// Wait, then remove what is at the target and send the request.
    Send { attempt: Attempt, wait_seconds: u64 },
    /// Read the body of the response.
    ReadBody(Attempt),
    /// Write the body to the target; then the result holds.
    Store(AttemptResult),
    /// There is nothing more to do.
    Finish(AttemptResult),
}

/// The contents of an `AttemptStep`.
#[verifier::ext_equal]
pub enum StepView {
    Send { attempt: Attempt, wait_seconds: u64 },
    ReadBody(Attempt),
    Store(AttemptView),
    Finish(AttemptView),
}

impl View for AttemptStep {
    type V = StepView;

    open spec fn view(&self) -> StepView {
        match *self {
            AttemptStep::Send { attempt, wait_seconds } => StepView::Send { attempt, wait_seconds },
            AttemptStep::ReadBody(attempt) => StepView::ReadBody(attempt),
            AttemptStep::Store(result) => StepView::Store(result@),
            AttemptStep::Finish(result) => StepView::Finish(result@),
        }
    }
}

/// The number of seconds between two attempts.
pub const RETRY_WAIT_SECONDS: u64 = 3;

/// The status codes of success.
pub open spec fn is_success(status: u16) -> bool {
    200 <= status < 300
}

impl Attempt {
    /// The attempt is one of those allowed.
    pub open spec fn valid(self) -> bool {
        1 <= self.number <= self.allowed
    }

    /// What follows an attempt that failed: another one, as long as one is allowed.
    pub open spec fn failed(self, error: Seq<char>) -> StepView {
        if self.number < self.allowed {
            StepView::Send {
                attempt: Attempt { number: (self.number + 1) as usize, allowed: self.allowed },
                wait_seconds: RETRY_WAIT_SECONDS,
            }
        } else {
            StepView::Finish(exhausted(self.allowed, Some(error)))
        }
    }

    /// What follows a response: its body where it is a success; the end where the server
    /// does not have the file; and otherwise another attempt.
    pub open spec fn answered(self, status: u16, status_text: Seq<char>) -> StepView {
        if is_success(status) {
            StepView::ReadBody(self)
        } else if status == 404 {
            StepView::Finish(not_found(self.number))
        } else {
            self.failed("HTTP "@ + status_text)
        }
    }

    /// What follows the body of a success: an empty file counts as a failure.
    pub open spec fn received(self, size: u64) -> StepView {
        if size == 0 {
            self.failed("empty file"@)
        } else {
            StepView::Store(fetched(size, self.number))
        }
    }

    /// Begins the attempts.
    pub fn begin(allowed: usize) -> (step: AttemptStep)
        ensures
            step@ == (if allowed == 0 {
                StepView::Finish(exhausted(0, None))
            } else {
                StepView::Send { attempt: Attempt { number: 1, allowed }, wait_seconds: 0 }
            }),
    {
        if allowed == 0 {
            AttemptStep::Finish(
                AttemptResult { success: false, is_404: false, size: 0, attempts: 0, error: None },
            )
        } else {
            AttemptStep::Send { attempt: Attempt { number: 1, allowed }, wait_seconds: 0 }
        }
    }

    /// The attempt failed with the given error.
    pub fn on_error(self, error: String) -> (step: AttemptStep)
        ensures
            step@ == self.failed(error@),
    {
        if self.number < self.allowed {
            AttemptStep::Send {
                attempt: Attempt { number: self.number + 1, allowed: self.allowed },
                wait_seconds: RETRY_WAIT_SECONDS,
            }
        } else {
            AttemptStep::Finish(
                AttemptResult {
                    success: false,
                    is_404: false,
                    size: 0,
                    attempts: self.allowed,
                    error: Some(error),
                },
            )
        }
    }

    /// A response came; `status_text` is its status as it is shown.
    pub fn on_response(self, status: u16, status_text: &str) -> (step: AttemptStep)
        ensures
            step@ == self.answered(status, status_text@),
    {
        if 200 <= status && status < 300 {
            AttemptStep::ReadBody(self)
        } else if status == 404 {
            AttemptStep::Finish(
                AttemptResult {
                    success: false,
                    is_404: true,
                    size: 0,
                    attempts: self.number,
                    error: Some("not found (404)".to_owned()),
                },
            )
        } else {
            self.on_error(join2("HTTP ", status_text))
        }
    }

    /// The body of a success was read; it has `size` bytes.
    pub fn on_body(self, size: u64) -> (step: AttemptStep)
        ensures
            step@ == self.received(size),
    {
        if size == 0 {
            self.on_error("empty file".to_owned())
        } else {
            AttemptStep::Store(
                AttemptResult {
                    success: true,
                    is_404: false,
                    size,
                    attempts: self.number,
                    error: None,
                },
            )
        }
    }
}

// ---------------------------------------------------------------------------
// All attempts together
// ---------------------------------------------------------------------------

/// What a server does with one request.
pub enum Exchange {
    /// It answers; the size is that of the body.
    Answer { status: u16, status_text: Seq<char>, size: u64 },
    /// The request does not get through.
    Broken(Seq<char>),
}

impl Exchange {
    /// The exchange delivers a file.
    pub open spec fn delivers(self) -> bool {
        self matches Exchange::Answer { status, size, .. } && is_success(status) && size > 0
    }

    /// The server does not have the file.
    pub open spec fn denies(self) -> bool {
        self matches Exchange::Answer { status, .. } && status == 404
    }

    /// The error of an exchange that neither delivers nor denies.
    pub open spec fn error(self) -> Seq<char> {
        match self {
            Exchange::Answer { status, status_text, .. } => if is_success(status) {
                "empty file"@
            } else {
                "HTTP "@ + status_text
            },
            Exchange::Broken(error) => error,
        }
    }
}

/// What follows a whole exchange.
pub open spec fn after_exchange(attempt: Attempt, exchange: Exchange) -> StepView {
    match exchange {
        Exchange::Answer { status, status_text, size } => match attempt.answered(
            status,
            status_text,
        ) {
            StepView::ReadBody(current) => current.received(size),
            other => other,
        },
        Exchange::Broken(error) => attempt.failed(error),
    }
}

/// The result of the attempts from the given one on; `exchanges` are what the server
/// does with the requests, the first of them with that attempt.
pub open spec fn run_attempts(attempt: Attempt, exchanges: Seq<Exchange>) -> Option<AttemptView>
    decreases exchanges.len(),
{
    if exchanges.len() == 0 {
        None
    } else {
        match after_exchange(attempt, exchanges[0]) {
            StepView::Send { attempt: next, .. } => run_attempts(next, exchanges.drop_first()),
            StepView::ReadBody(_) => None,
            StepView::Store(result) => Some(result),
            StepView::Finish(result) => Some(result),
        }
    }
}

/// The exchange settles the matter: the file is delivered, or the server denies it.
pub open spec fn settles(exchange: Exchange) -> bool {
    exchange.delivers() || exchange.denies()
}

/// Requests are repeated until one is settled, and no longer: the first exchange that
/// settles the matter decides, and the result counts the attempts up to it.
pub proof fn law_first_settled_exchange_decides(
    attempt: Attempt,
    exchanges: Seq<Exchange>,
    k: int,
)
    requires
        attempt.valid(),
        0 <= k < exchanges.len(),
        attempt.number + k <= attempt.allowed,
        settles(exchanges[k]),
        forall|j: int| 0 <= j < k ==> !settles(#[trigger] exchanges[j]),
    ensures
        exchanges[k] matches Exchange::Answer { status, size, .. } && run_attempts(
            attempt,
            exchanges,
        ) == Some(
            if status == 404 {
                not_found((attempt.number + k) as usize)
            } else {
                fetched(size, (attempt.number + k) as usize)
            },
        ),
    decreases k,
{
    if k > 0 {
        assert(!settles(exchanges[0]));
        let rest = exchanges.drop_first();
        let next = Attempt { number: (attempt.number + 1) as usize, allowed: attempt.allowed };
        assert(rest[k - 1] == exchanges[k]);
        assert forall|j: int| 0 <= j < k - 1 implies !settles(#[trigger] rest[j]) by {
            assert(rest[j] == exchanges[j + 1]);
        }
        law_first_settled_exchange_decides(next, rest, k - 1);
    }
}

/// Where no exchange settles the matter all the allowed attempts are made, no more, and
/// the error is that of the last one.
pub proof fn law_attempts_are_limited(attempt: Attempt, exchanges: Seq<Exchange>)
    requires
        attempt.valid(),
        exchanges.len() > attempt.allowed - attempt.number,
        forall|j: int|
            0 <= j <= attempt.allowed - attempt.number ==> !settles(#[trigger] exchanges[j]),
    ensures
        run_attempts(attempt, exchanges) == Some(
            exhausted(
                attempt.allowed,
                Some(exchanges[attempt.allowed - attempt.number].error()),
            ),
        ),
    decreases attempt.allowed - attempt.number,
{
    assert(!settles(exchanges[0]));
    if attempt.number < attempt.allowed {
        let rest = exchanges.drop_first();
        let next = Attempt { number: (attempt.number + 1) as usize, allowed: attempt.allowed };
        assert forall|j: int| 0 <= j <= next.allowed - next.number implies !settles(
            #[trigger] rest[j],
        ) by {
            assert(rest[j] == exchanges[j + 1]);
        }
        law_attempts_are_limited(next, rest);
        assert(rest[next.allowed - next.number] == exchanges[attempt.allowed - attempt.number]);
    }
}

/// An attempt that is allowed is followed by attempts that are allowed.
pub proof fn law_attempts_stay_valid(attempt: Attempt, exchange: Exchange)
    requires
        attempt.valid(),
    ensures
        after_exchange(attempt, exchange) matches StepView::Send { attempt: next, .. }
            ==> next.valid() && next.number == attempt.number + 1,
{
}

// ---------------------------------------------------------------------------
// One manifest
// ---------------------------------------------------------------------------

/// What became of a manifest.
#[derive(Clone, Copy, Debug, PartialEq, Eq, Structural)]
pub enum DownloadOutcome {
    Downloaded,
    SkippedExisting,
    Unavailable,
}

/// What became of a manifest, and the size of its file.
#[derive(Clone, Copy, Debug, PartialEq, Eq, Structural)]
pub struct DownloadResult {
    pub outcome: DownloadOutcome,
    pub size: u64,
}

/// The name of the file that a manifest is kept in.
pub open spec fn file_name(item: (Seq<char>, Seq<char>)) -> Seq<char> {
    item.0 + "_"@ + item.1 + ".manifest"@
}

/// The name of the file that a manifest is kept in.
pub fn manifest_file_name(item: &DownloadItem) -> (r: String)
    ensures
        r@ == file_name(item@),
{
    let stem: String = join3(item.depot_id.as_str(), "_", item.manifest_id.as_str());
    join2(stem.as_str(), ".manifest")
}

/// The address of a manifest in the repository.
pub open spec fn repository_address(item: (Seq<char>, Seq<char>)) -> Seq<char> {
    "https://raw.githubusercontent.com/qwe213312/k25FCdfEOoEJ42S6/main/"@ + file_name(item)
}

/// The address of a manifest in the repository.
pub fn github_url(item: &DownloadItem) -> (r: String)
    ensures
        r@ == repository_address(item@),
{
    let name: String = manifest_file_name(item);
    join2("https://raw.githubusercontent.com/qwe213312/k25FCdfEOoEJ42S6/main/", name.as_str())
}

/// The address of a manifest at the external site, where the mode allows for one and
/// there is a key.
pub open spec fn external_address(
    mode: DownloadMode,
    api_key: Seq<char>,
    item: (Seq<char>, Seq<char>),
) -> Option<Seq<char>> {
    if api_key.len() == 0 || mode == DownloadMode::Github {
        None
    } else {
        Some(
            "https://api.manifesthub1.filegear-sg.me/manifest?apikey="@ + api_key + "&depotid="@
                + item.0 + "&manifestid="@ + item.1,
        )
    }
}

/// The address of a manifest at the external site, if that may be asked.
pub fn fallback_url(mode: DownloadMode, api_key: &str, item: &DownloadItem) -> (r: Option<String>)
    ensures
        match r {
            Some(url) => external_address(mode, api_key@, item@) == Some(url@),
            None => external_address(mode, api_key@, item@) is None,
        },
{
    if api_key.is_empty() {
        return None;
    }
    match mode {
        DownloadMode::Github => None,
        DownloadMode::GithubExternal => {
            let head: String = join2(
                "https://api.manifesthub1.filegear-sg.me/manifest?apikey=",
                api_key,
            );
            Some(
                join5(
                    head.as_str(),
                    "&depotid=",
                    item.depot_id.as_str(),
                    "&manifestid=",
                    item.manifest_id.as_str(),
                ),
            )
        },
    }
}

/// What is to be done about a file that may be there already.
pub enum ExistingFile {
    /// The file is there: nothing is downloaded.
    Keep(DownloadResult),
    /// An empty file is there: it is removed, and the manifest is downloaded.
    Remove,
    /// There is no file: the manifest is downloaded.
    Absent,
}

/// Decides about a file that may be there already; `size` is its size, if it is.
pub fn check_existing(size: Option<u64>) -> (r: ExistingFile)
    ensures
        match r {
            ExistingFile::Keep(result) => {
                &&& size == Some(result.size)
                &&& result.size > 0
                &&& result.outcome == DownloadOutcome::SkippedExisting
            },
            ExistingFile::Remove => size == Some(0u64),
            ExistingFile::Absent => size is None,
        },
{
    match size {
        Some(size) => if size > 0 {
            ExistingFile::Keep(
                DownloadResult { outcome: DownloadOutcome::SkippedExisting, size },
            )
        } else {
            ExistingFile::Remove
        },
        None => ExistingFile::Absent,
    }
}

/// The number of attempts at the repository.
pub const GITHUB_ATTEMPTS: usize = 2;

/// The number of attempts at the external site.
pub const FALLBACK_ATTEMPTS: usize = 5;

/// What is to be done when the repository has been tried.
pub enum DownloadStep {
    /// The matter is settled.
    Done(DownloadResult),
    /// Try the external site.
    Fallback { url: String },
    /// The download failed.
    Failed(String),
}

/// The contents of a `DownloadStep`.
#[verifier::ext_equal]
pub enum DownloadStepView {
    Done(DownloadResult),
    Fallback { url: Seq<char> },
    Failed(Seq<char>),
}

impl View for DownloadStep {
    type V = DownloadStepView;

    open spec fn view(&self) -> DownloadStepView {
        match *self {
            DownloadStep::Done(result) => DownloadStepView::Done(result),
            DownloadStep::Fallback { url } => DownloadStepView::Fallback { url: url@ },
            DownloadStep::Failed(error) => DownloadStepView::Failed(error@),
        }
    }
}

/// The message for attempts that came to nothing.
pub open spec fn failure_text(source: Seq<char>, result: AttemptView) -> Seq<char> {
    source + " failed after "@ + decimal(result.attempts as nat) + " attempts: "@ + (
    match result.error {
        Some(error) => error,
        None => "unknown error"@,
    })
}

fn failure_message(source: &str, result: AttemptResult) -> (r: String)
    ensures
        r@ == failure_text(source@, result@),
{
    let attempts: String = decimal_text(result.attempts as u64);
    let error: String = match result.error {
        Some(error) => error,
        None => "unknown error".to_owned(),
    };
    join5(source, " failed after ", attempts.as_str(), " attempts: ", error.as_str())
}

/// What follows when the repository has been tried: the external site is asked only
/// where the repository does not have the manifest.
pub open spec fn after_repository(
    mode: DownloadMode,
    api_key: Seq<char>,
    item: (Seq<char>, Seq<char>),
    result: AttemptView,
) -> DownloadStepView {
    if result.success {
        DownloadStepView::Done(
            DownloadResult { outcome: DownloadOutcome::Downloaded, size: result.size },
        )
    } else if result.is_404 {
        match external_address(mode, api_key, item) {
            Some(url) => DownloadStepView::Fallback { url },
            None => DownloadStepView::Done(
                DownloadResult { outcome: DownloadOutcome::Unavailable, size: 0 },
            ),
        }
    } else {
        DownloadStepView::Failed(failure_text("GitHub"@, result))
    }
}

/// Decides what follows when the repository has been tried.
pub fn after_github(
    mode: DownloadMode,
    api_key: &str,
    item: &DownloadItem,
    result: AttemptResult,
) -> (step: DownloadStep)
    ensures
        step@ == after_repository(mode, api_key@, item@, result@),
{
    if result.success {
        return DownloadStep::Done(
            DownloadResult { outcome: DownloadOutcome::Downloaded, size: result.size },
        );
    }
    if result.is_404 {
        return match fallback_url(mode, api_key, item) {
            Some(url) => DownloadStep::Fallback { url },
            None => DownloadStep::Done(
                DownloadResult { outcome: DownloadOutcome::Unavailable, size: 0 },
            ),
        };
    }
    DownloadStep::Failed(failure_message("GitHub", result))
}

/// Decides what becomes of the manifest when the external site has been tried.
pub fn after_fallback(result: AttemptResult) -> (r: Result<DownloadResult, String>)
    ensures
        match r {
            Ok(done) => result@.success && done == (DownloadResult {
                outcome: DownloadOutcome::Downloaded,
                size: result@.size,
            }),
            Err(message) => !result@.success && message@ == failure_text("fallback"@, result@),
        },
{
    if result.success {
        Ok(DownloadResult { outcome: DownloadOutcome::Downloaded, size: result.size })
    } else {
        Err(failure_message("fallback", result))
    }
}

/// With GitHub as the only source, or without a key, the external site is never asked.
pub proof fn law_no_fallback_without_consent(
    mode: DownloadMode,
    api_key: Seq<char>,
    item: (Seq<char>, Seq<char>),
    result: AttemptView,
)
    requires
        mode == DownloadMode::Github || api_key.len() == 0,
    ensures
        !(after_repository(mode, api_key, item, result) is Fallback),
        !result.success && result.is_404 ==> after_repository(mode, api_key, item, result)
            == DownloadStepView::Done(
            DownloadResult { outcome: DownloadOutcome::Unavailable, size: 0 },
        ),
{
}

/// The external site is asked only for what the repository does not have.
pub proof fn law_fallback_only_after_404(
    mode: DownloadMode,
    api_key: Seq<char>,
    item: (Seq<char>, Seq<char>),
    attempt: Attempt,
    exchanges: Seq<Exchange>,
)
    requires
        attempt.valid(),
        run_attempts(attempt, exchanges) matches Some(result) && after_repository(
            mode,
            api_key,
            item,
            result,
        ) is Fallback,
    ensures
        exists|k: int| 0 <= k < exchanges.len() && (#[trigger] exchanges[k]).denies(),
    decreases exchanges.len(),
{
    if exchanges[0].denies() {
    } else {
        match after_exchange(attempt, exchanges[0]) {
            StepView::Send { attempt: next, .. } => {
                let rest = exchanges.drop_first();
                law_fallback_only_after_404(mode, api_key, item, next, rest);
                let k = choose|k: int| 0 <= k < rest.len() && (#[trigger] rest[k]).denies();
                assert(exchanges[k + 1].denies());
            },
            _ => {},
        }
    }
}

/// A download never ends with an empty file: what is reported as downloaded has a size.
pub proof fn law_downloads_are_not_empty(attempt: Attempt, exchanges: Seq<Exchange>)
    requires
        attempt.valid(),
    ensures
        run_attempts(attempt, exchanges) matches Some(result) ==> (result.success ==> result.size
            > 0) && !(result.success && result.is_404) && (result.success <==> result.error is None),
    decreases exchanges.len(),
{
    if exchanges.len() > 0 {
        match after_exchange(attempt, exchanges[0]) {
            StepView::Send { attempt: next, .. } => {
                law_downloads_are_not_empty(next, exchanges.drop_first());
            },
            _ => {},
        }
    }
}

/// An attempt that fails is followed by the next one after three seconds, as long as one is
/// allowed; the last one ends the matter with its own error.
pub proof fn law_failed_attempts_are_repeated(attempt: Attempt, error: Seq<char>)
    ensures
        attempt.number < attempt.allowed ==> (attempt.failed(error) matches StepView::Send {
            attempt: next,
            wait_seconds,
        } && next.number == attempt.number + 1 && next.allowed == attempt.allowed && wait_seconds
            == 3),
        attempt.number >= attempt.allowed ==> attempt.failed(error) == StepView::Finish(
            AttemptView {
                success: false,
                is_404: false,
                size: 0,
                attempts: attempt.allowed,
                error: Some(error),
            },
        ),
{
}

/// The status of a response decides: from 200 to 299 the body is read, 404 ends the matter,
/// and every other status is a failed attempt.
pub proof fn law_status_decides(attempt: Attempt, status: u16, status_text: Seq<char>)
    ensures
        200 <= status <= 299 ==> attempt.answered(status, status_text) == StepView::ReadBody(
            attempt,
        ),
        status == 404 ==> attempt.answered(status, status_text) == StepView::Finish(
            AttemptView {
                success: false,
                is_404: true,
                size: 0,
                attempts: attempt.number,
                error: Some("not found (404)"@),
            },
        ),
        !(200 <= status <= 299) && status != 404 ==> attempt.answered(status, status_text)
            == attempt.failed("HTTP "@ + status_text),
{
}

/// A body of any size but zero is stored, with that size; an empty one is a failed attempt.
pub proof fn law_size_decides(attempt: Attempt, size: u64)
    ensures
        size > 0 ==> attempt.received(size) == StepView::Store(
            AttemptView {
                success: true,
                is_404: false,
                size,
                attempts: attempt.number,
                error: None,
            },
        ),
        size == 0 ==> attempt.received(size) == attempt.failed("empty file"@),
{
}

/// Where manifests are kept and asked for, by their depot and number.
pub proof fn law_addresses_name_the_manifest(
    depot: Seq<char>,
    manifest: Seq<char>,
    mode: DownloadMode,
    api_key: Seq<char>,
)
    ensures
        file_name((depot, manifest)) == depot + "_"@ + manifest + ".manifest"@,
        repository_address((depot, manifest))
            == "https://raw.githubusercontent.com/qwe213312/k25FCdfEOoEJ42S6/main/"@ + (depot
            + "_"@ + manifest + ".manifest"@),
        external_address(mode, api_key, (depot, manifest)) is Some <==> mode is GithubExternal
            && api_key.len() > 0,
        mode is GithubExternal && api_key.len() > 0 ==> external_address(
            mode,
            api_key,
            (depot, manifest),
        ) == Some(
            "https://api.manifesthub1.filegear-sg.me/manifest?apikey="@ + api_key + "&depotid="@
                + depot + "&manifestid="@ + manifest,
        ),
{
}

/// What the repository answered decides: a file ends the matter with its size, a file that
/// is not there is asked for at the external site where that may be asked, and everything
/// else is an error that tells the number of attempts and the last of their errors.
pub proof fn law_repository_decides(
    mode: DownloadMode,
    api_key: Seq<char>,
    depot: Seq<char>,
    manifest: Seq<char>,
    result: AttemptView,
)
    ensures
        result.success ==> after_repository(mode, api_key, (depot, manifest), result)
            == DownloadStepView::Done(
            DownloadResult { outcome: DownloadOutcome::Downloaded, size: result.size },
        ),
        !result.success && result.is_404 && mode is GithubExternal && api_key.len() > 0
            ==> after_repository(mode, api_key, (depot, manifest), result)
            == (DownloadStepView::Fallback {
            url: "https://api.manifesthub1.filegear-sg.me/manifest?apikey="@ + api_key
                + "&depotid="@ + depot + "&manifestid="@ + manifest,
        }),
        !result.success && !result.is_404 && result.error is None ==> after_repository(
            mode,
            api_key,
            (depot, manifest),
            result,
        ) == DownloadStepView::Failed(
            "GitHub"@ + " failed after "@ + decimal(result.attempts as nat) + " attempts: "@
                + "unknown error"@,
        ),
        !result.success && !result.is_404 ==> (result.error matches Some(error)
            ==> after_repository(mode, api_key, (depot, manifest), result)
            == DownloadStepView::Failed(
            "GitHub"@ + " failed after "@ + decimal(result.attempts as nat) + " attempts: "@ + error,
        )),
{
}

/// A failure tells where it happened, after how many attempts, and why.
pub proof fn law_failures_are_told(source: Seq<char>, result: AttemptView)
    ensures
        result.error matches Some(error) ==> failure_text(source, result) == source
            + " failed after "@ + decimal(result.attempts as nat) + " attempts: "@ + error,
        result.error is None ==> failure_text(source, result) == source + " failed after "@
            + decimal(result.attempts as nat) + " attempts: "@ + "unknown error"@,
{
}

/// All of a result and all of a step is seen.
pub proof fn law_attempts_are_seen(result: AttemptResult, step: AttemptStep, next: DownloadStep)
    ensures
        result@.success == result.success && result@.is_404 == result.is_404,
        result@.size == result.size && result@.attempts == result.attempts,
        result.error is None ==> result@.error is None,
        result.error matches Some(error) ==> result@.error == Some(error@),
        step matches AttemptStep::Send { attempt, wait_seconds } ==> step@ == (StepView::Send {
            attempt,
            wait_seconds,
        }),
        step matches AttemptStep::ReadBody(attempt) ==> step@ == StepView::ReadBody(attempt),
        step matches AttemptStep::Store(stored) ==> step@ == StepView::Store(stored@),
        step matches AttemptStep::Finish(finished) ==> step@ == StepView::Finish(finished@),
        next matches DownloadStep::Done(done) ==> next@ == DownloadStepView::Done(done),
        next matches DownloadStep::Fallback { url } ==> next@ == (DownloadStepView::Fallback {
            url: url@,
        }),
        next matches DownloadStep::Failed(error) ==> next@ == DownloadStepView::Failed(error@),
{
}

/// What the attempts at one address can come to.
pub proof fn law_attempts_have_three_results(
    size: u64,
    attempts: usize,
    error: Option<Seq<char>>,
)
    ensures
        fetched(size, attempts) == (AttemptView {
            success: true,
            is_404: false,
            size,
            attempts,
            error: None,
        }),
        not_found(attempts) == (AttemptView {
            success: false,
            is_404: true,
            size: 0,
            attempts,
            error: Some("not found (404)"@),
        }),
        exhausted(attempts, error) == (AttemptView {
            success: false,
            is_404: false,
            size: 0,
            attempts,
            error,
        }),
{
}

} // verus!
