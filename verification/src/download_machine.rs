//! The download of one manifest as a machine: what is done next, and what each result
//! leads to.
use crate::download::{
    after_fallback, after_github, check_existing, github_url, Attempt, AttemptResult, AttemptStep,
    DownloadOutcome, DownloadResult, DownloadStep, ExistingFile, FALLBACK_ATTEMPTS,
    GITHUB_ATTEMPTS,
};
use crate::download::{
    after_exchange, after_repository, external_address, failure_text, fetched, is_success,
    repository_address, run_attempts, AttemptView, DownloadStepView, Exchange, StepView,
};
use crate::manifest::DownloadItem;
use crate::modes::DownloadMode;
use vstd::prelude::*;

verus! {

/// Where the manifest is asked for.
#[derive(Clone, Copy, Debug, PartialEq, Eq, Structural)]
pub enum Source {
    Repository,
    External,
}

impl Source {
    /// The number of attempts at the source.
    pub open spec fn attempts(self) -> usize {
        match self {
            Source::Repository => GITHUB_ATTEMPTS,
            Source::External => FALLBACK_ATTEMPTS,
        }
    }
}

/// How far a download has come.
pub enum Stage {
    /// It is looked up whether the file is there.
    Checking,
    /// An empty file is removed.
    Clearing,
    /// The request is sent, after so many seconds.
    Sending { attempt: Attempt, wait_seconds: u64 },
    /// The body of a response is read.
    Reading { attempt: Attempt },
    /// The body is written to the file.
    Storing { result: AttemptResult },
    /// The download is over.
    Done(Result<DownloadResult, String>),
}

/// The contents of a `Stage`.
#[verifier::ext_equal]
pub enum StageView {
    Checking,
    Clearing,
    Sending { attempt: Attempt, wait_seconds: u64 },
    Reading { attempt: Attempt },
    Storing { result: AttemptView },
    Finished(DownloadResult),
    Failed(Seq<char>),
}

impl View for Stage {
    type V = StageView;

    open spec fn view(&self) -> StageView {
        match *self {
            Stage::Checking => StageView::Checking,
            Stage::Clearing => StageView::Clearing,
            Stage::Sending { attempt, wait_seconds } => StageView::Sending {
                attempt,
                wait_seconds,
            },
            Stage::Reading { attempt } => StageView::Reading { attempt },
            Stage::Storing { result } => StageView::Storing { result: result@ },
            Stage::Done(Ok(result)) => StageView::Finished(result),
            Stage::Done(Err(error)) => StageView::Failed(error@),
        }
    }
}

/// The download of one manifest: what is wanted, where it is asked for, and how far it
/// has come.
pub struct Download {
    pub mode: DownloadMode,
    pub api_key: String,
    pub item: DownloadItem,
    pub source: Source,
    pub url: String,
    pub stage: Stage,
}

/// The contents of a `Download`.
#[verifier::ext_equal]
pub struct DownloadView {
    pub mode: DownloadMode,
    pub api_key: Seq<char>,
    pub item: (Seq<char>, Seq<char>),
    pub source: Source,
    pub url: Seq<char>,
    pub stage: StageView,
}

impl View for Download {
    type V = DownloadView;

    open spec fn view(&self) -> DownloadView {
        DownloadView {
            mode: self.mode,
            api_key: self.api_key@,
            item: self.item@,
            source: self.source,
            url: self.url@,
            stage: self.stage@,
        }
    }
}

/// What is to be done next.
pub enum FetchAction {
    /// Tell the size of the file, if it is there.
    CheckFile,
    /// Remove the file.
    RemoveFile,
    /// Wait so many seconds, remove what is at the file's place, and send the request.
    Send { url: String, wait_seconds: u64 },
    /// Read the body of the response.
    ReadBody,
    /// Write the body to the file.
    Store,
    Stop,
}

/// What came of the last action.
pub enum FetchInput {
    /// The size of the file, if it is there.
    FileSize(Option<u64>),
    /// The file was removed, as far as that was possible.
    Removed,
    /// The request did not get through.
    SendFailed(String),
    /// A response came.
    Response { status: u16, status_text: String },
    /// The size of the body, or why it could not be read.
    Body(Result<u64, String>),
    /// The body was written, or why it could not be.
    Stored(Result<(), String>),
}

impl DownloadView {
    /// How a download begins.
    pub open spec fn started(
        mode: DownloadMode,
        api_key: Seq<char>,
        item: (Seq<char>, Seq<char>),
    ) -> DownloadView {
        DownloadView {
            mode,
            api_key,
            item,
            source: Source::Repository,
            url: repository_address(item),
            stage: StageView::Checking,
        }
    }

    /// The download at another stage.
    pub open spec fn at(self, stage: StageView) -> DownloadView {
        DownloadView { stage, ..self }
    }

    /// The download with its first request.
    pub open spec fn first_request(self) -> DownloadView {
        self.at(
            StageView::Sending {
                attempt: Attempt { number: 1, allowed: self.source.attempts() },
                wait_seconds: 0,
            },
        )
    }

    /// The attempts at the source are over.
    pub open spec fn settled(self, result: AttemptView) -> DownloadView {
        match self.source {
            Source::Repository => match after_repository(
                self.mode,
                self.api_key,
                self.item,
                result,
            ) {
                DownloadStepView::Done(done) => self.at(StageView::Finished(done)),
                DownloadStepView::Failed(error) => self.at(StageView::Failed(error)),
                DownloadStepView::Fallback { url } => DownloadView {
                    source: Source::External,
                    url,
                    ..self
                }.first_request(),
            },
            Source::External => if result.success {
                self.at(
                    StageView::Finished(
                        DownloadResult { outcome: DownloadOutcome::Downloaded, size: result.size },
                    ),
                )
            } else {
                self.at(StageView::Failed(failure_text("fallback"@, result)))
            },
        }
    }

    /// What the step of an attempt leads to.
    pub open spec fn followed(self, step: StepView) -> DownloadView {
        match step {
            StepView::Send { attempt, wait_seconds } => self.at(
                StageView::Sending { attempt, wait_seconds },
            ),
            StepView::ReadBody(attempt) => self.at(StageView::Reading { attempt }),
            StepView::Store(result) => self.at(StageView::Storing { result }),
            StepView::Finish(result) => self.settled(result),
        }
    }

    /// What an input leads to. A file that has contents is kept. A body that cannot be
    /// read or written ends the download.
    pub open spec fn advanced(self, input: FetchInput) -> DownloadView {
        match (self.stage, input) {
            (StageView::Checking, FetchInput::FileSize(Some(size))) => if size > 0 {
                self.at(
                    StageView::Finished(
                        DownloadResult { outcome: DownloadOutcome::SkippedExisting, size },
                    ),
                )
            } else {
                self.at(StageView::Clearing)
            },
            (StageView::Checking, FetchInput::FileSize(None)) => self.first_request(),
            (StageView::Clearing, FetchInput::Removed) => self.first_request(),
            (StageView::Sending { attempt, .. }, FetchInput::SendFailed(error)) => self.followed(
                attempt.failed(error@),
            ),
            (
                StageView::Sending { attempt, .. },
                FetchInput::Response { status, status_text },
            ) => self.followed(attempt.answered(status, status_text@)),
            (StageView::Reading { attempt }, FetchInput::Body(Ok(size))) => self.followed(
                attempt.received(size),
            ),
            (StageView::Reading { .. }, FetchInput::Body(Err(error))) => self.at(
                StageView::Failed(error@),
            ),
            (StageView::Storing { result }, FetchInput::Stored(Ok(_))) => self.settled(result),
            (StageView::Storing { .. }, FetchInput::Stored(Err(error))) => self.at(
                StageView::Failed(error@),
            ),
            _ => self,
        }
    }

    /// The input is what the download waits for.
    pub open spec fn expects(self, input: FetchInput) -> bool {
        match (self.stage, input) {
            (StageView::Checking, FetchInput::FileSize(_)) => true,
            (StageView::Clearing, FetchInput::Removed) => true,
            (StageView::Sending { .. }, FetchInput::SendFailed(_)) => true,
            (StageView::Sending { .. }, FetchInput::Response { .. }) => true,
            (StageView::Reading { .. }, FetchInput::Body(_)) => true,
            (StageView::Storing { .. }, FetchInput::Stored(_)) => true,
            _ => false,
        }
    }

    /// The attempt is one of those that the source allows for.
    pub open spec fn allows(self, attempt: Attempt) -> bool {
        attempt.valid() && attempt.allowed == self.source.attempts()
    }

    /// What holds at every stage: the address is that of the source, the external site
    /// is a source only where it may be asked, the attempt is one of those allowed, and
    /// what is stored is a fetched file.
    pub open spec fn well_formed(self) -> bool {
        &&& match self.source {
            Source::Repository => self.url == repository_address(self.item),
            Source::External => external_address(self.mode, self.api_key, self.item) == Some(
                self.url,
            ),
        }
        &&& match self.stage {
            StageView::Checking => self.source == Source::Repository,
            StageView::Clearing => self.source == Source::Repository,
            StageView::Sending { attempt, .. } => self.allows(attempt),
            StageView::Reading { attempt } => self.allows(attempt),
            StageView::Storing { result } => result.size > 0 && result == fetched(
                result.size,
                result.attempts,
            ) && 1 <= result.attempts <= self.source.attempts(),
            StageView::Finished(done) => {
                &&& done.outcome == DownloadOutcome::Unavailable <==> done.size == 0
                &&& done.outcome == DownloadOutcome::Unavailable ==> external_address(
                    self.mode,
                    self.api_key,
                    self.item,
                ) is None
            },
            StageView::Failed(_) => true,
        }
    }

    /// How many requests can still be sent.
    pub open spec fn requests_left(self) -> int {
        let elsewhere: int = match self.source {
            Source::Repository => FALLBACK_ATTEMPTS as int,
            Source::External => 0,
        };
        match self.stage {
            StageView::Checking => GITHUB_ATTEMPTS + FALLBACK_ATTEMPTS,
            StageView::Clearing => GITHUB_ATTEMPTS + FALLBACK_ATTEMPTS,
            StageView::Sending { attempt, .. } => attempt.allowed - attempt.number + 1 + elsewhere,
            StageView::Reading { attempt } => attempt.allowed - attempt.number + elsewhere,
            StageView::Storing { .. } => 0,
            StageView::Finished(_) => 0,
            StageView::Failed(_) => 0,
        }
    }

    /// How many steps are left until the next request, or until the end.
    pub open spec fn steps_left(self) -> int {
        match self.stage {
            StageView::Checking => 4,
            StageView::Clearing => 3,
            StageView::Sending { .. } => 2,
            StageView::Reading { .. } => 3,
            StageView::Storing { .. } => 1,
            StageView::Finished(_) => 0,
            StageView::Failed(_) => 0,
        }
    }
}

impl Download {
    /// Begins a download.
    pub fn start(mode: DownloadMode, api_key: &str, item: &DownloadItem) -> (download: Download)
        ensures
            download@ == DownloadView::started(mode, api_key@, item@),
    {
        let url: String = github_url(item);
        Download {
            mode,
            api_key: api_key.to_owned(),
            item: DownloadItem {
                depot_id: item.depot_id.as_str().to_owned(),
                manifest_id: item.manifest_id.as_str().to_owned(),
            },
            source: Source::Repository,
            url,
            stage: Stage::Checking,
        }
    }

    /// What is to be done next.
    pub fn action(&self) -> (r: FetchAction)
        ensures
            match (self.stage, r) {
                (Stage::Checking, FetchAction::CheckFile) => true,
                (Stage::Clearing, FetchAction::RemoveFile) => true,
                (
                    Stage::Sending { wait_seconds, .. },
                    FetchAction::Send { url, wait_seconds: wait },
                ) => url@ == self.url@ && wait == wait_seconds,
                (Stage::Reading { .. }, FetchAction::ReadBody) => true,
                (Stage::Storing { .. }, FetchAction::Store) => true,
                (Stage::Done(_), FetchAction::Stop) => true,
                _ => false,
            },
    {
        match &self.stage {
            Stage::Checking => FetchAction::CheckFile,
            Stage::Clearing => FetchAction::RemoveFile,
            Stage::Sending { wait_seconds, .. } => FetchAction::Send {
                url: self.url.as_str().to_owned(),
                wait_seconds: *wait_seconds,
            },
            Stage::Reading { .. } => FetchAction::ReadBody,
            Stage::Storing { .. } => FetchAction::Store,
            Stage::Done(_) => FetchAction::Stop,
        }
    }

    /// Whether the input is what the download waits for.
    pub fn awaits(&self, input: &FetchInput) -> (r: bool)
        ensures
            r == self@.expects(*input),
    {
        match (&self.stage, input) {
            (Stage::Checking, FetchInput::FileSize(_)) => true,
            (Stage::Clearing, FetchInput::Removed) => true,
            (Stage::Sending { .. }, FetchInput::SendFailed(_)) => true,
            (Stage::Sending { .. }, FetchInput::Response { .. }) => true,
            (Stage::Reading { .. }, FetchInput::Body(_)) => true,
            (Stage::Storing { .. }, FetchInput::Stored(_)) => true,
            _ => false,
        }
    }

    /// Moves on to another stage.
    fn at(self, stage: Stage) -> (next: Download)
        ensures
            next@ == self@.at(stage@),
    {
        Download { stage, ..self }
    }

    /// Moves on to the first request.
    fn first_request(self) -> (next: Download)
        ensures
            next@ == self@.first_request(),
    {
        let allowed: usize = match self.source {
            Source::Repository => GITHUB_ATTEMPTS,
            Source::External => FALLBACK_ATTEMPTS,
        };
        match Attempt::begin(allowed) {
            AttemptStep::Send { attempt, wait_seconds } => self.at(
                Stage::Sending { attempt, wait_seconds },
            ),
            _ => self,
        }
    }

    /// Decides what follows the attempts at the source.
    fn settle(self, result: AttemptResult) -> (next: Download)
        ensures
            next@ == self@.settled(result@),
    {
        match self.source {
            Source::Repository => {
                match after_github(self.mode, self.api_key.as_str(), &self.item, result) {
                    DownloadStep::Done(done) => self.at(Stage::Done(Ok(done))),
                    DownloadStep::Failed(error) => self.at(Stage::Done(Err(error))),
                    DownloadStep::Fallback { url } => {
                        let external: Download = Download { source: Source::External, url, ..self };
                        external.first_request()
                    },
                }
            },
            Source::External => self.at(Stage::Done(after_fallback(result))),
        }
    }

    /// Takes the step of an attempt.
    fn follow(self, step: AttemptStep) -> (next: Download)
        ensures
            next@ == self@.followed(step@),
    {
        match step {
            AttemptStep::Send { attempt, wait_seconds } => self.at(
                Stage::Sending { attempt, wait_seconds },
            ),
            AttemptStep::ReadBody(attempt) => self.at(Stage::Reading { attempt }),
            AttemptStep::Store(result) => self.at(Stage::Storing { result }),
            AttemptStep::Finish(result) => self.settle(result),
        }
    }

    /// Takes what came of the last action.
    pub fn advance(self, input: FetchInput) -> (next: Download)
        requires
            self@.expects(input),
        ensures
            next@ == self@.advanced(input),
    {
        match (&self.stage, input) {
            (Stage::Checking, FetchInput::FileSize(size)) => match check_existing(size) {
                ExistingFile::Keep(result) => self.at(Stage::Done(Ok(result))),
                ExistingFile::Remove => self.at(Stage::Clearing),
                ExistingFile::Absent => self.first_request(),
            },
            (Stage::Clearing, FetchInput::Removed) => self.first_request(),
            (Stage::Sending { attempt, .. }, FetchInput::SendFailed(error)) => {
                let step: AttemptStep = attempt.on_error(error);
                self.follow(step)
            },
            (Stage::Sending { attempt, .. }, FetchInput::Response { status, status_text }) => {
                let step: AttemptStep = attempt.on_response(status, status_text.as_str());
                self.follow(step)
            },
            (Stage::Reading { attempt }, FetchInput::Body(Ok(size))) => {
                let step: AttemptStep = attempt.on_body(size);
                self.follow(step)
            },
            (Stage::Reading { .. }, FetchInput::Body(Err(error))) => self.at(
                Stage::Done(Err(error)),
            ),
            (Stage::Storing { .. }, FetchInput::Stored(stored)) => {
                match stored {
                    Ok(_) => self.stored(),
                    Err(error) => self.at(Stage::Done(Err(error))),
                }
            },
            _ => self,
        }
    }

    /// The body is written.
    fn stored(self) -> (next: Download)
        requires
            self.stage is Storing,
        ensures
            next@ == self@.settled(self@.stage->result),
    {
        let Download { mode, api_key, item, source, url, stage } = self;
        match stage {
            Stage::Storing { result } => {
                let open: Download = Download {
                    mode,
                    api_key,
                    item,
                    source,
                    url,
                    stage: Stage::Checking,
                };
                open.settle(result)
            },
            _ => Download { mode, api_key, item, source, url, stage },
        }
    }
}

// ---------------------------------------------------------------------------
// Laws
// ---------------------------------------------------------------------------

/// Every input that a download waits for keeps it well formed: the external site is
/// asked only where it may be, no source is tried too often, nothing empty is stored, and
/// only a manifest that no source has is unavailable.
pub proof fn law_downloads_stay_well_formed(download: DownloadView, input: FetchInput)
    requires
        download.well_formed(),
        download.expects(input),
    ensures
        download.advanced(input).well_formed(),
{
}

/// A download begins well formed, with seven requests to send at most.
pub proof fn law_started_download_is_well_formed(
    mode: DownloadMode,
    api_key: Seq<char>,
    item: (Seq<char>, Seq<char>),
)
    ensures
        DownloadView::started(mode, api_key, item).well_formed(),
        DownloadView::started(mode, api_key, item).requests_left() == 7,
{
}

/// A download comes to its end: every input leaves fewer requests to send, or as many
/// and fewer steps to take.
pub proof fn law_downloads_come_to_an_end(download: DownloadView, input: FetchInput)
    requires
        download.well_formed(),
        download.expects(input),
    ensures
        ({
            let next = download.advanced(input);
            ||| 0 <= next.requests_left() < download.requests_left()
            ||| next.requests_left() == download.requests_left() && 0 <= next.steps_left()
                < download.steps_left()
        }),
{
}

/// With GitHub as the only source, or without a key, the external site is never asked.
pub proof fn law_github_downloads_stay_there(download: DownloadView, input: FetchInput)
    requires
        download.well_formed(),
        download.expects(input),
        download.mode == DownloadMode::Github || download.api_key.len() == 0,
    ensures
        download.advanced(input).source == Source::Repository,
        download.advanced(input).url == repository_address(download.item),
{
}

/// A whole exchange with a server, from the request to the stored file, takes a download
/// where the attempt says.
pub proof fn law_exchanges_are_followed(
    download: DownloadView,
    attempt: Attempt,
    status: u16,
    status_text: String,
    size: u64,
)
    requires
        download.stage matches StageView::Sending { attempt: current, .. } && current == attempt,
    ensures
        ({
            let step = after_exchange(
                attempt,
                Exchange::Answer { status, status_text: status_text@, size },
            );
            let answered = download.advanced(FetchInput::Response { status, status_text });
            let read = if is_success(status) {
                answered.advanced(FetchInput::Body(Ok(size)))
            } else {
                answered
            };
            match step {
                StepView::Store(result) => read.advanced(FetchInput::Stored(Ok(())))
                    == download.settled(result),
                _ => read == download.followed(step),
            }
        }),
{
}

/// The download waits for each of the inputs in turn.
pub open spec fn all_expected(download: DownloadView, inputs: Seq<FetchInput>) -> bool
    decreases inputs.len(),
{
    inputs.len() > 0 ==> {
        &&& download.expects(inputs[0])
        &&& all_expected(download.advanced(inputs[0]), inputs.drop_first())
    }
}

/// The number of requests that were sent for the inputs.
pub open spec fn requests_sent(download: DownloadView, inputs: Seq<FetchInput>) -> nat
    decreases inputs.len(),
{
    if inputs.len() == 0 {
        0
    } else {
        (if download.stage is Sending {
            1nat
        } else {
            0nat
        }) + requests_sent(download.advanced(inputs[0]), inputs.drop_first())
    }
}

/// Whatever comes back, a download does not send more requests than it has left; and it
/// begins with seven.
pub proof fn law_requests_are_limited(download: DownloadView, inputs: Seq<FetchInput>)
    requires
        download.well_formed(),
        all_expected(download, inputs),
    ensures
        requests_sent(download, inputs) <= download.requests_left(),
        download.stage is Checking ==> requests_sent(download, inputs) <= 7,
    decreases inputs.len(),
{
    if inputs.len() > 0 {
        law_downloads_stay_well_formed(download, inputs[0]);
        law_requests_are_limited(download.advanced(inputs[0]), inputs.drop_first());
    }
}

/// Where a download stands when the server has done its part: the exchanges are what it
/// does with the requests, in order, and every body is read and stored.
pub open spec fn driven(download: DownloadView, exchanges: Seq<Exchange>) -> DownloadView
    decreases exchanges.len(),
{
    match download.stage {
        StageView::Sending { attempt, .. } => if exchanges.len() == 0 {
            download
        } else {
            let next = match after_exchange(attempt, exchanges[0]) {
                StepView::Store(result) => download.settled(result),
                step => download.followed(step),
            };
            driven(next, exchanges.drop_first())
        },
        _ => download,
    }
}

/// The attempts at a source decide about the whole download: once they have a result, the
/// download goes on from that result with the exchanges that are left.
pub proof fn law_attempts_settle_the_source(
    download: DownloadView,
    attempt: Attempt,
    exchanges: Seq<Exchange>,
)
    requires
        download.stage matches StageView::Sending { attempt: current, .. } && current == attempt,
        attempt.valid(),
    ensures
        run_attempts(attempt, exchanges) matches Some(result) ==> {
            let used = result.attempts - attempt.number + 1;
            &&& 0 < used <= exchanges.len()
            &&& driven(download, exchanges) == driven(
                download.settled(result),
                exchanges.skip(used),
            )
        },
    decreases exchanges.len(),
{
    if exchanges.len() > 0 {
        let rest = exchanges.drop_first();
        assert(rest =~= exchanges.skip(1));
        match after_exchange(attempt, exchanges[0]) {
            StepView::Send { attempt: next, wait_seconds } => {
                let later = download.at(StageView::Sending { attempt: next, wait_seconds });
                law_attempts_settle_the_source(later, next, rest);
                if let Some(result) = run_attempts(next, rest) {
                    let used = result.attempts - next.number + 1;
                    assert(rest.skip(used) =~= exchanges.skip(used + 1));
                    assert(later.settled(result) == download.settled(result));
                }
            },
            _ => {},
        }
    }
}

/// A download begins with a look at the file, at the repository's address.
pub proof fn law_downloads_begin_at_the_repository(
    mode: DownloadMode,
    api_key: Seq<char>,
    depot: Seq<char>,
    manifest: Seq<char>,
)
    ensures
        DownloadView::started(mode, api_key, (depot, manifest)) == (DownloadView {
            mode,
            api_key,
            item: (depot, manifest),
            source: Source::Repository,
            url: "https://raw.githubusercontent.com/qwe213312/k25FCdfEOoEJ42S6/main/"@ + (depot
                + "_"@ + manifest + ".manifest"@),
            stage: StageView::Checking,
        }),
{
}

/// A file that has contents is kept, whatever its size; an empty one is removed first. Then
/// the first of two requests goes to the repository at once.
pub proof fn law_file_decides(download: DownloadView, size: u64)
    ensures
        download.stage is Checking && size > 0 ==> download.advanced(
            FetchInput::FileSize(Some(size)),
        ) == (DownloadView {
            stage: StageView::Finished(
                DownloadResult { outcome: DownloadOutcome::SkippedExisting, size },
            ),
            ..download
        }),
        download.stage is Checking ==> download.advanced(FetchInput::FileSize(Some(0))) == (
        DownloadView { stage: StageView::Clearing, ..download }),
        download.stage is Checking && download.source is Repository ==> download.advanced(
            FetchInput::FileSize(None),
        ) == (DownloadView {
            stage: StageView::Sending {
                attempt: Attempt { number: 1, allowed: 2 },
                wait_seconds: 0,
            },
            ..download
        }),
        download.stage is Clearing && download.source is Repository ==> download.advanced(
            FetchInput::Removed,
        ) == (DownloadView {
            stage: StageView::Sending {
                attempt: Attempt { number: 1, allowed: 2 },
                wait_seconds: 0,
            },
            ..download
        }),
{
}

/// A request that fails is repeated after three seconds while attempts are left; nothing but
/// the attempt changes.
pub proof fn law_requests_are_repeated(
    download: DownloadView,
    attempt: Attempt,
    error: String,
    status: u16,
    status_text: String,
)
    requires
        download.stage matches StageView::Sending { attempt: current, .. } && current == attempt,
        attempt.number < attempt.allowed,
    ensures
        download.advanced(FetchInput::SendFailed(error)) == (DownloadView {
            stage: StageView::Sending {
                attempt: Attempt { number: (attempt.number + 1) as usize, allowed: attempt.allowed },
                wait_seconds: 3,
            },
            ..download
        }),
        !(200 <= status <= 299) && status != 404 ==> download.advanced(
            FetchInput::Response { status, status_text },
        ) == (DownloadView {
            stage: StageView::Sending {
                attempt: Attempt { number: (attempt.number + 1) as usize, allowed: attempt.allowed },
                wait_seconds: 3,
            },
            ..download
        }),
{
}

/// The last request that fails ends the download with an error that names the source, the
/// number of attempts and what was wrong with the last one.
pub proof fn law_last_request_tells_the_error(
    download: DownloadView,
    attempt: Attempt,
    error: String,
    status: u16,
    status_text: String,
)
    requires
        download.stage matches StageView::Sending { attempt: current, .. } && current == attempt,
        attempt.number >= attempt.allowed,
    ensures
        download.source is Repository ==> download.advanced(FetchInput::SendFailed(error)) == (
        DownloadView {
            stage: StageView::Failed(
                "GitHub"@ + " failed after "@ + crate::text::decimal(attempt.allowed as nat)
                    + " attempts: "@ + error@,
            ),
            ..download
        }),
        download.source is External ==> download.advanced(FetchInput::SendFailed(error)) == (
        DownloadView {
            stage: StageView::Failed(
                "fallback"@ + " failed after "@ + crate::text::decimal(attempt.allowed as nat)
                    + " attempts: "@ + error@,
            ),
            ..download
        }),
        !(200 <= status <= 299) && status != 404 && download.source is Repository
            ==> download.advanced(FetchInput::Response { status, status_text }) == (DownloadView {
            stage: StageView::Failed(
                "GitHub"@ + " failed after "@ + crate::text::decimal(attempt.allowed as nat)
                    + " attempts: "@ + ("HTTP "@ + status_text@),
            ),
            ..download
        }),
        !(200 <= status <= 299) && status != 404 && download.source is External
            ==> download.advanced(FetchInput::Response { status, status_text }) == (DownloadView {
            stage: StageView::Failed(
                "fallback"@ + " failed after "@ + crate::text::decimal(attempt.allowed as nat)
                    + " attempts: "@ + ("HTTP "@ + status_text@),
            ),
            ..download
        }),
{
}

/// A success is read and stored, and is then what the download comes to. What the repository
/// does not have is asked for at the external site, five times at most, where that may be
/// asked, and is otherwise unavailable; what the external site does not have is an error.
pub proof fn law_responses_decide(
    download: DownloadView,
    attempt: Attempt,
    status: u16,
    status_text: String,
)
    requires
        download.stage matches StageView::Sending { attempt: current, .. } && current == attempt,
    ensures
        200 <= status <= 299 ==> download.advanced(FetchInput::Response { status, status_text })
            == (DownloadView { stage: StageView::Reading { attempt }, ..download }),
        status == 404 && download.source is Repository && download.mode is GithubExternal
            && download.api_key.len() > 0 ==> download.advanced(
            FetchInput::Response { status, status_text },
        ) == (DownloadView {
            source: Source::External,
            url: "https://api.manifesthub1.filegear-sg.me/manifest?apikey="@ + download.api_key
                + "&depotid="@ + download.item.0 + "&manifestid="@ + download.item.1,
            stage: StageView::Sending {
                attempt: Attempt { number: 1, allowed: 5 },
                wait_seconds: 0,
            },
            ..download
        }),
        status == 404 && download.source is Repository && (download.mode is Github
            || download.api_key.len() == 0) ==> download.advanced(
            FetchInput::Response { status, status_text },
        ) == (DownloadView {
            stage: StageView::Finished(
                DownloadResult { outcome: DownloadOutcome::Unavailable, size: 0 },
            ),
            ..download
        }),
        status == 404 && download.source is External ==> download.advanced(
            FetchInput::Response { status, status_text },
        ) == (DownloadView {
            stage: StageView::Failed(
                "fallback"@ + " failed after "@ + crate::text::decimal(attempt.number as nat)
                    + " attempts: "@ + "not found (404)"@,
            ),
            ..download
        }),
{
}

/// A body of any size but zero is stored; once it is, the download is over with that size.
/// A body that cannot be read or stored ends the download with the reason.
pub proof fn law_bodies_decide(
    download: DownloadView,
    attempt: Attempt,
    size: u64,
    error: String,
)
    requires
        size > 0,
        download.stage matches StageView::Reading { attempt: current } && current == attempt,
    ensures
        ({
            let storing = download.advanced(FetchInput::Body(Ok(size)));
            &&& storing == (DownloadView {
                stage: StageView::Storing {
                    result: AttemptView {
                        success: true,
                        is_404: false,
                        size,
                        attempts: attempt.number,
                        error: None,
                    },
                },
                ..download
            })
            &&& storing.advanced(FetchInput::Stored(Ok(()))) == (DownloadView {
                stage: StageView::Finished(
                    DownloadResult { outcome: DownloadOutcome::Downloaded, size },
                ),
                ..download
            })
            &&& storing.advanced(FetchInput::Stored(Err(error))) == (DownloadView {
                stage: StageView::Failed(error@),
                ..download
            })
        }),
        download.advanced(FetchInput::Body(Err(error))) == (DownloadView {
            stage: StageView::Failed(error@),
            ..download
        }),
        attempt.number < attempt.allowed ==> download.advanced(FetchInput::Body(Ok(0))) == (
        DownloadView {
            stage: StageView::Sending {
                attempt: Attempt { number: (attempt.number + 1) as usize, allowed: attempt.allowed },
                wait_seconds: 3,
            },
            ..download
        }),
{
}

/// Each stage waits for what its action brings, and for nothing else.
pub proof fn law_stages_wait_for_their_input(download: DownloadView, input: FetchInput)
    ensures
        download.expects(input) <==> {
            ||| download.stage is Checking && input is FileSize
            ||| download.stage is Clearing && input is Removed
            ||| download.stage is Sending && (input is SendFailed || input is Response)
            ||| download.stage is Reading && input is Body
            ||| download.stage is Storing && input is Stored
        },
{
}

/// All of a download is seen.
pub proof fn law_downloads_are_seen(download: Download, stage: Stage)
    ensures
        download@.mode == download.mode && download@.source == download.source,
        download@.api_key == download.api_key@ && download@.url == download.url@,
        download@.item == download.item@ && download@.stage == download.stage@,
        stage is Checking <==> stage@ is Checking,
        stage is Clearing <==> stage@ is Clearing,
        stage matches Stage::Sending { attempt, wait_seconds } ==> stage@ == (StageView::Sending {
            attempt,
            wait_seconds,
        }),
        stage matches Stage::Reading { attempt } ==> stage@ == (StageView::Reading { attempt }),
        stage matches Stage::Storing { result } ==> stage@ == (StageView::Storing {
            result: result@,
        }),
        stage matches Stage::Done(Ok(result)) ==> stage@ == StageView::Finished(result),
        stage matches Stage::Done(Err(error)) ==> stage@ == StageView::Failed(error@),
{
}

/// An empty body at the last attempt ends the download as any other failure does.
pub proof fn law_last_empty_body_tells_the_error(download: DownloadView, attempt: Attempt)
    requires
        download.stage matches StageView::Reading { attempt: current } && current == attempt,
        attempt.number >= attempt.allowed,
    ensures
        download.advanced(FetchInput::Body(Ok(0))) == (DownloadView {
            stage: StageView::Failed(
                (if download.source is Repository {
                    "GitHub"@
                } else {
                    "fallback"@
                }) + " failed after "@ + crate::text::decimal(attempt.allowed as nat)
                    + " attempts: "@ + "empty file"@,
            ),
            ..download
        }),
{
}

} // verus!
