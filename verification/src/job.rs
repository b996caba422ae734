//! One job of a run: from the Lua file of an app to the tally of its downloads.
use crate::depots::extract_depot_ids;
use crate::depots::{ascending, depot_pattern, first_groups, names_depot};
use crate::download::{DownloadOutcome, DownloadResult};
use crate::manifest::queue_for_job;
use crate::manifest::{app_depots, download_queue, item_views, response_succeeded};
use crate::manifest::{DownloadItem, SteamResponse};
use crate::session::{event_views, EventView};
use crate::session::WorkerEvent;
use crate::text::{decimal, texts};
use crate::text::{decimal_text, join2, join3, join5};
use vstd::prelude::*;

verus! {

// ---------------------------------------------------------------------------
// The depots of the Lua file
// ---------------------------------------------------------------------------

/// The event that opens a job.
pub fn job_opening(app_id: &str) -> (event: WorkerEvent)
    ensures
        event@ == EventView::Log("[*] Reading Lua data for app "@ + app_id@),
{
    WorkerEvent::Log(join2("[*] Reading Lua data for app ", app_id))
}

/// Passes on the depots of a Lua file; it is an error where there are none.
pub fn checked_depots(lua_path: &str, ids: Vec<String>) -> (r: Result<Vec<String>, String>)
    ensures
        match r {
            Ok(passed) => ids@.len() > 0 && passed == ids,
            Err(message) => ids@.len() == 0 && message@ == "No valid depot IDs were found in "@
                + lua_path@,
        },
{
    if ids.len() == 0 {
        Err(join2("No valid depot IDs were found in ", lua_path))
    } else {
        Ok(ids)
    }
}

/// The depots of a Lua file: those that the file names, if it could be read, in ascending
/// order; and an error where it could not be read or names none.
pub open spec fn depots_read(
    lua_path: Seq<char>,
    content: Option<Seq<char>>,
    r: Result<Seq<Seq<char>>, Seq<char>>,
) -> bool {
    match (r, content) {
        (Ok(ids), Some(text)) => {
            &&& ids.len() > 0
            &&& ascending(ids)
            &&& ids.to_set() == first_groups(depot_pattern(), text).to_set()
            &&& forall|id: Seq<char>| #[trigger] names_depot(text, id) ==> ids.contains(id)
            &&& vstd::utf8::is_ascii_chars(text) ==> forall|id: Seq<char>| #[trigger]
                ids.contains(id) ==> names_depot(text, id)
        },
        (Err(message), Some(text)) => {
            &&& first_groups(depot_pattern(), text).len() == 0
            &&& forall|id: Seq<char>| !#[trigger] names_depot(text, id)
            &&& message == "No valid depot IDs were found in "@ + lua_path
        },
        (Err(message), None) => message == "Unable to read Lua file"@,
        (Ok(_), None) => false,
    }
}

/// The depots of a Lua file; `content` is what the file holds, if it could be read.
pub fn read_depots(lua_path: &str, content: Option<&str>) -> (r: Result<Vec<String>, String>)
    ensures
        depots_read(
            lua_path@,
            match content {
                Some(text) => Some(text@),
                None => None,
            },
            match r {
                Ok(ids) => Ok(texts(ids@)),
                Err(message) => Err(message@),
            },
        ),
{
    match content {
        Some(text) => {
            let ids: Vec<String> = extract_depot_ids(text);
            proof {
                let groups = first_groups(depot_pattern(), text@);
                if ids@.len() == 0 {
                    if groups.len() > 0 {
                        assert(groups.to_set().contains(groups[0]));
                        assert(texts(ids@).contains(groups[0]));
                    }
                    assert forall|id: Seq<char>| !#[trigger] names_depot(text@, id) by {
                        assert(!texts(ids@).contains(id));
                    }
                }
            }
            checked_depots(lua_path, ids)
        },
        None => Err("Unable to read Lua file".to_owned()),
    }
}

/// The events between the Lua file and the request to the information service.
pub open spec fn depots_announcement(app_id: Seq<char>, depot_count: nat) -> Seq<EventView> {
    seq![
        EventView::Log(
            "[+] App "@ + app_id + " exposes "@ + decimal(depot_count) + " depot IDs"@,
        ),
        EventView::Log("[*] Fetching SteamCMD app info for "@ + app_id),
    ]
}

/// The events between the Lua file and the request to the information service.
pub fn depots_announced(app_id: &str, depot_count: usize) -> (events: Vec<WorkerEvent>)
    ensures
        event_views(events@) == depots_announcement(app_id@, depot_count as nat),
{
    let count: String = decimal_text(depot_count as u64);
    let events: Vec<WorkerEvent> = vec![
        WorkerEvent::Log(join5("[+] App ", app_id, " exposes ", count.as_str(), " depot IDs")),
        WorkerEvent::Log(join2("[*] Fetching SteamCMD app info for ", app_id)),
    ];
    assert(event_views(events@) =~= depots_announcement(app_id@, depot_count as nat));
    events
}

// ---------------------------------------------------------------------------
// The manifests of the depots
// ---------------------------------------------------------------------------

/// The address of the information service for an app.
pub fn info_url(app_id: &str) -> (r: String)
    ensures
        r@ == "https://api.steamcmd.net/v1/info/"@ + app_id@,
{
    join2("https://api.steamcmd.net/v1/info/", app_id)
}

/// What came of the request to the information service.
pub enum InfoReply {
    RequestFailed,
    BodyUnreadable,
    InvalidJson,
    Response(SteamResponse),
}

/// The downloads for a job: the public manifests of its depots; and an error where the
/// reply tells of none.
pub open spec fn queue_made(
    app_id: Seq<char>,
    depot_ids: Seq<Seq<char>>,
    reply: InfoReply,
    r: Result<Seq<(Seq<char>, Seq<char>)>, Seq<char>>,
) -> bool {
    match (r, reply) {
        (Err(message), InfoReply::RequestFailed) => message == "SteamCMD request failed"@,
        (Err(message), InfoReply::BodyUnreadable) => message
            == "SteamCMD response body could not be read"@,
        (Err(message), InfoReply::InvalidJson) => message == "SteamCMD returned invalid JSON"@,
        (Ok(queue), InfoReply::Response(response)) => {
            &&& response_succeeded(response)
            &&& app_depots(response.data@, app_id) matches Some(depots)
            &&& queue == download_queue(depots, depot_ids)
            &&& queue.len() > 0
        },
        (Err(message), InfoReply::Response(response)) => if !response_succeeded(response) {
            message == "SteamCMD API did not return status=success for app "@ + app_id
        } else {
            match app_depots(response.data@, app_id) {
                None => message == "AppID "@ + app_id
                    + " was not present in the SteamCMD response"@,
                Some(depots) => {
                    &&& download_queue(depots, depot_ids).len() == 0
                    &&& message == "No public manifests were found for app "@ + app_id
                },
            }
        },
        (Ok(_), _) => false,
    }
}

/// The downloads for a job, or the error that ends it.
pub fn job_queue(app_id: &str, depot_ids: &Vec<String>, reply: &InfoReply) -> (r: Result<
    Vec<DownloadItem>,
    String,
>)
    ensures
        queue_made(
            app_id@,
            texts(depot_ids@),
            *reply,
            match r {
                Ok(queue) => Ok(item_views(queue@)),
                Err(message) => Err(message@),
            },
        ),
{
    match reply {
        InfoReply::RequestFailed => Err("SteamCMD request failed".to_owned()),
        InfoReply::BodyUnreadable => Err("SteamCMD response body could not be read".to_owned()),
        InfoReply::InvalidJson => Err("SteamCMD returned invalid JSON".to_owned()),
        InfoReply::Response(response) => queue_for_job(response, app_id, depot_ids),
    }
}

/// The event that announces the downloads.
pub fn queue_announced(app_id: &str, count: usize) -> (event: WorkerEvent)
    ensures
        event@ == EventView::Log(
            "[+] App "@ + app_id@ + " matched "@ + decimal(count as nat) + " public manifests"@,
        ),
{
    let digits: String = decimal_text(count as u64);
    WorkerEvent::Log(join5("[+] App ", app_id, " matched ", digits.as_str(), " public manifests"))
}

// ---------------------------------------------------------------------------
// The downloads
// ---------------------------------------------------------------------------

/// The figures of a finished job.
pub struct JobSummary {
    pub depot_ids: Vec<String>,
    pub total: usize,
    pub downloaded: usize,
    pub skipped: usize,
    pub unavailable: usize,
    pub failed: usize,
    pub downloaded_bytes: u64,
}

/// The figures of a job.
#[verifier::ext_equal]
pub struct TallyView {
    pub downloaded: nat,
    pub skipped: nat,
    pub unavailable: nat,
    pub failed: nat,
    pub downloaded_bytes: nat,
}

/// What came of one download.
pub enum OutcomeView {
    Done(DownloadResult),
    Failed(Seq<char>),
}

/// The contents of what came of one download.
pub open spec fn outcome_view(outcome: Result<DownloadResult, String>) -> OutcomeView {
    match outcome {
        Ok(result) => OutcomeView::Done(result),
        Err(error) => OutcomeView::Failed(error@),
    }
}

impl TallyView {
    /// No download is counted yet.
    pub open spec fn none() -> TallyView {
        TallyView { downloaded: 0, skipped: 0, unavailable: 0, failed: 0, downloaded_bytes: 0 }
    }

    /// The figures with one more download counted.
    pub open spec fn counting(self, outcome: OutcomeView) -> TallyView {
        match outcome {
            OutcomeView::Done(result) => match result.outcome {
                DownloadOutcome::Downloaded => TallyView {
                    downloaded: self.downloaded + 1,
                    downloaded_bytes: self.downloaded_bytes + result.size as nat,
                    ..self
                },
                DownloadOutcome::SkippedExisting => TallyView { skipped: self.skipped + 1, ..self },
                DownloadOutcome::Unavailable => TallyView {
                    unavailable: self.unavailable + 1,
                    ..self
                },
            },
            OutcomeView::Failed(_) => TallyView { failed: self.failed + 1, ..self },
        }
    }

    /// The figures of a sequence of downloads.
    pub open spec fn of(outcomes: Seq<OutcomeView>) -> TallyView
        decreases outcomes.len(),
    {
        if outcomes.len() == 0 {
            TallyView::none()
        } else {
            TallyView::of(outcomes.drop_last()).counting(outcomes.last())
        }
    }

    /// The number of downloads counted.
    pub open spec fn count(self) -> nat {
        self.downloaded + self.skipped + self.unavailable + self.failed
    }
}

/// The line that reports one download; `size` is the size of the file as it is shown.
pub open spec fn outcome_line(depot_id: Seq<char>, outcome: OutcomeView, size: Seq<char>) -> Seq<
    char,
> {
    match outcome {
        OutcomeView::Done(result) => match result.outcome {
            DownloadOutcome::Downloaded => "[+] Depot "@ + depot_id + " downloaded ("@ + size
                + ")"@,
            DownloadOutcome::SkippedExisting => "[!] Depot "@ + depot_id + " already up to date ("@
                + size + ")"@,
            DownloadOutcome::Unavailable => "[!] Depot "@ + depot_id
                + " is not available on the selected source, skipped"@,
        },
        OutcomeView::Failed(error) => "[-] Depot "@ + depot_id + " failed: "@ + error,
    }
}

/// The downloads of a job: the queue, how far it has been worked off, and the figures
/// so far.
pub struct JobRun {
    pub app_id: String,
    pub depot_ids: Vec<String>,
    pub queue: Vec<DownloadItem>,
    pub cursor: usize,
    pub downloaded: usize,
    pub skipped: usize,
    pub unavailable: usize,
    pub failed: usize,
    pub downloaded_bytes: u64,
}

impl JobRun {
    /// The figures so far.
    pub open spec fn tally(&self) -> TallyView {
        TallyView {
            downloaded: self.downloaded as nat,
            skipped: self.skipped as nat,
            unavailable: self.unavailable as nat,
            failed: self.failed as nat,
            downloaded_bytes: self.downloaded_bytes as nat,
        }
    }

    /// Every download up to the cursor is counted once.
    pub open spec fn well_formed(&self) -> bool {
        &&& self.cursor <= self.queue@.len()
        &&& self.tally().count() == self.cursor
    }

    /// Begins the downloads of a job.
    pub fn new(app_id: String, depot_ids: Vec<String>, queue: Vec<DownloadItem>) -> (run: JobRun)
        ensures
            run.well_formed(),
            run.app_id == app_id,
            run.depot_ids == depot_ids,
            run.queue == queue,
            run.cursor == 0,
            run.tally() == TallyView::none(),
    {
        JobRun {
            app_id,
            depot_ids,
            queue,
            cursor: 0,
            downloaded: 0,
            skipped: 0,
            unavailable: 0,
            failed: 0,
            downloaded_bytes: 0,
        }
    }

    /// The event that announces the next download; `None` where the queue is worked off.
    pub fn announce(&self) -> (r: Option<WorkerEvent>)
        ensures
            match r {
                Some(event) => {
                    &&& self.cursor < self.queue@.len()
                    &&& event@ == EventView::Log(
                        "[*] App "@ + self.app_id@ + " depot "@
                            + self.queue@[self.cursor as int].depot_id@ + " -> manifest "@
                            + self.queue@[self.cursor as int].manifest_id@,
                    )
                },
                None => self.cursor >= self.queue@.len(),
            },
    {
        if self.cursor < self.queue.len() {
            let item: &DownloadItem = &self.queue[self.cursor];
            let head: String = join2("[*] App ", self.app_id.as_str());
            Some(
                WorkerEvent::Log(
                    join5(
                        head.as_str(),
                        " depot ",
                        item.depot_id.as_str(),
                        " -> manifest ",
                        item.manifest_id.as_str(),
                    ),
                ),
            )
        } else {
            None
        }
    }

    /// The number of downloaded bytes can take what came of a download.
    pub open spec fn takes(&self, outcome: OutcomeView) -> bool {
        self.tally().counting(outcome).downloaded_bytes <= u64::MAX
    }

    /// Whether the number of downloaded bytes can take what came of a download.
    pub fn has_room_for(&self, outcome: &Result<DownloadResult, String>) -> (r: bool)
        ensures
            r == self.takes(outcome_view(*outcome)),
    {
        match outcome {
            Ok(result) => result.outcome != DownloadOutcome::Downloaded || result.size <= u64::MAX
                - self.downloaded_bytes,
            Err(_) => true,
        }
    }

    /// Counts the download at the cursor, and reports it. `size_text` is the size of the
    /// file as it is shown.
    pub fn record(&mut self, outcome: Result<DownloadResult, String>, size_text: &str) -> (event:
        WorkerEvent)
        requires
            old(self).well_formed(),
            old(self).cursor < old(self).queue@.len(),
            old(self).takes(outcome_view(outcome)),
        ensures
            final(self).well_formed(),
            final(self).app_id == old(self).app_id,
            final(self).depot_ids == old(self).depot_ids,
            final(self).queue == old(self).queue,
            final(self).cursor == old(self).cursor + 1,
            final(self).tally() == old(self).tally().counting(outcome_view(outcome)),
            event@ == EventView::Log(
                outcome_line(
                    old(self).queue@[old(self).cursor as int].depot_id@,
                    outcome_view(outcome),
                    size_text@,
                ),
            ),
    {
        let at: usize = self.cursor;
        assert(at < self.queue.len());
        self.cursor = at + 1;
        let depot_id: &str = self.queue[at].depot_id.as_str();
        match outcome {
            Ok(result) => match result.outcome {
                DownloadOutcome::Downloaded => {
                    self.downloaded = self.downloaded + 1;
                    self.downloaded_bytes = self.downloaded_bytes + result.size;
                    WorkerEvent::Log(join5("[+] Depot ", depot_id, " downloaded (", size_text, ")"))
                },
                DownloadOutcome::SkippedExisting => {
                    self.skipped = self.skipped + 1;
                    WorkerEvent::Log(
                        join5("[!] Depot ", depot_id, " already up to date (", size_text, ")"),
                    )
                },
                DownloadOutcome::Unavailable => {
                    self.unavailable = self.unavailable + 1;
                    WorkerEvent::Log(
                        join3(
                            "[!] Depot ",
                            depot_id,
                            " is not available on the selected source, skipped",
                        ),
                    )
                },
            },
            Err(error) => {
                self.failed = self.failed + 1;
                let head: String = join3("[-] Depot ", depot_id, " failed: ");
                WorkerEvent::Log(join2(head.as_str(), error.as_str()))
            },
        }
    }

    /// Ends the job.
    pub fn finish(self) -> (summary: JobSummary)
        ensures
            summary.depot_ids == self.depot_ids,
            summary.total == self.queue@.len(),
            summary.downloaded == self.downloaded,
            summary.skipped == self.skipped,
            summary.unavailable == self.unavailable,
            summary.failed == self.failed,
            summary.downloaded_bytes == self.downloaded_bytes,
            self.well_formed() && self.cursor == self.queue@.len() ==> summary.total
                == summary.downloaded + summary.skipped + summary.unavailable + summary.failed,
    {
        let total: usize = self.queue.len();
        JobSummary {
            depot_ids: self.depot_ids,
            total,
            downloaded: self.downloaded,
            skipped: self.skipped,
            unavailable: self.unavailable,
            failed: self.failed,
            downloaded_bytes: self.downloaded_bytes,
        }
    }
}

// ---------------------------------------------------------------------------
// Laws
// ---------------------------------------------------------------------------

/// Every download is counted under exactly one heading.
pub proof fn law_every_download_is_counted(outcomes: Seq<OutcomeView>)
    ensures
        TallyView::of(outcomes).count() == outcomes.len(),
    decreases outcomes.len(),
{
    if outcomes.len() > 0 {
        law_every_download_is_counted(outcomes.drop_last());
    }
}

/// Only downloads add to the number of downloaded bytes: without one it stays zero.
pub proof fn law_only_downloads_have_bytes(outcomes: Seq<OutcomeView>)
    ensures
        TallyView::of(outcomes).downloaded == 0 ==> TallyView::of(outcomes).downloaded_bytes == 0,
    decreases outcomes.len(),
{
    if outcomes.len() > 0 {
        law_only_downloads_have_bytes(outcomes.drop_last());
    }
}

/// A Lua file that cannot be read is an error. Otherwise its depots are those of its calls,
/// each of them once; a file without such a call is another error.
pub proof fn law_lua_file_decides(
    lua_path: Seq<char>,
    text: Seq<char>,
    unread: Result<Seq<Seq<char>>, Seq<char>>,
    read: Result<Seq<Seq<char>>, Seq<char>>,
    id: Seq<char>,
)
    requires
        depots_read(lua_path, None, unread),
        depots_read(lua_path, Some(text), read),
    ensures
        unread == Err::<Seq<Seq<char>>, Seq<char>>("Unable to read Lua file"@),
        ({
            let named = first_groups(
                r#"addappid\s*\(\s*(\d+)\s*,\s*\d+\s*,\s*"[a-fA-F0-9]+""#@,
                text,
            );
            if named.len() == 0 {
                read == Err::<Seq<Seq<char>>, Seq<char>>(
                    "No valid depot IDs were found in "@ + lua_path,
                )
            } else {
                &&& read matches Ok(ids)
                &&& ids.contains(id) <==> named.contains(id)
                &&& forall|i: int, j: int|
                    0 <= i < j < ids.len() ==> crate::text::before(
                        #[trigger] ids[i],
                        #[trigger] ids[j],
                    )
            }
        }),
{
    let named = first_groups(depot_pattern(), text);
    if let Ok(ids) = read {
        assert(ids.to_set().contains(id) <==> named.to_set().contains(id));
        assert(ids.to_set().contains(ids[0]));
        assert(named.to_set().contains(ids[0]));
        assert(named.contains(ids[0]));
    }
}

/// Each reply of the information service leads to its own result.
pub proof fn law_reply_decides(
    app_id: Seq<char>,
    depot_ids: Seq<Seq<char>>,
    reply: InfoReply,
    r: Result<Seq<(Seq<char>, Seq<char>)>, Seq<char>>,
)
    requires
        queue_made(app_id, depot_ids, reply, r),
    ensures
        reply is RequestFailed ==> (r matches Err(message) && message
            == "SteamCMD request failed"@),
        reply is BodyUnreadable ==> (r matches Err(message) && message
            == "SteamCMD response body could not be read"@),
        reply is InvalidJson ==> (r matches Err(message) && message
            == "SteamCMD returned invalid JSON"@),
        reply matches InfoReply::Response(response) ==> if !response_succeeded(response) {
            r matches Err(message) && message
                == "SteamCMD API did not return status=success for app "@ + app_id
        } else if app_depots(response.data@, app_id) is None {
            r matches Err(message) && message == "AppID "@ + app_id
                + " was not present in the SteamCMD response"@
        } else if download_queue(app_depots(response.data@, app_id)->0, depot_ids).len() == 0 {
            r matches Err(message) && message == "No public manifests were found for app "@ + app_id
        } else {
            r matches Ok(queue) && queue == download_queue(
                app_depots(response.data@, app_id)->0,
                depot_ids,
            )
        },
{
}

/// Each download is counted under its own heading by one, its bytes are added where it was
/// downloaded, and no other figure changes.
pub proof fn law_each_outcome_has_its_heading(tally: TallyView, size: u64, error: Seq<char>)
    ensures
        tally.counting(
            OutcomeView::Done(DownloadResult { outcome: DownloadOutcome::Downloaded, size }),
        ) == (TallyView {
            downloaded: tally.downloaded + 1,
            downloaded_bytes: (tally.downloaded_bytes + size) as nat,
            ..tally
        }),
        tally.counting(
            OutcomeView::Done(DownloadResult { outcome: DownloadOutcome::SkippedExisting, size }),
        ) == (TallyView { skipped: tally.skipped + 1, ..tally }),
        tally.counting(
            OutcomeView::Done(DownloadResult { outcome: DownloadOutcome::Unavailable, size }),
        ) == (TallyView { unavailable: tally.unavailable + 1, ..tally }),
        tally.counting(OutcomeView::Failed(error)) == (TallyView {
            failed: tally.failed + 1,
            ..tally
        }),
        TallyView::none() == (TallyView {
            downloaded: 0,
            skipped: 0,
            unavailable: 0,
            failed: 0,
            downloaded_bytes: 0,
        }),
{
}

/// Each download is reported by a line that names its depot and what came of it.
pub proof fn law_each_outcome_has_its_line(
    depot: Seq<char>,
    bytes: u64,
    size: Seq<char>,
    error: Seq<char>,
)
    ensures
        outcome_line(
            depot,
            OutcomeView::Done(
                DownloadResult { outcome: DownloadOutcome::Downloaded, size: bytes },
            ),
            size,
        ) == "[+] Depot "@ + depot + " downloaded ("@ + size + ")"@,
        outcome_line(
            depot,
            OutcomeView::Done(
                DownloadResult { outcome: DownloadOutcome::SkippedExisting, size: bytes },
            ),
            size,
        ) == "[!] Depot "@ + depot + " already up to date ("@ + size + ")"@,
        outcome_line(
            depot,
            OutcomeView::Done(
                DownloadResult { outcome: DownloadOutcome::Unavailable, size: bytes },
            ),
            size,
        ) == "[!] Depot "@ + depot + " is not available on the selected source, skipped"@,
        outcome_line(depot, OutcomeView::Failed(error), size) == "[-] Depot "@ + depot
            + " failed: "@ + error,
{
}

/// The depots of a Lua file are announced by their number, and then the information service
/// is asked.
pub proof fn law_depots_are_announced(app_id: Seq<char>, count: nat)
    ensures
        depots_announcement(app_id, count).len() == 2,
        depots_announcement(app_id, count)[0] == EventView::Log(
            "[+] App "@ + app_id + " exposes "@ + decimal(count) + " depot IDs"@,
        ),
        depots_announcement(app_id, count)[1] == EventView::Log(
            "[*] Fetching SteamCMD app info for "@ + app_id,
        ),
{
}

/// A download can be counted exactly where the number of downloaded bytes does not
/// overflow; and all of the figures of a job are seen.
pub proof fn law_figures_are_seen(run: JobRun, size: u64, error: Seq<char>)
    ensures
        run.takes(
            OutcomeView::Done(DownloadResult { outcome: DownloadOutcome::Downloaded, size }),
        ) <==> run.downloaded_bytes + size <= 0xffff_ffff_ffff_ffff,
        run.takes(
            OutcomeView::Done(DownloadResult { outcome: DownloadOutcome::SkippedExisting, size }),
        ),
        run.takes(
            OutcomeView::Done(DownloadResult { outcome: DownloadOutcome::Unavailable, size }),
        ),
        run.takes(OutcomeView::Failed(error)),
        run.tally().downloaded == run.downloaded && run.tally().skipped == run.skipped,
        run.tally().unavailable == run.unavailable && run.tally().failed == run.failed,
        run.tally().downloaded_bytes == run.downloaded_bytes,
{
}

/// All of what came of a download is seen.
pub proof fn law_outcomes_are_seen(outcome: Result<DownloadResult, String>)
    ensures
        outcome matches Ok(result) ==> outcome_view(outcome) == OutcomeView::Done(result),
        outcome matches Err(error) ==> outcome_view(outcome) == OutcomeView::Failed(error@),
{
}

} // verus!
