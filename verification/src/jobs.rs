//! The Lua files of a run: which files are taken, and in what order.
use crate::modes::RunMode;
use crate::text::{
    all_digits, before, lemma_before_irreflexive, lemma_before_total, lemma_before_transitive,
    trimmed,
};
use crate::text::{join2, only_digits, same_text, text_before, trim};
use vstd::prelude::*;

verus! {

/// An entry of the Lua directory: the extension and the stem of its name, where they are
/// text, and its path as it is shown.
pub struct LuaEntry {
    pub extension: Option<String>,
    pub stem: Option<String>,
    pub path: String,
}

/// A Lua file to process. `source` is the position of its entry in the directory.
pub struct LuaJob {
    pub app_id: String,
    pub lua_path: String,
    pub source: usize,
}

impl LuaEntry {
    /// The entry is a Lua file named by an app id: digits, with the extension `lua`.
    pub open spec fn is_eligible(&self) -> bool {
        &&& self.extension matches Some(extension) && extension@ == "lua"@
        &&& self.stem matches Some(stem) && all_digits(stem@)
    }

    /// The app id, where the entry is a Lua file named by one.
    fn eligible_app_id(&self) -> (r: Option<String>)
        ensures
            match r {
                Some(app_id) => self.is_eligible() && app_id@ == self.stem->0@,
                None => !self.is_eligible(),
            },
    {
        match (&self.extension, &self.stem) {
            (Some(extension), Some(stem)) => {
                if same_text(extension.as_str(), "lua") && only_digits(stem.as_str()) {
                    Some(stem.clone())
                } else {
                    None
                }
            },
            _ => None,
        }
    }
}

impl LuaJob {
    /// The job is for the entry at its position.
    pub open spec fn is_for(&self, entries: Seq<LuaEntry>) -> bool {
        &&& self.source < entries.len()
        &&& entries[self.source as int].is_eligible()
        &&& self.app_id@ == entries[self.source as int].stem->0@
        &&& self.lua_path@ == entries[self.source as int].path@
    }

    /// The job comes before another: by the app id, and where that is the same, by the
    /// position in the directory.
    pub open spec fn precedes(&self, other: LuaJob) -> bool {
        before(self.app_id@, other.app_id@) || (self.app_id@ == other.app_id@ && self.source
            < other.source)
    }
}

/// Jobs stand in order.
pub open spec fn in_order(jobs: Seq<LuaJob>) -> bool {
    forall|i: int, j: int|
        0 <= i < j < jobs.len() ==> (#[trigger] jobs[i]).precedes(#[trigger] jobs[j])
}

/// Some job is for the entry at position `e`.
pub open spec fn covers(jobs: Seq<LuaJob>, e: int) -> bool {
    exists|j: int| 0 <= j < jobs.len() && (#[trigger] jobs[j]).source == e
}

/// The jobs hold one for each Lua file of the directory that is named by an app id, and no
/// other, ordered by the app id.
pub open spec fn jobs_for_directory(entries: Seq<LuaEntry>, jobs: Seq<LuaJob>) -> bool {
    &&& in_order(jobs)
    &&& forall|j: int| 0 <= j < jobs.len() ==> (#[trigger] jobs[j]).is_for(entries)
    &&& forall|e: int|
        0 <= e < entries.len() && (#[trigger] entries[e]).is_eligible() ==> covers(jobs, e)
}

/// The directory has a Lua file that is named by an app id.
pub open spec fn some_eligible(entries: Seq<LuaEntry>) -> bool {
    exists|e: int| 0 <= e < entries.len() && (#[trigger] entries[e]).is_eligible()
}

/// There are jobs exactly where the directory has a Lua file that is named by an app id.
pub proof fn lemma_jobs_where_eligible(entries: Seq<LuaEntry>, jobs: Seq<LuaJob>)
    requires
        jobs_for_directory(entries, jobs),
    ensures
        jobs.len() > 0 <==> some_eligible(entries),
{
    if jobs.len() > 0 {
        assert(jobs[0].is_for(entries));
        assert(entries[jobs[0].source as int].is_eligible());
    }
    if some_eligible(entries) {
        let e = choose|e: int| 0 <= e < entries.len() && (#[trigger] entries[e]).is_eligible();
        assert(covers(jobs, e));
    }
}

/// Inserts a job behind all jobs whose app id is not greater.
fn insert_job(jobs: &mut Vec<LuaJob>, job: LuaJob)
    requires
        in_order(old(jobs)@),
        forall|i: int| 0 <= i < old(jobs)@.len() ==> (#[trigger] old(jobs)@[i]).source < job.source,
    ensures
        in_order(final(jobs)@),
        exists|at: int|
            0 <= at <= old(jobs)@.len() && #[trigger] old(jobs)@.insert(at, job) == final(jobs)@,
{
    let ghost was = jobs@;
    let mut i: usize = 0;
    while i < jobs.len() && !text_before(job.app_id.as_str(), jobs[i].app_id.as_str())
        invariant
            i <= jobs@.len(),
            jobs@ == was,
            forall|k: int| 0 <= k < i ==> !before(job.app_id@, (#[trigger] was[k]).app_id@),
        decreases jobs@.len() - i,
    {
        i += 1;
    }
    proof {
        assert forall|k: int| 0 <= k < i implies (#[trigger] was[k]).precedes(job) by {
            lemma_before_total(was[k].app_id@, job.app_id@);
        }
        assert forall|k: int| i <= k < was.len() implies job.precedes(#[trigger] was[k]) by {
            if k > i {
                assert(was[i as int].precedes(was[k]));
                if before(was[i as int].app_id@, was[k].app_id@) {
                    lemma_before_transitive(job.app_id@, was[i as int].app_id@, was[k].app_id@);
                }
            }
        }
    }
    let ghost added = job;
    jobs.insert(i, job);
    proof {
        let now = jobs@;
        assert(now =~= was.insert(i as int, added));
        assert forall|a: int, b: int| 0 <= a < b < now.len() implies (#[trigger] now[a]).precedes(
            #[trigger] now[b],
        ) by {
            let x = if a < i {
                a
            } else {
                a - 1
            };
            let y = if b < i {
                b
            } else {
                b - 1
            };
            if a != i {
                assert(now[a] == was[x]);
            }
            if b != i {
                assert(now[b] == was[y]);
            }
        }
    }
}

/// The jobs for the entries of the Lua directory: one for each Lua file that is named by
/// an app id, ordered by the app id.
pub fn lua_jobs(entries: &Vec<LuaEntry>) -> (jobs: Vec<LuaJob>)
    ensures
        jobs_for_directory(entries@, jobs@),
{
    let mut jobs: Vec<LuaJob> = Vec::new();
    let mut i: usize = 0;
    while i < entries.len()
        invariant
            i <= entries@.len(),
            in_order(jobs@),
            forall|j: int|
                0 <= j < jobs@.len() ==> (#[trigger] jobs@[j]).is_for(entries@) && jobs@[j].source
                    < i,
            forall|e: int|
                0 <= e < i && (#[trigger] entries@[e]).is_eligible() ==> covers(jobs@, e),
        decreases entries@.len() - i,
    {
        let ghost was = jobs@;
        if let Some(app_id) = entries[i].eligible_app_id() {
            let job: LuaJob = LuaJob { app_id, lua_path: entries[i].path.clone(), source: i };
            let ghost added = job;
            insert_job(&mut jobs, job);
            proof {
                let now = jobs@;
                let at = choose|at: int|
                    0 <= at <= was.len() && #[trigger] was.insert(at, added) == now;
                assert forall|j: int| 0 <= j < now.len() implies (#[trigger] now[j]).is_for(
                    entries@,
                ) && now[j].source < i + 1 by {
                    if j < at {
                        assert(now[j] == was[j]);
                    } else if j > at {
                        assert(now[j] == was[j - 1]);
                    } else {
                        assert(now[j] == added);
                    }
                }
                assert forall|e: int|
                    0 <= e < i + 1 && (#[trigger] entries@[e]).is_eligible() implies covers(
                    now,
                    e,
                ) by {
                    if e == i {
                        assert(now[at].source == e);
                    } else {
                        assert(covers(was, e));
                        let j = choose|j: int| 0 <= j < was.len() && (#[trigger] was[j]).source == e;
                        if j < at {
                            assert(now[j].source == e);
                        } else {
                            assert(now[j + 1].source == e);
                        }
                    }
                }
            }
        }
        i += 1;
    }
    jobs
}

/// The name of the Lua file of an app.
pub fn lua_file_name(app_id: &str) -> (r: String)
    ensures
        r@ == trimmed(app_id@) + ".lua"@,
{
    let id: String = trim(app_id);
    join2(id.as_str(), ".lua")
}

/// The message for a Lua directory that does not exist.
pub fn missing_lua_dir(dir: &str) -> (r: String)
    ensures
        r@ == "Lua directory not found: "@ + dir@,
{
    join2("Lua directory not found: ", dir)
}

/// The job for one app, where its Lua file exists.
pub fn single_job(app_id: &str, path: &str, exists: bool) -> (r: Result<LuaJob, String>)
    ensures
        match r {
            Ok(job) => {
                &&& exists
                &&& job.app_id@ == trimmed(app_id@)
                &&& job.lua_path@ == path@
                &&& job.source == 0
            },
            Err(message) => !exists && message@ == "Lua file not found: "@ + path@,
        },
{
    if exists {
        Ok(LuaJob { app_id: trim(app_id), lua_path: path.to_owned(), source: 0 })
    } else {
        Err(join2("Lua file not found: ", path))
    }
}

/// What was found of the Lua files of a run.
pub enum LuaFound {
    /// The Lua directory does not exist.
    NoDirectory { dir: String },
    /// The Lua file of one app was looked up.
    File { path: String, exists: bool },
    /// The whole directory was read, or could not be.
    Directory(Result<Vec<LuaEntry>, String>),
}

impl LuaFound {
    /// A run for one app looks up one file, and a run over all files reads the directory.
    pub open spec fn suits(&self, run_mode: RunMode) -> bool {
        match *self {
            LuaFound::NoDirectory { .. } => true,
            LuaFound::File { .. } => run_mode == RunMode::SingleApp,
            LuaFound::Directory(_) => run_mode == RunMode::FullRebase,
        }
    }

    /// Whether it is what a run of the given kind looks for.
    pub fn fits(&self, run_mode: RunMode) -> (r: bool)
        ensures
            r == self.suits(run_mode),
    {
        match self {
            LuaFound::NoDirectory { .. } => true,
            LuaFound::File { .. } => run_mode == RunMode::SingleApp,
            LuaFound::Directory(_) => run_mode == RunMode::FullRebase,
        }
    }
}

/// The jobs of a run: exactly one for one app, and otherwise those of the directory; or
/// why there are none.
pub open spec fn jobs_found(
    app_id: Seq<char>,
    found: LuaFound,
    r: Result<Vec<LuaJob>, String>,
) -> bool {
    match (found, r) {
        (LuaFound::NoDirectory { dir }, Err(message)) => message@ == "Lua directory not found: "@
            + dir@,
        (LuaFound::File { path, exists }, Ok(jobs)) => {
            &&& exists
            &&& jobs@.len() == 1
            &&& jobs@[0].app_id@ == trimmed(app_id)
            &&& jobs@[0].lua_path@ == path@
            &&& jobs@[0].source == 0
        },
        (LuaFound::File { path, exists }, Err(message)) => !exists && message@
            == "Lua file not found: "@ + path@,
        (LuaFound::Directory(Ok(entries)), Ok(jobs)) => jobs_for_directory(entries@, jobs@),
        (LuaFound::Directory(Err(error)), Err(message)) => message@ == error@,
        _ => false,
    }
}

/// The jobs of a run, or why there are none.
pub fn jobs_of_run(app_id: &str, found: LuaFound) -> (r: Result<Vec<LuaJob>, String>)
    ensures
        jobs_found(app_id@, found, r),
{
    match found {
        LuaFound::NoDirectory { dir } => Err(missing_lua_dir(dir.as_str())),
        LuaFound::File { path, exists } => match single_job(app_id, path.as_str(), exists) {
            Ok(job) => {
                let jobs: Vec<LuaJob> = vec![job];
                Ok(jobs)
            },
            Err(error) => Err(error),
        },
        LuaFound::Directory(Ok(entries)) => Ok(lua_jobs(&entries)),
        LuaFound::Directory(Err(error)) => Err(error),
    }
}

proof fn lemma_same_sources(entries: Seq<LuaEntry>, a: Seq<LuaJob>, b: Seq<LuaJob>)
    requires
        in_order(a),
        in_order(b),
        forall|j: int| 0 <= j < a.len() ==> (#[trigger] a[j]).is_for(entries),
        forall|j: int| 0 <= j < b.len() ==> (#[trigger] b[j]).is_for(entries),
        forall|j: int| 0 <= j < a.len() ==> covers(b, (#[trigger] a[j]).source as int),
        forall|j: int| 0 <= j < b.len() ==> covers(a, (#[trigger] b[j]).source as int),
    ensures
        a.len() == b.len(),
        forall|j: int| 0 <= j < a.len() ==> (#[trigger] a[j]).source == b[j].source,
    decreases a.len(),
{
    if a.len() == 0 {
        if b.len() > 0 {
            assert(covers(a, b[0].source as int));
        }
    } else {
        assert(covers(b, a.last().source as int));
        let i = choose|i: int| 0 <= i < b.len() && (#[trigger] b[i]).source == a.last().source;
        assert(covers(a, b.last().source as int));
        let k = choose|k: int| 0 <= k < a.len() && (#[trigger] a[k]).source == b.last().source;
        lemma_before_irreflexive(a.last().app_id@);
        assert(a.last().source == b.last().source) by {
            if i < b.len() - 1 && k < a.len() - 1 {
                assert(b[i].precedes(b[b.len() - 1]));
                assert(a[k].precedes(a[a.len() - 1]));
                if before(a.last().app_id@, b.last().app_id@) && before(
                    b.last().app_id@,
                    a.last().app_id@,
                ) {
                    lemma_before_transitive(
                        a.last().app_id@,
                        b.last().app_id@,
                        a.last().app_id@,
                    );
                }
            }
        }
        let x = a.drop_last();
        let y = b.drop_last();
        assert forall|j: int| 0 <= j < x.len() implies covers(
            y,
            (#[trigger] x[j]).source as int,
        ) by {
            assert(covers(b, a[j].source as int));
            let m = choose|m: int| 0 <= m < b.len() && (#[trigger] b[m]).source == a[j].source;
            assert(a[j].precedes(a[a.len() - 1]));
            if m == b.len() - 1 {
                lemma_before_irreflexive(a[j].app_id@);
            }
            assert(y[m].source == x[j].source);
        }
        assert forall|j: int| 0 <= j < y.len() implies covers(
            x,
            (#[trigger] y[j]).source as int,
        ) by {
            assert(covers(a, b[j].source as int));
            let m = choose|m: int| 0 <= m < a.len() && (#[trigger] a[m]).source == b[j].source;
            assert(b[j].precedes(b[b.len() - 1]));
            if m == a.len() - 1 {
                lemma_before_irreflexive(b[j].app_id@);
            }
            assert(x[m].source == y[j].source);
        }
        assert forall|i: int, j: int| 0 <= i < j < x.len() implies (#[trigger] x[i]).precedes(
            #[trigger] x[j],
        ) by {
            assert(a[i].precedes(a[j]));
        }
        assert forall|i: int, j: int| 0 <= i < j < y.len() implies (#[trigger] y[i]).precedes(
            #[trigger] y[j],
        ) by {
            assert(b[i].precedes(b[j]));
        }
        lemma_same_sources(entries, x, y);
        assert forall|j: int| 0 <= j < a.len() implies (#[trigger] a[j]).source == b[j].source by {
            if j < x.len() {
                assert(x[j].source == y[j].source);
            }
        }
    }
}

/// The jobs for a directory are determined by its entries: two lists of jobs for the same
/// directory hold the same jobs in the same order.
pub proof fn law_jobs_are_determined(entries: Seq<LuaEntry>, a: Seq<LuaJob>, b: Seq<LuaJob>)
    requires
        jobs_for_directory(entries, a),
        jobs_for_directory(entries, b),
    ensures
        a.len() == b.len(),
        forall|j: int|
            0 <= j < a.len() ==> (#[trigger] a[j]).app_id@ == b[j].app_id@ && a[j].lua_path@
                == b[j].lua_path@ && a[j].source == b[j].source,
{
    assert forall|j: int| 0 <= j < a.len() implies covers(b, (#[trigger] a[j]).source as int) by {
        assert(entries[a[j].source as int].is_eligible());
    }
    assert forall|j: int| 0 <= j < b.len() implies covers(a, (#[trigger] b[j]).source as int) by {
        assert(entries[b[j].source as int].is_eligible());
    }
    lemma_same_sources(entries, a, b);
    assert forall|j: int| 0 <= j < a.len() implies (#[trigger] a[j]).app_id@ == b[j].app_id@
        && a[j].lua_path@ == b[j].lua_path@ by {
        assert(a[j].is_for(entries) && b[j].is_for(entries));
    }
}

/// Every entry whose extension is `lua` and whose stem consists of digits has a job, with
/// the stem as its app id and the path of the entry.
pub proof fn law_every_lua_file_has_a_job(entries: Seq<LuaEntry>, jobs: Seq<LuaJob>, e: int)
    requires
        jobs_for_directory(entries, jobs),
        0 <= e < entries.len(),
        entries[e].extension matches Some(extension) && extension@ == "lua"@,
        entries[e].stem matches Some(stem) && forall|k: int|
            0 <= k < stem@.len() ==> '0' <= #[trigger] stem@[k] <= '9',
    ensures
        exists|j: int|
            0 <= j < jobs.len() && (#[trigger] jobs[j]).source == e && jobs[j].app_id@
                == entries[e].stem->0@ && jobs[j].lua_path@ == entries[e].path@,
{
    crate::text::law_digits_are_the_ten(entries[e].stem->0@);
    assert(entries[e].is_eligible());
    assert(covers(jobs, e));
    let j = choose|j: int| 0 <= j < jobs.len() && (#[trigger] jobs[j]).source == e;
    assert(jobs[j].is_for(entries));
}

/// Every job is for an entry whose extension is `lua` and whose stem consists of digits.
pub proof fn law_every_job_has_a_lua_file(entries: Seq<LuaEntry>, jobs: Seq<LuaJob>, j: int)
    requires
        jobs_for_directory(entries, jobs),
        0 <= j < jobs.len(),
    ensures
        jobs[j].source < entries.len(),
        entries[jobs[j].source as int].extension matches Some(extension) && extension@ == "lua"@,
        entries[jobs[j].source as int].stem matches Some(stem) && stem@ == jobs[j].app_id@,
        forall|k: int|
            0 <= k < jobs[j].app_id@.len() ==> '0' <= #[trigger] jobs[j].app_id@[k] <= '9',
        jobs[j].lua_path@ == entries[jobs[j].source as int].path@,
{
    assert(jobs[j].is_for(entries));
    crate::text::law_digits_are_the_ten(jobs[j].app_id@);
}

/// Jobs come in the order of their app ids, and jobs with the same app id in the order of
/// the directory; no entry has two jobs.
pub proof fn law_jobs_come_in_order(entries: Seq<LuaEntry>, jobs: Seq<LuaJob>, i: int, j: int)
    requires
        jobs_for_directory(entries, jobs),
        0 <= i < j < jobs.len(),
    ensures
        before(jobs[i].app_id@, jobs[j].app_id@) || jobs[i].app_id@ == jobs[j].app_id@,
        jobs[i].app_id@ == jobs[j].app_id@ ==> jobs[i].source < jobs[j].source,
        jobs[i].source != jobs[j].source,
{
    assert(jobs[i].precedes(jobs[j]));
    assert(jobs[i].is_for(entries) && jobs[j].is_for(entries));
    lemma_before_irreflexive(jobs[i].app_id@);
}

/// What was found decides about the jobs of a run.
pub proof fn law_findings_decide(
    app_id: Seq<char>,
    found: LuaFound,
    r: Result<Vec<LuaJob>, String>,
)
    requires
        jobs_found(app_id, found, r),
    ensures
        found matches LuaFound::NoDirectory { dir } ==> (r matches Err(message) && message@
            == "Lua directory not found: "@ + dir@),
        found matches LuaFound::File { path, exists: there } ==> if there {
            &&& r matches Ok(jobs)
            &&& jobs@.len() == 1
            &&& jobs@[0].app_id@ == trimmed(app_id)
            &&& jobs@[0].lua_path@ == path@
            &&& jobs@[0].source == 0
        } else {
            r matches Err(message) && message@ == "Lua file not found: "@ + path@
        },
        found matches LuaFound::Directory(Ok(entries)) ==> (r matches Ok(jobs)
            && jobs_for_directory(entries@, jobs@)),
        found matches LuaFound::Directory(Err(error)) ==> (r matches Err(message) && message@
            == error@),
{
}

/// One file is looked up for one app, and the directory is read for all of them; either may
/// find that there is no directory.
pub proof fn law_findings_suit_the_run(found: LuaFound)
    ensures
        found is NoDirectory ==> found.suits(RunMode::SingleApp) && found.suits(
            RunMode::FullRebase,
        ),
        found is File ==> found.suits(RunMode::SingleApp) && !found.suits(RunMode::FullRebase),
        found is Directory ==> !found.suits(RunMode::SingleApp) && found.suits(RunMode::FullRebase),
{
}

} // verus!
