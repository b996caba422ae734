//! What the app information service says about the manifests of an app, and the queue
//! of downloads that follows from it.
use crate::depots::ascending;
use crate::text::texts;
use crate::text::{join2, join3, same_text};
use vstd::prelude::*;

verus! {

// ---------------------------------------------------------------------------
// Structured values
// ---------------------------------------------------------------------------

/// A JSON value, as far as the manifests of a depot need it.
pub enum Json {
    Object(Vec<Member>),
    Text(String),
    Other,
}

/// A member of a JSON object.
pub struct Member {
    pub key: String,
    pub value: Json,
}

/// The value of the first member with the given key.
pub open spec fn lookup(members: Seq<Member>, key: Seq<char>) -> Option<Json>
    decreases members.len(),
{
    if members.len() == 0 {
        None
    } else if members[0].key@ == key {
        Some(members[0].value)
    } else {
        lookup(members.drop_first(), key)
    }
}

/// The member of an object with the given key; other values have no members.
pub open spec fn member(value: Json, key: Seq<char>) -> Option<Json> {
    match value {
        Json::Object(members) => lookup(members@, key),
        _ => None,
    }
}

/// Finds the value of the first member with the given key.
pub fn find_member<'a>(members: &'a Vec<Member>, key: &str) -> (r: Option<&'a Json>)
    ensures
        match r {
            Some(value) => lookup(members@, key@) == Some(*value),
            None => lookup(members@, key@) is None,
        },
{
    let mut i: usize = 0;
    assert(members@.skip(0) =~= members@);
    while i < members.len()
        invariant
            i <= members@.len(),
            lookup(members@, key@) == lookup(members@.skip(i as int), key@),
        decreases members@.len() - i,
    {
        let ghost rest = members@.skip(i as int);
        assert(rest[0] == members@[i as int]);
        if same_text(members[i].key.as_str(), key) {
            return Some(&members[i].value);
        }
        assert(rest.drop_first() =~= members@.skip(i + 1));
        i += 1;
    }
    None
}

fn object_member<'a>(value: &'a Json, key: &str) -> (r: Option<&'a Json>)
    ensures
        match r {
            Some(found) => member(*value, key@) == Some(*found),
            None => member(*value, key@) is None,
        },
{
    match value {
        Json::Object(members) => find_member(members, key),
        _ => None,
    }
}

// ---------------------------------------------------------------------------
// Manifests
// ---------------------------------------------------------------------------

/// The id of a depot's public manifest: the text at `manifests.public.gid`.
pub open spec fn manifest_gid(depot: Json) -> Option<Seq<char>> {
    match member(depot, "manifests"@) {
        Some(manifests) => match member(manifests, "public"@) {
            Some(public) => match member(public, "gid"@) {
                Some(Json::Text(gid)) => Some(gid@),
                _ => None,
            },
            None => None,
        },
        None => None,
    }
}

/// The id of a depot's public manifest, if it has one.
pub fn extract_manifest_gid(value: &Json) -> (r: Option<String>)
    ensures
        match r {
            Some(gid) => manifest_gid(*value) == Some(gid@),
            None => manifest_gid(*value) is None,
        },
{
    match object_member(value, "manifests") {
        Some(manifests) => match object_member(manifests, "public") {
            Some(public) => match object_member(public, "gid") {
                Some(Json::Text(gid)) => Some(gid.clone()),
                _ => None,
            },
            None => None,
        },
        None => None,
    }
}

/// What the service says about one app: its depots by their ids.
pub struct AppData {
    pub depots: Vec<Member>,
}

/// An app of a response.
pub struct AppEntry {
    pub app_id: String,
    pub data: AppData,
}

/// A response of the service.
pub struct SteamResponse {
    pub status: Option<String>,
    pub data: Vec<AppEntry>,
}

/// The depots of the first entry for the given app.
pub open spec fn app_depots(entries: Seq<AppEntry>, app_id: Seq<char>) -> Option<Seq<Member>>
    decreases entries.len(),
{
    if entries.len() == 0 {
        None
    } else if entries[0].app_id@ == app_id {
        Some(entries[0].data.depots@)
    } else {
        app_depots(entries.drop_first(), app_id)
    }
}

/// A manifest to download.
#[derive(Debug)]
pub struct DownloadItem {
    pub depot_id: String,
    pub manifest_id: String,
}

impl View for DownloadItem {
    type V = (Seq<char>, Seq<char>);

    open spec fn view(&self) -> (Seq<char>, Seq<char>) {
        (self.depot_id@, self.manifest_id@)
    }
}

/// The depot and manifest ids of a queue.
pub open spec fn item_views(items: Seq<DownloadItem>) -> Seq<(Seq<char>, Seq<char>)> {
    Seq::new(items.len(), |i: int| items[i]@)
}

/// The public manifest of a depot, by the depot's id.
pub open spec fn public_manifest(depots: Seq<Member>, depot_id: Seq<char>) -> Option<Seq<char>> {
    match lookup(depots, depot_id) {
        Some(depot) => manifest_gid(depot),
        None => None,
    }
}

/// The depots that have a public manifest, in the order of the ids, with the ids of
/// their manifests.
pub open spec fn download_queue(depots: Seq<Member>, depot_ids: Seq<Seq<char>>) -> Seq<
    (Seq<char>, Seq<char>),
>
    decreases depot_ids.len(),
{
    if depot_ids.len() == 0 {
        Seq::empty()
    } else {
        let before = download_queue(depots, depot_ids.drop_last());
        match public_manifest(depots, depot_ids.last()) {
            Some(manifest_id) => before.push((depot_ids.last(), manifest_id)),
            None => before,
        }
    }
}

/// Finds the depots of an app.
fn find_app<'a>(response: &'a SteamResponse, app_id: &str) -> (r: Option<&'a AppData>)
    ensures
        match r {
            Some(data) => app_depots(response.data@, app_id@) == Some(data.depots@),
            None => app_depots(response.data@, app_id@) is None,
        },
{
    let entries: &Vec<AppEntry> = &response.data;
    let mut i: usize = 0;
    assert(entries@.skip(0) =~= entries@);
    while i < entries.len()
        invariant
            i <= entries@.len(),
            entries@ == response.data@,
            app_depots(entries@, app_id@) == app_depots(entries@.skip(i as int), app_id@),
        decreases entries@.len() - i,
    {
        let ghost rest = entries@.skip(i as int);
        assert(rest[0] == entries@[i as int]);
        if same_text(entries[i].app_id.as_str(), app_id) {
            return Some(&entries[i].data);
        }
        assert(rest.drop_first() =~= entries@.skip(i + 1));
        i += 1;
    }
    None
}

/// The downloads for the given depots of an app. An app that the response does not know
/// is an error; depots without a public manifest are left out.
pub fn build_download_queue(
    response: &SteamResponse,
    app_id: &str,
    depot_ids: &Vec<String>,
) -> (r: Result<Vec<DownloadItem>, String>)
    ensures
        match (r, app_depots(response.data@, app_id@)) {
            (Ok(queue), Some(depots)) => item_views(queue@) == download_queue(
                depots,
                texts(depot_ids@),
            ),
            (Err(message), None) => message@ == "AppID "@ + app_id@
                + " was not present in the SteamCMD response"@,
            _ => false,
        },
{
    let data: &AppData = match find_app(response, app_id) {
        Some(data) => data,
        None => {
            return Err(join3("AppID ", app_id, " was not present in the SteamCMD response"));
        },
    };
    let ghost ids = texts(depot_ids@);
    let mut queue: Vec<DownloadItem> = Vec::new();
    let mut i: usize = 0;
    proof {
        assert(ids.take(0) =~= Seq::<Seq<char>>::empty());
        assert(item_views(queue@) =~= Seq::<(Seq<char>, Seq<char>)>::empty());
    }
    while i < depot_ids.len()
        invariant
            i <= depot_ids@.len(),
            ids == texts(depot_ids@),
            item_views(queue@) == download_queue(data.depots@, ids.take(i as int)),
        decreases depot_ids@.len() - i,
    {
        assert(ids.take(i + 1).drop_last() =~= ids.take(i as int));
        assert(ids.take(i + 1).last() == depot_ids@[i as int]@);
        let manifest: Option<String> = match find_member(&data.depots, depot_ids[i].as_str()) {
            Some(depot) => extract_manifest_gid(depot),
            None => None,
        };
        if let Some(manifest_id) = manifest {
            let ghost before = queue@;
            queue.push(DownloadItem { depot_id: depot_ids[i].clone(), manifest_id });
            assert(item_views(queue@) =~= item_views(before).push(queue@.last()@));
        }
        i += 1;
    }
    assert(ids.take(i as int) =~= ids);
    Ok(queue)
}

/// The response says that the request was served.
pub open spec fn response_succeeded(response: SteamResponse) -> bool {
    response.status matches Some(status) && status@ == "success"@
}

/// The downloads that a response gives for a job; or the error that ends the job.
pub fn queue_for_job(response: &SteamResponse, app_id: &str, depot_ids: &Vec<String>) -> (r: Result<
    Vec<DownloadItem>,
    String,
>)
    ensures
        match r {
            Ok(queue) => {
                &&& response_succeeded(*response)
                &&& app_depots(response.data@, app_id@) matches Some(depots)
                &&& item_views(queue@) == download_queue(depots, texts(depot_ids@))
                &&& queue@.len() > 0
            },
            Err(message) => if !response_succeeded(*response) {
                message@ == "SteamCMD API did not return status=success for app "@ + app_id@
            } else {
                match app_depots(response.data@, app_id@) {
                    None => message@ == "AppID "@ + app_id@
                        + " was not present in the SteamCMD response"@,
                    Some(depots) => {
                        &&& download_queue(depots, texts(depot_ids@)).len() == 0
                        &&& message@ == "No public manifests were found for app "@ + app_id@
                    },
                }
            },
        },
{
    let succeeded: bool = match &response.status {
        Some(status) => same_text(status.as_str(), "success"),
        None => false,
    };
    if !succeeded {
        return Err(join2("SteamCMD API did not return status=success for app ", app_id));
    }
    match build_download_queue(response, app_id, depot_ids) {
        Ok(queue) => {
            assert(item_views(queue@).len() == queue@.len());
            if queue.len() == 0 {
                Err(join2("No public manifests were found for app ", app_id))
            } else {
                Ok(queue)
            }
        },
        Err(message) => Err(message),
    }
}

// ---------------------------------------------------------------------------
// Laws
// ---------------------------------------------------------------------------

/// The queue holds a depot with a manifest exactly where the depot is asked for and that
/// is its public manifest.
pub proof fn law_queue_holds_the_public_manifests(
    depots: Seq<Member>,
    depot_ids: Seq<Seq<char>>,
    depot_id: Seq<char>,
    manifest_id: Seq<char>,
)
    ensures
        download_queue(depots, depot_ids).contains((depot_id, manifest_id)) <==> (
        depot_ids.contains(depot_id) && public_manifest(depots, depot_id) == Some(manifest_id)),
    decreases depot_ids.len(),
{
    let item = (depot_id, manifest_id);
    let queue = download_queue(depots, depot_ids);
    if depot_ids.len() > 0 {
        let head = depot_ids.drop_last();
        let last = depot_ids.last();
        let before = download_queue(depots, head);
        law_queue_holds_the_public_manifests(depots, head, depot_id, manifest_id);
        assert(depot_ids =~= head.push(last));
        assert(depot_ids.contains(depot_id) <==> head.contains(depot_id) || last == depot_id) by {
            if head.contains(depot_id) {
                let k = choose|k: int| 0 <= k < head.len() && head[k] == depot_id;
                assert(depot_ids[k] == depot_id);
            }
            if last == depot_id {
                assert(depot_ids[depot_ids.len() - 1] == depot_id);
            }
        }
        if before.contains(item) {
            let k = choose|k: int| 0 <= k < before.len() && before[k] == item;
            assert(queue[k] == item);
        }
        match public_manifest(depots, last) {
            Some(gid) => {
                assert(queue[queue.len() - 1] == (last, gid));
            },
            None => {},
        }
    }
}

/// A queue for ascending depot ids names the depots in ascending order, so none is
/// downloaded twice; and it is no longer than the list of ids.
pub proof fn law_queue_keeps_the_order(depots: Seq<Member>, depot_ids: Seq<Seq<char>>)
    requires
        ascending(depot_ids),
    ensures
        download_queue(depots, depot_ids).len() <= depot_ids.len(),
        forall|i: int, j: int|
            0 <= i < j < download_queue(depots, depot_ids).len() ==> crate::text::before(
                (#[trigger] download_queue(depots, depot_ids)[i]).0,
                (#[trigger] download_queue(depots, depot_ids)[j]).0,
            ),
    decreases depot_ids.len(),
{
    if depot_ids.len() > 0 {
        let head = depot_ids.drop_last();
        let last = depot_ids.last();
        let before = download_queue(depots, head);
        assert(ascending(head)) by {
            assert forall|i: int, j: int| 0 <= i < j < head.len() implies crate::text::before(
                #[trigger] head[i],
                #[trigger] head[j],
            ) by {
                assert(crate::text::before(depot_ids[i], depot_ids[j]));
            }
        }
        law_queue_keeps_the_order(depots, head);
        let queue = download_queue(depots, depot_ids);
        assert forall|i: int, j: int| 0 <= i < j < queue.len() implies crate::text::before(
            (#[trigger] queue[i]).0,
            (#[trigger] queue[j]).0,
        ) by {
            assert(queue[i] == before[i]);
            if j < before.len() {
                assert(queue[j] == before[j]);
            } else {
                assert(queue[j].0 == last);
                let item = before[i];
                assert(before.contains(item));
                law_queue_holds_the_public_manifests(depots, head, item.0, item.1);
                let k = choose|k: int| 0 <= k < head.len() && head[k] == item.0;
                assert(crate::text::before(depot_ids[k], depot_ids[depot_ids.len() - 1]));
            }
        }
    }
}

/// A member is found exactly where it is the first with its key.
pub proof fn law_first_member_is_found(members: Seq<Member>, key: Seq<char>, i: int)
    requires
        0 <= i < members.len(),
        members[i].key@ == key,
        forall|k: int| 0 <= k < i ==> (#[trigger] members[k]).key@ != key,
    ensures
        lookup(members, key) == Some(members[i].value),
    decreases i,
{
    if i > 0 {
        assert(members[0].key@ != key);
        let rest = members.drop_first();
        assert(rest[i - 1] == members[i]);
        assert forall|k: int| 0 <= k < i - 1 implies (#[trigger] rest[k]).key@ != key by {
            assert(rest[k] == members[k + 1]);
        }
        law_first_member_is_found(rest, key, i - 1);
    }
}

/// No member is found where none has the key.
pub proof fn law_absent_member_is_not_found(members: Seq<Member>, key: Seq<char>)
    requires
        forall|k: int| 0 <= k < members.len() ==> (#[trigger] members[k]).key@ != key,
    ensures
        lookup(members, key) is None,
    decreases members.len(),
{
    if members.len() > 0 {
        assert(members[0].key@ != key);
        let rest = members.drop_first();
        assert forall|k: int| 0 <= k < rest.len() implies (#[trigger] rest[k]).key@ != key by {
            assert(rest[k] == members[k + 1]);
        }
        law_absent_member_is_not_found(rest, key);
    }
}

/// The member at position `i` is the first one with the key.
spec fn leads(members: Seq<Member>, i: int, key: Seq<char>) -> bool {
    &&& 0 <= i < members.len()
    &&& members[i].key@ == key
    &&& forall|k: int| 0 <= k < i ==> (#[trigger] members[k]).key@ != key
}

/// The manifest of a depot is the text `gid` of the branch `public`, whatever else the
/// depot, its manifests and the branch hold beside it.
pub proof fn law_manifest_is_the_public_one(
    depot: Vec<Member>,
    manifests: Vec<Member>,
    public: Vec<Member>,
    gid: String,
    a: int,
    b: int,
    c: int,
)
    requires
        0 <= a < depot@.len(),
        depot@[a].key@ == "manifests"@,
        forall|k: int| 0 <= k < a ==> (#[trigger] depot@[k]).key@ != "manifests"@,
        depot@[a].value == Json::Object(manifests),
        0 <= b < manifests@.len(),
        manifests@[b].key@ == "public"@,
        forall|k: int| 0 <= k < b ==> (#[trigger] manifests@[k]).key@ != "public"@,
        manifests@[b].value == Json::Object(public),
        0 <= c < public@.len(),
        public@[c].key@ == "gid"@,
        forall|k: int| 0 <= k < c ==> (#[trigger] public@[k]).key@ != "gid"@,
        public@[c].value == Json::Text(gid),
    ensures
        manifest_gid(Json::Object(depot)) == Some(gid@),
{
    law_first_member_is_found(depot@, "manifests"@, a);
    law_first_member_is_found(manifests@, "public"@, b);
    law_first_member_is_found(public@, "gid"@, c);
}

/// Without manifests, without a public branch among them, or without a text `gid` in that
/// branch a depot has no manifest, whatever other branches it has.
pub proof fn law_no_manifest_without_a_public_one(
    depot: Vec<Member>,
    manifests: Vec<Member>,
    public: Vec<Member>,
    a: int,
    b: int,
    c: int,
)
    ensures
        manifest_gid(Json::Other) is None,
        forall|text: String| #[trigger] manifest_gid(Json::Text(text)) is None,
        (forall|k: int| 0 <= k < depot@.len() ==> (#[trigger] depot@[k]).key@ != "manifests"@)
            ==> manifest_gid(Json::Object(depot)) is None,
        0 <= a < depot@.len() && depot@[a].key@ == "manifests"@ && (forall|k: int|
            0 <= k < a ==> (#[trigger] depot@[k]).key@ != "manifests"@) ==> {
            &&& !(depot@[a].value is Object) ==> manifest_gid(Json::Object(depot)) is None
            &&& depot@[a].value == Json::Object(manifests) && (forall|k: int|
                0 <= k < manifests@.len() ==> (#[trigger] manifests@[k]).key@ != "public"@)
                ==> manifest_gid(Json::Object(depot)) is None
            &&& depot@[a].value == Json::Object(manifests) && 0 <= b < manifests@.len()
                && manifests@[b].key@ == "public"@ && (forall|k: int|
                0 <= k < b ==> (#[trigger] manifests@[k]).key@ != "public"@) ==> {
                &&& !(manifests@[b].value is Object) ==> manifest_gid(Json::Object(depot)) is None
                &&& manifests@[b].value == Json::Object(public) && (forall|k: int|
                    0 <= k < public@.len() ==> (#[trigger] public@[k]).key@ != "gid"@)
                    ==> manifest_gid(Json::Object(depot)) is None
                &&& manifests@[b].value == Json::Object(public) && 0 <= c < public@.len()
                    && public@[c].key@ == "gid"@ && (forall|k: int|
                    0 <= k < c ==> (#[trigger] public@[k]).key@ != "gid"@) && !(
                public@[c].value is Text) ==> manifest_gid(Json::Object(depot)) is None
            }
        },
{
    if forall|k: int| 0 <= k < depot@.len() ==> (#[trigger] depot@[k]).key@ != "manifests"@ {
        law_absent_member_is_not_found(depot@, "manifests"@);
    }
    if leads(depot@, a, "manifests"@) {
        law_first_member_is_found(depot@, "manifests"@, a);
    }
    if forall|k: int| 0 <= k < manifests@.len() ==> (#[trigger] manifests@[k]).key@ != "public"@ {
        law_absent_member_is_not_found(manifests@, "public"@);
    }
    if leads(manifests@, b, "public"@) {
        law_first_member_is_found(manifests@, "public"@, b);
    }
    if forall|k: int| 0 <= k < public@.len() ==> (#[trigger] public@[k]).key@ != "gid"@ {
        law_absent_member_is_not_found(public@, "gid"@);
    }
    if leads(public@, c, "gid"@) {
        law_first_member_is_found(public@, "gid"@, c);
    }
}

/// Two depots whose manifests have the same public branch have the same manifest: adding,
/// changing or taking away other branches makes no difference.
pub proof fn law_other_branches_do_not_matter(
    one: Vec<Member>,
    other: Vec<Member>,
    first: Vec<Member>,
    second: Vec<Member>,
    a: int,
    b: int,
    i: int,
    j: int,
)
    requires
        0 <= a < one@.len(),
        one@[a].key@ == "manifests"@,
        forall|k: int| 0 <= k < a ==> (#[trigger] one@[k]).key@ != "manifests"@,
        one@[a].value == Json::Object(first),
        0 <= b < other@.len(),
        other@[b].key@ == "manifests"@,
        forall|k: int| 0 <= k < b ==> (#[trigger] other@[k]).key@ != "manifests"@,
        other@[b].value == Json::Object(second),
        0 <= i < first@.len(),
        first@[i].key@ == "public"@,
        forall|k: int| 0 <= k < i ==> (#[trigger] first@[k]).key@ != "public"@,
        0 <= j < second@.len(),
        second@[j].key@ == "public"@,
        forall|k: int| 0 <= k < j ==> (#[trigger] second@[k]).key@ != "public"@,
        first@[i].value == second@[j].value,
    ensures
        manifest_gid(Json::Object(one)) == manifest_gid(Json::Object(other)),
{
    law_first_member_is_found(one@, "manifests"@, a);
    law_first_member_is_found(other@, "manifests"@, b);
    law_first_member_is_found(first@, "public"@, i);
    law_first_member_is_found(second@, "public"@, j);
}

/// The queue grows with the ids: a depot that the app has, with a manifest, adds itself with
/// that manifest at the end; any other adds nothing. No depot asked for before is touched.
pub proof fn law_each_depot_adds_its_manifest(
    depots: Seq<Member>,
    depot_ids: Seq<Seq<char>>,
    id: Seq<char>,
    i: int,
)
    ensures
        download_queue(depots, Seq::empty()) == Seq::<(Seq<char>, Seq<char>)>::empty(),
        0 <= i < depots.len() && depots[i].key@ == id && (forall|k: int|
            0 <= k < i ==> (#[trigger] depots[k]).key@ != id) ==> download_queue(
            depots,
            depot_ids.push(id),
        ) == (match manifest_gid(depots[i].value) {
            Some(gid) => download_queue(depots, depot_ids).push((id, gid)),
            None => download_queue(depots, depot_ids),
        }),
        (forall|k: int| 0 <= k < depots.len() ==> (#[trigger] depots[k]).key@ != id)
            ==> download_queue(depots, depot_ids.push(id)) == download_queue(depots, depot_ids),
{
    assert(depot_ids.push(id).drop_last() =~= depot_ids);
    if leads(depots, i, id) {
        law_first_member_is_found(depots, id, i);
    }
    if forall|k: int| 0 <= k < depots.len() ==> (#[trigger] depots[k]).key@ != id {
        law_absent_member_is_not_found(depots, id);
    }
}

/// The depots of an app are those of the first entry for it; an app without an entry has
/// none.
pub proof fn law_first_entry_has_the_depots(entries: Seq<AppEntry>, app_id: Seq<char>, i: int)
    ensures
        0 <= i < entries.len() && entries[i].app_id@ == app_id && (forall|k: int|
            0 <= k < i ==> (#[trigger] entries[k]).app_id@ != app_id) ==> app_depots(
            entries,
            app_id,
        ) == Some(entries[i].data.depots@),
        (forall|k: int| 0 <= k < entries.len() ==> (#[trigger] entries[k]).app_id@ != app_id)
            ==> app_depots(entries, app_id) is None,
    decreases entries.len(),
{
    if entries.len() > 0 {
        let rest = entries.drop_first();
        law_first_entry_has_the_depots(rest, app_id, i - 1);
        assert(forall|k: int| 0 <= k < rest.len() ==> rest[k] == #[trigger] entries[k + 1]);
        assert(forall|k: int| 0 <= k < rest.len() ==> #[trigger] rest[k] == entries[k + 1]);
        if i == 0 {
        } else if 0 < i < entries.len() && (forall|k: int|
            0 <= k < i ==> (#[trigger] entries[k]).app_id@ != app_id) {
            assert(entries[0].app_id@ != app_id);
        }
        if forall|k: int| 0 <= k < entries.len() ==> (#[trigger] entries[k]).app_id@ != app_id {
            assert(entries[0].app_id@ != app_id);
        }
    }
}

/// A response counts as a success with the status `success`, and with no other.
pub proof fn law_only_success_counts(response: SteamResponse)
    ensures
        response_succeeded(response) <==> (response.status is Some && response.status->0@
            == "success"@),
{
}

/// The items of a queue are seen as they are.
pub proof fn law_items_are_seen(items: Seq<DownloadItem>, i: int)
    requires
        0 <= i < items.len(),
    ensures
        item_views(items).len() == items.len(),
        item_views(items)[i] == (items[i].depot_id@, items[i].manifest_id@),
{
}

} // verus!
