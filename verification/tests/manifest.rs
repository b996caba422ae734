use steam_tools::manifest::{
    build_download_queue, extract_manifest_gid, find_member, queue_for_job, AppData, AppEntry,
    DownloadItem, Json, Member, SteamResponse,
};

fn member(key: &str, value: Json) -> Member {
    Member { key: key.to_owned(), value }
}

fn text(value: &str) -> Json {
    Json::Text(value.to_owned())
}

fn depot(gid: &str) -> Json {
    let public = Json::Object(vec![member("size", text("9")), member("gid", text(gid))]);
    let manifests = Json::Object(vec![member("beta", Json::Other), member("public", public)]);
    Json::Object(vec![member("config", Json::Other), member("manifests", manifests)])
}

fn response(status: Option<&str>) -> SteamResponse {
    let depots = vec![
        member("branches", Json::Other),
        member("731", depot("111")),
        member("732", Json::Object(vec![member("manifests", Json::Object(Vec::new()))])),
        member("733", depot("333")),
    ];
    SteamResponse {
        status: status.map(str::to_owned),
        data: vec![
            AppEntry { app_id: "10".to_owned(), data: AppData { depots: Vec::new() } },
            AppEntry { app_id: "730".to_owned(), data: AppData { depots } },
        ],
    }
}

fn ids(texts: &[&str]) -> Vec<String> {
    texts.iter().map(|text| text.to_string()).collect()
}

fn pairs(queue: &[DownloadItem]) -> Vec<(&str, &str)> {
    queue.iter().map(|item| (item.depot_id.as_str(), item.manifest_id.as_str())).collect()
}

#[test]
fn the_public_manifest_of_a_depot_is_found() {
    assert_eq!(extract_manifest_gid(&depot("4711")).as_deref(), Some("4711"));
}

#[test]
fn a_depot_of_another_form_has_no_manifest() {
    let number = Json::Object(vec![member("gid", Json::Other)]);
    let shapes = vec![
        Json::Other,
        text("4711"),
        Json::Object(Vec::new()),
        Json::Object(vec![member("manifests", text("x"))]),
        Json::Object(vec![member("manifests", Json::Object(Vec::new()))]),
        Json::Object(vec![member(
            "manifests",
            Json::Object(vec![member("public", text("4711"))]),
        )]),
        Json::Object(vec![member("manifests", Json::Object(vec![member("public", number)]))]),
        Json::Object(vec![member("public", Json::Object(vec![member("gid", text("1"))]))]),
    ];
    for shape in shapes {
        assert!(extract_manifest_gid(&shape).is_none());
    }
}

#[test]
fn members_are_found_by_their_keys() {
    let members = vec![member("a", text("1")), member("b", Json::Other)];
    assert!(matches!(find_member(&members, "a"), Some(Json::Text(value)) if value == "1"));
    assert!(matches!(find_member(&members, "b"), Some(Json::Other)));
    assert!(find_member(&members, "c").is_none());
}

#[test]
fn the_queue_holds_the_depots_with_public_manifests() {
    let wanted = ids(&["734", "733", "732", "731"]);
    let queue = build_download_queue(&response(None), "730", &wanted).unwrap();
    assert_eq!(pairs(&queue), vec![("733", "333"), ("731", "111")]);
    let empty = build_download_queue(&response(None), "10", &wanted).unwrap();
    assert!(empty.is_empty());
}

#[test]
fn an_app_that_is_not_in_the_response_is_an_error() {
    let error = build_download_queue(&response(None), "440", &ids(&["731"])).unwrap_err();
    assert_eq!(error, "AppID 440 was not present in the SteamCMD response");
}

#[test]
fn a_job_needs_a_success_and_a_manifest() {
    let wanted = ids(&["731"]);
    let queue = queue_for_job(&response(Some("success")), "730", &wanted).unwrap();
    assert_eq!(pairs(&queue), vec![("731", "111")]);
    for status in [None, Some("failed"), Some("Success")] {
        assert_eq!(
            queue_for_job(&response(status), "730", &wanted).unwrap_err(),
            "SteamCMD API did not return status=success for app 730"
        );
    }
    assert_eq!(
        queue_for_job(&response(Some("success")), "440", &wanted).unwrap_err(),
        "AppID 440 was not present in the SteamCMD response"
    );
    assert_eq!(
        queue_for_job(&response(Some("success")), "730", &ids(&["732"])).unwrap_err(),
        "No public manifests were found for app 730"
    );
}
