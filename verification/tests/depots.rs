use steam_tools::depots::{extract_depot_ids, insert_unique, unique_depot_ids};

fn owned(texts: &[&str]) -> Vec<String> {
    texts.iter().map(|text| text.to_string()).collect()
}

#[test]
fn depots_with_keys_are_found_once_and_in_order() {
    let lua = r#"
        -- a comment
        addappid(730)
        addappid(731, 1, "0123456789abcdefABCDEF")
        addappid( 229 ,0 , "aa" )
        addappid(731, 1, "ff")
        addappid	(
            1000,
            1,
            "C0FFEE"
        )
        setManifestid(731, "123456")
    "#;
    assert_eq!(extract_depot_ids(lua), vec!["1000", "229", "731"]);
}

#[test]
fn calls_of_another_form_are_passed_over() {
    let lines = [
        "",
        "addappid(730)",
        "addappid(730, 1)",
        "addappid(730, 1, \"\")",
        "addappid(730, 1, \"xyz\")",
        "addappid(730, 1, \"12g\")",
        "addappid(, 1, \"12\")",
        "addappid(73a, 1, \"12\")",
        "addappid(7 3, 1, \"12\")",
        "addappid(730, one, \"12\")",
        "addappid(730, 1, '12')",
        "AddAppId(730, 1, \"12\")",
        "addappid 730, 1, \"12\"",
    ];
    for line in lines {
        assert!(extract_depot_ids(line).is_empty(), "{line}");
    }
}

#[test]
fn calls_may_stand_side_by_side() {
    assert_eq!(extract_depot_ids("addappid(2,0,\"a\"addappid(1,0,\"b\""), vec!["1", "2"]);
    assert_eq!(extract_depot_ids("addappidaddappid(5,0,\"0\""), vec!["5"]);
    assert_eq!(extract_depot_ids("xaddappid(007,1,\"0\")"), vec!["007"]);
}

#[test]
fn calls_are_found_in_any_text() {
    let lua = "-- caf\u{e9} \u{434}\naddappid\u{a0}(\u{2003}42,\u{3000}1, \"ab\") -- \u{661}";
    assert_eq!(extract_depot_ids(lua), vec!["42"]);
    assert_eq!(extract_depot_ids("addappid(\u{661}, 1, \"ab\")"), vec!["\u{661}"]);
}

#[test]
fn ids_are_ordered_as_texts() {
    assert_eq!(unique_depot_ids(owned(&["9", "10", "9", "1", "100"])), vec!["1", "10", "100", "9"]);
    assert!(unique_depot_ids(Vec::new()).is_empty());
    let forward = unique_depot_ids(owned(&["3", "1", "2"]));
    let backward = unique_depot_ids(owned(&["2", "1", "3", "1"]));
    assert_eq!(forward, backward);
}

#[test]
fn an_id_is_inserted_at_its_place() {
    let mut ids = owned(&["1", "3"]);
    insert_unique(&mut ids, "2".to_owned());
    insert_unique(&mut ids, "2".to_owned());
    insert_unique(&mut ids, "0".to_owned());
    insert_unique(&mut ids, "4".to_owned());
    assert_eq!(ids, vec!["0", "1", "2", "3", "4"]);
}
