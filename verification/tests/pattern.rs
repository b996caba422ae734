use steam_tools::pattern::{parse_byte, parse_sig, scan_pattern, wildcard};
use steam_tools::signatures::{get_steamclient_defs, get_steamui_defs};

fn chars(text: &str) -> Vec<char> {
    text.chars().collect()
}

#[test]
fn bytes_are_read_as_the_standard_library_reads_them() {
    let tokens = [
        "0", "00", "7F", "ff", "FF", "100", "0FF", "00000000000000000000FF", "1FF", "+", "-", "+1",
        "-0", "-1", "++1", "+FF", "+100", "g", "0x1", "F?", "?", "\u{e9}", "1 2", "fffffffffffffffffff",
    ];
    for token in tokens {
        let expected = u8::from_str_radix(token, 16).ok();
        assert_eq!(parse_byte(&chars(token)), expected, "{token}");
    }
    assert_eq!(parse_byte(&[]), None);
}

#[test]
fn wildcards_are_one_or_two_question_marks() {
    assert!(wildcard(&chars("?")));
    assert!(wildcard(&chars("??")));
    assert!(!wildcard(&chars("???")));
    assert!(!wildcard(&chars("?F")));
    assert!(!wildcard(&chars("")));
}

#[test]
fn a_pointer_load_with_wildcards_is_read() {
    let pattern = parse_sig("48 8D 05 ?? ?? ?? ??");
    assert_eq!(pattern, vec![Some(0x48), Some(0x8D), Some(0x05), None, None, None, None]);
    let data = [0x90, 0x48, 0x8D, 0x05, 0x12, 0x34, 0x56, 0x07, 0xC3];
    assert_eq!(scan_pattern(&data, &pattern), Some(1));
}

#[test]
fn other_tokens_are_skipped() {
    assert_eq!(parse_sig("48 XX 8b zz 100 ?"), vec![Some(0x48), Some(0x8B), None]);
    assert_eq!(parse_sig("  \t "), vec![]);
}

#[test]
fn the_first_match_is_found() {
    let data = [1, 2, 3, 1, 2, 4];
    assert_eq!(scan_pattern(&data, &[Some(1), Some(2)]), Some(0));
    assert_eq!(scan_pattern(&data, &[Some(2), Some(4)]), Some(4));
    assert_eq!(scan_pattern(&data, &[Some(1), None, Some(4)]), Some(3));
    assert_eq!(scan_pattern(&data, &[Some(2), Some(4), None]), None);
    assert_eq!(scan_pattern(&data, &[None]), Some(0));
}

#[test]
fn empty_and_long_patterns_match_nothing() {
    assert_eq!(scan_pattern(&[1, 2], &[]), None);
    assert_eq!(scan_pattern(&[], &[]), None);
    assert_eq!(scan_pattern(&[1], &[Some(1), None]), None);
    assert_eq!(scan_pattern(&[1, 2], &[Some(1), Some(2)]), Some(0));
}

#[test]
fn a_wildcard_in_place_of_a_byte_keeps_the_match() {
    let data = [9, 8, 7, 6];
    assert_eq!(scan_pattern(&data, &[Some(8), Some(7), Some(6)]), Some(1));
    assert_eq!(scan_pattern(&data, &[Some(8), None, Some(6)]), Some(1));
    assert_eq!(scan_pattern(&data, &[None, None, None]), Some(0));
}

#[test]
fn a_shorter_signature_is_found_no_later() {
    let data = [5, 1, 0, 1, 2, 3];
    let long = scan_pattern(&data, &[Some(1), Some(2), Some(3)]).unwrap();
    let short = scan_pattern(&data, &[Some(1)]).unwrap();
    assert_eq!((short, long), (1, 3));
}

#[test]
fn signatures_concatenate_and_are_spelled_back() {
    let whole = parse_sig("48 8B ?? 0F");
    let mut parts = parse_sig("48 8B");
    parts.extend(parse_sig("?? 0F"));
    assert_eq!(whole, parts);
    let pattern: Vec<Option<u8>> = (0..=255u8).map(Some).chain([None]).collect();
    let spelled: Vec<String> = pattern
        .iter()
        .map(|entry| match entry {
            Some(byte) => format!("{byte:02X}"),
            None => "??".to_owned(),
        })
        .collect();
    assert_eq!(parse_sig(&spelled.join(" ")), pattern);
    assert_eq!(parse_sig(&spelled.join(" ").to_lowercase()), pattern);
    assert_eq!(parse_sig(&spelled.join(" ").replace("??", "?")), pattern);
}

#[test]
fn every_token_of_the_tables_is_read() {
    for def in get_steamclient_defs().iter().chain(get_steamui_defs().iter()) {
        assert!(!def.sigs.is_empty());
        for sig in &def.sigs {
            assert_eq!(parse_sig(sig).len(), sig.split_whitespace().count(), "{}", def.name);
            assert!(parse_sig(sig)[0].is_some(), "{}", def.name);
        }
    }
}

#[test]
fn the_tables_hold_the_known_functions() {
    let client = get_steamclient_defs();
    let ui = get_steamui_defs();
    assert_eq!((client.len(), ui.len()), (26, 9));
    assert_eq!(client[0].name, "BBuildAndAsyncSendFrame");
    assert_eq!(
        client[0].sigs,
        vec![
            "48 8B C4 55 48 8D 68 A1 48 81 EC C0 00 00 00 48 89 70 18",
            "48 8B C4 55 48 8D 68 A1 48 81 EC C0 00 00 00",
        ]
    );
    let names: Vec<&str> = ui.iter().map(|def| def.name).collect();
    assert_eq!(
        names,
        vec![
            "AddProtobufAsBinary",
            "BuildCompleteAppOverviewChange",
            "CSteamUIAppControllerRunFrame",
            "FillInAppOverview",
            "GetAppByID",
            "LoadModuleWithPath",
            "MarkAppChange",
            "RepeatedFieldUint32_Add",
            "ShouldShowAppInLibrary",
        ]
    );
    assert!(!names.contains(&"GetTopManager"));
    assert_eq!(ui[8].sigs, vec!["40 53 48 83 EC 20 48 8B 01 48 8B D9 FF 10 3D D6 0C 09 00"]);
}

#[test]
fn no_function_occurs_twice() {
    let (client, ui) = (get_steamclient_defs(), get_steamui_defs());
    let mut names: Vec<&str> = client.iter().chain(ui.iter()).map(|def| def.name).collect();
    names.sort();
    names.dedup();
    assert_eq!(names.len(), client.len() + ui.len());
}
