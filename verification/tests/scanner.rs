use steam_tools::fnv::fnv1a_hash;
use steam_tools::pattern::parse_sig;
use steam_tools::pe::PeFile;
use steam_tools::scanner::{
    component_of_file, component_of_lower, file_text, look_up, missing_warning, scan_image,
    scan_section, Component, Lookup, ScanError, ScanReport,
};
use steam_tools::signatures::{get_steamclient_defs, get_steamui_defs, SignatureDefinition};

const TABLE: usize = 0x40 + 24;
const TEXT: usize = 0x200;

fn put32(data: &mut [u8], at: usize, value: u32) {
    data[at..at + 4].copy_from_slice(&value.to_le_bytes());
}

/// An image with one section of the given name, whose contents are `code`.
fn image(name: &[u8], address: u32, code: &[u8]) -> Vec<u8> {
    let mut data = vec![0u8; TEXT];
    data[0..2].copy_from_slice(b"MZ");
    put32(&mut data, 0x3c, 0x40);
    data[0x40..0x44].copy_from_slice(b"PE\0\0");
    data[0x46] = 1;
    data[TABLE..TABLE + name.len()].copy_from_slice(name);
    put32(&mut data, TABLE + 12, address);
    put32(&mut data, TABLE + 16, code.len() as u32);
    put32(&mut data, TABLE + 20, TEXT as u32);
    data.extend_from_slice(code);
    data
}

/// Bytes that a signature matches.
fn bytes_of(sig: &str) -> Vec<u8> {
    parse_sig(sig).iter().map(|entry| entry.unwrap_or(0xAA)).collect()
}

fn report(result: Result<ScanReport, ScanError>) -> ScanReport {
    match result {
        Ok(report) => report,
        Err(_) => panic!("there is no report"),
    }
}

#[test]
fn file_names_tell_the_component() {
    assert_eq!(component_of_file("steamclient64.dll"), Some(Component::SteamClient));
    assert_eq!(component_of_file("SteamUI.dll"), Some(Component::SteamUi));
    assert_eq!(component_of_file("STEAMCLIENT64.DLL"), Some(Component::SteamClient));
    assert_eq!(component_of_file("old_steamui_steamclient.dll"), Some(Component::SteamUi));
    assert_eq!(component_of_file("tier0_s.dll"), None);
    assert_eq!(component_of_file(""), None);
    assert_eq!(component_of_file("STEAM\u{130}UI"), None);
    assert_eq!(component_of_file("\u{c9}-SteamClient"), Some(Component::SteamClient));
    assert_eq!(component_of_lower("SteamUI.dll"), None);
    assert_eq!(component_of_lower("steamui.dll"), Some(Component::SteamUi));
}

#[test]
fn components_have_their_directories_and_tables() {
    assert_eq!(Component::SteamClient.dir_name(), "steamclient");
    assert_eq!(Component::SteamUi.dir_name(), "steamui");
    assert_eq!(Component::SteamClient.definitions().len(), get_steamclient_defs().len());
    assert_eq!(Component::SteamUi.definitions()[4].name, "GetAppByID");
}

#[test]
fn a_found_function_has_its_entry() {
    let mut code = vec![0x90u8; 0x100];
    let wanted = bytes_of("89 54 24 10 53 48 83 EC 40 48 8B 05 ?? ?? ?? ??");
    code[0x23..0x23 + wanted.len()].copy_from_slice(&wanted);
    let report = report(scan_image(&image(b".text", 0x1000, &code), Component::SteamUi));
    assert_eq!(
        report.lines,
        vec![
            format!("[{:#010X}]", fnv1a_hash("GetAppByID")),
            "name = \"GetAppByID\"".to_owned(),
            "rva = \"0x1023\"".to_owned(),
            "sig = \"89 54 24 10 53 48 83 EC 40 48 8B 05 ?? ?? ?? ??\"".to_owned(),
            String::new(),
        ]
    );
    assert_eq!(report.missing.len(), 8);
    assert!(!report.missing.contains(&"GetAppByID".to_owned()));
    assert_eq!(
        file_text(&report.lines),
        format!(
            "[{:#010X}]\nname = \"GetAppByID\"\nrva = \"0x1023\"\n\
             sig = \"89 54 24 10 53 48 83 EC 40 48 8B 05 ?? ?? ?? ??\"\n\n",
            fnv1a_hash("GetAppByID")
        )
    );
}

#[test]
fn the_first_signature_that_occurs_is_reported() {
    let second = "89 54 24 10 56 48 83 EC 40 48 8B 05 ?? ?? ?? ??";
    let mut code = bytes_of(second);
    code.extend(bytes_of("89 54 24 10 53 48 83 EC 40 48 8B 05 ?? ?? ?? ??"));
    let both = report(scan_image(&image(b".text", 0, &code), Component::SteamUi));
    assert_eq!(both.lines[2], "rva = \"0x10\"");
    assert_eq!(both.lines[3], "sig = \"89 54 24 10 53 48 83 EC 40 48 8B 05 ?? ?? ?? ??\"");
    let only = report(scan_image(&image(b".text", 0, &bytes_of(second)), Component::SteamUi));
    assert_eq!(only.lines[2], "rva = \"0x0\"");
    assert_eq!(only.lines[3], format!("sig = \"{second}\""));
}

#[test]
fn every_function_is_found_or_missing() {
    for component in [Component::SteamClient, Component::SteamUi] {
        let defs = component.definitions();
        let mut code = Vec::new();
        for def in defs.iter() {
            code.extend(bytes_of(def.sigs[0]));
        }
        let full = report(scan_image(&image(b".text", 0x1000, &code), component));
        assert_eq!(full.lines.len(), 5 * defs.len());
        assert!(full.missing.is_empty());
        for (i, def) in defs.iter().enumerate() {
            assert_eq!(full.lines[5 * i], format!("[{:#010X}]", fnv1a_hash(def.name)));
            assert_eq!(full.lines[5 * i + 1], format!("name = \"{}\"", def.name));
            assert_eq!(full.lines[5 * i + 3], format!("sig = \"{}\"", def.sigs[0]));
        }
        let empty = report(scan_image(&image(b".text", 0x1000, &[]), component));
        assert!(empty.lines.is_empty());
        let names: Vec<&str> = defs.iter().map(|def| def.name).collect();
        assert_eq!(empty.missing, names);
        assert_eq!(file_text(&empty.lines), "");
    }
}

#[test]
fn each_scan_error_has_an_input() {
    assert!(matches!(
        scan_image(b"MZ", Component::SteamUi),
        Err(ScanError::NotAnImage("File too small for DOS header"))
    ));
    assert!(matches!(
        scan_image(&image(b".data", 0, &[1, 2]), Component::SteamUi),
        Err(ScanError::NoTextSection)
    ));
    let cut = image(b".text", 0, &[1, 2]);
    assert!(matches!(
        scan_image(&cut[..cut.len() - 1], Component::SteamUi),
        Err(ScanError::TextBeyondFile)
    ));
    let code = bytes_of(get_steamui_defs()[0].sigs[0]);
    let mut late = vec![0u8; 0x10];
    late.extend(&code);
    assert!(matches!(
        scan_image(&image(b".text", 0xFFFF_FFF0, &late), Component::SteamUi),
        Err(ScanError::AddressOverflow)
    ));
    let fits = report(scan_image(&image(b".text", 0xFFFF_FFF0, &code), Component::SteamUi));
    assert_eq!(fits.lines[2], "rva = \"0xFFFFFFF0\"");
}

#[test]
fn one_function_is_looked_up() {
    let data = image(b".text", 0x2000, &[1, 2, 3, 4]);
    let pe = PeFile::parse(&data).unwrap();
    let text = pe.section_data(0);
    let def = SignatureDefinition { name: "f", sigs: vec!["09", "03 ??", "02"] };
    match look_up(&pe, TEXT, text, &def) {
        Lookup::Found { sig, rva } => assert_eq!((sig, rva), ("03 ??", 0x2002)),
        _ => panic!("the function is there"),
    }
    let none = SignatureDefinition { name: "g", sigs: vec!["04 ??", "zz"] };
    assert!(matches!(look_up(&pe, TEXT, text, &none), Lookup::Missing));
    let report = scan_section(&pe, 0, &vec![def, none]).unwrap();
    assert_eq!(report.lines[1], "name = \"f\"");
    assert_eq!(report.missing, vec!["g"]);
    assert_eq!(
        missing_warning(&report.missing[0]),
        "[WARNING] Could not find pattern for function: g"
    );
}
