use steam_tools::install::{
    first_steam_dir, looks_like_steam_dir, registry_keys, steam_candidates, DirProbe, Hive,
    SteamCandidate,
};

const NOTHING: DirProbe =
    DirProbe { has_steam_exe: false, has_capital_steam_exe: false, has_plugin_dir: false };

#[test]
fn one_mark_of_an_installation_is_enough() {
    assert!(!looks_like_steam_dir(NOTHING));
    assert!(looks_like_steam_dir(DirProbe { has_steam_exe: true, ..NOTHING }));
    assert!(looks_like_steam_dir(DirProbe { has_capital_steam_exe: true, ..NOTHING }));
    assert!(looks_like_steam_dir(DirProbe { has_plugin_dir: true, ..NOTHING }));
}

#[test]
fn the_environment_is_asked_before_the_fixed_places() {
    let fixed =
        vec![SteamCandidate::DriveC, SteamCandidate::DriveCItalian, SteamCandidate::DriveD];
    assert_eq!(steam_candidates(false, false), fixed);
    let all = steam_candidates(true, true);
    assert_eq!(all[..2], [SteamCandidate::ProgramFilesX86, SteamCandidate::ProgramFiles]);
    assert_eq!(all[2..], fixed);
    assert_eq!(steam_candidates(false, true)[0], SteamCandidate::ProgramFiles);
    assert_eq!(steam_candidates(true, false).len(), 4);
}

#[test]
fn fixed_places_have_their_paths() {
    assert_eq!(SteamCandidate::DriveC.fixed_path(), Some("C:\\Program Files (x86)\\Steam"));
    assert_eq!(SteamCandidate::DriveCItalian.fixed_path(), Some("C:\\Programmi (x86)\\Steam"));
    assert_eq!(SteamCandidate::DriveD.fixed_path(), Some("D:\\Steam"));
    assert_eq!(SteamCandidate::ProgramFiles.fixed_path(), None);
    assert_eq!(SteamCandidate::ProgramFilesX86.fixed_path(), None);
}

#[test]
fn the_first_installation_is_taken() {
    let found = DirProbe { has_plugin_dir: true, ..NOTHING };
    assert_eq!(first_steam_dir(&vec![]), None);
    assert_eq!(first_steam_dir(&vec![NOTHING, NOTHING]), None);
    assert_eq!(first_steam_dir(&vec![NOTHING, found, found]), Some(1));
}

#[test]
fn the_registry_is_asked_in_order() {
    let keys = registry_keys();
    let asked: Vec<(Hive, &str)> = keys.iter().map(|key| (key.hive, key.subkey)).collect();
    assert_eq!(
        asked,
        vec![
            (Hive::LocalMachine, "SOFTWARE\\WOW6432Node\\Valve\\Steam"),
            (Hive::LocalMachine, "SOFTWARE\\Valve\\Steam"),
            (Hive::CurrentUser, "SOFTWARE\\Valve\\Steam"),
        ]
    );
}
