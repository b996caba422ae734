//! Where to look for the Steam installation.
use vstd::prelude::*;

verus! {

/// What was found in a directory that may be an installation.
#[derive(Clone, Copy, Debug, PartialEq, Eq)]
pub struct DirProbe {
    /// There is a `steam.exe`.
    pub has_steam_exe: bool,
    /// There is a `Steam.exe`.
    pub has_capital_steam_exe: bool,
    /// There is a `config/stplug-in`.
    pub has_plugin_dir: bool,
}

/// The directory has at least one of the marks of an installation.
pub open spec fn is_steam_dir(probe: DirProbe) -> bool {
    probe.has_steam_exe || probe.has_capital_steam_exe || probe.has_plugin_dir
}

/// Tests whether a directory looks like an installation.
pub fn looks_like_steam_dir(probe: DirProbe) -> (r: bool)
    ensures
        r == is_steam_dir(probe),
{
    probe.has_steam_exe || probe.has_capital_steam_exe || probe.has_plugin_dir
}

/// A place to look for the installation.
#[derive(Clone, Copy, Debug, PartialEq, Eq)]
pub enum SteamCandidate {
    /// `Steam` in the directory that the variable `ProgramFiles(x86)` names.
    ProgramFilesX86,
    /// `Steam` in the directory that the variable `ProgramFiles` names.
    ProgramFiles,
    /// `Program Files (x86)\Steam` on drive C.
    DriveC,
    /// `Programmi (x86)\Steam` on drive C.
    DriveCItalian,
    /// `Steam` on drive D.
    DriveD,
}

impl SteamCandidate {
    /// The path of a candidate that does not depend on the environment.
    pub fn fixed_path(self) -> (r: Option<&'static str>)
        ensures
            match r {
                Some(path) => match self {
                    SteamCandidate::DriveC => path@ == "C:\\Program Files (x86)\\Steam"@,
                    SteamCandidate::DriveCItalian => path@ == "C:\\Programmi (x86)\\Steam"@,
                    SteamCandidate::DriveD => path@ == "D:\\Steam"@,
                    _ => false,
                },
                None => self is ProgramFilesX86 || self is ProgramFiles,
            },
    {
        match self {
            SteamCandidate::ProgramFilesX86 => None,
            SteamCandidate::ProgramFiles => None,
            SteamCandidate::DriveC => Some("C:\\Program Files (x86)\\Steam"),
            SteamCandidate::DriveCItalian => Some("C:\\Programmi (x86)\\Steam"),
            SteamCandidate::DriveD => Some("D:\\Steam"),
        }
    }
}

/// The places to look for the installation, in order. The flags tell which variables of
/// the environment are set.
pub open spec fn candidate_order(x86_set: bool, files_set: bool) -> Seq<SteamCandidate> {
    let x86 = if x86_set {
        seq![SteamCandidate::ProgramFilesX86]
    } else {
        Seq::empty()
    };
    let files = if files_set {
        seq![SteamCandidate::ProgramFiles]
    } else {
        Seq::empty()
    };
    x86 + files + seq![
        SteamCandidate::DriveC,
        SteamCandidate::DriveCItalian,
        SteamCandidate::DriveD,
    ]
}

/// The places to look for the installation, in order.
pub fn steam_candidates(x86_set: bool, files_set: bool) -> (r: Vec<SteamCandidate>)
    ensures
        r@ == candidate_order(x86_set, files_set),
{
    let mut candidates: Vec<SteamCandidate> = Vec::new();
    if x86_set {
        candidates.push(SteamCandidate::ProgramFilesX86);
    }
    if files_set {
        candidates.push(SteamCandidate::ProgramFiles);
    }
    candidates.push(SteamCandidate::DriveC);
    candidates.push(SteamCandidate::DriveCItalian);
    candidates.push(SteamCandidate::DriveD);
    assert(candidates@ =~= candidate_order(x86_set, files_set));
    candidates
}

/// The first of the places that looks like an installation; `probes` are what was found
/// there.
pub fn first_steam_dir(probes: &Vec<DirProbe>) -> (r: Option<usize>)
    ensures
        match r {
            Some(i) => {
                &&& i < probes@.len()
                &&& is_steam_dir(probes@[i as int])
                &&& forall|k: int| 0 <= k < i ==> !is_steam_dir(#[trigger] probes@[k])
            },
            None => forall|k: int| 0 <= k < probes@.len() ==> !is_steam_dir(#[trigger] probes@[k]),
        },
{
    let mut i: usize = 0;
    while i < probes.len()
        invariant
            i <= probes@.len(),
            forall|k: int| 0 <= k < i ==> !is_steam_dir(#[trigger] probes@[k]),
        decreases probes@.len() - i,
    {
        if looks_like_steam_dir(probes[i]) {
            return Some(i);
        }
        i += 1;
    }
    None
}

/// A part of the registry.
#[derive(Clone, Copy, Debug, PartialEq, Eq)]
pub enum Hive {
    LocalMachine,
    CurrentUser,
}

/// A key of the registry whose value `InstallPath` may name the installation.
pub struct RegistryKey {
    pub hive: Hive,
    pub subkey: &'static str,
}

/// The registry keys to ask, in order.
pub fn registry_keys() -> (keys: Vec<RegistryKey>)
    ensures
        keys@.len() == 3,
        keys@[0].hive is LocalMachine && keys@[0].subkey@ == "SOFTWARE\\WOW6432Node\\Valve\\Steam"@,
        keys@[1].hive is LocalMachine && keys@[1].subkey@ == "SOFTWARE\\Valve\\Steam"@,
        keys@[2].hive is CurrentUser && keys@[2].subkey@ == "SOFTWARE\\Valve\\Steam"@,
{
    vec![
        RegistryKey { hive: Hive::LocalMachine, subkey: "SOFTWARE\\WOW6432Node\\Valve\\Steam" },
        RegistryKey { hive: Hive::LocalMachine, subkey: "SOFTWARE\\Valve\\Steam" },
        RegistryKey { hive: Hive::CurrentUser, subkey: "SOFTWARE\\Valve\\Steam" },
    ]
}

/// One mark is enough for an installation, whatever the others are, and without any there is
/// none.
pub proof fn law_one_mark_is_enough(probe: DirProbe)
    ensures
        is_steam_dir(DirProbe { has_steam_exe: true, ..probe }),
        is_steam_dir(DirProbe { has_capital_steam_exe: true, ..probe }),
        is_steam_dir(DirProbe { has_plugin_dir: true, ..probe }),
        is_steam_dir(probe) ==> probe.has_steam_exe || probe.has_capital_steam_exe
            || probe.has_plugin_dir,
{
}

/// The places on the drives come last, in a fixed order; before them come the places that
/// the environment names, as far as it does, the one for 32-bit programs first.
pub proof fn law_places_come_in_order(x86_set: bool, files_set: bool)
    ensures
        candidate_order(x86_set, files_set).len() == 3 + (if x86_set {
            1int
        } else {
            0
        }) + (if files_set {
            1int
        } else {
            0
        }),
        candidate_order(x86_set, files_set).skip(candidate_order(x86_set, files_set).len() - 3)
            == seq![
            SteamCandidate::DriveC,
            SteamCandidate::DriveCItalian,
            SteamCandidate::DriveD,
        ],
        x86_set ==> candidate_order(x86_set, files_set)[0] is ProgramFilesX86,
        files_set && !x86_set ==> candidate_order(x86_set, files_set)[0] is ProgramFiles,
        files_set && x86_set ==> candidate_order(x86_set, files_set)[1] is ProgramFiles,
{
    let order = candidate_order(x86_set, files_set);
    assert(order.skip(order.len() - 3) =~= seq![
        SteamCandidate::DriveC,
        SteamCandidate::DriveCItalian,
        SteamCandidate::DriveD,
    ]);
}

} // verus!
