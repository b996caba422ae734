//! The choices that a session offers: where to download from, what to run, and which
//! field takes the input.
use vstd::prelude::*;

verus! {

/// Where manifests are downloaded from.
#[derive(Clone, Copy, Debug, PartialEq, Eq, Structural)]
pub enum DownloadMode {
    Github,
    GithubExternal,
}

/// What a run covers: the Lua file of one app, or every Lua file.
#[derive(Clone, Copy, Debug, PartialEq, Eq, Structural)]
pub enum RunMode {
    SingleApp,
    FullRebase,
}

/// The field that takes the input.
#[derive(Clone, Copy, Debug, PartialEq, Eq, Structural)]
pub enum FocusField {
    AppId,
    ApiKey,
}

impl DownloadMode {
    /// The text that names the mode.
    pub open spec fn label_text(self) -> Seq<char> {
        match self {
            DownloadMode::Github => "GitHub only"@,
            DownloadMode::GithubExternal => "GitHub + External Site"@,
        }
    }

    /// Only the external site asks for a key.
    pub open spec fn wants_api_key(self) -> bool {
        self != DownloadMode::Github
    }

    /// The mode that follows in the cycle of all modes.
    pub open spec fn following(self) -> DownloadMode {
        match self {
            DownloadMode::Github => DownloadMode::GithubExternal,
            DownloadMode::GithubExternal => DownloadMode::Github,
        }
    }

    /// The text that names the mode.
    pub fn label(self) -> (r: &'static str)
        ensures
            r@ == self.label_text(),
    {
        match self {
            DownloadMode::Github => "GitHub only",
            DownloadMode::GithubExternal => "GitHub + External Site",
        }
    }

    /// Whether the mode needs an API key.
    pub fn needs_api_key(self) -> (r: bool)
        ensures
            r == self.wants_api_key(),
    {
        !matches!(self, DownloadMode::Github)
    }

    /// The mode that follows in the cycle of all modes.
    pub fn next(self) -> (r: DownloadMode)
        ensures
            r == self.following(),
    {
        match self {
            DownloadMode::Github => DownloadMode::GithubExternal,
            DownloadMode::GithubExternal => DownloadMode::Github,
        }
    }
}

impl RunMode {
    /// The text that names the mode.
    pub open spec fn label_text(self) -> Seq<char> {
        match self {
            RunMode::SingleApp => "Single App"@,
            RunMode::FullRebase => "Full Rebase"@,
        }
    }

    /// Only a run for one app asks for its id.
    pub open spec fn wants_app_id(self) -> bool {
        self == RunMode::SingleApp
    }

    /// The mode that follows in the cycle of all modes.
    pub open spec fn following(self) -> RunMode {
        match self {
            RunMode::SingleApp => RunMode::FullRebase,
            RunMode::FullRebase => RunMode::SingleApp,
        }
    }

    /// The text that names the mode.
    pub fn label(self) -> (r: &'static str)
        ensures
            r@ == self.label_text(),
    {
        match self {
            RunMode::SingleApp => "Single App",
            RunMode::FullRebase => "Full Rebase",
        }
    }

    /// The mode that follows in the cycle of all modes.
    pub fn next(self) -> (r: RunMode)
        ensures
            r == self.following(),
    {
        match self {
            RunMode::SingleApp => RunMode::FullRebase,
            RunMode::FullRebase => RunMode::SingleApp,
        }
    }

    /// Whether the mode needs an app id.
    pub fn needs_app_id(self) -> (r: bool)
        ensures
            r == self.wants_app_id(),
    {
        matches!(self, RunMode::SingleApp)
    }
}

impl FocusField {
    /// The field that the focus moves to. Where both fields are asked for they
    /// alternate; where one is, that one has the focus; where none is, the first has.
    pub open spec fn following(self, source_mode: DownloadMode, run_mode: RunMode) -> FocusField {
        if !source_mode.wants_api_key() {
            FocusField::AppId
        } else if !run_mode.wants_app_id() || self == FocusField::AppId {
            FocusField::ApiKey
        } else {
            FocusField::AppId
        }
    }

    /// The field that the focus moves to.
    pub fn next(self, source_mode: DownloadMode, run_mode: RunMode) -> (r: FocusField)
        ensures
            r == self.following(source_mode, run_mode),
    {
        match (run_mode.needs_app_id(), source_mode.needs_api_key(), self) {
            (true, false, _) => FocusField::AppId,
            (false, true, _) => FocusField::ApiKey,
            (false, false, _) => FocusField::AppId,
            (true, true, FocusField::AppId) => FocusField::ApiKey,
            (true, true, FocusField::ApiKey) => FocusField::AppId,
        }
    }
}

/// The field that has the focus when the modes have just been chosen.
pub open spec fn initial_focus(mode: DownloadMode, run_mode: RunMode) -> FocusField {
    if run_mode.wants_app_id() || !mode.wants_api_key() {
        FocusField::AppId
    } else {
        FocusField::ApiKey
    }
}

/// The field that has the focus when the modes have just been chosen.
pub fn first_focus(mode: DownloadMode, run_mode: RunMode) -> (r: FocusField)
    ensures
        r == initial_focus(mode, run_mode),
{
    if run_mode.needs_app_id() {
        FocusField::AppId
    } else if mode.needs_api_key() {
        FocusField::ApiKey
    } else {
        FocusField::AppId
    }
}

/// Stepping through the modes comes back to the start after all of them.
pub proof fn law_modes_cycle(mode: DownloadMode, run_mode: RunMode)
    ensures
        mode.following() != mode,
        mode.following().following() == mode,
        run_mode.following() != run_mode,
        run_mode.following().following() == run_mode,
{
}

/// The focus never moves to the API key where no key is asked for, and where both fields
/// are asked for it reaches each of them.
pub proof fn law_focus_follows_the_modes(field: FocusField, mode: DownloadMode, run_mode: RunMode)
    ensures
        field.following(mode, run_mode) == FocusField::ApiKey ==> mode.wants_api_key(),
        mode.wants_api_key() && run_mode.wants_app_id() ==> field.following(mode, run_mode) != field,
{
}

/// What each mode asks for and what it is called.
pub proof fn law_modes_ask_for_their_input(mode: DownloadMode, run_mode: RunMode)
    ensures
        mode.wants_api_key() <==> mode is GithubExternal,
        run_mode.wants_app_id() <==> run_mode is SingleApp,
        mode.label_text() == (if mode is Github {
            "GitHub only"@
        } else {
            "GitHub + External Site"@
        }),
        run_mode.label_text() == (if run_mode is SingleApp {
            "Single App"@
        } else {
            "Full Rebase"@
        }),
        initial_focus(mode, run_mode) is ApiKey <==> mode is GithubExternal && run_mode
            is FullRebase,
{
}

} // verus!
