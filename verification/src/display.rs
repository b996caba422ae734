//! What the screen shows of a session: texts, rows and emphasis.
use crate::modes::{FocusField, RunMode};
use crate::session::{App, RunSummary};
use crate::session::{AppView, SummaryView};
use crate::text::{begins_with, decimal, law_padding_keeps_the_number, newest, texts, zero_padded};
use crate::text::{decimal_text, join2, join3, keep_newest, text_begins, zero_pad};
use vstd::prelude::*;

verus! {

// ---------------------------------------------------------------------------
// Texts
// ---------------------------------------------------------------------------

/// A path that is too long is shown by its end, after three dots.
pub open spec fn truncated(path: Seq<char>, max_len: nat) -> Seq<char> {
    if path.len() <= max_len {
        path
    } else {
        let keep = if max_len >= 3 {
            max_len - 3
        } else {
            0
        };
        "..."@ + path.skip(path.len() - keep)
    }
}

/// Shortens a path to `max_len` characters, keeping its end.
pub fn truncate_path(path: &str, max_len: usize) -> (r: String)
    ensures
        r@ == truncated(path@, max_len as nat),
{
    let len: usize = path.unicode_len();
    if len <= max_len {
        path.to_owned()
    } else {
        let keep: usize = max_len.saturating_sub(3);
        join2("...", path.substring_char(len - keep, len))
    }
}

/// Minutes and seconds, each with at least two digits.
pub open spec fn elapsed_text(total_seconds: nat) -> Seq<char> {
    zero_padded(decimal(total_seconds / 60), 2) + ":"@ + zero_padded(decimal(total_seconds % 60), 2)
}

/// Writes a number of seconds as minutes and seconds.
pub fn format_elapsed(total_seconds: u64) -> (r: String)
    ensures
        r@ == elapsed_text(total_seconds as nat),
{
    let minutes: String = decimal_text(total_seconds / 60);
    let minutes: String = zero_pad(minutes.as_str(), 2);
    let seconds: String = decimal_text(total_seconds % 60);
    let seconds: String = zero_pad(seconds.as_str(), 2);
    join3(minutes.as_str(), ":", seconds.as_str())
}

/// How a number of bytes is shown: as it is, or divided by `divisor` and followed by
/// `unit`.
pub enum SizeLabel {
    Plain(String),
    Scaled { divisor: u64, unit: &'static str },
}

/// Chooses the unit for a number of bytes.
pub fn size_label(bytes: u64) -> (r: SizeLabel)
    ensures
        match r {
            SizeLabel::Plain(text) => bytes < 1024 && text@ == decimal(bytes as nat) + " B"@,
            SizeLabel::Scaled { divisor, unit } => if bytes < 1024 * 1024 {
                bytes >= 1024 && divisor == 1024 && unit@ == "KB"@
            } else {
                divisor == 1024 * 1024 && unit@ == "MB"@
            },
        },
{
    if bytes >= 1024 * 1024 {
        SizeLabel::Scaled { divisor: 1024 * 1024, unit: "MB" }
    } else if bytes >= 1024 {
        SizeLabel::Scaled { divisor: 1024, unit: "KB" }
    } else {
        let digits: String = decimal_text(bytes);
        SizeLabel::Plain(join2(digits.as_str(), " B"))
    }
}

/// The number of errors that a run remembers.
pub const ERROR_LIMIT: usize = 4;

/// Adds an error; only the newest errors are kept.
pub fn push_recent_error(errors: &mut Vec<String>, message: String)
    ensures
        final(errors)@ == newest(old(errors)@.push(message), ERROR_LIMIT as nat),
        texts(final(errors)@) == newest(texts(old(errors)@).push(message@), ERROR_LIMIT as nat),
        old(errors)@.len() < 4 ==> final(errors)@ == old(errors)@ + seq![message],
        old(errors)@.len() >= 4 ==> final(errors)@ == old(errors)@.skip(old(errors)@.len() - 3)
            + seq![message],
{
    proof {
        crate::text::lemma_texts_push(errors@, message);
        crate::text::lemma_texts_newest(errors@.push(message), ERROR_LIMIT as nat);
    }
    errors.push(message);
    keep_newest(errors, ERROR_LIMIT);
}

// ---------------------------------------------------------------------------
// The log
// ---------------------------------------------------------------------------

/// The kind of a log line, which its first three characters tell.
#[derive(Clone, Copy, Debug, PartialEq, Eq, Structural)]
pub enum LogLevel {
    Success,
    Error,
    Warning,
    Info,
    Plain,
}

/// The kind of a log line.
pub fn log_level(line: &str) -> (r: LogLevel)
    ensures
        r == (if begins_with(line@, "[+]"@) {
            LogLevel::Success
        } else if begins_with(line@, "[-]"@) {
            LogLevel::Error
        } else if begins_with(line@, "[!]"@) {
            LogLevel::Warning
        } else if begins_with(line@, "[*]"@) {
            LogLevel::Info
        } else {
            LogLevel::Plain
        }),
{
    if text_begins(line, "[+]") {
        LogLevel::Success
    } else if text_begins(line, "[-]") {
        LogLevel::Error
    } else if text_begins(line, "[!]") {
        LogLevel::Warning
    } else if text_begins(line, "[*]") {
        LogLevel::Info
    } else {
        LogLevel::Plain
    }
}

/// The log lines that are shown in a panel of the given height, the newest last; two
/// rows go to the border.
pub fn visible_logs(logs: &Vec<String>, height: u16) -> (r: Vec<String>)
    ensures
        texts(r@) == newest(
            texts(logs@),
            if height >= 2 {
                (height - 2) as nat
            } else {
                0
            },
        ),
{
    let rows: usize = height.saturating_sub(2) as usize;
    let start: usize = if logs.len() > rows {
        logs.len() - rows
    } else {
        0
    };
    let mut out: Vec<String> = Vec::new();
    let mut i: usize = start;
    while i < logs.len()
        invariant
            start <= i <= logs@.len(),
            out@.len() == i - start,
            forall|k: int| 0 <= k < out@.len() ==> (#[trigger] out@[k])@ == logs@[start + k]@,
        decreases logs@.len() - i,
    {
        out.push(logs[i].clone());
        i += 1;
    }
    assert(texts(out@) =~= newest(texts(logs@), rows as nat));
    out
}

// ---------------------------------------------------------------------------
// The controls
// ---------------------------------------------------------------------------

/// The number of characters by which a key is hidden at most.
pub const MASK_LIMIT: usize = 16;

/// What is shown in place of an API key of `len` bytes: stars, and three dots where the
/// key is longer than what is shown.
pub open spec fn masked(len: nat) -> Seq<char> {
    if len > MASK_LIMIT {
        Seq::new(MASK_LIMIT as nat, |i: int| '*') + "..."@
    } else {
        Seq::new(len, |i: int| '*')
    }
}

/// What is shown as the API key.
pub open spec fn api_key_text(app: AppView) -> Seq<char> {
    if !app.mode.wants_api_key() {
        "not required"@
    } else if app.api_key.len() == 0 {
        "<empty>"@
    } else {
        masked(vstd::utf8::encode_utf8(app.api_key).len())
    }
}

/// What is shown as the API key; the key itself is not.
pub fn api_key_display(app: &App) -> (r: String)
    ensures
        r@ == api_key_text(app@),
{
    if !app.mode.needs_api_key() {
        return "not required".to_owned();
    }
    if app.api_key.as_str().is_empty() {
        return "<empty>".to_owned();
    }
    let len: usize = app.api_key.as_str().as_bytes().len();
    let stars: usize = if len < MASK_LIMIT {
        len
    } else {
        MASK_LIMIT
    };
    let mut out: String = String::new();
    let mut i: usize = 0;
    while i < stars
        invariant
            i <= stars,
            out@ == Seq::new(i as nat, |k: int| '*'),
        decreases stars - i,
    {
        out.push('*');
        i += 1;
        assert(out@ =~= Seq::new(i as nat, |k: int| '*'));
    }
    if len > MASK_LIMIT {
        out.append("...");
    }
    out
}

/// What is shown as the app id.
pub fn app_id_display(app: &App) -> (r: String)
    ensures
        r@ == (if app@.app_id.len() == 0 {
            "<enter app id>"@
        } else {
            app@.app_id
        }),
{
    if app.app_id.as_str().is_empty() {
        "<enter app id>".to_owned()
    } else {
        app.app_id.clone()
    }
}

/// What is shown as the scope of a run over every Lua file.
pub fn scope_display(app: &App) -> (r: String)
    ensures
        r@ == (match app@.lua_dir {
            Some(path) => "Every .lua file in "@ + path,
            None => "Every .lua file in Steam\\config\\stplug-in"@,
        }),
{
    match &app.lua_dir {
        Some(path) => join2("Every .lua file in ", path.as_str()),
        None => "Every .lua file in Steam\\config\\stplug-in".to_owned(),
    }
}

/// Whether the app id is shown as the field that takes the input.
pub fn app_id_focused(app: &App) -> (r: bool)
    ensures
        r == (app@.focus == FocusField::AppId && app@.run_mode.wants_app_id()),
{
    app.focus == FocusField::AppId && app.run_mode.needs_app_id()
}

/// Whether the API key is shown as the field that takes the input.
pub fn api_key_focused(app: &App) -> (r: bool)
    ensures
        r == (app@.focus == FocusField::ApiKey),
{
    app.focus == FocusField::ApiKey
}

/// The name of the field that has the focus.
pub fn focus_label(focus: FocusField, run_mode: RunMode) -> (r: &'static str)
    ensures
        r@ == (match (focus, run_mode) {
            (FocusField::AppId, RunMode::SingleApp) => "AppID field"@,
            (FocusField::AppId, RunMode::FullRebase) => "Batch scope"@,
            (FocusField::ApiKey, _) => "API key field"@,
        }),
{
    match (focus, run_mode) {
        (FocusField::AppId, RunMode::SingleApp) => "AppID field",
        (FocusField::AppId, RunMode::FullRebase) => "Batch scope",
        (FocusField::ApiKey, _) => "API key field",
    }
}

/// The progress as it is shown.
pub fn progress_label(progress: u16) -> (r: String)
    ensures
        r@ == decimal(progress as nat) + "%"@,
{
    let digits: String = decimal_text(progress as u64);
    join2(digits.as_str(), "%")
}

// ---------------------------------------------------------------------------
// The summary
// ---------------------------------------------------------------------------

/// The labels of the summary, from top to bottom.
pub open spec fn summary_labels() -> Seq<Seq<char>> {
    seq![
        "Target"@,
        "Apps"@,
        "Lua files"@,
        "Failed apps"@,
        "Queued depots"@,
        "Unique depots"@,
        "Downloaded"@,
        "Skipped"@,
        "Unavailable"@,
        "Failed"@,
        "Download size"@,
        "Elapsed"@,
        "Steam"@,
        "Output"@,
    ]
}

/// The number of characters of a path that the summary shows.
pub const SUMMARY_PATH_LEN: usize = 30;

/// The values of the summary, from top to bottom; a dash for each where there was no
/// run. `size` is the download size as it is shown.
pub open spec fn summary_values(summary: Option<SummaryView>, size: Seq<char>) -> Seq<Seq<char>> {
    match summary {
        Some(s) => seq![
            s.target_label,
            decimal(s.app_count as nat),
            decimal(s.lua_files as nat),
            decimal(s.failed_apps as nat),
            decimal(s.total as nat),
            decimal(s.depot_ids.len()),
            decimal(s.downloaded as nat),
            decimal(s.skipped as nat),
            decimal(s.unavailable as nat),
            decimal(s.failed as nat),
            size,
            s.elapsed,
            truncated(s.steam_path, SUMMARY_PATH_LEN as nat),
            truncated(s.output_path, SUMMARY_PATH_LEN as nat),
        ],
        None => Seq::new(14, |i: int| "-"@),
    }
}

/// One row of the summary.
pub struct SummaryRow {
    pub label: &'static str,
    pub value: String,
}

fn value_row(label: &'static str, value: String) -> (r: SummaryRow)
    ensures
        r.label@ == label@,
        r.value@ == value@,
{
    SummaryRow { label, value }
}

fn count_row(label: &'static str, count: usize) -> (r: SummaryRow)
    ensures
        r.label@ == label@,
        r.value@ == decimal(count as nat),
{
    SummaryRow { label, value: decimal_text(count as u64) }
}

fn dash_row(label: &'static str) -> (r: SummaryRow)
    ensures
        r.label@ == label@,
        r.value@ == "-"@,
{
    SummaryRow { label, value: "-".to_owned() }
}

/// The rows of the summary. `size` is the download size as it is shown.
pub fn summary_rows(summary: &Option<RunSummary>, size: &str) -> (rows: Vec<SummaryRow>)
    ensures
        rows@.len() == 14,
        forall|i: int|
            0 <= i < 14 ==> (#[trigger] rows@[i]).label@ == summary_labels()[i] && rows@[i].value@
                == summary_values(
                match *summary {
                    Some(s) => Some(s@),
                    None => None,
                },
                size@,
            )[i],
{
    match summary {
        Some(s) => {
            vec![
                value_row("Target", s.target_label.clone()),
                count_row("Apps", s.app_count),
                count_row("Lua files", s.lua_files),
                count_row("Failed apps", s.failed_apps),
                count_row("Queued depots", s.total),
                count_row("Unique depots", s.depot_ids.len()),
                count_row("Downloaded", s.downloaded),
                count_row("Skipped", s.skipped),
                count_row("Unavailable", s.unavailable),
                count_row("Failed", s.failed),
                value_row("Download size", size.to_owned()),
                value_row("Elapsed", s.elapsed.clone()),
                value_row("Steam", truncate_path(s.steam_path.as_str(), SUMMARY_PATH_LEN)),
                value_row("Output", truncate_path(s.output_path.as_str(), SUMMARY_PATH_LEN)),
            ]
        },
        None => {
            vec![
                dash_row("Target"),
                dash_row("Apps"),
                dash_row("Lua files"),
                dash_row("Failed apps"),
                dash_row("Queued depots"),
                dash_row("Unique depots"),
                dash_row("Downloaded"),
                dash_row("Skipped"),
                dash_row("Unavailable"),
                dash_row("Failed"),
                dash_row("Download size"),
                dash_row("Elapsed"),
                dash_row("Steam"),
                dash_row("Output"),
            ]
        },
    }
}

/// What the error panel shows.
pub enum ErrorPanel {
    /// There was no run yet.
    Idle(&'static str),
    /// The last run had no errors.
    Clean(&'static str),
    /// The newest errors of the last run.
    Errors(Vec<String>),
}

/// What the error panel shows of the last run.
pub fn error_panel(summary: &Option<RunSummary>) -> (r: ErrorPanel)
    ensures
        match (r, *summary) {
            (ErrorPanel::Idle(text), None) => text@ == "Errors from the last run will appear here."@,
            (ErrorPanel::Clean(text), Some(s)) => {
                &&& s@.recent_errors.len() == 0
                &&& text@ == "No recent batch errors."@
            },
            (ErrorPanel::Errors(errors), Some(s)) => {
                &&& s@.recent_errors.len() > 0
                &&& texts(errors@) == s@.recent_errors
            },
            _ => false,
        },
{
    match summary {
        None => ErrorPanel::Idle("Errors from the last run will appear here."),
        Some(s) => {
            if s.recent_errors.len() == 0 {
                ErrorPanel::Clean("No recent batch errors.")
            } else {
                let mut errors: Vec<String> = Vec::new();
                let mut i: usize = 0;
                while i < s.recent_errors.len()
                    invariant
                        i <= s.recent_errors@.len(),
                        errors@.len() == i,
                        forall|k: int|
                            0 <= k < i ==> (#[trigger] errors@[k])@ == s.recent_errors@[k]@,
                    decreases s.recent_errors@.len() - i,
                {
                    errors.push(s.recent_errors[i].clone());
                    i += 1;
                }
                assert(texts(errors@) =~= texts(s.recent_errors@));
                ErrorPanel::Errors(errors)
            }
        },
    }
}

// ---------------------------------------------------------------------------
// Laws
// ---------------------------------------------------------------------------

/// A shortened path is no longer than asked for, as long as the dots fit, and ends like
/// the path.
pub proof fn law_truncated_path_fits(path: Seq<char>, max_len: nat)
    ensures
        max_len >= 3 ==> truncated(path, max_len).len() <= max_len,
        path.len() <= max_len ==> truncated(path, max_len) == path,
        path.len() > max_len >= 3 ==> truncated(path, max_len).len() == max_len && truncated(
            path,
            max_len,
        ).skip(3) == path.skip(path.len() - (max_len - 3)),
{
    reveal_strlit("...");
    if path.len() > max_len && max_len >= 3 {
        assert(truncated(path, max_len).skip(3) =~= path.skip(path.len() - (max_len - 3)));
    }
}

/// The time can be read back from its text: different times are shown differently.
pub proof fn law_elapsed_text_is_unambiguous(a: nat, b: nat)
    requires
        elapsed_text(a) == elapsed_text(b),
    ensures
        a == b,
{
    reveal_strlit(":");
    reveal_with_fuel(decimal, 2);
    law_padding_keeps_the_number(a / 60, 2);
    law_padding_keeps_the_number(b / 60, 2);
    law_padding_keeps_the_number(a % 60, 2);
    law_padding_keeps_the_number(b % 60, 2);
    let seconds_a = zero_padded(decimal(a % 60), 2);
    let seconds_b = zero_padded(decimal(b % 60), 2);
    assert(seconds_a.len() == 2);
    assert(seconds_b.len() == 2);
    let text = elapsed_text(a);
    let n = text.len() as int;
    assert(seconds_a =~= text.skip(n - 2));
    assert(seconds_b =~= text.skip(n - 2));
    assert(zero_padded(decimal(a / 60), 2) =~= text.take(n - 3));
    assert(zero_padded(decimal(b / 60), 2) =~= text.take(n - 3));
}

/// What is shown of an API key depends on its length alone, and where no key is asked for
/// not even on that; and it has at most nineteen characters.
pub proof fn law_key_is_hidden(a: AppView, b: AppView)
    requires
        a.mode == b.mode,
        !a.mode.wants_api_key() || vstd::utf8::encode_utf8(a.api_key).len()
            == vstd::utf8::encode_utf8(b.api_key).len(),
    ensures
        api_key_text(a) == api_key_text(b),
        api_key_text(a).len() <= 19,
{
    reveal_strlit("...");
    reveal_strlit("<empty>");
    reveal_strlit("not required");
    reveal_with_fuel(vstd::utf8::encode_utf8, 2);
}

/// A path that is too long is shown as three dots and its last characters, as many as fit
/// behind the dots.
pub proof fn law_truncated_path_keeps_its_end(head: Seq<char>, tail: Seq<char>, max_len: nat)
    requires
        head.len() + tail.len() > max_len,
    ensures
        max_len == tail.len() + 3 ==> truncated(head + tail, max_len) == "..."@ + tail,
        max_len < 3 && tail.len() == 0 ==> truncated(head + tail, max_len) == "..."@,
{
    let path = head + tail;
    assert(path.skip(path.len() - tail.len()) =~= tail);
    if tail.len() == 0 {
        assert("..."@ + tail =~= "..."@);
    }
}

/// Every sixty seconds are one minute.
pub proof fn law_elapsed_text_shows_minutes(minutes: nat, seconds: nat)
    requires
        seconds < 60,
    ensures
        elapsed_text(60 * minutes + seconds) == zero_padded(decimal(minutes), 2) + ":"@
            + zero_padded(decimal(seconds), 2),
{
    assert((60 * minutes + seconds) / 60 == minutes);
    assert((60 * minutes + seconds) % 60 == seconds);
}

/// A key is shown as one star for each of its bytes, at most sixteen, with three dots behind
/// them where there are more bytes.
pub proof fn law_key_is_shown_as_stars(app: AppView, i: int)
    ensures
        app.mode is Github ==> api_key_text(app) == "not required"@,
        app.mode is GithubExternal && app.api_key.len() == 0 ==> api_key_text(app) == "<empty>"@,
        app.mode is GithubExternal && app.api_key.len() > 0 && vstd::utf8::encode_utf8(
            app.api_key,
        ).len() <= 16 ==> {
            &&& api_key_text(app).len() == vstd::utf8::encode_utf8(app.api_key).len()
            &&& 0 <= i < api_key_text(app).len() ==> api_key_text(app)[i] == '*'
        },
        app.mode is GithubExternal && app.api_key.len() > 0 && vstd::utf8::encode_utf8(
            app.api_key,
        ).len() > 16 ==> api_key_text(app) == seq![
            '*',
            '*',
            '*',
            '*',
            '*',
            '*',
            '*',
            '*',
            '*',
            '*',
            '*',
            '*',
            '*',
            '*',
            '*',
            '*',
        ] + "..."@,
{
    if app.mode is GithubExternal && app.api_key.len() > 0 && vstd::utf8::encode_utf8(
        app.api_key,
    ).len() > 16 {
        assert(Seq::new(MASK_LIMIT as nat, |k: int| '*') =~= seq![
            '*',
            '*',
            '*',
            '*',
            '*',
            '*',
            '*',
            '*',
            '*',
            '*',
            '*',
            '*',
            '*',
            '*',
            '*',
            '*',
        ]);
    }
}

/// Each figure of a run stands in the row of its label.
pub proof fn law_summary_shows_each_figure(s: SummaryView, size: Seq<char>, i: int)
    ensures
        summary_labels() == seq![
            "Target"@,
            "Apps"@,
            "Lua files"@,
            "Failed apps"@,
            "Queued depots"@,
            "Unique depots"@,
            "Downloaded"@,
            "Skipped"@,
            "Unavailable"@,
            "Failed"@,
            "Download size"@,
            "Elapsed"@,
            "Steam"@,
            "Output"@,
        ],
        summary_values(Some(s), size).len() == 14,
        summary_values(Some(s), size)[0] == s.target_label,
        summary_values(Some(s), size)[1] == decimal(s.app_count as nat),
        summary_values(Some(s), size)[2] == decimal(s.lua_files as nat),
        summary_values(Some(s), size)[3] == decimal(s.failed_apps as nat),
        summary_values(Some(s), size)[4] == decimal(s.total as nat),
        summary_values(Some(s), size)[5] == decimal(s.depot_ids.len()),
        summary_values(Some(s), size)[6] == decimal(s.downloaded as nat),
        summary_values(Some(s), size)[7] == decimal(s.skipped as nat),
        summary_values(Some(s), size)[8] == decimal(s.unavailable as nat),
        summary_values(Some(s), size)[9] == decimal(s.failed as nat),
        summary_values(Some(s), size)[10] == size,
        summary_values(Some(s), size)[11] == s.elapsed,
        s.steam_path.len() <= 30 ==> summary_values(Some(s), size)[12] == s.steam_path,
        s.steam_path.len() > 30 ==> summary_values(Some(s), size)[12] == "..."@ + s.steam_path.skip(
            s.steam_path.len() - 27,
        ),
        s.output_path.len() <= 30 ==> summary_values(Some(s), size)[13] == s.output_path,
        s.output_path.len() > 30 ==> summary_values(Some(s), size)[13] == "..."@
            + s.output_path.skip(s.output_path.len() - 27),
        summary_values(None, size).len() == 14,
        0 <= i < 14 ==> summary_values(None, size)[i] == "-"@,
{
}

} // verus!
