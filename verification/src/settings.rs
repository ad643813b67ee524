//! Choices that the environment decides.
use vstd::prelude::*;
use vstd::string::*;

use crate::text::{blank, contains, same_text, to_ascii_lowercase, trim};

verus! {

/// The name of the directory that the accounts are kept in.
pub const APP_CONFIG_DIR_NAME: &'static str = "codex-account-switcher";

/// The name that the directory once had.
pub const LEGACY_CONFIG_DIR_NAME: &'static str = "codex-quota";

/// The text of a variable that may be missing.
pub open spec fn value_of(v: Option<&str>) -> Option<Seq<char>> {
    match v {
        Some(v) => Some(v@),
        None => None,
    }
}

/// A variable counts where it is set and not blank.
pub open spec fn is_set(v: Option<Seq<char>>) -> bool {
    v matches Some(s) && !crate::text::is_blank(s)
}

/// Tells whether a variable is set and not blank.
pub fn set_variable(v: Option<&str>) -> (r: bool)
    ensures
        r == is_set(value_of(v)),
{
    match v {
        Some(s) => !blank(s),
        None => false,
    }
}

/// The directory under which the configuration lies.
#[derive(Clone, Copy, Debug, PartialEq, Eq, Structural)]
pub enum ConfigBase {
    /// That of `CAS_CONFIG_HOME`.
    Own,
    /// That of `XDG_CONFIG_HOME`.
    Xdg,
    /// That of the user.
    User,
}

/// Chooses the directory under which the configuration lies; there is none where no variable is set
/// and the user has none.
pub fn config_base(cas_home: Option<&str>, xdg_home: Option<&str>, user_has_one: bool) -> (r: Option<
    ConfigBase,
>)
    ensures
        r == if is_set(value_of(cas_home)) {
            Some(ConfigBase::Own)
        } else if is_set(value_of(xdg_home)) {
            Some(ConfigBase::Xdg)
        } else if user_has_one {
            Some(ConfigBase::User)
        } else {
            None
        },
{
    if set_variable(cas_home) {
        Some(ConfigBase::Own)
    } else if set_variable(xdg_home) {
        Some(ConfigBase::Xdg)
    } else if user_has_one {
        Some(ConfigBase::User)
    } else {
        None
    }
}

/// Where the authentication file lies.
#[derive(Clone, Copy, Debug, PartialEq, Eq, Structural)]
pub enum AuthFile {
    /// `CODEX_AUTH_PATH` names it.
    Named,
    /// `auth.json` in the directory of `CODEX_HOME`.
    InCodexHome,
    /// `.codex/auth.json` in the user's home.
    InHome,
}

/// Chooses where the authentication file lies.
pub fn codex_auth_path(auth_path: Option<&str>, codex_home: Option<&str>) -> (r: AuthFile)
    ensures
        r == if is_set(value_of(auth_path)) {
            AuthFile::Named
        } else if is_set(value_of(codex_home)) {
            AuthFile::InCodexHome
        } else {
            AuthFile::InHome
        },
{
    if set_variable(auth_path) {
        AuthFile::Named
    } else if set_variable(codex_home) {
        AuthFile::InCodexHome
    } else {
        AuthFile::InHome
    }
}

/// What is known of a file that may have to be carried over.
#[derive(Clone, Copy, Debug, PartialEq, Eq, Structural)]
pub struct LegacyFile {
    pub in_legacy: bool,
    pub in_target: bool,
}

/// The places of the files that are carried over, in order: only the old directory has them.
pub open spec fn carried_files(files: Seq<LegacyFile>) -> Seq<int>
    decreases files.len(),
{
    if files.len() == 0 {
        Seq::empty()
    } else {
        let front = carried_files(files.drop_last());
        if files.last().in_legacy && !files.last().in_target {
            front.push(files.len() - 1)
        } else {
            front
        }
    }
}

/// The files that a configuration has.
pub fn config_files() -> (r: [&'static str; 4])
    ensures
        r@ == seq!["accounts.json", "settings.json", "ui_state.json", "update_state.json"],
{
    ["accounts.json", "settings.json", "ui_state.json", "update_state.json"]
}

/// The places of the files that have to be carried over from the old directory into a new one that
/// is still empty. There are none where the new directory is filled or the old one is missing.
pub fn files_to_migrate(target_filled: bool, legacy_exists: bool, files: &[LegacyFile]) -> (r: Vec<
    usize,
>)
    ensures
        crate::order::as_ints(r@) == if target_filled || !legacy_exists {
            Seq::empty()
        } else {
            carried_files(files@)
        },
{
    let mut r: Vec<usize> = Vec::new();
    assert(crate::order::as_ints(r@) =~= Seq::empty());
    if target_filled || !legacy_exists {
        return r;
    }
    assert(files@.take(0) =~= Seq::empty());
    for i in 0..files.len()
        invariant
            crate::order::as_ints(r@) == carried_files(files@.take(i as int)),
    {
        let ghost before = crate::order::as_ints(r@);
        assert(files@.take(i + 1).drop_last() == files@.take(i as int));
        if files[i].in_legacy && !files[i].in_target {
            r.push(i);
            assert(crate::order::as_ints(r@) =~= before.push(i as int));
        }
    }
    assert(files@.take(files@.len() as int) == files@);
    r
}

/// The text of a variable, empty where it is missing.
pub open spec fn text_of(v: Option<Seq<char>>) -> Seq<char> {
    match v {
        Some(s) => s,
        None => Seq::empty(),
    }
}

/// A word that switches something on.
pub open spec fn is_yes(s: Seq<char>) -> bool {
    s == "1"@ || s == "true"@ || s == "yes"@ || s == "on"@
}

/// The text says that colours of 24 bits can be shown.
pub open spec fn names_true_color(s: Seq<char>) -> bool {
    crate::text::holds(s, "truecolor"@) || crate::text::holds(s, "24bit"@)
}

/// The environment says that colours of 24 bits can be shown.
pub open spec fn true_color(
    force: Option<Seq<char>>,
    colorterm: Option<Seq<char>>,
    term: Option<Seq<char>>,
) -> bool {
    let colorterm = crate::text::ascii_lowercase(text_of(colorterm));
    let term = crate::text::ascii_lowercase(text_of(term));
    ||| force matches Some(f) && is_yes(crate::text::ascii_lowercase(crate::text::trimmed(f)))
    ||| names_true_color(colorterm)
    ||| crate::text::holds(term, "direct"@)
    ||| names_true_color(term)
}

fn lower_text(v: Option<&str>) -> (r: String)
    ensures
        r@ == crate::text::ascii_lowercase(text_of(value_of(v))),
{
    match v {
        Some(s) => to_ascii_lowercase(s),
        None => {
            assert(crate::text::ascii_lowercase(Seq::empty()) =~= Seq::empty());
            String::new()
        },
    }
}

/// Tells whether to keep to the terminal's own palette: only on macOS, and not where the environment
/// says that colours of 24 bits can be shown.
pub fn use_ansi_palette(
    force: Option<&str>,
    colorterm: Option<&str>,
    term: Option<&str>,
    macos: bool,
) -> (r: bool)
    ensures
        r == (macos && !true_color(value_of(force), value_of(colorterm), value_of(term))),
{
    if let Some(force) = force {
        let normalized = to_ascii_lowercase(trim(force));
        let word = normalized.as_str();
        if same_text(word, "1") || same_text(word, "true") || same_text(word, "yes") || same_text(
            word,
            "on",
        ) {
            return false;
        }
    }
    let colorterm = lower_text(colorterm);
    if contains(colorterm.as_str(), "truecolor") || contains(colorterm.as_str(), "24bit") {
        return false;
    }
    let term = lower_text(term);
    if contains(term.as_str(), "direct") || contains(term.as_str(), "truecolor") || contains(
        term.as_str(),
        "24bit",
    ) {
        return false;
    }
    macos
}

} // verus!
