//! Thin trusted views of the machine: file existence, the clock, the user's
//! configuration directory, and tilde expansion. Everything here either
//! depends on the environment or wraps a single outside call, so the
//! contracts state only what holds of every outcome.

use vstd::prelude::*;

verus! {

/// Relies on `std::path::Path::exists`: returns whether the path points at an
/// existing entity on disk. The answer depends on the filesystem, so nothing
/// is promised of it.
#[verifier::external_body]
pub(crate) fn path_exists(p: &String) -> bool {
    std::path::Path::new(p.as_str()).exists()
}

/// Relies on `chrono::Utc::now` and its `format`: the current UTC date,
/// rendered as year, month and day separated by dashes. The result depends on
/// the clock, so nothing is promised of it.
#[verifier::external_body]
pub(crate) fn now_date() -> String {
    chrono::Utc::now().format("%Y-%m-%d").to_string()
}

/// Relies on `dirs::config_dir`: the user's configuration directory, when the
/// platform defines one and its path is valid text. The result depends on the
/// environment, so nothing is promised of it.
#[verifier::external_body]
pub(crate) fn config_base_dir() -> Option<String> {
    match dirs::config_dir() {
        Some(p) => match p.to_str() {
            Some(s) => Some(s.to_string()),
            None => None,
        },
        None => None,
    }
}

/// Relies on `shellexpand::tilde`: expands a leading `~` to the home
/// directory and, as its source shows, returns any input that does not start
/// with `~` unchanged.
#[verifier::external_body]
pub(crate) fn tilde_expand(s: &String) -> (r: String)
    ensures
        (s@.len() == 0 || s@[0] != '~') ==> r@ == s@,
{
    shellexpand::tilde(s.as_str()).to_string()
}

/// The current UTC date as `YYYY-MM-DD`, read from the system clock.
pub fn current_date() -> String {
    now_date()
}

/// Whether `p` names an existing file or directory.
pub fn path_is_present(p: &String) -> bool {
    path_exists(p)
}

/// `p` with a leading `~` expanded to the user's home directory; any other
/// input comes back unchanged.
pub fn expand_user_path(p: &String) -> (r: String)
    ensures
        (p@.len() == 0 || p@[0] != '~') ==> r@ == p@,
{
    tilde_expand(p)
}

} // verus!
