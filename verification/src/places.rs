//! Well-known directories of the user, through the `dirs` crate.
//!
//! Where they are depends on the environment and the platform, so nothing
//! is stated of them; the library takes what comes back as an argument.

use vstd::prelude::*;

verus! {

/// The user's home directory, from `dirs::home_dir`, as text.
///
/// Nothing is stated of the result: it comes from the environment.
#[verifier::external_body]
pub(crate) fn home_dir_text() -> (r: Option<String>) {
    match dirs::home_dir() {
        Some(p) => Some(p.display().to_string()),
        None => None,
    }
}

/// The user's configuration directory, from `dirs::config_dir`, as text.
///
/// Nothing is stated of the result: it comes from the environment.
#[verifier::external_body]
pub(crate) fn config_dir_text() -> (r: Option<String>) {
    match dirs::config_dir() {
        Some(p) => Some(p.display().to_string()),
        None => None,
    }
}

} // verus!
