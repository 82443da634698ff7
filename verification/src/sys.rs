//! The one call the engine makes into the host environment.

use vstd::prelude::*;

verus! {

/// Relies on `home::home_dir`: the current user's home directory, read from
/// the process environment. The value depends on the environment, so nothing
/// is assumed of it; callers state what holds for every outcome.
#[verifier::external_body]
pub fn home_dir_string() -> (r: Option<String>) {
    match home::home_dir() {
        Some(p) => Some(p.to_string_lossy().to_string()),
        None => None,
    }
}

} // verus!
