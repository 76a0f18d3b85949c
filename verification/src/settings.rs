//! The user's configuration: where the storage lives, where the
//! configuration file is, and what `unf config` shows of them.

use vstd::prelude::*;
use vstd::string::StrSliceExecFns;
use vstd::string::StringExecFns;
use crate::output::{format_size, size_text};
use crate::paths::{join_path, joined, path_starts_with};
use crate::places::{config_dir_text, home_dir_text};
use crate::text::{decimal, push_decimal, push_str};
use crate::types::UnfError;

verus! {

/// The user's configuration.
#[derive(Clone, Debug)]
pub struct Config {
    /// Where the storage lives instead of `~/.unfudged`, when set.
    pub storage_dir: Option<String>,
}

impl Default for Config {
    fn default() -> (r: Self)
        ensures
            r.storage_dir is None,
    {
        Config { storage_dir: None }
    }
}

/// The configuration after a move to `dest`: no override when the
/// destination is the default, else the destination.
pub fn swap_config(config: &Config, dest: &str, is_default: bool) -> (r: Config)
    ensures
        is_default ==> r.storage_dir is None,
        !is_default ==> (r.storage_dir matches Some(d) && d@ == dest@),
{
    let _ = config;
    if is_default {
        Config { storage_dir: None }
    } else {
        Config { storage_dir: Some(String::from_str(dest)) }
    }
}

/// The storage is the default one: neither `UNF_HOME` nor the
/// configuration moves it.
pub fn is_default_storage(unf_home_set: bool, config: &Config) -> (r: bool)
    ensures
        r == (!unf_home_set && config.storage_dir is None),
{
    !unf_home_set && config.storage_dir.is_none()
}

/// The directory of the application under the OS configuration directory.
pub open spec fn app_config_dir(config_dir: Seq<char>) -> Seq<char> {
    joined(config_dir, "unfudged"@)
}

/// The configuration file under the OS configuration directory.
pub open spec fn config_file(config_dir: Seq<char>) -> Seq<char> {
    joined(app_config_dir(config_dir), "config.json"@)
}

/// The lock file of a move, beside the configuration file.
pub open spec fn lock_file(config_dir: Seq<char>) -> Seq<char> {
    joined(app_config_dir(config_dir), "migration.lock"@)
}

/// The error when the OS has no configuration directory.
pub const NO_CONFIG_DIR_MESSAGE: &'static str = "Cannot determine OS config directory";

/// The error when the OS has no configuration directory, or else `place`.
pub open spec fn is_config_place(
    config_dir: Option<Seq<char>>,
    place: Seq<char>,
    r: Result<String, UnfError>,
) -> bool {
    match config_dir {
        None => r matches Err(e) && e is Config && e.spec_message() == NO_CONFIG_DIR_MESSAGE@,
        Some(d) => r matches Ok(p) && p@ == place,
    }
}

/// `r` is the configuration file for the configuration directory `d`.
pub open spec fn is_config_file_result(d: Option<Seq<char>>, r: Result<String, UnfError>) -> bool {
    is_config_place(d, config_file(d->0), r)
}

/// `r` is the lock file for the configuration directory `d`.
pub open spec fn is_lock_file_result(d: Option<Seq<char>>, r: Result<String, UnfError>) -> bool {
    is_config_place(d, lock_file(d->0), r)
}

/// The configuration file under a given OS configuration directory.
pub fn config_file_in(config_dir: &str) -> (r: String)
    ensures
        r@ == config_file(config_dir@),
{
    let app = join_path(config_dir, "unfudged");
    join_path(app.as_str(), "config.json")
}

/// The lock file of a move under a given OS configuration directory.
pub fn lock_file_in(config_dir: &str) -> (r: String)
    ensures
        r@ == lock_file(config_dir@),
{
    let app = join_path(config_dir, "unfudged");
    join_path(app.as_str(), "migration.lock")
}

/// The path of the configuration file, under the configuration directory
/// the OS gives (which depends on the environment).
pub fn config_path() -> (r: Result<String, UnfError>)
    ensures
        exists|d: Option<Seq<char>>| is_config_file_result(d, r),
{
    let dir = config_dir_text();
    match &dir {
        None => {
            let r = Err(UnfError::Config(String::from_str(NO_CONFIG_DIR_MESSAGE)));
            assert(is_config_file_result(None, r));
            r
        },
        Some(d) => {
            let r = Ok(config_file_in(d.as_str()));
            assert(is_config_file_result(Some(d@), r));
            r
        },
    }
}

/// The path of the lock file of a move, beside the configuration file.
pub fn lock_path() -> (r: Result<String, UnfError>)
    ensures
        exists|d: Option<Seq<char>>| is_lock_file_result(d, r),
{
    let dir = config_dir_text();
    match &dir {
        None => {
            let r = Err(UnfError::Config(String::from_str(NO_CONFIG_DIR_MESSAGE)));
            assert(is_lock_file_result(None, r));
            r
        },
        Some(d) => {
            let r = Ok(lock_file_in(d.as_str()));
            assert(is_lock_file_result(Some(d@), r));
            r
        },
    }
}

/// What `Path::strip_prefix` leaves of `p` once `base` is taken off.
pub uninterp spec fn path_without_prefix(p: Seq<char>, base: Seq<char>) -> Seq<char>;

/// `Path::strip_prefix`, the rest shown as text.
///
/// Claimed: there is a rest exactly when `base` is a prefix of `p` by whole
/// components (the documentation says it fails just when `starts_with`
/// would), and the rest is `path_without_prefix` of the two.
#[verifier::external_body]
fn strip_path_prefix(p: &str, base: &str) -> (r: Option<String>)
    ensures
        r is Some <==> path_starts_with(p@, base@),
        r matches Some(s) ==> s@ == path_without_prefix(p@, base@),
{
    match std::path::Path::new(p).strip_prefix(base) {
        Ok(rest) => Some(rest.display().to_string()),
        Err(_) => None,
    }
}

/// A path with the home directory written `~`, when the path lies in it.
pub open spec fn home_relative_text(path: Seq<char>, home: Option<Seq<char>>) -> Seq<char> {
    match home {
        Some(h) => if path_starts_with(path, h) {
            "~/"@ + path_without_prefix(path, h)
        } else {
            path
        },
        None => path,
    }
}

/// Writes a path relative to a given home directory (see
/// `home_relative_text`).
pub fn home_relative_with(path: &str, home: Option<&str>) -> (r: String)
    ensures
        r@ == home_relative_text(
            path@,
            match home {
                Some(h) => Some(h@),
                None => None,
            },
        ),
{
    match home {
        Some(h) => match strip_path_prefix(path, h) {
            Some(rest) => {
                let mut r = String::from_str("~/");
                push_str(&mut r, rest.as_str());
                r
            },
            None => String::from_str(path),
        },
        None => String::from_str(path),
    }
}

/// Writes a path relative to the user's home directory, which comes from
/// the environment.
pub fn home_relative(path: &str) -> (r: String)
    ensures
        exists|home: Option<Seq<char>>| r@ == home_relative_text(path@, home),
{
    let home = home_dir_text();
    match &home {
        Some(h) => {
            let r = home_relative_with(path, Some(h.as_str()));
            assert(r@ == home_relative_text(path@, Some(h@)));
            r
        },
        None => {
            let r = home_relative_with(path, None);
            assert(r@ == home_relative_text(path@, None));
            r
        },
    }
}

/// What `unf config` shows: the storage directory (marked when it is the
/// default) and how many projects use how much space.
pub fn config_lines(display_path: &str, is_default: bool, project_count: u64, bytes: u64) -> (r:
    Vec<String>)
    ensures
        r@.len() == 2,
        r@[0]@ == "Storage directory: "@ + display_path@ + if is_default {
            " (default)"@
        } else {
            Seq::empty()
        },
        r@[1]@ == "  "@ + decimal(project_count as nat) + if project_count == 1 {
            " project"@
        } else {
            " projects"@
        } + ", "@ + size_text(bytes as nat) + " used"@,
{
    let mut l0 = String::from_str("Storage directory: ");
    push_str(&mut l0, display_path);
    if is_default {
        push_str(&mut l0, " (default)");
    }
    proof {
        if !is_default {
            assert(l0@ =~= "Storage directory: "@ + display_path@ + Seq::<char>::empty());
        }
    }
    let mut l1 = String::from_str("  ");
    push_decimal(&mut l1, project_count);
    if project_count == 1 {
        push_str(&mut l1, " project");
    } else {
        push_str(&mut l1, " projects");
    }
    push_str(&mut l1, ", ");
    let size = format_size(bytes);
    push_str(&mut l1, size.as_str());
    push_str(&mut l1, " used");
    let mut r: Vec<String> = Vec::new();
    r.push(l0);
    r.push(l1);
    r
}

/// What `unf config` says when a lock file shows an interrupted move: the
/// original location (the lock's text, else `~/.unfudged`) and how to go
/// on.
pub fn config_interrupted_lines(original: Option<&str>) -> (r: Vec<String>)
    ensures
        r@.len() == 3,
        r@[0]@ == "Migration was interrupted."@,
        r@[1]@ == "Your data is safe at the original location: "@ + match original {
            Some(s) => s@,
            None => "~/.unfudged"@,
        },
        r@[2]@
            == "Run `unf config --move-storage <DEST>` to retry, or delete the lock file to proceed."@,
{
    let mut r: Vec<String> = Vec::new();
    r.push(String::from_str("Migration was interrupted."));
    let mut l = String::from_str("Your data is safe at the original location: ");
    match original {
        Some(s) => push_str(&mut l, s),
        None => push_str(&mut l, "~/.unfudged"),
    }
    r.push(l);
    r.push(
        String::from_str(
            "Run `unf config --move-storage <DEST>` to retry, or delete the lock file to proceed.",
        ),
    );
    r
}

} // verus!
