//! What auto-start installs: the sentinel's launchd agent and systemd user
//! service, where they go, and which binary they start.

use vstd::prelude::*;
use vstd::string::StrSliceExecFns;
use vstd::string::StringExecFns;
use crate::paths::{join_path, joined};
use crate::text::{contains, push_str, str_contains};

verus! {

/// The launchd label of the sentinel.
pub const SENTINEL_LAUNCHD_LABEL: &'static str = "com.unfudged.sentinel";

/// The file name of the sentinel's launchd agent.
pub const SENTINEL_PLIST_NAME: &'static str = "com.unfudged.sentinel.plist";

/// The file name of the sentinel's systemd user service.
pub const SENTINEL_SERVICE_NAME: &'static str = "unfudged-sentinel.service";

/// The launchd agent of the former boot entry, removed when found.
pub const LEGACY_BOOT_PLIST_NAME: &'static str = "com.unfudged.boot.plist";

/// The systemd service of the former boot entry, removed when found.
pub const LEGACY_BOOT_SERVICE_NAME: &'static str = "unfudged-boot.service";

/// The plist up to the label.
pub const PLIST_HEAD: &'static str = "<?xml version=\"1.0\" encoding=\"UTF-8\"?>\n<!DOCTYPE plist PUBLIC \"-//Apple//DTD PLIST 1.0//EN\"\n  \"http://www.apple.com/DTDs/PropertyList-1.0.dtd\">\n<plist version=\"1.0\">\n<dict>\n  <key>Label</key>\n  <string>";

/// The plist from the label to the binary.
pub const PLIST_MIDDLE: &'static str = "</string>\n  <key>ProgramArguments</key>\n  <array>\n    <string>";

/// The plist after the binary: the sentinel argument, KeepAlive and the log.
pub const PLIST_TAIL: &'static str = "</string>\n    <string>__sentinel</string>\n  </array>\n  <key>KeepAlive</key>\n  <true/>\n  <key>StandardOutPath</key>\n  <string>/tmp/unfudged-sentinel.log</string>\n  <key>StandardErrorPath</key>\n  <string>/tmp/unfudged-sentinel.log</string>\n</dict>\n</plist>\n";

/// The systemd unit up to the binary.
pub const SERVICE_HEAD: &'static str = "[Unit]\nDescription=UNFUDGED sentinel - daemon watchdog and intent reconciliation\n\n[Service]\nType=simple\nExecStart=";

/// The systemd unit after the binary.
pub const SERVICE_TAIL: &'static str = " __sentinel\nRestart=always\nRestartSec=10\n\n[Install]\nWantedBy=default.target\n";

/// The sentinel's launchd agent for a binary: kept alive, logging to
/// `/tmp/unfudged-sentinel.log`.
pub open spec fn sentinel_plist(exe: Seq<char>) -> Seq<char> {
    PLIST_HEAD@ + SENTINEL_LAUNCHD_LABEL@ + PLIST_MIDDLE@ + exe + PLIST_TAIL@
}

/// The sentinel's systemd user service for a binary: a simple service,
/// always restarted after ten seconds.
pub open spec fn sentinel_service(exe: Seq<char>) -> Seq<char> {
    SERVICE_HEAD@ + exe + SERVICE_TAIL@
}

/// The sentinel's launchd agent (see `sentinel_plist`).
pub fn format_sentinel_plist(exe_path: &str) -> (r: String)
    ensures
        r@ == sentinel_plist(exe_path@),
{
    let mut r = String::from_str(PLIST_HEAD);
    push_str(&mut r, SENTINEL_LAUNCHD_LABEL);
    push_str(&mut r, PLIST_MIDDLE);
    push_str(&mut r, exe_path);
    push_str(&mut r, PLIST_TAIL);
    r
}

/// The sentinel's systemd user service (see `sentinel_service`).
pub fn format_sentinel_service(exe_path: &str) -> (r: String)
    ensures
        r@ == sentinel_service(exe_path@),
{
    let mut r = String::from_str(SERVICE_HEAD);
    push_str(&mut r, exe_path);
    push_str(&mut r, SERVICE_TAIL);
    r
}

/// The directory of the user's launchd agents.
pub fn launchd_dir(home: &str) -> (r: String)
    ensures
        r@ == joined(home@, "Library/LaunchAgents"@),
{
    join_path(home, "Library/LaunchAgents")
}

/// The directory of the user's systemd services.
pub fn systemd_user_dir(config_dir: &str) -> (r: String)
    ensures
        r@ == joined(config_dir@, "systemd/user"@),
{
    join_path(config_dir, "systemd/user")
}

/// The path of the sentinel's systemd user service.
pub fn sentinel_service_path(config_dir: &str) -> (r: String)
    ensures
        r@ == joined(joined(config_dir@, "systemd/user"@), SENTINEL_SERVICE_NAME@),
{
    let dir = systemd_user_dir(config_dir);
    join_path(dir.as_str(), SENTINEL_SERVICE_NAME)
}

/// The binary is a development build, inside a cargo `target` directory.
pub open spec fn is_dev_build(path: Seq<char>) -> bool {
    contains(path, "/target/debug/"@) || contains(path, "/target/release/"@)
}

/// Whether a binary path is a development build (see `is_dev_build`).
pub fn is_dev_build_path(path: &str) -> (r: bool)
    ensures
        r == is_dev_build(path@),
{
    str_contains(path, "/target/debug/") || str_contains(path, "/target/release/")
}

/// The well-known install locations of `unf`, in the order they are tried.
pub fn stable_paths() -> (r: Vec<String>)
    ensures
        r@.len() == 2,
        r@[0]@ == "/opt/homebrew/bin/unf"@,
        r@[1]@ == "/usr/local/bin/unf"@,
{
    let mut r: Vec<String> = Vec::new();
    r.push(String::from_str("/opt/homebrew/bin/unf"));
    r.push(String::from_str("/usr/local/bin/unf"));
    r
}

/// The binary the auto-start entry should run. A development build is
/// replaced by the first installed well-known location, else by what
/// `which unf` found (`which_found`, trimmed, when the command succeeded)
/// if that is no development build and not empty; else it stays.
pub open spec fn stable_binary(
    current: Seq<char>,
    first_installed: Option<Seq<char>>,
    which_found: Option<Seq<char>>,
) -> Seq<char> {
    if !is_dev_build(current) {
        current
    } else if first_installed is Some {
        first_installed->0
    } else if which_found is Some && which_found->0.len() > 0 && !is_dev_build(which_found->0) {
        which_found->0
    } else {
        current
    }
}

/// The view of an optional text.
pub open spec fn text_view(o: Option<&str>) -> Option<Seq<char>> {
    match o {
        Some(s) => Some(s@),
        None => None,
    }
}

/// Chooses the binary the auto-start entry runs (see `stable_binary`).
pub fn resolve_stable_binary_path(
    current: &str,
    first_installed: Option<&str>,
    which_found: Option<&str>,
) -> (r: String)
    ensures
        r@ == stable_binary(current@, text_view(first_installed), text_view(which_found)),
{
    if !is_dev_build_path(current) {
        return String::from_str(current);
    }
    match first_installed {
        Some(p) => {
            return String::from_str(p);
        },
        None => {},
    }
    match which_found {
        Some(w) => {
            if w.unicode_len() > 0 && !is_dev_build_path(w) {
                return String::from_str(w);
            }
        },
        None => {},
    }
    String::from_str(current)
}

} // verus!
