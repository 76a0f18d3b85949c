//! `unf cat`: which recorded version of a file to print, when it cannot be
//! printed, and the JSON form of its content.

use vstd::prelude::*;
use vstd::string::StringExecFns;
use crate::clock::{rfc3339_of, rfc3339_text};
use crate::diff::{text_of_bytes, utf8_lossy};
use crate::text::{decimal_signed, push_signed, push_str, str_eq};
use crate::types::{EventType, Snapshot, UnfError};

verus! {

/// What `String::from_utf8` makes of `bytes`: their text when they are
/// valid UTF-8, nothing otherwise.
pub uninterp spec fn utf8_exact(bytes: Seq<u8>) -> Option<Seq<char>>;

/// Decodes bytes with `String::from_utf8`, keeping only a success.
///
/// Trusted: the result is `utf8_exact(bytes)`; and where the bytes are
/// valid UTF-8 their text is also what `String::from_utf8_lossy` gives,
/// which changes only invalid sequences.
#[verifier::external_body]
fn decode_utf8(bytes: &[u8]) -> (r: Option<String>)
    ensures
        match r {
            Some(s) => utf8_exact(bytes@) == Some(s@) && s@ == utf8_lossy(bytes@),
            None => utf8_exact(bytes@) is None,
        },
{
    String::from_utf8(bytes.to_vec()).ok()
}

/// How `unf cat` finds the version to print.
#[derive(Clone, Debug)]
pub enum CatLookup {
    /// The snapshot with this id.
    BySnapshot(i64),
    /// The latest version at the time this text names.
    AtTime(String),
}

/// Chooses the lookup: a snapshot id wins over a time; with neither the
/// command is refused.
pub fn cat_lookup(at: Option<&str>, snapshot_id: Option<i64>) -> (r: Result<CatLookup, UnfError>)
    ensures
        match snapshot_id {
            Some(id) => r matches Ok(CatLookup::BySnapshot(x)) && x == id,
            None => match at {
                Some(t) => r matches Ok(CatLookup::AtTime(s)) && s@ == t@,
                None => r matches Err(e) && e is InvalidArgument && e.spec_message()
                    == "Either --at or --snapshot is required."@,
            },
        },
{
    match snapshot_id {
        Some(id) => Ok(CatLookup::BySnapshot(id)),
        None => match at {
            Some(t) => Ok(CatLookup::AtTime(String::from_str(t))),
            None => Err(
                UnfError::InvalidArgument(String::from_str("Either --at or --snapshot is required.")),
            ),
        },
    }
}

/// The error for a snapshot id that matches nothing.
pub open spec fn missing_snapshot_message(id: i64) -> Seq<char> {
    "Snapshot "@ + decimal_signed(id as int) + " not found."@
}

/// The error for a file with no version at the time asked for.
pub open spec fn no_version_message(file: Seq<char>) -> Seq<char> {
    "No history for \""@ + file + "\"."@
}

/// The error for a snapshot of another file.
pub open spec fn other_file_message(s: Snapshot, file: Seq<char>) -> Seq<char> {
    "Snapshot "@ + decimal_signed(s.id.0 as int) + " is for \""@ + s.file_path@ + "\", not \""@
        + file + "\"."@
}

/// The error for a version that records the file's deletion.
pub open spec fn deleted_message(s: Snapshot, file: Seq<char>) -> Seq<char> {
    "\""@ + file + "\" was deleted at "@ + rfc3339_text(s.timestamp as int) + "."@
}

/// Checks what the lookup found for `file`: that something was found, that
/// a snapshot asked for by id belongs to `file`, and that the version is
/// not a deletion. `by_id` is the id asked for, if the lookup was by id.
pub fn check_cat_snapshot(found: Option<Snapshot>, by_id: Option<i64>, file: &str) -> (r: Result<
    Snapshot,
    UnfError,
>)
    ensures
        match found {
            None => r matches Err(e) && e is NoResults && e.spec_message() == match by_id {
                Some(id) => missing_snapshot_message(id),
                None => no_version_message(file@),
            },
            Some(s) => if by_id is Some && s.file_path@ != file@ {
                r matches Err(e) && e is InvalidArgument && e.spec_message() == other_file_message(
                    s,
                    file@,
                )
            } else if s.event_type == EventType::Delete {
                r matches Err(e) && e is NoResults && e.spec_message() == deleted_message(s, file@)
            } else {
                r == Ok::<Snapshot, UnfError>(s)
            },
        },
{
    match found {
        None => {
            let mut msg = String::new();
            match by_id {
                Some(id) => {
                    push_str(&mut msg, "Snapshot ");
                    push_signed(&mut msg, id);
                    push_str(&mut msg, " not found.");
                },
                None => {
                    push_str(&mut msg, "No history for \"");
                    push_str(&mut msg, file);
                    push_str(&mut msg, "\".");
                },
            }
            Err(UnfError::NoResults(msg))
        },
        Some(s) => {
            if by_id.is_some() && !str_eq(s.file_path.as_str(), file) {
                let mut msg = String::from_str("Snapshot ");
                push_signed(&mut msg, s.id.0);
                push_str(&mut msg, " is for \"");
                push_str(&mut msg, s.file_path.as_str());
                push_str(&mut msg, "\", not \"");
                push_str(&mut msg, file);
                push_str(&mut msg, "\".");
                return Err(UnfError::InvalidArgument(msg));
            }
            match s.event_type {
                EventType::Delete => {
                    let mut msg = String::from_str("\"");
                    push_str(&mut msg, file);
                    push_str(&mut msg, "\" was deleted at ");
                    let at = rfc3339_of(s.timestamp);
                    push_str(&mut msg, at.as_str());
                    push_str(&mut msg, ".");
                    Err(UnfError::NoResults(msg))
                },
                _ => Ok(s),
            }
        },
    }
}

/// The JSON form of a printed version.
#[derive(Clone, Debug)]
pub struct CatOutput {
    pub file: String,
    pub snapshot_id: i64,
    /// RFC 3339 text of the version's instant.
    pub timestamp: String,
    pub hash: String,
    pub bytes: u64,
    /// The content as text.
    pub content: String,
    /// `utf8_lossy` where the content is not valid UTF-8 and invalid
    /// sequences were replaced; absent otherwise.
    pub encoding: Option<String>,
}

/// Builds the JSON form of version `s` with content `content`: the text is
/// the content decoded as UTF-8, lossily where it is not valid, and then
/// marked so.
pub fn cat_output(s: &Snapshot, content: &[u8]) -> (r: CatOutput)
    ensures
        r.file@ == s.file_path@,
        r.snapshot_id == s.id.0,
        r.timestamp@ == rfc3339_text(s.timestamp as int),
        r.hash@ == s.content_hash.0@,
        r.bytes == s.size_bytes,
        r.content@ == utf8_lossy(content@),
        r.encoding is None <==> utf8_exact(content@) is Some,
        r.encoding matches Some(e) ==> e@ == "utf8_lossy"@,
{
    let (text, encoding) = match decode_utf8(content) {
        Some(t) => (t, None),
        None => (text_of_bytes(content), Some(String::from_str("utf8_lossy"))),
    };
    CatOutput {
        file: s.file_path.clone(),
        snapshot_id: s.id.0,
        timestamp: rfc3339_of(s.timestamp),
        hash: s.content_hash.0.clone(),
        bytes: s.size_bytes,
        content: text,
        encoding,
    }
}

} // verus!
