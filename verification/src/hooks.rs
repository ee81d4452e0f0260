//! The decisions of a loader that substitutes decoded content for packaged
//! source files: which names it looks at, and what it hands on.
//!
//! The loader fails open. Whatever it cannot decode it leaves to the host's
//! own loading, so a failure here never breaks the load of a file.

use vstd::prelude::*;
use crate::crypto::{is_encrypted, is_tagged};
use crate::file_handler::{decrypt_content, unpackaged};
use crate::text::{starts_with, to_chars};

verus! {

/// Whether `filename` names a plain file: it is neither the marker of
/// standard input, `-`, nor a path into an archive, which starts with
/// `phar:`.
pub open spec fn is_plain_path(filename: Seq<char>) -> bool {
    filename != "-"@ && !starts_with(filename, "phar:"@)
}

/// Tells whether the loader looks at the file named `filename` at all.
pub fn should_decrypt(filename: &str) -> (r: bool)
    ensures
        r == is_plain_path(filename@),
{
    proof {
        reveal_strlit("-");
        reveal_strlit("phar:");
    }
    let name = to_chars(filename);
    if name.len() == 1 && name[0] == '-' {
        assert(name@ =~= "-"@);
        return false;
    }
    if name.len() >= 5 && name[0] == 'p' && name[1] == 'h' && name[2] == 'a' && name[3] == 'r'
        && name[4] == ':' {
        return false;
    }
    proof {
        if name@.len() >= 5 {
            let head = name@.subrange(0, 5);
            assert(head[0] == name@[0] && head[1] == name@[1] && head[2] == name@[2] && head[3]
                == name@[3] && head[4] == name@[4]);
        }
    }
    true
}

/// Decodes the content of a file if it is packaged.
///
/// Content that is shorter than the marker or does not start with it gives
/// `None`, and the loader leaves the file to the host.
pub fn try_decrypt(content: &[u8], header: &[u8], key: &[u8]) -> (out: Option<Vec<u8>>)
    requires
        key@.len() > 0,
    ensures
        is_tagged(content@, header@) ==> out is Some && out->0@ == unpackaged(
            content@,
            header@,
            key@,
        ),
        !is_tagged(content@, header@) ==> out is None,
{
    if !is_encrypted(content, header) {
        return None;
    }
    Some(decrypt_content(content, header, key))
}

/// What the loader has just learnt about the file that the host is about
/// to load.
#[derive(Debug, Clone)]
pub enum LoadEvent {
    /// The host asks for a file; `None` where the request carries no
    /// readable name.
    Requested(Option<String>),
    /// The file was read; `None` where reading it failed.
    Read(Option<Vec<u8>>),
    /// The decoded content was put into temporary storage, or, with
    /// `false`, that failed.
    Materialized(bool),
}

/// What the loader does next.
#[derive(Debug, Clone, PartialEq, Eq)]
pub enum LoadAction {
    /// Leave the file to the host's own loading, untouched.
    UseOriginal,
    /// Read the file's content.
    ReadFile,
    /// Put these decoded bytes into temporary storage.
    Materialize(Vec<u8>),
    /// Hand the temporary storage to the host in place of the file.
    Substitute,
}

/// A loader's action with its bytes as a mathematical sequence.
pub enum PlannedAction {
    UseOriginal,
    ReadFile,
    Materialize(Seq<u8>),
    Substitute,
}

impl View for LoadAction {
    type V = PlannedAction;

    open spec fn view(&self) -> PlannedAction {
        match self {
            LoadAction::UseOriginal => PlannedAction::UseOriginal,
            LoadAction::ReadFile => PlannedAction::ReadFile,
            LoadAction::Materialize(bytes) => PlannedAction::Materialize(bytes@),
            LoadAction::Substitute => PlannedAction::Substitute,
        }
    }
}

/// The action that follows `event` under the marker `header` and `key`.
///
/// A request is followed by a read only for a plain path, a read by
/// materializing only for tagged content, and materializing by the
/// substitution only where it succeeded. Everything else, every failure
/// included, falls back to the host's own loading.
pub open spec fn action_after(event: LoadEvent, header: Seq<u8>, key: Seq<u8>) -> PlannedAction {
    match event {
        LoadEvent::Requested(Some(name)) => if is_plain_path(name@) {
            PlannedAction::ReadFile
        } else {
            PlannedAction::UseOriginal
        },
        LoadEvent::Read(Some(content)) => if is_tagged(content@, header) {
            PlannedAction::Materialize(unpackaged(content@, header, key))
        } else {
            PlannedAction::UseOriginal
        },
        LoadEvent::Materialized(true) => PlannedAction::Substitute,
        _ => PlannedAction::UseOriginal,
    }
}

/// Decides what the loader does after `event`.
///
/// The loader neither waits nor retries: each event has one action, and a
/// failure at any step ends in `UseOriginal`.
pub fn next_action(event: &LoadEvent, header: &[u8], key: &[u8]) -> (action: LoadAction)
    requires
        key@.len() > 0,
    ensures
        action@ == action_after(*event, header@, key@),
{
    match event {
        LoadEvent::Requested(Some(name)) => {
            if should_decrypt(name.as_str()) {
                LoadAction::ReadFile
            } else {
                LoadAction::UseOriginal
            }
        },
        LoadEvent::Requested(None) => LoadAction::UseOriginal,
        LoadEvent::Read(Some(content)) => {
            match try_decrypt(content.as_slice(), header, key) {
                Some(bytes) => LoadAction::Materialize(bytes),
                None => LoadAction::UseOriginal,
            }
        },
        LoadEvent::Read(None) => LoadAction::UseOriginal,
        LoadEvent::Materialized(true) => LoadAction::Substitute,
        LoadEvent::Materialized(false) => LoadAction::UseOriginal,
    }
}

} // verus!
