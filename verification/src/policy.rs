//! The history of protection changes.

use vstd::prelude::*;

verus! {

/// A point in time, as seconds and nanoseconds since the Unix epoch (UTC).
#[derive(Debug, Clone, Copy, PartialEq, Eq, Structural)]
pub struct Timestamp {
    pub secs: i64,
    pub nanos: u32,
}

/// One change of a window's protection.
#[derive(Debug, Clone)]
pub struct PolicyChange {
    pub timestamp: Timestamp,
    pub hwnd: isize,
    pub pid: u32,
    pub title: String,
    pub executable_path: String,
    pub previous_protected: bool,
    pub current_protected: bool,
    pub actor: String,
}

/// What a policy store holds: where it is kept and its changes, oldest first.
pub struct PolicyStoreView {
    pub path: Seq<char>,
    pub changes: Seq<PolicyChange>,
}

/// The recorded changes.
#[derive(Debug, Clone)]
pub struct PolicySnapshot {
    pub changes: Vec<PolicyChange>,
}

/// The change history, with the file it is kept in.
#[derive(Debug, Clone)]
pub struct PolicyStore {
    path: String,
    snapshot: PolicySnapshot,
}

impl View for PolicyStore {
    type V = PolicyStoreView;

    closed spec fn view(&self) -> PolicyStoreView {
        PolicyStoreView { path: self.path@, changes: self.snapshot.changes@ }
    }
}

impl PolicyStore {
    /// A store kept at `path` holding `changes`, as read from that file (or
    /// no changes where the file does not exist).
    pub fn from_history(path: String, changes: Vec<PolicyChange>) -> (r: PolicyStore)
        ensures
            r@.path == path@,
            r@.changes == changes@,
    {
        PolicyStore { path, snapshot: PolicySnapshot { changes } }
    }

    /// Appends `change` to the history.
    pub fn record(&mut self, change: PolicyChange)
        ensures
            final(self)@.changes == old(self)@.changes.push(change),
            final(self)@.path == old(self)@.path,
    {
        self.snapshot.changes.push(change);
    }

    /// The recorded changes, oldest first.
    pub fn history(&self) -> (r: &[PolicyChange])
        ensures
            r@ == self@.changes,
    {
        self.snapshot.changes.as_slice()
    }

    /// The file the history is kept in.
    pub fn path(&self) -> (r: &str)
        ensures
            r@ == self@.path,
    {
        self.path.as_str()
    }
}

} // verus!
