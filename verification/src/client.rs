//! The interface between the front end and a working-copy backend, and the
//! vocabulary that every backend answers in.
//!
//! A client keeps no state of its own and writes nothing itself: it turns
//! each request into work for its external engine and the engine's answer
//! into a canonical result. Every operation blocks until the engine has
//! answered. Requests that change the working copy (`checkout`,
//! `set_parents`) must not run at the same time on one working copy.

use vstd::prelude::*;
use crate::hgid::HgId;
use crate::path::RepoPathBuf;
use crate::status::StatusMap;

verus! {

/// How a checkout treats local changes.
#[derive(Clone, Copy, Debug, PartialEq, Eq, Hash, Structural)]
pub enum CheckoutMode {
    /// Apply the changes; files that cannot be brought over are reported
    /// as conflicts.
    Normal,
    /// Apply the changes and discard local modifications that stand in
    /// the way.
    Force,
    /// Touch nothing.
    DryRun,
}

/// Why a file could not be brought over by a checkout.
#[derive(Clone, Copy, Debug, PartialEq, Eq, Hash, Structural)]
pub enum ConflictType {
    /// The backend failed on the file.
    Error,
    /// Changed locally, removed in the target.
    ModifiedRemoved,
    /// Untracked locally, added in the target.
    UntrackedAdded,
    /// Removed locally, changed in the target.
    RemovedModified,
    /// Missing locally, removed in the target.
    MissingRemoved,
    /// Changed locally and in the target.
    ModifiedModified,
    /// A directory that has to go still has files in it.
    DirectoryNotEmpty,
}

/// A path that a checkout could not resolve by itself, and why.
#[derive(Clone, Debug, PartialEq, Eq)]
pub struct CheckoutConflict {
    /// The file in question.
    pub path: RepoPathBuf,
    /// What stands in the way.
    pub conflict_type: ConflictType,
    /// What the backend says of it.
    pub message: String,
}

/// How far a running checkout has come, in units that the backend defines.
#[derive(Clone, Copy, Debug, PartialEq, Eq, Structural)]
pub struct ProgressInfo {
    /// Units done.
    pub position: u64,
    /// Units in all.
    pub total: u64,
}

/// Why a request failed. A request succeeds as a whole or fails as a whole.
#[derive(Clone, Debug, PartialEq, Eq)]
pub enum ClientError {
    /// The external engine failed: the process ended with a failure or the
    /// daemon could not be reached. The text is the engine's own account.
    Engine(String),
    /// The backend cannot do what was asked.
    Unsupported(String),
}

impl ClientError {
    /// The account of the failure.
    pub fn message(&self) -> (text: &str)
        ensures
            text@ == match *self {
                ClientError::Engine(account) => account@,
                ClientError::Unsupported(account) => account@,
            },
    {
        match self {
            ClientError::Engine(account) => account.as_str(),
            ClientError::Unsupported(account) => account.as_str(),
        }
    }

    /// Whether the backend lacks the capability that was asked for.
    pub fn is_unsupported(&self) -> (yes: bool)
        ensures
            yes == (*self is Unsupported),
    {
        match self {
            ClientError::Engine(_) => false,
            ClientError::Unsupported(_) => true,
        }
    }
}

/// The backends that there are. A caller that has to know which backend it
/// talks to asks the client for its kind.
#[derive(Clone, Copy, Debug, PartialEq, Eq, Hash, Structural)]
pub enum BackendKind {
    /// The filesystem-virtualization daemon.
    Daemon,
    /// A plain checkout managed by the `git` tool.
    Git,
}

impl BackendKind {
    /// Whether the backend can tell how far a running checkout has come.
    #[verifier::when_used_as_spec(spec_reports_progress)]
    pub fn reports_progress(self) -> (yes: bool)
        ensures
            yes == self.spec_reports_progress(),
    {
        match self {
            BackendKind::Daemon => true,
            BackendKind::Git => false,
        }
    }

    /// Whether the backend can tell how far a running checkout has come.
    pub open spec fn spec_reports_progress(self) -> bool {
        self is Daemon
    }

    /// Whether a checkout by this backend reports the files that it could
    /// not bring over. A backend that does not returns an empty list
    /// whenever it succeeds; a checkout that the tool refuses fails as a
    /// whole.
    #[verifier::when_used_as_spec(spec_reports_conflicts)]
    pub fn reports_conflicts(self) -> (yes: bool)
        ensures
            yes == self.spec_reports_conflicts(),
    {
        match self {
            BackendKind::Daemon => true,
            BackendKind::Git => false,
        }
    }

    /// Whether a checkout by this backend reports conflicts.
    pub open spec fn spec_reports_conflicts(self) -> bool {
        self is Daemon
    }

    /// Whether `get_status` compares against the commit that it is given.
    /// A backend that does not reports what its own index and working tree
    /// hold, whatever commit is named.
    #[verifier::when_used_as_spec(spec_honors_baseline)]
    pub fn honors_baseline(self) -> (yes: bool)
        ensures
            yes == self.spec_honors_baseline(),
    {
        match self {
            BackendKind::Daemon => true,
            BackendKind::Git => false,
        }
    }

    /// Whether `get_status` compares against the commit that it is given.
    pub open spec fn spec_honors_baseline(self) -> bool {
        self is Daemon
    }
}

/// The client that talks to an external program for working-copy
/// management.
pub trait WorkingCopyClient: Send + Sync {
    /// The kind of backend behind this client.
    spec fn kind(&self) -> BackendKind;

    /// The changes that the backend sees in the working copy. `node` is the
    /// commit to compare against, for a backend that honors it.
    /// `list_ignored` asks for ignored files too. Entries that cannot be
    /// decoded are left out; they do not fail the request.
    fn get_status(&self, node: HgId, list_ignored: bool) -> (r: Result<StatusMap, ClientError>);

    /// Records `p1`, and `p2` if there is one, as the parents of the
    /// working copy, without changing the content of tracked files.
    /// `p1_tree` is the tree of `p1`.
    fn set_parents(&self, p1: HgId, p2: Option<HgId>, p1_tree: HgId) -> (r: Result<
        (),
        ClientError,
    >);

    /// How far the running checkout has come; `None` when none is running.
    /// A backend that cannot tell fails; it does not answer `None`.
    fn checkout_progress(&self) -> (r: Result<Option<ProgressInfo>, ClientError>)
        ensures
            !self.kind().reports_progress() ==> (r matches Err(e) && e is Unsupported),
    ;

    /// Brings the working copy to the content of `node`, whose tree is
    /// `tree_node`, and returns the conflicts that the backend met. A dry
    /// run touches nothing and reports no conflict.
    fn checkout(&self, node: HgId, tree_node: HgId, mode: CheckoutMode) -> (r: Result<
        Vec<CheckoutConflict>,
        ClientError,
    >)
        ensures
            mode is DryRun ==> (r matches Ok(conflicts) && conflicts@.len() == 0),
    ;

    /// The kind of backend behind this client.
    fn backend(&self) -> (kind: BackendKind)
        ensures
            kind == self.kind(),
    ;
}

} // verus!
