//! One type for "some working-copy client": the backend is one of the
//! known kinds, and a caller that needs the client of one kind can ask for
//! it.

use vstd::prelude::*;
use crate::client::{
    BackendKind,
    CheckoutConflict,
    CheckoutMode,
    ClientError,
    ProgressInfo,
    WorkingCopyClient,
};
use crate::eden::{DaemonSession, EdenFsClient};
use crate::git::{GitEngine, RepoGit};
use crate::hgid::HgId;
use crate::status::StatusMap;

verus! {

/// A working-copy client of one of the known kinds. Each request goes to
/// the client inside, and is answered as that client answers it.
pub enum Backend<D: DaemonSession, E: GitEngine> {
    /// The client for a working copy that the daemon serves.
    Daemon(EdenFsClient<D>),
    /// The client for a plain checkout managed by `git`.
    Git(RepoGit<E>),
}

impl<D: DaemonSession, E: GitEngine> Backend<D, E> {
    /// The `git` client, if that is the kind of this backend.
    pub fn as_git(&self) -> (client: Option<&RepoGit<E>>)
        ensures
            match *self {
                Backend::Git(inner) => client == Some(&inner),
                Backend::Daemon(_) => client is None,
            },
    {
        match self {
            Backend::Git(inner) => Some(inner),
            Backend::Daemon(_) => None,
        }
    }

    /// The daemon client, if that is the kind of this backend.
    pub fn as_daemon(&self) -> (client: Option<&EdenFsClient<D>>)
        ensures
            match *self {
                Backend::Daemon(inner) => client == Some(&inner),
                Backend::Git(_) => client is None,
            },
    {
        match self {
            Backend::Daemon(inner) => Some(inner),
            Backend::Git(_) => None,
        }
    }
}

impl<D: DaemonSession, E: GitEngine> WorkingCopyClient for Backend<D, E> {
    open spec fn kind(&self) -> BackendKind {
        match *self {
            Backend::Daemon(_) => BackendKind::Daemon,
            Backend::Git(_) => BackendKind::Git,
        }
    }

    fn get_status(&self, node: HgId, list_ignored: bool) -> (r: Result<StatusMap, ClientError>)
        ensures
            match *self {
                Backend::Daemon(inner) => call_ensures(
                    <EdenFsClient<D> as WorkingCopyClient>::get_status,
                    (&inner, node, list_ignored),
                    r,
                ),
                Backend::Git(inner) => call_ensures(
                    <RepoGit<E> as WorkingCopyClient>::get_status,
                    (&inner, node, list_ignored),
                    r,
                ),
            },
    {
        match self {
            Backend::Daemon(inner) => inner.get_status(node, list_ignored),
            Backend::Git(inner) => inner.get_status(node, list_ignored),
        }
    }

    fn set_parents(&self, p1: HgId, p2: Option<HgId>, p1_tree: HgId) -> (r: Result<
        (),
        ClientError,
    >)
        ensures
            match *self {
                Backend::Daemon(inner) => call_ensures(
                    <EdenFsClient<D> as WorkingCopyClient>::set_parents,
                    (&inner, p1, p2, p1_tree),
                    r,
                ),
                Backend::Git(inner) => call_ensures(
                    <RepoGit<E> as WorkingCopyClient>::set_parents,
                    (&inner, p1, p2, p1_tree),
                    r,
                ),
            },
    {
        match self {
            Backend::Daemon(inner) => inner.set_parents(p1, p2, p1_tree),
            Backend::Git(inner) => inner.set_parents(p1, p2, p1_tree),
        }
    }

    fn checkout_progress(&self) -> (r: Result<Option<ProgressInfo>, ClientError>)
        ensures
            match *self {
                Backend::Daemon(inner) => call_ensures(
                    <EdenFsClient<D> as WorkingCopyClient>::checkout_progress,
                    (&inner,),
                    r,
                ),
                Backend::Git(inner) => call_ensures(
                    <RepoGit<E> as WorkingCopyClient>::checkout_progress,
                    (&inner,),
                    r,
                ),
            },
    {
        match self {
            Backend::Daemon(inner) => inner.checkout_progress(),
            Backend::Git(inner) => inner.checkout_progress(),
        }
    }

    fn checkout(&self, node: HgId, tree_node: HgId, mode: CheckoutMode) -> (r: Result<
        Vec<CheckoutConflict>,
        ClientError,
    >)
        ensures
            match *self {
                Backend::Daemon(inner) => call_ensures(
                    <EdenFsClient<D> as WorkingCopyClient>::checkout,
                    (&inner, node, tree_node, mode),
                    r,
                ),
                Backend::Git(inner) => call_ensures(
                    <RepoGit<E> as WorkingCopyClient>::checkout,
                    (&inner, node, tree_node, mode),
                    r,
                ),
            },
    {
        match self {
            Backend::Daemon(inner) => inner.checkout(node, tree_node, mode),
            Backend::Git(inner) => inner.checkout(node, tree_node, mode),
        }
    }

    fn backend(&self) -> (kind: BackendKind) {
        match self {
            Backend::Daemon(_) => BackendKind::Daemon,
            Backend::Git(_) => BackendKind::Git,
        }
    }
}

} // verus!
