//! The backend that hands every request to the filesystem-virtualization
//! daemon.
//!
//! The daemon's session has the same four operations as the client
//! interface, with its own names for the checkout modes and its own
//! account of a failure. [`EdenFsClient`] forwards each request and turns
//! the answer into the canonical form. A dry-run checkout is answered
//! without asking the daemon.

use vstd::prelude::*;
use crate::client::{
    BackendKind,
    CheckoutConflict,
    CheckoutMode,
    ClientError,
    ProgressInfo,
    WorkingCopyClient,
};
use crate::hgid::HgId;
use crate::status::StatusMap;

verus! {

/// The checkout modes, as the daemon names them.
#[derive(Clone, Copy, Debug, PartialEq, Eq, Hash, Structural)]
pub enum DaemonCheckoutMode {
    /// Apply the changes and report conflicts.
    Normal,
    /// Report what a checkout would do.
    DryRun,
    /// Apply the changes over local modifications.
    Force,
}

/// The daemon's name for `mode`.
pub open spec fn daemon_mode(mode: CheckoutMode) -> DaemonCheckoutMode {
    match mode {
        CheckoutMode::Normal => DaemonCheckoutMode::Normal,
        CheckoutMode::Force => DaemonCheckoutMode::Force,
        CheckoutMode::DryRun => DaemonCheckoutMode::DryRun,
    }
}

/// The canonical name for the daemon's `mode`.
pub open spec fn canonical_mode(mode: DaemonCheckoutMode) -> CheckoutMode {
    match mode {
        DaemonCheckoutMode::Normal => CheckoutMode::Normal,
        DaemonCheckoutMode::Force => CheckoutMode::Force,
        DaemonCheckoutMode::DryRun => CheckoutMode::DryRun,
    }
}

/// The daemon's name for `mode`.
pub fn to_daemon_mode(mode: CheckoutMode) -> (named: DaemonCheckoutMode)
    ensures
        named == daemon_mode(mode),
{
    match mode {
        CheckoutMode::Normal => DaemonCheckoutMode::Normal,
        CheckoutMode::Force => DaemonCheckoutMode::Force,
        CheckoutMode::DryRun => DaemonCheckoutMode::DryRun,
    }
}

/// The canonical name for the daemon's `mode`.
pub fn from_daemon_mode(mode: DaemonCheckoutMode) -> (named: CheckoutMode)
    ensures
        named == canonical_mode(mode),
{
    match mode {
        DaemonCheckoutMode::Normal => CheckoutMode::Normal,
        DaemonCheckoutMode::Force => CheckoutMode::Force,
        DaemonCheckoutMode::DryRun => CheckoutMode::DryRun,
    }
}

/// The two sets of names stand for the same modes, one for one.
pub proof fn lemma_modes_correspond(mode: CheckoutMode, named: DaemonCheckoutMode)
    ensures
        canonical_mode(daemon_mode(mode)) == mode,
        daemon_mode(canonical_mode(named)) == named,
{
}

/// Whether `r` is what the client answers to the daemon's `reply`: the
/// daemon's result, or the daemon's failure as an engine failure.
pub open spec fn daemon_answers<T>(reply: Result<T, String>, r: Result<T, ClientError>) -> bool {
    match reply {
        Ok(value) => r matches Ok(given) && given == value,
        Err(account) => r matches Err(ClientError::Engine(text)) && text == account,
    }
}

/// What the client answers to the daemon's reply.
pub fn from_daemon_reply<T>(reply: Result<T, String>) -> (r: Result<T, ClientError>)
    ensures
        daemon_answers(reply, r),
{
    match reply {
        Ok(value) => Ok(value),
        Err(account) => Err(ClientError::Engine(account)),
    }
}

/// An established session with the daemon for one working copy. A call
/// blocks until the daemon has answered; the text of a failure is the
/// daemon's own account.
pub trait DaemonSession: Send + Sync {
    /// The changes in the working copy against `node`.
    fn get_status(&self, node: HgId, list_ignored: bool) -> Result<StatusMap, String>;

    /// Records the parents of the working copy.
    fn set_parents(&self, p1: HgId, p2: Option<HgId>, p1_tree: HgId) -> Result<(), String>;

    /// Checks out `node` and returns the conflicts that were met.
    fn checkout(&self, node: HgId, tree_node: HgId, mode: DaemonCheckoutMode) -> Result<
        Vec<CheckoutConflict>,
        String,
    >;

    /// How far the running checkout has come; `None` when none is running.
    fn checkout_progress(&self) -> Result<Option<ProgressInfo>, String>;
}

/// The client for a working copy that the daemon serves.
pub struct EdenFsClient<D: DaemonSession> {
    /// The session with the daemon.
    pub session: D,
}

impl<D: DaemonSession> EdenFsClient<D> {
    /// A client that talks to the daemon through `session`.
    pub fn new(session: D) -> (client: EdenFsClient<D>)
        ensures
            client.session == session,
    {
        EdenFsClient { session }
    }
}

impl<D: DaemonSession> WorkingCopyClient for EdenFsClient<D> {
    open spec fn kind(&self) -> BackendKind {
        BackendKind::Daemon
    }

    /// Hands the request to the daemon.
    fn get_status(&self, node: HgId, list_ignored: bool) -> (r: Result<StatusMap, ClientError>)
        ensures
            exists|reply: Result<StatusMap, String>| #[trigger]
                call_ensures(D::get_status, (&self.session, node, list_ignored), reply)
                    && daemon_answers(reply, r),
    {
        let reply = self.session.get_status(node, list_ignored);
        let ghost given = reply;
        let r = from_daemon_reply(reply);
        assert(call_ensures(D::get_status, (&self.session, node, list_ignored), given)
            && daemon_answers(given, r));
        r
    }

    /// Hands the request to the daemon.
    fn set_parents(&self, p1: HgId, p2: Option<HgId>, p1_tree: HgId) -> (r: Result<
        (),
        ClientError,
    >)
        ensures
            exists|reply: Result<(), String>| #[trigger]
                call_ensures(D::set_parents, (&self.session, p1, p2, p1_tree), reply)
                    && daemon_answers(reply, r),
    {
        let reply = self.session.set_parents(p1, p2, p1_tree);
        let ghost given = reply;
        let r = from_daemon_reply(reply);
        assert(call_ensures(D::set_parents, (&self.session, p1, p2, p1_tree), given)
            && daemon_answers(given, r));
        r
    }

    /// Hands the request to the daemon.
    fn checkout_progress(&self) -> (r: Result<Option<ProgressInfo>, ClientError>)
        ensures
            exists|reply: Result<Option<ProgressInfo>, String>| #[trigger]
                call_ensures(D::checkout_progress, (&self.session,), reply) && daemon_answers(
                    reply,
                    r,
                ),
    {
        let reply = self.session.checkout_progress();
        let ghost given = reply;
        let r = from_daemon_reply(reply);
        assert(call_ensures(D::checkout_progress, (&self.session,), given) && daemon_answers(
            given,
            r,
        ));
        r
    }

    /// Answers a dry run by itself, with no conflicts; hands every other
    /// request to the daemon, under the daemon's name for the mode.
    fn checkout(&self, node: HgId, tree_node: HgId, mode: CheckoutMode) -> (r: Result<
        Vec<CheckoutConflict>,
        ClientError,
    >)
        ensures
            !(mode is DryRun) ==> exists|reply: Result<Vec<CheckoutConflict>, String>| #[trigger]
                call_ensures(
                    D::checkout,
                    (&self.session, node, tree_node, daemon_mode(mode)),
                    reply,
                ) && daemon_answers(reply, r),
    {
        match mode {
            CheckoutMode::DryRun => Ok(Vec::new()),
            _ => {
                let reply = self.session.checkout(node, tree_node, to_daemon_mode(mode));
                let ghost given = reply;
                let r = from_daemon_reply(reply);
                assert(call_ensures(
                    D::checkout,
                    (&self.session, node, tree_node, daemon_mode(mode)),
                    given,
                ) && daemon_answers(given, r));
                r
            },
        }
    }

    fn backend(&self) -> (kind: BackendKind) {
        BackendKind::Daemon
    }
}

} // verus!
