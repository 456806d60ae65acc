//! The backend that drives a plain checkout through the `git` tool.
//!
//! What the tool is asked to do is decided here, as values: a request turns
//! into [`GitAction`]s, and each action into the command line that
//! performs it. Running a command line is the part of the [`GitEngine`],
//! which [`RepoGit`] holds.

use vstd::prelude::*;
use crate::client::{
    BackendKind,
    CheckoutConflict,
    CheckoutMode,
    ClientError,
    ProgressInfo,
    WorkingCopyClient,
};
use crate::git_status::{decode_status, status_of_output};
use crate::hgid::{
    git_empty_tree_bytes,
    hex_bytes,
    is_hgid_hex,
    null_bytes,
    unhex,
    wdir_bytes,
    HgId,
};
use crate::status::StatusMap;
use crate::text::ascii_text;

verus! {

/// One invocation of the tool: `git <name> <args>`.
#[derive(Debug)]
pub struct GitCommand {
    /// The subcommand.
    pub name: String,
    /// Its arguments, in order.
    pub args: Vec<String>,
}

/// The text of an invocation.
pub struct CommandText {
    /// The subcommand.
    pub name: Seq<char>,
    /// Its arguments, in order.
    pub args: Seq<Seq<char>>,
}

impl View for GitCommand {
    type V = CommandText;

    open spec fn view(&self) -> CommandText {
        CommandText {
            name: self.name@,
            args: Seq::new(self.args@.len(), |i: int| self.args@[i]@),
        }
    }
}

/// One thing that the tool is asked to do.
#[derive(Clone, Copy, Debug)]
pub enum GitAction {
    /// Report the changes in the working tree, with or without the
    /// ignored files.
    Status { list_ignored: bool },
    /// Point the head reference at `commit`.
    UpdateHead { commit: HgId },
    /// Reset the index to `tree`, leaving the files of the working tree
    /// alone and not descending into submodules.
    ReadTree { tree: HgId },
    /// Bring the working tree to the content of `commit`, submodules
    /// included, pruning directories that become empty; with `force`,
    /// discard local changes that stand in the way.
    Checkout { commit: HgId, force: bool },
}

/// The hexadecimal text of an identifier.
pub open spec fn hex_text(id: HgId) -> Seq<char> {
    ascii_text(hex_bytes(id@))
}

impl GitAction {
    /// The command line that performs the action.
    pub open spec fn text(self) -> CommandText {
        match self {
            GitAction::Status { list_ignored } => CommandText {
                name: "status"@,
                args: seq![
                    "--no-optional-locks"@,
                    "--porcelain=1"@,
                    "--ignore-submodules=dirty"@,
                    "--untracked-files=all"@,
                    "--no-renames"@,
                    "-z"@,
                    if list_ignored {
                        "--ignored"@
                    } else {
                        "--ignored=no"@
                    },
                ],
            },
            GitAction::UpdateHead { commit } => CommandText {
                name: "update-ref"@,
                args: seq!["HEAD"@, hex_text(commit)],
            },
            GitAction::ReadTree { tree } => CommandText {
                name: "read-tree"@,
                args: seq!["--no-recurse-submodules"@, hex_text(tree)],
            },
            GitAction::Checkout { commit, force } => CommandText {
                name: "checkout"@,
                args: seq![
                    if force {
                        "-fd"@
                    } else {
                        "-d"@
                    },
                    "--recurse-submodules"@,
                    hex_text(commit),
                ],
            },
        }
    }

    /// The command line that performs the action.
    pub fn command(&self) -> (command: GitCommand)
        ensures
            command@ == self.text(),
    {
        let mut args: Vec<String> = Vec::new();
        let name: String;
        match self {
            GitAction::Status { list_ignored } => {
                name = "status".to_owned();
                args.push("--no-optional-locks".to_owned());
                args.push("--porcelain=1".to_owned());
                args.push("--ignore-submodules=dirty".to_owned());
                args.push("--untracked-files=all".to_owned());
                args.push("--no-renames".to_owned());
                args.push("-z".to_owned());
                if *list_ignored {
                    args.push("--ignored".to_owned());
                } else {
                    args.push("--ignored=no".to_owned());
                }
            },
            GitAction::UpdateHead { commit } => {
                name = "update-ref".to_owned();
                args.push("HEAD".to_owned());
                args.push(commit.to_hex());
            },
            GitAction::ReadTree { tree } => {
                name = "read-tree".to_owned();
                args.push("--no-recurse-submodules".to_owned());
                args.push(tree.to_hex());
            },
            GitAction::Checkout { commit, force } => {
                name = "checkout".to_owned();
                if *force {
                    args.push("-fd".to_owned());
                } else {
                    args.push("-d".to_owned());
                }
                args.push("--recurse-submodules".to_owned());
                args.push(commit.to_hex());
            },
        }
        let command = GitCommand { name, args };
        assert(command@.args =~= self.text().args);
        command
    }
}

/// The tree that the index is reset to when the parent changes: none when
/// `p1_tree` is the working-directory identifier, `git`'s empty tree when
/// it is the null identifier, else `p1_tree` itself.
pub open spec fn index_tree(p1_tree: HgId) -> Option<HgId> {
    if p1_tree@ == wdir_bytes() {
        None
    } else if p1_tree@ == null_bytes() {
        Some(HgId::spec_git_empty_tree_id())
    } else {
        Some(p1_tree)
    }
}

/// What `set_parents` asks of the tool when the head reference resolves to
/// `head`: nothing when `head` is `p1` already; else to point the head at
/// `p1` and then, unless there is no tree to reset to, to reset the index.
pub open spec fn set_parents_plan(head: HgId, p1: HgId, p1_tree: HgId) -> Seq<GitAction> {
    if head@ == p1@ {
        seq![]
    } else {
        match index_tree(p1_tree) {
            None => seq![GitAction::UpdateHead { commit: p1 }],
            Some(tree) => seq![GitAction::UpdateHead { commit: p1 }, GitAction::ReadTree { tree }],
        }
    }
}

/// What `checkout` asks of the tool: nothing for a dry run.
pub open spec fn checkout_plan(node: HgId, mode: CheckoutMode) -> Option<GitAction> {
    match mode {
        CheckoutMode::Normal => Some(GitAction::Checkout { commit: node, force: false }),
        CheckoutMode::Force => Some(GitAction::Checkout { commit: node, force: true }),
        CheckoutMode::DryRun => None,
    }
}

/// The commit that the head reference resolves to once the tool has done
/// `action`, when it resolved to `head` before.
pub open spec fn head_after(head: HgId, action: GitAction) -> HgId {
    match action {
        GitAction::UpdateHead { commit } => commit,
        GitAction::Checkout { commit, force } => commit,
        _ => head,
    }
}

/// The commit that the head reference resolves to once the tool has done
/// all of `actions` in order.
pub open spec fn head_after_all(head: HgId, actions: Seq<GitAction>) -> HgId
    decreases actions.len(),
{
    if actions.len() == 0 {
        head
    } else {
        head_after(head_after_all(head, actions.drop_last()), actions.last())
    }
}

/// The tree to reset the index to when the parent changes.
pub fn reset_tree(p1_tree: HgId) -> (tree: Option<HgId>)
    ensures
        tree == index_tree(p1_tree),
        p1_tree@ == null_bytes() ==> (tree matches Some(t) && t@ == git_empty_tree_bytes()),
        p1_tree@ == wdir_bytes() <==> tree is None,
{
    proof {
        assert(null_bytes()[0] != wdir_bytes()[0]);
    }
    if p1_tree.is_wdir() {
        None
    } else if p1_tree.is_null() {
        Some(HgId::git_empty_tree_id())
    } else {
        Some(p1_tree)
    }
}

/// What `set_parents` asks of the tool, given the commit that the head
/// reference resolves to. The second parent has no part in it.
pub fn set_parents_actions(head: HgId, p1: HgId, p2: Option<HgId>, p1_tree: HgId) -> (actions: Vec<
    GitAction,
>)
    ensures
        actions@ == set_parents_plan(head, p1, p1_tree),
{
    let mut actions: Vec<GitAction> = Vec::new();
    if !head.same(&p1) {
        actions.push(GitAction::UpdateHead { commit: p1 });
        match reset_tree(p1_tree) {
            Some(tree) => {
                actions.push(GitAction::ReadTree { tree });
            },
            None => {},
        }
    }
    assert(actions@ =~= set_parents_plan(head, p1, p1_tree));
    actions
}

/// What `checkout` asks of the tool.
pub fn checkout_action(node: HgId, tree_node: HgId, mode: CheckoutMode) -> (action: Option<
    GitAction,
>)
    ensures
        action == checkout_plan(node, mode),
        action is None <==> mode is DryRun,
{
    match mode {
        CheckoutMode::Normal => Some(GitAction::Checkout { commit: node, force: false }),
        CheckoutMode::Force => Some(GitAction::Checkout { commit: node, force: true }),
        CheckoutMode::DryRun => None,
    }
}

/// Whether `r` is what `get_status` answers to the tool's `reply`: the
/// decoded report, or the tool's failure.
pub open spec fn status_answers(
    reply: Result<Vec<u8>, String>,
    r: Result<StatusMap, ClientError>,
) -> bool {
    match reply {
        Ok(output) => r matches Ok(statuses) && statuses@ == status_of_output(output@),
        Err(account) => r matches Err(ClientError::Engine(text)) && text == account,
    }
}

/// What `get_status` answers to the tool's reply.
pub fn status_from_reply(reply: Result<Vec<u8>, String>) -> (r: Result<StatusMap, ClientError>)
    ensures
        status_answers(reply, r),
{
    match reply {
        Ok(output) => Ok(decode_status(output.as_slice())),
        Err(account) => Err(ClientError::Engine(account)),
    }
}

/// The line feed that ends the tool's answer.
pub const LINE_FEED: u8 = 0x0a;

/// The carriage return that may stand before the line feed.
pub const CARRIAGE_RETURN: u8 = 0x0d;

/// `output` without the line end that follows it, if one does.
pub open spec fn without_line_end(output: Seq<u8>) -> Seq<u8> {
    if output.len() > 0 && output.last() == LINE_FEED {
        let line = output.drop_last();
        if line.len() > 0 && line.last() == CARRIAGE_RETURN {
            line.drop_last()
        } else {
            line
        }
    } else {
        output
    }
}

/// Reads the identifier that the tool printed on a line of its own, as
/// `git rev-parse HEAD` does.
pub fn parse_head(output: &[u8]) -> (head: Option<HgId>)
    ensures
        head is Some <==> is_hgid_hex(without_line_end(output@)),
        head matches Some(id) ==> id@ == unhex(without_line_end(output@)),
{
    let mut end: usize = output.len();
    if end > 0 && output[end - 1] == LINE_FEED {
        end -= 1;
        if end > 0 && output[end - 1] == CARRIAGE_RETURN {
            end -= 1;
        }
    }
    let line = vstd::slice::slice_subrange(output, 0, end);
    assert(line@ =~= without_line_end(output@));
    HgId::from_hex(line)
}

/// The engine that runs the tool in one working copy. A call blocks until
/// the tool has ended.
pub trait GitEngine: Send + Sync {
    /// Runs `command` and returns what the tool wrote to its standard
    /// output, or an account of the failure when the tool could not be
    /// run or did not end with success.
    fn call(&self, command: &GitCommand) -> Result<Vec<u8>, String>;

    /// The commit that the head reference resolves to, or an account of
    /// the failure.
    fn resolve_head(&self) -> Result<HgId, String>;
}

/// Whether `reply` is an answer of `engine` to the command line of
/// `action`.
pub open spec fn engine_did<E: GitEngine>(
    engine: &E,
    action: GitAction,
    reply: Result<Vec<u8>, String>,
) -> bool {
    exists|command: GitCommand|
        command@ == action.text() && #[trigger] call_ensures(E::call, (engine, &command), reply)
}

/// Whether `r` is the outcome of having `engine` do `actions` in order, up
/// to the first that fails: success when all succeed, else the account of
/// the failure.
pub open spec fn engine_ran<E: GitEngine>(
    engine: &E,
    actions: Seq<GitAction>,
    r: Result<(), ClientError>,
) -> bool
    decreases actions.len(),
{
    if actions.len() == 0 {
        r is Ok
    } else {
        exists|reply: Result<Vec<u8>, String>| #[trigger]
            engine_did(engine, actions[0], reply) && match reply {
                Ok(_) => engine_ran(engine, actions.skip(1), r),
                Err(account) => r matches Err(ClientError::Engine(text)) && text == account,
            }
    }
}

/// Whether `r` is what `checkout` answers after `engine` did what
/// `checkout_plan` asks: no conflicts when nothing is asked or the tool
/// succeeds, else the account of the failure.
pub open spec fn checkout_answers<E: GitEngine>(
    engine: &E,
    plan: Option<GitAction>,
    r: Result<Vec<CheckoutConflict>, ClientError>,
) -> bool {
    match plan {
        None => r matches Ok(conflicts) && conflicts@.len() == 0,
        Some(action) => exists|reply: Result<Vec<u8>, String>| #[trigger]
            engine_did(engine, action, reply) && match reply {
                Ok(_) => r matches Ok(conflicts) && conflicts@.len() == 0,
                Err(account) => r matches Err(ClientError::Engine(text)) && text == account,
            },
    }
}

/// The client for a plain checkout managed by `git`.
pub struct RepoGit<E: GitEngine> {
    /// The engine that runs the tool.
    pub engine: E,
}

impl<E: GitEngine> RepoGit<E> {
    /// A client that runs the tool through `engine`.
    pub fn new(engine: E) -> (client: RepoGit<E>)
        ensures
            client.engine == engine,
    {
        RepoGit { engine }
    }

    /// Has the tool do `action` and returns its reply.
    fn run(&self, action: &GitAction) -> (reply: Result<Vec<u8>, String>)
        ensures
            engine_did(&self.engine, *action, reply),
    {
        let command = action.command();
        self.engine.call(&command)
    }

    /// Has the tool do `actions[from..]` in order, up to the first that
    /// fails.
    fn run_from(&self, actions: &Vec<GitAction>, from: usize) -> (r: Result<(), ClientError>)
        requires
            from <= actions.len(),
        ensures
            engine_ran(&self.engine, actions@.skip(from as int), r),
        decreases actions.len() - from,
    {
        if from == actions.len() {
            Ok(())
        } else {
            let reply = self.run(&actions[from]);
            proof {
                assert(actions@.skip(from as int)[0] == actions@[from as int]);
                assert(actions@.skip(from as int).skip(1) =~= actions@.skip(from + 1));
            }
            match reply {
                Ok(_) => self.run_from(actions, from + 1),
                Err(account) => Err(ClientError::Engine(account)),
            }
        }
    }
}

impl<E: GitEngine> WorkingCopyClient for RepoGit<E> {
    open spec fn kind(&self) -> BackendKind {
        BackendKind::Git
    }

    /// Asks the tool for its status report and decodes it. The report
    /// tells what the tool's own index and working tree hold; `node` has no
    /// part in it.
    fn get_status(&self, node: HgId, list_ignored: bool) -> (r: Result<StatusMap, ClientError>)
        ensures
            exists|reply: Result<Vec<u8>, String>| #[trigger]
                engine_did(&self.engine, GitAction::Status { list_ignored }, reply)
                    && status_answers(reply, r),
    {
        let reply = self.run(&GitAction::Status { list_ignored });
        let ghost given = reply;
        let r = status_from_reply(reply);
        assert(engine_did(&self.engine, GitAction::Status { list_ignored }, given)
            && status_answers(given, r));
        r
    }

    /// Asks the engine for the head. Does nothing more when the head is
    /// `p1` already; else has the tool point the head at `p1` and reset the
    /// index as `set_parents_plan` says. The second parent has no effect.
    fn set_parents(&self, p1: HgId, p2: Option<HgId>, p1_tree: HgId) -> (r: Result<
        (),
        ClientError,
    >)
        ensures
            exists|head: Result<HgId, String>| #[trigger]
                call_ensures(E::resolve_head, (&self.engine,), head) && match head {
                    Ok(head) => engine_ran(&self.engine, set_parents_plan(head, p1, p1_tree), r),
                    Err(account) => r matches Err(ClientError::Engine(text)) && text == account,
                },
    {
        let head = self.engine.resolve_head();
        let ghost resolved = head;
        let r = match head {
            Ok(head) => {
                let actions = set_parents_actions(head, p1, p2, p1_tree);
                assert(actions@.skip(0) =~= actions@);
                self.run_from(&actions, 0)
            },
            Err(account) => Err(ClientError::Engine(account)),
        };
        assert(call_ensures(E::resolve_head, (&self.engine,), resolved) && match resolved {
            Ok(head) => engine_ran(&self.engine, set_parents_plan(head, p1, p1_tree), r),
            Err(account) => r matches Err(ClientError::Engine(text)) && text == account,
        });
        r
    }

    /// Always fails: the tool cannot tell how far a checkout has come.
    fn checkout_progress(&self) -> (r: Result<Option<ProgressInfo>, ClientError>)
        ensures
            r matches Err(ClientError::Unsupported(text)) && text@
                == "Progress for Git checkout not yet implemented!"@,
    {
        Err(ClientError::Unsupported("Progress for Git checkout not yet implemented!".to_owned()))
    }

    /// Has the tool do what `checkout_plan` asks, which is nothing for a
    /// dry run. Never reports a conflict: a checkout that the tool refuses
    /// fails as a whole.
    fn checkout(&self, node: HgId, tree_node: HgId, mode: CheckoutMode) -> (r: Result<
        Vec<CheckoutConflict>,
        ClientError,
    >)
        ensures
            checkout_answers(&self.engine, checkout_plan(node, mode), r),
    {
        match checkout_action(node, tree_node, mode) {
            None => Ok(Vec::new()),
            Some(action) => {
                let reply = self.run(&action);
                let ghost given = reply;
                let r = match reply {
                    Ok(_) => Ok(Vec::new()),
                    Err(account) => Err(ClientError::Engine(account)),
                };
                assert(engine_did(&self.engine, action, given));
                r
            },
        }
    }

    fn backend(&self) -> (kind: BackendKind) {
        BackendKind::Git
    }
}

/// Setting the parents leaves the head at the first parent, so that
/// setting them again to the same first parent, with whatever tree, asks
/// nothing of the tool.
pub proof fn lemma_set_parents_settles(head: HgId, p1: HgId, p1_tree: HgId, next_tree: HgId)
    ensures
        head_after_all(head, set_parents_plan(head, p1, p1_tree))@ == p1@,
        set_parents_plan(
            head_after_all(head, set_parents_plan(head, p1, p1_tree)),
            p1,
            next_tree,
        ) == Seq::<GitAction>::empty(),
{
    let plan = set_parents_plan(head, p1, p1_tree);
    if head@ == p1@ {
        assert(plan.len() == 0);
    } else {
        match index_tree(p1_tree) {
            None => {
                assert(plan.drop_last().len() == 0);
                assert(plan.last() == GitAction::UpdateHead { commit: p1 });
            },
            Some(tree) => {
                let first = plan.drop_last();
                assert(first.len() == 1);
                assert(first.drop_last().len() == 0);
                assert(first.last() == GitAction::UpdateHead { commit: p1 });
                assert(plan.last() == GitAction::ReadTree { tree });
                assert(head_after_all(head, first) == p1);
            },
        }
    }
}

/// With the head at the first parent already, setting the parents asks
/// nothing of the tool, whatever the tree.
pub proof fn lemma_set_parents_on_current_head(p1: HgId, p1_tree: HgId)
    ensures
        set_parents_plan(p1, p1, p1_tree) == Seq::<GitAction>::empty(),
{
}

/// A dry run asks nothing of the tool; the other modes ask for one
/// checkout of the target commit.
pub proof fn lemma_dry_run_asks_nothing(node: HgId, mode: CheckoutMode)
    ensures
        checkout_plan(node, mode) is None <==> mode is DryRun,
{
}

/// When the tree of the first parent is the null identifier and the head
/// has to move, the index is reset to `git`'s empty tree.
pub proof fn lemma_null_tree_becomes_empty_tree(head: HgId, p1: HgId, p1_tree: HgId)
    requires
        head@ != p1@,
        p1_tree@ == null_bytes(),
    ensures
        index_tree(p1_tree) matches Some(tree) && tree@ == git_empty_tree_bytes(),
        set_parents_plan(head, p1, p1_tree) == seq![
            GitAction::UpdateHead { commit: p1 },
            GitAction::ReadTree { tree: HgId::spec_git_empty_tree_id() },
        ],
{
    assert(null_bytes()[0] != wdir_bytes()[0]);
    HgId::lemma_git_empty_tree_id();
}

} // verus!
