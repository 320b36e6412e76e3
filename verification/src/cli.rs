//! The command line: which procedure runs, and what it leaves behind.

use vstd::prelude::*;

use crate::config::{global_config_flow, read_global_config};
use crate::create::{create_flow, create_worktree, resolve_base, resolve_base_flow};
use crate::destroy::{destroy_flow, destroy_worktree};
use crate::flow::{report, report_flow, Action, ActionModel, Env, Flow, Model, Progress, Reply};
use crate::global::{
    die, die_flow, farewell, farewell_flow, global_flow, go, go_flow, home_of, run_global_mode,
    run_sessions, sessions_flow, Exit,
};
use crate::names::{
    expand_tilde, repo_name, repo_name_of, session_name_of, tilde_expanded, tmux_session_name,
};
use crate::remove::{consent, consent_flow, remove_flow, remove_worktree};
use crate::rename::{rename_flow, rename_worktree};
use crate::repo::{
    current_branch_flow, get_current_branch, get_main_repo_root, list_flow, list_worktrees,
    main_repo_flow, Worktree, WorktreeModel,
};
use crate::text::{cat, same_text};
use crate::tmux::{kill_flow, kill_tmux_session};

verus! {

broadcast use vstd::string::group_string_axioms;

/// The function that a shell evaluates to change to the directory that is
/// printed.
pub const SHELL_INIT: &'static str = "# Add this function to your shell config (~/.bashrc, ~/.zshrc, etc.)
wt() {
    local target
    target=$(command wt \"$@\")
    local code=$?
    if [ $code -eq 0 ] && [ -n \"$target\" ]; then
        if [ -d \"$target\" ]; then
            cd \"$target\"
        else
            echo \"$target\"
        fi
    fi
    return $code
}";

/// What is done in place of moving to a worktree.
#[derive(Debug, PartialEq, Eq)]
pub enum Commands {
    /// Rename a branch, its worktree directory, and its session.
    Rename { new_branch: String, from: Option<String> },
    /// Remove a branch, its worktree, its session, and the remote branch.
    Destroy { branch: Option<String> },
    /// Create sessions for every worktree in every configured repository.
    Sessions,
}

/// The options that the program was started with.
#[derive(Debug, PartialEq, Eq)]
pub struct Cli {
    /// Branch name to switch to, create, or remove.
    pub branch: Option<String>,
    /// Create a new worktree for the branch.
    pub create: bool,
    /// Remove a worktree.
    pub remove: bool,
    /// Print the shell integration function.
    pub shell_init: bool,
    /// Base branch for new worktrees.
    pub base: Option<String>,
    /// Leave sessions alone.
    pub no_session: bool,
    /// Show worktrees from all configured repositories.
    pub global: bool,
    /// Print help.
    pub help: bool,
    pub command: Option<Commands>,
}

/// `Commands` with its texts as sequences.
#[verifier::ext_equal]
pub enum CommandsModel {
    Rename { new_branch: Seq<char>, from: Option<Seq<char>> },
    Destroy { branch: Option<Seq<char>> },
    Sessions,
}

/// `Cli` with its texts as sequences.
#[verifier::ext_equal]
pub struct CliModel {
    pub branch: Option<Seq<char>>,
    pub create: bool,
    pub remove: bool,
    pub shell_init: bool,
    pub base: Option<Seq<char>>,
    pub no_session: bool,
    pub global: bool,
    pub help: bool,
    pub command: Option<CommandsModel>,
}

/// `Env` with its texts as sequences.
#[verifier::ext_equal]
pub struct EnvModel {
    pub home: Option<Seq<char>>,
    pub in_tmux: bool,
    pub timestamp: Seq<char>,
}

impl Model for Commands {
    type M = CommandsModel;

    open spec fn model(&self) -> CommandsModel {
        match self {
            Commands::Rename { new_branch, from } => CommandsModel::Rename {
                new_branch: new_branch@,
                from: from.deep_view(),
            },
            Commands::Destroy { branch } => CommandsModel::Destroy { branch: branch.deep_view() },
            Commands::Sessions => CommandsModel::Sessions,
        }
    }
}

impl Model for Cli {
    type M = CliModel;

    open spec fn model(&self) -> CliModel {
        CliModel {
            branch: self.branch.deep_view(),
            create: self.create,
            remove: self.remove,
            shell_init: self.shell_init,
            base: self.base.deep_view(),
            no_session: self.no_session,
            global: self.global,
            help: self.help,
            command: self.command.model(),
        }
    }
}

impl Model for Env {
    type M = EnvModel;

    open spec fn model(&self) -> EnvModel {
        EnvModel {
            home: self.home.deep_view(),
            in_tmux: self.in_tmux,
            timestamp: self.timestamp@,
        }
    }
}

/// Performs one last action and ends the process well.
pub open spec fn last_flow(action: ActionModel, log: Seq<Reply>, at: int) -> Flow<Exit> {
    if at >= log.len() {
        Flow::Ask(action)
    } else {
        Flow::Done(Exit::Success, at + 1)
    }
}

fn last(action: Action, log: &[Reply], at: usize) -> (res: Progress<Exit>)
    ensures
        res.model() == last_flow(action.model(), log@, at as int),
{
    if at >= log.len() {
        return Progress::Ask(action);
    }
    Progress::Done(Exit::Success, at + 1)
}

/// The first worktree of a branch.
pub open spec fn worktree_of(worktrees: Seq<WorktreeModel>, branch: Seq<char>) -> Option<
    WorktreeModel,
>
    decreases worktrees.len(),
{
    if worktrees.len() == 0 {
        None
    } else if worktrees[0].branch == branch {
        Some(worktrees[0])
    } else {
        worktree_of(worktrees.drop_first(), branch)
    }
}

/// Finds the first worktree of a branch.
pub fn find_worktree<'a>(worktrees: &'a Vec<Worktree>, branch: &str) -> (res: Option<&'a Worktree>)
    ensures
        worktree_of(worktrees.model(), branch@) == (match res {
            Some(worktree) => Some(worktree.model()),
            None => None,
        }),
{
    let ghost all = worktrees.model();
    let mut i: usize = 0;
    proof {
        assert(all.skip(0) == all);
    }
    while i < worktrees.len()
        invariant
            all == worktrees.model(),
            i <= worktrees@.len(),
            worktree_of(all, branch@) == worktree_of(all.skip(i as int), branch@),
        decreases worktrees@.len() - i,
    {
        proof {
            assert(all.skip(i as int)[0] == worktrees@[i as int].model());
            assert(all.skip(i as int).drop_first() == all.skip(i + 1));
        }
        if same_text(worktrees[i].branch.as_str(), branch) {
            return Some(&worktrees[i]);
        }
        i += 1;
    }
    None
}

/// The lines of a selection list of the worktrees of one repository.
pub open spec fn branches_of(worktrees: Seq<WorktreeModel>) -> Seq<Seq<char>> {
    Seq::new(worktrees.len(), |i: int| worktrees[i].branch)
}

fn branches(worktrees: &Vec<Worktree>) -> (res: Vec<String>)
    ensures
        res.deep_view() == branches_of(worktrees.model()),
{
    let ghost all = branches_of(worktrees.model());
    let mut res: Vec<String> = Vec::new();
    let mut i: usize = 0;
    while i < worktrees.len()
        invariant
            all == branches_of(worktrees.model()),
            i <= worktrees@.len(),
            res.deep_view() == all.take(i as int),
        decreases worktrees@.len() - i,
    {
        let ghost before = res.deep_view();
        res.push(worktrees[i].branch.clone());
        proof {
            assert(res.deep_view() =~= before.push(all[i as int]));
            assert(all.take(i + 1) =~= before.push(all[i as int]));
        }
        i += 1;
    }
    proof {
        assert(all.take(i as int) == all);
    }
    res
}

/// The branch that was named, else the one that is checked out.
pub open spec fn named_or_current_flow(
    named: Option<Seq<char>>,
    log: Seq<Reply>,
    at: int,
) -> Flow<Result<Seq<char>, Seq<char>>> {
    match named {
        Some(branch) => Flow::Done(Ok(branch), at),
        None => current_branch_flow(log, at),
    }
}

fn named_or_current(named: &Option<String>, log: &[Reply], at: usize) -> (res: Progress<
    Result<String, String>,
>)
    ensures
        res.model() == named_or_current_flow(named.deep_view(), log@, at as int),
{
    match named {
        Some(branch) => Progress::Done(Ok(branch.clone()), at),
        None => get_current_branch(log, at),
    }
}

/// `wt rename`.
pub open spec fn rename_mode_flow(
    root: Seq<char>,
    new_branch: Seq<char>,
    from: Option<Seq<char>>,
    no_session: bool,
    log: Seq<Reply>,
    at: int,
) -> Flow<Exit> {
    match named_or_current_flow(from, log, at) {
        Flow::Ask(action) => Flow::Ask(action),
        Flow::Done(Err(message), next) => die_flow(message, log, next),
        Flow::Done(Ok(old_branch), next) => match rename_flow(
            root,
            repo_name_of(root),
            old_branch,
            new_branch,
            no_session,
            log,
            next,
        ) {
            Flow::Ask(action) => Flow::Ask(action),
            Flow::Done(Err(message), end) => die_flow(message, log, end),
            Flow::Done(Ok(_), end) => farewell_flow(
                "Renamed '"@ + old_branch + "' to '"@ + new_branch + "'."@,
                log,
                end,
            ),
        },
    }
}

fn rename_mode(
    root: &str,
    new_branch: &str,
    from: &Option<String>,
    no_session: bool,
    log: &[Reply],
    at: usize,
) -> (res: Progress<Exit>)
    ensures
        res.model() == rename_mode_flow(
            root@,
            new_branch@,
            from.deep_view(),
            no_session,
            log@,
            at as int,
        ),
{
    let (old_branch, at) = match named_or_current(from, log, at) {
        Progress::Ask(action) => return Progress::Ask(action),
        Progress::Done(Err(message), at) => return die(message.as_str(), log, at),
        Progress::Done(Ok(branch), at) => (branch, at),
    };
    let name = repo_name(root);
    match rename_worktree(
        root,
        name.as_str(),
        old_branch.as_str(),
        new_branch,
        no_session,
        log,
        at,
    ) {
        Progress::Ask(action) => Progress::Ask(action),
        Progress::Done(Err(message), at) => die(message.as_str(), log, at),
        Progress::Done(Ok(_), at) => {
            let mut line = cat("Renamed '", old_branch.as_str());
            line.append("' to '");
            line.append(new_branch);
            line.append("'.");
            farewell(line, log, at)
        },
    }
}

/// Where backups go, with the home directory put in.
pub open spec fn archive_dir_of(configured: Option<Seq<char>>, home: Option<Seq<char>>) -> Option<
    Seq<char>,
> {
    match configured {
        Some(dir) => Some(tilde_expanded(dir, home)),
        None => None,
    }
}

/// `wt destroy`.
pub open spec fn destroy_mode_flow(
    root: Seq<char>,
    branch: Option<Seq<char>>,
    no_session: bool,
    env: EnvModel,
    log: Seq<Reply>,
    at: int,
) -> Flow<Exit> {
    match named_or_current_flow(branch, log, at) {
        Flow::Ask(action) => Flow::Ask(action),
        Flow::Done(Err(message), next) => die_flow(message, log, next),
        Flow::Done(Ok(branch), next) => match global_config_flow(env.home, log, next) {
            Flow::Ask(action) => Flow::Ask(action),
            Flow::Done(config, configured) => match destroy_flow(
                root,
                repo_name_of(root),
                branch,
                archive_dir_of(config.archive_dir, env.home),
                env.timestamp,
                no_session,
                env.in_tmux,
                log,
                configured,
            ) {
                Flow::Ask(action) => Flow::Ask(action),
                Flow::Done(Err(message), end) => die_flow(message, log, end),
                Flow::Done(Ok(_), end) => farewell_flow(
                    "Destroyed '"@ + branch + "'."@,
                    log,
                    end,
                ),
            },
        },
    }
}

fn destroy_mode(
    root: &str,
    branch: &Option<String>,
    no_session: bool,
    env: &Env,
    log: &[Reply],
    at: usize,
) -> (res: Progress<Exit>)
    ensures
        res.model() == destroy_mode_flow(
            root@,
            branch.deep_view(),
            no_session,
            env.model(),
            log@,
            at as int,
        ),
{
    let (branch, at) = match named_or_current(branch, log, at) {
        Progress::Ask(action) => return Progress::Ask(action),
        Progress::Done(Err(message), at) => return die(message.as_str(), log, at),
        Progress::Done(Ok(branch), at) => (branch, at),
    };
    let home = home_of(env);
    let (config, at) = match read_global_config(home, log, at) {
        Progress::Ask(action) => return Progress::Ask(action),
        Progress::Done(config, at) => (config, at),
    };
    let dir = match &config.archive_dir {
        Some(dir) => Some(expand_tilde(dir.as_str(), home)),
        None => None,
    };
    let archive_dir = match &dir {
        Some(dir) => Some(dir.as_str()),
        None => None,
    };
    let name = repo_name(root);
    match destroy_worktree(
        root,
        name.as_str(),
        branch.as_str(),
        archive_dir,
        env.timestamp.as_str(),
        no_session,
        env.in_tmux,
        log,
        at,
    ) {
        Progress::Ask(action) => Progress::Ask(action),
        Progress::Done(Err(message), at) => die(message.as_str(), log, at),
        Progress::Done(Ok(_), at) => {
            let mut line = cat("Destroyed '", branch.as_str());
            line.append("'.");
            farewell(line, log, at)
        },
    }
}

/// `wt -c`: creates a worktree and moves to it.
pub open spec fn create_mode_flow(
    root: Seq<char>,
    branch: Seq<char>,
    base: Option<Seq<char>>,
    no_session: bool,
    in_tmux: bool,
    log: Seq<Reply>,
    at: int,
) -> Flow<Exit> {
    match resolve_base_flow(root, base, log, at) {
        Flow::Ask(action) => Flow::Ask(action),
        Flow::Done(base, next) => match create_flow(root, branch, base, log, next) {
            Flow::Ask(action) => Flow::Ask(action),
            Flow::Done(Err(message), end) => die_flow(message, log, end),
            Flow::Done(Ok(path), end) => go_flow(
                repo_name_of(root),
                branch,
                path,
                no_session,
                in_tmux,
                log,
                end,
            ),
        },
    }
}

fn create_mode(
    root: &str,
    branch: &str,
    base: &Option<String>,
    no_session: bool,
    in_tmux: bool,
    log: &[Reply],
    at: usize,
) -> (res: Progress<Exit>)
    ensures
        res.model() == create_mode_flow(
            root@,
            branch@,
            base.deep_view(),
            no_session,
            in_tmux,
            log@,
            at as int,
        ),
{
    let wanted = match base {
        Some(base) => Some(base.as_str()),
        None => None,
    };
    let (base, at) = match resolve_base(root, wanted, log, at) {
        Progress::Ask(action) => return Progress::Ask(action),
        Progress::Done(base, at) => (base, at),
    };
    match create_worktree(root, branch, base.as_str(), log, at) {
        Progress::Ask(action) => Progress::Ask(action),
        Progress::Done(Err(message), at) => die(message.as_str(), log, at),
        Progress::Done(Ok(path), at) => go(
            repo_name(root).as_str(),
            branch,
            path.as_str(),
            no_session,
            in_tmux,
            log,
            at,
        ),
    }
}

/// Ends the session of a branch, unless sessions are left alone, and says what
/// was removed.
pub open spec fn removed_flow(
    root: Seq<char>,
    branch: Seq<char>,
    no_session: bool,
    in_tmux: bool,
    log: Seq<Reply>,
    at: int,
) -> Flow<Exit> {
    let line = "Removed worktree for branch '"@ + branch + "'."@;
    if no_session {
        farewell_flow(line, log, at)
    } else {
        match kill_flow(session_name_of(repo_name_of(root), branch), in_tmux, log, at) {
            Flow::Ask(action) => Flow::Ask(action),
            Flow::Done(_, end) => farewell_flow(line, log, end),
        }
    }
}

/// `wt -r`.
pub open spec fn remove_mode_flow(
    root: Seq<char>,
    branch: Seq<char>,
    no_session: bool,
    in_tmux: bool,
    log: Seq<Reply>,
    at: int,
) -> Flow<Exit> {
    match list_flow(root, log, at) {
        Flow::Ask(action) => Flow::Ask(action),
        Flow::Done(Err(message), next) => die_flow(message, log, next),
        Flow::Done(Ok(worktrees), next) => match worktree_of(worktrees, branch) {
            None => die_flow("no worktree found for branch '"@ + branch + "'"@, log, next),
            Some(worktree) => match consent_flow(branch, worktree.path, "Remove"@, log, next) {
                Flow::Ask(action) => Flow::Ask(action),
                Flow::Done(None, asked) => match report_flow("Aborted."@, log, asked) {
                    Flow::Ask(action) => Flow::Ask(action),
                    Flow::Done(_, end) => Flow::Done(Exit::Failure, end),
                },
                Flow::Done(Some(force), asked) => match remove_flow(
                    root,
                    worktree.path,
                    force,
                    log,
                    asked,
                ) {
                    Flow::Ask(action) => Flow::Ask(action),
                    Flow::Done(Err(message), end) => die_flow(message, log, end),
                    Flow::Done(Ok(_), end) => removed_flow(
                        root,
                        branch,
                        no_session,
                        in_tmux,
                        log,
                        end,
                    ),
                },
            },
        },
    }
}

fn remove_mode(
    root: &str,
    branch: &str,
    no_session: bool,
    in_tmux: bool,
    log: &[Reply],
    at: usize,
) -> (res: Progress<Exit>)
    ensures
        res.model() == remove_mode_flow(root@, branch@, no_session, in_tmux, log@, at as int),
{
    let (worktrees, at) = match list_worktrees(root, log, at) {
        Progress::Ask(action) => return Progress::Ask(action),
        Progress::Done(Err(message), at) => return die(message.as_str(), log, at),
        Progress::Done(Ok(worktrees), at) => (worktrees, at),
    };
    let worktree = match find_worktree(&worktrees, branch) {
        Some(worktree) => worktree,
        None => {
            let mut line = cat("no worktree found for branch '", branch);
            line.append("'");
            return die(line.as_str(), log, at);
        },
    };
    let (force, at) = match consent(branch, worktree.path.as_str(), "Remove", log, at) {
        Progress::Ask(action) => return Progress::Ask(action),
        Progress::Done(None, at) => match report("Aborted.".to_owned(), log, at) {
            Progress::Ask(action) => return Progress::Ask(action),
            Progress::Done(_, at) => return Progress::Done(Exit::Failure, at),
        },
        Progress::Done(Some(force), at) => (force, at),
    };
    let at: usize = match remove_worktree(root, worktree, force, log, at) {
        Progress::Ask(action) => return Progress::Ask(action),
        Progress::Done(Err(message), at) => return die(message.as_str(), log, at),
        Progress::Done(Ok(_), at) => at,
    };
    let mut line = cat("Removed worktree for branch '", branch);
    line.append("'.");
    if no_session {
        return farewell(line, log, at);
    }
    let session = tmux_session_name(repo_name(root).as_str(), branch);
    match kill_tmux_session(session.as_str(), in_tmux, log, at) {
        Progress::Ask(action) => Progress::Ask(action),
        Progress::Done(_, at) => farewell(line, log, at),
    }
}

/// `wt <branch>`: moves to the worktree of a branch, and offers to create one
/// where there is none.
pub open spec fn switch_mode_flow(
    root: Seq<char>,
    branch: Seq<char>,
    base: Option<Seq<char>>,
    no_session: bool,
    in_tmux: bool,
    log: Seq<Reply>,
    at: int,
) -> Flow<Exit> {
    match list_flow(root, log, at) {
        Flow::Ask(action) => Flow::Ask(action),
        Flow::Done(Err(message), next) => die_flow(message, log, next),
        Flow::Done(Ok(worktrees), next) => match worktree_of(worktrees, branch) {
            Some(worktree) => go_flow(
                repo_name_of(root),
                branch,
                worktree.path,
                no_session,
                in_tmux,
                log,
                next,
            ),
            None => match report_flow(
                "No worktree found for branch '"@ + branch + "'."@,
                log,
                next,
            ) {
                Flow::Ask(action) => Flow::Ask(action),
                Flow::Done(_, told) => if told >= log.len() {
                    Flow::Ask(
                        ActionModel::Confirm {
                            question: "Create a new worktree for this branch?"@,
                            default: true,
                        },
                    )
                } else if !log[told].is_yes() {
                    Flow::Done(Exit::Failure, told + 1)
                } else {
                    create_mode_flow(root, branch, base, no_session, in_tmux, log, told + 1)
                },
            },
        },
    }
}

fn switch_mode(
    root: &str,
    branch: &str,
    base: &Option<String>,
    no_session: bool,
    in_tmux: bool,
    log: &[Reply],
    at: usize,
) -> (res: Progress<Exit>)
    ensures
        res.model() == switch_mode_flow(
            root@,
            branch@,
            base.deep_view(),
            no_session,
            in_tmux,
            log@,
            at as int,
        ),
{
    let (worktrees, at) = match list_worktrees(root, log, at) {
        Progress::Ask(action) => return Progress::Ask(action),
        Progress::Done(Err(message), at) => return die(message.as_str(), log, at),
        Progress::Done(Ok(worktrees), at) => (worktrees, at),
    };
    match find_worktree(&worktrees, branch) {
        Some(worktree) => {
            return go(
                repo_name(root).as_str(),
                branch,
                worktree.path.as_str(),
                no_session,
                in_tmux,
                log,
                at,
            );
        },
        None => {},
    }
    let mut line = cat("No worktree found for branch '", branch);
    line.append("'.");
    let at: usize = match report(line, log, at) {
        Progress::Ask(action) => return Progress::Ask(action),
        Progress::Done(_, at) => at,
    };
    if at >= log.len() {
        let question = "Create a new worktree for this branch?".to_owned();
        return Progress::Ask(Action::Confirm { question, default: true });
    }
    if !log[at].yes() {
        return Progress::Done(Exit::Failure, at + 1);
    }
    create_mode(root, branch, base, no_session, in_tmux, log, at + 1)
}

/// Moves to the worktree whose branch was chosen. Without a choice the process
/// fails.
pub open spec fn chosen_branch_flow(
    root: Seq<char>,
    choice: Reply,
    worktrees: Seq<WorktreeModel>,
    no_session: bool,
    in_tmux: bool,
    log: Seq<Reply>,
    at: int,
) -> Flow<Exit> {
    match choice {
        Reply::Chosen(branch) => match worktree_of(worktrees, branch@) {
            Some(worktree) => go_flow(
                repo_name_of(root),
                branch@,
                worktree.path,
                no_session,
                in_tmux,
                log,
                at,
            ),
            None => Flow::Done(Exit::Success, at),
        },
        _ => Flow::Done(Exit::Failure, at),
    }
}

/// `wt`: offers the worktrees of the repository, and moves to the one that is
/// chosen.
pub open spec fn pick_mode_flow(
    root: Seq<char>,
    no_session: bool,
    in_tmux: bool,
    log: Seq<Reply>,
    at: int,
) -> Flow<Exit> {
    match list_flow(root, log, at) {
        Flow::Ask(action) => Flow::Ask(action),
        Flow::Done(Err(message), next) => die_flow(message, log, next),
        Flow::Done(Ok(worktrees), next) => if worktrees.len() == 0 {
            die_flow("No worktrees found. Use -c <branch> to create one."@, log, next)
        } else if next >= log.len() {
            Flow::Ask(
                ActionModel::Select {
                    question: "Select a worktree:"@,
                    options: branches_of(worktrees),
                },
            )
        } else {
            chosen_branch_flow(root, log[next], worktrees, no_session, in_tmux, log, next + 1)
        },
    }
}

fn pick_mode(root: &str, no_session: bool, in_tmux: bool, log: &[Reply], at: usize) -> (res:
    Progress<Exit>)
    ensures
        res.model() == pick_mode_flow(root@, no_session, in_tmux, log@, at as int),
{
    let (worktrees, at) = match list_worktrees(root, log, at) {
        Progress::Ask(action) => return Progress::Ask(action),
        Progress::Done(Err(message), at) => return die(message.as_str(), log, at),
        Progress::Done(Ok(worktrees), at) => (worktrees, at),
    };
    if worktrees.len() == 0 {
        return die("No worktrees found. Use -c <branch> to create one.", log, at);
    }
    if at >= log.len() {
        let question = "Select a worktree:".to_owned();
        return Progress::Ask(Action::Select { question, options: branches(&worktrees) });
    }
    match &log[at] {
        Reply::Chosen(branch) => match find_worktree(&worktrees, branch.as_str()) {
            Some(worktree) => go(
                repo_name(root).as_str(),
                branch.as_str(),
                worktree.path.as_str(),
                no_session,
                in_tmux,
                log,
                at + 1,
            ),
            None => Progress::Done(Exit::Success, at + 1),
        },
        _ => Progress::Done(Exit::Failure, at + 1),
    }
}

/// What is done in a repository.
pub open spec fn repo_mode_flow(
    cli: CliModel,
    env: EnvModel,
    root: Seq<char>,
    log: Seq<Reply>,
    at: int,
) -> Flow<Exit> {
    match cli.command {
        Some(CommandsModel::Rename { new_branch, from }) => rename_mode_flow(
            root,
            new_branch,
            from,
            cli.no_session,
            log,
            at,
        ),
        Some(CommandsModel::Destroy { branch }) => destroy_mode_flow(
            root,
            branch,
            cli.no_session,
            env,
            log,
            at,
        ),
        Some(CommandsModel::Sessions) => sessions_flow(env.home, log, at),
        None => match cli.branch {
            Some(branch) => if cli.create {
                create_mode_flow(root, branch, cli.base, cli.no_session, env.in_tmux, log, at)
            } else if cli.remove {
                remove_mode_flow(root, branch, cli.no_session, env.in_tmux, log, at)
            } else {
                switch_mode_flow(root, branch, cli.base, cli.no_session, env.in_tmux, log, at)
            },
            None => if cli.create {
                die_flow("branch name is required with --create"@, log, at)
            } else if cli.remove {
                die_flow("branch name is required with --remove"@, log, at)
            } else {
                pick_mode_flow(root, cli.no_session, env.in_tmux, log, at)
            },
        },
    }
}

fn repo_mode(cli: &Cli, env: &Env, root: &str, log: &[Reply], at: usize) -> (res: Progress<Exit>)
    ensures
        res.model() == repo_mode_flow(cli.model(), env.model(), root@, log@, at as int),
{
    match &cli.command {
        Some(Commands::Rename { new_branch, from }) => {
            return rename_mode(root, new_branch.as_str(), from, cli.no_session, log, at);
        },
        Some(Commands::Destroy { branch }) => {
            return destroy_mode(root, branch, cli.no_session, env, log, at);
        },
        Some(Commands::Sessions) => return run_sessions(env, log, at),
        None => {},
    }
    match &cli.branch {
        Some(branch) => if cli.create {
            create_mode(
                root,
                branch.as_str(),
                &cli.base,
                cli.no_session,
                env.in_tmux,
                log,
                at,
            )
        } else if cli.remove {
            remove_mode(root, branch.as_str(), cli.no_session, env.in_tmux, log, at)
        } else {
            switch_mode(
                root,
                branch.as_str(),
                &cli.base,
                cli.no_session,
                env.in_tmux,
                log,
                at,
            )
        },
        None => if cli.create {
            die("branch name is required with --create", log, at)
        } else if cli.remove {
            die("branch name is required with --remove", log, at)
        } else {
            pick_mode(root, cli.no_session, env.in_tmux, log, at)
        },
    }
}

/// Whether nothing was asked for but a list to choose from.
pub open spec fn is_interactive(cli: CliModel) -> bool {
    cli.branch is None && !cli.create && !cli.remove && cli.command is None
}

/// The whole program. Outside of a repository a plain call offers the worktrees
/// of all configured repositories.
pub open spec fn run_flow(cli: CliModel, env: EnvModel, log: Seq<Reply>) -> Flow<Exit> {
    if cli.help {
        last_flow(ActionModel::ShowHelp, log, 0)
    } else if cli.shell_init {
        last_flow(ActionModel::Print(SHELL_INIT@), log, 0)
    } else if cli.global {
        global_flow(env.home, cli.no_session, env.in_tmux, log, 0)
    } else if cli.command == Some(CommandsModel::Sessions) {
        sessions_flow(env.home, log, 0)
    } else {
        match main_repo_flow(log, 0) {
            Flow::Ask(action) => Flow::Ask(action),
            Flow::Done(Err(message), next) => if is_interactive(cli) {
                global_flow(env.home, cli.no_session, env.in_tmux, log, next)
            } else {
                die_flow(message, log, next)
            },
            Flow::Done(Ok(root), next) => repo_mode_flow(cli, env, root, log, next),
        }
    }
}

/// Runs the whole program as far as the replies go.
pub fn run(cli: &Cli, env: &Env, log: &[Reply]) -> (res: Progress<Exit>)
    ensures
        res.model() == run_flow(cli.model(), env.model(), log@),
{
    if cli.help {
        return last(Action::ShowHelp, log, 0);
    }
    if cli.shell_init {
        return last(Action::Print(SHELL_INIT.to_owned()), log, 0);
    }
    if cli.global {
        return run_global_mode(env, cli.no_session, log, 0);
    }
    match &cli.command {
        Some(Commands::Sessions) => return run_sessions(env, log, 0),
        _ => {},
    }
    match get_main_repo_root(log, 0) {
        Progress::Ask(action) => Progress::Ask(action),
        Progress::Done(Err(message), at) => {
            let interactive = cli.branch.is_none() && !cli.create && !cli.remove
                && cli.command.is_none();
            if interactive {
                return run_global_mode(env, cli.no_session, log, at);
            }
            die(message.as_str(), log, at)
        },
        Progress::Done(Ok(root), at) => repo_mode(cli, env, root.as_str(), log, at),
    }
}

/// Every branch that is offered can be chosen: it stands for a worktree of that
/// branch.
pub proof fn law_offered_branch_found(worktrees: Seq<WorktreeModel>, at: int)
    requires
        0 <= at < worktrees.len(),
    ensures
        worktree_of(worktrees, branches_of(worktrees)[at]) matches Some(worktree)
            && worktree.branch == branches_of(worktrees)[at],
    decreases worktrees.len(),
{
    if at > 0 {
        let rest = worktrees.drop_first();
        law_offered_branch_found(rest, at - 1);
        assert(branches_of(rest)[at - 1] == branches_of(worktrees)[at]);
    }
}

/// Outside of a repository a plain call does what the global option does.
pub proof fn law_global_outside_of_repo(cli: CliModel, env: EnvModel, log: Seq<Reply>)
    requires
        !cli.help && !cli.shell_init && !cli.global,
        is_interactive(cli),
        main_repo_flow(log, 0) matches Flow::Done(Err(_), _),
    ensures
        run_flow(cli, env, log) == global_flow(env.home, cli.no_session, env.in_tmux, log, 1),
{
}

/// A branch that was named is taken as it is. Where none was, it is the one that is
/// checked out.
pub proof fn law_named_branch(name: Seq<char>, log: Seq<Reply>, at: int)
    ensures
        named_or_current_flow(Some(name), log, at) == Flow::Done(Ok::<_, Seq<char>>(name), at),
        named_or_current_flow(None, log, at) == current_branch_flow(log, at),
{
}

} // verus!
