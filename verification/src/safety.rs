//! What the program does only where it was asked to and where it may.

use vstd::prelude::*;

use crate::cli::{
    archive_dir_of, create_mode_flow, destroy_mode_flow, named_or_current_flow, pick_mode_flow,
    remove_mode_flow, rename_mode_flow, run_flow, switch_mode_flow, worktree_of, CliModel,
    CommandsModel, EnvModel,
};
use crate::config::{global_config_flow, no_config, repo_config_flow};
use crate::create::{create_flow, link_flow, links_flow, resolve_base_flow};
use crate::destroy::{
    archive_flow, branches_flow, clear_flow, delete_branch, delete_remote_branch, destroy_flow,
    leave_flow, mirror_files, passed_over_flow,
};
use crate::flow::{awaits, git_of, ActionModel, Flow, Program, Reply};
use crate::global::{
    all_sessions_flow, entries_of, entry_with, gather_flow, global_flow, go_flow, open_session_flow,
    open_sessions_flow, sessions_flow, EntryModel, Exit, TallyModel,
};
use crate::names::{
    archive_path_of, repo_name_of, session_name_of, tilde_expanded, worktree_path_of,
};
use crate::remove::{consent_flow, loss_question, remove_command};
use crate::replay::{
    resume_archive, resume_branches, resume_clear, resume_consent, resume_global_config,
    resume_leave, resume_list, resume_main_repo, resume_named_or_current, resume_passed_over,
};
use crate::repo::{has_ref, list_flow, main_repo_flow, WorktreeModel};
use crate::tmux::{has_session, kill_flow, kill_session, switch_flow};

verus! {

/// What an action can do to the things that the program looks after.
pub enum Effect {
    /// Nothing that is told apart here.
    Other,
    /// It is a tmux command.
    Session,
    /// It writes to standard output.
    Output,
    /// It removes a worktree.
    Removal,
    /// It deletes a branch, here or at the remote repository.
    Deletion,
}

/// What an action does, told by its command line.
pub open spec fn effect_of(action: ActionModel) -> Effect {
    match action {
        ActionModel::Print(_) => Effect::Output,
        ActionModel::Run(command) => {
            let args = command.args;
            if command.program == Program::Tmux {
                Effect::Session
            } else if command.program != Program::Git || args.len() < 2 {
                Effect::Other
            } else if args[0] == "worktree"@ && args[1] == "remove"@ {
                Effect::Removal
            } else if (args[0] == "branch"@ && args[1] == "-D"@) || args[0] == "push"@ {
                Effect::Deletion
            } else {
                Effect::Other
            }
        },
        _ => Effect::Other,
    }
}

/// Whether a procedure asks for nothing that has another effect than these.
pub open spec fn stays_within<M>(flow: Flow<M>, session: bool, output: bool, loss: bool) -> bool {
    flow matches Flow::Ask(action) ==> match effect_of(action) {
        Effect::Other => true,
        Effect::Session => session,
        Effect::Output => output,
        Effect::Removal => loss,
        Effect::Deletion => loss,
    }
}

/// The words by which git commands are told apart.
pub(crate) proof fn lemma_words()
    ensures
        "worktree"@ != "status"@,
        "worktree"@ != "fetch"@,
        "worktree"@ != "symbolic-ref"@,
        "worktree"@ != "show-ref"@,
        "worktree"@ != "rev-parse"@,
        "worktree"@ != "clone"@,
        "worktree"@ != "branch"@,
        "worktree"@ != "push"@,
        "branch"@ != "status"@,
        "branch"@ != "fetch"@,
        "branch"@ != "symbolic-ref"@,
        "branch"@ != "show-ref"@,
        "branch"@ != "rev-parse"@,
        "branch"@ != "clone"@,
        "branch"@ != "push"@,
        "push"@ != "status"@,
        "push"@ != "fetch"@,
        "push"@ != "symbolic-ref"@,
        "push"@ != "show-ref"@,
        "push"@ != "rev-parse"@,
        "push"@ != "clone"@,
        "remove"@ != "list"@,
        "remove"@ != "add"@,
        "remove"@ != "move"@,
        "-D"@ != "-m"@,
{
    reveal_strlit("worktree");
    reveal_strlit("status");
    reveal_strlit("fetch");
    reveal_strlit("symbolic-ref");
    reveal_strlit("show-ref");
    reveal_strlit("rev-parse");
    reveal_strlit("clone");
    reveal_strlit("branch");
    reveal_strlit("push");
    reveal_strlit("remove");
    reveal_strlit("list");
    reveal_strlit("add");
    reveal_strlit("move");
    reveal_strlit("-D");
    reveal_strlit("-m");
    assert("worktree"@.len() == 8 && "branch"@.len() == 6 && "push"@.len() == 4);
    assert("status"@.len() == 6 && "fetch"@.len() == 5 && "symbolic-ref"@.len() == 12);
    assert("show-ref"@.len() == 8 && "rev-parse"@.len() == 9 && "clone"@.len() == 5);
    assert("remove"@.len() == 6 && "list"@.len() == 4 && "add"@.len() == 3 && "move"@.len() == 4);
    assert("worktree"@[0] != "show-ref"@[0]);
    assert("branch"@[0] != "status"@[0]);
    assert("-D"@[1] != "-m"@[1]);
}

proof fn lemma_links_effects(
    main_repo: Seq<char>,
    worktree: Seq<char>,
    entries: Seq<Seq<char>>,
    log: Seq<Reply>,
    at: int,
)
    ensures
        stays_within(links_flow(main_repo, worktree, entries, log, at), false, false, false),
    decreases entries.len(),
{
    if entries.len() > 0 {
        if let Flow::Done(_, next) = link_flow(main_repo, worktree, entries[0], log, at) {
            lemma_links_effects(main_repo, worktree, entries.drop_first(), log, next);
        }
    }
}

pub(crate) proof fn lemma_create_effects(
    main_repo: Seq<char>,
    branch: Seq<char>,
    base: Seq<char>,
    log: Seq<Reply>,
    at: int,
)
    ensures
        stays_within(create_flow(main_repo, branch, base, log, at), false, false, false),
{
    lemma_words();
    let path = worktree_path_of(main_repo, branch);
    if let Flow::Done(entries, next) = repo_config_flow(main_repo, log, at + 4) {
        lemma_links_effects(main_repo, path, entries, log, next);
    }
}

pub(crate) proof fn lemma_resolve_base_effects(
    main_repo: Seq<char>,
    wanted: Option<Seq<char>>,
    log: Seq<Reply>,
    at: int,
)
    ensures
        stays_within(resolve_base_flow(main_repo, wanted, log, at), false, false, false),
{
    lemma_words();
}

pub(crate) proof fn lemma_switch_effects(
    repo_name: Seq<char>,
    branch: Seq<char>,
    path: Seq<char>,
    no_session: bool,
    in_tmux: bool,
    log: Seq<Reply>,
    at: int,
)
    ensures
        stays_within(
            switch_flow(repo_name, branch, path, no_session, in_tmux, log, at),
            !no_session,
            false,
            false,
        ),
{
}

proof fn lemma_go_effects(
    repo_name: Seq<char>,
    branch: Seq<char>,
    path: Seq<char>,
    no_session: bool,
    in_tmux: bool,
    log: Seq<Reply>,
    at: int,
)
    ensures
        stays_within(
            go_flow(repo_name, branch, path, no_session, in_tmux, log, at),
            !no_session,
            true,
            false,
        ),
{
    lemma_switch_effects(repo_name, branch, path, no_session, in_tmux, log, at);
}

proof fn lemma_create_mode_effects(
    root: Seq<char>,
    branch: Seq<char>,
    base: Option<Seq<char>>,
    no_session: bool,
    in_tmux: bool,
    log: Seq<Reply>,
    at: int,
)
    ensures
        stays_within(
            create_mode_flow(root, branch, base, no_session, in_tmux, log, at),
            !no_session,
            true,
            false,
        ),
{
    lemma_resolve_base_effects(root, base, log, at);
    if let Flow::Done(base, next) = resolve_base_flow(root, base, log, at) {
        lemma_create_effects(root, branch, base, log, next);
        if let Flow::Done(Ok(path), end) = create_flow(root, branch, base, log, next) {
            lemma_go_effects(repo_name_of(root), branch, path, no_session, in_tmux, log, end);
        }
    }
}

pub(crate) proof fn lemma_kill_effects(name: Seq<char>, in_tmux: bool, log: Seq<Reply>, at: int)
    ensures
        kill_flow(name, in_tmux, log, at) matches Flow::Ask(action) ==> effect_of(
            action,
        ) is Session,
{
}

pub(crate) proof fn lemma_remove_mode_effects(
    root: Seq<char>,
    branch: Seq<char>,
    no_session: bool,
    in_tmux: bool,
    log: Seq<Reply>,
    at: int,
)
    ensures
        stays_within(
            remove_mode_flow(root, branch, no_session, in_tmux, log, at),
            !no_session,
            false,
            true,
        ),
{
    lemma_words();
    if let Flow::Done(Ok(worktrees), next) = list_flow(root, log, at) {
        if let Some(worktree) = worktree_of(worktrees, branch) {
            if let Flow::Done(Some(force), asked) = consent_flow(
                branch,
                worktree.path,
                "Remove"@,
                log,
                next,
            ) {
                let session = session_name_of(repo_name_of(root), branch);
                lemma_kill_effects(session, in_tmux, log, asked + 1);
            }
        }
    }
}

proof fn lemma_switch_mode_effects(
    root: Seq<char>,
    branch: Seq<char>,
    base: Option<Seq<char>>,
    no_session: bool,
    in_tmux: bool,
    log: Seq<Reply>,
    at: int,
)
    ensures
        stays_within(
            switch_mode_flow(root, branch, base, no_session, in_tmux, log, at),
            !no_session,
            true,
            false,
        ),
{
    lemma_words();
    if let Flow::Done(Ok(worktrees), next) = list_flow(root, log, at) {
        match worktree_of(worktrees, branch) {
            Some(worktree) => {
                let name = repo_name_of(root);
                lemma_go_effects(name, branch, worktree.path, no_session, in_tmux, log, next);
            },
            None => {
                lemma_create_mode_effects(root, branch, base, no_session, in_tmux, log, next + 2);
            },
        }
    }
}

proof fn lemma_pick_mode_effects(
    root: Seq<char>,
    no_session: bool,
    in_tmux: bool,
    log: Seq<Reply>,
    at: int,
)
    ensures
        stays_within(
            pick_mode_flow(root, no_session, in_tmux, log, at),
            !no_session,
            true,
            false,
        ),
{
    lemma_words();
    if let Flow::Done(Ok(worktrees), next) = list_flow(root, log, at) {
        if next < log.len() {
            if let Reply::Chosen(branch) = log[next] {
                if let Some(worktree) = worktree_of(worktrees, branch@) {
                    lemma_go_effects(
                        repo_name_of(root),
                        branch@,
                        worktree.path,
                        no_session,
                        in_tmux,
                        log,
                        next + 1,
                    );
                }
            }
        }
    }
}

pub(crate) proof fn lemma_rename_mode_effects(
    root: Seq<char>,
    new_branch: Seq<char>,
    from: Option<Seq<char>>,
    no_session: bool,
    log: Seq<Reply>,
    at: int,
)
    ensures
        stays_within(
            rename_mode_flow(root, new_branch, from, no_session, log, at),
            !no_session,
            false,
            false,
        ),
{
    lemma_words();
}

proof fn lemma_archive_effects(
    main_repo: Seq<char>,
    branch: Seq<char>,
    archive_dir: Seq<char>,
    target: Seq<char>,
    log: Seq<Reply>,
    at: int,
)
    ensures
        stays_within(
            archive_flow(main_repo, branch, archive_dir, target, log, at),
            false,
            false,
            false,
        ),
{
    lemma_words();
}

pub(crate) proof fn lemma_clear_effects(
    main_repo: Seq<char>,
    repo_name: Seq<char>,
    branch: Seq<char>,
    force: bool,
    archive_dir: Option<Seq<char>>,
    timestamp: Seq<char>,
    log: Seq<Reply>,
    at: int,
)
    ensures
        stays_within(
            clear_flow(main_repo, repo_name, branch, force, archive_dir, timestamp, log, at),
            false,
            false,
            true,
        ),
{
    if let Some(dir) = archive_dir {
        let target = archive_path_of(dir, repo_name, branch, timestamp);
        lemma_archive_effects(main_repo, branch, dir, target, log, at + 1);
    }
}

pub(crate) proof fn lemma_branches_effects(main_repo: Seq<char>, branch: Seq<char>, log: Seq<Reply>, at: int)
    ensures
        branches_flow(main_repo, branch, log, at) matches Flow::Ask(action) ==> {
            &&& action is Run || action is Report
            &&& effect_of(action) is Other || effect_of(action) is Deletion
        },
{
    lemma_words();
}

#[verifier::rlimit(40)]
proof fn lemma_destroy_effects(
    main_repo: Seq<char>,
    repo_name: Seq<char>,
    branch: Seq<char>,
    archive_dir: Option<Seq<char>>,
    timestamp: Seq<char>,
    no_session: bool,
    in_tmux: bool,
    log: Seq<Reply>,
    at: int,
)
    ensures
        stays_within(
            destroy_flow(
                main_repo,
                repo_name,
                branch,
                archive_dir,
                timestamp,
                no_session,
                in_tmux,
                log,
                at,
            ),
            !no_session,
            false,
            true,
        ),
{
    lemma_words();
    if let Flow::Done(Some(force), next) = leave_flow(main_repo, branch, log, at) {
        let cleared = clear_flow(
            main_repo,
            repo_name,
            branch,
            force,
            archive_dir,
            timestamp,
            log,
            next,
        );
        lemma_clear_effects(
            main_repo,
            repo_name,
            branch,
            force,
            archive_dir,
            timestamp,
            log,
            next,
        );
        if let Flow::Done(Ok(_), next) = cleared {
            lemma_branches_effects(main_repo, branch, log, next);
            if let Flow::Done(Ok(_), deleted) = branches_flow(main_repo, branch, log, next) {
                lemma_kill_effects(session_name_of(repo_name, branch), in_tmux, log, deleted);
            }
        }
    }
}

pub(crate) proof fn lemma_destroy_mode_effects(
    root: Seq<char>,
    branch: Option<Seq<char>>,
    no_session: bool,
    env: EnvModel,
    log: Seq<Reply>,
    at: int,
)
    ensures
        stays_within(
            destroy_mode_flow(root, branch, no_session, env, log, at),
            !no_session,
            false,
            true,
        ),
{
    lemma_words();
    if let Flow::Done(Ok(branch), next) = named_or_current_flow(branch, log, at) {
        if let Flow::Done(config, configured) = global_config_flow(env.home, log, next) {
            lemma_destroy_effects(
                root,
                repo_name_of(root),
                branch,
                archive_dir_of(config.archive_dir, env.home),
                env.timestamp,
                no_session,
                env.in_tmux,
                log,
                configured,
            );
        }
    }
}

pub(crate) proof fn lemma_gather_effects(
    repos: Seq<Seq<char>>,
    home: Option<Seq<char>>,
    found: Seq<EntryModel>,
    log: Seq<Reply>,
    at: int,
)
    ensures
        stays_within(gather_flow(repos, home, found, log, at), false, false, false),
    decreases repos.len(),
{
    lemma_words();
    if repos.len() > 0 {
        let path = tilde_expanded(repos[0], home);
        let rest = repos.drop_first();
        match list_flow(path, log, at) {
            Flow::Done(Ok(worktrees), next) => {
                let more = found + entries_of(repo_name_of(path), worktrees);
                lemma_gather_effects(rest, home, more, log, next);
            },
            Flow::Done(Err(_), next) => {
                lemma_gather_effects(rest, home, found, log, next + 1);
            },
            Flow::Ask(_) => {},
        }
    }
}

proof fn lemma_global_effects(
    home: Option<Seq<char>>,
    no_session: bool,
    in_tmux: bool,
    log: Seq<Reply>,
    at: int,
)
    ensures
        stays_within(
            global_flow(home, no_session, in_tmux, log, at),
            !no_session,
            true,
            false,
        ),
{
    if let Flow::Done(config, next) = global_config_flow(home, log, at) {
        let gathered = gather_flow(config.repos, home, Seq::empty(), log, next);
        lemma_gather_effects(config.repos, home, Seq::empty(), log, next);
        if let Flow::Done(entries, next) = gathered {
            if next < log.len() {
                if let Reply::Chosen(label) = log[next] {
                    if let Some(entry) = entry_with(entries, label@) {
                        lemma_go_effects(
                            entry.repo_name,
                            entry.branch,
                            entry.path,
                            no_session,
                            in_tmux,
                            log,
                            next + 1,
                        );
                    }
                }
            }
        }
    }
}

proof fn lemma_open_sessions_effects(
    repo_name: Seq<char>,
    worktrees: Seq<WorktreeModel>,
    tally: TallyModel,
    log: Seq<Reply>,
    at: int,
)
    ensures
        stays_within(
            open_sessions_flow(repo_name, worktrees, tally, log, at),
            true,
            false,
            false,
        ),
    decreases worktrees.len(),
{
    if worktrees.len() > 0 {
        if let Flow::Done(counted, next) = open_session_flow(
            repo_name,
            worktrees[0],
            tally,
            log,
            at,
        ) {
            lemma_open_sessions_effects(repo_name, worktrees.drop_first(), counted, log, next);
        }
    }
}

proof fn lemma_all_sessions_effects(
    repos: Seq<Seq<char>>,
    home: Option<Seq<char>>,
    tally: TallyModel,
    log: Seq<Reply>,
    at: int,
)
    ensures
        stays_within(all_sessions_flow(repos, home, tally, log, at), true, false, false),
    decreases repos.len(),
{
    lemma_words();
    if repos.len() > 0 {
        let path = tilde_expanded(repos[0], home);
        let rest = repos.drop_first();
        match list_flow(path, log, at) {
            Flow::Done(Ok(worktrees), next) => {
                let name = repo_name_of(path);
                lemma_open_sessions_effects(name, worktrees, tally, log, next);
                if let Flow::Done(counted, end) = open_sessions_flow(
                    name,
                    worktrees,
                    tally,
                    log,
                    next,
                ) {
                    lemma_all_sessions_effects(rest, home, counted, log, end);
                }
            },
            Flow::Done(Err(_), next) => {
                lemma_all_sessions_effects(rest, home, tally, log, next + 1);
            },
            Flow::Ask(_) => {},
        }
    }
}

pub(crate) proof fn lemma_sessions_effects(home: Option<Seq<char>>, log: Seq<Reply>, at: int)
    ensures
        stays_within(sessions_flow(home, log, at), true, false, false),
{
    let none = TallyModel { total: 0, created: 0, existed: 0 };
    if let Flow::Done(config, next) = global_config_flow(home, log, at) {
        lemma_all_sessions_effects(config.repos, home, none, log, next);
    }
}

/// Whether the sessions of all repositories were asked for.
pub open spec fn wants_sessions(cli: CliModel) -> bool {
    cli.command == Some(CommandsModel::Sessions)
}

/// Whether a worktree is to be removed or a branch to be destroyed.
pub open spec fn wants_loss(cli: CliModel) -> bool {
    !cli.help && !cli.shell_init && !cli.global && match cli.command {
        Some(CommandsModel::Destroy { .. }) => true,
        Some(_) => false,
        None => cli.remove && cli.branch is Some && !cli.create,
    }
}

/// What the program does is limited by what it was started for. Without sessions
/// no tmux command is run, unless sessions are all that was asked for. No
/// worktree is removed and no branch deleted unless that was asked for, and
/// where it was, nothing is written to standard output.
#[verifier::rlimit(40)]
pub proof fn law_effects_wanted(cli: CliModel, env: EnvModel, log: Seq<Reply>)
    ensures
        run_flow(cli, env, log) matches Flow::Ask(action) ==> match effect_of(action) {
            Effect::Other => true,
            Effect::Session => !cli.no_session || wants_sessions(cli),
            Effect::Output => !wants_loss(cli),
            Effect::Removal => wants_loss(cli),
            Effect::Deletion => wants_loss(cli),
        },
{
    lemma_words();
    let no_session = cli.no_session;
    let in_tmux = env.in_tmux;
    lemma_global_effects(env.home, no_session, in_tmux, log, 0);
    lemma_sessions_effects(env.home, log, 0);
    match main_repo_flow(log, 0) {
        Flow::Ask(_) => {},
        Flow::Done(Err(_), next) => {
            lemma_global_effects(env.home, no_session, in_tmux, log, next);
        },
        Flow::Done(Ok(root), next) => {
            match cli.command {
                Some(CommandsModel::Rename { new_branch, from }) => {
                    lemma_rename_mode_effects(root, new_branch, from, no_session, log, next);
                },
                Some(CommandsModel::Destroy { branch }) => {
                    lemma_destroy_mode_effects(root, branch, no_session, env, log, next);
                },
                Some(CommandsModel::Sessions) => {},
                None => {
                    if let Some(branch) = cli.branch {
                        let base = cli.base;
                        lemma_create_mode_effects(
                            root,
                            branch,
                            base,
                            no_session,
                            in_tmux,
                            log,
                            next,
                        );
                        lemma_remove_mode_effects(root, branch, no_session, in_tmux, log, next);
                        lemma_switch_mode_effects(
                            root,
                            branch,
                            base,
                            no_session,
                            in_tmux,
                            log,
                            next,
                        );
                    } else {
                        lemma_pick_mode_effects(root, no_session, in_tmux, log, next);
                    }
                },
            }
        },
    }
}

/// A branch that is to be destroyed, and how.
pub struct Destruction {
    pub main_repo: Seq<char>,
    pub repo_name: Seq<char>,
    pub branch: Seq<char>,
    pub archive_dir: Option<Seq<char>>,
    pub timestamp: Seq<char>,
    pub no_session: bool,
    pub in_tmux: bool,
}

impl Destruction {
    pub open spec fn flow(self, log: Seq<Reply>, at: int) -> Flow<Result<(), Seq<char>>> {
        destroy_flow(
            self.main_repo,
            self.repo_name,
            self.branch,
            self.archive_dir,
            self.timestamp,
            self.no_session,
            self.in_tmux,
            log,
            at,
        )
    }

    /// The worktree of the branch.
    pub open spec fn path(self) -> Seq<char> {
        worktree_path_of(self.main_repo, self.branch)
    }

    /// Where the worktree is backed up.
    pub open spec fn target(self, dir: Seq<char>) -> Seq<char> {
        archive_path_of(dir, self.repo_name, self.branch, self.timestamp)
    }

    /// The removal of the worktree.
    pub open spec fn removal(self, force: bool) -> ActionModel {
        remove_command(self.main_repo, self.path(), force)
    }

    spec fn clearing(self, force: bool, log: Seq<Reply>, at: int) -> Flow<Result<(), Seq<char>>> {
        clear_flow(
            self.main_repo,
            self.repo_name,
            self.branch,
            force,
            self.archive_dir,
            self.timestamp,
            log,
            at,
        )
    }
}

/// Only a removal by force says so.
proof fn lemma_removals_differ(main_repo: Seq<char>, path: Seq<char>)
    ensures
        remove_command(main_repo, path, true) != remove_command(main_repo, path, false),
        effect_of(remove_command(main_repo, path, true)) is Removal,
        effect_of(remove_command(main_repo, path, false)) is Removal,
{
    let forced = seq!["worktree"@, "remove"@, "--force"@, path];
    let unforced = seq!["worktree"@, "remove"@, path];
    assert(forced.len() != unforced.len());
}

/// A removal comes from the part of the destruction that clears the worktree
/// away, and is that of the worktree of the branch.
#[verifier::rlimit(40)]
proof fn lemma_removal_asked(d: Destruction, log: Seq<Reply>, at: int)
    requires
        0 <= at <= log.len(),
        d.flow(log, at) matches Flow::Ask(action) && effect_of(action) is Removal,
    ensures
        leave_flow(d.main_repo, d.branch, log, at) matches Flow::Done(Some(force), next) && {
            &&& awaits(d.flow(log, at), d.removal(force))
            &&& next < log.len()
            &&& log[next].is_yes()
            &&& match d.archive_dir {
                None => log.len() == next + 1,
                Some(dir) => archive_flow(
                    d.main_repo,
                    d.branch,
                    dir,
                    d.target(dir),
                    log,
                    next + 1,
                ) == Flow::Done(Ok::<(), Seq<char>>(()), log.len() as int),
            }
        },
{
    lemma_words();
    resume_leave(d.main_repo, d.branch, log, log, at);
    if let Flow::Done(Some(force), next) = leave_flow(d.main_repo, d.branch, log, at) {
        let clearing = d.clearing(force, log, next);
        if let Some(dir) = d.archive_dir {
            lemma_archive_effects(d.main_repo, d.branch, dir, d.target(dir), log, next + 1);
            if next < log.len() {
                resume_archive(
                    d.main_repo,
                    d.branch,
                    dir,
                    d.target(dir),
                    log,
                    log,
                    next + 1,
                );
            }
        }
        if let Flow::Done(Ok(_), cleared) = clearing {
            let session = session_name_of(d.repo_name, d.branch);
            lemma_branches_effects(d.main_repo, d.branch, log, cleared);
            if let Flow::Done(Ok(_), deleted) = branches_flow(
                d.main_repo,
                d.branch,
                log,
                cleared,
            ) {
                lemma_kill_effects(session, d.in_tmux, log, deleted);
            }
        }
        assert(clearing is Ask);
    }
}

/// The worktree of a branch that is destroyed is removed by force only if the
/// user has agreed to lose its uncommitted changes.
pub proof fn law_destroy_agreed(d: Destruction, log: Seq<Reply>, at: int)
    requires
        0 <= at <= log.len(),
        awaits(d.flow(log, at), d.removal(true)),
    ensures
        at + 2 < log.len(),
        awaits(d.flow(log.take(at + 2), at), loss_question(d.branch, "Destroy"@)),
        log[at + 2].is_yes(),
{
    lemma_removals_differ(d.main_repo, d.path());
    lemma_removal_asked(d, log, at);
}

/// If the user does not agree to lose uncommitted changes, that is the end of
/// the destruction.
#[verifier::rlimit(40)]
pub proof fn law_destroy_refused(d: Destruction, log: Seq<Reply>, at: int, reply: Reply)
    requires
        0 <= at <= log.len(),
        awaits(d.flow(log, at), loss_question(d.branch, "Destroy"@)),
        !reply.is_yes(),
    ensures
        d.flow(log.push(reply), at) == Flow::Done(
            Err::<(), Seq<char>>("Aborted."@),
            log.len() as int + 1,
        ),
{
    lemma_question_asked(d, log, at);
    lemma_refused(d.main_repo, d.branch, log, at, reply);
}

/// The user is asked only whether the worktree may go.
proof fn lemma_question_asked(d: Destruction, log: Seq<Reply>, at: int)
    requires
        0 <= at <= log.len(),
        d.flow(log, at) matches Flow::Ask(action) && action is Confirm,
    ensures
        leave_flow(d.main_repo, d.branch, log, at) matches Flow::Ask(action) && d.flow(log, at)
            == Flow::<Result<(), Seq<char>>>::Ask(action),
{
    if let Flow::Done(Some(force), next) = leave_flow(d.main_repo, d.branch, log, at) {
        if let Flow::Done(Ok(_), cleared) = d.clearing(force, log, next) {
            let session = session_name_of(d.repo_name, d.branch);
            lemma_branches_effects(d.main_repo, d.branch, log, cleared);
            if let Flow::Done(Ok(_), deleted) = branches_flow(
                d.main_repo,
                d.branch,
                log,
                cleared,
            ) {
                lemma_kill_effects(session, d.in_tmux, log, deleted);
            }
        }
    }
}

proof fn lemma_refused(
    main_repo: Seq<char>,
    branch: Seq<char>,
    log: Seq<Reply>,
    at: int,
    reply: Reply,
)
    requires
        0 <= at <= log.len(),
        leave_flow(main_repo, branch, log, at) matches Flow::Ask(action) && action is Confirm,
        !reply.is_yes(),
    ensures
        leave_flow(main_repo, branch, log.push(reply), at) == Flow::Done(
            None::<bool>,
            log.len() as int + 1,
        ),
{
}

/// Where backups are wanted, a worktree is removed only right after a backup of
/// it was completed: its files were mirrored, or all of it was copied.
#[verifier::rlimit(40)]
pub proof fn law_destroy_backed_up(
    d: Destruction,
    dir: Seq<char>,
    log: Seq<Reply>,
    at: int,
    force: bool,
)
    requires
        0 <= at <= log.len(),
        d.archive_dir == Some(dir),
        awaits(d.flow(log, at), d.removal(force)),
    ensures
        at < log.len(),
        ({
            let before = d.flow(log.drop_last(), at);
            let mirrored = mirror_files(d.path(), d.target(dir));
            let copied = ActionModel::CopyTree { source: d.path(), target: d.target(dir) };
            ||| awaits(before, mirrored) && log.last().is_yes()
            ||| awaits(before, copied) && log.last().failure_of() is None
        }),
{
    let earlier = log.drop_last();
    lemma_removals_differ(d.main_repo, d.path());
    lemma_removal_asked(d, log, at);
    resume_leave(d.main_repo, d.branch, earlier, log, at);
}

/// Directories are created and copied only where the worktree is cleared away.
proof fn lemma_backup_asked(d: Destruction, log: Seq<Reply>, at: int)
    requires
        0 <= at <= log.len(),
        d.flow(log, at) matches Flow::Ask(action) && (action is CreateDirs || action is CopyTree),
    ensures
        leave_flow(d.main_repo, d.branch, log, at) matches Flow::Done(Some(force), next) && {
            &&& next <= log.len()
            &&& d.clearing(force, log, next) == d.flow(log, at)
        },
{
    resume_leave(d.main_repo, d.branch, log, log, at);
    if let Flow::Done(Some(force), next) = leave_flow(d.main_repo, d.branch, log, at) {
        if let Flow::Done(Ok(_), cleared) = d.clearing(force, log, next) {
            let session = session_name_of(d.repo_name, d.branch);
            lemma_branches_effects(d.main_repo, d.branch, log, cleared);
            if let Flow::Done(Ok(_), deleted) = branches_flow(
                d.main_repo,
                d.branch,
                log,
                cleared,
            ) {
                lemma_kill_effects(session, d.in_tmux, log, deleted);
            }
        }
    }
}

/// If a backup cannot be written, that is the end of the destruction, and the
/// worktree is left as it is.
pub proof fn law_destroy_failed_backup(
    d: Destruction,
    dir: Seq<char>,
    log: Seq<Reply>,
    at: int,
    reply: Reply,
)
    requires
        0 <= at <= log.len(),
        d.archive_dir == Some(dir),
        ({
            ||| awaits(d.flow(log, at), ActionModel::CreateDirs(dir))
            ||| awaits(
                d.flow(log, at),
                ActionModel::CopyTree { source: d.path(), target: d.target(dir) },
            )
        }),
        reply.failure_of() is Some,
    ensures
        d.flow(log.push(reply), at) matches Flow::Done(Err(_), end) && end == log.len() + 1,
{
    let longer = log.push(reply);
    lemma_backup_asked(d, log, at);
    resume_leave(d.main_repo, d.branch, log, longer, at);
    if let Flow::Done(Some(force), next) = leave_flow(d.main_repo, d.branch, log, at) {
        lemma_backup_fails(d, dir, force, log, next, reply);
    }
}

proof fn lemma_backup_fails(
    d: Destruction,
    dir: Seq<char>,
    force: bool,
    log: Seq<Reply>,
    at: int,
    reply: Reply,
)
    requires
        0 <= at <= log.len(),
        d.archive_dir == Some(dir),
        d.clearing(force, log, at) matches Flow::Ask(action) && (action is CreateDirs
            || action is CopyTree),
        reply.failure_of() is Some,
    ensures
        d.clearing(force, log.push(reply), at) matches Flow::Done(Err(_), end) && end == log.len()
            + 1,
{
    assert(archive_flow(d.main_repo, d.branch, dir, d.target(dir), log, at + 1) is Ask);
}

/// A worktree was cleared away because it was missing or because its removal
/// succeeded.
proof fn lemma_cleared(d: Destruction, force: bool, log: Seq<Reply>, at: int)
    requires
        0 <= at <= log.len(),
        d.clearing(force, log, at) == Flow::Done(Ok::<(), Seq<char>>(()), log.len() as int),
    ensures
        at < log.len(),
        ({
            let before = d.clearing(force, log.drop_last(), at);
            ||| awaits(before, ActionModel::Exists(d.path())) && !log.last().is_yes()
            ||| awaits(before, d.removal(force)) && log.last().is_yes()
        }),
{
    let earlier = log.drop_last();
    if let Some(dir) = d.archive_dir {
        if at < log.len() {
            resume_archive(d.main_repo, d.branch, dir, d.target(dir), log, log, at + 1);
        }
        if at + 1 < log.len() {
            resume_archive(d.main_repo, d.branch, dir, d.target(dir), earlier, log, at + 1);
        }
    }
}

/// The branch itself is deleted only once its worktree is gone: right after it
/// was found to be missing, or after its removal succeeded.
#[verifier::rlimit(40)]
pub proof fn law_destroy_worktree_first(d: Destruction, log: Seq<Reply>, at: int)
    requires
        0 <= at <= log.len(),
        awaits(d.flow(log, at), delete_branch(d.main_repo, d.branch)),
    ensures
        at < log.len(),
        ({
            let before = d.flow(log.drop_last(), at);
            ||| awaits(before, ActionModel::Exists(d.path())) && !log.last().is_yes()
            ||| awaits(before, d.removal(true)) && log.last().is_yes()
            ||| awaits(before, d.removal(false)) && log.last().is_yes()
        }),
{
    let earlier = log.drop_last();
    lemma_deletion_asked(d, log, at);
    if let Flow::Done(Some(force), next) = leave_flow(d.main_repo, d.branch, log, at) {
        lemma_cleared(d, force, log, next);
        resume_leave(d.main_repo, d.branch, earlier, log, at);
    }
}

#[verifier::rlimit(40)]
proof fn lemma_deletion_asked(d: Destruction, log: Seq<Reply>, at: int)
    requires
        0 <= at <= log.len(),
        awaits(d.flow(log, at), delete_branch(d.main_repo, d.branch)),
    ensures
        leave_flow(d.main_repo, d.branch, log, at) matches Flow::Done(Some(force), next) && {
            &&& at < next <= log.len()
            &&& d.clearing(force, log, next) == Flow::Done(
                Ok::<(), Seq<char>>(()),
                log.len() as int,
            )
        },
{
    lemma_words();
    resume_leave(d.main_repo, d.branch, log, log, at);
    assert(effect_of(delete_branch(d.main_repo, d.branch)) is Deletion);
    if let Flow::Done(Some(force), next) = leave_flow(d.main_repo, d.branch, log, at) {
        let clearing = d.clearing(force, log, next);
        if let Some(dir) = d.archive_dir {
            lemma_archive_effects(d.main_repo, d.branch, dir, d.target(dir), log, next + 1);
        }
        lemma_removals_differ(d.main_repo, d.path());
        resume_clear(
            d.main_repo,
            d.repo_name,
            d.branch,
            force,
            d.archive_dir,
            d.timestamp,
            log,
            log,
            next,
        );
        if let Flow::Done(Ok(_), cleared) = clearing {
            let session = session_name_of(d.repo_name, d.branch);
            if let Flow::Done(Ok(_), deleted) = branches_flow(
                d.main_repo,
                d.branch,
                log,
                cleared,
            ) {
                lemma_kill_effects(session, d.in_tmux, log, deleted);
            }
            if cleared < log.len() {
                lemma_local_first(d.main_repo, d.branch, log, cleared);
            }
        }
    }
}

/// Once the branch was deleted here, it is not deleted here again.
proof fn lemma_local_first(main_repo: Seq<char>, branch: Seq<char>, log: Seq<Reply>, at: int)
    requires
        0 <= at < log.len(),
    ensures
        !awaits(branches_flow(main_repo, branch, log, at), delete_branch(main_repo, branch)),
{
    lemma_words();
    let local = seq!["branch"@, "-D"@, branch];
    let remote = seq!["push"@, "origin"@, "--delete"@, branch];
    assert(local.len() != remote.len());
    assert(effect_of(delete_branch(main_repo, branch)) is Deletion);
}

/// What a destruction asks for once the worktree is cleared away.
#[verifier::rlimit(40)]
proof fn lemma_asked_later(
    d: Destruction,
    log: Seq<Reply>,
    at: int,
    next: int,
    cleared: int,
    force: bool,
    later: int,
)
    requires
        0 <= at <= log.len(),
        leave_flow(d.main_repo, d.branch, log, at) == Flow::Done(Some(force), next),
        d.clearing(force, log, next) == Flow::Done(Ok::<(), Seq<char>>(()), cleared),
        cleared <= later <= log.len(),
    ensures
        at < next <= cleared,
        branches_flow(d.main_repo, d.branch, log.take(later), cleared) matches Flow::Ask(action)
            ==> awaits(d.flow(log.take(later), at), action),
        !d.no_session ==> (branches_flow(
            d.main_repo,
            d.branch,
            log.take(later),
            cleared,
        ) matches Flow::Done(Ok(_), deleted) ==> (kill_flow(
            session_name_of(d.repo_name, d.branch),
            d.in_tmux,
            log.take(later),
            deleted,
        ) matches Flow::Ask(action) ==> awaits(d.flow(log.take(later), at), action))),
{
    let earlier = log.take(later);
    resume_leave(d.main_repo, d.branch, log, log, at);
    resume_clear(
        d.main_repo,
        d.repo_name,
        d.branch,
        force,
        d.archive_dir,
        d.timestamp,
        log,
        log,
        next,
    );
    resume_leave(d.main_repo, d.branch, earlier, log, at);
    resume_clear(
        d.main_repo,
        d.repo_name,
        d.branch,
        force,
        d.archive_dir,
        d.timestamp,
        earlier,
        log,
        next,
    );
}

/// Where the branch was deleted here, and the remote one was asked for.
proof fn lemma_branches_complete(
    main_repo: Seq<char>,
    branch: Seq<char>,
    log: Seq<Reply>,
    at: int,
) -> (asked: int)
    requires
        0 <= at <= log.len(),
        branches_flow(main_repo, branch, log, at) matches Flow::Done(Ok(_), _),
    ensures
        branches_flow(main_repo, branch, log, at)->1 <= log.len(),
        at < asked < branches_flow(main_repo, branch, log, at)->1,
        awaits(
            branches_flow(main_repo, branch, log.take(at), at),
            delete_branch(main_repo, branch),
        ),
        awaits(
            branches_flow(main_repo, branch, log.take(asked), at),
            has_ref(main_repo, "refs/remotes/origin/"@ + branch),
        ),
        log[asked].is_yes() ==> asked + 1 < log.len() && awaits(
            branches_flow(main_repo, branch, log.take(asked + 1), at),
            delete_remote_branch(main_repo, branch),
        ),
{
    let warning = "Warning: could not delete local branch: "@;
    resume_branches(main_repo, branch, log, log, at);
    let asked = passed_over_flow(log[at], warning, log, at + 1)->1;
    resume_passed_over(log[at], warning, log, log, at + 1);
    resume_passed_over(log[at], warning, log.take(asked), log, at + 1);
    if asked + 1 <= log.len() {
        resume_passed_over(log[at], warning, log.take(asked + 1), log, at + 1);
    }
    asked
}

/// A session that exists is ended last of all.
pub(crate) proof fn lemma_kill_complete(name: Seq<char>, in_tmux: bool, log: Seq<Reply>, at: int)
    requires
        0 <= at <= log.len(),
        kill_flow(name, in_tmux, log, at) is Done,
    ensures
        at < kill_flow(name, in_tmux, log, at)->1 <= log.len(),
        awaits(kill_flow(name, in_tmux, log.take(at), at), has_session(name)),
        log[at].is_yes() ==> awaits(
            kill_flow(name, in_tmux, log.take(kill_flow(name, in_tmux, log, at)->1 - 1), at),
            kill_session(name),
        ),
{
}

/// The stages of a destruction that ends well: the user has let the worktree go, and
/// it was cleared away.
proof fn lemma_destroy_stages(d: Destruction, log: Seq<Reply>, at: int) -> (res: (bool, int, int))
    requires
        0 <= at <= log.len(),
        d.flow(log, at) matches Flow::Done(Ok(_), _),
    ensures
        leave_flow(d.main_repo, d.branch, log, at) == Flow::Done(Some(res.0), res.1),
        d.clearing(res.0, log, res.1) == Flow::Done(Ok::<(), Seq<char>>(()), res.2),
        at < res.1 <= res.2 <= log.len(),
        branches_flow(d.main_repo, d.branch, log, res.2) matches Flow::Done(Ok(_), deleted) && (
        d.no_session || kill_flow(
            session_name_of(d.repo_name, d.branch),
            d.in_tmux,
            log,
            deleted,
        ) is Done),
{
    let force = leave_flow(d.main_repo, d.branch, log, at)->Done_0->0;
    let next = leave_flow(d.main_repo, d.branch, log, at)->1;
    let cleared = d.clearing(force, log, next)->1;
    resume_leave(d.main_repo, d.branch, log, log, at);
    resume_clear(
        d.main_repo,
        d.repo_name,
        d.branch,
        force,
        d.archive_dir,
        d.timestamp,
        log,
        log,
        next,
    );
    (force, next, cleared)
}

/// When the deletions of a destruction were asked for.
proof fn lemma_deletions_asked(
    d: Destruction,
    log: Seq<Reply>,
    at: int,
    next: int,
    cleared: int,
    force: bool,
) -> (asked: int)
    requires
        0 <= at < next <= cleared <= log.len(),
        leave_flow(d.main_repo, d.branch, log, at) == Flow::Done(Some(force), next),
        d.clearing(force, log, next) == Flow::Done(Ok::<(), Seq<char>>(()), cleared),
        branches_flow(d.main_repo, d.branch, log, cleared) matches Flow::Done(Ok(_), _),
    ensures
        cleared < asked < log.len(),
        awaits(d.flow(log.take(cleared), at), delete_branch(d.main_repo, d.branch)),
        awaits(
            d.flow(log.take(asked), at),
            has_ref(d.main_repo, "refs/remotes/origin/"@ + d.branch),
        ),
        log[asked].is_yes() ==> awaits(
            d.flow(log.take(asked + 1), at),
            delete_remote_branch(d.main_repo, d.branch),
        ),
{
    let asked = lemma_branches_complete(d.main_repo, d.branch, log, cleared);
    lemma_asked_later(d, log, at, next, cleared, force, cleared);
    lemma_asked_later(d, log, at, next, cleared, force, asked);
    if asked + 1 <= log.len() {
        lemma_asked_later(d, log, at, next, cleared, force, asked + 1);
    }
    asked
}

/// When the end of the session was asked for in a destruction.
proof fn lemma_end_asked(
    d: Destruction,
    log: Seq<Reply>,
    at: int,
    next: int,
    cleared: int,
    force: bool,
    deleted: int,
) -> (last: int)
    requires
        !d.no_session,
        0 <= at < next <= cleared <= log.len(),
        leave_flow(d.main_repo, d.branch, log, at) == Flow::Done(Some(force), next),
        d.clearing(force, log, next) == Flow::Done(Ok::<(), Seq<char>>(()), cleared),
        branches_flow(d.main_repo, d.branch, log, cleared) == Flow::Done(
            Ok::<(), Seq<char>>(()),
            deleted,
        ),
        kill_flow(session_name_of(d.repo_name, d.branch), d.in_tmux, log, deleted) is Done,
    ensures
        cleared <= deleted <= last < log.len(),
        awaits(
            d.flow(log.take(deleted), at),
            has_session(session_name_of(d.repo_name, d.branch)),
        ),
        log[deleted].is_yes() ==> awaits(
            d.flow(log.take(last), at),
            kill_session(session_name_of(d.repo_name, d.branch)),
        ),
{
    let session = session_name_of(d.repo_name, d.branch);
    resume_branches(d.main_repo, d.branch, log, log, cleared);
    lemma_kill_complete(session, d.in_tmux, log, deleted);
    let last = kill_flow(session, d.in_tmux, log, deleted)->1 - 1;
    lemma_asked_later(d, log, at, next, cleared, force, deleted);
    lemma_asked_later(d, log, at, next, cleared, force, last);
    resume_branches(d.main_repo, d.branch, log.take(deleted), log, cleared);
    resume_branches(d.main_repo, d.branch, log.take(last), log, cleared);
    last
}

/// A destruction that ends well has left nothing out. The branch was deleted
/// here; it was deleted at the remote repository if it was found there; and its
/// session was ended if it was found, unless sessions were to be left alone.
#[verifier::rlimit(40)]
pub proof fn law_destroy_complete(d: Destruction, log: Seq<Reply>, at: int)
    requires
        0 <= at <= log.len(),
        d.flow(log, at) matches Flow::Done(Ok(_), _),
    ensures
        exists|i: int|
            at < i < log.len() && awaits(
                d.flow(#[trigger] log.take(i), at),
                delete_branch(d.main_repo, d.branch),
            ),
        exists|i: int|
            at < i < log.len() && awaits(
                d.flow(#[trigger] log.take(i), at),
                has_ref(d.main_repo, "refs/remotes/origin/"@ + d.branch),
            ) && (log[i].is_yes() ==> awaits(
                d.flow(log.take(i + 1), at),
                delete_remote_branch(d.main_repo, d.branch),
            )),
        d.no_session || exists|i: int, j: int|
            at < i <= j < log.len() && awaits(
                d.flow(#[trigger] log.take(i), at),
                has_session(session_name_of(d.repo_name, d.branch)),
            ) && (log[i].is_yes() ==> awaits(
                d.flow(#[trigger] log.take(j), at),
                kill_session(session_name_of(d.repo_name, d.branch)),
            )),
{
    let (force, next, cleared) = lemma_destroy_stages(d, log, at);
    let asked = lemma_deletions_asked(d, log, at, next, cleared, force);
    if !d.no_session {
        let deleted = branches_flow(d.main_repo, d.branch, log, cleared)->1;
        let last = lemma_end_asked(d, log, at, next, cleared, force, deleted);
    }
}

/// Whether the program is destroying a branch, since it has read `start` replies.
pub open spec fn is_destroying(
    cli: CliModel,
    env: EnvModel,
    log: Seq<Reply>,
    d: Destruction,
    start: int,
) -> bool {
    &&& !cli.help && !cli.shell_init && !cli.global
    &&& cli.command matches Some(CommandsModel::Destroy { branch }) && {
        &&& main_repo_flow(log, 0) == Flow::Done(Ok::<_, Seq<char>>(d.main_repo), 1)
        &&& named_or_current_flow(branch, log, 1) matches Flow::Done(Ok(name), named) && {
            &&& 1 <= named <= start <= log.len()
            &&& global_config_flow(env.home, log, named) matches Flow::Done(config, end) && {
                &&& end == start
                &&& d == Destruction {
                    main_repo: d.main_repo,
                    repo_name: repo_name_of(d.main_repo),
                    branch: name,
                    archive_dir: archive_dir_of(config.archive_dir, env.home),
                    timestamp: env.timestamp,
                    no_session: cli.no_session,
                    in_tmux: env.in_tmux,
                }
            }
        }
    }
}

/// A removal that a subcommand asks for is part of a destruction.
#[verifier::rlimit(40)]
proof fn lemma_run_destroys(cli: CliModel, env: EnvModel, log: Seq<Reply>) -> (res: (
    Destruction,
    int,
))
    requires
        run_flow(cli, env, log) matches Flow::Ask(action) && effect_of(action) is Removal,
        cli.command is Some,
    ensures
        is_destroying(cli, env, log, res.0, res.1),
{
    lemma_words();
    law_effects_wanted(cli, env, log);
    let root = main_repo_flow(log, 0)->Done_0->Ok_0;
    let branch = cli.command->0->Destroy_branch;
    let (name, named) = match named_or_current_flow(branch, log, 1) {
        Flow::Done(Ok(name), named) => (name, named),
        _ => (Seq::empty(), 0),
    };
    let (config, start) = match global_config_flow(env.home, log, named) {
        Flow::Done(config, start) => (config, start),
        _ => (no_config(), 0),
    };
    let d = Destruction {
        main_repo: root,
        repo_name: repo_name_of(root),
        branch: name,
        archive_dir: archive_dir_of(config.archive_dir, env.home),
        timestamp: env.timestamp,
        no_session: cli.no_session,
        in_tmux: env.in_tmux,
    };
    resume_main_repo(log, log, 0);
    if log.len() > 0 {
        resume_named_or_current(branch, log, log, 1);
        if 1 <= named <= log.len() {
            resume_global_config(env.home, log, log, named);
        }
    }
    (d, start)
}

/// What was true of a destruction when fewer replies had been read.
pub(crate) proof fn lemma_was_destroying(
    cli: CliModel,
    env: EnvModel,
    log: Seq<Reply>,
    d: Destruction,
    start: int,
    at: int,
)
    requires
        is_destroying(cli, env, log, d, start),
        start <= at <= log.len(),
    ensures
        is_destroying(cli, env, log.take(at), d, start),
{
    let earlier = log.take(at);
    let branch = cli.command->0->Destroy_branch;
    resume_main_repo(earlier, log, 0);
    resume_named_or_current(branch, earlier, log, 1);
    let named = named_or_current_flow(branch, log, 1)->1;
    resume_global_config(env.home, earlier, log, named);
}

/// What a destruction asks for, the program asks for.
#[verifier::rlimit(40)]
pub(crate) proof fn lemma_destruction_asks(
    cli: CliModel,
    env: EnvModel,
    log: Seq<Reply>,
    d: Destruction,
    start: int,
)
    requires
        is_destroying(cli, env, log, d, start),
    ensures
        d.flow(log, start) matches Flow::Ask(action) ==> awaits(run_flow(cli, env, log), action),
        run_flow(cli, env, log) matches Flow::Ask(action) ==> action is Report || awaits(
            d.flow(log, start),
            action,
        ),
{
}

/// Whether an action is a removal by force.
spec fn is_forced(action: ActionModel) -> bool {
    effect_of(action) is Removal && action->Run_0.args.len() == 4
}

/// A removal by force follows right on the user's agreement.
#[verifier::rlimit(40)]
proof fn lemma_remove_mode_agreed(
    root: Seq<char>,
    branch: Seq<char>,
    no_session: bool,
    in_tmux: bool,
    log: Seq<Reply>,
    at: int,
)
    requires
        0 <= at <= log.len(),
        remove_mode_flow(root, branch, no_session, in_tmux, log, at) matches Flow::Ask(action)
            && is_forced(action),
    ensures
        at + 1 < log.len(),
        awaits(
            remove_mode_flow(root, branch, no_session, in_tmux, log.drop_last(), at),
            loss_question(branch, "Remove"@),
        ),
        log.last().is_yes(),
{
    lemma_words();
    let earlier = log.drop_last();
    resume_list(root, log, log, at);
    if let Flow::Done(Ok(worktrees), next) = list_flow(root, log, at) {
        if let Some(worktree) = worktree_of(worktrees, branch) {
            resume_consent(branch, worktree.path, "Remove"@, log, log, next);
            if let Flow::Done(Some(force), asked) = consent_flow(
                branch,
                worktree.path,
                "Remove"@,
                log,
                next,
            ) {
                let session = session_name_of(repo_name_of(root), branch);
                lemma_kill_effects(session, in_tmux, log, asked + 1);
                assert(asked == log.len());
                assert(force);
                resume_list(root, earlier, log, at);
            }
        }
    }
}

/// If the user does not agree to lose uncommitted changes, `wt -r` says that it
/// stops and fails.
pub proof fn law_remove_refused(
    root: Seq<char>,
    branch: Seq<char>,
    no_session: bool,
    in_tmux: bool,
    log: Seq<Reply>,
    at: int,
    refusal: Reply,
    reply: Reply,
)
    requires
        0 <= at <= log.len(),
        awaits(
            remove_mode_flow(root, branch, no_session, in_tmux, log, at),
            loss_question(branch, "Remove"@),
        ),
        !refusal.is_yes(),
    ensures
        awaits(
            remove_mode_flow(root, branch, no_session, in_tmux, log.push(refusal), at),
            ActionModel::Report("Aborted."@),
        ),
        remove_mode_flow(root, branch, no_session, in_tmux, log.push(refusal).push(reply), at)
            == Flow::Done(Exit::Failure, log.len() as int + 2),
{
    let refused = log.push(refusal);
    let told = refused.push(reply);
    resume_list(root, log, refused, at);
    resume_list(root, log, told, at);
    if let Flow::Done(Ok(worktrees), next) = list_flow(root, log, at) {
        if let Some(worktree) = worktree_of(worktrees, branch) {
            if let Flow::Done(Some(force), asked) = consent_flow(
                branch,
                worktree.path,
                "Remove"@,
                log,
                next,
            ) {
                let session = session_name_of(repo_name_of(root), branch);
                lemma_kill_effects(session, in_tmux, log, asked + 1);
            }
        }
    }
}

/// `wt -r` removes a worktree without force only right after git had nothing to
/// say of its state.
pub proof fn law_remove_clean(
    root: Seq<char>,
    branch: Seq<char>,
    no_session: bool,
    in_tmux: bool,
    log: Seq<Reply>,
    at: int,
    path: Seq<char>,
)
    requires
        0 <= at <= log.len(),
        awaits(
            remove_mode_flow(root, branch, no_session, in_tmux, log, at),
            remove_command(root, path, false),
        ),
    ensures
        at + 1 < log.len(),
        awaits(
            remove_mode_flow(root, branch, no_session, in_tmux, log.drop_last(), at),
            git_of(seq!["status"@, "--porcelain"@], Some(path)),
        ),
        log.last().stdout_of().len() == 0,
{
    lemma_words();
    lemma_removals_differ(root, path);
    let earlier = log.drop_last();
    resume_list(root, log, log, at);
    if let Flow::Done(Ok(worktrees), next) = list_flow(root, log, at) {
        if let Some(worktree) = worktree_of(worktrees, branch) {
            resume_consent(branch, worktree.path, "Remove"@, log, log, next);
            if let Flow::Done(Some(force), asked) = consent_flow(
                branch,
                worktree.path,
                "Remove"@,
                log,
                next,
            ) {
                let session = session_name_of(repo_name_of(root), branch);
                lemma_kill_effects(session, in_tmux, log, asked + 1);
                assert(asked == log.len());
                let unforced = seq!["worktree"@, "remove"@, path];
                let asked_for = seq!["worktree"@, "remove"@, worktree.path];
                let forced = seq!["worktree"@, "remove"@, "--force"@, worktree.path];
                assert(unforced.len() != forced.len());
                assert(!force);
                assert(unforced[2] == asked_for[2]);
                resume_list(root, earlier, log, at);
            }
        }
    }
}

/// The same of the whole program, where no subcommand was given.
#[verifier::rlimit(40)]
proof fn lemma_remove_agreed(cli: CliModel, env: EnvModel, log: Seq<Reply>) -> (branch: Seq<char>)
    requires
        run_flow(cli, env, log) matches Flow::Ask(action) && is_forced(action),
        cli.command is None,
    ensures
        log.len() > 0,
        awaits(run_flow(cli, env, log.drop_last()), loss_question(branch, "Remove"@)),
        log.last().is_yes(),
{
    law_effects_wanted(cli, env, log);
    let branch = cli.branch->0;
    let root = main_repo_flow(log, 0)->Done_0->Ok_0;
    assert(main_repo_flow(log, 0) == Flow::Done(Ok::<_, Seq<char>>(root), 1)) by {
        lemma_words();
    }
    resume_main_repo(log, log, 0);
    lemma_remove_mode_agreed(root, branch, cli.no_session, env.in_tmux, log, 1);
    resume_main_repo(log.drop_last(), log, 0);
    branch
}

/// The program never removes a worktree by force unless it had asked whether its
/// uncommitted changes may be lost, and the answer was yes.
pub proof fn law_forced_removal_agreed(
    cli: CliModel,
    env: EnvModel,
    log: Seq<Reply>,
    main_repo: Seq<char>,
    path: Seq<char>,
)
    requires
        awaits(run_flow(cli, env, log), remove_command(main_repo, path, true)),
    ensures
        exists|at: int, branch: Seq<char>, verb: Seq<char>|
            0 <= at < log.len() && #[trigger] log[at].is_yes() && awaits(
                run_flow(cli, env, log.take(at)),
                #[trigger] loss_question(branch, verb),
            ),
{
    lemma_removals_differ(main_repo, path);
    if cli.command is Some {
        let (d, start) = lemma_run_destroys(cli, env, log);
        lemma_destruction_asks(cli, env, log, d, start);
        lemma_removal_asked(d, log, start);
        lemma_removals_differ(d.main_repo, d.path());
        assert(remove_command(main_repo, path, true) == d.removal(true)) by {
            let forced = seq!["worktree"@, "remove"@, "--force"@, path];
            let unforced = seq!["worktree"@, "remove"@, d.path()];
            assert(forced.len() != unforced.len());
        }
        law_destroy_agreed(d, log, start);
        lemma_was_destroying(cli, env, log, d, start, start + 2);
        lemma_destruction_asks(cli, env, log.take(start + 2), d, start);
        assert(log[start + 2].is_yes() && awaits(
            run_flow(cli, env, log.take(start + 2)),
            loss_question(d.branch, "Destroy"@),
        ));
    } else {
        let branch = lemma_remove_agreed(cli, env, log);
        let last = log.len() - 1;
        assert(log.drop_last() == log.take(last));
        assert(log[last].is_yes() && awaits(
            run_flow(cli, env, log.take(last)),
            loss_question(branch, "Remove"@),
        ));
    }
}

/// Where backups are wanted, the program removes the worktree of a branch that
/// it destroys only right after a backup of it was completed.
pub proof fn law_removal_backed_up(
    cli: CliModel,
    env: EnvModel,
    log: Seq<Reply>,
    d: Destruction,
    dir: Seq<char>,
    start: int,
)
    requires
        is_destroying(cli, env, log, d, start),
        d.archive_dir == Some(dir),
        run_flow(cli, env, log) matches Flow::Ask(action) && effect_of(action) is Removal,
    ensures
        log.len() > 0,
        ({
            let before = run_flow(cli, env, log.drop_last());
            let mirrored = mirror_files(d.path(), d.target(dir));
            let copied = ActionModel::CopyTree { source: d.path(), target: d.target(dir) };
            ||| awaits(before, mirrored) && log.last().is_yes()
            ||| awaits(before, copied) && log.last().failure_of() is None
        }),
{
    lemma_destruction_asks(cli, env, log, d, start);
    lemma_removal_asked(d, log, start);
    let force = leave_flow(d.main_repo, d.branch, log, start)->Done_0->0;
    law_destroy_backed_up(d, dir, log, start, force);
    let last = log.len() - 1;
    assert(log.drop_last() == log.take(last));
    lemma_was_destroying(cli, env, log, d, start, last);
    lemma_destruction_asks(cli, env, log.drop_last(), d, start);
}

} // verus!
