//! What the command line decides: which procedure runs, with which arguments, and
//! how the process ends.

use vstd::prelude::*;

use crate::cli::{
    archive_dir_of, run_flow, worktree_of, Cli, CliModel, Commands, CommandsModel, EnvModel,
    SHELL_INIT,
};
use crate::config::{global_config_flow, GlobalConfigModel};
use crate::create::{create_flow, law_base_steps, law_create_steps, resolve_base_flow};
use crate::destroy::{delete_branch, delete_remote_branch};
use crate::flow::{
    awaits, git_of, git_status_of, tmux_of, ActionModel, Capture, Env, Flow, Model, Reply,
};
use crate::global::{
    ends_in, entries_of, entry_with, gather_flow, global_flow, go_flow, law_entry_found,
    law_gathered_in_turn, law_global_steps, law_go_steps, sessions_flow, EntryModel, Exit,
};
use crate::linking::{asked, entry_seen, law_created_with_links, law_entry_seen_outside};
use crate::names::{
    repo_name_of, session_name_of, tilde_expanded, worktree_path_of, worktrees_dir_of,
};
use crate::paths::joined;
use crate::remove::{consent_flow, remove_command, remove_flow};
use crate::rename::{law_rename_complete, rename_session, Renaming};
use crate::replay::{
    law_run_resumes, resume_consent, resume_global_config, resume_kill, resume_list,
    resume_main_repo, resume_named_or_current, resume_rename, resume_resolve_base,
};
use crate::repo::{current_branch_flow, has_ref, list_flow, main_repo_flow, WorktreeModel};
use crate::safety::{
    is_destroying, law_destroy_complete, lemma_destruction_asks, lemma_kill_complete,
    lemma_was_destroying, Destruction,
};
use crate::tmux::{
    has_session, kill_flow, kill_session, law_switch_steps, new_session, switch_client,
};

verus! {

/// The options that a model of the command line holds are those of the command
/// line, each under its own name.
pub proof fn law_options_kept(cli: Cli, env: Env)
    ensures
        ({
            let m = cli.model();
            &&& m.branch == cli.branch.deep_view() && m.base == cli.base.deep_view()
            &&& m.create == cli.create && m.remove == cli.remove && m.help == cli.help
            &&& m.shell_init == cli.shell_init && m.global == cli.global
            &&& m.no_session == cli.no_session
            &&& match cli.command {
                None => m.command is None,
                Some(Commands::Rename { new_branch, from }) => m.command == Some(
                    CommandsModel::Rename { new_branch: new_branch@, from: from.deep_view() },
                ),
                Some(Commands::Destroy { branch }) => m.command == Some(
                    CommandsModel::Destroy { branch: branch.deep_view() },
                ),
                Some(Commands::Sessions) => m.command == Some(CommandsModel::Sessions),
            }
        }),
        env.model() == (EnvModel {
            home: env.home.deep_view(),
            in_tmux: env.in_tmux,
            timestamp: env.timestamp@,
        }),
{
}

/// The help text comes before everything else, and the shell function before
/// everything but that. Either is all that is done.
pub proof fn law_help_first(cli: CliModel, env: EnvModel, log: Seq<Reply>)
    ensures
        cli.help || cli.shell_init ==> {
            &&& log.len() == 0 && cli.help ==> awaits(
                run_flow(cli, env, log),
                ActionModel::ShowHelp,
            )
            &&& log.len() == 0 && !cli.help ==> awaits(
                run_flow(cli, env, log),
                ActionModel::Print(SHELL_INIT@),
            )
            &&& log.len() > 0 ==> run_flow(cli, env, log) == Flow::Done(Exit::Success, 1)
        },
{
}

/// Whether the program is to do anything in a repository.
pub open spec fn is_at_work(cli: CliModel) -> bool {
    !cli.help && !cli.shell_init && !cli.global && cli.command != Some(CommandsModel::Sessions)
}

/// Global mode and `wt sessions` need no repository. Everything else starts with the
/// question for one; where there is none, a plain call is global and everything else
/// fails with what git said.
pub proof fn law_repository_first(cli: CliModel, env: EnvModel, log: Seq<Reply>)
    ensures
        !cli.help && !cli.shell_init && cli.global ==> run_flow(cli, env, log) == global_flow(
            env.home,
            cli.no_session,
            env.in_tmux,
            log,
            0,
        ),
        !cli.help && !cli.shell_init && !cli.global && cli.command == Some(CommandsModel::Sessions)
            ==> run_flow(cli, env, log) == sessions_flow(env.home, log, 0),
        is_at_work(cli) ==> match main_repo_flow(log, 0) {
            Flow::Ask(action) => awaits(run_flow(cli, env, log), action),
            Flow::Done(Err(message), next) => {
                let plain = cli.branch is None && !cli.create && !cli.remove && cli.command is None;
                &&& plain ==> run_flow(cli, env, log) == global_flow(
                    env.home,
                    cli.no_session,
                    env.in_tmux,
                    log,
                    next,
                )
                &&& !plain ==> ends_in(
                    run_flow(cli, env, log),
                    log,
                    next,
                    "Error: "@ + message,
                    Exit::Failure,
                )
            },
            Flow::Done(Ok(_), _) => true,
        },
{
}

/// Whether the program is at work in a repository.
pub open spec fn is_in_repo(cli: CliModel, log: Seq<Reply>, root: Seq<char>) -> bool {
    is_at_work(cli) && main_repo_flow(log, 0) == Flow::Done(Ok::<_, Seq<char>>(root), 1)
}

/// Whether the branch of a command is known, after `start` replies: the one that was
/// named, or the one that is checked out.
pub open spec fn is_branch(
    named: Option<Seq<char>>,
    log: Seq<Reply>,
    branch: Seq<char>,
    start: int,
) -> bool {
    match named {
        Some(name) => branch == name && start == 1,
        None => current_branch_flow(log, 1) == Flow::Done(Ok::<_, Seq<char>>(branch), start),
    }
}

/// Where no branch was named, the one that is checked out is asked for, and without
/// it a renaming or destruction fails.
pub proof fn law_branch_first(cli: CliModel, env: EnvModel, log: Seq<Reply>, root: Seq<char>)
    requires
        is_in_repo(cli, log, root),
        (cli.command matches Some(CommandsModel::Rename { from, .. }) && from is None) || (
        cli.command matches Some(CommandsModel::Destroy { branch }) && branch is None),
    ensures
        match current_branch_flow(log, 1) {
            Flow::Ask(action) => awaits(run_flow(cli, env, log), action),
            Flow::Done(Err(message), next) => ends_in(
                run_flow(cli, env, log),
                log,
                next,
                "Error: "@ + message,
                Exit::Failure,
            ),
            Flow::Done(Ok(_), _) => true,
        },
{
}

/// The renaming that the command line asks for.
pub open spec fn renaming_of(
    cli: CliModel,
    root: Seq<char>,
    old_branch: Seq<char>,
    new_branch: Seq<char>,
) -> Renaming {
    Renaming {
        main_repo: root,
        repo_name: repo_name_of(root),
        old_branch,
        new_branch,
        no_session: cli.no_session,
    }
}

/// `wt rename` renames the branch that was named, or that is checked out, to the new
/// name, in this repository, with its session unless sessions are left alone. It says
/// so at the end, or why it failed.
pub proof fn law_run_renames(
    cli: CliModel,
    env: EnvModel,
    log: Seq<Reply>,
    root: Seq<char>,
    new_branch: Seq<char>,
    from: Option<Seq<char>>,
    old_branch: Seq<char>,
    start: int,
)
    requires
        is_in_repo(cli, log, root),
        cli.command == Some(CommandsModel::Rename { new_branch, from }),
        is_branch(from, log, old_branch, start),
    ensures
        ({
            let run = run_flow(cli, env, log);
            match renaming_of(cli, root, old_branch, new_branch).flow(log, start) {
                Flow::Ask(action) => awaits(run, action),
                Flow::Done(Ok(_), end) => ends_in(
                    run,
                    log,
                    end,
                    "Renamed '"@ + old_branch + "' to '"@ + new_branch + "'."@,
                    Exit::Success,
                ),
                Flow::Done(Err(message), end) => ends_in(
                    run,
                    log,
                    end,
                    "Error: "@ + message,
                    Exit::Failure,
                ),
            }
        }),
{
}

/// What was true of the start of the program when fewer replies had been read.
proof fn lemma_was_in_repo(cli: CliModel, log: Seq<Reply>, root: Seq<char>, at: int)
    requires
        is_in_repo(cli, log, root),
        1 <= at <= log.len(),
    ensures
        is_in_repo(cli, log.take(at), root),
{
    resume_main_repo(log.take(at), log, 0);
}

proof fn lemma_was_branch(
    named: Option<Seq<char>>,
    log: Seq<Reply>,
    branch: Seq<char>,
    start: int,
    at: int,
)
    requires
        1 <= log.len(),
        is_branch(named, log, branch, start),
        start <= at <= log.len(),
    ensures
        1 <= start <= 2,
        is_branch(named, log.take(at), branch, start),
{
    resume_named_or_current(named, log, log, 1);
    if at >= 1 {
        resume_named_or_current(named, log.take(at), log, 1);
    }
}

/// The program as a procedure of its log alone.
pub open spec fn program(cli: CliModel, env: EnvModel) -> spec_fn(Seq<Reply>) -> Flow<Exit> {
    |log: Seq<Reply>| run_flow(cli, env, log)
}

/// `wt rename` that ends well has renamed the branch and moved its worktree. Unless
/// sessions are left alone, it has asked for the session of the old branch, and has
/// renamed it to that of the new one if it was there. The report is the very last.
#[verifier::rlimit(40)]
pub proof fn law_program_renames(
    cli: CliModel,
    env: EnvModel,
    log: Seq<Reply>,
    root: Seq<char>,
    new_branch: Seq<char>,
    from: Option<Seq<char>>,
    old_branch: Seq<char>,
    start: int,
)
    requires
        is_in_repo(cli, log, root),
        cli.command == Some(CommandsModel::Rename { new_branch, from }),
        is_branch(from, log, old_branch, start),
        run_flow(cli, env, log) matches Flow::Done(Exit::Success, _),
    ensures
        ({
            let run = program(cli, env);
            let r = renaming_of(cli, root, old_branch, new_branch);
            let old_session = session_name_of(repo_name_of(root), old_branch);
            let new_session = session_name_of(repo_name_of(root), new_branch);
            &&& asked(run, log, start + 2, r.renaming()) && log[start + 2].is_yes()
            &&& asked(run, log, start + 3, r.moving()) && log[start + 3].is_yes()
            &&& !cli.no_session ==> {
                &&& asked(run, log, start + 4, has_session(old_session))
                &&& log[start + 4].is_yes() ==> asked(
                    run,
                    log,
                    start + 5,
                    rename_session(old_session, new_session),
                )
            }
            &&& run_flow(cli, env, log) matches Flow::Done(_, end) && asked(
                run,
                log,
                end - 1,
                ActionModel::Report(
                    "Renamed '"@ + old_branch + "' to '"@ + new_branch + "'."@,
                ),
            )
        }),
{
    let r = renaming_of(cli, root, old_branch, new_branch);
    let repo_name = repo_name_of(root);
    resume_main_repo(log, log, 0);
    lemma_was_branch(from, log, old_branch, start, log.len() as int);
    resume_rename(root, repo_name, old_branch, new_branch, cli.no_session, log, log, start);
    law_run_renames(cli, env, log, root, new_branch, from, old_branch, start);
    law_run_resumes(cli, env, log, log);
    law_rename_complete(r, log, start);
    lemma_renaming_at(cli, env, log, root, new_branch, from, old_branch, start, start + 2);
    lemma_renaming_at(cli, env, log, root, new_branch, from, old_branch, start, start + 3);
    if !cli.no_session {
        lemma_renaming_at(cli, env, log, root, new_branch, from, old_branch, start, start + 4);
        if log[start + 4].is_yes() {
            lemma_renaming_at(cli, env, log, root, new_branch, from, old_branch, start, start + 5);
        }
    }
    let last = run_flow(cli, env, log)->1 - 1;
    let earlier = log.take(last);
    resume_rename(root, repo_name, old_branch, new_branch, cli.no_session, earlier, log, start);
    lemma_renaming_at(cli, env, log, root, new_branch, from, old_branch, start, last);
    assert(r.flow(earlier, start) == Flow::Done(Ok::<(), Seq<char>>(()), last));
}

/// What a renaming waits for at some time, the program waits for.
#[verifier::rlimit(40)]
proof fn lemma_renaming_at(
    cli: CliModel,
    env: EnvModel,
    log: Seq<Reply>,
    root: Seq<char>,
    new_branch: Seq<char>,
    from: Option<Seq<char>>,
    old_branch: Seq<char>,
    start: int,
    at: int,
)
    requires
        is_in_repo(cli, log, root),
        log.len() > 0,
        cli.command == Some(CommandsModel::Rename { new_branch, from }),
        is_branch(from, log, old_branch, start),
        start <= at <= log.len(),
    ensures
        ({
            let run = run_flow(cli, env, log.take(at));
            match renaming_of(cli, root, old_branch, new_branch).flow(log.take(at), start) {
                Flow::Ask(action) => awaits(run, action),
                Flow::Done(Ok(_), end) => ends_in(
                    run,
                    log.take(at),
                    end,
                    "Renamed '"@ + old_branch + "' to '"@ + new_branch + "'."@,
                    Exit::Success,
                ),
                Flow::Done(Err(_), _) => true,
            }
        }),
{
    lemma_was_branch(from, log, old_branch, start, at);
    lemma_was_in_repo(cli, log, root, at);
    law_run_renames(
        cli,
        env,
        log.take(at),
        root,
        new_branch,
        from,
        old_branch,
        start,
    );
}

/// `wt destroy` destroys the branch that was named, or that is checked out, in this
/// repository. The worktree is backed up if and only if the user's configuration
/// says where to, with the home directory put in and under the time of this process;
/// the session goes too unless sessions are left alone. It says so at the end, or why
/// it failed.
pub proof fn law_run_destroys(
    cli: CliModel,
    env: EnvModel,
    log: Seq<Reply>,
    root: Seq<char>,
    named: Option<Seq<char>>,
    branch: Seq<char>,
    start: int,
)
    requires
        is_in_repo(cli, log, root),
        cli.command == Some(CommandsModel::Destroy { branch: named }),
        is_branch(named, log, branch, start),
    ensures
        ({
            let run = run_flow(cli, env, log);
            match global_config_flow(env.home, log, start) {
                Flow::Ask(action) => awaits(run, action),
                Flow::Done(config, next) => {
                    let d = Destruction {
                        main_repo: root,
                        repo_name: repo_name_of(root),
                        branch,
                        archive_dir: match config.archive_dir {
                            Some(dir) => Some(tilde_expanded(dir, env.home)),
                            None => None,
                        },
                        timestamp: env.timestamp,
                        no_session: cli.no_session,
                        in_tmux: env.in_tmux,
                    };
                    match d.flow(log, next) {
                        Flow::Ask(action) => awaits(run, action),
                        Flow::Done(Ok(_), end) => ends_in(
                            run,
                            log,
                            end,
                            "Destroyed '"@ + branch + "'."@,
                            Exit::Success,
                        ),
                        Flow::Done(Err(message), end) => ends_in(
                            run,
                            log,
                            end,
                            "Error: "@ + message,
                            Exit::Failure,
                        ),
                    }
                },
            }
        }),
{
}

/// What becomes of creating the worktree of a branch from some reply on: its base is
/// found, it is created, and it is gone to.
pub open spec fn creates(
    run: Flow<Exit>,
    root: Seq<char>,
    branch: Seq<char>,
    base: Option<Seq<char>>,
    no_session: bool,
    in_tmux: bool,
    log: Seq<Reply>,
    at: int,
) -> bool {
    match resolve_base_flow(root, base, log, at) {
        Flow::Ask(action) => awaits(run, action),
        Flow::Done(base, next) => match create_flow(root, branch, base, log, next) {
            Flow::Ask(action) => awaits(run, action),
            Flow::Done(Err(message), end) => ends_in(
                run,
                log,
                end,
                "Error: "@ + message,
                Exit::Failure,
            ),
            Flow::Done(Ok(path), end) => run == go_flow(
                repo_name_of(root),
                branch,
                path,
                no_session,
                in_tmux,
                log,
                end,
            ),
        },
    }
}

/// `wt -c` creates the worktree of the branch that was named, from the base that was
/// named or the default one, and goes there. Without a branch it fails.
pub proof fn law_run_creates(cli: CliModel, env: EnvModel, log: Seq<Reply>, root: Seq<char>)
    requires
        is_in_repo(cli, log, root),
        cli.command is None,
        cli.create,
    ensures
        match cli.branch {
            Some(branch) => creates(
                run_flow(cli, env, log),
                root,
                branch,
                cli.base,
                cli.no_session,
                env.in_tmux,
                log,
                1,
            ),
            None => ends_in(
                run_flow(cli, env, log),
                log,
                1,
                "Error: "@ + "branch name is required with --create"@,
                Exit::Failure,
            ),
        },
{
}

/// A worktree is found by its branch: it is the first one that has it.
pub proof fn law_worktree_found(worktrees: Seq<WorktreeModel>, branch: Seq<char>)
    ensures
        match worktree_of(worktrees, branch) {
            Some(worktree) => exists|i: int|
                0 <= i < worktrees.len() && #[trigger] worktrees[i] == worktree && worktree.branch
                    == branch && forall|j: int|
                    0 <= j < i ==> (#[trigger] worktrees[j]).branch != branch,
            None => forall|j: int|
                0 <= j < worktrees.len() ==> (#[trigger] worktrees[j]).branch != branch,
        },
    decreases worktrees.len(),
{
    if worktrees.len() > 0 && worktrees[0].branch != branch {
        let rest = worktrees.drop_first();
        law_worktree_found(rest, branch);
        match worktree_of(rest, branch) {
            Some(worktree) => {
                let i = choose|i: int|
                    0 <= i < rest.len() && #[trigger] rest[i] == worktree && worktree.branch
                        == branch && forall|j: int|
                        0 <= j < i ==> (#[trigger] rest[j]).branch != branch;
                assert(worktrees[i + 1] == worktree);
                assert forall|j: int| 0 <= j < i + 1 implies (#[trigger] worktrees[j]).branch
                    != branch by {
                    if j > 0 {
                        assert(worktrees[j] == rest[j - 1]);
                    }
                }
            },
            None => {
                assert forall|j: int| 0 <= j < worktrees.len() implies (
                #[trigger] worktrees[j]).branch != branch by {
                    if j > 0 {
                        assert(worktrees[j] == rest[j - 1]);
                    }
                }
            },
        }
    }
}

/// `wt -r` removes the worktree of the branch that was named, once it may go, and ends
/// its session unless sessions are left alone, as the client stands. It says so at
/// the end, or why it failed. Without a branch it fails.
pub proof fn law_run_removes(cli: CliModel, env: EnvModel, log: Seq<Reply>, root: Seq<char>)
    requires
        is_in_repo(cli, log, root),
        cli.command is None,
        !cli.create,
        cli.remove,
    ensures
        ({
            let run = run_flow(cli, env, log);
            match cli.branch {
                None => ends_in(
                    run,
                    log,
                    1,
                    "Error: "@ + "branch name is required with --remove"@,
                    Exit::Failure,
                ),
                Some(branch) => match list_flow(root, log, 1) {
                    Flow::Ask(action) => awaits(run, action),
                    Flow::Done(Err(message), next) => ends_in(
                        run,
                        log,
                        next,
                        "Error: "@ + message,
                        Exit::Failure,
                    ),
                    Flow::Done(Ok(worktrees), next) => match worktree_of(worktrees, branch) {
                        None => ends_in(
                            run,
                            log,
                            next,
                            "Error: "@ + ("no worktree found for branch '"@ + branch + "'"@),
                            Exit::Failure,
                        ),
                        Some(worktree) => removes(
                            run,
                            root,
                            branch,
                            worktree.path,
                            cli.no_session,
                            env.in_tmux,
                            log,
                            next,
                        ),
                    },
                },
            }
        }),
{
}

/// What becomes of removing a worktree from some reply on: the user is asked where
/// that is due, it is removed, and its session is ended.
pub open spec fn removes(
    run: Flow<Exit>,
    root: Seq<char>,
    branch: Seq<char>,
    path: Seq<char>,
    no_session: bool,
    in_tmux: bool,
    log: Seq<Reply>,
    at: int,
) -> bool {
    let line = "Removed worktree for branch '"@ + branch + "'."@;
    let session = session_name_of(repo_name_of(root), branch);
    match consent_flow(branch, path, "Remove"@, log, at) {
        Flow::Ask(action) => awaits(run, action),
        Flow::Done(None, next) => ends_in(run, log, next, "Aborted."@, Exit::Failure),
        Flow::Done(Some(force), next) => match remove_flow(root, path, force, log, next) {
            Flow::Ask(action) => awaits(run, action),
            Flow::Done(Err(message), end) => ends_in(
                run,
                log,
                end,
                "Error: "@ + message,
                Exit::Failure,
            ),
            Flow::Done(Ok(_), end) => if no_session {
                ends_in(run, log, end, line, Exit::Success)
            } else {
                match kill_flow(session, in_tmux, log, end) {
                    Flow::Ask(action) => awaits(run, action),
                    Flow::Done(_, last) => ends_in(run, log, last, line, Exit::Success),
                }
            },
        },
    }
}

/// `wt` with a branch goes to the worktree of that branch. Where there is none it says
/// so and offers to create one, from the base that was named or the default one.
pub proof fn law_run_switches(
    cli: CliModel,
    env: EnvModel,
    log: Seq<Reply>,
    root: Seq<char>,
    branch: Seq<char>,
)
    requires
        is_in_repo(cli, log, root),
        cli.command is None,
        !cli.create,
        !cli.remove,
        cli.branch == Some(branch),
    ensures
        ({
            let run = run_flow(cli, env, log);
            match list_flow(root, log, 1) {
                Flow::Ask(action) => awaits(run, action),
                Flow::Done(Err(message), next) => ends_in(
                    run,
                    log,
                    next,
                    "Error: "@ + message,
                    Exit::Failure,
                ),
                Flow::Done(Ok(worktrees), next) => match worktree_of(worktrees, branch) {
                    Some(worktree) => run == go_flow(
                        repo_name_of(root),
                        branch,
                        worktree.path,
                        cli.no_session,
                        env.in_tmux,
                        log,
                        next,
                    ),
                    None => {
                        &&& next >= log.len() ==> awaits(
                            run,
                            ActionModel::Report("No worktree found for branch '"@ + branch + "'."@),
                        )
                        &&& next + 1 == log.len() ==> awaits(
                            run,
                            ActionModel::Confirm {
                                question: "Create a new worktree for this branch?"@,
                                default: true,
                            },
                        )
                        &&& next + 1 < log.len() && !log[next + 1].is_yes() ==> run == Flow::Done(
                            Exit::Failure,
                            next + 2,
                        )
                        &&& next + 1 < log.len() && log[next + 1].is_yes() ==> creates(
                            run,
                            root,
                            branch,
                            cli.base,
                            cli.no_session,
                            env.in_tmux,
                            log,
                            next + 2,
                        )
                    },
                },
            }
        }),
{
}

/// `wt` alone offers the branches of the worktrees of the repository, in the order of
/// the listing, and goes to the worktree of the one that is chosen.
pub proof fn law_run_picks(cli: CliModel, env: EnvModel, log: Seq<Reply>, root: Seq<char>)
    requires
        is_in_repo(cli, log, root),
        cli.command is None,
        !cli.create,
        !cli.remove,
        cli.branch is None,
    ensures
        ({
            let run = run_flow(cli, env, log);
            match list_flow(root, log, 1) {
                Flow::Ask(action) => awaits(run, action),
                Flow::Done(Err(message), next) => ends_in(
                    run,
                    log,
                    next,
                    "Error: "@ + message,
                    Exit::Failure,
                ),
                Flow::Done(Ok(worktrees), next) => {
                    &&& worktrees.len() == 0 ==> ends_in(
                        run,
                        log,
                        next,
                        "Error: "@ + "No worktrees found. Use -c <branch> to create one."@,
                        Exit::Failure,
                    )
                    &&& worktrees.len() > 0 && next >= log.len() ==> (run matches Flow::Ask(
                        ActionModel::Select { question, options },
                    ) && question == "Select a worktree:"@ && options.len() == worktrees.len()
                        && forall|i: int|
                        0 <= i < options.len() ==> #[trigger] options[i] == worktrees[i].branch)
                    &&& worktrees.len() > 0 && next < log.len() ==> match log[next] {
                        Reply::Chosen(branch) => match worktree_of(worktrees, branch@) {
                            Some(worktree) => run == go_flow(
                                repo_name_of(root),
                                branch@,
                                worktree.path,
                                cli.no_session,
                                env.in_tmux,
                                log,
                                next + 1,
                            ),
                            None => run == Flow::Done(Exit::Success, next + 1),
                        },
                        _ => run == Flow::Done(Exit::Failure, next + 1),
                    }
                },
            }
        }),
{
}

/// Whether the program creates the worktree of a branch after `start` replies: at
/// once with `-c`, or where it offered to and the user agreed.
pub open spec fn is_creating(
    cli: CliModel,
    log: Seq<Reply>,
    root: Seq<char>,
    branch: Seq<char>,
    start: int,
) -> bool {
    &&& is_in_repo(cli, log, root)
    &&& cli.command is None && cli.branch == Some(branch)
    &&& if cli.create {
        start == 1
    } else {
        &&& !cli.remove
        &&& list_flow(root, log, 1) matches Flow::Done(Ok(worktrees), listed) && {
            &&& worktree_of(worktrees, branch) is None
            &&& start == listed + 2
            &&& start <= log.len() && log[start - 1].is_yes()
        }
    }
}

/// What was true of a creation when fewer replies had been read.
proof fn lemma_was_creating(
    cli: CliModel,
    log: Seq<Reply>,
    root: Seq<char>,
    branch: Seq<char>,
    start: int,
    at: int,
)
    requires
        is_creating(cli, log, root, branch, start),
        1 <= start <= at <= log.len(),
    ensures
        is_creating(cli, log.take(at), root, branch, start),
{
    lemma_was_in_repo(cli, log, root, at);
    if !cli.create {
        resume_list(root, log, log, 1);
        resume_list(root, log.take(at), log, 1);
        assert(log.take(at)[start - 1] == log[start - 1]);
    }
}

/// With `-c`, and where the user agreed to it, the program creates the worktree.
proof fn lemma_run_creates(
    cli: CliModel,
    env: EnvModel,
    log: Seq<Reply>,
    root: Seq<char>,
    branch: Seq<char>,
    start: int,
)
    requires
        is_creating(cli, log, root, branch, start),
    ensures
        creates(
            run_flow(cli, env, log),
            root,
            branch,
            cli.base,
            cli.no_session,
            env.in_tmux,
            log,
            start,
        ),
{
    if cli.create {
        law_run_creates(cli, env, log, root);
    } else {
        law_run_switches(cli, env, log, root, branch);
    }
}

/// A worktree that the program has created has been given every link that the
/// configuration of the repository asks for, be its branch new or not: for each entry
/// the program has looked for it in the main repository, and where it was found and
/// its place was free, it has asked for the link.
#[verifier::rlimit(40)]
pub proof fn law_program_links(
    cli: CliModel,
    env: EnvModel,
    log: Seq<Reply>,
    root: Seq<char>,
    branch: Seq<char>,
    base: Seq<char>,
    path: Seq<char>,
    start: int,
    next: int,
    end: int,
)
    requires
        is_creating(cli, log, root, branch, start),
        resolve_base_flow(root, cli.base, log, start) == Flow::Done(base, next),
        create_flow(root, branch, base, log, next) == Flow::Done(Ok::<_, Seq<char>>(path), end),
    ensures
        asked(
            program(cli, env),
            log,
            next + 4,
            ActionModel::LoadRepoConfig(joined(root, ".wt.toml"@)),
        ),
        log[next + 4] matches Reply::Repo(config) ==> forall|j: int|
            0 <= j < config.symlinks@.len() ==> entry_seen(
                program(cli, env),
                log,
                next,
                joined(root, #[trigger] config.symlinks@[j]@),
                joined(path, config.symlinks@[j]@),
            ),
{
    let run = program(cli, env);
    let inner = |l: Seq<Reply>| create_flow(root, branch, base, l, next);
    resume_main_repo(log, log, 0);
    if !cli.create {
        resume_list(root, log, log, 1);
    }
    resume_resolve_base(root, cli.base, log, log, start);
    law_created_with_links(root, branch, base, log, next);
    assert forall|i: int| next <= i < log.len() implies (inner(
        #[trigger] log.take(i),
    ) matches Flow::Ask(action) ==> awaits(run(log.take(i)), action)) by {
        lemma_was_creating(cli, log, root, branch, start, i);
        lemma_run_creates(cli, env, log.take(i), root, branch, start);
        resume_resolve_base(root, cli.base, log.take(i), log, start);
    }
    assert(inner(log.take(next + 4)) is Ask);
    if let Reply::Repo(config) = log[next + 4] {
        assert forall|j: int| 0 <= j < config.symlinks@.len() implies entry_seen(
            run,
            log,
            next,
            joined(root, #[trigger] config.symlinks@[j]@),
            joined(path, config.symlinks@[j]@),
        ) by {
            let source = joined(root, config.symlinks@[j]@);
            let place = joined(path, config.symlinks@[j]@);
            law_entry_seen_outside(inner, run, log, next, next, source, place);
        }
    }
}

/// Whether the program is in global mode after `start` replies: by its option, or
/// because it was called plainly outside of a repository.
pub open spec fn is_global(cli: CliModel, log: Seq<Reply>, start: int) -> bool {
    &&& !cli.help && !cli.shell_init
    &&& if cli.global {
        start == 0
    } else {
        &&& cli.branch is None && !cli.create && !cli.remove && cli.command is None
        &&& main_repo_flow(log, 0) matches Flow::Done(Err(_), told) && told == start
    }
}

/// Gathering more leaves what was found before as it is.
proof fn lemma_gather_keeps(
    repos: Seq<Seq<char>>,
    home: Option<Seq<char>>,
    found: Seq<EntryModel>,
    log: Seq<Reply>,
    at: int,
)
    ensures
        gather_flow(repos, home, found, log, at) matches Flow::Done(entries, _) ==> {
            &&& entries.len() >= found.len()
            &&& forall|i: int| 0 <= i < found.len() ==> #[trigger] entries[i] == found[i]
        },
    decreases repos.len(),
{
    if repos.len() > 0 {
        let path = tilde_expanded(repos[0], home);
        let rest = repos.drop_first();
        match list_flow(path, log, at) {
            Flow::Ask(_) => {},
            Flow::Done(Ok(worktrees), next) => {
                let more = found + entries_of(repo_name_of(path), worktrees);
                lemma_gather_keeps(rest, home, more, log, next);
                assert forall|i: int| 0 <= i < found.len() implies #[trigger] more[i]
                    == found[i] by {}
            },
            Flow::Done(Err(_), next) => {
                lemma_gather_keeps(rest, home, found, log, next + 1);
            },
        }
    }
}

/// Which entry a label stands for that is made of the names of a repository and of a
/// branch: the worktree of that branch in that repository, unless an earlier one has
/// the same label.
proof fn lemma_chosen_entry(
    before: Seq<Seq<char>>,
    repo: Seq<char>,
    after: Seq<Seq<char>>,
    home: Option<Seq<char>>,
    earlier: Seq<EntryModel>,
    worktrees: Seq<WorktreeModel>,
    w: int,
    log: Seq<Reply>,
    at: int,
    listed: int,
)
    requires
        gather_flow(before, home, seq![], log, at) == Flow::Done(earlier, listed),
        list_flow(tilde_expanded(repo, home), log, listed) matches Flow::Done(Ok(list), _) && list
            == worktrees,
        0 <= w < worktrees.len(),
        ({
            let label = repo_name_of(tilde_expanded(repo, home)) + ": "@ + worktrees[w].branch;
            forall|j: int| 0 <= j < earlier.len() ==> (#[trigger] earlier[j]).label != label
        }),
        forall|j: int| 0 <= j < w ==> (#[trigger] worktrees[j]).branch != worktrees[w].branch,
    ensures
        gather_flow(before + seq![repo] + after, home, seq![], log, at) matches Flow::Done(
            entries,
            _,
        ) ==> {
            let name = repo_name_of(tilde_expanded(repo, home));
            &&& entries.len() > 0
            &&& entry_with(entries, name + ": "@ + worktrees[w].branch) == Some(
                EntryModel {
                    label: name + ": "@ + worktrees[w].branch,
                    repo_name: name,
                    branch: worktrees[w].branch,
                    path: worktrees[w].path,
                },
            )
        },
{
    let path = tilde_expanded(repo, home);
    let name = repo_name_of(path);
    let label = name + ": "@ + worktrees[w].branch;
    law_gathered_in_turn(before, seq![repo] + after, repo, home, seq![], log, at);
    assert(before + (seq![repo] + after) == before + seq![repo] + after);
    law_gathered_in_turn(seq![repo], after, repo, home, earlier, log, listed);
    if let Flow::Done(found, next) = gather_flow(seq![repo], home, earlier, log, listed) {
        lemma_gather_keeps(after, home, found, log, next);
        if let Flow::Done(entries, _) = gather_flow(after, home, found, log, next) {
            let k = earlier.len() + w;
            assert(found[k] == entries[k]);
            assert(entries[k].label == label);
            assert forall|j: int| 0 <= j < k implies (#[trigger] entries[j]).label != label by {
                assert(entries[j] == found[j]);
                if j < earlier.len() {
                    assert(found[j] == earlier[j]);
                } else {
                    let i = j - earlier.len();
                    assert(found[earlier.len() + i].label == name + ": "@ + worktrees[i].branch);
                    if found[j].label == label {
                        let prefix = name + ": "@;
                        let branch = worktrees[i].branch;
                        assert(branch == (prefix + branch).skip(prefix.len() as int));
                        assert(worktrees[w].branch == label.skip(prefix.len() as int));
                    }
                }
            }
            law_entry_found(entries, label);
        }
    }
}

/// Whoever chooses the label of a worktree in global mode, inside of tmux, is taken to
/// the session of that worktree: the one that is named after its repository and its
/// branch. It is asked for, created in the directory of the worktree where it is
/// missing, and switched to.
#[verifier::rlimit(40)]
pub proof fn law_program_opens_chosen(
    cli: CliModel,
    env: EnvModel,
    log: Seq<Reply>,
    start: int,
    config: GlobalConfigModel,
    configured: int,
    before: Seq<Seq<char>>,
    repo: Seq<char>,
    after: Seq<Seq<char>>,
    earlier: Seq<EntryModel>,
    listed: int,
    worktrees: Seq<WorktreeModel>,
    w: int,
    entries: Seq<EntryModel>,
    end: int,
)
    requires
        is_global(cli, log, start),
        env.in_tmux && !cli.no_session,
        global_config_flow(env.home, log, start) == Flow::Done(config, configured),
        config.repos == before + seq![repo] + after,
        gather_flow(before, env.home, seq![], log, configured) == Flow::Done(earlier, listed),
        list_flow(tilde_expanded(repo, env.home), log, listed) matches Flow::Done(Ok(list), _)
            && list == worktrees,
        gather_flow(config.repos, env.home, seq![], log, configured) == Flow::Done(entries, end),
        0 <= end < log.len(),
        0 <= w < worktrees.len(),
        ({
            let name = repo_name_of(tilde_expanded(repo, env.home));
            let label = name + ": "@ + worktrees[w].branch;
            &&& log[end] matches Reply::Chosen(chosen) && chosen@ == label
            &&& forall|j: int| 0 <= j < earlier.len() ==> (#[trigger] earlier[j]).label != label
        }),
        forall|j: int| 0 <= j < w ==> (#[trigger] worktrees[j]).branch != worktrees[w].branch,
    ensures
        ({
            let run = run_flow(cli, env, log);
            let repo_name = repo_name_of(tilde_expanded(repo, env.home));
            let session = session_name_of(repo_name, worktrees[w].branch);
            let there = log[end + 2].is_yes();
            let made = !there && log[end + 3].is_yes();
            let n = log.len();
            &&& n == end + 1 ==> awaits(
                run,
                tmux_of(seq!["display-message"@, "-p"@, "#S"@], Capture::Output),
            )
            &&& n == end + 2 ==> awaits(run, has_session(session))
            &&& n == end + 3 && !there ==> awaits(run, new_session(session, worktrees[w].path))
            &&& n == end + 3 && there ==> awaits(run, switch_client(session, Capture::Output))
            &&& n == end + 4 && made ==> awaits(run, switch_client(session, Capture::Output))
        }),
{
    let home = env.home;
    let path = tilde_expanded(repo, home);
    let repo_name = repo_name_of(path);
    lemma_chosen_entry(
        before,
        repo,
        after,
        home,
        earlier,
        worktrees,
        w,
        log,
        configured,
        listed,
    );
    assert(config.repos.len() > 0);
    law_global_steps(home, cli.no_session, env.in_tmux, log, start);
    law_repository_first(cli, env, log);
    let branch = worktrees[w].branch;
    let directory = worktrees[w].path;
    law_go_steps(repo_name, branch, directory, false, true, log, end + 1);
    law_switch_steps(repo_name, branch, directory, false, true, log, end + 1);
}

/// `wt -r` that ends well has had git remove the worktree of the branch. Unless
/// sessions are left alone, the next thing was to ask for the session of the branch,
/// and if that was there, its end was asked for.
#[verifier::rlimit(40)]
pub proof fn law_program_removes(
    cli: CliModel,
    env: EnvModel,
    log: Seq<Reply>,
    root: Seq<char>,
    branch: Seq<char>,
)
    requires
        is_in_repo(cli, log, root),
        cli.command is None && !cli.create && cli.remove,
        cli.branch == Some(branch),
        run_flow(cli, env, log) matches Flow::Done(Exit::Success, _),
    ensures
        ({
            let run = program(cli, env);
            let session = session_name_of(repo_name_of(root), branch);
            list_flow(root, log, 1) matches Flow::Done(Ok(worktrees), _) && {
                &&& worktree_of(worktrees, branch) matches Some(worktree) && exists|
                    k: int,
                    force: bool,
                |
                    #[trigger] asked(run, log, k, remove_command(root, worktree.path, force))
                        && log[k].is_yes() && (cli.no_session || (asked(
                        run,
                        log,
                        k + 1,
                        has_session(session),
                    ) && (log[k + 1].is_yes() ==> exists|j: int|
                        k + 1 < j && #[trigger] asked(run, log, j, kill_session(session)))))
            }
        }),
{
    let run = program(cli, env);
    let session = session_name_of(repo_name_of(root), branch);
    law_run_removes(cli, env, log, root);
    resume_main_repo(log, log, 0);
    resume_list(root, log, log, 1);
    if let Flow::Done(Ok(worktrees), next) = list_flow(root, log, 1) {
        if let Some(worktree) = worktree_of(worktrees, branch) {
            let path = worktree.path;
            resume_consent(branch, path, "Remove"@, log, log, next);
            if let Flow::Done(Some(force), k) = consent_flow(branch, path, "Remove"@, log, next) {
                lemma_removal_at(cli, env, log, root, branch, next, k, k);
                assert(asked(run, log, k, remove_command(root, path, force)));
                if !cli.no_session {
                    let in_tmux = env.in_tmux;
                    resume_kill(session, in_tmux, log, log, k + 1);
                    lemma_kill_complete(session, in_tmux, log, k + 1);
                    let last = kill_flow(session, in_tmux, log, k + 1)->1 - 1;
                    lemma_removal_at(cli, env, log, root, branch, next, k, k + 1);
                    lemma_removal_at(cli, env, log, root, branch, next, k, last);
                    assert(log.take(k + 1)[k] == log[k]);
                    assert(log.take(last)[k] == log[k]);
                    assert(asked(run, log, k + 1, has_session(session)));
                    if log[k + 1].is_yes() {
                        assert(asked(run, log, last, kill_session(session)));
                    }
                }
            }
        }
    }
}

/// What a removal waits for at some time, the program waits for.
proof fn lemma_removal_at(
    cli: CliModel,
    env: EnvModel,
    log: Seq<Reply>,
    root: Seq<char>,
    branch: Seq<char>,
    next: int,
    start: int,
    at: int,
)
    requires
        is_in_repo(cli, log, root),
        cli.command is None && !cli.create && cli.remove,
        cli.branch == Some(branch),
        list_flow(root, log, 1) matches Flow::Done(Ok(worktrees), listed) && {
            &&& listed == next
            &&& worktree_of(worktrees, branch) matches Some(worktree) && (consent_flow(
                branch,
                worktree.path,
                "Remove"@,
                log,
                next,
            ) matches Flow::Done(Some(_), agreed) && agreed == start)
        },
        1 <= next <= start <= at <= log.len(),
    ensures
        ({
            let earlier = log.take(at);
            let worktree = worktree_of(list_flow(root, log, 1)->Done_0->Ok_0, branch)->0;
            &&& list_flow(root, earlier, 1) == list_flow(root, log, 1)
            &&& consent_flow(branch, worktree.path, "Remove"@, earlier, next) == consent_flow(
                branch,
                worktree.path,
                "Remove"@,
                log,
                next,
            )
            &&& removes(
                run_flow(cli, env, earlier),
                root,
                branch,
                worktree.path,
                cli.no_session,
                env.in_tmux,
                earlier,
                next,
            )
        }),
{
    let earlier = log.take(at);
    let path = worktree_of(list_flow(root, log, 1)->Done_0->Ok_0, branch)->0.path;
    lemma_was_in_repo(cli, log, root, at);
    resume_list(root, earlier, log, 1);
    resume_consent(branch, path, "Remove"@, earlier, log, next);
    law_run_removes(cli, env, earlier, root);
}

/// `wt destroy` that ends well has asked for the deletion of the branch, has asked
/// whether the remote repository knows it, and has asked for its deletion there if it
/// does. Unless sessions are left alone, it has asked for the session of the branch,
/// and for its end if it was there.
#[verifier::rlimit(40)]
pub proof fn law_program_destroys(
    cli: CliModel,
    env: EnvModel,
    log: Seq<Reply>,
    root: Seq<char>,
    named: Option<Seq<char>>,
    branch: Seq<char>,
    start: int,
)
    requires
        is_in_repo(cli, log, root),
        cli.command == Some(CommandsModel::Destroy { branch: named }),
        is_branch(named, log, branch, start),
        run_flow(cli, env, log) matches Flow::Done(Exit::Success, _),
    ensures
        ({
            let run = program(cli, env);
            let session = session_name_of(repo_name_of(root), branch);
            &&& exists|i: int| #[trigger] asked(run, log, i, delete_branch(root, branch))
            &&& exists|i: int| #[trigger]
                asked(run, log, i, has_ref(root, "refs/remotes/origin/"@ + branch)) && (
                log[i].is_yes() ==> asked(run, log, i + 1, delete_remote_branch(root, branch)))
            &&& cli.no_session || exists|i: int| #[trigger]
                asked(run, log, i, has_session(session)) && (log[i].is_yes() ==> exists|j: int|
                    i <= j && #[trigger] asked(run, log, j, kill_session(session)))
        }),
{
    let (d, next) = lemma_destruction_done(cli, env, log, root, named, branch, start);
    lemma_destruction_lifted(cli, env, log, d, next);
}

/// What a destruction that was carried through has asked for, the program has.
#[verifier::rlimit(40)]
proof fn lemma_destruction_lifted(
    cli: CliModel,
    env: EnvModel,
    log: Seq<Reply>,
    d: Destruction,
    next: int,
)
    requires
        is_destroying(cli, env, log, d, next),
        0 <= next <= log.len(),
        d.flow(log, next) matches Flow::Done(Ok(_), _),
    ensures
        ({
            let run = program(cli, env);
            let session = session_name_of(d.repo_name, d.branch);
            &&& exists|i: int| #[trigger] asked(run, log, i, delete_branch(d.main_repo, d.branch))
            &&& exists|i: int| #[trigger]
                asked(run, log, i, has_ref(d.main_repo, "refs/remotes/origin/"@ + d.branch)) && (
                log[i].is_yes() ==> asked(
                    run,
                    log,
                    i + 1,
                    delete_remote_branch(d.main_repo, d.branch),
                ))
            &&& d.no_session || exists|i: int| #[trigger]
                asked(run, log, i, has_session(session)) && (log[i].is_yes() ==> exists|j: int|
                    i <= j && #[trigger] asked(run, log, j, kill_session(session)))
        }),
{
    let inner = |l: Seq<Reply>| d.flow(l, next);
    let outer = program(cli, env);
    assert forall|i: int| next <= i < log.len() implies (inner(
        #[trigger] log.take(i),
    ) matches Flow::Ask(action) ==> awaits(outer(log.take(i)), action)) by {
        lemma_was_destroying(cli, env, log, d, next, i);
        lemma_destruction_asks(cli, env, log.take(i), d, next);
    }
    law_destroy_complete(d, log, next);
    assert(log.take(log.len() as int) == log);
    lemma_asked_outside(inner, outer, log, next, d);
}

/// Where one procedure waits for what another one waits for, it has asked for what
/// the other one has asked for.
proof fn lemma_asked_outside<M, N>(
    inner: spec_fn(Seq<Reply>) -> Flow<M>,
    outer: spec_fn(Seq<Reply>) -> Flow<N>,
    log: Seq<Reply>,
    from: int,
    d: Destruction,
)
    requires
        0 <= from,
        forall|i: int|
            from <= i < log.len() ==> (inner(#[trigger] log.take(i)) matches Flow::Ask(action)
                ==> awaits(outer(log.take(i)), action)),
        inner(log) is Done,
        exists|i: int|
            from < i < log.len() && awaits(
                inner(#[trigger] log.take(i)),
                delete_branch(d.main_repo, d.branch),
            ),
        exists|i: int|
            from < i < log.len() && awaits(
                inner(#[trigger] log.take(i)),
                has_ref(d.main_repo, "refs/remotes/origin/"@ + d.branch),
            ) && (log[i].is_yes() ==> awaits(
                inner(log.take(i + 1)),
                delete_remote_branch(d.main_repo, d.branch),
            )),
        d.no_session || exists|i: int, j: int|
            from < i <= j < log.len() && awaits(
                inner(#[trigger] log.take(i)),
                has_session(session_name_of(d.repo_name, d.branch)),
            ) && (log[i].is_yes() ==> awaits(
                inner(#[trigger] log.take(j)),
                kill_session(session_name_of(d.repo_name, d.branch)),
            )),
    ensures
        ({
            let session = session_name_of(d.repo_name, d.branch);
            &&& exists|i: int| #[trigger] asked(outer, log, i, delete_branch(d.main_repo, d.branch))
            &&& exists|i: int| #[trigger]
                asked(outer, log, i, has_ref(d.main_repo, "refs/remotes/origin/"@ + d.branch)) && (
                log[i].is_yes() ==> asked(
                    outer,
                    log,
                    i + 1,
                    delete_remote_branch(d.main_repo, d.branch),
                ))
            &&& d.no_session || exists|i: int| #[trigger]
                asked(outer, log, i, has_session(session)) && (log[i].is_yes() ==> exists|j: int|
                    i <= j && #[trigger] asked(outer, log, j, kill_session(session)))
        }),
{
    let session = session_name_of(d.repo_name, d.branch);
    let deletion = delete_branch(d.main_repo, d.branch);
    let pushed = delete_remote_branch(d.main_repo, d.branch);
    let known = has_ref(d.main_repo, "refs/remotes/origin/"@ + d.branch);
    let i = choose|i: int|
        from < i < log.len() && awaits(inner(#[trigger] log.take(i)), deletion);
    assert(asked(outer, log, i, deletion));
    let i = choose|i: int|
        from < i < log.len() && awaits(inner(#[trigger] log.take(i)), known) && (log[i].is_yes()
            ==> awaits(inner(log.take(i + 1)), pushed));
    assert(asked(outer, log, i, known));
    if log[i].is_yes() {
        if i + 1 == log.len() {
            assert(log.take(i + 1) == log);
        }
        assert(asked(outer, log, i + 1, pushed));
    }
    if !d.no_session {
        let (i, j) = choose|i: int, j: int|
            from < i <= j < log.len() && awaits(
                inner(#[trigger] log.take(i)),
                has_session(session),
            ) && (log[i].is_yes() ==> awaits(
                inner(#[trigger] log.take(j)),
                kill_session(session),
            ));
        assert(asked(outer, log, i, has_session(session)));
        assert(log[i].is_yes() ==> asked(outer, log, j, kill_session(session)));
    }
}

/// `wt destroy` that ends well has carried through the destruction of the branch.
#[verifier::rlimit(40)]
proof fn lemma_destruction_done(
    cli: CliModel,
    env: EnvModel,
    log: Seq<Reply>,
    root: Seq<char>,
    named: Option<Seq<char>>,
    branch: Seq<char>,
    start: int,
) -> (res: (Destruction, int))
    requires
        is_in_repo(cli, log, root),
        cli.command == Some(CommandsModel::Destroy { branch: named }),
        is_branch(named, log, branch, start),
        run_flow(cli, env, log) matches Flow::Done(Exit::Success, _),
    ensures
        is_destroying(cli, env, log, res.0, res.1),
        0 <= res.1 <= log.len(),
        res.0.flow(log, res.1) matches Flow::Done(Ok(_), _),
        res.0.main_repo == root && res.0.repo_name == repo_name_of(root),
        res.0.branch == branch && res.0.no_session == cli.no_session,
{
    resume_main_repo(log, log, 0);
    lemma_was_branch(named, log, branch, start, log.len() as int);
    resume_global_config(env.home, log, log, start);
    law_run_destroys(cli, env, log, root, named, branch, start);
    let config = global_config_flow(env.home, log, start)->Done_0;
    let next = global_config_flow(env.home, log, start)->1;
    let d = Destruction {
        main_repo: root,
        repo_name: repo_name_of(root),
        branch,
        archive_dir: archive_dir_of(config.archive_dir, env.home),
        timestamp: env.timestamp,
        no_session: cli.no_session,
        in_tmux: env.in_tmux,
    };
    assert(is_destroying(cli, env, log, d, next));
    (d, next)
}

/// How the program creates a worktree, step by step, from the base that was named: the
/// remote repository is fetched, the place of the worktree next to the repository is
/// looked at, the directory of the worktrees is created, the branch is looked for, and
/// git adds the worktree, with a new branch from that base if there was none.
pub proof fn law_program_creates(
    cli: CliModel,
    env: EnvModel,
    log: Seq<Reply>,
    root: Seq<char>,
    branch: Seq<char>,
    base: Seq<char>,
    start: int,
)
    requires
        is_creating(cli, log, root, branch, start),
        start <= log.len(),
        cli.base == Some(base),
    ensures
        ({
            let run = run_flow(cli, env, log);
            let n = log.len();
            let path = worktree_path_of(root, branch);
            // Where the replies to the creation start.
            let at = if log[start + 1].is_yes() {
                start + 2
            } else {
                start + 3
            };
            let ready = !log[at].is_yes() && log[at + 1].failure_of() is None;
            &&& n == start ==> awaits(run, ActionModel::Report("Fetching origin..."@))
            &&& n == start + 1 ==> awaits(run, git_of(seq!["fetch"@, "origin"@], Some(root)))
            &&& n == at ==> awaits(run, ActionModel::Exists(path))
            &&& n > at && log[at].is_yes() ==> ends_in(
                run,
                log,
                at + 1,
                "Error: "@ + ("Directory already exists: "@ + path),
                Exit::Failure,
            )
            &&& n == at + 1 && !log[at].is_yes() ==> awaits(
                run,
                ActionModel::CreateDirs(worktrees_dir_of(root)),
            )
            &&& n == at + 2 && ready ==> awaits(
                run,
                git_status_of(
                    seq!["show-ref"@, "--verify"@, "--quiet"@, "refs/heads/"@ + branch],
                    root,
                ),
            )
            &&& n == at + 3 && ready && log[at + 2].is_yes() ==> awaits(
                run,
                git_of(seq!["worktree"@, "add"@, path, branch], Some(root)),
            )
            &&& n == at + 3 && ready && !log[at + 2].is_yes() ==> awaits(
                run,
                git_of(seq!["worktree"@, "add"@, "-b"@, branch, path, base], Some(root)),
            )
        }),
{
    let at: int = if log[start + 1].is_yes() {
        start + 2
    } else {
        start + 3
    };
    resume_main_repo(log, log, 0);
    if !cli.create {
        resume_list(root, log, log, 1);
    }
    lemma_run_creates(cli, env, log, root, branch, start);
    law_base_steps(root, cli.base, log, start);
    if at <= log.len() {
        law_create_steps(root, branch, base, log, at);
    }
}

/// How `wt` with a branch goes to the worktree of that branch: outside of tmux, or where
/// sessions are left alone, its directory is printed and that is all. Otherwise the
/// session of the branch is asked for, created in that directory where it is
/// missing, and switched to.
pub proof fn law_program_goes(
    cli: CliModel,
    env: EnvModel,
    log: Seq<Reply>,
    root: Seq<char>,
    branch: Seq<char>,
    worktrees: Seq<WorktreeModel>,
    path: Seq<char>,
)
    requires
        is_in_repo(cli, log, root),
        cli.command is None && !cli.create && !cli.remove,
        cli.branch == Some(branch),
        list_flow(root, log, 1) == Flow::Done(Ok::<_, Seq<char>>(worktrees), 2),
        worktree_of(worktrees, branch) matches Some(worktree) && worktree.path == path,
    ensures
        ({
            let run = run_flow(cli, env, log);
            let session = session_name_of(repo_name_of(root), branch);
            let there = log[3].is_yes();
            let n = log.len();
            if cli.no_session || !env.in_tmux {
                &&& n == 2 ==> awaits(run, ActionModel::Print(path))
                &&& n > 2 ==> run == Flow::Done(Exit::Success, 3)
            } else {
                &&& n == 2 ==> awaits(
                    run,
                    tmux_of(seq!["display-message"@, "-p"@, "#S"@], Capture::Output),
                )
                &&& n == 3 ==> awaits(run, has_session(session))
                &&& n == 4 && !there ==> awaits(run, new_session(session, path))
                &&& n == 4 && there ==> awaits(run, switch_client(session, Capture::Output))
                &&& n == 5 && !there && log[4].is_yes() ==> awaits(
                    run,
                    switch_client(session, Capture::Output),
                )
            }
        }),
{
    resume_list(root, log, log, 1);
    law_run_switches(cli, env, log, root, branch);
    let repo_name = repo_name_of(root);
    law_go_steps(repo_name, branch, path, cli.no_session, env.in_tmux, log, 2);
    law_switch_steps(repo_name, branch, path, cli.no_session, env.in_tmux, log, 2);
}

/// Once it has created a worktree, the program goes there as it goes to any other one of
/// that repository and branch.
pub proof fn law_program_goes_to_created(
    cli: CliModel,
    env: EnvModel,
    log: Seq<Reply>,
    root: Seq<char>,
    branch: Seq<char>,
    base: Seq<char>,
    path: Seq<char>,
    start: int,
    next: int,
    end: int,
)
    requires
        is_creating(cli, log, root, branch, start),
        resolve_base_flow(root, cli.base, log, start) == Flow::Done(base, next),
        create_flow(root, branch, base, log, next) == Flow::Done(Ok::<_, Seq<char>>(path), end),
    ensures
        path == worktree_path_of(root, branch),
        run_flow(cli, env, log) == go_flow(
            repo_name_of(root),
            branch,
            path,
            cli.no_session,
            env.in_tmux,
            log,
            end,
        ),
{
    lemma_run_creates(cli, env, log, root, branch, start);
}

} // verus!
