//! How the program ends sessions: only where a worktree was removed or a branch
//! destroyed, and not under the client that runs it.

use vstd::prelude::*;

use crate::cli::{
    archive_dir_of, create_mode_flow, named_or_current_flow, pick_mode_flow, rename_mode_flow,
    run_flow, switch_mode_flow, worktree_of, CliModel, CommandsModel, EnvModel,
};
use crate::config::global_config_flow;
use crate::create::{create_flow, resolve_base_flow};
use crate::destroy::{branches_flow, clear_flow, leave_flow};
use crate::flow::{awaits, tmux_of, ActionModel, Capture, Flow, Program, Reply};
use crate::global::{
    all_sessions_flow, entry_with, gather_flow, global_flow, go_flow, open_session_flow,
    open_sessions_flow, sessions_flow, TallyModel,
};
use crate::linking::asked;
use crate::modes::program;
use crate::names::{repo_name_of, session_name_of, tilde_expanded};
use crate::remove::{consent_flow, remove_flow};
use crate::replay::{
    resume_branches, resume_clear, resume_consent, resume_global_config, resume_leave, resume_list,
    resume_main_repo, resume_named_or_current, resume_remove,
};
use crate::repo::{list_flow, main_repo_flow, WorktreeModel};
use crate::safety::{
    is_destroying, law_effects_wanted, lemma_branches_effects, lemma_clear_effects,
    lemma_create_effects, lemma_destruction_asks, lemma_gather_effects, lemma_resolve_base_effects,
    lemma_was_destroying, lemma_words, Destruction,
};
use crate::text::{lines_of, lossy_text, trimmed};
use crate::tmux::{first_other, has_session, kill_flow, kill_session, switch_client, switch_flow};

verus! {

/// Whether an action ends a session.
pub open spec fn is_ending(action: ActionModel) -> bool {
    action matches ActionModel::Run(command) && command.program == Program::Tmux
        && command.args.len() > 0 && command.args[0] == "kill-session"@
}

/// Whether a procedure does not ask for the end of a session.
pub open spec fn ends_none<M>(flow: Flow<M>) -> bool {
    flow matches Flow::Ask(action) ==> !is_ending(action)
}

/// The words by which tmux commands are told apart.
proof fn lemma_end_differs()
    ensures
        "kill-session"@ != "display-message"@,
        "kill-session"@ != "has-session"@,
        "kill-session"@ != "new-session"@,
        "kill-session"@ != "switch-client"@,
        "kill-session"@ != "list-sessions"@,
        "kill-session"@ != "rename-session"@,
{
    reveal_strlit("kill-session");
    reveal_strlit("display-message");
    reveal_strlit("has-session");
    reveal_strlit("new-session");
    reveal_strlit("switch-client");
    reveal_strlit("list-sessions");
    reveal_strlit("rename-session");
    assert("kill-session"@.len() == 12 && "display-message"@.len() == 15);
    assert("has-session"@.len() == 11 && "new-session"@.len() == 11);
    assert("switch-client"@.len() == 13 && "list-sessions"@.len() == 13);
    assert("rename-session"@.len() == 14);
}

proof fn lemma_go_ends_none(
    repo_name: Seq<char>,
    branch: Seq<char>,
    path: Seq<char>,
    no_session: bool,
    in_tmux: bool,
    log: Seq<Reply>,
    at: int,
)
    ensures
        ends_none(go_flow(repo_name, branch, path, no_session, in_tmux, log, at)),
{
    lemma_end_differs();
    assert(ends_none(switch_flow(repo_name, branch, path, no_session, in_tmux, log, at)));
}

proof fn lemma_create_mode_ends_none(
    root: Seq<char>,
    branch: Seq<char>,
    base: Option<Seq<char>>,
    no_session: bool,
    in_tmux: bool,
    log: Seq<Reply>,
    at: int,
)
    ensures
        ends_none(create_mode_flow(root, branch, base, no_session, in_tmux, log, at)),
{
    lemma_resolve_base_effects(root, base, log, at);
    if let Flow::Done(base, next) = resolve_base_flow(root, base, log, at) {
        lemma_create_effects(root, branch, base, log, next);
        if let Flow::Done(Ok(path), end) = create_flow(root, branch, base, log, next) {
            lemma_go_ends_none(repo_name_of(root), branch, path, no_session, in_tmux, log, end);
        }
    }
}

proof fn lemma_switch_mode_ends_none(
    root: Seq<char>,
    branch: Seq<char>,
    base: Option<Seq<char>>,
    no_session: bool,
    in_tmux: bool,
    log: Seq<Reply>,
    at: int,
)
    ensures
        ends_none(switch_mode_flow(root, branch, base, no_session, in_tmux, log, at)),
{
    if let Flow::Done(Ok(worktrees), next) = list_flow(root, log, at) {
        match worktree_of(worktrees, branch) {
            Some(worktree) => {
                let name = repo_name_of(root);
                lemma_go_ends_none(name, branch, worktree.path, no_session, in_tmux, log, next);
            },
            None => {
                lemma_create_mode_ends_none(root, branch, base, no_session, in_tmux, log, next + 2);
            },
        }
    }
}

proof fn lemma_pick_mode_ends_none(
    root: Seq<char>,
    no_session: bool,
    in_tmux: bool,
    log: Seq<Reply>,
    at: int,
)
    ensures
        ends_none(pick_mode_flow(root, no_session, in_tmux, log, at)),
{
    if let Flow::Done(Ok(worktrees), next) = list_flow(root, log, at) {
        if next < log.len() {
            if let Reply::Chosen(branch) = log[next] {
                if let Some(worktree) = worktree_of(worktrees, branch@) {
                    lemma_go_ends_none(
                        repo_name_of(root),
                        branch@,
                        worktree.path,
                        no_session,
                        in_tmux,
                        log,
                        next + 1,
                    );
                }
            }
        }
    }
}

proof fn lemma_rename_mode_ends_none(
    root: Seq<char>,
    new_branch: Seq<char>,
    from: Option<Seq<char>>,
    no_session: bool,
    log: Seq<Reply>,
    at: int,
)
    ensures
        ends_none(rename_mode_flow(root, new_branch, from, no_session, log, at)),
{
    lemma_end_differs();
}

proof fn lemma_global_ends_none(
    home: Option<Seq<char>>,
    no_session: bool,
    in_tmux: bool,
    log: Seq<Reply>,
    at: int,
)
    ensures
        ends_none(global_flow(home, no_session, in_tmux, log, at)),
{
    if let Flow::Done(config, next) = global_config_flow(home, log, at) {
        lemma_gather_effects(config.repos, home, Seq::empty(), log, next);
        if let Flow::Done(entries, next) = gather_flow(
            config.repos,
            home,
            Seq::empty(),
            log,
            next,
        ) {
            if next < log.len() {
                if let Reply::Chosen(label) = log[next] {
                    if let Some(entry) = entry_with(entries, label@) {
                        lemma_go_ends_none(
                            entry.repo_name,
                            entry.branch,
                            entry.path,
                            no_session,
                            in_tmux,
                            log,
                            next + 1,
                        );
                    }
                }
            }
        }
    }
}

proof fn lemma_open_sessions_ends_none(
    repo_name: Seq<char>,
    worktrees: Seq<WorktreeModel>,
    tally: TallyModel,
    log: Seq<Reply>,
    at: int,
)
    ensures
        ends_none(open_sessions_flow(repo_name, worktrees, tally, log, at)),
    decreases worktrees.len(),
{
    lemma_end_differs();
    if worktrees.len() > 0 {
        let opened = open_session_flow(repo_name, worktrees[0], tally, log, at);
        assert(ends_none(opened));
        if let Flow::Done(counted, next) = opened {
            lemma_open_sessions_ends_none(repo_name, worktrees.drop_first(), counted, log, next);
        }
    }
}

proof fn lemma_all_sessions_ends_none(
    repos: Seq<Seq<char>>,
    home: Option<Seq<char>>,
    tally: TallyModel,
    log: Seq<Reply>,
    at: int,
)
    ensures
        ends_none(all_sessions_flow(repos, home, tally, log, at)),
    decreases repos.len(),
{
    if repos.len() > 0 {
        let path = tilde_expanded(repos[0], home);
        let rest = repos.drop_first();
        match list_flow(path, log, at) {
            Flow::Done(Ok(worktrees), next) => {
                let name = repo_name_of(path);
                lemma_open_sessions_ends_none(name, worktrees, tally, log, next);
                if let Flow::Done(counted, end) = open_sessions_flow(
                    name,
                    worktrees,
                    tally,
                    log,
                    next,
                ) {
                    lemma_all_sessions_ends_none(rest, home, counted, log, end);
                }
            },
            Flow::Done(Err(_), next) => {
                lemma_all_sessions_ends_none(rest, home, tally, log, next + 1);
            },
            Flow::Ask(_) => {},
        }
    }
}

proof fn lemma_sessions_ends_none(home: Option<Seq<char>>, log: Seq<Reply>, at: int)
    ensures
        ends_none(sessions_flow(home, log, at)),
{
    let none = TallyModel { total: 0, created: 0, existed: 0 };
    if let Flow::Done(config, next) = global_config_flow(home, log, at) {
        lemma_all_sessions_ends_none(config.repos, home, none, log, next);
    }
}

/// Sessions are ended where a worktree was to be removed or a branch destroyed, and
/// nowhere else.
#[verifier::rlimit(40)]
pub proof fn law_end_wanted(cli: CliModel, env: EnvModel, log: Seq<Reply>)
    requires
        run_flow(cli, env, log) matches Flow::Ask(action) && is_ending(action),
    ensures
        !cli.help && !cli.shell_init && !cli.global && !cli.no_session,
        main_repo_flow(log, 0) matches Flow::Done(Ok(_), _),
        match cli.command {
            Some(command) => command is Destroy,
            None => cli.remove && !cli.create && cli.branch is Some,
        },
{
    let no_session = cli.no_session;
    let in_tmux = env.in_tmux;
    law_effects_wanted(cli, env, log);
    lemma_global_ends_none(env.home, no_session, in_tmux, log, 0);
    lemma_sessions_ends_none(env.home, log, 0);
    match main_repo_flow(log, 0) {
        Flow::Ask(_) => {},
        Flow::Done(Err(_), next) => {
            lemma_global_ends_none(env.home, no_session, in_tmux, log, next);
        },
        Flow::Done(Ok(root), next) => match cli.command {
            Some(CommandsModel::Rename { new_branch, from }) => {
                lemma_rename_mode_ends_none(root, new_branch, from, no_session, log, next);
            },
            Some(_) => {},
            None => match cli.branch {
                Some(branch) => {
                    let base = cli.base;
                    lemma_create_mode_ends_none(
                        root,
                        branch,
                        base,
                        no_session,
                        in_tmux,
                        log,
                        next,
                    );
                    lemma_switch_mode_ends_none(
                        root,
                        branch,
                        base,
                        no_session,
                        in_tmux,
                        log,
                        next,
                    );
                },
                None => {
                    lemma_pick_mode_ends_none(root, no_session, in_tmux, log, next);
                },
            },
        },
    }
}

/// Whether a procedure that is about to end a session, after all of `log`, has moved
/// the client away from it. From the reply `at` on, it has found the session and has
/// asked which one the client shows. If that is the one, it has asked for all of
/// them, and if there is another, the last thing it did was to switch the client to
/// the first other one.
pub open spec fn is_left<M>(
    flow: spec_fn(Seq<Reply>) -> Flow<M>,
    log: Seq<Reply>,
    at: int,
    name: Seq<char>,
) -> bool {
    let shown = trimmed(lossy_text(log[at + 1].stdout_of()));
    let others = lines_of(lossy_text(log[at + 2].stdout_of()));
    &&& asked(flow, log, at, has_session(name)) && log[at].is_yes()
    &&& asked(
        flow,
        log,
        at + 1,
        tmux_of(seq!["display-message"@, "-p"@, "#S"@], Capture::Output),
    )
    &&& if log[at + 1].failure_of() is None && shown == name {
        &&& asked(
            flow,
            log,
            at + 2,
            tmux_of(seq!["list-sessions"@, "-F"@, "#S"@], Capture::Output),
        )
        &&& match first_other(others, name) {
            Some(other) if log[at + 2].failure_of() is None => {
                &&& asked(flow, log, at + 3, switch_client(other, Capture::Status))
                &&& log.len() == at + 4
            },
            _ => log.len() == at + 3,
        }
    } else {
        log.len() == at + 2
    }
}

/// Inside of tmux, a session is ended once the client has left it.
proof fn lemma_kill_left(name: Seq<char>, log: Seq<Reply>, at: int)
    requires
        0 <= at,
        kill_flow(name, true, log, at) matches Flow::Ask(action) && is_ending(action),
    ensures
        awaits(kill_flow(name, true, log, at), kill_session(name)),
        is_left(|l: Seq<Reply>| kill_flow(name, true, l, at), log, at, name),
{
    lemma_end_differs();
    let flow = |l: Seq<Reply>| kill_flow(name, true, l, at);
    assert(at + 2 <= log.len());
    let first = log.take(at + 1);
    assert(first[at] == log[at]);
    if at + 2 < log.len() {
        let second = log.take(at + 2);
        assert(second[at] == log[at] && second[at + 1] == log[at + 1]);
        if at + 3 < log.len() {
            let third = log.take(at + 3);
            assert(third[at] == log[at] && third[at + 1] == log[at + 1] && third[at + 2] == log[at
                + 2]);
        }
    }
}

/// Where one procedure waits for what another one waits for, it has left a session
/// as the other one has.
proof fn lemma_left_outside<M, N>(
    inner: spec_fn(Seq<Reply>) -> Flow<M>,
    outer: spec_fn(Seq<Reply>) -> Flow<N>,
    log: Seq<Reply>,
    at: int,
    name: Seq<char>,
)
    requires
        0 <= at,
        is_left(inner, log, at, name),
        forall|i: int|
            at <= i < log.len() ==> (inner(#[trigger] log.take(i)) matches Flow::Ask(action)
                ==> awaits(outer(log.take(i)), action)),
    ensures
        is_left(outer, log, at, name),
{
    assert(inner(log.take(at)) is Ask);
    assert(inner(log.take(at + 1)) is Ask);
    if log.len() > at + 2 {
        assert(inner(log.take(at + 2)) is Ask);
        if log.len() > at + 3 {
            assert(inner(log.take(at + 3)) is Ask);
        }
    }
}

/// The program inside of tmux does not end the session that the client shows while
/// there is another one. Whenever it ends a session it has asked which one the
/// client shows, and if that is the one, it has just switched the client to the
/// first other session that was listed.
pub proof fn law_end_moves_away(cli: CliModel, env: EnvModel, log: Seq<Reply>)
    requires
        env.in_tmux,
        run_flow(cli, env, log) matches Flow::Ask(action) && is_ending(action),
    ensures
        exists|name: Seq<char>, at: int|
            awaits(run_flow(cli, env, log), kill_session(name)) && #[trigger] is_left(
                program(cli, env),
                log,
                at,
                name,
            ),
{
    law_end_wanted(cli, env, log);
    if cli.command is Some {
        lemma_destroy_left(cli, env, log);
    } else {
        lemma_remove_left(cli, env, log);
    }
}

#[verifier::rlimit(40)]
proof fn lemma_remove_left(cli: CliModel, env: EnvModel, log: Seq<Reply>)
    requires
        env.in_tmux,
        run_flow(cli, env, log) matches Flow::Ask(action) && is_ending(action),
        !cli.help && !cli.shell_init && !cli.global && !cli.no_session,
        main_repo_flow(log, 0) matches Flow::Done(Ok(_), _),
        cli.command is None && cli.remove && !cli.create && cli.branch is Some,
    ensures
        exists|name: Seq<char>, at: int|
            awaits(run_flow(cli, env, log), kill_session(name)) && #[trigger] is_left(
                program(cli, env),
                log,
                at,
                name,
            ),
{
    let root = main_repo_flow(log, 0)->Done_0->Ok_0;
    let branch = cli.branch->0;
    let name = session_name_of(repo_name_of(root), branch);
    resume_main_repo(log, log, 0);
    resume_list(root, log, log, 1);
    if let Flow::Done(Ok(worktrees), next) = list_flow(root, log, 1) {
        if let Some(worktree) = worktree_of(worktrees, branch) {
            let path = worktree.path;
            resume_consent(branch, path, "Remove"@, log, log, next);
            if let Flow::Done(Some(force), agreed) = consent_flow(
                branch,
                path,
                "Remove"@,
                log,
                next,
            ) {
                resume_remove(root, path, force, log, log, agreed);
                if let Flow::Done(Ok(_), end) = remove_flow(root, path, force, log, agreed) {
                    let inner = |l: Seq<Reply>| kill_flow(name, true, l, end);
                    lemma_kill_left(name, log, end);
                    assert forall|i: int| end <= i < log.len() implies (inner(
                        #[trigger] log.take(i),
                    ) matches Flow::Ask(action) ==> awaits(
                        program(cli, env)(log.take(i)),
                        action,
                    )) by {
                        let earlier = log.take(i);
                        resume_main_repo(earlier, log, 0);
                        resume_list(root, earlier, log, 1);
                        resume_consent(branch, path, "Remove"@, earlier, log, next);
                        resume_remove(root, path, force, earlier, log, agreed);
                    }
                    lemma_left_outside(inner, program(cli, env), log, end, name);
                }
            }
        }
    }
}

#[verifier::rlimit(40)]
proof fn lemma_destroy_left(cli: CliModel, env: EnvModel, log: Seq<Reply>)
    requires
        env.in_tmux,
        run_flow(cli, env, log) matches Flow::Ask(action) && is_ending(action),
        !cli.help && !cli.shell_init && !cli.global && !cli.no_session,
        main_repo_flow(log, 0) matches Flow::Done(Ok(_), _),
        cli.command matches Some(command) && command is Destroy,
    ensures
        exists|name: Seq<char>, at: int|
            awaits(run_flow(cli, env, log), kill_session(name)) && #[trigger] is_left(
                program(cli, env),
                log,
                at,
                name,
            ),
{
    let root = main_repo_flow(log, 0)->Done_0->Ok_0;
    let branch = cli.command->0->Destroy_branch;
    resume_main_repo(log, log, 0);
    resume_named_or_current(branch, log, log, 1);
    if let Flow::Done(Ok(name), named) = named_or_current_flow(branch, log, 1) {
        resume_global_config(env.home, log, log, named);
        if let Flow::Done(config, start) = global_config_flow(env.home, log, named) {
            let d = Destruction {
                main_repo: root,
                repo_name: repo_name_of(root),
                branch: name,
                archive_dir: archive_dir_of(config.archive_dir, env.home),
                timestamp: env.timestamp,
                no_session: cli.no_session,
                in_tmux: env.in_tmux,
            };
            assert(is_destroying(cli, env, log, d, start));
            lemma_destruction_asks(cli, env, log, d, start);
            let at = lemma_destruction_left(d, log, start);
            let session = session_name_of(d.repo_name, d.branch);
            let inner = |l: Seq<Reply>| d.flow(l, start);
            assert forall|i: int| at <= i < log.len() implies (inner(
                #[trigger] log.take(i),
            ) matches Flow::Ask(action) ==> awaits(program(cli, env)(log.take(i)), action)) by {
                lemma_was_destroying(cli, env, log, d, start, i);
                lemma_destruction_asks(cli, env, log.take(i), d, start);
            }
            lemma_left_outside(inner, program(cli, env), log, at, session);
        }
    }
}

/// A destruction inside of tmux ends the session once the client has left it.
#[verifier::rlimit(40)]
proof fn lemma_destruction_left(d: Destruction, log: Seq<Reply>, start: int) -> (at: int)
    requires
        d.in_tmux,
        !d.no_session,
        0 <= start <= log.len(),
        d.flow(log, start) matches Flow::Ask(action) && is_ending(action),
    ensures
        start <= at,
        awaits(d.flow(log, start), kill_session(session_name_of(d.repo_name, d.branch))),
        is_left(
            |l: Seq<Reply>| d.flow(l, start),
            log,
            at,
            session_name_of(d.repo_name, d.branch),
        ),
{
    lemma_words();
    let session = session_name_of(d.repo_name, d.branch);
    let outer = |l: Seq<Reply>| d.flow(l, start);
    resume_leave(d.main_repo, d.branch, log, log, start);
    let (force, next) = match leave_flow(d.main_repo, d.branch, log, start) {
        Flow::Done(Some(force), next) => (force, next),
        _ => (false, start),
    };
    assert(leave_flow(d.main_repo, d.branch, log, start) == Flow::Done(Some(force), next));
    let clearing = |l: Seq<Reply>|
        clear_flow(
            d.main_repo,
            d.repo_name,
            d.branch,
            force,
            d.archive_dir,
            d.timestamp,
            l,
            next,
        );
    lemma_clear_effects(
        d.main_repo,
        d.repo_name,
        d.branch,
        force,
        d.archive_dir,
        d.timestamp,
        log,
        next,
    );
    resume_clear(
        d.main_repo,
        d.repo_name,
        d.branch,
        force,
        d.archive_dir,
        d.timestamp,
        log,
        log,
        next,
    );
    assert(clearing(log) matches Flow::Done(Ok(_), _));
    let cleared = clearing(log)->1;
    lemma_branches_effects(d.main_repo, d.branch, log, cleared);
    resume_branches(d.main_repo, d.branch, log, log, cleared);
    assert(branches_flow(d.main_repo, d.branch, log, cleared) matches Flow::Done(Ok(_), _));
    let deleted = branches_flow(d.main_repo, d.branch, log, cleared)->1;
    let inner = |l: Seq<Reply>| kill_flow(session, true, l, deleted);
    lemma_kill_left(session, log, deleted);
    assert forall|i: int| deleted <= i < log.len() implies (inner(
        #[trigger] log.take(i),
    ) matches Flow::Ask(action) ==> awaits(outer(log.take(i)), action)) by {
        let earlier = log.take(i);
        resume_leave(d.main_repo, d.branch, earlier, log, start);
        resume_clear(
            d.main_repo,
            d.repo_name,
            d.branch,
            force,
            d.archive_dir,
            d.timestamp,
            earlier,
            log,
            next,
        );
        resume_branches(d.main_repo, d.branch, earlier, log, cleared);
    }
    lemma_left_outside(inner, outer, log, deleted, session);
    deleted
}

} // verus!
