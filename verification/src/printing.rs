//! What the program prints for the shell that called it.

use vstd::prelude::*;

use crate::cli::{
    create_mode_flow, pick_mode_flow, repo_mode_flow, run_flow, switch_mode_flow, worktree_of,
    CliModel, CommandsModel, EnvModel,
};
use crate::config::global_config_flow;
use crate::create::{create_flow, resolve_base_flow};
use crate::flow::{awaits, ActionModel, Flow, Reply};
use crate::global::{entries_of, entry_with, gather_flow, global_flow, go_flow, EntryModel, Exit};
use crate::names::{
    law_worktree_under_dir, repo_name_of, tilde_expanded, worktree_path_of, worktrees_dir_of,
};
use crate::paths::is_under;
use crate::replay::{
    resume_create, resume_gather, resume_global_config, resume_list, resume_main_repo,
    resume_resolve_base, resume_switch,
};
use crate::repo::{law_listed_under_dir, list_flow, main_repo_flow, WorktreeModel};
use crate::safety::{
    law_effects_wanted, lemma_create_effects, lemma_gather_effects, lemma_remove_mode_effects,
    lemma_rename_mode_effects, lemma_resolve_base_effects, lemma_sessions_effects,
    lemma_switch_effects,
};
use crate::text::lossy_text;

verus! {

/// Whether a path lies among the worktrees of some repository.
pub open spec fn is_among_worktrees(path: Seq<char>) -> bool {
    exists|repo: Seq<char>| is_under(path, #[trigger] worktrees_dir_of(repo))
}

/// Whether a procedure that prints has then come to its good end, whatever came
/// of the printing.
pub open spec fn ends_with(flow: Flow<Exit>, log: Seq<Reply>) -> bool {
    flow == Flow::Done(Exit::Success, log.len() as int + 1)
}

/// Moving to a worktree prints nothing but its directory, at the very end.
proof fn lemma_go_prints(
    repo_name: Seq<char>,
    branch: Seq<char>,
    path: Seq<char>,
    no_session: bool,
    in_tmux: bool,
    log: Seq<Reply>,
    at: int,
    reply: Reply,
)
    requires
        0 <= at <= log.len(),
        go_flow(repo_name, branch, path, no_session, in_tmux, log, at) matches Flow::Ask(action)
            && action is Print,
    ensures
        awaits(
            go_flow(repo_name, branch, path, no_session, in_tmux, log, at),
            ActionModel::Print(path),
        ),
        ends_with(
            go_flow(repo_name, branch, path, no_session, in_tmux, log.push(reply), at),
            log,
        ),
{
    let longer = log.push(reply);
    lemma_switch_effects(repo_name, branch, path, no_session, in_tmux, log, at);
    resume_switch(repo_name, branch, path, no_session, in_tmux, log, longer, at);
}

proof fn lemma_create_prints(
    root: Seq<char>,
    branch: Seq<char>,
    base: Option<Seq<char>>,
    no_session: bool,
    in_tmux: bool,
    log: Seq<Reply>,
    at: int,
    reply: Reply,
)
    requires
        0 <= at <= log.len(),
        create_mode_flow(root, branch, base, no_session, in_tmux, log, at) matches Flow::Ask(action)
            && action is Print,
    ensures
        awaits(
            create_mode_flow(root, branch, base, no_session, in_tmux, log, at),
            ActionModel::Print(worktree_path_of(root, branch)),
        ),
        ends_with(
            create_mode_flow(root, branch, base, no_session, in_tmux, log.push(reply), at),
            log,
        ),
{
    let longer = log.push(reply);
    let name = repo_name_of(root);
    lemma_resolve_base_effects(root, base, log, at);
    resume_resolve_base(root, base, log, longer, at);
    if let Flow::Done(base, next) = resolve_base_flow(root, base, log, at) {
        lemma_create_effects(root, branch, base, log, next);
        resume_create(root, branch, base, log, longer, next);
        if let Flow::Done(Ok(path), end) = create_flow(root, branch, base, log, next) {
            lemma_go_prints(name, branch, path, no_session, in_tmux, log, end, reply);
        }
    }
}

/// A worktree that is found by its branch is one of the listed ones.
proof fn lemma_found(worktrees: Seq<WorktreeModel>, branch: Seq<char>) -> (at: int)
    requires
        worktree_of(worktrees, branch) is Some,
    ensures
        0 <= at < worktrees.len(),
        worktree_of(worktrees, branch) == Some(worktrees[at]),
        worktrees[at].branch == branch,
    decreases worktrees.len(),
{
    if worktrees[0].branch == branch {
        0
    } else {
        let at = lemma_found(worktrees.drop_first(), branch);
        at + 1
    }
}

/// The worktrees that are listed for a repository lie among its worktrees.
proof fn lemma_listed_among(root: Seq<char>, log: Seq<Reply>, at: int)
    requires
        list_flow(root, log, at) matches Flow::Done(Ok(_), _),
    ensures
        list_flow(root, log, at) matches Flow::Done(Ok(worktrees), _) && forall|i: int|
            0 <= i < worktrees.len() ==> is_among_worktrees((#[trigger] worktrees[i]).path),
{
    let dir = worktrees_dir_of(root);
    law_listed_under_dir(lossy_text(log[at].stdout_of()), dir);
    let worktrees = list_flow(root, log, at)->Done_0->Ok_0;
    assert forall|i: int| 0 <= i < worktrees.len() implies is_among_worktrees(
        (#[trigger] worktrees[i]).path,
    ) by {
        assert(is_under(worktrees[i].path, worktrees_dir_of(root)));
    }
}

proof fn lemma_switch_prints(
    root: Seq<char>,
    branch: Seq<char>,
    base: Option<Seq<char>>,
    no_session: bool,
    in_tmux: bool,
    log: Seq<Reply>,
    at: int,
    reply: Reply,
)
    requires
        0 <= at <= log.len(),
        switch_mode_flow(root, branch, base, no_session, in_tmux, log, at) matches Flow::Ask(action)
            && action is Print,
    ensures
        switch_mode_flow(root, branch, base, no_session, in_tmux, log, at) matches Flow::Ask(
            ActionModel::Print(path),
        ) && (path == worktree_path_of(root, branch) || is_among_worktrees(path)),
        ends_with(
            switch_mode_flow(root, branch, base, no_session, in_tmux, log.push(reply), at),
            log,
        ),
{
    let longer = log.push(reply);
    let name = repo_name_of(root);
    resume_list(root, log, longer, at);
    if let Flow::Done(Ok(worktrees), next) = list_flow(root, log, at) {
        match worktree_of(worktrees, branch) {
            Some(worktree) => {
                let path = worktree.path;
                let found = lemma_found(worktrees, branch);
                lemma_listed_among(root, log, at);
                assert(is_among_worktrees(worktrees[found].path));
                lemma_go_prints(name, branch, path, no_session, in_tmux, log, next, reply);
            },
            None => {
                lemma_create_prints(
                    root,
                    branch,
                    base,
                    no_session,
                    in_tmux,
                    log,
                    next + 2,
                    reply,
                );
            },
        }
    }
}

proof fn lemma_pick_prints(
    root: Seq<char>,
    no_session: bool,
    in_tmux: bool,
    log: Seq<Reply>,
    at: int,
    reply: Reply,
)
    requires
        0 <= at <= log.len(),
        pick_mode_flow(root, no_session, in_tmux, log, at) matches Flow::Ask(action)
            && action is Print,
    ensures
        pick_mode_flow(root, no_session, in_tmux, log, at) matches Flow::Ask(
            ActionModel::Print(path),
        ) && is_among_worktrees(path),
        ends_with(pick_mode_flow(root, no_session, in_tmux, log.push(reply), at), log),
{
    let longer = log.push(reply);
    let name = repo_name_of(root);
    resume_list(root, log, longer, at);
    if let Flow::Done(Ok(worktrees), next) = list_flow(root, log, at) {
        if next < log.len() {
            if let Reply::Chosen(branch) = log[next] {
                if let Some(worktree) = worktree_of(worktrees, branch@) {
                    let path = worktree.path;
                    let found = lemma_found(worktrees, branch@);
                    lemma_listed_among(root, log, at);
                    assert(is_among_worktrees(worktrees[found].path));
                    lemma_go_prints(
                        name,
                        branch@,
                        path,
                        no_session,
                        in_tmux,
                        log,
                        next + 1,
                        reply,
                    );
                }
            }
        }
    }
}

/// An entry that is found by its label is one of those that are offered.
proof fn lemma_entry_found(entries: Seq<EntryModel>, label: Seq<char>) -> (at: int)
    requires
        entry_with(entries, label) is Some,
    ensures
        0 <= at < entries.len(),
        entry_with(entries, label) == Some(entries[at]),
        entries[at].label == label,
    decreases entries.len(),
{
    if entries[0].label == label {
        0
    } else {
        let at = lemma_entry_found(entries.drop_first(), label);
        at + 1
    }
}

proof fn lemma_gathered_among(
    repos: Seq<Seq<char>>,
    home: Option<Seq<char>>,
    found: Seq<EntryModel>,
    log: Seq<Reply>,
    at: int,
)
    requires
        forall|i: int| 0 <= i < found.len() ==> is_among_worktrees((#[trigger] found[i]).path),
    ensures
        gather_flow(repos, home, found, log, at) matches Flow::Done(entries, _) ==> forall|i: int|
            0 <= i < entries.len() ==> is_among_worktrees((#[trigger] entries[i]).path),
    decreases repos.len(),
{
    if repos.len() > 0 {
        let path = tilde_expanded(repos[0], home);
        let rest = repos.drop_first();
        match list_flow(path, log, at) {
            Flow::Done(Ok(worktrees), next) => {
                let added = entries_of(repo_name_of(path), worktrees);
                let more = found + added;
                lemma_listed_among(path, log, at);
                assert forall|i: int| 0 <= i < more.len() implies is_among_worktrees(
                    (#[trigger] more[i]).path,
                ) by {
                    if i < found.len() {
                        assert(more[i] == found[i]);
                    } else {
                        let k = i - found.len();
                        assert(more[i] == added[k]);
                        assert(added[k].path == worktrees[k].path);
                    }
                }
                lemma_gathered_among(rest, home, more, log, next);
            },
            Flow::Done(Err(_), next) => {
                lemma_gathered_among(rest, home, found, log, next + 1);
            },
            Flow::Ask(_) => {},
        }
    }
}

proof fn lemma_global_prints(
    home: Option<Seq<char>>,
    no_session: bool,
    in_tmux: bool,
    log: Seq<Reply>,
    at: int,
    reply: Reply,
)
    requires
        0 <= at <= log.len(),
        global_flow(home, no_session, in_tmux, log, at) matches Flow::Ask(action)
            && action is Print,
    ensures
        global_flow(home, no_session, in_tmux, log, at) matches Flow::Ask(ActionModel::Print(path))
            && is_among_worktrees(path),
        ends_with(global_flow(home, no_session, in_tmux, log.push(reply), at), log),
{
    let longer = log.push(reply);
    resume_global_config(home, log, longer, at);
    if let Flow::Done(config, next) = global_config_flow(home, log, at) {
        let none = Seq::<EntryModel>::empty();
        resume_gather(config.repos, home, none, log, longer, next);
        lemma_gather_effects(config.repos, home, none, log, next);
        lemma_gathered_among(config.repos, home, none, log, next);
        if let Flow::Done(entries, gathered) = gather_flow(config.repos, home, none, log, next) {
            if gathered < log.len() {
                if let Reply::Chosen(label) = log[gathered] {
                    if let Some(entry) = entry_with(entries, label@) {
                        let found = lemma_entry_found(entries, label@);
                        assert(is_among_worktrees(entries[found].path));
                        lemma_go_prints(
                            entry.repo_name,
                            entry.branch,
                            entry.path,
                            no_session,
                            in_tmux,
                            log,
                            gathered + 1,
                            reply,
                        );
                    }
                }
            }
        }
    }
}

/// What is printed is the last thing that is done: the program then ends well.
/// But for the shell function it is always the directory of a worktree, for the
/// shell to change to.
pub proof fn law_printed_last(
    cli: CliModel,
    env: EnvModel,
    log: Seq<Reply>,
    line: Seq<char>,
    reply: Reply,
)
    requires
        awaits(run_flow(cli, env, log), ActionModel::Print(line)),
    ensures
        ends_with(run_flow(cli, env, log.push(reply)), log),
        cli.shell_init || is_among_worktrees(line),
{
    let longer = log.push(reply);
    let no_session = cli.no_session;
    let in_tmux = env.in_tmux;
    law_effects_wanted(cli, env, log);
    if cli.help || cli.shell_init {
    } else if cli.global {
        lemma_global_prints(env.home, no_session, in_tmux, log, 0, reply);
    } else if cli.command == Some(CommandsModel::Sessions) {
        lemma_sessions_effects(env.home, log, 0);
    } else {
        resume_main_repo(log, longer, 0);
        match main_repo_flow(log, 0) {
            Flow::Ask(_) => {},
            Flow::Done(Err(_), next) => {
                lemma_global_prints(env.home, no_session, in_tmux, log, next, reply);
            },
            Flow::Done(Ok(root), next) => {
                match cli.command {
                    Some(CommandsModel::Rename { new_branch, from }) => {
                        lemma_rename_mode_effects(root, new_branch, from, no_session, log, next);
                    },
                    Some(_) => {},
                    None => {
                        lemma_repo_prints(cli, env, root, log, next, reply);
                    },
                }
            },
        }
    }
}

proof fn lemma_repo_prints(
    cli: CliModel,
    env: EnvModel,
    root: Seq<char>,
    log: Seq<Reply>,
    at: int,
    reply: Reply,
)
    requires
        0 <= at <= log.len(),
        cli.command is None,
        repo_mode_flow(cli, env, root, log, at) matches Flow::Ask(action)
            && action is Print,
    ensures
        repo_mode_flow(cli, env, root, log, at) matches Flow::Ask(
            ActionModel::Print(line),
        ) && is_among_worktrees(line),
        ends_with(repo_mode_flow(cli, env, root, log.push(reply), at), log),
{
    let no_session = cli.no_session;
    let in_tmux = env.in_tmux;
    match cli.branch {
        Some(branch) => {
            law_worktree_under_dir(root, branch);
            assert(is_under(worktree_path_of(root, branch), worktrees_dir_of(root)));
            if cli.create {
                lemma_create_prints(root, branch, cli.base, no_session, in_tmux, log, at, reply);
            } else if cli.remove {
                lemma_remove_mode_effects(root, branch, no_session, in_tmux, log, at);
            } else {
                lemma_switch_prints(root, branch, cli.base, no_session, in_tmux, log, at, reply);
            }
        },
        None => {
            if !cli.create && !cli.remove {
                lemma_pick_prints(root, no_session, in_tmux, log, at, reply);
            }
        },
    }
}

} // verus!
