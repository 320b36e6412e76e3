//! That procedures take up where they stopped: one that is run again on a longer
//! log comes to the same end, or goes on from the reply that it was waiting for.

use vstd::prelude::*;

use crate::cli::{
    archive_dir_of, chosen_branch_flow, create_mode_flow, destroy_mode_flow, named_or_current_flow,
    pick_mode_flow, remove_mode_flow, removed_flow, rename_mode_flow, repo_mode_flow, run_flow,
    switch_mode_flow, worktree_of, CliModel, CommandsModel, EnvModel,
};
use crate::config::{global_config_flow, repo_config_flow};
use crate::create::{chosen_base_flow, create_flow, link_flow, links_flow, resolve_base_flow};
use crate::destroy::{
    archive_flow, branches_flow, clear_flow, destroy_flow, leave_flow, passed_over_flow,
    remote_flow,
};
use crate::flow::{Flow, Reply};
use crate::global::{
    all_sessions_flow, chosen_entry_flow, entries_of, entry_with, gather_flow, global_flow, go_flow,
    open_session_flow, open_sessions_flow, sessions_flow, EntryModel, TallyModel,
};
use crate::names::{
    archive_path_of, repo_name_of, session_name_of, tilde_expanded, worktree_path_of,
};
use crate::remove::{consent_flow, remove_flow};
use crate::rename::{rename_flow, rename_session_flow};
use crate::repo::{base_flow, changes_flow, fetch_flow, list_flow, main_repo_flow, WorktreeModel};
use crate::tmux::{
    current_session_flow, ensure_and_switch_flow, ensure_session_flow, kill_flow, switch_flow,
};

verus! {

/// Whether a log starts with all the replies of another one.
pub open spec fn extends(longer: Seq<Reply>, log: Seq<Reply>) -> bool {
    &&& log.len() <= longer.len()
    &&& forall|i: int|
        #![trigger longer[i]]
        #![trigger log[i]]
        0 <= i < log.len() ==> longer[i] == log[i]
}

/// Whether what a procedure does on a longer log goes on from what it does on a
/// shorter one: where it is done on the shorter log, it has read no more than
/// that and is done in the same way; where it waits for a reply, it reads one
/// more at least.
pub open spec fn resumes<M>(
    short: Flow<M>,
    long: Flow<M>,
    log: Seq<Reply>,
    longer: Seq<Reply>,
    at: int,
) -> bool {
    match short {
        Flow::Done(_, end) => at <= end <= log.len() && long == short,
        Flow::Ask(_) => match long {
            Flow::Done(_, end) => log.len() < end <= longer.len(),
            Flow::Ask(_) => true,
        },
    }
}

/// The shorter of the two logs, unless a procedure has already read beyond it.
spec fn nearer(log: Seq<Reply>, longer: Seq<Reply>, at: int) -> Seq<Reply> {
    if at <= log.len() {
        log
    } else {
        longer
    }
}

// Each of the following says of one procedure that it resumes. Where a procedure
// is made of others, its proof follows them on the longer log, and on the shorter
// one as far as that goes.

pub(crate) proof fn resume_ensure_session(
    name: Seq<char>,
    path: Seq<char>,
    log: Seq<Reply>,
    longer: Seq<Reply>,
    at: int,
)
    requires
        0 <= at <= log.len(),
        extends(longer, log),
    ensures
        resumes(
            ensure_session_flow(name, path, log, at),
            ensure_session_flow(name, path, longer, at),
            log,
            longer,
            at,
        ),
{
}

pub(crate) proof fn resume_ensure_and_switch(
    name: Seq<char>,
    path: Seq<char>,
    in_tmux: bool,
    log: Seq<Reply>,
    longer: Seq<Reply>,
    at: int,
)
    requires
        0 <= at <= log.len(),
        extends(longer, log),
    ensures
        resumes(
            ensure_and_switch_flow(name, path, in_tmux, log, at),
            ensure_and_switch_flow(name, path, in_tmux, longer, at),
            log,
            longer,
            at,
        ),
{
    resume_ensure_session(name, path, log, longer, at);
}

pub(crate) proof fn resume_current_session(
    in_tmux: bool,
    log: Seq<Reply>,
    longer: Seq<Reply>,
    at: int,
)
    requires
        0 <= at <= log.len(),
        extends(longer, log),
    ensures
        resumes(
            current_session_flow(in_tmux, log, at),
            current_session_flow(in_tmux, longer, at),
            log,
            longer,
            at,
        ),
{
}

pub(crate) proof fn resume_kill(
    name: Seq<char>,
    in_tmux: bool,
    log: Seq<Reply>,
    longer: Seq<Reply>,
    at: int,
)
    requires
        0 <= at <= log.len(),
        extends(longer, log),
    ensures
        resumes(
            kill_flow(name, in_tmux, log, at),
            kill_flow(name, in_tmux, longer, at),
            log,
            longer,
            at,
        ),
{
    if at < longer.len() && longer[at].is_yes() {
        let near = nearer(log, longer, at + 1);
        resume_current_session(in_tmux, near, longer, at + 1);
    }
}

pub(crate) proof fn resume_switch(
    repo_name: Seq<char>,
    branch: Seq<char>,
    path: Seq<char>,
    no_session: bool,
    in_tmux: bool,
    log: Seq<Reply>,
    longer: Seq<Reply>,
    at: int,
)
    requires
        0 <= at <= log.len(),
        extends(longer, log),
    ensures
        resumes(
            switch_flow(repo_name, branch, path, no_session, in_tmux, log, at),
            switch_flow(repo_name, branch, path, no_session, in_tmux, longer, at),
            log,
            longer,
            at,
        ),
{
    resume_current_session(in_tmux, log, longer, at);
    if let Flow::Done(_, next) = current_session_flow(in_tmux, longer, at) {
        let near = nearer(log, longer, next);
        let session = session_name_of(repo_name, branch);
        resume_ensure_and_switch(session, path, in_tmux, near, longer, next);
    }
}

pub(crate) proof fn resume_main_repo(log: Seq<Reply>, longer: Seq<Reply>, at: int)
    requires
        0 <= at <= log.len(),
        extends(longer, log),
    ensures
        resumes(
            main_repo_flow(log, at),
            main_repo_flow(longer, at),
            log,
            longer,
            at,
        ),
{
}

pub(crate) proof fn resume_list(
    main_repo: Seq<char>,
    log: Seq<Reply>,
    longer: Seq<Reply>,
    at: int,
)
    requires
        0 <= at <= log.len(),
        extends(longer, log),
    ensures
        resumes(
            list_flow(main_repo, log, at),
            list_flow(main_repo, longer, at),
            log,
            longer,
            at,
        ),
{
}

pub(crate) proof fn resume_changes(path: Seq<char>, log: Seq<Reply>, longer: Seq<Reply>, at: int)
    requires
        0 <= at <= log.len(),
        extends(longer, log),
    ensures
        resumes(
            changes_flow(path, log, at),
            changes_flow(path, longer, at),
            log,
            longer,
            at,
        ),
{
}

pub(crate) proof fn resume_fetch(
    main_repo: Seq<char>,
    log: Seq<Reply>,
    longer: Seq<Reply>,
    at: int,
)
    requires
        0 <= at <= log.len(),
        extends(longer, log),
    ensures
        resumes(
            fetch_flow(main_repo, log, at),
            fetch_flow(main_repo, longer, at),
            log,
            longer,
            at,
        ),
{
}

pub(crate) proof fn resume_base(
    main_repo: Seq<char>,
    log: Seq<Reply>,
    longer: Seq<Reply>,
    at: int,
)
    requires
        0 <= at <= log.len(),
        extends(longer, log),
    ensures
        resumes(
            base_flow(main_repo, log, at),
            base_flow(main_repo, longer, at),
            log,
            longer,
            at,
        ),
{
}

pub(crate) proof fn resume_global_config(
    home: Option<Seq<char>>,
    log: Seq<Reply>,
    longer: Seq<Reply>,
    at: int,
)
    requires
        0 <= at <= log.len(),
        extends(longer, log),
    ensures
        resumes(
            global_config_flow(home, log, at),
            global_config_flow(home, longer, at),
            log,
            longer,
            at,
        ),
{
}

pub(crate) proof fn resume_repo_config(
    main_repo: Seq<char>,
    log: Seq<Reply>,
    longer: Seq<Reply>,
    at: int,
)
    requires
        0 <= at <= log.len(),
        extends(longer, log),
    ensures
        resumes(
            repo_config_flow(main_repo, log, at),
            repo_config_flow(main_repo, longer, at),
            log,
            longer,
            at,
        ),
{
}

pub(crate) proof fn resume_link(
    main_repo: Seq<char>,
    worktree: Seq<char>,
    entry: Seq<char>,
    log: Seq<Reply>,
    longer: Seq<Reply>,
    at: int,
)
    requires
        0 <= at <= log.len(),
        extends(longer, log),
    ensures
        resumes(
            link_flow(main_repo, worktree, entry, log, at),
            link_flow(main_repo, worktree, entry, longer, at),
            log,
            longer,
            at,
        ),
{
}

pub(crate) proof fn resume_links(
    main_repo: Seq<char>,
    worktree: Seq<char>,
    entries: Seq<Seq<char>>,
    log: Seq<Reply>,
    longer: Seq<Reply>,
    at: int,
)
    requires
        0 <= at <= log.len(),
        extends(longer, log),
    ensures
        resumes(
            links_flow(main_repo, worktree, entries, log, at),
            links_flow(main_repo, worktree, entries, longer, at),
            log,
            longer,
            at,
        ),
    decreases entries.len(),
{
    if entries.len() > 0 {
        resume_link(main_repo, worktree, entries[0], log, longer, at);
        if let Flow::Done(_, next) = link_flow(main_repo, worktree, entries[0], longer, at) {
            let near = nearer(log, longer, next);
            resume_links(main_repo, worktree, entries.drop_first(), near, longer, next);
        }
    }
}

pub(crate) proof fn resume_create(
    main_repo: Seq<char>,
    branch: Seq<char>,
    base: Seq<char>,
    log: Seq<Reply>,
    longer: Seq<Reply>,
    at: int,
)
    requires
        0 <= at <= log.len(),
        extends(longer, log),
    ensures
        resumes(
            create_flow(main_repo, branch, base, log, at),
            create_flow(main_repo, branch, base, longer, at),
            log,
            longer,
            at,
        ),
{
    let path = worktree_path_of(main_repo, branch);
    if at + 4 <= longer.len() {
        let near = nearer(log, longer, at + 4);
        resume_repo_config(main_repo, near, longer, at + 4);
        if let Flow::Done(entries, next) = repo_config_flow(main_repo, longer, at + 4) {
            let near = nearer(log, longer, next);
            resume_links(main_repo, path, entries, near, longer, next);
        }
    }
}

pub(crate) proof fn resume_chosen_base(
    main_repo: Seq<char>,
    wanted: Option<Seq<char>>,
    log: Seq<Reply>,
    longer: Seq<Reply>,
    at: int,
)
    requires
        0 <= at <= log.len(),
        extends(longer, log),
    ensures
        resumes(
            chosen_base_flow(main_repo, wanted, log, at),
            chosen_base_flow(main_repo, wanted, longer, at),
            log,
            longer,
            at,
        ),
{
    resume_base(main_repo, log, longer, at);
}

pub(crate) proof fn resume_resolve_base(
    main_repo: Seq<char>,
    wanted: Option<Seq<char>>,
    log: Seq<Reply>,
    longer: Seq<Reply>,
    at: int,
)
    requires
        0 <= at <= log.len(),
        extends(longer, log),
    ensures
        resumes(
            resolve_base_flow(main_repo, wanted, log, at),
            resolve_base_flow(main_repo, wanted, longer, at),
            log,
            longer,
            at,
        ),
{
    resume_fetch(main_repo, log, longer, at);
    if let Flow::Done(fetched, next) = fetch_flow(main_repo, longer, at) {
        let near = nearer(log, longer, next);
        resume_chosen_base(main_repo, wanted, near, longer, next);
        if next < longer.len() {
            let near = nearer(log, longer, next + 1);
            resume_chosen_base(main_repo, wanted, near, longer, next + 1);
        }
    }
}

pub(crate) proof fn resume_remove(
    main_repo: Seq<char>,
    path: Seq<char>,
    force: bool,
    log: Seq<Reply>,
    longer: Seq<Reply>,
    at: int,
)
    requires
        0 <= at <= log.len(),
        extends(longer, log),
    ensures
        resumes(
            remove_flow(main_repo, path, force, log, at),
            remove_flow(main_repo, path, force, longer, at),
            log,
            longer,
            at,
        ),
{
}

pub(crate) proof fn resume_consent(
    branch: Seq<char>,
    path: Seq<char>,
    verb: Seq<char>,
    log: Seq<Reply>,
    longer: Seq<Reply>,
    at: int,
)
    requires
        0 <= at <= log.len(),
        extends(longer, log),
    ensures
        resumes(
            consent_flow(branch, path, verb, log, at),
            consent_flow(branch, path, verb, longer, at),
            log,
            longer,
            at,
        ),
{
    resume_changes(path, log, longer, at);
}

pub(crate) proof fn resume_rename_session(
    old_name: Seq<char>,
    new_name: Seq<char>,
    log: Seq<Reply>,
    longer: Seq<Reply>,
    at: int,
)
    requires
        0 <= at <= log.len(),
        extends(longer, log),
    ensures
        resumes(
            rename_session_flow(old_name, new_name, log, at),
            rename_session_flow(old_name, new_name, longer, at),
            log,
            longer,
            at,
        ),
{
}

pub(crate) proof fn resume_rename(
    main_repo: Seq<char>,
    repo_name: Seq<char>,
    old_branch: Seq<char>,
    new_branch: Seq<char>,
    no_session: bool,
    log: Seq<Reply>,
    longer: Seq<Reply>,
    at: int,
)
    requires
        0 <= at <= log.len(),
        extends(longer, log),
    ensures
        resumes(
            rename_flow(main_repo, repo_name, old_branch, new_branch, no_session, log, at),
            rename_flow(
                main_repo,
                repo_name,
                old_branch,
                new_branch,
                no_session,
                longer,
                at,
            ),
            log,
            longer,
            at,
        ),
{
    if at + 4 <= longer.len() {
        let near = nearer(log, longer, at + 4);
        let old_name = session_name_of(repo_name, old_branch);
        let new_name = session_name_of(repo_name, new_branch);
        resume_rename_session(old_name, new_name, near, longer, at + 4);
    }
}

pub(crate) proof fn resume_archive(
    main_repo: Seq<char>,
    branch: Seq<char>,
    archive_dir: Seq<char>,
    target: Seq<char>,
    log: Seq<Reply>,
    longer: Seq<Reply>,
    at: int,
)
    requires
        0 <= at <= log.len(),
        extends(longer, log),
    ensures
        resumes(
            archive_flow(main_repo, branch, archive_dir, target, log, at),
            archive_flow(main_repo, branch, archive_dir, target, longer, at),
            log,
            longer,
            at,
        ),
{
}

pub(crate) proof fn resume_clear(
    main_repo: Seq<char>,
    repo_name: Seq<char>,
    branch: Seq<char>,
    force: bool,
    archive_dir: Option<Seq<char>>,
    timestamp: Seq<char>,
    log: Seq<Reply>,
    longer: Seq<Reply>,
    at: int,
)
    requires
        0 <= at <= log.len(),
        extends(longer, log),
    ensures
        resumes(
            clear_flow(
                main_repo,
                repo_name,
                branch,
                force,
                archive_dir,
                timestamp,
                log,
                at,
            ),
            clear_flow(
                main_repo,
                repo_name,
                branch,
                force,
                archive_dir,
                timestamp,
                longer,
                at,
            ),
            log,
            longer,
            at,
        ),
{
    let path = worktree_path_of(main_repo, branch);
    if at < longer.len() {
        let near = nearer(log, longer, at + 1);
        if let Some(dir) = archive_dir {
            let target = archive_path_of(dir, repo_name, branch, timestamp);
            resume_archive(main_repo, branch, dir, target, near, longer, at + 1);
            if let Flow::Done(_, next) = archive_flow(
                main_repo,
                branch,
                dir,
                target,
                longer,
                at + 1,
            ) {
                let near = nearer(log, longer, next);
                resume_remove(main_repo, path, force, near, longer, next);
            }
        }
    }
}

pub(crate) proof fn resume_passed_over(
    reply: Reply,
    warning: Seq<char>,
    log: Seq<Reply>,
    longer: Seq<Reply>,
    at: int,
)
    requires
        0 <= at <= log.len(),
        extends(longer, log),
    ensures
        resumes(
            passed_over_flow(reply, warning, log, at),
            passed_over_flow(reply, warning, longer, at),
            log,
            longer,
            at,
        ),
{
}

pub(crate) proof fn resume_remote(
    main_repo: Seq<char>,
    branch: Seq<char>,
    log: Seq<Reply>,
    longer: Seq<Reply>,
    at: int,
)
    requires
        0 <= at <= log.len(),
        extends(longer, log),
    ensures
        resumes(
            remote_flow(main_repo, branch, log, at),
            remote_flow(main_repo, branch, longer, at),
            log,
            longer,
            at,
        ),
{
    if at + 2 <= longer.len() {
        let near = nearer(log, longer, at + 2);
        let warning = "Warning: could not delete remote branch: "@;
        resume_passed_over(longer[at + 1], warning, near, longer, at + 2);
    }
}

pub(crate) proof fn resume_branches(
    main_repo: Seq<char>,
    branch: Seq<char>,
    log: Seq<Reply>,
    longer: Seq<Reply>,
    at: int,
)
    requires
        0 <= at <= log.len(),
        extends(longer, log),
    ensures
        resumes(
            branches_flow(main_repo, branch, log, at),
            branches_flow(main_repo, branch, longer, at),
            log,
            longer,
            at,
        ),
{
    if at < longer.len() {
        let near = nearer(log, longer, at + 1);
        let warning = "Warning: could not delete local branch: "@;
        resume_passed_over(longer[at], warning, near, longer, at + 1);
        if let Flow::Done(_, next) = passed_over_flow(longer[at], warning, longer, at + 1) {
            let near = nearer(log, longer, next);
            resume_remote(main_repo, branch, near, longer, next);
        }
    }
}

pub(crate) proof fn resume_leave(
    main_repo: Seq<char>,
    branch: Seq<char>,
    log: Seq<Reply>,
    longer: Seq<Reply>,
    at: int,
)
    requires
        0 <= at <= log.len(),
        extends(longer, log),
    ensures
        resumes(
            leave_flow(main_repo, branch, log, at),
            leave_flow(main_repo, branch, longer, at),
            log,
            longer,
            at,
        ),
{
    let path = worktree_path_of(main_repo, branch);
    if at < longer.len() {
        let near = nearer(log, longer, at + 1);
        resume_consent(branch, path, "Destroy"@, near, longer, at + 1);
    }
}

pub(crate) proof fn resume_destroy(
    main_repo: Seq<char>,
    repo_name: Seq<char>,
    branch: Seq<char>,
    archive_dir: Option<Seq<char>>,
    timestamp: Seq<char>,
    no_session: bool,
    in_tmux: bool,
    log: Seq<Reply>,
    longer: Seq<Reply>,
    at: int,
)
    requires
        0 <= at <= log.len(),
        extends(longer, log),
    ensures
        resumes(
            destroy_flow(
                main_repo,
                repo_name,
                branch,
                archive_dir,
                timestamp,
                no_session,
                in_tmux,
                log,
                at,
            ),
            destroy_flow(
                main_repo,
                repo_name,
                branch,
                archive_dir,
                timestamp,
                no_session,
                in_tmux,
                longer,
                at,
            ),
            log,
            longer,
            at,
        ),
{
    let session = session_name_of(repo_name, branch);
    resume_leave(main_repo, branch, log, longer, at);
    if let Flow::Done(Some(force), next) = leave_flow(main_repo, branch, longer, at) {
        let near = nearer(log, longer, next);
        resume_clear(
            main_repo,
            repo_name,
            branch,
            force,
            archive_dir,
            timestamp,
            near,
            longer,
            next,
        );
        if let Flow::Done(_, cleared) = clear_flow(
            main_repo,
            repo_name,
            branch,
            force,
            archive_dir,
            timestamp,
            longer,
            next,
        ) {
            let near = nearer(log, longer, cleared);
            resume_branches(main_repo, branch, near, longer, cleared);
            if let Flow::Done(_, deleted) = branches_flow(main_repo, branch, longer, cleared) {
                let near = nearer(log, longer, deleted);
                resume_kill(session, in_tmux, near, longer, deleted);
            }
        }
    }
}

pub(crate) proof fn resume_go(
    repo_name: Seq<char>,
    branch: Seq<char>,
    path: Seq<char>,
    no_session: bool,
    in_tmux: bool,
    log: Seq<Reply>,
    longer: Seq<Reply>,
    at: int,
)
    requires
        0 <= at <= log.len(),
        extends(longer, log),
    ensures
        resumes(
            go_flow(repo_name, branch, path, no_session, in_tmux, log, at),
            go_flow(repo_name, branch, path, no_session, in_tmux, longer, at),
            log,
            longer,
            at,
        ),
{
    resume_switch(repo_name, branch, path, no_session, in_tmux, log, longer, at);
}

pub(crate) proof fn resume_open_session(
    repo_name: Seq<char>,
    worktree: WorktreeModel,
    tally: TallyModel,
    log: Seq<Reply>,
    longer: Seq<Reply>,
    at: int,
)
    requires
        0 <= at <= log.len(),
        extends(longer, log),
    ensures
        resumes(
            open_session_flow(repo_name, worktree, tally, log, at),
            open_session_flow(repo_name, worktree, tally, longer, at),
            log,
            longer,
            at,
        ),
{
    let session = session_name_of(repo_name, worktree.branch);
    resume_ensure_session(session, worktree.path, log, longer, at);
}

pub(crate) proof fn resume_open_sessions(
    repo_name: Seq<char>,
    worktrees: Seq<WorktreeModel>,
    tally: TallyModel,
    log: Seq<Reply>,
    longer: Seq<Reply>,
    at: int,
)
    requires
        0 <= at <= log.len(),
        extends(longer, log),
    ensures
        resumes(
            open_sessions_flow(repo_name, worktrees, tally, log, at),
            open_sessions_flow(repo_name, worktrees, tally, longer, at),
            log,
            longer,
            at,
        ),
    decreases worktrees.len(),
{
    if worktrees.len() > 0 {
        resume_open_session(repo_name, worktrees[0], tally, log, longer, at);
        if let Flow::Done(counted, next) = open_session_flow(
            repo_name,
            worktrees[0],
            tally,
            longer,
            at,
        ) {
            let near = nearer(log, longer, next);
            resume_open_sessions(repo_name, worktrees.drop_first(), counted, near, longer, next);
        }
    }
}

pub(crate) proof fn resume_all_sessions(
    repos: Seq<Seq<char>>,
    home: Option<Seq<char>>,
    tally: TallyModel,
    log: Seq<Reply>,
    longer: Seq<Reply>,
    at: int,
)
    requires
        0 <= at <= log.len(),
        extends(longer, log),
    ensures
        resumes(
            all_sessions_flow(repos, home, tally, log, at),
            all_sessions_flow(repos, home, tally, longer, at),
            log,
            longer,
            at,
        ),
    decreases repos.len(),
{
    if repos.len() > 0 {
        let path = tilde_expanded(repos[0], home);
        let rest = repos.drop_first();
        resume_list(path, log, longer, at);
        if let Flow::Done(listed, next) = list_flow(path, longer, at) {
            let near = nearer(log, longer, next);
            match listed {
                Ok(worktrees) => {
                    let name = repo_name_of(path);
                    resume_open_sessions(name, worktrees, tally, near, longer, next);
                    if let Flow::Done(counted, end) = open_sessions_flow(
                        name,
                        worktrees,
                        tally,
                        longer,
                        next,
                    ) {
                        let near = nearer(log, longer, end);
                        resume_all_sessions(rest, home, counted, near, longer, end);
                    }
                },
                Err(_) => {
                    if next < longer.len() {
                        let near = nearer(log, longer, next + 1);
                        resume_all_sessions(rest, home, tally, near, longer, next + 1);
                    }
                },
            }
        }
    }
}

pub(crate) proof fn resume_sessions(
    home: Option<Seq<char>>,
    log: Seq<Reply>,
    longer: Seq<Reply>,
    at: int,
)
    requires
        0 <= at <= log.len(),
        extends(longer, log),
    ensures
        resumes(
            sessions_flow(home, log, at),
            sessions_flow(home, longer, at),
            log,
            longer,
            at,
        ),
{
    let none = TallyModel { total: 0, created: 0, existed: 0 };
    resume_global_config(home, log, longer, at);
    if let Flow::Done(config, next) = global_config_flow(home, longer, at) {
        let near = nearer(log, longer, next);
        resume_all_sessions(config.repos, home, none, near, longer, next);
    }
}

pub(crate) proof fn resume_gather(
    repos: Seq<Seq<char>>,
    home: Option<Seq<char>>,
    found: Seq<EntryModel>,
    log: Seq<Reply>,
    longer: Seq<Reply>,
    at: int,
)
    requires
        0 <= at <= log.len(),
        extends(longer, log),
    ensures
        resumes(
            gather_flow(repos, home, found, log, at),
            gather_flow(repos, home, found, longer, at),
            log,
            longer,
            at,
        ),
    decreases repos.len(),
{
    if repos.len() > 0 {
        let path = tilde_expanded(repos[0], home);
        let rest = repos.drop_first();
        resume_list(path, log, longer, at);
        if let Flow::Done(listed, next) = list_flow(path, longer, at) {
            let near = nearer(log, longer, next);
            match listed {
                Ok(worktrees) => {
                    let more = found + entries_of(repo_name_of(path), worktrees);
                    resume_gather(rest, home, more, near, longer, next);
                },
                Err(_) => {
                    if next < longer.len() {
                        let near = nearer(log, longer, next + 1);
                        resume_gather(rest, home, found, near, longer, next + 1);
                    }
                },
            }
        }
    }
}

pub(crate) proof fn resume_chosen_entry(
    choice: Reply,
    entries: Seq<EntryModel>,
    no_session: bool,
    in_tmux: bool,
    log: Seq<Reply>,
    longer: Seq<Reply>,
    at: int,
)
    requires
        0 <= at <= log.len(),
        extends(longer, log),
    ensures
        resumes(
            chosen_entry_flow(choice, entries, no_session, in_tmux, log, at),
            chosen_entry_flow(choice, entries, no_session, in_tmux, longer, at),
            log,
            longer,
            at,
        ),
{
    if let Reply::Chosen(label) = choice {
        if let Some(entry) = entry_with(entries, label@) {
            resume_go(
                entry.repo_name,
                entry.branch,
                entry.path,
                no_session,
                in_tmux,
                log,
                longer,
                at,
            );
        }
    }
}

pub(crate) proof fn resume_global(
    home: Option<Seq<char>>,
    no_session: bool,
    in_tmux: bool,
    log: Seq<Reply>,
    longer: Seq<Reply>,
    at: int,
)
    requires
        0 <= at <= log.len(),
        extends(longer, log),
    ensures
        resumes(
            global_flow(home, no_session, in_tmux, log, at),
            global_flow(home, no_session, in_tmux, longer, at),
            log,
            longer,
            at,
        ),
{
    resume_global_config(home, log, longer, at);
    if let Flow::Done(config, next) = global_config_flow(home, longer, at) {
        let near = nearer(log, longer, next);
        resume_gather(config.repos, home, Seq::empty(), near, longer, next);
        if let Flow::Done(entries, gathered) = gather_flow(
            config.repos,
            home,
            Seq::empty(),
            longer,
            next,
        ) {
            if gathered < longer.len() {
                let near = nearer(log, longer, gathered + 1);
                resume_chosen_entry(
                    longer[gathered],
                    entries,
                    no_session,
                    in_tmux,
                    near,
                    longer,
                    gathered + 1,
                );
            }
        }
    }
}

pub(crate) proof fn resume_named_or_current(
    named: Option<Seq<char>>,
    log: Seq<Reply>,
    longer: Seq<Reply>,
    at: int,
)
    requires
        0 <= at <= log.len(),
        extends(longer, log),
    ensures
        resumes(
            named_or_current_flow(named, log, at),
            named_or_current_flow(named, longer, at),
            log,
            longer,
            at,
        ),
{
}

pub(crate) proof fn resume_rename_mode(
    root: Seq<char>,
    new_branch: Seq<char>,
    from: Option<Seq<char>>,
    no_session: bool,
    log: Seq<Reply>,
    longer: Seq<Reply>,
    at: int,
)
    requires
        0 <= at <= log.len(),
        extends(longer, log),
    ensures
        resumes(
            rename_mode_flow(root, new_branch, from, no_session, log, at),
            rename_mode_flow(root, new_branch, from, no_session, longer, at),
            log,
            longer,
            at,
        ),
{
    resume_named_or_current(from, log, longer, at);
    if let Flow::Done(Ok(old_branch), next) = named_or_current_flow(from, longer, at) {
        let near = nearer(log, longer, next);
        let name = repo_name_of(root);
        resume_rename(root, name, old_branch, new_branch, no_session, near, longer, next);
    }
}

pub(crate) proof fn resume_destroy_mode(
    root: Seq<char>,
    branch: Option<Seq<char>>,
    no_session: bool,
    env: EnvModel,
    log: Seq<Reply>,
    longer: Seq<Reply>,
    at: int,
)
    requires
        0 <= at <= log.len(),
        extends(longer, log),
    ensures
        resumes(
            destroy_mode_flow(root, branch, no_session, env, log, at),
            destroy_mode_flow(root, branch, no_session, env, longer, at),
            log,
            longer,
            at,
        ),
{
    resume_named_or_current(branch, log, longer, at);
    if let Flow::Done(Ok(branch), next) = named_or_current_flow(branch, longer, at) {
        let near = nearer(log, longer, next);
        resume_global_config(env.home, near, longer, next);
        if let Flow::Done(config, configured) = global_config_flow(env.home, longer, next) {
            let near = nearer(log, longer, configured);
            resume_destroy(
                root,
                repo_name_of(root),
                branch,
                archive_dir_of(config.archive_dir, env.home),
                env.timestamp,
                no_session,
                env.in_tmux,
                near,
                longer,
                configured,
            );
        }
    }
}

pub(crate) proof fn resume_create_mode(
    root: Seq<char>,
    branch: Seq<char>,
    base: Option<Seq<char>>,
    no_session: bool,
    in_tmux: bool,
    log: Seq<Reply>,
    longer: Seq<Reply>,
    at: int,
)
    requires
        0 <= at <= log.len(),
        extends(longer, log),
    ensures
        resumes(
            create_mode_flow(root, branch, base, no_session, in_tmux, log, at),
            create_mode_flow(root, branch, base, no_session, in_tmux, longer, at),
            log,
            longer,
            at,
        ),
{
    resume_resolve_base(root, base, log, longer, at);
    if let Flow::Done(base, next) = resolve_base_flow(root, base, longer, at) {
        let near = nearer(log, longer, next);
        resume_create(root, branch, base, near, longer, next);
        if let Flow::Done(Ok(path), end) = create_flow(root, branch, base, longer, next) {
            let near = nearer(log, longer, end);
            let name = repo_name_of(root);
            resume_go(name, branch, path, no_session, in_tmux, near, longer, end);
        }
    }
}

pub(crate) proof fn resume_removed(
    root: Seq<char>,
    branch: Seq<char>,
    no_session: bool,
    in_tmux: bool,
    log: Seq<Reply>,
    longer: Seq<Reply>,
    at: int,
)
    requires
        0 <= at <= log.len(),
        extends(longer, log),
    ensures
        resumes(
            removed_flow(root, branch, no_session, in_tmux, log, at),
            removed_flow(root, branch, no_session, in_tmux, longer, at),
            log,
            longer,
            at,
        ),
{
    let session = session_name_of(repo_name_of(root), branch);
    resume_kill(session, in_tmux, log, longer, at);
}

pub(crate) proof fn resume_remove_mode(
    root: Seq<char>,
    branch: Seq<char>,
    no_session: bool,
    in_tmux: bool,
    log: Seq<Reply>,
    longer: Seq<Reply>,
    at: int,
)
    requires
        0 <= at <= log.len(),
        extends(longer, log),
    ensures
        resumes(
            remove_mode_flow(root, branch, no_session, in_tmux, log, at),
            remove_mode_flow(root, branch, no_session, in_tmux, longer, at),
            log,
            longer,
            at,
        ),
{
    resume_list(root, log, longer, at);
    if let Flow::Done(Ok(worktrees), next) = list_flow(root, longer, at) {
        if let Some(worktree) = worktree_of(worktrees, branch) {
            let near = nearer(log, longer, next);
            resume_consent(branch, worktree.path, "Remove"@, near, longer, next);
            if let Flow::Done(Some(force), asked) = consent_flow(
                branch,
                worktree.path,
                "Remove"@,
                longer,
                next,
            ) {
                let near = nearer(log, longer, asked);
                resume_remove(root, worktree.path, force, near, longer, asked);
                if asked < longer.len() {
                    let near = nearer(log, longer, asked + 1);
                    resume_removed(root, branch, no_session, in_tmux, near, longer, asked + 1);
                }
            }
        }
    }
}

pub(crate) proof fn resume_switch_mode(
    root: Seq<char>,
    branch: Seq<char>,
    base: Option<Seq<char>>,
    no_session: bool,
    in_tmux: bool,
    log: Seq<Reply>,
    longer: Seq<Reply>,
    at: int,
)
    requires
        0 <= at <= log.len(),
        extends(longer, log),
    ensures
        resumes(
            switch_mode_flow(root, branch, base, no_session, in_tmux, log, at),
            switch_mode_flow(root, branch, base, no_session, in_tmux, longer, at),
            log,
            longer,
            at,
        ),
{
    resume_list(root, log, longer, at);
    if let Flow::Done(Ok(worktrees), next) = list_flow(root, longer, at) {
        match worktree_of(worktrees, branch) {
            Some(worktree) => {
                let near = nearer(log, longer, next);
                let name = repo_name_of(root);
                resume_go(name, branch, worktree.path, no_session, in_tmux, near, longer, next);
            },
            None => {
                if next + 2 <= longer.len() {
                    let near = nearer(log, longer, next + 2);
                    resume_create_mode(
                        root,
                        branch,
                        base,
                        no_session,
                        in_tmux,
                        near,
                        longer,
                        next + 2,
                    );
                }
            },
        }
    }
}

pub(crate) proof fn resume_chosen_branch(
    root: Seq<char>,
    choice: Reply,
    worktrees: Seq<WorktreeModel>,
    no_session: bool,
    in_tmux: bool,
    log: Seq<Reply>,
    longer: Seq<Reply>,
    at: int,
)
    requires
        0 <= at <= log.len(),
        extends(longer, log),
    ensures
        resumes(
            chosen_branch_flow(root, choice, worktrees, no_session, in_tmux, log, at),
            chosen_branch_flow(root, choice, worktrees, no_session, in_tmux, longer, at),
            log,
            longer,
            at,
        ),
{
    if let Reply::Chosen(branch) = choice {
        if let Some(worktree) = worktree_of(worktrees, branch@) {
            let name = repo_name_of(root);
            resume_go(name, branch@, worktree.path, no_session, in_tmux, log, longer, at);
        }
    }
}

pub(crate) proof fn resume_pick_mode(
    root: Seq<char>,
    no_session: bool,
    in_tmux: bool,
    log: Seq<Reply>,
    longer: Seq<Reply>,
    at: int,
)
    requires
        0 <= at <= log.len(),
        extends(longer, log),
    ensures
        resumes(
            pick_mode_flow(root, no_session, in_tmux, log, at),
            pick_mode_flow(root, no_session, in_tmux, longer, at),
            log,
            longer,
            at,
        ),
{
    resume_list(root, log, longer, at);
    if let Flow::Done(Ok(worktrees), next) = list_flow(root, longer, at) {
        if next < longer.len() {
            let near = nearer(log, longer, next + 1);
            resume_chosen_branch(
                root,
                longer[next],
                worktrees,
                no_session,
                in_tmux,
                near,
                longer,
                next + 1,
            );
        }
    }
}

pub(crate) proof fn resume_repo_mode(
    cli: CliModel,
    env: EnvModel,
    root: Seq<char>,
    log: Seq<Reply>,
    longer: Seq<Reply>,
    at: int,
)
    requires
        0 <= at <= log.len(),
        extends(longer, log),
    ensures
        resumes(
            repo_mode_flow(cli, env, root, log, at),
            repo_mode_flow(cli, env, root, longer, at),
            log,
            longer,
            at,
        ),
{
    let no_session = cli.no_session;
    let in_tmux = env.in_tmux;
    match cli.command {
        Some(CommandsModel::Rename { new_branch, from }) => {
            resume_rename_mode(root, new_branch, from, no_session, log, longer, at);
        },
        Some(CommandsModel::Destroy { branch }) => {
            resume_destroy_mode(root, branch, no_session, env, log, longer, at);
        },
        Some(CommandsModel::Sessions) => {
            resume_sessions(env.home, log, longer, at);
        },
        None => {
            if let Some(branch) = cli.branch {
                resume_create_mode(root, branch, cli.base, no_session, in_tmux, log, longer, at);
                resume_remove_mode(root, branch, no_session, in_tmux, log, longer, at);
                resume_switch_mode(root, branch, cli.base, no_session, in_tmux, log, longer, at);
            } else {
                resume_pick_mode(root, no_session, in_tmux, log, longer, at);
            }
        },
    }
}

/// The program takes up where it stopped. If it is done, it is done in the same
/// way on every longer log; if it waits for the reply to an action, no longer log
/// makes it end before that reply is read.
pub proof fn law_run_resumes(cli: CliModel, env: EnvModel, log: Seq<Reply>, longer: Seq<Reply>)
    requires
        extends(longer, log),
    ensures
        resumes(run_flow(cli, env, log), run_flow(cli, env, longer), log, longer, 0),
{
    let no_session = cli.no_session;
    let in_tmux = env.in_tmux;
    resume_global(env.home, no_session, in_tmux, log, longer, 0);
    resume_sessions(env.home, log, longer, 0);
    resume_main_repo(log, longer, 0);
    if let Flow::Done(told, next) = main_repo_flow(longer, 0) {
        let near = nearer(log, longer, next);
        match told {
            Ok(root) => {
                resume_repo_mode(cli, env, root, near, longer, next);
            },
            Err(message) => {
                resume_global(env.home, no_session, in_tmux, near, longer, next);
            },
        }
    }
}

/// Every reply that the program has read when it is done was the reply to an
/// action that it had asked for.
pub proof fn law_run_asks_first(cli: CliModel, env: EnvModel, log: Seq<Reply>, at: int)
    requires
        run_flow(cli, env, log) is Done,
        0 <= at < run_flow(cli, env, log)->1,
    ensures
        run_flow(cli, env, log)->1 <= log.len(),
        run_flow(cli, env, log.take(at)) is Ask,
{
    law_run_resumes(cli, env, log, log);
    law_run_resumes(cli, env, log.take(at), log);
}

} // verus!
