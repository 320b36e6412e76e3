//! Destruction of a branch with everything that belongs to it, and the backup
//! that is made before.

use vstd::prelude::*;

use crate::flow::{
    awaits, git, git_of, git_status_of, list3, list4, list5, list7, report, report_flow, run_of,
    Action, ActionModel, Capture, Command, Flow, Model, Program, Progress, Reply,
};
use crate::names::{
    archive_path, archive_path_of, session_name_of, tmux_session_name, worktree_path,
    worktree_path_of,
};
use crate::remove::{consent, consent_flow, remove_flow, remove_path};
use crate::repo::{ask_ref, has_ref};
use crate::text::cat;
use crate::tmux::{kill_flow, kill_tmux_session};

verus! {

broadcast use vstd::string::group_string_axioms;

/// The command that makes a repository of its own out of the history of one
/// branch.
pub open spec fn clone_branch(
    main_repo: Seq<char>,
    branch: Seq<char>,
    target: Seq<char>,
) -> ActionModel {
    git_of(
        seq![
            "clone"@,
            "--no-hardlinks"@,
            "--single-branch"@,
            "--branch"@,
            branch,
            main_repo,
            target,
        ],
        None,
    )
}

/// The command that makes the files of one directory those of another one, but
/// for what git keeps there.
pub open spec fn mirror_files(source: Seq<char>, target: Seq<char>) -> ActionModel {
    run_of(
        Program::Rsync,
        seq!["-a"@, "--delete"@, "--exclude=/.git"@, source + "/"@, target + "/"@],
        None,
        Capture::Output,
    )
}

/// Copies a worktree as it is.
pub open spec fn copy_flow(
    source: Seq<char>,
    target: Seq<char>,
    log: Seq<Reply>,
    at: int,
) -> Flow<Result<(), Seq<char>>> {
    if at >= log.len() {
        Flow::Ask(ActionModel::CopyTree { source, target })
    } else {
        match log[at].failure_of() {
            Some(message) => Flow::Done(Err("Failed to archive worktree: "@ + message), at + 1),
            None => Flow::Done(Ok(()), at + 1),
        }
    }
}

/// Backs a worktree up: the history of its branch is cloned, and its files are
/// mirrored on top. If either cannot be done, the worktree is copied as it is.
pub open spec fn archive_flow(
    main_repo: Seq<char>,
    branch: Seq<char>,
    archive_dir: Seq<char>,
    target: Seq<char>,
    log: Seq<Reply>,
    at: int,
) -> Flow<Result<(), Seq<char>>> {
    let source = worktree_path_of(main_repo, branch);
    if at >= log.len() {
        Flow::Ask(ActionModel::Exists(target))
    } else if log[at].is_yes() {
        Flow::Done(Err("Directory already exists: "@ + target), at + 1)
    } else if at + 1 >= log.len() {
        Flow::Ask(ActionModel::CreateDirs(archive_dir))
    } else if log[at + 1].failure_of() is Some {
        Flow::Done(
            Err("Failed to create archive directory: "@ + log[at + 1].failure_of()->0),
            at + 2,
        )
    } else if at + 2 >= log.len() {
        Flow::Ask(clone_branch(main_repo, branch, target))
    } else if !log[at + 2].is_yes() {
        copy_flow(source, target, log, at + 3)
    } else if at + 3 >= log.len() {
        Flow::Ask(mirror_files(source, target))
    } else if !log[at + 3].is_yes() {
        copy_flow(source, target, log, at + 4)
    } else {
        Flow::Done(Ok(()), at + 4)
    }
}

fn copy_worktree(source: &str, target: &str, log: &[Reply], at: usize) -> (res: Progress<
    Result<(), String>,
>)
    ensures
        res.model() == copy_flow(source@, target@, log@, at as int),
{
    if at >= log.len() {
        return Progress::Ask(
            Action::CopyTree { source: source.to_owned(), target: target.to_owned() },
        );
    }
    match log[at].failure() {
        Some(message) => Progress::Done(
            Err(cat("Failed to archive worktree: ", message.as_str())),
            at + 1,
        ),
        None => Progress::Done(Ok(()), at + 1),
    }
}

pub fn archive_worktree(
    main_repo: &str,
    branch: &str,
    archive_dir: &str,
    target: &str,
    log: &[Reply],
    at: usize,
) -> (res: Progress<Result<(), String>>)
    ensures
        res.model() == archive_flow(main_repo@, branch@, archive_dir@, target@, log@, at as int),
{
    let source = worktree_path(main_repo, branch);
    if at >= log.len() {
        return Progress::Ask(Action::Exists(target.to_owned()));
    }
    if log[at].yes() {
        return Progress::Done(Err(cat("Directory already exists: ", target)), at + 1);
    }
    let at: usize = at + 1;
    if at >= log.len() {
        return Progress::Ask(Action::CreateDirs(archive_dir.to_owned()));
    }
    match log[at].failure() {
        Some(message) => {
            let line = cat("Failed to create archive directory: ", message.as_str());
            return Progress::Done(Err(line), at + 1);
        },
        None => {},
    }
    let at: usize = at + 1;
    if at >= log.len() {
        let args = list7(
            "clone",
            "--no-hardlinks",
            "--single-branch",
            "--branch",
            branch,
            main_repo,
            target,
        );
        return Progress::Ask(git(args, None));
    }
    if !log[at].yes() {
        return copy_worktree(source.as_str(), target, log, at + 1);
    }
    let at: usize = at + 1;
    if at >= log.len() {
        let from = cat(source.as_str(), "/");
        let to = cat(target, "/");
        let args = list5("-a", "--delete", "--exclude=/.git", from.as_str(), to.as_str());
        return Progress::Ask(
            Action::Run(
                Command { program: Program::Rsync, args, dir: None, capture: Capture::Output },
            ),
        );
    }
    if !log[at].yes() {
        return copy_worktree(source.as_str(), target, log, at + 1);
    }
    Progress::Done(Ok(()), at + 1)
}

/// Removes the worktree of a branch, if it is there, once it is backed up where
/// that is wanted. A backup that fails leaves the worktree as it is.
pub open spec fn clear_flow(
    main_repo: Seq<char>,
    repo_name: Seq<char>,
    branch: Seq<char>,
    force: bool,
    archive_dir: Option<Seq<char>>,
    timestamp: Seq<char>,
    log: Seq<Reply>,
    at: int,
) -> Flow<Result<(), Seq<char>>> {
    let path = worktree_path_of(main_repo, branch);
    if at >= log.len() {
        Flow::Ask(ActionModel::Exists(path))
    } else if !log[at].is_yes() {
        Flow::Done(Ok(()), at + 1)
    } else {
        match archive_dir {
            None => remove_flow(main_repo, path, force, log, at + 1),
            Some(dir) => match archive_flow(
                main_repo,
                branch,
                dir,
                archive_path_of(dir, repo_name, branch, timestamp),
                log,
                at + 1,
            ) {
                Flow::Ask(action) => Flow::Ask(action),
                Flow::Done(Err(message), next) => Flow::Done(Err(message), next),
                Flow::Done(Ok(_), next) => remove_flow(main_repo, path, force, log, next),
            },
        }
    }
}

fn clear_worktree(
    main_repo: &str,
    repo_name: &str,
    branch: &str,
    force: bool,
    archive_dir: Option<&str>,
    timestamp: &str,
    log: &[Reply],
    at: usize,
) -> (res: Progress<Result<(), String>>)
    ensures
        res.model() == clear_flow(
            main_repo@,
            repo_name@,
            branch@,
            force,
            archive_dir.deep_view(),
            timestamp@,
            log@,
            at as int,
        ),
{
    let path = worktree_path(main_repo, branch);
    if at >= log.len() {
        return Progress::Ask(Action::Exists(path));
    }
    if !log[at].yes() {
        return Progress::Done(Ok(()), at + 1);
    }
    let mut at: usize = at + 1;
    match archive_dir {
        Some(dir) => {
            let target = archive_path(dir, repo_name, branch, timestamp);
            match archive_worktree(main_repo, branch, dir, target.as_str(), log, at) {
                Progress::Ask(action) => return Progress::Ask(action),
                Progress::Done(Err(message), next) => return Progress::Done(Err(message), next),
                Progress::Done(Ok(_), next) => {
                    at = next;
                },
            }
        },
        None => {},
    }
    remove_path(main_repo, path.as_str(), force, log, at)
}

/// The command that deletes a branch of the repository.
pub open spec fn delete_branch(main_repo: Seq<char>, branch: Seq<char>) -> ActionModel {
    git_of(seq!["branch"@, "-D"@, branch], Some(main_repo))
}

/// The command that deletes a branch of the remote repository.
pub open spec fn delete_remote_branch(main_repo: Seq<char>, branch: Seq<char>) -> ActionModel {
    git_of(seq!["push"@, "origin"@, "--delete"@, branch], Some(main_repo))
}

/// Deletes a branch of the remote repository, if it is known to be there. A
/// refusal is reported and passed over.
pub open spec fn remote_flow(
    main_repo: Seq<char>,
    branch: Seq<char>,
    log: Seq<Reply>,
    at: int,
) -> Flow<Result<(), Seq<char>>> {
    if at >= log.len() {
        Flow::Ask(has_ref(main_repo, "refs/remotes/origin/"@ + branch))
    } else if !log[at].is_yes() {
        Flow::Done(Ok(()), at + 1)
    } else if at + 1 >= log.len() {
        Flow::Ask(delete_remote_branch(main_repo, branch))
    } else {
        passed_over_flow(log[at + 1], "Warning: could not delete remote branch: "@, log, at + 2)
    }
}

/// What is done about a command that may fail: if it could not be run, that is
/// an error; if it failed, that is reported and passed over.
pub open spec fn passed_over_flow(
    reply: Reply,
    warning: Seq<char>,
    log: Seq<Reply>,
    at: int,
) -> Flow<Result<(), Seq<char>>> {
    match reply.failure_of() {
        Some(message) => Flow::Done(Err("Failed to run git: "@ + message), at),
        None => match reply.trouble_of("Failed to run git: "@, warning) {
            None => Flow::Done(Ok(()), at),
            Some(line) => match report_flow(line, log, at) {
                Flow::Ask(action) => Flow::Ask(action),
                Flow::Done(_, end) => Flow::Done(Ok(()), end),
            },
        },
    }
}

fn pass_over(reply: &Reply, warning: &str, log: &[Reply], at: usize) -> (res: Progress<
    Result<(), String>,
>)
    ensures
        res.model() == passed_over_flow(*reply, warning@, log@, at as int),
{
    match reply.failure() {
        Some(message) => Progress::Done(Err(cat("Failed to run git: ", message.as_str())), at),
        None => match reply.trouble("Failed to run git: ", warning) {
            None => Progress::Done(Ok(()), at),
            Some(line) => match report(line, log, at) {
                Progress::Ask(action) => Progress::Ask(action),
                Progress::Done(_, end) => Progress::Done(Ok(()), end),
            },
        },
    }
}

fn delete_remote(main_repo: &str, branch: &str, log: &[Reply], at: usize) -> (res: Progress<
    Result<(), String>,
>)
    ensures
        res.model() == remote_flow(main_repo@, branch@, log@, at as int),
{
    if at >= log.len() {
        return Progress::Ask(ask_ref(main_repo, cat("refs/remotes/origin/", branch).as_str()));
    }
    if !log[at].yes() {
        return Progress::Done(Ok(()), at + 1);
    }
    let at: usize = at + 1;
    if at >= log.len() {
        return Progress::Ask(git(list4("push", "origin", "--delete", branch), Some(main_repo)));
    }
    pass_over(&log[at], "Warning: could not delete remote branch: ", log, at + 1)
}

/// Deletes a branch, first that of the repository and then that of the remote
/// one.
pub open spec fn branches_flow(
    main_repo: Seq<char>,
    branch: Seq<char>,
    log: Seq<Reply>,
    at: int,
) -> Flow<Result<(), Seq<char>>> {
    if at >= log.len() {
        Flow::Ask(delete_branch(main_repo, branch))
    } else {
        match passed_over_flow(
            log[at],
            "Warning: could not delete local branch: "@,
            log,
            at + 1,
        ) {
            Flow::Ask(action) => Flow::Ask(action),
            Flow::Done(Err(message), next) => Flow::Done(Err(message), next),
            Flow::Done(Ok(_), next) => remote_flow(main_repo, branch, log, next),
        }
    }
}

fn delete_branches(main_repo: &str, branch: &str, log: &[Reply], at: usize) -> (res: Progress<
    Result<(), String>,
>)
    ensures
        res.model() == branches_flow(main_repo@, branch@, log@, at as int),
{
    if at >= log.len() {
        return Progress::Ask(git(list3("branch", "-D", branch), Some(main_repo)));
    }
    match pass_over(&log[at], "Warning: could not delete local branch: ", log, at + 1) {
        Progress::Ask(action) => Progress::Ask(action),
        Progress::Done(Err(message), next) => Progress::Done(Err(message), next),
        Progress::Done(Ok(_), next) => delete_remote(main_repo, branch, log, next),
    }
}

/// Whether the worktree of a branch may go. One that is not there may.
pub open spec fn leave_flow(
    main_repo: Seq<char>,
    branch: Seq<char>,
    log: Seq<Reply>,
    at: int,
) -> Flow<Option<bool>> {
    let path = worktree_path_of(main_repo, branch);
    if at >= log.len() {
        Flow::Ask(ActionModel::Exists(path))
    } else if !log[at].is_yes() {
        Flow::Done(Some(false), at + 1)
    } else {
        consent_flow(branch, path, "Destroy"@, log, at + 1)
    }
}

fn leave(main_repo: &str, branch: &str, log: &[Reply], at: usize) -> (res: Progress<Option<bool>>)
    ensures
        res.model() == leave_flow(main_repo@, branch@, log@, at as int),
{
    let path = worktree_path(main_repo, branch);
    if at >= log.len() {
        return Progress::Ask(Action::Exists(path));
    }
    if !log[at].yes() {
        return Progress::Done(Some(false), at + 1);
    }
    consent(branch, path.as_str(), "Destroy", log, at + 1)
}

/// Destroys a branch: its worktree goes, then the branch itself and its
/// counterpart at the remote repository, then its session.
pub open spec fn destroy_flow(
    main_repo: Seq<char>,
    repo_name: Seq<char>,
    branch: Seq<char>,
    archive_dir: Option<Seq<char>>,
    timestamp: Seq<char>,
    no_session: bool,
    in_tmux: bool,
    log: Seq<Reply>,
    at: int,
) -> Flow<Result<(), Seq<char>>> {
    match leave_flow(main_repo, branch, log, at) {
        Flow::Ask(action) => Flow::Ask(action),
        Flow::Done(None, next) => Flow::Done(Err("Aborted."@), next),
        Flow::Done(Some(force), next) => match clear_flow(
            main_repo,
            repo_name,
            branch,
            force,
            archive_dir,
            timestamp,
            log,
            next,
        ) {
            Flow::Ask(action) => Flow::Ask(action),
            Flow::Done(Err(message), cleared) => Flow::Done(Err(message), cleared),
            Flow::Done(Ok(_), cleared) => match branches_flow(main_repo, branch, log, cleared) {
                Flow::Ask(action) => Flow::Ask(action),
                Flow::Done(Err(message), deleted) => Flow::Done(Err(message), deleted),
                Flow::Done(Ok(_), deleted) => if no_session {
                    Flow::Done(Ok(()), deleted)
                } else {
                    match kill_flow(session_name_of(repo_name, branch), in_tmux, log, deleted) {
                        Flow::Ask(action) => Flow::Ask(action),
                        Flow::Done(_, end) => Flow::Done(Ok(()), end),
                    }
                },
            },
        },
    }
}

pub fn destroy_worktree(
    main_repo: &str,
    repo_name: &str,
    branch: &str,
    archive_dir: Option<&str>,
    timestamp: &str,
    no_session: bool,
    in_tmux: bool,
    log: &[Reply],
    at: usize,
) -> (res: Progress<Result<(), String>>)
    ensures
        res.model() == destroy_flow(
            main_repo@,
            repo_name@,
            branch@,
            archive_dir.deep_view(),
            timestamp@,
            no_session,
            in_tmux,
            log@,
            at as int,
        ),
{
    let (force, at) = match leave(main_repo, branch, log, at) {
        Progress::Ask(action) => return Progress::Ask(action),
        Progress::Done(None, at) => return Progress::Done(Err("Aborted.".to_owned()), at),
        Progress::Done(Some(force), at) => (force, at),
    };
    let at: usize = match clear_worktree(
        main_repo,
        repo_name,
        branch,
        force,
        archive_dir,
        timestamp,
        log,
        at,
    ) {
        Progress::Ask(action) => return Progress::Ask(action),
        Progress::Done(Err(message), at) => return Progress::Done(Err(message), at),
        Progress::Done(Ok(_), at) => at,
    };
    let at: usize = match delete_branches(main_repo, branch, log, at) {
        Progress::Ask(action) => return Progress::Ask(action),
        Progress::Done(Err(message), at) => return Progress::Done(Err(message), at),
        Progress::Done(Ok(_), at) => at,
    };
    if no_session {
        return Progress::Done(Ok(()), at);
    }
    let session = tmux_session_name(repo_name, branch);
    match kill_tmux_session(session.as_str(), in_tmux, log, at) {
        Progress::Ask(action) => Progress::Ask(action),
        Progress::Done(_, at) => Progress::Done(Ok(()), at),
    }
}

/// How a worktree is backed up, step by step: its place must be free, the history of
/// its branch is cloned, and its files are mirrored; where either fails, all of it
/// is copied.
pub proof fn law_archive_steps(
    main_repo: Seq<char>,
    branch: Seq<char>,
    archive_dir: Seq<char>,
    target: Seq<char>,
    log: Seq<Reply>,
    at: int,
)
    requires
        0 <= at <= log.len(),
    ensures
        ({
            let flow = archive_flow(main_repo, branch, archive_dir, target, log, at);
            let n = log.len();
            let path = worktree_path_of(main_repo, branch);
            let free = !log[at].is_yes();
            let ready = free && log[at + 1].failure_of() is None;
            let cloned = log[at + 2].is_yes();
            let mirrored = cloned && log[at + 3].is_yes();
            // Where the reply to the copy stands.
            let last = if cloned {
                at + 4
            } else {
                at + 3
            };
            &&& n == at ==> awaits(flow, ActionModel::Exists(target))
            &&& n > at && !free ==> flow == Flow::Done(
                Err::<(), _>("Directory already exists: "@ + target),
                at + 1,
            )
            &&& n == at + 1 && free ==> awaits(flow, ActionModel::CreateDirs(archive_dir))
            &&& n > at + 1 && free && !ready ==> flow == Flow::Done(
                Err::<(), _>("Failed to create archive directory: "@ + log[at + 1].failure_of()->0),
                at + 2,
            )
            &&& n == at + 2 && ready ==> awaits(
                flow,
                git_of(
                    seq![
                        "clone"@,
                        "--no-hardlinks"@,
                        "--single-branch"@,
                        "--branch"@,
                        branch,
                        main_repo,
                        target,
                    ],
                    None,
                ),
            )
            &&& n == at + 3 && ready && cloned ==> awaits(
                flow,
                run_of(
                    Program::Rsync,
                    seq!["-a"@, "--delete"@, "--exclude=/.git"@, path + "/"@, target + "/"@],
                    None,
                    Capture::Output,
                ),
            )
            &&& n > at + 3 && ready && mirrored ==> flow == Flow::Done(
                Ok::<(), Seq<char>>(()),
                at + 4,
            )
            &&& n == last && ready && !mirrored ==> awaits(
                flow,
                ActionModel::CopyTree { source: path, target },
            )
            &&& n > last && ready && !mirrored && log[last].failure_of() is None ==> flow
                == Flow::Done(Ok::<(), Seq<char>>(()), last + 1)
            &&& n > last && ready && !mirrored && log[last].failure_of() is Some ==> flow
                == Flow::Done(
                Err::<(), _>("Failed to archive worktree: "@ + log[last].failure_of()->0),
                last + 1,
            )
        }),
{
}

/// Whether a worktree may go is asked only where it is there.
pub proof fn law_leave_steps(main_repo: Seq<char>, branch: Seq<char>, log: Seq<Reply>, at: int)
    requires
        0 <= at <= log.len(),
    ensures
        ({
            let flow = leave_flow(main_repo, branch, log, at);
            let path = worktree_path_of(main_repo, branch);
            &&& log.len() == at ==> awaits(flow, ActionModel::Exists(path))
            &&& log.len() > at && !log[at].is_yes() ==> flow == Flow::Done(Some(false), at + 1)
            &&& log.len() > at && log[at].is_yes() ==> flow == consent_flow(
                branch,
                path,
                "Destroy"@,
                log,
                at + 1,
            )
        }),
{
}

/// How a branch is deleted, step by step: here, and then at the remote repository
/// if it is known there. What git refuses is reported, and the rest is still done.
pub proof fn law_deletion_steps(main_repo: Seq<char>, branch: Seq<char>, log: Seq<Reply>, at: int)
    requires
        0 <= at <= log.len(),
    ensures
        ({
            let flow = branches_flow(main_repo, branch, log, at);
            let n = log.len();
            let dir = Some(main_repo);
            let here = log[at];
            // Where the remote branch is asked for.
            let next = if here.is_yes() {
                at + 1
            } else {
                at + 2
            };
            let known = log[next].is_yes();
            let there = log[next + 1];
            &&& n == at ==> awaits(flow, git_of(seq!["branch"@, "-D"@, branch], dir))
            &&& n > at && here.failure_of() is Some ==> flow == Flow::Done(
                Err::<(), _>("Failed to run git: "@ + here.failure_of()->0),
                at + 1,
            )
            &&& n > at && here.failure_of() is None ==> {
                &&& n == at + 1 && !here.is_yes() ==> awaits(
                    flow,
                    ActionModel::Report(
                        here.trouble_of(
                            "Failed to run git: "@,
                            "Warning: could not delete local branch: "@,
                        )->0,
                    ),
                )
                &&& n == next ==> awaits(
                    flow,
                    git_status_of(
                        seq![
                            "show-ref"@,
                            "--verify"@,
                            "--quiet"@,
                            "refs/remotes/origin/"@ + branch,
                        ],
                        main_repo,
                    ),
                )
                &&& n > next && !known ==> flow == Flow::Done(Ok::<(), Seq<char>>(()), next + 1)
                &&& n == next + 1 && known ==> awaits(
                    flow,
                    git_of(seq!["push"@, "origin"@, "--delete"@, branch], dir),
                )
                &&& n > next + 1 && known && there.is_yes() ==> flow == Flow::Done(
                    Ok::<(), Seq<char>>(()),
                    next + 2,
                )
                &&& n > next + 1 && known && there.failure_of() is Some ==> flow == Flow::Done(
                    Err::<(), _>("Failed to run git: "@ + there.failure_of()->0),
                    next + 2,
                )
                &&& n == next + 2 && known && !there.is_yes() && there.failure_of() is None
                    ==> awaits(
                    flow,
                    ActionModel::Report(
                        there.trouble_of(
                            "Failed to run git: "@,
                            "Warning: could not delete remote branch: "@,
                        )->0,
                    ),
                )
                &&& n > next + 2 && known && !there.is_yes() && there.failure_of() is None ==> flow
                    == Flow::Done(Ok::<(), Seq<char>>(()), next + 3)
            }
        }),
{
}

/// How the worktree of a branch is cleared away, step by step. If it is there, it is
/// backed up where that is wanted, under the directory of the backups and the names
/// of the repository and the branch and the time; only then is it removed.
pub proof fn law_clear_steps(
    main_repo: Seq<char>,
    repo_name: Seq<char>,
    branch: Seq<char>,
    force: bool,
    archive_dir: Option<Seq<char>>,
    timestamp: Seq<char>,
    log: Seq<Reply>,
    at: int,
)
    requires
        0 <= at <= log.len(),
    ensures
        ({
            let flow = clear_flow(
                main_repo,
                repo_name,
                branch,
                force,
                archive_dir,
                timestamp,
                log,
                at,
            );
            let path = worktree_path_of(main_repo, branch);
            &&& log.len() == at ==> awaits(flow, ActionModel::Exists(path))
            &&& log.len() > at && !log[at].is_yes() ==> flow == Flow::Done(
                Ok::<(), Seq<char>>(()),
                at + 1,
            )
            &&& log.len() > at && log[at].is_yes() ==> match archive_dir {
                None => flow == remove_flow(main_repo, path, force, log, at + 1),
                Some(dir) => {
                    let target = archive_path_of(dir, repo_name, branch, timestamp);
                    match archive_flow(main_repo, branch, dir, target, log, at + 1) {
                        Flow::Ask(action) => awaits(flow, action),
                        Flow::Done(Err(message), next) => flow == Flow::Done(
                            Err::<(), _>(message),
                            next,
                        ),
                        Flow::Done(Ok(_), next) => flow == remove_flow(
                            main_repo,
                            path,
                            force,
                            log,
                            next,
                        ),
                    }
                },
            }
        }),
{
}

/// The course of a destruction: the user is asked where that is due, the worktree is
/// cleared away, the branch is deleted, and the session of that branch in that
/// repository is ended unless sessions are left alone. The first failure ends it.
pub proof fn law_destroy_course(
    main_repo: Seq<char>,
    repo_name: Seq<char>,
    branch: Seq<char>,
    archive_dir: Option<Seq<char>>,
    timestamp: Seq<char>,
    no_session: bool,
    in_tmux: bool,
    log: Seq<Reply>,
    at: int,
)
    ensures
        ({
            let flow = destroy_flow(
                main_repo,
                repo_name,
                branch,
                archive_dir,
                timestamp,
                no_session,
                in_tmux,
                log,
                at,
            );
            match leave_flow(main_repo, branch, log, at) {
                Flow::Ask(action) => awaits(flow, action),
                Flow::Done(None, next) => flow == Flow::Done(Err::<(), _>("Aborted."@), next),
                Flow::Done(Some(force), next) => match clear_flow(
                    main_repo,
                    repo_name,
                    branch,
                    force,
                    archive_dir,
                    timestamp,
                    log,
                    next,
                ) {
                    Flow::Ask(action) => awaits(flow, action),
                    Flow::Done(Err(message), end) => flow == Flow::Done(Err::<(), _>(message), end),
                    Flow::Done(Ok(_), cleared) => match branches_flow(
                        main_repo,
                        branch,
                        log,
                        cleared,
                    ) {
                        Flow::Ask(action) => awaits(flow, action),
                        Flow::Done(Err(message), end) => flow == Flow::Done(
                            Err::<(), _>(message),
                            end,
                        ),
                        Flow::Done(Ok(_), deleted) => {
                            let session = session_name_of(repo_name, branch);
                            if no_session {
                                flow == Flow::Done(Ok::<(), Seq<char>>(()), deleted)
                            } else {
                                match kill_flow(session, in_tmux, log, deleted) {
                                    Flow::Ask(action) => awaits(flow, action),
                                    Flow::Done(_, end) => flow == Flow::Done(
                                        Ok::<(), Seq<char>>(()),
                                        end,
                                    ),
                                }
                            }
                        },
                    },
                },
            }
        }),
{
}

} // verus!
