//! Removal of worktrees.

use vstd::prelude::*;

use crate::flow::{
    awaits, git, git_of, list3, list4, Action, ActionModel, Flow, Model, Progress, Reply,
};
use crate::repo::{changes_flow, has_uncommitted_changes, Worktree};
use crate::text::cat;

verus! {

broadcast use vstd::string::group_string_axioms;

/// The command that removes a worktree. Only with `force` does git remove one
/// that has uncommitted changes.
pub open spec fn remove_command(main_repo: Seq<char>, path: Seq<char>, force: bool) -> ActionModel {
    if force {
        git_of(seq!["worktree"@, "remove"@, "--force"@, path], Some(main_repo))
    } else {
        git_of(seq!["worktree"@, "remove"@, path], Some(main_repo))
    }
}

fn removal(main_repo: &str, path: &str, force: bool) -> (res: Action)
    ensures
        res.model() == remove_command(main_repo@, path@, force),
{
    let args = if force {
        list4("worktree", "remove", "--force", path)
    } else {
        list3("worktree", "remove", path)
    };
    git(args, Some(main_repo))
}

/// Removes the worktree at a path.
pub open spec fn remove_flow(
    main_repo: Seq<char>,
    path: Seq<char>,
    force: bool,
    log: Seq<Reply>,
    at: int,
) -> Flow<Result<(), Seq<char>>> {
    if at >= log.len() {
        Flow::Ask(remove_command(main_repo, path, force))
    } else {
        match log[at].trouble_of("Failed to run git: "@, "Failed to remove worktree:\n"@) {
            Some(message) => Flow::Done(Err(message), at + 1),
            None => Flow::Done(Ok(()), at + 1),
        }
    }
}

pub(crate) fn remove_path(main_repo: &str, path: &str, force: bool, log: &[Reply], at: usize) -> (res:
    Progress<Result<(), String>>)
    ensures
        res.model() == remove_flow(main_repo@, path@, force, log@, at as int),
{
    if at >= log.len() {
        return Progress::Ask(removal(main_repo, path, force));
    }
    match log[at].trouble("Failed to run git: ", "Failed to remove worktree:\n") {
        Some(message) => Progress::Done(Err(message), at + 1),
        None => Progress::Done(Ok(()), at + 1),
    }
}

pub fn remove_worktree(
    main_repo: &str,
    worktree: &Worktree,
    force: bool,
    log: &[Reply],
    at: usize,
) -> (res: Progress<Result<(), String>>)
    ensures
        res.model() == remove_flow(main_repo@, worktree.path@, force, log@, at as int),
{
    remove_path(main_repo, worktree.path.as_str(), force, log, at)
}

/// The question that is asked before uncommitted changes are lost.
pub open spec fn loss_question(branch: Seq<char>, verb: Seq<char>) -> ActionModel {
    ActionModel::Confirm {
        question: "Worktree '"@ + branch + "' has uncommitted changes. "@ + verb + " anyway?"@,
        default: false,
    }
}

/// Whether a worktree may go: at once if it has no uncommitted changes, else only
/// if the user agrees. The result tells whether git is to be forced, and is none
/// if the user does not agree.
pub open spec fn consent_flow(
    branch: Seq<char>,
    path: Seq<char>,
    verb: Seq<char>,
    log: Seq<Reply>,
    at: int,
) -> Flow<Option<bool>> {
    match changes_flow(path, log, at) {
        Flow::Ask(action) => Flow::Ask(action),
        Flow::Done(changed, next) => if !changed {
            Flow::Done(Some(false), next)
        } else if next >= log.len() {
            Flow::Ask(loss_question(branch, verb))
        } else if log[next].is_yes() {
            Flow::Done(Some(true), next + 1)
        } else {
            Flow::Done(None, next + 1)
        },
    }
}

pub(crate) fn consent(branch: &str, path: &str, verb: &str, log: &[Reply], at: usize) -> (res:
    Progress<Option<bool>>)
    ensures
        res.model() == consent_flow(branch@, path@, verb@, log@, at as int),
{
    let (changed, at) = match has_uncommitted_changes(path, log, at) {
        Progress::Ask(action) => return Progress::Ask(action),
        Progress::Done(changed, at) => (changed, at),
    };
    if !changed {
        return Progress::Done(Some(false), at);
    }
    if at >= log.len() {
        let mut question = cat("Worktree '", branch);
        question.append("' has uncommitted changes. ");
        question.append(verb);
        question.append(" anyway?");
        return Progress::Ask(Action::Confirm { question, default: false });
    }
    if log[at].yes() {
        Progress::Done(Some(true), at + 1)
    } else {
        Progress::Done(None, at + 1)
    }
}

/// A worktree is removed by one command of its repository, which is told to lose
/// uncommitted changes only with `force`.
pub proof fn law_remove_steps(
    main_repo: Seq<char>,
    path: Seq<char>,
    force: bool,
    log: Seq<Reply>,
    at: int,
)
    requires
        0 <= at <= log.len(),
    ensures
        ({
            let flow = remove_flow(main_repo, path, force, log, at);
            &&& log.len() == at && force ==> awaits(
                flow,
                git_of(seq!["worktree"@, "remove"@, "--force"@, path], Some(main_repo)),
            )
            &&& log.len() == at && !force ==> awaits(
                flow,
                git_of(seq!["worktree"@, "remove"@, path], Some(main_repo)),
            )
            &&& log.len() > at && log[at].is_yes() ==> flow == Flow::Done(
                Ok::<(), Seq<char>>(()),
                at + 1,
            )
            &&& log.len() > at && !log[at].is_yes() ==> flow == Flow::Done(
                Err::<(), _>(
                    log[at].trouble_of("Failed to run git: "@, "Failed to remove worktree:\n"@)->0,
                ),
                at + 1,
            )
        }),
{
}

/// Where a worktree has uncommitted changes, the user is asked whether they may be
/// lost, and only a yes lets it go. Where it has none, nobody is asked.
pub proof fn law_consent_steps(
    branch: Seq<char>,
    path: Seq<char>,
    verb: Seq<char>,
    log: Seq<Reply>,
    at: int,
)
    requires
        0 <= at <= log.len(),
    ensures
        ({
            let flow = consent_flow(branch, path, verb, log, at);
            let n = log.len();
            let changed = log[at].stdout_of().len() > 0;
            &&& n == at ==> awaits(flow, git_of(seq!["status"@, "--porcelain"@], Some(path)))
            &&& n > at && !changed ==> flow == Flow::Done(Some(false), at + 1)
            &&& n == at + 1 && changed ==> awaits(
                flow,
                ActionModel::Confirm {
                    question: "Worktree '"@ + branch + "' has uncommitted changes. "@ + verb
                        + " anyway?"@,
                    default: false,
                },
            )
            &&& n > at + 1 && changed ==> flow == Flow::Done(
                if log[at + 1].is_yes() {
                    Some(true)
                } else {
                    None
                },
                at + 2,
            )
        }),
{
}

} // verus!
