//! Renaming of a branch together with its worktree and its session.

use vstd::prelude::*;

use crate::flow::{
    awaits, git, git_of, git_status, git_status_of, list4, tmux, tmux_of, Action, ActionModel,
    Capture, Flow, Model, Progress, Reply,
};
use crate::names::{session_name_of, tmux_session_name, worktree_path, worktree_path_of};
use crate::text::cat;
use crate::tmux::{has_session, session_exists_flow, tmux_session_exists};

verus! {

broadcast use vstd::string::group_string_axioms;

/// The command that renames a branch.
pub open spec fn rename_branch(
    main_repo: Seq<char>,
    old_branch: Seq<char>,
    new_branch: Seq<char>,
) -> ActionModel {
    git_of(seq!["branch"@, "-m"@, old_branch, new_branch], Some(main_repo))
}

/// The command that takes the renaming of a branch back.
pub open spec fn roll_back(
    main_repo: Seq<char>,
    old_branch: Seq<char>,
    new_branch: Seq<char>,
) -> ActionModel {
    git_status_of(seq!["branch"@, "-m"@, new_branch, old_branch], main_repo)
}

/// The command that moves the worktree of one branch to where that of another
/// one belongs.
pub open spec fn move_worktree(
    main_repo: Seq<char>,
    old_branch: Seq<char>,
    new_branch: Seq<char>,
) -> ActionModel {
    git_of(
        seq![
            "worktree"@,
            "move"@,
            worktree_path_of(main_repo, old_branch),
            worktree_path_of(main_repo, new_branch),
        ],
        Some(main_repo),
    )
}

/// The command that renames a session.
pub open spec fn rename_session(old_name: Seq<char>, new_name: Seq<char>) -> ActionModel {
    tmux_of(seq!["rename-session"@, "-t"@, old_name, new_name], Capture::Status)
}

/// Renames a session that exists.
pub open spec fn rename_session_flow(
    old_name: Seq<char>,
    new_name: Seq<char>,
    log: Seq<Reply>,
    at: int,
) -> Flow<()> {
    match session_exists_flow(old_name, log, at) {
        Flow::Ask(action) => Flow::Ask(action),
        Flow::Done(exists, next) => if !exists {
            Flow::Done((), next)
        } else if next >= log.len() {
            Flow::Ask(rename_session(old_name, new_name))
        } else {
            Flow::Done((), next + 1)
        },
    }
}

/// Renames a branch, moves its worktree and renames its session. If the worktree
/// cannot be moved, the branch gets its old name back.
pub open spec fn rename_flow(
    main_repo: Seq<char>,
    repo_name: Seq<char>,
    old_branch: Seq<char>,
    new_branch: Seq<char>,
    no_session: bool,
    log: Seq<Reply>,
    at: int,
) -> Flow<Result<(), Seq<char>>> {
    let old_path = worktree_path_of(main_repo, old_branch);
    let new_path = worktree_path_of(main_repo, new_branch);
    if at >= log.len() {
        Flow::Ask(ActionModel::Exists(old_path))
    } else if !log[at].is_yes() {
        Flow::Done(
            Err("No worktree directory found for branch '"@ + old_branch + "'"@),
            at + 1,
        )
    } else if at + 1 >= log.len() {
        Flow::Ask(ActionModel::Exists(new_path))
    } else if log[at + 1].is_yes() {
        Flow::Done(Err("Directory already exists: "@ + new_path), at + 2)
    } else if at + 2 >= log.len() {
        Flow::Ask(rename_branch(main_repo, old_branch, new_branch))
    } else {
        match log[at + 2].trouble_of("Failed to run git: "@, "Failed to rename branch:\n"@) {
            Some(message) => Flow::Done(Err(message), at + 3),
            None => if at + 3 >= log.len() {
                Flow::Ask(move_worktree(main_repo, old_branch, new_branch))
            } else if log[at + 3].failure_of() is Some {
                Flow::Done(Err("Failed to run git: "@ + log[at + 3].failure_of()->0), at + 4)
            } else if !log[at + 3].is_yes() {
                if at + 4 >= log.len() {
                    Flow::Ask(roll_back(main_repo, old_branch, new_branch))
                } else {
                    Flow::Done(
                        Err(
                            log[at + 3].trouble_of(
                                "Failed to run git: "@,
                                "Failed to move worktree (branch rename rolled back):\n"@,
                            )->0,
                        ),
                        at + 5,
                    )
                }
            } else if no_session {
                Flow::Done(Ok(()), at + 4)
            } else {
                match rename_session_flow(
                    session_name_of(repo_name, old_branch),
                    session_name_of(repo_name, new_branch),
                    log,
                    at + 4,
                ) {
                    Flow::Ask(action) => Flow::Ask(action),
                    Flow::Done(_, end) => Flow::Done(Ok(()), end),
                }
            },
        }
    }
}

pub fn rename_worktree(
    main_repo: &str,
    repo_name: &str,
    old_branch: &str,
    new_branch: &str,
    no_session: bool,
    log: &[Reply],
    at: usize,
) -> (res: Progress<Result<(), String>>)
    ensures
        res.model() == rename_flow(
            main_repo@,
            repo_name@,
            old_branch@,
            new_branch@,
            no_session,
            log@,
            at as int,
        ),
{
    let old_path = worktree_path(main_repo, old_branch);
    let new_path = worktree_path(main_repo, new_branch);
    if at >= log.len() {
        return Progress::Ask(Action::Exists(old_path));
    }
    if !log[at].yes() {
        let mut line = cat("No worktree directory found for branch '", old_branch);
        line.append("'");
        return Progress::Done(Err(line), at + 1);
    }
    let at: usize = at + 1;
    if at >= log.len() {
        return Progress::Ask(Action::Exists(new_path));
    }
    if log[at].yes() {
        return Progress::Done(Err(cat("Directory already exists: ", new_path.as_str())), at + 1);
    }
    // First the branch, ...
    let at: usize = at + 1;
    if at >= log.len() {
        return Progress::Ask(git(list4("branch", "-m", old_branch, new_branch), Some(main_repo)));
    }
    match log[at].trouble("Failed to run git: ", "Failed to rename branch:\n") {
        Some(message) => return Progress::Done(Err(message), at + 1),
        None => {},
    }
    // ... then the worktree, which git itself keeps track of, ...
    let at: usize = at + 1;
    if at >= log.len() {
        let args = list4("worktree", "move", old_path.as_str(), new_path.as_str());
        return Progress::Ask(git(args, Some(main_repo)));
    }
    match log[at].failure() {
        Some(message) => {
            return Progress::Done(Err(cat("Failed to run git: ", message.as_str())), at + 1);
        },
        None => {},
    }
    match log[at].trouble(
        "Failed to run git: ",
        "Failed to move worktree (branch rename rolled back):\n",
    ) {
        Some(message) => {
            let at: usize = at + 1;
            if at >= log.len() {
                let args = list4("branch", "-m", new_branch, old_branch);
                return Progress::Ask(git_status(args, main_repo));
            }
            return Progress::Done(Err(message), at + 1);
        },
        None => {},
    }
    // ... and last the session.
    let at: usize = at + 1;
    if no_session {
        return Progress::Done(Ok(()), at);
    }
    let old_session = tmux_session_name(repo_name, old_branch);
    let new_session = tmux_session_name(repo_name, new_branch);
    let (exists, at) = match tmux_session_exists(old_session.as_str(), log, at) {
        Progress::Ask(action) => return Progress::Ask(action),
        Progress::Done(exists, at) => (exists, at),
    };
    if !exists {
        return Progress::Done(Ok(()), at);
    }
    if at >= log.len() {
        let args = list4("rename-session", "-t", old_session.as_str(), new_session.as_str());
        return Progress::Ask(tmux(args, Capture::Status));
    }
    Progress::Done(Ok(()), at + 1)
}

/// A branch that is to be renamed, and how.
pub struct Renaming {
    pub main_repo: Seq<char>,
    pub repo_name: Seq<char>,
    pub old_branch: Seq<char>,
    pub new_branch: Seq<char>,
    pub no_session: bool,
}

impl Renaming {
    pub open spec fn flow(self, log: Seq<Reply>, at: int) -> Flow<Result<(), Seq<char>>> {
        rename_flow(
            self.main_repo,
            self.repo_name,
            self.old_branch,
            self.new_branch,
            self.no_session,
            log,
            at,
        )
    }

    /// The renaming of the branch.
    pub open spec fn renaming(self) -> ActionModel {
        rename_branch(self.main_repo, self.old_branch, self.new_branch)
    }

    /// The renaming that takes it back.
    pub open spec fn undoing(self) -> ActionModel {
        roll_back(self.main_repo, self.old_branch, self.new_branch)
    }

    /// The move of the worktree.
    pub open spec fn moving(self) -> ActionModel {
        move_worktree(self.main_repo, self.old_branch, self.new_branch)
    }
}

/// Nothing is renamed unless the worktree is there and the new place is free.
pub proof fn law_rename_checks_first(r: Renaming, log: Seq<Reply>, at: int)
    requires
        0 <= at <= log.len(),
        r.flow(log, at) matches Flow::Ask(action) && action is Run,
    ensures
        at + 2 <= log.len(),
        log[at].is_yes(),
        !log[at + 1].is_yes(),
{
}

/// A renaming that ends well has renamed the branch and moved the worktree. Unless
/// sessions were to be left alone, it has also renamed the session, if there was
/// one.
pub proof fn law_rename_complete(r: Renaming, log: Seq<Reply>, at: int)
    requires
        0 <= at <= log.len(),
        r.flow(log, at) matches Flow::Done(Ok(_), _),
    ensures
        at + 4 <= log.len(),
        awaits(r.flow(log.take(at + 2), at), r.renaming()) && log[at + 2].is_yes(),
        awaits(r.flow(log.take(at + 3), at), r.moving()) && log[at + 3].is_yes(),
        r.no_session || (at + 4 < log.len() && awaits(
            r.flow(log.take(at + 4), at),
            has_session(session_name_of(r.repo_name, r.old_branch)),
        ) && (log[at + 4].is_yes() ==> at + 5 < log.len() && awaits(
            r.flow(log.take(at + 5), at),
            rename_session(
                session_name_of(r.repo_name, r.old_branch),
                session_name_of(r.repo_name, r.new_branch),
            ),
        ))),
{
}

/// If git refuses to move the worktree, the next thing is that the branch gets
/// its old name back, by the command that would rename it that way round. Then
/// the renaming ends in an error.
pub proof fn law_rename_rolls_back(
    r: Renaming,
    log: Seq<Reply>,
    at: int,
    refusal: Reply,
    reply: Reply,
)
    requires
        0 <= at <= log.len(),
        awaits(r.flow(log, at), r.moving()),
        refusal.failure_of() is None,
        !refusal.is_yes(),
    ensures
        awaits(r.flow(log.push(refusal), at), r.undoing()),
        r.undoing()->Run_0.args == rename_branch(
            r.main_repo,
            r.new_branch,
            r.old_branch,
        )->Run_0.args,
        r.flow(log.push(refusal).push(reply), at) matches Flow::Done(Err(_), end) && end
            == log.len() + 2,
{
    let moving = seq![
        "worktree"@,
        "move"@,
        worktree_path_of(r.main_repo, r.old_branch),
        worktree_path_of(r.main_repo, r.new_branch),
    ];
    let renaming = seq!["branch"@, "-m"@, r.old_branch, r.new_branch];
    reveal_strlit("worktree");
    reveal_strlit("branch");
    assert("worktree"@.len() != "branch"@.len());
    assert(moving[0] != renaming[0]);
    assert(log.len() == at + 3);
}

/// How a branch is renamed, step by step.
pub proof fn law_rename_steps(r: Renaming, log: Seq<Reply>, at: int)
    requires
        0 <= at <= log.len(),
    ensures
        ({
            let flow = r.flow(log, at);
            let n = log.len();
            let old_path = worktree_path_of(r.main_repo, r.old_branch);
            let new_path = worktree_path_of(r.main_repo, r.new_branch);
            let old_session = session_name_of(r.repo_name, r.old_branch);
            let new_session = session_name_of(r.repo_name, r.new_branch);
            let free = log[at].is_yes() && !log[at + 1].is_yes();
            let renamed = free && log[at + 2].is_yes();
            let moved = renamed && log[at + 3].is_yes();
            let dir = Some(r.main_repo);
            &&& n == at ==> awaits(flow, ActionModel::Exists(old_path))
            &&& n > at && !log[at].is_yes() ==> flow == Flow::Done(
                Err::<(), _>("No worktree directory found for branch '"@ + r.old_branch + "'"@),
                at + 1,
            )
            &&& n == at + 1 && log[at].is_yes() ==> awaits(flow, ActionModel::Exists(new_path))
            &&& n > at + 1 && log[at].is_yes() && log[at + 1].is_yes() ==> flow == Flow::Done(
                Err::<(), _>("Directory already exists: "@ + new_path),
                at + 2,
            )
            &&& n == at + 2 && free ==> awaits(
                flow,
                git_of(seq!["branch"@, "-m"@, r.old_branch, r.new_branch], dir),
            )
            &&& n > at + 2 && free && !renamed ==> flow == Flow::Done(
                Err::<(), _>(
                    log[at + 2].trouble_of("Failed to run git: "@, "Failed to rename branch:\n"@)->0,
                ),
                at + 3,
            )
            &&& n == at + 3 && renamed ==> awaits(
                flow,
                git_of(seq!["worktree"@, "move"@, old_path, new_path], dir),
            )
            &&& n > at + 3 && renamed && log[at + 3].failure_of() is Some ==> flow == Flow::Done(
                Err::<(), _>("Failed to run git: "@ + log[at + 3].failure_of()->0),
                at + 4,
            )
            &&& n == at + 4 && renamed && !moved && log[at + 3].failure_of() is None ==> awaits(
                flow,
                git_status_of(
                    seq!["branch"@, "-m"@, r.new_branch, r.old_branch],
                    r.main_repo,
                ),
            )
            &&& n > at + 4 && renamed && !moved && log[at + 3].failure_of() is None ==> flow
                == Flow::Done(
                Err::<(), _>(
                    log[at + 3].trouble_of(
                        "Failed to run git: "@,
                        "Failed to move worktree (branch rename rolled back):\n"@,
                    )->0,
                ),
                at + 5,
            )
            &&& n >= at + 4 && moved && r.no_session ==> flow == Flow::Done(
                Ok::<(), Seq<char>>(()),
                at + 4,
            )
            &&& n == at + 4 && moved && !r.no_session ==> awaits(
                flow,
                tmux_of(seq!["has-session"@, "-t"@, old_session], Capture::QuietStatus),
            )
            &&& n > at + 4 && moved && !r.no_session && !log[at + 4].is_yes() ==> flow
                == Flow::Done(Ok::<(), Seq<char>>(()), at + 5)
            &&& n == at + 5 && moved && !r.no_session && log[at + 4].is_yes() ==> awaits(
                flow,
                tmux_of(
                    seq!["rename-session"@, "-t"@, old_session, new_session],
                    Capture::Status,
                ),
            )
            &&& n > at + 5 && moved && !r.no_session && log[at + 4].is_yes() ==> flow
                == Flow::Done(Ok::<(), Seq<char>>(()), at + 6)
        }),
{
}

} // verus!
