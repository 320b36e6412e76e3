//! The tmux sessions of worktrees.

use vstd::prelude::*;

use crate::flow::{
    awaits, list3, list6, tmux, tmux_of, Action, ActionModel, Capture, Flow, Model, Progress, Reply,
};
use crate::names::{session_name_of, tmux_session_name};
use crate::text::{cat, lines, lines_of, lossy_text, same_text, trim, trimmed};

verus! {

broadcast use vstd::string::group_string_axioms;

/// The question whether a session exists.
pub open spec fn has_session(name: Seq<char>) -> ActionModel {
    tmux_of(seq!["has-session"@, "-t"@, name], Capture::QuietStatus)
}

/// The command that makes a session the one that the client shows.
pub open spec fn switch_client(name: Seq<char>, capture: Capture) -> ActionModel {
    tmux_of(seq!["switch-client"@, "-t"@, name], capture)
}

/// The command that creates a detached session in a directory.
pub open spec fn new_session(name: Seq<char>, path: Seq<char>) -> ActionModel {
    tmux_of(seq!["new-session"@, "-d"@, "-s"@, name, "-c"@, path], Capture::Output)
}

/// The command that ends a session.
pub open spec fn kill_session(name: Seq<char>) -> ActionModel {
    tmux_of(seq!["kill-session"@, "-t"@, name], Capture::Status)
}

/// Whether a session exists.
pub open spec fn session_exists_flow(name: Seq<char>, log: Seq<Reply>, at: int) -> Flow<bool> {
    if at >= log.len() {
        Flow::Ask(has_session(name))
    } else {
        Flow::Done(log[at].is_yes(), at + 1)
    }
}

pub fn tmux_session_exists(name: &str, log: &[Reply], at: usize) -> (res: Progress<bool>)
    ensures
        res.model() == session_exists_flow(name@, log@, at as int),
{
    if at >= log.len() {
        return Progress::Ask(tmux(list3("has-session", "-t", name), Capture::QuietStatus));
    }
    Progress::Done(log[at].yes(), at + 1)
}

/// Creates a session that does not exist yet. The result tells whether it was
/// created.
pub open spec fn ensure_session_flow(
    name: Seq<char>,
    path: Seq<char>,
    log: Seq<Reply>,
    at: int,
) -> Flow<Result<bool, Seq<char>>> {
    if at >= log.len() {
        Flow::Ask(has_session(name))
    } else if log[at].is_yes() {
        Flow::Done(Ok(false), at + 1)
    } else if at + 1 >= log.len() {
        Flow::Ask(new_session(name, path))
    } else {
        match log[at + 1].trouble_of("Failed to run tmux: "@, "Failed to create tmux session:\n"@) {
            Some(message) => Flow::Done(Err(message), at + 2),
            None => Flow::Done(Ok(true), at + 2),
        }
    }
}

pub fn ensure_tmux_session(name: &str, path: &str, log: &[Reply], at: usize) -> (res: Progress<
    Result<bool, String>,
>)
    ensures
        res.model() == ensure_session_flow(name@, path@, log@, at as int),
{
    let (exists, at) = match tmux_session_exists(name, log, at) {
        Progress::Ask(action) => return Progress::Ask(action),
        Progress::Done(exists, at) => (exists, at),
    };
    if exists {
        return Progress::Done(Ok(false), at);
    }
    if at >= log.len() {
        let args = list6("new-session", "-d", "-s", name, "-c", path);
        return Progress::Ask(tmux(args, Capture::Output));
    }
    match log[at].trouble("Failed to run tmux: ", "Failed to create tmux session:\n") {
        Some(message) => Progress::Done(Err(message), at + 1),
        None => Progress::Done(Ok(true), at + 1),
    }
}

/// Makes a session the one that the client shows, creating it first where it
/// does not exist. Outside of tmux nothing happens, and where tmux cannot be run
/// that is passed over in silence.
pub open spec fn ensure_and_switch_flow(
    name: Seq<char>,
    path: Seq<char>,
    in_tmux: bool,
    log: Seq<Reply>,
    at: int,
) -> Flow<Result<(), Seq<char>>> {
    if !in_tmux {
        Flow::Done(Ok(()), at)
    } else {
        match ensure_session_flow(name, path, log, at) {
            Flow::Ask(action) => Flow::Ask(action),
            Flow::Done(Err(message), next) => if log[next - 1].failure_of() is Some {
                Flow::Done(Ok(()), next)
            } else {
                Flow::Done(Err(message), next)
            },
            Flow::Done(Ok(_), next) => if next >= log.len() {
                Flow::Ask(switch_client(name, Capture::Output))
            } else if log[next].failure_of() is Some {
                Flow::Done(Ok(()), next + 1)
            } else {
                match log[next].trouble_of(
                    "Failed to run tmux: "@,
                    "Failed to switch tmux session:\n"@,
                ) {
                    Some(message) => Flow::Done(Err(message), next + 1),
                    None => Flow::Done(Ok(()), next + 1),
                }
            },
        }
    }
}

pub fn ensure_and_switch_tmux_session(
    name: &str,
    path: &str,
    in_tmux: bool,
    log: &[Reply],
    at: usize,
) -> (res: Progress<Result<(), String>>)
    ensures
        res.model() == ensure_and_switch_flow(name@, path@, in_tmux, log@, at as int),
{
    if !in_tmux {
        return Progress::Done(Ok(()), at);
    }
    let at: usize = match ensure_tmux_session(name, path, log, at) {
        Progress::Ask(action) => return Progress::Ask(action),
        Progress::Done(Err(message), at) => {
            if log[at - 1].failure().is_some() {
                return Progress::Done(Ok(()), at);
            }
            return Progress::Done(Err(message), at);
        },
        Progress::Done(Ok(_), at) => at,
    };
    if at >= log.len() {
        return Progress::Ask(tmux(list3("switch-client", "-t", name), Capture::Output));
    }
    if log[at].failure().is_some() {
        return Progress::Done(Ok(()), at + 1);
    }
    match log[at].trouble("Failed to run tmux: ", "Failed to switch tmux session:\n") {
        Some(message) => Progress::Done(Err(message), at + 1),
        None => Progress::Done(Ok(()), at + 1),
    }
}

/// The name of the session that the client shows, inside of tmux.
pub open spec fn current_session_flow(in_tmux: bool, log: Seq<Reply>, at: int) -> Flow<
    Option<Seq<char>>,
> {
    if !in_tmux {
        Flow::Done(None, at)
    } else if at >= log.len() {
        Flow::Ask(tmux_of(seq!["display-message"@, "-p"@, "#S"@], Capture::Output))
    } else if log[at].failure_of() is Some {
        Flow::Done(None, at + 1)
    } else {
        Flow::Done(Some(trimmed(lossy_text(log[at].stdout_of()))), at + 1)
    }
}

pub fn current_tmux_session(in_tmux: bool, log: &[Reply], at: usize) -> (res: Progress<
    Option<String>,
>)
    ensures
        res.model() == current_session_flow(in_tmux, log@, at as int),
{
    if !in_tmux {
        return Progress::Done(None, at);
    }
    if at >= log.len() {
        return Progress::Ask(tmux(list3("display-message", "-p", "#S"), Capture::Output));
    }
    if log[at].failure().is_some() {
        return Progress::Done(None, at + 1);
    }
    let name = trim(log[at].stdout_text().as_str());
    Progress::Done(Some(name), at + 1)
}

/// The first of the names that is not `name`.
pub open spec fn first_other(names: Seq<Seq<char>>, name: Seq<char>) -> Option<Seq<char>>
    decreases names.len(),
{
    if names.len() == 0 {
        None
    } else if names[0] != name {
        Some(names[0])
    } else {
        first_other(names.drop_first(), name)
    }
}

/// The first session of a list that is not `name`.
pub fn other_session(listing: &str, name: &str) -> (res: Option<String>)
    ensures
        res.deep_view() == first_other(lines_of(listing@), name@),
{
    let names = lines(listing);
    let ghost all = names.deep_view();
    let mut i: usize = 0;
    proof {
        assert(all.skip(0) == all);
    }
    while i < names.len()
        invariant
            all == names.deep_view(),
            all == lines_of(listing@),
            i <= names@.len(),
            first_other(all, name@) == first_other(all.skip(i as int), name@),
        decreases names@.len() - i,
    {
        proof {
            assert(all.skip(i as int)[0] == names@[i as int]@);
            assert(all.skip(i as int).drop_first() == all.skip(i + 1));
        }
        if !same_text(names[i].as_str(), name) {
            return Some(names[i].clone());
        }
        i += 1;
    }
    None
}

/// Ends a session that exists. If the client shows it, the client is first moved
/// to another session, so that it is not detached.
pub open spec fn kill_flow(name: Seq<char>, in_tmux: bool, log: Seq<Reply>, at: int) -> Flow<()> {
    if at >= log.len() {
        Flow::Ask(has_session(name))
    } else if !log[at].is_yes() {
        Flow::Done((), at + 1)
    } else {
        match current_session_flow(in_tmux, log, at + 1) {
            Flow::Ask(action) => Flow::Ask(action),
            Flow::Done(current, next) => if current == Some(name) {
                if next >= log.len() {
                    Flow::Ask(tmux_of(seq!["list-sessions"@, "-F"@, "#S"@], Capture::Output))
                } else {
                    match listed_other(log[next], name) {
                        Some(other) => if next + 1 >= log.len() {
                            Flow::Ask(switch_client(other, Capture::Status))
                        } else {
                            kill_now_flow(name, log, next + 2)
                        },
                        None => kill_now_flow(name, log, next + 1),
                    }
                }
            } else {
                kill_now_flow(name, log, next)
            },
        }
    }
}

/// The first session other than `name` that a listing of the sessions shows.
pub open spec fn listed_other(listing: Reply, name: Seq<char>) -> Option<Seq<char>> {
    if listing.failure_of() is Some {
        None
    } else {
        first_other(lines_of(lossy_text(listing.stdout_of())), name)
    }
}

/// Ends a session, whatever comes of it.
pub open spec fn kill_now_flow(name: Seq<char>, log: Seq<Reply>, at: int) -> Flow<()> {
    if at >= log.len() {
        Flow::Ask(kill_session(name))
    } else {
        Flow::Done((), at + 1)
    }
}

pub fn kill_tmux_session(name: &str, in_tmux: bool, log: &[Reply], at: usize) -> (res: Progress<()>)
    ensures
        res.model() == kill_flow(name@, in_tmux, log@, at as int),
{
    let (exists, at) = match tmux_session_exists(name, log, at) {
        Progress::Ask(action) => return Progress::Ask(action),
        Progress::Done(exists, at) => (exists, at),
    };
    if !exists {
        return Progress::Done((), at);
    }
    let (current, at) = match current_tmux_session(in_tmux, log, at) {
        Progress::Ask(action) => return Progress::Ask(action),
        Progress::Done(current, at) => (current, at),
    };
    let mut at: usize = at;
    let here = match &current {
        Some(session) => same_text(session.as_str(), name),
        None => false,
    };
    if here {
        if at >= log.len() {
            return Progress::Ask(tmux(list3("list-sessions", "-F", "#S"), Capture::Output));
        }
        let other = if log[at].failure().is_some() {
            None
        } else {
            other_session(log[at].stdout_text().as_str(), name)
        };
        at += 1;
        if let Some(other) = other {
            if at >= log.len() {
                let args = list3("switch-client", "-t", other.as_str());
                return Progress::Ask(tmux(args, Capture::Status));
            }
            at += 1;
        }
    }
    if at >= log.len() {
        return Progress::Ask(tmux(list3("kill-session", "-t", name), Capture::Status));
    }
    Progress::Done((), at + 1)
}

/// Moves the client to the session of a worktree. The result tells whether the
/// client now shows another session than before.
pub open spec fn switch_flow(
    repo_name: Seq<char>,
    branch: Seq<char>,
    path: Seq<char>,
    no_session: bool,
    in_tmux: bool,
    log: Seq<Reply>,
    at: int,
) -> Flow<bool> {
    let session = session_name_of(repo_name, branch);
    if no_session || !in_tmux {
        Flow::Done(false, at)
    } else {
        match current_session_flow(in_tmux, log, at) {
            Flow::Ask(action) => Flow::Ask(action),
            Flow::Done(current, next) => match ensure_and_switch_flow(
                session,
                path,
                in_tmux,
                log,
                next,
            ) {
                Flow::Ask(action) => Flow::Ask(action),
                Flow::Done(Ok(_), end) => Flow::Done(
                    current != Some(session) && log[end - 1].failure_of() is None,
                    end,
                ),
                Flow::Done(Err(message), end) => if end >= log.len() {
                    Flow::Ask(ActionModel::Report("Warning: "@ + message))
                } else {
                    Flow::Done(false, end + 1)
                },
            },
        }
    }
}

pub fn handle_tmux_switch(
    repo_name: &str,
    branch: &str,
    path: &str,
    no_session: bool,
    in_tmux: bool,
    log: &[Reply],
    at: usize,
) -> (res: Progress<bool>)
    ensures
        res.model() == switch_flow(
            repo_name@,
            branch@,
            path@,
            no_session,
            in_tmux,
            log@,
            at as int,
        ),
{
    if no_session || !in_tmux {
        return Progress::Done(false, at);
    }
    let session = tmux_session_name(repo_name, branch);
    let (current, at) = match current_tmux_session(in_tmux, log, at) {
        Progress::Ask(action) => return Progress::Ask(action),
        Progress::Done(current, at) => (current, at),
    };
    let already_here = match &current {
        Some(name) => same_text(name.as_str(), session.as_str()),
        None => false,
    };
    match ensure_and_switch_tmux_session(session.as_str(), path, in_tmux, log, at) {
        Progress::Ask(action) => Progress::Ask(action),
        Progress::Done(Ok(_), at) => {
            let switched = log[at - 1].failure().is_none();
            Progress::Done(!already_here && switched, at)
        },
        Progress::Done(Err(message), at) => {
            if at >= log.len() {
                return Progress::Ask(Action::Report(cat("Warning: ", message.as_str())));
            }
            Progress::Done(false, at + 1)
        },
    }
}

/// Another session is the first of the listed ones that has another name, and none
/// is found only where all of them have the name.
pub proof fn law_first_other(names: Seq<Seq<char>>, name: Seq<char>)
    ensures
        first_other(names, name) matches Some(other) ==> other != name && names.contains(other),
        first_other(names, name) matches Some(other) ==> exists|i: int|
            0 <= i < names.len() && #[trigger] names[i] == other && forall|j: int|
                0 <= j < i ==> #[trigger] names[j] == name,
        first_other(names, name) is None ==> forall|i: int|
            0 <= i < names.len() ==> #[trigger] names[i] == name,
    decreases names.len(),
{
    if names.len() > 0 && names[0] == name {
        let rest = names.drop_first();
        law_first_other(rest, name);
        if let Some(other) = first_other(rest, name) {
            let at = choose|i: int|
                0 <= i < rest.len() && #[trigger] rest[i] == other && forall|j: int|
                    0 <= j < i ==> #[trigger] rest[j] == name;
            assert(names[at + 1] == other);
            assert forall|j: int| 0 <= j < at + 1 implies #[trigger] names[j] == name by {
                if j > 0 {
                    assert(names[j] == rest[j - 1]);
                }
            }
        } else {
            assert forall|i: int| 0 <= i < names.len() implies #[trigger] names[i] == name by {
                if i > 0 {
                    assert(names[i] == rest[i - 1]);
                }
            }
        }
    } else if names.len() > 0 {
        assert(names.contains(names[0]));
    }
}

/// A session is ended only if it exists, and while the client shows it only right
/// after the client was moved to another session, or if no other was listed.
pub proof fn law_kill_moves_away(name: Seq<char>, log: Seq<Reply>, at: int)
    requires
        0 <= at <= log.len(),
        kill_flow(name, true, log, at) == Flow::<()>::Ask(kill_session(name)),
    ensures
        at + 2 <= log.len(),
        log[at].is_yes(),
        ({
            let before = kill_flow(name, true, log.drop_last(), at);
            let shown = current_session_flow(true, log, at + 1);
            ||| shown == Flow::Done(None::<Seq<char>>, at + 2)
            ||| shown matches Flow::Done(Some(session), _) && session != name
            ||| before matches Flow::Ask(moved) && exists|other: Seq<char>|
                other != name && moved == #[trigger] switch_client(other, Capture::Status)
            ||| listed_other(log.last(), name) is None
        }),
{
    lemma_kill_differs(name);
    let earlier = log.drop_last();
    if at + 2 < log.len() {
        if let Some(other) = listed_other(log[at + 2], name) {
            law_first_other(lines_of(lossy_text(log[at + 2].stdout_of())), name);
            if log.len() == at + 4 {
                assert(earlier[at] == log[at]);
                assert(earlier[at + 1] == log[at + 1]);
                assert(earlier[at + 2] == log[at + 2]);
            }
        }
    }
}

/// The command that ends a session is none of those that come before it.
proof fn lemma_kill_differs(name: Seq<char>)
    ensures
        kill_session(name) != has_session(name),
        forall|other: Seq<char>| kill_session(name) != #[trigger] switch_client(
            other,
            Capture::Status,
        ),
{
    reveal_strlit("kill-session");
    reveal_strlit("switch-client");
    let args = seq!["kill-session"@, "-t"@, name];
    assert("kill-session"@.len() != "switch-client"@.len());
    assert forall|other: Seq<char>| kill_session(name) != #[trigger] switch_client(
        other,
        Capture::Status,
    ) by {
        let moving = seq!["switch-client"@, "-t"@, other];
        assert(args[0] != moving[0]);
    }
}

/// The client is said to show another session only right after tmux has switched
/// it to the session of the worktree.
pub proof fn law_switch_told(
    repo_name: Seq<char>,
    branch: Seq<char>,
    path: Seq<char>,
    no_session: bool,
    in_tmux: bool,
    log: Seq<Reply>,
    at: int,
)
    requires
        0 <= at <= log.len(),
        switch_flow(repo_name, branch, path, no_session, in_tmux, log, at) matches Flow::Done(
            true,
            _,
        ),
    ensures
        switch_flow(repo_name, branch, path, no_session, in_tmux, log, at) matches Flow::Done(
            true,
            end,
        ) && {
            &&& at < end <= log.len()
            &&& log[end - 1].is_yes()
            &&& awaits(
                switch_flow(
                    repo_name,
                    branch,
                    path,
                    no_session,
                    in_tmux,
                    log.take(end - 1),
                    at,
                ),
                switch_client(session_name_of(repo_name, branch), Capture::Output),
            )
        },
{
}

/// Where tmux cannot be run, nothing comes of a switch: no error, no report, and
/// no claim that the client shows another session.
pub proof fn law_missing_tmux_passed_over(
    repo_name: Seq<char>,
    branch: Seq<char>,
    path: Seq<char>,
    no_session: bool,
    in_tmux: bool,
    log: Seq<Reply>,
    at: int,
)
    requires
        0 <= at <= log.len(),
        forall|i: int| at <= i < log.len() ==> (#[trigger] log[i]).failure_of() is Some,
    ensures
        !(ensure_and_switch_flow(
            session_name_of(repo_name, branch),
            path,
            in_tmux,
            log,
            at,
        ) matches Flow::Done(Err(_), _)),
        switch_flow(repo_name, branch, path, no_session, in_tmux, log, at) matches Flow::Ask(action)
            ==> action is Run,
        switch_flow(repo_name, branch, path, no_session, in_tmux, log, at) matches Flow::Done(
            switched,
            _,
        ) ==> !switched,
{
}

/// What tmux is told to do with a session.
pub proof fn law_session_commands(name: Seq<char>, path: Seq<char>, capture: Capture)
    ensures
        has_session(name) == tmux_of(seq!["has-session"@, "-t"@, name], Capture::QuietStatus),
        new_session(name, path) == tmux_of(
            seq!["new-session"@, "-d"@, "-s"@, name, "-c"@, path],
            Capture::Output,
        ),
        switch_client(name, capture) == tmux_of(seq!["switch-client"@, "-t"@, name], capture),
        kill_session(name) == tmux_of(seq!["kill-session"@, "-t"@, name], Capture::Status),
{
}

/// A session is asked for, and created in its directory if and only if it does not
/// exist. The result tells whether it was created.
pub proof fn law_session_ensured(name: Seq<char>, path: Seq<char>, log: Seq<Reply>, at: int)
    requires
        0 <= at <= log.len(),
    ensures
        ({
            let flow = ensure_session_flow(name, path, log, at);
            &&& log.len() == at ==> awaits(flow, has_session(name))
            &&& log.len() > at && log[at].is_yes() ==> flow == Flow::Done(
                Ok::<_, Seq<char>>(false),
                at + 1,
            )
            &&& log.len() == at + 1 && !log[at].is_yes() ==> awaits(flow, new_session(name, path))
            &&& log.len() > at + 1 && !log[at].is_yes() ==> {
                let created = log[at + 1];
                &&& created.is_yes() ==> flow == Flow::Done(Ok::<_, Seq<char>>(true), at + 2)
                &&& !created.is_yes() ==> flow == Flow::Done(
                    Err::<bool, _>(
                        created.trouble_of(
                            "Failed to run tmux: "@,
                            "Failed to create tmux session:\n"@,
                        )->0,
                    ),
                    at + 2,
                )
            }
        }),
{
}

/// Inside of tmux the client is asked for the session that it shows, and what it
/// says is taken without the white space around it.
pub proof fn law_shown_session(log: Seq<Reply>, at: int)
    requires
        0 <= at <= log.len(),
    ensures
        current_session_flow(false, log, at) == Flow::Done(None::<Seq<char>>, at),
        log.len() == at ==> awaits(
            current_session_flow(true, log, at),
            tmux_of(seq!["display-message"@, "-p"@, "#S"@], Capture::Output),
        ),
        log.len() > at ==> current_session_flow(true, log, at) == Flow::Done(
            if log[at].failure_of() is Some {
                None
            } else {
                Some(trimmed(lossy_text(log[at].stdout_of())))
            },
            at + 1,
        ),
{
}

/// How a worktree is gone to inside of tmux, step by step: the client is asked for
/// the session that it shows, the session of the worktree is asked for and created
/// in the directory of the worktree where it is missing, and the client is
/// switched to it.
pub proof fn law_switch_steps(
    repo_name: Seq<char>,
    branch: Seq<char>,
    path: Seq<char>,
    no_session: bool,
    in_tmux: bool,
    log: Seq<Reply>,
    at: int,
)
    requires
        0 <= at <= log.len(),
    ensures
        ({
            let flow = switch_flow(repo_name, branch, path, no_session, in_tmux, log, at);
            let name = session_name_of(repo_name, branch);
            let n = log.len();
            let there = log[at + 1].is_yes();
            let made = !there && log[at + 2].is_yes();
            // Where the reply to the switch stands.
            let last = if there {
                at + 2
            } else {
                at + 3
            };
            let shown = !(log[at].failure_of() is Some) && trimmed(lossy_text(log[at].stdout_of()))
                == name;
            if no_session || !in_tmux {
                flow == Flow::Done(false, at)
            } else {
                &&& n == at ==> awaits(
                    flow,
                    tmux_of(seq!["display-message"@, "-p"@, "#S"@], Capture::Output),
                )
                &&& n == at + 1 ==> awaits(flow, has_session(name))
                &&& n == at + 2 && !there ==> awaits(flow, new_session(name, path))
                &&& n == last && (there || made) ==> awaits(
                    flow,
                    switch_client(name, Capture::Output),
                )
                &&& n > last && (there || made) && log[last].is_yes() ==> flow == Flow::Done(
                    !shown,
                    last + 1,
                )
                &&& n > last && (there || made) && log[last].failure_of() is Some ==> flow
                    == Flow::Done(false, last + 1)
                &&& n == last + 1 && (there || made) && !log[last].is_yes()
                    && log[last].failure_of() is None ==> awaits(
                    flow,
                    ActionModel::Report(
                        "Warning: "@ + log[last].trouble_of(
                            "Failed to run tmux: "@,
                            "Failed to switch tmux session:\n"@,
                        )->0,
                    ),
                )
                &&& n > last + 1 && (there || made) && !log[last].is_yes()
                    && log[last].failure_of() is None ==> flow == Flow::Done(false, last + 2)
                &&& n > at + 2 && !there && !made && log[at + 2].failure_of() is Some ==> flow
                    == Flow::Done(false, at + 3)
                &&& n == at + 3 && !there && !made && log[at + 2].failure_of() is None ==> awaits(
                    flow,
                    ActionModel::Report(
                        "Warning: "@ + log[at + 2].trouble_of(
                            "Failed to run tmux: "@,
                            "Failed to create tmux session:\n"@,
                        )->0,
                    ),
                )
                &&& n > at + 3 && !there && !made && log[at + 2].failure_of() is None ==> flow
                    == Flow::Done(false, at + 4)
                &&& flow matches Flow::Done(true, end) ==> end == last + 1 && (there || made)
                    && log[last].is_yes() && !shown
            }
        }),
{
}

/// How a session is ended, step by step. Inside of tmux the client is asked for
/// the session that it shows; if that is the one, the sessions are listed and the
/// client is moved to the first other one. Only then is the session ended.
pub proof fn law_kill_steps(name: Seq<char>, in_tmux: bool, log: Seq<Reply>, at: int)
    requires
        0 <= at <= log.len(),
    ensures
        ({
            let flow = kill_flow(name, in_tmux, log, at);
            let n = log.len();
            let here = in_tmux && log[at + 1].failure_of() is None && trimmed(
                lossy_text(log[at + 1].stdout_of()),
            ) == name;
            let others = lines_of(lossy_text(log[at + 2].stdout_of()));
            let other = if log[at + 2].failure_of() is Some {
                None
            } else {
                first_other(others, name)
            };
            // Where the reply to the end of the session stands.
            let last = if !in_tmux {
                at + 1
            } else if !here {
                at + 2
            } else if other is None {
                at + 3
            } else {
                at + 4
            };
            &&& n == at ==> awaits(flow, has_session(name))
            &&& n > at && !log[at].is_yes() ==> flow == Flow::Done((), at + 1)
            &&& n > at && log[at].is_yes() ==> {
                &&& n == at + 1 && in_tmux ==> awaits(
                    flow,
                    tmux_of(seq!["display-message"@, "-p"@, "#S"@], Capture::Output),
                )
                &&& n == at + 2 && here ==> awaits(
                    flow,
                    tmux_of(seq!["list-sessions"@, "-F"@, "#S"@], Capture::Output),
                )
                &&& n == at + 3 && here && other is Some ==> awaits(
                    flow,
                    switch_client(other->0, Capture::Status),
                )
                &&& n == last ==> awaits(flow, kill_session(name))
                &&& n > last ==> flow == Flow::Done((), last + 1)
            }
        }),
{
}

} // verus!
