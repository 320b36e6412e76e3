//! That `wt sessions` leaves no repository and no worktree out.

use vstd::prelude::*;

use crate::config::global_config_flow;
use crate::flow::{awaits, Flow, Reply};
use crate::global::{
    all_sessions_flow, open_session_flow, open_sessions_flow, sessions_flow, Exit, TallyModel,
};
use crate::names::{repo_name_of, session_name_of, tilde_expanded, worktrees_dir_of};
use crate::replay::{
    resume_global_config, resume_list, resume_open_session, resume_open_sessions,
};
use crate::repo::{listed_worktrees, worktree_listing, WorktreeModel};
use crate::text::lossy_text;
use crate::tmux::{has_session, new_session};

verus! {

/// Whether a procedure has asked for a session, from the reply `at` on, and has
/// asked for it to be created if it did not exist.
pub open spec fn session_seen<M>(
    flow: spec_fn(Seq<Reply>) -> Flow<M>,
    log: Seq<Reply>,
    at: int,
    name: Seq<char>,
    path: Seq<char>,
) -> bool {
    exists|i: int|
        {
            &&& at <= i < log.len()
            &&& awaits(flow(#[trigger] log.take(i)), has_session(name))
            &&& log[i].is_yes() || (i + 1 < log.len() && awaits(
                flow(log.take(i + 1)),
                new_session(name, path),
            ))
        }
}

/// Whether a procedure has seen to the sessions of all these worktrees.
pub open spec fn sessions_seen<M>(
    flow: spec_fn(Seq<Reply>) -> Flow<M>,
    log: Seq<Reply>,
    at: int,
    repo_name: Seq<char>,
    worktrees: Seq<WorktreeModel>,
) -> bool {
    forall|i: int|
        0 <= i < worktrees.len() ==> session_seen(
            flow,
            log,
            at,
            session_name_of(repo_name, #[trigger] worktrees[i].branch),
            worktrees[i].path,
        )
}

/// Whether a procedure has listed the worktrees of a repository, and has seen to
/// the sessions of those that it was told of.
pub open spec fn repo_seen<M>(
    flow: spec_fn(Seq<Reply>) -> Flow<M>,
    log: Seq<Reply>,
    at: int,
    path: Seq<char>,
) -> bool {
    exists|i: int|
        {
            &&& at <= i < log.len()
            &&& awaits(flow(#[trigger] log.take(i)), worktree_listing(Some(path)))
            &&& log[i].is_yes() ==> sessions_seen(
                flow,
                log,
                i + 1,
                repo_name_of(path),
                listed_worktrees(lossy_text(log[i].stdout_of()), worktrees_dir_of(path)),
            )
        }
}

/// Where one procedure waits for what another one waits for, from some reply on,
/// it has seen what the other one has seen.
proof fn lemma_session_seen<M, N>(
    inner: spec_fn(Seq<Reply>) -> Flow<M>,
    outer: spec_fn(Seq<Reply>) -> Flow<N>,
    log: Seq<Reply>,
    from: int,
    at: int,
    name: Seq<char>,
    path: Seq<char>,
)
    requires
        at <= from,
        session_seen(inner, log, from, name, path),
        forall|i: int|
            from <= i < log.len() ==> (inner(#[trigger] log.take(i)) matches Flow::Ask(action)
                ==> awaits(outer(log.take(i)), action)),
    ensures
        session_seen(outer, log, at, name, path),
{
    let i = choose|i: int|
        {
            &&& from <= i < log.len()
            &&& awaits(inner(#[trigger] log.take(i)), has_session(name))
            &&& log[i].is_yes() || (i + 1 < log.len() && awaits(
                inner(log.take(i + 1)),
                new_session(name, path),
            ))
        };
    assert(awaits(outer(log.take(i)), has_session(name)));
    if !log[i].is_yes() {
        assert(awaits(outer(log.take(i + 1)), new_session(name, path)));
    }
}

proof fn lemma_sessions_seen<M, N>(
    inner: spec_fn(Seq<Reply>) -> Flow<M>,
    outer: spec_fn(Seq<Reply>) -> Flow<N>,
    log: Seq<Reply>,
    from: int,
    at: int,
    repo_name: Seq<char>,
    worktrees: Seq<WorktreeModel>,
)
    requires
        at <= from,
        sessions_seen(inner, log, from, repo_name, worktrees),
        forall|i: int|
            from <= i < log.len() ==> (inner(#[trigger] log.take(i)) matches Flow::Ask(action)
                ==> awaits(outer(log.take(i)), action)),
    ensures
        sessions_seen(outer, log, at, repo_name, worktrees),
{
    assert forall|i: int| 0 <= i < worktrees.len() implies session_seen(
        outer,
        log,
        at,
        session_name_of(repo_name, #[trigger] worktrees[i].branch),
        worktrees[i].path,
    ) by {
        let name = session_name_of(repo_name, worktrees[i].branch);
        lemma_session_seen(inner, outer, log, from, at, name, worktrees[i].path);
    }
}

proof fn lemma_repo_seen<M, N>(
    inner: spec_fn(Seq<Reply>) -> Flow<M>,
    outer: spec_fn(Seq<Reply>) -> Flow<N>,
    log: Seq<Reply>,
    from: int,
    at: int,
    path: Seq<char>,
)
    requires
        at <= from,
        repo_seen(inner, log, from, path),
        forall|i: int|
            from <= i < log.len() ==> (inner(#[trigger] log.take(i)) matches Flow::Ask(action)
                ==> awaits(outer(log.take(i)), action)),
    ensures
        repo_seen(outer, log, at, path),
{
    let i = choose|i: int|
        {
            &&& from <= i < log.len()
            &&& awaits(inner(#[trigger] log.take(i)), worktree_listing(Some(path)))
            &&& log[i].is_yes() ==> sessions_seen(
                inner,
                log,
                i + 1,
                repo_name_of(path),
                listed_worktrees(lossy_text(log[i].stdout_of()), worktrees_dir_of(path)),
            )
        };
    assert(awaits(outer(log.take(i)), worktree_listing(Some(path))));
    if log[i].is_yes() {
        lemma_sessions_seen(
            inner,
            outer,
            log,
            i + 1,
            i + 1,
            repo_name_of(path),
            listed_worktrees(lossy_text(log[i].stdout_of()), worktrees_dir_of(path)),
        );
    }
}

/// Seeing to the session of one worktree.
proof fn lemma_one_session(
    repo_name: Seq<char>,
    worktree: WorktreeModel,
    tally: TallyModel,
    log: Seq<Reply>,
    at: int,
)
    requires
        0 <= at <= log.len(),
        open_session_flow(repo_name, worktree, tally, log, at) is Done,
    ensures
        session_seen(
            |l: Seq<Reply>| open_session_flow(repo_name, worktree, tally, l, at),
            log,
            at,
            session_name_of(repo_name, worktree.branch),
            worktree.path,
        ),
{
    let name = session_name_of(repo_name, worktree.branch);
    let flow = |l: Seq<Reply>| open_session_flow(repo_name, worktree, tally, l, at);
    assert(awaits(flow(log.take(at)), has_session(name)));
    if !log[at].is_yes() {
        assert(log.take(at + 1)[at] == log[at]);
        assert(awaits(flow(log.take(at + 1)), new_session(name, worktree.path)));
    }
}

/// Seeing to the worktrees of one repository leaves none of them out.
pub proof fn law_open_sessions_complete(
    repo_name: Seq<char>,
    worktrees: Seq<WorktreeModel>,
    tally: TallyModel,
    log: Seq<Reply>,
    at: int,
)
    requires
        0 <= at <= log.len(),
        open_sessions_flow(repo_name, worktrees, tally, log, at) is Done,
    ensures
        sessions_seen(
            |l: Seq<Reply>| open_sessions_flow(repo_name, worktrees, tally, l, at),
            log,
            at,
            repo_name,
            worktrees,
        ),
    decreases worktrees.len(),
{
    if worktrees.len() > 0 {
        let outer = |l: Seq<Reply>| open_sessions_flow(repo_name, worktrees, tally, l, at);
        let first = |l: Seq<Reply>| open_session_flow(repo_name, worktrees[0], tally, l, at);
        resume_open_session(repo_name, worktrees[0], tally, log, log, at);
        lemma_one_session(repo_name, worktrees[0], tally, log, at);
        let name = session_name_of(repo_name, worktrees[0].branch);
        lemma_session_seen(first, outer, log, at, at, name, worktrees[0].path);
        if let Flow::Done(counted, next) = open_session_flow(
            repo_name,
            worktrees[0],
            tally,
            log,
            at,
        ) {
            let rest = worktrees.drop_first();
            let inner = |l: Seq<Reply>| open_sessions_flow(repo_name, rest, counted, l, next);
            law_open_sessions_complete(repo_name, rest, counted, log, next);
            assert forall|i: int| next <= i < log.len() implies (inner(
                #[trigger] log.take(i),
            ) matches Flow::Ask(action) ==> awaits(outer(log.take(i)), action)) by {
                resume_open_session(repo_name, worktrees[0], tally, log.take(i), log, at);
            }
            lemma_sessions_seen(inner, outer, log, next, at, repo_name, rest);
            assert forall|i: int| 0 <= i < worktrees.len() implies session_seen(
                outer,
                log,
                at,
                session_name_of(repo_name, #[trigger] worktrees[i].branch),
                worktrees[i].path,
            ) by {
                if i > 0 {
                    assert(rest[i - 1].branch == worktrees[i].branch);
                }
            }
        }
    }
}

/// Seeing to the configured repositories leaves none of them out: the worktrees
/// of each one are listed, and each of those gets a session that has none.
pub proof fn law_all_sessions_complete(
    repos: Seq<Seq<char>>,
    home: Option<Seq<char>>,
    tally: TallyModel,
    log: Seq<Reply>,
    at: int,
)
    requires
        0 <= at <= log.len(),
        all_sessions_flow(repos, home, tally, log, at) is Done,
    ensures
        forall|i: int|
            0 <= i < repos.len() ==> repo_seen(
                |l: Seq<Reply>| all_sessions_flow(repos, home, tally, l, at),
                log,
                at,
                tilde_expanded(#[trigger] repos[i], home),
            ),
    decreases repos.len(),
{
    if repos.len() > 0 {
        let outer = |l: Seq<Reply>| all_sessions_flow(repos, home, tally, l, at);
        let path = tilde_expanded(repos[0], home);
        let rest = repos.drop_first();
        resume_list(path, log, log, at);
        assert(awaits(outer(log.take(at)), worktree_listing(Some(path))));
        let next = at + 1;
        if log[at].is_yes() {
            let worktrees = listed_worktrees(
                lossy_text(log[at].stdout_of()),
                worktrees_dir_of(path),
            );
            let name = repo_name_of(path);
            resume_open_sessions(name, worktrees, tally, log, log, next);
            let inner = |l: Seq<Reply>| open_sessions_flow(name, worktrees, tally, l, next);
            law_open_sessions_complete(name, worktrees, tally, log, next);
            assert forall|i: int| next <= i < log.len() implies (inner(
                #[trigger] log.take(i),
            ) matches Flow::Ask(action) ==> awaits(outer(log.take(i)), action)) by {
                resume_list(path, log.take(i), log, at);
            }
            lemma_sessions_seen(inner, outer, log, next, next, name, worktrees);
            let counted = open_sessions_flow(name, worktrees, tally, log, next)->Done_0;
            let end = open_sessions_flow(name, worktrees, tally, log, next)->1;
            let behind = |l: Seq<Reply>| all_sessions_flow(rest, home, counted, l, end);
            law_all_sessions_complete(rest, home, counted, log, end);
            assert forall|i: int| end <= i < log.len() implies (behind(
                #[trigger] log.take(i),
            ) matches Flow::Ask(action) ==> awaits(outer(log.take(i)), action)) by {
                resume_list(path, log.take(i), log, at);
                resume_open_sessions(name, worktrees, tally, log.take(i), log, next);
            }
            lemma_rest_seen(behind, outer, log, end, at, rest, home);
        } else {
            let end = at + 2;
            let behind = |l: Seq<Reply>| all_sessions_flow(rest, home, tally, l, end);
            law_all_sessions_complete(rest, home, tally, log, end);
            assert forall|i: int| end <= i < log.len() implies (behind(
                #[trigger] log.take(i),
            ) matches Flow::Ask(action) ==> awaits(outer(log.take(i)), action)) by {
                resume_list(path, log.take(i), log, at);
            }
            lemma_rest_seen(behind, outer, log, end, at, rest, home);
        }
        assert(repo_seen(outer, log, at, path));
        assert forall|i: int| 0 <= i < repos.len() implies repo_seen(
            outer,
            log,
            at,
            tilde_expanded(#[trigger] repos[i], home),
        ) by {
            if i > 0 {
                assert(rest[i - 1] == repos[i]);
            }
        }
    }
}

proof fn lemma_rest_seen<M, N>(
    inner: spec_fn(Seq<Reply>) -> Flow<M>,
    outer: spec_fn(Seq<Reply>) -> Flow<N>,
    log: Seq<Reply>,
    from: int,
    at: int,
    repos: Seq<Seq<char>>,
    home: Option<Seq<char>>,
)
    requires
        at <= from,
        forall|i: int|
            0 <= i < repos.len() ==> repo_seen(
                inner,
                log,
                from,
                tilde_expanded(#[trigger] repos[i], home),
            ),
        forall|i: int|
            from <= i < log.len() ==> (inner(#[trigger] log.take(i)) matches Flow::Ask(action)
                ==> awaits(outer(log.take(i)), action)),
    ensures
        forall|i: int|
            0 <= i < repos.len() ==> repo_seen(
                outer,
                log,
                at,
                tilde_expanded(#[trigger] repos[i], home),
            ),
{
    assert forall|i: int| 0 <= i < repos.len() implies repo_seen(
        outer,
        log,
        at,
        tilde_expanded(#[trigger] repos[i], home),
    ) by {
        lemma_repo_seen(inner, outer, log, from, at, tilde_expanded(repos[i], home));
    }
}

/// `wt sessions` that ends well has seen to every configured repository.
pub proof fn law_sessions_complete(home: Option<Seq<char>>, log: Seq<Reply>, at: int)
    requires
        0 <= at <= log.len(),
        sessions_flow(home, log, at) matches Flow::Done(Exit::Success, _),
    ensures
        global_config_flow(home, log, at) matches Flow::Done(config, _) && forall|i: int|
            0 <= i < config.repos.len() ==> repo_seen(
                |l: Seq<Reply>| sessions_flow(home, l, at),
                log,
                at,
                tilde_expanded(#[trigger] config.repos[i], home),
            ),
{
    let none = TallyModel { total: 0, created: 0, existed: 0 };
    resume_global_config(home, log, log, at);
    if let Flow::Done(config, next) = global_config_flow(home, log, at) {
        let outer = |l: Seq<Reply>| sessions_flow(home, l, at);
        let inner = |l: Seq<Reply>| all_sessions_flow(config.repos, home, none, l, next);
        law_all_sessions_complete(config.repos, home, none, log, next);
        assert forall|i: int| next <= i < log.len() implies (inner(
            #[trigger] log.take(i),
        ) matches Flow::Ask(action) ==> awaits(outer(log.take(i)), action)) by {
            resume_global_config(home, log.take(i), log, at);
        }
        lemma_rest_seen(inner, outer, log, next, at, config.repos, home);
    }
}

} // verus!
