//! That links are made once: where they were made, making them again changes
//! nothing.

use vstd::prelude::*;

use crate::create::{create_flow, link_flow, links_flow};
use crate::flow::{awaits, ActionModel, Flow, Reply};
use crate::names::worktree_path_of;
use crate::paths::{joined, parent_of};
use crate::replay::{resume_link, resume_links};

verus! {

/// What there is in the file system at some time.
pub struct Files {
    /// The paths at which something is found, following links.
    pub there: Set<Seq<char>>,
    /// The paths that are symbolic links.
    pub links: Set<Seq<char>>,
}

impl Files {
    /// Whether the place of a link is taken, be it by a link to nowhere.
    pub open spec fn is_taken(self, path: Seq<char>) -> bool {
        self.there.contains(path) || self.links.contains(path)
    }
}

/// Links that are to be made: each entry of the main repository, if it is there,
/// gets a link in the worktree.
pub struct Linking {
    pub main_repo: Seq<char>,
    pub worktree: Seq<char>,
    pub entries: Seq<Seq<char>>,
}

impl Linking {
    pub open spec fn flow(self, log: Seq<Reply>, at: int) -> Flow<()> {
        links_flow(self.main_repo, self.worktree, self.entries, log, at)
    }

    /// What the link of an entry points to.
    pub open spec fn source(self, i: int) -> Seq<char> {
        joined(self.main_repo, self.entries[i])
    }

    /// Where the link of an entry is made.
    pub open spec fn place(self, i: int) -> Seq<char> {
        joined(self.worktree, self.entries[i])
    }

    /// All but the first of the links.
    spec fn rest(self) -> Linking {
        Linking { entries: self.entries.drop_first(), ..self }
    }

    /// Whether the replies that were given from `at` up to `end` told what was in
    /// the file system when they were given.
    pub open spec fn is_told_truly(
        self,
        log: Seq<Reply>,
        at: int,
        end: int,
        files: spec_fn(int) -> Files,
    ) -> bool {
        forall|i: int|
            at <= i < end ==> match self.flow(#[trigger] log.take(i), at) {
                Flow::Ask(ActionModel::Exists(path)) => log[i].is_yes() == files(
                    i,
                ).there.contains(path),
                Flow::Ask(ActionModel::IsSymlink(path)) => log[i].is_yes() == files(
                    i,
                ).links.contains(path),
                _ => true,
            }
    }

    /// Whether everything that was to be made from `at` up to `end` was made, and a
    /// link was in its place once it was made.
    pub open spec fn is_carried_out(
        self,
        log: Seq<Reply>,
        at: int,
        end: int,
        files: spec_fn(int) -> Files,
    ) -> bool {
        forall|i: int|
            at <= i < end ==> match self.flow(#[trigger] log.take(i), at) {
                Flow::Ask(ActionModel::CreateDirs(_)) => log[i].failure_of() is None,
                Flow::Ask(ActionModel::Symlink { link, .. }) => log[i].failure_of() is None
                    && files(i + 1).links.contains(link),
                _ => true,
            }
    }

    /// Whether there is nothing left to link: each entry is missing in the main
    /// repository, or its place is taken.
    pub open spec fn is_settled(self, files: Files) -> bool {
        forall|i: int|
            0 <= i < self.entries.len() ==> !files.there.contains(#[trigger] self.source(i))
                || files.is_taken(self.place(i))
    }

    /// Whether from `at` on no entry appears in the main repository or vanishes
    /// from it, a link that is in its place stays there, and no place that is taken
    /// becomes free.
    pub open spec fn is_left_alone(self, at: int, files: spec_fn(int) -> Files) -> bool {
        &&& forall|i: int, j: int, k: int|
            #![trigger files(i).there.contains(self.source(k)), files(j)]
            at <= i <= j && 0 <= k < self.entries.len() ==> files(i).there.contains(self.source(k))
                == files(j).there.contains(self.source(k))
        &&& forall|i: int, j: int, k: int|
            #![trigger files(i).is_taken(self.place(k)), files(j)]
            at <= i <= j && 0 <= k < self.entries.len() && files(i).is_taken(self.place(k))
                ==> files(j).is_taken(self.place(k))
        &&& forall|i: int, j: int, k: int|
            #![trigger files(i).links.contains(self.place(k)), files(j)]
            at <= i <= j && 0 <= k < self.entries.len() && files(i).links.contains(self.place(k))
                ==> files(j).links.contains(self.place(k))
    }
}

/// Whether an action leaves the file system as it is.
pub open spec fn only_looks(action: ActionModel) -> bool {
    action is Exists || action is IsSymlink || action is Report
}

/// Where there is nothing left to link whenever it is asked, nothing is created:
/// the program looks, and reports what it passes over.
pub proof fn law_settled_links_untouched(
    linking: Linking,
    log: Seq<Reply>,
    at: int,
    files: spec_fn(int) -> Files,
)
    requires
        0 <= at <= log.len(),
        linking.is_told_truly(log, at, log.len() as int, files),
        linking.is_left_alone(at, files),
        linking.is_settled(files(at)),
    ensures
        linking.flow(log, at) matches Flow::Ask(action) ==> only_looks(action),
    decreases linking.entries.len(),
{
    if linking.entries.len() > 0 {
        let entry = linking.entries[0];
        resume_link(linking.main_repo, linking.worktree, entry, log, log, at);
        lemma_settled_link(linking, log, at, files);
        if let Flow::Done(_, next) = link_flow(
            linking.main_repo,
            linking.worktree,
            entry,
            log,
            at,
        ) {
            lemma_rest_true(linking, log, at, next, log.len() as int, files);
            lemma_rest_alone(linking, at, next, files);
            lemma_settled_later(linking, at, next, files);
            lemma_rest_settled(linking, files(next));
            law_settled_links_untouched(linking.rest(), log, next, files);
        }
    }
}

/// Once all is settled, it stays so.
proof fn lemma_settled_later(linking: Linking, at: int, later: int, files: spec_fn(int) -> Files)
    requires
        at <= later,
        linking.is_left_alone(at, files),
        linking.is_settled(files(at)),
    ensures
        linking.is_settled(files(later)),
{
    assert forall|k: int| 0 <= k < linking.entries.len() implies !files(later).there.contains(
        #[trigger] linking.source(k),
    ) || files(later).is_taken(linking.place(k)) by {
        assert(files(at).there.contains(linking.source(k)) == files(later).there.contains(
            linking.source(k),
        ));
        assert(files(at).is_taken(linking.place(k)) ==> files(later).is_taken(linking.place(k)));
    }
}

/// What is settled of all links is settled of the rest of them.
proof fn lemma_rest_settled(linking: Linking, files: Files)
    requires
        linking.entries.len() > 0,
        linking.is_settled(files),
    ensures
        linking.rest().is_settled(files),
{
    let rest = linking.rest();
    assert forall|k: int| 0 <= k < rest.entries.len() implies !files.there.contains(
        #[trigger] rest.source(k),
    ) || files.is_taken(rest.place(k)) by {
        assert(rest.source(k) == linking.source(k + 1));
        assert(rest.place(k) == linking.place(k + 1));
    }
}

proof fn lemma_rest_alone(linking: Linking, at: int, next: int, files: spec_fn(int) -> Files)
    requires
        linking.entries.len() > 0,
        at <= next,
        linking.is_left_alone(at, files),
    ensures
        linking.rest().is_left_alone(next, files),
{
    let rest = linking.rest();
    assert forall|i: int, j: int, k: int|
        #![trigger files(i).there.contains(rest.source(k)), files(j)]
        next <= i <= j && 0 <= k < rest.entries.len() implies files(i).there.contains(
        rest.source(k),
    ) == files(j).there.contains(rest.source(k)) by {
        assert(rest.source(k) == linking.source(k + 1));
        assert(files(i).there.contains(linking.source(k + 1)) == files(j).there.contains(
            linking.source(k + 1),
        ));
    }
    assert forall|i: int, j: int, k: int|
        #![trigger files(i).is_taken(rest.place(k)), files(j)]
        next <= i <= j && 0 <= k < rest.entries.len() && files(i).is_taken(
            rest.place(k),
        ) implies files(j).is_taken(rest.place(k)) by {
        assert(rest.place(k) == linking.place(k + 1));
        assert(files(i).is_taken(linking.place(k + 1)));
    }
    assert forall|i: int, j: int, k: int|
        #![trigger files(i).links.contains(rest.place(k)), files(j)]
        next <= i <= j && 0 <= k < rest.entries.len() && files(i).links.contains(
            rest.place(k),
        ) implies files(j).links.contains(rest.place(k)) by {
        assert(rest.place(k) == linking.place(k + 1));
        assert(files(i).links.contains(linking.place(k + 1)));
    }
}

/// Behind the first link, all of them are asked for what the rest are asked for.
proof fn lemma_rest_asks(linking: Linking, log: Seq<Reply>, at: int, next: int, i: int)
    requires
        linking.entries.len() > 0,
        0 <= at <= log.len(),
        link_flow(linking.main_repo, linking.worktree, linking.entries[0], log, at)
            == Flow::Done((), next),
        next <= i <= log.len(),
    ensures
        at < next,
        linking.flow(log.take(i), at) == linking.rest().flow(log.take(i), next),
{
    let entry = linking.entries[0];
    resume_link(linking.main_repo, linking.worktree, entry, log, log, at);
    resume_link(linking.main_repo, linking.worktree, entry, log.take(i), log, at);
}

proof fn lemma_rest_true(
    linking: Linking,
    log: Seq<Reply>,
    at: int,
    next: int,
    end: int,
    files: spec_fn(int) -> Files,
)
    requires
        linking.entries.len() > 0,
        0 <= at <= log.len(),
        link_flow(linking.main_repo, linking.worktree, linking.entries[0], log, at)
            == Flow::Done((), next),
        end <= log.len(),
        linking.is_told_truly(log, at, end, files),
    ensures
        linking.rest().is_told_truly(log, next, end, files),
{
    let rest = linking.rest();
    assert forall|i: int| next <= i < end implies match rest.flow(#[trigger] log.take(i), next) {
        Flow::Ask(ActionModel::Exists(path)) => log[i].is_yes() == files(i).there.contains(path),
        Flow::Ask(ActionModel::IsSymlink(path)) => log[i].is_yes() == files(i).links.contains(path),
        _ => true,
    } by {
        lemma_rest_asks(linking, log, at, next, i);
        assert(linking.flow(log.take(i), at) == rest.flow(log.take(i), next));
    }
}

proof fn lemma_rest_carried_out(
    linking: Linking,
    log: Seq<Reply>,
    at: int,
    next: int,
    end: int,
    files: spec_fn(int) -> Files,
)
    requires
        linking.entries.len() > 0,
        0 <= at <= log.len(),
        link_flow(linking.main_repo, linking.worktree, linking.entries[0], log, at)
            == Flow::Done((), next),
        end <= log.len(),
        linking.is_carried_out(log, at, end, files),
    ensures
        linking.rest().is_carried_out(log, next, end, files),
{
    let rest = linking.rest();
    assert forall|i: int| next <= i < end implies match rest.flow(#[trigger] log.take(i), next) {
        Flow::Ask(ActionModel::CreateDirs(_)) => log[i].failure_of() is None,
        Flow::Ask(ActionModel::Symlink { link, .. }) => log[i].failure_of() is None && files(
            i + 1,
        ).links.contains(link),
        _ => true,
    } by {
        lemma_rest_asks(linking, log, at, next, i);
        assert(linking.flow(log.take(i), at) == rest.flow(log.take(i), next));
    }
}

/// The first link is not made where there is nothing left to link.
proof fn lemma_settled_link(
    linking: Linking,
    log: Seq<Reply>,
    at: int,
    files: spec_fn(int) -> Files,
)
    requires
        linking.entries.len() > 0,
        0 <= at <= log.len(),
        linking.is_told_truly(log, at, log.len() as int, files),
        linking.is_left_alone(at, files),
        linking.is_settled(files(at)),
    ensures
        link_flow(
            linking.main_repo,
            linking.worktree,
            linking.entries[0],
            log,
            at,
        ) matches Flow::Ask(action) ==> only_looks(action),
{
    let source = linking.source(0);
    let place = linking.place(0);
    assert(!files(at).there.contains(source) || files(at).is_taken(place));
    if at < log.len() {
        assert(awaits(linking.flow(log.take(at), at), ActionModel::Exists(source)));
        if log[at].is_yes() && at + 2 < log.len() {
            assert(log.take(at + 1)[at] == log[at]);
            assert(awaits(linking.flow(log.take(at + 1), at), ActionModel::Exists(place)));
            if !log[at + 1].is_yes() {
                assert(log.take(at + 2)[at] == log[at]);
                assert(log.take(at + 2)[at + 1] == log[at + 1]);
                assert(awaits(linking.flow(log.take(at + 2), at), ActionModel::IsSymlink(place)));
                assert(files(at).is_taken(place));
                assert(files(at + 1).is_taken(place));
                assert(files(at + 1).links.contains(place));
                assert(files(at + 2).links.contains(place));
            }
        }
    }
}

/// Once the first entry had its turn, it is missing or its place is taken.
proof fn lemma_linked(
    linking: Linking,
    log: Seq<Reply>,
    at: int,
    next: int,
    end: int,
    files: spec_fn(int) -> Files,
)
    requires
        linking.entries.len() > 0,
        0 <= at <= log.len(),
        link_flow(linking.main_repo, linking.worktree, linking.entries[0], log, at)
            == Flow::Done((), next),
        next <= end <= log.len(),
        linking.is_told_truly(log, at, end, files),
        linking.is_carried_out(log, at, end, files),
        linking.is_left_alone(at, files),
    ensures
        !files(end).there.contains(linking.source(0)) || files(end).is_taken(linking.place(0)),
{
    let source = linking.source(0);
    let place = linking.place(0);
    let entry = linking.entries[0];
    resume_link(linking.main_repo, linking.worktree, entry, log, log, at);
    assert(awaits(linking.flow(log.take(at), at), ActionModel::Exists(source)));
    assert(files(at).there.contains(source) == files(end).there.contains(source));
    if log[at].is_yes() {
        assert(log.take(at + 1)[at] == log[at]);
        assert(awaits(linking.flow(log.take(at + 1), at), ActionModel::Exists(place)));
        if log[at + 1].is_yes() {
            assert(files(at + 1).is_taken(place));
        } else {
            let second = log.take(at + 2);
            assert(second[at] == log[at] && second[at + 1] == log[at + 1]);
            assert(awaits(linking.flow(second, at), ActionModel::IsSymlink(place)));
            if log[at + 2].is_yes() {
                assert(files(at + 2).is_taken(place));
            } else {
                let third = log.take(at + 3);
                assert(third[at] == log[at] && third[at + 1] == log[at + 1] && third[at + 2]
                    == log[at + 2]);
                let link = ActionModel::Symlink { source, link: place };
                if parent_of(place) is None {
                    assert(awaits(linking.flow(third, at), link));
                    assert(files(at + 4).is_taken(place));
                } else {
                    let dir = ActionModel::CreateDirs(parent_of(place)->0);
                    assert(awaits(linking.flow(third, at), dir));
                    let fourth = log.take(at + 4);
                    assert(fourth[at] == log[at] && fourth[at + 1] == log[at + 1] && fourth[at + 2]
                        == log[at + 2] && fourth[at + 3] == log[at + 3]);
                    assert(awaits(linking.flow(fourth, at), link));
                    assert(files(at + 5).is_taken(place));
                }
            }
        }
    }
}

/// When all entries had their turn, there is nothing left to link.
proof fn lemma_all_linked(
    linking: Linking,
    log: Seq<Reply>,
    at: int,
    end: int,
    files: spec_fn(int) -> Files,
)
    requires
        0 <= at <= log.len(),
        linking.flow(log, at) == Flow::Done((), end),
        linking.is_told_truly(log, at, end, files),
        linking.is_carried_out(log, at, end, files),
        linking.is_left_alone(at, files),
    ensures
        at <= end <= log.len(),
        linking.is_settled(files(end)),
    decreases linking.entries.len(),
{
    resume_links(linking.main_repo, linking.worktree, linking.entries, log, log, at);
    if linking.entries.len() > 0 {
        let rest = linking.rest();
        let entry = linking.entries[0];
        let next = link_flow(linking.main_repo, linking.worktree, entry, log, at)->1;
        resume_link(linking.main_repo, linking.worktree, entry, log, log, at);
        lemma_rest_true(linking, log, at, next, end, files);
        lemma_rest_carried_out(linking, log, at, next, end, files);
        lemma_rest_alone(linking, at, next, files);
        lemma_all_linked(rest, log, next, end, files);
        lemma_linked(linking, log, at, next, end, files);
        assert forall|k: int| 0 <= k < linking.entries.len() implies !files(end).there.contains(
            #[trigger] linking.source(k),
        ) || files(end).is_taken(linking.place(k)) by {
            if k > 0 {
                assert(rest.source(k - 1) == linking.source(k));
                assert(rest.place(k - 1) == linking.place(k));
            }
        }
    }
}

/// Making the same links a second time changes nothing. If everything that the
/// first call was to make was made, and no entry of the main repository has
/// appeared or vanished and no link was taken away meanwhile, the second call
/// creates no directory and no link: it looks, and reports what it passes over.
pub proof fn law_links_made_once(
    linking: Linking,
    log: Seq<Reply>,
    at: int,
    again: int,
    files: spec_fn(int) -> Files,
)
    requires
        0 <= at <= log.len(),
        linking.flow(log, at) == Flow::Done((), again),
        linking.is_told_truly(log, at, again, files),
        linking.is_carried_out(log, at, again, files),
        linking.is_told_truly(log, again, log.len() as int, files),
        linking.is_left_alone(at, files),
    ensures
        linking.flow(log, again) matches Flow::Ask(action) ==> only_looks(action),
{
    lemma_all_linked(linking, log, at, again, files);
    assert(linking.is_left_alone(again, files));
    law_settled_links_untouched(linking, log, again, files);
}

/// Whether a procedure has seen to the link of an entry, from the reply `at` on: it
/// has looked for the source, and where that was found and its place was free, it
/// has asked for the link, once the directory for it could be created.
pub open spec fn entry_seen<M>(
    flow: spec_fn(Seq<Reply>) -> Flow<M>,
    log: Seq<Reply>,
    at: int,
    source: Seq<char>,
    place: Seq<char>,
) -> bool {
    exists|i: int|
        at <= i && #[trigger] asked(flow, log, i, ActionModel::Exists(source)) && (
        log[i].is_yes() ==> place_seen(flow, log, i + 1, source, place))
}

/// Whether a procedure had asked for an action when it had read `i` replies, and
/// has read the reply to it.
pub open spec fn asked<M>(
    flow: spec_fn(Seq<Reply>) -> Flow<M>,
    log: Seq<Reply>,
    i: int,
    action: ActionModel,
) -> bool {
    0 <= i < log.len() && awaits(flow(log.take(i)), action)
}

/// The part of `entry_seen` that looks at the place of the link.
pub open spec fn place_seen<M>(
    flow: spec_fn(Seq<Reply>) -> Flow<M>,
    log: Seq<Reply>,
    i: int,
    source: Seq<char>,
    place: Seq<char>,
) -> bool {
    let link = ActionModel::Symlink { source, link: place };
    &&& asked(flow, log, i, ActionModel::Exists(place))
    &&& !log[i].is_yes() ==> asked(flow, log, i + 1, ActionModel::IsSymlink(place))
    &&& !log[i].is_yes() && !log[i + 1].is_yes() ==> match parent_of(place) {
        None => asked(flow, log, i + 2, link),
        Some(dir) => {
            &&& asked(flow, log, i + 2, ActionModel::CreateDirs(dir))
            &&& log[i + 2].failure_of() is None ==> asked(flow, log, i + 3, link)
        },
    }
}

/// Where one procedure waits for what another one waits for, from some reply on, it
/// has seen to the entries that the other one has seen to.
pub proof fn law_entry_seen_outside<M, N>(
    inner: spec_fn(Seq<Reply>) -> Flow<M>,
    outer: spec_fn(Seq<Reply>) -> Flow<N>,
    log: Seq<Reply>,
    from: int,
    at: int,
    source: Seq<char>,
    place: Seq<char>,
)
    requires
        0 <= at <= from,
        entry_seen(inner, log, from, source, place),
        forall|i: int|
            from <= i < log.len() ==> (inner(#[trigger] log.take(i)) matches Flow::Ask(action)
                ==> awaits(outer(log.take(i)), action)),
    ensures
        entry_seen(outer, log, at, source, place),
{
    let i = choose|i: int|
        from <= i && #[trigger] asked(inner, log, i, ActionModel::Exists(source)) && (
        log[i].is_yes() ==> place_seen(inner, log, i + 1, source, place));
    assert(log.take(i) == log.take(i));
    assert(asked(outer, log, i, ActionModel::Exists(source)));
    if log[i].is_yes() {
        assert(awaits(inner(log.take(i + 1)), ActionModel::Exists(place)));
        if !log[i + 1].is_yes() {
            assert(awaits(inner(log.take(i + 2)), ActionModel::IsSymlink(place)));
            if !log[i + 2].is_yes() {
                assert(inner(log.take(i + 3)) is Ask);
                if parent_of(place) is Some && log[i + 3].failure_of() is None {
                    assert(inner(log.take(i + 4)) is Ask);
                }
            }
        }
        assert(place_seen(outer, log, i + 1, source, place));
    }
}

/// Linking entries leaves none of them out.
pub proof fn law_links_complete(linking: Linking, log: Seq<Reply>, at: int)
    requires
        0 <= at <= log.len(),
        linking.flow(log, at) is Done,
    ensures
        forall|j: int|
            0 <= j < linking.entries.len() ==> entry_seen(
                |l: Seq<Reply>| linking.flow(l, at),
                log,
                at,
                #[trigger] linking.source(j),
                linking.place(j),
            ),
    decreases linking.entries.len(),
{
    if linking.entries.len() > 0 {
        let outer = |l: Seq<Reply>| linking.flow(l, at);
        let entry = linking.entries[0];
        let rest = linking.rest();
        let next = link_flow(linking.main_repo, linking.worktree, entry, log, at)->1;
        resume_link(linking.main_repo, linking.worktree, entry, log, log, at);
        lemma_first_seen(linking, log, at);
        let inner = |l: Seq<Reply>| rest.flow(l, next);
        law_links_complete(rest, log, next);
        assert forall|i: int| next <= i < log.len() implies (inner(
            #[trigger] log.take(i),
        ) matches Flow::Ask(action) ==> awaits(outer(log.take(i)), action)) by {
            lemma_rest_asks(linking, log, at, next, i);
        }
        assert forall|j: int| 0 <= j < linking.entries.len() implies entry_seen(
            outer,
            log,
            at,
            #[trigger] linking.source(j),
            linking.place(j),
        ) by {
            if j > 0 {
                assert(rest.source(j - 1) == linking.source(j));
                assert(rest.place(j - 1) == linking.place(j));
                law_entry_seen_outside(
                    inner,
                    outer,
                    log,
                    next,
                    at,
                    rest.source(j - 1),
                    rest.place(j - 1),
                );
            }
        }
    }
}

/// The first of the entries is seen to at once.
proof fn lemma_first_seen(linking: Linking, log: Seq<Reply>, at: int)
    requires
        0 <= at <= log.len(),
        linking.entries.len() > 0,
        link_flow(linking.main_repo, linking.worktree, linking.entries[0], log, at) is Done,
    ensures
        entry_seen(
            |l: Seq<Reply>| linking.flow(l, at),
            log,
            at,
            linking.source(0),
            linking.place(0),
        ),
{
    let flow = |l: Seq<Reply>| linking.flow(l, at);
    let source = linking.source(0);
    let place = linking.place(0);
    let link = ActionModel::Symlink { source, link: place };
    let entry = linking.entries[0];
    resume_link(linking.main_repo, linking.worktree, entry, log, log, at);
    assert(asked(flow, log, at, ActionModel::Exists(source)));
    if log[at].is_yes() {
        assert(log.take(at + 1)[at] == log[at]);
        assert(asked(flow, log, at + 1, ActionModel::Exists(place)));
        if !log[at + 1].is_yes() {
            let second = log.take(at + 2);
            assert(second[at] == log[at] && second[at + 1] == log[at + 1]);
            assert(asked(flow, log, at + 2, ActionModel::IsSymlink(place)));
            if !log[at + 2].is_yes() {
                let third = log.take(at + 3);
                assert(third[at] == log[at] && third[at + 1] == log[at + 1] && third[at + 2]
                    == log[at + 2]);
                if parent_of(place) is None {
                    assert(asked(flow, log, at + 3, link));
                } else {
                    let dir = ActionModel::CreateDirs(parent_of(place)->0);
                    assert(asked(flow, log, at + 3, dir));
                    if log[at + 3].failure_of() is None {
                        let fourth = log.take(at + 4);
                        assert(fourth[at] == log[at] && fourth[at + 1] == log[at + 1] && fourth[at
                            + 2] == log[at + 2] && fourth[at + 3] == log[at + 3]);
                        assert(asked(flow, log, at + 4, link));
                    }
                }
            }
        }
        assert(place_seen(flow, log, at + 1, source, place));
    }
}

/// A worktree that was created has been given every link that the configuration of
/// its repository asks for, whether its branch is new or not.
pub proof fn law_created_with_links(
    main_repo: Seq<char>,
    branch: Seq<char>,
    base: Seq<char>,
    log: Seq<Reply>,
    at: int,
)
    requires
        0 <= at <= log.len(),
        create_flow(main_repo, branch, base, log, at) matches Flow::Done(Ok(_), _),
    ensures
        at + 4 < log.len(),
        asked(
            |l: Seq<Reply>| create_flow(main_repo, branch, base, l, at),
            log,
            at + 4,
            ActionModel::LoadRepoConfig(joined(main_repo, ".wt.toml"@)),
        ),
        create_flow(main_repo, branch, base, log, at) matches Flow::Done(Ok(path), _) && (
        log[at + 4] matches Reply::Repo(config) ==> forall|j: int|
            0 <= j < config.symlinks@.len() ==> entry_seen(
                |l: Seq<Reply>| create_flow(main_repo, branch, base, l, at),
                log,
                at,
                joined(main_repo, #[trigger] config.symlinks@[j]@),
                joined(path, config.symlinks@[j]@),
            )),
{
    let outer = |l: Seq<Reply>| create_flow(main_repo, branch, base, l, at);
    let path = worktree_path_of(main_repo, branch);
    let ready = log.take(at + 4);
    assert(ready[at] == log[at] && ready[at + 1] == log[at + 1] && ready[at + 2] == log[at + 2]
        && ready[at + 3] == log[at + 3]);
    assert(awaits(outer(ready), ActionModel::LoadRepoConfig(joined(main_repo, ".wt.toml"@))));
    if let Reply::Repo(config) = log[at + 4] {
        let entries = config.symlinks.deep_view();
        let linking = Linking { main_repo, worktree: path, entries };
        let inner = |l: Seq<Reply>| linking.flow(l, at + 5);
        law_links_complete(linking, log, at + 5);
        assert forall|i: int| at + 5 <= i < log.len() implies (inner(
            #[trigger] log.take(i),
        ) matches Flow::Ask(action) ==> awaits(outer(log.take(i)), action)) by {
            let l = log.take(i);
            assert(l[at] == log[at] && l[at + 1] == log[at + 1] && l[at + 2] == log[at + 2] && l[at
                + 3] == log[at + 3] && l[at + 4] == log[at + 4]);
        }
        assert forall|j: int| 0 <= j < config.symlinks@.len() implies entry_seen(
            outer,
            log,
            at,
            joined(main_repo, #[trigger] config.symlinks@[j]@),
            joined(path, config.symlinks@[j]@),
        ) by {
            assert(entries[j] == config.symlinks@[j]@);
            law_entry_seen_outside(
                inner,
                outer,
                log,
                at + 5,
                at,
                linking.source(j),
                linking.place(j),
            );
        }
    }
}

} // verus!
