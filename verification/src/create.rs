//! New worktrees.

use vstd::prelude::*;

use crate::config::{read_config, repo_config_flow};
use crate::flow::{
    awaits, git, git_of, git_status_of, list4, list6, report, report_flow, Action, ActionModel,
    Flow, Model, Progress, Reply,
};
use crate::names::{get_worktrees_dir, worktree_path, worktree_path_of, worktrees_dir_of};
use crate::paths::{join, joined, parent, parent_of};
use crate::repo::{ask_ref, base_flow, fetch_flow, fetch_origin, get_default_base_branch, has_ref};
use crate::text::cat;

verus! {

broadcast use vstd::string::group_string_axioms;

/// Makes one link, once everything is in place for it.
pub open spec fn make_link_flow(
    main_repo: Seq<char>,
    worktree: Seq<char>,
    entry: Seq<char>,
    log: Seq<Reply>,
    at: int,
) -> Flow<()> {
    if at >= log.len() {
        Flow::Ask(
            ActionModel::Symlink {
                source: joined(main_repo, entry),
                link: joined(worktree, entry),
            },
        )
    } else {
        match log[at].failure_of() {
            Some(message) => report_flow(
                "Warning: failed to symlink "@ + entry + ": "@ + message,
                log,
                at + 1,
            ),
            None => Flow::Done((), at + 1),
        }
    }
}

/// Links one entry of the main repository into a worktree. Nothing that is
/// already there is replaced, and nothing that is missing is linked to.
pub open spec fn link_flow(
    main_repo: Seq<char>,
    worktree: Seq<char>,
    entry: Seq<char>,
    log: Seq<Reply>,
    at: int,
) -> Flow<()> {
    let source = joined(main_repo, entry);
    let link = joined(worktree, entry);
    let taken = "Warning: skipping symlink, destination already exists: "@ + entry;
    if at >= log.len() {
        Flow::Ask(ActionModel::Exists(source))
    } else if !log[at].is_yes() {
        report_flow("Warning: symlink source missing in main repo: "@ + entry, log, at + 1)
    } else if at + 1 >= log.len() {
        Flow::Ask(ActionModel::Exists(link))
    } else if log[at + 1].is_yes() {
        report_flow(taken, log, at + 2)
    } else if at + 2 >= log.len() {
        Flow::Ask(ActionModel::IsSymlink(link))
    } else if log[at + 2].is_yes() {
        report_flow(taken, log, at + 3)
    } else {
        match parent_of(link) {
            None => make_link_flow(main_repo, worktree, entry, log, at + 3),
            Some(dir) => if at + 3 >= log.len() {
                Flow::Ask(ActionModel::CreateDirs(dir))
            } else {
                match log[at + 3].failure_of() {
                    Some(message) => report_flow(
                        "Warning: could not create parent for "@ + entry + ": "@ + message,
                        log,
                        at + 4,
                    ),
                    None => make_link_flow(main_repo, worktree, entry, log, at + 4),
                }
            },
        }
    }
}

/// Links the entries one by one. One that fails does not keep the others from
/// being linked.
pub open spec fn links_flow(
    main_repo: Seq<char>,
    worktree: Seq<char>,
    entries: Seq<Seq<char>>,
    log: Seq<Reply>,
    at: int,
) -> Flow<()>
    decreases entries.len(),
{
    if entries.len() == 0 {
        Flow::Done((), at)
    } else {
        match link_flow(main_repo, worktree, entries[0], log, at) {
            Flow::Ask(action) => Flow::Ask(action),
            Flow::Done(_, next) => links_flow(
                main_repo,
                worktree,
                entries.drop_first(),
                log,
                next,
            ),
        }
    }
}

fn make_link(main_repo: &str, worktree: &str, entry: &str, log: &[Reply], at: usize) -> (res:
    Progress<()>)
    ensures
        res.model() == make_link_flow(main_repo@, worktree@, entry@, log@, at as int),
{
    if at >= log.len() {
        let source = join(main_repo, entry);
        let link = join(worktree, entry);
        return Progress::Ask(Action::Symlink { source, link });
    }
    match log[at].failure() {
        Some(message) => {
            let mut line = cat("Warning: failed to symlink ", entry);
            line.append(": ");
            line.append(message.as_str());
            report(line, log, at + 1)
        },
        None => Progress::Done((), at + 1),
    }
}

fn apply_symlink(main_repo: &str, worktree: &str, entry: &str, log: &[Reply], at: usize) -> (res:
    Progress<()>)
    ensures
        res.model() == link_flow(main_repo@, worktree@, entry@, log@, at as int),
{
    let link = join(worktree, entry);
    let taken = cat("Warning: skipping symlink, destination already exists: ", entry);
    if at >= log.len() {
        return Progress::Ask(Action::Exists(join(main_repo, entry)));
    }
    if !log[at].yes() {
        let line = cat("Warning: symlink source missing in main repo: ", entry);
        return report(line, log, at + 1);
    }
    let at: usize = at + 1;
    if at >= log.len() {
        return Progress::Ask(Action::Exists(link));
    }
    if log[at].yes() {
        return report(taken, log, at + 1);
    }
    let at: usize = at + 1;
    if at >= log.len() {
        return Progress::Ask(Action::IsSymlink(link));
    }
    if log[at].yes() {
        return report(taken, log, at + 1);
    }
    let mut at: usize = at + 1;
    match parent(link.as_str()) {
        Some(dir) => {
            if at >= log.len() {
                return Progress::Ask(Action::CreateDirs(dir));
            }
            match log[at].failure() {
                Some(message) => {
                    let mut line = cat("Warning: could not create parent for ", entry);
                    line.append(": ");
                    line.append(message.as_str());
                    return report(line, log, at + 1);
                },
                None => {},
            }
            at += 1;
        },
        None => {},
    }
    make_link(main_repo, worktree, entry, log, at)
}

pub fn apply_symlinks(
    main_repo: &str,
    worktree: &str,
    entries: &Vec<String>,
    log: &[Reply],
    at: usize,
) -> (res: Progress<()>)
    ensures
        res.model() == links_flow(main_repo@, worktree@, entries.deep_view(), log@, at as int),
{
    let ghost all = entries.deep_view();
    let ghost whole = links_flow(main_repo@, worktree@, all, log@, at as int);
    let mut next: usize = at;
    let mut i: usize = 0;
    proof {
        assert(all.skip(0) == all);
    }
    while i < entries.len()
        invariant
            all == entries.deep_view(),
            i <= entries@.len(),
            whole == links_flow(main_repo@, worktree@, all, log@, at as int),
            whole == links_flow(main_repo@, worktree@, all.skip(i as int), log@, next as int),
        decreases entries@.len() - i,
    {
        proof {
            assert(all.skip(i as int)[0] == entries@[i as int]@);
            assert(all.skip(i as int).drop_first() == all.skip(i + 1));
        }
        match apply_symlink(main_repo, worktree, entries[i].as_str(), log, next) {
            Progress::Ask(action) => return Progress::Ask(action),
            Progress::Done(_, end) => {
                next = end;
            },
        }
        i += 1;
    }
    Progress::Done((), next)
}

/// The command that adds a worktree: for a branch that exists, or for one that
/// is created from `base`.
pub open spec fn add_worktree(
    main_repo: Seq<char>,
    branch: Seq<char>,
    base: Seq<char>,
    exists: bool,
) -> ActionModel {
    let path = worktree_path_of(main_repo, branch);
    if exists {
        git_of(seq!["worktree"@, "add"@, path, branch], Some(main_repo))
    } else {
        git_of(seq!["worktree"@, "add"@, "-b"@, branch, path, base], Some(main_repo))
    }
}

/// Creates the worktree of a branch, and the branch itself from `base` where it
/// does not exist. The result is the directory of the worktree.
pub open spec fn create_flow(
    main_repo: Seq<char>,
    branch: Seq<char>,
    base: Seq<char>,
    log: Seq<Reply>,
    at: int,
) -> Flow<Result<Seq<char>, Seq<char>>> {
    let path = worktree_path_of(main_repo, branch);
    if at >= log.len() {
        Flow::Ask(ActionModel::Exists(path))
    } else if log[at].is_yes() {
        Flow::Done(Err("Directory already exists: "@ + path), at + 1)
    } else if at + 1 >= log.len() {
        Flow::Ask(ActionModel::CreateDirs(worktrees_dir_of(main_repo)))
    } else if log[at + 1].failure_of() is Some {
        Flow::Done(
            Err("Failed to create worktrees directory: "@ + log[at + 1].failure_of()->0),
            at + 2,
        )
    } else if at + 2 >= log.len() {
        Flow::Ask(has_ref(main_repo, "refs/heads/"@ + branch))
    } else if at + 3 >= log.len() {
        Flow::Ask(add_worktree(main_repo, branch, base, log[at + 2].is_yes()))
    } else {
        match log[at + 3].trouble_of("Failed to run git: "@, "Failed to create worktree:\n"@) {
            Some(message) => Flow::Done(Err(message), at + 4),
            None => match repo_config_flow(main_repo, log, at + 4) {
                Flow::Ask(action) => Flow::Ask(action),
                Flow::Done(entries, next) => match links_flow(
                    main_repo,
                    path,
                    entries,
                    log,
                    next,
                ) {
                    Flow::Ask(action) => Flow::Ask(action),
                    Flow::Done(_, end) => Flow::Done(Ok(path), end),
                },
            },
        }
    }
}

pub fn create_worktree(main_repo: &str, branch: &str, base: &str, log: &[Reply], at: usize) -> (res:
    Progress<Result<String, String>>)
    ensures
        res.model() == create_flow(main_repo@, branch@, base@, log@, at as int),
{
    let path = worktree_path(main_repo, branch);
    if at >= log.len() {
        return Progress::Ask(Action::Exists(path));
    }
    if log[at].yes() {
        return Progress::Done(Err(cat("Directory already exists: ", path.as_str())), at + 1);
    }
    let at: usize = at + 1;
    if at >= log.len() {
        return Progress::Ask(Action::CreateDirs(get_worktrees_dir(main_repo)));
    }
    match log[at].failure() {
        Some(message) => {
            let line = cat("Failed to create worktrees directory: ", message.as_str());
            return Progress::Done(Err(line), at + 1);
        },
        None => {},
    }
    let at: usize = at + 1;
    if at >= log.len() {
        return Progress::Ask(ask_ref(main_repo, cat("refs/heads/", branch).as_str()));
    }
    let branch_exists = log[at].yes();
    let at: usize = at + 1;
    if at >= log.len() {
        let args = if branch_exists {
            list4("worktree", "add", path.as_str(), branch)
        } else {
            list6("worktree", "add", "-b", branch, path.as_str(), base)
        };
        return Progress::Ask(git(args, Some(main_repo)));
    }
    match log[at].trouble("Failed to run git: ", "Failed to create worktree:\n") {
        Some(message) => return Progress::Done(Err(message), at + 1),
        None => {},
    }
    let (config, at) = match read_config(main_repo, log, at + 1) {
        Progress::Ask(action) => return Progress::Ask(action),
        Progress::Done(config, at) => (config, at),
    };
    match apply_symlinks(main_repo, path.as_str(), &config.symlinks, log, at) {
        Progress::Ask(action) => Progress::Ask(action),
        Progress::Done(_, at) => Progress::Done(Ok(path), at),
    }
}

/// Fetches, then tells what new branches start from: the branch that was asked
/// for, else the default one. A fetch that fails is reported and passed over.
pub open spec fn resolve_base_flow(
    main_repo: Seq<char>,
    wanted: Option<Seq<char>>,
    log: Seq<Reply>,
    at: int,
) -> Flow<Seq<char>> {
    match fetch_flow(main_repo, log, at) {
        Flow::Ask(action) => Flow::Ask(action),
        Flow::Done(Ok(_), next) => chosen_base_flow(main_repo, wanted, log, next),
        Flow::Done(Err(message), next) => match report_flow("Warning: "@ + message, log, next) {
            Flow::Ask(action) => Flow::Ask(action),
            Flow::Done(_, end) => chosen_base_flow(main_repo, wanted, log, end),
        },
    }
}

/// The branch that was asked for, else the default one.
pub open spec fn chosen_base_flow(
    main_repo: Seq<char>,
    wanted: Option<Seq<char>>,
    log: Seq<Reply>,
    at: int,
) -> Flow<Seq<char>> {
    match wanted {
        Some(base) => Flow::Done(base, at),
        None => base_flow(main_repo, log, at),
    }
}

pub fn resolve_base(main_repo: &str, wanted: Option<&str>, log: &[Reply], at: usize) -> (res:
    Progress<String>)
    ensures
        res.model() == resolve_base_flow(main_repo@, wanted.deep_view(), log@, at as int),
{
    let at: usize = match fetch_origin(main_repo, log, at) {
        Progress::Ask(action) => return Progress::Ask(action),
        Progress::Done(Ok(_), at) => at,
        Progress::Done(Err(message), at) => match report(
            cat("Warning: ", message.as_str()),
            log,
            at,
        ) {
            Progress::Ask(action) => return Progress::Ask(action),
            Progress::Done(_, at) => at,
        },
    };
    match wanted {
        Some(base) => Progress::Done(base.to_owned(), at),
        None => get_default_base_branch(main_repo, log, at),
    }
}

/// No git command is run for a new worktree whose directory exists already. Where
/// one is run, it adds the worktree of the branch: from `base` if and only if the
/// branch was not found.
pub proof fn law_create_only_where_free(
    main_repo: Seq<char>,
    branch: Seq<char>,
    base: Seq<char>,
    log: Seq<Reply>,
    at: int,
)
    requires
        0 <= at <= log.len(),
        create_flow(main_repo, branch, base, log, at) matches Flow::Ask(action) && action is Run,
    ensures
        at + 2 <= log.len(),
        !log[at].is_yes(),
        create_flow(main_repo, branch, base, log, at) matches Flow::Ask(action) && {
            ||| log.len() == at + 2 && action == has_ref(main_repo, "refs/heads/"@ + branch)
            ||| log.len() == at + 3 && action == add_worktree(
                main_repo,
                branch,
                base,
                log[at + 2].is_yes(),
            )
        },
{
    if at + 4 <= log.len() {
        if let Flow::Done(entries, next) = repo_config_flow(main_repo, log, at + 4) {
            let path = worktree_path_of(main_repo, branch);
            lemma_links_run_nothing(main_repo, path, entries, log, next);
        }
    }
}

proof fn lemma_links_run_nothing(
    main_repo: Seq<char>,
    worktree: Seq<char>,
    entries: Seq<Seq<char>>,
    log: Seq<Reply>,
    at: int,
)
    ensures
        links_flow(main_repo, worktree, entries, log, at) matches Flow::Ask(action) ==> !(
        action is Run),
    decreases entries.len(),
{
    if entries.len() > 0 {
        if let Flow::Done(_, next) = link_flow(main_repo, worktree, entries[0], log, at) {
            lemma_links_run_nothing(main_repo, worktree, entries.drop_first(), log, next);
        }
    }
}

/// Whether a link may be made for an entry: its source was found, and nothing
/// was found in its place, not even a link to nowhere.
pub open spec fn may_link(log: Seq<Reply>, at: int) -> bool {
    at + 3 <= log.len() && log[at].is_yes() && !log[at + 1].is_yes() && !log[at + 2].is_yes()
}

/// Every link is made from an entry of the main repository to the same entry of
/// the worktree, where its source was found and its place was free.
pub proof fn law_links_replace_nothing(
    main_repo: Seq<char>,
    worktree: Seq<char>,
    entries: Seq<Seq<char>>,
    log: Seq<Reply>,
    at: int,
    source: Seq<char>,
    link: Seq<char>,
)
    requires
        0 <= at <= log.len(),
        links_flow(main_repo, worktree, entries, log, at) == Flow::<()>::Ask(
            ActionModel::Symlink { source, link },
        ),
    ensures
        exists|i: int, start: int|
            {
                &&& 0 <= i < entries.len()
                &&& at <= start
                &&& #[trigger] link_flow(main_repo, worktree, entries[i], log, start)
                    == links_flow(main_repo, worktree, entries, log, at)
                &&& source == joined(main_repo, entries[i])
                &&& link == joined(worktree, entries[i])
                &&& may_link(log, start)
            },
    decreases entries.len(),
{
    match link_flow(main_repo, worktree, entries[0], log, at) {
        Flow::Ask(_) => {
            assert(link_flow(main_repo, worktree, entries[0], log, at) == links_flow(
                main_repo,
                worktree,
                entries,
                log,
                at,
            ));
        },
        Flow::Done(_, next) => {
            let rest = entries.drop_first();
            law_links_replace_nothing(main_repo, worktree, rest, log, next, source, link);
            let (i, start) = choose|i: int, start: int|
                {
                    &&& 0 <= i < rest.len()
                    &&& next <= start
                    &&& #[trigger] link_flow(main_repo, worktree, rest[i], log, start)
                        == links_flow(main_repo, worktree, rest, log, next)
                    &&& source == joined(main_repo, rest[i])
                    &&& link == joined(worktree, rest[i])
                    &&& may_link(log, start)
                };
            assert(rest[i] == entries[i + 1]);
            assert(link_flow(main_repo, worktree, entries[i + 1], log, start) == links_flow(
                main_repo,
                worktree,
                entries,
                log,
                at,
            ));
        },
    }
}

/// How one entry is linked, step by step: its source is looked for, then its place
/// is looked at, then the directory of its place is created, then the link is made.
/// What keeps it from being linked is reported.
pub proof fn law_link_steps(
    main_repo: Seq<char>,
    worktree: Seq<char>,
    entry: Seq<char>,
    log: Seq<Reply>,
    at: int,
)
    requires
        0 <= at <= log.len(),
    ensures
        ({
            let flow = link_flow(main_repo, worktree, entry, log, at);
            let n = log.len();
            let source = joined(main_repo, entry);
            let place = joined(worktree, entry);
            let there = log[at].is_yes();
            let taken = log[at + 1].is_yes();
            let linked = log[at + 2].is_yes();
            let parent = parent_of(place);
            let blocked = parent is Some && log[at + 3].failure_of() is Some;
            // Where the reply to the link stands.
            let last = if parent is Some {
                at + 4
            } else {
                at + 3
            };
            let skipped = ActionModel::Report(
                "Warning: skipping symlink, destination already exists: "@ + entry,
            );
            &&& n == at ==> awaits(flow, ActionModel::Exists(source))
            &&& n == at + 1 && !there ==> awaits(
                flow,
                ActionModel::Report("Warning: symlink source missing in main repo: "@ + entry),
            )
            &&& n > at + 1 && !there ==> flow == Flow::Done((), at + 2)
            &&& n == at + 1 && there ==> awaits(flow, ActionModel::Exists(place))
            &&& n == at + 2 && there && taken ==> awaits(flow, skipped)
            &&& n > at + 2 && there && taken ==> flow == Flow::Done((), at + 3)
            &&& n == at + 2 && there && !taken ==> awaits(flow, ActionModel::IsSymlink(place))
            &&& n == at + 3 && there && !taken && linked ==> awaits(flow, skipped)
            &&& n > at + 3 && there && !taken && linked ==> flow == Flow::Done((), at + 4)
            &&& n > at + 2 && there && !taken && !linked ==> {
                &&& n == at + 3 && parent is Some ==> awaits(
                    flow,
                    ActionModel::CreateDirs(parent->0),
                )
                &&& n == at + 4 && blocked ==> awaits(
                    flow,
                    ActionModel::Report(
                        "Warning: could not create parent for "@ + entry + ": "@ + log[at
                            + 3].failure_of()->0,
                    ),
                )
                &&& n > at + 4 && blocked ==> flow == Flow::Done((), at + 5)
                &&& n == last && !blocked ==> awaits(
                    flow,
                    ActionModel::Symlink { source, link: place },
                )
                &&& n > last && !blocked && log[last].failure_of() is None ==> flow == Flow::Done(
                    (),
                    last + 1,
                )
                &&& n == last + 1 && !blocked && log[last].failure_of() is Some ==> awaits(
                    flow,
                    ActionModel::Report(
                        "Warning: failed to symlink "@ + entry + ": "@
                            + log[last].failure_of()->0,
                    ),
                )
                &&& n > last + 1 && !blocked && log[last].failure_of() is Some ==> flow
                    == Flow::Done((), last + 2)
            }
        }),
{
}

/// How a worktree is created: its place is looked at, the directory of the worktrees
/// is created, the branch is looked for, and git adds the worktree, with a new branch
/// from the base if there was none. Then it gets the links that the configuration of
/// the repository asks for.
pub proof fn law_create_steps(
    main_repo: Seq<char>,
    branch: Seq<char>,
    base: Seq<char>,
    log: Seq<Reply>,
    at: int,
)
    requires
        0 <= at <= log.len(),
    ensures
        ({
            let flow = create_flow(main_repo, branch, base, log, at);
            let n = log.len();
            let path = worktree_path_of(main_repo, branch);
            let free = !log[at].is_yes();
            let ready = free && log[at + 1].failure_of() is None;
            &&& n == at ==> awaits(flow, ActionModel::Exists(path))
            &&& n > at && !free ==> flow == Flow::Done(
                Err::<Seq<char>, _>("Directory already exists: "@ + path),
                at + 1,
            )
            &&& n == at + 1 && free ==> awaits(
                flow,
                ActionModel::CreateDirs(worktrees_dir_of(main_repo)),
            )
            &&& n > at + 1 && free && !ready ==> flow == Flow::Done(
                Err::<Seq<char>, _>(
                    "Failed to create worktrees directory: "@ + log[at + 1].failure_of()->0,
                ),
                at + 2,
            )
            &&& n == at + 2 && ready ==> awaits(
                flow,
                git_status_of(
                    seq!["show-ref"@, "--verify"@, "--quiet"@, "refs/heads/"@ + branch],
                    main_repo,
                ),
            )
            &&& n == at + 3 && ready && log[at + 2].is_yes() ==> awaits(
                flow,
                git_of(seq!["worktree"@, "add"@, path, branch], Some(main_repo)),
            )
            &&& n == at + 3 && ready && !log[at + 2].is_yes() ==> awaits(
                flow,
                git_of(seq!["worktree"@, "add"@, "-b"@, branch, path, base], Some(main_repo)),
            )
            &&& n > at + 3 && ready && !log[at + 3].is_yes() ==> flow == Flow::Done(
                Err::<Seq<char>, _>(
                    log[at + 3].trouble_of(
                        "Failed to run git: "@,
                        "Failed to create worktree:\n"@,
                    )->0,
                ),
                at + 4,
            )
            &&& n == at + 4 && ready && log[at + 3].is_yes() ==> awaits(
                flow,
                ActionModel::LoadRepoConfig(joined(main_repo, ".wt.toml"@)),
            )
            &&& flow matches Flow::Done(Ok(made), _) ==> made == path && n > at + 4 && ready
                && log[at + 3].is_yes()
            &&& n > at + 4 && ready && log[at + 3].is_yes() ==> match repo_config_flow(
                main_repo,
                log,
                at + 4,
            ) {
                Flow::Ask(action) => awaits(flow, action),
                Flow::Done(entries, next) => match links_flow(
                    main_repo,
                    path,
                    entries,
                    log,
                    next,
                ) {
                    Flow::Ask(action) => awaits(flow, action),
                    Flow::Done(_, end) => flow == Flow::Done(Ok::<_, Seq<char>>(path), end),
                },
            }
        }),
{
}

/// How the base of a new branch is found: the remote repository is fetched first,
/// whatever comes of it, and a base that was asked for is taken as it is.
pub proof fn law_base_steps(
    main_repo: Seq<char>,
    wanted: Option<Seq<char>>,
    log: Seq<Reply>,
    at: int,
)
    requires
        0 <= at <= log.len(),
    ensures
        ({
            let flow = resolve_base_flow(main_repo, wanted, log, at);
            let n = log.len();
            let fetched = log[at + 1].is_yes();
            let next = if fetched {
                at + 2
            } else {
                at + 3
            };
            &&& n == at ==> awaits(flow, ActionModel::Report("Fetching origin..."@))
            &&& n == at + 1 ==> awaits(flow, git_of(seq!["fetch"@, "origin"@], Some(main_repo)))
            &&& n == at + 2 && !fetched ==> awaits(
                flow,
                ActionModel::Report(
                    "Warning: "@ + log[at + 1].trouble_of(
                        "Failed to run git: "@,
                        "Failed to fetch origin:\n"@,
                    )->0,
                ),
            )
            &&& n >= next && n > at + 1 ==> match wanted {
                Some(base) => flow == Flow::Done(base, next),
                None => flow == base_flow(main_repo, log, next),
            }
        }),
{
}

/// Linking two lists of entries is linking the one and then the other. One entry is
/// linked as it is linked alone, and no entries take no steps.
pub proof fn law_links_in_turn(
    main_repo: Seq<char>,
    worktree: Seq<char>,
    first: Seq<Seq<char>>,
    second: Seq<Seq<char>>,
    entry: Seq<char>,
    log: Seq<Reply>,
    at: int,
)
    ensures
        links_flow(main_repo, worktree, first + second, log, at) == (match links_flow(
            main_repo,
            worktree,
            first,
            log,
            at,
        ) {
            Flow::Ask(action) => Flow::Ask(action),
            Flow::Done(_, next) => links_flow(main_repo, worktree, second, log, next),
        }),
        links_flow(main_repo, worktree, seq![entry], log, at) == link_flow(
            main_repo,
            worktree,
            entry,
            log,
            at,
        ),
        links_flow(main_repo, worktree, seq![], log, at) == Flow::Done((), at),
    decreases first.len(),
{
    let whole = first + second;
    if first.len() == 0 {
        assert(whole == second);
    } else {
        assert(whole.drop_first() == first.drop_first() + second);
        if let Flow::Done(_, next) = link_flow(main_repo, worktree, first[0], log, at) {
            law_links_in_turn(
                main_repo,
                worktree,
                first.drop_first(),
                second,
                entry,
                log,
                next,
            );
        }
    }
    assert(seq![entry].drop_first() == Seq::<Seq<char>>::empty());
    reveal_with_fuel(links_flow, 2);
}

} // verus!
