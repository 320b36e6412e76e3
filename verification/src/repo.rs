//! What git tells of a repository and its worktrees.

use vstd::prelude::*;

use crate::flow::{
    awaits, git, git_of, git_status, git_status_of, list2, list3, list4, Action, ActionModel, Flow,
    Model, Progress, Reply,
};
use crate::names::{get_worktrees_dir, worktrees_dir_of};
use crate::paths::{is_under, starts_with};
use crate::text::{
    after_prefix, blocks, blocks_of, is_gapless, is_space, law_first_block, law_first_line,
    law_last_line, law_trim_end_concat, law_trim_end_start, law_trim_end_twice, lines, lines_of,
    lossy_text, strip_prefix, trim, trimmed, trimmed_end, without_return,
};

verus! {

broadcast use vstd::string::group_string_axioms;

/// A worktree next to its repository, and the branch that is checked out in it.
#[derive(Debug, PartialEq, Eq)]
pub struct Worktree {
    pub branch: String,
    pub path: String,
}

/// A `Worktree` with its texts as sequences.
#[verifier::ext_equal]
pub struct WorktreeModel {
    pub branch: Seq<char>,
    pub path: Seq<char>,
}

impl Model for Worktree {
    type M = WorktreeModel;

    open spec fn model(&self) -> WorktreeModel {
        WorktreeModel { branch: self.branch@, path: self.path@ }
    }
}

impl Model for Vec<Worktree> {
    type M = Seq<WorktreeModel>;

    open spec fn model(&self) -> Seq<WorktreeModel> {
        Seq::new(self@.len(), |i: int| self@[i].model())
    }
}

/// What follows `prefix` in the first of the lines that start with it.
pub open spec fn first_with(lines: Seq<Seq<char>>, prefix: Seq<char>) -> Option<Seq<char>>
    decreases lines.len(),
{
    if lines.len() == 0 {
        None
    } else {
        match after_prefix(lines[0], prefix) {
            Some(rest) => Some(rest),
            None => first_with(lines.drop_first(), prefix),
        }
    }
}

/// What follows `prefix` in the last of the lines that start with it.
pub open spec fn last_with(lines: Seq<Seq<char>>, prefix: Seq<char>) -> Option<Seq<char>>
    decreases lines.len(),
{
    if lines.len() == 0 {
        None
    } else {
        match after_prefix(lines.last(), prefix) {
            Some(rest) => Some(rest),
            None => last_with(lines.drop_last(), prefix),
        }
    }
}

/// The main repository that a listing of worktrees starts with.
pub fn listed_main_repo(listing: &str) -> (res: Option<String>)
    ensures
        res.deep_view() == first_with(lines_of(listing@), "worktree "@),
{
    let lines = lines(listing);
    let ghost all = lines.deep_view();
    let mut i: usize = 0;
    proof {
        assert(all.skip(0) == all);
    }
    while i < lines.len()
        invariant
            all == lines.deep_view(),
            all == lines_of(listing@),
            i <= lines@.len(),
            first_with(all, "worktree "@) == first_with(all.skip(i as int), "worktree "@),
        decreases lines@.len() - i,
    {
        proof {
            assert(all.skip(i as int)[0] == lines@[i as int]@);
            assert(all.skip(i as int).drop_first() == all.skip(i + 1));
        }
        match strip_prefix(lines[i].as_str(), "worktree ") {
            Some(path) => return Some(path),
            None => {},
        }
        i += 1;
    }
    None
}

/// The question for all worktrees of the repository that a directory belongs to.
pub open spec fn worktree_listing(dir: Option<Seq<char>>) -> ActionModel {
    git_of(seq!["worktree"@, "list"@, "--porcelain"@], dir)
}

/// The directory of the main repository that this process runs in or under.
pub open spec fn main_repo_flow(log: Seq<Reply>, at: int) -> Flow<Result<Seq<char>, Seq<char>>> {
    if at >= log.len() {
        Flow::Ask(worktree_listing(None))
    } else {
        Flow::Done(main_repo_told(log[at]), at + 1)
    }
}

/// The main repository that a listing of worktrees tells of, or why it does not.
pub open spec fn main_repo_told(listing: Reply) -> Result<Seq<char>, Seq<char>> {
    match listing.trouble_of("Failed to run git: "@, ""@) {
        Some(message) => if message.len() == 0 {
            Err("Not in a git repository"@)
        } else {
            Err(message)
        },
        None => match first_with(lines_of(lossy_text(listing.stdout_of())), "worktree "@) {
            Some(path) => Ok(path),
            None => Err("Could not determine main repo root"@),
        },
    }
}

pub fn get_main_repo_root(log: &[Reply], at: usize) -> (res: Progress<Result<String, String>>)
    ensures
        res.model() == main_repo_flow(log@, at as int),
{
    if at >= log.len() {
        return Progress::Ask(git(list3("worktree", "list", "--porcelain"), None));
    }
    match log[at].trouble("Failed to run git: ", "") {
        Some(message) => {
            let message = if message.as_str().is_empty() {
                "Not in a git repository".to_owned()
            } else {
                message
            };
            Progress::Done(Err(message), at + 1)
        },
        None => match listed_main_repo(log[at].stdout_text().as_str()) {
            Some(path) => Progress::Done(Ok(path), at + 1),
            None => Progress::Done(Err("Could not determine main repo root".to_owned()), at + 1),
        },
    }
}

/// The worktree that a block of a listing describes, if it has a branch checked
/// out and lies under `dir`.
pub open spec fn worktree_in(block: Seq<char>, dir: Seq<char>) -> Option<WorktreeModel> {
    let lines = lines_of(block);
    match (last_with(lines, "worktree "@), last_with(lines, "branch refs/heads/"@)) {
        (Some(path), Some(branch)) => if is_under(path, dir) {
            Some(WorktreeModel { branch, path })
        } else {
            None
        },
        _ => None,
    }
}

/// The blocks that hold more than white space, without the white space around
/// them.
pub open spec fn filled(blocks: Seq<Seq<char>>) -> Seq<Seq<char>>
    decreases blocks.len(),
{
    if blocks.len() == 0 {
        seq![]
    } else {
        let before = filled(blocks.drop_last());
        let block = trimmed(blocks.last());
        if block.len() == 0 {
            before
        } else {
            before.push(block)
        }
    }
}

/// The worktrees under `dir` that blocks of a listing describe, in their order.
pub open spec fn worktrees_in(blocks: Seq<Seq<char>>, dir: Seq<char>) -> Seq<WorktreeModel>
    decreases blocks.len(),
{
    if blocks.len() == 0 {
        seq![]
    } else {
        let before = worktrees_in(blocks.drop_last(), dir);
        match worktree_in(blocks.last(), dir) {
            Some(worktree) => before.push(worktree),
            None => before,
        }
    }
}

/// All but the first: the main repository comes before its worktrees.
pub open spec fn behind_first(blocks: Seq<Seq<char>>) -> Seq<Seq<char>> {
    if blocks.len() == 0 {
        blocks
    } else {
        blocks.drop_first()
    }
}

/// The worktrees of a repository that a listing shows, those under `dir`.
pub open spec fn listed_worktrees(listing: Seq<char>, dir: Seq<char>) -> Seq<WorktreeModel> {
    worktrees_in(behind_first(filled(blocks_of(listing))), dir)
}

fn read_block(block: &str, dir: &str) -> (res: Option<Worktree>)
    ensures
        res.model() == worktree_in(block@, dir@),
{
    let lines = lines(block);
    let ghost all = lines.deep_view();
    let mut path: Option<String> = None;
    let mut branch: Option<String> = None;
    let mut i: usize = 0;
    while i < lines.len()
        invariant
            all == lines.deep_view(),
            i <= lines@.len(),
            path.deep_view() == last_with(all.take(i as int), "worktree "@),
            branch.deep_view() == last_with(all.take(i as int), "branch refs/heads/"@),
        decreases lines@.len() - i,
    {
        proof {
            assert(all.take(i + 1).last() == lines@[i as int]@);
            assert(all.take(i + 1).drop_last() == all.take(i as int));
        }
        let line = lines[i].as_str();
        match strip_prefix(line, "worktree ") {
            Some(rest) => {
                proof {
                    lemma_other_prefix(line@);
                }
                path = Some(rest);
            },
            None => match strip_prefix(line, "branch refs/heads/") {
                Some(rest) => {
                    branch = Some(rest);
                },
                None => {},
            },
        }
        i += 1;
    }
    proof {
        assert(all.take(i as int) == all);
    }
    match (path, branch) {
        (Some(path), Some(branch)) => if starts_with(path.as_str(), dir) {
            Some(Worktree { branch, path })
        } else {
            None
        },
        _ => None,
    }
}

/// A line that tells the path tells no branch.
proof fn lemma_other_prefix(line: Seq<char>)
    requires
        after_prefix(line, "worktree "@) is Some,
    ensures
        after_prefix(line, "branch refs/heads/"@) is None,
{
    reveal_strlit("worktree ");
    reveal_strlit("branch refs/heads/");
    if "branch refs/heads/"@.is_prefix_of(line) {
        assert(line[0] == "worktree "@[0]);
        assert(line[0] == "branch refs/heads/"@[0]);
    }
}

/// Reads the worktrees under `dir` out of a listing.
pub fn parse_worktrees(listing: &str, dir: &str) -> (res: Vec<Worktree>)
    ensures
        res.model() == listed_worktrees(listing@, dir@),
{
    let blocks = blocks(listing);
    let ghost all = blocks.deep_view();
    let mut first_block = true;
    let mut res: Vec<Worktree> = Vec::new();
    let mut i: usize = 0;
    while i < blocks.len()
        invariant
            all == blocks.deep_view(),
            i <= blocks@.len(),
            first_block == (filled(all.take(i as int)).len() == 0),
            res.model() == worktrees_in(behind_first(filled(all.take(i as int))), dir@),
        decreases blocks@.len() - i,
    {
        let ghost so_far = filled(all.take(i as int));
        let ghost before = res.model();
        proof {
            assert(all.take(i + 1).last() == blocks@[i as int]@);
            assert(all.take(i + 1).drop_last() == all.take(i as int));
        }
        let block = trim(blocks[i].as_str());
        if !block.as_str().is_empty() {
            proof {
                assert(filled(all.take(i + 1)) == so_far.push(block@));
            }
            if first_block {
                first_block = false;
                proof {
                    assert(so_far.push(block@).drop_first() == Seq::<Seq<char>>::empty());
                }
            } else {
                proof {
                    assert(so_far.push(block@).drop_first() == so_far.drop_first().push(block@));
                    assert(so_far.drop_first().push(block@).drop_last() == so_far.drop_first());
                }
                match read_block(block.as_str(), dir) {
                    Some(worktree) => {
                        res.push(worktree);
                        proof {
                            assert(res.model() =~= before.push(worktree.model()));
                        }
                    },
                    None => {},
                }
            }
        }
        i += 1;
    }
    proof {
        assert(all.take(i as int) == all);
    }
    res
}

/// The worktrees of a repository that are kept next to it.
pub open spec fn list_flow(main_repo: Seq<char>, log: Seq<Reply>, at: int) -> Flow<
    Result<Seq<WorktreeModel>, Seq<char>>,
> {
    if at >= log.len() {
        Flow::Ask(worktree_listing(Some(main_repo)))
    } else {
        match log[at].trouble_of("Failed to run git: "@, ""@) {
            Some(message) => Flow::Done(Err(message), at + 1),
            None => Flow::Done(
                Ok(
                    listed_worktrees(
                        lossy_text(log[at].stdout_of()),
                        worktrees_dir_of(main_repo),
                    ),
                ),
                at + 1,
            ),
        }
    }
}

pub fn list_worktrees(main_repo: &str, log: &[Reply], at: usize) -> (res: Progress<
    Result<Vec<Worktree>, String>,
>)
    ensures
        res.model() == list_flow(main_repo@, log@, at as int),
{
    if at >= log.len() {
        return Progress::Ask(git(list3("worktree", "list", "--porcelain"), Some(main_repo)));
    }
    match log[at].trouble("Failed to run git: ", "") {
        Some(message) => Progress::Done(Err(message), at + 1),
        None => {
            let dir = get_worktrees_dir(main_repo);
            let listing = log[at].stdout_text();
            Progress::Done(Ok(parse_worktrees(listing.as_str(), dir.as_str())), at + 1)
        },
    }
}

/// Whether git has anything to say of the state of a worktree.
pub open spec fn changes_flow(path: Seq<char>, log: Seq<Reply>, at: int) -> Flow<bool> {
    if at >= log.len() {
        Flow::Ask(git_of(seq!["status"@, "--porcelain"@], Some(path)))
    } else {
        Flow::Done(log[at].stdout_of().len() > 0, at + 1)
    }
}

pub fn has_uncommitted_changes(path: &str, log: &[Reply], at: usize) -> (res: Progress<bool>)
    ensures
        res.model() == changes_flow(path@, log@, at as int),
{
    if at >= log.len() {
        return Progress::Ask(git(list2("status", "--porcelain"), Some(path)));
    }
    Progress::Done(!log[at].wrote_nothing(), at + 1)
}

/// Brings what is known of the remote repository up to date.
pub open spec fn fetch_flow(main_repo: Seq<char>, log: Seq<Reply>, at: int) -> Flow<
    Result<(), Seq<char>>,
> {
    if at >= log.len() {
        Flow::Ask(ActionModel::Report("Fetching origin..."@))
    } else if at + 1 >= log.len() {
        Flow::Ask(git_of(seq!["fetch"@, "origin"@], Some(main_repo)))
    } else {
        match log[at + 1].trouble_of("Failed to run git: "@, "Failed to fetch origin:\n"@) {
            Some(message) => Flow::Done(Err(message), at + 2),
            None => Flow::Done(Ok(()), at + 2),
        }
    }
}

pub fn fetch_origin(main_repo: &str, log: &[Reply], at: usize) -> (res: Progress<
    Result<(), String>,
>)
    ensures
        res.model() == fetch_flow(main_repo@, log@, at as int),
{
    if at >= log.len() {
        return Progress::Ask(Action::Report("Fetching origin...".to_owned()));
    }
    let at: usize = at + 1;
    if at >= log.len() {
        return Progress::Ask(git(list2("fetch", "origin"), Some(main_repo)));
    }
    match log[at].trouble("Failed to run git: ", "Failed to fetch origin:\n") {
        Some(message) => Progress::Done(Err(message), at + 1),
        None => Progress::Done(Ok(()), at + 1),
    }
}

/// The question whether a reference exists.
pub open spec fn has_ref(main_repo: Seq<char>, name: Seq<char>) -> ActionModel {
    git_status_of(seq!["show-ref"@, "--verify"@, "--quiet"@, name], main_repo)
}

pub(crate) fn ask_ref(main_repo: &str, name: &str) -> (res: Action)
    ensures
        res.model() == has_ref(main_repo@, name@),
{
    git_status(list4("show-ref", "--verify", "--quiet", name), main_repo)
}

/// The remote branch that `origin/HEAD` stands for.
pub open spec fn remote_head_told(reply: Reply) -> Option<Seq<char>> {
    if reply.is_yes() {
        after_prefix(trimmed(lossy_text(reply.stdout_of())), "refs/remotes/"@)
    } else {
        None
    }
}

/// The remote branch that new branches start from: the one that `origin/HEAD`
/// stands for, else the first of `origin/main` and `origin/master` that exists,
/// else `origin/main`.
pub open spec fn base_flow(main_repo: Seq<char>, log: Seq<Reply>, at: int) -> Flow<Seq<char>> {
    if at >= log.len() {
        Flow::Ask(git_of(seq!["symbolic-ref"@, "refs/remotes/origin/HEAD"@], Some(main_repo)))
    } else {
        match remote_head_told(log[at]) {
            Some(branch) => Flow::Done(branch, at + 1),
            None => if at + 1 >= log.len() {
                Flow::Ask(has_ref(main_repo, "refs/remotes/origin/main"@))
            } else if log[at + 1].is_yes() {
                Flow::Done("origin/main"@, at + 2)
            } else if at + 2 >= log.len() {
                Flow::Ask(has_ref(main_repo, "refs/remotes/origin/master"@))
            } else if log[at + 2].is_yes() {
                Flow::Done("origin/master"@, at + 3)
            } else {
                Flow::Done("origin/main"@, at + 3)
            },
        }
    }
}

pub fn get_default_base_branch(main_repo: &str, log: &[Reply], at: usize) -> (res: Progress<String>)
    ensures
        res.model() == base_flow(main_repo@, log@, at as int),
{
    if at >= log.len() {
        return Progress::Ask(
            git(list2("symbolic-ref", "refs/remotes/origin/HEAD"), Some(main_repo)),
        );
    }
    if log[at].yes() {
        let target = trim(log[at].stdout_text().as_str());
        match strip_prefix(target.as_str(), "refs/remotes/") {
            Some(branch) => return Progress::Done(branch, at + 1),
            None => {},
        }
    }
    let at: usize = at + 1;
    if at >= log.len() {
        return Progress::Ask(ask_ref(main_repo, "refs/remotes/origin/main"));
    }
    if log[at].yes() {
        return Progress::Done("origin/main".to_owned(), at + 1);
    }
    let at: usize = at + 1;
    if at >= log.len() {
        return Progress::Ask(ask_ref(main_repo, "refs/remotes/origin/master"));
    }
    if log[at].yes() {
        return Progress::Done("origin/master".to_owned(), at + 1);
    }
    Progress::Done("origin/main".to_owned(), at + 1)
}

/// The branch that is checked out where this process runs.
pub open spec fn current_branch_flow(log: Seq<Reply>, at: int) -> Flow<
    Result<Seq<char>, Seq<char>>,
> {
    if at >= log.len() {
        Flow::Ask(git_of(seq!["rev-parse"@, "--abbrev-ref"@, "HEAD"@], None))
    } else {
        match log[at].trouble_of("Failed to run git: "@, ""@) {
            Some(message) => Flow::Done(Err(message), at + 1),
            None => Flow::Done(Ok(trimmed(lossy_text(log[at].stdout_of()))), at + 1),
        }
    }
}

pub fn get_current_branch(log: &[Reply], at: usize) -> (res: Progress<Result<String, String>>)
    ensures
        res.model() == current_branch_flow(log@, at as int),
{
    if at >= log.len() {
        return Progress::Ask(git(list3("rev-parse", "--abbrev-ref", "HEAD"), None));
    }
    match log[at].trouble("Failed to run git: ", "") {
        Some(message) => Progress::Done(Err(message), at + 1),
        None => Progress::Done(Ok(trim(log[at].stdout_text().as_str())), at + 1),
    }
}

/// Every worktree that is read out of a listing lies under the directory.
pub proof fn law_listed_under_dir(listing: Seq<char>, dir: Seq<char>)
    ensures
        forall|i: int|
            0 <= i < listed_worktrees(listing, dir).len() ==> is_under(
                (#[trigger] listed_worktrees(listing, dir)[i]).path,
                dir,
            ),
{
    lemma_worktrees_under(behind_first(filled(blocks_of(listing))), dir);
}

proof fn lemma_worktrees_under(blocks: Seq<Seq<char>>, dir: Seq<char>)
    ensures
        forall|i: int|
            0 <= i < worktrees_in(blocks, dir).len() ==> is_under(
                (#[trigger] worktrees_in(blocks, dir)[i]).path,
                dir,
            ),
    decreases blocks.len(),
{
    if blocks.len() > 0 {
        lemma_worktrees_under(blocks.drop_last(), dir);
        let before = worktrees_in(blocks.drop_last(), dir);
        let all = worktrees_in(blocks, dir);
        assert forall|i: int| 0 <= i < all.len() implies is_under(
            (#[trigger] all[i]).path,
            dir,
        ) by {
            if i < before.len() {
                assert(all[i] == before[i]);
            }
        }
    }
}

/// What a listing says of a worktree, line by line: where it is, and which branch
/// is checked out there. It may say more, such as the commit or that the worktree
/// is locked, and it may leave the branch out.
pub struct Block {
    pub lines: Seq<Seq<char>>,
    pub path: Option<Seq<char>>,
    pub branch: Option<Seq<char>>,
}

/// A listing: blocks, with a blank line behind each.
pub open spec fn listing_of(blocks: Seq<Seq<char>>) -> Seq<char>
    decreases blocks.len(),
{
    if blocks.len() == 0 {
        seq![]
    } else {
        blocks[0].push('\n').push('\n') + listing_of(blocks.drop_first())
    }
}

/// Whether a text can be part of a line of a listing, up to its end.
pub open spec fn fits_line(s: Seq<char>) -> bool {
    !s.contains('\n') && without_return(s) == s
}

/// Whether these can be the lines of a block: there is one at least, none is empty
/// or has a line feed inside, and the last one holds more than white space.
pub open spec fn are_filled(lines: Seq<Seq<char>>) -> bool {
    &&& lines.len() > 0
    &&& forall|i: int|
        0 <= i < lines.len() ==> (#[trigger] lines[i]).len() > 0 && !lines[i].contains('\n')
    &&& trimmed_end(lines.last()).len() > 0
}

/// Whether the lines tell something behind a prefix, or tell nothing behind it.
/// What they tell they tell once.
pub open spec fn tell(lines: Seq<Seq<char>>, prefix: Seq<char>, told: Option<Seq<char>>) -> bool {
    match told {
        Some(rest) => exists|i: int|
            {
                &&& 0 <= i < lines.len()
                &&& #[trigger] after_prefix(lines[i], prefix) == Some(rest)
                &&& forall|j: int|
                    0 <= j < lines.len() && j != i ==> #[trigger] after_prefix(
                        lines[j],
                        prefix,
                    ) is None
            },
        None => forall|j: int|
            0 <= j < lines.len() ==> #[trigger] after_prefix(lines[j], prefix) is None,
    }
}

/// Whether a line of a block is read as it stands. The carriage return at the end
/// of a line is not, nor is white space at the end of the block.
pub open spec fn is_read_whole(lines: Seq<Seq<char>>, at: int) -> bool {
    if at == lines.len() - 1 {
        !is_space(lines[at].last())
    } else {
        without_return(lines[at]) == lines[at]
    }
}

impl Block {
    /// Whether a listing can hold the block: it has no blank lines and does not
    /// start in white space, it tells one path and one branch at most, and these
    /// are read as they stand.
    pub open spec fn is_listable(self) -> bool {
        &&& are_filled(self.lines)
        &&& !is_space(self.lines[0].first())
        &&& tell(self.lines, "worktree "@, self.path)
        &&& tell(self.lines, "branch refs/heads/"@, self.branch)
        &&& forall|i: int|
            0 <= i < self.lines.len() && (after_prefix(self.lines[i], "worktree "@) is Some
                || after_prefix(self.lines[i], "branch refs/heads/"@) is Some) ==> #[trigger] is_read_whole(
                self.lines,
                i,
            )
    }

    /// Whether the block tells of a worktree under `dir` that has a branch checked
    /// out.
    pub open spec fn is_worktree(self, dir: Seq<char>) -> bool {
        self.branch is Some && (self.path matches Some(path) && is_under(path, dir))
    }

    /// The worktree that the block tells of.
    pub open spec fn worktree(self) -> WorktreeModel {
        WorktreeModel { branch: self.branch->0, path: self.path->0 }
    }
}

/// Lines with a line feed between them.
pub open spec fn text_of(lines: Seq<Seq<char>>) -> Seq<char>
    decreases lines.len(),
{
    if lines.len() == 0 {
        seq![]
    } else if lines.len() == 1 {
        lines[0]
    } else {
        lines[0].push('\n') + text_of(lines.drop_first())
    }
}

/// Whether a text can be a block of a listing: it holds more than white space, has
/// no blank line inside and does not end in a line feed.
pub open spec fn is_block(s: Seq<char>) -> bool {
    trimmed(s).len() > 0 && is_gapless(s) && (s.len() > 0 ==> s.last() != '\n')
}

proof fn lemma_line(prefix: Seq<char>, rest: Seq<char>)
    requires
        prefix.len() > 0,
        !prefix.contains('\n'),
        prefix.last() != '\r',
        fits_line(rest),
    ensures
        fits_line(prefix + rest),
        after_prefix(prefix + rest, prefix) == Some(rest),
{
    let s = prefix + rest;
    assert forall|i: int| 0 <= i < s.len() implies s[i] != '\n' by {
        if i < prefix.len() {
            assert(prefix.contains(prefix[i]));
        } else {
            assert(rest.contains(rest[i - prefix.len()]));
        }
    }
    if rest.len() > 0 {
        assert(s.last() == rest.last());
        assert(rest.last() != '\r') by {
            if rest.last() == '\r' {
                assert(without_return(rest).len() < rest.len());
            }
        }
    } else {
        assert(s == prefix);
    }
    assert(s.subrange(0, prefix.len() as int) == prefix);
    assert(s.skip(prefix.len() as int) == rest);
}

/// Lines that are written one below the other, as they are read.
spec fn read_of(lines: Seq<Seq<char>>) -> Seq<Seq<char>> {
    Seq::new(
        lines.len(),
        |i: int|
            if i == lines.len() - 1 {
                lines[i]
            } else {
                without_return(lines[i])
            },
    )
}

proof fn lemma_lines_read(lines: Seq<Seq<char>>)
    requires
        are_filled(lines),
    ensures
        lines_of(text_of(lines)) == read_of(lines),
    decreases lines.len(),
{
    assert(!lines[0].contains('\n') && lines[0].len() > 0);
    if lines.len() == 1 {
        law_last_line(lines[0]);
        assert(seq![lines[0]] == read_of(lines));
    } else {
        let rest = lines.drop_first();
        lemma_rest_filled(lines);
        lemma_lines_read(rest);
        law_first_line(lines[0], text_of(rest));
        assert(seq![without_return(lines[0])] + read_of(rest) == read_of(lines));
    }
}

proof fn lemma_rest_filled(lines: Seq<Seq<char>>)
    requires
        are_filled(lines),
        lines.len() > 1,
    ensures
        are_filled(lines.drop_first()),
        lines.drop_first().last() == lines.last(),
{
    let rest = lines.drop_first();
    assert forall|i: int| 0 <= i < rest.len() implies (#[trigger] rest[i]).len() > 0
        && !rest[i].contains('\n') by {
        assert(rest[i] == lines[i + 1]);
    }
}

/// Lines of which none is empty have no blank line among them.
proof fn lemma_text_gapless(lines: Seq<Seq<char>>)
    requires
        are_filled(lines),
    ensures
        text_of(lines).len() > 0,
        text_of(lines).first() == lines[0].first(),
        text_of(lines).last() != '\n',
        is_gapless(text_of(lines)),
    decreases lines.len(),
{
    let s = text_of(lines);
    let line = lines[0];
    assert(line.len() > 0 && !line.contains('\n'));
    assert forall|i: int| 0 <= i < line.len() implies line[i] != '\n' by {
        assert(line.contains(line[i]));
    }
    if lines.len() > 1 {
        let rest = lines.drop_first();
        lemma_rest_filled(lines);
        lemma_text_gapless(rest);
        let behind = text_of(rest);
        let at = line.len() as int;
        assert(!rest[0].contains('\n') && rest[0].contains(rest[0][0]));
        assert forall|i: int| 0 <= i < s.len() - 1 implies !(s[i] == '\n' && #[trigger] s[i + 1]
            == '\n') by {
            if i > at {
                assert(s[i + 1] == behind[i - at - 1 + 1]);
                assert(s[i] == behind[i - at - 1]);
            } else if i == at {
                assert(s[i + 1] == behind[0]);
            } else {
                assert(s[i] == line[i]);
            }
        }
    }
}

/// The lines of a block without the white space at its end.
spec fn cut_last(lines: Seq<Seq<char>>) -> Seq<Seq<char>> {
    lines.update(lines.len() - 1, trimmed_end(lines.last()))
}

proof fn lemma_cut_filled(lines: Seq<Seq<char>>)
    requires
        are_filled(lines),
    ensures
        are_filled(cut_last(lines)),
{
    let cut = cut_last(lines);
    let last = lines.len() - 1;
    law_trim_end_start(lines.last());
    assert forall|i: int| 0 <= i < cut.len() implies (#[trigger] cut[i]).len() > 0
        && !cut[i].contains('\n') by {
        assert(!lines[i].contains('\n'));
        if i == last {
            assert forall|k: int| 0 <= k < cut[i].len() implies cut[i][k] != '\n' by {
                assert(lines[i].contains(lines[i][k]));
            }
        }
    }
    law_trim_end_twice(lines.last());
}

proof fn lemma_text_cut(lines: Seq<Seq<char>>)
    requires
        are_filled(lines),
    ensures
        trimmed_end(text_of(lines)) == text_of(cut_last(lines)),
        text_of(cut_last(lines)).len() > 0,
    decreases lines.len(),
{
    let cut = cut_last(lines);
    if lines.len() > 1 {
        let rest = lines.drop_first();
        lemma_rest_filled(lines);
        lemma_text_cut(rest);
        assert(cut.drop_first() == cut_last(rest));
        law_trim_end_concat(lines[0].push('\n'), text_of(rest));
    }
}

/// The lines that are read out of a block tell what the block tells.
proof fn lemma_tell_read(lines: Seq<Seq<char>>, prefix: Seq<char>, told: Option<Seq<char>>)
    requires
        are_filled(lines),
        tell(lines, prefix, told),
        forall|i: int|
            0 <= i < lines.len() && after_prefix(lines[i], prefix) is Some ==> #[trigger] is_read_whole(
                lines,
                i,
            ),
    ensures
        tell(read_of(cut_last(lines)), prefix, told),
{
    let read = read_of(cut_last(lines));
    assert forall|j: int| 0 <= j < lines.len() && after_prefix(lines[j], prefix) is None implies after_prefix(
        #[trigger] read[j],
        prefix,
    ) is None by {
        law_trim_end_start(lines[j]);
        assert(read[j].is_prefix_of(lines[j]));
        if prefix.is_prefix_of(read[j]) {
            assert(prefix =~= lines[j].subrange(0, prefix.len() as int));
        }
    }
    match told {
        Some(rest) => {
            let i = choose|i: int|
                {
                    &&& 0 <= i < lines.len()
                    &&& #[trigger] after_prefix(lines[i], prefix) == Some(rest)
                    &&& forall|j: int|
                        0 <= j < lines.len() && j != i ==> #[trigger] after_prefix(
                            lines[j],
                            prefix,
                        ) is None
                };
            assert(is_read_whole(lines, i));
            assert(read[i] == lines[i]);
            assert(after_prefix(read[i], prefix) == Some(rest));
            assert forall|j: int| 0 <= j < read.len() && j != i implies #[trigger] after_prefix(
                read[j],
                prefix,
            ) is None by {
                assert(after_prefix(lines[j], prefix) is None);
            }
        },
        None => {
            assert forall|j: int| 0 <= j < read.len() implies #[trigger] after_prefix(
                read[j],
                prefix,
            ) is None by {
                assert(after_prefix(lines[j], prefix) is None);
            }
        },
    }
}

/// What is told once is what is told last.
proof fn lemma_told_once(lines: Seq<Seq<char>>, prefix: Seq<char>, told: Option<Seq<char>>)
    requires
        tell(lines, prefix, told),
    ensures
        last_with(lines, prefix) == told,
    decreases lines.len(),
{
    if lines.len() > 0 {
        let rest = lines.drop_last();
        let last = lines.len() - 1;
        assert(lines.last() == lines[last]);
        match told {
            Some(text) => {
                let i = choose|i: int|
                    {
                        &&& 0 <= i < lines.len()
                        &&& #[trigger] after_prefix(lines[i], prefix) == Some(text)
                        &&& forall|j: int|
                            0 <= j < lines.len() && j != i ==> #[trigger] after_prefix(
                                lines[j],
                                prefix,
                            ) is None
                    };
                if i < last {
                    assert(after_prefix(lines[last], prefix) is None);
                    assert(after_prefix(rest[i], prefix) == Some(text));
                    assert forall|j: int| 0 <= j < rest.len() && j != i implies #[trigger] after_prefix(
                        rest[j],
                        prefix,
                    ) is None by {
                        assert(after_prefix(lines[j], prefix) is None);
                    }
                    lemma_told_once(rest, prefix, told);
                }
            },
            None => {
                assert(after_prefix(lines[last], prefix) is None);
                assert forall|j: int| 0 <= j < rest.len() implies #[trigger] after_prefix(
                    rest[j],
                    prefix,
                ) is None by {
                    assert(after_prefix(lines[j], prefix) is None);
                }
                lemma_told_once(rest, prefix, told);
            },
        }
    }
}

/// A block is read back as the worktree that it tells of, if it tells of one with
/// a branch that lies under the directory, and else as none.
pub proof fn law_block_read_back(block: Block, dir: Seq<char>)
    requires
        block.is_listable(),
    ensures
        worktree_in(trimmed(text_of(block.lines)), dir) == if block.is_worktree(dir) {
            Some(block.worktree())
        } else {
            None
        },
{
    let cut = cut_last(block.lines);
    lemma_text_gapless(block.lines);
    lemma_text_cut(block.lines);
    lemma_cut_filled(block.lines);
    lemma_lines_read(cut);
    lemma_tell_read(block.lines, "worktree "@, block.path);
    lemma_tell_read(block.lines, "branch refs/heads/"@, block.branch);
    lemma_told_once(read_of(cut), "worktree "@, block.path);
    lemma_told_once(read_of(cut), "branch refs/heads/"@, block.branch);
}

proof fn lemma_listing_blocks(blocks: Seq<Seq<char>>)
    requires
        forall|i: int| 0 <= i < blocks.len() ==> is_block(#[trigger] blocks[i]),
    ensures
        blocks_of(listing_of(blocks)) == blocks.push(seq![]),
    decreases blocks.len(),
{
    if blocks.len() == 0 {
        assert(blocks.push(seq![]) == seq![Seq::<char>::empty()]);
    } else {
        let rest = blocks.drop_first();
        assert forall|i: int| 0 <= i < rest.len() implies is_block(#[trigger] rest[i]) by {
            assert(rest[i] == blocks[i + 1]);
        }
        lemma_listing_blocks(rest);
        assert(is_block(blocks[0]));
        law_first_block(blocks[0], listing_of(rest));
        assert(seq![blocks[0]] + rest.push(seq![]) == blocks.push(seq![]));
    }
}

/// Blocks without the white space around them.
spec fn all_trimmed(blocks: Seq<Seq<char>>) -> Seq<Seq<char>> {
    Seq::new(blocks.len(), |i: int| trimmed(blocks[i]))
}

proof fn lemma_filled(blocks: Seq<Seq<char>>)
    requires
        forall|i: int| 0 <= i < blocks.len() ==> is_block(#[trigger] blocks[i]),
    ensures
        filled(blocks) == all_trimmed(blocks),
    decreases blocks.len(),
{
    if blocks.len() > 0 {
        let rest = blocks.drop_last();
        assert forall|i: int| 0 <= i < rest.len() implies is_block(#[trigger] rest[i]) by {
            assert(rest[i] == blocks[i]);
        }
        lemma_filled(rest);
        assert(is_block(blocks[blocks.len() - 1]));
        assert(all_trimmed(rest).push(trimmed(blocks.last())) == all_trimmed(blocks));
    }
}

/// The texts of blocks.
pub open spec fn texts_of(blocks: Seq<Block>) -> Seq<Seq<char>> {
    Seq::new(blocks.len(), |i: int| text_of(blocks[i].lines))
}

/// The worktrees under `dir` that blocks tell of, in their order.
pub open spec fn worktrees_told(blocks: Seq<Block>, dir: Seq<char>) -> Seq<WorktreeModel> {
    blocks.filter(|block: Block| block.is_worktree(dir)).map_values(
        |block: Block| block.worktree(),
    )
}

proof fn lemma_worktrees_told(blocks: Seq<Block>, dir: Seq<char>)
    requires
        forall|i: int| 0 <= i < blocks.len() ==> (#[trigger] blocks[i]).is_listable(),
    ensures
        worktrees_in(all_trimmed(texts_of(blocks)), dir) == worktrees_told(blocks, dir),
    decreases blocks.len(),
{
    reveal(Seq::filter);
    let texts = all_trimmed(texts_of(blocks));
    if blocks.len() > 0 {
        let rest = blocks.drop_last();
        let last = blocks[blocks.len() - 1];
        assert forall|i: int| 0 <= i < rest.len() implies (#[trigger] rest[i]).is_listable() by {
            assert(rest[i] == blocks[i]);
        }
        lemma_worktrees_told(rest, dir);
        assert(texts.drop_last() == all_trimmed(texts_of(rest)));
        assert(last.is_listable());
        law_block_read_back(last, dir);
        if last.is_worktree(dir) {
            assert(worktrees_told(blocks, dir) == worktrees_told(rest, dir).push(last.worktree()));
        } else {
            assert(worktrees_told(blocks, dir) == worktrees_told(rest, dir));
        }
    }
}

/// A listing of a repository and its worktrees is read back as those of the
/// worktrees that have a branch checked out and lie under the directory, in their
/// order. The repository itself is not among them.
pub proof fn law_listing_read_back(main: Seq<char>, blocks: Seq<Block>, dir: Seq<char>)
    requires
        is_block(main),
        forall|i: int| 0 <= i < blocks.len() ==> (#[trigger] blocks[i]).is_listable(),
    ensures
        listed_worktrees(listing_of(seq![main] + texts_of(blocks)), dir) == worktrees_told(
            blocks,
            dir,
        ),
{
    let behind = texts_of(blocks);
    let all = seq![main] + behind;
    assert forall|i: int| 0 <= i < all.len() implies is_block(#[trigger] all[i]) by {
        if i > 0 {
            assert(all[i] == behind[i - 1]);
            assert(blocks[i - 1].is_listable());
            lemma_text_gapless(blocks[i - 1].lines);
            lemma_text_cut(blocks[i - 1].lines);
        }
    }
    lemma_listing_blocks(all);
    lemma_filled(all);
    assert(all.push(seq![]).drop_last() == all);
    assert(filled(all.push(seq![])) == all_trimmed(all));
    assert(all_trimmed(all).drop_first() == all_trimmed(behind));
    lemma_worktrees_told(blocks, dir);
}

/// The repository that a listing starts with is read back.
pub proof fn law_main_repo_read_back(path: Seq<char>, rest: Seq<char>)
    requires
        fits_line(path),
    ensures
        first_with(lines_of(("worktree "@ + path).push('\n') + rest), "worktree "@) == Some(path),
{
    reveal_strlit("worktree ");
    lemma_line("worktree "@, path);
    law_first_line("worktree "@ + path, rest);
}

/// The first of the lines that start with a prefix counts, and of what it says all
/// that follows the prefix.
pub proof fn law_first_with(lines: Seq<Seq<char>>, prefix: Seq<char>)
    ensures
        match first_with(lines, prefix) {
            Some(rest) => exists|i: int|
                0 <= i < lines.len() && #[trigger] lines[i] == prefix + rest && forall|j: int|
                    0 <= j < i ==> !prefix.is_prefix_of(#[trigger] lines[j]),
            None => forall|j: int| 0 <= j < lines.len() ==> !prefix.is_prefix_of(#[trigger] lines[j]),
        },
    decreases lines.len(),
{
    if lines.len() > 0 {
        let rest = lines.drop_first();
        if prefix.is_prefix_of(lines[0]) {
            assert(lines[0] == prefix + lines[0].skip(prefix.len() as int));
        } else {
            law_first_with(rest, prefix);
            match first_with(rest, prefix) {
                Some(text) => {
                    let i = choose|i: int|
                        0 <= i < rest.len() && #[trigger] rest[i] == prefix + text && forall|j: int|
                            0 <= j < i ==> !prefix.is_prefix_of(#[trigger] rest[j]);
                    assert(lines[i + 1] == prefix + text);
                    assert forall|j: int| 0 <= j < i + 1 implies !prefix.is_prefix_of(
                        #[trigger] lines[j],
                    ) by {
                        if j > 0 {
                            assert(lines[j] == rest[j - 1]);
                        }
                    }
                },
                None => {
                    assert forall|j: int| 0 <= j < lines.len() implies !prefix.is_prefix_of(
                        #[trigger] lines[j],
                    ) by {
                        if j > 0 {
                            assert(lines[j] == rest[j - 1]);
                        }
                    }
                },
            }
        }
    }
}

/// The main repository is what git says in its first line that starts with
/// `worktree `, where this process runs. A git that fails says why.
pub proof fn law_main_repo_told(log: Seq<Reply>, at: int)
    requires
        0 <= at <= log.len(),
    ensures
        ({
            let flow = main_repo_flow(log, at);
            let told = log[at];
            let path = first_with(lines_of(lossy_text(told.stdout_of())), "worktree "@);
            let said = trimmed(lossy_text(told.stderr_of()));
            &&& log.len() == at ==> awaits(
                flow,
                git_of(seq!["worktree"@, "list"@, "--porcelain"@], None),
            )
            &&& log.len() > at && told.is_yes() && path is Some ==> flow == Flow::Done(
                Ok::<_, Seq<char>>(path->0),
                at + 1,
            )
            &&& log.len() > at && told.is_yes() && path is None ==> flow == Flow::Done(
                Err::<Seq<char>, _>("Could not determine main repo root"@),
                at + 1,
            )
            &&& log.len() > at && told.failure_of() is Some ==> flow == Flow::Done(
                Err::<Seq<char>, _>("Failed to run git: "@ + told.failure_of()->0),
                at + 1,
            )
            &&& log.len() > at && !told.is_yes() && told.failure_of() is None ==> flow == Flow::Done(
                Err::<Seq<char>, _>(
                    if said.len() == 0 {
                        "Not in a git repository"@
                    } else {
                        said
                    },
                ),
                at + 1,
            )
        }),
{
    if log.len() > at {
        reveal_strlit("Failed to run git: ");
        reveal_strlit("");
        assert("Failed to run git: "@.len() == 19);
        assert(""@ + trimmed(lossy_text(log[at].stderr_of())) == trimmed(
            lossy_text(log[at].stderr_of()),
        ));
    }
}

/// The worktrees of a repository are asked for in its own directory, and what git
/// then says is read.
pub proof fn law_worktrees_listed(main_repo: Seq<char>, log: Seq<Reply>, at: int)
    requires
        0 <= at <= log.len(),
    ensures
        ({
            let flow = list_flow(main_repo, log, at);
            let told = log[at];
            &&& log.len() == at ==> awaits(
                flow,
                git_of(seq!["worktree"@, "list"@, "--porcelain"@], Some(main_repo)),
            )
            &&& log.len() > at && told.is_yes() ==> flow == Flow::Done(
                Ok::<_, Seq<char>>(
                    listed_worktrees(lossy_text(told.stdout_of()), worktrees_dir_of(main_repo)),
                ),
                at + 1,
            )
            &&& log.len() > at && !told.is_yes() ==> flow == Flow::Done(
                Err::<Seq<WorktreeModel>, _>(told.trouble_of("Failed to run git: "@, ""@)->0),
                at + 1,
            )
        }),
{
}

/// A worktree has uncommitted changes if and only if git says anything of its
/// state.
pub proof fn law_changes_told(path: Seq<char>, log: Seq<Reply>, at: int)
    requires
        0 <= at <= log.len(),
    ensures
        log.len() == at ==> awaits(
            changes_flow(path, log, at),
            git_of(seq!["status"@, "--porcelain"@], Some(path)),
        ),
        log.len() > at ==> changes_flow(path, log, at) == Flow::Done(
            log[at].stdout_of().len() > 0,
            at + 1,
        ),
{
}

/// The branch that is checked out is what git says of `HEAD` where this process
/// runs, without the white space around it.
pub proof fn law_current_branch_told(log: Seq<Reply>, at: int)
    requires
        0 <= at <= log.len(),
    ensures
        ({
            let flow = current_branch_flow(log, at);
            &&& log.len() == at ==> awaits(
                flow,
                git_of(seq!["rev-parse"@, "--abbrev-ref"@, "HEAD"@], None),
            )
            &&& log.len() > at && log[at].is_yes() ==> flow == Flow::Done(
                Ok::<_, Seq<char>>(trimmed(lossy_text(log[at].stdout_of()))),
                at + 1,
            )
            &&& log.len() > at && !log[at].is_yes() ==> flow == Flow::Done(
                Err::<Seq<char>, _>(log[at].trouble_of("Failed to run git: "@, ""@)->0),
                at + 1,
            )
        }),
{
}

/// The default base is what `origin/HEAD` stands for; else `origin/main` if it
/// exists, else `origin/master` if that exists, else `origin/main`.
pub proof fn law_default_base(main_repo: Seq<char>, log: Seq<Reply>, at: int)
    requires
        0 <= at <= log.len(),
    ensures
        ({
            let flow = base_flow(main_repo, log, at);
            let n = log.len();
            let head = trimmed(lossy_text(log[at].stdout_of()));
            let known = log[at].is_yes() && "refs/remotes/"@.is_prefix_of(head);
            &&& n == at ==> awaits(
                flow,
                git_of(seq!["symbolic-ref"@, "refs/remotes/origin/HEAD"@], Some(main_repo)),
            )
            &&& n > at && known ==> (flow matches Flow::Done(base, end) && end == at + 1
                && "refs/remotes/"@ + base == head)
            &&& n == at + 1 && !known ==> awaits(
                flow,
                git_status_of(
                    seq!["show-ref"@, "--verify"@, "--quiet"@, "refs/remotes/origin/main"@],
                    main_repo,
                ),
            )
            &&& n > at + 1 && !known && log[at + 1].is_yes() ==> flow == Flow::Done(
                "origin/main"@,
                at + 2,
            )
            &&& n == at + 2 && !known && !log[at + 1].is_yes() ==> awaits(
                flow,
                git_status_of(
                    seq!["show-ref"@, "--verify"@, "--quiet"@, "refs/remotes/origin/master"@],
                    main_repo,
                ),
            )
            &&& n > at + 2 && !known && !log[at + 1].is_yes() ==> flow == Flow::Done(
                if log[at + 2].is_yes() {
                    "origin/master"@
                } else {
                    "origin/main"@
                },
                at + 3,
            )
        }),
{
    let head = trimmed(lossy_text(log[at].stdout_of()));
    let prefix = "refs/remotes/"@;
    if prefix.is_prefix_of(head) {
        assert(prefix + head.skip(prefix.len() as int) == head);
    }
}

/// What follows the prefix in the last line that starts with it.
pub proof fn law_last_with(lines: Seq<Seq<char>>, prefix: Seq<char>)
    ensures
        match last_with(lines, prefix) {
            Some(rest) => exists|i: int|
                0 <= i < lines.len() && #[trigger] lines[i] == prefix + rest && forall|j: int|
                    i < j < lines.len() ==> !prefix.is_prefix_of(#[trigger] lines[j]),
            None => forall|j: int| 0 <= j < lines.len() ==> !prefix.is_prefix_of(#[trigger] lines[j]),
        },
    decreases lines.len(),
{
    if lines.len() > 0 {
        let rest = lines.drop_last();
        let end = lines.len() - 1;
        if prefix.is_prefix_of(lines[end]) {
            assert(lines[end] == prefix + lines[end].skip(prefix.len() as int));
        } else {
            law_last_with(rest, prefix);
            match last_with(rest, prefix) {
                Some(text) => {
                    let i = choose|i: int|
                        0 <= i < rest.len() && #[trigger] rest[i] == prefix + text && forall|j: int|
                            i < j < rest.len() ==> !prefix.is_prefix_of(#[trigger] rest[j]);
                    assert(lines[i] == prefix + text);
                    assert forall|j: int| i < j < lines.len() implies !prefix.is_prefix_of(
                        #[trigger] lines[j],
                    ) by {
                        if j < end {
                            assert(lines[j] == rest[j]);
                        }
                    }
                },
                None => {
                    assert forall|j: int| 0 <= j < lines.len() implies !prefix.is_prefix_of(
                        #[trigger] lines[j],
                    ) by {
                        if j < end {
                            assert(lines[j] == rest[j]);
                        }
                    }
                },
            }
        }
    }
}

/// A block of a listing tells of a worktree if and only if it names a path and a
/// branch, and the path is under the directory: then it is that branch at that path.
pub proof fn law_block_told(block: Seq<char>, dir: Seq<char>)
    ensures
        ({
            let path = last_with(lines_of(block), "worktree "@);
            let branch = last_with(lines_of(block), "branch refs/heads/"@);
            let told = worktree_in(block, dir);
            &&& told is Some <==> path is Some && branch is Some && is_under(path->0, dir)
            &&& told matches Some(worktree) ==> worktree.path == path->0 && worktree.branch
                == branch->0
        }),
{
}

/// Two lists of blocks tell of the worktrees that the one tells of and then of those
/// that the other tells of. One block tells of one worktree at most. Blocks of white
/// space do not count, and white space around the others is dropped.
pub proof fn law_blocks_in_turn(
    first: Seq<Seq<char>>,
    second: Seq<Seq<char>>,
    block: Seq<char>,
    dir: Seq<char>,
)
    ensures
        worktrees_in(first + second, dir) == worktrees_in(first, dir) + worktrees_in(second, dir),
        worktrees_in(seq![], dir).len() == 0,
        worktrees_in(seq![block], dir) == (match worktree_in(block, dir) {
            Some(worktree) => seq![worktree],
            None => seq![],
        }),
        filled(first + second) == filled(first) + filled(second),
        filled(seq![]).len() == 0,
        filled(seq![block]) == (if trimmed(block).len() == 0 {
            seq![]
        } else {
            seq![trimmed(block)]
        }),
    decreases second.len(),
{
    let whole = first + second;
    if second.len() == 0 {
        assert(whole == first);
    } else {
        assert(whole.drop_last() == first + second.drop_last());
        assert(whole.last() == second.last());
        law_blocks_in_turn(first, second.drop_last(), block, dir);
    }
    assert(seq![block].drop_last() == Seq::<Seq<char>>::empty());
    reveal_with_fuel(worktrees_in, 2);
    reveal_with_fuel(filled, 2);
}

/// The first block of a listing that is not blank is about the main repository; the
/// worktrees are those that the others tell of.
pub proof fn law_main_block_left_out(listing: Seq<char>, dir: Seq<char>)
    ensures
        ({
            let blocks = filled(blocks_of(listing));
            &&& blocks.len() == 0 ==> listed_worktrees(listing, dir).len() == 0
            &&& blocks.len() > 0 ==> listed_worktrees(listing, dir) == worktrees_in(
                blocks.skip(1),
                dir,
            )
        }),
{
    let blocks = filled(blocks_of(listing));
    if blocks.len() > 0 {
        assert(blocks.drop_first() == blocks.skip(1));
    }
}

} // verus!
