use wt::flow::{Action, Capture, Command, Program, Progress, Reply};
use wt::repo::{
    fetch_origin, get_current_branch, get_default_base_branch, get_main_repo_root,
    has_uncommitted_changes, list_worktrees, listed_main_repo, parse_worktrees, Worktree,
};

fn ok(stdout: &str) -> Reply {
    Reply::Output { success: true, stdout: stdout.as_bytes().to_vec(), stderr: vec![] }
}

fn bad(stderr: &str) -> Reply {
    Reply::Output { success: false, stdout: vec![], stderr: stderr.as_bytes().to_vec() }
}

fn yes() -> Reply {
    Reply::Answer(true)
}

fn no() -> Reply {
    Reply::Answer(false)
}

fn broken(message: &str) -> Reply {
    Reply::Failed(message.to_string())
}

fn texts(list: &[&str]) -> Vec<String> {
    list.iter().map(|text| text.to_string()).collect()
}

fn command(program: Program, args: &[&str], dir: Option<&str>, capture: Capture) -> Action {
    let dir = dir.map(|path| path.to_string());
    Action::Run(Command { program, args: texts(args), dir, capture })
}

fn git(args: &[&str], dir: &str) -> Action {
    command(Program::Git, args, Some(dir), Capture::Output)
}

fn git_status(args: &[&str], dir: &str) -> Action {
    command(Program::Git, args, Some(dir), Capture::Status)
}

fn git_here(args: &[&str]) -> Action {
    command(Program::Git, args, None, Capture::Output)
}

fn report(line: &str) -> Action {
    Action::Report(line.to_string())
}

/// Runs a procedure on ever longer logs. The result is what it asked for, and
/// what it came to if it came to an end.
fn play<T>(
    procedure: impl Fn(&[Reply], usize) -> Progress<T>,
    replies: Vec<Reply>,
) -> (Vec<Action>, Option<T>) {
    let mut asked = vec![];
    for read in 0..=replies.len() {
        match procedure(&replies[..read], 0) {
            Progress::Ask(action) => asked.push(action),
            Progress::Done(value, end) => {
                assert_eq!(end, read);
                return (asked, Some(value));
            }
        }
    }
    (asked, None)
}

fn worktree(branch: &str, path: &str) -> Worktree {
    Worktree { branch: branch.to_string(), path: path.to_string() }
}

const LISTING: &str = "worktree /code/p\nHEAD 1111\nbranch refs/heads/main\n\n\
    worktree /code/p-worktrees/feature-foo\nHEAD 2222\nbranch refs/heads/feature/foo\n\n\
    worktree /code/p-worktrees/odd\nHEAD 3333\ndetached\n\n\
    worktree /elsewhere/bar\nHEAD 4444\nbranch refs/heads/bar\n\n\
    worktree /code/p-worktrees/baz\nHEAD 5555\nbranch refs/heads/baz\nlocked\n\n";

#[test]
fn listing_is_read_back() {
    assert_eq!(
        parse_worktrees(LISTING, "/code/p-worktrees"),
        [
            worktree("feature/foo", "/code/p-worktrees/feature-foo"),
            worktree("baz", "/code/p-worktrees/baz"),
        ],
    );
    assert_eq!(parse_worktrees(LISTING, "/elsewhere"), [worktree("bar", "/elsewhere/bar")]);
}

#[test]
fn listed_worktrees_lie_under_the_directory() {
    for found in parse_worktrees(LISTING, "/code") {
        assert!(found.path.starts_with("/code/"));
    }
    assert!(parse_worktrees(LISTING, "/code/p-work").is_empty());
}

#[test]
fn one_block_is_read_back() {
    let listing = "worktree /m\n\nworktree /w/x y\nHEAD 1\nbranch refs/heads/a/b\n\n";
    assert_eq!(parse_worktrees(listing, "/w"), [worktree("a/b", "/w/x y")]);
    assert!(parse_worktrees(listing, "/m").is_empty());
}

#[test]
fn blocks_with_other_lines_are_read_back() {
    let listing = "worktree /m\nbare\n\n\
        worktree /w/a\nHEAD 1\nbranch refs/heads/a\nlocked on a stick \n\n\
        worktree /w/b\nHEAD 2\ndetached\nlocked\n\n\
        worktree /w/c\nHEAD 3\nbranch refs/heads/c\nprunable gitdir is gone\n\n\
        HEAD 4\nbranch refs/heads/d\n\n";
    assert_eq!(parse_worktrees(listing, "/w"), [worktree("a", "/w/a"), worktree("c", "/w/c")]);
}

#[test]
fn main_repository_is_not_among_its_worktrees() {
    assert!(parse_worktrees(LISTING, "/").iter().all(|found| found.branch != "main"));
    assert!(parse_worktrees("", "/").is_empty());
    assert!(parse_worktrees("worktree /a\nbranch refs/heads/b\n\n", "/").is_empty());
}

#[test]
fn last_of_several_lines_counts() {
    let listing = "x\n\nworktree /a\nworktree /b\nbranch refs/heads/c\nbranch refs/heads/d";
    assert_eq!(parse_worktrees(listing, "/"), [worktree("d", "/b")]);
}

#[test]
fn main_repository_is_the_first_of_a_listing() {
    assert_eq!(listed_main_repo(LISTING), Some("/code/p".to_string()));
    assert_eq!(listed_main_repo("HEAD 1\nworktree /a\nworktree /b\n"), Some("/a".to_string()));
    assert_eq!(listed_main_repo("HEAD 1\n"), None);
}

#[test]
fn main_repository_is_asked_of_git() {
    let (asked, told) = play(get_main_repo_root, vec![ok(LISTING)]);
    assert_eq!(asked, [git_here(&["worktree", "list", "--porcelain"])]);
    assert_eq!(told, Some(Ok("/code/p".to_string())));
}

#[test]
fn main_repository_is_not_found() {
    let told = |reply: Reply| play(get_main_repo_root, vec![reply]).1.unwrap();
    assert_eq!(told(bad(" fatal: no repo\n")), Err("fatal: no repo".to_string()));
    assert_eq!(told(bad(" \n")), Err("Not in a git repository".to_string()));
    assert_eq!(told(ok("HEAD 1\n")), Err("Could not determine main repo root".to_string()));
    assert_eq!(told(broken("no such file")), Err("Failed to run git: no such file".to_string()));
}

#[test]
fn bytes_that_are_not_text_are_replaced() {
    let stdout = b"worktree /a\xff\xc3\xa9\n".to_vec();
    let reply = Reply::Output { success: true, stdout, stderr: vec![] };
    let (_, told) = play(get_main_repo_root, vec![reply]);
    assert_eq!(told, Some(Ok("/a\u{fffd}\u{e9}".to_string())));
}

#[test]
fn worktrees_are_listed_next_to_their_repository() {
    let list = |log: &[Reply], at: usize| list_worktrees("/code/p", log, at);
    let (asked, told) = play(list, vec![ok(LISTING)]);
    assert_eq!(asked, [git(&["worktree", "list", "--porcelain"], "/code/p")]);
    let branches: Vec<String> = told.unwrap().unwrap().into_iter().map(|w| w.branch).collect();
    assert_eq!(branches, ["feature/foo", "baz"]);
}

#[test]
fn worktrees_cannot_be_listed() {
    let list = |log: &[Reply], at: usize| list_worktrees("/code/p", log, at);
    let told = |reply: Reply| play(list, vec![reply]).1.unwrap();
    assert_eq!(told(bad("oops\n")), Err("oops".to_string()));
    assert_eq!(told(broken("gone")), Err("Failed to run git: gone".to_string()));
}

#[test]
fn changes_are_whatever_git_tells_of_the_state() {
    let changes = |log: &[Reply], at: usize| has_uncommitted_changes("/w", log, at);
    let (asked, told) = play(changes, vec![ok(" M file\n")]);
    assert_eq!(asked, [git(&["status", "--porcelain"], "/w")]);
    assert_eq!(told, Some(true));
    assert_eq!(play(changes, vec![ok("")]).1, Some(false));
    assert_eq!(play(changes, vec![bad("not a repo")]).1, Some(false));
    assert_eq!(play(changes, vec![broken("no git")]).1, Some(false));
}

#[test]
fn origin_is_fetched() {
    let fetch = |log: &[Reply], at: usize| fetch_origin("/p", log, at);
    let (asked, told) = play(fetch, vec![yes(), ok("")]);
    assert_eq!(asked, [report("Fetching origin..."), git(&["fetch", "origin"], "/p")]);
    assert_eq!(told, Some(Ok(())));
}

#[test]
fn origin_cannot_be_fetched() {
    let fetch = |log: &[Reply], at: usize| fetch_origin("/p", log, at);
    let told = |reply: Reply| play(fetch, vec![yes(), reply]).1.unwrap();
    assert_eq!(told(bad("no net\n")), Err("Failed to fetch origin:\nno net".to_string()));
    assert_eq!(told(broken("x")), Err("Failed to run git: x".to_string()));
}

#[test]
fn default_base_is_what_the_remote_head_stands_for() {
    let base = |log: &[Reply], at: usize| get_default_base_branch("/p", log, at);
    let (asked, told) = play(base, vec![ok("refs/remotes/origin/develop\n")]);
    assert_eq!(asked, [git(&["symbolic-ref", "refs/remotes/origin/HEAD"], "/p")]);
    assert_eq!(told, Some("origin/develop".to_string()));
}

#[test]
fn default_base_falls_back_to_main_and_master() {
    let base = |log: &[Reply], at: usize| get_default_base_branch("/p", log, at);
    let verify = |name: &str| git_status(&["show-ref", "--verify", "--quiet", name], "/p");
    let (asked, told) = play(base, vec![bad(""), bad(""), ok("")]);
    assert_eq!(asked[1], verify("refs/remotes/origin/main"));
    assert_eq!(asked[2], verify("refs/remotes/origin/master"));
    assert_eq!(told, Some("origin/master".to_string()));
    assert_eq!(play(base, vec![bad(""), ok("")]).1, Some("origin/main".to_string()));
    assert_eq!(
        play(base, vec![broken("x"), broken("x"), broken("x")]).1,
        Some("origin/main".to_string()),
    );
    assert_eq!(play(base, vec![ok("main\n"), no(), yes()]).1, Some("origin/master".to_string()));
}

#[test]
fn current_branch_is_asked_of_git() {
    let (asked, told) = play(get_current_branch, vec![ok("feature/foo\n")]);
    assert_eq!(asked, [git_here(&["rev-parse", "--abbrev-ref", "HEAD"])]);
    assert_eq!(told, Some(Ok("feature/foo".to_string())));
}

#[test]
fn current_branch_is_not_known() {
    let told = |reply: Reply| play(get_current_branch, vec![reply]).1.unwrap();
    assert_eq!(told(bad("fatal\n")), Err("fatal".to_string()));
    assert_eq!(told(broken("x")), Err("Failed to run git: x".to_string()));
}
