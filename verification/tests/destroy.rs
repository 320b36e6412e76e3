use wt::destroy::{archive_worktree, destroy_worktree};
use wt::flow::{Action, Capture, Command, Program, Progress, Reply};

fn ok(stdout: &str) -> Reply {
    Reply::Output { success: true, stdout: stdout.as_bytes().to_vec(), stderr: vec![] }
}

fn bad(stderr: &str) -> Reply {
    Reply::Output { success: false, stdout: vec![], stderr: stderr.as_bytes().to_vec() }
}

fn yes() -> Reply {
    Reply::Answer(true)
}

fn no() -> Reply {
    Reply::Answer(false)
}

fn broken(message: &str) -> Reply {
    Reply::Failed(message.to_string())
}

fn texts(list: &[&str]) -> Vec<String> {
    list.iter().map(|text| text.to_string()).collect()
}

fn command(program: Program, args: &[&str], dir: Option<&str>, capture: Capture) -> Action {
    let dir = dir.map(|path| path.to_string());
    Action::Run(Command { program, args: texts(args), dir, capture })
}

fn git(args: &[&str], dir: &str) -> Action {
    command(Program::Git, args, Some(dir), Capture::Output)
}

fn git_status(args: &[&str], dir: &str) -> Action {
    command(Program::Git, args, Some(dir), Capture::Status)
}

fn git_here(args: &[&str]) -> Action {
    command(Program::Git, args, None, Capture::Output)
}

fn tmux_status(args: &[&str]) -> Action {
    command(Program::Tmux, args, None, Capture::Status)
}

fn has_session(name: &str) -> Action {
    command(Program::Tmux, &["has-session", "-t", name], None, Capture::QuietStatus)
}

fn is_there(path: &str) -> Action {
    Action::Exists(path.to_string())
}

fn report(line: &str) -> Action {
    Action::Report(line.to_string())
}

/// Runs a procedure on ever longer logs. The result is what it asked for, and
/// what it came to if it came to an end.
fn play<T>(
    procedure: impl Fn(&[Reply], usize) -> Progress<T>,
    replies: Vec<Reply>,
) -> (Vec<Action>, Option<T>) {
    let mut asked = vec![];
    for read in 0..=replies.len() {
        match procedure(&replies[..read], 0) {
            Progress::Ask(action) => asked.push(action),
            Progress::Done(value, end) => {
                assert_eq!(end, read);
                return (asked, Some(value));
            }
        }
    }
    (asked, None)
}

const PATH: &str = "/c/p-worktrees/a-b";
const TARGET: &str = "/old/p-a-b-77";

fn destroy(log: &[Reply], at: usize) -> Progress<Result<(), String>> {
    destroy_worktree("/c/p", "p", "a/b", None, "77", false, false, log, at)
}

fn archive_and_destroy(log: &[Reply], at: usize) -> Progress<Result<(), String>> {
    destroy_worktree("/c/p", "p", "a/b", Some("/old"), "77", true, false, log, at)
}

fn archive(log: &[Reply], at: usize) -> Progress<Result<(), String>> {
    archive_worktree("/c/p", "a/b", "/old", TARGET, log, at)
}

fn question() -> Action {
    let question = "Worktree 'a/b' has uncommitted changes. Destroy anyway?".to_string();
    Action::Confirm { question, default: false }
}

fn clone() -> Action {
    git_here(&[
        "clone",
        "--no-hardlinks",
        "--single-branch",
        "--branch",
        "a/b",
        "/c/p",
        TARGET,
    ])
}

fn mirror() -> Action {
    let from = format!("{}/", PATH);
    let to = format!("{}/", TARGET);
    let args = ["-a", "--delete", "--exclude=/.git", &from, &to];
    command(Program::Rsync, &args, None, Capture::Output)
}

fn copy() -> Action {
    Action::CopyTree { source: PATH.to_string(), target: TARGET.to_string() }
}

#[test]
fn everything_of_a_branch_is_destroyed() {
    let replies = vec![
        yes(),
        ok(""),
        yes(),
        ok(""),
        ok(""),
        ok(""),
        ok(""),
        ok(""),
        ok(""),
    ];
    let (asked, told) = play(destroy, replies);
    assert_eq!(
        asked,
        [
            is_there(PATH),
            git(&["status", "--porcelain"], PATH),
            is_there(PATH),
            git(&["worktree", "remove", PATH], "/c/p"),
            git(&["branch", "-D", "a/b"], "/c/p"),
            git_status(
                &["show-ref", "--verify", "--quiet", "refs/remotes/origin/a/b"],
                "/c/p",
            ),
            git(&["push", "origin", "--delete", "a/b"], "/c/p"),
            has_session("p-a-b"),
            tmux_status(&["kill-session", "-t", "p-a-b"]),
        ],
    );
    assert_eq!(told, Some(Ok(())));
}

#[test]
fn changes_are_lost_only_if_the_user_agrees() {
    let (asked, told) = play(destroy, vec![yes(), ok(" M x"), no()]);
    assert_eq!(asked[2], question());
    assert_eq!(asked.len(), 3);
    assert_eq!(told, Some(Err("Aborted.".to_string())));
    let (asked, _) = play(destroy, vec![yes(), ok(" M x"), yes(), yes()]);
    assert_eq!(asked[4], git(&["worktree", "remove", "--force", PATH], "/c/p"));
    let (_, told) = play(destroy, vec![yes(), ok(" M x"), broken("no terminal")]);
    assert_eq!(told, Some(Err("Aborted.".to_string())));
}

#[test]
fn branch_without_a_worktree_is_destroyed() {
    let (asked, told) = play(destroy, vec![no(), no(), ok(""), bad(""), bad("")]);
    assert_eq!(asked[2], git(&["branch", "-D", "a/b"], "/c/p"));
    assert_eq!(asked.len(), 5);
    assert_eq!(told, Some(Ok(())));
}

#[test]
fn branch_stays_if_its_worktree_cannot_be_removed() {
    let removal = |reply: Reply| play(destroy, vec![yes(), ok(""), yes(), reply]).1.unwrap();
    assert_eq!(removal(bad("busy\n")), Err("Failed to remove worktree:\nbusy".to_string()));
    assert_eq!(removal(broken("x")), Err("Failed to run git: x".to_string()));
}

#[test]
fn branch_that_cannot_be_deleted_is_reported() {
    let replies = vec![no(), no(), bad("none\n"), yes(), ok(""), bad("gone\n"), yes(), bad("")];
    let (asked, told) = play(destroy, replies);
    assert_eq!(asked[3], report("Warning: could not delete local branch: none"));
    assert_eq!(asked[6], report("Warning: could not delete remote branch: gone"));
    assert_eq!(told, Some(Ok(())));
}

#[test]
fn deletion_that_git_never_saw_is_an_error() {
    let told = |replies: Vec<Reply>| play(destroy, replies).1.unwrap();
    assert_eq!(told(vec![no(), no(), broken("x")]), Err("Failed to run git: x".to_string()));
    assert_eq!(
        told(vec![no(), no(), ok(""), ok(""), broken("x")]),
        Err("Failed to run git: x".to_string()),
    );
}

#[test]
fn session_survives_where_sessions_are_left_alone() {
    let quietly = |log: &[Reply], at: usize| {
        destroy_worktree("/c/p", "p", "b", None, "77", true, true, log, at)
    };
    let (asked, told) = play(quietly, vec![no(), no(), ok(""), bad("")]);
    assert_eq!(asked.len(), 4);
    assert_eq!(told, Some(Ok(())));
}

#[test]
fn worktree_is_backed_up_before_it_is_removed() {
    let replies = vec![
        yes(),
        ok(""),
        yes(),
        no(),
        yes(),
        ok(""),
        ok(""),
        ok(""),
        ok(""),
        bad(""),
    ];
    let (asked, told) = play(archive_and_destroy, replies);
    assert_eq!(asked[3], is_there(TARGET));
    assert_eq!(asked[4], Action::CreateDirs("/old".to_string()));
    assert_eq!(asked[5], clone());
    assert_eq!(asked[6], mirror());
    assert_eq!(asked[7], git(&["worktree", "remove", PATH], "/c/p"));
    assert_eq!(told, Some(Ok(())));
}

#[test]
fn worktree_stays_if_it_cannot_be_backed_up() {
    let told = |replies: Vec<Reply>| {
        let (asked, told) = play(archive_and_destroy, replies);
        assert!(!asked.contains(&git(&["worktree", "remove", PATH], "/c/p")));
        told.unwrap()
    };
    assert_eq!(
        told(vec![yes(), ok(""), yes(), no(), broken("full")]),
        Err("Failed to create archive directory: full".to_string()),
    );
    assert_eq!(
        told(vec![yes(), ok(""), yes(), no(), yes(), bad(""), broken("full")]),
        Err("Failed to archive worktree: full".to_string()),
    );
    assert_eq!(
        told(vec![yes(), ok(""), yes(), yes()]),
        Err("Directory already exists: /old/p-a-b-77".to_string()),
    );
}

#[test]
fn missing_worktree_is_not_backed_up() {
    let (asked, _) = play(archive_and_destroy, vec![no(), no()]);
    assert_eq!(asked[2], git(&["branch", "-D", "a/b"], "/c/p"));
}

#[test]
fn backup_is_a_clone_with_mirrored_files() {
    let (asked, told) = play(archive, vec![no(), yes(), ok(""), ok("")]);
    assert_eq!(
        asked,
        [is_there(TARGET), Action::CreateDirs("/old".to_string()), clone(), mirror()],
    );
    assert_eq!(told, Some(Ok(())));
}

#[test]
fn backup_falls_back_to_a_copy() {
    let (asked, told) = play(archive, vec![no(), yes(), broken("no git"), yes()]);
    assert_eq!(asked[3], copy());
    assert_eq!(told, Some(Ok(())));
    let (asked, told) = play(archive, vec![no(), yes(), ok(""), broken("no rsync"), yes()]);
    assert_eq!(asked[4], copy());
    assert_eq!(told, Some(Ok(())));
    let (_, told) = play(archive, vec![no(), yes(), ok(""), bad("io"), broken("full")]);
    assert_eq!(told, Some(Err("Failed to archive worktree: full".to_string())));
}
