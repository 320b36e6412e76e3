use wt::flow::{Action, Capture, Command, Program, Progress, Reply};
use wt::rename::rename_worktree;

fn ok(stdout: &str) -> Reply {
    Reply::Output { success: true, stdout: stdout.as_bytes().to_vec(), stderr: vec![] }
}

fn bad(stderr: &str) -> Reply {
    Reply::Output { success: false, stdout: vec![], stderr: stderr.as_bytes().to_vec() }
}

fn yes() -> Reply {
    Reply::Answer(true)
}

fn no() -> Reply {
    Reply::Answer(false)
}

fn broken(message: &str) -> Reply {
    Reply::Failed(message.to_string())
}

fn texts(list: &[&str]) -> Vec<String> {
    list.iter().map(|text| text.to_string()).collect()
}

fn command(program: Program, args: &[&str], dir: Option<&str>, capture: Capture) -> Action {
    let dir = dir.map(|path| path.to_string());
    Action::Run(Command { program, args: texts(args), dir, capture })
}

fn git(args: &[&str], dir: &str) -> Action {
    command(Program::Git, args, Some(dir), Capture::Output)
}

fn git_status(args: &[&str], dir: &str) -> Action {
    command(Program::Git, args, Some(dir), Capture::Status)
}

fn tmux_status(args: &[&str]) -> Action {
    command(Program::Tmux, args, None, Capture::Status)
}

fn has_session(name: &str) -> Action {
    command(Program::Tmux, &["has-session", "-t", name], None, Capture::QuietStatus)
}

fn is_there(path: &str) -> Action {
    Action::Exists(path.to_string())
}

/// Runs a procedure on ever longer logs. The result is what it asked for, and
/// what it came to if it came to an end.
fn play<T>(
    procedure: impl Fn(&[Reply], usize) -> Progress<T>,
    replies: Vec<Reply>,
) -> (Vec<Action>, Option<T>) {
    let mut asked = vec![];
    for read in 0..=replies.len() {
        match procedure(&replies[..read], 0) {
            Progress::Ask(action) => asked.push(action),
            Progress::Done(value, end) => {
                assert_eq!(end, read);
                return (asked, Some(value));
            }
        }
    }
    (asked, None)
}

fn rename(log: &[Reply], at: usize) -> Progress<Result<(), String>> {
    rename_worktree("/c/p", "p", "a/b", "x/y", false, log, at)
}

#[test]
fn branch_worktree_and_session_are_renamed() {
    let (asked, told) = play(rename, vec![yes(), no(), ok(""), ok(""), ok(""), ok("")]);
    let (old_path, new_path) = ("/c/p-worktrees/a-b", "/c/p-worktrees/x-y");
    assert_eq!(
        asked,
        [
            is_there(old_path),
            is_there(new_path),
            git(&["branch", "-m", "a/b", "x/y"], "/c/p"),
            git(&["worktree", "move", old_path, new_path], "/c/p"),
            has_session("p-a-b"),
            tmux_status(&["rename-session", "-t", "p-a-b", "p-x-y"]),
        ],
    );
    assert_eq!(told, Some(Ok(())));
}

#[test]
fn session_that_is_missing_is_not_renamed() {
    let (asked, told) = play(rename, vec![yes(), no(), ok(""), ok(""), bad("")]);
    assert_eq!(asked.len(), 5);
    assert_eq!(told, Some(Ok(())));
}

#[test]
fn session_is_not_renamed_where_sessions_are_left_alone() {
    let quietly =
        |log: &[Reply], at: usize| rename_worktree("/c/p", "p", "a", "x", true, log, at);
    let (asked, told) = play(quietly, vec![yes(), no(), ok(""), ok("")]);
    assert_eq!(asked.len(), 4);
    assert_eq!(told, Some(Ok(())));
}

#[test]
fn nothing_is_renamed_without_a_worktree() {
    let (asked, told) = play(rename, vec![no()]);
    assert_eq!(asked, [is_there("/c/p-worktrees/a-b")]);
    assert_eq!(told, Some(Err("No worktree directory found for branch 'a/b'".to_string())));
}

#[test]
fn nothing_is_renamed_where_the_new_place_is_taken() {
    let (asked, told) = play(rename, vec![yes(), yes()]);
    assert_eq!(asked.len(), 2);
    assert_eq!(told, Some(Err("Directory already exists: /c/p-worktrees/x-y".to_string())));
}

#[test]
fn branch_cannot_be_renamed() {
    let told = |reply: Reply| play(rename, vec![yes(), no(), reply]).1.unwrap();
    assert_eq!(told(bad("taken\n")), Err("Failed to rename branch:\ntaken".to_string()));
    assert_eq!(told(broken("x")), Err("Failed to run git: x".to_string()));
}

#[test]
fn branch_gets_its_name_back_if_the_worktree_stays() {
    let (asked, told) = play(rename, vec![yes(), no(), ok(""), bad("locked\n"), bad("")]);
    assert_eq!(asked[4], git_status(&["branch", "-m", "x/y", "a/b"], "/c/p"));
    let line = "Failed to move worktree (branch rename rolled back):\nlocked";
    assert_eq!(told, Some(Err(line.to_string())));
}

#[test]
fn move_that_git_never_saw_is_an_error() {
    let (asked, told) = play(rename, vec![yes(), no(), ok(""), broken("x")]);
    assert_eq!(asked.len(), 4);
    assert_eq!(told, Some(Err("Failed to run git: x".to_string())));
}
