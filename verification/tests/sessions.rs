use wt::flow::{Action, Capture, Command, Program, Progress, Reply};
use wt::tmux::{
    current_tmux_session, ensure_and_switch_tmux_session, ensure_tmux_session, handle_tmux_switch,
    kill_tmux_session, other_session, tmux_session_exists,
};

fn ok(stdout: &str) -> Reply {
    Reply::Output { success: true, stdout: stdout.as_bytes().to_vec(), stderr: vec![] }
}

fn bad(stderr: &str) -> Reply {
    Reply::Output { success: false, stdout: vec![], stderr: stderr.as_bytes().to_vec() }
}

fn yes() -> Reply {
    Reply::Answer(true)
}

fn broken(message: &str) -> Reply {
    Reply::Failed(message.to_string())
}

fn texts(list: &[&str]) -> Vec<String> {
    list.iter().map(|text| text.to_string()).collect()
}

fn command(program: Program, args: &[&str], dir: Option<&str>, capture: Capture) -> Action {
    let dir = dir.map(|path| path.to_string());
    Action::Run(Command { program, args: texts(args), dir, capture })
}

fn tmux(args: &[&str]) -> Action {
    command(Program::Tmux, args, None, Capture::Output)
}

fn tmux_status(args: &[&str]) -> Action {
    command(Program::Tmux, args, None, Capture::Status)
}

fn has_session(name: &str) -> Action {
    command(Program::Tmux, &["has-session", "-t", name], None, Capture::QuietStatus)
}

fn report(line: &str) -> Action {
    Action::Report(line.to_string())
}

/// Runs a procedure on ever longer logs. The result is what it asked for, and
/// what it came to if it came to an end.
fn play<T>(
    procedure: impl Fn(&[Reply], usize) -> Progress<T>,
    replies: Vec<Reply>,
) -> (Vec<Action>, Option<T>) {
    let mut asked = vec![];
    for read in 0..=replies.len() {
        match procedure(&replies[..read], 0) {
            Progress::Ask(action) => asked.push(action),
            Progress::Done(value, end) => {
                assert_eq!(end, read);
                return (asked, Some(value));
            }
        }
    }
    (asked, None)
}

#[test]
fn session_is_asked_for() {
    let ask = |log: &[Reply], at: usize| tmux_session_exists("p-x", log, at);
    let (asked, told) = play(ask, vec![ok("")]);
    assert_eq!(asked, [has_session("p-x")]);
    assert_eq!(told, Some(true));
    assert_eq!(play(ask, vec![bad("")]).1, Some(false));
    assert_eq!(play(ask, vec![broken("no tmux")]).1, Some(false));
}

#[test]
fn session_that_exists_is_not_created() {
    let ensure = |log: &[Reply], at: usize| ensure_tmux_session("s", "/w", log, at);
    let (asked, told) = play(ensure, vec![ok("")]);
    assert_eq!(asked, [has_session("s")]);
    assert_eq!(told, Some(Ok(false)));
}

#[test]
fn session_is_created_where_it_is_missing() {
    let ensure = |log: &[Reply], at: usize| ensure_tmux_session("s", "/w", log, at);
    let (asked, told) = play(ensure, vec![bad(""), ok("")]);
    assert_eq!(asked[1], tmux(&["new-session", "-d", "-s", "s", "-c", "/w"]));
    assert_eq!(told, Some(Ok(true)));
}

#[test]
fn session_cannot_be_created() {
    let ensure = |log: &[Reply], at: usize| ensure_tmux_session("s", "/w", log, at);
    let told = |reply: Reply| play(ensure, vec![bad(""), reply]).1.unwrap();
    assert_eq!(told(bad("dup\n")), Err("Failed to create tmux session:\ndup".to_string()));
    assert_eq!(told(broken("x")), Err("Failed to run tmux: x".to_string()));
}

#[test]
fn client_is_switched_to_a_session() {
    let go = |log: &[Reply], at: usize| ensure_and_switch_tmux_session("s", "/w", true, log, at);
    let (asked, told) = play(go, vec![ok(""), ok("")]);
    assert_eq!(asked, [has_session("s"), tmux(&["switch-client", "-t", "s"])]);
    assert_eq!(told, Some(Ok(())));
}

#[test]
fn client_cannot_be_switched() {
    let go = |log: &[Reply], at: usize| ensure_and_switch_tmux_session("s", "/w", true, log, at);
    let told = |replies: Vec<Reply>| play(go, replies).1.unwrap();
    assert_eq!(
        told(vec![ok(""), bad("lost\n")]),
        Err("Failed to switch tmux session:\nlost".to_string()),
    );
    assert_eq!(
        told(vec![bad(""), bad("dup\n")]),
        Err("Failed to create tmux session:\ndup".to_string()),
    );
}

#[test]
fn tmux_that_cannot_be_run_is_passed_over() {
    let go = |log: &[Reply], at: usize| ensure_and_switch_tmux_session("s", "/w", true, log, at);
    let (asked, told) = play(go, vec![broken("x"), broken("x")]);
    assert_eq!(
        asked,
        [has_session("s"), tmux(&["new-session", "-d", "-s", "s", "-c", "/w"])],
    );
    assert_eq!(told, Some(Ok(())));
    assert_eq!(play(go, vec![ok(""), broken("x")]).1, Some(Ok(())));
    assert_eq!(play(go, vec![bad(""), broken("x")]).1, Some(Ok(())));
}

#[test]
fn tmux_that_cannot_be_run_switches_nothing() {
    let go = |log: &[Reply], at: usize| handle_tmux_switch("p", "b", "/w", false, true, log, at);
    let (asked, told) = play(go, vec![broken("x"), broken("x"), broken("x")]);
    assert!(asked.iter().all(|action| matches!(action, Action::Run(_))));
    assert_eq!(told, Some(false));
    assert_eq!(play(go, vec![ok("o\n"), ok(""), broken("x")]).1, Some(false));
    assert_eq!(play(go, vec![ok("o\n"), bad(""), ok(""), broken("x")]).1, Some(false));
}

#[test]
fn nothing_is_switched_outside_of_tmux() {
    let go = |log: &[Reply], at: usize| ensure_and_switch_tmux_session("s", "/w", false, log, at);
    assert_eq!(play(go, vec![]), (vec![], Some(Ok(()))));
}

#[test]
fn current_session_is_told_inside_of_tmux() {
    let current = |log: &[Reply], at: usize| current_tmux_session(true, log, at);
    let (asked, told) = play(current, vec![ok("p-x\n")]);
    assert_eq!(asked, [tmux(&["display-message", "-p", "#S"])]);
    assert_eq!(told, Some(Some("p-x".to_string())));
    assert_eq!(play(current, vec![broken("x")]).1, Some(None));
    assert_eq!(play(current, vec![bad("x")]).1, Some(Some(String::new())));
    let outside = |log: &[Reply], at: usize| current_tmux_session(false, log, at);
    assert_eq!(play(outside, vec![]), (vec![], Some(None)));
}

#[test]
fn other_session_is_the_first_with_another_name() {
    assert_eq!(other_session("s\na\nb\n", "s"), Some("a".to_string()));
    assert_eq!(other_session("a\ns\n", "s"), Some("a".to_string()));
    assert_eq!(other_session("s\ns\n", "s"), None);
    assert_eq!(other_session("", "s"), None);
}

#[test]
fn session_that_is_missing_is_not_killed() {
    let kill = |log: &[Reply], at: usize| kill_tmux_session("s", true, log, at);
    assert_eq!(play(kill, vec![bad("")]), (vec![has_session("s")], Some(())));
}

#[test]
fn client_moves_away_from_the_session_that_is_killed() {
    let kill = |log: &[Reply], at: usize| kill_tmux_session("s", true, log, at);
    let (asked, told) = play(kill, vec![ok(""), ok("s\n"), ok("s\na\n"), ok(""), ok("")]);
    assert_eq!(
        asked,
        [
            has_session("s"),
            tmux(&["display-message", "-p", "#S"]),
            tmux(&["list-sessions", "-F", "#S"]),
            tmux_status(&["switch-client", "-t", "a"]),
            tmux_status(&["kill-session", "-t", "s"]),
        ],
    );
    assert_eq!(told, Some(()));
}

#[test]
fn client_stays_where_there_is_no_other_session() {
    let kill = |log: &[Reply], at: usize| kill_tmux_session("s", true, log, at);
    let (asked, told) = play(kill, vec![ok(""), ok("s\n"), ok("s\n"), bad("")]);
    assert_eq!(asked[3], tmux_status(&["kill-session", "-t", "s"]));
    assert_eq!(told, Some(()));
    let (asked, _) = play(kill, vec![ok(""), ok("s\n"), broken("x"), ok("")]);
    assert_eq!(asked[3], tmux_status(&["kill-session", "-t", "s"]));
}

#[test]
fn client_stays_where_it_shows_another_session() {
    let kill = |log: &[Reply], at: usize| kill_tmux_session("s", true, log, at);
    let (asked, _) = play(kill, vec![ok(""), ok("a\n"), ok("")]);
    assert_eq!(asked[2], tmux_status(&["kill-session", "-t", "s"]));
    let outside = |log: &[Reply], at: usize| kill_tmux_session("s", false, log, at);
    let (asked, _) = play(outside, vec![ok(""), ok("")]);
    assert_eq!(asked, [has_session("s"), tmux_status(&["kill-session", "-t", "s"])]);
}

#[test]
fn worktree_is_switched_to_in_its_session() {
    let go =
        |log: &[Reply], at: usize| handle_tmux_switch("p", "a/b", "/w", false, true, log, at);
    let (asked, told) = play(go, vec![ok("other\n"), ok(""), ok("")]);
    assert_eq!(
        asked,
        [
            tmux(&["display-message", "-p", "#S"]),
            has_session("p-a-b"),
            tmux(&["switch-client", "-t", "p-a-b"]),
        ],
    );
    assert_eq!(told, Some(true));
    assert_eq!(play(go, vec![ok("p-a-b\n"), ok(""), ok("")]).1, Some(false));
    assert_eq!(play(go, vec![broken("x"), ok(""), ok("")]).1, Some(true));
}

#[test]
fn failed_switch_is_reported() {
    let go = |log: &[Reply], at: usize| handle_tmux_switch("p", "b", "/w", false, true, log, at);
    let (asked, told) = play(go, vec![ok("o\n"), ok(""), bad("lost\n"), yes()]);
    assert_eq!(asked[3], report("Warning: Failed to switch tmux session:\nlost"));
    assert_eq!(told, Some(false));
}

#[test]
fn sessions_are_left_alone_where_that_is_wanted() {
    let unwanted =
        |log: &[Reply], at: usize| handle_tmux_switch("p", "b", "/w", true, true, log, at);
    assert_eq!(play(unwanted, vec![]), (vec![], Some(false)));
    let outside =
        |log: &[Reply], at: usize| handle_tmux_switch("p", "b", "/w", false, false, log, at);
    assert_eq!(play(outside, vec![]), (vec![], Some(false)));
}
