use wt::cli::{find_worktree, run, Cli, Commands, SHELL_INIT};
use wt::flow::{Action, Capture, Command, Env, GlobalConfig, Program, Progress, Reply};
use wt::global::{die, run_global_mode, run_sessions, Exit};
use wt::repo::Worktree;

fn ok(stdout: &str) -> Reply {
    Reply::Output { success: true, stdout: stdout.as_bytes().to_vec(), stderr: vec![] }
}

fn bad(stderr: &str) -> Reply {
    Reply::Output { success: false, stdout: vec![], stderr: stderr.as_bytes().to_vec() }
}

fn yes() -> Reply {
    Reply::Answer(true)
}

fn no() -> Reply {
    Reply::Answer(false)
}

fn broken(message: &str) -> Reply {
    Reply::Failed(message.to_string())
}

fn texts(list: &[&str]) -> Vec<String> {
    list.iter().map(|text| text.to_string()).collect()
}

fn command(program: Program, args: &[&str], dir: Option<&str>, capture: Capture) -> Action {
    let dir = dir.map(|path| path.to_string());
    Action::Run(Command { program, args: texts(args), dir, capture })
}

fn git(args: &[&str], dir: &str) -> Action {
    command(Program::Git, args, Some(dir), Capture::Output)
}

fn git_here(args: &[&str]) -> Action {
    command(Program::Git, args, None, Capture::Output)
}

fn tmux(args: &[&str]) -> Action {
    command(Program::Tmux, args, None, Capture::Output)
}

fn tmux_status(args: &[&str]) -> Action {
    command(Program::Tmux, args, None, Capture::Status)
}

fn has_session(name: &str) -> Action {
    command(Program::Tmux, &["has-session", "-t", name], None, Capture::QuietStatus)
}

fn is_there(path: &str) -> Action {
    Action::Exists(path.to_string())
}

fn report(line: &str) -> Action {
    Action::Report(line.to_string())
}

/// Runs a procedure on ever longer logs. The result is what it asked for, and
/// what it came to if it came to an end.
fn play<T>(
    procedure: impl Fn(&[Reply], usize) -> Progress<T>,
    replies: Vec<Reply>,
) -> (Vec<Action>, Option<T>) {
    let mut asked = vec![];
    for read in 0..=replies.len() {
        match procedure(&replies[..read], 0) {
            Progress::Ask(action) => asked.push(action),
            Progress::Done(value, end) => {
                assert_eq!(end, read);
                return (asked, Some(value));
            }
        }
    }
    (asked, None)
}

const LISTING: &str = "worktree /c/p\nHEAD 1\nbranch refs/heads/main\n\n\
    worktree /c/p-worktrees/a-b\nHEAD 2\nbranch refs/heads/a/b\n\n\
    worktree /c/p-worktrees/c\nHEAD 3\nbranch refs/heads/c\n\n";

const OTHER: &str = "worktree /d/q\nHEAD 1\nbranch refs/heads/main\n\n\
    worktree /d/q-worktrees/c\nHEAD 2\nbranch refs/heads/c\n\n";

fn cli() -> Cli {
    Cli {
        branch: None,
        create: false,
        remove: false,
        shell_init: false,
        base: None,
        no_session: false,
        global: false,
        help: false,
        command: None,
    }
}

fn on(branch: &str) -> Cli {
    Cli { branch: Some(branch.to_string()), ..cli() }
}

fn env(in_tmux: bool) -> Env {
    Env { home: Some("/h".to_string()), in_tmux, timestamp: "77".to_string() }
}

fn start(cli: &Cli, in_tmux: bool, replies: Vec<Reply>) -> (Vec<Action>, Option<Exit>) {
    let env = env(in_tmux);
    play(|log: &[Reply], _at: usize| run(cli, &env, log), replies)
}

fn print(line: &str) -> Action {
    Action::Print(line.to_string())
}

fn select(options: &[&str]) -> Action {
    Action::Select { question: "Select a worktree:".to_string(), options: texts(options) }
}

fn chosen(line: &str) -> Reply {
    Reply::Chosen(line.to_string())
}

fn listed() -> Action {
    git(&["worktree", "list", "--porcelain"], "/c/p")
}

fn configured(repos: &[&str]) -> Reply {
    Reply::Global(GlobalConfig { repos: texts(repos), archive_dir: None })
}

#[test]
fn help_is_shown() {
    let cli = Cli { help: true, shell_init: true, ..cli() };
    assert_eq!(
        start(&cli, true, vec![yes()]),
        (vec![Action::ShowHelp], Some(Exit::Success)),
    );
}

#[test]
fn shell_function_is_printed() {
    let cli = Cli { shell_init: true, global: true, ..cli() };
    assert_eq!(
        start(&cli, true, vec![yes()]),
        (vec![print(SHELL_INIT)], Some(Exit::Success)),
    );
}

#[test]
fn shell_function_changes_to_the_printed_directory() {
    let lines: Vec<&str> = SHELL_INIT.lines().collect();
    assert_eq!(
        lines,
        [
            "# Add this function to your shell config (~/.bashrc, ~/.zshrc, etc.)",
            "wt() {",
            "    local target",
            "    target=$(command wt \"$@\")",
            "    local code=$?",
            "    if [ $code -eq 0 ] && [ -n \"$target\" ]; then",
            "        if [ -d \"$target\" ]; then",
            "            cd \"$target\"",
            "        else",
            "            echo \"$target\"",
            "        fi",
            "    fi",
            "    return $code",
            "}",
        ],
    );
}

#[test]
fn worktree_is_found_by_its_branch() {
    let worktrees = vec![
        Worktree { branch: "a".to_string(), path: "/1".to_string() },
        Worktree { branch: "b".to_string(), path: "/2".to_string() },
        Worktree { branch: "b".to_string(), path: "/3".to_string() },
    ];
    assert_eq!(find_worktree(&worktrees, "b").map(|w| w.path.as_str()), Some("/2"));
    assert_eq!(find_worktree(&worktrees, "c"), None);
}

#[test]
fn every_offered_worktree_can_be_chosen() {
    for (branch, path) in [("a/b", "/c/p-worktrees/a-b"), ("c", "/c/p-worktrees/c")] {
        let replies = vec![ok(LISTING), ok(LISTING), chosen(branch), yes()];
        let (asked, exit) = start(&cli(), false, replies);
        assert_eq!(asked[1], listed());
        assert_eq!(asked[2], select(&["a/b", "c"]));
        assert_eq!(asked[3], print(path));
        assert_eq!(exit, Some(Exit::Success));
    }
}

#[test]
fn choice_that_is_called_off_fails() {
    let (asked, exit) = start(&cli(), false, vec![ok(LISTING), ok(LISTING), broken("esc")]);
    assert_eq!(asked.len(), 3);
    assert_eq!(exit, Some(Exit::Failure));
}

#[test]
fn nothing_is_offered_where_there_are_no_worktrees() {
    let alone = "worktree /c/p\nHEAD 1\nbranch refs/heads/main\n\n";
    let (asked, exit) = start(&cli(), false, vec![ok(alone), ok(alone), yes()]);
    assert_eq!(asked[2], report("Error: No worktrees found. Use -c <branch> to create one."));
    assert_eq!(exit, Some(Exit::Failure));
}

#[test]
fn program_switches_to_the_worktree_of_a_branch() {
    let (asked, exit) = start(&on("a/b"), false, vec![ok(LISTING), ok(LISTING), yes()]);
    assert_eq!(asked[2], print("/c/p-worktrees/a-b"));
    assert_eq!(exit, Some(Exit::Success));
}

#[test]
fn nothing_is_printed_once_the_session_was_switched() {
    let replies = vec![ok(LISTING), ok(LISTING), ok("x\n"), ok(""), ok("")];
    let (asked, exit) = start(&on("a/b"), true, replies);
    assert_eq!(asked[4], tmux(&["switch-client", "-t", "p-a-b"]));
    assert_eq!(asked.len(), 5);
    assert_eq!(exit, Some(Exit::Success));
}

#[test]
fn directory_is_printed_where_the_session_is_already_shown() {
    let replies = vec![ok(LISTING), ok(LISTING), ok("p-a-b\n"), ok(""), ok(""), yes()];
    let (asked, exit) = start(&on("a/b"), true, replies);
    assert_eq!(asked[5], print("/c/p-worktrees/a-b"));
    assert_eq!(exit, Some(Exit::Success));
}

#[test]
fn directory_is_printed_where_tmux_cannot_be_run() {
    let gone = || broken("no such file");
    let replies = vec![ok(LISTING), ok(LISTING), gone(), gone(), gone(), yes()];
    let (asked, exit) = start(&on("a/b"), true, replies);
    assert!(!asked.iter().any(|action| matches!(action, Action::Report(_))));
    assert_eq!(asked[5], print("/c/p-worktrees/a-b"));
    assert_eq!(exit, Some(Exit::Success));
}

#[test]
fn no_session_is_touched_where_sessions_are_left_alone() {
    let cli = Cli { no_session: true, ..on("a/b") };
    let (asked, _) = start(&cli, true, vec![ok(LISTING), ok(LISTING), yes()]);
    assert_eq!(asked[2], print("/c/p-worktrees/a-b"));
}

#[test]
fn missing_worktree_is_created_if_the_user_agrees() {
    let (asked, exit) = start(&on("z"), false, vec![ok(LISTING), ok(LISTING), yes(), no()]);
    assert_eq!(asked[2], report("No worktree found for branch 'z'."));
    let question = "Create a new worktree for this branch?".to_string();
    assert_eq!(asked[3], Action::Confirm { question, default: true });
    assert_eq!(exit, Some(Exit::Failure));
    let replies = vec![
        ok(LISTING),
        ok(LISTING),
        yes(),
        yes(),
        yes(),
        ok(""),
        ok("refs/remotes/origin/main\n"),
        no(),
        yes(),
        bad(""),
        ok(""),
        no(),
        yes(),
    ];
    let (asked, exit) = start(&on("z"), false, replies);
    let path = "/c/p-worktrees/z";
    assert_eq!(asked[10], git(&["worktree", "add", "-b", "z", path, "origin/main"], "/c/p"));
    assert_eq!(asked[12], print(path));
    assert_eq!(exit, Some(Exit::Success));
}

#[test]
fn worktree_is_created_on_demand() {
    let cli = Cli { create: true, base: Some("v1".to_string()), ..on("z/y") };
    let replies = vec![ok(LISTING), yes(), ok(""), no(), yes(), bad(""), ok(""), no(), yes()];
    let (asked, exit) = start(&cli, false, replies);
    assert_eq!(asked[1], report("Fetching origin..."));
    assert_eq!(asked[2], git(&["fetch", "origin"], "/c/p"));
    let path = "/c/p-worktrees/z-y";
    assert_eq!(asked[6], git(&["worktree", "add", "-b", "z/y", path, "v1"], "/c/p"));
    assert_eq!(asked[8], print(path));
    assert_eq!(exit, Some(Exit::Success));
}

#[test]
fn creation_that_fails_is_reported() {
    let cli = Cli { create: true, base: Some("v1".to_string()), ..on("z") };
    let (asked, exit) = start(&cli, false, vec![ok(LISTING), yes(), ok(""), yes(), yes()]);
    assert_eq!(asked[4], report("Error: Directory already exists: /c/p-worktrees/z"));
    assert_eq!(exit, Some(Exit::Failure));
}

#[test]
fn branch_is_required_to_create_or_remove() {
    let create = Cli { create: true, ..cli() };
    let (asked, exit) = start(&create, false, vec![ok(LISTING), yes()]);
    assert_eq!(asked[1], report("Error: branch name is required with --create"));
    assert_eq!(exit, Some(Exit::Failure));
    let remove = Cli { remove: true, ..cli() };
    let (asked, exit) = start(&remove, false, vec![ok(LISTING), yes()]);
    assert_eq!(asked[1], report("Error: branch name is required with --remove"));
    assert_eq!(exit, Some(Exit::Failure));
}

#[test]
fn worktree_is_removed_with_its_session() {
    let cli = Cli { remove: true, ..on("a/b") };
    let replies = vec![ok(LISTING), ok(LISTING), ok(""), ok(""), ok(""), ok(""), yes()];
    let (asked, exit) = start(&cli, false, replies);
    assert_eq!(
        asked[2..],
        [
            git(&["status", "--porcelain"], "/c/p-worktrees/a-b"),
            git(&["worktree", "remove", "/c/p-worktrees/a-b"], "/c/p"),
            has_session("p-a-b"),
            tmux_status(&["kill-session", "-t", "p-a-b"]),
            report("Removed worktree for branch 'a/b'."),
        ],
    );
    assert_eq!(exit, Some(Exit::Success));
}

#[test]
fn worktree_with_changes_is_removed_only_if_the_user_agrees() {
    let cli = Cli { remove: true, no_session: true, ..on("c") };
    let replies = vec![ok(LISTING), ok(LISTING), ok("?? x"), no(), yes()];
    let (asked, exit) = start(&cli, false, replies);
    let question = "Worktree 'c' has uncommitted changes. Remove anyway?".to_string();
    assert_eq!(asked[3], Action::Confirm { question, default: false });
    assert_eq!(asked[4], report("Aborted."));
    assert_eq!(exit, Some(Exit::Failure));
    let replies = vec![ok(LISTING), ok(LISTING), ok("?? x"), yes(), ok(""), yes()];
    let (asked, exit) = start(&cli, false, replies);
    assert_eq!(asked[4], git(&["worktree", "remove", "--force", "/c/p-worktrees/c"], "/c/p"));
    assert_eq!(asked.len(), 6);
    assert_eq!(exit, Some(Exit::Success));
}

#[test]
fn worktree_to_remove_is_not_found() {
    let cli = Cli { remove: true, ..on("zz") };
    let (asked, exit) = start(&cli, false, vec![ok(LISTING), ok(LISTING), yes()]);
    assert_eq!(asked[2], report("Error: no worktree found for branch 'zz'"));
    assert_eq!(exit, Some(Exit::Failure));
    let cli = Cli { remove: true, ..on("c") };
    let (asked, exit) = start(&cli, false, vec![ok(LISTING), bad("oops"), yes()]);
    assert_eq!(asked[2], report("Error: oops"));
    assert_eq!(exit, Some(Exit::Failure));
    let replies = vec![ok(LISTING), ok(LISTING), ok(""), bad("busy"), yes()];
    let (asked, exit) = start(&cli, false, replies);
    assert_eq!(asked[4], report("Error: Failed to remove worktree:\nbusy"));
    assert_eq!(exit, Some(Exit::Failure));
}

#[test]
fn worktrees_that_cannot_be_listed_are_an_error() {
    for cli in [cli(), on("c")] {
        let (asked, exit) = start(&cli, false, vec![ok(LISTING), bad("oops"), yes()]);
        assert_eq!(asked[2], report("Error: oops"));
        assert_eq!(exit, Some(Exit::Failure));
    }
}

#[test]
fn current_branch_is_renamed_by_default() {
    let rename = Commands::Rename { new_branch: "n".to_string(), from: None };
    let cli = Cli { command: Some(rename), no_session: true, ..cli() };
    let replies = vec![ok(LISTING), ok("c\n"), yes(), no(), ok(""), ok(""), yes()];
    let (asked, exit) = start(&cli, false, replies);
    assert_eq!(asked[4], git(&["branch", "-m", "c", "n"], "/c/p"));
    assert_eq!(asked[6], report("Renamed 'c' to 'n'."));
    assert_eq!(exit, Some(Exit::Success));
    let (asked, exit) = start(&cli, false, vec![ok(LISTING), bad("no head"), yes()]);
    assert_eq!(asked[2], report("Error: no head"));
    assert_eq!(exit, Some(Exit::Failure));
}

#[test]
fn named_branch_is_renamed() {
    let from = Some("c".to_string());
    let rename = Commands::Rename { new_branch: "n".to_string(), from };
    let cli = Cli { command: Some(rename), ..cli() };
    let (asked, exit) = start(&cli, false, vec![ok(LISTING), no(), yes()]);
    assert_eq!(asked[1], is_there("/c/p-worktrees/c"));
    assert_eq!(asked[2], report("Error: No worktree directory found for branch 'c'"));
    assert_eq!(exit, Some(Exit::Failure));
}

#[test]
fn branch_is_destroyed_after_a_backup() {
    let destroy = Commands::Destroy { branch: Some("c".to_string()) };
    let cli = Cli { command: Some(destroy), no_session: true, ..cli() };
    let archive_dir = Some("~/old".to_string());
    let replies = vec![
        ok(LISTING),
        Reply::Global(GlobalConfig { repos: vec![], archive_dir }),
        yes(),
        ok(""),
        yes(),
        no(),
        yes(),
        ok(""),
        ok(""),
        ok(""),
        ok(""),
        bad(""),
        yes(),
    ];
    let (asked, exit) = start(&cli, false, replies);
    assert_eq!(asked[1], Action::LoadGlobalConfig("/h/.config/wt/config.toml".to_string()));
    assert_eq!(asked[5], is_there("/h/old/p-c-77"));
    assert_eq!(asked[6], Action::CreateDirs("/h/old".to_string()));
    assert_eq!(asked[9], git(&["worktree", "remove", "/c/p-worktrees/c"], "/c/p"));
    assert_eq!(asked[12], report("Destroyed 'c'."));
    assert_eq!(exit, Some(Exit::Success));
}

#[test]
fn current_branch_is_destroyed_by_default() {
    let cli = Cli { command: Some(Commands::Destroy { branch: None }), ..cli() };
    let replies = vec![ok(LISTING), ok("c\n"), no(), yes(), ok(" M x"), no(), yes()];
    let (asked, exit) = start(&cli, false, replies);
    assert_eq!(asked[1], git_here(&["rev-parse", "--abbrev-ref", "HEAD"]));
    assert_eq!(asked[6], report("Error: Aborted."));
    assert_eq!(exit, Some(Exit::Failure));
    let (asked, exit) = start(&cli, false, vec![ok(LISTING), bad("no head"), yes()]);
    assert_eq!(asked[2], report("Error: no head"));
    assert_eq!(exit, Some(Exit::Failure));
}

#[test]
fn subcommand_outside_of_a_repository_fails() {
    for cli in [on("c"), Cli { create: true, ..on("c") }] {
        let (asked, exit) = start(&cli, false, vec![bad("not a repo"), yes()]);
        assert_eq!(asked[1], report("Error: not a repo"));
        assert_eq!(exit, Some(Exit::Failure));
    }
}

#[test]
fn plain_call_outside_of_a_repository_is_global() {
    let replies = vec![
        bad("not a repo"),
        configured(&["~/x", "/c/p", "/d/q"]),
        bad("gone"),
        yes(),
        ok(LISTING),
        ok(OTHER),
        chosen("q: c"),
        yes(),
    ];
    let (asked, exit) = start(&cli(), false, replies);
    assert_eq!(asked[2], git(&["worktree", "list", "--porcelain"], "/h/x"));
    assert_eq!(asked[3], report("Warning: /h/x: gone"));
    assert_eq!(asked[6], select(&["p: a/b", "p: c", "q: c"]));
    assert_eq!(asked[7], print("/d/q-worktrees/c"));
    assert_eq!(exit, Some(Exit::Success));
}

#[test]
fn global_option_needs_no_repository() {
    let cli = Cli { global: true, ..cli() };
    let replies = vec![configured(&["/c/p"]), ok(LISTING), chosen("p: a/b"), yes()];
    let (asked, exit) = start(&cli, false, replies);
    assert_eq!(asked[2], select(&["p: a/b", "p: c"]));
    assert_eq!(asked[3], print("/c/p-worktrees/a-b"));
    assert_eq!(exit, Some(Exit::Success));
}

#[test]
fn global_mode_needs_repositories_and_worktrees() {
    let env = env(false);
    let global = |log: &[Reply], at: usize| run_global_mode(&env, false, log, at);
    let (asked, exit) = play(global, vec![configured(&[]), yes()]);
    let line = "Error: Not in a git repo and no repos configured in ~/.config/wt/config.toml";
    assert_eq!(asked[1], report(line));
    assert_eq!(exit, Some(Exit::Failure));
    let (asked, exit) = play(global, vec![configured(&["/c/p"]), ok(""), yes()]);
    assert_eq!(asked[2], report("Error: No worktrees found in any configured repo."));
    assert_eq!(exit, Some(Exit::Failure));
    let (_, exit) = play(global, vec![configured(&["/c/p"]), ok(LISTING), broken("esc")]);
    assert_eq!(exit, Some(Exit::Failure));
}

#[test]
fn sessions_are_created_for_all_worktrees() {
    let cli = Cli { command: Some(Commands::Sessions), ..cli() };
    let replies = vec![
        configured(&["/c/p", "/none", "/d/q"]),
        ok(LISTING),
        bad(""),
        ok(""),
        yes(),
        ok(""),
        broken("x"),
        yes(),
        ok(OTHER),
        bad(""),
        bad("dup"),
        yes(),
        yes(),
    ];
    let (asked, exit) = start(&cli, false, replies);
    assert_eq!(
        asked,
        [
            Action::LoadGlobalConfig("/h/.config/wt/config.toml".to_string()),
            listed(),
            has_session("p-a-b"),
            tmux(&["new-session", "-d", "-s", "p-a-b", "-c", "/c/p-worktrees/a-b"]),
            report("Created: p-a-b"),
            has_session("p-c"),
            git(&["worktree", "list", "--porcelain"], "/none"),
            report("Warning: /none: Failed to run git: x"),
            git(&["worktree", "list", "--porcelain"], "/d/q"),
            has_session("q-c"),
            tmux(&["new-session", "-d", "-s", "q-c", "-c", "/d/q-worktrees/c"]),
            report("Warning: q-c: Failed to create tmux session:\ndup"),
            report("Done. 3 worktrees, 1 created, 1 already existed."),
        ],
    );
    assert_eq!(exit, Some(Exit::Success));
}

#[test]
fn sessions_need_configured_repositories() {
    let env = env(true);
    let sessions = |log: &[Reply], at: usize| run_sessions(&env, log, at);
    let (asked, exit) = play(sessions, vec![no(), yes()]);
    assert_eq!(asked[1], report("Error: No repos configured in ~/.config/wt/config.toml"));
    assert_eq!(exit, Some(Exit::Failure));
}

#[test]
fn fatal_message_ends_the_program() {
    let fatal = |log: &[Reply], at: usize| die("oops", log, at);
    assert_eq!(play(fatal, vec![yes()]), (vec![report("Error: oops")], Some(Exit::Failure)));
}

#[test]
fn longer_log_does_not_change_the_end() {
    let replies = vec![ok(LISTING), ok(LISTING), yes(), no(), bad("more")];
    let env = env(false);
    let cli = on("a/b");
    assert_eq!(run(&cli, &env, &replies[..3]), Progress::Done(Exit::Success, 3));
    assert_eq!(run(&cli, &env, &replies), Progress::Done(Exit::Success, 3));
    assert!(matches!(run(&cli, &env, &replies[..2]), Progress::Ask(_)));
}
