use wt::config::{read_config, read_global_config};
use wt::create::{apply_symlinks, create_worktree, resolve_base};
use wt::flow::{Action, Capture, Command, GlobalConfig, Program, Progress, Reply, WtConfig};
use wt::remove::remove_worktree;
use wt::repo::Worktree;

fn ok(stdout: &str) -> Reply {
    Reply::Output { success: true, stdout: stdout.as_bytes().to_vec(), stderr: vec![] }
}

fn bad(stderr: &str) -> Reply {
    Reply::Output { success: false, stdout: vec![], stderr: stderr.as_bytes().to_vec() }
}

fn yes() -> Reply {
    Reply::Answer(true)
}

fn no() -> Reply {
    Reply::Answer(false)
}

fn broken(message: &str) -> Reply {
    Reply::Failed(message.to_string())
}

fn texts(list: &[&str]) -> Vec<String> {
    list.iter().map(|text| text.to_string()).collect()
}

fn command(program: Program, args: &[&str], dir: Option<&str>, capture: Capture) -> Action {
    let dir = dir.map(|path| path.to_string());
    Action::Run(Command { program, args: texts(args), dir, capture })
}

fn git(args: &[&str], dir: &str) -> Action {
    command(Program::Git, args, Some(dir), Capture::Output)
}

fn git_status(args: &[&str], dir: &str) -> Action {
    command(Program::Git, args, Some(dir), Capture::Status)
}

fn is_there(path: &str) -> Action {
    Action::Exists(path.to_string())
}

fn report(line: &str) -> Action {
    Action::Report(line.to_string())
}

/// Runs a procedure on ever longer logs. The result is what it asked for, and
/// what it came to if it came to an end.
fn play<T>(
    procedure: impl Fn(&[Reply], usize) -> Progress<T>,
    replies: Vec<Reply>,
) -> (Vec<Action>, Option<T>) {
    let mut asked = vec![];
    for read in 0..=replies.len() {
        match procedure(&replies[..read], 0) {
            Progress::Ask(action) => asked.push(action),
            Progress::Done(value, end) => {
                assert_eq!(end, read);
                return (asked, Some(value));
            }
        }
    }
    (asked, None)
}

fn symlink(source: &str, link: &str) -> Action {
    Action::Symlink { source: source.to_string(), link: link.to_string() }
}

fn create_dirs(path: &str) -> Action {
    Action::CreateDirs(path.to_string())
}

fn is_symlink(path: &str) -> Action {
    Action::IsSymlink(path.to_string())
}

#[test]
fn user_configuration_is_read() {
    let read = |log: &[Reply], at: usize| read_global_config(Some("/h"), log, at);
    let config = || GlobalConfig {
        repos: texts(&["~/a", "/b"]),
        archive_dir: Some("~/old".to_string()),
    };
    let (asked, told) = play(read, vec![Reply::Global(config())]);
    assert_eq!(asked, [Action::LoadGlobalConfig("/h/.config/wt/config.toml".to_string())]);
    assert_eq!(told, Some(config()));
}

#[test]
fn missing_user_configuration_is_empty() {
    let read = |log: &[Reply], at: usize| read_global_config(Some("/h"), log, at);
    assert_eq!(play(read, vec![no()]).1, Some(GlobalConfig::default()));
    let homeless = |log: &[Reply], at: usize| read_global_config(None, log, at);
    assert_eq!(play(homeless, vec![]), (vec![], Some(GlobalConfig::default())));
    assert_eq!(GlobalConfig::default(), GlobalConfig { repos: vec![], archive_dir: None });
}

#[test]
fn user_configuration_that_cannot_be_parsed_is_reported() {
    let read = |log: &[Reply], at: usize| read_global_config(Some("/h"), log, at);
    let (asked, told) = play(read, vec![broken("bad key"), yes()]);
    let line = "Warning: failed to parse /h/.config/wt/config.toml: bad key";
    assert_eq!(asked[1], report(line));
    assert_eq!(told, Some(GlobalConfig::default()));
}

#[test]
fn repository_configuration_is_read() {
    let read = |log: &[Reply], at: usize| read_config("/p", log, at);
    let config = || WtConfig { symlinks: texts(&[".env", "a/b"]) };
    let (asked, told) = play(read, vec![Reply::Repo(config())]);
    assert_eq!(asked, [Action::LoadRepoConfig("/p/.wt.toml".to_string())]);
    assert_eq!(told, Some(config()));
    assert_eq!(play(read, vec![no()]).1, Some(WtConfig::default()));
    assert_eq!(WtConfig::default(), WtConfig { symlinks: vec![] });
}

#[test]
fn repository_configuration_that_cannot_be_parsed_is_reported() {
    let read = |log: &[Reply], at: usize| read_config("/p", log, at);
    let (asked, told) = play(read, vec![broken("bad"), yes()]);
    assert_eq!(asked[1], report("Warning: failed to parse .wt.toml: bad"));
    assert_eq!(told, Some(WtConfig::default()));
}

#[test]
fn entries_are_linked_into_a_worktree() {
    let entries = texts(&["cfg/.env"]);
    let link = |log: &[Reply], at: usize| apply_symlinks("/p", "/w", &entries, log, at);
    let (asked, told) = play(link, vec![yes(), no(), no(), yes(), yes()]);
    assert_eq!(
        asked,
        [
            is_there("/p/cfg/.env"),
            is_there("/w/cfg/.env"),
            is_symlink("/w/cfg/.env"),
            create_dirs("/w/cfg"),
            symlink("/p/cfg/.env", "/w/cfg/.env"),
        ],
    );
    assert_eq!(told, Some(()));
}

#[test]
fn link_replaces_nothing() {
    let entries = texts(&["a", "b", "c"]);
    let link = |log: &[Reply], at: usize| apply_symlinks("/p", "/w", &entries, log, at);
    let replies = vec![
        no(),
        yes(),
        yes(),
        yes(),
        yes(),
        yes(),
        no(),
        yes(),
        yes(),
    ];
    let (asked, told) = play(link, replies);
    assert_eq!(
        asked,
        [
            is_there("/p/a"),
            report("Warning: symlink source missing in main repo: a"),
            is_there("/p/b"),
            is_there("/w/b"),
            report("Warning: skipping symlink, destination already exists: b"),
            is_there("/p/c"),
            is_there("/w/c"),
            is_symlink("/w/c"),
            report("Warning: skipping symlink, destination already exists: c"),
        ],
    );
    assert_eq!(told, Some(()));
}

#[test]
fn link_that_fails_does_not_stop_the_others() {
    let entries = texts(&["a", "b"]);
    let link = |log: &[Reply], at: usize| apply_symlinks("/p", "/w", &entries, log, at);
    let replies = vec![
        yes(),
        no(),
        no(),
        broken("full"),
        yes(),
        yes(),
        no(),
        no(),
        yes(),
        broken("denied"),
        yes(),
    ];
    let (asked, told) = play(link, replies);
    assert_eq!(asked[4], report("Warning: could not create parent for a: full"));
    assert_eq!(asked[9], symlink("/p/b", "/w/b"));
    assert_eq!(asked[10], report("Warning: failed to symlink b: denied"));
    assert_eq!(told, Some(()));
}

#[test]
fn links_are_made_once() {
    let entries = texts(&["a", "gone", "b"]);
    let first = |log: &[Reply], at: usize| apply_symlinks("/p", "/w", &entries, log, at);
    let replies = vec![
        yes(),
        no(),
        no(),
        yes(),
        yes(),
        no(),
        yes(),
        yes(),
        no(),
        no(),
        yes(),
        yes(),
    ];
    let (asked, told) = play(first, replies);
    assert_eq!(asked[4], symlink("/p/a", "/w/a"));
    assert_eq!(asked[11], symlink("/p/b", "/w/b"));
    assert_eq!(told, Some(()));
    let second = |log: &[Reply], at: usize| apply_symlinks("/p", "/w", &entries, log, at);
    let replies = vec![yes(), yes(), yes(), no(), yes(), yes(), no(), yes(), yes()];
    let (asked, told) = play(second, replies);
    assert_eq!(
        asked,
        [
            is_there("/p/a"),
            is_there("/w/a"),
            report("Warning: skipping symlink, destination already exists: a"),
            is_there("/p/gone"),
            report("Warning: symlink source missing in main repo: gone"),
            is_there("/p/b"),
            is_there("/w/b"),
            is_symlink("/w/b"),
            report("Warning: skipping symlink, destination already exists: b"),
        ],
    );
    assert_eq!(told, Some(()));
}

#[test]
fn nothing_is_linked_without_entries() {
    let entries = vec![];
    let link = |log: &[Reply], at: usize| apply_symlinks("/p", "/w", &entries, log, at);
    assert_eq!(play(link, vec![]), (vec![], Some(())));
}

#[test]
fn worktree_of_a_new_branch_starts_from_the_base() {
    let create = |log: &[Reply], at: usize| create_worktree("/c/p", "a/b", "origin/x", log, at);
    let (asked, told) = play(create, vec![no(), yes(), bad(""), ok(""), no()]);
    let path = "/c/p-worktrees/a-b";
    assert_eq!(
        asked,
        [
            is_there(path),
            create_dirs("/c/p-worktrees"),
            git_status(&["show-ref", "--verify", "--quiet", "refs/heads/a/b"], "/c/p"),
            git(&["worktree", "add", "-b", "a/b", path, "origin/x"], "/c/p"),
            Action::LoadRepoConfig("/c/p/.wt.toml".to_string()),
        ],
    );
    assert_eq!(told, Some(Ok(path.to_string())));
}

#[test]
fn worktree_of_an_old_branch_needs_no_base() {
    let create = |log: &[Reply], at: usize| create_worktree("/c/p", "b", "origin/x", log, at);
    let links = Reply::Repo(WtConfig { symlinks: texts(&["e"]) });
    let replies = vec![no(), yes(), ok(""), ok(""), links, no(), yes()];
    let (asked, told) = play(create, replies);
    assert_eq!(asked[3], git(&["worktree", "add", "/c/p-worktrees/b", "b"], "/c/p"));
    assert_eq!(asked[5], is_there("/c/p/e"));
    assert_eq!(told, Some(Ok("/c/p-worktrees/b".to_string())));
}

#[test]
fn worktree_is_not_created_over_a_directory() {
    let create = |log: &[Reply], at: usize| create_worktree("/c/p", "b", "x", log, at);
    let (asked, told) = play(create, vec![yes()]);
    assert_eq!(asked, [is_there("/c/p-worktrees/b")]);
    assert_eq!(told, Some(Err("Directory already exists: /c/p-worktrees/b".to_string())));
}

#[test]
fn worktree_cannot_be_created() {
    let create = |log: &[Reply], at: usize| create_worktree("/c/p", "b", "x", log, at);
    let told = |replies: Vec<Reply>| play(create, replies).1.unwrap();
    assert_eq!(
        told(vec![no(), broken("ro")]),
        Err("Failed to create worktrees directory: ro".to_string()),
    );
    assert_eq!(
        told(vec![no(), yes(), bad(""), bad("bad ref\n")]),
        Err("Failed to create worktree:\nbad ref".to_string()),
    );
    assert_eq!(
        told(vec![no(), yes(), bad(""), broken("x")]),
        Err("Failed to run git: x".to_string()),
    );
}

#[test]
fn base_that_was_asked_for_is_taken() {
    let base = |log: &[Reply], at: usize| resolve_base("/p", Some("v1"), log, at);
    assert_eq!(play(base, vec![yes(), ok("")]).1, Some("v1".to_string()));
    let (asked, told) = play(base, vec![yes(), bad("no net"), yes()]);
    assert_eq!(asked[2], report("Warning: Failed to fetch origin:\nno net"));
    assert_eq!(told, Some("v1".to_string()));
}

#[test]
fn base_is_the_default_one_otherwise() {
    let base = |log: &[Reply], at: usize| resolve_base("/p", None, log, at);
    let head = "refs/remotes/origin/trunk\n";
    assert_eq!(play(base, vec![yes(), ok(""), ok(head)]).1, Some("origin/trunk".to_string()));
    assert_eq!(
        play(base, vec![yes(), bad(""), yes(), ok(head)]).1,
        Some("origin/trunk".to_string()),
    );
}

#[test]
fn worktree_is_removed() {
    let worktree = Worktree { branch: "b".to_string(), path: "/w/b".to_string() };
    let gently = |log: &[Reply], at: usize| remove_worktree("/p", &worktree, false, log, at);
    let (asked, told) = play(gently, vec![ok("")]);
    assert_eq!(asked, [git(&["worktree", "remove", "/w/b"], "/p")]);
    assert_eq!(told, Some(Ok(())));
    let by_force = |log: &[Reply], at: usize| remove_worktree("/p", &worktree, true, log, at);
    let (asked, _) = play(by_force, vec![ok("")]);
    assert_eq!(asked, [git(&["worktree", "remove", "--force", "/w/b"], "/p")]);
}

#[test]
fn worktree_cannot_be_removed() {
    let worktree = Worktree { branch: "b".to_string(), path: "/w/b".to_string() };
    let remove = |log: &[Reply], at: usize| remove_worktree("/p", &worktree, false, log, at);
    let told = |reply: Reply| play(remove, vec![reply]).1.unwrap();
    assert_eq!(told(bad("dirty\n")), Err("Failed to remove worktree:\ndirty".to_string()));
    assert_eq!(told(broken("x")), Err("Failed to run git: x".to_string()));
}
