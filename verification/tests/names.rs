use wt::names::{
    archive_path, branch_to_dir_name, expand_tilde, get_worktrees_dir, global_config_path,
    repo_name, tmux_session_name, worktree_path,
};
use wt::paths::{components, parent, starts_with};

#[test]
fn repository_is_named_after_its_directory() {
    assert_eq!(repo_name("/home/me/code/myproject"), "myproject");
    assert_eq!(repo_name("/home/me/code/myproject/"), "myproject");
    assert_eq!(repo_name("/"), "repo");
    assert_eq!(repo_name("/a/.."), "repo");
    assert_eq!(repo_name(""), "repo");
}

#[test]
fn slashes_of_a_branch_become_dashes() {
    assert_eq!(branch_to_dir_name("feature/foo"), "feature-foo");
    assert_eq!(branch_to_dir_name("a//b.c:d"), "a--b.c:d");
    assert_eq!(branch_to_dir_name("/"), "-");
    assert_eq!(branch_to_dir_name(""), "");
}

#[test]
fn branch_without_slashes_keeps_its_name() {
    assert_eq!(branch_to_dir_name("fix-é.1"), "fix-é.1");
}

#[test]
fn worktrees_stand_next_to_their_repository() {
    assert_eq!(get_worktrees_dir("/home/me/code/myproject"), "/home/me/code/myproject-worktrees");
    assert_eq!(get_worktrees_dir("myproject"), "myproject-worktrees");
    assert_eq!(get_worktrees_dir("/x"), "/x-worktrees");
    assert_eq!(
        components(&parent(&get_worktrees_dir("/a/b/")).unwrap()),
        components(&parent("/a/b/").unwrap()),
    );
}

#[test]
fn worktrees_of_a_nameless_repository() {
    assert_eq!(get_worktrees_dir("/"), "/repo-worktrees");
    assert_eq!(get_worktrees_dir(""), "/repo-worktrees");
    assert_eq!(get_worktrees_dir("/a/.."), "/a/repo-worktrees");
}

#[test]
fn worktree_stands_in_the_directory_of_the_worktrees() {
    let path = worktree_path("/code/p", "feature/foo");
    assert_eq!(path, "/code/p-worktrees/feature-foo");
    for branch in ["feature/foo", "/x", ".", ""] {
        assert!(starts_with(&worktree_path("/code/p", branch), &get_worktrees_dir("/code/p")));
    }
}

#[test]
fn branches_share_a_worktree_path_only_by_their_dashes() {
    assert_eq!(worktree_path("/p", "a/b"), worktree_path("/p", "a-b"));
    assert_ne!(worktree_path("/p", "a.b"), worktree_path("/p", "a-b"));
    assert_ne!(worktree_path("/p", "a"), worktree_path("/p", "b"));
}

#[test]
fn session_is_named_after_repository_and_branch() {
    assert_eq!(tmux_session_name("my.repo", "feature/v1.2:x"), "my.repo-feature-v1-2-x");
    assert_eq!(tmux_session_name("repo", "main"), "repo-main");
    assert_eq!(tmux_session_name("", ""), "-");
}

#[test]
fn sessions_of_a_repository_differ_by_branch() {
    assert_ne!(tmux_session_name("r", "a"), tmux_session_name("r", "b"));
    assert_eq!(tmux_session_name("r", "a.b"), tmux_session_name("r", "a:b"));
}

#[test]
fn configuration_file_is_under_the_home_directory() {
    assert_eq!(
        global_config_path(Some("/home/me")),
        Some("/home/me/.config/wt/config.toml".to_string()),
    );
    assert_eq!(global_config_path(Some("")), Some(".config/wt/config.toml".to_string()));
    assert_eq!(global_config_path(None), None);
}

#[test]
fn tilde_stands_for_the_home_directory() {
    assert_eq!(expand_tilde("~/code/x", Some("/home/me")), "/home/me/code/x");
    assert_eq!(expand_tilde("~", Some("/home/me")), "/home/me");
    assert_eq!(expand_tilde("~/", Some("/home/me")), "/home/me/");
    assert!(starts_with(&expand_tilde("~/a/b", Some("/h")), "/h"));
}

#[test]
fn absolute_path_behind_a_tilde_stands_for_itself() {
    assert_eq!(expand_tilde("~//etc", Some("/home/me")), "/etc");
}

#[test]
fn other_paths_have_no_tilde_to_expand() {
    assert_eq!(expand_tilde("~other/x", Some("/home/me")), "~other/x");
    assert_eq!(expand_tilde("/a/~/b", Some("/home/me")), "/a/~/b");
    assert_eq!(expand_tilde("", Some("/home/me")), "");
    assert_eq!(expand_tilde("~/x", None), "~/x");
    assert_eq!(expand_tilde("~", None), "~");
}

#[test]
fn backup_is_named_after_repository_branch_and_time() {
    let path = archive_path("/backups/", "repo", "feature/foo", "1700000000");
    assert_eq!(path, "/backups/repo-feature-foo-1700000000");
    assert_eq!(parent(&path), Some("/backups".to_string()));
}
