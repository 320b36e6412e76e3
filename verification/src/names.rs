//! The names that everything else is found by: directories of worktrees, tmux
//! sessions, configuration files and backups.

use vstd::prelude::*;

use crate::paths::{
    components_of, file_name, file_name_of, is_plain_name, is_under, is_void, join, joined,
    law_components_exact, law_file_name_plain, law_join_appends, law_join_name, law_join_under, law_parent_drops_last,
    named, parent, parent_of, segments_of,
};
use crate::text::{after_prefix, cat, chars_of, same_text, strip_prefix};

verus! {

broadcast use vstd::string::group_string_axioms;

/// The name of a repository: that of its directory, or `repo` where the path
/// ends in none.
pub open spec fn repo_name_of(path: Seq<char>) -> Seq<char> {
    match file_name_of(path) {
        Some(name) => name,
        None => "repo"@,
    }
}

pub fn repo_name(path: &str) -> (res: String)
    ensures
        res@ == repo_name_of(path@),
{
    match file_name(path) {
        Some(name) => name,
        None => "repo".to_owned(),
    }
}

/// Where the worktrees of a repository are kept: in a directory next to it,
/// named after it.
pub open spec fn worktrees_dir_of(main_repo: Seq<char>) -> Seq<char> {
    let place = match parent_of(main_repo) {
        Some(dir) => dir,
        None => "/"@,
    };
    joined(place, repo_name_of(main_repo) + "-worktrees"@)
}

pub fn get_worktrees_dir(main_repo: &str) -> (res: String)
    ensures
        res@ == worktrees_dir_of(main_repo@),
{
    let name = repo_name(main_repo);
    let place = match parent(main_repo) {
        Some(dir) => dir,
        None => "/".to_owned(),
    };
    join(place.as_str(), cat(name.as_str(), "-worktrees").as_str())
}

/// A text with a dash in place of every slash.
pub open spec fn dir_name_of(branch: Seq<char>) -> Seq<char> {
    Seq::new(
        branch.len(),
        |i: int|
            if branch[i] == '/' {
                '-'
            } else {
                branch[i]
            },
    )
}

pub fn branch_to_dir_name(branch: &str) -> (res: String)
    ensures
        res@ == dir_name_of(branch@),
{
    let chars = chars_of(branch);
    let mut res = String::new();
    let mut i: usize = 0;
    while i < chars.len()
        invariant
            chars@ == branch@,
            i <= chars@.len(),
            res@ == dir_name_of(branch@).take(i as int),
        decreases chars@.len() - i,
    {
        if chars[i] == '/' {
            res.push('-');
        } else {
            res.push(chars[i]);
        }
        i += 1;
    }
    res
}

/// The directory of the worktree of a branch.
pub open spec fn worktree_path_of(main_repo: Seq<char>, branch: Seq<char>) -> Seq<char> {
    joined(worktrees_dir_of(main_repo), dir_name_of(branch))
}

pub fn worktree_path(main_repo: &str, branch: &str) -> (res: String)
    ensures
        res@ == worktree_path_of(main_repo@, branch@),
{
    join(get_worktrees_dir(main_repo).as_str(), branch_to_dir_name(branch).as_str())
}

/// The characters that mean something in the target of a tmux command.
pub open spec fn is_target_syntax(c: char) -> bool {
    c == '/' || c == '.' || c == ':'
}

/// A text with a dash in place of every character of tmux's target syntax.
pub open spec fn target_safe(branch: Seq<char>) -> Seq<char> {
    Seq::new(
        branch.len(),
        |i: int|
            if is_target_syntax(branch[i]) {
                '-'
            } else {
                branch[i]
            },
    )
}

/// The tmux session of a worktree.
pub open spec fn session_name_of(repo_name: Seq<char>, branch: Seq<char>) -> Seq<char> {
    repo_name.push('-') + target_safe(branch)
}

pub fn tmux_session_name(repo_name: &str, branch: &str) -> (res: String)
    ensures
        res@ == session_name_of(repo_name@, branch@),
{
    let chars = chars_of(branch);
    let mut res = repo_name.to_owned();
    res.push('-');
    let ghost start = res@;
    let mut i: usize = 0;
    while i < chars.len()
        invariant
            chars@ == branch@,
            i <= chars@.len(),
            res@ == start + target_safe(branch@).take(i as int),
        decreases chars@.len() - i,
    {
        let c = chars[i];
        if c == '/' || c == '.' || c == ':' {
            res.push('-');
        } else {
            res.push(c);
        }
        i += 1;
    }
    proof {
        assert(target_safe(branch@).take(i as int) == target_safe(branch@));
    }
    res
}

/// The user's own configuration file, under the home directory.
pub open spec fn global_config_path_of(home: Option<Seq<char>>) -> Option<Seq<char>> {
    match home {
        Some(dir) => Some(joined(dir, ".config/wt/config.toml"@)),
        None => None,
    }
}

pub fn global_config_path(home: Option<&str>) -> (res: Option<String>)
    ensures
        res.deep_view() == global_config_path_of(home.deep_view()),
{
    match home {
        Some(dir) => Some(join(dir, ".config/wt/config.toml")),
        None => None,
    }
}

/// A path with a leading `~` standing for the home directory, where there is
/// one.
pub open spec fn tilde_expanded(p: Seq<char>, home: Option<Seq<char>>) -> Seq<char> {
    match (after_prefix(p, "~/"@), home) {
        (Some(rest), Some(dir)) => joined(dir, rest),
        (None, Some(dir)) => if p == "~"@ {
            dir
        } else {
            p
        },
        (_, None) => p,
    }
}

pub fn expand_tilde(p: &str, home: Option<&str>) -> (res: String)
    ensures
        res@ == tilde_expanded(p@, home.deep_view()),
{
    match home {
        Some(dir) => match strip_prefix(p, "~/") {
            Some(rest) => join(dir, rest.as_str()),
            None => if same_text(p, "~") {
                dir.to_owned()
            } else {
                p.to_owned()
            },
        },
        None => p.to_owned(),
    }
}

/// Where a worktree is backed up before it is destroyed.
pub open spec fn archive_path_of(
    archive_dir: Seq<char>,
    repo_name: Seq<char>,
    branch: Seq<char>,
    timestamp: Seq<char>,
) -> Seq<char> {
    joined(archive_dir, repo_name + "-"@ + dir_name_of(branch) + "-"@ + timestamp)
}

pub fn archive_path(archive_dir: &str, repo_name: &str, branch: &str, timestamp: &str) -> (res:
    String)
    ensures
        res@ == archive_path_of(archive_dir@, repo_name@, branch@, timestamp@),
{
    let mut name = repo_name.to_owned();
    name.append("-");
    name.append(branch_to_dir_name(branch).as_str());
    name.append("-");
    name.append(timestamp);
    join(archive_dir, name.as_str())
}

/// The worktrees of a repository are kept next to it: in the same directory,
/// under its own name followed by `-worktrees`.
pub proof fn law_worktrees_next_to_repo(main_repo: Seq<char>)
    requires
        file_name_of(main_repo) is Some,
    ensures
        components_of(worktrees_dir_of(main_repo)) == components_of(main_repo).drop_last().push(
            components_of(main_repo).last() + "-worktrees"@,
        ),
{
    let parts = components_of(main_repo);
    let name = repo_name_of(main_repo);
    let full = name + "-worktrees"@;
    reveal_strlit("-worktrees");
    law_file_name_plain(main_repo);
    assert(parts[parts.len() - 1] == parts.last());
    law_parent_drops_last(main_repo);
    assert forall|i: int| 0 <= i < full.len() implies full[i] != '/' by {
        if i < name.len() {
            assert(name.contains(name[i]));
        }
    }
    law_join_name(parent_of(main_repo)->0, full);
}

/// A repository is named by the last component of its path, and `repo` where that
/// is no name.
pub proof fn law_repo_name(path: Seq<char>)
    ensures
        file_name_of(path) is Some ==> repo_name_of(path) == components_of(path).last(),
        file_name_of(path) is None ==> repo_name_of(path) == "repo"@,
{
}

/// The worktrees of a repository whose path ends in no name are kept in the
/// directory above it, or else in the root.
pub proof fn law_worktrees_of_nameless(main_repo: Seq<char>)
    requires
        file_name_of(main_repo) is None,
    ensures
        components_of(worktrees_dir_of(main_repo)) == (match parent_of(main_repo) {
            Some(_) => components_of(main_repo).drop_last(),
            None => seq![seq!['/']],
        }).push("repo-worktrees"@),
{
    reveal_strlit("repo");
    reveal_strlit("-worktrees");
    reveal_strlit("repo-worktrees");
    reveal_strlit("/");
    let name = "repo-worktrees"@;
    assert("repo"@ + "-worktrees"@ == name);
    assert("/"@ == Seq::<char>::empty().push('/') + Seq::<char>::empty());
    law_components_exact(Seq::empty(), Seq::empty());
    match parent_of(main_repo) {
        Some(dir) => {
            law_parent_drops_last(main_repo);
            law_join_name(dir, name);
        },
        None => {
            law_join_name("/"@, name);
        },
    }
}

/// The directory name of a branch is as long as the branch name and has no
/// slash: each one became a dash, and every other character is kept in its place.
/// A branch name without slashes is kept.
pub proof fn law_dir_name(branch: Seq<char>)
    ensures
        dir_name_of(branch).len() == branch.len(),
        forall|i: int|
            0 <= i < branch.len() ==> #[trigger] dir_name_of(branch)[i] == (if branch[i] == '/' {
                '-'
            } else {
                branch[i]
            }),
        !dir_name_of(branch).contains('/'),
        !branch.contains('/') ==> dir_name_of(branch) == branch,
{
    assert forall|i: int| 0 <= i < branch.len() implies dir_name_of(branch)[i] != '/' by {}
    if !branch.contains('/') {
        assert forall|i: int| 0 <= i < branch.len() implies dir_name_of(branch)[i]
            == branch[i] by {
            assert(branch.contains(branch[i]));
        }
        assert(dir_name_of(branch) == branch);
    }
}

/// The worktree of a branch lies under the directory of the worktrees, so it is
/// found again there.
pub proof fn law_worktree_under_dir(main_repo: Seq<char>, branch: Seq<char>)
    ensures
        is_under(worktree_path_of(main_repo, branch), worktrees_dir_of(main_repo)),
{
    let name = dir_name_of(branch);
    law_dir_name(branch);
    if name.len() > 0 {
        assert(name.contains(name[0]));
    }
    law_join_under(worktrees_dir_of(main_repo), name);
}

/// The worktree of a branch is directly in the directory of the worktrees, under
/// its directory name, if that names anything.
pub proof fn law_worktree_in_dir(main_repo: Seq<char>, branch: Seq<char>)
    requires
        !is_void(branch),
    ensures
        components_of(worktree_path_of(main_repo, branch)) == components_of(
            worktrees_dir_of(main_repo),
        ).push(dir_name_of(branch)),
{
    let name = dir_name_of(branch);
    law_dir_name(branch);
    if is_void(name) {
        assert(branch[0] == name[0]);
    }
    law_join_name(worktrees_dir_of(main_repo), name);
}

/// Two branches share a worktree directory only if their names differ in
/// nothing but slashes that became dashes.
pub proof fn law_worktree_paths_distinct(main_repo: Seq<char>, a: Seq<char>, b: Seq<char>)
    ensures
        worktree_path_of(main_repo, a) == worktree_path_of(main_repo, b) <==> dir_name_of(a)
            == dir_name_of(b),
        !a.contains('/') && !b.contains('/') && a != b ==> worktree_path_of(main_repo, a)
            != worktree_path_of(main_repo, b),
{
    let dir = worktrees_dir_of(main_repo);
    let x = dir_name_of(a);
    let y = dir_name_of(b);
    law_dir_name(a);
    law_dir_name(b);
    if x.len() > 0 {
        assert(x.contains(x[0]));
    }
    if y.len() > 0 {
        assert(y.contains(y[0]));
    }
    let start = if dir.len() == 0 || dir.last() == '/' {
        dir
    } else {
        dir.push('/')
    };
    assert(worktree_path_of(main_repo, a) == start + x);
    assert(worktree_path_of(main_repo, b) == start + y);
    assert((start + x).skip(start.len() as int) == x);
    assert((start + y).skip(start.len() as int) == y);
}

/// A session is named after its repository and its branch. No character of the
/// branch name means anything to tmux, and where none did the branch name is
/// kept. Sessions of one repository differ unless their branch names differ in
/// nothing but such characters.
pub proof fn law_session_name(repo_name: Seq<char>, a: Seq<char>, b: Seq<char>)
    ensures
        session_name_of(repo_name, a) == repo_name + seq!['-'] + target_safe(a),
        target_safe(a).len() == a.len(),
        forall|i: int| 0 <= i < target_safe(a).len() ==> !is_target_syntax(#[trigger] target_safe(a)[i]),
        forall|i: int|
            0 <= i < a.len() ==> #[trigger] target_safe(a)[i] == (if a[i] == '/' || a[i] == '.'
                || a[i] == ':' {
                '-'
            } else {
                a[i]
            }),
        (forall|i: int| 0 <= i < a.len() ==> !is_target_syntax(#[trigger] a[i])) ==> target_safe(a)
            == a,
        session_name_of(repo_name, a) == session_name_of(repo_name, b) <==> target_safe(a)
            == target_safe(b),
{
    let start = repo_name.push('-');
    assert(repo_name + seq!['-'] == start);
    if forall|i: int| 0 <= i < a.len() ==> !is_target_syntax(#[trigger] a[i]) {
        assert forall|i: int| 0 <= i < a.len() implies target_safe(a)[i] == a[i] by {
            assert(!is_target_syntax(a[i]));
        }
        assert(target_safe(a) == a);
    }
    assert((start + target_safe(a)).skip(start.len() as int) == target_safe(a));
    assert((start + target_safe(b)).skip(start.len() as int) == target_safe(b));
}

/// A path that starts with neither `~` alone nor `~/` is kept, and so is every
/// path where there is no home directory.
pub proof fn law_tilde_kept(p: Seq<char>, home: Option<Seq<char>>)
    requires
        home is None || (p != "~"@ && after_prefix(p, "~/"@) is None),
    ensures
        tilde_expanded(p, home) == p,
{
}

/// `~` alone stands for the home directory, and an absolute path behind `~/` for
/// itself.
pub proof fn law_tilde_alone(rest: Seq<char>, home: Seq<char>)
    requires
        rest.len() > 0 && rest[0] == '/',
    ensures
        tilde_expanded("~"@, Some(home)) == home,
        tilde_expanded("~/"@ + rest, Some(home)) == rest,
{
    reveal_strlit("~");
    reveal_strlit("~/");
    let p = "~/"@ + rest;
    assert(p.subrange(0, "~/"@.len() as int) == "~/"@);
    assert(p.skip("~/"@.len() as int) == rest);
}

/// The user's configuration is `config.toml` in the directory `wt` of the
/// directory `.config` of the home directory.
pub proof fn law_config_path(home: Seq<char>)
    requires
        home.len() > 0,
    ensures
        global_config_path_of(None) is None,
        global_config_path_of(Some(home)) matches Some(path) && components_of(path)
            == components_of(home) + seq![".config"@, "wt"@, "config.toml"@],
{
    reveal_strlit(".config/wt/config.toml");
    reveal_strlit(".config");
    reveal_strlit("wt");
    reveal_strlit("config.toml");
    let open = if home.last() == '/' {
        home.drop_last()
    } else {
        home
    };
    let path = joined(home, ".config/wt/config.toml"@);
    let first = open.push('/') + ".config"@;
    let second = first.push('/') + "wt"@;
    assert(open.push('/') + ".config/wt/config.toml"@ == second.push('/') + "config.toml"@);
    assert(path == second.push('/') + "config.toml"@);
    law_components_exact(second, "config.toml"@);
    law_components_exact(first, "wt"@);
    law_components_exact(open, ".config"@);
    assert(".config"@.len() == 7 && "wt"@.len() == 2 && "config.toml"@.len() == 11);
    if home.last() == '/' {
        assert(home == open.push('/') + Seq::<char>::empty());
        law_components_exact(open, Seq::empty());
    }
}

/// A relative path behind `~/` is found under the home directory.
pub proof fn law_tilde_under_home(rest: Seq<char>, home: Seq<char>)
    requires
        rest.len() > 0 ==> rest[0] != '/',
    ensures
        is_under(tilde_expanded("~/"@ + rest, Some(home)), home),
        home.len() > 0 ==> components_of(tilde_expanded("~/"@ + rest, Some(home)))
            == components_of(home) + named(segments_of(rest)),
{
    let p = "~/"@ + rest;
    assert(p.subrange(0, "~/"@.len() as int) == "~/"@);
    assert(p.skip("~/"@.len() as int) == rest);
    law_join_under(home, rest);
    if home.len() > 0 {
        law_join_appends(home, rest);
    }
}

/// A backup is directly in the archive directory, under the name of the
/// repository, that of the branch and the time.
pub proof fn law_archive_in_dir(
    archive_dir: Seq<char>,
    repo_name: Seq<char>,
    branch: Seq<char>,
    timestamp: Seq<char>,
)
    requires
        is_plain_name(repo_name),
        !timestamp.contains('/'),
    ensures
        components_of(archive_path_of(archive_dir, repo_name, branch, timestamp)) == components_of(
            archive_dir,
        ).push(repo_name + "-"@ + dir_name_of(branch) + "-"@ + timestamp),
{
    let name = repo_name + "-"@ + dir_name_of(branch) + "-"@ + timestamp;
    reveal_strlit("-");
    law_dir_name(branch);
    let first = repo_name.len();
    let second = first + 1 + branch.len();
    assert forall|i: int| 0 <= i < name.len() implies name[i] != '/' by {
        if i < first {
            assert(repo_name.contains(name[i]));
        } else if first < i < second {
            assert(dir_name_of(branch).contains(name[i])) by {
                assert(dir_name_of(branch)[i - first - 1] == name[i]);
            }
        } else if i > second {
            assert(timestamp.contains(name[i])) by {
                assert(timestamp[i - second - 1] == name[i]);
            }
        }
    }
    law_join_name(archive_dir, name);
}

/// Where a backup is: at the names of the repository and the branch and the time,
/// with dashes between them, in the archive directory.
pub proof fn law_archive_name(
    archive_dir: Seq<char>,
    repo_name: Seq<char>,
    branch: Seq<char>,
    timestamp: Seq<char>,
)
    ensures
        archive_path_of(archive_dir, repo_name, branch, timestamp) == joined(
            archive_dir,
            repo_name + "-"@ + dir_name_of(branch) + "-"@ + timestamp,
        ),
{
}

} // verus!
