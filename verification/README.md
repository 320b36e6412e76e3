# wt

A git worktree manager with tmux integration and fuzzy search.

`wt` keeps the worktrees of a repository in a directory next to it (the worktrees
of `~/code/myproject` go to `~/code/myproject-worktrees/`) and can give each of
them a tmux session of its own.

## Layout

- `src/` is the verified library. It decides everything: what is asked of git,
  tmux and the file system, what is made of the answers, and what is printed.
- `app/` is the program. It reads the arguments, then does what the library asks
  for until the library says how the process ends.
- `tests/` runs the library on concrete values.

## How the library talks to the world

The library does no input or output. A procedure is a function of the replies
that were given so far. It either asks for one more action, whose reply is then
appended to the log, or it is done. Its contract says which of the two, for every
log. `wt::cli::run` is the whole program in this form.

What holds of procedures over all logs is stated in laws, next to what they are
about:

- `replay`: a procedure that is run again on a longer log takes up where it
  stopped.
- `safety`: nothing is removed or deleted unless that was asked for, nor by force
  unless the user has agreed, nor before the backup that was wanted.
- `printing`: what is printed is the directory of a worktree, at the very end.
- `linking`: links that were made are not made again.
- `completeness`: `wt sessions` leaves no repository and no worktree out.
- `names`, `paths`, `repo`, `fuzzy` and the others: where worktrees are kept, how
  listings are read back, how queries score.

## Configuration

`~/.config/wt/config.toml`:

```toml
# Repositories of global mode (`wt -g`) and of `wt sessions`.
repos = ["~/code/myproject", "~/code/other"]

# If set, `wt destroy` backs the worktree up here before it is removed, in
# `<repo>-<branch>-<timestamp>`.
archive_dir = "~/wt-archive"
```

`.wt.toml` in a repository:

```toml
# What is linked from the main repository into each new worktree.
symlinks = [".env", ".env.local"]
```
