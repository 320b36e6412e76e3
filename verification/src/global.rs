//! What is done over all configured repositories.

use vstd::prelude::*;

use crate::config::{global_config_flow, read_global_config};
use crate::flow::{
    awaits, report, report_flow, Action, ActionModel, Env, Flow, Model, Progress, Reply,
};
use crate::names::{
    expand_tilde, repo_name, repo_name_of, session_name_of, tilde_expanded, tmux_session_name,
};
use crate::repo::{list_flow, list_worktrees, Worktree, WorktreeModel};
use crate::text::{cat, decimal, decimal_of, same_text};
use crate::tmux::{
    ensure_session_flow, ensure_tmux_session, handle_tmux_switch, has_session, new_session,
    switch_flow,
};

verus! {

broadcast use vstd::string::group_string_axioms;

/// How the process ends.
#[derive(Clone, Copy, Debug, PartialEq, Eq, Structural)]
pub enum Exit {
    Success,
    Failure,
}

impl Model for Exit {
    type M = Exit;

    open spec fn model(&self) -> Exit {
        *self
    }
}

/// Ends the process with a message.
pub open spec fn die_flow(message: Seq<char>, log: Seq<Reply>, at: int) -> Flow<Exit> {
    match report_flow("Error: "@ + message, log, at) {
        Flow::Ask(action) => Flow::Ask(action),
        Flow::Done(_, end) => Flow::Done(Exit::Failure, end),
    }
}

pub fn die(message: &str, log: &[Reply], at: usize) -> (res: Progress<Exit>)
    ensures
        res.model() == die_flow(message@, log@, at as int),
{
    match report(cat("Error: ", message), log, at) {
        Progress::Ask(action) => Progress::Ask(action),
        Progress::Done(_, end) => Progress::Done(Exit::Failure, end),
    }
}

/// Ends the process well after a last message.
pub open spec fn farewell_flow(line: Seq<char>, log: Seq<Reply>, at: int) -> Flow<Exit> {
    match report_flow(line, log, at) {
        Flow::Ask(action) => Flow::Ask(action),
        Flow::Done(_, end) => Flow::Done(Exit::Success, end),
    }
}

pub(crate) fn farewell(line: String, log: &[Reply], at: usize) -> (res: Progress<Exit>)
    ensures
        res.model() == farewell_flow(line@, log@, at as int),
{
    match report(line, log, at) {
        Progress::Ask(action) => Progress::Ask(action),
        Progress::Done(_, end) => Progress::Done(Exit::Success, end),
    }
}

/// Moves to a worktree: to its session inside of tmux, else by printing its
/// directory for the shell to change to.
pub open spec fn go_flow(
    repo_name: Seq<char>,
    branch: Seq<char>,
    path: Seq<char>,
    no_session: bool,
    in_tmux: bool,
    log: Seq<Reply>,
    at: int,
) -> Flow<Exit> {
    match switch_flow(repo_name, branch, path, no_session, in_tmux, log, at) {
        Flow::Ask(action) => Flow::Ask(action),
        Flow::Done(true, next) => Flow::Done(Exit::Success, next),
        Flow::Done(false, next) => if next >= log.len() {
            Flow::Ask(ActionModel::Print(path))
        } else {
            Flow::Done(Exit::Success, next + 1)
        },
    }
}

pub(crate) fn go(
    repo_name: &str,
    branch: &str,
    path: &str,
    no_session: bool,
    in_tmux: bool,
    log: &[Reply],
    at: usize,
) -> (res: Progress<Exit>)
    ensures
        res.model() == go_flow(
            repo_name@,
            branch@,
            path@,
            no_session,
            in_tmux,
            log@,
            at as int,
        ),
{
    match handle_tmux_switch(repo_name, branch, path, no_session, in_tmux, log, at) {
        Progress::Ask(action) => Progress::Ask(action),
        Progress::Done(switched, at) => {
            if switched {
                return Progress::Done(Exit::Success, at);
            }
            if at >= log.len() {
                return Progress::Ask(Action::Print(path.to_owned()));
            }
            Progress::Done(Exit::Success, at + 1)
        },
    }
}

/// How many worktrees were seen, and what became of their sessions.
#[derive(Clone, Copy, Debug, PartialEq, Eq)]
pub struct Tally {
    pub total: usize,
    pub created: usize,
    pub existed: usize,
}

/// A `Tally` with numbers of any size.
pub struct TallyModel {
    pub total: nat,
    pub created: nat,
    pub existed: nat,
}

impl Model for Tally {
    type M = TallyModel;

    open spec fn model(&self) -> TallyModel {
        TallyModel {
            total: self.total as nat,
            created: self.created as nat,
            existed: self.existed as nat,
        }
    }
}

/// Sees to the session of one worktree.
pub open spec fn open_session_flow(
    repo_name: Seq<char>,
    worktree: WorktreeModel,
    tally: TallyModel,
    log: Seq<Reply>,
    at: int,
) -> Flow<TallyModel> {
    let session = session_name_of(repo_name, worktree.branch);
    let seen = TallyModel { total: tally.total + 1, ..tally };
    match ensure_session_flow(session, worktree.path, log, at) {
        Flow::Ask(action) => Flow::Ask(action),
        Flow::Done(Ok(true), next) => match report_flow("Created: "@ + session, log, next) {
            Flow::Ask(action) => Flow::Ask(action),
            Flow::Done(_, end) => Flow::Done(
                TallyModel { created: tally.created + 1, ..seen },
                end,
            ),
        },
        Flow::Done(Ok(false), next) => Flow::Done(
            TallyModel { existed: tally.existed + 1, ..seen },
            next,
        ),
        Flow::Done(Err(message), next) => match report_flow(
            "Warning: "@ + session + ": "@ + message,
            log,
            next,
        ) {
            Flow::Ask(action) => Flow::Ask(action),
            Flow::Done(_, end) => Flow::Done(seen, end),
        },
    }
}

/// Sees to the sessions of the worktrees of one repository.
pub open spec fn open_sessions_flow(
    repo_name: Seq<char>,
    worktrees: Seq<WorktreeModel>,
    tally: TallyModel,
    log: Seq<Reply>,
    at: int,
) -> Flow<TallyModel>
    decreases worktrees.len(),
{
    if worktrees.len() == 0 {
        Flow::Done(tally, at)
    } else {
        match open_session_flow(repo_name, worktrees[0], tally, log, at) {
            Flow::Ask(action) => Flow::Ask(action),
            Flow::Done(counted, next) => open_sessions_flow(
                repo_name,
                worktrees.drop_first(),
                counted,
                log,
                next,
            ),
        }
    }
}

/// Whether no count of a tally exceeds the number of replies that were read.
spec fn accounted(tally: Tally, at: int) -> bool {
    tally.total <= at && tally.created <= tally.total && tally.existed <= tally.total
}

fn open_session(
    repo_name: &str,
    worktree: &Worktree,
    tally: Tally,
    log: &[Reply],
    at: usize,
) -> (res: Progress<Tally>)
    requires
        accounted(tally, at as int),
    ensures
        res.model() == open_session_flow(
            repo_name@,
            worktree.model(),
            tally.model(),
            log@,
            at as int,
        ),
        res matches Progress::Done(counted, end) ==> accounted(counted, end as int),
{
    let session = tmux_session_name(repo_name, worktree.branch.as_str());
    match ensure_tmux_session(session.as_str(), worktree.path.as_str(), log, at) {
        Progress::Ask(action) => Progress::Ask(action),
        Progress::Done(Ok(created), at) => {
            let total: usize = tally.total + 1;
            if !created {
                let existed: usize = tally.existed + 1;
                return Progress::Done(Tally { total, created: tally.created, existed }, at);
            }
            match report(cat("Created: ", session.as_str()), log, at) {
                Progress::Ask(action) => Progress::Ask(action),
                Progress::Done(_, at) => {
                    let created: usize = tally.created + 1;
                    Progress::Done(Tally { total, created, existed: tally.existed }, at)
                },
            }
        },
        Progress::Done(Err(message), at) => {
            let total: usize = tally.total + 1;
            let mut line = cat("Warning: ", session.as_str());
            line.append(": ");
            line.append(message.as_str());
            match report(line, log, at) {
                Progress::Ask(action) => Progress::Ask(action),
                Progress::Done(_, at) => Progress::Done(
                    Tally { total, created: tally.created, existed: tally.existed },
                    at,
                ),
            }
        },
    }
}

fn open_sessions(
    repo_name: &str,
    worktrees: &Vec<Worktree>,
    tally: Tally,
    log: &[Reply],
    at: usize,
) -> (res: Progress<Tally>)
    requires
        accounted(tally, at as int),
    ensures
        res.model() == open_sessions_flow(
            repo_name@,
            worktrees.model(),
            tally.model(),
            log@,
            at as int,
        ),
        res matches Progress::Done(counted, end) ==> accounted(counted, end as int),
{
    let ghost all = worktrees.model();
    let ghost whole = open_sessions_flow(repo_name@, all, tally.model(), log@, at as int);
    let mut counted = tally;
    let mut next: usize = at;
    let mut i: usize = 0;
    proof {
        assert(all.skip(0) == all);
    }
    while i < worktrees.len()
        invariant
            all == worktrees.model(),
            i <= worktrees@.len(),
            accounted(counted, next as int),
            whole == open_sessions_flow(repo_name@, all, tally.model(), log@, at as int),
            whole == open_sessions_flow(
                repo_name@,
                all.skip(i as int),
                counted.model(),
                log@,
                next as int,
            ),
        decreases worktrees@.len() - i,
    {
        proof {
            assert(all.skip(i as int)[0] == worktrees@[i as int].model());
            assert(all.skip(i as int).drop_first() == all.skip(i + 1));
        }
        match open_session(repo_name, &worktrees[i], counted, log, next) {
            Progress::Ask(action) => return Progress::Ask(action),
            Progress::Done(tally, end) => {
                counted = tally;
                next = end;
            },
        }
        i += 1;
    }
    Progress::Done(counted, next)
}

/// Sees to the sessions of the worktrees of all configured repositories. One
/// whose worktrees cannot be listed is reported and passed over.
pub open spec fn all_sessions_flow(
    repos: Seq<Seq<char>>,
    home: Option<Seq<char>>,
    tally: TallyModel,
    log: Seq<Reply>,
    at: int,
) -> Flow<TallyModel>
    decreases repos.len(),
{
    if repos.len() == 0 {
        Flow::Done(tally, at)
    } else {
        let path = tilde_expanded(repos[0], home);
        match list_flow(path, log, at) {
            Flow::Ask(action) => Flow::Ask(action),
            Flow::Done(Err(message), next) => match report_flow(
                "Warning: "@ + path + ": "@ + message,
                log,
                next,
            ) {
                Flow::Ask(action) => Flow::Ask(action),
                Flow::Done(_, end) => all_sessions_flow(
                    repos.drop_first(),
                    home,
                    tally,
                    log,
                    end,
                ),
            },
            Flow::Done(Ok(worktrees), next) => match open_sessions_flow(
                repo_name_of(path),
                worktrees,
                tally,
                log,
                next,
            ) {
                Flow::Ask(action) => Flow::Ask(action),
                Flow::Done(counted, end) => all_sessions_flow(
                    repos.drop_first(),
                    home,
                    counted,
                    log,
                    end,
                ),
            },
        }
    }
}

fn warn_of(path: &str, message: &str) -> (res: String)
    ensures
        res@ == "Warning: "@ + path@ + ": "@ + message@,
{
    let mut line = cat("Warning: ", path);
    line.append(": ");
    line.append(message);
    line
}

fn all_sessions(
    repos: &Vec<String>,
    home: Option<&str>,
    log: &[Reply],
    at: usize,
) -> (res: Progress<Tally>)
    ensures
        res.model() == all_sessions_flow(
            repos.deep_view(),
            home.deep_view(),
            TallyModel { total: 0, created: 0, existed: 0 },
            log@,
            at as int,
        ),
{
    let ghost all = repos.deep_view();
    let ghost none = TallyModel { total: 0, created: 0, existed: 0 };
    let ghost whole = all_sessions_flow(all, home.deep_view(), none, log@, at as int);
    let mut counted = Tally { total: 0, created: 0, existed: 0 };
    let mut next: usize = at;
    let mut i: usize = 0;
    proof {
        assert(all.skip(0) == all);
    }
    while i < repos.len()
        invariant
            all == repos.deep_view(),
            none == (TallyModel { total: 0, created: 0, existed: 0 }),
            i <= repos@.len(),
            accounted(counted, next as int),
            whole == all_sessions_flow(all, home.deep_view(), none, log@, at as int),
            whole == all_sessions_flow(
                all.skip(i as int),
                home.deep_view(),
                counted.model(),
                log@,
                next as int,
            ),
        decreases repos@.len() - i,
    {
        proof {
            assert(all.skip(i as int)[0] == repos@[i as int]@);
            assert(all.skip(i as int).drop_first() == all.skip(i + 1));
        }
        let path = expand_tilde(repos[i].as_str(), home);
        match list_worktrees(path.as_str(), log, next) {
            Progress::Ask(action) => return Progress::Ask(action),
            Progress::Done(Err(message), end) => {
                match report(warn_of(path.as_str(), message.as_str()), log, end) {
                    Progress::Ask(action) => return Progress::Ask(action),
                    Progress::Done(_, end) => {
                        next = end;
                    },
                }
            },
            Progress::Done(Ok(worktrees), end) => {
                let name = repo_name(path.as_str());
                match open_sessions(name.as_str(), &worktrees, counted, log, end) {
                    Progress::Ask(action) => return Progress::Ask(action),
                    Progress::Done(tally, end) => {
                        counted = tally;
                        next = end;
                    },
                }
            },
        }
        i += 1;
    }
    Progress::Done(counted, next)
}

/// The last line of the report on sessions.
pub open spec fn summary_of(tally: TallyModel) -> Seq<char> {
    "Done. "@ + decimal_of(tally.total) + " worktrees, "@ + decimal_of(tally.created)
        + " created, "@ + decimal_of(tally.existed) + " already existed."@
}

fn summary(tally: Tally) -> (res: String)
    ensures
        res@ == summary_of(tally.model()),
{
    let mut line = cat("Done. ", decimal(tally.total).as_str());
    line.append(" worktrees, ");
    line.append(decimal(tally.created).as_str());
    line.append(" created, ");
    line.append(decimal(tally.existed).as_str());
    line.append(" already existed.");
    line
}

/// Creates the sessions that are missing for the worktrees of all configured
/// repositories, and tells how many there were.
pub open spec fn sessions_flow(home: Option<Seq<char>>, log: Seq<Reply>, at: int) -> Flow<Exit> {
    match global_config_flow(home, log, at) {
        Flow::Ask(action) => Flow::Ask(action),
        Flow::Done(config, next) => if config.repos.len() == 0 {
            die_flow("No repos configured in ~/.config/wt/config.toml"@, log, next)
        } else {
            match all_sessions_flow(
                config.repos,
                home,
                TallyModel { total: 0, created: 0, existed: 0 },
                log,
                next,
            ) {
                Flow::Ask(action) => Flow::Ask(action),
                Flow::Done(tally, end) => farewell_flow(summary_of(tally), log, end),
            }
        },
    }
}

pub(crate) fn home_of(env: &Env) -> (res: Option<&str>)
    ensures
        res.deep_view() == env.home.deep_view(),
{
    match &env.home {
        Some(dir) => Some(dir.as_str()),
        None => None,
    }
}

pub fn run_sessions(env: &Env, log: &[Reply], at: usize) -> (res: Progress<Exit>)
    ensures
        res.model() == sessions_flow(env.home.deep_view(), log@, at as int),
{
    let home = home_of(env);
    let (config, at) = match read_global_config(home, log, at) {
        Progress::Ask(action) => return Progress::Ask(action),
        Progress::Done(config, at) => (config, at),
    };
    if config.repos.len() == 0 {
        return die("No repos configured in ~/.config/wt/config.toml", log, at);
    }
    match all_sessions(&config.repos, home, log, at) {
        Progress::Ask(action) => Progress::Ask(action),
        Progress::Done(tally, at) => farewell(summary(tally), log, at),
    }
}

/// A worktree of one of several repositories.
pub struct Entry {
    pub label: String,
    pub repo_name: String,
    pub branch: String,
    pub path: String,
}

/// An `Entry` with its texts as sequences.
#[verifier::ext_equal]
pub struct EntryModel {
    pub label: Seq<char>,
    pub repo_name: Seq<char>,
    pub branch: Seq<char>,
    pub path: Seq<char>,
}

impl Model for Entry {
    type M = EntryModel;

    open spec fn model(&self) -> EntryModel {
        EntryModel {
            label: self.label@,
            repo_name: self.repo_name@,
            branch: self.branch@,
            path: self.path@,
        }
    }
}

impl Model for Vec<Entry> {
    type M = Seq<EntryModel>;

    open spec fn model(&self) -> Seq<EntryModel> {
        Seq::new(self@.len(), |i: int| self@[i].model())
    }
}

/// A worktree as it is offered among those of other repositories.
pub open spec fn entry_of(repo_name: Seq<char>, worktree: WorktreeModel) -> EntryModel {
    EntryModel {
        label: repo_name + ": "@ + worktree.branch,
        repo_name,
        branch: worktree.branch,
        path: worktree.path,
    }
}

/// The worktrees of a repository as they are offered among those of others.
pub open spec fn entries_of(repo_name: Seq<char>, worktrees: Seq<WorktreeModel>) -> Seq<EntryModel> {
    Seq::new(worktrees.len(), |i: int| entry_of(repo_name, worktrees[i]))
}

/// Collects the worktrees of the repositories behind those already found. A
/// repository whose worktrees cannot be listed is reported and passed over.
pub open spec fn gather_flow(
    repos: Seq<Seq<char>>,
    home: Option<Seq<char>>,
    found: Seq<EntryModel>,
    log: Seq<Reply>,
    at: int,
) -> Flow<Seq<EntryModel>>
    decreases repos.len(),
{
    if repos.len() == 0 {
        Flow::Done(found, at)
    } else {
        let path = tilde_expanded(repos[0], home);
        match list_flow(path, log, at) {
            Flow::Ask(action) => Flow::Ask(action),
            Flow::Done(Ok(worktrees), next) => gather_flow(
                repos.drop_first(),
                home,
                found + entries_of(repo_name_of(path), worktrees),
                log,
                next,
            ),
            Flow::Done(Err(message), next) => match report_flow(
                "Warning: "@ + path + ": "@ + message,
                log,
                next,
            ) {
                Flow::Ask(action) => Flow::Ask(action),
                Flow::Done(_, end) => gather_flow(repos.drop_first(), home, found, log, end),
            },
        }
    }
}

/// Appends the worktrees of a repository to the entries.
fn push_entries(entries: &mut Vec<Entry>, repo_name: &str, worktrees: &Vec<Worktree>)
    ensures
        final(entries).model() == old(entries).model() + entries_of(repo_name@, worktrees.model()),
{
    let ghost before = entries.model();
    let ghost added = entries_of(repo_name@, worktrees.model());
    let mut i: usize = 0;
    proof {
        assert(before + added.take(0) == before);
    }
    while i < worktrees.len()
        invariant
            i <= worktrees@.len(),
            added == entries_of(repo_name@, worktrees.model()),
            entries.model() == before + added.take(i as int),
        decreases worktrees@.len() - i,
    {
        let ghost so_far = entries.model();
        let branch = worktrees[i].branch.as_str();
        let mut label = cat(repo_name, ": ");
        label.append(branch);
        let entry = Entry {
            label,
            repo_name: repo_name.to_owned(),
            branch: branch.to_owned(),
            path: worktrees[i].path.clone(),
        };
        entries.push(entry);
        proof {
            assert(entry.model() == added[i as int]);
            assert(entries.model() =~= so_far.push(entry.model()));
            assert(before + added.take(i + 1) =~= so_far.push(entry.model()));
        }
        i += 1;
    }
    proof {
        assert(added.take(i as int) == added);
    }
}

fn gather(repos: &Vec<String>, home: Option<&str>, log: &[Reply], at: usize) -> (res: Progress<
    Vec<Entry>,
>)
    ensures
        res.model() == gather_flow(
            repos.deep_view(),
            home.deep_view(),
            Seq::empty(),
            log@,
            at as int,
        ),
{
    let ghost all = repos.deep_view();
    let ghost whole = gather_flow(all, home.deep_view(), Seq::empty(), log@, at as int);
    let mut entries: Vec<Entry> = Vec::new();
    let mut next: usize = at;
    let mut i: usize = 0;
    proof {
        assert(all.skip(0) == all);
        assert(entries.model() =~= Seq::<EntryModel>::empty());
    }
    while i < repos.len()
        invariant
            all == repos.deep_view(),
            i <= repos@.len(),
            whole == gather_flow(all, home.deep_view(), Seq::empty(), log@, at as int),
            whole == gather_flow(
                all.skip(i as int),
                home.deep_view(),
                entries.model(),
                log@,
                next as int,
            ),
        decreases repos@.len() - i,
    {
        proof {
            assert(all.skip(i as int)[0] == repos@[i as int]@);
            assert(all.skip(i as int).drop_first() == all.skip(i + 1));
        }
        let path = expand_tilde(repos[i].as_str(), home);
        match list_worktrees(path.as_str(), log, next) {
            Progress::Ask(action) => return Progress::Ask(action),
            Progress::Done(Ok(worktrees), end) => {
                let name = repo_name(path.as_str());
                push_entries(&mut entries, name.as_str(), &worktrees);
                next = end;
            },
            Progress::Done(Err(message), end) => {
                match report(warn_of(path.as_str(), message.as_str()), log, end) {
                    Progress::Ask(action) => return Progress::Ask(action),
                    Progress::Done(_, end) => {
                        next = end;
                    },
                }
            },
        }
        i += 1;
    }
    Progress::Done(entries, next)
}

/// The lines of a selection list of worktrees of several repositories.
pub open spec fn labels_of(entries: Seq<EntryModel>) -> Seq<Seq<char>> {
    Seq::new(entries.len(), |i: int| entries[i].label)
}

fn labels(entries: &Vec<Entry>) -> (res: Vec<String>)
    ensures
        res.deep_view() == labels_of(entries.model()),
{
    let ghost all = labels_of(entries.model());
    let mut res: Vec<String> = Vec::new();
    let mut i: usize = 0;
    while i < entries.len()
        invariant
            all == labels_of(entries.model()),
            i <= entries@.len(),
            res.deep_view() == all.take(i as int),
        decreases entries@.len() - i,
    {
        let ghost before = res.deep_view();
        res.push(entries[i].label.clone());
        proof {
            assert(res.deep_view() =~= before.push(all[i as int]));
            assert(all.take(i + 1) =~= before.push(all[i as int]));
        }
        i += 1;
    }
    proof {
        assert(all.take(i as int) == all);
    }
    res
}

/// The first entry with a label.
pub open spec fn entry_with(entries: Seq<EntryModel>, label: Seq<char>) -> Option<EntryModel>
    decreases entries.len(),
{
    if entries.len() == 0 {
        None
    } else if entries[0].label == label {
        Some(entries[0])
    } else {
        entry_with(entries.drop_first(), label)
    }
}

fn find_entry<'a>(entries: &'a Vec<Entry>, label: &str) -> (res: Option<&'a Entry>)
    ensures
        entry_with(entries.model(), label@) == (match res {
            Some(entry) => Some(entry.model()),
            None => None,
        }),
{
    let ghost all = entries.model();
    let mut i: usize = 0;
    proof {
        assert(all.skip(0) == all);
    }
    while i < entries.len()
        invariant
            all == entries.model(),
            i <= entries@.len(),
            entry_with(all, label@) == entry_with(all.skip(i as int), label@),
        decreases entries@.len() - i,
    {
        proof {
            assert(all.skip(i as int)[0] == entries@[i as int].model());
            assert(all.skip(i as int).drop_first() == all.skip(i + 1));
        }
        if same_text(entries[i].label.as_str(), label) {
            return Some(&entries[i]);
        }
        i += 1;
    }
    None
}

/// Offers the worktrees of all configured repositories, and moves to the one that
/// is chosen.
pub open spec fn global_flow(
    home: Option<Seq<char>>,
    no_session: bool,
    in_tmux: bool,
    log: Seq<Reply>,
    at: int,
) -> Flow<Exit> {
    match global_config_flow(home, log, at) {
        Flow::Ask(action) => Flow::Ask(action),
        Flow::Done(config, next) => if config.repos.len() == 0 {
            die_flow(
                "Not in a git repo and no repos configured in ~/.config/wt/config.toml"@,
                log,
                next,
            )
        } else {
            match gather_flow(config.repos, home, Seq::empty(), log, next) {
                Flow::Ask(action) => Flow::Ask(action),
                Flow::Done(entries, gathered) => if entries.len() == 0 {
                    die_flow("No worktrees found in any configured repo."@, log, gathered)
                } else if gathered >= log.len() {
                    Flow::Ask(
                        ActionModel::Select {
                            question: "Select a worktree:"@,
                            options: labels_of(entries),
                        },
                    )
                } else {
                    chosen_entry_flow(
                        log[gathered],
                        entries,
                        no_session,
                        in_tmux,
                        log,
                        gathered + 1,
                    )
                },
            }
        },
    }
}

/// Moves to the worktree that was chosen. Without a choice the process fails.
pub open spec fn chosen_entry_flow(
    choice: Reply,
    entries: Seq<EntryModel>,
    no_session: bool,
    in_tmux: bool,
    log: Seq<Reply>,
    at: int,
) -> Flow<Exit> {
    match choice {
        Reply::Chosen(label) => match entry_with(entries, label@) {
            Some(entry) => go_flow(
                entry.repo_name,
                entry.branch,
                entry.path,
                no_session,
                in_tmux,
                log,
                at,
            ),
            None => Flow::Done(Exit::Success, at),
        },
        _ => Flow::Done(Exit::Failure, at),
    }
}

pub fn run_global_mode(env: &Env, no_session: bool, log: &[Reply], at: usize) -> (res: Progress<
    Exit,
>)
    ensures
        res.model() == global_flow(
            env.home.deep_view(),
            no_session,
            env.in_tmux,
            log@,
            at as int,
        ),
{
    let home = home_of(env);
    let (config, at) = match read_global_config(home, log, at) {
        Progress::Ask(action) => return Progress::Ask(action),
        Progress::Done(config, at) => (config, at),
    };
    if config.repos.len() == 0 {
        return die(
            "Not in a git repo and no repos configured in ~/.config/wt/config.toml",
            log,
            at,
        );
    }
    let (entries, at) = match gather(&config.repos, home, log, at) {
        Progress::Ask(action) => return Progress::Ask(action),
        Progress::Done(entries, at) => (entries, at),
    };
    if entries.len() == 0 {
        return die("No worktrees found in any configured repo.", log, at);
    }
    if at >= log.len() {
        let question = "Select a worktree:".to_owned();
        return Progress::Ask(Action::Select { question, options: labels(&entries) });
    }
    match &log[at] {
        Reply::Chosen(label) => match find_entry(&entries, label.as_str()) {
            Some(entry) => go(
                entry.repo_name.as_str(),
                entry.branch.as_str(),
                entry.path.as_str(),
                no_session,
                env.in_tmux,
                log,
                at + 1,
            ),
            None => Progress::Done(Exit::Success, at + 1),
        },
        _ => Progress::Done(Exit::Failure, at + 1),
    }
}

/// Each worktree is counted once, and its session as created or as existing at
/// most once.
pub proof fn law_sessions_counted(
    repo_name: Seq<char>,
    worktrees: Seq<WorktreeModel>,
    tally: TallyModel,
    log: Seq<Reply>,
    at: int,
)
    requires
        tally.created + tally.existed <= tally.total,
    ensures
        open_sessions_flow(repo_name, worktrees, tally, log, at) matches Flow::Done(counted, _)
            ==> {
            &&& counted.total == tally.total + worktrees.len()
            &&& counted.created >= tally.created
            &&& counted.existed >= tally.existed
            &&& counted.created + counted.existed <= counted.total
        },
    decreases worktrees.len(),
{
    if worktrees.len() > 0 {
        if let Flow::Done(counted, next) = open_session_flow(
            repo_name,
            worktrees[0],
            tally,
            log,
            at,
        ) {
            law_sessions_counted(repo_name, worktrees.drop_first(), counted, log, next);
        }
    }
}

/// Every worktree that is offered can be chosen: its line stands for an entry
/// with that line.
pub proof fn law_offered_entry_found(entries: Seq<EntryModel>, at: int)
    requires
        0 <= at < entries.len(),
    ensures
        entry_with(entries, labels_of(entries)[at]) matches Some(entry) && entry.label
            == labels_of(entries)[at],
    decreases entries.len(),
{
    if at > 0 {
        let rest = entries.drop_first();
        law_offered_entry_found(rest, at - 1);
        assert(labels_of(rest)[at - 1] == labels_of(entries)[at]);
    }
}

/// A worktree is gone to by its session, or else by its directory, which is printed
/// if and only if the client was not switched.
pub proof fn law_go_steps(
    repo_name: Seq<char>,
    branch: Seq<char>,
    path: Seq<char>,
    no_session: bool,
    in_tmux: bool,
    log: Seq<Reply>,
    at: int,
)
    ensures
        ({
            let flow = go_flow(repo_name, branch, path, no_session, in_tmux, log, at);
            match switch_flow(repo_name, branch, path, no_session, in_tmux, log, at) {
                Flow::Ask(action) => awaits(flow, action),
                Flow::Done(switched, next) => {
                    &&& switched ==> flow == Flow::Done(Exit::Success, next)
                    &&& !switched && next >= log.len() ==> awaits(flow, ActionModel::Print(path))
                    &&& !switched && next < log.len() ==> flow == Flow::Done(
                        Exit::Success,
                        next + 1,
                    )
                },
            }
        }),
{
}

/// How the session of one worktree is seen to, and counted: as created, as already
/// there, or as neither where it could not be created, which is reported.
pub proof fn law_session_opened(
    repo_name: Seq<char>,
    worktree: WorktreeModel,
    tally: TallyModel,
    log: Seq<Reply>,
    at: int,
)
    requires
        0 <= at <= log.len(),
    ensures
        ({
            let flow = open_session_flow(repo_name, worktree, tally, log, at);
            let n = log.len();
            let name = session_name_of(repo_name, worktree.branch);
            let there = log[at].is_yes();
            let made = log[at + 1].is_yes();
            &&& n == at ==> awaits(flow, has_session(name))
            &&& n > at && there ==> flow == Flow::Done(
                TallyModel {
                    total: tally.total + 1,
                    created: tally.created,
                    existed: tally.existed + 1,
                },
                at + 1,
            )
            &&& n == at + 1 && !there ==> awaits(flow, new_session(name, worktree.path))
            &&& n == at + 2 && !there && made ==> awaits(
                flow,
                ActionModel::Report("Created: "@ + name),
            )
            &&& n > at + 2 && !there && made ==> flow == Flow::Done(
                TallyModel {
                    total: tally.total + 1,
                    created: tally.created + 1,
                    existed: tally.existed,
                },
                at + 3,
            )
            &&& n == at + 2 && !there && !made ==> awaits(
                flow,
                ActionModel::Report(
                    "Warning: "@ + name + ": "@ + log[at + 1].trouble_of(
                        "Failed to run tmux: "@,
                        "Failed to create tmux session:\n"@,
                    )->0,
                ),
            )
            &&& n > at + 2 && !there && !made ==> flow == Flow::Done(
                TallyModel {
                    total: tally.total + 1,
                    created: tally.created,
                    existed: tally.existed,
                },
                at + 3,
            )
        }),
{
}

/// Seeing to two lists of worktrees is seeing to the one and then to the other, with
/// one count over both.
pub proof fn law_sessions_in_turn(
    repo_name: Seq<char>,
    first: Seq<WorktreeModel>,
    second: Seq<WorktreeModel>,
    worktree: WorktreeModel,
    tally: TallyModel,
    log: Seq<Reply>,
    at: int,
)
    ensures
        open_sessions_flow(repo_name, first + second, tally, log, at) == (match open_sessions_flow(
            repo_name,
            first,
            tally,
            log,
            at,
        ) {
            Flow::Ask(action) => Flow::Ask(action),
            Flow::Done(counted, next) => open_sessions_flow(
                repo_name,
                second,
                counted,
                log,
                next,
            ),
        }),
        open_sessions_flow(repo_name, seq![worktree], tally, log, at) == open_session_flow(
            repo_name,
            worktree,
            tally,
            log,
            at,
        ),
        open_sessions_flow(repo_name, seq![], tally, log, at) == Flow::Done(tally, at),
    decreases first.len(),
{
    let whole = first + second;
    if first.len() == 0 {
        assert(whole == second);
    } else {
        assert(whole.drop_first() == first.drop_first() + second);
        if let Flow::Done(counted, next) = open_session_flow(
            repo_name,
            first[0],
            tally,
            log,
            at,
        ) {
            law_sessions_in_turn(
                repo_name,
                first.drop_first(),
                second,
                worktree,
                counted,
                log,
                next,
            );
        }
    }
    assert(seq![worktree].drop_first() == Seq::<WorktreeModel>::empty());
    reveal_with_fuel(open_sessions_flow, 2);
}

/// Seeing to two lists of repositories is seeing to the one and then to the other.
/// The worktrees of one repository are listed and seen to under its own name, and a
/// repository that cannot be listed is reported and passed over.
pub proof fn law_repos_in_turn(
    first: Seq<Seq<char>>,
    second: Seq<Seq<char>>,
    repo: Seq<char>,
    home: Option<Seq<char>>,
    tally: TallyModel,
    log: Seq<Reply>,
    at: int,
)
    ensures
        all_sessions_flow(first + second, home, tally, log, at) == (match all_sessions_flow(
            first,
            home,
            tally,
            log,
            at,
        ) {
            Flow::Ask(action) => Flow::Ask(action),
            Flow::Done(counted, next) => all_sessions_flow(second, home, counted, log, next),
        }),
        all_sessions_flow(seq![], home, tally, log, at) == Flow::Done(tally, at),
        ({
            let flow = all_sessions_flow(seq![repo], home, tally, log, at);
            let path = tilde_expanded(repo, home);
            match list_flow(path, log, at) {
                Flow::Ask(action) => awaits(flow, action),
                Flow::Done(Ok(worktrees), next) => flow == open_sessions_flow(
                    repo_name_of(path),
                    worktrees,
                    tally,
                    log,
                    next,
                ),
                Flow::Done(Err(message), next) => {
                    &&& next >= log.len() ==> awaits(
                        flow,
                        ActionModel::Report("Warning: "@ + path + ": "@ + message),
                    )
                    &&& next < log.len() ==> flow == Flow::Done(tally, next + 1)
                },
            }
        }),
    decreases first.len(),
{
    let whole = first + second;
    if first.len() == 0 {
        assert(whole == second);
    } else {
        assert(whole.drop_first() == first.drop_first() + second);
        let rest = first.drop_first();
        let path = tilde_expanded(first[0], home);
        match list_flow(path, log, at) {
            Flow::Ask(_) => {},
            Flow::Done(Ok(worktrees), next) => {
                if let Flow::Done(counted, end) = open_sessions_flow(
                    repo_name_of(path),
                    worktrees,
                    tally,
                    log,
                    next,
                ) {
                    law_repos_in_turn(rest, second, repo, home, counted, log, end);
                }
            },
            Flow::Done(Err(_), next) => {
                law_repos_in_turn(rest, second, repo, home, tally, log, next + 1);
            },
        }
    }
    assert(seq![repo].drop_first() == Seq::<Seq<char>>::empty());
    reveal_with_fuel(all_sessions_flow, 2);
}

/// What `wt sessions` says at its end, and what it is told to do: it counts from
/// nothing, and ends well where repositories are configured.
pub proof fn law_sessions_steps(home: Option<Seq<char>>, log: Seq<Reply>, at: int)
    ensures
        ({
            let flow = sessions_flow(home, log, at);
            let none = TallyModel { total: 0, created: 0, existed: 0 };
            match global_config_flow(home, log, at) {
                Flow::Ask(action) => awaits(flow, action),
                Flow::Done(config, next) => if config.repos.len() == 0 {
                    ends_in(
                        flow,
                        log,
                        next,
                        "Error: "@ + "No repos configured in ~/.config/wt/config.toml"@,
                        Exit::Failure,
                    )
                } else {
                    match all_sessions_flow(config.repos, home, none, log, next) {
                        Flow::Ask(action) => awaits(flow, action),
                        Flow::Done(tally, end) => ends_in(
                            flow,
                            log,
                            end,
                            "Done. "@ + decimal_of(tally.total) + " worktrees, "@ + decimal_of(
                                tally.created,
                            ) + " created, "@ + decimal_of(tally.existed) + " already existed."@,
                            Exit::Success,
                        ),
                    }
                },
            }
        }),
{
}

/// Whether a procedure ends by reporting one last line.
pub open spec fn ends_in(
    flow: Flow<Exit>,
    log: Seq<Reply>,
    at: int,
    line: Seq<char>,
    exit: Exit,
) -> bool {
    &&& at >= log.len() ==> awaits(flow, ActionModel::Report(line))
    &&& at < log.len() ==> flow == Flow::Done(exit, at + 1)
}

/// Gathering the worktrees of two lists of repositories is gathering those of the one
/// and then those of the other. Of one repository each worktree is gathered, in the
/// order of the listing, with its branch, its path and the name of the repository,
/// under a label made of the two names.
pub proof fn law_gathered_in_turn(
    first: Seq<Seq<char>>,
    second: Seq<Seq<char>>,
    repo: Seq<char>,
    home: Option<Seq<char>>,
    found: Seq<EntryModel>,
    log: Seq<Reply>,
    at: int,
)
    ensures
        gather_flow(first + second, home, found, log, at) == (match gather_flow(
            first,
            home,
            found,
            log,
            at,
        ) {
            Flow::Ask(action) => Flow::Ask(action),
            Flow::Done(entries, next) => gather_flow(second, home, entries, log, next),
        }),
        gather_flow(seq![], home, found, log, at) == Flow::Done(found, at),
        ({
            let flow = gather_flow(seq![repo], home, found, log, at);
            let path = tilde_expanded(repo, home);
            match list_flow(path, log, at) {
                Flow::Ask(action) => flow == Flow::<Seq<EntryModel>>::Ask(action),
                Flow::Done(Ok(worktrees), next) => flow matches Flow::Done(entries, end) && {
                    &&& end == next
                    &&& entries.len() == found.len() + worktrees.len()
                    &&& forall|i: int| 0 <= i < found.len() ==> #[trigger] entries[i] == found[i]
                    &&& forall|i: int|
                        0 <= i < worktrees.len() ==> {
                            let entry = #[trigger] entries[found.len() + i];
                            &&& entry.label == repo_name_of(path) + ": "@ + worktrees[i].branch
                            &&& entry.repo_name == repo_name_of(path)
                            &&& entry.branch == worktrees[i].branch
                            &&& entry.path == worktrees[i].path
                        }
                },
                Flow::Done(Err(message), next) => {
                    &&& next >= log.len() ==> flow == Flow::<Seq<EntryModel>>::Ask(
                        ActionModel::Report("Warning: "@ + path + ": "@ + message),
                    )
                    &&& next < log.len() ==> flow == Flow::Done(found, next + 1)
                },
            }
        }),
    decreases first.len(),
{
    let whole = first + second;
    if first.len() == 0 {
        assert(whole == second);
    } else {
        assert(whole.drop_first() == first.drop_first() + second);
        let rest = first.drop_first();
        let path = tilde_expanded(first[0], home);
        match list_flow(path, log, at) {
            Flow::Ask(_) => {},
            Flow::Done(Ok(worktrees), next) => {
                let more = found + entries_of(repo_name_of(path), worktrees);
                law_gathered_in_turn(rest, second, repo, home, more, log, next);
            },
            Flow::Done(Err(_), next) => {
                law_gathered_in_turn(rest, second, repo, home, found, log, next + 1);
            },
        }
    }
    assert(seq![repo].drop_first() == Seq::<Seq<char>>::empty());
    reveal_with_fuel(gather_flow, 2);
}

/// The entry that a label stands for is the first one with that label.
pub proof fn law_entry_found(entries: Seq<EntryModel>, label: Seq<char>)
    ensures
        match entry_with(entries, label) {
            Some(entry) => exists|i: int|
                0 <= i < entries.len() && #[trigger] entries[i] == entry && entry.label == label
                    && forall|j: int| 0 <= j < i ==> (#[trigger] entries[j]).label != label,
            None => forall|j: int|
                0 <= j < entries.len() ==> (#[trigger] entries[j]).label != label,
        },
    decreases entries.len(),
{
    if entries.len() > 0 {
        let rest = entries.drop_first();
        if entries[0].label != label {
            law_entry_found(rest, label);
            match entry_with(rest, label) {
                Some(entry) => {
                    let i = choose|i: int|
                        0 <= i < rest.len() && #[trigger] rest[i] == entry && entry.label == label
                            && forall|j: int| 0 <= j < i ==> (#[trigger] rest[j]).label != label;
                    assert(entries[i + 1] == entry);
                    assert forall|j: int| 0 <= j < i + 1 implies (#[trigger] entries[j]).label
                        != label by {
                        if j > 0 {
                            assert(entries[j] == rest[j - 1]);
                        }
                    }
                },
                None => {
                    assert forall|j: int| 0 <= j < entries.len() implies (
                    #[trigger] entries[j]).label != label by {
                        if j > 0 {
                            assert(entries[j] == rest[j - 1]);
                        }
                    }
                },
            }
        }
    }
}

/// How global mode goes: the worktrees of all configured repositories are gathered,
/// their labels are offered in that order, and the worktree of the label that is
/// chosen is gone to, by its own repository and branch.
pub proof fn law_global_steps(
    home: Option<Seq<char>>,
    no_session: bool,
    in_tmux: bool,
    log: Seq<Reply>,
    at: int,
)
    ensures
        ({
            let flow = global_flow(home, no_session, in_tmux, log, at);
            match global_config_flow(home, log, at) {
                Flow::Ask(action) => awaits(flow, action),
                Flow::Done(config, next) => if config.repos.len() == 0 {
                    ends_in(
                        flow,
                        log,
                        next,
                        "Error: "@
                            + "Not in a git repo and no repos configured in ~/.config/wt/config.toml"@,
                        Exit::Failure,
                    )
                } else {
                    match gather_flow(config.repos, home, seq![], log, next) {
                        Flow::Ask(action) => awaits(flow, action),
                        Flow::Done(entries, end) => if entries.len() == 0 {
                            ends_in(
                                flow,
                                log,
                                end,
                                "Error: "@ + "No worktrees found in any configured repo."@,
                                Exit::Failure,
                            )
                        } else {
                            &&& end >= log.len() ==> (flow matches Flow::Ask(
                                ActionModel::Select { question, options },
                            ) && question == "Select a worktree:"@ && options.len()
                                == entries.len() && forall|i: int|
                                0 <= i < options.len() ==> #[trigger] options[i]
                                    == entries[i].label)
                            &&& end < log.len() ==> match log[end] {
                                Reply::Chosen(label) => match entry_with(entries, label@) {
                                    Some(entry) => flow == go_flow(
                                        entry.repo_name,
                                        entry.branch,
                                        entry.path,
                                        no_session,
                                        in_tmux,
                                        log,
                                        end + 1,
                                    ),
                                    None => flow == Flow::Done(Exit::Success, end + 1),
                                },
                                _ => flow == Flow::Done(Exit::Failure, end + 1),
                            }
                        },
                    }
                },
            }
        }),
{
}

/// A failure is told after `Error: ` and makes the process fail; a last message does
/// not. Each is one report and nothing more.
pub proof fn law_last_words(message: Seq<char>, line: Seq<char>, log: Seq<Reply>, at: int)
    ensures
        log.len() <= at ==> awaits(
            die_flow(message, log, at),
            ActionModel::Report("Error: "@ + message),
        ) && awaits(farewell_flow(line, log, at), ActionModel::Report(line)),
        log.len() > at ==> die_flow(message, log, at) == Flow::Done(Exit::Failure, at + 1)
            && farewell_flow(line, log, at) == Flow::Done(Exit::Success, at + 1),
{
}

} // verus!
