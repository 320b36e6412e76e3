//! What the program asks of the outside world, and what it is told.
//!
//! A procedure is a function of the replies that were given so far. It either
//! asks for one more action, whose reply is then appended to the log, or it is
//! done and says how many replies it has read. Running it again on a longer log
//! takes up where it stopped.

use vstd::prelude::*;
use vstd::utf8::{decode_utf8, valid_utf8};

use crate::text::{cat, decode_lossy, lossy_text, trim, trimmed};

verus! {

broadcast use vstd::string::group_string_axioms;

/// The user's own configuration.
#[derive(Debug, PartialEq, Eq)]
pub struct GlobalConfig {
    /// Repositories that are searched in global mode.
    pub repos: Vec<String>,
    /// Where worktrees are backed up before they are destroyed.
    pub archive_dir: Option<String>,
}

/// The configuration of one repository.
#[derive(Debug, PartialEq, Eq)]
pub struct WtConfig {
    /// What is linked from the main repository into each new worktree.
    pub symlinks: Vec<String>,
}

/// What is known of the process from its start.
#[derive(Debug, PartialEq, Eq)]
pub struct Env {
    pub home: Option<String>,
    pub in_tmux: bool,
    /// Names the backups that this process makes.
    pub timestamp: String,
}

/// The programs that are run.
#[derive(Clone, Copy, Debug, PartialEq, Eq, Structural)]
pub enum Program {
    Git,
    Tmux,
    Rsync,
}

/// What becomes of the output of a command.
#[derive(Clone, Copy, Debug, PartialEq, Eq, Structural)]
pub enum Capture {
    /// Standard output and standard error are collected.
    Output,
    /// Both go where those of this process go; only the status is told.
    Status,
    /// As `Status`, but standard error is discarded.
    QuietStatus,
}

/// The run of a program.
#[derive(Debug, PartialEq, Eq)]
pub struct Command {
    pub program: Program,
    pub args: Vec<String>,
    /// The directory to run in, or that of this process.
    pub dir: Option<String>,
    pub capture: Capture,
}

/// What is asked of the outside world.
#[derive(Debug, PartialEq, Eq)]
pub enum Action {
    /// Tell whether something is there at a path, following links.
    Exists(String),
    /// Tell whether a path is itself a symbolic link.
    IsSymlink(String),
    /// Create a directory and those above it that are missing.
    CreateDirs(String),
    /// Create a symbolic link.
    Symlink { source: String, link: String },
    /// Put a recursive copy of a directory in place of whatever is at `target`.
    CopyTree { source: String, target: String },
    Run(Command),
    /// Ask a question that is answered by yes or no.
    Confirm { question: String, default: bool },
    /// Have one of several lines chosen.
    Select { question: String, options: Vec<String> },
    /// Read and parse the user's own configuration file.
    LoadGlobalConfig(String),
    /// Read and parse the configuration file of a repository.
    LoadRepoConfig(String),
    /// Write a line to standard error.
    Report(String),
    /// Write a line to standard output.
    Print(String),
    /// Write the usage text to standard error.
    ShowHelp,
}

/// What came of an action.
#[derive(Debug, PartialEq, Eq)]
pub enum Reply {
    /// A question was answered, or an action without a result was carried out. A
    /// configuration file that cannot be read is answered by no.
    Answer(bool),
    /// A command was run.
    Output { success: bool, stdout: Vec<u8>, stderr: Vec<u8> },
    /// The action could not be carried out.
    Failed(String),
    /// A line was chosen.
    Chosen(String),
    Global(GlobalConfig),
    Repo(WtConfig),
}

/// How far a procedure has come.
#[derive(Debug, PartialEq, Eq)]
pub enum Progress<T> {
    /// An action is to be performed and its reply appended to the log.
    Ask(Action),
    /// The result, and the number of replies of the log up to its end.
    Done(T, usize),
}

/// A `Command` with its texts as sequences.
#[verifier::ext_equal]
pub struct CommandModel {
    pub program: Program,
    pub args: Seq<Seq<char>>,
    pub dir: Option<Seq<char>>,
    pub capture: Capture,
}

/// An `Action` with its texts as sequences.
#[verifier::ext_equal]
pub enum ActionModel {
    Exists(Seq<char>),
    IsSymlink(Seq<char>),
    CreateDirs(Seq<char>),
    Symlink { source: Seq<char>, link: Seq<char> },
    CopyTree { source: Seq<char>, target: Seq<char> },
    Run(CommandModel),
    Confirm { question: Seq<char>, default: bool },
    Select { question: Seq<char>, options: Seq<Seq<char>> },
    LoadGlobalConfig(Seq<char>),
    LoadRepoConfig(Seq<char>),
    Report(Seq<char>),
    Print(Seq<char>),
    ShowHelp,
}

/// A `Progress` with its texts as sequences.
#[verifier::ext_equal]
pub enum Flow<M> {
    Ask(ActionModel),
    Done(M, int),
}

/// What a value says, with its texts as sequences.
pub trait Model {
    type M;

    spec fn model(&self) -> Self::M;
}

impl Model for () {
    type M = ();

    open spec fn model(&self) -> () {
        ()
    }
}

impl Model for bool {
    type M = bool;

    open spec fn model(&self) -> bool {
        *self
    }
}

impl Model for String {
    type M = Seq<char>;

    open spec fn model(&self) -> Seq<char> {
        self@
    }
}

impl<T: Model> Model for Option<T> {
    type M = Option<T::M>;

    open spec fn model(&self) -> Option<T::M> {
        match self {
            Some(value) => Some(value.model()),
            None => None,
        }
    }
}

impl<T: Model> Model for Result<T, String> {
    type M = Result<T::M, Seq<char>>;

    open spec fn model(&self) -> Result<T::M, Seq<char>> {
        match self {
            Ok(value) => Ok(value.model()),
            Err(message) => Err(message@),
        }
    }
}

impl Model for Command {
    type M = CommandModel;

    open spec fn model(&self) -> CommandModel {
        CommandModel {
            program: self.program,
            args: self.args.deep_view(),
            dir: self.dir.deep_view(),
            capture: self.capture,
        }
    }
}

impl Model for Action {
    type M = ActionModel;

    open spec fn model(&self) -> ActionModel {
        match self {
            Action::Exists(path) => ActionModel::Exists(path@),
            Action::IsSymlink(path) => ActionModel::IsSymlink(path@),
            Action::CreateDirs(path) => ActionModel::CreateDirs(path@),
            Action::Symlink { source, link } => ActionModel::Symlink {
                source: source@,
                link: link@,
            },
            Action::CopyTree { source, target } => ActionModel::CopyTree {
                source: source@,
                target: target@,
            },
            Action::Run(command) => ActionModel::Run(command.model()),
            Action::Confirm { question, default } => ActionModel::Confirm {
                question: question@,
                default: *default,
            },
            Action::Select { question, options } => ActionModel::Select {
                question: question@,
                options: options.deep_view(),
            },
            Action::LoadGlobalConfig(path) => ActionModel::LoadGlobalConfig(path@),
            Action::LoadRepoConfig(path) => ActionModel::LoadRepoConfig(path@),
            Action::Report(line) => ActionModel::Report(line@),
            Action::Print(line) => ActionModel::Print(line@),
            Action::ShowHelp => ActionModel::ShowHelp,
        }
    }
}

impl<T: Model> Model for Progress<T> {
    type M = Flow<T::M>;

    open spec fn model(&self) -> Flow<T::M> {
        match self {
            Progress::Ask(action) => Flow::Ask(action.model()),
            Progress::Done(value, at) => Flow::Done(value.model(), *at as int),
        }
    }
}

impl Reply {
    /// The answer is yes, or the command succeeded.
    pub open spec fn is_yes(self) -> bool {
        match self {
            Reply::Answer(yes) => yes,
            Reply::Output { success, .. } => success,
            _ => false,
        }
    }

    pub fn yes(&self) -> (res: bool)
        ensures
            res == self.is_yes(),
    {
        match self {
            Reply::Answer(yes) => *yes,
            Reply::Output { success, .. } => *success,
            _ => false,
        }
    }

    /// Why the action could not be carried out, if it could not.
    pub open spec fn failure_of(self) -> Option<Seq<char>> {
        match self {
            Reply::Failed(message) => Some(message@),
            _ => None,
        }
    }

    pub fn failure(&self) -> (res: Option<String>)
        ensures
            res.deep_view() == self.failure_of(),
    {
        match self {
            Reply::Failed(message) => Some(message.clone()),
            _ => None,
        }
    }

    /// The bytes that a command wrote to standard output.
    pub open spec fn stdout_of(self) -> Seq<u8> {
        match self {
            Reply::Output { stdout, .. } => stdout@,
            _ => Seq::empty(),
        }
    }

    /// The bytes that a command wrote to standard error.
    pub open spec fn stderr_of(self) -> Seq<u8> {
        match self {
            Reply::Output { stderr, .. } => stderr@,
            _ => Seq::empty(),
        }
    }

    pub fn wrote_nothing(&self) -> (res: bool)
        ensures
            res == (self.stdout_of().len() == 0),
    {
        match self {
            Reply::Output { stdout, .. } => stdout.len() == 0,
            _ => true,
        }
    }

    pub fn stdout_text(&self) -> (res: String)
        ensures
            res@ == lossy_text(self.stdout_of()),
            valid_utf8(self.stdout_of()) ==> res@ == decode_utf8(self.stdout_of()),
    {
        match self {
            Reply::Output { stdout, .. } => decode_lossy(stdout.as_slice()),
            _ => {
                let none: Vec<u8> = Vec::new();
                decode_lossy(none.as_slice())
            },
        }
    }

    pub fn stderr_text(&self) -> (res: String)
        ensures
            res@ == lossy_text(self.stderr_of()),
            valid_utf8(self.stderr_of()) ==> res@ == decode_utf8(self.stderr_of()),
    {
        match self {
            Reply::Output { stderr, .. } => decode_lossy(stderr.as_slice()),
            _ => {
                let none: Vec<u8> = Vec::new();
                decode_lossy(none.as_slice())
            },
        }
    }

    /// What is wrong with the run of a command: that it could not be started, or
    /// that it failed and what it then wrote to standard error.
    pub open spec fn trouble_of(self, cannot_run: Seq<char>, failed: Seq<char>) -> Option<
        Seq<char>,
    > {
        match self.failure_of() {
            Some(message) => Some(cannot_run + message),
            None => if self.is_yes() {
                None
            } else {
                Some(failed + trimmed(lossy_text(self.stderr_of())))
            },
        }
    }

    pub fn trouble(&self, cannot_run: &str, failed: &str) -> (res: Option<String>)
        ensures
            res.deep_view() == self.trouble_of(cannot_run@, failed@),
    {
        match self.failure() {
            Some(message) => Some(cat(cannot_run, message.as_str())),
            None => if self.yes() {
                None
            } else {
                let said = trim(self.stderr_text().as_str());
                Some(cat(failed, said.as_str()))
            },
        }
    }
}

/// The run of a command.
pub open spec fn run_of(
    program: Program,
    args: Seq<Seq<char>>,
    dir: Option<Seq<char>>,
    capture: Capture,
) -> ActionModel {
    ActionModel::Run(CommandModel { program, args, dir, capture })
}

/// A git command whose output is collected.
pub open spec fn git_of(args: Seq<Seq<char>>, dir: Option<Seq<char>>) -> ActionModel {
    run_of(Program::Git, args, dir, Capture::Output)
}

/// A git command of which only the status is told.
pub open spec fn git_status_of(args: Seq<Seq<char>>, dir: Seq<char>) -> ActionModel {
    run_of(Program::Git, args, Some(dir), Capture::Status)
}

/// A tmux command.
pub open spec fn tmux_of(args: Seq<Seq<char>>, capture: Capture) -> ActionModel {
    run_of(Program::Tmux, args, None, capture)
}

pub(crate) fn git(args: Vec<String>, dir: Option<&str>) -> (res: Action)
    ensures
        res.model() == git_of(args.deep_view(), dir.deep_view()),
{
    let dir = match dir {
        Some(path) => Some(path.to_owned()),
        None => None,
    };
    Action::Run(Command { program: Program::Git, args, dir, capture: Capture::Output })
}

pub(crate) fn git_status(args: Vec<String>, dir: &str) -> (res: Action)
    ensures
        res.model() == git_status_of(args.deep_view(), dir@),
{
    Action::Run(
        Command {
            program: Program::Git,
            args,
            dir: Some(dir.to_owned()),
            capture: Capture::Status,
        },
    )
}

pub(crate) fn tmux(args: Vec<String>, capture: Capture) -> (res: Action)
    ensures
        res.model() == tmux_of(args.deep_view(), capture),
{
    Action::Run(Command { program: Program::Tmux, args, dir: None, capture })
}

/// Whether a procedure waits for the reply to an action.
pub open spec fn awaits<M>(flow: Flow<M>, action: ActionModel) -> bool {
    flow == Flow::<M>::Ask(action)
}

/// Writes a line to standard error.
pub open spec fn report_flow(line: Seq<char>, log: Seq<Reply>, at: int) -> Flow<()> {
    if at >= log.len() {
        Flow::Ask(ActionModel::Report(line))
    } else {
        Flow::Done((), at + 1)
    }
}

pub fn report(line: String, log: &[Reply], at: usize) -> (res: Progress<()>)
    ensures
        res.model() == report_flow(line@, log@, at as int),
{
    if at >= log.len() {
        return Progress::Ask(Action::Report(line));
    }
    Progress::Done((), at + 1)
}

/// Texts in a list of their own.
pub(crate) fn list2(a: &str, b: &str) -> (res: Vec<String>)
    ensures
        res.deep_view() == seq![a@, b@],
{
    let mut res: Vec<String> = Vec::new();
    res.push(a.to_owned());
    res.push(b.to_owned());
    proof {
        assert(res.deep_view() =~= seq![a@, b@]);
    }
    res
}

pub(crate) fn list3(a: &str, b: &str, c: &str) -> (res: Vec<String>)
    ensures
        res.deep_view() == seq![a@, b@, c@],
{
    let mut res = list2(a, b);
    res.push(c.to_owned());
    proof {
        assert(res.deep_view() =~= seq![a@, b@].push(c@));
        assert(res.deep_view() =~= seq![a@, b@, c@]);
    }
    res
}

pub(crate) fn list4(a: &str, b: &str, c: &str, d: &str) -> (res: Vec<String>)
    ensures
        res.deep_view() == seq![a@, b@, c@, d@],
{
    let mut res = list3(a, b, c);
    res.push(d.to_owned());
    proof {
        assert(res.deep_view() =~= seq![a@, b@, c@].push(d@));
        assert(res.deep_view() =~= seq![a@, b@, c@, d@]);
    }
    res
}

pub(crate) fn list5(a: &str, b: &str, c: &str, d: &str, e: &str) -> (res: Vec<String>)
    ensures
        res.deep_view() == seq![a@, b@, c@, d@, e@],
{
    let mut res = list4(a, b, c, d);
    res.push(e.to_owned());
    proof {
        assert(res.deep_view() =~= seq![a@, b@, c@, d@].push(e@));
        assert(res.deep_view() =~= seq![a@, b@, c@, d@, e@]);
    }
    res
}

pub(crate) fn list6(a: &str, b: &str, c: &str, d: &str, e: &str, f: &str) -> (res: Vec<String>)
    ensures
        res.deep_view() == seq![a@, b@, c@, d@, e@, f@],
{
    let mut res = list5(a, b, c, d, e);
    res.push(f.to_owned());
    proof {
        assert(res.deep_view() =~= seq![a@, b@, c@, d@, e@].push(f@));
        assert(res.deep_view() =~= seq![a@, b@, c@, d@, e@, f@]);
    }
    res
}

pub(crate) fn list7(a: &str, b: &str, c: &str, d: &str, e: &str, f: &str, g: &str) -> (res: Vec<
    String,
>)
    ensures
        res.deep_view() == seq![a@, b@, c@, d@, e@, f@, g@],
{
    let mut res = list6(a, b, c, d, e, f);
    res.push(g.to_owned());
    proof {
        assert(res.deep_view() =~= seq![a@, b@, c@, d@, e@, f@].push(g@));
        assert(res.deep_view() =~= seq![a@, b@, c@, d@, e@, f@, g@]);
    }
    res
}

/// What replies say. A command that succeeded says yes, and so does an answer of
/// yes; an action that could not be carried out says why, and nothing else does.
pub proof fn law_reply_read(reply: Reply, cannot_run: Seq<char>, failed: Seq<char>)
    ensures
        match reply {
            Reply::Answer(yes) => {
                &&& reply.is_yes() == yes
                &&& reply.failure_of() is None
                &&& reply.stdout_of().len() == 0
            },
            Reply::Output { success, stdout, stderr } => {
                &&& reply.is_yes() == success
                &&& reply.failure_of() is None
                &&& reply.stdout_of() == stdout@ && reply.stderr_of() == stderr@
                &&& reply.trouble_of(cannot_run, failed) == if success {
                    None
                } else {
                    Some(failed + trimmed(lossy_text(stderr@)))
                }
            },
            Reply::Failed(message) => {
                &&& !reply.is_yes()
                &&& reply.failure_of() == Some(message@)
                &&& reply.stdout_of().len() == 0
                &&& reply.trouble_of(cannot_run, failed) == Some(cannot_run + message@)
            },
            _ => !reply.is_yes() && reply.failure_of() is None && reply.stdout_of().len() == 0,
        },
{
}

/// What commands are run: git with collected output or for its status alone, and
/// tmux in the directory of this process.
pub proof fn law_commands_run(args: Seq<Seq<char>>, dir: Option<Seq<char>>, capture: Capture)
    ensures
        git_of(args, dir) == ActionModel::Run(
            CommandModel { program: Program::Git, args, dir, capture: Capture::Output },
        ),
        dir matches Some(path) ==> git_status_of(args, path) == ActionModel::Run(
            CommandModel { program: Program::Git, args, dir, capture: Capture::Status },
        ),
        tmux_of(args, capture) == ActionModel::Run(
            CommandModel { program: Program::Tmux, args, dir: None, capture },
        ),
{
}

/// What the caller is asked to do is what is spoken of: a model of an action is of
/// the same kind and holds the same texts, each in its own place.
pub proof fn law_action_kept(action: Action)
    ensures
        match action {
            Action::Exists(path) => action.model() == ActionModel::Exists(path@),
            Action::IsSymlink(path) => action.model() == ActionModel::IsSymlink(path@),
            Action::CreateDirs(path) => action.model() == ActionModel::CreateDirs(path@),
            Action::Symlink { source, link } => action.model() matches ActionModel::Symlink {
                source: from,
                link: place,
            } && from == source@ && place == link@,
            Action::CopyTree { source, target } => action.model() matches ActionModel::CopyTree {
                source: from,
                target: to,
            } && from == source@ && to == target@,
            Action::Run(command) => action.model() matches ActionModel::Run(run) && {
                &&& run.program == command.program && run.capture == command.capture
                &&& run.args.len() == command.args@.len()
                &&& forall|i: int|
                    0 <= i < run.args.len() ==> #[trigger] run.args[i] == command.args@[i]@
                &&& match command.dir {
                    Some(dir) => run.dir == Some(dir@),
                    None => run.dir is None,
                }
            },
            Action::Confirm { question, default } => action.model() matches ActionModel::Confirm {
                question: asked,
                default: given,
            } && asked == question@ && given == default,
            Action::Select { question, options } => action.model() matches ActionModel::Select {
                question: asked,
                options: offered,
            } && {
                &&& asked == question@ && offered.len() == options@.len()
                &&& forall|i: int|
                    0 <= i < offered.len() ==> #[trigger] offered[i] == options@[i]@
            },
            Action::LoadGlobalConfig(path) => action.model() == ActionModel::LoadGlobalConfig(
                path@,
            ),
            Action::LoadRepoConfig(path) => action.model() == ActionModel::LoadRepoConfig(path@),
            Action::Report(line) => action.model() == ActionModel::Report(line@),
            Action::Print(line) => action.model() == ActionModel::Print(line@),
            Action::ShowHelp => action.model() is ShowHelp,
        },
{
}

} // verus!
