//! The configuration of the user and of a repository.

use vstd::prelude::*;

use crate::flow::{
    awaits, Action, ActionModel, Flow, GlobalConfig, Model, Progress, Reply, WtConfig,
};
use crate::names::{global_config_path, global_config_path_of};
use crate::paths::{join, joined};
use crate::text::cat;

verus! {

broadcast use vstd::string::group_string_axioms;

/// A `GlobalConfig` with its texts as sequences.
#[verifier::ext_equal]
pub struct GlobalConfigModel {
    pub repos: Seq<Seq<char>>,
    pub archive_dir: Option<Seq<char>>,
}

impl Model for GlobalConfig {
    type M = GlobalConfigModel;

    open spec fn model(&self) -> GlobalConfigModel {
        GlobalConfigModel {
            repos: self.repos.deep_view(),
            archive_dir: self.archive_dir.deep_view(),
        }
    }
}

impl Model for WtConfig {
    type M = Seq<Seq<char>>;

    open spec fn model(&self) -> Seq<Seq<char>> {
        self.symlinks.deep_view()
    }
}

impl Default for GlobalConfig {
    fn default() -> (res: Self)
        ensures
            res.model() == no_config(),
    {
        let res = GlobalConfig { repos: Vec::new(), archive_dir: None };
        proof {
            assert(res.model() =~= no_config());
        }
        res
    }
}

impl Default for WtConfig {
    fn default() -> (res: Self)
        ensures
            res.model() == Seq::<Seq<char>>::empty(),
    {
        WtConfig { symlinks: Vec::new() }
    }
}

/// The configuration of a user who has none.
pub open spec fn no_config() -> GlobalConfigModel {
    GlobalConfigModel { repos: seq![], archive_dir: None }
}

fn copied(list: &Vec<String>) -> (res: Vec<String>)
    ensures
        res.deep_view() == list.deep_view(),
{
    let mut res: Vec<String> = Vec::new();
    let mut i: usize = 0;
    while i < list.len()
        invariant
            i <= list@.len(),
            res.deep_view() == list.deep_view().take(i as int),
        decreases list@.len() - i,
    {
        let ghost before = res.deep_view();
        res.push(list[i].clone());
        proof {
            assert(res.deep_view() =~= before.push(list.deep_view()[i as int]));
            assert(list.deep_view().take(i + 1) =~= before.push(list.deep_view()[i as int]));
        }
        i += 1;
    }
    proof {
        assert(list.deep_view().take(i as int) == list.deep_view());
    }
    res
}

/// The user's own configuration. A missing file stands for an empty one, and so
/// does one that cannot be parsed, which is reported.
pub open spec fn global_config_flow(
    home: Option<Seq<char>>,
    log: Seq<Reply>,
    at: int,
) -> Flow<GlobalConfigModel> {
    match global_config_path_of(home) {
        None => Flow::Done(no_config(), at),
        Some(path) => if at >= log.len() {
            Flow::Ask(ActionModel::LoadGlobalConfig(path))
        } else {
            match log[at] {
                Reply::Global(config) => Flow::Done(config.model(), at + 1),
                Reply::Failed(message) => if at + 1 >= log.len() {
                    Flow::Ask(
                        ActionModel::Report(
                            "Warning: failed to parse "@ + path + ": "@ + message@,
                        ),
                    )
                } else {
                    Flow::Done(no_config(), at + 2)
                },
                _ => Flow::Done(no_config(), at + 1),
            }
        },
    }
}

pub fn read_global_config(home: Option<&str>, log: &[Reply], at: usize) -> (res: Progress<
    GlobalConfig,
>)
    ensures
        res.model() == global_config_flow(home.deep_view(), log@, at as int),
{
    let path = match global_config_path(home) {
        Some(path) => path,
        None => return Progress::Done(GlobalConfig::default(), at),
    };
    if at >= log.len() {
        return Progress::Ask(Action::LoadGlobalConfig(path));
    }
    match &log[at] {
        Reply::Global(config) => {
            let repos = copied(&config.repos);
            let archive_dir = match &config.archive_dir {
                Some(dir) => Some(dir.clone()),
                None => None,
            };
            let config = GlobalConfig { repos, archive_dir };
            Progress::Done(config, at + 1)
        },
        Reply::Failed(message) => {
            let at: usize = at + 1;
            if at >= log.len() {
                let mut line = cat("Warning: failed to parse ", path.as_str());
                line.append(": ");
                line.append(message.as_str());
                return Progress::Ask(Action::Report(line));
            }
            Progress::Done(GlobalConfig::default(), at + 1)
        },
        _ => Progress::Done(GlobalConfig::default(), at + 1),
    }
}

/// What is linked into the new worktrees of a repository. A missing file stands
/// for an empty one, and so does one that cannot be parsed, which is reported.
pub open spec fn repo_config_flow(main_repo: Seq<char>, log: Seq<Reply>, at: int) -> Flow<
    Seq<Seq<char>>,
> {
    if at >= log.len() {
        Flow::Ask(ActionModel::LoadRepoConfig(joined(main_repo, ".wt.toml"@)))
    } else {
        match log[at] {
            Reply::Repo(config) => Flow::Done(config.model(), at + 1),
            Reply::Failed(message) => if at + 1 >= log.len() {
                Flow::Ask(
                    ActionModel::Report("Warning: failed to parse .wt.toml: "@ + message@),
                )
            } else {
                Flow::Done(seq![], at + 2)
            },
            _ => Flow::Done(seq![], at + 1),
        }
    }
}

pub fn read_config(main_repo: &str, log: &[Reply], at: usize) -> (res: Progress<WtConfig>)
    ensures
        res.model() == repo_config_flow(main_repo@, log@, at as int),
{
    if at >= log.len() {
        return Progress::Ask(Action::LoadRepoConfig(join(main_repo, ".wt.toml")));
    }
    match &log[at] {
        Reply::Repo(config) => {
            let symlinks = copied(&config.symlinks);
            Progress::Done(WtConfig { symlinks }, at + 1)
        },
        Reply::Failed(message) => {
            let at: usize = at + 1;
            if at >= log.len() {
                let line = cat("Warning: failed to parse .wt.toml: ", message.as_str());
                return Progress::Ask(Action::Report(line));
            }
            Progress::Done(WtConfig::default(), at + 1)
        },
        _ => Progress::Done(WtConfig::default(), at + 1),
    }
}

/// The user's configuration is what the file under the home directory says, and
/// all of it. A missing file says nothing, and so does one that cannot be parsed,
/// which is reported.
pub proof fn law_global_config_read(home: Option<Seq<char>>, log: Seq<Reply>, at: int)
    requires
        0 <= at <= log.len(),
    ensures
        ({
            let flow = global_config_flow(home, log, at);
            let none = GlobalConfigModel { repos: seq![], archive_dir: None };
            match global_config_path_of(home) {
                None => flow == Flow::Done(none, at),
                Some(path) => {
                    &&& log.len() == at ==> awaits(flow, ActionModel::LoadGlobalConfig(path))
                    &&& log.len() > at ==> match log[at] {
                        Reply::Global(config) => flow == Flow::Done(
                            GlobalConfigModel {
                                repos: config.repos.deep_view(),
                                archive_dir: config.archive_dir.deep_view(),
                            },
                            at + 1,
                        ),
                        Reply::Failed(message) => {
                            &&& log.len() == at + 1 ==> awaits(
                                flow,
                                ActionModel::Report(
                                    "Warning: failed to parse "@ + path + ": "@ + message@,
                                ),
                            )
                            &&& log.len() > at + 1 ==> flow == Flow::Done(none, at + 2)
                        },
                        _ => flow == Flow::Done(none, at + 1),
                    }
                },
            }
        }),
{
}

/// What is linked into new worktrees is what `.wt.toml` of the repository says, and
/// all of it. A missing file says nothing, and so does one that cannot be parsed,
/// which is reported.
pub proof fn law_repo_config_read(main_repo: Seq<char>, log: Seq<Reply>, at: int)
    requires
        0 <= at <= log.len(),
    ensures
        ({
            let flow = repo_config_flow(main_repo, log, at);
            let none = Seq::<Seq<char>>::empty();
            &&& log.len() == at ==> awaits(
                flow,
                ActionModel::LoadRepoConfig(joined(main_repo, ".wt.toml"@)),
            )
            &&& log.len() > at ==> match log[at] {
                Reply::Repo(config) => flow == Flow::Done(config.symlinks.deep_view(), at + 1),
                Reply::Failed(message) => {
                    &&& log.len() == at + 1 ==> awaits(
                        flow,
                        ActionModel::Report("Warning: failed to parse .wt.toml: "@ + message@),
                    )
                    &&& log.len() > at + 1 ==> flow == Flow::Done(none, at + 2)
                },
                _ => flow == Flow::Done(none, at + 1),
            }
        }),
{
}

} // verus!
