//! What the server starts with.

use crate::agent::request::DEFAULT_MODEL_CONTEXT_WINDOW;
use crate::model::configured::ConfiguredModels;
use crate::model::router::{entries, route_to};
use crate::path::{absolute, followed, is_absolute, path_join, PathStyle};
use crate::protocol::ids::ProjectId;
use vstd::prelude::*;

verus! {

/// The models that a server answers with.
pub enum ServerModelConfig {
    Demo,
    Providers(ConfiguredModels),
}

/// How a server is set up.
pub struct ServerConfig {
    pub resource_root: String,
    pub data_dir: String,
    pub default_workspace_root: String,
    pub models: ServerModelConfig,
    pub max_concurrent_runs: usize,
    pub max_parallel_actions: usize,
}

/// The directories of a server's resources.
#[derive(Debug, PartialEq, Eq)]
pub struct ResourcePaths {
    pub workflows: String,
    pub builtins: String,
    /// The runtime of programs in Python, which need not be there.
    pub python: String,
}

impl ServerConfig {
    /// Where the server's resources are.
    pub fn resource_paths(&self, style: PathStyle) -> (r: ResourcePaths)
        ensures
            r.workflows@ == followed(style, self.resource_root@, "workflows"@),
            r.builtins@ == followed(style, r.workflows@, "builtin"@),
            r.python@ == followed(style, self.resource_root@, "python"@),
    {
        let workflows = path_join(style, self.resource_root.as_str(), "workflows");
        let builtins = path_join(style, workflows.as_str(), "builtin");
        let python = path_join(style, self.resource_root.as_str(), "python");
        ResourcePaths { workflows, builtins, python }
    }

    /// What is missing, given whether the built-in programs are there.
    pub open spec fn fault(&self, style: PathStyle, builtins_exist: bool) -> Option<Seq<char>> {
        if !absolute(style, self.default_workspace_root@) {
            Some("PaperMachine default Workspace root must be absolute"@)
        } else if !builtins_exist {
            Some(
                "PaperMachine built-in WorkflowProgram directory is missing: "@ + followed(
                    style,
                    followed(style, self.resource_root@, "workflows"@),
                    "builtin"@,
                ),
            )
        } else {
            None
        }
    }

    /// Whether the server can start, given whether the built-in programs are there.
    pub fn check(&self, style: PathStyle, builtins_exist: bool) -> (r: Result<(), String>)
        ensures
            match r {
                Ok(()) => self.fault(style, builtins_exist) is None,
                Err(e) => self.fault(style, builtins_exist) == Some(e@),
            },
    {
        if !is_absolute(style, self.default_workspace_root.as_str()) {
            return Err("PaperMachine default Workspace root must be absolute".to_owned());
        }
        let paths = self.resource_paths(style);
        if !builtins_exist {
            let mut message = "PaperMachine built-in WorkflowProgram directory is missing: ".to_owned();
            message.append(paths.builtins.as_str());
            return Err(message);
        }
        Ok(())
    }

    /// How many Turns run at once: as many as all the runs have actions, one at least.
    pub fn turn_permits(&self) -> (r: usize)
        ensures
            self.max_concurrent_runs * self.max_parallel_actions == 0 ==> r == 1,
            0 < self.max_concurrent_runs * self.max_parallel_actions <= usize::MAX ==> r
                == self.max_concurrent_runs * self.max_parallel_actions,
            self.max_concurrent_runs * self.max_parallel_actions > usize::MAX ==> r == usize::MAX,
    {
        let n: usize = match self.max_concurrent_runs.checked_mul(self.max_parallel_actions) {
            Some(n) => n,
            None => usize::MAX,
        };
        assert(self.max_concurrent_runs * self.max_parallel_actions >= 0) by (nonlinear_arith);
        if n < 1 {
            1
        } else {
            n
        }
    }

    /// How many Sessions run at once: one at least.
    pub fn session_permits(&self) -> (r: usize)
        ensures
            r == (if self.max_concurrent_runs < 1 {
                1
            } else {
                self.max_concurrent_runs
            }),
    {
        if self.max_concurrent_runs < 1 {
            1
        } else {
            self.max_concurrent_runs
        }
    }
}

/// What a server says of its models.
#[derive(Debug, PartialEq, Eq)]
pub struct ServerModels {
    pub default_model: String,
    pub model_context_window: usize,
    pub mode: &'static str,
}

/// What is said of a default model that is none of the models.
pub open spec fn no_window() -> Seq<char> {
    "configured default model has no context window"@
}

impl ServerModelConfig {
    /// What the server says of its models.
    pub fn describe(&self) -> (r: Result<ServerModels, String>)
        ensures
            match *self {
                ServerModelConfig::Demo => r matches Ok(m) && m.default_model@ == "demo-model"@
                    && m.model_context_window == DEFAULT_MODEL_CONTEXT_WINDOW && m.mode@ == "demo"@,
                ServerModelConfig::Providers(configured) => match route_to(
                    entries(configured.router.routes@),
                    configured.default_model@,
                ) {
                    Some(entry) => r matches Ok(m) && m.default_model@ == configured.default_model@
                        && m.model_context_window == entry.profile.context_window && m.mode@
                        == "providers"@,
                    None => r matches Err(e) && e@ == no_window(),
                },
            },
    {
        match self {
            ServerModelConfig::Demo => Ok(
                ServerModels {
                    default_model: "demo-model".to_owned(),
                    model_context_window: DEFAULT_MODEL_CONTEXT_WINDOW,
                    mode: "demo",
                },
            ),
            ServerModelConfig::Providers(configured) => {
                match configured.router.model_context_window(configured.default_model.as_str()) {
                    Some(window) => Ok(
                        ServerModels {
                            default_model: configured.default_model.clone(),
                            model_context_window: window,
                            mode: "providers",
                        },
                    ),
                    None => Err("configured default model has no context window".to_owned()),
                }
            },
        }
    }
}

/// The directories of a Project that are made anew at every start.
#[derive(Debug, PartialEq, Eq)]
pub struct RuntimePaths {
    pub workflow_runtime: String,
    pub sandboxes: String,
}

/// Where the directories of a Project are that are made anew at every start.
pub fn runtime_paths(style: PathStyle, managed_root: &str) -> (r: RuntimePaths)
    ensures
        r.workflow_runtime@ == followed(style, managed_root@, "workflow-runtime"@),
        r.sandboxes@ == followed(style, managed_root@, "runtime/sandboxes"@),
{
    RuntimePaths {
        workflow_runtime: path_join(style, managed_root, "workflow-runtime"),
        sandboxes: path_join(style, managed_root, "runtime/sandboxes"),
    }
}

/// Whether a Project has work to take up again. One that could not be looked into is left alone.
pub open spec fn has_work(inspected: (ProjectId, Option<usize>)) -> bool {
    inspected.1 matches Some(sessions) && sessions > 0
}

/// The Projects that have work to take up again, in their order, given how many Sessions of each
/// are unfinished, where that could be found out.
pub fn recoverable_projects(inspected: &Vec<(ProjectId, Option<usize>)>) -> (r: Vec<ProjectId>)
    ensures
        r@ == inspected@.filter(|p: (ProjectId, Option<usize>)| has_work(p)).map_values(
            |p: (ProjectId, Option<usize>)| p.0,
        ),
{
    let mut r: Vec<ProjectId> = Vec::new();
    let ghost keep = |p: (ProjectId, Option<usize>)| has_work(p);
    let ghost name = |p: (ProjectId, Option<usize>)| p.0;
    let mut i: usize = 0;
    proof {
        reveal(Seq::filter);
    }
    assert(inspected@.take(0) =~= Seq::empty());
    assert(r@ =~= inspected@.take(0).filter(keep).map_values(name));
    while i < inspected.len()
        invariant
            i <= inspected@.len(),
            keep == (|p: (ProjectId, Option<usize>)| has_work(p)),
            name == (|p: (ProjectId, Option<usize>)| p.0),
            r@ == inspected@.take(i as int).filter(keep).map_values(name),
        decreases inspected@.len() - i,
    {
        let ghost before = inspected@.take(i as int);
        let ghost one = inspected@[i as int];
        proof {
            reveal(Seq::filter);
            assert(inspected@.take(i + 1).drop_last() =~= before);
        }
        let (project, sessions) = inspected[i];
        let work = match sessions {
            Some(sessions) => sessions > 0,
            None => false,
        };
        if work {
            r.push(project);
            assert(inspected@.take(i + 1).filter(keep) =~= before.filter(keep).push(one));
            assert(r@ =~= before.filter(keep).push(one).map_values(name));
        }
        i = i + 1;
    }
    assert(inspected@.take(i as int) =~= inspected@);
    r
}

/// What lies at the path of a directory that is made anew at every start.
#[derive(Debug, PartialEq, Eq)]
pub enum EphemeralPath {
    Missing,
    Directory,
    /// A file, or a link to something.
    Other,
    Unreadable(String),
}

/// What is done with a directory that is made anew at every start.
#[derive(Debug, PartialEq, Eq)]
pub enum ResetStep {
    Create,
    RemoveThenCreate,
    Refuse(String),
}

/// What is done with a directory that is made anew at every start. Nothing but a real directory is
/// ever removed.
pub fn reset_ephemeral_directory(path: &str, seen: EphemeralPath) -> (r: ResetStep)
    ensures
        match seen {
            EphemeralPath::Missing => r == ResetStep::Create,
            EphemeralPath::Directory => r == ResetStep::RemoveThenCreate,
            EphemeralPath::Other => r matches ResetStep::Refuse(e) && e@
                == "runtime path is not a real directory: "@ + path@,
            EphemeralPath::Unreadable(fault) => r matches ResetStep::Refuse(e) && e@ == fault@,
        },
{
    match seen {
        EphemeralPath::Missing => ResetStep::Create,
        EphemeralPath::Directory => ResetStep::RemoveThenCreate,
        EphemeralPath::Other => {
            let mut message = "runtime path is not a real directory: ".to_owned();
            message.append(path);
            ResetStep::Refuse(message)
        },
        EphemeralPath::Unreadable(fault) => ResetStep::Refuse(fault),
    }
}

} // verus!
