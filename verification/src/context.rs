//! What a command needs to act on one environment of one app.

use crate::config::{
    env_choice, resolve_env_name, resolve_target, ssh_target_of, EnvConfig, GlobalConfig,
    RepoConfig,
};
use crate::failure::Failure;
use crate::names::{lookup, ordered, position, position_is_unique};
use crate::ssh::Ssh;
use crate::text::{opt, opt_str};
use vstd::prelude::*;
use vstd::string::*;

verus! {

/// One environment of one app.
pub struct Ctx {
    pub repo_root: String,
    pub repo: RepoConfig,
    pub global: GlobalConfig,
    pub env_name: String,
}

/// The bare repo of an app on a box.
pub open spec fn bare_repo_of(app: Seq<char>) -> Seq<char> {
    "/data/git/"@ + app + ".git"@
}

/// The working checkout of an app on a box.
pub open spec fn workdir_of(app: Seq<char>, given: Option<Seq<char>>) -> Seq<char> {
    match given {
        Some(dir) => dir,
        None => "/data/repos/"@ + app,
    }
}

/// The URL that is pushed to.
pub open spec fn push_url_of(target: Seq<char>, app: Seq<char>) -> Seq<char> {
    "ssh://"@ + target + bare_repo_of(app)
}

/// The bare repo of an app on a box.
pub fn bare_repo_path(app: &str) -> (r: String)
    ensures
        r@ == bare_repo_of(app@),
{
    "/data/git/".to_string().concat(app).concat(".git")
}

/// The working checkout of an app on a box.
pub fn workdir_path(app: &str, given: &Option<String>) -> (r: String)
    ensures
        r@ == workdir_of(app@, opt(*given)),
{
    match given {
        Some(dir) => dir.clone(),
        None => "/data/repos/".to_string().concat(app),
    }
}

impl Ctx {
    /// The environment is one that the app defines.
    pub open spec fn wf(&self) -> bool {
        position(self.repo.environments@, self.env_name@) is Some
    }

    /// The environment's configuration.
    pub open spec fn env_spec(&self) -> EnvConfig {
        lookup(self.repo.environments@, self.env_name@)->0
    }

    /// What ssh is told to connect to.
    pub open spec fn target_spec(&self) -> Seq<char> {
        ssh_target_of(self.global.servers@, self.env_spec().server@)
    }

    /// The context of a command, from what was read of the repo and of this
    /// machine, the environment that was named and the branch that is checked
    /// out.
    pub fn load(
        repo_root: String,
        repo: RepoConfig,
        global: GlobalConfig,
        env_arg: Option<String>,
        git_branch: Option<&str>,
    ) -> (r: Result<Self, Failure>)
        ensures
            match (
                r,
                env_choice(
                    repo.environments@,
                    opt(env_arg),
                    opt_str(git_branch),
                    opt(repo.app.default_env),
                    opt(global.defaults.environment),
                ),
            ) {
                (Ok(ctx), Ok(i)) => {
                    &&& ctx.wf()
                    &&& ctx.env_name@ == repo.environments@[i].0
                    &&& ctx.repo_root == repo_root
                    &&& ctx.repo == repo
                    &&& ctx.global == global
                },
                (Err(failure), Err(text)) => failure@ == text,
                _ => false,
            },
    {
        match resolve_env_name(env_arg, git_branch, &repo, &global) {
            Ok(env_name) => Ok(Ctx { repo_root, repo, global, env_name }),
            Err(failure) => Err(failure),
        }
    }

    /// The environment's configuration.
    pub fn env(&self) -> (r: &EnvConfig)
        requires
            self.wf(),
        ensures
            *r == self.env_spec(),
    {
        match self.repo.environments.index_of(self.env_name.as_str()) {
            Some(i) => self.repo.environments.value_at(i),
            None => self.repo.environments.value_at(0),
        }
    }

    /// The app's name.
    pub fn app(&self) -> (r: &str)
        ensures
            r@ == self.repo.app.name@,
    {
        self.repo.app.name.as_str()
    }

    /// What ssh is told to connect to.
    pub fn ssh_target(&self) -> (r: String)
        requires
            self.wf(),
        ensures
            r@ == self.target_spec(),
    {
        resolve_target(&self.global, self.env().server.as_str())
    }

    /// The environment's box.
    pub fn ssh(&self, config_home: &str) -> (r: Ssh)
        requires
            self.wf(),
        ensures
            r.target_text() == self.target_spec(),
            r.control_text() == crate::config::path_under(
                crate::config::path_under(config_home@, "sockets"@),
                "%C"@,
            ),
    {
        Ssh::new(self.ssh_target(), config_home)
    }

    /// The app's bare repo on the box.
    pub fn bare_repo(&self) -> (r: String)
        ensures
            r@ == bare_repo_of(self.repo.app.name@),
    {
        bare_repo_path(self.app())
    }

    /// The app's working checkout on the box.
    pub fn workdir(&self) -> (r: String)
        requires
            self.wf(),
        ensures
            r@ == workdir_of(self.repo.app.name@, opt(self.env_spec().workdir)),
    {
        workdir_path(self.app(), &self.env().workdir)
    }

    /// The app's deployment in the cluster.
    pub fn deployment(&self) -> (r: String)
        ensures
            r@ == self.repo.app.name@ + "-deployment"@,
    {
        self.app().to_string().concat("-deployment")
    }

    /// The URL that a deploy pushes to.
    pub fn push_url(&self) -> (r: String)
        requires
            self.wf(),
        ensures
            r@ == push_url_of(self.target_spec(), self.repo.app.name@),
    {
        "ssh://".to_string().concat(self.ssh_target().as_str()).concat(self.bare_repo().as_str())
    }

    /// The command that acts on the environment's namespace.
    pub fn kubectl(&self) -> (r: String)
        requires
            self.wf(),
        ensures
            r@ == "sudo kubectl -n "@ + self.env_spec().namespace@,
    {
        "sudo kubectl -n ".to_string().concat(self.env().namespace.as_str())
    }

    /// The record of deploys on the box.
    pub fn deploy_log(&self) -> (r: String)
        ensures
            r@ == "/data/logs/aoraki-deploys/"@ + self.repo.app.name@ + ".jsonl"@,
    {
        "/data/logs/aoraki-deploys/".to_string().concat(self.app()).concat(".jsonl")
    }
}

/// An app has its places on a box by its name; its checkout is where the
/// environment says, where it says so. A deploy pushes to the app's bare repo
/// on the environment's box.
pub proof fn where_an_app_lives(target: Seq<char>, app: Seq<char>, dir: Seq<char>)
    ensures
        bare_repo_of(app) == "/data/git/"@ + app + ".git"@,
        workdir_of(app, Some(dir)) == dir,
        workdir_of(app, None) == "/data/repos/"@ + app,
        push_url_of(target, app) == "ssh://"@ + target + "/data/git/"@ + app + ".git"@,
{
    assert(push_url_of(target, app) =~= "ssh://"@ + target + "/data/git/"@ + app + ".git"@);
}

/// The environment of a context is the one that the app defines under its name,
/// and its box is that environment's.
pub proof fn a_context_is_its_environment(ctx: Ctx, i: int)
    requires
        ordered(ctx.repo.environments@),
        0 <= i < ctx.repo.environments@.len(),
        ctx.env_name@ == ctx.repo.environments@[i].0,
    ensures
        ctx.wf(),
        ctx.env_spec() == ctx.repo.environments@[i].1,
        ctx.target_spec() == ssh_target_of(
            ctx.global.servers@,
            ctx.repo.environments@[i].1.server@,
        ),
{
    position_is_unique(ctx.repo.environments@, i);
}

} // verus!
