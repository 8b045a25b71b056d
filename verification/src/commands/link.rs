//! `aoraki link`: the bare repo, the hook and its settings are put on each
//! environment's box, and a git remote is set up for it here. Running it again
//! repairs what is broken.

use crate::config::{resolve_target, ssh_target_of, EnvConfig, GlobalConfig};
use crate::context::{bare_repo_of, bare_repo_path, push_url_of, workdir_of, workdir_path};
use crate::failure::{fail, Failure};
use crate::hook::HOOK_VERSION;
use crate::text::{contains, decimal, lines, line_seq, list_has, occurs_in, opt, show, views};
use crate::util::{quoted, sh_quote};
use vstd::prelude::*;
use vstd::string::*;

verus! {

/// What linking an environment works on.
pub struct Link {
    pub target: String,
    pub bare: String,
    pub workdir: String,
}

impl Link {
    /// What linking an environment of an app works on.
    pub open spec fn is_for(&self, global: GlobalConfig, app: Seq<char>, env: EnvConfig) -> bool {
        &&& self.target@ == ssh_target_of(global.servers@, env.server@)
        &&& self.bare@ == bare_repo_of(app)
        &&& self.workdir@ == workdir_of(app, opt(env.workdir))
    }

    /// What linking an environment of an app works on.
    pub fn new(global: &GlobalConfig, app: &str, env: &EnvConfig) -> (r: Self)
        ensures
            r.is_for(*global, app@, *env),
    {
        Link {
            target: resolve_target(global, env.server.as_str()),
            bare: bare_repo_path(app),
            workdir: workdir_path(app, &env.workdir),
        }
    }

    /// The line that announces an environment.
    pub fn title(&self, name: &str, env: &EnvConfig) -> (r: String)
        ensures
            r@ == "Linking '"@ + name@ + "' → "@ + self.target@ + " (namespace "@ + env.namespace@
                + ", branch "@ + env.branch@ + ")"@,
    {
        "Linking '".to_string().concat(name).concat("' → ").concat(self.target.as_str()).concat(
            " (namespace ",
        ).concat(env.namespace.as_str()).concat(", branch ").concat(env.branch.as_str()).concat(")")
    }

    /// The command that makes the bare repo.
    pub fn init_command(&self) -> (r: String)
        ensures
            r@ == "mkdir -p /data/git && { [ -d "@ + self.bare@ + " ] || git init --bare -q "@
                + self.bare@ + "; }"@,
    {
        "mkdir -p /data/git && { [ -d ".to_string().concat(self.bare.as_str()).concat(
            " ] || git init --bare -q ",
        ).concat(self.bare.as_str()).concat("; }")
    }

    /// What is said where the bare repo could not be made.
    pub fn init_failed(&self, cause: &str) -> (r: Failure)
        ensures
            r@ == "creating bare repo on "@ + self.target@
                + " — is /data writable by this user?: "@ + cause@,
    {
        fail(
            "creating bare repo on ".to_string().concat(self.target.as_str()).concat(
                " — is /data writable by this user?: ",
            ).concat(cause),
        )
    }

    /// The command that takes the hook from its standard input. The hook is
    /// moved into place whole.
    pub fn install_command(&self) -> (r: String)
        ensures
            r@ == "cat > "@ + self.bare@ + "/hooks/post-receive.tmp && mv "@ + self.bare@
                + "/hooks/post-receive.tmp "@ + self.bare@ + "/hooks/post-receive && chmod +x "@
                + self.bare@ + "/hooks/post-receive"@,
    {
        let bare = self.bare.as_str();
        "cat > ".to_string().concat(bare).concat("/hooks/post-receive.tmp && mv ").concat(
            bare,
        ).concat("/hooks/post-receive.tmp ").concat(bare).concat(
            "/hooks/post-receive && chmod +x ",
        ).concat(bare).concat("/hooks/post-receive")
    }

    /// The command that writes the hook's settings.
    pub fn settings_command(&self, app: &str, env: &EnvConfig) -> (r: String)
        ensures
            r@ == "git --git-dir="@ + self.bare@ + " config aoraki.app "@ + quoted(app@)
                + " && git --git-dir="@ + self.bare@ + " config aoraki.branch "@ + quoted(
                env.branch@,
            ) + " && git --git-dir="@ + self.bare@ + " config aoraki.workdir "@ + quoted(
                self.workdir@,
            ) + " && git --git-dir="@ + self.bare@ + " config aoraki.deployscript "@ + quoted(
                env.deploy_script@,
            ),
    {
        let bare = self.bare.as_str();
        "git --git-dir=".to_string().concat(bare).concat(" config aoraki.app ").concat(
            sh_quote(app).as_str(),
        ).concat(" && git --git-dir=").concat(bare).concat(" config aoraki.branch ").concat(
            sh_quote(env.branch.as_str()).as_str(),
        ).concat(" && git --git-dir=").concat(bare).concat(" config aoraki.workdir ").concat(
            sh_quote(self.workdir.as_str()).as_str(),
        ).concat(" && git --git-dir=").concat(bare).concat(" config aoraki.deployscript ").concat(
            sh_quote(env.deploy_script.as_str()).as_str(),
        )
    }

    /// The command that looks at the working checkout.
    pub fn checks_command(&self, env: &EnvConfig) -> (r: String)
        ensures
            r@ == "[ -d "@ + self.workdir@ + " ] && echo dir_ok || echo dir_missing; [ -e "@
                + self.workdir@ + "/.deploy.env ] && echo denv_ok || echo denv_missing; [ -f "@
                + self.workdir@ + "/"@ + env.deploy_script@
                + " ] && echo script_ok || echo script_missing"@,
    {
        let wd = self.workdir.as_str();
        "[ -d ".to_string().concat(wd).concat(
            " ] && echo dir_ok || echo dir_missing; [ -e ",
        ).concat(wd).concat("/.deploy.env ] && echo denv_ok || echo denv_missing; [ -f ").concat(
            wd,
        ).concat("/").concat(env.deploy_script.as_str()).concat(
            " ] && echo script_ok || echo script_missing",
        )
    }

    /// The warnings for what was found missing.
    pub open spec fn warning_text(&self, env: EnvConfig, checks: Seq<char>) -> Seq<Seq<char>> {
        let dir = if occurs_in("dir_missing"@, checks) {
            seq![
                "  ⚠ workdir "@ + self.workdir@
                    + " does not exist — clone the repo there first (playbook § 12)"@,
            ]
        } else {
            Seq::empty()
        };
        let denv = if occurs_in("denv_missing"@, checks) {
            seq![
                "  ⚠ "@ + self.workdir@
                    + "/.deploy.env missing — the manual ucn/dcn fallback won't work there"@,
            ]
        } else {
            Seq::empty()
        };
        let script = if occurs_in("script_missing"@, checks) {
            seq![
                "  ⚠ deploy script "@ + self.workdir@ + "/"@ + env.deploy_script@
                    + " not found (will exist after first checkout if it's committed)"@,
            ]
        } else {
            Seq::empty()
        };
        dir + denv + script
    }

    /// The warnings for what was found missing.
    pub fn warnings(&self, env: &EnvConfig, checks: &str) -> (r: Vec<String>)
        ensures
            views(r@) == self.warning_text(*env, checks@),
            r.len() <= 3,
    {
        let mut out: Vec<String> = Vec::new();
        if contains(checks, "dir_missing") {
            out.push(
                "  ⚠ workdir ".to_string().concat(self.workdir.as_str()).concat(
                    " does not exist — clone the repo there first (playbook § 12)",
                ),
            );
        }
        if contains(checks, "denv_missing") {
            out.push(
                "  ⚠ ".to_string().concat(self.workdir.as_str()).concat(
                    "/.deploy.env missing — the manual ucn/dcn fallback won't work there",
                ),
            );
        }
        if contains(checks, "script_missing") {
            out.push(
                "  ⚠ deploy script ".to_string().concat(self.workdir.as_str()).concat("/").concat(
                    env.deploy_script.as_str(),
                ).concat(" not found (will exist after first checkout if it's committed)"),
            );
        }
        proof {
            assert(views(out@) =~= self.warning_text(*env, checks@));
        }
        out
    }

    /// The URL of the git remote for the box.
    pub fn remote_url(&self) -> (r: String)
        ensures
            r@ == "ssh://"@ + self.target@ + self.bare@,
    {
        "ssh://".to_string().concat(self.target.as_str()).concat(self.bare.as_str())
    }

    /// The git command that sets up the remote for the box: a remote of that
    /// name gets the URL, else one is added.
    pub fn remote_args(&self, name: &str, existing: &str) -> (r: Vec<String>)
        ensures
            views(r@) == seq![
                "remote"@,
                if line_seq(existing@).contains("aoraki-"@ + name@) {
                    "set-url"@
                } else {
                    "add"@
                },
                "aoraki-"@ + name@,
                "ssh://"@ + self.target@ + self.bare@,
            ],
    {
        let remote = "aoraki-".to_string().concat(name);
        let ghost remote_text = remote@;
        let verb = if list_has(&lines(existing), remote.as_str()) {
            "set-url".to_string()
        } else {
            "add".to_string()
        };
        let ghost verb_text = verb@;
        let mut out: Vec<String> = Vec::new();
        out.push("remote".to_string());
        out.push(verb);
        out.push(remote);
        out.push(self.remote_url());
        proof {
            assert(views(out@) =~= seq![
                "remote"@,
                verb_text,
                remote_text,
                "ssh://"@ + self.target@ + self.bare@,
            ]);
        }
        out
    }

    /// The line that tells of the remote.
    pub fn remote_line(&self, name: &str) -> (r: String)
        ensures
            r@ == "  ✓ local remote 'aoraki-"@ + name@ + "' → "@ + ("ssh://"@ + self.target@
                + self.bare@),
    {
        "  ✓ local remote 'aoraki-".to_string().concat(name).concat("' → ").concat(
            self.remote_url().as_str(),
        )
    }
}

/// Linking an environment sets up the remote that a deploy pushes to.
pub proof fn link_and_deploy_agree(global: GlobalConfig, app: Seq<char>, env: EnvConfig, link: Link)
    requires
        link.is_for(global, app, env),
    ensures
        "ssh://"@ + link.target@ + link.bare@ == push_url_of(
            ssh_target_of(global.servers@, env.server@),
            app,
        ),
{
}

/// The command that makes the directory for the record of deploys. It is no
/// matter if that fails: the hook has another place.
pub fn log_dir_command() -> (r: String)
    ensures
        r@ == "mkdir -p /data/logs/aoraki-deploys 2>/dev/null || true"@,
{
    "mkdir -p /data/logs/aoraki-deploys 2>/dev/null || true".to_string()
}

/// The line after the hook was installed.
pub fn hook_line() -> (r: String)
    ensures
        r@ == "  ✓ bare repo + hook (version "@ + decimal(HOOK_VERSION as nat) + ")"@,
{
    "  ✓ bare repo + hook (version ".to_string().concat(show(HOOK_VERSION as u64).as_str()).concat(
        ")",
    )
}

/// The last line.
pub fn summary(warnings: usize) -> (r: String)
    ensures
        r@ == (if warnings > 0 {
            "\nLinked with "@ + decimal(warnings as nat)
                + " warning(s) — see above. Run `aoraki doctor` after fixing."@
        } else {
            "\nAll environments linked. Try `aoraki doctor`, then `aoraki deploy <env>`."@
        }),
{
    if warnings > 0 {
        "\nLinked with ".to_string().concat(show(warnings as u64).as_str()).concat(
            " warning(s) — see above. Run `aoraki doctor` after fixing.",
        )
    } else {
        "\nAll environments linked. Try `aoraki doctor`, then `aoraki deploy <env>`.".to_string()
    }
}

/// Each thing that was found missing has its warning, and nothing else has one.
pub proof fn what_is_missing_is_warned_of(link: Link, env: EnvConfig, checks: Seq<char>)
    ensures
        ({
            let warned = link.warning_text(env, checks);
            let dir = "  ⚠ workdir "@ + link.workdir@
                + " does not exist — clone the repo there first (playbook § 12)"@;
            let denv = "  ⚠ "@ + link.workdir@
                + "/.deploy.env missing — the manual ucn/dcn fallback won't work there"@;
            let script = "  ⚠ deploy script "@ + link.workdir@ + "/"@ + env.deploy_script@
                + " not found (will exist after first checkout if it's committed)"@;
            &&& occurs_in("dir_missing"@, checks) ==> warned.contains(dir)
            &&& occurs_in("denv_missing"@, checks) ==> warned.contains(denv)
            &&& occurs_in("script_missing"@, checks) ==> warned.contains(script)
            &&& warned.len() == (if occurs_in("dir_missing"@, checks) {
                1int
            } else {
                0
            }) + (if occurs_in("denv_missing"@, checks) {
                1int
            } else {
                0
            }) + (if occurs_in("script_missing"@, checks) {
                1int
            } else {
                0
            })
        }),
{
    let warned = link.warning_text(env, checks);
    let a = occurs_in("dir_missing"@, checks);
    let b = occurs_in("denv_missing"@, checks);
    let c = occurs_in("script_missing"@, checks);
    let at_b: int = if a {
        1
    } else {
        0
    };
    let at_c: int = if b {
        at_b + 1
    } else {
        at_b
    };
    if a {
        assert(warned.contains(warned[0]));
    }
    if b {
        assert(warned.contains(warned[at_b]));
    }
    if c {
        assert(warned.contains(warned[at_c]));
    }
}

} // verus!
