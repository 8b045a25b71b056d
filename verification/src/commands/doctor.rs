//! `aoraki doctor`: the whole chain of a deploy is looked at, one check after
//! the other, each with a hint for the fix.

use crate::config::{resolve_env_name, GlobalConfig, RepoConfig};
use crate::context::{bare_repo_of, workdir_of, Ctx};
use crate::failure::{fail, Failure};
use crate::hook::{script_names_its_version, script_text, HOOK_VERSION, VERSION_MARK};
use crate::names::names_of;
use crate::reports::Identity;
use crate::text::{
    begins_and_ends_as_put_together, blanks_at_the_ends_go, contains, decimal,
    decimal_is_read_back, decimal_is_unique, has_prefix, has_suffix, is_digit, number_of, occurs_in,
    opt, opt_str, parse_number, same, show, trim, trimmed, views, what_is_blank,
};
use vstd::prelude::*;
use vstd::string::*;

verus! {

/// The checks of an environment, in their order.
#[derive(Clone, Copy, PartialEq, Eq, Structural)]
pub enum Check {
    Ssh,
    BareRepo,
    Hook,
    Workdir,
    Docker,
    Kubectl,
    Disk,
}

/// The check after one that went well, or did not. Where the box cannot be
/// reached there is nothing else to look at.
pub open spec fn next_check(check: Check, ok: bool) -> Option<Check> {
    match check {
        Check::Ssh => if ok {
            Some(Check::BareRepo)
        } else {
            None
        },
        Check::BareRepo => Some(Check::Hook),
        Check::Hook => Some(Check::Workdir),
        Check::Workdir => Some(Check::Docker),
        Check::Docker => Some(Check::Kubectl),
        Check::Kubectl => Some(Check::Disk),
        Check::Disk => None,
    }
}

/// The check after one that went well, or did not.
pub fn after_check(check: Check, ok: bool) -> (r: Option<Check>)
    ensures
        r == next_check(check, ok),
{
    match check {
        Check::Ssh => if ok {
            Some(Check::BareRepo)
        } else {
            None
        },
        Check::BareRepo => Some(Check::Hook),
        Check::Hook => Some(Check::Workdir),
        Check::Workdir => Some(Check::Docker),
        Check::Docker => Some(Check::Kubectl),
        Check::Kubectl => Some(Check::Disk),
        Check::Disk => None,
    }
}

/// The command of a check.
pub open spec fn check_command(ctx: Ctx, check: Check) -> Seq<char> {
    let bare = bare_repo_of(ctx.repo.app.name@);
    let wd = workdir_of(ctx.repo.app.name@, opt(ctx.env_spec().workdir));
    match check {
        Check::Ssh => "echo ok"@,
        Check::BareRepo => "[ -d "@ + bare + " ] && echo yes || echo no"@,
        Check::Hook => "grep -m1 -o '"@ + VERSION_MARK@ + "[0-9]*' "@ + bare
            + "/hooks/post-receive 2>/dev/null || echo missing"@,
        Check::Workdir => "[ -d "@ + wd + " ] && echo dir_ok || echo dir_missing; [ -e "@ + wd
            + "/.deploy.env ] && echo denv_ok || echo denv_missing"@,
        Check::Docker => "docker info --format ok 2>/dev/null || echo fail"@,
        Check::Kubectl => "sudo -n kubectl get nodes --no-headers 2>/dev/null | wc -l"@,
        Check::Disk => "df -h /data 2>/dev/null | awk 'NR==2 {print $5\" used, \"$4\" free\"}'"@,
    }
}

/// The command of a check.
pub fn command(ctx: &Ctx, check: Check) -> (r: String)
    requires
        ctx.wf(),
    ensures
        r@ == check_command(*ctx, check),
{
    let bare = ctx.bare_repo();
    let wd = ctx.workdir();
    match check {
        Check::Ssh => "echo ok".to_string(),
        Check::BareRepo => "[ -d ".to_string().concat(bare.as_str()).concat(
            " ] && echo yes || echo no",
        ),
        Check::Hook => "grep -m1 -o '".to_string().concat(VERSION_MARK).concat("[0-9]*' ").concat(
            bare.as_str(),
        ).concat("/hooks/post-receive 2>/dev/null || echo missing"),
        Check::Workdir => "[ -d ".to_string().concat(wd.as_str()).concat(
            " ] && echo dir_ok || echo dir_missing; [ -e ",
        ).concat(wd.as_str()).concat("/.deploy.env ] && echo denv_ok || echo denv_missing"),
        Check::Docker => "docker info --format ok 2>/dev/null || echo fail".to_string(),
        Check::Kubectl =>
            "sudo -n kubectl get nodes --no-headers 2>/dev/null | wc -l".to_string(),
        Check::Disk =>
            "df -h /data 2>/dev/null | awk 'NR==2 {print $5\" used, \"$4\" free\"}'".to_string(),
    }
}

/// A positive number that fits into 32 bits, as text.
pub open spec fn is_positive(s: Seq<char>) -> bool {
    match number_of(s) {
        Some(n) => 0 < n <= u32::MAX,
        None => false,
    }
}

/// Whether a check went well, given what its command put out (none where the
/// command itself failed).
pub open spec fn check_ok(check: Check, out: Option<Seq<char>>) -> bool {
    match check {
        Check::Ssh => out is Some,
        Check::BareRepo => out == Some("yes"@),
        Check::Hook => out == Some(VERSION_MARK@ + decimal(HOOK_VERSION as nat)),
        Check::Workdir => out is Some && occurs_in("dir_ok"@, out->0),
        Check::Docker => out == Some("ok"@),
        Check::Kubectl => out is Some && is_positive(trimmed(out->0)),
        Check::Disk => true,
    }
}

/// The lines for a check, given what its command put out and, where it failed,
/// what was said.
pub open spec fn check_lines(ctx: Ctx, check: Check, out: Option<Seq<char>>, problem: Seq<char>) -> Seq<
    Seq<char>,
> {
    let bare = bare_repo_of(ctx.repo.app.name@);
    let wd = workdir_of(ctx.repo.app.name@, opt(ctx.env_spec().workdir));
    let ok = check_ok(check, out);
    match check {
        Check::Ssh => if ok {
            seq!["  ✓ ssh connectivity"@]
        } else {
            seq![
                "  ✗ ssh connectivity: "@ + problem,
                "    (check ~/.ssh/config for '"@ + ctx.env_spec().server@
                    + "' or add it under [servers] in the global config)"@,
            ]
        },
        Check::BareRepo => if ok {
            seq!["  ✓ bare repo "@ + bare]
        } else {
            seq!["  ✗ bare repo "@ + bare + " missing — run `aoraki link`"@]
        },
        Check::Hook => if ok {
            seq!["  ✓ hook version "@ + decimal(HOOK_VERSION as nat)]
        } else {
            match out {
                Some(text) => if text == "missing"@ {
                    seq!["  ✗ post-receive hook missing — run `aoraki link`"@]
                } else {
                    seq![
                        "  ✗ hook outdated ("@ + text + ", want "@ + decimal(HOOK_VERSION as nat)
                            + ") — run `aoraki link`"@,
                    ]
                },
                None => seq!["  ✗ could not inspect hook"@],
            }
        },
        Check::Workdir => match out {
            Some(text) => seq![
                if ok {
                    "  ✓ workdir "@ + wd
                } else {
                    "  ✗ workdir "@ + wd + " missing — clone the repo there (playbook § 12)"@
                },
                if occurs_in("denv_ok"@, text) {
                    "  ✓ .deploy.env present"@
                } else {
                    "  ⚠ .deploy.env missing (manual ucn/dcn fallback unavailable)"@
                },
            ],
            None => seq!["  ✗ could not inspect workdir"@],
        },
        Check::Docker => if ok {
            seq!["  ✓ docker"@]
        } else {
            seq!["  ✗ docker not usable by this user — add the user to the docker group"@]
        },
        Check::Kubectl => if ok {
            seq!["  ✓ kubectl (via sudo)"@]
        } else {
            seq![
                "  ✗ `sudo kubectl` failed — check passwordless sudo for kubectl (playbook § 2)"@,
            ]
        },
        Check::Disk => if out is Some && out->0.len() > 0 {
            seq!["  ✓ /data disk: "@ + out->0]
        } else {
            seq!["  ⚠ could not read /data disk usage"@]
        },
    }
}

fn passes(check: Check, out: Option<&str>) -> (r: bool)
    ensures
        r == check_ok(check, opt_str(out)),
{
    match check {
        Check::Disk => true,
        _ => match out {
            None => false,
            Some(text) => match check {
                Check::Ssh => true,
                Check::BareRepo => same(text, "yes"),
                Check::Hook => same(
                    text,
                    VERSION_MARK.to_string().concat(show(HOOK_VERSION as u64).as_str()).as_str(),
                ),
                Check::Workdir => contains(text, "dir_ok"),
                Check::Docker => same(text, "ok"),
                Check::Kubectl => match parse_number(trim(text), u32::MAX) {
                    Some(n) => n > 0,
                    None => false,
                },
                Check::Disk => true,
            },
        },
    }
}

/// Whether a check went well, and its lines, given what its command put out or
/// what was said where it failed.
pub fn check_env(ctx: &Ctx, check: Check, out: Option<&str>, problem: &str) -> (r: (
    bool,
    Vec<String>,
))
    requires
        ctx.wf(),
    ensures
        r.0 == check_ok(check, opt_str(out)),
        views(r.1@) == check_lines(*ctx, check, opt_str(out), problem@),
{
    let ok = passes(check, out);
    let bare = ctx.bare_repo();
    let wd = ctx.workdir();
    let mut lines: Vec<String> = Vec::new();
    match check {
        Check::Ssh => if ok {
            lines.push("  ✓ ssh connectivity".to_string());
        } else {
            lines.push("  ✗ ssh connectivity: ".to_string().concat(problem));
            lines.push(
                "    (check ~/.ssh/config for '".to_string().concat(
                    ctx.env().server.as_str(),
                ).concat("' or add it under [servers] in the global config)"),
            );
        },
        Check::BareRepo => if ok {
            lines.push("  ✓ bare repo ".to_string().concat(bare.as_str()));
        } else {
            lines.push(
                "  ✗ bare repo ".to_string().concat(bare.as_str()).concat(
                    " missing — run `aoraki link`",
                ),
            );
        },
        Check::Hook => {
            let version = show(HOOK_VERSION as u64);
            if ok {
                lines.push("  ✓ hook version ".to_string().concat(version.as_str()));
            } else {
                match out {
                    Some(text) => if same(text, "missing") {
                        lines.push(
                            "  ✗ post-receive hook missing — run `aoraki link`".to_string(),
                        );
                    } else {
                        lines.push(
                            "  ✗ hook outdated (".to_string().concat(text).concat(
                                ", want ",
                            ).concat(version.as_str()).concat(") — run `aoraki link`"),
                        );
                    },
                    None => {
                        lines.push("  ✗ could not inspect hook".to_string());
                    },
                }
            }
        },
        Check::Workdir => match out {
            Some(text) => {
                if ok {
                    lines.push("  ✓ workdir ".to_string().concat(wd.as_str()));
                } else {
                    lines.push(
                        "  ✗ workdir ".to_string().concat(wd.as_str()).concat(
                            " missing — clone the repo there (playbook § 12)",
                        ),
                    );
                }
                if contains(text, "denv_ok") {
                    lines.push("  ✓ .deploy.env present".to_string());
                } else {
                    lines.push(
                        "  ⚠ .deploy.env missing (manual ucn/dcn fallback unavailable)".to_string(),
                    );
                }
            },
            None => {
                lines.push("  ✗ could not inspect workdir".to_string());
            },
        },
        Check::Docker => if ok {
            lines.push("  ✓ docker".to_string());
        } else {
            lines.push(
                "  ✗ docker not usable by this user — add the user to the docker group".to_string(),
            );
        },
        Check::Kubectl => if ok {
            lines.push("  ✓ kubectl (via sudo)".to_string());
        } else {
            lines.push(
                "  ✗ `sudo kubectl` failed — check passwordless sudo for kubectl (playbook § 2)".to_string(),
            );
        },
        Check::Disk => {
            let usage = match out {
                Some(text) => text,
                None => "",
            };
            proof {
                reveal_strlit("");
            }
            if usage.unicode_len() > 0 {
                lines.push("  ✓ /data disk: ".to_string().concat(usage));
            } else {
                lines.push("  ⚠ could not read /data disk usage".to_string());
            }
        },
    }
    proof {
        assert(views(lines@) =~= check_lines(*ctx, check, opt_str(out), problem@));
    }
    (ok, lines)
}

/// The environments to look at: the one that is named, else all.
pub fn environments(env: Option<String>, repo: &RepoConfig, global: &GlobalConfig) -> (r: Result<
    Vec<String>,
    Failure,
>)
    ensures
        match env {
            None => r matches Ok(names) && views(names@) == names_of(repo.environments@),
            Some(name) => match crate::config::named_env(repo.environments@, name@) {
                Ok(i) => r matches Ok(names) && views(names@) == seq![repo.environments@[i].0],
                Err(text) => r matches Err(failure) && failure@ == text,
            },
        },
{
    match env {
        None => Ok(repo.environments.names()),
        Some(name) => match resolve_env_name(Some(name), None, repo, global) {
            Err(failure) => Err(failure),
            Ok(found) => {
                let ghost text = found@;
                let mut out: Vec<String> = Vec::new();
                out.push(found);
                proof {
                    assert(views(out@) =~= seq![text]);
                }
                Ok(out)
            },
        },
    }
}

/// The line that announces an environment.
pub fn title(ctx: &Ctx) -> (r: String)
    requires
        ctx.wf(),
    ensures
        r@ == "\nEnvironment '"@ + ctx.env_name@ + "' ("@ + ctx.env_spec().namespace@ + " → "@
            + ctx.target_spec() + "):"@,
{
    "\nEnvironment '".to_string().concat(ctx.env_name.as_str()).concat("' (").concat(
        ctx.env().namespace.as_str(),
    ).concat(" → ").concat(ctx.ssh_target().as_str()).concat("):")
}

/// The line for a machine that knows no console.
pub fn no_remotes_line() -> (r: String)
    ensures
        r@
            == "  - no remotes configured — run `aoraki login --url <aoraki-api-url>` (deploy events won't be reported)"@,
{
    "  - no remotes configured — run `aoraki login --url <aoraki-api-url>` (deploy events won't be reported)".to_string()
}

/// Whether a console's key is no problem, and its line: a console without a
/// key is none.
pub fn remote_line(name: &str, identity: Option<Result<&Identity, &Failure>>) -> (r: (bool, String))
    ensures
        match identity {
            None => r.0 && r.1@ == "  - "@ + name@ + ": not logged in — run `aoraki login "@ + name@
                + "`"@,
            Some(Ok(id)) => r.0 && r.1@ == "  ✓ "@ + name@ + ": token accepted (org: "@ + id.org@
                + ")"@,
            Some(Err(failure)) => !r.0 && r.1@ == "  ✗ "@ + name@ + ": "@ + failure@
                + " — run `aoraki login "@ + name@ + "`"@,
        },
{
    match identity {
        None => (
            true,
            "  - ".to_string().concat(name).concat(": not logged in — run `aoraki login ").concat(
                name,
            ).concat("`"),
        ),
        Some(Ok(id)) => (
            true,
            "  ✓ ".to_string().concat(name).concat(": token accepted (org: ").concat(
                id.org.as_str(),
            ).concat(")"),
        ),
        Some(Err(failure)) => (
            false,
            "  ✗ ".to_string().concat(name).concat(": ").concat(failure.message()).concat(
                " — run `aoraki login ",
            ).concat(name).concat("`"),
        ),
    }
}

/// How the command ends, given what passed of all that was looked at.
pub fn finish(passed: &Vec<bool>) -> (r: Result<String, Failure>)
    ensures
        if forall|i: int| 0 <= i < passed@.len() ==> #[trigger] passed@[i] {
            r matches Ok(line) && line@ == "\nAll checks passed."@
        } else {
            r matches Err(failure) && failure@ == "doctor found problems — see above"@
        },
{
    let mut i: usize = 0;
    while i < passed.len()
        invariant
            i <= passed.len(),
            forall|k: int| 0 <= k < i ==> #[trigger] passed@[k],
        decreases passed.len() - i,
    {
        if !passed[i] {
            return Err(fail("doctor found problems — see above".to_string()));
        }
        i = i + 1;
    }
    Ok("\nAll checks passed.".to_string())
}

/// A hook that `aoraki link` has just installed passes the check: the line
/// that the check looks for stands in it, with the version that is wanted.
pub proof fn installed_hook_passes()
    ensures
        occurs_in(VERSION_MARK@ + decimal(HOOK_VERSION as nat), script_text()),
        check_ok(Check::Hook, Some(VERSION_MARK@ + decimal(HOOK_VERSION as nat))),
{
    script_names_its_version();
}

/// A hook of any other version does not pass.
pub proof fn other_versions_fail(version: nat)
    requires
        version != HOOK_VERSION,
    ensures
        !check_ok(Check::Hook, Some(VERSION_MARK@ + decimal(version))),
{
    let mark = VERSION_MARK@;
    let installed = mark + decimal(version);
    let wanted = mark + decimal(HOOK_VERSION as nat);
    if installed == wanted {
        assert(installed.skip(mark.len() as int) =~= decimal(version));
        assert(wanted.skip(mark.len() as int) =~= decimal(HOOK_VERSION as nat));
        decimal_is_unique(version, HOOK_VERSION as nat);
    }
}

/// The checks of an environment come in their order, each of them once, however
/// they go; but where the box is not reached there is no other.
pub proof fn all_checks_are_made(oks: Seq<bool>)
    requires
        oks.len() == 7,
        oks[0],
    ensures
        next_check(Check::Ssh, false) is None,
        next_check(Check::Ssh, oks[0]) == Some(Check::BareRepo),
        next_check(Check::BareRepo, oks[1]) == Some(Check::Hook),
        next_check(Check::Hook, oks[2]) == Some(Check::Workdir),
        next_check(Check::Workdir, oks[3]) == Some(Check::Docker),
        next_check(Check::Docker, oks[4]) == Some(Check::Kubectl),
        next_check(Check::Kubectl, oks[5]) == Some(Check::Disk),
        next_check(Check::Disk, oks[6]) is None,
{
}

/// A check passes exactly on what its command puts out where all is well: any
/// output over ssh, `yes` for the bare repo, the hook's own version, a word for
/// the checkout, `ok` from docker, and a positive number of nodes. Where the
/// command fails none passes but that of the disk, which is never a problem.
pub proof fn what_passes_a_check(out: Seq<char>, n: nat)
    ensures
        check_ok(Check::Ssh, Some(out)),
        check_ok(Check::BareRepo, Some(out)) <==> out == "yes"@,
        check_ok(Check::Hook, Some(out)) <==> out == VERSION_MARK@ + decimal(HOOK_VERSION as nat),
        check_ok(Check::Workdir, Some(out)) <==> occurs_in("dir_ok"@, out),
        check_ok(Check::Docker, Some(out)) <==> out == "ok"@,
        check_ok(Check::Kubectl, Some(decimal(n))) <==> 0 < n <= u32::MAX,
        check_ok(Check::Disk, Some(out)),
        !check_ok(Check::Ssh, None),
        !check_ok(Check::BareRepo, None),
        !check_ok(Check::Hook, None),
        !check_ok(Check::Workdir, None),
        !check_ok(Check::Docker, None),
        !check_ok(Check::Kubectl, None),
        check_ok(Check::Disk, None),
{
    decimal_is_read_back(n);
    let s = decimal(n);
    assert(is_digit(s[0]));
    assert(is_digit(s[s.len() - 1]));
    what_is_blank(s[0]);
    what_is_blank(s.last());
    let none = Seq::<char>::empty();
    blanks_at_the_ends_go(none, s, none);
    assert(none + s + none =~= s);
}

/// A check that passes is marked as good and one that fails is not: the first
/// line of each begins with its mark.
pub proof fn a_check_is_marked(ctx: Ctx, check: Check, out: Option<Seq<char>>, problem: Seq<char>)
    requires
        check != Check::Disk,
    ensures
        check_lines(ctx, check, out, problem).len() > 0,
        check_ok(check, out) ==> check_lines(ctx, check, out, problem)[0][2] == '✓',
        !check_ok(check, out) ==> check_lines(ctx, check, out, problem)[0][2] == '✗',
{
    reveal_strlit("  ✓ ssh connectivity");
    reveal_strlit("  ✗ ssh connectivity: ");
    reveal_strlit("  ✓ bare repo ");
    reveal_strlit("  ✗ bare repo ");
    reveal_strlit("  ✓ hook version ");
    reveal_strlit("  ✗ post-receive hook missing — run `aoraki link`");
    reveal_strlit("  ✗ hook outdated (");
    reveal_strlit("  ✗ could not inspect hook");
    reveal_strlit("  ✓ workdir ");
    reveal_strlit("  ✗ workdir ");
    reveal_strlit("  ✗ could not inspect workdir");
    reveal_strlit("  ✓ docker");
    reveal_strlit("  ✗ docker not usable by this user — add the user to the docker group");
    reveal_strlit("  ✓ kubectl (via sudo)");
    reveal_strlit(
        "  ✗ `sudo kubectl` failed — check passwordless sudo for kubectl (playbook § 2)",
    );
    assert(check_lines(ctx, check, out, problem).len() > 0);
}

/// Each check asks about the app's own places: its bare repo, the hook in it,
/// and its checkout.
pub proof fn a_check_looks_at_the_apps_places(ctx: Ctx)
    ensures
        ({
            let bare = bare_repo_of(ctx.repo.app.name@);
            let wd = workdir_of(ctx.repo.app.name@, opt(ctx.env_spec().workdir));
            &&& check_command(ctx, Check::BareRepo) == "[ -d "@ + bare
                + " ] && echo yes || echo no"@
            &&& check_command(ctx, Check::Hook) == "grep -m1 -o '"@ + VERSION_MARK@ + "[0-9]*' "@
                + bare + "/hooks/post-receive 2>/dev/null || echo missing"@
            &&& has_prefix(
                check_command(ctx, Check::Workdir),
                "[ -d "@ + wd + " ] && echo dir_ok || echo dir_missing; "@,
            )
            &&& has_suffix(
                check_command(ctx, Check::Workdir),
                "[ -e "@ + wd + "/.deploy.env ] && echo denv_ok || echo denv_missing"@,
            )
        }),
{
    reveal_strlit(" ] && echo dir_ok || echo dir_missing; [ -e ");
    reveal_strlit(" ] && echo dir_ok || echo dir_missing; ");
    reveal_strlit("[ -e ");
    let wd = workdir_of(ctx.repo.app.name@, opt(ctx.env_spec().workdir));
    let a = "[ -d "@ + wd + " ] && echo dir_ok || echo dir_missing; "@;
    let b = "[ -e "@ + wd + "/.deploy.env ] && echo denv_ok || echo denv_missing"@;
    assert(" ] && echo dir_ok || echo dir_missing; [ -e "@
        =~= " ] && echo dir_ok || echo dir_missing; "@ + "[ -e "@);
    begins_and_ends_as_put_together(a, b);
    assert(check_command(ctx, Check::Workdir) =~= a + b);
}

} // verus!
