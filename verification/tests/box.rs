//! Boxes: contexts, ssh, the hook, and the commands that look after boxes.

use aoraki::commands::deploys;
use aoraki::commands::doctor::{self, Check};
use aoraki::commands::link::{self, Link};
use aoraki::commands::{config_cmd, logs, open, restart, run, status};
use aoraki::config::{AppSection, EnvConfig, GlobalConfig, RepoConfig, ServerConfig};
use aoraki::context::Ctx;
use aoraki::failure::{fail, Failure};
use aoraki::hook;
use aoraki::json::Json;
use aoraki::names::NameMap;
use aoraki::reports::Identity;
use aoraki::ssh::Ssh;

fn env() -> EnvConfig {
    EnvConfig {
        server: "core2".to_string(),
        branch: "prod".to_string(),
        namespace: "demo-ns".to_string(),
        deploy_script: "k8s/deploy.sh".to_string(),
        url: Some("https://demo.example".to_string()),
        workdir: None,
        confirm: false,
        transport: None,
        remote: None,
        port: None,
        size: None,
        dockerfile: None,
        process_type: None,
        gpu: None,
        aliases: Vec::new(),
    }
}

fn global() -> GlobalConfig {
    let mut g = GlobalConfig::default();
    g.servers.insert(
        "core2".to_string(),
        ServerConfig { host: "1.2.3.4".to_string(), user: Some("deploy".to_string()) },
    );
    g
}

fn repo(env: EnvConfig) -> RepoConfig {
    let mut environments = NameMap::new();
    environments.insert("production".to_string(), env);
    RepoConfig {
        app: AppSection {
            name: "demo".to_string(),
            org: None,
            repo: None,
            default_env: None,
        },
        environments,
    }
}

fn ctx_of(env: EnvConfig) -> Ctx {
    Ctx::load("/src/demo".to_string(), repo(env), global(), None, None).ok().unwrap()
}

fn said<T>(r: Result<T, Failure>) -> String {
    r.err().unwrap().message().to_string()
}

#[test]
fn context_names_the_places_of_an_app() {
    let ctx = ctx_of(env());
    assert_eq!(ctx.env_name, "production");
    assert_eq!(ctx.app(), "demo");
    assert_eq!(ctx.env().branch, "prod");
    assert_eq!(ctx.ssh_target(), "deploy@1.2.3.4");
    assert_eq!(ctx.bare_repo(), "/data/git/demo.git");
    assert_eq!(ctx.workdir(), "/data/repos/demo");
    assert_eq!(ctx.deployment(), "demo-deployment");
    assert_eq!(ctx.push_url(), "ssh://deploy@1.2.3.4/data/git/demo.git");
    assert_eq!(ctx.kubectl(), "sudo kubectl -n demo-ns");
    assert_eq!(ctx.deploy_log(), "/data/logs/aoraki-deploys/demo.jsonl");
    let mut other = env();
    other.workdir = Some("/srv/demo".to_string());
    assert_eq!(ctx_of(other).workdir(), "/srv/demo");
}

#[test]
fn context_of_an_unknown_environment_is_refused() {
    let r = Ctx::load(
        "/src/demo".to_string(),
        repo(env()),
        global(),
        Some("nope".to_string()),
        Some("prod"),
    );
    assert_eq!(said(r), "environment 'nope' not in aoraki.toml (available: production)");
}

#[test]
fn ssh_commands_share_one_connection() {
    let ssh = Ssh::new("box".to_string(), "/home/me/.config/aoraki");
    let control = "ControlPath=/home/me/.config/aoraki/sockets/%C";
    assert_eq!(
        ssh.run("echo ok"),
        vec![
            "-o", "ControlMaster=auto", "-o", control, "-o", "ControlPersist=10m", "-o",
            "ServerAliveInterval=30", "-o", "ConnectTimeout=10", "box", "echo ok"
        ]
    );
    assert_eq!(ssh.run_with_stdin("cat > x"), ssh.run("cat > x"));
    let args = ssh.run_interactive("bash");
    assert_eq!(args[10..], ["-t".to_string(), "box".to_string(), "bash".to_string()]);
    assert_eq!(
        ssh.git_ssh_command(),
        "ssh -o ControlMaster=auto -o ControlPath=/home/me/.config/aoraki/sockets/%C -o ControlPersist=10m -o ServerAliveInterval=30 -o ConnectTimeout=10"
    );
    assert_eq!(Ssh::socket_dir("/x"), "/x/sockets");
}

#[test]
fn ssh_exits_are_told_apart() {
    let ssh = Ssh::new("box".to_string(), "/x");
    assert!(ssh.ensure_success(Some(0), None).is_ok());
    assert_eq!(
        said(ssh.ensure_success(Some(255), Some(" timed out\n"))),
        "could not reach box over ssh: timed out — the boxes gate ssh by source IP; check you're on an allowed network/VPN, then verify with: ssh box"
    );
    assert_eq!(
        said(ssh.ensure_success(Some(255), Some("  "))),
        "could not reach box over ssh — the boxes gate ssh by source IP; check you're on an allowed network/VPN, then verify with: ssh box"
    );
    assert_eq!(said(ssh.ensure_success(Some(2), None)), "remote command failed (exit Some(2))");
    assert_eq!(
        said(ssh.ensure_success(None, Some("killed"))),
        "remote command failed (exit None): killed"
    );
    assert_eq!(ssh.capture(Some(0), " out \n", "noise").ok().unwrap(), "out");
    assert_eq!(
        said(ssh.capture(Some(1), "out", "bad")),
        "remote command failed (exit Some(1)): bad"
    );
}

#[test]
fn hook_carries_its_version() {
    let script = hook::script();
    assert!(script.starts_with("#!/usr/bin/env bash\n"));
    assert!(script.contains("# aoraki-hook-version: 1\n"));
    assert!(!script.contains("__VERSION__"));
    assert!(script.contains("echo \"aoraki: deploy status: succeeded (${DURATION}s)\""));
    assert!(script.ends_with("exit $DEPLOY_STATUS\n"));
}

#[test]
fn linking_uses_quoted_settings() {
    let mut e = env();
    e.branch = "it's".to_string();
    let l = Link::new(&global(), "demo", &e);
    assert_eq!(
        l.title("production", &e),
        "Linking 'production' → deploy@1.2.3.4 (namespace demo-ns, branch it's)"
    );
    assert_eq!(
        l.init_command(),
        "mkdir -p /data/git && { [ -d /data/git/demo.git ] || git init --bare -q /data/git/demo.git; }"
    );
    assert_eq!(
        l.init_failed("no").message(),
        "creating bare repo on deploy@1.2.3.4 — is /data writable by this user?: no"
    );
    assert_eq!(
        l.install_command(),
        "cat > /data/git/demo.git/hooks/post-receive.tmp && mv /data/git/demo.git/hooks/post-receive.tmp /data/git/demo.git/hooks/post-receive && chmod +x /data/git/demo.git/hooks/post-receive"
    );
    assert_eq!(
        l.settings_command("demo", &e),
        r"git --git-dir=/data/git/demo.git config aoraki.app 'demo' && git --git-dir=/data/git/demo.git config aoraki.branch 'it'\''s' && git --git-dir=/data/git/demo.git config aoraki.workdir '/data/repos/demo' && git --git-dir=/data/git/demo.git config aoraki.deployscript 'k8s/deploy.sh'"
    );
    assert_eq!(
        l.checks_command(&e),
        "[ -d /data/repos/demo ] && echo dir_ok || echo dir_missing; [ -e /data/repos/demo/.deploy.env ] && echo denv_ok || echo denv_missing; [ -f /data/repos/demo/k8s/deploy.sh ] && echo script_ok || echo script_missing"
    );
    assert_eq!(link::log_dir_command(), "mkdir -p /data/logs/aoraki-deploys 2>/dev/null || true");
    assert_eq!(link::hook_line(), "  ✓ bare repo + hook (version 1)");
}

#[test]
fn linking_warns_of_what_is_missing() {
    let e = env();
    let l = Link::new(&global(), "demo", &e);
    assert!(l.warnings(&e, "dir_ok\ndenv_ok\nscript_ok").is_empty());
    assert_eq!(
        l.warnings(&e, "dir_missing\ndenv_missing\nscript_missing"),
        vec![
            "  ⚠ workdir /data/repos/demo does not exist — clone the repo there first (playbook § 12)",
            "  ⚠ /data/repos/demo/.deploy.env missing — the manual ucn/dcn fallback won't work there",
            "  ⚠ deploy script /data/repos/demo/k8s/deploy.sh not found (will exist after first checkout if it's committed)",
        ]
    );
    assert_eq!(
        link::summary(0),
        "\nAll environments linked. Try `aoraki doctor`, then `aoraki deploy <env>`."
    );
    assert_eq!(
        link::summary(2),
        "\nLinked with 2 warning(s) — see above. Run `aoraki doctor` after fixing."
    );
}

#[test]
fn linking_again_sets_the_remote_it_added() {
    let e = env();
    let l = Link::new(&global(), "demo", &e);
    let url = "ssh://deploy@1.2.3.4/data/git/demo.git";
    assert_eq!(l.remote_url(), url);
    assert_eq!(
        l.remote_args("production", "origin\naoraki-production2"),
        vec!["remote", "add", "aoraki-production", url]
    );
    assert_eq!(
        l.remote_args("production", "aoraki-production\norigin"),
        vec!["remote", "set-url", "aoraki-production", url]
    );
    assert_eq!(
        l.remote_line("production"),
        "  ✓ local remote 'aoraki-production' → ssh://deploy@1.2.3.4/data/git/demo.git"
    );
}

fn verdict(check: Check, out: Option<&str>) -> (bool, Vec<String>) {
    doctor::check_env(&ctx_of(env()), check, out, "no route")
}

#[test]
fn doctor_goes_through_all_checks() {
    let mut seen = Vec::new();
    let mut check = Some(Check::Ssh);
    while let Some(now) = check {
        seen.push(doctor::command(&ctx_of(env()), now));
        check = doctor::after_check(now, now == Check::Ssh);
    }
    assert_eq!(
        seen,
        vec![
            "echo ok",
            "[ -d /data/git/demo.git ] && echo yes || echo no",
            "grep -m1 -o 'aoraki-hook-version: [0-9]*' /data/git/demo.git/hooks/post-receive 2>/dev/null || echo missing",
            "[ -d /data/repos/demo ] && echo dir_ok || echo dir_missing; [ -e /data/repos/demo/.deploy.env ] && echo denv_ok || echo denv_missing",
            "docker info --format ok 2>/dev/null || echo fail",
            "sudo -n kubectl get nodes --no-headers 2>/dev/null | wc -l",
            "df -h /data 2>/dev/null | awk 'NR==2 {print $5\" used, \"$4\" free\"}'",
        ]
    );
    assert!(doctor::after_check(Check::Ssh, false).is_none());
}

#[test]
fn doctor_accepts_a_healthy_box() {
    for (check, out, line) in [
        (Check::Ssh, "ok", "  ✓ ssh connectivity"),
        (Check::BareRepo, "yes", "  ✓ bare repo /data/git/demo.git"),
        (Check::Hook, "aoraki-hook-version: 1", "  ✓ hook version 1"),
        (Check::Docker, "ok", "  ✓ docker"),
        (Check::Kubectl, " 3\n", "  ✓ kubectl (via sudo)"),
        (Check::Disk, "40% used, 10G free", "  ✓ /data disk: 40% used, 10G free"),
    ] {
        assert_eq!(verdict(check, Some(out)), (true, vec![line.to_string()]));
    }
    assert_eq!(
        verdict(Check::Workdir, Some("dir_ok\ndenv_ok")),
        (
            true,
            vec![
                "  ✓ workdir /data/repos/demo".to_string(),
                "  ✓ .deploy.env present".to_string()
            ]
        )
    );
}

#[test]
fn doctor_tells_what_is_broken() {
    assert_eq!(
        verdict(Check::Ssh, None),
        (
            false,
            vec![
                "  ✗ ssh connectivity: no route".to_string(),
                "    (check ~/.ssh/config for 'core2' or add it under [servers] in the global config)"
                    .to_string(),
            ]
        )
    );
    for (check, out, line) in [
        (Check::BareRepo, Some("no"), "  ✗ bare repo /data/git/demo.git missing — run `aoraki link`"),
        (Check::Hook, Some("missing"), "  ✗ post-receive hook missing — run `aoraki link`"),
        (
            Check::Hook,
            Some("aoraki-hook-version: 0"),
            "  ✗ hook outdated (aoraki-hook-version: 0, want 1) — run `aoraki link`",
        ),
        (
            Check::Hook,
            Some("aoraki-hook-version: 11"),
            "  ✗ hook outdated (aoraki-hook-version: 11, want 1) — run `aoraki link`",
        ),
        (Check::Hook, Some("1"), "  ✗ hook outdated (1, want 1) — run `aoraki link`"),
        (Check::Hook, None, "  ✗ could not inspect hook"),
        (Check::Workdir, None, "  ✗ could not inspect workdir"),
        (
            Check::Docker,
            Some("fail"),
            "  ✗ docker not usable by this user — add the user to the docker group",
        ),
        (
            Check::Kubectl,
            Some("0"),
            "  ✗ `sudo kubectl` failed — check passwordless sudo for kubectl (playbook § 2)",
        ),
    ] {
        assert_eq!(verdict(check, out), (false, vec![line.to_string()]));
    }
    assert_eq!(
        verdict(Check::Workdir, Some("dir_missing\ndenv_missing")),
        (
            false,
            vec![
                "  ✗ workdir /data/repos/demo missing — clone the repo there (playbook § 12)"
                    .to_string(),
                "  ⚠ .deploy.env missing (manual ucn/dcn fallback unavailable)".to_string(),
            ]
        )
    );
    assert_eq!(
        verdict(Check::Disk, Some("")),
        (true, vec!["  ⚠ could not read /data disk usage".to_string()])
    );
    assert!(!verdict(Check::Kubectl, Some("many")).0);
}

#[test]
fn doctor_looks_at_consoles_too() {
    let id = Identity {
        user: None,
        org: "Acme".to_string(),
        org_hex: None,
        token_name: "laptop".to_string(),
        expires_at: "2030-01-01T00:00:00Z".to_string(),
    };
    let problem = fail("token rejected".to_string());
    assert_eq!(
        doctor::remote_line("x", None),
        (true, "  - x: not logged in — run `aoraki login x`".to_string())
    );
    assert_eq!(
        doctor::remote_line("x", Some(Ok(&id))),
        (true, "  ✓ x: token accepted (org: Acme)".to_string())
    );
    assert_eq!(
        doctor::remote_line("x", Some(Err(&problem))),
        (false, "  ✗ x: token rejected — run `aoraki login x`".to_string())
    );
    for passed in [vec![], vec![true, true]] {
        assert_eq!(doctor::finish(&passed).ok().unwrap(), "\nAll checks passed.");
    }
    for passed in [vec![false], vec![true, false, true]] {
        assert_eq!(said(doctor::finish(&passed)), "doctor found problems — see above");
    }
    assert_eq!(
        doctor::title(&ctx_of(env())),
        "\nEnvironment 'production' (demo-ns → deploy@1.2.3.4):"
    );
    assert!(doctor::no_remotes_line().contains("aoraki login --url"));
}

#[test]
fn doctor_looks_at_one_environment_or_all() {
    let r = repo(env());
    assert_eq!(doctor::environments(None, &r, &global()).ok().unwrap(), vec!["production"]);
    assert_eq!(
        doctor::environments(Some("prod".to_string()), &r, &global()).ok().unwrap(),
        vec!["production"]
    );
    assert!(doctor::environments(Some("x".to_string()), &r, &global()).is_err());
}

fn words(e: Option<&str>, t: Option<&str>, a: Option<&str>) -> (Option<String>, Option<String>) {
    logs::sort_out(e.map(String::from), t.map(String::from), a.map(String::from))
}

#[test]
fn lone_word_for_pods_is_no_environment() {
    assert_eq!(words(Some("workers"), None, None), (None, Some("workers".to_string())));
    assert_eq!(words(Some("staging"), None, None), (Some("staging".to_string()), None));
    assert_eq!(
        words(Some("all"), Some("web"), None),
        (Some("all".to_string()), Some("web".to_string()))
    );
    assert_eq!(
        words(Some("staging"), None, Some("production")),
        (Some("production".to_string()), None)
    );
}

#[test]
fn logs_are_asked_for_by_pods() {
    let ctx = ctx_of(env());
    assert_eq!(
        logs::run(&ctx, Some("web"), false, None, false, 200).ok().unwrap(),
        "sudo kubectl -n demo-ns logs deployment/demo-deployment --tail=200"
    );
    assert_eq!(
        logs::run(&ctx, Some("workers"), true, Some("1h"), true, 50).ok().unwrap(),
        "dep=$(sudo kubectl -n demo-ns get deployments -o name | grep -m1 worker) || { echo 'no worker deployment in namespace demo-ns' >&2; exit 1; }; sudo kubectl -n demo-ns logs \"$dep\" --tail=50 --since=1h --previous -f"
    );
    assert_eq!(
        logs::run(&ctx, None, false, None, false, 1).ok().unwrap(),
        "sudo kubectl -n demo-ns logs -l app --all-containers --prefix --max-log-requests=10 --tail=1"
    );
    assert_eq!(
        said(logs::run(&ctx, Some("redis"), false, None, false, 1)),
        "unknown logs target 'redis' — use web, workers, or all"
    );
}

#[test]
fn one_off_pod_gets_the_words_quoted() {
    let ctx = ctx_of(env());
    let cmd = vec!["bash".to_string(), "-c".to_string(), "echo 'hi'".to_string()];
    assert!(run::check(&cmd).is_ok());
    assert_eq!(
        said(run::check(&Vec::new())),
        "provide a command after -- , e.g. `aoraki run staging -- bash`"
    );
    assert_eq!(
        run::image_command(&ctx),
        "sudo kubectl -n demo-ns get deploy demo-deployment -o jsonpath='{.spec.template.spec.containers[0].image}'"
    );
    let (line, command) = run::run(&ctx, "img:1", &cmd).ok().unwrap();
    assert_eq!(line, "→ one-off pod with image img:1");
    assert_eq!(
        command,
        r"sudo kubectl -n demo-ns run aoraki-run-$RANDOM --rm -it --restart=Never --image=img:1 --command -- 'bash' '-c' 'echo '\''hi'\'''"
    );
    assert_eq!(
        said(run::run(&ctx, "", &cmd)),
        "could not resolve the deployed image for demo-deployment"
    );
}

#[test]
fn restart_open_and_config_have_their_commands() {
    let ctx = ctx_of(env());
    let (line, command) = restart::run(&ctx);
    assert_eq!(line, "→ restarting demo-deployment in demo-ns");
    assert_eq!(
        command,
        "sudo kubectl -n demo-ns rollout restart deployment/demo-deployment && sudo kubectl -n demo-ns rollout status deployment/demo-deployment --timeout=600s"
    );
    assert_eq!(open::run(&ctx).ok().unwrap(), "https://demo.example");
    let mut bare = env();
    bare.url = None;
    assert_eq!(
        said(open::run(&ctx_of(bare))),
        "no url configured for environment 'production' in aoraki.toml"
    );
    assert_eq!(
        config_cmd::run(&ctx),
        "echo '# configmap demo-config'; sudo kubectl -n demo-ns get configmap demo-config -o go-template='{{range $k, $v := .data}}{{$k}}{{\"\\n\"}}{{end}}' 2>/dev/null || echo '(not found)'; echo; echo '# secret demo-secret (keys only)'; sudo kubectl -n demo-ns get secret demo-secret -o go-template='{{range $k, $v := .data}}{{$k}}{{\"\\n\"}}{{end}}' 2>/dev/null || echo '(not found)'"
    );
}

#[test]
fn history_shows_the_latest_first() {
    let raw = "{\"status\":\"started\",\"sha\":\"aaaaaaaaaa\",\"time\":\"t1\"}\n{\"status\":\"succeeded\",\"sha\":\"aaaaaaaaaa\",\"time\":\"t2\",\"duration_secs\":61}\nnoise\n{\"status\":\"failed\",\"sha\":\"bbbb\",\"time\":\"t3\"}\n{}";
    let rows = deploys::history(raw, 20);
    assert_eq!(
        rows,
        vec![
            "?                      ?          ?         -",
            "t3                     failed     bbbb      -",
            "t2                     succeeded  aaaaaaa   61s",
        ]
    );
    assert_eq!(deploys::history(raw, 2), rows[..2]);
    assert_eq!(deploys::history(raw, 0).len(), 1);
    assert!(deploys::history("", 5).is_empty());
    assert_eq!(deploys::header(), "TIME                   STATUS     SHA       DURATION");
    let records = vec![None, Json::parse("{\"status\":\"ok\"}"), None];
    assert_eq!(
        deploys::rows_of(&records, 3),
        vec!["?                      ok         ?         -"]
    );
}

#[test]
fn history_is_asked_for_with_twice_the_limit() {
    let ctx = ctx_of(env());
    assert_eq!(
        deploys::tail_command(&ctx, 20),
        "tail -n 40 /data/logs/aoraki-deploys/demo.jsonl 2>/dev/null || true"
    );
    assert_eq!(deploys::none_on_box(&ctx), "No aoraki deploys recorded for demo on core2 yet.");
    assert_eq!(deploys::none_at_gateway(&ctx), "No gateway deploys recorded for demo yet.");
    assert_eq!(
        deploys::gateway_path(&ctx, 20),
        "/deploys?app=demo&environment=production&limit=20"
    );
}

#[test]
fn gateway_history_is_shown_as_it_comes() {
    let answer = Json::parse(
        r#"{"data":[{"commit_sha":"0123456789","created_at":"t","status":"failed","duration_secs":-1},{}]}"#,
    )
    .unwrap();
    assert_eq!(
        deploys::gateway_rows(&answer),
        vec![
            "t                      failed     0123456   -1s",
            "?                      ?          ?         -",
        ]
    );
    assert!(deploys::gateway_rows(&Json::Null).is_empty());
}

#[test]
fn status_compares_with_what_is_here() {
    let ctx = ctx_of(env());
    let line = r#"{"sha":"0123456789","status":"succeeded","time":"t","duration_secs":5}"#;
    assert_eq!(
        status::report_of(&ctx, "0123456", line, "img 2/2"),
        vec![
            "App:        demo (production → deploy@1.2.3.4)",
            "Local HEAD: 0123456",
            "Deployed:   0123456 (succeeded, t, 5s)",
            "Pods:       img 2/2",
            "\n✓ box is running your local HEAD",
        ]
    );
    assert_eq!(
        status::report_of(&ctx, "fffffff", "{\"sha\":\"0123456789\"}", "p")[2..],
        [
            "Deployed:   0123456 (?, ?)".to_string(),
            "Pods:       p".to_string(),
            "\n⚠ local HEAD (fffffff) differs from last deployed (0123456)".to_string(),
        ]
    );
    assert_eq!(
        status::report(&ctx, "fffffff", &None, "unavailable")[2..],
        [
            "Deployed:   no aoraki deploys recorded on this box yet".to_string(),
            "Pods:       unavailable".to_string(),
        ]
    );
    assert_eq!(
        status::last_deploy_command(&ctx),
        "tail -n 1 /data/logs/aoraki-deploys/demo.jsonl 2>/dev/null || true"
    );
    assert_eq!(
        status::pods_command(&ctx),
        "sudo kubectl -n demo-ns get deploy demo-deployment -o jsonpath='{.spec.template.spec.containers[0].image} {.status.readyReplicas}/{.status.replicas}' 2>/dev/null || echo unavailable"
    );
}
