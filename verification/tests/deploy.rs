//! Deploys to a box and through the gateway.

use aoraki::commands::deploy::{
    announce, cancelled, confirmed, deploy_event, dockerfile, event_at, gateway_announce, gateway_deploy,
    gateway_deploy_id, gateway_dockerfile_missing, gateway_repo, gateway_settle, heard_of_push,
    off_branch, push_args, push_failed, pushed_args, refspec, remote_pref, resolve_args, scan_line,
    settle, sha_on_env_branch, step, transport, trigger_command, trigger_notice, unpushed_warning,
    unresolved, Heard, Stage, Transport,
};
use aoraki::config::{AppSection, EnvConfig, GlobalConfig, RepoConfig, ServerConfig};
use aoraki::context::Ctx;
use aoraki::json::Json;
use aoraki::names::NameMap;

const SHA: &str = "0123456789abcdef0123456789abcdef01234567";

fn env() -> EnvConfig {
    EnvConfig {
        server: "core2".to_string(),
        branch: "prod".to_string(),
        namespace: "demo-ns".to_string(),
        deploy_script: "k8s/deploy.sh".to_string(),
        url: Some("https://demo.example".to_string()),
        workdir: None,
        confirm: true,
        transport: None,
        remote: None,
        port: None,
        size: None,
        dockerfile: None,
        process_type: None,
        gpu: None,
        aliases: Vec::new(),
    }
}

fn repo(env: EnvConfig) -> RepoConfig {
    let mut environments = NameMap::new();
    environments.insert("production".to_string(), env);
    RepoConfig {
        app: AppSection {
            name: "demo".to_string(),
            org: Some("org_1".to_string()),
            repo: Some("acme/demo".to_string()),
            default_env: None,
        },
        environments,
    }
}

fn ctx_of(env: EnvConfig) -> Ctx {
    let mut g = GlobalConfig::default();
    g.servers.insert(
        "core2".to_string(),
        ServerConfig { host: "1.2.3.4".to_string(), user: Some("deploy".to_string()) },
    );
    Ctx::load("/src/demo".to_string(), repo(env), g, None, None).ok().unwrap()
}

fn course(confirm: bool, transport: Transport, heard: &[Heard]) -> Stage {
    let mut stage = Stage::Resolve;
    for h in heard {
        stage = step(confirm, transport, stage, *h);
    }
    stage
}

#[test]
fn unguarded_commit_goes_out_at_once() {
    let yes = [Heard::Yes];
    assert!(course(false, Transport::Direct, &yes) == Stage::Push);
    assert!(course(false, Transport::Gateway, &yes) == Stage::Gateway);
    assert!(course(false, Transport::Lease, &yes) == Stage::Lease);
    assert!(course(false, Transport::Direct, &[Heard::No]) == Stage::Unresolved);
}

#[test]
fn guarded_commit_is_cleared_first() {
    let d = Transport::Direct;
    assert!(course(true, d, &[Heard::Yes]) == Stage::AskBranch);
    assert!(course(true, d, &[Heard::Yes, Heard::Yes]) == Stage::Push);
    assert!(course(true, d, &[Heard::Yes, Heard::No]) == Stage::AskOrigin);
    assert!(course(true, d, &[Heard::Yes, Heard::No, Heard::Yes]) == Stage::Push);
    let asked = [Heard::Yes, Heard::No, Heard::No];
    assert!(course(true, d, &asked) == Stage::AskUser);
    assert!(course(true, d, &[asked[0], asked[1], asked[2], Heard::Yes]) == Stage::Push);
    let refused = [asked[0], asked[1], asked[2], Heard::No, Heard::Yes, Heard::Yes];
    assert!(course(true, d, &refused) == Stage::Cancelled);
    assert!(course(true, Transport::Lease, &[Heard::Yes, Heard::Yes]) == Stage::Lease);
}

#[test]
fn hook_decides_how_a_push_ended() {
    let after = |h: Heard| step(false, Transport::Direct, Stage::Push, h);
    assert!(after(Heard::Yes) == Stage::Settled(true));
    assert!(after(Heard::No) == Stage::Settled(false));
    assert!(after(Heard::Silent(true)) == Stage::Trigger);
    assert!(after(Heard::Silent(false)) == Stage::PushFailed);
    assert!(step(false, Transport::Direct, Stage::Trigger, Heard::Yes) == Stage::Settled(true));
    assert!(step(false, Transport::Direct, Stage::Trigger, Heard::No) == Stage::Settled(false));
    assert!(heard_of_push(Some(true), false) == Heard::Yes);
    assert!(heard_of_push(Some(false), true) == Heard::No);
    assert!(heard_of_push(None, true) == Heard::Silent(true));
}

#[test]
fn an_end_stays_an_end() {
    for end in [
        Stage::Unresolved,
        Stage::Cancelled,
        Stage::PushFailed,
        Stage::Settled(true),
        Stage::Settled(false),
    ] {
        for h in [Heard::Yes, Heard::No, Heard::Silent(true)] {
            assert!(step(true, Transport::Direct, end, h) == end);
        }
    }
}

#[test]
fn transport_is_the_environments() {
    assert!(transport(&env()) == Transport::Direct);
    for (name, expected) in [
        ("gateway", Transport::Gateway),
        ("lease", Transport::Lease),
        ("direct", Transport::Direct),
    ] {
        let mut e = env();
        e.transport = Some(name.to_string());
        assert!(transport(&e) == expected, "{name}");
    }
}

#[test]
fn commit_is_looked_up() {
    assert_eq!(refspec(None), "HEAD");
    assert_eq!(refspec(Some("v1".to_string())), "v1");
    assert_eq!(resolve_args("v1"), vec!["rev-parse", "--verify", "v1^{commit}"]);
    assert_eq!(
        unresolved("v1", "unknown revision").message(),
        "'v1' does not resolve to a commit: unknown revision"
    );
    let ctx = ctx_of(env());
    assert_eq!(
        sha_on_env_branch(&ctx, "abc", false),
        vec!["merge-base", "--is-ancestor", "abc", "prod"]
    );
    assert_eq!(
        sha_on_env_branch(&ctx, "abc", true),
        vec!["merge-base", "--is-ancestor", "abc", "origin/prod"]
    );
}

#[test]
fn user_types_the_name_to_confirm() {
    let (warning, question) = off_branch(&ctx_of(env()), "0123456");
    assert_eq!(
        warning,
        "⚠ 0123456 is not on 'prod' — deploying it would put off-branch code in production"
    );
    assert_eq!(question, "Deploy 0123456 to production? Type 'production' to confirm: ");
    assert!(confirmed(" production\n", "production"));
    assert!(!confirmed("prod", "production"));
    assert!(!confirmed("", "production"));
    assert_eq!(cancelled().message(), "deploy cancelled");
}

#[test]
fn push_is_forced_to_the_branch() {
    let ctx = ctx_of(env());
    assert_eq!(
        announce(&ctx, "0123456"),
        "→ deploying demo 0123456 to production (demo-ns on deploy@1.2.3.4)"
    );
    assert_eq!(
        push_args(&ctx, "abc"),
        vec!["push", "ssh://deploy@1.2.3.4/data/git/demo.git", "+abc:refs/heads/prod"]
    );
    assert_eq!(
        push_failed("production").message(),
        "git push failed — run `aoraki doctor production` to check the deploy chain"
    );
    assert_eq!(trigger_notice(), "→ ref unchanged on box; triggering deploy hook directly");
    assert_eq!(
        trigger_command(&ctx, "abc"),
        "echo 'abc abc refs/heads/prod' | /data/git/demo.git/hooks/post-receive"
    );
}

#[test]
fn last_word_of_the_hook_counts() {
    let mut outcome = None;
    let mut shown = Vec::new();
    for line in [
        "remote: building",
        "Everything up-to-date",
        "remote: aoraki: deploy status: failed (exit 1)",
        "remote: aoraki: deploy status: succeeded (3s)",
        "remote: bye",
    ] {
        let (now, text) = scan_line(outcome, line);
        outcome = now;
        shown.push(text);
    }
    assert_eq!(outcome, Some(true));
    assert_eq!(shown[0], "building");
    assert_eq!(shown[1], "Everything up-to-date");
    assert_eq!(scan_line(Some(true), "aoraki: deploy status: failed").0, Some(false));
    assert_eq!(scan_line(None, "remote: deploy status: succeeded").0, None);
}

#[test]
fn events_go_to_the_pinned_console() {
    let mut e = env();
    e.remote = Some("company".to_string());
    assert_eq!(remote_pref(&repo(env()), &e), Some("company"));
    let mut r = repo(env());
    assert_eq!(remote_pref(&r, &env()), Some("org_1"));
    r.app.org = None;
    assert_eq!(remote_pref(&r, &env()), None);
}

#[test]
fn deploy_is_recorded() {
    let ctx = ctx_of(env());
    let event = deploy_event(&ctx, "0123456", true, 0, 42, "me@x", "0.1.0").unwrap();
    assert_eq!(event.app, "demo");
    assert_eq!(event.environment, "production");
    assert_eq!(event.box_id, "core2");
    assert_eq!(event.namespace, "demo-ns");
    assert_eq!(event.build_ref, "0123456");
    assert_eq!(event.ref_name, "prod");
    assert_eq!(event.status, "succeeded");
    assert_eq!(event.started_at, "1970-01-01T00:00:00Z");
    assert_eq!(event.duration_secs, 42);
    assert_eq!(event.actor, "me@x");
    assert_eq!(event.cli_version, "0.1.0");
    assert_eq!(deploy_event(&ctx, "x", false, 0, 1, "", "").unwrap().status, "failed");
    let event = event_at(&ctx, "0123456", true, "then".to_string(), 1, "me", "v");
    assert_eq!((event.started_at.as_str(), event.status.as_str()), ("then", "succeeded"));
    assert!(deploy_event(&ctx, "x", true, i64::MAX, 1, "", "").is_none());
}

#[test]
fn end_of_a_deploy_is_told() {
    let ctx = ctx_of(env());
    assert_eq!(
        settle(&ctx, "0123456", true, 9).ok().unwrap(),
        vec!["✓ deployed 0123456 to production in 9s", "→ https://demo.example"]
    );
    assert_eq!(
        settle(&ctx, "0123456", false, 9).err().unwrap().message(),
        "deploy failed — see output above (previous pods keep running; image tag never changed)"
    );
    let mut e = env();
    e.url = None;
    assert_eq!(settle(&ctx_of(e), "x", true, 0).ok().unwrap().len(), 1);
}

#[test]
fn gateway_needs_a_repo_and_a_dockerfile() {
    let mut r = repo(env());
    assert_eq!(gateway_repo(&r).ok().unwrap(), "acme/demo");
    r.app.repo = None;
    assert_eq!(
        gateway_repo(&r).err().unwrap().message(),
        "gateway transport needs `repo = \"owner/name\"` under [app] in aoraki.toml"
    );
    assert_eq!(dockerfile(&env()), "Dockerfile");
    let mut e = env();
    e.dockerfile = Some("api/Dockerfile".to_string());
    assert_eq!(dockerfile(&e), "api/Dockerfile");
    assert_eq!(
        gateway_dockerfile_missing("Dockerfile").message(),
        "no Dockerfile at the repo root — add one"
    );
}

#[test]
fn gateway_warns_of_a_commit_that_was_not_pushed() {
    assert_eq!(pushed_args("abc"), vec!["branch", "-r", "--contains", "abc"]);
    let warning = "⚠ commit 0123456 doesn't appear on any remote branch — push first or this will fail";
    assert_eq!(unpushed_warning(Some("origin/main"), "0123456"), None);
    assert_eq!(unpushed_warning(Some(""), "0123456").as_deref(), Some(warning));
    assert_eq!(unpushed_warning(None, "0123456").as_deref(), Some(warning));
    assert_eq!(
        gateway_announce(&ctx_of(env()), "acme/demo", "0123456"),
        "→ deploying demo 0123456 to production via gateway (acme/demo @ 0123456)"
    );
}

fn keys(json: &Json) -> Vec<String> {
    match json {
        Json::Object(fields) => fields.iter().map(|f| f.0.clone()).collect(),
        _ => panic!("expected an object"),
    }
}

#[test]
fn gateway_is_asked_for_a_deploy() {
    let mut e = env();
    e.size = Some("s".to_string());
    let body = gateway_deploy(&ctx_of(e), "acme/demo", SHA);
    assert_eq!(keys(&body), vec!["repo", "git_ref", "app", "environment"]);
    assert_eq!(body.text_at("repo"), Some("acme/demo"));
    assert_eq!(body.text_at("git_ref"), Some(SHA));
    assert_eq!(body.text_at("app"), Some("demo"));
    assert_eq!(body.text_at("environment"), Some("production"));
}

#[test]
fn port_makes_it_a_release() {
    let mut e = env();
    e.port = Some(8080);
    assert_eq!(
        keys(&gateway_deploy(&ctx_of(e), "r", SHA)),
        vec!["repo", "git_ref", "app", "environment", "port"]
    );
    let mut e = env();
    e.port = Some(8080);
    e.size = Some("s".to_string());
    e.dockerfile = Some("d".to_string());
    e.process_type = Some("p".to_string());
    let body = gateway_deploy(&ctx_of(e), "r", SHA);
    assert_eq!(body.unsigned_at("port"), Some(8080));
    assert_eq!(body.text_at("size"), Some("s"));
    assert_eq!(body.text_at("dockerfile"), Some("d"));
    assert_eq!(body.text_at("process_type"), Some("p"));
}

#[test]
fn gateway_deploy_ends_as_the_stream_says() {
    let answer = Json::parse(r#"{"data":{"deploy_id":"d1"}}"#).unwrap();
    assert_eq!(gateway_deploy_id(&answer).ok().unwrap(), "d1");
    assert_eq!(
        gateway_deploy_id(&Json::Null).err().unwrap().message(),
        "gateway did not return a deploy id"
    );
    let ctx = ctx_of(env());
    assert_eq!(
        gateway_settle(&ctx, "succeeded").ok().unwrap(),
        vec!["→ https://demo.example"]
    );
    assert_eq!(
        gateway_settle(&ctx, "failed").err().unwrap().message(),
        "deploy failed — see output above"
    );
}
