//! Deploys to a lease of the console, and launches.

use aoraki::commands::launch::{
    deployment_name, domain_lines, domain_request, env_map, gpu_accepted, gpu_announce, gpu_banner,
    gpu_lines, gpu_preflight, gpu_timed_out, launch_announce, launch_request, launched_id,
    launched_lines, lease_timed_out, poll_gpu, poll_lease, poll_live, run_gpu,
    wait_for_lease_banner, GpuPoll, LaunchArgs, LeasePoll, LivePoll, Wait, GPU_POLL_ATTEMPTS,
    POLL_ATTEMPTS,
};
use aoraki::commands::lease::{
    build_announce, build_args, build_failed, check_model, committed_env_warning, create_request,
    created_id, created_lines, dockerfile_missing, dotenv_is_tracked, entry_id,
    existing_deployment, export_args, exposed_port, first_env_notice, gpu_choice, gpu_failure, image_name,
    image_push_args, image_push_failed, inspect_args, lease_step, login_failed, lost_env_warning,
    not_removed, org_guard, process_type, push_announce, read_dotenv, registry, registry_login,
    replace_existing_gpu, replace_notice, retry_notice, size, swap_failed, swap_lines, swap_notice,
    swap_request, target, tree_guard, LeaseStage, Target,
};
use aoraki::config::EnvConfig;
use aoraki::console::Console;
use aoraki::failure::{fail, Failure};
use aoraki::json::Json;
use aoraki::names::NameMap;

fn console() -> Console {
    Console {
        api: "https://c/api/v1".to_string(),
        token: "cli_k".to_string(),
        org_hex: "org_1".to_string(),
        org_name: "Acme".to_string(),
        remote_name: "x".to_string(),
        registry: None,
    }
}

fn env() -> EnvConfig {
    EnvConfig {
        server: String::new(),
        branch: "main".to_string(),
        namespace: String::new(),
        deploy_script: String::new(),
        url: None,
        workdir: None,
        confirm: false,
        transport: Some("lease".to_string()),
        remote: None,
        port: None,
        size: None,
        dockerfile: None,
        process_type: None,
        gpu: None,
        aliases: Vec::new(),
    }
}

fn json(text: &str) -> Json {
    Json::parse(text).unwrap()
}

fn said<T>(r: Result<T, Failure>) -> String {
    r.err().unwrap().message().to_string()
}

fn course(port_given: bool, target: Target, answers: &[bool]) -> LeaseStage {
    let mut stage = LeaseStage::FindDockerfile;
    for yes in answers {
        stage = lease_step(port_given, target, stage, *yes);
    }
    stage
}

#[test]
fn lease_deploy_takes_its_stages_in_turn() {
    let mut stage = LeaseStage::FindDockerfile;
    for next in [
        LeaseStage::Guard,
        LeaseStage::CheckTree,
        LeaseStage::Build,
        LeaseStage::FindPort,
        LeaseStage::Login,
        LeaseStage::Push,
        LeaseStage::FindDeployment,
        LeaseStage::Swap,
        LeaseStage::Swap,
    ] {
        stage = lease_step(false, Target::Lease, stage, true);
        assert!(stage == next);
    }
    assert!(course(true, Target::Lease, &[true, true, true, true]) == LeaseStage::Login);
    assert!(
        lease_step(true, Target::Lease, LeaseStage::FindDeployment, false) == LeaseStage::Create
    );
}

#[test]
fn lease_deploy_stops_where_it_is_refused() {
    let t = Target::Lease;
    for (answers, end) in [
        (vec![false], LeaseStage::NoDockerfile),
        (vec![true, false], LeaseStage::WrongOrg),
        (vec![true, true, false], LeaseStage::DirtyTree),
        (vec![true, true, true, false], LeaseStage::BuildFailed),
        (vec![true, true, true, true, false], LeaseStage::NoPort),
        (vec![true, true, true, true, true, false], LeaseStage::LoginFailed),
        (vec![true, true, true, true, true, true, false, false], LeaseStage::LoginFailed),
        (vec![true, true, true, true, true, true, false, true, false], LeaseStage::PushFailed),
    ] {
        assert!(course(false, t, &answers) == end);
        assert!(lease_step(false, t, end, true) == end);
    }
    let retried = [true, true, true, true, true, true, false, true, true];
    assert!(course(false, t, &retried) == LeaseStage::FindDeployment);
}

#[test]
fn gpu_workload_is_replaced_after_the_checks() {
    let pushed = [true, true, true, true, true, true];
    assert!(course(true, Target::GpuModel, &pushed) == LeaseStage::ReadEnv);
    let at = |t: Target, s: LeaseStage, yes: bool| lease_step(true, t, s, yes);
    assert!(at(Target::GpuModel, LeaseStage::ReadEnv, true) == LeaseStage::CheckModel);
    assert!(at(Target::GpuModel, LeaseStage::ReadEnv, false) == LeaseStage::BadEnv);
    assert!(at(Target::GpuModel, LeaseStage::CheckModel, false) == LeaseStage::UnknownModel);
    assert!(at(Target::GpuModel, LeaseStage::CheckModel, true) == LeaseStage::Replace);
    assert!(at(Target::AnyGpu, LeaseStage::ReadEnv, true) == LeaseStage::Replace);
    assert!(at(Target::AnyGpu, LeaseStage::Replace, true) == LeaseStage::StartGpu);
}

#[test]
fn environment_has_defaults_for_a_lease() {
    assert_eq!(size(&env()), "docker-xlarge-storage");
    assert_eq!(process_type(&env()), "web");
    let mut e = env();
    e.size = Some("s".to_string());
    e.process_type = Some("p".to_string());
    assert_eq!((size(&e).as_str(), process_type(&e).as_str()), ("s", "p"));
    assert_eq!(
        dockerfile_missing("Dockerfile").message(),
        "no Dockerfile in the repo — cloud deploys build it locally"
    );
}

#[test]
fn pinned_org_is_a_guard() {
    assert!(org_guard(&None, &console()).is_ok());
    assert!(org_guard(&Some("org_1".to_string()), &console()).is_ok());
    assert!(org_guard(&Some("Other Name".to_string()), &console()).is_ok());
    assert_eq!(
        said(org_guard(&Some("org_2".to_string()), &console())),
        "aoraki.toml pins org org_2 but remote 'x' is org org_1 (Acme) — wrong console org; fix the remote or the pin"
    );
}

#[test]
fn registry_is_given_advertised_or_the_platforms() {
    let mut c = console();
    assert_eq!(registry(None, &c), "registry.aoraki.cloud");
    c.registry = Some("reg.test".to_string());
    assert_eq!(registry(None, &c), "reg.test");
    assert_eq!(registry(Some("mine"), &c), "mine");
    assert_eq!(image_name("reg", &c, "demo", "0123456"), "reg/org_1/demo:0123456");
}

#[test]
fn only_committed_code_deploys() {
    for clean in ["", " \n", "?? .aoraki.env", "?? apps/site/.aoraki.env\n"] {
        assert!(tree_guard(Some(clean)).is_ok(), "{clean}");
    }
    let dirty = "working tree has uncommitted changes — commit or stash them first (only committed code deploys)";
    for status in [" M a", "?? b", "?? .aoraki.env\n M a", "M .aoraki.env", "?? x.aoraki.env"] {
        assert_eq!(said(tree_guard(Some(status))), dirty, "{status}");
    }
    assert!(tree_guard(None).is_ok());
    assert!(
        lease_step(true, Target::Lease, LeaseStage::CheckTree, false) == LeaseStage::DirtyTree
    );
}

#[test]
fn image_is_built_from_the_commit() {
    assert_eq!(export_args("0123456789"), vec!["archive", "--format=tar", "0123456789"]);
    assert_eq!(
        build_announce("demo", "0123456", "Dockerfile", "img", &console()),
        "→ building demo 0123456 from Dockerfile → img (org: Acme, remote: x)"
    );
    assert_eq!(
        build_args("Dockerfile", "img", "0123456"),
        vec!["build", "-f", "Dockerfile", "-t", "img", "--build-arg", "BUILD_HASH=0123456", "-"]
    );
    assert_eq!(build_failed().message(), "docker build failed");
    assert_eq!(
        inspect_args("img"),
        vec!["image", "inspect", "--format", "{{json .Config.ExposedPorts}}", "img"]
    );
}

#[test]
fn image_exposes_one_port() {
    assert_eq!(exposed_port("{\"8080/tcp\":{}}\n").ok(), Some(8080));
    assert_eq!(exposed_port("\"{\"8080/tcp\":{}}\"").ok(), Some(8080));
    assert_eq!(exposed_port("{\"53/udp\":{},\"80/tcp\":{}}").ok(), Some(80));
    assert_eq!(exposed_port("{\"70000/tcp\":{},\"+80/tcp\":{}}").ok(), Some(80));
    let none = "the Dockerfile has no EXPOSE — add one, or set `port =` in this environment";
    for raw in ["null", "", "{}", "{\"53/udp\":{}}"] {
        assert_eq!(said(exposed_port(raw)), none, "{raw}");
    }
    assert_eq!(
        said(exposed_port("{\"80/tcp\":{},\"443/tcp\":{}}")),
        "the Dockerfile EXPOSEs several ports ([80, 443]) — set `port =` in this environment to pick one"
    );
}

#[test]
fn image_is_pushed_as_the_org() {
    assert_eq!(
        registry_login("reg", &console()),
        vec!["login", "reg", "-u", "org_1", "--password-stdin"]
    );
    assert_eq!(login_failed(" denied\n").message(), "registry login failed: denied");
    assert_eq!(push_announce("img"), "→ pushing img");
    assert_eq!(image_push_args("img"), vec!["push", "img"]);
    assert_eq!(retry_notice(), "→ push failed; refreshing registry login and retrying once");
    assert_eq!(
        image_push_failed(&console()).message(),
        "docker push failed. Likely causes, most common first: a layer over ~100MB (the registry sits behind Cloudflare's body cap — split big layers), network/registry outage, or — rarely, since login just succeeded — pushing outside your org's org_1/… namespace"
    );
}

fn pairs(map: &NameMap<String>) -> Vec<(String, String)> {
    (0..map.len()).map(|i| (map.name_at(i).to_string(), map.value_at(i).clone())).collect()
}

fn pair(k: &str, v: &str) -> (String, String) {
    (k.to_string(), v.to_string())
}

#[test]
fn variables_are_read_from_the_file() {
    assert!(read_dotenv(None).ok().unwrap().is_empty());
    let text = "# secrets\n\n B = two = 2 \nA=1\r\n  # more\nA=3\nC=\n";
    assert_eq!(
        pairs(&read_dotenv(Some(text)).ok().unwrap()),
        vec![pair("A", "3"), pair("B", "two = 2"), pair("C", "")]
    );
    assert_eq!(
        said(read_dotenv(Some("A=1\n  nonsense  \nmore\n"))),
        ".aoraki.env: 'nonsense' is not KEY=VALUE"
    );
}

#[test]
fn gpu_is_the_flags_or_the_environments() {
    let mut e = env();
    e.gpu = Some("auto".to_string());
    assert_eq!(gpu_choice(None, &e).as_deref(), Some("auto"));
    assert_eq!(gpu_choice(Some("RTX".to_string()), &e).as_deref(), Some("RTX"));
    assert_eq!(gpu_choice(None, &env()), None);
    assert!(target(&None) == Target::Lease);
    assert!(target(&Some("auto".to_string())) == Target::AnyGpu);
    assert!(target(&Some("RTX 4090".to_string())) == Target::GpuModel);
    let catalog = json(r#"{"data":[{"name":"A100"},{"name":"RTX 4090"}]}"#);
    assert!(check_model(&catalog, "RTX 4090").is_ok());
    assert_eq!(
        said(check_model(&catalog, "H100")),
        "GPU model 'H100' is not in the catalog — see `aoraki gpus` (nothing was removed)"
    );
    assert!(check_model(&Json::Null, "H100").is_err());
}

#[test]
fn running_workloads_are_replaced() {
    let list = json(
        r#"{"data":[
            {"name":"demo","status":"running","hex_id":"h1","env":{"A":"1"}},
            {"name":"demo","status":"failed","hex_id":"h2"},
            {"name":"other","status":"running","hex_id":"h3"},
            {"name":"demo","status":"starting","id":"h4","env":{}},
            {"name":"demo","status":"requested"}]}"#,
    );
    assert_eq!(
        replace_existing_gpu(&list, "demo"),
        vec![("h1".to_string(), true), ("h4".to_string(), false)]
    );
    assert_eq!(entry_id(&json(r#"{"id":"a","hex_id":"b"}"#)).as_deref(), Some("b"));
    assert_eq!(entry_id(&json("{}")), None);
}

#[test]
fn replacing_is_told_loudly() {
    let none = NameMap::new();
    let mut some = NameMap::new();
    some.insert("A".to_string(), "1".to_string());
    assert_eq!(
        lost_env_warning(true, &none).as_deref(),
        Some("⚠ the running deployment has env vars but .aoraki.env is empty/missing — the replacement will start with NO env (GPU deploys don't use console env groups)")
    );
    assert_eq!(lost_env_warning(true, &some), None);
    assert_eq!(lost_env_warning(false, &none), None);
    assert_eq!(
        replace_notice("h1"),
        "→ replacing previous GPU deployment h1 (un-deploying; billing stops)"
    );
    assert_eq!(
        not_removed("h1", "HTTP 500"),
        "⚠ could not remove h1: HTTP 500 — check the console, it may still be billing"
    );
    assert_eq!(gpu_failure(fail("no capacity".to_string()), 0, "demo").message(), "no capacity");
    assert_eq!(
        gpu_failure(fail("no capacity".to_string()), 1, "demo").message(),
        "no capacity\n\n⚠ the previous GPU deployment was ALREADY REMOVED and nothing is running for 'demo' — rerun `aoraki deploy --gpu` (or `aoraki gpus` to check capacity) as soon as possible"
    );
}

#[test]
fn live_deployment_is_updated() {
    let list = json(
        r#"{"data":[{"name":"demo","status":"closed","hex_id":"h1"},{"name":"demo","status":"failed","hex_id":"h2"},{"name":"x","hex_id":"h3"},{"name":"demo","hex_id":"h4"}]}"#,
    );
    assert_eq!(existing_deployment(&list, "demo").as_deref(), Some("h4"));
    assert_eq!(existing_deployment(&list, "nope"), None);
    let nameless = json(r#"{"data":[{"name":"demo"},{"name":"demo","id":"h5"}]}"#);
    assert_eq!(existing_deployment(&nameless, "demo"), None);
    assert_eq!(
        swap_notice("h4"),
        "→ updating deployment h4 (blue-green image swap; env from console groups)"
    );
    assert_eq!(swap_request("img").text_at("image"), Some("img"));
    assert_eq!(
        swap_failed("HTTP 500").message(),
        "HTTP 500\n(the previous version keeps serving — nothing changed)"
    );
    assert_eq!(
        swap_lines(&console(), "h4"),
        vec![
            "✓ swap requested — the previous version keeps serving until the new one is healthy",
            "  monitor: https://c/deployments/h4",
        ]
    );
}

#[test]
fn first_deploy_takes_its_variables_along() {
    let none = NameMap::new();
    let mut some = NameMap::new();
    some.insert("A".to_string(), "1".to_string());
    assert!(dotenv_is_tracked(Some(false)));
    assert!(!dotenv_is_tracked(Some(true)));
    assert!(!dotenv_is_tracked(None));
    assert_eq!(
        committed_env_warning(&some, true).as_deref(),
        Some("⚠ .aoraki.env is tracked by git — it holds secrets; add it to .gitignore")
    );
    assert_eq!(committed_env_warning(&some, false), None);
    assert_eq!(committed_env_warning(&none, true), None);
    assert_eq!(
        first_env_notice(&some).as_deref(),
        Some("→ first deploy: 1 env var(s) from .aoraki.env (manage ongoing env in the console)")
    );
    assert_eq!(first_env_notice(&none), None);
    let body = create_request("demo", "img", 80, &some, "s", "web");
    assert_eq!(body.text_at("name"), Some("demo"));
    assert_eq!(body.text_at("image"), Some("img"));
    assert_eq!(body.unsigned_at("port"), Some(80));
    assert_eq!(body.text_at2("env", "A"), Some("1"));
    assert_eq!(body.text_at("size"), Some("s"));
    assert_eq!(body.text_at("process_type"), Some("web"));
}

#[test]
fn created_deployment_has_an_id() {
    assert_eq!(created_id(&json(r#"{"data":{"hex_id":"h","id":"i"}}"#)).ok().unwrap(), "h");
    assert_eq!(created_id(&json(r#"{"data":{"id":"i"}}"#)).ok().unwrap(), "i");
    assert_eq!(
        said(created_id(&json("{}"))),
        "deploy accepted but no deployment id returned"
    );
    assert_eq!(
        created_lines("h"),
        vec![
            "deployment h registered — waiting for the lease…",
            "  (safe to close this terminal — the deploy continues server-side)",
        ]
    );
}

fn args() -> LaunchArgs {
    LaunchArgs {
        image: "ghcr.io/acme/site:v1".to_string(),
        port: 80,
        name: None,
        env: Vec::new(),
        size: "docker-xlarge-storage".to_string(),
        domain: None,
        gpu: None,
        remote: None,
    }
}

#[test]
fn launch_is_named_after_its_image() {
    assert_eq!(deployment_name(&None, "ghcr.io/acme/site:v1"), "site");
    assert_eq!(deployment_name(&None, "localhost:5000/nginx"), "nginx");
    assert_eq!(deployment_name(&None, "nginx"), "nginx");
    assert_eq!(deployment_name(&Some("web".to_string()), "nginx"), "web");
}

#[test]
fn launch_variables_are_pairs() {
    let list = vec!["B=2".to_string(), "A= x=y".to_string(), "B=3".to_string()];
    assert_eq!(pairs(&env_map(&list).ok().unwrap()), vec![pair("A", " x=y"), pair("B", "3")]);
    assert_eq!(
        said(env_map(&vec!["A=1".to_string(), "B".to_string()])),
        "--env 'B' is not KEY=VALUE"
    );
}

#[test]
fn gpu_launch_has_no_domain_and_no_size() {
    assert_eq!(gpu_preflight(&args()).ok().unwrap(), None);
    let mut a = args();
    a.size = "docker-small".to_string();
    assert_eq!(
        gpu_preflight(&a).ok().unwrap().as_deref(),
        Some("note: --size does not apply to GPU deploys (the GPU model determines the unit) — ignoring")
    );
    a.domain = Some("x.y".to_string());
    assert_eq!(
        said(gpu_preflight(&a)),
        "--domain is not supported for GPU deploys yet (no FQDN/TLS on GPU endpoints)"
    );
}

#[test]
fn launch_is_asked_for() {
    assert_eq!(
        launch_announce("site", "img", &console()),
        "launching 'site' → img (org: Acme, remote: x)"
    );
    let body = launch_request("site", &args(), &NameMap::new());
    assert_eq!(body.text_at("image"), Some("ghcr.io/acme/site:v1"));
    assert_eq!(body.text_at("process_type"), Some("web"));
    assert!(body.field("env").is_some());
    assert_eq!(launched_id(&json(r#"{"data":{"hex_id":"h"}}"#)).ok().unwrap(), "h");
    assert!(launched_id(&json(r#"{"data":{"id":"h"}}"#)).is_err());
    assert_eq!(
        launched_lines(&console(), "h"),
        vec![
            "deployment h registered — waiting for the lease…",
            "\x1b[2m(safe to close this terminal — the deploy continues server-side; watch it at https://c/deployments/h)\x1b[0m",
        ]
    );
    assert_eq!(domain_request("a.b").text_at("domain"), Some("a.b"));
    assert_eq!(
        domain_lines("a.b", "f.q"),
        vec![
            "domain a.b claimed on-chain",
            "  → point DNS at it: CNAME a.b → f.q (DNS only, no proxy)",
            "  → TLS auto-issues once DNS resolves; if it stalls, `restart` the deployment",
        ]
    );
}

fn lease_poll(answer: Option<&str>) -> (Wait, LeasePoll) {
    let mut wait = Wait::new(POLL_ATTEMPTS);
    let parsed = answer.map(json);
    let r = poll_lease(&mut wait, parsed.as_ref(), 5);
    (wait, r)
}

#[test]
fn lease_is_waited_for() {
    match lease_poll(Some(r#"{"data":{"deployment":{"status":"active","lease_uuid":"l","hourly_cost_upwr":7,"default_domain":"d.x"}}}"#)).1 {
        LeasePoll::Active { line, default_domain } => {
            assert_eq!(line, "lease l active — 7 µPWR/hr");
            assert_eq!(default_domain.as_deref(), Some("d.x"));
        }
        _ => panic!("expected an active lease"),
    }
    for (answer, shown) in [
        (r#"{"data":{"deployment":{"status":"active"}}}"#, "\r\x1b[2K  …active (5s)"),
        (r#"{"data":{"deployment":{"health":"warming"}}}"#, "\r\x1b[2K  …warming (5s)"),
        ("{}", "\r\x1b[2K  …pending (5s)"),
    ] {
        match lease_poll(Some(answer)).1 {
            LeasePoll::Again(line) => assert_eq!(line, shown),
            _ => panic!("expected to wait on"),
        }
    }
}

#[test]
fn failed_deploy_ends_the_wait() {
    match lease_poll(Some(r#"{"data":{"deployment":{"status":"failed"},"history":[{"commit_message":"image not found"}]}}"#)).1 {
        LeasePoll::Failed(f) => assert_eq!(f.message(), "deploy failed: image not found"),
        _ => panic!("expected a failure"),
    }
    match lease_poll(Some(r#"{"data":{"deployment":{"status":"failed"}}}"#)).1 {
        LeasePoll::Failed(f) => {
            assert_eq!(f.message(), "deploy failed: no failure detail recorded")
        }
        _ => panic!("expected a failure"),
    }
}

#[test]
fn silence_does_not_end_the_wait() {
    let mut wait = Wait::new(POLL_ATTEMPTS);
    let mut asked = 0;
    while wait.left > 0 {
        match poll_lease(&mut wait, None, 10) {
            LeasePoll::Again(line) => assert_eq!(
                line,
                format!("\r\x1b[2K  …reconnecting to console (attempt {}, 10s) — deploy continues server-side", wait.failures)
            ),
            _ => panic!("expected to wait on"),
        }
        asked += 1;
    }
    assert_eq!(asked, 36);
    let mut wait = Wait::new(POLL_ATTEMPTS);
    poll_lease(&mut wait, None, 0);
    poll_lease(&mut wait, Some(&Json::Null), 0);
    assert_eq!((wait.left, wait.failures), (34, 0));
}

fn live(wait: &mut Wait, answer: Option<&str>) -> LivePoll {
    let parsed = answer.map(json);
    poll_live(wait, parsed.as_ref(), 5)
}

#[test]
fn lease_has_an_address() {
    let mut wait = Wait::new(0);
    for (answer, fqdn) in [
        (r#"{"data":{"connection":{"fqdn":"a"},"fqdn":"b"}}"#, "a"),
        (r#"{"data":{"fqdn":"b"}}"#, "b"),
    ] {
        match live(&mut wait, Some(answer)) {
            LivePoll::Found(found) => assert_eq!(found, fqdn),
            _ => panic!("expected an address"),
        }
    }
    let late = "timed out waiting for the lease — check `deployments` in the console";
    for answer in [None, Some("null"), Some("{}")] {
        match live(&mut wait, answer) {
            LivePoll::TimedOut(f) => assert_eq!(f.message(), late),
            _ => panic!("expected the time to be up"),
        }
    }
    assert_eq!(lease_timed_out().message(), late);
}

#[test]
fn failed_question_after_the_address_does_not_end_the_wait() {
    let mut wait = Wait::new(POLL_ATTEMPTS);
    let active = json(r#"{"data":{"deployment":{"status":"active","lease_uuid":"l"}}}"#);
    assert!(matches!(poll_lease(&mut wait, Some(&active), 5), LeasePoll::Active { .. }));
    match live(&mut wait, None) {
        LivePoll::Again(line) => assert_eq!(
            line,
            "\r\x1b[2K  …reconnecting to console (attempt 1, 5s) — deploy continues server-side"
        ),
        _ => panic!("expected to ask again"),
    }
    match live(&mut wait, Some("{}")) {
        LivePoll::Again(line) => {
            assert_eq!(line, "\r\x1b[2K  …active — waiting for the address (5s)")
        }
        _ => panic!("expected to ask again"),
    }
    assert_eq!((wait.left, wait.failures), (33, 0));
    match live(&mut wait, Some(r#"{"data":{"fqdn":"h"}}"#)) {
        LivePoll::Found(fqdn) => assert_eq!(fqdn, "h"),
        _ => panic!("expected an address"),
    }
}

#[test]
fn only_the_last_question_ends_the_wait_for_an_address() {
    let mut wait = Wait::new(POLL_ATTEMPTS);
    let mut asked = 0;
    loop {
        asked += 1;
        match live(&mut wait, None) {
            LivePoll::Again(_) => {}
            LivePoll::TimedOut(_) => break,
            LivePoll::Found(_) => panic!("expected no address"),
        }
    }
    assert_eq!(asked, 37);
}

#[test]
fn lease_gets_a_banner() {
    let rule = "\x1b[38;2;88;197;214m  ──────────────────────────────────────────\x1b[0m";
    assert_eq!(
        wait_for_lease_banner(&console(), "h", "f.q", &Some("d.x".to_string())),
        vec![
            "",
            "\x1b[38;2;88;197;214m\x1b[1m  ✓ DEPLOYED\x1b[0m",
            rule,
            "  live     \x1b[38;2;88;197;214m\x1b[1mhttps://d.x/\x1b[0m",
            "  monitor  \x1b[2mhttps://c/deployments/h\x1b[0m",
            "  origin   \x1b[2mf.q\x1b[0m",
            rule,
        ]
    );
    let plain = wait_for_lease_banner(&console(), "h", "f.q", &None);
    assert_eq!(plain.len(), 6);
    assert_eq!(plain[3], "  live     \x1b[38;2;88;197;214m\x1b[1mhttps://f.q/\x1b[0m");
}

#[test]
fn gpu_is_asked_for() {
    assert_eq!(
        gpu_announce("site", "img", "auto", &console()),
        "launching 'site' → img on cheapest available GPU (org: Acme, remote: x)"
    );
    assert_eq!(
        gpu_announce("site", "img", "A100", &console()),
        "launching 'site' → img on GPU 'A100' (org: Acme, remote: x)"
    );
    let body = run_gpu("site", "img", 80, "auto", &NameMap::new());
    assert!(matches!(body.field("gpu"), Some(Json::Null)));
    let body = run_gpu("site", "img", 80, "A100", &NameMap::new());
    assert_eq!(body.text_at("gpu"), Some("A100"));
    assert_eq!(body.unsigned_at("port"), Some(80));
    let (id, gpu) = gpu_accepted(&json(r#"{"data":{"hex_id":"g","gpu_name":"A100"}}"#)).ok().unwrap();
    assert_eq!((id.as_str(), gpu.as_str()), ("g", "A100"));
    assert_eq!(gpu_accepted(&json(r#"{"data":{"hex_id":"g"}}"#)).ok().unwrap().1, "?");
    assert_eq!(said(gpu_accepted(&Json::Null)), "gpu deploy accepted but no id returned");
    assert_eq!(
        gpu_lines(&console(), "g", "A100")[0],
        "gpu deployment g on A100 — billing runs until you un-deploy"
    );
}

fn gpu_poll(answer: Option<&str>) -> GpuPoll {
    let mut wait = Wait::new(GPU_POLL_ATTEMPTS);
    let parsed = answer.map(json);
    poll_gpu(&mut wait, parsed.as_ref(), 5)
}

#[test]
fn gpu_is_waited_for() {
    match gpu_poll(Some(r#"{"data":{"status":"running","node_url":"http://n:1"}}"#)) {
        GpuPoll::Ready(url) => assert_eq!(url, "http://n:1"),
        _ => panic!("expected it to run"),
    }
    for (answer, shown) in [
        (Some(r#"{"data":{"status":"running"}}"#), "\r\x1b[2K  …running — waiting for the public endpoint (5s)"),
        (Some(r#"{"data":{"status":"pulling"}}"#), "\r\x1b[2K  …pulling (5s)"),
        (Some("{}"), "\r\x1b[2K  …starting (5s)"),
        (None, "\r\x1b[2K  …reconnecting to console (attempt 1, 5s) — deploy continues server-side"),
    ] {
        match gpu_poll(answer) {
            GpuPoll::Again(line) => assert_eq!(line, shown),
            _ => panic!("expected to wait on"),
        }
    }
    for (answer, said) in [
        (r#"{"data":{"status":"failed","error":"oom"}}"#, "gpu deploy did not start: oom"),
        (r#"{"data":{"status":"exited"}}"#, "gpu deploy did not start: no failure detail recorded"),
        (r#"{"data":{"status":"cancelled","error":"full"}}"#, "gpu deploy was cancelled — full"),
        (
            r#"{"data":{"status":"cancelled","error":""}}"#,
            "gpu deploy was cancelled by the provider (no reason given) — try another GPU (`aoraki gpus`)",
        ),
    ] {
        match gpu_poll(Some(answer)) {
            GpuPoll::Failed(f) => assert_eq!(f.message(), said),
            _ => panic!("expected a failure"),
        }
    }
    assert_eq!(
        gpu_timed_out("g").message(),
        "timed out waiting for the GPU node — deployment g may still come up; check the console"
    );
}

#[test]
fn gpu_gets_a_banner() {
    let lines = gpu_banner(&console(), "A100", "http://n:1");
    assert_eq!(lines.len(), 9);
    assert_eq!(lines[3], "  gpu      A100");
    assert_eq!(lines[4], "  live     \x1b[38;2;88;197;214m\x1b[1mhttp://n:1/\x1b[0m");
    assert_eq!(lines[5], "  monitor  \x1b[2mhttps://c/compute\x1b[0m");
    assert_eq!(lines[8], "\x1b[2m  billing runs per-hour until you un-deploy this workload\x1b[0m");
}
