//! The gateway, the console, and what is reported to it.

use aoraki::config::{GatewayConfig, GlobalConfig, RemoteConfig};
use aoraki::console::{self, Access, Console, Endpoint};
use aoraki::failure::Failure;
use aoraki::gateway::{self, Gateway, StreamStep};
use aoraki::http::{bearer, Method, Reply};
use aoraki::json::Json;
use aoraki::reports::{
    after_post, flush_step, me, pending_dir, pending_name, post, report, started_text, whoami,
    DeployEvent, Flush, Identity, IdentityReply, Kept, Posted, ReportPlan,
};

fn remote(api_url: &str, token: Option<&str>) -> RemoteConfig {
    RemoteConfig {
        api_url: api_url.to_string(),
        token: token.map(String::from),
        org: None,
        org_id: None,
    }
}

fn global(remotes: &[(&str, RemoteConfig)]) -> GlobalConfig {
    let mut g = GlobalConfig::default();
    for (name, cfg) in remotes {
        let copy = RemoteConfig {
            api_url: cfg.api_url.clone(),
            token: cfg.token.clone(),
            org: cfg.org.clone(),
            org_id: cfg.org_id.clone(),
        };
        g.remotes.insert(name.to_string(), copy);
    }
    g
}

fn json(text: &str) -> Json {
    Json::parse(text).unwrap()
}

fn said<T>(r: Result<T, Failure>) -> String {
    r.err().unwrap().message().to_string()
}

fn refused(code: u16, body: &str) -> Reply {
    Reply::Refused { code, body: json(body), text: "status code".to_string() }
}

#[test]
fn gateway_needs_its_section_and_a_token() {
    let mut g = GlobalConfig::default();
    assert_eq!(
        said(Gateway::from_global(&g, Some("t"))),
        "gateway transport needs [gateway] in ~/.config/aoraki/config.toml (api_url + token)"
    );
    g.gateway = Some(GatewayConfig { api_url: "https://gw//".to_string(), token: None });
    assert_eq!(
        said(Gateway::from_global(&g, Some(""))),
        "no gateway token — set [gateway].token or the MANIFEST_TOKEN env var"
    );
    let gw = Gateway::from_global(&g, Some("env")).ok().unwrap();
    let ask = gw.get("/deploys");
    assert_eq!(ask.url, "https://gw/deploys");
    assert_eq!(ask.authorization, "Bearer env");
    assert!(ask.method == Method::Get && ask.body.is_none());
    let ask = gw.post(gateway::DEPLOYS, json(r#"{"a":"b"}"#));
    assert_eq!(ask.url, "https://gw/deploys");
    assert!(ask.method == Method::Post);
    assert_eq!(ask.body.unwrap().text_at("a"), Some("b"));
    assert_eq!(gw.events("d1").url, "https://gw/deploys/d1/events");
    g.gateway = Some(GatewayConfig {
        api_url: "https://gw".to_string(),
        token: Some("file".to_string()),
    });
    assert_eq!(Gateway::from_global(&g, None).ok().unwrap().token, "file");
    assert_eq!(Gateway::from_global(&g, Some("env")).ok().unwrap().token, "env");
}

#[test]
fn gateway_answers_are_read() {
    let body = Gateway::parse(Reply::Body(json(r#"{"a":"b"}"#))).ok().unwrap();
    assert_eq!(body.text_at("a"), Some("b"));
    assert_eq!(
        said(Gateway::parse(refused(400, r#"{"error":{"message":"no such commit"}}"#))),
        "gateway returned 400: no such commit"
    );
    assert_eq!(
        said(Gateway::parse(refused(502, "null"))),
        "gateway returned 502: request failed"
    );
    assert_eq!(
        said(Gateway::parse(Reply::Unreachable("dns".to_string()))),
        "gateway unreachable: dns"
    );
    assert_eq!(said(Gateway::parse(Reply::Unreadable("eof".to_string()))), "eof");
}

fn shown(step: StreamStep) -> (&'static str, String, String) {
    match step {
        StreamStep::Skip => ("skip", String::new(), String::new()),
        StreamStep::Print(line) => ("print", String::new(), line),
        StreamStep::End { status, line } => ("end", status, line),
    }
}

fn heard(line: &str) -> (&'static str, String, String) {
    shown(Gateway::stream_deploy_events(line))
}

#[test]
fn stream_of_a_deploy_is_followed() {
    for line in [
        "",
        ": keep-alive",
        "event: log",
        "data:{\"kind\":\"log\",\"line\":\"x\"}",
        "data: nonsense",
        "data: {\"kind\":\"log\"}",
        "data: {\"kind\":\"other\",\"line\":\"x\"}",
        "data: []",
    ] {
        assert_eq!(heard(line).0, "skip", "{line}");
    }
    assert_eq!(heard("data: {\"kind\":\"log\",\"line\":\"step 1\"}").2, "step 1");
    assert_eq!(
        heard("data: {\"kind\":\"status\",\"status\":\"succeeded\",\"duration_secs\":12}"),
        ("end", "succeeded".to_string(), "✓ deploy succeeded in 12s".to_string())
    );
}

#[test]
fn status_that_is_not_stated_is_a_failure() {
    assert_eq!(
        heard("data: {\"kind\":\"status\"}"),
        ("end", "failed".to_string(), "✗ deploy failed in 0s".to_string())
    );
    let event = json(r#"{"kind":"status","status":"lost","duration_secs":-1}"#);
    assert_eq!(
        shown(gateway::follow_event(&event)),
        ("end", "lost".to_string(), "✗ deploy lost in -1s".to_string())
    );
    assert_eq!(
        gateway::stream_cut_short().message(),
        "event stream ended without a terminal status — check `aoraki deploys`"
    );
}

#[test]
fn console_is_opened_with_its_key() {
    let g = global(&[("x", remote("https://c/api/v1/", Some("cli_k")))]);
    let access = Access::open(&g, None).ok().unwrap();
    let ask = access.me();
    assert_eq!(ask.url, "https://c/api/v1/cli/me");
    assert_eq!(ask.authorization, "Bearer cli_k");
    assert!(ask.method == Method::Get && ask.body.is_none());
    assert_eq!(access.remote_name, "x");
    let g = global(&[("x", remote("https://c", None))]);
    assert_eq!(
        said(Access::open(&g, Some("x"))),
        "remote 'x' has no token — run `aoraki login x`"
    );
    assert!(said(Access::open(&g, Some("nope"))).contains("'nope' matches no remote name"));
    assert_eq!(console::no_token("y"), "remote 'y' has no token — run `aoraki login y`");
    assert_eq!(bearer("t"), "Bearer t");
}

fn access() -> Access {
    Access {
        api: "https://c/api/v1".to_string(),
        token: "cli_k".to_string(),
        remote_name: "x".to_string(),
    }
}

#[test]
fn console_knows_its_org() {
    let me = json(r#"{"data":{"org_hex":"org_1","org":"Acme","registry":"reg.x"}}"#);
    let c = Console::connect(access(), &me).ok().unwrap();
    assert_eq!((c.org_hex.as_str(), c.org_name.as_str()), ("org_1", "Acme"));
    assert_eq!(c.registry.as_deref(), Some("reg.x"));
    assert_eq!(c.remote_name, "x");
    assert_eq!(c.console_base(), "https://c");
    let ask = c.get("/a");
    assert_eq!((ask.url.as_str(), ask.authorization.as_str()), ("https://c/api/v1/a", "Bearer cli_k"));
    assert!(ask.method == Method::Get && ask.body.is_none());
    let ask = c.delete(&c.path(Endpoint::GpuDeploy("g")));
    assert_eq!(ask.url, "https://c/api/v1/orgs/org_1/gpu-deploys/g");
    assert!(ask.method == Method::Delete && ask.body.is_none());
    let ask = c.post(&c.path(Endpoint::Deploys), json(r#"{"a":"b"}"#));
    assert_eq!(ask.url, "https://c/api/v1/orgs/org_1/deploys");
    assert!(ask.method == Method::Post);
    assert_eq!(ask.body.unwrap().text_at("a"), Some("b"));
    let bare = Console::connect(access(), &json(r#"{"data":{"org_hex":"org_1"}}"#)).ok().unwrap();
    assert_eq!(bare.org_name, "org_1");
    assert!(bare.registry.is_none());
    assert_eq!(
        said(Console::connect(access(), &json(r#"{"data":{}}"#))),
        "console did not return org_hex — is it up to date?"
    );
}

#[test]
fn console_keeps_things_under_paths() {
    let c = Console::connect(access(), &json(r#"{"data":{"org_hex":"o"}}"#)).ok().unwrap();
    for (endpoint, path) in [
        (Endpoint::Deploys, "/orgs/o/deploys"),
        (Endpoint::Deployments, "/orgs/o/deployments"),
        (Endpoint::Deployment("d"), "/orgs/o/deployments/d"),
        (Endpoint::Live("d"), "/orgs/o/deployments/d/live"),
        (Endpoint::Domain("d"), "/orgs/o/deployments/d/domain"),
        (Endpoint::Redeploy("d"), "/orgs/o/deployments/d/redeploy"),
        (Endpoint::GpuCatalog, "/orgs/o/gpu-catalog"),
        (Endpoint::GpuDeploys, "/orgs/o/gpu-deploys"),
        (Endpoint::GpuDeploy("g"), "/orgs/o/gpu-deploys/g"),
        (Endpoint::GpuLogs("g"), "/orgs/o/gpu-deploys/g/logs"),
    ] {
        assert_eq!(c.path(endpoint), path);
    }
}

#[test]
fn console_answers_are_read() {
    assert_eq!(
        console::parse(Reply::Body(json("{\"a\":\"b\"}"))).ok().unwrap().text_at("a"),
        Some("b")
    );
    assert_eq!(said(console::parse(refused(422, r#"{"error":{"message":"no"}}"#))), "no");
    assert_eq!(said(console::parse(refused(500, "{}"))), "HTTP 500");
    assert_eq!(
        said(console::parse(Reply::Unreachable("x".to_string()))),
        "request failed: x"
    );
    assert_eq!(said(console::parse(Reply::Unreadable("y".to_string()))), "y");
}

#[test]
fn moments_are_written_in_utc() {
    assert_eq!(started_text(0).as_deref(), Some("1970-01-01T00:00:00Z"));
    assert_eq!(started_text(1735689599).as_deref(), Some("2024-12-31T23:59:59Z"));
    assert_eq!(started_text(-1).as_deref(), Some("1969-12-31T23:59:59Z"));
    assert!(started_text(i64::MAX).is_none());
}

#[test]
fn event_goes_to_the_chosen_console() {
    let g = global(&[
        ("a", remote("https://a", Some("k1"))),
        ("b", remote("https://b/", Some("k2"))),
    ]);
    match report(&g, Some("b")) {
        ReportPlan::Send { name, api_url, token } => {
            assert_eq!((name.as_str(), api_url.as_str(), token.as_str()), ("b", "https://b/", "k2"))
        }
        ReportPlan::Note(note) => panic!("{note}"),
    }
    match report(&g, None) {
        ReportPlan::Note(note) => assert_eq!(
            note,
            "note: deploy event not reported — several remotes configured (a, b) — name one, or set [defaults].remote"
        ),
        _ => panic!("expected a note"),
    }
    match report(&global(&[("a", remote("https://a", None))]), None) {
        ReportPlan::Note(note) => {
            assert_eq!(note, "note: remote 'a' has no token — run `aoraki login a`")
        }
        _ => panic!("expected a note"),
    }
}

#[test]
fn events_have_their_addresses() {
    let event = DeployEvent {
        app: "demo".to_string(),
        environment: "production".to_string(),
        box_id: "core2".to_string(),
        namespace: "ns".to_string(),
        build_ref: "0123456".to_string(),
        ref_name: "prod".to_string(),
        status: "failed".to_string(),
        started_at: "t".to_string(),
        duration_secs: 18446744073709551615,
        actor: "me@x".to_string(),
        cli_version: "0.1.0".to_string(),
    };
    let ask = post("https://a/api/v1//", "k", &event);
    assert_eq!(ask.url, "https://a/api/v1/cli/deploys");
    assert_eq!(ask.authorization, "Bearer k");
    assert!(ask.method == Method::Post);
    let body = ask.body.unwrap();
    for (key, value) in [
        ("app", "demo"),
        ("environment", "production"),
        ("box_id", "core2"),
        ("namespace", "ns"),
        ("build_ref", "0123456"),
        ("ref_name", "prod"),
        ("status", "failed"),
        ("started_at", "t"),
        ("actor", "me@x"),
        ("cli_version", "0.1.0"),
    ] {
        assert_eq!(body.text_at(key), Some(value));
    }
    assert_eq!(body.unsigned_at("duration_secs"), Some(u64::MAX));
    assert_eq!(body.signed_at("duration_secs"), None);
    let ask = me("https://a/api/v1/", "k");
    assert_eq!(ask.url, "https://a/api/v1/cli/me");
    assert!(ask.method == Method::Get && ask.body.is_none());
    match after_post("a", None) {
        Posted::Say(line) => assert_eq!(line, "→ deploy event reported to aoraki (a)"),
        Posted::Keep(_) => panic!("expected it to have arrived"),
    }
    match after_post("a", Some("timeout")) {
        Posted::Keep(line) => assert_eq!(
            line,
            "warning: could not report deploy to 'a' (timeout); queued for retry"
        ),
        Posted::Say(_) => panic!("expected it to be kept"),
    }
}

#[test]
fn kept_events_stay_with_their_console() {
    assert_eq!(pending_dir("/c", "a"), "/c/pending-events/a");
    assert_ne!(pending_dir("/c", "a"), pending_dir("/c", "b"));
    assert_eq!(pending_dir("/c", "/x"), "/x");
    assert_eq!(pending_name(1700000000123, "0123456"), "1700000000123-0123456.json");
    assert_eq!(pending_name(-5, "x"), "-5-x.json");
    assert!(pending_name(1700000000123, "z") < pending_name(1700000000124, "a"));
}

#[test]
fn kept_event_goes_only_once_it_was_sent() {
    assert!(flush_step(Kept::Event, true) == Flush::Remove);
    assert!(flush_step(Kept::Event, false) == Flush::Stop);
    assert!(flush_step(Kept::Garbled, false) == Flush::Remove);
    assert!(flush_step(Kept::Unreadable, false) == Flush::Leave);
}

/// Reports an event to a console that is open or not, with a queue in place of
/// the directory.
fn reported(queue: &mut Vec<(Kept, &'static str)>, event: &'static str, open: bool) -> Vec<&'static str> {
    let mut arrived = Vec::new();
    let mut left = Vec::new();
    let mut stopped = false;
    for (kept, name) in queue.drain(..) {
        let step = if stopped { Flush::Leave } else { flush_step(kept, open) };
        if step == Flush::Remove {
            if kept == Kept::Event {
                arrived.push(name);
            }
        } else {
            left.push((kept, name));
        }
        stopped = stopped || step == Flush::Stop;
    }
    *queue = left;
    let problem = if open { None } else { Some("HTTP 503") };
    match after_post("prod", problem) {
        Posted::Say(_) => arrived.push(event),
        Posted::Keep(_) => queue.push((Kept::Event, event)),
    }
    arrived
}

#[test]
fn refused_event_arrives_with_the_next_one() {
    let mut queue = Vec::new();
    assert_eq!(reported(&mut queue, "e1", false), Vec::<&str>::new());
    assert_eq!(queue.len(), 1);
    assert_eq!(reported(&mut queue, "e2", true), vec!["e1", "e2"]);
    assert!(queue.is_empty());
}

#[test]
fn events_arrive_once_and_in_order() {
    let mut queue = vec![(Kept::Unreadable, "x"), (Kept::Event, "e0"), (Kept::Garbled, "y")];
    assert!(reported(&mut queue, "e1", false).is_empty());
    assert_eq!(queue.len(), 4);
    assert_eq!(reported(&mut queue, "e2", true), vec!["e0", "e1", "e2"]);
    assert_eq!(queue.len(), 1);
    assert_eq!(reported(&mut queue, "e3", true), vec!["e3"]);
}

#[test]
fn keys_are_told_apart() {
    let id = Identity {
        user: Some("me".to_string()),
        org: "Acme".to_string(),
        org_hex: None,
        token_name: "laptop".to_string(),
        expires_at: "2030-01-01".to_string(),
    };
    assert_eq!(whoami(IdentityReply::Known(id)).ok().unwrap().org, "Acme");
    for code in [401, 403] {
        assert_eq!(
            said(whoami(IdentityReply::Refused { code, text: "no".to_string() })),
            "token rejected — it may be revoked or expired (90 days unused)"
        );
    }
    assert_eq!(
        said(whoami(IdentityReply::Refused { code: 500, text: "status 500".to_string() })),
        "could not reach aoraki: status 500"
    );
    assert_eq!(
        said(whoami(IdentityReply::Unreachable("dns".to_string()))),
        "could not reach aoraki: dns"
    );
    assert_eq!(said(whoami(IdentityReply::Unreadable("missing field".to_string()))), "missing field");
}
