//! Consoles on this machine: login, logout, names, keys; and the small
//! commands around them.

use aoraki::cli::{Cli, Command};
use aoraki::commands::login::{
    check_key, console_base, day, intro, logged_in, login_target, remote_name, slugify,
    tokens_page, LoginTarget,
};
use aoraki::commands::logout::{self, Logout};
use aoraki::commands::whoami::{self, Probe};
use aoraki::commands::{connect, dispatch, gpus, rename, Task};
use aoraki::config::{GlobalConfig, RemoteConfig};
use aoraki::failure::Failure;
use aoraki::json::Json;
use aoraki::reports::Identity;

fn remote(api_url: &str, token: Option<&str>) -> RemoteConfig {
    RemoteConfig {
        api_url: api_url.to_string(),
        token: token.map(String::from),
        org: Some("Acme".to_string()),
        org_id: Some("org_1".to_string()),
    }
}

fn global(names: &[&str]) -> GlobalConfig {
    let mut g = GlobalConfig::default();
    for name in names {
        g.remotes.insert(name.to_string(), remote("https://c/api/v1", Some("cli_k")));
    }
    g
}

fn identity() -> Identity {
    Identity {
        user: None,
        org: "Acme".to_string(),
        org_hex: Some("org_1".to_string()),
        token_name: "laptop".to_string(),
        expires_at: "2030-01-02T03:04:05Z".to_string(),
    }
}

fn said<T>(r: Result<T, Failure>) -> String {
    r.err().unwrap().message().to_string()
}

fn some(s: &str) -> Option<String> {
    Some(s.to_string())
}

#[test]
fn org_names_become_clean_slugs() {
    assert_eq!(slugify("SarsonDigital"), "sarsondigital");
    assert_eq!(slugify("Sarson Funds"), "sarson-funds");
    assert_eq!(slugify("  Acme, Inc. "), "acme-inc");
    assert_eq!(slugify("日本"), "default");
}

#[test]
fn slug_of_a_slug_is_the_same() {
    for org in ["", "--A--B--", "x y  z!", "Ünïcode 9", "default", "日本"] {
        let once = slugify(org);
        assert!(!once.is_empty());
        assert!(!once.starts_with('-') && !once.ends_with('-') && !once.contains("--"));
        assert_eq!(slugify(&once), once);
    }
    assert_eq!(slugify("Ünïcode 9"), "n-code-9");
}

#[test]
fn given_url_always_counts() {
    let g = global(&["company"]);
    let t = login_target(&g, some("company"), some("https://t/api/v1/")).ok().unwrap();
    assert_eq!(t.name.as_deref(), Some("company"));
    assert_eq!(t.api_url, "https://t/api/v1");
    assert!(t.is_existing && !t.defaulted);
    let t = login_target(&g, None, some("https://t")).ok().unwrap();
    assert!(t.name.is_none() && !t.is_existing && !t.defaulted);
}

#[test]
fn name_keeps_its_url_or_means_the_customer_console() {
    let g = global(&["company"]);
    let t = login_target(&g, some("company"), None).ok().unwrap();
    assert_eq!(t.api_url, "https://c/api/v1");
    assert!(t.is_existing && !t.defaulted);
    let t = login_target(&g, some("new"), None).ok().unwrap();
    assert_eq!(t.api_url, "https://aoraki.cloud/api/v1");
    assert!(!t.is_existing && t.defaulted);
}

#[test]
fn bare_login_is_a_second_or_a_first_one() {
    let t = login_target(&global(&[]), None, None).ok().unwrap();
    assert!(t.name.is_none() && t.defaulted);
    assert_eq!(t.api_url, "https://aoraki.cloud/api/v1");
    let t = login_target(&global(&["only"]), None, None).ok().unwrap();
    assert_eq!(t.name.as_deref(), Some("only"));
    assert!(t.is_existing);
    assert!(said(login_target(&global(&["a", "b"]), None, None)).starts_with("several remotes"));
}

#[test]
fn origin_of_a_console_is_found() {
    assert_eq!(console_base("https://aoraki.cloud/api/v1"), "https://aoraki.cloud");
    assert_eq!(console_base("https://aoraki.cloud"), "https://aoraki.cloud");
    assert_eq!(console_base("aoraki.cloud//"), "aoraki.cloud");
    assert_eq!(console_base("http://ü.x/p"), "http://ü.x");
}

#[test]
fn login_tells_where_to_get_a_key() {
    let mut t = login_target(&global(&[]), None, None).ok().unwrap();
    assert_eq!(
        intro(&t),
        vec![
            "Log in to https://aoraki.cloud/api/v1 (remote will be named after your org)",
            "  (mainnet console — use --url for testnet or another Aoraki)",
            "Create a CLI key in the console: https://aoraki.cloud/cli",
        ]
    );
    assert_eq!(tokens_page(&t), "https://aoraki.cloud/cli");
    t = LoginTarget {
        name: some("x"),
        api_url: "https://t/api/v1".to_string(),
        is_existing: true,
        defaulted: false,
    };
    assert_eq!(
        intro(&t),
        vec!["Log in to 'x' (https://t/api/v1)", "Create a CLI key in the console: https://t/cli"]
    );
}

#[test]
fn key_must_look_like_one() {
    assert_eq!(check_key(" cli_abc\n").ok().unwrap(), "cli_abc");
    assert_eq!(said(check_key(" \n")), "no key entered");
    assert_eq!(
        said(check_key("sk_abc")),
        "that doesn't look like a CLI key (they start with cli_)"
    );
}

#[test]
fn login_takes_over_no_other_console() {
    let g = global(&["acme"]);
    let at = |url: &str| LoginTarget {
        name: None,
        api_url: url.to_string(),
        is_existing: false,
        defaulted: false,
    };
    assert_eq!(
        said(remote_name(&g, &at("https://t"), "Acme")),
        "a remote named 'acme' already exists for https://c/api/v1 — run `aoraki login <name> --url https://t` to pick a name"
    );
    assert_eq!(remote_name(&g, &at("https://c/api/v1"), "Acme").ok().unwrap(), "acme");
    assert_eq!(remote_name(&g, &at("https://t"), "Other Org").ok().unwrap(), "other-org");
    let named = LoginTarget {
        name: some("mine"),
        api_url: "https://t".to_string(),
        is_existing: false,
        defaulted: false,
    };
    assert_eq!(remote_name(&g, &named, "Acme").ok().unwrap(), "mine");
}

#[test]
fn login_is_told() {
    assert_eq!(day("2030-01-02T03:04:05Z"), "2030-01-02");
    assert_eq!(
        logged_in("acme", &identity()),
        vec![
            "✓ logged in to 'acme' as you (org: Acme, key: laptop)",
            "  valid until 2030-01-02 if unused — every CLI call extends it 90 days",
        ]
    );
}

#[test]
fn logout_forgets_a_key_that_is_there() {
    match logout::plan(&global(&["x"]), None).ok().unwrap() {
        Logout::Forget { name, api_url } => {
            assert_eq!((name.as_str(), api_url.as_str()), ("x", "https://c/api/v1"))
        }
        Logout::Nothing(line) => panic!("{line}"),
    }
    let mut g = GlobalConfig::default();
    g.remotes.insert("x".to_string(), remote("https://c", None));
    match logout::plan(&g, Some("x")).ok().unwrap() {
        Logout::Nothing(line) => assert_eq!(line, "'x' has no stored token — nothing to do"),
        _ => panic!("expected nothing to do"),
    }
    assert!(logout::plan(&global(&[]), None).is_err());
    assert_eq!(
        logout::logged_out("x"),
        vec![
            "✓ logged out of 'x' — token removed from config.toml",
            "  (revoke it in the console too if this machine is no longer trusted)",
        ]
    );
}

#[test]
fn rename_needs_an_old_and_a_new_name() {
    let mut g = global(&["a", "b"]);
    g.defaults.remote = some("a");
    assert_eq!(said(rename::check(&g, "a", "a")), "'a' and 'a' are the same name");
    assert_eq!(said(rename::check(&g, "z", "y")), "unknown remote 'z' (configured: a, b)");
    assert_eq!(said(rename::check(&g, "a", "b")), "a remote named 'b' already exists");
    assert_eq!(rename::check(&g, "a", "c").ok(), Some(true));
    assert_eq!(rename::check(&g, "b", "c").ok(), Some(false));
}

#[test]
fn rename_is_told() {
    assert_eq!(
        rename::renamed("a", "b", true),
        vec!["✓ remote 'a' is now 'b'", "  [defaults].remote updated to 'b'"]
    );
    assert_eq!(rename::renamed("a", "b", false), vec!["✓ remote 'a' is now 'b'"]);
    assert_eq!(
        rename::pins_line("aoraki.toml", "a", 0),
        "  aoraki.toml has no remote = \"a\" pins — nothing to update there"
    );
    assert_eq!(
        rename::pins_line("aoraki.toml", "a", 1),
        "  updated 1 pin in aoraki.toml — commit that change"
    );
    assert_eq!(
        rename::pins_line("aoraki.toml", "a", 2),
        "  updated 2 pins in aoraki.toml — commit that change"
    );
    assert_eq!(
        rename::other_repos_line("a"),
        "  other repos: grep for 'remote = \"a\"' in their aoraki.toml / manifest.toml"
    );
}

#[test]
fn default_console_is_set() {
    let g = global(&["a", "b"]);
    assert_eq!(whoami::set_default(&g, "b").ok().unwrap(), "✓ default remote is now 'b'");
    assert_eq!(said(whoami::set_default(&g, "z")), "unknown remote 'z' (configured: a, b)");
    assert_eq!(whoami::no_remotes(), "no remotes configured — run `aoraki login`");
}

#[test]
fn consoles_are_listed() {
    let g = global(&["b", "a"]);
    assert_eq!(whoami::selected(&g, None).ok().unwrap(), vec!["a", "b"]);
    assert_eq!(whoami::selected(&g, Some("b")).ok().unwrap(), vec!["b"]);
    assert!(whoami::selected(&g, Some("z")).is_err());
    let found = remote("https://c", Some("k"));
    assert_eq!(
        whoami::row("a", &found, true, &Probe::Known(identity())),
        "→ a: https://c — you (org: Acme, key: laptop, extended to 2030-01-02)"
    );
    assert_eq!(
        whoami::row("a", &found, false, &Probe::NotLoggedIn),
        "  a: https://c — not logged in"
    );
    assert_eq!(
        whoami::row("a", &found, false, &Probe::Problem("token rejected".to_string())),
        "  a: https://c — ✗ token rejected"
    );
    assert!(whoami::finish(&vec![]).is_ok());
    assert!(whoami::finish(&vec![Probe::NotLoggedIn]).is_ok());
    let probes = vec![Probe::NotLoggedIn, Probe::Problem("HTTP 401".to_string())];
    assert_eq!(said(whoami::finish(&probes)), "some remotes failed — log in again where needed");
}

#[test]
fn stored_org_is_kept_up_to_date() {
    assert!(!whoami::needs_update(&remote("u", None), &identity()));
    let mut other = remote("u", None);
    other.org = None;
    assert!(whoami::needs_update(&other, &identity()));
    let mut other = remote("u", None);
    other.org_id = None;
    assert!(whoami::needs_update(&other, &identity()));
    let mut id = identity();
    id.org_hex = None;
    assert!(!whoami::needs_update(&other, &id));
}

#[test]
fn missing_default_is_hinted_at() {
    let hint = "\nno default set — `aoraki whoami --default <remote>` to pick one";
    let mut g = global(&["a", "b"]);
    assert_eq!(whoami::no_default_hint(&g, false).as_deref(), Some(hint));
    assert_eq!(whoami::no_default_hint(&g, true), None);
    assert_eq!(whoami::no_default_hint(&global(&["a"]), false), None);
    g.defaults.remote = some("a");
    assert_eq!(whoami::no_default_hint(&g, false), None);
}

#[test]
fn github_is_connected_in_the_browser() {
    assert!(connect::check_provider("github").is_ok());
    assert_eq!(
        said(connect::check_provider("gitlab")),
        "unknown provider 'gitlab' — only 'github' is supported"
    );
    let two = Json::parse(r#"{"data":[{"account_login":"acme"},{}]}"#).unwrap();
    assert!(matches!(connect::connect_request(), Json::Object(fields) if fields.is_empty()));
    assert_eq!(connect::installations(&two), 2);
    assert_eq!(connect::installations(&Json::Null), 0);
    assert_eq!(connect::connected(2, &two), None);
    assert_eq!(
        connect::connected(1, &two).as_deref(),
        Some("✓ GitHub connected (acme) — `aoraki deploy` is ready")
    );
    let url = Json::parse(r#"{"data":{"install_url":"https://g"}}"#).unwrap();
    assert_eq!(connect::install_url(&url).ok().unwrap(), "https://g");
    for text in ["{}", r#"{"data":{"install_url":""}}"#] {
        assert_eq!(
            said(connect::install_url(&Json::parse(text).unwrap())),
            "gateway did not return an install URL"
        );
    }
    assert_eq!(
        connect::opening("https://g"),
        vec!["→ opening GitHub to install the Manifest app:", "  https://g"]
    );
    assert_eq!(
        connect::waiting(),
        "→ pick the repo(s) to grant read access, then come back here…"
    );
    assert!(connect::connect_step(0).is_ok());
    assert!(connect::connect_step(299).is_ok());
    assert_eq!(
        said(connect::connect_step(300)),
        "timed out waiting for the install (5 min) — finish it in the browser and re-run"
    );
}

#[test]
fn gpus_are_listed() {
    assert_eq!(gpus::header()[0], "GPU                            VRAM      $/hr   avail");
    assert_eq!(gpus::header()[1].chars().count(), 54);
    let free =
        Json::parse(r#"{"name":"A100","vram_gb":80,"available_count":2,"is_available":true}"#)
            .unwrap();
    assert_eq!(
        gpus::row(&free, &some("1.50")),
        "A100                            80G      1.50       2"
    );
    assert_eq!(
        gpus::row(&Json::parse("{}").unwrap(), &None),
        "\x1b[2m?                                 —         —       0\x1b[0m"
    );
    let off = Json::parse(r#"{"name":"A100","available_count":2}"#).unwrap();
    assert!(gpus::row(&off, &None).starts_with("\x1b[2mA100"));
    assert_eq!(gpus::footer().len(), 2);
    assert!(gpus::no_gpus().starts_with("no GPUs in the catalog yet"));
}

#[test]
fn gpu_workloads_are_looked_after() {
    let logs = Json::parse(r#"{"data":{"logs":"hello"}}"#).unwrap();
    assert_eq!(gpus::logs(&logs), "hello");
    assert_eq!(
        gpus::logs(&Json::Null),
        "no logs available yet — the workload may still be starting"
    );
    assert_eq!(gpus::rm("g"), "✓ un-deployed g — billing stopped");
}

#[test]
fn command_line_becomes_a_task() {
    let logs = Command::Logs {
        env: some("workers"),
        target: None,
        app: None,
        follow: true,
        since: some("1h"),
        previous: false,
        lines: 50,
    };
    match dispatch(Cli { command: logs }) {
        Task::Logs { env, target, follow, since, previous, lines } => {
            assert_eq!((env, target), (None, some("workers")));
            assert!(follow && !previous);
            assert_eq!((since, lines), (some("1h"), 50));
        }
        _ => panic!("expected logs"),
    }
    let deploy = Command::Deploy { env: some("production"), git_ref: some("abc123") };
    match dispatch(Cli { command: deploy }) {
        Task::Deploy { env, git_ref, gpu } => {
            assert_eq!((env, git_ref, gpu), (some("production"), some("abc123"), None))
        }
        _ => panic!("expected a deploy"),
    }
    let launch = Command::Launch {
        image: "n:1".to_string(),
        port: 80,
        name: None,
        env: vec!["A=1".to_string()],
        size: "s".to_string(),
        domain: some("d"),
        gpu: some("auto"),
        remote: some("r"),
    };
    match dispatch(Cli { command: launch }) {
        Task::Launch(args) => {
            assert_eq!((args.image.as_str(), args.port, args.size.as_str()), ("n:1", 80, "s"));
            assert_eq!(args.env, vec!["A=1"]);
            assert_eq!((args.domain, args.gpu, args.remote), (some("d"), some("auto"), some("r")));
        }
        _ => panic!("expected a launch"),
    }
    let rename = Command::Rename { old_name: "a".to_string(), new_name: "b".to_string() };
    match dispatch(Cli { command: rename }) {
        Task::Rename { old_name, new_name } => assert_eq!((old_name.as_str(), new_name.as_str()), ("a", "b")),
        _ => panic!("expected a rename"),
    }
    let run = Command::Run { env: some("staging"), cmd: vec!["bash".to_string()] };
    match dispatch(Cli { command: run }) {
        Task::Run { env, cmd } => assert_eq!((env, cmd), (some("staging"), vec!["bash".to_string()])),
        _ => panic!("expected a run"),
    }
    assert!(matches!(dispatch(Cli { command: Command::Link }), Task::Link));
}
