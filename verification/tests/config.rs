//! Which environment and which console a command acts on.

use aoraki::config::{
    accept_repo_config, config_home, find_repo_config, join_path, nearest, normalize,
    resolve_env_name, resolve_target, AppSection, ConfigFile, Defaults, EnvConfig, GatewayConfig,
    GlobalConfig, Level, RemoteConfig, RepoConfig, ServerConfig,
};
use aoraki::failure::Failure;
use aoraki::names::NameMap;

fn text(t: &toml::Table, key: &str) -> Option<String> {
    t.get(key).and_then(|v| v.as_str()).map(String::from)
}

fn environment(t: &toml::Table) -> EnvConfig {
    EnvConfig {
        server: text(t, "server").expect("server"),
        branch: text(t, "branch").expect("branch"),
        namespace: text(t, "namespace").expect("namespace"),
        deploy_script: text(t, "deploy_script").expect("deploy_script"),
        url: text(t, "url"),
        workdir: text(t, "workdir"),
        confirm: t.get("confirm").and_then(|v| v.as_bool()).unwrap_or(false),
        transport: text(t, "transport"),
        remote: text(t, "remote"),
        port: t.get("port").and_then(|v| v.as_integer()).map(|n| n as u16),
        size: text(t, "size"),
        dockerfile: text(t, "dockerfile"),
        process_type: text(t, "process_type"),
        gpu: text(t, "gpu"),
        aliases: t
            .get("aliases")
            .and_then(|v| v.as_array())
            .map(|a| a.iter().map(|v| v.as_str().expect("alias").to_string()).collect())
            .unwrap_or_default(),
    }
}

fn repo(source: &str) -> RepoConfig {
    let t: toml::Table = toml::from_str(source).expect("valid repo config");
    let app = t["app"].as_table().expect("app");
    let mut environments = NameMap::new();
    for (name, env) in t["environments"].as_table().expect("environments") {
        environments.insert(name.clone(), environment(env.as_table().expect("environment")));
    }
    RepoConfig {
        app: AppSection {
            name: text(app, "name").expect("name"),
            org: text(app, "org"),
            repo: text(app, "repo"),
            default_env: text(app, "default_env"),
        },
        environments,
    }
}

fn global(source: &str) -> GlobalConfig {
    let t: toml::Table = toml::from_str(source).expect("valid global config");
    let mut g = GlobalConfig::default();
    if let Some(remotes) = t.get("remotes").and_then(|v| v.as_table()) {
        for (name, remote) in remotes {
            let remote = remote.as_table().expect("remote");
            g.remotes.insert(
                name.clone(),
                RemoteConfig {
                    api_url: text(remote, "api_url").expect("api_url"),
                    token: text(remote, "token"),
                    org: text(remote, "org"),
                    org_id: text(remote, "org_id"),
                },
            );
        }
    }
    if let Some(servers) = t.get("servers").and_then(|v| v.as_table()) {
        for (name, server) in servers {
            let server = server.as_table().expect("server");
            g.servers.insert(
                name.clone(),
                ServerConfig {
                    host: text(server, "host").expect("host"),
                    user: text(server, "user"),
                },
            );
        }
    }
    if let Some(defaults) = t.get("defaults").and_then(|v| v.as_table()) {
        g.defaults = Defaults {
            environment: text(defaults, "environment"),
            remote: text(defaults, "remote"),
        };
    }
    g
}

const MINIMAL_ENV: &str = r#"
        [app]
        name = "demo"
        [environments.production]
        server = "core2"
        branch = "prod"
        namespace = "demo"
        deploy_script = "k8s/deploy.sh"
    "#;
const TWO_ENVS: &str = r#"
        [app]
        name = "demo"
        [environments.staging]
        server = "lab"
        branch = "qa"
        namespace = "demo-stg"
        deploy_script = "k8s/deploy.sh"
        aliases = ["testnet", "stg"]
        [environments.production]
        server = "core2"
        branch = "prod"
        namespace = "demo"
        deploy_script = "k8s/deploy.sh"
    "#;
const REMOTES: &str = r#"
        [remotes.company]
        api_url = "https://aoraki.cloud/api/v1"
        org = "Manifest"
        org_id = "org_aaaaaaaaaa"
        [remotes.personal]
        api_url = "https://testnet.aoraki.cloud/api/v1"
        org = "Sarson Funds"
        org_id = "org_bbbbbbbbbb"
    "#;

fn resolve(arg: Option<&str>, branch: Option<&str>, source: &str) -> Result<String, Failure> {
    resolve_env_name(arg.map(String::from), branch, &repo(source), &GlobalConfig::default())
}

fn said<T>(r: Result<T, Failure>) -> String {
    r.err().unwrap().message().to_string()
}

// ── environments as they are read ─────────────────────────────────────

#[test]
fn minimal_repo_config_parses_with_defaults() {
    let cfg = repo(MINIMAL_ENV);
    let env = cfg.environments.get("production").unwrap();
    assert_eq!(cfg.app.name, "demo");
    assert!(!env.confirm, "confirm defaults to false");
    assert!(env.aliases.is_empty(), "aliases default to empty");
    assert!(env.workdir.is_none());
    assert!(!env.is_gateway(), "no transport = direct");
}

#[test]
fn gateway_transport_is_detected() {
    let cfg = repo(&MINIMAL_ENV.replace(
        "deploy_script = \"k8s/deploy.sh\"",
        "deploy_script = \"k8s/deploy.sh\"\ntransport = \"gateway\"",
    ));
    assert!(cfg.environments.get("production").unwrap().is_gateway());
}

#[test]
fn explicit_direct_transport_is_not_gateway() {
    let cfg = repo(&MINIMAL_ENV.replace(
        "deploy_script = \"k8s/deploy.sh\"",
        "deploy_script = \"k8s/deploy.sh\"\ntransport = \"direct\"",
    ));
    assert!(!cfg.environments.get("production").unwrap().is_gateway());
}

#[test]
fn lease_transport_is_detected() {
    let cfg = repo(&MINIMAL_ENV.replace(
        "deploy_script = \"k8s/deploy.sh\"",
        "deploy_script = \"k8s/deploy.sh\"\ntransport = \"lease\"",
    ));
    let env = cfg.environments.get("production").unwrap();
    assert!(env.is_lease());
    assert!(!env.is_gateway());
}

// ── resolve_env_name ──────────────────────────────────────────────────

#[test]
fn exact_env_name_wins() {
    assert_eq!(resolve(Some("staging"), None, TWO_ENVS).ok().unwrap(), "staging");
}

#[test]
fn declared_alias_resolves() {
    assert_eq!(resolve(Some("testnet"), None, TWO_ENVS).ok().unwrap(), "staging");
    assert_eq!(resolve(Some("stg"), None, TWO_ENVS).ok().unwrap(), "staging");
}

#[test]
fn unique_prefix_resolves() {
    assert_eq!(resolve(Some("prod"), None, TWO_ENVS).ok().unwrap(), "production");
    assert_eq!(resolve(Some("st"), None, TWO_ENVS).ok().unwrap(), "staging");
}

#[test]
fn ambiguous_prefix_errors() {
    let src = TWO_ENVS.replace("environments.production", "environments.stable");
    let err = said(resolve(Some("st"), None, &src));
    assert!(err.contains("not in aoraki.toml"), "got: {err}");
}

#[test]
fn unknown_env_error_lists_available() {
    let err = said(resolve(Some("nope"), None, TWO_ENVS));
    assert!(err.contains("staging") && err.contains("production"), "got: {err}");
    assert_eq!(
        err,
        "environment 'nope' not in aoraki.toml (available: production, staging)"
    );
}

#[test]
fn explicit_arg_beats_checked_out_branch() {
    assert_eq!(resolve(Some("staging"), Some("prod"), TWO_ENVS).ok().unwrap(), "staging");
}

#[test]
fn checked_out_branch_picks_its_environment() {
    assert_eq!(resolve(None, Some("qa"), TWO_ENVS).ok().unwrap(), "staging");
    assert_eq!(resolve(None, Some("prod"), TWO_ENVS).ok().unwrap(), "production");
}

#[test]
fn unknown_branch_with_two_envs_errors() {
    let err = said(resolve(None, Some("feature-x"), TWO_ENVS));
    assert!(err.contains("specify an environment"), "got: {err}");
}

#[test]
fn shared_branch_is_ambiguous_and_falls_through() {
    let src = TWO_ENVS.replace("branch = \"prod\"", "branch = \"qa\"");
    assert!(resolve(None, Some("qa"), &src).is_err());
}

#[test]
fn app_default_env_breaks_the_tie() {
    let src = TWO_ENVS.replace("name = \"demo\"", "name = \"demo\"\ndefault_env = \"staging\"");
    assert_eq!(resolve(None, None, &src).ok().unwrap(), "staging");
}

#[test]
fn invalid_app_default_env_errors() {
    let src = TWO_ENVS.replace("name = \"demo\"", "name = \"demo\"\ndefault_env = \"nope\"");
    let err = said(resolve(None, None, &src));
    assert!(err.contains("default_env"), "got: {err}");
    assert_eq!(
        err,
        "default_env 'nope' in aoraki.toml is not a defined environment (available: production, staging)"
    );
}

#[test]
fn global_default_environment_is_honored() {
    let g = global("[defaults]\nenvironment = \"staging\"\n");
    let name = resolve_env_name(None, None, &repo(TWO_ENVS), &g).ok().unwrap();
    assert_eq!(name, "staging");
}

#[test]
fn global_default_that_the_app_lacks_is_passed_over() {
    let g = global("[defaults]\nenvironment = \"nope\"\n");
    assert_eq!(resolve_env_name(None, None, &repo(MINIMAL_ENV), &g).ok().unwrap(), "production");
    assert_eq!(
        said(resolve_env_name(None, None, &repo(TWO_ENVS), &g)),
        "specify an environment (available: production, staging)"
    );
}

#[test]
fn app_default_beats_global_default() {
    let src = TWO_ENVS.replace("name = \"demo\"", "name = \"demo\"\ndefault_env = \"staging\"");
    let g = global("[defaults]\nenvironment = \"production\"\n");
    assert_eq!(resolve_env_name(None, None, &repo(&src), &g).ok().unwrap(), "staging");
}

#[test]
fn branch_beats_app_default() {
    let src = TWO_ENVS.replace("name = \"demo\"", "name = \"demo\"\ndefault_env = \"staging\"");
    assert_eq!(resolve(None, Some("prod"), &src).ok().unwrap(), "production");
}

#[test]
fn alias_beats_prefix() {
    let src = TWO_ENVS.replace("aliases = [\"testnet\", \"stg\"]", "aliases = [\"prod\"]");
    assert_eq!(resolve(Some("prod"), None, &src).ok().unwrap(), "staging");
}

#[test]
fn sole_environment_needs_no_selection() {
    assert_eq!(resolve(None, None, MINIMAL_ENV).ok().unwrap(), "production");
}

// ── resolve_remote ────────────────────────────────────────────────────

#[test]
fn explicit_local_name_resolves() {
    let g = global(REMOTES);
    assert_eq!(g.resolve_remote(Some("company")).ok().unwrap().0, "company");
}

#[test]
fn org_id_pin_resolves() {
    let g = global(REMOTES);
    assert_eq!(g.resolve_remote(Some("org_bbbbbbbbbb")).ok().unwrap().0, "personal");
}

#[test]
fn unknown_org_id_errors_with_login_hint() {
    let g = global(REMOTES);
    let err = said(g.resolve_remote(Some("org_zzzzzzzzzz")));
    assert!(err.contains("aoraki login"), "got: {err}");
    assert_eq!(
        err,
        "no remote for org org_zzzzzzzzzz on this machine — `aoraki login` with a key for that org (or `aoraki whoami` to refresh org ids on older setups)"
    );
}

#[test]
fn org_id_on_multiple_consoles_is_ambiguous() {
    let src = REMOTES.replace("org_bbbbbbbbbb", "org_aaaaaaaaaa");
    let err = said(global(&src).resolve_remote(Some("org_aaaaaaaaaa")));
    assert!(err.contains("several consoles"), "got: {err}");
    assert_eq!(
        err,
        "org org_aaaaaaaaaa is logged in on several consoles (company: https://aoraki.cloud/api/v1, personal: https://testnet.aoraki.cloud/api/v1) — pin the local remote name or console URL"
    );
}

#[test]
fn console_url_pin_resolves_ignoring_trailing_slash() {
    let g = global(REMOTES);
    let (name, _) = g
        .resolve_remote(Some("https://testnet.aoraki.cloud/api/v1/"))
        .ok()
        .unwrap();
    assert_eq!(name, "personal");
}

#[test]
fn unknown_console_url_errors_with_login_hint() {
    let g = global(REMOTES);
    let err = said(g.resolve_remote(Some("https://other.example/api/v1")));
    assert!(err.contains("aoraki login --url"), "got: {err}");
    assert_eq!(
        said(g.resolve_remote(Some("http://other.example//"))),
        "no remote for http://other.example on this machine — run `aoraki login --url http://other.example`"
    );
}

#[test]
fn url_with_multiple_orgs_is_ambiguous() {
    let src = REMOTES.replace(
        "https://testnet.aoraki.cloud/api/v1",
        "https://aoraki.cloud/api/v1",
    );
    let err = said(global(&src).resolve_remote(Some("https://aoraki.cloud/api/v1")));
    assert!(err.contains("several orgs"), "got: {err}");
    assert_eq!(
        err,
        "several orgs are logged in at https://aoraki.cloud/api/v1 (company, personal) — pin the org or a local remote name"
    );
}

#[test]
fn org_name_matches_case_and_punctuation_insensitively() {
    let g = global(REMOTES);
    assert_eq!(g.resolve_remote(Some("sarson-funds")).ok().unwrap().0, "personal");
    assert_eq!(g.resolve_remote(Some("SARSONFUNDS")).ok().unwrap().0, "personal");
}

#[test]
fn org_name_on_several_consoles_is_ambiguous() {
    let src = REMOTES.replace("Sarson Funds", "manifest!");
    assert_eq!(
        said(global(&src).resolve_remote(Some("MANIFEST"))),
        "org 'MANIFEST' is logged in on several consoles (company: https://aoraki.cloud/api/v1, personal: https://testnet.aoraki.cloud/api/v1) — pin the local remote name or the console URL"
    );
}

#[test]
fn unmatched_name_lists_configured_remotes() {
    let g = global(REMOTES);
    let err = said(g.resolve_remote(Some("nope")));
    assert!(err.contains("company") && err.contains("personal"), "got: {err}");
    assert_eq!(
        err,
        "'nope' matches no remote name or org on this machine (configured: company, personal) — `aoraki whoami` shows orgs; `aoraki login` adds one"
    );
}

#[test]
fn defaults_remote_is_used_when_unnamed() {
    let src = format!("{REMOTES}\n[defaults]\nremote = \"personal\"\n");
    assert_eq!(global(&src).resolve_remote(None).ok().unwrap().0, "personal");
}

#[test]
fn dangling_defaults_remote_errors() {
    let src = format!("{REMOTES}\n[defaults]\nremote = \"ghost\"\n");
    let err = said(global(&src).resolve_remote(None));
    assert!(err.contains("ghost"), "got: {err}");
    assert_eq!(
        err,
        "[defaults].remote = 'ghost' but no such remote (configured: company, personal)"
    );
}

#[test]
fn sole_remote_needs_no_selection() {
    let g = global("[remotes.only]\napi_url = \"https://aoraki.cloud/api/v1\"\n");
    let (name, found) = g.resolve_remote(None).ok().unwrap();
    assert_eq!(name, "only");
    assert_eq!(found.api_url, "https://aoraki.cloud/api/v1");
}

#[test]
fn zero_remotes_errors_with_login_hint() {
    let err = said(GlobalConfig::default().resolve_remote(None));
    assert!(err.contains("aoraki login"), "got: {err}");
    assert_eq!(err, "no remotes configured — run `aoraki login --url <aoraki-api-url>`");
    assert_eq!(
        said(GlobalConfig::default().resolve_remote(Some("x"))),
        "no remotes configured — run `aoraki login` (mainnet) or `aoraki login --url <aoraki-api-url>`"
    );
}

#[test]
fn multiple_remotes_without_default_must_be_named() {
    let err = said(global(REMOTES).resolve_remote(None));
    assert!(err.contains("[defaults].remote"), "got: {err}");
    assert_eq!(
        err,
        "several remotes configured (company, personal) — name one, or set [defaults].remote"
    );
}

#[test]
fn org_names_are_compared_by_letters_and_digits() {
    assert_eq!(normalize("Sarson Funds"), "sarsonfunds");
    assert_eq!(normalize("sarson-funds"), "sarsonfunds");
    assert_eq!(normalize("日本 7"), "7");
}

// ── resolve_target ────────────────────────────────────────────────────

#[test]
fn servers_entry_with_user_builds_user_at_host() {
    let g = global("[servers.core2]\nhost = \"1.2.3.4\"\nuser = \"deploy\"\n");
    assert_eq!(resolve_target(&g, "core2"), "deploy@1.2.3.4");
}

#[test]
fn servers_entry_without_user_is_bare_host() {
    let g = global("[servers.core2]\nhost = \"1.2.3.4\"\n");
    assert_eq!(resolve_target(&g, "core2"), "1.2.3.4");
}

#[test]
fn unlisted_alias_passes_through_to_ssh_config() {
    assert_eq!(resolve_target(&GlobalConfig::default(), "deploymfx"), "deploymfx");
}

// ── tokens and places ─────────────────────────────────────────────────

#[test]
fn token_of_the_environment_counts_before_the_file() {
    let g = GatewayConfig { api_url: "https://g".to_string(), token: Some("file".to_string()) };
    assert_eq!(g.resolve_token(Some("env")), Some("env".to_string()));
    assert_eq!(g.resolve_token(Some("")), Some("file".to_string()));
    assert_eq!(g.resolve_token(None), Some("file".to_string()));
    let bare = GatewayConfig { api_url: "https://g".to_string(), token: None };
    assert_eq!(bare.resolve_token(Some("")), None);
}

#[test]
fn config_home_is_the_override_or_under_home() {
    assert_eq!(config_home(Some("/x"), Some("/home/me")), "/x");
    assert_eq!(config_home(Some(""), Some("/home/me")), "/home/me/.config/aoraki");
    assert_eq!(config_home(None, Some("/")), "/.config/aoraki");
    assert_eq!(config_home(None, None), "./.config/aoraki");
    assert_eq!(join_path("", "a"), "a");
}

// ── find_repo_config ──────────────────────────────────────────────────

#[test]
fn aoraki_toml_is_preferred_over_legacy_manifest_toml() {
    let level = Level { aoraki_toml: true, manifest_toml: true };
    let (at, file) = find_repo_config(&vec![level]).ok().unwrap();
    assert_eq!(at, 0);
    assert!(file == ConfigFile::Aoraki);
    assert_eq!(file.file_name(), "aoraki.toml");
}

#[test]
fn config_is_found_by_walking_up_from_a_subdir() {
    let none = Level { aoraki_toml: false, manifest_toml: false };
    let root = Level { aoraki_toml: true, manifest_toml: false };
    let outer = Level { aoraki_toml: true, manifest_toml: true };
    let (at, file) = find_repo_config(&vec![none, none, root, outer]).ok().unwrap();
    assert_eq!(at, 2);
    assert!(file == ConfigFile::Aoraki);
}

#[test]
fn legacy_name_is_found_where_the_new_one_is_further_out() {
    let inner = Level { aoraki_toml: false, manifest_toml: true };
    let outer = Level { aoraki_toml: true, manifest_toml: false };
    let (at, file) = nearest(&vec![inner, outer]).unwrap();
    assert_eq!(at, 0);
    assert_eq!(file.file_name(), "manifest.toml");
}

#[test]
fn no_config_anywhere_is_said() {
    let none = Level { aoraki_toml: false, manifest_toml: false };
    assert_eq!(
        said(find_repo_config(&vec![none, none])),
        "no aoraki.toml found in this directory or any parent — run from an app repo, or create one (see `examples/aoraki.toml` in the aoraki-cli repo)"
    );
}

#[test]
fn config_with_no_environments_is_rejected() {
    let cfg = repo("[app]\nname = \"demo\"\n[environments]\n");
    let err = said(accept_repo_config("/app/aoraki.toml", cfg));
    assert!(err.contains("no [environments"), "got: {err}");
    assert_eq!(err, "/app/aoraki.toml defines no [environments.*]");
    let kept = accept_repo_config("/app/aoraki.toml", repo(MINIMAL_ENV)).ok().unwrap();
    assert_eq!(kept.app.name, "demo");
}
