//! Edits of the configuration files.

use aoraki::config_file::{rename_remote, update_repo_pins, write_default_remote, write_remote};
use aoraki::document::is_quotable;
use aoraki::failure::Failure;

const PATH: &str = "/home/me/.config/aoraki/config.toml";

fn table(text: &str) -> toml::Table {
    toml::from_str(text).expect("valid TOML")
}

fn at<'a>(t: &'a toml::Table, path: &[&str]) -> Option<&'a str> {
    let mut now = t;
    for key in &path[..path.len() - 1] {
        now = now.get(*key)?.as_table()?;
    }
    now.get(path[path.len() - 1])?.as_str()
}

fn said<T>(r: Result<T, Failure>) -> String {
    r.err().unwrap().message().to_string()
}

#[test]
fn first_login_writes_the_remote_and_the_default() {
    let text = write_remote(
        PATH,
        "",
        "company",
        "https://aoraki.cloud/api/v1",
        Some("cli_x"),
        Some("Manifest"),
        Some("org_a"),
    )
    .ok()
    .unwrap();
    assert_eq!(
        text,
        "[remotes.company]\napi_url = \"https://aoraki.cloud/api/v1\"\ntoken = \"cli_x\"\norg = \"Manifest\"\norg_id = \"org_a\"\n\n[defaults]\nremote = \"company\"\n"
    );
}

#[test]
fn second_login_leaves_the_rest_alone() {
    let before = "# mine\n[remotes.company] # work\napi_url = \"https://a\"\ntoken = \"cli_x\"\n\n[servers.core2]\nhost = \"1.2.3.4\"\n";
    let text = write_remote(PATH, before, "personal", "https://b", Some("cli_y"), None, None)
        .ok()
        .unwrap();
    let t = table(&text);
    assert!(text.starts_with("# mine\n[remotes.company] # work\n"), "got: {text}");
    assert_eq!(at(&t, &["remotes", "company", "token"]), Some("cli_x"));
    assert_eq!(at(&t, &["remotes", "personal", "api_url"]), Some("https://b"));
    assert_eq!(at(&t, &["remotes", "personal", "token"]), Some("cli_y"));
    assert_eq!(at(&t, &["remotes", "personal", "org"]), None);
    assert_eq!(at(&t, &["servers", "core2", "host"]), Some("1.2.3.4"));
    assert!(t.get("defaults").is_none());
}

#[test]
fn default_that_is_there_is_kept() {
    let before = "[defaults]\nremote = \"other\"\nenvironment = \"staging\"\n";
    let text = write_remote(PATH, before, "x", "https://b", None, None, None).ok().unwrap();
    let t = table(&text);
    assert_eq!(at(&t, &["defaults", "remote"]), Some("other"));
    assert_eq!(at(&t, &["defaults", "environment"]), Some("staging"));
}

#[test]
fn logout_forgets_only_the_token() {
    let before = "[remotes.x]\napi_url = \"https://b\"\ntoken = \"cli_y\"\norg = \"Acme\"\norg_id = \"org_z\"\n";
    let text = write_remote(PATH, before, "x", "https://b", None, None, None).ok().unwrap();
    let t = table(&text);
    assert_eq!(at(&t, &["remotes", "x", "api_url"]), Some("https://b"));
    assert_eq!(at(&t, &["remotes", "x", "token"]), None);
    assert_eq!(at(&t, &["remotes", "x", "org"]), Some("Acme"));
    assert_eq!(at(&t, &["remotes", "x", "org_id"]), Some("org_z"));
}

#[test]
fn names_and_values_of_every_kind_are_read_back() {
    for name in ["with space", "dot.ted", "quo\"te", "it's", "", "日本", "tab\tnew\nline"] {
        for value in ["plain", "back\\slash", "q\"'q", "'''\"\"\"", "line\nbreak\r\n", "\u{7f}\u{1}"] {
            let text = write_remote(PATH, "", name, value, Some(value), None, None).ok().unwrap();
            let t = table(&text);
            assert_eq!(at(&t, &["remotes", name, "api_url"]), Some(value), "{text}");
            assert_eq!(at(&t, &["remotes", name, "token"]), Some(value), "{text}");
            assert_eq!(at(&t, &["defaults", "remote"]), Some(name), "{text}");
        }
    }
}

#[test]
fn dotted_and_implicit_tables_are_edited_too() {
    let before = "remotes.a.api_url = \"https://a\"\n[defaults.extra]\nx = 1\n";
    let text = write_remote(PATH, before, "b", "https://b", Some("t"), None, None).ok().unwrap();
    let t = table(&text);
    assert_eq!(at(&t, &["remotes", "a", "api_url"]), Some("https://a"));
    assert_eq!(at(&t, &["remotes", "b", "token"]), Some("t"));
    let text = write_default_remote(PATH, &text, "b").ok().unwrap();
    let t = table(&text);
    assert_eq!(at(&t, &["defaults", "remote"]), Some("b"));
    assert_eq!(t["defaults"]["extra"]["x"].as_integer(), Some(1));
    let text = rename_remote(PATH, &text, "a", "c").ok().unwrap();
    let t = table(&text);
    assert_eq!(at(&t, &["remotes", "c", "api_url"]), Some("https://a"));
    assert_eq!(at(&t, &["remotes", "a", "api_url"]), None);
}

#[test]
fn what_is_no_table_is_said() {
    assert_eq!(
        said(write_remote(PATH, "remotes = 1\n", "x", "u", None, None, None)),
        "[remotes] in config.toml is not a table"
    );
    assert_eq!(
        said(write_remote(PATH, "[remotes]\nx = { a = 1 }\n", "x", "u", None, None, None)),
        "[remotes.x] in config.toml is not a table"
    );
    assert_eq!(
        said(write_default_remote(PATH, "defaults = []\n", "x")),
        "[defaults] in config.toml is not a table"
    );
    let kept = write_remote(PATH, "defaults = {}\n", "x", "u", None, None, None).ok().unwrap();
    assert!(table(&kept)["defaults"].as_table().unwrap().is_empty());
}

#[test]
fn what_is_no_toml_is_said_with_the_path() {
    let begun = format!("parsing {PATH}: ");
    assert!(said(write_remote(PATH, "x = = 1", "x", "u", None, None, None)).starts_with(&begun));
    assert!(said(write_default_remote(PATH, "[", "x")).starts_with(&begun));
    assert!(said(rename_remote(PATH, "[", "x", "y")).starts_with(&begun));
    assert!(said(update_repo_pins(PATH, "[", "x", "y")).starts_with(&begun));
    assert!(said(rename_remote(PATH, "[", "x", "y")).len() > begun.len());
}

#[test]
fn default_is_written() {
    let text = write_default_remote(PATH, "", "company").ok().unwrap();
    assert_eq!(text, "[defaults]\nremote = \"company\"\n");
}

#[test]
fn rename_moves_the_remote_and_the_default() {
    let before = "[remotes.prod]\napi_url = \"https://a\"\ntoken = \"cli_x\"\n\n[remotes.other]\napi_url = \"https://b\"\n\n[defaults]\nremote = \"prod\"\n";
    let text = rename_remote(PATH, before, "prod", "sarson").ok().unwrap();
    let t = table(&text);
    assert_eq!(at(&t, &["remotes", "sarson", "token"]), Some("cli_x"));
    assert_eq!(at(&t, &["remotes", "prod", "token"]), None);
    assert_eq!(at(&t, &["remotes", "other", "api_url"]), Some("https://b"));
    assert_eq!(at(&t, &["defaults", "remote"]), Some("sarson"));
    let back = rename_remote(PATH, &text, "sarson", "prod").ok().unwrap();
    assert_eq!(table(&back), table(before));
}

#[test]
fn rename_leaves_another_default_alone() {
    let before = "[remotes.a]\napi_url = \"u\"\n[remotes.b]\napi_url = \"v\"\n[defaults]\nremote = \"b\"\n";
    let text = rename_remote(PATH, before, "a", "c").ok().unwrap();
    assert_eq!(at(&table(&text), &["defaults", "remote"]), Some("b"));
}

#[test]
fn rename_of_nothing_is_said() {
    assert_eq!(said(rename_remote(PATH, "", "a", "b")), "no [remotes] in config.toml");
    assert_eq!(said(rename_remote(PATH, "remotes = 1\n", "a", "b")), "no [remotes] in config.toml");
    assert_eq!(
        said(rename_remote(PATH, "[remotes.x]\n", "a", "b")),
        "remote vanished mid-rename"
    );
}

#[test]
fn pins_of_a_repo_are_moved() {
    let before = "[app]\nname = \"demo\"\n[environments.a]\nremote = \"prod\" # here\n[environments.b]\nremote = \"other\"\n[environments.c]\nremote = \"prod\"\n";
    let (text, n) = update_repo_pins("aoraki.toml", before, "prod", "sarson").ok().unwrap();
    assert_eq!(n, 2);
    let t = table(&text.unwrap());
    assert_eq!(at(&t, &["environments", "a", "remote"]), Some("sarson"));
    assert_eq!(at(&t, &["environments", "b", "remote"]), Some("other"));
    assert_eq!(at(&t, &["environments", "c", "remote"]), Some("sarson"));
    assert_eq!(at(&t, &["app", "name"]), Some("demo"));
    let again = toml::to_string(&t).unwrap();
    assert_eq!(update_repo_pins("aoraki.toml", &again, "prod", "sarson").ok().unwrap(), (None, 0));
}

#[test]
fn repo_without_pins_is_left_alone() {
    for text in ["", "environments = 1\n", "[environments.a]\nremote = \"x\"\n", "[environments]\na = 1\n"] {
        let (written, n) = update_repo_pins("aoraki.toml", text, "prod", "sarson").ok().unwrap();
        assert!(written.is_none());
        assert_eq!(n, 0);
    }
}

#[test]
fn long_rows_of_quotes_cannot_be_written() {
    assert!(is_quotable(&"'".repeat(255)));
    assert!(!is_quotable(&"'".repeat(256)));
    assert!(!is_quotable(&format!("a{}b", "\"".repeat(300))));
    assert!(is_quotable(&"'\"".repeat(300)));
}

#[test]
fn comments_stay_where_they_are() {
    let before = "# my consoles\n[remotes] # all of them\n\n# work\n[remotes.a] # keep\n# where\napi_url = \"https://a\"\n# extra\nnote = [ # in\n  1, # one\n]\n\n# home\n[remotes.b]\napi_url = \"https://b\"\n\n# picked\n[defaults] # by hand\n# which\nremote = \"a\"\n# the end\n";
    let kept = [
        "# my consoles\n[remotes] # all of them\n",
        "# work\n[remotes.a] # keep\n",
        "# extra\nnote = [ # in\n  1, # one\n]\n",
        "# home\n[remotes.b]\n",
        "# picked\n[defaults] # by hand\n",
    ];
    let written = write_remote(PATH, before, "a", "https://c", Some("t"), Some("o"), Some("i"));
    let cleared = write_remote(PATH, before, "b", "https://b", None, None, None);
    let added = write_remote(PATH, before, "new", "https://n", Some("t"), None, None);
    let pinned = write_default_remote(PATH, before, "b");
    for edited in [written, cleared, added, pinned] {
        let text = edited.ok().unwrap();
        for comment in kept {
            assert!(text.contains(comment), "{comment} is not in {text}");
        }
        assert!(text.ends_with("# the end\n"), "{text}");
    }
    let renamed = rename_remote(PATH, before, "b", "c").ok().unwrap();
    for comment in [kept[0], kept[1], kept[2], kept[4], "# home\n[remotes.c]\n"] {
        assert!(renamed.contains(comment), "{comment} is not in {renamed}");
    }
    assert!(renamed.ends_with("# the end\n"), "{renamed}");
}

#[test]
fn file_that_mixes_dotted_keys_with_headers_may_be_written_as_no_toml() {
    let before = "[p.z.q]\n[p.t.x]\n[p]\nt.a.c = 1\n[p.t.a.sub]\n[p.z.q2]\n";
    let text = write_remote(PATH, before, "a", "u", None, None, None).ok().unwrap();
    assert!(text.contains("[remotes.a]\napi_url = \"u\"\n"), "{text}");
    assert!(write_default_remote(PATH, &text, "a").is_err());
}

#[test]
fn comments_of_a_file_without_sections_stay() {
    let text = write_remote(PATH, "# mine\n", "a", "u", None, None, None).ok().unwrap();
    assert_eq!(text, "[remotes.a]\napi_url = \"u\"\n\n[defaults]\nremote = \"a\"\n# mine\n");
}

#[test]
fn comments_of_a_repo_stay_when_pins_move() {
    let before = "# app\nname = \"demo\" # short\n\n# envs\n[environments.live] # on\n# branch\nbranch = \"main\"\nremote = \"prod\"\n# end\n";
    let (text, n) = update_repo_pins("aoraki.toml", before, "prod", "sarson").ok().unwrap();
    assert_eq!(n, 1);
    assert_eq!(text.unwrap(), before.replace("prod", "sarson"));
}
