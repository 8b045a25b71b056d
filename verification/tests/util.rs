//! Quoting and git output.

use aoraki::util::{git_capture, sh_quote};

#[test]
fn sh_quote_wraps_plain_strings() {
    assert_eq!(sh_quote("hello"), "'hello'");
    assert_eq!(sh_quote("a b/c.d"), "'a b/c.d'");
}

#[test]
fn sh_quote_escapes_embedded_single_quotes() {
    assert_eq!(sh_quote("it's"), r"'it'\''s'");
    assert_eq!(sh_quote("''"), r"''\'''\'''");
}

#[test]
fn git_output_is_trimmed() {
    let args = vec!["rev-parse".to_string(), "HEAD".to_string()];
    assert_eq!(git_capture(&args, true, " abc\n", "").ok().unwrap(), "abc");
}

#[test]
fn git_failure_names_the_command() {
    let args = vec!["rev-parse".to_string(), "HEAD".to_string()];
    let err = git_capture(&args, false, "", "fatal: no\n").err().unwrap();
    assert_eq!(err.message(), "git rev-parse HEAD failed: fatal: no");
}
