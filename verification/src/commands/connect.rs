//! `aoraki connect github`: the org's GitHub app is installed in the browser,
//! and the gateway is asked until it knows of it.

use crate::failure::{fail, Failure};
use crate::json::{fields, Json, Tree};
use crate::text::{opt, same, views};
use vstd::prelude::*;
use vstd::string::*;

verus! {

/// Seconds until the install is given up.
pub const WAIT_SECONDS: u64 = 300;

/// Seconds between two questions.
pub const POLL_SECONDS: u64 = 3;

/// Refuses a provider that is not known.
pub fn check_provider(provider: &str) -> (r: Result<(), Failure>)
    ensures
        if provider@ == "github"@ {
            r is Ok
        } else {
            r matches Err(failure) && failure@ == "unknown provider '"@ + provider@
                + "' — only 'github' is supported"@
        },
{
    if same(provider, "github") {
        Ok(())
    } else {
        Err(
            fail(
                "unknown provider '".to_string().concat(provider).concat(
                    "' — only 'github' is supported",
                ),
            ),
        )
    }
}

/// What the gateway is asked for to begin an install.
pub fn connect_request() -> (r: Json)
    ensures
        r.tree() == Tree::Object(Seq::empty()),
{
    let list: Vec<(String, Json)> = Vec::new();
    proof {
        assert(fields(list@) =~= Seq::<(Seq<char>, Tree)>::empty());
    }
    Json::Object(list)
}

/// How many installations the gateway knows.
pub fn installations(answer: &Json) -> (n: usize)
    ensures
        n == answer.tree().get("data"@).items().len(),
{
    answer.count_at("data")
}

/// The page where the app is installed.
pub fn install_url(answer: &Json) -> (r: Result<String, Failure>)
    ensures
        match answer.tree().get("data"@).get("install_url"@).text() {
            Some(url) => if url.len() > 0 {
                r matches Ok(found) && found@ == url
            } else {
                r matches Err(failure) && failure@ == "gateway did not return an install URL"@
            },
            None => r matches Err(failure) && failure@ == "gateway did not return an install URL"@,
        },
{
    if let Some(url) = answer.text_at2("data", "install_url") {
        if url.unicode_len() > 0 {
            return Ok(url.to_string());
        }
    }
    Err(fail("gateway did not return an install URL".to_string()))
}

/// The lines before the browser is opened.
pub fn opening(install_url: &str) -> (r: Vec<String>)
    ensures
        views(r@) == seq!["→ opening GitHub to install the Manifest app:"@, "  "@ + install_url@],
{
    let mut out: Vec<String> = Vec::new();
    out.push("→ opening GitHub to install the Manifest app:".to_string());
    out.push("  ".to_string().concat(install_url));
    proof {
        assert(views(out@) =~= seq![
            "→ opening GitHub to install the Manifest app:"@,
            "  "@ + install_url@,
        ]);
    }
    out
}

/// The line after the browser was opened.
pub fn waiting() -> (r: String)
    ensures
        r@ == "→ pick the repo(s) to grant read access, then come back here…"@,
{
    "→ pick the repo(s) to grant read access, then come back here…".to_string()
}

/// The line for an install that the gateway has learned of: there are more
/// installations than before.
pub fn connected(known: usize, answer: &Json) -> (r: Option<String>)
    ensures
        opt(r) == ({
            let now = answer.tree().get("data"@).items();
            if now.len() > known {
                Some(
                    "✓ GitHub connected ("@ + now[0].get("account_login"@).text_or("your account"@)
                        + ") — `aoraki deploy` is ready"@,
                )
            } else {
                None
            }
        }),
{
    if answer.count_at("data") > known {
        let account = answer.item_at("data", 0).text_or("account_login", "your account");
        Some(
            "✓ GitHub connected (".to_string().concat(account).concat(
                ") — `aoraki deploy` is ready",
            ),
        )
    } else {
        None
    }
}

/// Whether to ask once more, so many seconds after the browser was opened: the
/// install is given up when its time is over.
pub fn connect_step(elapsed: u64) -> (r: Result<(), Failure>)
    ensures
        r is Ok <==> elapsed < WAIT_SECONDS,
        r matches Err(failure) ==> failure@
            == "timed out waiting for the install (5 min) — finish it in the browser and re-run"@,
{
    if elapsed < WAIT_SECONDS {
        Ok(())
    } else {
        Err(
            fail(
                "timed out waiting for the install (5 min) — finish it in the browser and re-run".to_string(),
            ),
        )
    }
}

} // verus!
