//! `aoraki whoami`: every console, whose key is kept for it, and which is the
//! default.

use crate::commands::login::{day, day_of, user_of};
use crate::commands::rename::{unknown_remote, unknown_remote_text};
use crate::config::{named_remote, GlobalConfig, RemoteConfig};
use crate::failure::{fail, Failure};
use crate::names::{names_of, position};
use crate::reports::Identity;
use crate::text::{
    begins_and_ends_as_put_together, has_prefix, is_some_text, occurs_in, occurs_in_a_part,
    occurs_in_itself, opt, views,
};
use vstd::prelude::*;
use vstd::string::*;

verus! {

/// The line for a machine that knows no console.
pub fn no_remotes() -> (r: String)
    ensures
        r@ == "no remotes configured — run `aoraki login`"@,
{
    "no remotes configured — run `aoraki login`".to_string()
}

/// Whether a console may be made the default, and the line that says it was.
pub fn set_default(global: &GlobalConfig, name: &str) -> (r: Result<String, Failure>)
    ensures
        if position(global.remotes@, name@) is Some {
            r matches Ok(line) && line@ == "✓ default remote is now '"@ + name@ + "'"@
        } else {
            r matches Err(failure) && failure@ == unknown_remote_text(global.remotes@, name@)
        },
{
    if global.remotes.contains_key(name) {
        Ok("✓ default remote is now '".to_string().concat(name).concat("'"))
    } else {
        Err(unknown_remote(global, name))
    }
}

/// The names of the consoles to show: the one asked for, else all.
pub fn selected(global: &GlobalConfig, remote: Option<&str>) -> (r: Result<Vec<String>, Failure>)
    ensures
        match remote {
            None => r matches Ok(names) && views(names@) == names_of(global.remotes@),
            Some(name) => match named_remote(global.remotes@, name@) {
                Ok(i) => r matches Ok(names) && views(names@) == seq![global.remotes@[i].0],
                Err(text) => r matches Err(failure) && failure@ == text,
            },
        },
{
    match remote {
        None => Ok(global.remotes.names()),
        Some(name) => match global.resolve_remote(Some(name)) {
            Err(failure) => Err(failure),
            Ok((found, _)) => {
                let mut out: Vec<String> = Vec::new();
                out.push(found.to_string());
                proof {
                    assert(views(out@) =~= seq![found@]);
                }
                Ok(out)
            },
        },
    }
}

/// What is known of a console's key.
pub enum Probe {
    /// There is none.
    NotLoggedIn,
    /// It was accepted.
    Known(Identity),
    /// It could not be checked, and why.
    Problem(String),
}

/// The line for a console.
pub open spec fn row_text(name: Seq<char>, api_url: Seq<char>, is_default: bool, probe: Probe) -> Seq<
    char,
> {
    (if is_default {
        "→"@
    } else {
        " "@
    }) + " "@ + name + ": "@ + api_url + (match probe {
        Probe::NotLoggedIn => " — not logged in"@,
        Probe::Known(id) => " — "@ + user_of(id) + " (org: "@ + id.org@ + ", key: "@ + id.token_name@
            + ", extended to "@ + day_of(id.expires_at@) + ")"@,
        Probe::Problem(text) => " — ✗ "@ + text@,
    })
}

/// The line for a console.
pub fn row(name: &str, found: &RemoteConfig, is_default: bool, probe: &Probe) -> (r: String)
    ensures
        r@ == row_text(name@, found.api_url@, is_default, *probe),
{
    let marker = if is_default {
        "→".to_string()
    } else {
        " ".to_string()
    };
    let tail = match probe {
        Probe::NotLoggedIn => " — not logged in".to_string(),
        Probe::Known(id) => {
            let user = match &id.user {
                Some(user) => user.as_str(),
                None => "you",
            };
            " — ".to_string().concat(user).concat(" (org: ").concat(id.org.as_str()).concat(
                ", key: ",
            ).concat(id.token_name.as_str()).concat(", extended to ").concat(
                day(id.expires_at.as_str()),
            ).concat(")")
        },
        Probe::Problem(text) => " — ✗ ".to_string().concat(text.as_str()),
    };
    marker.concat(" ").concat(name).concat(": ").concat(found.api_url.as_str()).concat(
        tail.as_str(),
    )
}

/// What is stored of a console's org is not what its key tells.
pub open spec fn is_stale(found: RemoteConfig, id: Identity) -> bool {
    opt(found.org) != Some(id.org@) || (id.org_hex is Some && opt(found.org_id) != opt(id.org_hex))
}

/// Whether a console's org is to be stored anew.
pub fn needs_update(found: &RemoteConfig, id: &Identity) -> (r: bool)
    ensures
        r == is_stale(*found, *id),
{
    if !is_some_text(&found.org, id.org.as_str()) {
        return true;
    }
    match &id.org_hex {
        Some(org_hex) => !is_some_text(&found.org_id, org_hex.as_str()),
        None => false,
    }
}

/// Storing an org once is enough: what the key tells is then no longer news.
pub proof fn stored_org_is_not_stale(stored: RemoteConfig, id: Identity)
    requires
        opt(stored.org) == Some(id.org@),
        id.org_hex is Some ==> opt(stored.org_id) == opt(id.org_hex),
    ensures
        !is_stale(stored, id),
{
}

/// The line for a machine with several consoles and no default.
pub fn no_default_hint(global: &GlobalConfig, one: bool) -> (r: Option<String>)
    ensures
        opt(r) == (if !one && global.defaults.remote is None && global.remotes@.len() > 1 {
            Some("\nno default set — `aoraki whoami --default <remote>` to pick one"@)
        } else {
            None
        }),
{
    if !one && global.defaults.remote.is_none() && global.remotes.len() > 1 {
        Some("\nno default set — `aoraki whoami --default <remote>` to pick one".to_string())
    } else {
        None
    }
}

/// How the command ends: in failure where a key could not be checked.
pub fn finish(probes: &Vec<Probe>) -> (r: Result<(), Failure>)
    ensures
        if exists|i: int| 0 <= i < probes@.len() && #[trigger] probes@[i] is Problem {
            r matches Err(failure) && failure@
                == "some remotes failed — log in again where needed"@
        } else {
            r is Ok
        },
{
    let mut i: usize = 0;
    while i < probes.len()
        invariant
            i <= probes.len(),
            forall|k: int| 0 <= k < i ==> !(#[trigger] probes@[k] is Problem),
        decreases probes.len() - i,
    {
        if let Probe::Problem(_) = &probes[i] {
            return Err(fail("some remotes failed — log in again where needed".to_string()));
        }
        i = i + 1;
    }
    Ok(())
}

/// What is stored of a console's org is stale exactly where the key tells
/// another name, or another id where it tells one.
pub proof fn when_an_org_is_stale(found: RemoteConfig, id: Identity)
    ensures
        found.org is None ==> is_stale(found, id),
        found.org is Some && found.org->0@ != id.org@ ==> is_stale(found, id),
        id.org_hex is Some && found.org_id is None ==> is_stale(found, id),
        id.org_hex is Some && found.org_id is Some && found.org_id->0@ != id.org_hex->0@
            ==> is_stale(found, id),
        found.org is Some && found.org->0@ == id.org@ && id.org_hex is None ==> !is_stale(found, id),
{
}

/// The row of a console begins with a mark exactly where it is the default,
/// names it with its URL, and tells of its key: none, whose it is, or what is
/// wrong with it.
pub proof fn a_row_tells_of_a_console(
    name: Seq<char>,
    api_url: Seq<char>,
    is_default: bool,
    id: Identity,
    text: String,
)
    ensures
        ({
            let head = (if is_default {
                "→ "@
            } else {
                "  "@
            }) + name + ": "@ + api_url;
            &&& row_text(name, api_url, is_default, Probe::NotLoggedIn) == head
                + " — not logged in"@
            &&& row_text(name, api_url, is_default, Probe::Problem(text)) == head + " — ✗ "@ + text@
            &&& has_prefix(row_text(name, api_url, is_default, Probe::Known(id)), head)
            &&& occurs_in(
                " (org: "@ + id.org@ + ", key: "@ + id.token_name@,
                row_text(name, api_url, is_default, Probe::Known(id)),
            )
        }),
{
    reveal_strlit("→");
    reveal_strlit(" ");
    reveal_strlit("→ ");
    reveal_strlit("  ");
    let mark = if is_default {
        "→"@
    } else {
        " "@
    };
    let wide = if is_default {
        "→ "@
    } else {
        "  "@
    };
    assert(wide =~= mark + " "@);
    let head = wide + name + ": "@ + api_url;
    let part = " (org: "@ + id.org@ + ", key: "@ + id.token_name@;
    let tail = ", extended to "@ + day_of(id.expires_at@) + ")"@;
    let lead = head + " — "@ + user_of(id);
    occurs_in_itself(part);
    occurs_in_a_part(part, lead, part, tail);
    begins_and_ends_as_put_together(head, " — "@ + user_of(id) + part + tail);
    assert(row_text(name, api_url, is_default, Probe::NotLoggedIn) =~= head
        + " — not logged in"@);
    assert(row_text(name, api_url, is_default, Probe::Problem(text)) =~= head + " — ✗ "@
        + text@);
    let known = row_text(name, api_url, is_default, Probe::Known(id));
    assert(known =~= lead + part + tail);
    assert(known =~= head + (" — "@ + user_of(id) + part + tail));
}

} // verus!
