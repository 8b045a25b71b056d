//! `aoraki logout`: the key of a console is forgotten. Its URL stays, so that
//! a later login can use it.

use crate::config::{remote_choice, GlobalConfig};
use crate::failure::Failure;
use crate::text::{opt, opt_str, views};
use vstd::prelude::*;
use vstd::string::*;

verus! {

/// What a logout does.
pub enum Logout {
    /// There is nothing to forget, and a line says so.
    Nothing(String),
    /// The key is removed from the console's section, which keeps its URL.
    Forget { name: String, api_url: String },
}

/// What a logout does.
pub fn plan(global: &GlobalConfig, remote: Option<&str>) -> (r: Result<Logout, Failure>)
    ensures
        match remote_choice(global.remotes@, opt(global.defaults.remote), opt_str(remote)) {
            Err(text) => r matches Err(failure) && failure@ == text,
            Ok(i) => match global.remotes@[i].1.token {
                None => r matches Ok(Logout::Nothing(line)) && line@ == "'"@ + global.remotes@[i].0
                    + "' has no stored token — nothing to do"@,
                Some(_) => r matches Ok(Logout::Forget { name, api_url }) && name@
                    == global.remotes@[i].0 && api_url@ == global.remotes@[i].1.api_url@,
            },
        },
{
    match global.resolve_remote(remote) {
        Err(failure) => Err(failure),
        Ok((name, found)) => if found.token.is_none() {
            Ok(
                Logout::Nothing(
                    "'".to_string().concat(name).concat("' has no stored token — nothing to do"),
                ),
            )
        } else {
            Ok(Logout::Forget { name: name.to_string(), api_url: found.api_url.clone() })
        },
    }
}

/// The lines after a logout.
pub fn logged_out(name: &str) -> (r: Vec<String>)
    ensures
        views(r@) == seq![
            "✓ logged out of '"@ + name@ + "' — token removed from config.toml"@,
            "  (revoke it in the console too if this machine is no longer trusted)"@,
        ],
{
    let mut out: Vec<String> = Vec::new();
    out.push(
        "✓ logged out of '".to_string().concat(name).concat("' — token removed from config.toml"),
    );
    out.push("  (revoke it in the console too if this machine is no longer trusted)".to_string());
    proof {
        assert(views(out@) =~= seq![
            "✓ logged out of '"@ + name@ + "' — token removed from config.toml"@,
            "  (revoke it in the console too if this machine is no longer trusted)"@,
        ]);
    }
    out
}

} // verus!
