//! `aoraki rename`: a console gets another local name. The pins in the repo
//! that the command is run from go along.

use crate::config::{GlobalConfig, RemoteConfig};
use crate::failure::{fail, Failure};
use crate::names::{names_of, ordered, position, position_in_bounds, position_is_unique};
use crate::text::{decimal, is_some_text, join, joined, opt, same, show, views};
use vstd::prelude::*;
use vstd::string::*;

verus! {

/// What is said of a name that no console has.
pub open spec fn unknown_remote_text(s: Seq<(Seq<char>, RemoteConfig)>, name: Seq<char>) -> Seq<
    char,
> {
    "unknown remote '"@ + name + "' (configured: "@ + joined(names_of(s), ", "@) + ")"@
}

/// What is said of a name that no console has.
pub fn unknown_remote(global: &GlobalConfig, name: &str) -> (r: Failure)
    ensures
        r@ == unknown_remote_text(global.remotes@, name@),
{
    fail(
        "unknown remote '".to_string().concat(name).concat("' (configured: ").concat(
            join(&global.remotes.names(), ", ").as_str(),
        ).concat(")"),
    )
}

/// What is said against a rename, if anything is.
pub open spec fn rename_problem(
    s: Seq<(Seq<char>, RemoteConfig)>,
    old_name: Seq<char>,
    new_name: Seq<char>,
) -> Option<Seq<char>> {
    if old_name == new_name {
        Some("'"@ + old_name + "' and '"@ + new_name + "' are the same name"@)
    } else if position(s, old_name) is None {
        Some(unknown_remote_text(s, old_name))
    } else if position(s, new_name) is Some {
        Some("a remote named '"@ + new_name + "' already exists"@)
    } else {
        None
    }
}

/// Whether a rename may go ahead; if so, whether the console is the default.
pub fn check(global: &GlobalConfig, old_name: &str, new_name: &str) -> (r: Result<bool, Failure>)
    ensures
        match rename_problem(global.remotes@, old_name@, new_name@) {
            Some(text) => r matches Err(failure) && failure@ == text,
            None => r == Ok::<bool, Failure>(
                opt(global.defaults.remote) == Some(old_name@),
            ),
        },
{
    if same(old_name, new_name) {
        return Err(
            fail(
                "'".to_string().concat(old_name).concat("' and '").concat(new_name).concat(
                    "' are the same name",
                ),
            ),
        );
    }
    if !global.remotes.contains_key(old_name) {
        return Err(unknown_remote(global, old_name));
    }
    if global.remotes.contains_key(new_name) {
        return Err(
            fail("a remote named '".to_string().concat(new_name).concat("' already exists")),
        );
    }
    Ok(is_some_text(&global.defaults.remote, old_name))
}

/// The lines after a rename.
pub fn renamed(old_name: &str, new_name: &str, was_default: bool) -> (r: Vec<String>)
    ensures
        views(r@) == (if was_default {
            seq![
                "✓ remote '"@ + old_name@ + "' is now '"@ + new_name@ + "'"@,
                "  [defaults].remote updated to '"@ + new_name@ + "'"@,
            ]
        } else {
            seq!["✓ remote '"@ + old_name@ + "' is now '"@ + new_name@ + "'"@]
        }),
{
    let first = "✓ remote '".to_string().concat(old_name).concat("' is now '").concat(
        new_name,
    ).concat("'");
    let ghost a = first@;
    let mut out: Vec<String> = Vec::new();
    out.push(first);
    if was_default {
        let second = "  [defaults].remote updated to '".to_string().concat(new_name).concat("'");
        let ghost b = second@;
        out.push(second);
        proof {
            assert(views(out@) =~= seq![a, b]);
        }
    } else {
        proof {
            assert(views(out@) =~= seq![a]);
        }
    }
    out
}

/// The line that tells how many pins of a repo were moved.
pub fn pins_line(path: &str, old_name: &str, n: usize) -> (r: String)
    ensures
        r@ == (if n == 0 {
            "  "@ + path@ + " has no remote = \""@ + old_name@
                + "\" pins — nothing to update there"@
        } else {
            "  updated "@ + decimal(n as nat) + " pin"@ + (if n == 1 {
                ""@
            } else {
                "s"@
            }) + " in "@ + path@ + " — commit that change"@
        }),
{
    if n == 0 {
        "  ".to_string().concat(path).concat(" has no remote = \"").concat(old_name).concat(
            "\" pins — nothing to update there",
        )
    } else {
        "  updated ".to_string().concat(show(n as u64).as_str()).concat(" pin").concat(
            if n == 1 {
                ""
            } else {
                "s"
            },
        ).concat(" in ").concat(path).concat(" — commit that change")
    }
}

/// The line that reminds of other repos.
pub fn other_repos_line(old_name: &str) -> (r: String)
    ensures
        r@ == "  other repos: grep for 'remote = \""@ + old_name@
            + "\"' in their aoraki.toml / manifest.toml"@,
{
    "  other repos: grep for 'remote = \"".to_string().concat(old_name).concat(
        "\"' in their aoraki.toml / manifest.toml",
    )
}

/// A rename goes ahead exactly where the two names differ, the old one is a
/// console's and the new one is none's.
pub proof fn when_a_rename_goes_ahead(
    s: Seq<(Seq<char>, RemoteConfig)>,
    i: int,
    taken: int,
    free: Seq<char>,
    unknown: Seq<char>,
    any: Seq<char>,
)
    requires
        ordered(s),
        0 <= i < s.len(),
        0 <= taken < s.len(),
        forall|k: int| 0 <= k < s.len() ==> (#[trigger] s[k]).0 != free,
        forall|k: int| 0 <= k < s.len() ==> (#[trigger] s[k]).0 != unknown,
    ensures
        rename_problem(s, s[i].0, free) is None,
        rename_problem(s, any, any) is Some,
        rename_problem(s, s[i].0, s[taken].0) is Some,
        rename_problem(s, unknown, any) is Some,
        any != unknown ==> rename_problem(s, unknown, any) == Some(
            "unknown remote '"@ + unknown + "' (configured: "@ + joined(names_of(s), ", "@) + ")"@,
        ),
{
    position_is_unique(s, i);
    position_is_unique(s, taken);
    position_in_bounds(s, free);
    position_in_bounds(s, unknown);
}

} // verus!
