//! `aoraki logs`: the logs of an app's pods.

use crate::context::Ctx;
use crate::failure::{fail, Failure};
use crate::text::{decimal, opt, opt_str, same, show};
use vstd::prelude::*;
use vstd::string::*;

verus! {

/// A word that names pods.
pub open spec fn is_target(word: Seq<char>) -> bool {
    word == "web"@ || word == "worker"@ || word == "workers"@ || word == "all"@
}

/// Whether a word names pods.
pub fn names_pods(word: &str) -> (r: bool)
    ensures
        r == is_target(word@),
{
    same(word, "web") || same(word, "worker") || same(word, "workers") || same(word, "all")
}

/// The environment and the pods that are meant. A lone word that names pods is
/// no environment. The environment that is given by option counts before the
/// word.
pub open spec fn meant(
    env: Option<Seq<char>>,
    target: Option<Seq<char>>,
    app: Option<Seq<char>>,
) -> (Option<Seq<char>>, Option<Seq<char>>) {
    let (word, pods) = if env is Some && target is None && is_target(env->0) {
        (None, env)
    } else {
        (env, target)
    };
    (
        match app {
            Some(name) => Some(name),
            None => word,
        },
        pods,
    )
}

/// The environment and the pods that are meant.
pub fn sort_out(env: Option<String>, target: Option<String>, app: Option<String>) -> (r: (
    Option<String>,
    Option<String>,
))
    ensures
        (opt(r.0), opt(r.1)) == meant(opt(env), opt(target), opt(app)),
{
    let lone = match (&env, &target) {
        (Some(word), None) => names_pods(word.as_str()),
        _ => false,
    };
    let (word, pods) = if lone {
        (None, env)
    } else {
        (env, target)
    };
    let name = match app {
        Some(name) => Some(name),
        None => word,
    };
    (name, pods)
}

/// The options for the logs.
pub open spec fn log_options(lines: nat, since: Option<Seq<char>>, previous: bool, follow: bool) -> Seq<
    char,
> {
    " --tail="@ + decimal(lines) + (match since {
        Some(text) => " --since="@ + text,
        None => ""@,
    }) + (if previous {
        " --previous"@
    } else {
        ""@
    }) + (if follow {
        " -f"@
    } else {
        ""@
    })
}

/// The command for an environment's logs.
pub open spec fn log_command(ctx: Ctx, target: Option<Seq<char>>, options: Seq<char>) -> Result<
    Seq<char>,
    Seq<char>,
> {
    let k = "sudo kubectl -n "@ + ctx.env_spec().namespace@;
    let pods = match target {
        Some(word) => word,
        None => "all"@,
    };
    if pods == "web"@ {
        Ok(k + " logs deployment/"@ + (ctx.repo.app.name@ + "-deployment"@) + options)
    } else if pods == "worker"@ || pods == "workers"@ {
        Ok(
            "dep=$("@ + k
                + " get deployments -o name | grep -m1 worker) || { echo 'no worker deployment in namespace "@
                + ctx.env_spec().namespace@ + "' >&2; exit 1; }; "@ + k + " logs \"$dep\""@
                + options,
        )
    } else if pods == "all"@ {
        Ok(
            k + " logs -l app --all-containers --prefix --max-log-requests=10"@ + options,
        )
    } else {
        Err("unknown logs target '"@ + pods + "' — use web, workers, or all"@)
    }
}

/// The command for an environment's logs.
pub fn run(
    ctx: &Ctx,
    target: Option<&str>,
    follow: bool,
    since: Option<&str>,
    previous: bool,
    lines: u32,
) -> (r: Result<String, Failure>)
    requires
        ctx.wf(),
    ensures
        match (
            r,
            log_command(
                *ctx,
                opt_str(target),
                log_options(lines as nat, opt_str(since), previous, follow),
            ),
        ) {
            (Ok(command), Ok(text)) => command@ == text,
            (Err(failure), Err(text)) => failure@ == text,
            _ => false,
        },
{
    let since_option = match since {
        Some(text) => " --since=".to_string().concat(text),
        None => "".to_string(),
    };
    let options = " --tail=".to_string().concat(show(lines as u64).as_str()).concat(
        since_option.as_str(),
    ).concat(
        if previous {
            " --previous"
        } else {
            ""
        },
    ).concat(
        if follow {
            " -f"
        } else {
            ""
        },
    );
    let k = ctx.kubectl();
    let pods = match target {
        Some(word) => word,
        None => "all",
    };
    if same(pods, "web") {
        Ok(
            k.concat(" logs deployment/").concat(ctx.deployment().as_str()).concat(
                options.as_str(),
            ),
        )
    } else if same(pods, "worker") || same(pods, "workers") {
        Ok(
            "dep=$(".to_string().concat(k.as_str()).concat(
                " get deployments -o name | grep -m1 worker) || { echo 'no worker deployment in namespace ",
            ).concat(ctx.env().namespace.as_str()).concat("' >&2; exit 1; }; ").concat(
                k.as_str(),
            ).concat(" logs \"$dep\"").concat(options.as_str()),
        )
    } else if same(pods, "all") {
        Ok(
            k.concat(" logs -l app --all-containers --prefix --max-log-requests=10").concat(
                options.as_str(),
            ),
        )
    } else {
        Err(
            fail(
                "unknown logs target '".to_string().concat(pods).concat(
                    "' — use web, workers, or all",
                ),
            ),
        )
    }
}

/// A lone word that names pods is taken for the pods and any other for the
/// environment; with two words the first is the environment and the second the
/// pods. The environment that is given by option counts before the word.
pub proof fn words_are_sorted_out(word: Seq<char>, pods: Seq<char>, app: Seq<char>)
    ensures
        word == "web"@ || word == "worker"@ || word == "workers"@ || word == "all"@ ==> meant(
            Some(word),
            None,
            None,
        ) == (None::<Seq<char>>, Some(word)),
        word != "web"@ && word != "worker"@ && word != "workers"@ && word != "all"@ ==> meant(
            Some(word),
            None,
            None,
        ) == (Some(word), None::<Seq<char>>),
        meant(Some(word), Some(pods), None) == (Some(word), Some(pods)),
        meant(Some(word), Some(pods), Some(app)) == (Some(app), Some(pods)),
        meant(None, None, None) == (None::<Seq<char>>, None::<Seq<char>>),
        meant(None, None, Some(app)) == (Some(app), None::<Seq<char>>),
        meant(None, Some(pods), None) == (None::<Seq<char>>, Some(pods)),
        meant(Some(word), None, Some(app)).0 == Some(app),
        meant(Some(word), None, Some(app)).1 == meant(Some(word), None, None).1,
{
}

/// Without a word for the pods the logs of all are shown; `worker` and
/// `workers` mean the same; each known word has a command that ends in the
/// options, and any other word is refused by name.
pub proof fn known_words_have_logs(ctx: Ctx, word: Seq<char>, options: Seq<char>)
    ensures
        log_command(ctx, None, options) == log_command(ctx, Some("all"@), options),
        log_command(ctx, Some("worker"@), options) == log_command(ctx, Some("workers"@), options),
        log_command(ctx, Some("all"@), options) == Ok::<Seq<char>, Seq<char>>(
            "sudo kubectl -n "@ + ctx.env_spec().namespace@
                + " logs -l app --all-containers --prefix --max-log-requests=10"@ + options,
        ),
        log_command(ctx, Some("web"@), options) == Ok::<Seq<char>, Seq<char>>(
            "sudo kubectl -n "@ + ctx.env_spec().namespace@ + " logs deployment/"@ + (
            ctx.repo.app.name@ + "-deployment"@) + options,
        ),
        log_command(ctx, Some("workers"@), options) is Ok,
        log_command(ctx, Some(word), options) is Err <==> word != "web"@ && word != "worker"@
            && word != "workers"@ && word != "all"@,
        log_command(ctx, Some(word), options) is Err ==> log_command(ctx, Some(word), options)
            == Err::<Seq<char>, Seq<char>>(
            "unknown logs target '"@ + word + "' — use web, workers, or all"@,
        ),
{
    reveal_strlit("web");
    reveal_strlit("worker");
    reveal_strlit("workers");
    reveal_strlit("all");
    assert("web"@.len() == 3 && "worker"@.len() == 6 && "workers"@.len() == 7 && "all"@.len() == 3);
    assert("web"@[0] != "all"@[0]);
}

/// The logs are cut to the lines that are asked for, and to the time, where one
/// is given; those of the pods before, and those still to come, are shown
/// exactly where they are asked for.
pub proof fn options_are_those_asked_for(lines: nat, since: Seq<char>)
    ensures
        log_options(lines, None, false, false) == " --tail="@ + decimal(lines),
        log_options(lines, Some(since), false, false) == " --tail="@ + decimal(lines)
            + " --since="@ + since,
        log_options(lines, None, true, false) == " --tail="@ + decimal(lines) + " --previous"@,
        log_options(lines, None, false, true) == " --tail="@ + decimal(lines) + " -f"@,
        log_options(lines, None, true, true) == " --tail="@ + decimal(lines) + " --previous"@
            + " -f"@,
        log_options(lines, Some(since), true, false) == " --tail="@ + decimal(lines)
            + " --since="@ + since + " --previous"@,
        log_options(lines, Some(since), false, true) == " --tail="@ + decimal(lines)
            + " --since="@ + since + " -f"@,
        log_options(lines, Some(since), true, true) == " --tail="@ + decimal(lines)
            + " --since="@ + since + " --previous"@ + " -f"@,
{
    reveal_strlit("");
    let a = " --tail="@ + decimal(lines);
    let b = a + (" --since="@ + since);
    assert(b =~= a + " --since="@ + since);
    assert(a + ""@ =~= a);
    assert(b + ""@ =~= b);
    assert(a + " --previous"@ + ""@ =~= a + " --previous"@);
    assert(b + " --previous"@ + ""@ =~= b + " --previous"@);
}

} // verus!
