//! `aoraki restart`: the pods are restarted, one after the other.

use crate::context::Ctx;
use vstd::prelude::*;
use vstd::string::*;

verus! {

/// The line and the command for a restart.
pub fn run(ctx: &Ctx) -> (r: (String, String))
    requires
        ctx.wf(),
    ensures
        r.0@ == "→ restarting "@ + (ctx.repo.app.name@ + "-deployment"@) + " in "@
            + ctx.env_spec().namespace@,
        r.1@ == ({
            let k = "sudo kubectl -n "@ + ctx.env_spec().namespace@;
            let d = ctx.repo.app.name@ + "-deployment"@;
            k + " rollout restart deployment/"@ + d + " && "@ + k + " rollout status deployment/"@
                + d + " --timeout=600s"@
        }),
{
    let k = ctx.kubectl();
    let d = ctx.deployment();
    let line = "→ restarting ".to_string().concat(d.as_str()).concat(" in ").concat(
        ctx.env().namespace.as_str(),
    );
    let command = k.clone().concat(" rollout restart deployment/").concat(d.as_str()).concat(
        " && ",
    ).concat(k.as_str()).concat(" rollout status deployment/").concat(d.as_str()).concat(
        " --timeout=600s",
    );
    (line, command)
}

} // verus!
