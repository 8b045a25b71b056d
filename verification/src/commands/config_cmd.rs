//! `aoraki config`: the names of an environment's settings and secrets, never
//! their values.

use crate::context::Ctx;
use vstd::prelude::*;
use vstd::string::*;

verus! {

/// The template that lists keys and no values.
pub const KEYS_TEMPLATE: &'static str =
    "go-template='{{range $k, $v := .data}}{{$k}}{{\"\\n\"}}{{end}}'";

/// The command that lists the keys.
pub fn run(ctx: &Ctx) -> (r: String)
    requires
        ctx.wf(),
    ensures
        r@ == ({
            let app = ctx.repo.app.name@;
            let k = "sudo kubectl -n "@ + ctx.env_spec().namespace@;
            "echo '# configmap "@ + app + "-config'; "@ + k + " get configmap "@ + app
                + "-config -o "@ + KEYS_TEMPLATE@
                + " 2>/dev/null || echo '(not found)'; echo; echo '# secret "@ + app
                + "-secret (keys only)'; "@ + k + " get secret "@ + app + "-secret -o "@
                + KEYS_TEMPLATE@ + " 2>/dev/null || echo '(not found)'"@
        }),
{
    let app = ctx.app();
    let k = ctx.kubectl();
    "echo '# configmap ".to_string().concat(app).concat("-config'; ").concat(k.as_str()).concat(
        " get configmap ",
    ).concat(app).concat("-config -o ").concat(KEYS_TEMPLATE).concat(
        " 2>/dev/null || echo '(not found)'; echo; echo '# secret ",
    ).concat(app).concat("-secret (keys only)'; ").concat(k.as_str()).concat(
        " get secret ",
    ).concat(app).concat("-secret -o ").concat(KEYS_TEMPLATE).concat(
        " 2>/dev/null || echo '(not found)'",
    )
}

} // verus!
