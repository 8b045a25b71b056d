//! `aoraki open`: an environment's address is opened in the browser.

use crate::context::Ctx;
use crate::failure::{fail, Failure};
use vstd::prelude::*;
use vstd::string::*;

verus! {

/// The address of an environment.
pub fn run(ctx: &Ctx) -> (r: Result<String, Failure>)
    requires
        ctx.wf(),
    ensures
        match ctx.env_spec().url {
            Some(url) => r matches Ok(found) && found@ == url@,
            None => r matches Err(failure) && failure@ == "no url configured for environment '"@
                + ctx.env_name@ + "' in aoraki.toml"@,
        },
{
    match &ctx.env().url {
        Some(url) => Ok(url.clone()),
        None => Err(
            fail(
                "no url configured for environment '".to_string().concat(
                    ctx.env_name.as_str(),
                ).concat("' in aoraki.toml"),
            ),
        ),
    }
}

} // verus!
