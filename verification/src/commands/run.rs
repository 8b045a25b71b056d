//! `aoraki run`: a command runs in a pod of its own, with the image that is
//! deployed.

use crate::context::Ctx;
use crate::failure::{fail, Failure};
use crate::text::{join, joined, views};
use crate::util::{quoted, quoted_words_arrive, sh_quote, shell_words};
use vstd::prelude::*;
use vstd::string::*;

verus! {

/// Refuses a command without words.
pub fn check(cmd: &Vec<String>) -> (r: Result<(), Failure>)
    ensures
        if cmd@.len() == 0 {
            r matches Err(failure) && failure@
                == "provide a command after -- , e.g. `aoraki run staging -- bash`"@
        } else {
            r is Ok
        },
{
    if cmd.len() == 0 {
        Err(
            fail("provide a command after -- , e.g. `aoraki run staging -- bash`".to_string()),
        )
    } else {
        Ok(())
    }
}

/// The command that asks for the image that is deployed.
pub fn image_command(ctx: &Ctx) -> (r: String)
    requires
        ctx.wf(),
    ensures
        r@ == ("sudo kubectl -n "@ + ctx.env_spec().namespace@) + " get deploy "@ + (
        ctx.repo.app.name@ + "-deployment"@)
            + " -o jsonpath='{.spec.template.spec.containers[0].image}'"@,
{
    ctx.kubectl().concat(" get deploy ").concat(ctx.deployment().as_str()).concat(
        " -o jsonpath='{.spec.template.spec.containers[0].image}'",
    )
}

/// The words of a command, each quoted.
pub open spec fn quoted_words(cmd: Seq<Seq<char>>) -> Seq<Seq<char>> {
    cmd.map_values(|w: Seq<char>| quoted(w))
}

/// The words of a command as a remote shell is to read them.
pub open spec fn command_line(cmd: Seq<Seq<char>>) -> Seq<char> {
    joined(quoted_words(cmd), " "@)
}

fn quote_all(cmd: &Vec<String>) -> (r: String)
    ensures
        r@ == command_line(views(cmd@)),
{
    let ghost all = quoted_words(views(cmd@));
    let mut list: Vec<String> = Vec::new();
    let mut i: usize = 0;
    while i < cmd.len()
        invariant
            i <= cmd.len(),
            all == quoted_words(views(cmd@)),
            views(list@) == all.take(i as int),
        decreases cmd.len() - i,
    {
        let ghost before = views(list@);
        list.push(sh_quote(cmd[i].as_str()));
        proof {
            assert(views(cmd@)[i as int] == cmd@[i as int]@);
            assert(views(list@) =~= before.push(all[i as int]));
            assert(all.take(i + 1) =~= all.take(i as int).push(all[i as int]));
        }
        i = i + 1;
    }
    proof {
        assert(all.take(i as int) =~= all);
    }
    join(&list, " ")
}

/// The line and the command for a pod of its own, given the image that is
/// deployed.
pub fn run(ctx: &Ctx, image: &str, cmd: &Vec<String>) -> (r: Result<(String, String), Failure>)
    requires
        ctx.wf(),
    ensures
        if image@.len() == 0 {
            r matches Err(failure) && failure@ == "could not resolve the deployed image for "@ + (
            ctx.repo.app.name@ + "-deployment"@)
        } else {
            r matches Ok((line, command)) && line@ == "→ one-off pod with image "@ + image@
                && command@ == ("sudo kubectl -n "@ + ctx.env_spec().namespace@)
                + " run aoraki-run-$RANDOM --rm -it --restart=Never --image="@ + image@
                + " --command -- "@ + command_line(views(cmd@))
        },
{
    if image.unicode_len() == 0 {
        return Err(
            fail(
                "could not resolve the deployed image for ".to_string().concat(
                    ctx.deployment().as_str(),
                ),
            ),
        );
    }
    let line = "→ one-off pod with image ".to_string().concat(image);
    let command = ctx.kubectl().concat(
        " run aoraki-run-$RANDOM --rm -it --restart=Never --image=",
    ).concat(image).concat(" --command -- ").concat(quote_all(cmd).as_str());
    Ok((line, command))
}

/// The shell on the box hands the pod the words that were given, each as one
/// word and unchanged.
pub proof fn the_words_arrive(cmd: Seq<Seq<char>>)
    ensures
        shell_words(command_line(cmd), false, None) == Some(cmd),
{
    quoted_words_arrive(cmd);
}

} // verus!
