//! `aoraki status`: what is deployed, how the pods are, and whether that is
//! what stands here.

use crate::context::Ctx;
use crate::json::{json_of, Json, Tree};
use crate::text::{decimal, same, short, short_id, show, views};
use vstd::prelude::*;
use vstd::string::*;

verus! {

/// The command that reads the last line of the record on the box.
pub fn last_deploy_command(ctx: &Ctx) -> (r: String)
    ensures
        r@ == "tail -n 1 "@ + ("/data/logs/aoraki-deploys/"@ + ctx.repo.app.name@ + ".jsonl"@)
            + " 2>/dev/null || true"@,
{
    "tail -n 1 ".to_string().concat(ctx.deploy_log().as_str()).concat(" 2>/dev/null || true")
}

/// The command that asks for the image and the pods.
pub fn pods_command(ctx: &Ctx) -> (r: String)
    requires
        ctx.wf(),
    ensures
        r@ == ("sudo kubectl -n "@ + ctx.env_spec().namespace@) + " get deploy "@ + (
        ctx.repo.app.name@ + "-deployment"@)
            + " -o jsonpath='{.spec.template.spec.containers[0].image} {.status.readyReplicas}/{.status.replicas}' 2>/dev/null || echo unavailable"@,
{
    ctx.kubectl().concat(" get deploy ").concat(ctx.deployment().as_str()).concat(
        " -o jsonpath='{.spec.template.spec.containers[0].image} {.status.readyReplicas}/{.status.replicas}' 2>/dev/null || echo unavailable",
    )
}

/// The line that tells what is deployed.
pub open spec fn deployed_line(last: Option<Tree>) -> Seq<char> {
    match last {
        Some(rec) => "Deployed:   "@ + short_id(rec.get("sha"@).text_or("?"@)) + " ("@ + rec.get(
            "status"@,
        ).text_or("?"@) + ", "@ + rec.get("time"@).text_or("?"@) + (match rec.get(
            "duration_secs"@,
        ).unsigned() {
            Some(d) => ", "@ + decimal(d as nat) + "s"@,
            None => ""@,
        }) + ")"@,
        None => "Deployed:   no aoraki deploys recorded on this box yet"@,
    }
}

/// The line that compares what is deployed with what stands here.
pub open spec fn drift_lines(last: Option<Tree>, local: Seq<char>) -> Seq<Seq<char>> {
    match last {
        Some(rec) => {
            let deployed = short_id(rec.get("sha"@).text_or("?"@));
            if deployed == local {
                seq!["\n✓ box is running your local HEAD"@]
            } else {
                seq![
                    "\n⚠ local HEAD ("@ + local + ") differs from last deployed ("@ + deployed
                        + ")"@,
                ]
            }
        },
        None => Seq::empty(),
    }
}

/// What is shown of an environment.
pub open spec fn report_lines(ctx: Ctx, local: Seq<char>, last: Option<Tree>, pods: Seq<char>) -> Seq<
    Seq<char>,
> {
    seq![
        "App:        "@ + ctx.repo.app.name@ + " ("@ + ctx.env_name@ + " → "@ + ctx.target_spec()
            + ")"@,
        "Local HEAD: "@ + local,
        deployed_line(last),
        "Pods:       "@ + pods,
    ] + drift_lines(last, local)
}

/// What is shown of an environment, given its last deploy.
pub fn report(ctx: &Ctx, local: &str, last: &Option<Json>, pods: &str) -> (r: Vec<String>)
    requires
        ctx.wf(),
    ensures
        views(r@) == report_lines(
            *ctx,
            local@,
            match *last {
                Some(json) => Some(json.tree()),
                None => None,
            },
            pods@,
        ),
{
    let ghost rec_tree = match last {
        Some(json) => Some(json.tree()),
        None => None,
    };
    let first = "App:        ".to_string().concat(ctx.app()).concat(" (").concat(
        ctx.env_name.as_str(),
    ).concat(" → ").concat(ctx.ssh_target().as_str()).concat(")");
    let second = "Local HEAD: ".to_string().concat(local);
    let third = match last {
        Some(rec) => {
            let duration = match rec.unsigned_at("duration_secs") {
                Some(d) => ", ".to_string().concat(show(d).as_str()).concat("s"),
                None => "".to_string(),
            };
            "Deployed:   ".to_string().concat(short(rec.text_or("sha", "?")).as_str()).concat(
                " (",
            ).concat(rec.text_or("status", "?")).concat(", ").concat(
                rec.text_or("time", "?"),
            ).concat(duration.as_str()).concat(")")
        },
        None => "Deployed:   no aoraki deploys recorded on this box yet".to_string(),
    };
    let fourth = "Pods:       ".to_string().concat(pods);
    let ghost a = first@;
    let ghost b = second@;
    let ghost c = third@;
    let ghost d = fourth@;
    let mut out: Vec<String> = Vec::new();
    out.push(first);
    out.push(second);
    out.push(third);
    out.push(fourth);
    if let Some(rec) = last {
        let deployed = short(rec.text_or("sha", "?"));
        if same(deployed.as_str(), local) {
            out.push("\n✓ box is running your local HEAD".to_string());
        } else {
            out.push(
                "\n⚠ local HEAD (".to_string().concat(local).concat(
                    ") differs from last deployed (",
                ).concat(deployed.as_str()).concat(")"),
            );
        }
    }
    proof {
        assert(c == deployed_line(rec_tree));
        assert(views(out@) =~= seq![a, b, c, d] + drift_lines(rec_tree, local@));
    }
    out
}

/// What is shown of an environment, given the last line of its record.
pub fn report_of(ctx: &Ctx, local: &str, last_line: &str, pods: &str) -> (r: Vec<String>)
    requires
        ctx.wf(),
    ensures
        views(r@) == report_lines(*ctx, local@, json_of(last_line@), pods@),
{
    let last = Json::parse(last_line);
    report(ctx, local, &last, pods)
}

/// A box is said to run what stands here exactly where the commit of its last
/// deploy is the local one; where no deploy is known nothing is compared.
pub proof fn drift_is_told(rec: Tree, sha: Seq<char>, local: Seq<char>)
    requires
        rec.get("sha"@) == Tree::Text(sha),
    ensures
        drift_lines(None, local).len() == 0,
        drift_lines(Some(rec), local).len() == 1,
        short_id(sha) == local ==> drift_lines(Some(rec), local)[0]
            == "\n✓ box is running your local HEAD"@,
        short_id(sha) != local ==> drift_lines(Some(rec), local)[0] == "\n⚠ local HEAD ("@ + local
            + ") differs from last deployed ("@ + short_id(sha) + ")"@,
{
}

/// The last deploy is told by its commit, how it ended and when, and how long
/// it took, where that is known.
pub proof fn the_last_deploy_is_told(
    rec: Tree,
    sha: Seq<char>,
    status: Seq<char>,
    time: Seq<char>,
)
    requires
        rec.get("sha"@) == Tree::Text(sha),
        rec.get("status"@) == Tree::Text(status),
        rec.get("time"@) == Tree::Text(time),
    ensures
        ({
            let head = "Deployed:   "@ + short_id(sha) + " ("@ + status + ", "@ + time;
            match rec.get("duration_secs"@) {
                Tree::Number(Some(n), _) => deployed_line(Some(rec)) == head + ", "@ + decimal(
                    n as nat,
                ) + "s"@ + ")"@,
                _ => deployed_line(Some(rec)) == head + ")"@,
            }
        }),
        deployed_line(None) == "Deployed:   no aoraki deploys recorded on this box yet"@,
{
    reveal_strlit("");
    let head = "Deployed:   "@ + short_id(sha) + " ("@ + status + ", "@ + time;
    match rec.get("duration_secs"@) {
        Tree::Number(Some(n), _) => {
            assert(deployed_line(Some(rec)) =~= head + ", "@ + decimal(n as nat) + "s"@ + ")"@);
        },
        _ => {
            assert(deployed_line(Some(rec)) =~= head + ")"@);
        },
    }
}

/// The status of an environment tells the app, the commit that stands here, the
/// last deploy and the pods, in this order, and then how they compare.
pub proof fn what_a_status_tells(ctx: Ctx, local: Seq<char>, last: Option<Tree>, pods: Seq<char>)
    ensures
        ({
            let lines = report_lines(ctx, local, last, pods);
            &&& lines.len() == (if last is Some {
                5
            } else {
                4int
            })
            &&& lines[0] == "App:        "@ + ctx.repo.app.name@ + " ("@ + ctx.env_name@ + " → "@
                + ctx.target_spec() + ")"@
            &&& lines[1] == "Local HEAD: "@ + local
            &&& lines[2] == deployed_line(last)
            &&& lines[3] == "Pods:       "@ + pods
            &&& last is Some ==> lines[4] == drift_lines(last, local)[0]
        }),
{
}

} // verus!
