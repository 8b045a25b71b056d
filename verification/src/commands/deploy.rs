//! `aoraki deploy`: a commit is looked up, cleared, and sent out.
//!
//! The decisions are here, one stage at a time: the caller does what a stage
//! asks for (a git command, a question to the user, a push) and tells what it
//! heard. Environments deploy straight to a box, through the gateway, or to a
//! lease of the console.

use crate::config::{remote_choice, EnvConfig, RemoteConfig, RepoConfig};
use crate::context::{bare_repo_of, push_url_of, Ctx};
use crate::failure::{fail, Failure};
use crate::json::{
    fields, fields_stand_under_their_keys, port_tree, port_value, text_value, with_field, Json, Tree,
};
use crate::names::position;
use crate::reports::{rfc3339, started_text, DeployEvent};
use crate::text::{
    contains, decimal, decimal_is_read_back, has_prefix, occurs_in, occurs_in_a_part,
    occurs_in_itself, opt, opt_str, same, show, strip_prefix, trim,
    trimmed, views,
};
use vstd::prelude::*;
use vstd::string::*;

verus! {

// ---------------------------------------------------------------------
// The course of a deploy
// ---------------------------------------------------------------------

/// How an environment is deployed.
#[derive(Clone, Copy, PartialEq, Eq, Structural)]
pub enum Transport {
    /// By a push to a box.
    Direct,
    /// By the gateway, from the customer's repo.
    Gateway,
    /// By an image that is built here, to a lease of the console.
    Lease,
}

/// Where a deploy stands.
#[derive(Clone, Copy, PartialEq, Eq, Structural)]
pub enum Stage {
    /// The commit is looked up.
    Resolve,
    /// Is the commit on the environment's branch?
    AskBranch,
    /// Is it on that branch of the origin?
    AskOrigin,
    /// Does the user type the environment's name?
    AskUser,
    /// The commit is pushed to the box, and the hook's lines are read.
    Push,
    /// The hook is run by hand.
    Trigger,
    /// The deploy goes on to a lease.
    Lease,
    /// The deploy goes on at the gateway.
    Gateway,
    /// The commit is not known.
    Unresolved,
    /// The user did not confirm.
    Cancelled,
    /// The push failed before the hook said anything.
    PushFailed,
    /// The hook has ended, well or not.
    Settled(bool),
}

/// What was heard at a stage.
#[derive(Clone, Copy, PartialEq, Eq, Structural)]
pub enum Heard {
    Yes,
    No,
    /// The push ended, well or not, and the hook said nothing.
    Silent(bool),
}

pub open spec fn transport_of(env: EnvConfig) -> Transport {
    if env.by_lease() {
        Transport::Lease
    } else if env.by_gateway() {
        Transport::Gateway
    } else {
        Transport::Direct
    }
}

/// How an environment is deployed.
pub fn transport(env: &EnvConfig) -> (r: Transport)
    ensures
        r == transport_of(*env),
{
    if env.is_lease() {
        Transport::Lease
    } else if env.is_gateway() {
        Transport::Gateway
    } else {
        Transport::Direct
    }
}

/// Where a deploy goes once it is cleared.
pub open spec fn cleared(transport: Transport) -> Stage {
    match transport {
        Transport::Direct => Stage::Push,
        Transport::Gateway => Stage::Gateway,
        Transport::Lease => Stage::Lease,
    }
}

/// Where a deploy stands after something was heard. Only environments with
/// `confirm` are asked about, and only for a commit that is not on their
/// branch. A push that the hook followed with nothing left the ref as it was,
/// so the hook is run by hand.
pub open spec fn next_stage(confirm: bool, transport: Transport, stage: Stage, heard: Heard) -> Stage {
    match stage {
        Stage::Resolve => if heard != Heard::Yes {
            Stage::Unresolved
        } else if confirm {
            Stage::AskBranch
        } else {
            cleared(transport)
        },
        Stage::AskBranch => if heard == Heard::Yes {
            cleared(transport)
        } else {
            Stage::AskOrigin
        },
        Stage::AskOrigin => if heard == Heard::Yes {
            cleared(transport)
        } else {
            Stage::AskUser
        },
        Stage::AskUser => if heard == Heard::Yes {
            cleared(transport)
        } else {
            Stage::Cancelled
        },
        Stage::Push => match heard {
            Heard::Yes => Stage::Settled(true),
            Heard::No => Stage::Settled(false),
            Heard::Silent(pushed) => if pushed {
                Stage::Trigger
            } else {
                Stage::PushFailed
            },
        },
        Stage::Trigger => Stage::Settled(heard == Heard::Yes),
        end => end,
    }
}

/// Where a deploy stands after something was heard.
pub fn step(confirm: bool, transport: Transport, stage: Stage, heard: Heard) -> (r: Stage)
    ensures
        r == next_stage(confirm, transport, stage, heard),
{
    let go = match transport {
        Transport::Direct => Stage::Push,
        Transport::Gateway => Stage::Gateway,
        Transport::Lease => Stage::Lease,
    };
    let yes = heard == Heard::Yes;
    match stage {
        Stage::Resolve => if !yes {
            Stage::Unresolved
        } else if confirm {
            Stage::AskBranch
        } else {
            go
        },
        Stage::AskBranch => if yes {
            go
        } else {
            Stage::AskOrigin
        },
        Stage::AskOrigin => if yes {
            go
        } else {
            Stage::AskUser
        },
        Stage::AskUser => if yes {
            go
        } else {
            Stage::Cancelled
        },
        Stage::Push => match heard {
            Heard::Yes => Stage::Settled(true),
            Heard::No => Stage::Settled(false),
            Heard::Silent(pushed) => if pushed {
                Stage::Trigger
            } else {
                Stage::PushFailed
            },
        },
        Stage::Trigger => Stage::Settled(yes),
        end => end,
    }
}

/// Where a deploy stands after all that was heard.
pub open spec fn course(confirm: bool, transport: Transport, heard: Seq<Heard>) -> Stage
    decreases heard.len(),
{
    if heard.len() == 0 {
        Stage::Resolve
    } else {
        next_stage(confirm, transport, course(confirm, transport, heard.drop_last()), heard.last())
    }
}

/// Something has been sent out, or is about to be.
pub open spec fn is_out(stage: Stage) -> bool {
    match stage {
        Stage::Push => true,
        Stage::Trigger => true,
        Stage::Lease => true,
        Stage::Gateway => true,
        Stage::PushFailed => true,
        Stage::Settled(_) => true,
        _ => false,
    }
}

/// The commit was found, and it is on the branch, here or at the origin, or
/// the user typed the environment's name.
pub open spec fn was_cleared(heard: Seq<Heard>) -> bool {
    &&& heard.len() >= 2
    &&& heard[0] == Heard::Yes
    &&& heard[1] == Heard::Yes || (heard.len() >= 3 && heard[2] == Heard::Yes) || (heard.len() >= 4
        && heard[3] == Heard::Yes)
}

proof fn lemma_course(transport: Transport, heard: Seq<Heard>)
    ensures
        ({
            let stage = course(true, transport, heard);
            &&& stage == Stage::Resolve <==> heard.len() == 0
            &&& stage == Stage::AskBranch ==> heard.len() == 1 && heard[0] == Heard::Yes
            &&& stage == Stage::AskOrigin ==> heard.len() == 2 && heard[0] == Heard::Yes
            &&& stage == Stage::AskUser ==> heard.len() == 3 && heard[0] == Heard::Yes
            &&& is_out(stage) ==> was_cleared(heard)
        }),
    decreases heard.len(),
{
    if heard.len() > 0 {
        lemma_course(transport, heard.drop_last());
        let before = heard.drop_last();
        assert forall|i: int| 0 <= i < before.len() implies before[i] == heard[i] by {}
    }
}

/// An environment with `confirm` gets nothing that was not cleared: whatever
/// goes out is a commit of its branch, or one for which the user typed the
/// environment's name.
pub proof fn nothing_goes_out_uncleared(transport: Transport, heard: Seq<Heard>)
    requires
        is_out(course(true, transport, heard)),
    ensures
        was_cleared(heard),
{
    lemma_course(transport, heard);
}

/// Without `confirm` a commit that was found goes out at once.
pub proof fn unguarded_goes_out_at_once(transport: Transport)
    ensures
        course(false, transport, seq![Heard::Yes]) == cleared(transport),
{
    let heard = seq![Heard::Yes];
    assert(heard.drop_last() =~= Seq::<Heard>::empty());
    assert(course(false, transport, heard.drop_last()) == Stage::Resolve);
}

/// A deploy that was refused stays refused, and one that has ended stays as it
/// ended.
pub proof fn an_end_is_final(confirm: bool, transport: Transport, heard: Seq<Heard>, more: Heard)
    requires
        ({
            let stage = course(confirm, transport, heard);
            stage == Stage::Unresolved || stage == Stage::Cancelled || stage == Stage::PushFailed
                || stage is Settled
        }),
    ensures
        course(confirm, transport, heard.push(more)) == course(confirm, transport, heard),
{
    assert(heard.push(more).drop_last() =~= heard);
}

/// A deploy to a box counts as succeeded only where the hook said so: in the
/// lines that came back through the push, or by its exit when it was run by
/// hand. That the push itself went well is never enough.
pub proof fn success_comes_from_the_hook(confirm: bool, transport: Transport, stage: Stage, heard: Heard)
    requires
        next_stage(confirm, transport, stage, heard) == Stage::Settled(true),
        stage != Stage::Settled(true),
    ensures
        stage == Stage::Push || stage == Stage::Trigger,
        heard == Heard::Yes,
{
}

// ---------------------------------------------------------------------
// Looking up and clearing a commit
// ---------------------------------------------------------------------

/// The revision to deploy.
pub fn refspec(git_ref: Option<String>) -> (r: String)
    ensures
        r@ == (match git_ref {
            Some(text) => text@,
            None => "HEAD"@,
        }),
{
    match git_ref {
        Some(text) => text,
        None => "HEAD".to_string(),
    }
}

/// The git command that looks a revision up.
pub fn resolve_args(refspec: &str) -> (r: Vec<String>)
    ensures
        views(r@) == seq!["rev-parse"@, "--verify"@, refspec@ + "^{commit}"@],
{
    let mut out: Vec<String> = Vec::new();
    out.push("rev-parse".to_string());
    out.push("--verify".to_string());
    out.push(refspec.to_string().concat("^{commit}"));
    proof {
        assert(views(out@) =~= seq!["rev-parse"@, "--verify"@, refspec@ + "^{commit}"@]);
    }
    out
}

/// What is said of a revision that is not known.
pub fn unresolved(refspec: &str, cause: &str) -> (r: Failure)
    ensures
        r@ == "'"@ + refspec@ + "' does not resolve to a commit: "@ + cause@,
{
    fail(
        "'".to_string().concat(refspec).concat("' does not resolve to a commit: ").concat(cause),
    )
}

/// The git command that tells whether a commit is contained in a branch: the
/// local one, or the origin's.
pub fn sha_on_env_branch(ctx: &Ctx, sha: &str, at_origin: bool) -> (r: Vec<String>)
    requires
        ctx.wf(),
    ensures
        views(r@) == seq![
            "merge-base"@,
            "--is-ancestor"@,
            sha@,
            if at_origin {
                "origin/"@ + ctx.env_spec().branch@
            } else {
                ctx.env_spec().branch@
            },
        ],
{
    let branch = ctx.env().branch.clone();
    let name = if at_origin {
        "origin/".to_string().concat(branch.as_str())
    } else {
        branch
    };
    let mut out: Vec<String> = Vec::new();
    out.push("merge-base".to_string());
    out.push("--is-ancestor".to_string());
    out.push(sha.to_string());
    out.push(name);
    proof {
        assert(views(out@) =~= seq!["merge-base"@, "--is-ancestor"@, sha@, name@]);
    }
    out
}

/// The warning and the question for a commit that is not on the branch.
pub fn off_branch(ctx: &Ctx, short: &str) -> (r: (String, String))
    requires
        ctx.wf(),
    ensures
        r.0@ == "⚠ "@ + short@ + " is not on '"@ + ctx.env_spec().branch@
            + "' — deploying it would put off-branch code in "@ + ctx.env_name@,
        r.1@ == "Deploy "@ + short@ + " to "@ + ctx.env_name@ + "? Type '"@ + ctx.env_name@
            + "' to confirm: "@,
{
    let name = ctx.env_name.as_str();
    (
        "⚠ ".to_string().concat(short).concat(" is not on '").concat(
            ctx.env().branch.as_str(),
        ).concat("' — deploying it would put off-branch code in ").concat(name),
        "Deploy ".to_string().concat(short).concat(" to ").concat(name).concat("? Type '").concat(
            name,
        ).concat("' to confirm: "),
    )
}

/// Whether an answer confirms a deploy to an environment.
pub fn confirmed(answer: &str, env_name: &str) -> (r: bool)
    ensures
        r == (trimmed(answer@) == env_name@),
{
    same(trim(answer), env_name)
}

/// What is said where the user did not confirm.
pub fn cancelled() -> (r: Failure)
    ensures
        r@ == "deploy cancelled"@,
{
    fail("deploy cancelled".to_string())
}

// ---------------------------------------------------------------------
// Straight to a box
// ---------------------------------------------------------------------

/// The line that announces a deploy to a box.
pub fn announce(ctx: &Ctx, short: &str) -> (r: String)
    requires
        ctx.wf(),
    ensures
        r@ == "→ deploying "@ + ctx.repo.app.name@ + " "@ + short@ + " to "@ + ctx.env_name@ + " ("@
            + ctx.env_spec().namespace@ + " on "@ + ctx.target_spec() + ")"@,
{
    "→ deploying ".to_string().concat(ctx.app()).concat(" ").concat(short).concat(" to ").concat(
        ctx.env_name.as_str(),
    ).concat(" (").concat(ctx.env().namespace.as_str()).concat(" on ").concat(
        ctx.ssh_target().as_str(),
    ).concat(")")
}

/// The git command that sends a commit to a box. The push is forced: the bare
/// repo is a channel, and an older commit must go through too.
pub fn push_args(ctx: &Ctx, sha: &str) -> (r: Vec<String>)
    requires
        ctx.wf(),
    ensures
        views(r@) == seq![
            "push"@,
            push_url_of(ctx.target_spec(), ctx.repo.app.name@),
            "+"@ + sha@ + ":refs/heads/"@ + ctx.env_spec().branch@,
        ],
{
    let mut out: Vec<String> = Vec::new();
    out.push("push".to_string());
    out.push(ctx.push_url());
    out.push(
        "+".to_string().concat(sha).concat(":refs/heads/").concat(ctx.env().branch.as_str()),
    );
    proof {
        assert(views(out@) =~= seq![
            "push"@,
            push_url_of(ctx.target_spec(), ctx.repo.app.name@),
            "+"@ + sha@ + ":refs/heads/"@ + ctx.env_spec().branch@,
        ]);
    }
    out
}

/// What a line that came back through a push tells of the deploy.
pub open spec fn told_by(line: Seq<char>) -> Option<bool> {
    if occurs_in("aoraki: deploy status: succeeded"@, line) {
        Some(true)
    } else if occurs_in("aoraki: deploy status: failed"@, line) {
        Some(false)
    } else {
        None
    }
}

/// What the lines that came back through a push tell: the last word counts.
pub open spec fn told_by_all(lines: Seq<Seq<char>>) -> Option<bool>
    decreases lines.len(),
{
    if lines.len() == 0 {
        None
    } else {
        match told_by(lines.last()) {
            Some(outcome) => Some(outcome),
            None => told_by_all(lines.drop_last()),
        }
    }
}

/// A line as it is shown: without git's mark for the other side.
pub open spec fn shown(line: Seq<char>) -> Seq<char> {
    if has_prefix(line, "remote: "@) {
        line.skip("remote: "@.len() as int)
    } else {
        line
    }
}

/// Takes in a line that came back through a push: what is known of the deploy
/// from then on, and what is shown.
pub fn scan_line(so_far: Option<bool>, line: &str) -> (r: (Option<bool>, String))
    ensures
        r.0 == (match told_by(line@) {
            Some(outcome) => Some(outcome),
            None => so_far,
        }),
        r.1@ == shown(line@),
        occurs_in("aoraki: deploy status: succeeded"@, line@) ==> r.0 == Some(true),
        occurs_in("aoraki: deploy status: failed"@, line@) && !occurs_in(
            "aoraki: deploy status: succeeded"@,
            line@,
        ) ==> r.0 == Some(false),
        !occurs_in("aoraki: deploy status: failed"@, line@) && !occurs_in(
            "aoraki: deploy status: succeeded"@,
            line@,
        ) ==> r.0 == so_far,
        r.1@ == line@ || "remote: "@ + r.1@ == line@,
        forall|lines: Seq<Seq<char>>|
            so_far == #[trigger] told_by_all(lines) ==> r.0 == told_by_all(lines.push(line@)),
{
    let outcome = if contains(line, "aoraki: deploy status: succeeded") {
        Some(true)
    } else if contains(line, "aoraki: deploy status: failed") {
        Some(false)
    } else {
        so_far
    };
    let text = match strip_prefix(line, "remote: ") {
        Some(rest) => rest.to_string(),
        None => line.to_string(),
    };
    proof {
        if has_prefix(line@, "remote: "@) {
            assert("remote: "@ + shown(line@) =~= line@);
        }
        assert forall|lines: Seq<Seq<char>>|
            so_far == #[trigger] told_by_all(lines) implies outcome == told_by_all(
            lines.push(line@),
        ) by {
            assert(lines.push(line@).drop_last() =~= lines);
        }
    }
    (outcome, text)
}

/// A line in which the hook's word for a failure stands, and not its word for
/// a success, tells of a failure, whatever else stands in it; one in which the
/// word for a success stands tells of a success; any other tells nothing.
pub proof fn a_line_tells_what_the_hook_said(before: Seq<char>, after: Seq<char>, line: Seq<char>)
    ensures
        !occurs_in(
            "aoraki: deploy status: succeeded"@,
            before + "aoraki: deploy status: failed"@ + after,
        ) ==> told_by(before + "aoraki: deploy status: failed"@ + after) == Some(false),
        told_by(before + "aoraki: deploy status: succeeded"@ + after) == Some(true),
        told_by(line) == Some(true) <==> occurs_in("aoraki: deploy status: succeeded"@, line),
        told_by(line) == Some(false) <==> occurs_in("aoraki: deploy status: failed"@, line)
            && !occurs_in("aoraki: deploy status: succeeded"@, line),
{
    let good = "aoraki: deploy status: succeeded"@;
    let bad = "aoraki: deploy status: failed"@;
    occurs_in_itself(good);
    occurs_in_itself(bad);
    occurs_in_a_part(good, before, good, after);
    occurs_in_a_part(bad, before, bad, after);
}

/// The line that the hook prints where the deploy script failed, with its exit
/// code and how long it took, tells of a failure, and the line that it prints
/// where the script went well tells of a success. That holds of the lines as
/// the hook prints them and as git hands them on.
pub proof fn the_hooks_lines_are_understood(exit_code: nat, seconds: nat)
    ensures
        ({
            let failed = "aoraki: deploy status: failed (exit "@ + decimal(exit_code) + " after "@
                + decimal(seconds) + "s)"@;
            let succeeded = "aoraki: deploy status: succeeded ("@ + decimal(seconds) + "s)"@;
            &&& told_by(failed) == Some(false)
            &&& told_by("remote: "@ + failed) == Some(false)
            &&& told_by(succeeded) == Some(true)
            &&& told_by("remote: "@ + succeeded) == Some(true)
        }),
{
    let good = "aoraki: deploy status: succeeded"@;
    let bad = "aoraki: deploy status: failed"@;
    reveal_strlit("aoraki: deploy status: succeeded");
    reveal_strlit("aoraki: deploy status: failed");
    reveal_strlit("aoraki: deploy status: failed (exit ");
    reveal_strlit("aoraki: deploy status: succeeded (");
    reveal_strlit(" (exit ");
    reveal_strlit(" (");
    reveal_strlit(" after ");
    reveal_strlit("s)");
    reveal_strlit("remote: ");
    decimal_is_read_back(exit_code);
    decimal_is_read_back(seconds);
    let rest = " (exit "@ + decimal(exit_code) + " after "@ + decimal(seconds) + "s)"@;
    let failed = "aoraki: deploy status: failed (exit "@ + decimal(exit_code) + " after "@
        + decimal(seconds) + "s)"@;
    let end = " ("@ + decimal(seconds) + "s)"@;
    let succeeded = "aoraki: deploy status: succeeded ("@ + decimal(seconds) + "s)"@;
    let none = Seq::<char>::empty();
    let git = "remote: "@;
    assert("aoraki: deploy status: failed (exit "@ =~= bad + " (exit "@);
    assert("aoraki: deploy status: succeeded ("@ =~= good + " ("@);
    assert(failed =~= none + bad + rest);
    assert(git + failed =~= git + bad + rest);
    assert(succeeded =~= none + good + end);
    assert(git + succeeded =~= git + good + end);
    assert forall|k: int| 0 <= k < rest.len() implies rest[k] != 'u' by {
        let a = 7 + decimal(exit_code).len();
        let b = a + 7;
        let c = b + decimal(seconds).len();
        if 7 <= k < a {
            assert(rest[k] == decimal(exit_code)[k - 7]);
        } else if b <= k < c {
            assert(rest[k] == decimal(seconds)[k - b]);
        }
    }
    lemma_no_success_in(none, rest);
    lemma_no_success_in(git, rest);
    a_line_tells_what_the_hook_said(none, rest, failed);
    a_line_tells_what_the_hook_said(git, rest, failed);
    a_line_tells_what_the_hook_said(none, end, failed);
    a_line_tells_what_the_hook_said(git, end, failed);
}

/// The word for a success stands in no line that goes on after the word for a
/// failure without a `u`.
proof fn lemma_no_success_in(before: Seq<char>, rest: Seq<char>)
    requires
        before == Seq::<char>::empty() || before == "remote: "@,
        forall|k: int| 0 <= k < rest.len() ==> rest[k] != 'u',
    ensures
        !occurs_in(
            "aoraki: deploy status: succeeded"@,
            before + "aoraki: deploy status: failed"@ + rest,
        ),
{
    let good = "aoraki: deploy status: succeeded"@;
    let bad = "aoraki: deploy status: failed"@;
    reveal_strlit("aoraki: deploy status: succeeded");
    reveal_strlit("aoraki: deploy status: failed");
    reveal_strlit("remote: ");
    let line = before + bad + rest;
    if occurs_in(good, line) {
        let i = choose|i: int| 0 <= i <= line.len() && #[trigger] has_prefix(line.skip(i), good);
        let n = before.len() as int;
        assert(line.skip(i).take(good.len() as int)[24] == good[24]);
        assert(line.skip(i).take(good.len() as int)[0] == good[0]);
        assert(line[i + 24] == 'u');
        assert(line[i] == 'a');
        if i + 24 < n {
            assert(line[i + 24] == before[i + 24]);
        } else if i + 24 < n + bad.len() {
            assert(line[i + 24] == bad[i + 24 - n]);
            assert(i + 24 - n == 20);
            assert(line[i] == before[i]);
        } else {
            assert(line[i + 24] == rest[i + 24 - n - bad.len()]);
        }
    }
}

/// Of the lines that came back through a push the last that tells something
/// counts: where the hook's word for a failure came after every word for a
/// success the deploy failed, and where it was the other way round it went
/// well.
pub proof fn the_last_word_counts(lines: Seq<Seq<char>>, i: int)
    requires
        0 <= i < lines.len(),
        occurs_in("aoraki: deploy status: failed"@, lines[i]) || occurs_in(
            "aoraki: deploy status: succeeded"@,
            lines[i],
        ),
        forall|j: int|
            i < j < lines.len() ==> !occurs_in("aoraki: deploy status: failed"@, #[trigger] lines[j])
                && !occurs_in("aoraki: deploy status: succeeded"@, lines[j]),
    ensures
        told_by_all(lines) == Some(occurs_in("aoraki: deploy status: succeeded"@, lines[i])),
    decreases lines.len(),
{
    if i < lines.len() - 1 {
        let rest = lines.drop_last();
        assert(lines[lines.len() - 1] == lines.last());
        assert(told_by(lines.last()) is None);
        assert forall|j: int| i < j < rest.len() implies !occurs_in(
            "aoraki: deploy status: failed"@,
            #[trigger] rest[j],
        ) && !occurs_in("aoraki: deploy status: succeeded"@, rest[j]) by {
            assert(rest[j] == lines[j]);
        }
        assert(rest[i] == lines[i]);
        the_last_word_counts(rest, i);
    }
}

/// Lines in which the hook says nothing of the outcome leave it open.
pub proof fn silence_leaves_the_outcome_open(lines: Seq<Seq<char>>)
    requires
        forall|j: int|
            0 <= j < lines.len() ==> !occurs_in("aoraki: deploy status: failed"@, #[trigger] lines[j])
                && !occurs_in("aoraki: deploy status: succeeded"@, lines[j]),
    ensures
        told_by_all(lines) is None,
    decreases lines.len(),
{
    if lines.len() > 0 {
        let rest = lines.drop_last();
        assert(lines[lines.len() - 1] == lines.last());
        assert forall|j: int| 0 <= j < rest.len() implies !occurs_in(
            "aoraki: deploy status: failed"@,
            #[trigger] rest[j],
        ) && !occurs_in("aoraki: deploy status: succeeded"@, rest[j]) by {
            assert(rest[j] == lines[j]);
        }
        silence_leaves_the_outcome_open(rest);
    }
}

/// What was heard of a push: the hook's last word, else how the push ended.
pub fn heard_of_push(outcome: Option<bool>, push_ok: bool) -> (r: Heard)
    ensures
        r == (match outcome {
            Some(true) => Heard::Yes,
            Some(false) => Heard::No,
            None => Heard::Silent(push_ok),
        }),
{
    match outcome {
        Some(true) => Heard::Yes,
        Some(false) => Heard::No,
        None => Heard::Silent(push_ok),
    }
}

/// What is said where a push failed.
pub fn push_failed(env_name: &str) -> (r: Failure)
    ensures
        r@ == "git push failed — run `aoraki doctor "@ + env_name@
            + "` to check the deploy chain"@,
{
    fail(
        "git push failed — run `aoraki doctor ".to_string().concat(env_name).concat(
            "` to check the deploy chain",
        ),
    )
}

/// The line that announces that the hook is run by hand.
pub fn trigger_notice() -> (r: String)
    ensures
        r@ == "→ ref unchanged on box; triggering deploy hook directly"@,
{
    "→ ref unchanged on box; triggering deploy hook directly".to_string()
}

/// The command that runs the hook by hand for a commit.
pub fn trigger_command(ctx: &Ctx, sha: &str) -> (r: String)
    requires
        ctx.wf(),
    ensures
        r@ == "echo '"@ + sha@ + " "@ + sha@ + " refs/heads/"@ + ctx.env_spec().branch@ + "' | "@
            + bare_repo_of(ctx.repo.app.name@) + "/hooks/post-receive"@,
{
    "echo '".to_string().concat(sha).concat(" ").concat(sha).concat(" refs/heads/").concat(
        ctx.env().branch.as_str(),
    ).concat("' | ").concat(ctx.bare_repo().as_str()).concat("/hooks/post-receive")
}

/// The console that an environment reports to, or deploys to: the one that it
/// pins, else the app's org.
pub open spec fn remote_pref_of(repo: RepoConfig, env: EnvConfig) -> Option<Seq<char>> {
    match env.remote {
        Some(remote) => Some(remote@),
        None => opt(repo.app.org),
    }
}

/// The console that an environment reports to, or deploys to.
pub fn remote_pref<'a>(repo: &'a RepoConfig, env: &'a EnvConfig) -> (r: Option<&'a str>)
    ensures
        opt_str(r) == remote_pref_of(*repo, *env),
{
    match &env.remote {
        Some(remote) => Some(remote.as_str()),
        None => match &repo.app.org {
            Some(org) => Some(org.as_str()),
            None => None,
        },
    }
}

/// Events go to one console: the one that the environment pins by its local
/// name, else, where neither the environment nor the app pins any, the default
/// one, else the only one.
pub proof fn events_go_to_one_console(
    repo: RepoConfig,
    env: EnvConfig,
    s: Seq<(Seq<char>, RemoteConfig)>,
    default: Option<Seq<char>>,
)
    ensures
        env.remote is Some && position(s, env.remote->0@) is Some ==> remote_choice(
            s,
            default,
            remote_pref_of(repo, env),
        ) == Ok::<int, Seq<char>>(position(s, env.remote->0@)->0),
        env.remote is None && repo.app.org is None && default is Some && position(
            s,
            default->0,
        ) is Some ==> remote_choice(s, default, remote_pref_of(repo, env)) == Ok::<int, Seq<char>>(
            position(s, default->0)->0,
        ),
        env.remote is None && repo.app.org is None && default is None && s.len() == 1
            ==> remote_choice(s, default, remote_pref_of(repo, env)) == Ok::<int, Seq<char>>(0),
{
}

/// An event records a deploy to a box.
pub open spec fn records(
    event: DeployEvent,
    ctx: Ctx,
    short: Seq<char>,
    succeeded: bool,
    started_at: Seq<char>,
    duration_secs: u64,
    actor: Seq<char>,
    cli_version: Seq<char>,
) -> bool {
    &&& event.app@ == ctx.repo.app.name@
    &&& event.environment@ == ctx.env_name@
    &&& event.box_id@ == ctx.env_spec().server@
    &&& event.namespace@ == ctx.env_spec().namespace@
    &&& event.build_ref@ == short
    &&& event.ref_name@ == ctx.env_spec().branch@
    &&& event.status@ == (if succeeded {
        "succeeded"@
    } else {
        "failed"@
    })
    &&& event.started_at@ == started_at
    &&& event.duration_secs == duration_secs
    &&& event.actor@ == actor
    &&& event.cli_version@ == cli_version
}

/// The record of a deploy to a box, given when it started as text.
pub fn event_at(
    ctx: &Ctx,
    short: &str,
    succeeded: bool,
    started_at: String,
    duration_secs: u64,
    actor: &str,
    cli_version: &str,
) -> (r: DeployEvent)
    requires
        ctx.wf(),
    ensures
        records(
            r,
            *ctx,
            short@,
            succeeded,
            started_at@,
            duration_secs,
            actor@,
            cli_version@,
        ),
{
    let env = ctx.env();
    DeployEvent {
        app: ctx.app().to_string(),
        environment: ctx.env_name.clone(),
        box_id: env.server.clone(),
        namespace: env.namespace.clone(),
        build_ref: short.to_string(),
        ref_name: env.branch.clone(),
        status: if succeeded {
            "succeeded".to_string()
        } else {
            "failed".to_string()
        },
        started_at,
        duration_secs,
        actor: actor.to_string(),
        cli_version: cli_version.to_string(),
    }
}

/// The record of a deploy to a box, from when it started, in seconds since the
/// beginning of 1970. None where that moment is out of the calendar's range.
pub fn deploy_event(
    ctx: &Ctx,
    short: &str,
    succeeded: bool,
    started: i64,
    duration_secs: u64,
    actor: &str,
    cli_version: &str,
) -> (r: Option<DeployEvent>)
    requires
        ctx.wf(),
    ensures
        match rfc3339(started) {
            None => r is None,
            Some(started_at) => r matches Some(event) && records(
                event,
                *ctx,
                short@,
                succeeded,
                started_at,
                duration_secs,
                actor@,
                cli_version@,
            ),
        },
{
    match started_text(started) {
        Some(text) => Some(event_at(ctx, short, succeeded, text, duration_secs, actor, cli_version)),
        None => None,
    }
}

/// The lines for the environment's address.
pub open spec fn address_lines(env: EnvConfig) -> Seq<Seq<char>> {
    match env.url {
        Some(url) => seq!["→ "@ + url@],
        None => Seq::empty(),
    }
}

/// How a deploy to a box ends: with the lines of a success, or in failure.
pub fn settle(ctx: &Ctx, short: &str, succeeded: bool, duration_secs: u64) -> (r: Result<
    Vec<String>,
    Failure,
>)
    requires
        ctx.wf(),
    ensures
        if succeeded {
            r matches Ok(lines) && views(lines@) == seq![
                "✓ deployed "@ + short@ + " to "@ + ctx.env_name@ + " in "@ + decimal(
                    duration_secs as nat,
                ) + "s"@,
            ] + address_lines(ctx.env_spec())
        } else {
            r matches Err(failure) && failure@
                == "deploy failed — see output above (previous pods keep running; image tag never changed)"@
        },
{
    if !succeeded {
        return Err(
            fail(
                "deploy failed — see output above (previous pods keep running; image tag never changed)".to_string(),
            ),
        );
    }
    let first = "✓ deployed ".to_string().concat(short).concat(" to ").concat(
        ctx.env_name.as_str(),
    ).concat(" in ").concat(show(duration_secs).as_str()).concat("s");
    let mut lines: Vec<String> = Vec::new();
    let ghost head = first@;
    lines.push(first);
    if let Some(url) = &ctx.env().url {
        lines.push("→ ".to_string().concat(url.as_str()));
    }
    proof {
        assert(views(lines@) =~= seq![head] + address_lines(ctx.env_spec()));
    }
    Ok(lines)
}

// ---------------------------------------------------------------------
// Through the gateway
// ---------------------------------------------------------------------

/// The customer's repo, which the gateway needs.
pub fn gateway_repo(repo: &RepoConfig) -> (r: Result<&str, Failure>)
    ensures
        match repo.app.repo {
            Some(name) => r matches Ok(found) && found@ == name@,
            None => r matches Err(failure) && failure@
                == "gateway transport needs `repo = \"owner/name\"` under [app] in aoraki.toml"@,
        },
{
    match &repo.app.repo {
        Some(name) => Ok(name.as_str()),
        None => Err(
            fail(
                "gateway transport needs `repo = \"owner/name\"` under [app] in aoraki.toml".to_string(),
            ),
        ),
    }
}

/// The Dockerfile of an environment, relative to the repo's root.
pub open spec fn dockerfile_of(env: EnvConfig) -> Seq<char> {
    match env.dockerfile {
        Some(path) => path@,
        None => "Dockerfile"@,
    }
}

/// The Dockerfile of an environment, relative to the repo's root.
pub fn dockerfile(env: &EnvConfig) -> (r: String)
    ensures
        r@ == dockerfile_of(*env),
{
    match &env.dockerfile {
        Some(path) => path.clone(),
        None => "Dockerfile".to_string(),
    }
}

/// What is said where the gateway would find no Dockerfile.
pub fn gateway_dockerfile_missing(dockerfile: &str) -> (r: Failure)
    ensures
        r@ == "no "@ + dockerfile@ + " at the repo root — add one"@,
{
    fail("no ".to_string().concat(dockerfile).concat(" at the repo root — add one"))
}

/// The git command that lists the remote branches that contain a commit.
pub fn pushed_args(sha: &str) -> (r: Vec<String>)
    ensures
        views(r@) == seq!["branch"@, "-r"@, "--contains"@, sha@],
{
    let mut out: Vec<String> = Vec::new();
    out.push("branch".to_string());
    out.push("-r".to_string());
    out.push("--contains".to_string());
    out.push(sha.to_string());
    proof {
        assert(views(out@) =~= seq!["branch"@, "-r"@, "--contains"@, sha@]);
    }
    out
}

/// The warning for a commit that no remote branch was found to contain.
pub fn unpushed_warning(branches: Option<&str>, short: &str) -> (r: Option<String>)
    ensures
        opt(r) == (if branches is Some && branches->0@.len() > 0 {
            None
        } else {
            Some(
                "⚠ commit "@ + short@
                    + " doesn't appear on any remote branch — push first or this will fail"@,
            )
        }),
{
    if let Some(found) = branches {
        if found.unicode_len() > 0 {
            return None;
        }
    }
    Some(
        "⚠ commit ".to_string().concat(short).concat(
            " doesn't appear on any remote branch — push first or this will fail",
        ),
    )
}

/// The line that announces a deploy through the gateway.
pub fn gateway_announce(ctx: &Ctx, repo: &str, short: &str) -> (r: String)
    ensures
        r@ == "→ deploying "@ + ctx.repo.app.name@ + " "@ + short@ + " to "@ + ctx.env_name@
            + " via gateway ("@ + repo@ + " @ "@ + short@ + ")"@,
{
    "→ deploying ".to_string().concat(ctx.app()).concat(" ").concat(short).concat(" to ").concat(
        ctx.env_name.as_str(),
    ).concat(" via gateway (").concat(repo).concat(" @ ").concat(short).concat(")")
}

/// A field for a string that may be missing.
pub open spec fn field_of(key: Seq<char>, value: Option<String>) -> Seq<(Seq<char>, Tree)> {
    match value {
        Some(text) => seq![(key, Tree::Text(text@))],
        None => Seq::empty(),
    }
}

/// What the gateway is asked for. A port makes it a release: only then size,
/// Dockerfile and service name go along.
pub open spec fn gateway_request(ctx: Ctx, repo: Seq<char>, sha: Seq<char>) -> Tree {
    let env = ctx.env_spec();
    let base = seq![
        ("repo"@, Tree::Text(repo)),
        ("git_ref"@, Tree::Text(sha)),
        ("app"@, Tree::Text(ctx.repo.app.name@)),
        ("environment"@, Tree::Text(ctx.env_name@)),
    ];
    match env.port {
        None => Tree::Object(base),
        Some(port) => Tree::Object(
            base + seq![("port"@, port_tree(port))] + field_of("size"@, env.size) + field_of(
                "dockerfile"@,
                env.dockerfile,
            ) + field_of("process_type"@, env.process_type),
        ),
    }
}

fn with_optional(list: Vec<(String, Json)>, key: &str, value: &Option<String>) -> (r: Vec<
    (String, Json),
>)
    ensures
        fields(r@) == fields(list@) + field_of(key@, *value),
{
    match value {
        Some(text) => {
            let ghost before = fields(list@);
            let out = with_field(list, key, text_value(text.as_str()));
            proof {
                assert(fields(out@) =~= before + field_of(key@, *value));
            }
            out
        },
        None => {
            proof {
                assert(fields(list@) + Seq::<(Seq<char>, Tree)>::empty() =~= fields(list@));
            }
            list
        },
    }
}

/// What the gateway is asked for.
pub fn gateway_deploy(ctx: &Ctx, repo: &str, sha: &str) -> (r: Json)
    requires
        ctx.wf(),
    ensures
        r.tree() == gateway_request(*ctx, repo@, sha@),
{
    let list: Vec<(String, Json)> = Vec::new();
    let list = with_field(list, "repo", text_value(repo));
    let list = with_field(list, "git_ref", text_value(sha));
    let list = with_field(list, "app", text_value(ctx.app()));
    let list = with_field(list, "environment", text_value(ctx.env_name.as_str()));
    proof {
        assert(fields(list@) =~= seq![
            ("repo"@, Tree::Text(repo@)),
            ("git_ref"@, Tree::Text(sha@)),
            ("app"@, Tree::Text(ctx.repo.app.name@)),
            ("environment"@, Tree::Text(ctx.env_name@)),
        ]);
    }
    let env = ctx.env();
    match env.port {
        None => Json::Object(list),
        Some(port) => {
            let ghost base = fields(list@);
            let list = with_field(list, "port", port_value(port));
            proof {
                assert(fields(list@) =~= base + seq![("port"@, port_tree(port))]);
            }
            let list = with_optional(list, "size", &env.size);
            let list = with_optional(list, "dockerfile", &env.dockerfile);
            let list = with_optional(list, "process_type", &env.process_type);
            Json::Object(list)
        },
    }
}

/// The id of the deploy that the gateway accepted.
pub fn gateway_deploy_id(answer: &Json) -> (r: Result<String, Failure>)
    ensures
        match answer.tree().get("data"@).get("deploy_id"@).text() {
            Some(id) => r matches Ok(found) && found@ == id,
            None => r matches Err(failure) && failure@ == "gateway did not return a deploy id"@,
        },
{
    match answer.text_at2("data", "deploy_id") {
        Some(id) => Ok(id.to_string()),
        None => Err(fail("gateway did not return a deploy id".to_string())),
    }
}

/// How a deploy through the gateway ends.
pub fn gateway_settle(ctx: &Ctx, status: &str) -> (r: Result<Vec<String>, Failure>)
    requires
        ctx.wf(),
    ensures
        if status@ == "succeeded"@ {
            r matches Ok(lines) && views(lines@) == address_lines(ctx.env_spec())
        } else {
            r matches Err(failure) && failure@ == "deploy failed — see output above"@
        },
{
    if !same(status, "succeeded") {
        return Err(fail("deploy failed — see output above".to_string()));
    }
    let mut lines: Vec<String> = Vec::new();
    if let Some(url) = &ctx.env().url {
        lines.push("→ ".to_string().concat(url.as_str()));
    }
    proof {
        assert(views(lines@) =~= address_lines(ctx.env_spec()));
    }
    Ok(lines)
}

// ---------------------------------------------------------------------
// Laws
// ---------------------------------------------------------------------

/// The word before `remote: ` is all that is taken off a line.
pub proof fn only_gits_mark_is_taken_off(text: Seq<char>)
    ensures
        shown("remote: "@ + text) == text,
        !has_prefix(text, "remote: "@) ==> shown(text) == text,
{
    let line = "remote: "@ + text;
    assert(line.take("remote: "@.len() as int) =~= "remote: "@);
    assert(line.skip("remote: "@.len() as int) =~= text);
}

/// An environment goes to a lease or through the gateway exactly where its
/// transport says so, and straight to its box in every other case, that of no
/// transport among them.
pub proof fn the_transport_decides_the_way(env: EnvConfig)
    ensures
        env.transport is Some && env.transport->0@ == "lease"@ <==> cleared(transport_of(env))
            == Stage::Lease,
        env.transport is Some && env.transport->0@ == "gateway"@ <==> cleared(transport_of(env))
            == Stage::Gateway,
        env.transport is None ==> cleared(transport_of(env)) == Stage::Push,
        env.transport is Some && env.transport->0@ != "lease"@ && env.transport->0@ != "gateway"@
            ==> cleared(transport_of(env)) == Stage::Push,
{
    reveal_strlit("lease");
    reveal_strlit("gateway");
    assert("lease"@.len() != "gateway"@.len());
}

/// A commit that is on the environment's branch, here or at the origin, goes
/// out without a question to the user; for any other the user is asked, and
/// it goes out only where the user confirms.
pub proof fn confirmation_is_asked_for_off_branch_commits(
    transport: Transport,
    no: Heard,
    neither: Heard,
)
    requires
        no != Heard::Yes,
        neither != Heard::Yes,
    ensures
        course(true, transport, seq![no]) == Stage::Unresolved,
        course(false, transport, seq![no]) == Stage::Unresolved,
        course(true, transport, seq![Heard::Yes, Heard::Yes]) == cleared(transport),
        course(true, transport, seq![Heard::Yes, no, Heard::Yes]) == cleared(transport),
        course(true, transport, seq![Heard::Yes, no, neither]) == Stage::AskUser,
        course(true, transport, seq![Heard::Yes, no, neither, Heard::Yes]) == cleared(transport),
        course(true, transport, seq![Heard::Yes, no, neither, no]) == Stage::Cancelled,
{
    reveal_with_fuel(course, 6);
    let e = Seq::<Heard>::empty();
    let y = seq![Heard::Yes];
    let yn = seq![Heard::Yes, no];
    let ynn = seq![Heard::Yes, no, neither];
    assert(seq![no].drop_last() =~= e);
    assert(y.drop_last() =~= e);
    assert(yn.drop_last() =~= y);
    assert(ynn.drop_last() =~= yn);
    assert(seq![Heard::Yes, Heard::Yes].drop_last() =~= y);
    assert(seq![Heard::Yes, no, Heard::Yes].drop_last() =~= yn);
    assert(seq![Heard::Yes, no, neither, Heard::Yes].drop_last() =~= ynn);
    assert(seq![Heard::Yes, no, neither, no].drop_last() =~= ynn);
}

/// How a push went decides how a deploy to a box ends: the hook's word where
/// it said one; where it said none and the push failed, in failure; and where
/// the push went through, by the hook's exit when it is run by hand.
pub proof fn the_hook_decides_how_a_deploy_ends(confirm: bool, transport: Transport, by_hand: Heard)
    ensures
        next_stage(confirm, transport, Stage::Push, Heard::Yes) == Stage::Settled(true),
        next_stage(confirm, transport, Stage::Push, Heard::No) == Stage::Settled(false),
        next_stage(confirm, transport, Stage::Push, Heard::Silent(false)) == Stage::PushFailed,
        next_stage(
            confirm,
            transport,
            next_stage(confirm, transport, Stage::Push, Heard::Silent(true)),
            by_hand,
        ) == Stage::Settled(by_hand == Heard::Yes),
{
}

/// The record of a deploy tells its outcome, its commit, where it went, when
/// it began, how long it took and who made it.
pub proof fn a_record_tells_the_deploy(
    event: DeployEvent,
    ctx: Ctx,
    short: Seq<char>,
    succeeded: bool,
    started_at: Seq<char>,
    duration_secs: u64,
    actor: Seq<char>,
    cli_version: Seq<char>,
)
    requires
        records(event, ctx, short, succeeded, started_at, duration_secs, actor, cli_version),
    ensures
        succeeded <==> event.status@ == "succeeded"@,
        !succeeded <==> event.status@ == "failed"@,
        event.app@ == ctx.repo.app.name@,
        event.environment@ == ctx.env_name@,
        event.box_id@ == ctx.env_spec().server@,
        event.namespace@ == ctx.env_spec().namespace@,
        event.build_ref@ == short,
        event.ref_name@ == ctx.env_spec().branch@,
        event.started_at@ == started_at,
        event.duration_secs == duration_secs,
        event.actor@ == actor,
        event.cli_version@ == cli_version,
{
    reveal_strlit("succeeded");
    reveal_strlit("failed");
    assert("succeeded"@.len() != "failed"@.len());
}

proof fn lemma_gateway_keys_differ()
    ensures
        forall|i: int, j: int|
            0 <= i < j < 8 ==> (#[trigger] gateway_keys()[i]) != (#[trigger] gateway_keys()[j]),
{
    reveal_strlit("repo");
    reveal_strlit("git_ref");
    reveal_strlit("app");
    reveal_strlit("environment");
    reveal_strlit("port");
    reveal_strlit("size");
    reveal_strlit("dockerfile");
    reveal_strlit("process_type");
    let k = gateway_keys();
    assert(k[0][0] == 'r' && k[1][0] == 'g' && k[2][0] == 'a' && k[3][0] == 'e');
    assert(k[4][0] == 'p' && k[5][0] == 's' && k[6][0] == 'd' && k[7][0] == 'p');
    assert(k[4].len() == 4 && k[7].len() == 12);
}

/// The fields of a request to the gateway.
spec fn gateway_keys() -> Seq<Seq<char>> {
    seq![
        "repo"@,
        "git_ref"@,
        "app"@,
        "environment"@,
        "port"@,
        "size"@,
        "dockerfile"@,
        "process_type"@,
    ]
}

/// The gateway is asked for the repo, the commit, the app and the environment.
/// With a port it is asked for a release, and is told the port and what of
/// size, Dockerfile and service name the environment gives; without one it is
/// told none of them.
pub proof fn the_gateway_is_told_what_to_deploy(ctx: Ctx, repo: Seq<char>, sha: Seq<char>)
    ensures
        ({
            let asked = gateway_request(ctx, repo, sha);
            let env = ctx.env_spec();
            &&& asked.get("repo"@).text() == Some(repo)
            &&& asked.get("git_ref"@).text() == Some(sha)
            &&& asked.get("app"@).text() == Some(ctx.repo.app.name@)
            &&& asked.get("environment"@).text() == Some(ctx.env_name@)
            &&& asked.get("port"@).unsigned() == (match env.port {
                Some(port) => Some(port as u64),
                None => None,
            })
            &&& asked.get("size"@).text() == (if env.port is Some {
                opt(env.size)
            } else {
                None
            })
            &&& asked.get("dockerfile"@).text() == (if env.port is Some {
                opt(env.dockerfile)
            } else {
                None
            })
            &&& asked.get("process_type"@).text() == (if env.port is Some {
                opt(env.process_type)
            } else {
                None
            })
        }),
{
    lemma_gateway_keys_differ();
    let k = gateway_keys();
    let list = gateway_request(ctx, repo, sha)->Object_0;
    let env = ctx.env_spec();
    assert(k[0] == "repo"@ && k[1] == "git_ref"@ && k[2] == "app"@ && k[3] == "environment"@);
    assert(k[4] == "port"@ && k[5] == "size"@ && k[6] == "dockerfile"@ && k[7] == "process_type"@);
    assert(list[0].0 == k[0] && list[1].0 == k[1] && list[2].0 == k[2] && list[3].0 == k[3]);
    if env.port is Some {
        let a = field_of("size"@, env.size);
        let b = field_of("dockerfile"@, env.dockerfile);
        let c = field_of("process_type"@, env.process_type);
        assert(list[4].0 == k[4]);
        let na = 5 + a.len();
        let nb = na + b.len();
        assert(list.len() == nb + c.len());
        assert(a.len() == 1 ==> list[5] == a[0]);
        assert(b.len() == 1 ==> list[na as int] == b[0]);
        assert(c.len() == 1 ==> list[nb as int] == c[0]);
    }
    fields_stand_under_their_keys(list);
    assert(list[0].1 == Tree::Text(repo));
    assert(list[1].1 == Tree::Text(sha));
    assert(list[2].1 == Tree::Text(ctx.repo.app.name@));
    assert(list[3].1 == Tree::Text(ctx.env_name@));
}

/// An environment's own pin goes before the app's org, and an environment
/// without one belongs to the app's org.
pub proof fn the_environments_pin_goes_first(repo: RepoConfig, env: EnvConfig)
    ensures
        env.remote is Some ==> remote_pref_of(repo, env) == Some(env.remote->0@),
        env.remote is None && repo.app.org is Some ==> remote_pref_of(repo, env) == Some(
            repo.app.org->0@,
        ),
        env.remote is None && repo.app.org is None ==> remote_pref_of(repo, env) is None,
{
}

/// The address of an environment is shown where it has one, and its Dockerfile
/// is the one at the root of the repo where it names none.
pub proof fn what_an_environment_leaves_out(env: EnvConfig)
    ensures
        env.url is None ==> address_lines(env).len() == 0,
        env.url is Some ==> address_lines(env).len() == 1 && address_lines(env)[0] == "→ "@
            + env.url->0@,
        env.dockerfile is None ==> dockerfile_of(env) == "Dockerfile"@,
        env.dockerfile is Some ==> dockerfile_of(env) == env.dockerfile->0@,
{
}

} // verus!
