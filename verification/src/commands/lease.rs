//! Deploys to a lease of the console: the image is built here, pushed to the
//! platform's registry, and run by the console.
//!
//! Only committed code deploys. A working tree with changes stops a deploy, and
//! the image is built from an export of the commit, not from the tree.
//!
//! The stages come first. What each of them runs, asks and says follows.

use crate::config::EnvConfig;
use crate::console::{pages_of, Console};
use crate::failure::{fail, Failure};
use crate::json::{
    fields, fields_stand_under_their_keys, names_stand_under_their_keys, names_tree, names_value, port_tree, port_value, text_value, with_field, Json, Tree,
};
use crate::names::{inserted, lookup, lookup_after_insert, texts, texts_after_insert, NameMap};
use crate::text::{
    a_split_loses_nothing, begins_and_ends_as_put_together, blanks_at_the_ends_go, decimal, decimal_is_read_back,
    ends_are_taken_off, ends_with, halves, has_prefix, has_suffix, join, joined, line_seq, lines, number_of, opt,
    opt_str, parse_number, pieces, pieces_stand_between_separators, same, show, split,
    split_at_the_first, split_once, starts_with, strip_suffix, trim, trim_end_char,
    trim_start_char, trimmed, views, what_is_blank, without_end, without_start,
};
use vstd::prelude::*;
use vstd::string::*;

verus! {

// ---------------------------------------------------------------------
// The course of a deploy
// ---------------------------------------------------------------------

/// What a deploy runs on.
#[derive(Clone, Copy, PartialEq, Eq, Structural)]
pub enum Target {
    /// A container lease.
    Lease,
    /// The cheapest GPU that is free.
    AnyGpu,
    /// A GPU of a model.
    GpuModel,
}

/// Where a deploy stands.
#[derive(Clone, Copy, PartialEq, Eq, Structural)]
pub enum LeaseStage {
    /// Is the Dockerfile there?
    FindDockerfile,
    /// Is the console's org the one that the app pins?
    Guard,
    /// Is everything in the working tree committed?
    CheckTree,
    /// The image is built from the commit.
    Build,
    /// Which port does the image expose?
    FindPort,
    /// The registry is logged in to.
    Login,
    /// The image is pushed.
    Push,
    /// The registry is logged in to again, after a push that failed.
    LoginAgain,
    /// The image is pushed for the second time.
    PushAgain,
    /// The variables for a GPU workload are read.
    ReadEnv,
    /// Is the GPU model in the catalog?
    CheckModel,
    /// The workload that runs is removed.
    Replace,
    /// The new workload is started on a GPU.
    StartGpu,
    /// Is there a deployment to update?
    FindDeployment,
    /// The deployment gets the new image.
    Swap,
    /// A deployment is created.
    Create,
    NoDockerfile,
    WrongOrg,
    DirtyTree,
    BuildFailed,
    NoPort,
    LoginFailed,
    PushFailed,
    BadEnv,
    UnknownModel,
}

/// Where a deploy goes once its image is in the registry.
pub open spec fn after_push(target: Target) -> LeaseStage {
    match target {
        Target::Lease => LeaseStage::FindDeployment,
        _ => LeaseStage::ReadEnv,
    }
}

/// Where a deploy stands after a stage went well, or did not. `port_given`
/// tells whether the environment names the port.
pub open spec fn next_lease_stage(
    port_given: bool,
    target: Target,
    stage: LeaseStage,
    yes: bool,
) -> LeaseStage {
    match stage {
        LeaseStage::FindDockerfile => if yes {
            LeaseStage::Guard
        } else {
            LeaseStage::NoDockerfile
        },
        LeaseStage::Guard => if yes {
            LeaseStage::CheckTree
        } else {
            LeaseStage::WrongOrg
        },
        LeaseStage::CheckTree => if yes {
            LeaseStage::Build
        } else {
            LeaseStage::DirtyTree
        },
        LeaseStage::Build => if !yes {
            LeaseStage::BuildFailed
        } else if port_given {
            LeaseStage::Login
        } else {
            LeaseStage::FindPort
        },
        LeaseStage::FindPort => if yes {
            LeaseStage::Login
        } else {
            LeaseStage::NoPort
        },
        LeaseStage::Login => if yes {
            LeaseStage::Push
        } else {
            LeaseStage::LoginFailed
        },
        LeaseStage::Push => if yes {
            after_push(target)
        } else {
            LeaseStage::LoginAgain
        },
        LeaseStage::LoginAgain => if yes {
            LeaseStage::PushAgain
        } else {
            LeaseStage::LoginFailed
        },
        LeaseStage::PushAgain => if yes {
            after_push(target)
        } else {
            LeaseStage::PushFailed
        },
        LeaseStage::ReadEnv => if !yes {
            LeaseStage::BadEnv
        } else if target == Target::GpuModel {
            LeaseStage::CheckModel
        } else {
            LeaseStage::Replace
        },
        LeaseStage::CheckModel => if yes {
            LeaseStage::Replace
        } else {
            LeaseStage::UnknownModel
        },
        LeaseStage::Replace => LeaseStage::StartGpu,
        LeaseStage::FindDeployment => if yes {
            LeaseStage::Swap
        } else {
            LeaseStage::Create
        },
        end => end,
    }
}

/// Where a deploy stands after a stage went well, or did not.
pub fn lease_step(port_given: bool, target: Target, stage: LeaseStage, yes: bool) -> (r: LeaseStage)
    ensures
        r == next_lease_stage(port_given, target, stage, yes),
{
    let pushed = match target {
        Target::Lease => LeaseStage::FindDeployment,
        _ => LeaseStage::ReadEnv,
    };
    let (good, bad) = match stage {
        LeaseStage::FindDockerfile => (LeaseStage::Guard, LeaseStage::NoDockerfile),
        LeaseStage::Guard => (LeaseStage::CheckTree, LeaseStage::WrongOrg),
        LeaseStage::CheckTree => (LeaseStage::Build, LeaseStage::DirtyTree),
        LeaseStage::Build => (
            if port_given {
                LeaseStage::Login
            } else {
                LeaseStage::FindPort
            },
            LeaseStage::BuildFailed,
        ),
        LeaseStage::FindPort => (LeaseStage::Login, LeaseStage::NoPort),
        LeaseStage::Login => (LeaseStage::Push, LeaseStage::LoginFailed),
        LeaseStage::Push => (pushed, LeaseStage::LoginAgain),
        LeaseStage::LoginAgain => (LeaseStage::PushAgain, LeaseStage::LoginFailed),
        LeaseStage::PushAgain => (pushed, LeaseStage::PushFailed),
        LeaseStage::ReadEnv => (
            if target == Target::GpuModel {
                LeaseStage::CheckModel
            } else {
                LeaseStage::Replace
            },
            LeaseStage::BadEnv,
        ),
        LeaseStage::CheckModel => (LeaseStage::Replace, LeaseStage::UnknownModel),
        LeaseStage::Replace => (LeaseStage::StartGpu, LeaseStage::StartGpu),
        LeaseStage::FindDeployment => (LeaseStage::Swap, LeaseStage::Create),
        end => (end, end),
    };
    if yes {
        good
    } else {
        bad
    }
}

/// Where a deploy stands after all that was answered.
pub open spec fn lease_course(port_given: bool, target: Target, answers: Seq<bool>) -> LeaseStage
    decreases answers.len(),
{
    if answers.len() == 0 {
        LeaseStage::FindDockerfile
    } else {
        next_lease_stage(
            port_given,
            target,
            lease_course(port_given, target, answers.drop_last()),
            answers.last(),
        )
    }
}

/// How far along a stage is.
pub open spec fn lease_rank(stage: LeaseStage) -> nat {
    match stage {
        LeaseStage::FindDockerfile => 0,
        LeaseStage::Guard => 1,
        LeaseStage::CheckTree => 2,
        LeaseStage::Build => 3,
        LeaseStage::FindPort => 4,
        LeaseStage::Login => 5,
        LeaseStage::Push => 6,
        LeaseStage::LoginAgain => 7,
        LeaseStage::PushAgain => 8,
        LeaseStage::ReadEnv => 9,
        LeaseStage::CheckModel => 10,
        LeaseStage::Replace => 11,
        LeaseStage::FindDeployment => 11,
        _ => 12,
    }
}

/// A deploy never comes back to a stage: each answer either leads further on
/// or finds the deploy at its end. So the image is built once, a failed push
/// is tried again once, and a workload is replaced once.
pub proof fn a_lease_deploy_moves_on(
    port_given: bool,
    target: Target,
    stage: LeaseStage,
    yes: bool,
)
    ensures
        ({
            let next = next_lease_stage(port_given, target, stage, yes);
            lease_rank(next) > lease_rank(stage) || (next == stage && lease_rank(stage) == 12)
        }),
{
}

/// Stages that only a deploy for the right org comes to.
pub open spec fn past_guard(stage: LeaseStage) -> bool {
    stage != LeaseStage::FindDockerfile && stage != LeaseStage::NoDockerfile && stage
        != LeaseStage::Guard && stage != LeaseStage::WrongOrg
}

/// Stages from the build on: an image is built, pushed or run.
pub open spec fn past_tree(stage: LeaseStage) -> bool {
    past_guard(stage) && stage != LeaseStage::CheckTree && stage != LeaseStage::DirtyTree
}

proof fn lemma_guard(port_given: bool, target: Target, answers: Seq<bool>)
    ensures
        ({
            let stage = lease_course(port_given, target, answers);
            &&& stage == LeaseStage::FindDockerfile <==> answers.len() == 0
            &&& stage == LeaseStage::Guard ==> answers.len() == 1 && answers[0]
            &&& stage == LeaseStage::CheckTree ==> answers.len() == 2 && answers[0] && answers[1]
            &&& past_guard(stage) ==> answers.len() >= 2 && answers[0] && answers[1]
            &&& past_tree(stage) ==> answers.len() >= 3 && answers[2]
        }),
    decreases answers.len(),
{
    if answers.len() > 0 {
        lemma_guard(port_given, target, answers.drop_last());
    }
}

/// Nothing is built, let alone pushed, for an org that the app does not pin.
pub proof fn a_wrong_org_stops_the_deploy(port_given: bool, target: Target, answers: Seq<bool>)
    requires
        past_guard(lease_course(port_given, target, answers)),
    ensures
        answers.len() >= 2,
        answers[0],
        answers[1],
{
    lemma_guard(port_given, target, answers);
}

/// Only committed code deploys: an image is built, pushed and run only where
/// the third answer, whether the working tree is clean, was yes.
pub proof fn only_a_clean_tree_is_built(port_given: bool, target: Target, answers: Seq<bool>)
    requires
        past_tree(lease_course(port_given, target, answers)),
    ensures
        answers.len() >= 3,
        answers[2],
        lease_course(port_given, target, answers.take(2)) == LeaseStage::CheckTree,
{
    lemma_guard(port_given, target, answers);
    let asked = answers.take(2);
    assert(asked.drop_last().drop_last() =~= Seq::<bool>::empty());
    reveal_with_fuel(lease_course, 3);
}

/// A running workload is removed only after the GPU model was found in the
/// catalog, where one is asked for, and after the variables were read.
pub proof fn nothing_is_removed_before_the_checks(
    port_given: bool,
    target: Target,
    stage: LeaseStage,
    yes: bool,
)
    requires
        next_lease_stage(port_given, target, stage, yes) == LeaseStage::Replace,
        stage != LeaseStage::Replace,
    ensures
        yes,
        target == Target::GpuModel ==> stage == LeaseStage::CheckModel,
        target != Target::GpuModel ==> stage == LeaseStage::ReadEnv || stage
            == LeaseStage::CheckModel,
{
}

/// A deployment is created only where none is there to update.
pub proof fn create_only_where_none_is_there(
    port_given: bool,
    target: Target,
    stage: LeaseStage,
    yes: bool,
)
    requires
        next_lease_stage(port_given, target, stage, yes) == LeaseStage::Create,
        stage != LeaseStage::Create,
    ensures
        stage == LeaseStage::FindDeployment,
        !yes,
{
}

// ---------------------------------------------------------------------
// Before the build
// ---------------------------------------------------------------------

/// What is said where there is no Dockerfile.
pub fn dockerfile_missing(dockerfile: &str) -> (r: Failure)
    ensures
        r@ == "no "@ + dockerfile@ + " in the repo — cloud deploys build it locally"@,
{
    fail(
        "no ".to_string().concat(dockerfile).concat(" in the repo — cloud deploys build it locally"),
    )
}

/// The size of an environment's lease.
pub fn size(env: &EnvConfig) -> (r: String)
    ensures
        r@ == (match env.size {
            Some(text) => text@,
            None => "docker-xlarge-storage"@,
        }),
{
    match &env.size {
        Some(text) => text.clone(),
        None => "docker-xlarge-storage".to_string(),
    }
}

/// The service name of an environment's lease.
pub fn process_type(env: &EnvConfig) -> (r: String)
    ensures
        r@ == (match env.process_type {
            Some(text) => text@,
            None => "web"@,
        }),
{
    match &env.process_type {
        Some(text) => text.clone(),
        None => "web".to_string(),
    }
}

/// The app pins an org by its id, and the console's org is another one.
pub open spec fn is_wrong_org(pin: Option<Seq<char>>, org_hex: Seq<char>) -> bool {
    pin is Some && has_prefix(pin->0, "org_"@) && pin->0 != org_hex
}

/// Refuses a console whose org is not the one that the app pins by its id.
pub fn org_guard(app_org: &Option<String>, console: &Console) -> (r: Result<(), Failure>)
    ensures
        if is_wrong_org(opt(*app_org), console.org_hex@) {
            r matches Err(failure) && failure@ == "aoraki.toml pins org "@ + app_org->0@
                + " but remote '"@ + console.remote_name@ + "' is org "@ + console.org_hex@ + " ("@
                + console.org_name@ + ") — wrong console org; fix the remote or the pin"@
        } else {
            r is Ok
        },
{
    if let Some(pin) = app_org {
        if starts_with(pin.as_str(), "org_") && !same(console.org_hex.as_str(), pin.as_str()) {
            return Err(
                fail(
                    "aoraki.toml pins org ".to_string().concat(pin.as_str()).concat(
                        " but remote '",
                    ).concat(console.remote_name.as_str()).concat("' is org ").concat(
                        console.org_hex.as_str(),
                    ).concat(" (").concat(console.org_name.as_str()).concat(
                        ") — wrong console org; fix the remote or the pin",
                    ),
                ),
            );
        }
    }
    Ok(())
}

/// The image registry: the one given in the environment, else the one that
/// the console advertises, else the platform's.
pub open spec fn registry_of(given: Option<Seq<char>>, advertised: Option<Seq<char>>) -> Seq<char> {
    match given {
        Some(text) => text,
        None => match advertised {
            Some(text) => text,
            None => "registry.aoraki.cloud"@,
        },
    }
}

/// The image registry, given the value of `AORAKI_REGISTRY`.
pub fn registry(given: Option<&str>, console: &Console) -> (r: String)
    ensures
        r@ == registry_of(opt_str(given), opt(console.registry)),
{
    match given {
        Some(text) => text.to_string(),
        None => match &console.registry {
            Some(text) => text.clone(),
            None => "registry.aoraki.cloud".to_string(),
        },
    }
}

/// The name of an image in the org's part of a registry.
pub fn image_name(registry: &str, console: &Console, app: &str, short: &str) -> (r: String)
    ensures
        r@ == registry@ + "/"@ + console.org_hex@ + "/"@ + app@ + ":"@ + short@,
{
    registry.to_string().concat("/").concat(console.org_hex.as_str()).concat("/").concat(
        app,
    ).concat(":").concat(short)
}

/// A line of git's short status that tells of the file of variables, where git
/// does not know that file. It is meant to stay out of git, and no image has
/// it, since images are built from commits.
pub open spec fn tells_of_env(line: Seq<char>) -> bool {
    line == "?? .aoraki.env"@ || (has_prefix(line, "?? "@) && has_suffix(line, "/.aoraki.env"@))
}

/// All of a working tree is committed, by git's short status of it.
pub open spec fn is_clean(status: Seq<char>) -> bool {
    forall|i: int|
        0 <= i < line_seq(status).len() ==> trimmed(#[trigger] line_seq(status)[i]).len() == 0
            || tells_of_env(line_seq(status)[i])
}

/// Refuses a working tree with changes that are not committed, given git's
/// short status of it. Where git gives none there is nothing to hold against
/// the tree, and the image is built from the commit all the same.
pub fn tree_guard(status: Option<&str>) -> (r: Result<(), Failure>)
    ensures
        match status {
            Some(text) => if is_clean(text@) {
                r is Ok
            } else {
                r matches Err(failure) && failure@
                    == "working tree has uncommitted changes — commit or stash them first (only committed code deploys)"@
            },
            None => r is Ok,
        },
{
    let text = match status {
        Some(text) => text,
        None => {
            return Ok(());
        },
    };
    let list = lines(text);
    let mut i: usize = 0;
    while i < list.len()
        invariant
            i <= list.len(),
            status == Some(text),
            views(list@) == line_seq(text@),
            forall|k: int|
                0 <= k < i ==> trimmed(#[trigger] line_seq(text@)[k]).len() == 0 || tells_of_env(
                    line_seq(text@)[k],
                ),
        decreases list.len() - i,
    {
        let line = list[i].as_str();
        proof {
            assert(views(list@)[i as int] == line@);
        }
        if trim(line).unicode_len() > 0 && !same(line, "?? .aoraki.env") && !(starts_with(
            line,
            "?? ",
        ) && ends_with(line, "/.aoraki.env")) {
            return Err(
                fail(
                    "working tree has uncommitted changes — commit or stash them first (only committed code deploys)".to_string(),
                ),
            );
        }
        i = i + 1;
    }
    Ok(())
}

// ---------------------------------------------------------------------
// Build, port, push
// ---------------------------------------------------------------------

/// The line that announces a build.
pub fn build_announce(app: &str, short: &str, dockerfile: &str, image: &str, console: &Console) -> (r:
    String)
    ensures
        r@ == "→ building "@ + app@ + " "@ + short@ + " from "@ + dockerfile@ + " → "@ + image@
            + " (org: "@ + console.org_name@ + ", remote: "@ + console.remote_name@ + ")"@,
{
    "→ building ".to_string().concat(app).concat(" ").concat(short).concat(" from ").concat(
        dockerfile,
    ).concat(" → ").concat(image).concat(" (org: ").concat(console.org_name.as_str()).concat(
        ", remote: ",
    ).concat(console.remote_name.as_str()).concat(")")
}

/// The git command that exports a commit, as an archive on its standard
/// output. What is not in the commit is not in the archive.
pub fn export_args(sha: &str) -> (r: Vec<String>)
    ensures
        views(r@) == seq!["archive"@, "--format=tar"@, sha@],
{
    let mut out: Vec<String> = Vec::new();
    out.push("archive".to_string());
    out.push("--format=tar".to_string());
    out.push(sha.to_string());
    proof {
        assert(views(out@) =~= seq!["archive"@, "--format=tar"@, sha@]);
    }
    out
}

/// The docker command that builds an image from the archive on its standard
/// input.
pub fn build_args(dockerfile: &str, image: &str, short: &str) -> (r: Vec<String>)
    ensures
        views(r@) == seq![
            "build"@,
            "-f"@,
            dockerfile@,
            "-t"@,
            image@,
            "--build-arg"@,
            "BUILD_HASH="@ + short@,
            "-"@,
        ],
{
    let mut out: Vec<String> = Vec::new();
    out.push("build".to_string());
    out.push("-f".to_string());
    out.push(dockerfile.to_string());
    out.push("-t".to_string());
    out.push(image.to_string());
    out.push("--build-arg".to_string());
    out.push("BUILD_HASH=".to_string().concat(short));
    out.push("-".to_string());
    proof {
        assert(views(out@) =~= seq![
            "build"@,
            "-f"@,
            dockerfile@,
            "-t"@,
            image@,
            "--build-arg"@,
            "BUILD_HASH="@ + short@,
            "-"@,
        ]);
    }
    out
}

/// What is said where the build failed.
pub fn build_failed() -> (r: Failure)
    ensures
        r@ == "docker build failed"@,
{
    fail("docker build failed".to_string())
}

/// The docker command that tells which ports an image exposes.
pub fn inspect_args(image: &str) -> (r: Vec<String>)
    ensures
        views(r@) == seq![
            "image"@,
            "inspect"@,
            "--format"@,
            "{{json .Config.ExposedPorts}}"@,
            image@,
        ],
{
    let mut out: Vec<String> = Vec::new();
    out.push("image".to_string());
    out.push("inspect".to_string());
    out.push("--format".to_string());
    out.push("{{json .Config.ExposedPorts}}".to_string());
    out.push(image.to_string());
    proof {
        assert(views(out@) =~= seq![
            "image"@,
            "inspect"@,
            "--format"@,
            "{{json .Config.ExposedPorts}}"@,
            image@,
        ]);
    }
    out
}

/// The port that an entry of docker's list of exposed ports names: what stands
/// in its first pair of quotes, where that is a TCP port.
pub open spec fn port_in(entry: Seq<char>) -> Option<u16> {
    let parts = pieces(entry, '"');
    if parts.len() > 1 && has_suffix(parts[1], "/tcp"@) {
        match number_of(parts[1].take(parts[1].len() - "/tcp"@.len())) {
            Some(n) => if n <= 65535 {
                Some(n as u16)
            } else {
                None
            },
            None => None,
        }
    } else {
        None
    }
}

/// The TCP ports that a list of entries names.
pub open spec fn ports_in(entries: Seq<Seq<char>>) -> Seq<u16>
    decreases entries.len(),
{
    if entries.len() == 0 {
        Seq::empty()
    } else {
        let before = ports_in(entries.drop_last());
        match port_in(entries.last()) {
            Some(port) => before.push(port),
            None => before,
        }
    }
}

/// The entries of docker's list of exposed ports.
pub open spec fn port_entries(raw: Seq<char>) -> Seq<Seq<char>> {
    let bare = without_end(without_start(trimmed(raw), '"'), '"');
    pieces(without_end(without_start(bare, '{'), '}'), ',')
}

/// Numbers as they are listed.
pub open spec fn port_texts(ports: Seq<u16>) -> Seq<Seq<char>> {
    ports.map_values(|p: u16| decimal(p as nat))
}

fn read_port(entry: &str) -> (r: Option<u16>)
    ensures
        r == port_in(entry@),
{
    let parts = split(entry, '"');
    proof {
        assert(views(parts@).len() == parts@.len());
    }
    if parts.len() > 1 {
        proof {
            assert(views(parts@)[1] == parts@[1]@);
        }
        match strip_suffix(parts[1].as_str(), "/tcp") {
            Some(digits) => match parse_number(digits, 65535) {
                Some(n) => Some(n as u16),
                None => None,
            },
            None => None,
        }
    } else {
        None
    }
}

fn list_ports(ports: &Vec<u16>) -> (r: String)
    ensures
        r@ == "["@ + joined(port_texts(ports@), ", "@) + "]"@,
{
    let mut list: Vec<String> = Vec::new();
    let mut i: usize = 0;
    let ghost all = port_texts(ports@);
    while i < ports.len()
        invariant
            i <= ports.len(),
            all == port_texts(ports@),
            views(list@) == all.take(i as int),
        decreases ports.len() - i,
    {
        let ghost before = views(list@);
        list.push(show(ports[i] as u64));
        proof {
            assert(views(list@) =~= before.push(all[i as int]));
            assert(all.take(i + 1) =~= all.take(i as int).push(all[i as int]));
        }
        i = i + 1;
    }
    proof {
        assert(all.take(i as int) =~= all);
    }
    "[".to_string().concat(join(&list, ", ").as_str()).concat("]")
}

/// The one TCP port that an image exposes, from docker's list of its ports.
pub fn exposed_port(raw: &str) -> (r: Result<u16, Failure>)
    ensures
        ({
            let ports = ports_in(port_entries(raw@));
            if ports.len() == 1 {
                r == Ok::<u16, Failure>(ports[0])
            } else if ports.len() == 0 {
                r matches Err(failure) && failure@
                    == "the Dockerfile has no EXPOSE — add one, or set `port =` in this environment"@
            } else {
                r matches Err(failure) && failure@ == "the Dockerfile EXPOSEs several ports ("@
                    + ("["@ + joined(port_texts(ports), ", "@) + "]"@)
                    + ") — set `port =` in this environment to pick one"@
            }
        }),
{
    let bare = trim_end_char(trim_start_char(trim(raw), '"'), '"');
    let entries = split(trim_end_char(trim_start_char(bare, '{'), '}'), ',');
    let ghost all = views(entries@);
    let mut ports: Vec<u16> = Vec::new();
    let mut i: usize = 0;
    while i < entries.len()
        invariant
            i <= entries.len(),
            all == views(entries@),
            ports@ == ports_in(all.take(i as int)),
        decreases entries.len() - i,
    {
        proof {
            assert(all.take(i + 1).drop_last() =~= all.take(i as int));
            assert(all.take(i + 1).last() == entries@[i as int]@);
        }
        if let Some(port) = read_port(entries[i].as_str()) {
            ports.push(port);
        }
        i = i + 1;
    }
    proof {
        assert(all.take(i as int) =~= all);
    }
    if ports.len() == 1 {
        Ok(ports[0])
    } else if ports.len() == 0 {
        Err(
            fail(
                "the Dockerfile has no EXPOSE — add one, or set `port =` in this environment".to_string(),
            ),
        )
    } else {
        Err(
            fail(
                "the Dockerfile EXPOSEs several ports (".to_string().concat(
                    list_ports(&ports).as_str(),
                ).concat(") — set `port =` in this environment to pick one"),
            ),
        )
    }
}

/// The docker command that logs in to the registry as the org. The key goes in
/// by standard input.
pub fn registry_login(registry: &str, console: &Console) -> (r: Vec<String>)
    ensures
        views(r@) == seq!["login"@, registry@, "-u"@, console.org_hex@, "--password-stdin"@],
{
    let mut out: Vec<String> = Vec::new();
    out.push("login".to_string());
    out.push(registry.to_string());
    out.push("-u".to_string());
    out.push(console.org_hex.clone());
    out.push("--password-stdin".to_string());
    proof {
        assert(views(out@) =~= seq![
            "login"@,
            registry@,
            "-u"@,
            console.org_hex@,
            "--password-stdin"@,
        ]);
    }
    out
}

/// What is said where the registry refused the login.
pub fn login_failed(stderr: &str) -> (r: Failure)
    ensures
        r@ == "registry login failed: "@ + trimmed(stderr@),
{
    fail("registry login failed: ".to_string().concat(trim(stderr)))
}

/// The line that announces a push.
pub fn push_announce(image: &str) -> (r: String)
    ensures
        r@ == "→ pushing "@ + image@,
{
    "→ pushing ".to_string().concat(image)
}

/// The docker command that pushes an image.
pub fn image_push_args(image: &str) -> (r: Vec<String>)
    ensures
        views(r@) == seq!["push"@, image@],
{
    let mut out: Vec<String> = Vec::new();
    out.push("push".to_string());
    out.push(image.to_string());
    proof {
        assert(views(out@) =~= seq!["push"@, image@]);
    }
    out
}

/// The line that announces the second push.
pub fn retry_notice() -> (r: String)
    ensures
        r@ == "→ push failed; refreshing registry login and retrying once"@,
{
    "→ push failed; refreshing registry login and retrying once".to_string()
}

/// What is said where the second push failed too.
pub fn image_push_failed(console: &Console) -> (r: Failure)
    ensures
        r@
            == "docker push failed. Likely causes, most common first: a layer over ~100MB (the registry sits behind Cloudflare's body cap — split big layers), network/registry outage, or — rarely, since login just succeeded — pushing outside your org's "@
            + console.org_hex@ + "/… namespace"@,
{
    fail(
        "docker push failed. Likely causes, most common first: a layer over ~100MB (the registry sits behind Cloudflare's body cap — split big layers), network/registry outage, or — rarely, since login just succeeded — pushing outside your org's ".to_string().concat(
            console.org_hex.as_str(),
        ).concat("/… namespace"),
    )
}

// ---------------------------------------------------------------------
// Variables for the first start
// ---------------------------------------------------------------------

/// The variables after one more line: a blank line and a comment add nothing,
/// every other line must be `KEY=VALUE`, and a later value replaces an earlier.
pub open spec fn dotenv_line(m: Seq<(Seq<char>, Seq<char>)>, line: Seq<char>) -> Result<
    Seq<(Seq<char>, Seq<char>)>,
    Seq<char>,
> {
    let t = trimmed(line);
    if t.len() == 0 || t[0] == '#' {
        Ok(m)
    } else {
        match halves(t, '=') {
            Some((key, value)) => Ok(inserted(m, trimmed(key), trimmed(value))),
            None => Err(".aoraki.env: '"@ + t + "' is not KEY=VALUE"@),
        }
    }
}

/// The variables that lines write, or what is said of the first that does not.
pub open spec fn dotenv_of(lines: Seq<Seq<char>>) -> Result<
    Seq<(Seq<char>, Seq<char>)>,
    Seq<char>,
>
    decreases lines.len(),
{
    if lines.len() == 0 {
        Ok(Seq::empty())
    } else {
        match dotenv_of(lines.drop_last()) {
            Ok(m) => dotenv_line(m, lines.last()),
            Err(text) => Err(text),
        }
    }
}

proof fn lemma_dotenv_fails(lines: Seq<Seq<char>>, i: int)
    requires
        0 <= i <= lines.len(),
        dotenv_of(lines.take(i)) is Err,
    ensures
        dotenv_of(lines) == dotenv_of(lines.take(i)),
    decreases lines.len() - i,
{
    if i < lines.len() {
        assert(lines.take(i + 1).drop_last() =~= lines.take(i));
        lemma_dotenv_fails(lines, i + 1);
    } else {
        assert(lines.take(i) =~= lines);
    }
}

/// The variables that a file writes; none where there is no file.
pub fn read_dotenv(text: Option<&str>) -> (r: Result<NameMap<String>, Failure>)
    ensures
        match text {
            None => r matches Ok(map) && map@.len() == 0,
            Some(t) => match dotenv_of(line_seq(t@)) {
                Ok(m) => r matches Ok(map) && texts(map@) == m,
                Err(said) => r matches Err(failure) && failure@ == said,
            },
        },
{
    let mut map: NameMap<String> = NameMap::new();
    let list = match text {
        Some(t) => lines(t),
        None => {
            return Ok(map);
        },
    };
    let ghost all = views(list@);
    let mut i: usize = 0;
    proof {
        assert(texts(map@) =~= Seq::<(Seq<char>, Seq<char>)>::empty());
    }
    while i < list.len()
        invariant
            i <= list.len(),
            text is Some,
            all == line_seq(text->0@),
            all == views(list@),
            dotenv_of(all.take(i as int)) == Ok::<Seq<(Seq<char>, Seq<char>)>, Seq<char>>(
                texts(map@),
            ),
        decreases list.len() - i,
    {
        proof {
            assert(all.take(i + 1).drop_last() =~= all.take(i as int));
            assert(all.take(i + 1).last() == list@[i as int]@);
        }
        let line = trim(list[i].as_str());
        if line.unicode_len() > 0 && line.get_char(0) != '#' {
            match split_once(line, '=') {
                Some((key, value)) => {
                    let key = trim(key).to_string();
                    let value = trim(value).to_string();
                    proof {
                        texts_after_insert(map@, key@, value);
                    }
                    map.insert(key, value);
                },
                None => {
                    proof {
                        lemma_dotenv_fails(all, i + 1);
                    }
                    return Err(
                        fail(
                            ".aoraki.env: '".to_string().concat(line).concat("' is not KEY=VALUE"),
                        ),
                    );
                },
            }
        }
        i = i + 1;
    }
    proof {
        assert(all.take(i as int) =~= all);
    }
    Ok(map)
}

/// Blank lines and comments add nothing.
pub proof fn blanks_and_comments_add_nothing(lines: Seq<Seq<char>>, line: Seq<char>)
    requires
        trimmed(line).len() == 0 || trimmed(line)[0] == '#',
    ensures
        dotenv_of(lines.push(line)) == dotenv_of(lines),
{
    assert(lines.push(line).drop_last() =~= lines);
}

/// A line `KEY=VALUE` gives its key its value, whatever came before, and
/// leaves the other keys alone.
pub proof fn last_value_counts(
    lines: Seq<Seq<char>>,
    line: Seq<char>,
    key: Seq<char>,
    value: Seq<char>,
    other: Seq<char>,
)
    requires
        dotenv_of(lines) is Ok,
        trimmed(line).len() > 0,
        trimmed(line)[0] != '#',
        halves(trimmed(line), '=') == Some((key, value)),
    ensures
        dotenv_of(lines.push(line)) matches Ok(m) && lookup(m, trimmed(key)) == Some(trimmed(value))
            && (other != trimmed(key) ==> lookup(m, other) == lookup(
            dotenv_of(lines)->Ok_0,
            other,
        )),
{
    assert(lines.push(line).drop_last() =~= lines);
    lookup_after_insert(dotenv_of(lines)->Ok_0, trimmed(key), trimmed(value), other);
}

// ---------------------------------------------------------------------
// On a GPU
// ---------------------------------------------------------------------

/// The GPU that a deploy asks for: the one on the command line, else the
/// environment's.
pub fn gpu_choice(given: Option<String>, env: &EnvConfig) -> (r: Option<String>)
    ensures
        opt(r) == (match given {
            Some(gpu) => Some(gpu@),
            None => opt(env.gpu),
        }),
{
    match given {
        Some(gpu) => Some(gpu),
        None => crate::text::copy_opt(&env.gpu),
    }
}

pub open spec fn target_of(gpu: Option<Seq<char>>) -> Target {
    match gpu {
        None => Target::Lease,
        Some(name) => if name == "auto"@ {
            Target::AnyGpu
        } else {
            Target::GpuModel
        },
    }
}

/// What a deploy runs on.
pub fn target(gpu: &Option<String>) -> (r: Target)
    ensures
        r == target_of(opt(*gpu)),
{
    match gpu {
        None => Target::Lease,
        Some(name) => if same(name.as_str(), "auto") {
            Target::AnyGpu
        } else {
            Target::GpuModel
        },
    }
}

/// A model is in the catalog.
pub open spec fn is_listed(catalog: Tree, model: Seq<char>) -> bool {
    exists|i: int|
        0 <= i < catalog.get("data"@).items().len() && (#[trigger] catalog.get(
            "data"@,
        ).items()[i]).get("name"@).text() == Some(model)
}

/// Refuses a GPU model that the catalog does not list.
pub fn check_model(catalog: &Json, model: &str) -> (r: Result<(), Failure>)
    ensures
        if is_listed(catalog.tree(), model@) {
            r is Ok
        } else {
            r matches Err(failure) && failure@ == "GPU model '"@ + model@
                + "' is not in the catalog — see `aoraki gpus` (nothing was removed)"@
        },
{
    let n: usize = catalog.count_at("data");
    let mut i: usize = 0;
    while i < n
        invariant
            i <= n,
            n == catalog.tree().get("data"@).items().len(),
            forall|k: int|
                0 <= k < i ==> (#[trigger] catalog.tree().get("data"@).items()[k]).get(
                    "name"@,
                ).text() != Some(model@),
        decreases n - i,
    {
        let item = catalog.item_at("data", i);
        if item.text_is("name", model) {
            return Ok(());
        }
        i = i + 1;
    }
    Err(
        fail(
            "GPU model '".to_string().concat(model).concat(
                "' is not in the catalog — see `aoraki gpus` (nothing was removed)",
            ),
        ),
    )
}

/// The id of a deployment: its public id, else its plain one.
pub open spec fn id_of(entry: Tree) -> Option<Seq<char>> {
    match entry.get("hex_id"@).text() {
        Some(id) => Some(id),
        None => entry.get("id"@).text(),
    }
}

/// The id of a deployment.
pub fn entry_id(entry: &Json) -> (r: Option<String>)
    ensures
        opt(r) == id_of(entry.tree()),
{
    match entry.text_at("hex_id") {
        Some(id) => Some(id.to_string()),
        None => match entry.text_at("id") {
            Some(id) => Some(id.to_string()),
            None => None,
        },
    }
}

/// A GPU workload of a name runs, or is about to.
pub open spec fn is_running(entry: Tree, name: Seq<char>) -> bool {
    &&& entry.get("name"@).text() == Some(name)
    &&& {
        ||| entry.get("status"@).text() == Some("requested"@)
        ||| entry.get("status"@).text() == Some("starting"@)
        ||| entry.get("status"@).text() == Some("running"@)
    }
}

/// The workloads to replace: each with its id, and whether it has variables.
pub open spec fn to_replace(entries: Seq<Tree>, name: Seq<char>) -> Seq<(Seq<char>, bool)>
    decreases entries.len(),
{
    if entries.len() == 0 {
        Seq::empty()
    } else {
        let before = to_replace(entries.drop_last(), name);
        let entry = entries.last();
        match id_of(entry) {
            Some(id) => if is_running(entry, name) {
                before.push((id, entry.get("env"@).has_fields()))
            } else {
                before
            },
            None => before,
        }
    }
}

/// The views of a list of ids.
pub open spec fn id_views(list: Seq<(String, bool)>) -> Seq<(Seq<char>, bool)> {
    list.map_values(|e: (String, bool)| (e.0@, e.1))
}

/// The workloads that a new one replaces. There may be one card only, so the
/// old workload goes before the new one comes.
pub fn replace_existing_gpu(list: &Json, name: &str) -> (r: Vec<(String, bool)>)
    ensures
        id_views(r@) == to_replace(list.tree().get("data"@).items(), name@),
{
    let n: usize = list.count_at("data");
    let ghost all = list.tree().get("data"@).items();
    let mut out: Vec<(String, bool)> = Vec::new();
    let mut i: usize = 0;
    while i < n
        invariant
            i <= n,
            n == all.len(),
            all == list.tree().get("data"@).items(),
            id_views(out@) == to_replace(all.take(i as int), name@),
        decreases n - i,
    {
        let entry = list.item_at("data", i);
        proof {
            assert(all.take(i + 1).drop_last() =~= all.take(i as int));
            assert(all.take(i + 1).last() == entry.tree());
        }
        let running = entry.text_is("name", name) && (entry.text_is("status", "requested")
            || entry.text_is("status", "starting") || entry.text_is("status", "running"));
        let ghost before = id_views(out@);
        if running {
            if let Some(id) = entry_id(entry) {
                let ghost id_text = id@;
                let has_env = entry.fields_at("env");
                out.push((id, has_env));
                proof {
                    assert(id_views(out@) =~= before.push((id_text, has_env)));
                }
            }
        }
        i = i + 1;
    }
    proof {
        assert(all.take(i as int) =~= all);
    }
    out
}

/// The warning for a workload with variables that a new one without replaces.
pub fn lost_env_warning(had_env: bool, new_env: &NameMap<String>) -> (r: Option<String>)
    ensures
        opt(r) == (if had_env && new_env@.len() == 0 {
            Some(
                "⚠ the running deployment has env vars but .aoraki.env is empty/missing — the replacement will start with NO env (GPU deploys don't use console env groups)"@,
            )
        } else {
            None
        }),
{
    if had_env && new_env.is_empty() {
        Some(
            "⚠ the running deployment has env vars but .aoraki.env is empty/missing — the replacement will start with NO env (GPU deploys don't use console env groups)".to_string(),
        )
    } else {
        None
    }
}

/// The line that announces the removal of a workload.
pub fn replace_notice(id: &str) -> (r: String)
    ensures
        r@ == "→ replacing previous GPU deployment "@ + id@ + " (un-deploying; billing stops)"@,
{
    "→ replacing previous GPU deployment ".to_string().concat(id).concat(
        " (un-deploying; billing stops)",
    )
}

/// The warning for a workload that could not be removed.
pub fn not_removed(id: &str, cause: &str) -> (r: String)
    ensures
        r@ == "⚠ could not remove "@ + id@ + ": "@ + cause@
            + " — check the console, it may still be billing"@,
{
    "⚠ could not remove ".to_string().concat(id).concat(": ").concat(cause).concat(
        " — check the console, it may still be billing",
    )
}

/// What is said where a GPU workload did not start: the more so where the old
/// one is gone already.
pub fn gpu_failure(failure: Failure, removed: usize, name: &str) -> (r: Failure)
    ensures
        r@ == (if removed > 0 {
            failure@
                + "\n\n⚠ the previous GPU deployment was ALREADY REMOVED and nothing is running for '"@
                + name@
                + "' — rerun `aoraki deploy --gpu` (or `aoraki gpus` to check capacity) as soon as possible"@
        } else {
            failure@
        }),
{
    if removed > 0 {
        fail(
            failure.message.concat(
                "\n\n⚠ the previous GPU deployment was ALREADY REMOVED and nothing is running for '",
            ).concat(name).concat(
                "' — rerun `aoraki deploy --gpu` (or `aoraki gpus` to check capacity) as soon as possible",
            ),
        )
    } else {
        failure
    }
}

// ---------------------------------------------------------------------
// On a lease
// ---------------------------------------------------------------------

/// A deployment of a name that is neither closed nor failed.
pub open spec fn is_live(entry: Tree, name: Seq<char>) -> bool {
    &&& entry.get("name"@).text() == Some(name)
    &&& entry.get("status"@).text() != Some("closed"@)
    &&& entry.get("status"@).text() != Some("failed"@)
}

/// The id of the first deployment of a name that is live.
pub open spec fn live_deployment(entries: Seq<Tree>, name: Seq<char>) -> Option<Seq<char>>
    decreases entries.len(),
{
    if entries.len() == 0 {
        None
    } else if is_live(entries[0], name) {
        id_of(entries[0])
    } else {
        live_deployment(entries.skip(1), name)
    }
}

/// The id of the deployment that a deploy updates, if there is one.
pub fn existing_deployment(list: &Json, name: &str) -> (r: Option<String>)
    ensures
        opt(r) == live_deployment(list.tree().get("data"@).items(), name@),
        ({
            let entries = list.tree().get("data"@).items();
            &&& forall|i: int|
                0 <= i < entries.len() && entries[i].get("name"@).text() == Some(name@)
                    && entries[i].get("status"@).text() != Some("closed"@) && entries[i].get(
                    "status"@,
                ).text() != Some("failed"@) && (forall|j: int|
                    0 <= j < i ==> !((#[trigger] entries[j]).get("name"@).text() == Some(name@)
                        && entries[j].get("status"@).text() != Some("closed"@) && entries[j].get(
                        "status"@,
                    ).text() != Some("failed"@))) ==> opt(r) == (match #[trigger] entries[i].get(
                    "hex_id"@,
                ).text() {
                    Some(id) => Some(id),
                    None => entries[i].get("id"@).text(),
                })
            &&& (forall|i: int|
                0 <= i < entries.len() ==> !((#[trigger] entries[i]).get("name"@).text() == Some(
                    name@,
                ) && entries[i].get("status"@).text() != Some("closed"@) && entries[i].get(
                    "status"@,
                ).text() != Some("failed"@))) ==> r is None
        }),
{
    let r = find_live(list, name);
    proof {
        let entries = list.tree().get("data"@).items();
        assert forall|i: int|
            0 <= i < entries.len() && entries[i].get("name"@).text() == Some(name@)
                && entries[i].get("status"@).text() != Some("closed"@) && entries[i].get(
                "status"@,
            ).text() != Some("failed"@) && (forall|j: int|
                0 <= j < i ==> !((#[trigger] entries[j]).get("name"@).text() == Some(name@)
                    && entries[j].get("status"@).text() != Some("closed"@) && entries[j].get(
                    "status"@,
                ).text() != Some("failed"@))) implies opt(r) == (match #[trigger] entries[i].get(
            "hex_id"@,
        ).text() {
            Some(id) => Some(id),
            None => entries[i].get("id"@).text(),
        }) by {
            the_first_live_deployment_is_updated(entries, name@, i);
        }
        if forall|i: int|
            0 <= i < entries.len() ==> !((#[trigger] entries[i]).get("name"@).text() == Some(name@)
                && entries[i].get("status"@).text() != Some("closed"@) && entries[i].get(
                "status"@,
            ).text() != Some("failed"@)) {
            without_a_live_deployment_none_is_updated(entries, name@);
        }
    }
    r
}

fn find_live(list: &Json, name: &str) -> (r: Option<String>)
    ensures
        opt(r) == live_deployment(list.tree().get("data"@).items(), name@),
{
    let n: usize = list.count_at("data");
    let ghost all = list.tree().get("data"@).items();
    let mut i: usize = 0;
    proof {
        assert(all.skip(0) =~= all);
    }
    while i < n
        invariant
            i <= n,
            n == all.len(),
            all == list.tree().get("data"@).items(),
            live_deployment(all, name@) == live_deployment(all.skip(i as int), name@),
        decreases n - i,
    {
        let entry = list.item_at("data", i);
        proof {
            assert(all.skip(i as int)[0] == entry.tree());
            assert(all.skip(i as int).skip(1) =~= all.skip(i + 1));
        }
        if entry.text_is("name", name) && !entry.text_is("status", "closed") && !entry.text_is(
            "status",
            "failed",
        ) {
            return entry_id(entry);
        }
        i = i + 1;
    }
    None
}

/// The line that announces an update.
pub fn swap_notice(id: &str) -> (r: String)
    ensures
        r@ == "→ updating deployment "@ + id@ + " (blue-green image swap; env from console groups)"@,
{
    "→ updating deployment ".to_string().concat(id).concat(
        " (blue-green image swap; env from console groups)",
    )
}

/// What the console is asked for in an update.
pub fn swap_request(image: &str) -> (r: Json)
    ensures
        r.tree() == Tree::Object(seq![("image"@, Tree::Text(image@))]),
{
    let list: Vec<(String, Json)> = Vec::new();
    let list = with_field(list, "image", text_value(image));
    proof {
        assert(fields(list@) =~= seq![("image"@, Tree::Text(image@))]);
    }
    Json::Object(list)
}

/// What is said where an update was refused.
pub fn swap_failed(cause: &str) -> (r: Failure)
    ensures
        r@ == cause@ + "\n(the previous version keeps serving — nothing changed)"@,
{
    fail(cause.to_string().concat("\n(the previous version keeps serving — nothing changed)"))
}

/// The lines after an update was accepted. The swap happens on the console's
/// side, so nothing more is claimed than that it was asked for.
pub fn swap_lines(console: &Console, id: &str) -> (r: Vec<String>)
    ensures
        views(r@) == seq![
            "✓ swap requested — the previous version keeps serving until the new one is healthy"@,
            "  monitor: "@ + pages_of(console.api@) + "/deployments/"@ + id@,
        ],
{
    let mut out: Vec<String> = Vec::new();
    out.push(
        "✓ swap requested — the previous version keeps serving until the new one is healthy".to_string(),
    );
    out.push(
        "  monitor: ".to_string().concat(console.console_base()).concat("/deployments/").concat(id),
    );
    proof {
        assert(views(out@) =~= seq![
            "✓ swap requested — the previous version keeps serving until the new one is healthy"@,
            "  monitor: "@ + pages_of(console.api@) + "/deployments/"@ + id@,
        ]);
    }
    out
}

/// The warning for a file of variables that git would commit.
pub fn committed_env_warning(env: &NameMap<String>, in_git: bool) -> (r: Option<String>)
    ensures
        opt(r) == (if env@.len() > 0 && in_git {
            Some(
                "⚠ .aoraki.env is tracked by git — it holds secrets; add it to .gitignore"@,
            )
        } else {
            None
        }),
{
    if !env.is_empty() && in_git {
        Some(
            "⚠ .aoraki.env is tracked by git — it holds secrets; add it to .gitignore".to_string(),
        )
    } else {
        None
    }
}

/// Whether git would commit the file of variables, given how its question
/// whether the file is ignored was answered: if it could not be asked, no.
pub fn dotenv_is_tracked(ignored: Option<bool>) -> (r: bool)
    ensures
        r == (ignored == Some(false)),
{
    match ignored {
        Some(answer) => !answer,
        None => false,
    }
}

/// The line that tells of the variables of the first deploy.
pub fn first_env_notice(env: &NameMap<String>) -> (r: Option<String>)
    ensures
        opt(r) == (if env@.len() > 0 {
            Some(
                "→ first deploy: "@ + decimal(env@.len())
                    + " env var(s) from .aoraki.env (manage ongoing env in the console)"@,
            )
        } else {
            None
        }),
{
    if env.is_empty() {
        None
    } else {
        Some(
            "→ first deploy: ".to_string().concat(show(env.len() as u64).as_str()).concat(
                " env var(s) from .aoraki.env (manage ongoing env in the console)",
            ),
        )
    }
}

/// What the console is asked for to create a deployment.
pub open spec fn create_tree(
    name: Seq<char>,
    image: Seq<char>,
    port: u16,
    env: Seq<(Seq<char>, String)>,
    size: Seq<char>,
    process_type: Seq<char>,
) -> Tree {
    Tree::Object(
        seq![
            ("name"@, Tree::Text(name)),
            ("image"@, Tree::Text(image)),
            ("port"@, port_tree(port)),
            ("env"@, names_tree(env)),
            ("size"@, Tree::Text(size)),
            ("process_type"@, Tree::Text(process_type)),
        ],
    )
}

/// What the console is asked for to create a deployment.
pub fn create_request(
    name: &str,
    image: &str,
    port: u16,
    env: &NameMap<String>,
    size: &str,
    process_type: &str,
) -> (r: Json)
    ensures
        r.tree() == create_tree(name@, image@, port, env@, size@, process_type@),
{
    let list: Vec<(String, Json)> = Vec::new();
    let list = with_field(list, "name", text_value(name));
    let list = with_field(list, "image", text_value(image));
    let list = with_field(list, "port", port_value(port));
    let list = with_field(list, "env", names_value(env));
    let list = with_field(list, "size", text_value(size));
    let list = with_field(list, "process_type", text_value(process_type));
    proof {
        assert(fields(list@) =~= create_tree(
            name@,
            image@,
            port,
            env@,
            size@,
            process_type@,
        )->Object_0);
    }
    Json::Object(list)
}

/// The id of the deployment that the console created.
pub fn created_id(answer: &Json) -> (r: Result<String, Failure>)
    ensures
        match id_of(answer.tree().get("data"@)) {
            Some(id) => r matches Ok(found) && found@ == id,
            None => r matches Err(failure) && failure@
                == "deploy accepted but no deployment id returned"@,
        },
{
    let id = match answer.field("data") {
        Some(entry) => entry_id(entry),
        None => None,
    };
    match id {
        Some(found) => Ok(found),
        None => Err(fail("deploy accepted but no deployment id returned".to_string())),
    }
}

/// The lines after a deployment was created.
pub fn created_lines(id: &str) -> (r: Vec<String>)
    ensures
        views(r@) == seq![
            "deployment "@ + id@ + " registered — waiting for the lease…"@,
            "  (safe to close this terminal — the deploy continues server-side)"@,
        ],
{
    let mut out: Vec<String> = Vec::new();
    out.push(
        "deployment ".to_string().concat(id).concat(" registered — waiting for the lease…"),
    );
    out.push("  (safe to close this terminal — the deploy continues server-side)".to_string());
    proof {
        assert(views(out@) =~= seq![
            "deployment "@ + id@ + " registered — waiting for the lease…"@,
            "  (safe to close this terminal — the deploy continues server-side)"@,
        ]);
    }
    out
}

// ---------------------------------------------------------------------
// Laws
// ---------------------------------------------------------------------

/// A deploy updates the first deployment of its name that is neither closed nor
/// failed, whatever else is said of its status: by its public id, or else by
/// its plain one.
pub proof fn the_first_live_deployment_is_updated(entries: Seq<Tree>, name: Seq<char>, i: int)
    requires
        0 <= i < entries.len(),
        entries[i].get("name"@).text() == Some(name),
        entries[i].get("status"@).text() != Some("closed"@),
        entries[i].get("status"@).text() != Some("failed"@),
        forall|j: int|
            0 <= j < i ==> !((#[trigger] entries[j]).get("name"@).text() == Some(name)
                && entries[j].get("status"@).text() != Some("closed"@) && entries[j].get(
                "status"@,
            ).text() != Some("failed"@)),
    ensures
        entries[i].get("hex_id"@).text() is Some ==> live_deployment(entries, name)
            == entries[i].get("hex_id"@).text(),
        entries[i].get("hex_id"@).text() is None ==> live_deployment(entries, name)
            == entries[i].get("id"@).text(),
    decreases entries.len(),
{
    if i > 0 {
        assert(!(entries[0].get("name"@).text() == Some(name) && entries[0].get("status"@).text()
            != Some("closed"@) && entries[0].get("status"@).text() != Some("failed"@)));
        let rest = entries.skip(1);
        assert(rest[i - 1] == entries[i]);
        assert forall|j: int| 0 <= j < i - 1 implies !((#[trigger] rest[j]).get("name"@).text()
            == Some(name) && rest[j].get("status"@).text() != Some("closed"@) && rest[j].get(
            "status"@,
        ).text() != Some("failed"@)) by {
            assert(rest[j] == entries[j + 1]);
        }
        the_first_live_deployment_is_updated(rest, name, i - 1);
    }
}

/// Where every deployment of a name is closed or failed, none is updated.
pub proof fn without_a_live_deployment_none_is_updated(entries: Seq<Tree>, name: Seq<char>)
    requires
        forall|j: int|
            0 <= j < entries.len() ==> !((#[trigger] entries[j]).get("name"@).text() == Some(name)
                && entries[j].get("status"@).text() != Some("closed"@) && entries[j].get(
                "status"@,
            ).text() != Some("failed"@)),
    ensures
        live_deployment(entries, name) is None,
    decreases entries.len(),
{
    if entries.len() > 0 {
        assert(!(entries[0].get("name"@).text() == Some(name) && entries[0].get("status"@).text()
            != Some("closed"@) && entries[0].get("status"@).text() != Some("failed"@)));
        let rest = entries.skip(1);
        assert forall|j: int| 0 <= j < rest.len() implies !((#[trigger] rest[j]).get(
            "name"@,
        ).text() == Some(name) && rest[j].get("status"@).text() != Some("closed"@) && rest[j].get(
            "status"@,
        ).text() != Some("failed"@)) by {
            assert(rest[j] == entries[j + 1]);
        }
        without_a_live_deployment_none_is_updated(rest, name);
    }
}

/// A new GPU workload replaces exactly the workloads of its name that are asked
/// for, starting or running and have an id, in their order, and of each it is
/// known whether it has variables.
pub proof fn every_running_workload_is_replaced(entries: Seq<Tree>, name: Seq<char>)
    ensures
        ({
            let id = |entry: Tree|
                match entry.get("hex_id"@) {
                    Tree::Text(hex) => Some(hex),
                    _ => entry.get("id"@).text(),
                };
            let running = entries.filter(
                |entry: Tree|
                    entry.get("name"@).text() == Some(name) && (entry.get("status"@).text() == Some(
                        "requested"@,
                    ) || entry.get("status"@).text() == Some("starting"@) || entry.get(
                        "status"@,
                    ).text() == Some("running"@)) && id(entry) is Some,
            );
            &&& to_replace(entries, name).len() == running.len()
            &&& forall|k: int|
                0 <= k < running.len() ==> (#[trigger] to_replace(entries, name)[k]).0 == id(
                    running[k],
                )->0
            &&& forall|k: int|
                0 <= k < running.len() ==> (#[trigger] to_replace(entries, name)[k]).1 == (
                match running[k].get("env"@) {
                    Tree::Object(variables) => variables.len() > 0,
                    _ => false,
                })
        }),
    decreases entries.len(),
{
    reveal(Seq::filter);
    if entries.len() > 0 {
        every_running_workload_is_replaced(entries.drop_last(), name);
    }
}

/// A GPU model is in the catalog exactly where an item of it has that name.
pub proof fn a_listed_model_is_found(catalog: Tree, model: Seq<char>, i: int)
    requires
        0 <= i < catalog.get("data"@).items().len(),
    ensures
        catalog.get("data"@).items()[i].get("name"@) == Tree::Text(model) ==> is_listed(
            catalog,
            model,
        ),
        !is_listed(catalog, model) ==> catalog.get("data"@).items()[i].get("name"@) != Tree::Text(
            model,
        ),
        is_listed(catalog, model) ==> exists|k: int|
            0 <= k < catalog.get("data"@).items().len() && #[trigger] catalog.get(
                "data"@,
            ).items()[k].get("name"@) == Tree::Text(model),
{
    if is_listed(catalog, model) {
        let k = choose|k: int|
            0 <= k < catalog.get("data"@).items().len() && (#[trigger] catalog.get(
                "data"@,
            ).items()[k]).get("name"@).text() == Some(model);
        assert(catalog.get("data"@).items()[k].get("name"@) == Tree::Text(model));
    }
}

/// The console is told all that a new deployment is made of: its name, its
/// image, its port, its variables, each under its name, its size and its
/// service name.
pub proof fn the_console_is_told_what_to_create(
    name: Seq<char>,
    image: Seq<char>,
    port: u16,
    env: Seq<(Seq<char>, String)>,
    size: Seq<char>,
    process_type: Seq<char>,
    key: Seq<char>,
)
    ensures
        ({
            let asked = create_tree(name, image, port, env, size, process_type);
            &&& asked.get("name"@).text() == Some(name)
            &&& asked.get("image"@).text() == Some(image)
            &&& asked.get("port"@).unsigned() == Some(port as u64)
            &&& asked.get("size"@).text() == Some(size)
            &&& asked.get("process_type"@).text() == Some(process_type)
            &&& asked.get("env"@).get(key) == (match lookup(env, key) {
                Some(value) => Tree::Text(value@),
                None => Tree::Null,
            })
        }),
{
    reveal_strlit("name");
    reveal_strlit("image");
    reveal_strlit("port");
    reveal_strlit("env");
    reveal_strlit("size");
    reveal_strlit("process_type");
    let list = create_tree(name, image, port, env, size, process_type)->Object_0;
    assert(list[0].0 == "name"@ && list[1].0 == "image"@ && list[2].0 == "port"@);
    assert(list[3].0 == "env"@ && list[4].0 == "size"@ && list[5].0 == "process_type"@);
    assert("name"@[0] == 'n' && "image"@[0] == 'i' && "port"@[0] == 'p' && "env"@[0] == 'e'
        && "size"@[0] == 's' && "process_type"@[0] == 'p');
    assert("port"@.len() != "process_type"@.len());
    fields_stand_under_their_keys(list);
    names_stand_under_their_keys(env, key);
    assert(list[3].1 == names_tree(env));
}

/// A line that is neither blank nor a comment and has no `=` makes the file of
/// variables unreadable, and no later line mends it; a file without lines has
/// no variables.
pub proof fn a_line_without_a_value_is_refused(lines: Seq<Seq<char>>, line: Seq<char>, more: Seq<char>)
    requires
        trimmed(line).len() > 0,
        trimmed(line)[0] != '#',
        !trimmed(line).contains('='),
    ensures
        dotenv_of(lines.push(line)) is Err,
        dotenv_of(lines) is Ok ==> dotenv_of(lines.push(line))->Err_0 == ".aoraki.env: '"@
            + trimmed(line) + "' is not KEY=VALUE"@,
        dotenv_of(lines.push(line).push(more)) == dotenv_of(lines.push(line)),
        dotenv_of(Seq::empty()) matches Ok(none) && none.len() == 0,
{
    assert(lines.push(line).drop_last() =~= lines);
    assert(lines.push(line).push(more).drop_last() =~= lines.push(line));
    a_split_loses_nothing(trimmed(line), '=');
}

/// A line `KEY=VALUE`, with or without blanks around key and value, gives the
/// key that value; what follows the first `=` belongs to the value.
pub proof fn a_variable_is_read(
    lines: Seq<Seq<char>>,
    line: Seq<char>,
    key: Seq<char>,
    value: Seq<char>,
    other: Seq<char>,
)
    requires
        dotenv_of(lines) is Ok,
        trimmed(line) == key + seq!['='] + value,
        !key.contains('='),
        key.len() > 0 ==> key[0] != '#',
    ensures
        dotenv_of(lines.push(line)) matches Ok(m) && lookup(m, trimmed(key)) == Some(trimmed(value))
            && (other != trimmed(key) ==> lookup(m, other) == lookup(
            dotenv_of(lines)->Ok_0,
            other,
        )),
{
    split_at_the_first(key, '=', value);
    if key.len() > 0 {
        assert(trimmed(line)[0] == key[0]);
    } else {
        assert(trimmed(line)[0] == '=');
    }
    last_value_counts(lines, line, key, value, other);
}

/// An org that the app pins by its id is the only one that a deploy goes to; a
/// pin that is no id, or none, stands in the way of no org.
pub proof fn an_org_id_is_binding(rest: Seq<char>, pin: Seq<char>, org: Seq<char>)
    ensures
        is_wrong_org(Some("org_"@ + rest), org) <==> org != "org_"@ + rest,
        !has_prefix(pin, "org_"@) ==> !is_wrong_org(Some(pin), org),
        !is_wrong_org(None, org),
{
    begins_and_ends_as_put_together("org_"@, rest);
}

/// The registry that is given goes before the one that the console advertises,
/// and that before the platform's own.
pub proof fn the_given_registry_goes_first(
    given: Seq<char>,
    advertised: Option<Seq<char>>,
    shown: Seq<char>,
)
    ensures
        registry_of(Some(given), advertised) == given,
        registry_of(None, Some(shown)) == shown,
        registry_of(None, None) == "registry.aoraki.cloud"@,
{
}

/// A deploy runs on a lease where no GPU is asked for, on any GPU for `auto`,
/// and on the model that is asked for in every other case.
pub proof fn the_gpu_decides_the_target(gpu: Option<Seq<char>>)
    ensures
        target_of(gpu) == Target::Lease <==> gpu is None,
        target_of(gpu) == Target::AnyGpu <==> gpu == Some("auto"@),
        target_of(gpu) == Target::GpuModel <==> gpu is Some && gpu->0 != "auto"@,
{
}

/// A working tree is clean exactly where each line of its status is blank or
/// tells of a file of variables that git does not know.
pub proof fn any_other_change_is_dirty(status: Seq<char>, i: int, dir: Seq<char>)
    requires
        0 <= i < line_seq(status).len(),
        trimmed(line_seq(status)[i]).len() > 0,
    ensures
        !has_prefix(line_seq(status)[i], "?? "@) ==> !is_clean(status),
        !has_suffix(line_seq(status)[i], ".aoraki.env"@) ==> !is_clean(status),
        tells_of_env("?? .aoraki.env"@),
        tells_of_env("?? "@ + dir + "/.aoraki.env"@),
        is_clean(Seq::empty()),
{
    let line = line_seq(status)[i];
    reveal_strlit("?? .aoraki.env");
    reveal_strlit("?? ");
    reveal_strlit("/.aoraki.env");
    reveal_strlit(".aoraki.env");
    begins_and_ends_as_put_together("?? "@, ".aoraki.env"@);
    assert("?? .aoraki.env"@ =~= "?? "@ + ".aoraki.env"@);
    begins_and_ends_as_put_together("?? "@, dir + "/.aoraki.env"@);
    begins_and_ends_as_put_together("?? "@ + dir, "/.aoraki.env"@);
    assert("?? "@ + (dir + "/.aoraki.env"@) =~= "?? "@ + dir + "/.aoraki.env"@);
    if has_suffix(line, "/.aoraki.env"@) {
        let end = line.skip(line.len() - "/.aoraki.env"@.len());
        assert(line.skip(line.len() - ".aoraki.env"@.len()) =~= end.skip(1));
        assert("/.aoraki.env"@.skip(1) =~= ".aoraki.env"@);
    }
    assert(trimmed(line_seq(status)[i]).len() == 0 || tells_of_env(line_seq(status)[i]) || !is_clean(
        status,
    ));
}

/// A quoted entry with a number and `/tcp` names that port; one with any other
/// ending names none, and neither does an entry without quotes or with a number
/// that is no port.
pub proof fn a_tcp_port_is_read(
    before: Seq<char>,
    n: u16,
    large: nat,
    text: Seq<char>,
    after: Seq<char>,
)
    requires
        !before.contains('"'),
        !text.contains('"'),
    ensures
        port_in(before + seq!['"'] + (decimal(n as nat) + "/tcp"@) + seq!['"'] + after) == Some(n),
        large > 65535 ==> port_in(
            before + seq!['"'] + (decimal(large) + "/tcp"@) + seq!['"'] + after,
        ) is None,
        !has_suffix(text, "/tcp"@) ==> port_in(before + seq!['"'] + text + seq!['"'] + after)
            is None,
        port_in(before) is None,
{
    lemma_port_name(n as nat);
    lemma_port_name(large);
    lemma_quoted(before, decimal(n as nat) + "/tcp"@, after);
    lemma_quoted(before, decimal(large) + "/tcp"@, after);
    lemma_quoted(before, text, after);
    pieces_stand_between_separators(before, '"', after);
}

proof fn lemma_port_name(n: nat)
    ensures
        has_suffix(decimal(n) + "/tcp"@, "/tcp"@),
        number_of((decimal(n) + "/tcp"@).take((decimal(n) + "/tcp"@).len() - "/tcp"@.len()))
            == Some(n),
        !(decimal(n) + "/tcp"@).contains('"'),
{
    reveal_strlit("/tcp");
    let digits = decimal(n);
    let port = digits + "/tcp"@;
    decimal_is_read_back(n);
    begins_and_ends_as_put_together(digits, "/tcp"@);
    if port.contains('"') {
        let j = choose|j: int| 0 <= j < port.len() && port[j] == '"';
        if j < digits.len() {
            assert(port[j] == digits[j]);
        } else {
            assert(port[j] == "/tcp"@[j - digits.len()]);
        }
    }
}

proof fn lemma_quoted(before: Seq<char>, text: Seq<char>, after: Seq<char>)
    requires
        !before.contains('"'),
        !text.contains('"'),
    ensures
        pieces(before + seq!['"'] + text + seq!['"'] + after, '"').len() > 1,
        pieces(before + seq!['"'] + text + seq!['"'] + after, '"')[1] == text,
{
    let rest = text + seq!['"'] + after;
    pieces_stand_between_separators(before, '"', rest);
    pieces_stand_between_separators(text, '"', after);
    assert(before + seq!['"'] + rest =~= before + seq!['"'] + text + seq!['"'] + after);
}

/// The ports of a list of entries are those of its parts, one after the other:
/// each entry that names a port adds it, and no other adds any.
pub proof fn ports_add_up(a: Seq<Seq<char>>, b: Seq<Seq<char>>, entry: Seq<char>)
    ensures
        ports_in(a + b) == ports_in(a) + ports_in(b),
        ports_in(seq![entry]) == (match port_in(entry) {
            Some(port) => seq![port],
            None => Seq::empty(),
        }),
    decreases b.len(),
{
    if b.len() == 0 {
        assert(a + b =~= a);
        assert(ports_in(a) + ports_in(b) =~= ports_in(a));
    } else {
        assert((a + b).drop_last() =~= a + b.drop_last());
        assert((a + b).last() == b.last());
        ports_add_up(a, b.drop_last(), entry);
        assert(ports_in(a + b) =~= ports_in(a) + ports_in(b));
    }
    assert(seq![entry].drop_last() =~= Seq::<Seq<char>>::empty());
    assert(ports_in(Seq::<Seq<char>>::empty()) =~= Seq::<u16>::empty());
}

/// A refusal ends a lease deploy for good, each stage with an end of its own,
/// but that a failed push is tried again and that a deployment that is not
/// there is created.
pub proof fn a_refusal_ends_a_lease_deploy(port_given: bool, target: Target, more: bool)
    ensures
        ({
            let no = |stage: LeaseStage| next_lease_stage(port_given, target, stage, false);
            &&& no(LeaseStage::FindDockerfile) == LeaseStage::NoDockerfile
            &&& no(LeaseStage::Guard) == LeaseStage::WrongOrg
            &&& no(LeaseStage::CheckTree) == LeaseStage::DirtyTree
            &&& no(LeaseStage::Build) == LeaseStage::BuildFailed
            &&& no(LeaseStage::FindPort) == LeaseStage::NoPort
            &&& no(LeaseStage::Login) == LeaseStage::LoginFailed
            &&& no(LeaseStage::LoginAgain) == LeaseStage::LoginFailed
            &&& no(LeaseStage::PushAgain) == LeaseStage::PushFailed
            &&& no(LeaseStage::ReadEnv) == LeaseStage::BadEnv
            &&& no(LeaseStage::CheckModel) == LeaseStage::UnknownModel
            &&& no(LeaseStage::Push) == LeaseStage::LoginAgain
            &&& no(LeaseStage::FindDeployment) == LeaseStage::Create
        }),
        forall|end: LeaseStage|
            lease_rank(end) == 12 ==> #[trigger] next_lease_stage(port_given, target, end, more)
                == end,
{
}

/// A lease deploy of which all goes well builds, logs in, pushes and then
/// updates the deployment that is there; one for a GPU reads the variables,
/// looks the model up where one is asked for, and replaces the workload before
/// it starts the new one.
pub proof fn a_lease_deploy_comes_to_its_end(port_given: bool, target: Target)
    ensures
        ({
            let yes = |stage: LeaseStage| next_lease_stage(port_given, target, stage, true);
            let built = yes(yes(yes(yes(LeaseStage::FindDockerfile))));
            let pushed = yes(yes(LeaseStage::Login));
            &&& yes(yes(yes(LeaseStage::FindDockerfile))) == LeaseStage::Build
            &&& built == (if port_given {
                LeaseStage::Login
            } else {
                LeaseStage::FindPort
            })
            &&& yes(LeaseStage::FindPort) == LeaseStage::Login
            &&& yes(yes(LeaseStage::LoginAgain)) == pushed
            &&& target == Target::Lease ==> yes(pushed) == LeaseStage::Swap
            &&& target == Target::AnyGpu ==> yes(yes(pushed)) == LeaseStage::StartGpu
            &&& target == Target::GpuModel ==> yes(pushed) == LeaseStage::CheckModel && yes(
                yes(yes(pushed)),
            ) == LeaseStage::StartGpu
        }),
{
}

/// An entry for a TCP port as docker writes it, with what follows the name.
spec fn port_entry(n: u16, after: Seq<char>) -> Seq<char> {
    seq!['"'] + (decimal(n as nat) + "/tcp"@) + seq!['"'] + after
}

proof fn lemma_port_entry(n: u16, after: Seq<char>)
    requires
        !after.contains(','),
    ensures
        port_in(port_entry(n, after)) == Some(n),
        !port_entry(n, after).contains(','),
        port_entry(n, after)[0] == '"',
{
    reveal_strlit("/tcp");
    let none = Seq::<char>::empty();
    let digits = decimal(n as nat);
    let entry = port_entry(n, after);
    decimal_is_read_back(n as nat);
    a_tcp_port_is_read(none, n, 0, none, after);
    assert(none + seq!['"'] + (digits + "/tcp"@) + seq!['"'] + after =~= entry);
    if entry.contains(',') {
        let j = choose|j: int| 0 <= j < entry.len() && entry[j] == ',';
        let m = digits.len() as int;
        if 1 <= j < 1 + m {
            assert(entry[j] == digits[j - 1]);
        } else if 1 + m <= j < 5 + m {
            assert(entry[j] == "/tcp"@[j - 1 - m]);
        } else if j > 5 + m {
            assert(entry[j] == after[j - 6 - m]);
            assert(after.contains(after[j - 6 - m]));
        }
    }
}

/// Braces around the entries, and a line end behind them, are no part of them.
proof fn lemma_in_braces(inner: Seq<char>)
    requires
        inner.len() > 0,
        inner[0] == '"',
        inner.last() == '{',
    ensures
        port_entries(seq!['{'] + inner + seq!['}', '}'] + seq!['\n']) == pieces(inner, ','),
{
    let bare = seq!['{'] + inner + seq!['}', '}'];
    let none = Seq::<char>::empty();
    what_is_blank('{');
    what_is_blank('}');
    assert(bare[0] == '{' && bare.last() == '}');
    blanks_at_the_ends_go(none, bare, seq!['\n']);
    assert(none + bare + seq!['\n'] =~= bare + seq!['\n']);
    ends_are_taken_off(bare, '"');
    let opened = inner + seq!['}', '}'];
    assert(bare =~= seq!['{'] + opened);
    assert(opened[0] == '"');
    ends_are_taken_off(opened, '{');
    assert(opened =~= inner.push('}').push('}'));
    ends_are_taken_off(inner.push('}'), '}');
    ends_are_taken_off(inner, '}');
}

/// The port of an image that exposes one is found, and so are both of one that
/// exposes two, in docker's list of the ports of an image; an image that
/// exposes none has none.
pub proof fn exposed_ports_are_found(a: u16, b: u16)
    ensures
        ports_in(
            port_entries(
                seq!['{'] + (seq!['"'] + (decimal(a as nat) + "/tcp"@) + seq!['"'] + seq![':', '{'])
                    + seq!['}', '}'] + seq!['\n'],
            ),
        ) == seq![a],
        ports_in(
            port_entries(
                seq!['{'] + (seq!['"'] + (decimal(a as nat) + "/tcp"@) + seq!['"'] + seq![
                    ':',
                    '{',
                    '}',
                ] + seq![','] + (seq!['"'] + (decimal(b as nat) + "/tcp"@) + seq!['"'] + seq![
                    ':',
                    '{',
                ])) + seq!['}', '}'] + seq!['\n'],
            ),
        ) == seq![a, b],
        ports_in(port_entries("null"@)).len() == 0,
{
    let open = seq![':', '{'];
    let shut = seq![':', '{', '}'];
    let one = port_entry(a, open);
    let first = port_entry(a, shut);
    let second = port_entry(b, open);
    let two = first + seq![','] + second;
    lemma_port_entry(a, open);
    lemma_port_entry(a, shut);
    lemma_port_entry(b, open);
    assert(two[0] == first[0]);
    lemma_in_braces(one);
    lemma_in_braces(two);
    pieces_stand_between_separators(one, ',', Seq::empty());
    pieces_stand_between_separators(first, ',', second);
    pieces_stand_between_separators(second, ',', Seq::empty());
    ports_add_up(Seq::empty(), Seq::empty(), one);
    ports_add_up(seq![first], seq![second], first);
    ports_add_up(seq![first], seq![second], second);
    assert(seq![a] + seq![b] =~= seq![a, b]);
    reveal_strlit("null");
    let none = Seq::<char>::empty();
    let null = "null"@;
    what_is_blank('n');
    what_is_blank('l');
    blanks_at_the_ends_go(none, null, none);
    assert(none + null + none =~= null);
    ends_are_taken_off(null, '"');
    ends_are_taken_off(null, '{');
    ends_are_taken_off(null, '}');
    assert(!null.contains(',') && !null.contains('"'));
    pieces_stand_between_separators(null, ',', none);
    pieces_stand_between_separators(null, '"', none);
    ports_add_up(Seq::empty(), Seq::empty(), null);
}

} // verus!
