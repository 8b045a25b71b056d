//! `aoraki launch`: a container image runs on the Aoraki cloud, on a lease or
//! on a GPU. The waits are shared with `aoraki deploy`.

use crate::commands::lease::create_tree;
use crate::console::{pages_of, Console};
use crate::failure::{fail, Failure};
use crate::json::{
    fields, fields_stand_under_their_keys, names_stand_under_their_keys, names_tree, names_value, port_tree, port_value, text_value, with_field, Json, Tree,
};
use crate::names::{inserted, lookup, lookup_after_insert, texts, texts_after_insert, NameMap};
use crate::text::{
    a_split_loses_nothing, after_last, after_last_char, before, begins_and_ends_as_put_together,
    decimal, first_index, halves, has_suffix, occurs_in, occurs_in_a_part, occurs_in_itself, opt,
    pad_right, padded_right, same, show, show_signed, signed_decimal, split_at_the_first,
    split_once, views, what_follows_the_last,
};
use vstd::prelude::*;
use vstd::string::*;

verus! {

/// How often a lease is asked for.
pub const POLL_ATTEMPTS: u32 = 36;

/// How often a GPU workload is asked for. GPU nodes pull large images.
pub const GPU_POLL_ATTEMPTS: u32 = 120;

/// Seconds between two questions.
pub const POLL_SECONDS: u64 = 5;

pub const TEAL: &'static str = "\u{1b}[38;2;88;197;214m";

pub const BOLD: &'static str = "\u{1b}[1m";

pub const DIM: &'static str = "\u{1b}[2m";

pub const RESET: &'static str = "\u{1b}[0m";

/// Goes to the start of the line and clears it.
pub const CLEAR_LINE: &'static str = "\r\u{1b}[2K";

pub const RULE: &'static str = "  ──────────────────────────────────────────";

/// What is launched.
pub struct LaunchArgs {
    pub image: String,
    pub port: u16,
    pub name: Option<String>,
    pub env: Vec<String>,
    pub size: String,
    pub domain: Option<String>,
    /// `auto`, or a GPU model.
    pub gpu: Option<String>,
    pub remote: Option<String>,
}

// ---------------------------------------------------------------------
// What is launched
// ---------------------------------------------------------------------

/// The name of a deployment: the one given, else the image's own name, without
/// the registry before it and the tag behind it.
pub open spec fn launch_name(given: Option<Seq<char>>, image: Seq<char>) -> Seq<char> {
    match given {
        Some(name) => name,
        None => {
            let base = after_last(image, '/');
            base.take(first_index(base, ':'))
        },
    }
}

/// The name of a deployment.
pub fn deployment_name(name: &Option<String>, image: &str) -> (r: String)
    ensures
        r@ == launch_name(opt(*name), image@),
{
    match name {
        Some(given) => given.clone(),
        None => before(after_last_char(image, '/'), ':').to_string(),
    }
}

/// The variables that `KEY=VALUE` pairs write, or what is said of the first
/// that is none.
pub open spec fn env_of(pairs: Seq<Seq<char>>) -> Result<Seq<(Seq<char>, Seq<char>)>, Seq<char>>
    decreases pairs.len(),
{
    if pairs.len() == 0 {
        Ok(Seq::empty())
    } else {
        match env_of(pairs.drop_last()) {
            Ok(m) => match halves(pairs.last(), '=') {
                Some((key, value)) => Ok(inserted(m, key, value)),
                None => Err("--env '"@ + pairs.last() + "' is not KEY=VALUE"@),
            },
            Err(text) => Err(text),
        }
    }
}

proof fn lemma_env_fails(pairs: Seq<Seq<char>>, i: int)
    requires
        0 <= i <= pairs.len(),
        env_of(pairs.take(i)) is Err,
    ensures
        env_of(pairs) == env_of(pairs.take(i)),
    decreases pairs.len() - i,
{
    if i < pairs.len() {
        assert(pairs.take(i + 1).drop_last() =~= pairs.take(i));
        lemma_env_fails(pairs, i + 1);
    } else {
        assert(pairs.take(i) =~= pairs);
    }
}

/// The variables that `KEY=VALUE` pairs write.
pub fn env_map(pairs: &Vec<String>) -> (r: Result<NameMap<String>, Failure>)
    ensures
        match env_of(views(pairs@)) {
            Ok(m) => r matches Ok(map) && texts(map@) == m,
            Err(said) => r matches Err(failure) && failure@ == said,
        },
{
    let mut map: NameMap<String> = NameMap::new();
    let ghost all = views(pairs@);
    let mut i: usize = 0;
    proof {
        assert(texts(map@) =~= Seq::<(Seq<char>, Seq<char>)>::empty());
    }
    while i < pairs.len()
        invariant
            i <= pairs.len(),
            all == views(pairs@),
            env_of(all.take(i as int)) == Ok::<Seq<(Seq<char>, Seq<char>)>, Seq<char>>(
                texts(map@),
            ),
        decreases pairs.len() - i,
    {
        proof {
            assert(all.take(i + 1).drop_last() =~= all.take(i as int));
            assert(all.take(i + 1).last() == pairs@[i as int]@);
        }
        match split_once(pairs[i].as_str(), '=') {
            Some((key, value)) => {
                let value = value.to_string();
                proof {
                    texts_after_insert(map@, key@, value);
                }
                map.insert(key.to_string(), value);
            },
            None => {
                proof {
                    lemma_env_fails(all, i + 1);
                }
                return Err(
                    fail(
                        "--env '".to_string().concat(pairs[i].as_str()).concat(
                            "' is not KEY=VALUE",
                        ),
                    ),
                );
            },
        }
        i = i + 1;
    }
    proof {
        assert(all.take(i as int) =~= all);
    }
    Ok(map)
}

/// Refuses what a GPU cannot have, and notes what it has no use for. The size
/// that stands for none given is passed over.
pub fn gpu_preflight(args: &LaunchArgs) -> (r: Result<Option<String>, Failure>)
    ensures
        if args.domain is Some {
            r matches Err(failure) && failure@
                == "--domain is not supported for GPU deploys yet (no FQDN/TLS on GPU endpoints)"@
        } else {
            r matches Ok(note) && opt(note) == (if args.size@ == "docker-xlarge-storage"@ {
                None
            } else {
                Some(
                    "note: --size does not apply to GPU deploys (the GPU model determines the unit) — ignoring"@,
                )
            })
        },
{
    if args.domain.is_some() {
        return Err(
            fail(
                "--domain is not supported for GPU deploys yet (no FQDN/TLS on GPU endpoints)".to_string(),
            ),
        );
    }
    if same(args.size.as_str(), "docker-xlarge-storage") {
        Ok(None)
    } else {
        Ok(
            Some(
                "note: --size does not apply to GPU deploys (the GPU model determines the unit) — ignoring".to_string(),
            ),
        )
    }
}

/// The line that announces a launch.
pub fn launch_announce(name: &str, image: &str, console: &Console) -> (r: String)
    ensures
        r@ == "launching '"@ + name@ + "' → "@ + image@ + " (org: "@ + console.org_name@
            + ", remote: "@ + console.remote_name@ + ")"@,
{
    "launching '".to_string().concat(name).concat("' → ").concat(image).concat(" (org: ").concat(
        console.org_name.as_str(),
    ).concat(", remote: ").concat(console.remote_name.as_str()).concat(")")
}

/// What the console is asked for.
pub fn launch_request(name: &str, args: &LaunchArgs, env: &NameMap<String>) -> (r: Json)
    ensures
        r.tree() == create_tree(name@, args.image@, args.port, env@, args.size@, "web"@),
{
    crate::commands::lease::create_request(
        name,
        args.image.as_str(),
        args.port,
        env,
        args.size.as_str(),
        "web",
    )
}

/// The id of the deployment that the console created.
pub fn launched_id(answer: &Json) -> (r: Result<String, Failure>)
    ensures
        match answer.tree().get("data"@).get("hex_id"@).text() {
            Some(id) => r matches Ok(found) && found@ == id,
            None => r matches Err(failure) && failure@
                == "deploy accepted but no deployment id returned"@,
        },
{
    match answer.text_at2("data", "hex_id") {
        Some(id) => Ok(id.to_string()),
        None => Err(fail("deploy accepted but no deployment id returned".to_string())),
    }
}

/// The lines after a launch was accepted.
pub fn launched_lines(console: &Console, id: &str) -> (r: Vec<String>)
    ensures
        views(r@) == seq![
            "deployment "@ + id@ + " registered — waiting for the lease…"@,
            DIM@
                + "(safe to close this terminal — the deploy continues server-side; watch it at "@
                + pages_of(console.api@) + "/deployments/"@ + id@ + ")"@ + RESET@,
        ],
{
    let mut out: Vec<String> = Vec::new();
    let second = DIM.to_string().concat(
        "(safe to close this terminal — the deploy continues server-side; watch it at ",
    ).concat(console.console_base()).concat("/deployments/").concat(id).concat(")").concat(RESET);
    let ghost line = second@;
    out.push(
        "deployment ".to_string().concat(id).concat(" registered — waiting for the lease…"),
    );
    out.push(second);
    proof {
        assert(views(out@) =~= seq![
            "deployment "@ + id@ + " registered — waiting for the lease…"@,
            line,
        ]);
    }
    out
}

/// What the console is asked for to claim a domain.
pub fn domain_request(domain: &str) -> (r: Json)
    ensures
        r.tree() == Tree::Object(seq![("domain"@, Tree::Text(domain@))]),
{
    let list: Vec<(String, Json)> = Vec::new();
    let list = with_field(list, "domain", text_value(domain));
    proof {
        assert(fields(list@) =~= seq![("domain"@, Tree::Text(domain@))]);
    }
    Json::Object(list)
}

/// The lines after a domain was claimed.
pub fn domain_lines(domain: &str, fqdn: &str) -> (r: Vec<String>)
    ensures
        views(r@) == seq![
            "domain "@ + domain@ + " claimed on-chain"@,
            "  → point DNS at it: CNAME "@ + domain@ + " → "@ + fqdn@ + " (DNS only, no proxy)"@,
            "  → TLS auto-issues once DNS resolves; if it stalls, `restart` the deployment"@,
        ],
{
    let mut out: Vec<String> = Vec::new();
    out.push("domain ".to_string().concat(domain).concat(" claimed on-chain"));
    out.push(
        "  → point DNS at it: CNAME ".to_string().concat(domain).concat(" → ").concat(
            fqdn,
        ).concat(" (DNS only, no proxy)"),
    );
    out.push(
        "  → TLS auto-issues once DNS resolves; if it stalls, `restart` the deployment".to_string(),
    );
    proof {
        assert(views(out@) =~= seq![
            "domain "@ + domain@ + " claimed on-chain"@,
            "  → point DNS at it: CNAME "@ + domain@ + " → "@ + fqdn@ + " (DNS only, no proxy)"@,
            "  → TLS auto-issues once DNS resolves; if it stalls, `restart` the deployment"@,
        ]);
    }
    out
}

// ---------------------------------------------------------------------
// What is shown
// ---------------------------------------------------------------------

/// The line that is shown while waiting, in place of the one before.
pub open spec fn waiting_line(status: Seq<char>, seconds: nat) -> Seq<char> {
    CLEAR_LINE@ + "  …"@ + status + " ("@ + decimal(seconds) + "s)"@
}

/// The line that is shown while the console does not answer.
pub open spec fn reconnecting_line(failures: nat, seconds: nat) -> Seq<char> {
    CLEAR_LINE@ + "  …reconnecting to console (attempt "@ + decimal(failures) + ", "@ + decimal(
        seconds,
    ) + "s) — deploy continues server-side"@
}

fn show_waiting(status: &str, seconds: u64) -> (r: String)
    ensures
        r@ == waiting_line(status@, seconds as nat),
{
    CLEAR_LINE.to_string().concat("  …").concat(status).concat(" (").concat(
        show(seconds).as_str(),
    ).concat("s)")
}

fn show_reconnecting(failures: u32, seconds: u64) -> (r: String)
    ensures
        r@ == reconnecting_line(failures as nat, seconds as nat),
{
    CLEAR_LINE.to_string().concat("  …reconnecting to console (attempt ").concat(
        show(failures as u64).as_str(),
    ).concat(", ").concat(show(seconds).as_str()).concat("s) — deploy continues server-side")
}

/// A row of a banner: a label and what it stands for.
pub open spec fn banner_row(row: (Seq<char>, Seq<char>)) -> Seq<char> {
    "  "@ + padded_right(row.0, 8) + " "@ + row.1
}

/// The lines of a banner.
pub open spec fn banner_lines(title: Seq<char>, rows: Seq<(Seq<char>, Seq<char>)>) -> Seq<
    Seq<char>,
> {
    let rule = TEAL@ + RULE@ + RESET@;
    seq![""@, TEAL@ + BOLD@ + "  ✓ "@ + title + RESET@, rule] + rows.map_values(
        |row: (Seq<char>, Seq<char>)| banner_row(row),
    ) + seq![rule]
}

/// The views of the rows of a banner.
pub open spec fn row_views(rows: Seq<(String, String)>) -> Seq<(Seq<char>, Seq<char>)> {
    rows.map_values(|row: (String, String)| (row.0@, row.1@))
}

fn banner(title: &str, rows: &Vec<(String, String)>) -> (r: Vec<String>)
    ensures
        views(r@) == banner_lines(title@, row_views(rows@)),
{
    let rule = TEAL.to_string().concat(RULE).concat(RESET);
    let ghost head = seq![
        ""@,
        TEAL@ + BOLD@ + "  ✓ "@ + title@ + RESET@,
        TEAL@ + RULE@ + RESET@,
    ];
    let ghost all = row_views(rows@).map_values(|row: (Seq<char>, Seq<char>)| banner_row(row));
    let mut out: Vec<String> = Vec::new();
    out.push("".to_string());
    out.push(TEAL.to_string().concat(BOLD).concat("  ✓ ").concat(title).concat(RESET));
    out.push(rule.clone());
    let mut i: usize = 0;
    proof {
        assert(views(out@) =~= head + all.take(0));
    }
    while i < rows.len()
        invariant
            i <= rows.len(),
            all == row_views(rows@).map_values(|row: (Seq<char>, Seq<char>)| banner_row(row)),
            views(out@) == head + all.take(i as int),
        decreases rows.len() - i,
    {
        let line = "  ".to_string().concat(pad_right(rows[i].0.as_str(), 8).as_str()).concat(
            " ",
        ).concat(rows[i].1.as_str());
        let ghost text = line@;
        let ghost before = views(out@);
        out.push(line);
        proof {
            assert(text == all[i as int]);
            assert(views(out@) =~= before.push(text));
            assert(views(out@) =~= head + all.take(i + 1));
        }
        i = i + 1;
    }
    let ghost before = views(out@);
    let ghost last = rule@;
    out.push(rule);
    proof {
        assert(all.take(i as int) =~= all);
        assert(views(out@) =~= before.push(last));
        assert(views(out@) =~= head + all + seq![last]);
    }
    out
}

// ---------------------------------------------------------------------
// Waiting for a lease
// ---------------------------------------------------------------------

/// How a wait stands: how often it may still ask, and how often in a row it
/// got no answer.
pub struct Wait {
    pub left: u32,
    pub failures: u32,
}

impl Wait {
    /// The wait has not asked more often than it may.
    pub open spec fn wf(&self, attempts: u32) -> bool {
        self.left + self.failures <= attempts
    }

    /// A wait that may ask so often.
    pub fn new(attempts: u32) -> (r: Self)
        ensures
            r.left == attempts,
            r.failures == 0,
            r.wf(attempts),
    {
        Wait { left: attempts, failures: 0 }
    }
}

/// What came of a question.
pub enum LeasePoll {
    /// Not ready: a line is shown, and the wait goes on.
    Again(String),
    /// The deploy failed.
    Failed(Failure),
    /// The lease is active: a line is printed, and the branded domain, where
    /// it is known, is kept.
    Active { line: String, default_domain: Option<String> },
}

/// The status that a deployment tells.
pub open spec fn lease_status(deployment: Tree) -> Seq<char> {
    match deployment.get("status"@).text() {
        Some(status) => status,
        None => deployment.get("health"@).text_or("pending"@),
    }
}

/// The id of a deployment's lease.
pub open spec fn lease_id(deployment: Tree) -> Seq<char> {
    deployment.get("lease_uuid"@).text_or(""@)
}

/// What an answer tells of a deployment.
#[derive(Clone, Copy, PartialEq, Eq, Structural)]
pub enum LeaseWord {
    /// Nothing that ends the wait, or there was no answer.
    Waiting,
    Failed,
    /// It is active, and has a lease.
    Active,
}

/// What an answer, or its absence, tells of a deployment.
pub open spec fn lease_word(answer: Option<Tree>) -> LeaseWord {
    match answer {
        None => LeaseWord::Waiting,
        Some(tree) => {
            let deployment = tree.get("data"@).get("deployment"@);
            if lease_status(deployment) == "failed"@ {
                LeaseWord::Failed
            } else if lease_status(deployment) == "active"@ && lease_id(deployment).len() > 0 {
                LeaseWord::Active
            } else {
                LeaseWord::Waiting
            }
        },
    }
}

/// What came of a question is right: a failure ends the wait, an active
/// deployment with a lease leads to the question after its address, and all
/// else lets the wait go on.
pub open spec fn lease_poll_ok(answer: Tree, seconds: nat, r: LeasePoll) -> bool {
    let deployment = answer.get("data"@).get("deployment"@);
    match lease_word(Some(answer)) {
        LeaseWord::Failed => r matches LeasePoll::Failed(failure) && failure@ == "deploy failed: "@
            + answer.get("data"@).get("history"@).at(0).get("commit_message"@).text_or(
            "no failure detail recorded"@,
        ),
        LeaseWord::Active => r matches LeasePoll::Active { line, default_domain } && line@
            == "lease "@ + lease_id(deployment) + " active — "@ + signed_decimal(
            match deployment.get("hourly_cost_upwr"@).signed() {
                Some(cost) => cost as int,
                None => 0,
            },
        ) + " µPWR/hr"@ && opt(default_domain) == deployment.get("default_domain"@).text(),
        LeaseWord::Waiting => r matches LeasePoll::Again(line) && line@ == waiting_line(
            lease_status(deployment),
            seconds,
        ),
    }
}

fn read_lease(answer: &Json, seconds: u64) -> (r: LeasePoll)
    ensures
        lease_poll_ok(answer.tree(), seconds as nat, r),
{
    let empty = Json::Null;
    let deployment = match answer.field2("data", "deployment") {
        Some(found) => found,
        None => &empty,
    };
    let status = match deployment.text_at("status") {
        Some(text) => text,
        None => deployment.text_or("health", "pending"),
    };
    let lease = deployment.text_or("lease_uuid", "");
    if same(status, "failed") {
        let note = match answer.first_text_at2("data", "history", "commit_message") {
            Some(text) => text,
            None => "no failure detail recorded",
        };
        LeasePoll::Failed(fail("deploy failed: ".to_string().concat(note)))
    } else if same(status, "active") && lease.unicode_len() > 0 {
        let cost: i64 = match deployment.signed_at("hourly_cost_upwr") {
            Some(cost) => cost,
            None => 0,
        };
        let line = "lease ".to_string().concat(lease).concat(" active — ").concat(
            show_signed(cost).as_str(),
        ).concat(" µPWR/hr");
        let default_domain = match deployment.text_at("default_domain") {
            Some(text) => Some(text.to_string()),
            None => None,
        };
        LeasePoll::Active { line, default_domain }
    } else {
        LeasePoll::Again(show_waiting(status, seconds))
    }
}

/// Takes in the answer to a question after a lease, or that none came. A
/// console that does not answer never ends the wait; only its questions do.
pub fn poll_lease(wait: &mut Wait, answer: Option<&Json>, seconds: u64) -> (r: LeasePoll)
    requires
        old(wait).left > 0,
        old(wait).wf(POLL_ATTEMPTS),
    ensures
        final(wait).wf(POLL_ATTEMPTS),
        final(wait).left == old(wait).left - 1,
        match answer {
            Some(json) => final(wait).failures == 0 && lease_poll_ok(
                json.tree(),
                seconds as nat,
                r,
            ),
            None => final(wait).failures == old(wait).failures + 1 && (r matches LeasePoll::Again(
                line,
            ) && line@ == reconnecting_line(final(wait).failures as nat, seconds as nat)),
        },
        next_lease_phase(LeasePhase::Asking(old(wait).left as nat), tree_of(answer)) == (match r {
            LeasePoll::Again(_) => LeasePhase::Asking(final(wait).left as nat),
            LeasePoll::Failed(_) => LeasePhase::Failed,
            LeasePoll::Active { line, default_domain } => LeasePhase::Reaching(
                final(wait).left as nat,
            ),
        }),
{
    wait.left = wait.left - 1;
    match answer {
        Some(json) => {
            wait.failures = 0;
            read_lease(json, seconds)
        },
        None => {
            wait.failures = wait.failures + 1;
            LeasePoll::Again(show_reconnecting(wait.failures, seconds))
        },
    }
}

/// The address of a lease in the console's answer, if it has one.
pub open spec fn fqdn_of(live: Tree) -> Option<Seq<char>> {
    match live.get("data"@).get("connection"@).get("fqdn"@).text() {
        Some(fqdn) => Some(fqdn),
        None => live.get("data"@).get("fqdn"@).text(),
    }
}

/// What came of the question after an active lease's address.
pub enum LivePoll {
    /// Not known yet: a line is shown, and the wait goes on.
    Again(String),
    /// The lease is reached at an address.
    Found(String),
    /// The questions are used up.
    TimedOut(Failure),
}

/// The address in an answer, if there is an answer and it has one.
pub open spec fn address_in(answer: Option<Tree>) -> Option<Seq<char>> {
    match answer {
        Some(tree) => fqdn_of(tree),
        None => None,
    }
}

fn lease_fqdn(live: Option<&Json>) -> (r: Option<String>)
    ensures
        opt(r) == address_in(tree_of(live)),
{
    if let Some(json) = live {
        if let Some(connection) = json.field2("data", "connection") {
            if let Some(fqdn) = connection.text_at("fqdn") {
                return Some(fqdn.to_string());
            }
        }
        if let Some(fqdn) = json.text_at2("data", "fqdn") {
            return Some(fqdn.to_string());
        }
    }
    None
}

/// Takes in the answer to the question after an active lease's address, or
/// that none came. An address ends the wait. Without one the console is asked
/// again, as long as there are questions left.
pub fn poll_live(wait: &mut Wait, live: Option<&Json>, seconds: u64) -> (r: LivePoll)
    requires
        old(wait).wf(POLL_ATTEMPTS),
    ensures
        final(wait).wf(POLL_ATTEMPTS),
        match address_in(tree_of(live)) {
            Some(fqdn) => *final(wait) == *old(wait) && (r matches LivePoll::Found(found) && found@
                == fqdn),
            None => if old(wait).left == 0 {
                *final(wait) == *old(wait) && (r matches LivePoll::TimedOut(failure) && failure@
                    == "timed out waiting for the lease — check `deployments` in the console"@)
            } else {
                &&& final(wait).left == old(wait).left - 1
                &&& final(wait).failures == (if live is Some {
                    0
                } else {
                    old(wait).failures + 1
                })
                &&& r matches LivePoll::Again(line)
                &&& line@ == (if live is Some {
                    waiting_line("active — waiting for the address"@, seconds as nat)
                } else {
                    reconnecting_line(final(wait).failures as nat, seconds as nat)
                })
            },
        },
        next_lease_phase(LeasePhase::Reaching(old(wait).left as nat), tree_of(live)) == (match r {
            LivePoll::Again(_) => LeasePhase::Reaching(final(wait).left as nat),
            LivePoll::Found(found) => LeasePhase::Reached(found@),
            LivePoll::TimedOut(_) => LeasePhase::TimedOut,
        }),
{
    if let Some(fqdn) = lease_fqdn(live) {
        return LivePoll::Found(fqdn);
    }
    if wait.left == 0 {
        return LivePoll::TimedOut(lease_timed_out());
    }
    wait.left = wait.left - 1;
    if live.is_some() {
        wait.failures = 0;
        LivePoll::Again(show_waiting("active — waiting for the address", seconds))
    } else {
        wait.failures = wait.failures + 1;
        LivePoll::Again(show_reconnecting(wait.failures, seconds))
    }
}

/// What is said where a lease did not come in time.
pub fn lease_timed_out() -> (r: Failure)
    ensures
        r@ == "timed out waiting for the lease — check `deployments` in the console"@,
{
    fail("timed out waiting for the lease — check `deployments` in the console".to_string())
}

// ---------------------------------------------------------------------
// The course of a wait for a lease
// ---------------------------------------------------------------------

/// Where a wait for a lease stands.
pub enum LeasePhase {
    /// It asks after the deployment, and may do so as often as is told: with
    /// nothing left it has run out.
    Asking(nat),
    /// The lease is active. It asks after the address, and may do so as often
    /// as is told besides the next time.
    Reaching(nat),
    /// The deploy failed.
    Failed,
    /// The lease is reached at an address.
    Reached(Seq<char>),
    /// The questions are used up.
    TimedOut,
}

/// What an answer says, if there is one.
pub open spec fn tree_of(answer: Option<&Json>) -> Option<Tree> {
    match answer {
        Some(json) => Some(json.tree()),
        None => None,
    }
}

/// Where a wait for a lease stands after an answer, or after none came.
pub open spec fn next_lease_phase(phase: LeasePhase, answer: Option<Tree>) -> LeasePhase {
    match phase {
        LeasePhase::Asking(left) => if left == 0 {
            LeasePhase::TimedOut
        } else {
            match lease_word(answer) {
                LeaseWord::Waiting => LeasePhase::Asking((left - 1) as nat),
                LeaseWord::Failed => LeasePhase::Failed,
                LeaseWord::Active => LeasePhase::Reaching((left - 1) as nat),
            }
        },
        LeasePhase::Reaching(left) => match address_in(answer) {
            Some(fqdn) => LeasePhase::Reached(fqdn),
            None => if left == 0 {
                LeasePhase::TimedOut
            } else {
                LeasePhase::Reaching((left - 1) as nat)
            },
        },
        end => end,
    }
}

/// Where a wait for a lease stands after all that was answered.
pub open spec fn lease_wait(attempts: nat, answers: Seq<Option<Tree>>) -> LeasePhase
    decreases answers.len(),
{
    if answers.len() == 0 {
        LeasePhase::Asking(attempts)
    } else {
        next_lease_phase(lease_wait(attempts, answers.drop_last()), answers.last())
    }
}

/// The lease is reached in time: up to the answer at `i` nothing ends the
/// wait, that one tells of an active lease, and the one at `j` is the first
/// after it with an address.
pub open spec fn reached_in_time(
    attempts: nat,
    answers: Seq<Option<Tree>>,
    i: int,
    j: int,
) -> bool {
    &&& 0 <= i < j < answers.len()
    &&& i < attempts
    &&& j <= attempts
    &&& forall|k: int| 0 <= k < i ==> lease_word(#[trigger] answers[k]) == LeaseWord::Waiting
    &&& lease_word(answers[i]) == LeaseWord::Active
    &&& forall|k: int| i < k < j ==> address_in(#[trigger] answers[k]) is None
    &&& address_in(answers[j]) is Some
}

proof fn lemma_asking(attempts: nat, answers: Seq<Option<Tree>>)
    requires
        answers.len() <= attempts,
        forall|k: int|
            0 <= k < answers.len() ==> lease_word(#[trigger] answers[k]) == LeaseWord::Waiting,
    ensures
        lease_wait(attempts, answers) == LeasePhase::Asking((attempts - answers.len()) as nat),
    decreases answers.len(),
{
    if answers.len() > 0 {
        let before = answers.drop_last();
        assert forall|k: int| 0 <= k < before.len() implies lease_word(#[trigger] before[k])
            == LeaseWord::Waiting by {
            assert(before[k] == answers[k]);
        }
        lemma_asking(attempts, before);
        assert(lease_word(answers[answers.len() - 1]) == LeaseWord::Waiting);
    }
}

proof fn lemma_reaching(attempts: nat, answers: Seq<Option<Tree>>, i: int)
    requires
        0 <= i < answers.len() <= attempts,
        forall|k: int| 0 <= k < i ==> lease_word(#[trigger] answers[k]) == LeaseWord::Waiting,
        lease_word(answers[i]) == LeaseWord::Active,
        forall|k: int| i < k < answers.len() ==> address_in(#[trigger] answers[k]) is None,
    ensures
        lease_wait(attempts, answers) == LeasePhase::Reaching((attempts - answers.len()) as nat),
    decreases answers.len(),
{
    let before = answers.drop_last();
    assert forall|k: int| 0 <= k < before.len() implies #[trigger] before[k] == answers[k] by {}
    if i == before.len() {
        assert forall|k: int| 0 <= k < before.len() implies lease_word(#[trigger] before[k])
            == LeaseWord::Waiting by {
            assert(before[k] == answers[k]);
        }
        lemma_asking(attempts, before);
    } else {
        assert forall|k: int| 0 <= k < i implies lease_word(#[trigger] before[k])
            == LeaseWord::Waiting by {
            assert(before[k] == answers[k]);
        }
        assert forall|k: int| i < k < before.len() implies address_in(
            #[trigger] before[k],
        ) is None by {
            assert(before[k] == answers[k]);
        }
        lemma_reaching(attempts, before, i);
        assert(address_in(answers[answers.len() - 1]) is None);
    }
}

/// A lease that is active in time and tells its address in time is reached,
/// whatever questions in between had no answer.
pub proof fn a_lease_in_time_is_reached(
    attempts: nat,
    answers: Seq<Option<Tree>>,
    i: int,
    j: int,
)
    requires
        reached_in_time(attempts, answers, i, j),
    ensures
        lease_wait(attempts, answers) == LeasePhase::Reached(address_in(answers[j])->0),
    decreases answers.len(),
{
    if j == answers.len() - 1 {
        let before = answers.drop_last();
        assert forall|k: int| 0 <= k < i implies lease_word(#[trigger] before[k])
            == LeaseWord::Waiting by {
            assert(before[k] == answers[k]);
        }
        assert forall|k: int| i < k < before.len() implies address_in(
            #[trigger] before[k],
        ) is None by {
            assert(before[k] == answers[k]);
        }
        lemma_reaching(attempts, before, i);
    } else {
        let before = answers.drop_last();
        assert forall|k: int| 0 <= k < i implies lease_word(#[trigger] before[k])
            == LeaseWord::Waiting by {
            assert(before[k] == answers[k]);
        }
        assert forall|k: int| i < k < j implies address_in(#[trigger] before[k]) is None by {
            assert(before[k] == answers[k]);
        }
        a_lease_in_time_is_reached(attempts, before, i, j);
    }
}

/// What a phase tells of the answers that led to it.
spec fn phase_tells(attempts: nat, answers: Seq<Option<Tree>>, phase: LeasePhase) -> bool {
    match phase {
        LeasePhase::Asking(left) => answers.len() + left == attempts && (forall|k: int|
            0 <= k < answers.len() ==> lease_word(#[trigger] answers[k]) == LeaseWord::Waiting),
        LeasePhase::Reaching(left) => answers.len() + left == attempts && (exists|i: int|
            active_since(answers, i)),
        LeasePhase::Reached(fqdn) => exists|i: int, j: int|
            #[trigger] reached_in_time(attempts, answers, i, j) && address_in(answers[j]) == Some(
                fqdn,
            ),
        LeasePhase::Failed => exists|i: int|
            0 <= i < answers.len() && lease_word(#[trigger] answers[i]) == LeaseWord::Failed,
        LeasePhase::TimedOut => answers.len() > attempts,
    }
}

/// The answer at `i` is the first that ends the asking, it tells of an active
/// lease, and none after it has an address.
spec fn active_since(answers: Seq<Option<Tree>>, i: int) -> bool {
    &&& 0 <= i < answers.len()
    &&& forall|k: int| 0 <= k < i ==> lease_word(#[trigger] answers[k]) == LeaseWord::Waiting
    &&& lease_word(answers[i]) == LeaseWord::Active
    &&& forall|k: int| i < k < answers.len() ==> address_in(#[trigger] answers[k]) is None
}

proof fn lemma_phase(attempts: nat, answers: Seq<Option<Tree>>)
    ensures
        phase_tells(attempts, answers, lease_wait(attempts, answers)),
    decreases answers.len(),
{
    if answers.len() > 0 {
        let before = answers.drop_last();
        let last = answers.len() - 1;
        lemma_phase(attempts, before);
        assert forall|k: int| 0 <= k < before.len() implies #[trigger] answers[k] == before[k] by {}
        match lease_wait(attempts, before) {
            LeasePhase::Asking(left) => {
                if left > 0 && lease_word(answers.last()) == LeaseWord::Active {
                    assert(active_since(answers, last));
                } else if left > 0 && lease_word(answers.last()) == LeaseWord::Failed {
                    assert(lease_word(answers[last]) == LeaseWord::Failed);
                }
            },
            LeasePhase::Reaching(left) => {
                let i = choose|i: int| active_since(before, i);
                if address_in(answers.last()) is Some {
                    assert(reached_in_time(attempts, answers, i, last));
                } else if left > 0 {
                    assert(active_since(answers, i));
                }
            },
            LeasePhase::Reached(fqdn) => {
                let (i, j) = choose|i: int, j: int|
                    #[trigger] reached_in_time(attempts, before, i, j) && address_in(before[j])
                        == Some(fqdn);
                assert(reached_in_time(attempts, answers, i, j));
            },
            LeasePhase::Failed => {
                let i = choose|i: int|
                    0 <= i < before.len() && lease_word(#[trigger] before[i]) == LeaseWord::Failed;
                assert(lease_word(answers[i]) == LeaseWord::Failed);
            },
            LeasePhase::TimedOut => {},
        }
    }
}

/// A lease that is reached was active in time and told its address in time.
pub proof fn a_reached_lease_was_in_time(attempts: nat, answers: Seq<Option<Tree>>)
    requires
        lease_wait(attempts, answers) is Reached,
    ensures
        exists|i: int, j: int|
            #[trigger] reached_in_time(attempts, answers, i, j) && address_in(answers[j]) == Some(
                lease_wait(attempts, answers)->Reached_0,
            ),
{
    lemma_phase(attempts, answers);
}

/// Questions without an answer never end a wait: it fails only on an answer
/// that tells of a failure, and runs out only once every question was asked.
pub proof fn silence_never_ends_a_lease_wait(attempts: nat, answers: Seq<Option<Tree>>)
    ensures
        lease_wait(attempts, answers) matches LeasePhase::Asking(left) ==> answers.len() + left
            == attempts,
        lease_wait(attempts, answers) matches LeasePhase::Reaching(left) ==> answers.len() + left
            == attempts,
        lease_wait(attempts, answers) is TimedOut ==> answers.len() > attempts,
        lease_wait(attempts, answers) is Failed ==> exists|i: int|
            0 <= i < answers.len() && lease_word(#[trigger] answers[i]) == LeaseWord::Failed,
{
    lemma_phase(attempts, answers);
}

/// The rows of the banner for a lease: the branded domain where it is known,
/// and then the origin besides.
pub open spec fn lease_rows(
    api: Seq<char>,
    id: Seq<char>,
    fqdn: Seq<char>,
    default_domain: Option<Seq<char>>,
) -> Seq<(Seq<char>, Seq<char>)> {
    let monitor = ("monitor"@, DIM@ + pages_of(api) + "/deployments/"@ + id + RESET@);
    match default_domain {
        Some(domain) => seq![
            ("live"@, TEAL@ + BOLD@ + "https://"@ + domain + "/"@ + RESET@),
            monitor,
            ("origin"@, DIM@ + fqdn + RESET@),
        ],
        None => seq![("live"@, TEAL@ + BOLD@ + "https://"@ + fqdn + "/"@ + RESET@), monitor],
    }
}

/// The banner for a lease that is active.
pub fn wait_for_lease_banner(
    console: &Console,
    id: &str,
    fqdn: &str,
    default_domain: &Option<String>,
) -> (r: Vec<String>)
    ensures
        views(r@) == banner_lines(
            "DEPLOYED"@,
            lease_rows(console.api@, id@, fqdn@, opt(*default_domain)),
        ),
{
    let host = match default_domain {
        Some(domain) => domain.clone(),
        None => fqdn.to_string(),
    };
    let mut rows: Vec<(String, String)> = Vec::new();
    rows.push(
        (
            "live".to_string(),
            TEAL.to_string().concat(BOLD).concat("https://").concat(host.as_str()).concat(
                "/",
            ).concat(RESET),
        ),
    );
    rows.push(
        (
            "monitor".to_string(),
            DIM.to_string().concat(console.console_base()).concat("/deployments/").concat(
                id,
            ).concat(RESET),
        ),
    );
    if default_domain.is_some() {
        rows.push(("origin".to_string(), DIM.to_string().concat(fqdn).concat(RESET)));
    }
    proof {
        assert(row_views(rows@) =~= lease_rows(console.api@, id@, fqdn@, opt(*default_domain)));
    }
    banner("DEPLOYED", &rows)
}

// ---------------------------------------------------------------------
// On a GPU
// ---------------------------------------------------------------------

/// The line that announces a launch on a GPU.
pub fn gpu_announce(name: &str, image: &str, gpu: &str, console: &Console) -> (r: String)
    ensures
        r@ == "launching '"@ + name@ + "' → "@ + image@ + " on "@ + (if gpu@ == "auto"@ {
            "cheapest available GPU"@
        } else {
            "GPU '"@ + gpu@ + "'"@
        }) + " (org: "@ + console.org_name@ + ", remote: "@ + console.remote_name@ + ")"@,
{
    let which = if same(gpu, "auto") {
        "cheapest available GPU".to_string()
    } else {
        "GPU '".to_string().concat(gpu).concat("'")
    };
    "launching '".to_string().concat(name).concat("' → ").concat(image).concat(" on ").concat(
        which.as_str(),
    ).concat(" (org: ").concat(console.org_name.as_str()).concat(", remote: ").concat(
        console.remote_name.as_str(),
    ).concat(")")
}

/// What the console is asked for to run on a GPU: no model where it is to
/// pick one.
pub open spec fn gpu_tree(
    name: Seq<char>,
    image: Seq<char>,
    port: u16,
    env: Seq<(Seq<char>, String)>,
    gpu: Seq<char>,
) -> Tree {
    Tree::Object(
        seq![
            ("name"@, Tree::Text(name)),
            ("image"@, Tree::Text(image)),
            ("port"@, port_tree(port)),
            ("env"@, names_tree(env)),
            (
                "gpu"@,
                if gpu == "auto"@ {
                    Tree::Null
                } else {
                    Tree::Text(gpu)
                },
            ),
        ],
    )
}

/// What the console is asked for to run on a GPU.
pub fn run_gpu(name: &str, image: &str, port: u16, gpu: &str, env: &NameMap<String>) -> (r: Json)
    ensures
        r.tree() == gpu_tree(name@, image@, port, env@, gpu@),
        r.tree().get("name"@).text() == Some(name@),
        r.tree().get("image"@).text() == Some(image@),
        r.tree().get("port"@).unsigned() == Some(port as u64),
        forall|key: Seq<char>|
            #[trigger] r.tree().get("env"@).get(key) == (match lookup(env@, key) {
                Some(value) => Tree::Text(value@),
                None => Tree::Null,
            }),
{
    let model = if same(gpu, "auto") {
        Json::Null
    } else {
        text_value(gpu)
    };
    let list: Vec<(String, Json)> = Vec::new();
    let list = with_field(list, "name", text_value(name));
    let list = with_field(list, "image", text_value(image));
    let list = with_field(list, "port", port_value(port));
    let list = with_field(list, "env", names_value(env));
    let list = with_field(list, "gpu", model);
    proof {
        assert(fields(list@) =~= gpu_tree(name@, image@, port, env@, gpu@)->Object_0);
        let asked = gpu_tree(name@, image@, port, env@, gpu@);
        the_console_is_told_what_to_run(name@, image@, port, env@, gpu@, name@, name@);
        assert forall|key: Seq<char>|
            #[trigger] asked.get("env"@).get(key) == (match lookup(env@, key) {
                Some(value) => Tree::Text(value@),
                None => Tree::Null,
            }) by {
            let value = match lookup(env@, key) {
                Some(value) => value@,
                None => key,
            };
            the_console_is_told_what_to_run(name@, image@, port, env@, gpu@, key, value);
        }
    }
    Json::Object(list)
}

/// The id of the workload that the console accepted, and its GPU.
pub fn gpu_accepted(answer: &Json) -> (r: Result<(String, String), Failure>)
    ensures
        match answer.tree().get("data"@).get("hex_id"@).text() {
            Some(id) => r matches Ok((found, gpu)) && found@ == id && gpu@ == answer.tree().get(
                "data"@,
            ).get("gpu_name"@).text_or("?"@),
            None => r matches Err(failure) && failure@ == "gpu deploy accepted but no id returned"@,
        },
{
    match answer.text_at2("data", "hex_id") {
        Some(id) => {
            let gpu = match answer.text_at2("data", "gpu_name") {
                Some(name) => name.to_string(),
                None => "?".to_string(),
            };
            Ok((id.to_string(), gpu))
        },
        None => Err(fail("gpu deploy accepted but no id returned".to_string())),
    }
}

/// The lines after a GPU workload was accepted. The id comes before the wait:
/// whatever happens then, the workload can be found and stopped.
pub fn gpu_lines(console: &Console, id: &str, gpu: &str) -> (r: Vec<String>)
    ensures
        views(r@) == seq![
            "gpu deployment "@ + id@ + " on "@ + gpu@ + " — billing runs until you un-deploy"@,
            DIM@
                + "(safe to close this terminal — the deploy continues server-side; watch it at "@
                + pages_of(console.api@) + "/compute)"@ + RESET@,
        ],
{
    let first = "gpu deployment ".to_string().concat(id).concat(" on ").concat(gpu).concat(
        " — billing runs until you un-deploy",
    );
    let second = DIM.to_string().concat(
        "(safe to close this terminal — the deploy continues server-side; watch it at ",
    ).concat(console.console_base()).concat("/compute)").concat(RESET);
    let ghost a = first@;
    let ghost b = second@;
    let mut out: Vec<String> = Vec::new();
    out.push(first);
    out.push(second);
    proof {
        assert(views(out@) =~= seq![a, b]);
    }
    out
}

/// What came of a question after a GPU workload.
pub enum GpuPoll {
    /// Not ready: a line is shown, and the wait goes on.
    Again(String),
    /// The workload did not come up.
    Failed(Failure),
    /// The workload runs, at an address.
    Ready(String),
}

/// What came of a question is right: a workload that failed, ended or was
/// cancelled ends the wait, one that runs and has an address ends it too, and
/// all else lets it go on.
pub open spec fn gpu_poll_ok(answer: Tree, seconds: nat, r: GpuPoll) -> bool {
    let d = answer.get("data"@);
    let status = d.get("status"@).text_or("starting"@);
    if status == "failed"@ || status == "exited"@ {
        r matches GpuPoll::Failed(failure) && failure@ == "gpu deploy did not start: "@ + d.get(
            "error"@,
        ).text_or("no failure detail recorded"@)
    } else if status == "cancelled"@ {
        let cause = d.get("error"@).text();
        r matches GpuPoll::Failed(failure) && failure@ == (if cause is Some && cause->0.len() > 0 {
            "gpu deploy was cancelled — "@ + cause->0
        } else {
            "gpu deploy was cancelled by the provider (no reason given) — try another GPU (`aoraki gpus`)"@
        })
    } else if status == "running"@ {
        match d.get("node_url"@).text() {
            Some(url) => r matches GpuPoll::Ready(found) && found@ == url,
            None => r matches GpuPoll::Again(line) && line@ == waiting_line(
                "running — waiting for the public endpoint"@,
                seconds,
            ),
        }
    } else {
        r matches GpuPoll::Again(line) && line@ == waiting_line(status, seconds)
    }
}

fn read_gpu(answer: &Json, seconds: u64) -> (r: GpuPoll)
    ensures
        gpu_poll_ok(answer.tree(), seconds as nat, r),
{
    let empty = Json::Null;
    let d = match answer.field("data") {
        Some(found) => found,
        None => &empty,
    };
    let status = d.text_or("status", "starting");
    if same(status, "failed") || same(status, "exited") {
        GpuPoll::Failed(
            fail(
                "gpu deploy did not start: ".to_string().concat(
                    d.text_or("error", "no failure detail recorded"),
                ),
            ),
        )
    } else if same(status, "cancelled") {
        if let Some(cause) = d.text_at("error") {
            if cause.unicode_len() > 0 {
                return GpuPoll::Failed(
                    fail("gpu deploy was cancelled — ".to_string().concat(cause)),
                );
            }
        }
        GpuPoll::Failed(
            fail(
                "gpu deploy was cancelled by the provider (no reason given) — try another GPU (`aoraki gpus`)".to_string(),
            ),
        )
    } else if same(status, "running") {
        match d.text_at("node_url") {
            Some(url) => GpuPoll::Ready(url.to_string()),
            None => GpuPoll::Again(
                show_waiting("running — waiting for the public endpoint", seconds),
            ),
        }
    } else {
        GpuPoll::Again(show_waiting(status, seconds))
    }
}

/// What an answer tells of a GPU workload.
pub enum GpuWord {
    /// Nothing that ends the wait, or there was no answer.
    Waiting,
    /// It failed, ended or was cancelled.
    Failed,
    /// It runs, at an address.
    Ready(Seq<char>),
}

/// What an answer, or its absence, tells of a GPU workload.
pub open spec fn gpu_word(answer: Option<Tree>) -> GpuWord {
    match answer {
        None => GpuWord::Waiting,
        Some(tree) => {
            let d = tree.get("data"@);
            let status = d.get("status"@).text_or("starting"@);
            if status == "failed"@ || status == "exited"@ || status == "cancelled"@ {
                GpuWord::Failed
            } else if status == "running"@ && d.get("node_url"@).text() is Some {
                GpuWord::Ready(d.get("node_url"@).text()->0)
            } else {
                GpuWord::Waiting
            }
        },
    }
}

/// Where a wait for a GPU workload stands.
pub enum GpuPhase {
    /// It asks after the workload, and may do so as often as is told: with
    /// nothing left it has run out.
    Asking(nat),
    Failed,
    /// The workload runs, at an address.
    Ready(Seq<char>),
}

/// Where a wait for a GPU workload stands after an answer, or after none came.
pub open spec fn next_gpu_phase(phase: GpuPhase, answer: Option<Tree>) -> GpuPhase {
    match phase {
        GpuPhase::Asking(left) => if left == 0 {
            phase
        } else {
            match gpu_word(answer) {
                GpuWord::Waiting => GpuPhase::Asking((left - 1) as nat),
                GpuWord::Failed => GpuPhase::Failed,
                GpuWord::Ready(url) => GpuPhase::Ready(url),
            }
        },
        end => end,
    }
}

/// Where a wait for a GPU workload stands after all that was answered.
pub open spec fn gpu_wait(attempts: nat, answers: Seq<Option<Tree>>) -> GpuPhase
    decreases answers.len(),
{
    if answers.len() == 0 {
        GpuPhase::Asking(attempts)
    } else {
        next_gpu_phase(gpu_wait(attempts, answers.drop_last()), answers.last())
    }
}

/// The answer at `i` is the first that ends a wait, and comes in time.
pub open spec fn settled_at(attempts: nat, answers: Seq<Option<Tree>>, i: int) -> bool {
    &&& 0 <= i < answers.len()
    &&& i < attempts
    &&& forall|k: int| 0 <= k < i ==> gpu_word(#[trigger] answers[k]) == GpuWord::Waiting
    &&& gpu_word(answers[i]) != GpuWord::Waiting
}

/// Nothing that was answered in time ends the wait.
pub open spec fn unsettled(attempts: nat, answers: Seq<Option<Tree>>) -> bool {
    forall|k: int|
        0 <= k < answers.len() && k < attempts ==> gpu_word(#[trigger] answers[k])
            == GpuWord::Waiting
}

/// The first answer in time that tells of an end decides how a wait for a GPU
/// workload ends: well where the workload runs at an address, badly where it
/// failed. Without one the wait goes on until every question was asked.
/// Questions without an answer have no part in it.
pub proof fn the_first_word_ends_a_gpu_wait(attempts: nat, answers: Seq<Option<Tree>>, i: int)
    ensures
        settled_at(attempts, answers, i) ==> gpu_wait(attempts, answers) == (match gpu_word(
            answers[i],
        ) {
            GpuWord::Ready(url) => GpuPhase::Ready(url),
            _ => GpuPhase::Failed,
        }),
        unsettled(attempts, answers) ==> gpu_wait(attempts, answers) == GpuPhase::Asking(
            (if answers.len() < attempts {
                attempts - answers.len()
            } else {
                0
            }) as nat,
        ),
    decreases answers.len(),
{
    if answers.len() > 0 {
        let before = answers.drop_last();
        let last = answers.len() - 1;
        the_first_word_ends_a_gpu_wait(attempts, before, i);
        assert forall|k: int| 0 <= k < before.len() implies #[trigger] answers[k] == before[k] by {}
        if settled_at(attempts, answers, i) {
            if i < last {
                assert(settled_at(attempts, before, i));
            } else {
                assert(unsettled(attempts, before));
            }
        }
        if unsettled(attempts, answers) {
            assert(unsettled(attempts, before));
            if last < attempts {
                assert(gpu_word(answers[last]) == GpuWord::Waiting);
            }
        }
    }
}

/// Takes in the answer to a question after a GPU workload, or that none came.
pub fn poll_gpu(wait: &mut Wait, answer: Option<&Json>, seconds: u64) -> (r: GpuPoll)
    requires
        old(wait).left > 0,
        old(wait).wf(GPU_POLL_ATTEMPTS),
    ensures
        final(wait).wf(GPU_POLL_ATTEMPTS),
        final(wait).left == old(wait).left - 1,
        match answer {
            Some(json) => final(wait).failures == 0 && gpu_poll_ok(json.tree(), seconds as nat, r),
            None => final(wait).failures == old(wait).failures + 1 && (r matches GpuPoll::Again(
                line,
            ) && line@ == reconnecting_line(final(wait).failures as nat, seconds as nat)),
        },
        next_gpu_phase(GpuPhase::Asking(old(wait).left as nat), tree_of(answer)) == (match r {
            GpuPoll::Again(_) => GpuPhase::Asking(final(wait).left as nat),
            GpuPoll::Failed(_) => GpuPhase::Failed,
            GpuPoll::Ready(url) => GpuPhase::Ready(url@),
        }),
{
    wait.left = wait.left - 1;
    match answer {
        Some(json) => {
            wait.failures = 0;
            read_gpu(json, seconds)
        },
        None => {
            wait.failures = wait.failures + 1;
            GpuPoll::Again(show_reconnecting(wait.failures, seconds))
        },
    }
}

/// What is said where a GPU workload did not come up in time.
pub fn gpu_timed_out(id: &str) -> (r: Failure)
    ensures
        r@ == "timed out waiting for the GPU node — deployment "@ + id@
            + " may still come up; check the console"@,
{
    fail(
        "timed out waiting for the GPU node — deployment ".to_string().concat(id).concat(
            " may still come up; check the console",
        ),
    )
}

/// The rows of the banner for a GPU workload.
pub open spec fn gpu_rows(api: Seq<char>, gpu: Seq<char>, url: Seq<char>) -> Seq<
    (Seq<char>, Seq<char>),
> {
    seq![
        ("gpu"@, gpu),
        ("live"@, TEAL@ + BOLD@ + url + "/"@ + RESET@),
        ("monitor"@, DIM@ + pages_of(api) + "/compute"@ + RESET@),
    ]
}

/// The banner for a GPU workload, and the notes below it.
pub fn gpu_banner(console: &Console, gpu: &str, url: &str) -> (r: Vec<String>)
    ensures
        views(r@) == banner_lines("DEPLOYED ON GPU"@, gpu_rows(console.api@, gpu@, url@)) + seq![
            DIM@
                + "  note: GPU endpoints are plain http on the node's port — no TLS/domain layer yet"@
                + RESET@,
            DIM@ + "  billing runs per-hour until you un-deploy this workload"@ + RESET@,
        ],
{
    let mut rows: Vec<(String, String)> = Vec::new();
    rows.push(("gpu".to_string(), gpu.to_string()));
    rows.push(
        (
            "live".to_string(),
            TEAL.to_string().concat(BOLD).concat(url).concat("/").concat(RESET),
        ),
    );
    rows.push(
        (
            "monitor".to_string(),
            DIM.to_string().concat(console.console_base()).concat("/compute").concat(RESET),
        ),
    );
    proof {
        assert(row_views(rows@) =~= gpu_rows(console.api@, gpu@, url@));
    }
    let mut out = banner("DEPLOYED ON GPU", &rows);
    let ghost before = views(out@);
    let first = DIM.to_string().concat(
        "  note: GPU endpoints are plain http on the node's port — no TLS/domain layer yet",
    ).concat(RESET);
    let second = DIM.to_string().concat(
        "  billing runs per-hour until you un-deploy this workload",
    ).concat(RESET);
    let ghost a = first@;
    let ghost b = second@;
    out.push(first);
    out.push(second);
    proof {
        assert(views(out@) =~= before + seq![a, b]);
    }
    out
}

// ---------------------------------------------------------------------
// Laws
// ---------------------------------------------------------------------

/// The console is told all that a GPU workload is made of: its name, its
/// image, its port, its variables, each under its name and no other, and the
/// model, unless it is to pick one.
pub proof fn the_console_is_told_what_to_run(
    name: Seq<char>,
    image: Seq<char>,
    port: u16,
    env: Seq<(Seq<char>, String)>,
    gpu: Seq<char>,
    key: Seq<char>,
    value: Seq<char>,
)
    ensures
        ({
            let asked = gpu_tree(name, image, port, env, gpu);
            &&& asked.get("name"@).text() == Some(name)
            &&& asked.get("image"@).text() == Some(image)
            &&& asked.get("port"@).unsigned() == Some(port as u64)
            &&& asked.get("env"@).get(key).text() == Some(value) <==> lookup(env, key) is Some
                && lookup(env, key)->0@ == value
            &&& lookup(env, key) is None ==> asked.get("env"@).get(key) == Tree::Null
            &&& gpu == "auto"@ ==> asked.get("gpu"@) == Tree::Null
            &&& gpu != "auto"@ ==> asked.get("gpu"@).text() == Some(gpu)
        }),
{
    reveal_strlit("name");
    reveal_strlit("image");
    reveal_strlit("port");
    reveal_strlit("env");
    reveal_strlit("gpu");
    let list = gpu_tree(name, image, port, env, gpu)->Object_0;
    assert(list[0].0 == "name"@ && list[1].0 == "image"@ && list[2].0 == "port"@);
    assert(list[3].0 == "env"@ && list[4].0 == "gpu"@);
    assert("name"@[0] == 'n' && "image"@[0] == 'i' && "port"@[0] == 'p' && "env"@[0] == 'e'
        && "gpu"@[0] == 'g');
    fields_stand_under_their_keys(list);
    names_stand_under_their_keys(env, key);
    assert(list[3].1 == names_tree(env));
}

/// A deployment has the name that is given; else the image's own, without
/// what stands before its last slash and from its first colon on.
pub proof fn a_deployment_is_named_after_its_image(
    given: Seq<char>,
    image: Seq<char>,
    before: Seq<char>,
    name: Seq<char>,
    tag: Seq<char>,
)
    requires
        !name.contains('/'),
        !name.contains(':'),
        !tag.contains('/'),
    ensures
        launch_name(Some(given), image) == given,
        launch_name(None, name) == name,
        launch_name(None, name + seq![':'] + tag) == name,
        launch_name(None, before + seq!['/'] + name) == name,
        launch_name(None, before + seq!['/'] + (name + seq![':'] + tag)) == name,
{
    let tagged = name + seq![':'] + tag;
    assert(!tagged.contains('/')) by {
        if tagged.contains('/') {
            let j = choose|j: int| 0 <= j < tagged.len() && tagged[j] == '/';
            if j < name.len() {
                assert(name.contains(name[j]));
            } else if j > name.len() {
                assert(tag.contains(tag[j - name.len() - 1]));
            }
        }
    }
    split_at_the_first(name, ':', tag);
    what_follows_the_last(before, '/', name);
    what_follows_the_last(before, '/', tagged);
    assert(name.take(name.len() as int) =~= name);
    assert(tagged.take(name.len() as int) =~= name);
}

/// A pair `KEY=VALUE` gives its key its value, whatever came before, and leaves
/// the other keys alone; what follows the first `=` belongs to the value.
pub proof fn a_pair_sets_its_variable(
    pairs: Seq<Seq<char>>,
    key: Seq<char>,
    value: Seq<char>,
    other: Seq<char>,
)
    requires
        env_of(pairs) is Ok,
        !key.contains('='),
    ensures
        env_of(pairs.push(key + seq!['='] + value)) matches Ok(m) && lookup(m, key) == Some(value)
            && (other != key ==> lookup(m, other) == lookup(env_of(pairs)->Ok_0, other)),
{
    assert(pairs.push(key + seq!['='] + value).drop_last() =~= pairs);
    split_at_the_first(key, '=', value);
    lookup_after_insert(env_of(pairs)->Ok_0, key, value, other);
}

/// A pair without `=` is refused, by name, and no later pair mends it; without
/// pairs there are no variables.
pub proof fn a_pair_without_a_value_is_refused(
    pairs: Seq<Seq<char>>,
    pair: Seq<char>,
    more: Seq<char>,
)
    requires
        !pair.contains('='),
    ensures
        env_of(pairs.push(pair)) is Err,
        env_of(pairs) is Ok ==> env_of(pairs.push(pair))->Err_0 == "--env '"@ + pair
            + "' is not KEY=VALUE"@,
        env_of(pairs.push(pair).push(more)) == env_of(pairs.push(pair)),
        env_of(Seq::empty()) matches Ok(none) && none.len() == 0,
{
    assert(pairs.push(pair).drop_last() =~= pairs);
    assert(pairs.push(pair).push(more).drop_last() =~= pairs.push(pair));
    a_split_loses_nothing(pair, '=');
}

/// A deployment ends the wait where its status, or else its health, is
/// `failed`, or `active` with a lease; any other status, and no answer, lets
/// the wait go on.
pub proof fn what_a_deployment_tells(answer: Tree, status: Seq<char>)
    requires
        ({
            let deployment = answer.get("data"@).get("deployment"@);
            match deployment.get("status"@) {
                Tree::Text(text) => text == status,
                _ => match deployment.get("health"@) {
                    Tree::Text(text) => text == status,
                    _ => status == "pending"@,
                },
            }
        }),
    ensures
        lease_word(None) == LeaseWord::Waiting,
        lease_word(Some(answer)) == LeaseWord::Failed <==> status == "failed"@,
        lease_word(Some(answer)) == LeaseWord::Active <==> status == "active"@ && (match answer.get(
            "data"@,
        ).get("deployment"@).get("lease_uuid"@) {
            Tree::Text(lease) => lease.len() > 0,
            _ => false,
        }),
{
    reveal_strlit("failed");
    reveal_strlit("active");
    reveal_strlit("");
    assert("failed"@[0] != "active"@[0]);
}

/// What came of a question after a lease: a failure, told with its cause,
/// exactly where the deployment failed; an active lease, told with its id,
/// exactly where there is one; and in every other case the wait goes on.
pub proof fn a_lease_poll_says_what_was_told(answer: Tree, seconds: nat, r: LeasePoll)
    requires
        lease_poll_ok(answer, seconds, r),
    ensures
        r is Failed <==> lease_word(Some(answer)) == LeaseWord::Failed,
        r is Active <==> lease_word(Some(answer)) == LeaseWord::Active,
        r is Again <==> lease_word(Some(answer)) == LeaseWord::Waiting,
        r matches LeasePoll::Failed(failure) ==> forall|cause: Seq<char>|
            answer.get("data"@).get("history"@).at(0).get("commit_message"@) == Tree::Text(cause)
                ==> failure@ == "deploy failed: "@ + cause,
        r matches LeasePoll::Active { line, default_domain } ==> opt(default_domain) == answer.get(
            "data"@,
        ).get("deployment"@).get("default_domain"@).text(),
        r matches LeasePoll::Active { line, default_domain } ==> forall|lease: Seq<char>|
            answer.get("data"@).get("deployment"@).get("lease_uuid"@) == Tree::Text(lease)
                ==> line@ == "lease "@ + lease + " active — "@ + signed_decimal(
                match answer.get("data"@).get("deployment"@).get("hourly_cost_upwr"@) {
                    Tree::Number(_, Some(cost)) => cost as int,
                    _ => 0,
                },
            ) + " µPWR/hr"@,
        r matches LeasePoll::Again(line) ==> forall|status: Seq<char>|
            answer.get("data"@).get("deployment"@).get("status"@) == Tree::Text(status) ==> line@
                == CLEAR_LINE@ + "  …"@ + status + " ("@ + decimal(seconds) + "s)"@,
{
}

/// The address of a lease is the one of its connection, or else its own.
pub proof fn where_a_lease_is_reached(live: Tree, fqdn: Seq<char>)
    ensures
        address_in(None) is None,
        live.get("data"@).get("connection"@).get("fqdn"@) == Tree::Text(fqdn) ==> address_in(
            Some(live),
        ) == Some(fqdn),
        !(live.get("data"@).get("connection"@).get("fqdn"@) is Text) && live.get("data"@).get(
            "fqdn"@,
        ) == Tree::Text(fqdn) ==> address_in(Some(live)) == Some(fqdn),
        !(live.get("data"@).get("connection"@).get("fqdn"@) is Text) && !(live.get("data"@).get(
            "fqdn"@,
        ) is Text) ==> address_in(Some(live)) is None,
{
}

/// A GPU workload ends the wait where it failed, ended or was cancelled, or
/// runs at an address; any other status, none, and no answer let it go on.
pub proof fn what_a_gpu_workload_tells(answer: Tree, status: Seq<char>)
    requires
        match answer.get("data"@).get("status"@) {
            Tree::Text(text) => text == status,
            _ => status == "starting"@,
        },
    ensures
        gpu_word(None) == GpuWord::Waiting,
        gpu_word(Some(answer)) == GpuWord::Failed <==> status == "failed"@ || status == "exited"@
            || status == "cancelled"@,
        gpu_word(Some(answer)) is Ready <==> status == "running"@ && answer.get("data"@).get(
            "node_url"@,
        ) is Text,
        gpu_word(Some(answer)) is Ready ==> answer.get("data"@).get("node_url"@) == Tree::Text(
            gpu_word(Some(answer))->Ready_0,
        ),
{
    reveal_strlit("running");
    reveal_strlit("failed");
    reveal_strlit("exited");
    reveal_strlit("cancelled");
    assert("running"@.len() != "failed"@.len());
    assert("running"@.len() != "exited"@.len());
    assert("running"@.len() != "cancelled"@.len());
}

/// What came of a question after a GPU workload: a failure exactly where it
/// failed, told with its cause where one is told; its address exactly where it
/// runs at one; and in every other case the wait goes on.
pub proof fn a_gpu_poll_says_what_was_told(answer: Tree, seconds: nat, r: GpuPoll, cause: Seq<char>)
    requires
        gpu_poll_ok(answer, seconds, r),
    ensures
        r is Failed <==> gpu_word(Some(answer)) == GpuWord::Failed,
        r is Ready <==> gpu_word(Some(answer)) is Ready,
        r matches GpuPoll::Ready(url) ==> gpu_word(Some(answer)) == GpuWord::Ready(url@),
        r is Failed && answer.get("data"@).get("error"@) == Tree::Text(cause) && cause.len() > 0
            ==> has_suffix(r->Failed_0@, cause),
        r is Again <==> gpu_word(Some(answer)) == GpuWord::Waiting,
        r is Again && answer.get("data"@).get("status"@) == Tree::Text(cause) && cause
            != "running"@ ==> r->Again_0@ == CLEAR_LINE@ + "  …"@ + cause + " ("@ + decimal(seconds)
            + "s)"@,
{
    reveal_strlit("running");
    reveal_strlit("failed");
    reveal_strlit("exited");
    reveal_strlit("cancelled");
    assert("running"@.len() != "failed"@.len());
    assert("running"@.len() != "exited"@.len());
    assert("running"@.len() != "cancelled"@.len());
    begins_and_ends_as_put_together("gpu deploy did not start: "@, cause);
    begins_and_ends_as_put_together("gpu deploy was cancelled — "@, cause);
}

/// While the console does not answer it is told how often it was asked in vain,
/// for how long, and that the deploy goes on.
pub proof fn silence_is_told(failures: nat, seconds: nat)
    ensures
        reconnecting_line(failures, seconds) == CLEAR_LINE@ + "  …reconnecting to console (attempt "@
            + decimal(failures) + ", "@ + decimal(seconds) + "s) — deploy continues server-side"@,
{
}

/// A lease is waited for at least three minutes and a GPU workload ten, with a
/// question every five seconds.
pub proof fn how_long_a_wait_lasts()
    ensures
        POLL_SECONDS == 5,
        POLL_ATTEMPTS * POLL_SECONDS == 180,
        GPU_POLL_ATTEMPTS * POLL_SECONDS == 600,
{
}

proof fn lemma_regrouped(
    a: Seq<char>,
    b: Seq<char>,
    c: Seq<char>,
    d: Seq<char>,
    e: Seq<char>,
)
    ensures
        a + b + c + d + e == a + (b + c + d) + e,
{
    assert(a + b + c + d + e =~= a + (b + c + d) + e);
}

/// The banner of a lease leads to the branded domain where there is one, and
/// then names the origin too; else it leads to the origin.
pub proof fn the_banner_leads_to_the_app(
    api: Seq<char>,
    id: Seq<char>,
    fqdn: Seq<char>,
    domain: Seq<char>,
)
    ensures
        ({
            let branded = lease_rows(api, id, fqdn, Some(domain));
            let plain = lease_rows(api, id, fqdn, None);
            &&& branded.len() == 3
            &&& branded[0].0 == "live"@ && occurs_in("https://"@ + domain + "/"@, branded[0].1)
            &&& branded[1].0 == "monitor"@ && occurs_in("/deployments/"@ + id, branded[1].1)
            &&& branded[2].0 == "origin"@ && occurs_in(fqdn, branded[2].1)
            &&& plain.len() == 2
            &&& plain[0].0 == "live"@ && occurs_in("https://"@ + fqdn + "/"@, plain[0].1)
            &&& plain[1] == branded[1]
        }),
{
    let branded = lease_rows(api, id, fqdn, Some(domain));
    let plain = lease_rows(api, id, fqdn, None);
    let a = "https://"@ + domain + "/"@;
    let b = "https://"@ + fqdn + "/"@;
    let c = "/deployments/"@ + id;
    occurs_in_itself(a);
    occurs_in_itself(b);
    occurs_in_itself(c);
    occurs_in_itself(fqdn);
    occurs_in_a_part(a, TEAL@ + BOLD@, a, RESET@);
    occurs_in_a_part(b, TEAL@ + BOLD@, b, RESET@);
    occurs_in_a_part(c, DIM@ + pages_of(api), c, RESET@);
    occurs_in_a_part(fqdn, DIM@, fqdn, RESET@);
    lemma_regrouped(TEAL@ + BOLD@, "https://"@, domain, "/"@, RESET@);
    lemma_regrouped(TEAL@ + BOLD@, "https://"@, fqdn, "/"@, RESET@);
    lemma_regrouped(DIM@ + pages_of(api), "/deployments/"@, id, Seq::empty(), RESET@);
    assert(c + Seq::<char>::empty() =~= c);
    assert(DIM@ + pages_of(api) + "/deployments/"@ + id + Seq::<char>::empty() =~= DIM@ + pages_of(
        api,
    ) + "/deployments/"@ + id);
}

/// The banner of a GPU workload names its GPU, leads to its address and to the
/// page where it is watched.
pub proof fn the_gpu_banner_leads_to_the_app(api: Seq<char>, gpu: Seq<char>, url: Seq<char>)
    ensures
        ({
            let rows = gpu_rows(api, gpu, url);
            &&& rows.len() == 3
            &&& rows[0] == ("gpu"@, gpu)
            &&& rows[1].0 == "live"@ && occurs_in(url + "/"@, rows[1].1)
            &&& rows[2].0 == "monitor"@ && occurs_in(pages_of(api) + "/compute"@, rows[2].1)
        }),
{
    let rows = gpu_rows(api, gpu, url);
    let a = url + "/"@;
    let b = pages_of(api) + "/compute"@;
    occurs_in_itself(a);
    occurs_in_itself(b);
    occurs_in_a_part(a, TEAL@ + BOLD@, a, RESET@);
    occurs_in_a_part(b, DIM@, b, RESET@);
    lemma_regrouped(TEAL@ + BOLD@, url, "/"@, Seq::empty(), RESET@);
    lemma_regrouped(DIM@, pages_of(api), "/compute"@, Seq::empty(), RESET@);
    assert(a + Seq::<char>::empty() =~= a);
    assert(b + Seq::<char>::empty() =~= b);
    assert(TEAL@ + BOLD@ + url + "/"@ + Seq::<char>::empty() =~= TEAL@ + BOLD@ + url + "/"@);
    assert(DIM@ + pages_of(api) + "/compute"@ + Seq::<char>::empty() =~= DIM@ + pages_of(api)
        + "/compute"@);
}

/// A banner has its title, a rule, a line for each row that holds its label and
/// what it stands for, and a rule.
pub proof fn a_banner_shows_its_rows(
    title: Seq<char>,
    rows: Seq<(Seq<char>, Seq<char>)>,
    i: int,
)
    requires
        0 <= i < rows.len(),
    ensures
        banner_lines(title, rows).len() == rows.len() + 4,
        occurs_in(title, banner_lines(title, rows)[1]),
        has_suffix(banner_lines(title, rows)[3 + i], rows[i].1),
        banner_lines(title, rows)[3 + i] == "  "@ + padded_right(rows[i].0, 8) + " "@ + rows[i].1,
        banner_lines(title, rows)[2] == banner_lines(title, rows).last(),
{
    occurs_in_itself(title);
    occurs_in_a_part(title, TEAL@ + BOLD@ + "  ✓ "@, title, RESET@);
    begins_and_ends_as_put_together("  "@ + padded_right(rows[i].0, 8) + " "@, rows[i].1);
    assert(banner_lines(title, rows)[3 + i] == banner_row(rows[i]));
}

} // verus!
