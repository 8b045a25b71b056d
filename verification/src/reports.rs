//! Deploy events for the console, and whose key a key is.
//!
//! Reporting a deploy is a courtesy: it never fails the deploy. An event that
//! could not be sent is kept in a directory of its console and sent with the
//! next deploy that reports there.

use crate::config::{is_rooted, join_path, path_under, remote_choice, GlobalConfig};
use crate::console::{no_token, no_token_text};
use crate::failure::{fail, Failure};
use crate::http::{Method, Request};
use crate::json::{
    count_tree, count_value, fields, fields_stand_under_their_keys, text_value, with_field, Json,
    Tree,
};
use crate::names::precedes;
use crate::text::{
    decimal, decimal_digits, digit, opt, opt_str, show_signed, signed_decimal, trim_end_char,
    without_end,
};
use vstd::prelude::*;
use vstd::string::*;

verus! {

/// One deploy, as it is reported to the console.
pub struct DeployEvent {
    pub app: String,
    pub environment: String,
    pub box_id: String,
    pub namespace: String,
    pub build_ref: String,
    pub ref_name: String,
    pub status: String,
    pub started_at: String,
    pub duration_secs: u64,
    pub actor: String,
    pub cli_version: String,
}

/// Who a key belongs to.
pub struct Identity {
    pub user: Option<String>,
    pub org: String,
    /// Immutable id of the org, where the console tells it.
    pub org_hex: Option<String>,
    pub token_name: String,
    pub expires_at: String,
}

/// A point in time, in seconds since the beginning of 1970, as RFC 3339 writes
/// it in UTC to the second. None where it is out of the calendar's range.
pub uninterp spec fn rfc3339(seconds: i64) -> Option<Seq<char>>;

/// `chrono::DateTime::from_timestamp` and `DateTime::to_rfc3339_opts`, to the
/// second and with a `Z`: the text of a point in time, which depends on
/// nothing else.
#[verifier::external_body]
fn utc_text(seconds: i64) -> (r: Option<String>)
    ensures
        opt(r) == rfc3339(seconds),
{
    chrono::DateTime::from_timestamp(seconds, 0).map(
        |t| t.to_rfc3339_opts(chrono::SecondsFormat::Secs, true),
    )
}

/// A point in time, in seconds since the beginning of 1970, as events write it.
pub fn started_text(seconds: i64) -> (r: Option<String>)
    ensures
        opt(r) == rfc3339(seconds),
{
    utc_text(seconds)
}

// ---------------------------------------------------------------------
// Reporting
// ---------------------------------------------------------------------

/// Where an event goes.
pub enum ReportPlan {
    /// Nowhere, with a note to the user.
    Note(String),
    /// To a console.
    Send { name: String, api_url: String, token: String },
}

/// Where an event goes: to the console that is chosen for it, provided that
/// there is a key for it.
pub fn report(global: &GlobalConfig, remote_pref: Option<&str>) -> (r: ReportPlan)
    ensures
        match remote_choice(global.remotes@, opt(global.defaults.remote), opt_str(remote_pref)) {
            Err(text) => r matches ReportPlan::Note(note) && note@
                == "note: deploy event not reported — "@ + text,
            Ok(i) => {
                let found = global.remotes@[i].1;
                match found.token {
                    None => r matches ReportPlan::Note(note) && note@ == "note: "@ + no_token_text(
                        global.remotes@[i].0,
                    ),
                    Some(token) => r matches ReportPlan::Send { name, api_url, token: key }
                        && name@ == global.remotes@[i].0 && api_url@ == found.api_url@ && key@
                        == token@,
                }
            },
        },
{
    match global.resolve_remote(remote_pref) {
        Err(failure) => ReportPlan::Note(
            "note: deploy event not reported — ".to_string().concat(failure.message()),
        ),
        Ok((name, found)) => match &found.token {
            None => ReportPlan::Note("note: ".to_string().concat(no_token(name).as_str())),
            Some(token) => ReportPlan::Send {
                name: name.to_string(),
                api_url: found.api_url.clone(),
                token: token.clone(),
            },
        },
    }
}

/// What the console is told of a deploy.
pub open spec fn event_tree(event: DeployEvent) -> Tree {
    Tree::Object(
        seq![
            ("app"@, Tree::Text(event.app@)),
            ("environment"@, Tree::Text(event.environment@)),
            ("box_id"@, Tree::Text(event.box_id@)),
            ("namespace"@, Tree::Text(event.namespace@)),
            ("build_ref"@, Tree::Text(event.build_ref@)),
            ("ref_name"@, Tree::Text(event.ref_name@)),
            ("status"@, Tree::Text(event.status@)),
            ("started_at"@, Tree::Text(event.started_at@)),
            ("duration_secs"@, count_tree(event.duration_secs)),
            ("actor"@, Tree::Text(event.actor@)),
            ("cli_version"@, Tree::Text(event.cli_version@)),
        ],
    )
}

fn event_value(event: &DeployEvent) -> (r: Json)
    ensures
        r.tree() == event_tree(*event),
{
    let list: Vec<(String, Json)> = Vec::new();
    let list = with_field(list, "app", text_value(event.app.as_str()));
    let list = with_field(list, "environment", text_value(event.environment.as_str()));
    let list = with_field(list, "box_id", text_value(event.box_id.as_str()));
    let list = with_field(list, "namespace", text_value(event.namespace.as_str()));
    let list = with_field(list, "build_ref", text_value(event.build_ref.as_str()));
    let list = with_field(list, "ref_name", text_value(event.ref_name.as_str()));
    let list = with_field(list, "status", text_value(event.status.as_str()));
    let list = with_field(list, "started_at", text_value(event.started_at.as_str()));
    let list = with_field(list, "duration_secs", count_value(event.duration_secs));
    let list = with_field(list, "actor", text_value(event.actor.as_str()));
    let list = with_field(list, "cli_version", text_value(event.cli_version.as_str()));
    proof {
        assert(fields(list@) =~= event_tree(*event)->Object_0);
    }
    Json::Object(list)
}

/// The request that tells a console of a deploy.
pub fn post(api_url: &str, token: &str, event: &DeployEvent) -> (r: Request)
    ensures
        r.method == Method::Post,
        r.goes_to(without_end(api_url@, '/'), "/cli/deploys"@, token@),
        r.body matches Some(body) && body.tree() == event_tree(*event),
{
    Request::new(
        Method::Post,
        trim_end_char(api_url, '/'),
        "/cli/deploys",
        token,
        Some(event_value(event)),
    )
}

/// The request that asks a console whose a key is.
pub fn me(api_url: &str, token: &str) -> (r: Request)
    ensures
        r.method == Method::Get,
        r.goes_to(without_end(api_url@, '/'), "/cli/me"@, token@),
        r.body is None,
{
    Request::new(Method::Get, trim_end_char(api_url, '/'), "/cli/me", token, None)
}

/// What is done once an event was sent, or was not.
pub enum Posted {
    /// It is said that the event arrived.
    Say(String),
    /// It is said that it did not, and the event is kept.
    Keep(String),
}

/// What is done once an event was sent to a console, or why it was not.
pub fn after_post(name: &str, problem: Option<&str>) -> (r: Posted)
    ensures
        match problem {
            None => r matches Posted::Say(line) && line@ == "→ deploy event reported to aoraki ("@
                + name@ + ")"@,
            Some(text) => r matches Posted::Keep(line) && line@
                == "warning: could not report deploy to '"@ + name@ + "' ("@ + text@
                + "); queued for retry"@,
        },
{
    match problem {
        None => Posted::Say(
            "→ deploy event reported to aoraki (".to_string().concat(name).concat(")"),
        ),
        Some(text) => Posted::Keep(
            "warning: could not report deploy to '".to_string().concat(name).concat("' (").concat(
                text,
            ).concat("); queued for retry"),
        ),
    }
}

// ---------------------------------------------------------------------
// Events that are kept
// ---------------------------------------------------------------------

/// The directory of the events that are kept for a console.
pub open spec fn kept_dir(config_home: Seq<char>, remote: Seq<char>) -> Seq<char> {
    path_under(path_under(config_home, "pending-events"@), remote)
}

/// The directory of the events that are kept for a console.
pub fn pending_dir(config_home: &str, remote: &str) -> (r: String)
    ensures
        r@ == kept_dir(config_home@, remote@),
{
    join_path(join_path(config_home, "pending-events").as_str(), remote)
}

/// The file in which an event is kept, named after the moment and the commit.
pub open spec fn kept_name(millis: i64, build_ref: Seq<char>) -> Seq<char> {
    signed_decimal(millis as int) + "-"@ + build_ref + ".json"@
}

/// The file in which an event is kept.
pub fn pending_name(millis: i64, build_ref: &str) -> (r: String)
    ensures
        r@ == kept_name(millis, build_ref@),
{
    show_signed(millis).concat("-").concat(build_ref).concat(".json")
}

/// The events of two consoles are kept under different paths, unless one
/// console's name is itself the path of the other's directory.
pub proof fn consoles_keep_apart(config_home: Seq<char>, a: Seq<char>, b: Seq<char>)
    requires
        a != b,
        is_rooted(a) ==> a != kept_dir(config_home, b),
        is_rooted(b) ==> b != kept_dir(config_home, a),
    ensures
        kept_dir(config_home, a) != kept_dir(config_home, b),
{
    let base = path_under(config_home, "pending-events"@);
    let start = if base.len() == 0 || base.last() == '/' {
        base
    } else {
        base + "/"@
    };
    if !is_rooted(a) && !is_rooted(b) {
        assert(kept_dir(config_home, a) =~= start + a);
        assert(kept_dir(config_home, b) =~= start + b);
        assert((start + a).skip(start.len() as int) =~= a);
        assert((start + b).skip(start.len() as int) =~= b);
    }
}

/// What a file that keeps an event turned out to hold.
#[derive(Clone, Copy, PartialEq, Eq, Structural)]
pub enum Kept {
    /// It could not be read.
    Unreadable,
    /// It does not hold an event.
    Garbled,
    /// It holds an event.
    Event,
}

/// What is done with a file that keeps an event.
#[derive(Clone, Copy, PartialEq, Eq, Structural)]
pub enum Flush {
    /// It is left, and the next one is looked at.
    Leave,
    /// It is removed, and the next one is looked at.
    Remove,
    /// It is left, and so are all that follow.
    Stop,
}

/// What is done with a file that keeps an event, given what it holds and, for
/// an event, whether it was sent.
pub open spec fn flush_of(kept: Kept, sent: bool) -> Flush {
    match kept {
        Kept::Unreadable => Flush::Leave,
        Kept::Garbled => Flush::Remove,
        Kept::Event => if sent {
            Flush::Remove
        } else {
            Flush::Stop
        },
    }
}

/// What is done with a file that keeps an event.
pub fn flush_step(kept: Kept, sent: bool) -> (r: Flush)
    ensures
        r == flush_of(kept, sent),
{
    match kept {
        Kept::Unreadable => Flush::Leave,
        Kept::Garbled => Flush::Remove,
        Kept::Event => if sent {
            Flush::Remove
        } else {
            Flush::Stop
        },
    }
}

/// No event is lost: a file that holds one is removed only once it was sent.
pub proof fn kept_event_is_not_lost(kept: Kept, sent: bool)
    requires
        kept == Kept::Event,
        flush_of(kept, sent) == Flush::Remove,
    ensures
        sent,
{
}

// ---------------------------------------------------------------------
// A console's kept events as a whole
// ---------------------------------------------------------------------

/// A file that is kept for a console, by what it holds.
pub enum KeptFile {
    Unreadable,
    Garbled,
    Event(Tree),
}

/// What a file turns out to hold.
pub open spec fn kept_kind(file: KeptFile) -> Kept {
    match file {
        KeptFile::Unreadable => Kept::Unreadable,
        KeptFile::Garbled => Kept::Garbled,
        KeptFile::Event(_) => Kept::Event,
    }
}

/// The events in a row of files.
pub open spec fn events_in(files: Seq<KeptFile>) -> Seq<Tree>
    decreases files.len(),
{
    if files.len() == 0 {
        Seq::empty()
    } else {
        match files[0] {
            KeptFile::Event(event) => seq![event] + events_in(files.skip(1)),
            _ => events_in(files.skip(1)),
        }
    }
}

/// The next answer of a console: whether it takes what it is sent. A console
/// that gives no more answers takes nothing.
pub open spec fn takes(answers: Seq<bool>) -> bool {
    answers.len() > 0 && answers[0]
}

/// The answers of a console after the next one.
pub open spec fn after_answer(answers: Seq<bool>) -> Seq<bool> {
    if answers.len() > 0 {
        answers.skip(1)
    } else {
        answers
    }
}

/// What came of sending the kept events.
pub struct Flushed {
    /// The events that the console took, in the order in which it got them.
    pub sent: Seq<Tree>,
    /// The files that stay.
    pub stays: Seq<KeptFile>,
    /// The console's answers that are still to come.
    pub answers: Seq<bool>,
}

/// What comes of sending the kept events, given the console's answers: file by
/// file, as `flush_of` says.
pub open spec fn flushed(files: Seq<KeptFile>, answers: Seq<bool>) -> Flushed
    decreases files.len(),
{
    if files.len() == 0 {
        Flushed { sent: Seq::empty(), stays: files, answers }
    } else {
        let rest = files.skip(1);
        let left = match files[0] {
            KeptFile::Event(_) => after_answer(answers),
            _ => answers,
        };
        match flush_of(kept_kind(files[0]), takes(answers)) {
            Flush::Stop => Flushed { sent: Seq::empty(), stays: files, answers: left },
            Flush::Leave => {
                let then = flushed(rest, left);
                Flushed {
                    sent: then.sent,
                    stays: seq![files[0]] + then.stays,
                    answers: then.answers,
                }
            },
            Flush::Remove => {
                let then = flushed(rest, left);
                Flushed {
                    sent: match files[0] {
                        KeptFile::Event(event) => seq![event] + then.sent,
                        _ => then.sent,
                    },
                    stays: then.stays,
                    answers: then.answers,
                }
            },
        }
    }
}

/// How many answers come before the first refusal.
pub open spec fn taken_in_a_row(answers: Seq<bool>) -> nat
    decreases answers.len(),
{
    if takes(answers) {
        1 + taken_in_a_row(answers.skip(1))
    } else {
        0
    }
}

/// The first `n` events, or all where there are fewer.
pub open spec fn first_events(events: Seq<Tree>, n: nat) -> Seq<Tree> {
    if n < events.len() {
        events.take(n as int)
    } else {
        events
    }
}

/// The kept events before the first refusal are sent, once each and in their
/// order, and the rest stay: what was sent and what stays make up what was
/// kept.
pub proof fn kept_events_are_sent_in_order(files: Seq<KeptFile>, answers: Seq<bool>)
    ensures
        flushed(files, answers).sent == first_events(events_in(files), taken_in_a_row(answers)),
        flushed(files, answers).sent + events_in(flushed(files, answers).stays) == events_in(files),
    decreases files.len(),
{
    let r = flushed(files, answers);
    if files.len() == 0 {
        assert(events_in(files) =~= Seq::<Tree>::empty());
        assert(r.sent + events_in(r.stays) =~= events_in(files));
        assert(first_events(events_in(files), taken_in_a_row(answers)) =~= r.sent);
    } else {
        let rest = files.skip(1);
        match files[0] {
            KeptFile::Event(event) => {
                if takes(answers) {
                    let then = flushed(rest, answers.skip(1));
                    kept_events_are_sent_in_order(rest, answers.skip(1));
                    let n = taken_in_a_row(answers.skip(1));
                    assert(events_in(files) =~= seq![event] + events_in(rest));
                    assert(r.sent =~= seq![event] + then.sent);
                    assert(first_events(events_in(files), n + 1) =~= seq![event] + first_events(
                        events_in(rest),
                        n,
                    ));
                    assert(r.sent + events_in(r.stays) =~= seq![event] + (then.sent + events_in(
                        then.stays,
                    )));
                } else {
                    assert(first_events(events_in(files), 0) =~= Seq::<Tree>::empty());
                    assert(r.sent + events_in(r.stays) =~= events_in(files));
                }
            },
            KeptFile::Garbled => {
                kept_events_are_sent_in_order(rest, answers);
            },
            KeptFile::Unreadable => {
                let then = flushed(rest, answers);
                kept_events_are_sent_in_order(rest, answers);
                assert(r.stays =~= seq![files[0]] + then.stays);
                assert(r.stays.skip(1) =~= then.stays);
                assert(events_in(r.stays) == events_in(then.stays));
            },
        }
    }
}

/// What came of a report.
pub struct Reported {
    /// The events that the console took, in the order in which it got them.
    pub received: Seq<Tree>,
    /// The files that are kept for the console from then on.
    pub kept: Seq<KeptFile>,
}

/// What comes of reporting an event to a console, given the files that are
/// kept for it and its answers: the kept events go first, and an event that is
/// not taken is kept behind the others.
pub open spec fn reported(files: Seq<KeptFile>, answers: Seq<bool>, event: Tree) -> Reported {
    let before = flushed(files, answers);
    if takes(before.answers) {
        Reported { received: before.sent.push(event), kept: before.stays }
    } else {
        Reported { received: before.sent, kept: before.stays.push(KeptFile::Event(event)) }
    }
}

proof fn lemma_events_in_push(files: Seq<KeptFile>, event: Tree)
    ensures
        events_in(files.push(KeptFile::Event(event))) == events_in(files).push(event),
    decreases files.len(),
{
    let more = files.push(KeptFile::Event(event));
    if files.len() == 0 {
        assert(more.skip(1) =~= Seq::<KeptFile>::empty());
        assert(more[0] == KeptFile::Event(event));
        assert(events_in(more.skip(1)).len() == 0);
        assert(events_in(more) =~= events_in(files).push(event));
    } else {
        lemma_events_in_push(files.skip(1), event);
        assert(more.skip(1) =~= files.skip(1).push(KeptFile::Event(event)));
        assert(more[0] == files[0]);
        assert(events_in(more) =~= events_in(files).push(event));
    }
}

/// No report loses an event or sends one twice: what the console took and what
/// is kept are together what was kept and the new event.
pub proof fn no_report_loses_an_event(files: Seq<KeptFile>, answers: Seq<bool>, event: Tree)
    ensures
        ({
            let r = reported(files, answers, event);
            (r.received + events_in(r.kept)).to_multiset() == events_in(files).push(
                event,
            ).to_multiset()
        }),
{
    let before = flushed(files, answers);
    let r = reported(files, answers, event);
    kept_events_are_sent_in_order(files, answers);
    let kept = events_in(before.stays);
    broadcast use vstd::seq_lib::group_to_multiset_ensures;

    if takes(before.answers) {
        vstd::seq_lib::lemma_multiset_commutative(before.sent, kept);
        vstd::seq_lib::lemma_multiset_commutative(before.sent.push(event), kept);
        assert((before.sent.push(event) + kept).to_multiset() =~= (before.sent
            + kept).to_multiset().insert(event));
    } else {
        lemma_events_in_push(before.stays, event);
        assert(r.received + events_in(r.kept) =~= (before.sent + kept).push(event));
    }
}

/// All of a console's answers are refusals.
pub open spec fn is_shut(answers: Seq<bool>) -> bool {
    forall|i: int| 0 <= i < answers.len() ==> !#[trigger] answers[i]
}

/// All of a console's answers, of which there are more than events are kept,
/// are acceptances.
pub open spec fn is_open(files: Seq<KeptFile>, answers: Seq<bool>) -> bool {
    answers.len() > events_in(files).len() && (forall|i: int|
        0 <= i < answers.len() ==> #[trigger] answers[i])
}

proof fn lemma_shut(files: Seq<KeptFile>, answers: Seq<bool>)
    requires
        is_shut(answers),
    ensures
        flushed(files, answers).sent.len() == 0,
        is_shut(flushed(files, answers).answers),
    decreases files.len(),
{
    if files.len() > 0 {
        lemma_shut(files.skip(1), answers);
    }
}

proof fn lemma_open(files: Seq<KeptFile>, answers: Seq<bool>)
    requires
        is_open(files, answers),
    ensures
        flushed(files, answers).sent == events_in(files),
        events_in(flushed(files, answers).stays).len() == 0,
        takes(flushed(files, answers).answers),
        (forall|i: int| 0 <= i < files.len() ==> (#[trigger] files[i]) is Event) ==> flushed(
            files,
            answers,
        ).stays.len() == 0,
    decreases files.len(),
{
    let r = flushed(files, answers);
    if files.len() == 0 {
        assert(r.sent =~= events_in(files));
    } else {
        let rest = files.skip(1);
        assert(answers[0]);
        assert forall|i: int| 0 <= i < rest.len() implies #[trigger] rest[i] == files[i + 1] by {}
        match files[0] {
            KeptFile::Event(event) => {
                assert(events_in(files).len() == 1 + events_in(rest).len());
                assert forall|i: int| 0 <= i < answers.skip(1).len() implies #[trigger] answers.skip(
                    1,
                )[i] by {
                    assert(answers[i + 1]);
                }
                lemma_open(rest, answers.skip(1));
            },
            KeptFile::Garbled => {
                lemma_open(rest, answers);
            },
            KeptFile::Unreadable => {
                lemma_open(rest, answers);
                let then = flushed(rest, answers);
                assert(r.stays.skip(1) =~= then.stays);
                assert(events_in(r.stays) == events_in(then.stays));
            },
        }
    }
}

/// A console that takes nothing loses nothing: the event is kept behind those
/// that were kept already.
pub proof fn a_shut_console_gets_its_events_later(
    files: Seq<KeptFile>,
    answers: Seq<bool>,
    event: Tree,
)
    requires
        is_shut(answers),
    ensures
        reported(files, answers, event).received.len() == 0,
        events_in(reported(files, answers, event).kept) == events_in(files).push(event),
{
    let before = flushed(files, answers);
    lemma_shut(files, answers);
    kept_events_are_sent_in_order(files, answers);
    assert(before.sent =~= Seq::<Tree>::empty());
    assert(events_in(before.stays) =~= events_in(files));
    lemma_events_in_push(before.stays, event);
}

/// A console that takes everything gets the kept events, oldest first, and
/// then the new one, once each. No event is kept any more, and where all files
/// held events, no file.
pub proof fn an_open_console_gets_all_in_order(
    files: Seq<KeptFile>,
    answers: Seq<bool>,
    event: Tree,
)
    requires
        is_open(files, answers),
    ensures
        reported(files, answers, event).received == events_in(files).push(event),
        events_in(reported(files, answers, event).kept).len() == 0,
        (forall|i: int| 0 <= i < files.len() ==> (#[trigger] files[i]) is Event) ==> reported(
            files,
            answers,
            event,
        ).kept.len() == 0,
{
    lemma_open(files, answers);
}

/// An event that a console refused arrives with the next report that it takes:
/// first that event, then the new one, once each, and nothing is kept.
pub proof fn refused_event_arrives_next_time(
    first: Tree,
    refusals: Seq<bool>,
    second: Tree,
    answers: Seq<bool>,
)
    requires
        is_shut(refusals),
        answers.len() >= 2,
        forall|i: int| 0 <= i < answers.len() ==> #[trigger] answers[i],
    ensures
        ({
            let refused = reported(Seq::empty(), refusals, first);
            let taken = reported(refused.kept, answers, second);
            &&& refused.received.len() == 0
            &&& taken.received == seq![first, second]
            &&& taken.kept.len() == 0
        }),
{
    let none = Seq::<KeptFile>::empty();
    let refused = reported(none, refusals, first);
    a_shut_console_gets_its_events_later(none, refusals, first);
    assert(refused.kept =~= seq![KeptFile::Event(first)]);
    assert(events_in(none) =~= Seq::<Tree>::empty());
    assert(events_in(refused.kept) =~= seq![first]);
    an_open_console_gets_all_in_order(refused.kept, answers, second);
    assert(seq![first].push(second) =~= seq![first, second]);
}

// ---------------------------------------------------------------------
// The order of the files
// ---------------------------------------------------------------------

proof fn lemma_common_start(start: Seq<char>, a: Seq<char>, b: Seq<char>)
    ensures
        precedes(start + a, start + b) == precedes(a, b),
    decreases start.len(),
{
    if start.len() == 0 {
        assert(start + a =~= a);
        assert(start + b =~= b);
    } else {
        lemma_common_start(start.skip(1), a, b);
        assert((start + a).skip(1) =~= start.skip(1) + a);
        assert((start + b).skip(1) =~= start.skip(1) + b);
    }
}

proof fn lemma_numbers_in_order(a: nat, b: nat, x: Seq<char>, y: Seq<char>)
    requires
        a < b,
        decimal(a).len() == decimal(b).len(),
    ensures
        precedes(decimal(a) + x, decimal(b) + y),
    decreases a,
{
    decimal_digits(a);
    decimal_digits(b);
    let u = seq![digit(a % 10)] + x;
    let v = seq![digit(b % 10)] + y;
    assert(digit(a % 10) as int == 48 + a % 10);
    assert(digit(b % 10) as int == 48 + b % 10);
    if a < 10 {
        assert(decimal(a) + x =~= u);
        assert(decimal(b) + y =~= v);
    } else {
        assert(decimal(a) + x =~= decimal(a / 10) + u);
        assert(decimal(b) + y =~= decimal(b / 10) + v);
        if a / 10 == b / 10 {
            lemma_common_start(decimal(a / 10), u, v);
        } else {
            lemma_numbers_in_order(a / 10, b / 10, u, v);
        }
    }
}

/// Of two events the later one is kept behind the earlier one, as long as
/// their moments, in milliseconds, are written with as many digits.
pub proof fn later_events_are_kept_behind(
    earlier: i64,
    earlier_ref: Seq<char>,
    later: i64,
    later_ref: Seq<char>,
)
    requires
        0 <= earlier < later,
        decimal(earlier as nat).len() == decimal(later as nat).len(),
    ensures
        precedes(kept_name(earlier, earlier_ref), kept_name(later, later_ref)),
{
    let x = "-"@ + earlier_ref + ".json"@;
    let y = "-"@ + later_ref + ".json"@;
    lemma_numbers_in_order(earlier as nat, later as nat, x, y);
    assert(kept_name(earlier, earlier_ref) =~= decimal(earlier as nat) + x);
    assert(kept_name(later, later_ref) =~= decimal(later as nat) + y);
}

// ---------------------------------------------------------------------
// Whose key it is
// ---------------------------------------------------------------------

/// What came back when the console was asked whose a key is.
pub enum IdentityReply {
    Known(Identity),
    /// An answer that does not tell, and why.
    Unreadable(String),
    /// A refusal, and how it reads.
    Refused { code: u16, text: String },
    /// No answer, and why.
    Unreachable(String),
}

/// What is said where a key could not be checked.
pub open spec fn identity_problem(reply: IdentityReply) -> Option<Seq<char>> {
    match reply {
        IdentityReply::Known(_) => None,
        IdentityReply::Unreadable(text) => Some(text@),
        IdentityReply::Refused { code, text } => if code == 401 || code == 403 {
            Some("token rejected — it may be revoked or expired (90 days unused)"@)
        } else {
            Some("could not reach aoraki: "@ + text@)
        },
        IdentityReply::Unreachable(text) => Some("could not reach aoraki: "@ + text@),
    }
}

/// Whose a key is.
pub fn whoami(reply: IdentityReply) -> (r: Result<Identity, Failure>)
    ensures
        match identity_problem(reply) {
            None => r matches Ok(identity) && reply == IdentityReply::Known(identity),
            Some(text) => r matches Err(failure) && failure@ == text,
        },
{
    match reply {
        IdentityReply::Known(identity) => Ok(identity),
        IdentityReply::Unreadable(text) => Err(fail(text)),
        IdentityReply::Refused { code, text } => if code == 401 || code == 403 {
            Err(
                fail(
                    "token rejected — it may be revoked or expired (90 days unused)".to_string(),
                ),
            )
        } else {
            Err(fail("could not reach aoraki: ".to_string().concat(text.as_str())))
        },
        IdentityReply::Unreachable(text) => Err(
            fail("could not reach aoraki: ".to_string().concat(text.as_str())),
        ),
    }
}

// ---------------------------------------------------------------------
// Laws of what is told
// ---------------------------------------------------------------------

/// The console is told all of a deploy, each thing under its name.
pub proof fn the_console_is_told_the_deploy(event: DeployEvent)
    ensures
        ({
            let told = event_tree(event);
            &&& told.get("app"@).text() == Some(event.app@)
            &&& told.get("environment"@).text() == Some(event.environment@)
            &&& told.get("box_id"@).text() == Some(event.box_id@)
            &&& told.get("namespace"@).text() == Some(event.namespace@)
            &&& told.get("build_ref"@).text() == Some(event.build_ref@)
            &&& told.get("ref_name"@).text() == Some(event.ref_name@)
            &&& told.get("status"@).text() == Some(event.status@)
            &&& told.get("started_at"@).text() == Some(event.started_at@)
            &&& told.get("duration_secs"@).unsigned() == Some(event.duration_secs)
            &&& told.get("actor"@).text() == Some(event.actor@)
            &&& told.get("cli_version"@).text() == Some(event.cli_version@)
        }),
{
    reveal_strlit("app");
    reveal_strlit("environment");
    reveal_strlit("box_id");
    reveal_strlit("namespace");
    reveal_strlit("build_ref");
    reveal_strlit("ref_name");
    reveal_strlit("status");
    reveal_strlit("started_at");
    reveal_strlit("duration_secs");
    reveal_strlit("actor");
    reveal_strlit("cli_version");
    let list = event_tree(event)->Object_0;
    let mark = |k: Seq<char>| (k.len(), k[0]);
    assert(mark(list[0].0) == (3nat, 'a'));
    assert(mark(list[1].0) == (11nat, 'e'));
    assert(mark(list[2].0) == (6nat, 'b'));
    assert(mark(list[3].0) == (9nat, 'n'));
    assert(mark(list[4].0) == (9nat, 'b'));
    assert(mark(list[5].0) == (8nat, 'r'));
    assert(mark(list[6].0) == (6nat, 's'));
    assert(mark(list[7].0) == (10nat, 's'));
    assert(mark(list[8].0) == (13nat, 'd'));
    assert(mark(list[9].0) == (5nat, 'a'));
    assert(mark(list[10].0) == (11nat, 'c'));
    assert forall|i: int, j: int| 0 <= i < j < list.len() implies (#[trigger] list[i]).0 != (
    #[trigger] list[j]).0 by {
        assert(mark(list[i].0) != mark(list[j].0));
    }
    fields_stand_under_their_keys(list);
}

/// A key that is known is told; a refusal of the key itself is told as such,
/// and any other refusal, and no answer, as a console that was not reached.
pub proof fn what_is_said_of_a_key(identity: Identity, code: u16, text: String)
    ensures
        identity_problem(IdentityReply::Known(identity)) is None,
        identity_problem(IdentityReply::Unreadable(text)) == Some(text@),
        identity_problem(IdentityReply::Unreachable(text)) == Some(
            "could not reach aoraki: "@ + text@,
        ),
        identity_problem(IdentityReply::Refused { code, text }) == Some(
            "token rejected — it may be revoked or expired (90 days unused)"@,
        ) <==> code == 401 || code == 403,
        code != 401 && code != 403 ==> identity_problem(IdentityReply::Refused { code, text })
            == identity_problem(IdentityReply::Unreachable(text)),
{
    reveal_strlit("token rejected — it may be revoked or expired (90 days unused)");
    reveal_strlit("could not reach aoraki: ");
    let a = "token rejected — it may be revoked or expired (90 days unused)"@;
    let b = "could not reach aoraki: "@ + text@;
    assert(a[0] == 't');
    assert(b[0] == 'c');
}

/// The events of a console are kept in a directory of its name, in the one for
/// kept events, and each in a file that is named after its moment and its
/// commit.
pub proof fn where_events_are_kept(
    home: Seq<char>,
    remote: Seq<char>,
    millis: i64,
    build_ref: Seq<char>,
)
    requires
        home.len() > 0,
        home.last() != '/',
        remote.len() == 0 || remote[0] != '/',
    ensures
        kept_dir(home, remote) == home + "/"@ + "pending-events"@ + "/"@ + remote,
        millis >= 0 ==> kept_name(millis, build_ref) == decimal(millis as nat) + "-"@ + build_ref
            + ".json"@,
{
    reveal_strlit("pending-events");
    reveal_strlit("/");
    let base = home + "/"@ + "pending-events"@;
    assert(base.last() == 's');
}

/// A kept file goes exactly where it holds an event that was sent or holds no
/// event at all; one that cannot be read stays, and the others are still looked
/// at; only an event that was not sent keeps the others waiting.
pub proof fn when_a_kept_file_goes(kept: Kept, sent: bool)
    ensures
        flush_of(kept, sent) == Flush::Remove <==> kept == Kept::Garbled || (kept == Kept::Event
            && sent),
        flush_of(kept, sent) == Flush::Stop <==> kept == Kept::Event && !sent,
        flush_of(kept, sent) == Flush::Leave <==> kept == Kept::Unreadable,
{
}

} // verus!
