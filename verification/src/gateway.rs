//! The customer deploy gateway: its requests, its answers, and the stream of
//! events that follows a deploy.

use crate::config::{GatewayConfig, GlobalConfig};
use crate::failure::{fail, Failure};
use crate::http::{error_message, Method, Reply, Request};
use crate::json::{json_of, Json, Tree};
use crate::text::{
    begins_and_ends_as_put_together, decimal, has_prefix, has_suffix, occurs_in, occurs_in_a_part,
    occurs_in_itself, opt_str, same, show, show_signed, signed_decimal, strip_prefix,
    trim_end_char, without_end,
};
use vstd::prelude::*;
use vstd::string::*;

verus! {

/// Where deploys are asked for.
pub const DEPLOYS: &'static str = "/deploys";

/// Where the installations of the GitHub app are listed.
pub const INSTALLATIONS: &'static str = "/github/installations";

/// Where an installation of the GitHub app is begun.
pub const CONNECT: &'static str = "/github/connect";

/// The gateway that this machine deploys through.
pub struct Gateway {
    pub api_url: String,
    pub token: String,
}

/// What a gateway's answer gives: its body, or what is said instead.
pub open spec fn gateway_answer(reply: Reply) -> Result<Tree, Seq<char>> {
    match reply {
        Reply::Body(json) => Ok(json.tree()),
        Reply::Unreadable(text) => Err(text@),
        Reply::Refused { code, body, text } => Err(
            "gateway returned "@ + decimal(code as nat) + ": "@ + (match error_message(
                body.tree(),
            ) {
                Some(message) => message,
                None => "request failed"@,
            }),
        ),
        Reply::Unreachable(text) => Err("gateway unreachable: "@ + text@),
    }
}

/// The gateway and its token, or what is said where one of them is missing.
pub open spec fn gateway_choice(
    gateway: Option<GatewayConfig>,
    from_env: Option<Seq<char>>,
) -> Result<(Seq<char>, Seq<char>), Seq<char>> {
    match gateway {
        None => Err(
            "gateway transport needs [gateway] in ~/.config/aoraki/config.toml (api_url + token)"@,
        ),
        Some(found) => match found.token_with(from_env) {
            None => Err(
                "no gateway token — set [gateway].token or the MANIFEST_TOKEN env var"@,
            ),
            Some(token) => Ok((without_end(found.api_url@, '/'), token)),
        },
    }
}

impl Gateway {
    /// The gateway that is configured, with its token, given the value of
    /// `MANIFEST_TOKEN`.
    pub fn from_global(global: &GlobalConfig, from_env: Option<&str>) -> (r: Result<Self, Failure>)
        ensures
            match (r, gateway_choice(global.gateway, opt_str(from_env))) {
                (Ok(gateway), Ok((api_url, token))) => gateway.api_url@ == api_url
                    && gateway.token@ == token,
                (Err(failure), Err(text)) => failure@ == text,
                _ => false,
            },
    {
        match &global.gateway {
            None => Err(
                fail(
                    "gateway transport needs [gateway] in ~/.config/aoraki/config.toml (api_url + token)".to_string(),
                ),
            ),
            Some(found) => match found.resolve_token(from_env) {
                None => Err(
                    fail(
                        "no gateway token — set [gateway].token or the MANIFEST_TOKEN env var".to_string(),
                    ),
                ),
                Some(token) => Ok(
                    Gateway {
                        api_url: trim_end_char(found.api_url.as_str(), '/').to_string(),
                        token,
                    },
                ),
            },
        }
    }

    /// The request for what stands under a path.
    pub fn get(&self, path: &str) -> (r: Request)
        ensures
            r.method == Method::Get,
            r.goes_to(self.api_url@, path@, self.token@),
            r.body is None,
    {
        Request::new(Method::Get, self.api_url.as_str(), path, self.token.as_str(), None)
    }

    /// The request that hands a body to a path.
    pub fn post(&self, path: &str, body: Json) -> (r: Request)
        ensures
            r.method == Method::Post,
            r.goes_to(self.api_url@, path@, self.token@),
            r.body == Some(body),
    {
        Request::new(Method::Post, self.api_url.as_str(), path, self.token.as_str(), Some(body))
    }

    /// The request for the stream of a deploy.
    pub fn events(&self, deploy_id: &str) -> (r: Request)
        ensures
            r.method == Method::Get,
            r.goes_to(self.api_url@, "/deploys/"@ + deploy_id@ + "/events"@, self.token@),
            r.body is None,
    {
        let path = "/deploys/".to_string().concat(deploy_id).concat("/events");
        self.get(path.as_str())
    }

    /// The body of an answer.
    pub fn parse(reply: Reply) -> (r: Result<Json, Failure>)
        ensures
            match (r, gateway_answer(reply)) {
                (Ok(json), Ok(tree)) => json.tree() == tree,
                (Err(failure), Err(text)) => failure@ == text,
                _ => false,
            },
    {
        match reply {
            Reply::Body(json) => Ok(json),
            Reply::Unreadable(text) => Err(fail(text)),
            Reply::Refused { code, body, text: _ } => {
                let message = match body.text_at2("error", "message") {
                    Some(message) => message,
                    None => "request failed",
                };
                Err(
                    fail(
                        "gateway returned ".to_string().concat(show(code as u64).as_str()).concat(
                            ": ",
                        ).concat(message),
                    ),
                )
            },
            Reply::Unreachable(text) => Err(
                fail("gateway unreachable: ".to_string().concat(text.as_str())),
            ),
        }
    }
}

// ---------------------------------------------------------------------
// The stream of a deploy
// ---------------------------------------------------------------------

/// What a line of a deploy's stream asks for.
pub enum StreamStep {
    /// Nothing: keep-alives, and events that say nothing to the user.
    Skip,
    /// A line of the log is to be printed.
    Print(String),
    /// The deploy has ended with a status, and a line is to be printed.
    End { status: String, line: String },
}

/// What a line of a deploy's stream asks for, in views.
pub enum StreamView {
    Skip,
    Print(Seq<char>),
    End(Seq<char>, Seq<char>),
}

impl View for StreamStep {
    type V = StreamView;

    open spec fn view(&self) -> StreamView {
        match self {
            StreamStep::Skip => StreamView::Skip,
            StreamStep::Print(line) => StreamView::Print(line@),
            StreamStep::End { status, line } => StreamView::End(status@, line@),
        }
    }
}

/// The line that reports the end of a deploy.
pub open spec fn end_line(status: Seq<char>, seconds: int) -> Seq<char> {
    (if status == "succeeded"@ {
        "✓"@
    } else {
        "✗"@
    }) + " deploy "@ + status + " in "@ + signed_decimal(seconds) + "s"@
}

/// What an event asks for. A status that is not named counts as a failure, and
/// a duration that is not given as none.
pub open spec fn event_step(event: Tree) -> StreamView {
    let kind = event.get("kind"@).text();
    if kind == Some("log"@) {
        match event.get("line"@).text() {
            Some(line) => StreamView::Print(line),
            None => StreamView::Skip,
        }
    } else if kind == Some("status"@) {
        let status = event.get("status"@).text_or("failed"@);
        let seconds = match event.get("duration_secs"@).signed() {
            Some(n) => n as int,
            None => 0,
        };
        StreamView::End(status, end_line(status, seconds))
    } else {
        StreamView::Skip
    }
}

/// What a line of the stream asks for: only data lines that hold JSON count.
pub open spec fn line_step(line: Seq<char>) -> StreamView {
    if has_prefix(line, "data: "@) {
        match json_of(line.skip("data: "@.len() as int)) {
            Some(event) => event_step(event),
            None => StreamView::Skip,
        }
    } else {
        StreamView::Skip
    }
}

/// What an event of a deploy's stream asks for.
pub fn follow_event(event: &Json) -> (r: StreamStep)
    ensures
        r@ == event_step(event.tree()),
{
    proof {
        reveal_strlit("log");
        reveal_strlit("status");
        assert("log"@.len() != "status"@.len());
    }
    if event.text_is("kind", "log") {
        match event.text_at("line") {
            Some(line) => StreamStep::Print(line.to_string()),
            None => StreamStep::Skip,
        }
    } else if event.text_is("kind", "status") {
        let status = event.text_or("status", "failed").to_string();
        let seconds: i64 = match event.signed_at("duration_secs") {
            Some(n) => n,
            None => 0,
        };
        let mark = if same(status.as_str(), "succeeded") {
            "✓".to_string()
        } else {
            "✗".to_string()
        };
        let line = mark.concat(" deploy ").concat(status.as_str()).concat(" in ").concat(
            show_signed(seconds).as_str(),
        ).concat("s");
        StreamStep::End { status, line }
    } else {
        StreamStep::Skip
    }
}

impl Gateway {
    /// What a line of a deploy's stream asks for.
    pub fn stream_deploy_events(line: &str) -> (r: StreamStep)
        ensures
            r@ == line_step(line@),
    {
        match strip_prefix(line, "data: ") {
            Some(data) => match Json::parse(data) {
                Some(event) => follow_event(&event),
                None => StreamStep::Skip,
            },
            None => StreamStep::Skip,
        }
    }
}

/// What is said where a deploy's stream stops before it told a status.
pub fn stream_cut_short() -> (r: Failure)
    ensures
        r@ == "event stream ended without a terminal status — check `aoraki deploys`"@,
{
    fail("event stream ended without a terminal status — check `aoraki deploys`".to_string())
}

/// A deploy counts as succeeded only where an event says so: a status that is
/// missing, and every other status, ends it as a failure.
pub proof fn success_is_always_stated(event: Tree)
    requires
        event_step(event) is End,
        event_step(event)->End_0 == "succeeded"@,
    ensures
        event.get("kind"@).text() == Some("status"@),
        event.get("status"@).text() == Some("succeeded"@),
{
    reveal_strlit("failed");
    reveal_strlit("succeeded");
    assert("failed"@.len() != "succeeded"@.len());
}

/// A gateway's answer is its body and nothing else. A refusal is told with its
/// status and its message; what could not be read or reached is told with the
/// cause.
pub proof fn what_a_gateway_answers(
    json: Json,
    code: u16,
    body: Json,
    text: String,
    message: Seq<char>,
)
    ensures
        gateway_answer(Reply::Body(json)) == Ok::<Tree, Seq<char>>(json.tree()),
        body.tree().get("error"@).get("message"@) == Tree::Text(message) ==> gateway_answer(
            Reply::Refused { code, body, text },
        ) == Err::<Tree, Seq<char>>("gateway returned "@ + decimal(code as nat) + ": "@ + message),
        !(body.tree().get("error"@).get("message"@) is Text) ==> gateway_answer(
            Reply::Refused { code, body, text },
        ) == Err::<Tree, Seq<char>>(
            "gateway returned "@ + decimal(code as nat) + ": "@ + "request failed"@,
        ),
        gateway_answer(Reply::Unreadable(text)) == Err::<Tree, Seq<char>>(text@),
        gateway_answer(Reply::Unreachable(text)) == Err::<Tree, Seq<char>>(
            "gateway unreachable: "@ + text@,
        ),
{
}

/// The gateway is used with the token of the environment, unless that is empty,
/// or else with its own; without a gateway, or without a token, there is none.
pub proof fn a_gateway_needs_its_token(gateway: GatewayConfig, from_env: Seq<char>)
    ensures
        gateway_choice(None, Some(from_env)) is Err,
        from_env.len() > 0 ==> gateway_choice(Some(gateway), Some(from_env)) == Ok::<
            (Seq<char>, Seq<char>),
            Seq<char>,
        >((without_end(gateway.api_url@, '/'), from_env)),
        gateway.token is Some ==> gateway_choice(Some(gateway), None) == Ok::<
            (Seq<char>, Seq<char>),
            Seq<char>,
        >((without_end(gateway.api_url@, '/'), gateway.token->0@)),
        gateway.token is Some && from_env.len() == 0 ==> gateway_choice(
            Some(gateway),
            Some(from_env),
        ) == gateway_choice(Some(gateway), None),
        gateway.token is None ==> gateway_choice(Some(gateway), None) is Err,
        gateway.token is None && from_env.len() == 0 ==> gateway_choice(
            Some(gateway),
            Some(from_env),
        ) is Err,
{
}

/// A log line of a deploy is printed as it is; a status ends the deploy with
/// that status, and with a failure where none is told; nothing else does
/// either.
pub proof fn what_an_event_asks_for(event: Tree, line: Seq<char>)
    ensures
        event.get("kind"@) == Tree::Text("log"@) && event.get("line"@) == Tree::Text(line)
            ==> event_step(event) == StreamView::Print(line),
        event_step(event) is Print ==> event.get("kind"@) == Tree::Text("log"@) && event.get(
            "line"@,
        ) == Tree::Text(event_step(event)->Print_0),
        event_step(event) is End <==> event.get("kind"@) == Tree::Text("status"@),
        event_step(event) is End ==> (match event.get("status"@) {
            Tree::Text(status) => event_step(event)->End_0 == status,
            _ => event_step(event)->End_0 == "failed"@,
        }),
        event_step(event) is End ==> (match event.get("duration_secs"@) {
            Tree::Number(_, Some(n)) => has_suffix(
                event_step(event)->End_1,
                " in "@ + signed_decimal(n as int) + "s"@,
            ),
            _ => has_suffix(event_step(event)->End_1, " in "@ + signed_decimal(0) + "s"@),
        }),
{
    reveal_strlit("log");
    reveal_strlit("status");
    assert("log"@.len() != "status"@.len());
    if event_step(event) is End {
        let status = event_step(event)->End_0;
        let n: int = match event.get("duration_secs"@).signed() {
            Some(n) => n as int,
            None => 0,
        };
        let end = " in "@ + signed_decimal(n) + "s"@;
        let head = (if status == "succeeded"@ {
            "✓"@
        } else {
            "✗"@
        }) + " deploy "@ + status;
        begins_and_ends_as_put_together(head, end);
        assert(event_step(event)->End_1 =~= head + end);
    }
}

/// The end of a deploy is marked as good exactly where it succeeded.
pub proof fn the_mark_tells_the_outcome(status: Seq<char>, seconds: int)
    ensures
        has_prefix(end_line(status, seconds), "✓ deploy "@) <==> status == "succeeded"@,
        has_prefix(end_line(status, seconds), "✗ deploy "@) <==> status != "succeeded"@,
        occurs_in(status, end_line(status, seconds)),
{
    reveal_strlit("✓");
    reveal_strlit("✗");
    reveal_strlit(" deploy ");
    reveal_strlit("✓ deploy ");
    reveal_strlit("✗ deploy ");
    let rest = status + " in "@ + signed_decimal(seconds) + "s"@;
    let tail = " in "@ + signed_decimal(seconds) + "s"@;
    let good = "✓ deploy "@;
    let bad = "✗ deploy "@;
    assert(good =~= "✓"@ + " deploy "@);
    assert(bad =~= "✗"@ + " deploy "@);
    begins_and_ends_as_put_together(good, rest);
    begins_and_ends_as_put_together(bad, rest);
    let line = end_line(status, seconds);
    let head = if status == "succeeded"@ {
        good
    } else {
        bad
    };
    assert(line =~= head + rest);
    assert(line =~= head + status + tail);
    occurs_in_itself(status);
    occurs_in_a_part(status, head, status, tail);
    assert(line[0] == head[0]);
    if has_prefix(line, good) {
        assert(line.take(good.len() as int)[0] == line[0]);
    }
    if has_prefix(line, bad) {
        assert(line.take(bad.len() as int)[0] == line[0]);
    }
}

/// A data line of the stream is taken for the event that it holds; any other
/// line, and one that holds no JSON, asks for nothing.
pub proof fn only_data_lines_count(data: Seq<char>, line: Seq<char>)
    ensures
        json_of(data) is Some ==> line_step("data: "@ + data) == event_step(json_of(data)->0),
        json_of(data) is None ==> line_step("data: "@ + data) == StreamView::Skip,
        !has_prefix(line, "data: "@) ==> line_step(line) == StreamView::Skip,
{
    begins_and_ends_as_put_together("data: "@, data);
}

} // verus!
