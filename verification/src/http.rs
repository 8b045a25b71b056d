//! Requests to the console and to the gateway, and what comes back.

use crate::json::{Json, Tree};
use vstd::prelude::*;
use vstd::string::*;

verus! {

/// What came back from a request.
pub enum Reply {
    /// A success, with its JSON body.
    Body(Json),
    /// A success whose body could not be read, and why.
    Unreadable(String),
    /// A refusal: its status, its JSON body (null where it has none), and how
    /// the refusal reads.
    Refused { code: u16, body: Json, text: String },
    /// No answer, and why.
    Unreachable(String),
}

/// The message in the body of a refusal.
pub open spec fn error_message(body: Tree) -> Option<Seq<char>> {
    body.get("error"@).get("message"@).text()
}

/// What a request does.
#[derive(Clone, Copy, PartialEq, Eq, Structural)]
pub enum Method {
    Get,
    Post,
    Delete,
}

/// A request, ready to be sent.
pub struct Request {
    pub method: Method,
    pub url: String,
    /// The header that carries the token.
    pub authorization: String,
    pub body: Option<Json>,
}

impl Request {
    /// The request goes to a path below a base URL, with a token.
    pub open spec fn goes_to(&self, base: Seq<char>, path: Seq<char>, token: Seq<char>) -> bool {
        &&& self.url@ == base + path
        &&& self.authorization@ == bearer_text(token)
    }

    /// A request to a path below a base URL, with a token.
    pub fn new(method: Method, base: &str, path: &str, token: &str, body: Option<Json>) -> (r: Self)
        ensures
            r.method == method,
            r.goes_to(base@, path@, token@),
            r.body == body,
    {
        Request {
            method,
            url: base.to_string().concat(path),
            authorization: bearer(token),
            body,
        }
    }
}

/// The header that carries a token.
pub open spec fn bearer_text(token: Seq<char>) -> Seq<char> {
    "Bearer "@ + token
}

/// The header that carries a token.
pub fn bearer(token: &str) -> (r: String)
    ensures
        r@ == bearer_text(token@),
{
    "Bearer ".to_string().concat(token)
}

/// A request goes to a path below a base URL, with its token in the header,
/// and to no other place and with no other token.
pub proof fn a_request_carries_its_token(
    request: Request,
    base: Seq<char>,
    path: Seq<char>,
    token: Seq<char>,
    other: Seq<char>,
)
    requires
        request.goes_to(base, path, token),
    ensures
        request.url@ == base + path,
        request.authorization@ == "Bearer "@ + token,
        request.goes_to(base, other, token) ==> other == path,
        request.goes_to(base, path, other) ==> other == token,
{
    let mark = "Bearer "@;
    assert((mark + token).skip(mark.len() as int) =~= token);
    assert((mark + other).skip(mark.len() as int) =~= other);
    assert((base + path).skip(base.len() as int) =~= path);
    assert((base + other).skip(base.len() as int) =~= other);
}

/// The message of a refusal is the text under `message` of what stands under
/// `error`; without one there is none.
pub proof fn a_refusal_tells_its_cause(body: Tree, cause: Seq<char>)
    ensures
        error_message(body) == Some(cause) <==> body.get("error"@).get("message"@) == Tree::Text(
            cause,
        ),
        error_message(body) is None <==> !(body.get("error"@).get("message"@) is Text),
{
}

} // verus!
