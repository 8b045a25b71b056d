//! The console, as the cloud commands talk to it.

use crate::config::{remote_choice, GlobalConfig};
use crate::failure::{fail, Failure};
use crate::http::{error_message, Method, Reply, Request};
use crate::json::{Json, Tree};
use crate::text::{
    begins_and_ends_as_put_together, decimal, has_prefix, has_suffix, opt, opt_str, show, trim_end_char, trim_end_text, without_end, without_end_text,
};
use vstd::prelude::*;
use vstd::string::*;

verus! {

/// A console, with the key that this machine has for it.
pub struct Access {
    pub api: String,
    pub token: String,
    pub remote_name: String,
}

/// A console and the org that the key belongs to.
pub struct Console {
    pub api: String,
    pub token: String,
    pub org_hex: String,
    pub org_name: String,
    pub remote_name: String,
    /// The image registry that the console advertises.
    pub registry: Option<String>,
}

/// What a console's answer gives: its body, or what is said instead.
pub open spec fn console_answer(reply: Reply) -> Result<Tree, Seq<char>> {
    match reply {
        Reply::Body(json) => Ok(json.tree()),
        Reply::Unreadable(text) => Err(text@),
        Reply::Refused { code, body, text } => Err(
            match error_message(body.tree()) {
                Some(message) => message,
                None => "HTTP "@ + decimal(code as nat),
            },
        ),
        Reply::Unreachable(text) => Err("request failed: "@ + text@),
    }
}

/// The body of a console's answer.
pub fn parse(reply: Reply) -> (r: Result<Json, Failure>)
    ensures
        match (r, console_answer(reply)) {
            (Ok(json), Ok(tree)) => json.tree() == tree,
            (Err(failure), Err(text)) => failure@ == text,
            _ => false,
        },
{
    match reply {
        Reply::Body(json) => Ok(json),
        Reply::Unreadable(text) => Err(fail(text)),
        Reply::Refused { code, body, text: _ } => match body.text_at2("error", "message") {
            Some(message) => Err(fail(message.to_string())),
            None => Err(fail("HTTP ".to_string().concat(show(code as u64).as_str()))),
        },
        Reply::Unreachable(text) => Err(fail("request failed: ".to_string().concat(text.as_str()))),
    }
}

/// What is said where a console's key is missing.
pub open spec fn no_token_text(remote: Seq<char>) -> Seq<char> {
    "remote '"@ + remote + "' has no token — run `aoraki login "@ + remote + "`"@
}

/// What is said where a console's key is missing.
pub fn no_token(remote: &str) -> (r: String)
    ensures
        r@ == no_token_text(remote@),
{
    "remote '".to_string().concat(remote).concat("' has no token — run `aoraki login ").concat(
        remote,
    ).concat("`")
}

/// The URL of the console's pages.
pub open spec fn pages_of(api: Seq<char>) -> Seq<char> {
    without_end_text(api, "/api/v1"@)
}

impl Access {
    /// The console that a command talks to, by its name or by default, and the
    /// key for it.
    pub fn open(global: &GlobalConfig, remote: Option<&str>) -> (r: Result<Self, Failure>)
        ensures
            match remote_choice(global.remotes@, opt(global.defaults.remote), opt_str(remote)) {
                Err(text) => r matches Err(failure) && failure@ == text,
                Ok(i) => {
                    let name = global.remotes@[i].0;
                    let found = global.remotes@[i].1;
                    match found.token {
                        None => r matches Err(failure) && failure@ == no_token_text(name),
                        Some(token) => r matches Ok(access) && access.api@ == without_end(
                            found.api_url@,
                            '/',
                        ) && access.token@ == token@ && access.remote_name@ == name,
                    }
                },
            },
    {
        match global.resolve_remote(remote) {
            Err(failure) => Err(failure),
            Ok((name, found)) => match &found.token {
                None => Err(fail(no_token(name))),
                Some(token) => Ok(
                    Access {
                        api: trim_end_char(found.api_url.as_str(), '/').to_string(),
                        token: token.clone(),
                        remote_name: name.to_string(),
                    },
                ),
            },
        }
    }

    /// The request that asks the console whose the key is.
    pub fn me(&self) -> (r: Request)
        ensures
            r.method == Method::Get,
            r.goes_to(self.api@, "/cli/me"@, self.token@),
            r.body is None,
    {
        Request::new(Method::Get, self.api.as_str(), "/cli/me", self.token.as_str(), None)
    }
}

/// What the console keeps for an org, some of it by its id.
pub enum Endpoint<'a> {
    Deploys,
    Deployments,
    Deployment(&'a str),
    /// How a deployment is reached.
    Live(&'a str),
    Domain(&'a str),
    Redeploy(&'a str),
    GpuCatalog,
    GpuDeploys,
    GpuDeploy(&'a str),
    GpuLogs(&'a str),
}

/// The path of what the console keeps for an org.
pub open spec fn endpoint_path(org_hex: Seq<char>, endpoint: Endpoint) -> Seq<char> {
    "/orgs/"@ + org_hex + (match endpoint {
        Endpoint::Deploys => "/deploys"@,
        Endpoint::Deployments => "/deployments"@,
        Endpoint::Deployment(id) => "/deployments/"@ + id@,
        Endpoint::Live(id) => "/deployments/"@ + id@ + "/live"@,
        Endpoint::Domain(id) => "/deployments/"@ + id@ + "/domain"@,
        Endpoint::Redeploy(id) => "/deployments/"@ + id@ + "/redeploy"@,
        Endpoint::GpuCatalog => "/gpu-catalog"@,
        Endpoint::GpuDeploys => "/gpu-deploys"@,
        Endpoint::GpuDeploy(id) => "/gpu-deploys/"@ + id@,
        Endpoint::GpuLogs(id) => "/gpu-deploys/"@ + id@ + "/logs"@,
    })
}

impl Console {
    /// The console, given what it answers to the question who the key is.
    pub fn connect(access: Access, me: &Json) -> (r: Result<Self, Failure>)
        ensures
            match me.tree().get("data"@).get("org_hex"@).text() {
                None => r matches Err(failure) && failure@
                    == "console did not return org_hex — is it up to date?"@,
                Some(org_hex) => {
                    &&& r matches Ok(console)
                    &&& console.api == access.api
                    &&& console.token == access.token
                    &&& console.remote_name == access.remote_name
                    &&& console.org_hex@ == org_hex
                    &&& console.org_name@ == me.tree().get("data"@).get("org"@).text_or(org_hex)
                    &&& opt(console.registry) == me.tree().get("data"@).get("registry"@).text()
                },
            },
    {
        let org_hex = match me.text_at2("data", "org_hex") {
            Some(text) => text.to_string(),
            None => {
                return Err(
                    fail("console did not return org_hex — is it up to date?".to_string()),
                );
            },
        };
        let org_name = match me.text_at2("data", "org") {
            Some(text) => text.to_string(),
            None => org_hex.clone(),
        };
        let registry = match me.text_at2("data", "registry") {
            Some(text) => Some(text.to_string()),
            None => None,
        };
        Ok(
            Console {
                api: access.api,
                token: access.token,
                org_hex,
                org_name,
                remote_name: access.remote_name,
                registry,
            },
        )
    }

    /// The URL of the console's pages.
    pub fn console_base(&self) -> (r: &str)
        ensures
            r@ == pages_of(self.api@),
    {
        proof {
            reveal_strlit("/api/v1");
        }
        trim_end_text(self.api.as_str(), "/api/v1")
    }

    /// The path of what the console keeps for the org.
    pub fn path(&self, endpoint: Endpoint) -> (r: String)
        ensures
            r@ == endpoint_path(self.org_hex@, endpoint),
    {
        let rest = match endpoint {
            Endpoint::Deploys => "/deploys".to_string(),
            Endpoint::Deployments => "/deployments".to_string(),
            Endpoint::Deployment(id) => "/deployments/".to_string().concat(id),
            Endpoint::Live(id) => "/deployments/".to_string().concat(id).concat("/live"),
            Endpoint::Domain(id) => "/deployments/".to_string().concat(id).concat("/domain"),
            Endpoint::Redeploy(id) => "/deployments/".to_string().concat(id).concat("/redeploy"),
            Endpoint::GpuCatalog => "/gpu-catalog".to_string(),
            Endpoint::GpuDeploys => "/gpu-deploys".to_string(),
            Endpoint::GpuDeploy(id) => "/gpu-deploys/".to_string().concat(id),
            Endpoint::GpuLogs(id) => "/gpu-deploys/".to_string().concat(id).concat("/logs"),
        };
        "/orgs/".to_string().concat(self.org_hex.as_str()).concat(rest.as_str())
    }

    /// The request for what stands under a path.
    pub fn get(&self, path: &str) -> (r: Request)
        ensures
            r.method == Method::Get,
            r.goes_to(self.api@, path@, self.token@),
            r.body is None,
    {
        Request::new(Method::Get, self.api.as_str(), path, self.token.as_str(), None)
    }

    /// The request that hands a body to a path.
    pub fn post(&self, path: &str, body: Json) -> (r: Request)
        ensures
            r.method == Method::Post,
            r.goes_to(self.api@, path@, self.token@),
            r.body == Some(body),
    {
        Request::new(Method::Post, self.api.as_str(), path, self.token.as_str(), Some(body))
    }

    /// The request that removes what stands under a path.
    pub fn delete(&self, path: &str) -> (r: Request)
        ensures
            r.method == Method::Delete,
            r.goes_to(self.api@, path@, self.token@),
            r.body is None,
    {
        Request::new(Method::Delete, self.api.as_str(), path, self.token.as_str(), None)
    }
}

/// A console's answer is its body and nothing else. A refusal is told by its
/// message, or else by its status; what could not be read or reached is told
/// with the cause.
pub proof fn what_a_console_answers(
    json: Json,
    code: u16,
    body: Json,
    text: String,
    message: Seq<char>,
)
    ensures
        console_answer(Reply::Body(json)) == Ok::<Tree, Seq<char>>(json.tree()),
        body.tree().get("error"@).get("message"@) == Tree::Text(message) ==> console_answer(
            Reply::Refused { code, body, text },
        ) == Err::<Tree, Seq<char>>(message),
        !(body.tree().get("error"@).get("message"@) is Text) ==> console_answer(
            Reply::Refused { code, body, text },
        ) == Err::<Tree, Seq<char>>("HTTP "@ + decimal(code as nat)),
        console_answer(Reply::Unreadable(text)) == Err::<Tree, Seq<char>>(text@),
        console_answer(Reply::Unreachable(text)) == Err::<Tree, Seq<char>>(
            "request failed: "@ + text@,
        ),
{
}

/// The pages of a console stand where its API stands, without the API's own
/// path.
pub proof fn pages_stand_beside_the_api(base: Seq<char>)
    requires
        !has_suffix(base, "/api/v1"@),
    ensures
        pages_of(base + "/api/v1"@) == base,
        pages_of(base) == base,
{
    reveal_strlit("/api/v1");
    begins_and_ends_as_put_together(base, "/api/v1"@);
}

/// What the console keeps for an org stands under that org's path, each kind in
/// a place of its own, and each thing under its id.
pub proof fn everything_has_its_path(org: Seq<char>, id: &str)
    ensures
        endpoint_path(org, Endpoint::Deploys) == "/orgs/"@ + org + "/deploys"@,
        endpoint_path(org, Endpoint::Deployments) == "/orgs/"@ + org + "/deployments"@,
        endpoint_path(org, Endpoint::Deployment(id)) == endpoint_path(org, Endpoint::Deployments)
            + "/"@ + id@,
        endpoint_path(org, Endpoint::Live(id)) == endpoint_path(org, Endpoint::Deployment(id))
            + "/live"@,
        endpoint_path(org, Endpoint::Domain(id)) == endpoint_path(org, Endpoint::Deployment(id))
            + "/domain"@,
        endpoint_path(org, Endpoint::Redeploy(id)) == endpoint_path(org, Endpoint::Deployment(id))
            + "/redeploy"@,
        endpoint_path(org, Endpoint::GpuCatalog) == "/orgs/"@ + org + "/gpu-catalog"@,
        endpoint_path(org, Endpoint::GpuDeploys) == "/orgs/"@ + org + "/gpu-deploys"@,
        endpoint_path(org, Endpoint::GpuDeploy(id)) == endpoint_path(org, Endpoint::GpuDeploys)
            + "/"@ + id@,
        endpoint_path(org, Endpoint::GpuLogs(id)) == endpoint_path(org, Endpoint::GpuDeploy(id))
            + "/logs"@,
{
    reveal_strlit("/");
    reveal_strlit("/deployments");
    reveal_strlit("/deployments/");
    reveal_strlit("/gpu-deploys");
    reveal_strlit("/gpu-deploys/");
    let start = "/orgs/"@ + org;
    assert("/deployments/"@ =~= "/deployments"@ + "/"@);
    assert("/gpu-deploys/"@ =~= "/gpu-deploys"@ + "/"@);
    assert(endpoint_path(org, Endpoint::Deployment(id)) =~= start + "/deployments"@ + "/"@ + id@);
    assert(endpoint_path(org, Endpoint::GpuDeploy(id)) =~= start + "/gpu-deploys"@ + "/"@ + id@);
    assert(endpoint_path(org, Endpoint::Live(id)) =~= endpoint_path(
        org,
        Endpoint::Deployment(id),
    ) + "/live"@);
    assert(endpoint_path(org, Endpoint::Domain(id)) =~= endpoint_path(
        org,
        Endpoint::Deployment(id),
    ) + "/domain"@);
    assert(endpoint_path(org, Endpoint::Redeploy(id)) =~= endpoint_path(
        org,
        Endpoint::Deployment(id),
    ) + "/redeploy"@);
    assert(endpoint_path(org, Endpoint::GpuLogs(id)) =~= endpoint_path(
        org,
        Endpoint::GpuDeploy(id),
    ) + "/logs"@);
}

/// What is said of a missing key names the console, at the place where it is
/// missing and in the command that gets one.
pub proof fn a_missing_key_is_told(remote: Seq<char>)
    ensures
        no_token_text(remote) == "remote '"@ + remote + "' has no token — run `aoraki login "@
            + remote + "`"@,
        has_prefix(no_token_text(remote), "remote '"@ + remote),
        has_suffix(no_token_text(remote), remote + "`"@),
{
    let a = "remote '"@ + remote;
    let b = "' has no token — run `aoraki login "@;
    let c = remote + "`"@;
    begins_and_ends_as_put_together(a, b + c);
    begins_and_ends_as_put_together(a + b, c);
    assert(no_token_text(remote) =~= a + (b + c));
    assert(no_token_text(remote) =~= a + b + c);
}

} // verus!
