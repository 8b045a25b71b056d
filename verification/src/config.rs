//! What is configured: the app and its environments (`aoraki.toml` in the
//! repo), and the consoles and servers this machine knows (`config.toml`).

use crate::failure::{fail, Failure};
use crate::names::{
    hits, hits_are_exact, lookup, names_of, ordered, places, position, position_in_bounds,
    position_is_unique, NameMap,
};
use crate::text::{
    alphanumeric, begins_and_ends_as_put_together, chars_of, copy_opt, has_prefix, is_alphanumeric, is_some_text, join, joined,
    list_has, listed_text_occurs, lower, lower_char, occurs_in, occurs_in_a_part, opt, opt_str,
    same, starts_with, trim_end_char, views, without_end,
};
use vstd::prelude::*;
use vstd::string::*;

verus! {

/// `aoraki.toml`, committed at the root of the app's repo.
pub struct RepoConfig {
    pub app: AppSection,
    pub environments: NameMap<EnvConfig>,
}

pub struct AppSection {
    pub name: String,
    /// The console org that the app belongs to, by its immutable id or name.
    pub org: Option<String>,
    /// GitHub repo (owner/name), needed by gateway environments.
    pub repo: Option<String>,
    /// Environment used when a command names none.
    pub default_env: Option<String>,
}

pub struct EnvConfig {
    /// Server alias, looked up in the machine's servers, else left to ssh.
    pub server: String,
    /// Branch that this environment deploys.
    pub branch: String,
    pub namespace: String,
    /// Path of the deploy script, relative to the repo root on the box.
    pub deploy_script: String,
    pub url: Option<String>,
    /// Working checkout on the box.
    pub workdir: Option<String>,
    /// Ask for a typed confirmation before an off-branch deploy.
    pub confirm: bool,
    /// `direct` where absent; `gateway` or `lease`.
    pub transport: Option<String>,
    /// The console that gets this environment's deploy events.
    pub remote: Option<String>,
    /// Port that the container listens on.
    pub port: Option<u16>,
    /// Size of the lease.
    pub size: Option<String>,
    /// Dockerfile, relative to the repo root.
    pub dockerfile: Option<String>,
    /// Service name of the lease.
    pub process_type: Option<String>,
    /// GPU model to run on, or `auto`.
    pub gpu: Option<String>,
    /// Further names that this environment answers to.
    pub aliases: Vec<String>,
}

impl EnvConfig {
    /// The environment deploys through the customer gateway.
    pub open spec fn by_gateway(&self) -> bool {
        opt(self.transport) == Some("gateway"@)
    }

    /// The environment deploys to a lease of the console.
    pub open spec fn by_lease(&self) -> bool {
        opt(self.transport) == Some("lease"@)
    }

    /// Whether the environment deploys through the customer gateway.
    pub fn is_gateway(&self) -> (r: bool)
        ensures
            r == self.by_gateway(),
    {
        is_some_text(&self.transport, "gateway")
    }

    /// Whether the environment deploys to a lease of the console.
    pub fn is_lease(&self) -> (r: bool)
        ensures
            r == self.by_lease(),
    {
        is_some_text(&self.transport, "lease")
    }
}

/// `config.toml` of this machine.
pub struct GlobalConfig {
    /// The consoles this machine talks to, by their local names.
    pub remotes: NameMap<RemoteConfig>,
    pub gateway: Option<GatewayConfig>,
    pub servers: NameMap<ServerConfig>,
    pub defaults: Defaults,
}

pub struct RemoteConfig {
    pub api_url: String,
    /// Absent before a login and after a logout.
    pub token: Option<String>,
    /// Org behind the key.
    pub org: Option<String>,
    /// Immutable id of that org.
    pub org_id: Option<String>,
}

/// The customer deploy gateway.
pub struct GatewayConfig {
    pub api_url: String,
    pub token: Option<String>,
}

pub struct ServerConfig {
    pub host: String,
    pub user: Option<String>,
}

pub struct Defaults {
    pub environment: Option<String>,
    /// Console used where an environment names none.
    pub remote: Option<String>,
}

impl Default for Defaults {
    fn default() -> (r: Self)
        ensures
            r.environment is None,
            r.remote is None,
    {
        Defaults { environment: None, remote: None }
    }
}

impl Default for GlobalConfig {
    fn default() -> (r: Self)
        ensures
            r.remotes@.len() == 0,
            r.gateway is None,
            r.servers@.len() == 0,
            r.defaults.environment is None,
            r.defaults.remote is None,
    {
        GlobalConfig {
            remotes: NameMap::new(),
            gateway: None,
            servers: NameMap::new(),
            defaults: Defaults::default(),
        }
    }
}

// ---------------------------------------------------------------------
// Choosing a console
// ---------------------------------------------------------------------

/// The letters and digits of `s`, in lower case: the key by which org names
/// are compared.
pub open spec fn normalized(s: Seq<char>) -> Seq<char>
    decreases s.len(),
{
    if s.len() == 0 {
        Seq::empty()
    } else {
        let before = normalized(s.drop_last());
        if is_alphanumeric(s.last()) {
            before.push(lower(s.last()))
        } else {
            before
        }
    }
}

/// The key by which org names are compared.
pub fn normalize(s: &str) -> (r: String)
    ensures
        r@ == normalized(s@),
{
    let v = chars_of(s);
    let mut out = String::new();
    let mut i: usize = 0;
    while i < v.len()
        invariant
            i <= v.len(),
            v@ == s@,
            out@ == normalized(s@.take(i as int)),
        decreases v.len() - i,
    {
        proof {
            assert(s@.take(i + 1).drop_last() =~= s@.take(i as int));
        }
        if alphanumeric(v[i]) {
            out.push(lower_char(v[i]));
        }
        i = i + 1;
    }
    proof {
        assert(s@.take(i as int) =~= s@);
    }
    out
}

/// How a pin names a console when it is no local name.
#[derive(Clone, Copy, PartialEq, Eq, Structural)]
pub enum PinKind {
    /// By the immutable id of an org.
    OrgId,
    /// By the URL of the console.
    Url,
    /// By the name of an org.
    Org,
}

pub open spec fn pin_kind(pin: Seq<char>) -> PinKind {
    if has_prefix(pin, "org_"@) {
        PinKind::OrgId
    } else if has_prefix(pin, "http://"@) || has_prefix(pin, "https://"@) {
        PinKind::Url
    } else {
        PinKind::Org
    }
}

/// What a pin of a kind is compared by.
pub open spec fn pin_key(kind: PinKind, pin: Seq<char>) -> Seq<char> {
    match kind {
        PinKind::OrgId => pin,
        PinKind::Url => without_end(pin, '/'),
        PinKind::Org => normalized(pin),
    }
}

/// What a pin of a kind is compared with in a console.
pub open spec fn pin_field(kind: PinKind, remote: RemoteConfig) -> Option<Seq<char>> {
    match kind {
        PinKind::OrgId => opt(remote.org_id),
        PinKind::Url => Some(without_end(remote.api_url@, '/')),
        PinKind::Org => match remote.org {
            Some(org) => Some(normalized(org@)),
            None => None,
        },
    }
}

/// The consoles that a pin names.
pub open spec fn pinned(kind: PinKind, key: Seq<char>) -> spec_fn((Seq<char>, RemoteConfig)) -> bool {
    |e: (Seq<char>, RemoteConfig)| pin_field(kind, e.1) == Some(key)
}

pub open spec fn local_names(s: Seq<(Seq<char>, RemoteConfig)>, at: Seq<int>) -> Seq<Seq<char>> {
    at.map_values(|i: int| s[i].0)
}

pub open spec fn names_and_urls(s: Seq<(Seq<char>, RemoteConfig)>, at: Seq<int>) -> Seq<Seq<char>> {
    at.map_values(|i: int| s[i].0 + ": "@ + s[i].1.api_url@)
}

/// What is said where a pin names no console.
pub open spec fn no_hit_text(
    kind: PinKind,
    pin: Seq<char>,
    s: Seq<(Seq<char>, RemoteConfig)>,
) -> Seq<char> {
    match kind {
        PinKind::OrgId => "no remote for org "@ + pin
            + " on this machine — `aoraki login` with a key for that org (or `aoraki whoami` to refresh org ids on older setups)"@,
        PinKind::Url => "no remote for "@ + without_end(pin, '/')
            + " on this machine — run `aoraki login --url "@ + without_end(pin, '/') + "`"@,
        PinKind::Org => "'"@ + pin + "' matches no remote name or org on this machine (configured: "@
            + joined(names_of(s), ", "@)
            + ") — `aoraki whoami` shows orgs; `aoraki login` adds one"@,
    }
}

/// What is said where a pin names several consoles.
pub open spec fn several_hits_text(
    kind: PinKind,
    pin: Seq<char>,
    s: Seq<(Seq<char>, RemoteConfig)>,
    at: Seq<int>,
) -> Seq<char> {
    match kind {
        PinKind::OrgId => "org "@ + pin + " is logged in on several consoles ("@ + joined(
            names_and_urls(s, at),
            ", "@,
        ) + ") — pin the local remote name or console URL"@,
        PinKind::Url => "several orgs are logged in at "@ + without_end(pin, '/') + " ("@ + joined(
            local_names(s, at),
            ", "@,
        ) + ") — pin the org or a local remote name"@,
        PinKind::Org => "org '"@ + pin + "' is logged in on several consoles ("@ + joined(
            names_and_urls(s, at),
            ", "@,
        ) + ") — pin the local remote name or the console URL"@,
    }
}

/// The console that a name stands for: a local name, else the one console
/// that it pins by org id, URL or org name. The place in `s`, or what is said
/// where there is none.
pub open spec fn named_remote(s: Seq<(Seq<char>, RemoteConfig)>, name: Seq<char>) -> Result<
    int,
    Seq<char>,
> {
    match position(s, name) {
        Some(i) => Ok(i),
        None => if s.len() == 0 {
            Err(
                "no remotes configured — run `aoraki login` (mainnet) or `aoraki login --url <aoraki-api-url>`"@,
            )
        } else {
            let kind = pin_kind(name);
            let at = hits(s, pinned(kind, pin_key(kind, name)));
            if at.len() == 1 {
                Ok(at[0])
            } else if at.len() == 0 {
                Err(no_hit_text(kind, name, s))
            } else {
                Err(several_hits_text(kind, name, s, at))
            }
        },
    }
}

/// The console used where none is named: the default, else the only one.
pub open spec fn unnamed_remote(
    s: Seq<(Seq<char>, RemoteConfig)>,
    default: Option<Seq<char>>,
) -> Result<int, Seq<char>> {
    match default {
        Some(name) => match position(s, name) {
            Some(i) => Ok(i),
            None => Err(
                "[defaults].remote = '"@ + name + "' but no such remote (configured: "@ + joined(
                    names_of(s),
                    ", "@,
                ) + ")"@,
            ),
        },
        None => if s.len() == 0 {
            Err("no remotes configured — run `aoraki login --url <aoraki-api-url>`"@)
        } else if s.len() == 1 {
            Ok(0)
        } else {
            Err(
                "several remotes configured ("@ + joined(names_of(s), ", "@)
                    + ") — name one, or set [defaults].remote"@,
            )
        },
    }
}

/// The console that a command talks to.
pub open spec fn remote_choice(
    s: Seq<(Seq<char>, RemoteConfig)>,
    default: Option<Seq<char>>,
    name: Option<Seq<char>>,
) -> Result<int, Seq<char>> {
    match name {
        Some(name) => named_remote(s, name),
        None => unnamed_remote(s, default),
    }
}

/// Where a console is chosen, it is one of those configured.
pub proof fn chosen_remote_is_configured(
    s: Seq<(Seq<char>, RemoteConfig)>,
    default: Option<Seq<char>>,
    name: Option<Seq<char>>,
)
    ensures
        remote_choice(s, default, name) matches Ok(i) ==> 0 <= i < s.len(),
{
    match name {
        Some(n) => {
            position_in_bounds(s, n);
            let kind = pin_kind(n);
            hits_are_exact(s, pinned(kind, pin_key(kind, n)));
        },
        None => {
            match default {
                Some(n) => position_in_bounds(s, n),
                None => {},
            }
        },
    }
}

impl GlobalConfig {
    /// The places of the consoles that a pin names.
    fn pin_hits(&self, kind: PinKind, key: &str) -> (r: Vec<usize>)
        ensures
            places(r@) == hits(self.remotes@, pinned(kind, key@)),
    {
        let mut out: Vec<usize> = Vec::new();
        let mut i: usize = 0;
        let ghost s = self.remotes@;
        let ghost p = pinned(kind, key@);
        while i < self.remotes.len()
            invariant
                i <= s.len(),
                s == self.remotes@,
                p == pinned(kind, key@),
                places(out@) == hits(s.take(i as int), p),
            decreases s.len() - i,
        {
            let remote = self.remotes.value_at(i);
            let hit = match kind {
                PinKind::OrgId => is_some_text(&remote.org_id, key),
                PinKind::Url => same(trim_end_char(remote.api_url.as_str(), '/'), key),
                PinKind::Org => match &remote.org {
                    Some(org) => same(normalize(org.as_str()).as_str(), key),
                    None => false,
                },
            };
            proof {
                assert(s.take(i + 1).drop_last() =~= s.take(i as int));
                assert(s.take(i + 1).last() == s[i as int]);
            }
            let ghost before = places(out@);
            if hit {
                out.push(i);
                proof {
                    assert(places(out@) =~= before.push(i as int));
                }
            }
            i = i + 1;
        }
        proof {
            assert(s.take(i as int) =~= s);
        }
        out
    }

    fn list_names(&self, at: &Vec<usize>) -> (r: String)
        requires
            forall|k: int| 0 <= k < at.len() ==> (#[trigger] at@[k]) < self.remotes@.len(),
        ensures
            r@ == joined(local_names(self.remotes@, places(at@)), ", "@),
    {
        let mut list: Vec<String> = Vec::new();
        let mut k: usize = 0;
        let ghost all = local_names(self.remotes@, places(at@));
        while k < at.len()
            invariant
                k <= at.len(),
                forall|k: int| 0 <= k < at.len() ==> (#[trigger] at@[k]) < self.remotes@.len(),
                all == local_names(self.remotes@, places(at@)),
                views(list@) == all.take(k as int),
            decreases at.len() - k,
        {
            let ghost before = views(list@);
            list.push(self.remotes.name_at(at[k]).to_string());
            proof {
                assert(views(list@) =~= before.push(all[k as int]));
                assert(all.take(k + 1) =~= all.take(k as int).push(all[k as int]));
            }
            k = k + 1;
        }
        proof {
            assert(all.take(k as int) =~= all);
        }
        join(&list, ", ")
    }

    fn list_names_and_urls(&self, at: &Vec<usize>) -> (r: String)
        requires
            forall|k: int| 0 <= k < at.len() ==> (#[trigger] at@[k]) < self.remotes@.len(),
        ensures
            r@ == joined(names_and_urls(self.remotes@, places(at@)), ", "@),
    {
        let mut list: Vec<String> = Vec::new();
        let mut k: usize = 0;
        let ghost all = names_and_urls(self.remotes@, places(at@));
        while k < at.len()
            invariant
                k <= at.len(),
                forall|k: int| 0 <= k < at.len() ==> (#[trigger] at@[k]) < self.remotes@.len(),
                all == names_and_urls(self.remotes@, places(at@)),
                views(list@) == all.take(k as int),
            decreases at.len() - k,
        {
            let ghost before = views(list@);
            let line = self.remotes.name_at(at[k]).to_string().concat(": ").concat(
                self.remotes.value_at(at[k]).api_url.as_str(),
            );
            list.push(line);
            proof {
                assert(views(list@) =~= before.push(all[k as int]));
                assert(all.take(k + 1) =~= all.take(k as int).push(all[k as int]));
            }
            k = k + 1;
        }
        proof {
            assert(all.take(k as int) =~= all);
        }
        join(&list, ", ")
    }

    fn entry_at(&self, i: usize) -> (r: (&str, &RemoteConfig))
        requires
            i < self.remotes@.len(),
        ensures
            r.0@ == self.remotes@[i as int].0,
            *r.1 == self.remotes@[i as int].1,
    {
        (self.remotes.name_at(i), self.remotes.value_at(i))
    }

    fn pinned_remote(&self, pin: &str) -> (r: Result<(&str, &RemoteConfig), Failure>)
        requires
            position(self.remotes@, pin@) is None,
            self.remotes@.len() > 0,
        ensures
            match (r, named_remote(self.remotes@, pin@)) {
                (Ok(found), Ok(i)) => found.0@ == self.remotes@[i].0 && *found.1
                    == self.remotes@[i].1,
                (Err(failure), Err(text)) => failure@ == text,
                _ => false,
            },
    {
        let kind = if starts_with(pin, "org_") {
            PinKind::OrgId
        } else if starts_with(pin, "http://") || starts_with(pin, "https://") {
            PinKind::Url
        } else {
            PinKind::Org
        };
        let key = match kind {
            PinKind::OrgId => pin.to_string(),
            PinKind::Url => trim_end_char(pin, '/').to_string(),
            PinKind::Org => normalize(pin),
        };
        let at = self.pin_hits(kind, key.as_str());
        proof {
            hits_are_exact(self.remotes@, pinned(kind, key@));
            assert forall|k: int| 0 <= k < at.len() implies (#[trigger] at@[k]) < self.remotes@.len() by {
                assert(places(at@)[k] == at@[k]);
            }
        }
        if at.len() == 1 {
            proof {
                assert(places(at@)[0] == at@[0]);
            }
            return Ok(self.entry_at(at[0]));
        }
        if at.len() == 0 {
            let message = match kind {
                PinKind::OrgId => "no remote for org ".to_string().concat(pin).concat(
                    " on this machine — `aoraki login` with a key for that org (or `aoraki whoami` to refresh org ids on older setups)",
                ),
                PinKind::Url => "no remote for ".to_string().concat(key.as_str()).concat(
                    " on this machine — run `aoraki login --url ",
                ).concat(key.as_str()).concat("`"),
                PinKind::Org => "'".to_string().concat(pin).concat(
                    "' matches no remote name or org on this machine (configured: ",
                ).concat(join(&self.remotes.names(), ", ").as_str()).concat(
                    ") — `aoraki whoami` shows orgs; `aoraki login` adds one",
                ),
            };
            return Err(fail(message));
        }
        let message = match kind {
            PinKind::OrgId => "org ".to_string().concat(pin).concat(
                " is logged in on several consoles (",
            ).concat(self.list_names_and_urls(&at).as_str()).concat(
                ") — pin the local remote name or console URL",
            ),
            PinKind::Url => "several orgs are logged in at ".to_string().concat(
                key.as_str(),
            ).concat(" (").concat(self.list_names(&at).as_str()).concat(
                ") — pin the org or a local remote name",
            ),
            PinKind::Org => "org '".to_string().concat(pin).concat(
                "' is logged in on several consoles (",
            ).concat(self.list_names_and_urls(&at).as_str()).concat(
                ") — pin the local remote name or the console URL",
            ),
        };
        Err(fail(message))
    }

    /// The console to talk to: the one named, by its local name, its org id,
    /// its URL or its org; where none is named the default, else the only one.
    pub fn resolve_remote(&self, name: Option<&str>) -> (r: Result<(&str, &RemoteConfig), Failure>)
        ensures
            match (
                r,
                remote_choice(self.remotes@, opt(self.defaults.remote), opt_str(name)),
            ) {
                (Ok(found), Ok(i)) => found.0@ == self.remotes@[i].0 && *found.1
                    == self.remotes@[i].1,
                (Err(failure), Err(text)) => failure@ == text,
                _ => false,
            },
    {
        if let Some(name) = name {
            if let Some(i) = self.remotes.index_of(name) {
                return Ok(self.entry_at(i));
            }
            if self.remotes.is_empty() {
                return Err(
                    fail(
                        "no remotes configured — run `aoraki login` (mainnet) or `aoraki login --url <aoraki-api-url>`".to_string(),
                    ),
                );
            }
            return self.pinned_remote(name);
        }
        if let Some(default) = &self.defaults.remote {
            if let Some(i) = self.remotes.index_of(default.as_str()) {
                return Ok(self.entry_at(i));
            }
            return Err(
                fail(
                    "[defaults].remote = '".to_string().concat(default.as_str()).concat(
                        "' but no such remote (configured: ",
                    ).concat(join(&self.remotes.names(), ", ").as_str()).concat(")"),
                ),
            );
        }
        let n: usize = self.remotes.len();
        if n == 0 {
            Err(
                fail(
                    "no remotes configured — run `aoraki login --url <aoraki-api-url>`".to_string(),
                ),
            )
        } else if n == 1 {
            Ok(self.entry_at(0))
        } else {
            Err(
                fail(
                    "several remotes configured (".to_string().concat(
                        join(&self.remotes.names(), ", ").as_str(),
                    ).concat(") — name one, or set [defaults].remote"),
                ),
            )
        }
    }
}

// ---------------------------------------------------------------------
// Choosing an environment
// ---------------------------------------------------------------------

/// The environments that list a name among their aliases.
pub open spec fn aliased(name: Seq<char>) -> spec_fn((Seq<char>, EnvConfig)) -> bool {
    |e: (Seq<char>, EnvConfig)| views(e.1.aliases@).contains(name)
}

/// The environments whose own name begins with a text.
pub open spec fn begins_with(name: Seq<char>) -> spec_fn((Seq<char>, EnvConfig)) -> bool {
    |e: (Seq<char>, EnvConfig)| has_prefix(e.0, name)
}

/// The environments that deploy a branch.
pub open spec fn deploys(branch: Seq<char>) -> spec_fn((Seq<char>, EnvConfig)) -> bool {
    |e: (Seq<char>, EnvConfig)| e.1.branch@ == branch
}

/// The environment that a name stands for: its own name, else the first that
/// has it as an alias, else the only one whose name begins with it.
pub open spec fn named_env(s: Seq<(Seq<char>, EnvConfig)>, name: Seq<char>) -> Result<
    int,
    Seq<char>,
> {
    match position(s, name) {
        Some(i) => Ok(i),
        None => {
            let alias = hits(s, aliased(name));
            let prefix = hits(s, begins_with(name));
            if alias.len() > 0 {
                Ok(alias[0])
            } else if prefix.len() == 1 {
                Ok(prefix[0])
            } else {
                Err(
                    "environment '"@ + name + "' not in aoraki.toml (available: "@ + joined(
                        names_of(s),
                        ", "@,
                    ) + ")"@,
                )
            }
        },
    }
}

/// The environment used where none is named: the only one that deploys the
/// branch that is checked out, else the app's default, else the machine's
/// default where the app has it, else the only one.
pub open spec fn unnamed_env(
    s: Seq<(Seq<char>, EnvConfig)>,
    branch: Option<Seq<char>>,
    app_default: Option<Seq<char>>,
    machine_default: Option<Seq<char>>,
) -> Result<int, Seq<char>> {
    let by_branch = match branch {
        Some(b) => hits(s, deploys(b)),
        None => Seq::empty(),
    };
    if by_branch.len() == 1 {
        Ok(by_branch[0])
    } else if app_default is Some {
        match position(s, app_default->0) {
            Some(i) => Ok(i),
            None => Err(
                "default_env '"@ + app_default->0
                    + "' in aoraki.toml is not a defined environment (available: "@ + joined(
                    names_of(s),
                    ", "@,
                ) + ")"@,
            ),
        }
    } else if machine_default is Some && position(s, machine_default->0) is Some {
        Ok(position(s, machine_default->0)->0)
    } else if s.len() == 1 {
        Ok(0)
    } else {
        Err("specify an environment (available: "@ + joined(names_of(s), ", "@) + ")"@)
    }
}

/// The environment that a command acts on.
pub open spec fn env_choice(
    s: Seq<(Seq<char>, EnvConfig)>,
    arg: Option<Seq<char>>,
    branch: Option<Seq<char>>,
    app_default: Option<Seq<char>>,
    machine_default: Option<Seq<char>>,
) -> Result<int, Seq<char>> {
    match arg {
        Some(name) => named_env(s, name),
        None => unnamed_env(s, branch, app_default, machine_default),
    }
}

/// Where an environment is chosen, it is one that the app defines.
pub proof fn chosen_env_is_defined(
    s: Seq<(Seq<char>, EnvConfig)>,
    arg: Option<Seq<char>>,
    branch: Option<Seq<char>>,
    app_default: Option<Seq<char>>,
    machine_default: Option<Seq<char>>,
)
    ensures
        env_choice(s, arg, branch, app_default, machine_default) matches Ok(i) ==> 0 <= i < s.len(),
{
    match arg {
        Some(name) => {
            position_in_bounds(s, name);
            hits_are_exact(s, aliased(name));
            hits_are_exact(s, begins_with(name));
        },
        None => {
            if branch is Some {
                hits_are_exact(s, deploys(branch->0));
            }
            if app_default is Some {
                position_in_bounds(s, app_default->0);
            }
            if machine_default is Some {
                position_in_bounds(s, machine_default->0);
            }
        },
    }
}

/// An environment answers to its own name, whatever branch is checked out and
/// whatever the defaults are.
pub proof fn own_name_wins(
    s: Seq<(Seq<char>, EnvConfig)>,
    i: int,
    branch: Option<Seq<char>>,
    app_default: Option<Seq<char>>,
    machine_default: Option<Seq<char>>,
)
    requires
        ordered(s),
        0 <= i < s.len(),
    ensures
        env_choice(s, Some(s[i].0), branch, app_default, machine_default) == Ok::<int, Seq<char>>(i),
{
    position_is_unique(s, i);
}

/// A name given on the command line settles the choice: the branch that is
/// checked out and the defaults have no part in it.
pub proof fn argument_beats_branch_and_defaults(
    s: Seq<(Seq<char>, EnvConfig)>,
    name: Seq<char>,
    branch: Option<Seq<char>>,
    app_default: Option<Seq<char>>,
    machine_default: Option<Seq<char>>,
)
    ensures
        env_choice(s, Some(name), branch, app_default, machine_default) == env_choice(
            s,
            Some(name),
            None,
            None,
            None,
        ),
{
}

/// An environment answers to the beginnings of its name that no other
/// environment's name has, unless such a beginning is another's name or alias.
pub proof fn unique_prefix_is_enough(
    s: Seq<(Seq<char>, EnvConfig)>,
    i: int,
    name: Seq<char>,
    branch: Option<Seq<char>>,
    app_default: Option<Seq<char>>,
    machine_default: Option<Seq<char>>,
)
    requires
        0 <= i < s.len(),
        has_prefix(s[i].0, name),
        forall|j: int| 0 <= j < s.len() && j != i ==> !has_prefix((#[trigger] s[j]).0, name),
        forall|j: int| 0 <= j < s.len() ==> !views((#[trigger] s[j]).1.aliases@).contains(name),
    ensures
        env_choice(s, Some(name), branch, app_default, machine_default) == Ok::<int, Seq<char>>(i),
{
    position_in_bounds(s, name);
    hits_are_exact(s, aliased(name));
    hits_are_exact(s, begins_with(name));
    let alias = hits(s, aliased(name));
    let prefix = hits(s, begins_with(name));
    if position(s, name) is Some {
        let k = position(s, name)->0;
        assert(s[k].0.take(name.len() as int) =~= name);
    } else {
        if alias.len() > 0 {
            let k = alias[0];
            assert(views(s[k].1.aliases@).contains(name));
        }
        assert(begins_with(name)(s[i]));
        assert(prefix.contains(i));
        let w = choose|w: int| 0 <= w < prefix.len() && prefix[w] == i;
        if prefix.len() > 1 {
            let o: int = if w == 0 { 1 } else { 0 };
            if w < o {
                assert(prefix[w] < prefix[o]);
            } else {
                assert(prefix[o] < prefix[w]);
            }
            assert(has_prefix(s[prefix[o]].0, name));
        }
    }
}

/// Where no environment is named, the branch that is checked out picks the
/// environment that deploys it, provided that no other deploys it too.
pub proof fn branch_picks_its_environment(
    s: Seq<(Seq<char>, EnvConfig)>,
    i: int,
    app_default: Option<Seq<char>>,
    machine_default: Option<Seq<char>>,
)
    requires
        0 <= i < s.len(),
        forall|j: int|
            0 <= j < s.len() && j != i ==> (#[trigger] s[j]).1.branch@ != s[i].1.branch@,
    ensures
        env_choice(s, None, Some(s[i].1.branch@), app_default, machine_default) == Ok::<
            int,
            Seq<char>,
        >(i),
{
    let branch = s[i].1.branch@;
    hits_are_exact(s, deploys(branch));
    let h = hits(s, deploys(branch));
    assert(deploys(branch)(s[i]));
    assert(h.contains(i));
    let w = choose|w: int| 0 <= w < h.len() && h[w] == i;
    if h.len() > 1 {
        let o: int = if w == 0 { 1 } else { 0 };
        if w < o {
            assert(h[w] < h[o]);
        } else {
            assert(h[o] < h[w]);
        }
        assert(s[h[o]].1.branch@ == branch);
    }
}

fn alias_hits(envs: &NameMap<EnvConfig>, name: &str) -> (r: Vec<usize>)
    ensures
        places(r@) == hits(envs@, aliased(name@)),
{
    let mut out: Vec<usize> = Vec::new();
    let mut i: usize = 0;
    let ghost s = envs@;
    while i < envs.len()
        invariant
            i <= s.len(),
            s == envs@,
            places(out@) == hits(s.take(i as int), aliased(name@)),
        decreases s.len() - i,
    {
        proof {
            assert(s.take(i + 1).drop_last() =~= s.take(i as int));
            assert(s.take(i + 1).last() == s[i as int]);
        }
        let ghost before = places(out@);
        if list_has(&envs.value_at(i).aliases, name) {
            out.push(i);
            proof {
                assert(places(out@) =~= before.push(i as int));
            }
        }
        i = i + 1;
    }
    proof {
        assert(s.take(i as int) =~= s);
    }
    out
}

fn prefix_hits(envs: &NameMap<EnvConfig>, name: &str) -> (r: Vec<usize>)
    ensures
        places(r@) == hits(envs@, begins_with(name@)),
{
    let mut out: Vec<usize> = Vec::new();
    let mut i: usize = 0;
    let ghost s = envs@;
    while i < envs.len()
        invariant
            i <= s.len(),
            s == envs@,
            places(out@) == hits(s.take(i as int), begins_with(name@)),
        decreases s.len() - i,
    {
        proof {
            assert(s.take(i + 1).drop_last() =~= s.take(i as int));
            assert(s.take(i + 1).last() == s[i as int]);
        }
        let ghost before = places(out@);
        if starts_with(envs.name_at(i), name) {
            out.push(i);
            proof {
                assert(places(out@) =~= before.push(i as int));
            }
        }
        i = i + 1;
    }
    proof {
        assert(s.take(i as int) =~= s);
    }
    out
}

fn branch_hits(envs: &NameMap<EnvConfig>, branch: &str) -> (r: Vec<usize>)
    ensures
        places(r@) == hits(envs@, deploys(branch@)),
{
    let mut out: Vec<usize> = Vec::new();
    let mut i: usize = 0;
    let ghost s = envs@;
    while i < envs.len()
        invariant
            i <= s.len(),
            s == envs@,
            places(out@) == hits(s.take(i as int), deploys(branch@)),
        decreases s.len() - i,
    {
        proof {
            assert(s.take(i + 1).drop_last() =~= s.take(i as int));
            assert(s.take(i + 1).last() == s[i as int]);
        }
        let ghost before = places(out@);
        if same(envs.value_at(i).branch.as_str(), branch) {
            out.push(i);
            proof {
                assert(places(out@) =~= before.push(i as int));
            }
        }
        i = i + 1;
    }
    proof {
        assert(s.take(i as int) =~= s);
    }
    out
}

/// The name of the environment that a command acts on, from the argument that
/// names it, the branch that is checked out, and the defaults.
pub fn resolve_env_name(
    arg: Option<String>,
    git_branch: Option<&str>,
    repo: &RepoConfig,
    global: &GlobalConfig,
) -> (r: Result<String, Failure>)
    ensures
        match (
            r,
            env_choice(
                repo.environments@,
                opt(arg),
                opt_str(git_branch),
                opt(repo.app.default_env),
                opt(global.defaults.environment),
            ),
        ) {
            (Ok(name), Ok(i)) => name@ == repo.environments@[i].0 && position(
                repo.environments@,
                name@,
            ) is Some,
            (Err(failure), Err(text)) => failure@ == text,
            _ => false,
        },
{
    let envs = &repo.environments;
    let ghost s = envs@;
    proof {
        chosen_env_is_defined(
            s,
            opt(arg),
            opt_str(git_branch),
            opt(repo.app.default_env),
            opt(global.defaults.environment),
        );
        assert forall|i: int| 0 <= i < s.len() implies position(s, (#[trigger] s[i]).0) is Some by {
            crate::names::found_where_it_stands(s, i);
        }
    }
    if let Some(name) = arg {
        proof {
            position_in_bounds(s, name@);
        }
        if envs.contains_key(name.as_str()) {
            return Ok(name);
        }
        let alias = alias_hits(envs, name.as_str());
        if alias.len() > 0 {
            proof {
                hits_are_exact(s, aliased(name@));
                assert(places(alias@)[0] == alias@[0]);
            }
            return Ok(envs.name_at(alias[0]).to_string());
        }
        let prefix = prefix_hits(envs, name.as_str());
        if prefix.len() == 1 {
            proof {
                hits_are_exact(s, begins_with(name@));
                assert(places(prefix@)[0] == prefix@[0]);
            }
            return Ok(envs.name_at(prefix[0]).to_string());
        }
        return Err(
            fail(
                "environment '".to_string().concat(name.as_str()).concat(
                    "' not in aoraki.toml (available: ",
                ).concat(join(&envs.names(), ", ").as_str()).concat(")"),
            ),
        );
    }
    if let Some(branch) = git_branch {
        let at = branch_hits(envs, branch);
        if at.len() == 1 {
            proof {
                hits_are_exact(s, deploys(branch@));
                assert(places(at@)[0] == at@[0]);
            }
            return Ok(envs.name_at(at[0]).to_string());
        }
    }
    if let Some(default) = &repo.app.default_env {
        proof {
            position_in_bounds(s, default@);
        }
        if envs.contains_key(default.as_str()) {
            return Ok(default.clone());
        }
        return Err(
            fail(
                "default_env '".to_string().concat(default.as_str()).concat(
                    "' in aoraki.toml is not a defined environment (available: ",
                ).concat(join(&envs.names(), ", ").as_str()).concat(")"),
            ),
        );
    }
    if let Some(default) = &global.defaults.environment {
        proof {
            position_in_bounds(s, default@);
        }
        if envs.contains_key(default.as_str()) {
            return Ok(default.clone());
        }
    }
    if envs.len() == 1 {
        return Ok(envs.name_at(0).to_string());
    }
    Err(
        fail(
            "specify an environment (available: ".to_string().concat(
                join(&envs.names(), ", ").as_str(),
            ).concat(")"),
        ),
    )
}

// ---------------------------------------------------------------------
// Servers, tokens, files
// ---------------------------------------------------------------------

/// What ssh is told to connect to for a server alias: the host of the
/// machine's servers under that name, with its user where it has one, else
/// the alias itself.
pub open spec fn ssh_target_of(servers: Seq<(Seq<char>, ServerConfig)>, server: Seq<char>) -> Seq<
    char,
> {
    match lookup(servers, server) {
        Some(found) => match found.user {
            Some(user) => user@ + "@"@ + found.host@,
            None => found.host@,
        },
        None => server,
    }
}

/// What ssh is told to connect to for a server alias.
pub fn resolve_target(global: &GlobalConfig, server: &str) -> (r: String)
    ensures
        r@ == ssh_target_of(global.servers@, server@),
{
    match global.servers.get(server) {
        Some(found) => match &found.user {
            Some(user) => user.clone().concat("@").concat(found.host.as_str()),
            None => found.host.clone(),
        },
        None => server.to_string(),
    }
}

impl GatewayConfig {
    /// The token for the gateway: what the environment variable holds, unless
    /// that is absent or empty, else the one in the file.
    pub open spec fn token_with(&self, from_env: Option<Seq<char>>) -> Option<Seq<char>> {
        match from_env {
            Some(token) => if token.len() > 0 {
                Some(token)
            } else {
                opt(self.token)
            },
            None => opt(self.token),
        }
    }

    /// The token for the gateway, given the value of `MANIFEST_TOKEN`.
    pub fn resolve_token(&self, from_env: Option<&str>) -> (r: Option<String>)
        ensures
            opt(r) == self.token_with(opt_str(from_env)),
    {
        if let Some(token) = from_env {
            if token.unicode_len() > 0 {
                return Some(token.to_string());
            }
        }
        copy_opt(&self.token)
    }
}

/// A path that starts at the root of the file system.
pub open spec fn is_rooted(path: Seq<char>) -> bool {
    path.len() > 0 && path[0] == '/'
}

/// The path of `name`, seen from the directory `dir`: under it, unless `name`
/// is a path of its own.
pub open spec fn path_under(dir: Seq<char>, name: Seq<char>) -> Seq<char> {
    if is_rooted(name) {
        name
    } else if dir.len() == 0 || dir.last() == '/' {
        dir + name
    } else {
        dir + "/"@ + name
    }
}

/// The path of `name`, seen from the directory `dir`.
pub fn join_path(dir: &str, name: &str) -> (r: String)
    ensures
        r@ == path_under(dir@, name@),
{
    let n: usize = dir.unicode_len();
    if name.unicode_len() > 0 && name.get_char(0) == '/' {
        name.to_string()
    } else if n == 0 || dir.get_char(n - 1) == '/' {
        dir.to_string().concat(name)
    } else {
        dir.to_string().concat("/").concat(name)
    }
}

/// The directory of this machine's configuration.
pub open spec fn config_dir(given: Option<Seq<char>>, home: Option<Seq<char>>) -> Seq<char> {
    if given is Some && given->0.len() > 0 {
        given->0
    } else {
        path_under(
            match home {
                Some(dir) => dir,
                None => "."@,
            },
            ".config/aoraki"@,
        )
    }
}

/// The directory of this machine's configuration, given the value of
/// `MANIFEST_CONFIG_HOME` and the user's home directory.
pub fn config_home(given: Option<&str>, home: Option<&str>) -> (r: String)
    ensures
        r@ == config_dir(opt_str(given), opt_str(home)),
{
    if let Some(dir) = given {
        if dir.unicode_len() > 0 {
            return dir.to_string();
        }
    }
    match home {
        Some(dir) => join_path(dir, ".config/aoraki"),
        None => join_path(".", ".config/aoraki"),
    }
}

/// Which of the two configuration files a directory holds.
#[derive(Clone, Copy)]
pub struct Level {
    pub aoraki_toml: bool,
    pub manifest_toml: bool,
}

/// The name of a repo's configuration file.
#[derive(Clone, Copy, PartialEq, Eq, Structural)]
pub enum ConfigFile {
    Aoraki,
    /// The older name, still accepted.
    Manifest,
}

impl ConfigFile {
    pub open spec fn name_text(self) -> Seq<char> {
        match self {
            ConfigFile::Aoraki => "aoraki.toml"@,
            ConfigFile::Manifest => "manifest.toml"@,
        }
    }

    /// The file's name.
    pub fn file_name(self) -> (r: String)
        ensures
            r@ == self.name_text(),
    {
        match self {
            ConfigFile::Aoraki => "aoraki.toml".to_string(),
            ConfigFile::Manifest => "manifest.toml".to_string(),
        }
    }
}

/// The configuration file of the innermost directory that holds one. The
/// directories are listed from the innermost outward; in each, `aoraki.toml`
/// is preferred.
pub open spec fn nearest_config(levels: Seq<Level>) -> Option<(int, ConfigFile)>
    decreases levels.len(),
{
    if levels.len() == 0 {
        None
    } else if levels[0].aoraki_toml {
        Some((0, ConfigFile::Aoraki))
    } else if levels[0].manifest_toml {
        Some((0, ConfigFile::Manifest))
    } else {
        match nearest_config(levels.skip(1)) {
            Some((i, file)) => Some((i + 1, file)),
            None => None,
        }
    }
}

/// The configuration file of the innermost directory that holds one.
pub fn nearest(levels: &Vec<Level>) -> (r: Option<(usize, ConfigFile)>)
    ensures
        match r {
            Some((i, file)) => nearest_config(levels@) == Some((i as int, file)) && i < levels.len(),
            None => nearest_config(levels@) is None,
        },
{
    let mut i: usize = 0;
    proof {
        assert(levels@.skip(0) =~= levels@);
    }
    while i < levels.len()
        invariant
            i <= levels.len(),
            nearest_config(levels@) == (match nearest_config(levels@.skip(i as int)) {
                Some((k, file)) => Some((k + i, file)),
                None => None,
            }),
        decreases levels.len() - i,
    {
        proof {
            assert(levels@.skip(i as int).skip(1) =~= levels@.skip(i + 1));
        }
        if levels[i].aoraki_toml {
            return Some((i, ConfigFile::Aoraki));
        }
        if levels[i].manifest_toml {
            return Some((i, ConfigFile::Manifest));
        }
        i = i + 1;
    }
    None
}

/// What is said where no directory holds a configuration file.
pub open spec fn no_config_text() -> Seq<char> {
    "no aoraki.toml found in this directory or any parent — run from an app repo, or create one (see `examples/aoraki.toml` in the aoraki-cli repo)"@
}

/// The configuration file to read for a repo, found by walking up from the
/// innermost of `levels`.
pub fn find_repo_config(levels: &Vec<Level>) -> (r: Result<(usize, ConfigFile), Failure>)
    ensures
        match r {
            Ok((i, file)) => nearest_config(levels@) == Some((i as int, file)) && i < levels.len(),
            Err(failure) => nearest_config(levels@) is None && failure@ == no_config_text(),
        },
{
    match nearest(levels) {
        Some(found) => Ok(found),
        None => Err(
            fail(
                "no aoraki.toml found in this directory or any parent — run from an app repo, or create one (see `examples/aoraki.toml` in the aoraki-cli repo)".to_string(),
            ),
        ),
    }
}

/// A configuration that was read from `path`, unless it defines no
/// environment.
pub fn accept_repo_config(path: &str, repo: RepoConfig) -> (r: Result<RepoConfig, Failure>)
    ensures
        match r {
            Ok(accepted) => accepted == repo && repo.environments@.len() > 0,
            Err(failure) => repo.environments@.len() == 0 && failure@ == path@
                + " defines no [environments.*]"@,
        },
{
    if repo.environments.is_empty() {
        Err(fail(path.to_string().concat(" defines no [environments.*]")))
    } else {
        Ok(repo)
    }
}

/// The file found is the innermost: no directory before it holds one of
/// either name, and the newer name wins in its own directory.
pub proof fn nearest_is_innermost(levels: Seq<Level>)
    ensures
        match nearest_config(levels) {
            Some((i, file)) => {
                &&& 0 <= i < levels.len()
                &&& forall|j: int|
                    0 <= j < i ==> !(#[trigger] levels[j]).aoraki_toml && !levels[j].manifest_toml
                &&& file == ConfigFile::Aoraki <==> levels[i].aoraki_toml
                &&& file == ConfigFile::Manifest ==> levels[i].manifest_toml
            },
            None => forall|j: int|
                0 <= j < levels.len() ==> !(#[trigger] levels[j]).aoraki_toml
                    && !levels[j].manifest_toml,
        },
    decreases levels.len(),
{
    if levels.len() > 0 && !levels[0].aoraki_toml && !levels[0].manifest_toml {
        let rest = levels.skip(1);
        nearest_is_innermost(rest);
        let end = match nearest_config(rest) {
            Some((i, file)) => i + 1,
            None => levels.len() as int,
        };
        assert forall|j: int| 0 <= j < end implies !(#[trigger] levels[j]).aoraki_toml
            && !levels[j].manifest_toml by {
            if j > 0 {
                assert(rest[j - 1] == levels[j]);
            }
        }
    }
}

// ---------------------------------------------------------------------
// Laws of the choices
// ---------------------------------------------------------------------

/// A console answers to its local name, whatever the default is.
pub proof fn local_name_wins(
    s: Seq<(Seq<char>, RemoteConfig)>,
    i: int,
    default: Option<Seq<char>>,
)
    requires
        ordered(s),
        0 <= i < s.len(),
    ensures
        remote_choice(s, default, Some(s[i].0)) == Ok::<int, Seq<char>>(i),
{
    position_is_unique(s, i);
}

/// A console that is pinned by org id, URL or org name is one that has it.
pub proof fn pinned_remote_fits_the_pin(s: Seq<(Seq<char>, RemoteConfig)>, pin: Seq<char>)
    requires
        position(s, pin) is None,
        named_remote(s, pin) is Ok,
    ensures
        ({
            let kind = pin_kind(pin);
            pin_field(kind, s[named_remote(s, pin)->Ok_0].1) == Some(pin_key(kind, pin))
        }),
{
    let kind = pin_kind(pin);
    hits_are_exact(s, pinned(kind, pin_key(kind, pin)));
    assert(pinned(kind, pin_key(kind, pin))(s[hits(s, pinned(kind, pin_key(kind, pin)))[0]]));
}

/// A pin that several consoles fit picks none of them.
pub proof fn ambiguous_pin_is_refused(
    s: Seq<(Seq<char>, RemoteConfig)>,
    pin: Seq<char>,
    i: int,
    j: int,
)
    requires
        position(s, pin) is None,
        0 <= i < j < s.len(),
        pin_field(pin_kind(pin), s[i].1) == Some(pin_key(pin_kind(pin), pin)),
        pin_field(pin_kind(pin), s[j].1) == Some(pin_key(pin_kind(pin), pin)),
    ensures
        named_remote(s, pin) is Err,
{
    let kind = pin_kind(pin);
    let p = pinned(kind, pin_key(kind, pin));
    hits_are_exact(s, p);
    assert(p(s[i]));
    assert(p(s[j]));
    assert(hits(s, p).contains(i));
    assert(hits(s, p).contains(j));
}

/// Two pins of a kind that are compared by the same key pick the same console:
/// URLs that differ in slashes at the end, org names that differ in case and
/// punctuation.
pub proof fn pins_are_compared_by_their_keys(
    s: Seq<(Seq<char>, RemoteConfig)>,
    a: Seq<char>,
    b: Seq<char>,
)
    requires
        position(s, a) is None,
        position(s, b) is None,
        pin_kind(a) == pin_kind(b),
        pin_key(pin_kind(a), a) == pin_key(pin_kind(b), b),
    ensures
        named_remote(s, a) is Ok <==> named_remote(s, b) is Ok,
        named_remote(s, a) is Ok ==> named_remote(s, a) == named_remote(s, b),
{
}

/// Slashes at the end of a URL do not matter to its key.
pub proof fn trailing_slash_is_no_part_of_the_key(url: Seq<char>)
    ensures
        pin_key(PinKind::Url, url.push('/')) == pin_key(PinKind::Url, url),
{
    assert(url.push('/').drop_last() =~= url);
}

/// Org names are compared by letters in lower case and digits alone, so making
/// a key of a key changes nothing.
pub proof fn key_of_a_key(s: Seq<char>)
    ensures
        normalized(normalized(s)) == normalized(s),
        forall|i: int|
            0 <= i < normalized(s).len() ==> is_alphanumeric(#[trigger] normalized(s)[i])
                && lower(normalized(s)[i]) == normalized(s)[i],
    decreases s.len(),
{
    if s.len() > 0 {
        let t = s.drop_last();
        key_of_a_key(t);
        if is_alphanumeric(s.last()) {
            let n = normalized(s);
            assert(n.drop_last() =~= normalized(t));
            assert forall|i: int| 0 <= i < n.len() implies is_alphanumeric(#[trigger] n[i])
                && lower(n[i]) == n[i] by {
                if i < normalized(t).len() {
                    assert(n[i] == normalized(t)[i]);
                }
            }
        }
    } else {
        assert(normalized(s) =~= Seq::<char>::empty());
    }
}

/// Where no environment can be chosen, what is said names every environment
/// that there is.
pub proof fn refusal_lists_the_environments(
    s: Seq<(Seq<char>, EnvConfig)>,
    arg: Option<Seq<char>>,
    branch: Option<Seq<char>>,
    app_default: Option<Seq<char>>,
    machine_default: Option<Seq<char>>,
    i: int,
)
    requires
        0 <= i < s.len(),
        env_choice(s, arg, branch, app_default, machine_default) is Err,
    ensures
        occurs_in(s[i].0, env_choice(s, arg, branch, app_default, machine_default)->Err_0),
{
    let list = joined(names_of(s), ", "@);
    listed_text_occurs(names_of(s), ", "@, i);
    assert(names_of(s)[i] == s[i].0);
    let head = match arg {
        Some(name) => "environment '"@ + name + "' not in aoraki.toml (available: "@,
        None => if app_default is Some {
            "default_env '"@ + app_default->0
                + "' in aoraki.toml is not a defined environment (available: "@
        } else {
            "specify an environment (available: "@
        },
    };
    occurs_in_a_part(s[i].0, head, list, ")"@);
}

/// Where a name stands for no console and no org, what is said names every
/// console that there is.
pub proof fn refusal_lists_the_remotes(s: Seq<(Seq<char>, RemoteConfig)>, name: Seq<char>, i: int)
    requires
        0 <= i < s.len(),
        position(s, name) is None,
        pin_kind(name) == PinKind::Org,
        hits(s, pinned(PinKind::Org, pin_key(PinKind::Org, name))).len() == 0,
    ensures
        named_remote(s, name) is Err,
        occurs_in(s[i].0, named_remote(s, name)->Err_0),
{
    let list = joined(names_of(s), ", "@);
    listed_text_occurs(names_of(s), ", "@, i);
    assert(names_of(s)[i] == s[i].0);
    occurs_in_a_part(
        s[i].0,
        "'"@ + name + "' matches no remote name or org on this machine (configured: "@,
        list,
        ") — `aoraki whoami` shows orgs; `aoraki login` adds one"@,
    );
}

proof fn lemma_no_single_hit(s: Seq<(Seq<char>, EnvConfig)>, branch: Seq<char>)
    requires
        forall|i: int|
            0 <= i < s.len() && (#[trigger] s[i]).1.branch@ == branch ==> exists|j: int|
                0 <= j < s.len() && j != i && (#[trigger] s[j]).1.branch@ == branch,
    ensures
        hits(s, deploys(branch)).len() != 1,
{
    let h = hits(s, deploys(branch));
    hits_are_exact(s, deploys(branch));
    if h.len() == 1 {
        let i = h[0];
        assert(deploys(branch)(s[i]));
        let j = choose|j: int| 0 <= j < s.len() && j != i && (#[trigger] s[j]).1.branch@ == branch;
        assert(deploys(branch)(s[j]));
        assert(h.contains(j));
    }
}

/// Where no environment is named and the branch that is checked out does not
/// single one out, the app's default is chosen where it is an environment,
/// whatever the branch and the machine's default are; and where it is none,
/// nothing is chosen in its place.
pub proof fn the_apps_default_counts(
    s: Seq<(Seq<char>, EnvConfig)>,
    i: int,
    unknown: Seq<char>,
    branch: Option<Seq<char>>,
    machine_default: Option<Seq<char>>,
)
    requires
        ordered(s),
        0 <= i < s.len(),
        branch is Some ==> forall|k: int|
            0 <= k < s.len() && (#[trigger] s[k]).1.branch@ == branch->0 ==> exists|j: int|
                0 <= j < s.len() && j != k && (#[trigger] s[j]).1.branch@ == branch->0,
        forall|k: int| 0 <= k < s.len() ==> (#[trigger] s[k]).0 != unknown,
    ensures
        env_choice(s, None, branch, Some(s[i].0), machine_default) == Ok::<int, Seq<char>>(i),
        env_choice(s, None, branch, Some(unknown), machine_default) is Err,
{
    if branch is Some {
        lemma_no_single_hit(s, branch->0);
    }
    position_is_unique(s, i);
    position_in_bounds(s, unknown);
}

/// Where no environment is named, the branch does not single one out and the
/// app has no default, the machine's default is chosen where it is an
/// environment of the app; else the only environment there is; else none.
pub proof fn the_machines_default_counts_next(
    s: Seq<(Seq<char>, EnvConfig)>,
    i: int,
    unknown: Seq<char>,
    branch: Option<Seq<char>>,
)
    requires
        ordered(s),
        0 <= i < s.len(),
        branch is Some ==> forall|k: int|
            0 <= k < s.len() && (#[trigger] s[k]).1.branch@ == branch->0 ==> exists|j: int|
                0 <= j < s.len() && j != k && (#[trigger] s[j]).1.branch@ == branch->0,
        forall|k: int| 0 <= k < s.len() ==> (#[trigger] s[k]).0 != unknown,
    ensures
        env_choice(s, None, branch, None, Some(s[i].0)) == Ok::<int, Seq<char>>(i),
        s.len() == 1 ==> env_choice(s, None, branch, None, Some(unknown)) == Ok::<int, Seq<char>>(0),
        s.len() == 1 ==> env_choice(s, None, branch, None, None) == Ok::<int, Seq<char>>(0),
        s.len() > 1 ==> env_choice(s, None, branch, None, Some(unknown)) is Err,
        s.len() > 1 ==> env_choice(s, None, branch, None, None) is Err,
{
    if branch is Some {
        lemma_no_single_hit(s, branch->0);
    }
    position_is_unique(s, i);
    position_in_bounds(s, unknown);
}

/// An environment answers to each of its aliases that is no environment's own
/// name and that none before it has.
pub proof fn an_alias_is_enough(
    s: Seq<(Seq<char>, EnvConfig)>,
    i: int,
    k: int,
    branch: Option<Seq<char>>,
    app_default: Option<Seq<char>>,
    machine_default: Option<Seq<char>>,
)
    requires
        0 <= i < s.len(),
        0 <= k < s[i].1.aliases@.len(),
        forall|j: int| 0 <= j < s.len() ==> (#[trigger] s[j]).0 != s[i].1.aliases@[k]@,
        forall|j: int, l: int|
            0 <= j < i && 0 <= l < s[j].1.aliases@.len() ==> (#[trigger] s[j].1.aliases@[l])@
                != s[i].1.aliases@[k]@,
    ensures
        env_choice(s, Some(s[i].1.aliases@[k]@), branch, app_default, machine_default) == Ok::<
            int,
            Seq<char>,
        >(i),
{
    let name = s[i].1.aliases@[k]@;
    position_in_bounds(s, name);
    hits_are_exact(s, aliased(name));
    let h = hits(s, aliased(name));
    assert(views(s[i].1.aliases@)[k] == name);
    assert(aliased(name)(s[i]));
    assert(h.contains(i));
    let w = choose|w: int| 0 <= w < h.len() && h[w] == i;
    if w > 0 {
        let j = h[0];
        assert(h[0] < h[w]);
        assert(aliased(name)(s[j]));
        let l = choose|l: int|
            0 <= l < views(s[j].1.aliases@).len() && views(s[j].1.aliases@)[l] == name;
        assert(s[j].1.aliases@[l]@ == name);
    }
}

/// A name that is no environment's own name nor alias, and with which no
/// environment's name begins or those of two begin, stands for none.
pub proof fn an_unclear_name_is_refused(
    s: Seq<(Seq<char>, EnvConfig)>,
    name: Seq<char>,
    branch: Option<Seq<char>>,
    app_default: Option<Seq<char>>,
    machine_default: Option<Seq<char>>,
)
    requires
        forall|j: int| 0 <= j < s.len() ==> (#[trigger] s[j]).0 != name,
        forall|j: int| 0 <= j < s.len() ==> !views((#[trigger] s[j]).1.aliases@).contains(name),
        (forall|j: int| 0 <= j < s.len() ==> !has_prefix((#[trigger] s[j]).0, name)) || (exists|
            i: int,
            j: int,
        |
            0 <= i < j < s.len() && has_prefix((#[trigger] s[i]).0, name) && has_prefix(
                (#[trigger] s[j]).0,
                name,
            )),
    ensures
        env_choice(s, Some(name), branch, app_default, machine_default) is Err,
{
    position_in_bounds(s, name);
    hits_are_exact(s, aliased(name));
    hits_are_exact(s, begins_with(name));
    let alias = hits(s, aliased(name));
    let prefix = hits(s, begins_with(name));
    if alias.len() > 0 {
        assert(aliased(name)(s[alias[0]]));
    }
    if prefix.len() == 1 {
        assert(begins_with(name)(s[prefix[0]]));
        if exists|i: int, j: int|
            0 <= i < j < s.len() && has_prefix((#[trigger] s[i]).0, name) && has_prefix(
                (#[trigger] s[j]).0,
                name,
            ) {
            let (i, j) = choose|i: int, j: int|
                0 <= i < j < s.len() && has_prefix((#[trigger] s[i]).0, name) && has_prefix(
                    (#[trigger] s[j]).0,
                    name,
                );
            assert(begins_with(name)(s[i]) && begins_with(name)(s[j]));
            assert(prefix.contains(i) && prefix.contains(j));
        }
    }
}

/// A pin that is an org's id picks the console of that org, where one and only
/// one has that id; and no console of another org.
pub proof fn an_org_id_picks_its_console(
    s: Seq<(Seq<char>, RemoteConfig)>,
    default: Option<Seq<char>>,
    rest: Seq<char>,
    i: int,
)
    requires
        0 <= i < s.len(),
        forall|j: int| 0 <= j < s.len() ==> (#[trigger] s[j]).0 != "org_"@ + rest,
    ensures
        remote_choice(s, default, Some("org_"@ + rest)) == Ok::<int, Seq<char>>(i) <==> (
        s[i].1.org_id is Some && s[i].1.org_id->0@ == "org_"@ + rest && forall|j: int|
            0 <= j < s.len() && j != i && (#[trigger] s[j]).1.org_id is Some
                ==> s[j].1.org_id->0@ != "org_"@ + rest),
{
    let pin = "org_"@ + rest;
    begins_and_ends_as_put_together("org_"@, rest);
    position_in_bounds(s, pin);
    let p = pinned(PinKind::OrgId, pin);
    lemma_single_hit(s, p, i);
    assert(forall|j: int|
        0 <= j < s.len() ==> (p(#[trigger] s[j]) <==> s[j].1.org_id is Some && s[j].1.org_id->0@
            == pin));
}

/// A predicate picks a place where that is the only one that satisfies it.
proof fn lemma_single_hit<V>(
    s: Seq<(Seq<char>, V)>,
    p: spec_fn((Seq<char>, V)) -> bool,
    i: int,
)
    requires
        0 <= i < s.len(),
    ensures
        hits(s, p) == seq![i] <==> p(s[i]) && forall|j: int|
            0 <= j < s.len() && j != i ==> !p(#[trigger] s[j]),
        hits(s, p).len() == 1 && hits(s, p)[0] == i ==> hits(s, p) == seq![i],
{
    let h = hits(s, p);
    hits_are_exact(s, p);
    if h.len() == 1 && h[0] == i {
        assert(h =~= seq![i]);
    }
    if h == seq![i] {
        assert(h[0] == i);
        assert forall|j: int| 0 <= j < s.len() && j != i implies !p(#[trigger] s[j]) by {
            if p(s[j]) {
                assert(h.contains(j));
            }
        }
    }
    if p(s[i]) && forall|j: int| 0 <= j < s.len() && j != i ==> !p(#[trigger] s[j]) {
        assert(h.contains(i));
        let w = choose|w: int| 0 <= w < h.len() && h[w] == i;
        if h.len() > 1 {
            let o: int = if w == 0 { 1 } else { 0 };
            if w < o {
                assert(h[w] < h[o]);
            } else {
                assert(h[o] < h[w]);
            }
            assert(p(s[h[o]]));
        }
        assert(h =~= seq![i]);
    }
}

/// A pin that is a URL picks the console at that URL, where one and only one is
/// there; slashes at the end do not count on either side.
pub proof fn a_url_picks_its_console(
    s: Seq<(Seq<char>, RemoteConfig)>,
    default: Option<Seq<char>>,
    url: Seq<char>,
    i: int,
)
    requires
        0 <= i < s.len(),
        has_prefix(url, "http://"@) || has_prefix(url, "https://"@),
        forall|j: int| 0 <= j < s.len() ==> (#[trigger] s[j]).0 != url,
    ensures
        remote_choice(s, default, Some(url)) == Ok::<int, Seq<char>>(i) <==> (without_end(
            s[i].1.api_url@,
            '/',
        ) == without_end(url, '/') && forall|j: int|
            0 <= j < s.len() && j != i ==> without_end((#[trigger] s[j]).1.api_url@, '/')
                != without_end(url, '/')),
{
    reveal_strlit("org_");
    reveal_strlit("http://");
    reveal_strlit("https://");
    assert(!has_prefix(url, "org_"@)) by {
        if has_prefix(url, "org_"@) {
            assert(url.take("org_"@.len() as int)[0] == 'o');
            if has_prefix(url, "http://"@) {
                assert(url.take("http://"@.len() as int)[0] == 'h');
            } else {
                assert(url.take("https://"@.len() as int)[0] == 'h');
            }
        }
    }
    position_in_bounds(s, url);
    let p = pinned(PinKind::Url, without_end(url, '/'));
    lemma_single_hit(s, p, i);
    assert(forall|j: int|
        0 <= j < s.len() ==> (p(#[trigger] s[j]) <==> without_end(s[j].1.api_url@, '/')
            == without_end(url, '/')));
}

/// Any other pin picks the console of the org of that name, where one and only
/// one has it; case and punctuation do not count.
pub proof fn an_org_picks_its_console(
    s: Seq<(Seq<char>, RemoteConfig)>,
    default: Option<Seq<char>>,
    pin: Seq<char>,
    i: int,
)
    requires
        0 <= i < s.len(),
        !has_prefix(pin, "org_"@),
        !has_prefix(pin, "http://"@),
        !has_prefix(pin, "https://"@),
        forall|j: int| 0 <= j < s.len() ==> (#[trigger] s[j]).0 != pin,
    ensures
        remote_choice(s, default, Some(pin)) == Ok::<int, Seq<char>>(i) <==> (s[i].1.org is Some
            && normalized(s[i].1.org->0@) == normalized(pin) && forall|j: int|
            0 <= j < s.len() && j != i && (#[trigger] s[j]).1.org is Some ==> normalized(
                s[j].1.org->0@,
            ) != normalized(pin)),
{
    position_in_bounds(s, pin);
    let p = pinned(PinKind::Org, normalized(pin));
    lemma_single_hit(s, p, i);
    assert(forall|j: int|
        0 <= j < s.len() ==> (p(#[trigger] s[j]) <==> s[j].1.org is Some && normalized(
            s[j].1.org->0@,
        ) == normalized(pin)));
}

/// Where no console is named the default is chosen where it is configured, and
/// nothing in its place where it is not; without a default the only console is
/// chosen, and none where there are several or none at all.
pub proof fn the_default_console_counts(
    s: Seq<(Seq<char>, RemoteConfig)>,
    i: int,
    unknown: Seq<char>,
    name: Seq<char>,
)
    requires
        ordered(s),
        forall|k: int| 0 <= k < s.len() ==> (#[trigger] s[k]).0 != unknown,
    ensures
        0 <= i < s.len() ==> remote_choice(s, Some(s[i].0), None) == Ok::<int, Seq<char>>(i),
        remote_choice(s, Some(unknown), None) is Err,
        s.len() == 1 ==> remote_choice(s, None, None) == Ok::<int, Seq<char>>(0),
        s.len() != 1 ==> remote_choice(s, None, None) is Err,
        s.len() == 0 ==> remote_choice(s, None, Some(name)) is Err,
{
    if 0 <= i < s.len() {
        position_is_unique(s, i);
    }
    position_in_bounds(s, unknown);
    position_in_bounds(s, name);
}

/// The key of an org name is put together from its characters one by one:
/// letters and digits, in lower case, and nothing else.
pub proof fn a_key_is_letters_and_digits(s: Seq<char>, c: char)
    ensures
        'a' <= c <= 'z' || '0' <= c <= '9' ==> normalized(s.push(c)) == normalized(s).push(c),
        'A' <= c <= 'Z' ==> normalized(s.push(c)) == normalized(s).push((c as int + 32) as char),
        !('a' <= c <= 'z' || '0' <= c <= '9' || 'A' <= c <= 'Z') ==> normalized(s.push(c))
            == normalized(s),
        normalized(Seq::empty()).len() == 0,
{
    assert(s.push(c).drop_last() =~= s);
}

/// ssh connects to the host that the machine has for a server, as the user it
/// has for it where it has one, and to the server's own name where it has none.
pub proof fn a_server_is_reached_at_its_host(
    servers: Seq<(Seq<char>, ServerConfig)>,
    i: int,
    unknown: Seq<char>,
)
    requires
        ordered(servers),
        forall|k: int| 0 <= k < servers.len() ==> (#[trigger] servers[k]).0 != unknown,
    ensures
        0 <= i < servers.len() && servers[i].1.user is Some ==> ssh_target_of(servers, servers[i].0)
            == servers[i].1.user->0@ + "@"@ + servers[i].1.host@,
        0 <= i < servers.len() && servers[i].1.user is None ==> ssh_target_of(servers, servers[i].0)
            == servers[i].1.host@,
        ssh_target_of(servers, unknown) == unknown,
{
    if 0 <= i < servers.len() {
        position_is_unique(servers, i);
    }
    position_in_bounds(servers, unknown);
}

/// A token in the environment goes before the one in the file, unless it is
/// empty.
pub proof fn the_environments_token_goes_first(gateway: GatewayConfig, token: Seq<char>)
    ensures
        token.len() > 0 ==> gateway.token_with(Some(token)) == Some(token),
        token.len() == 0 && gateway.token is Some ==> gateway.token_with(Some(token)) == Some(
            gateway.token->0@,
        ),
        gateway.token is Some ==> gateway.token_with(None) == Some(gateway.token->0@),
        gateway.token is None ==> gateway.token_with(None) is None,
        token.len() == 0 && gateway.token is None ==> gateway.token_with(Some(token)) is None,
{
}

/// A path is looked up under a directory with one slash between them, unless it
/// is a path of its own.
pub proof fn paths_are_joined_by_one_slash(dir: Seq<char>, name: Seq<char>)
    requires
        name.len() == 0 || name[0] != '/',
        dir.len() > 0,
        dir.last() != '/',
    ensures
        path_under(dir, name) == dir + "/"@ + name,
        path_under(dir + "/"@, name) == dir + "/"@ + name,
        path_under(dir, "/"@ + name) == "/"@ + name,
        path_under(Seq::empty(), name) == name,
{
    reveal_strlit("/");
    assert((dir + "/"@).last() == '/');
    assert(("/"@ + name)[0] == '/');
    assert(Seq::<char>::empty() + name =~= name);
}

/// The configuration is in the directory that is given, unless that is empty,
/// and else in the usual place under the user's home.
pub proof fn where_the_configuration_is(given: Seq<char>, home: Seq<char>)
    requires
        home.len() > 0,
        home.last() != '/',
    ensures
        given.len() > 0 ==> config_dir(Some(given), Some(home)) == given,
        given.len() == 0 ==> config_dir(Some(given), Some(home)) == home + "/"@ + ".config/aoraki"@,
        config_dir(None, Some(home)) == home + "/"@ + ".config/aoraki"@,
        ConfigFile::Aoraki.name_text() == "aoraki.toml"@,
        ConfigFile::Manifest.name_text() == "manifest.toml"@,
{
    reveal_strlit(".config/aoraki");
    paths_are_joined_by_one_slash(home, ".config/aoraki"@);
}

} // verus!
