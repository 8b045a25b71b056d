//! `aoraki login`: a key is pasted, checked, and kept for a console.
//!
//! A console stands for an org on this machine, so a new one without a given
//! name is named after the org that the key belongs to.

use crate::config::{normalized, unnamed_remote, GlobalConfig};
use crate::failure::{fail, Failure};
use crate::names::{lookup, ordered, position, position_in_bounds, position_is_unique};
use crate::reports::Identity;
use crate::text::{
    alphanumeric, before, begins_and_ends_as_put_together, blanks_at_the_ends_go, chars_of,
    ends_are_taken_off, find, first_index, first_match, has_prefix, is_alphanumeric, is_blank,
    lower, lower_char, opt, same, split_at_the_first, starts_with, trim, trim_end_char, trimmed,
    views, what_is_blank, without_end,
};
use vstd::prelude::*;
use vstd::string::*;

verus! {

/// The customer console.
pub const MAINNET_API_URL: &'static str = "https://aoraki.cloud/api/v1";

// ---------------------------------------------------------------------
// Which console
// ---------------------------------------------------------------------

/// The console to log in to. Its name may stay open until the org is known.
pub struct LoginTarget {
    pub name: Option<String>,
    pub api_url: String,
    /// The console is configured under that name already.
    pub is_existing: bool,
    /// No URL was given, and the console is new: it is the customer console.
    pub defaulted: bool,
}

/// The console to log in to, in views: name, URL, existing, defaulted.
pub struct LoginView {
    pub name: Option<Seq<char>>,
    pub api_url: Seq<char>,
    pub is_existing: bool,
    pub defaulted: bool,
}

impl View for LoginTarget {
    type V = LoginView;

    open spec fn view(&self) -> LoginView {
        LoginView {
            name: opt(self.name),
            api_url: self.api_url@,
            is_existing: self.is_existing,
            defaulted: self.defaulted,
        }
    }
}

/// The console to log in to. A URL that is given always counts. Without one, a
/// name that is configured keeps its URL and a new name means the customer
/// console. Without either, the default or only console is logged in to again;
/// on a fresh machine a new one at the customer console is made.
pub open spec fn login_choice(
    global: GlobalConfig,
    remote: Option<Seq<char>>,
    url: Option<Seq<char>>,
) -> Result<LoginView, Seq<char>> {
    let s = global.remotes@;
    match (remote, url) {
        (_, Some(url)) => Ok(
            LoginView {
                name: remote,
                api_url: without_end(url, '/'),
                is_existing: remote is Some && position(s, remote->0) is Some,
                defaulted: false,
            },
        ),
        (Some(name), None) => match lookup(s, name) {
            Some(found) => Ok(
                LoginView {
                    name: Some(name),
                    api_url: found.api_url@,
                    is_existing: true,
                    defaulted: false,
                },
            ),
            None => Ok(
                LoginView {
                    name: Some(name),
                    api_url: MAINNET_API_URL@,
                    is_existing: false,
                    defaulted: true,
                },
            ),
        },
        (None, None) => if s.len() == 0 {
            Ok(
                LoginView {
                    name: None,
                    api_url: MAINNET_API_URL@,
                    is_existing: false,
                    defaulted: true,
                },
            )
        } else {
            match unnamed_remote(s, opt(global.defaults.remote)) {
                Ok(i) => Ok(
                    LoginView {
                        name: Some(s[i].0),
                        api_url: s[i].1.api_url@,
                        is_existing: true,
                        defaulted: false,
                    },
                ),
                Err(text) => Err(text),
            }
        },
    }
}

/// The console to log in to.
pub fn login_target(global: &GlobalConfig, remote: Option<String>, url: Option<String>) -> (r: Result<
    LoginTarget,
    Failure,
>)
    ensures
        match (r, login_choice(*global, opt(remote), opt(url))) {
            (Ok(target), Ok(view)) => target@ == view,
            (Err(failure), Err(text)) => failure@ == text,
            _ => false,
        },
{
    match (remote, url) {
        (remote, Some(url)) => {
            let is_existing = match &remote {
                Some(name) => global.remotes.contains_key(name.as_str()),
                None => false,
            };
            Ok(
                LoginTarget {
                    name: remote,
                    api_url: trim_end_char(url.as_str(), '/').to_string(),
                    is_existing,
                    defaulted: false,
                },
            )
        },
        (Some(name), None) => match global.remotes.get(name.as_str()) {
            Some(found) => {
                let api_url = found.api_url.clone();
                Ok(LoginTarget { name: Some(name), api_url, is_existing: true, defaulted: false })
            },
            None => Ok(
                LoginTarget {
                    name: Some(name),
                    api_url: MAINNET_API_URL.to_string(),
                    is_existing: false,
                    defaulted: true,
                },
            ),
        },
        (None, None) => if global.remotes.is_empty() {
            Ok(
                LoginTarget {
                    name: None,
                    api_url: MAINNET_API_URL.to_string(),
                    is_existing: false,
                    defaulted: true,
                },
            )
        } else {
            match global.resolve_remote(None) {
                Ok((name, found)) => Ok(
                    LoginTarget {
                        name: Some(name.to_string()),
                        api_url: found.api_url.clone(),
                        is_existing: true,
                        defaulted: false,
                    },
                ),
                Err(failure) => Err(failure),
            }
        },
    }
}

/// The origin of a console's URL: all before its path.
pub open spec fn origin_of(url: Seq<char>) -> Seq<char> {
    match first_match(url, "://"@) {
        Some(i) => {
            let host = i + "://"@.len();
            let rest = url.skip(host);
            if first_index(rest, '/') < rest.len() {
                url.take(host + first_index(rest, '/'))
            } else {
                without_end(url, '/')
            }
        },
        None => without_end(url, '/'),
    }
}

/// The origin of a console's URL.
pub fn console_base(api_url: &str) -> (r: String)
    ensures
        r@ == origin_of(api_url@),
{
    if let Some(i) = find(api_url, "://") {
        let n: usize = api_url.unicode_len();
        let k: usize = "://".unicode_len();
        let host: usize = i + k;
        let rest = api_url.substring_char(host, n);
        let head = before(rest, '/');
        let m: usize = head.unicode_len();
        proof {
            assert(rest@ =~= api_url@.skip(host as int));
            crate::text::first_index_is_a_place(rest@, '/');
        }
        if m < n - host {
            proof {
                assert(api_url@.subrange(0, host + m) =~= api_url@.take(host + m));
            }
            return api_url.substring_char(0, host + m).to_string();
        }
    }
    trim_end_char(api_url, '/').to_string()
}

/// The lines before the key is asked for, and the page where keys are made.
pub open spec fn intro_text(target: LoginView) -> Seq<Seq<char>> {
    let first = match target.name {
        Some(name) => "Log in to '"@ + name + "' ("@ + target.api_url + ")"@,
        None => "Log in to "@ + target.api_url + " (remote will be named after your org)"@,
    };
    let last = "Create a CLI key in the console: "@ + origin_of(target.api_url) + "/cli"@;
    if target.defaulted {
        seq![
            first,
            "  (mainnet console — use --url for testnet or another Aoraki)"@,
            last,
        ]
    } else {
        seq![first, last]
    }
}

/// The page where keys are made.
pub fn tokens_page(target: &LoginTarget) -> (r: String)
    ensures
        r@ == origin_of(target.api_url@) + "/cli"@,
{
    console_base(target.api_url.as_str()).concat("/cli")
}

/// The lines before the key is asked for.
pub fn intro(target: &LoginTarget) -> (r: Vec<String>)
    ensures
        views(r@) == intro_text(target@),
{
    let first = match &target.name {
        Some(name) => "Log in to '".to_string().concat(name.as_str()).concat("' (").concat(
            target.api_url.as_str(),
        ).concat(")"),
        None => "Log in to ".to_string().concat(target.api_url.as_str()).concat(
            " (remote will be named after your org)",
        ),
    };
    let last = "Create a CLI key in the console: ".to_string().concat(
        console_base(target.api_url.as_str()).as_str(),
    ).concat("/cli");
    let mut out: Vec<String> = Vec::new();
    out.push(first);
    if target.defaulted {
        out.push("  (mainnet console — use --url for testnet or another Aoraki)".to_string());
    }
    out.push(last);
    proof {
        assert(views(out@) =~= intro_text(target@));
    }
    out
}

// ---------------------------------------------------------------------
// The key
// ---------------------------------------------------------------------

/// The key in what the user pasted, or what is said where it is none.
pub open spec fn pasted_key(input: Seq<char>) -> Result<Seq<char>, Seq<char>> {
    let key = trimmed(input);
    if key.len() == 0 {
        Err("no key entered"@)
    } else if !has_prefix(key, "cli_"@) {
        Err("that doesn't look like a CLI key (they start with cli_)"@)
    } else {
        Ok(key)
    }
}

/// The key in what the user pasted.
pub fn check_key(input: &str) -> (r: Result<String, Failure>)
    ensures
        match (r, pasted_key(input@)) {
            (Ok(key), Ok(text)) => key@ == text,
            (Err(failure), Err(text)) => failure@ == text,
            _ => false,
        },
{
    let key = trim(input);
    if key.unicode_len() == 0 {
        Err(fail("no key entered".to_string()))
    } else if !starts_with(key, "cli_") {
        Err(fail("that doesn't look like a CLI key (they start with cli_)".to_string()))
    } else {
        Ok(key.to_string())
    }
}

// ---------------------------------------------------------------------
// The name
// ---------------------------------------------------------------------

/// An org's name as a name, before its end is cleaned up: letters and digits
/// in lower case, and one hyphen for each row of anything else between them.
pub open spec fn raw_slug(s: Seq<char>) -> Seq<char>
    decreases s.len(),
{
    if s.len() == 0 {
        Seq::empty()
    } else {
        let out = raw_slug(s.drop_last());
        if is_alphanumeric(s.last()) {
            out.push(lower(s.last()))
        } else if out.len() > 0 && out.last() != '-' {
            out.push('-')
        } else {
            out
        }
    }
}

/// An org's name as the name of a console.
pub open spec fn slug(org: Seq<char>) -> Seq<char> {
    let s = without_end(raw_slug(org), '-');
    if s.len() == 0 {
        "default"@
    } else {
        s
    }
}

/// An org's name as the name of a console: "Sarson Funds" becomes
/// "sarson-funds".
pub fn slugify(org: &str) -> (r: String)
    ensures
        r@ == slug(org@),
{
    let v = chars_of(org);
    let mut out = String::new();
    let mut last_hyphen = false;
    let mut i: usize = 0;
    while i < v.len()
        invariant
            i <= v.len(),
            v@ == org@,
            out@ == raw_slug(org@.take(i as int)),
            last_hyphen == (out@.len() > 0 && out@.last() == '-'),
        decreases v.len() - i,
    {
        proof {
            assert(org@.take(i + 1).drop_last() =~= org@.take(i as int));
        }
        let c = v[i];
        if alphanumeric(c) {
            out.push(lower_char(c));
            last_hyphen = false;
        } else if !last_hyphen && out.as_str().unicode_len() > 0 {
            out.push('-');
            last_hyphen = true;
        }
        i = i + 1;
    }
    proof {
        assert(org@.take(i as int) =~= org@);
    }
    let s = trim_end_char(out.as_str(), '-');
    if s.unicode_len() == 0 {
        "default".to_string()
    } else {
        s.to_string()
    }
}

/// A character that a name may have.
pub open spec fn is_slug_char(c: char) -> bool {
    'a' <= c <= 'z' || '0' <= c <= '9' || c == '-'
}

/// A name made of letters in lower case, digits, and single hyphens that do
/// not begin it.
pub open spec fn slug_shaped(s: Seq<char>) -> bool {
    &&& forall|i: int| 0 <= i < s.len() ==> is_slug_char(#[trigger] s[i])
    &&& s.len() > 0 ==> s[0] != '-'
    &&& forall|i: int|
        0 <= i < s.len() - 1 ==> !(#[trigger] s[i] == '-' && s[i + 1] == '-')
}

proof fn lemma_raw_slug_shape(s: Seq<char>)
    ensures
        slug_shaped(raw_slug(s)),
        normalized(raw_slug(s)) == normalized(s),
    decreases s.len(),
{
    if s.len() > 0 {
        let t = s.drop_last();
        lemma_raw_slug_shape(t);
        let before = raw_slug(t);
        let after = raw_slug(s);
        if after.len() > before.len() {
            assert(after.drop_last() =~= before);
            assert forall|i: int| 0 <= i < after.len() - 1 implies !(#[trigger] after[i] == '-'
                && after[i + 1] == '-') by {
                assert(after[i] == before[i]);
                if i + 1 < before.len() {
                    assert(after[i + 1] == before[i + 1]);
                }
            }
        }
    }
}

proof fn lemma_cut_keeps_shape(s: Seq<char>)
    requires
        slug_shaped(s),
    ensures
        slug_shaped(without_end(s, '-')),
        normalized(without_end(s, '-')) == normalized(s),
        without_end(s, '-').len() > 0 ==> without_end(s, '-').last() != '-',
    decreases s.len(),
{
    if s.len() > 0 && s.last() == '-' {
        lemma_cut_keeps_shape(s.drop_last());
    }
}

proof fn lemma_shaped_is_its_own_slug(s: Seq<char>)
    requires
        slug_shaped(s),
    ensures
        raw_slug(s) == s,
    decreases s.len(),
{
    if s.len() > 0 {
        let t = s.drop_last();
        assert forall|i: int| 0 <= i < t.len() - 1 implies !(#[trigger] t[i] == '-' && t[i + 1]
            == '-') by {
            assert(t[i] == s[i]);
            assert(t[i + 1] == s[i + 1]);
        }
        lemma_shaped_is_its_own_slug(t);
        assert(t.push(s.last()) =~= s);
        assert(is_slug_char(s[s.len() - 1]));
        if s.last() == '-' {
            assert(t.len() > 0);
            assert(s[t.len() - 1] == t.last());
            assert(s[t.len() - 1 + 1] == '-');
            assert(!(s[t.len() - 1] == '-' && s[t.len() as int] == '-'));
        }
    } else {
        assert(raw_slug(s) =~= s);
    }
}

proof fn lemma_default_is_shaped()
    ensures
        slug_shaped("default"@),
        "default"@.len() > 0,
        "default"@.last() != '-',
{
    reveal_strlit("default");
}

/// The name of a console that is made from an org's name is never empty. It is
/// made of letters in lower case, digits and hyphens, and neither begins nor
/// ends with a hyphen nor has two of them together.
pub proof fn slugs_are_clean(org: Seq<char>)
    ensures
        slug(org).len() > 0,
        slug_shaped(slug(org)),
        slug(org).last() != '-',
{
    lemma_raw_slug_shape(org);
    lemma_cut_keeps_shape(raw_slug(org));
    lemma_default_is_shaped();
}

/// Making a name of a name changes nothing.
pub proof fn slug_of_a_slug(org: Seq<char>)
    ensures
        slug(slug(org)) == slug(org),
{
    slugs_are_clean(org);
    lemma_shaped_is_its_own_slug(slug(org));
}

/// The name that is made from an org's name still names the org, by the key by
/// which org names are compared, where the org's name has a letter or a digit.
pub proof fn slug_names_the_org(org: Seq<char>)
    requires
        normalized(org).len() > 0,
    ensures
        normalized(slug(org)) == normalized(org),
{
    lemma_raw_slug_shape(org);
    lemma_cut_keeps_shape(raw_slug(org));
    if without_end(raw_slug(org), '-').len() == 0 {
        assert(normalized(without_end(raw_slug(org), '-')) =~= Seq::<char>::empty());
    }
}

/// The name of the console that is logged in to: the one that was settled,
/// else one made from the org's name. The latter is refused where it already
/// stands for another console.
pub open spec fn remote_name_choice(
    global: GlobalConfig,
    target: LoginView,
    org: Seq<char>,
) -> Result<Seq<char>, Seq<char>> {
    match target.name {
        Some(name) => Ok(name),
        None => {
            let derived = slug(org);
            match lookup(global.remotes@, derived) {
                Some(found) => if found.api_url@ != target.api_url && !target.is_existing {
                    Err(
                        "a remote named '"@ + derived + "' already exists for "@ + found.api_url@
                            + " — run `aoraki login <name> --url "@ + target.api_url
                            + "` to pick a name"@,
                    )
                } else {
                    Ok(derived)
                },
                None => Ok(derived),
            }
        },
    }
}

/// The name of the console that is logged in to.
pub fn remote_name(global: &GlobalConfig, target: &LoginTarget, org: &str) -> (r: Result<
    String,
    Failure,
>)
    ensures
        match (r, remote_name_choice(*global, target@, org@)) {
            (Ok(name), Ok(text)) => name@ == text,
            (Err(failure), Err(text)) => failure@ == text,
            _ => false,
        },
{
    if let Some(name) = &target.name {
        return Ok(name.clone());
    }
    let derived = slugify(org);
    if let Some(found) = global.remotes.get(derived.as_str()) {
        if !same(found.api_url.as_str(), target.api_url.as_str()) && !target.is_existing {
            return Err(
                fail(
                    "a remote named '".to_string().concat(derived.as_str()).concat(
                        "' already exists for ",
                    ).concat(found.api_url.as_str()).concat(
                        " — run `aoraki login <name> --url ",
                    ).concat(target.api_url.as_str()).concat("` to pick a name"),
                ),
            );
        }
    }
    Ok(derived)
}

/// A login that names no console never takes over the name of another one:
/// where the name made from the org stands for a different URL, it is refused.
pub proof fn login_takes_over_no_console(global: GlobalConfig, target: LoginView, org: Seq<char>)
    requires
        target.name is None,
        !target.is_existing,
        remote_name_choice(global, target, org) is Ok,
    ensures
        lookup(global.remotes@, remote_name_choice(global, target, org)->Ok_0) matches Some(found)
            ==> found.api_url@ == target.api_url,
{
}

/// The day of a point in time: what stands before its `T`.
pub open spec fn day_of(time: Seq<char>) -> Seq<char> {
    time.take(first_index(time, 'T'))
}

/// The day of a point in time.
pub fn day(time: &str) -> (r: &str)
    ensures
        r@ == day_of(time@),
{
    before(time, 'T')
}

/// Who a key belongs to, as it is told: the user, or "you".
pub open spec fn user_of(identity: Identity) -> Seq<char> {
    match identity.user {
        Some(user) => user@,
        None => "you"@,
    }
}

/// The lines after a login.
pub fn logged_in(name: &str, identity: &Identity) -> (r: Vec<String>)
    ensures
        views(r@) == seq![
            "✓ logged in to '"@ + name@ + "' as "@ + user_of(*identity) + " (org: "@ + identity.org@
                + ", key: "@ + identity.token_name@ + ")"@,
            "  valid until "@ + day_of(identity.expires_at@)
                + " if unused — every CLI call extends it 90 days"@,
        ],
{
    let user = match &identity.user {
        Some(user) => user.as_str(),
        None => "you",
    };
    let first = "✓ logged in to '".to_string().concat(name).concat("' as ").concat(user).concat(
        " (org: ",
    ).concat(identity.org.as_str()).concat(", key: ").concat(identity.token_name.as_str()).concat(
        ")",
    );
    let second = "  valid until ".to_string().concat(day(identity.expires_at.as_str())).concat(
        " if unused — every CLI call extends it 90 days",
    );
    let ghost a = first@;
    let ghost b = second@;
    let mut out: Vec<String> = Vec::new();
    out.push(first);
    out.push(second);
    proof {
        assert(views(out@) =~= seq![a, b]);
    }
    out
}

// ---------------------------------------------------------------------
// Laws of a login
// ---------------------------------------------------------------------

/// A URL that is given is the one that is logged in to, without the slashes at
/// its end; the console is known exactly where its name is.
pub proof fn a_given_url_counts(
    global: GlobalConfig,
    remote: Option<Seq<char>>,
    url: Seq<char>,
    i: int,
    unknown: Seq<char>,
)
    requires
        ordered(global.remotes@),
        forall|k: int| 0 <= k < global.remotes@.len() ==> (#[trigger] global.remotes@[k]).0 != unknown,
    ensures
        login_choice(global, remote, Some(url)) matches Ok(target) && target.api_url
            == without_end(url, '/') && target.name == remote && !target.defaulted,
        0 <= i < global.remotes@.len() ==> login_choice(
            global,
            Some(global.remotes@[i].0),
            Some(url),
        )->Ok_0.is_existing,
        !login_choice(global, Some(unknown), Some(url))->Ok_0.is_existing,
        !login_choice(global, None, Some(url))->Ok_0.is_existing,
{
    if 0 <= i < global.remotes@.len() {
        position_is_unique(global.remotes@, i);
    }
    position_in_bounds(global.remotes@, unknown);
}

/// Without a URL a console that is known is logged in to where it is, and a new
/// name means the customer console.
pub proof fn a_known_console_keeps_its_url(global: GlobalConfig, i: int, unknown: Seq<char>)
    requires
        ordered(global.remotes@),
        forall|k: int| 0 <= k < global.remotes@.len() ==> (#[trigger] global.remotes@[k]).0 != unknown,
    ensures
        0 <= i < global.remotes@.len() ==> (login_choice(global, Some(global.remotes@[i].0), None)
            matches Ok(target) && target.api_url == global.remotes@[i].1.api_url@ && target.name
            == Some(global.remotes@[i].0) && target.is_existing && !target.defaulted),
        login_choice(global, Some(unknown), None) matches Ok(target) && target.api_url
            == "https://aoraki.cloud/api/v1"@ && target.name == Some(unknown)
            && !target.is_existing && target.defaulted,
{
    if 0 <= i < global.remotes@.len() {
        position_is_unique(global.remotes@, i);
    }
    position_in_bounds(global.remotes@, unknown);
}

/// Without a name and without a URL the default console is logged in to, or
/// else the only one; on a machine that knows none, a new one at the customer
/// console; and where several are known without a default, none.
pub proof fn a_bare_login_picks_the_usual_console(global: GlobalConfig, i: int)
    requires
        ordered(global.remotes@),
    ensures
        global.remotes@.len() == 0 ==> (login_choice(global, None, None) matches Ok(target)
            && target.api_url == "https://aoraki.cloud/api/v1"@ && target.name is None
            && !target.is_existing && target.defaulted),
        0 <= i < global.remotes@.len() && (global.remotes@.len() == 1
            && global.defaults.remote is None || global.defaults.remote is Some
            && global.defaults.remote->0@ == global.remotes@[i].0) ==> (login_choice(
            global,
            None,
            None,
        ) matches Ok(target) && target.api_url == global.remotes@[i].1.api_url@ && target.name
            == Some(global.remotes@[i].0) && target.is_existing && !target.defaulted),
        global.remotes@.len() > 1 && global.defaults.remote is None ==> login_choice(
            global,
            None,
            None,
        ) is Err,
{
    if 0 <= i < global.remotes@.len() {
        position_is_unique(global.remotes@, i);
    }
}

/// The origin of a URL is its scheme and its host: what follows the slash
/// behind the host is no part of it.
pub proof fn the_origin_is_scheme_and_host(scheme: Seq<char>, host: Seq<char>, path: Seq<char>)
    requires
        !scheme.contains(':'),
        !host.contains('/'),
    ensures
        origin_of(scheme + "://"@ + host + "/"@ + path) == scheme + "://"@ + host,
        host.len() > 0 ==> origin_of(scheme + "://"@ + host) == scheme + "://"@ + host,
{
    reveal_strlit("://");
    reveal_strlit("/");
    let sep = "://"@;
    let base = scheme + sep + host;
    let url = base + "/"@ + path;
    let rest = host + "/"@ + path;
    assert(url =~= scheme + (sep + rest));
    assert(base =~= scheme + (sep + host));
    lemma_scheme_ends(scheme, rest);
    lemma_scheme_ends(scheme, host);
    let k = scheme.len() + sep.len();
    assert(url.skip(k as int) =~= rest);
    assert(base.skip(k as int) =~= host);
    assert("/"@ =~= seq!['/']);
    split_at_the_first(host, '/', path);
    assert(url.take((k + host.len()) as int) =~= base);
    if host.len() > 0 {
        assert(base.last() == host.last());
        assert(host.contains(host[host.len() - 1]));
        ends_are_taken_off(base, '/');
    }
}

proof fn lemma_scheme_ends(scheme: Seq<char>, rest: Seq<char>)
    requires
        !scheme.contains(':'),
    ensures
        first_match(scheme + ("://"@ + rest), "://"@) == Some(scheme.len() as int),
    decreases scheme.len(),
{
    reveal_strlit("://");
    let p = "://"@;
    let s = scheme + (p + rest);
    if scheme.len() == 0 {
        assert(s.take(p.len() as int) =~= p);
    } else {
        assert(s[0] == scheme[0]);
        assert(scheme.contains(scheme[0]));
        if has_prefix(s, p) {
            assert(s.take(p.len() as int)[0] == ':');
        }
        let tail = scheme.skip(1);
        assert(s.skip(1) =~= tail + (p + rest));
        assert(!tail.contains(':')) by {
            if tail.contains(':') {
                let j = choose|j: int| 0 <= j < tail.len() && tail[j] == ':';
                assert(scheme[j + 1] == ':');
            }
        }
        lemma_scheme_ends(tail, rest);
    }
}

/// A key is taken as it is, without the blanks around it, exactly where it
/// begins as keys do.
pub proof fn a_key_is_taken_as_it_is(before: Seq<char>, rest: Seq<char>, after: Seq<char>, input: Seq<char>)
    requires
        forall|i: int| 0 <= i < before.len() ==> is_blank(#[trigger] before[i]),
        forall|i: int| 0 <= i < after.len() ==> is_blank(#[trigger] after[i]),
        rest.len() > 0 ==> !is_blank(rest.last()),
    ensures
        pasted_key(before + ("cli_"@ + rest) + after) == Ok::<Seq<char>, Seq<char>>(
            "cli_"@ + rest,
        ),
        !has_prefix(trimmed(input), "cli_"@) ==> pasted_key(input) is Err,
        trimmed(input).len() == 0 ==> pasted_key(input) == Err::<Seq<char>, Seq<char>>(
            "no key entered"@,
        ),
{
    reveal_strlit("cli_");
    let key = "cli_"@ + rest;
    assert(key[0] == 'c');
    what_is_blank('c');
    what_is_blank('_');
    if rest.len() > 0 {
        assert(key.last() == rest.last());
    } else {
        assert(key.last() == '_');
    }
    blanks_at_the_ends_go(before, key, after);
    begins_and_ends_as_put_together("cli_"@, rest);
}

/// The name that was settled is kept; else the console is named after the org,
/// unless that name stands for a console at another URL.
pub proof fn a_console_is_named_after_its_org(
    global: GlobalConfig,
    target: LoginView,
    org: Seq<char>,
    i: int,
)
    requires
        ordered(global.remotes@),
        !target.is_existing,
    ensures
        target.name is Some ==> remote_name_choice(global, target, org) == Ok::<
            Seq<char>,
            Seq<char>,
        >(target.name->0),
        target.name is None && (forall|k: int|
            0 <= k < global.remotes@.len() ==> (#[trigger] global.remotes@[k]).0 != slug(org))
            ==> remote_name_choice(global, target, org) == Ok::<Seq<char>, Seq<char>>(slug(org)),
        target.name is None && 0 <= i < global.remotes@.len() && global.remotes@[i].0 == slug(org)
            && global.remotes@[i].1.api_url@ == target.api_url ==> remote_name_choice(
            global,
            target,
            org,
        ) == Ok::<Seq<char>, Seq<char>>(slug(org)),
        target.name is None && 0 <= i < global.remotes@.len() && global.remotes@[i].0 == slug(org)
            && global.remotes@[i].1.api_url@ != target.api_url ==> remote_name_choice(
            global,
            target,
            org,
        ) is Err,
{
    if 0 <= i < global.remotes@.len() {
        position_is_unique(global.remotes@, i);
    }
    position_in_bounds(global.remotes@, slug(org));
}

/// The day of a moment is what stands before its `T`, and a key belongs to its
/// user, or else to whoever asks.
pub proof fn what_is_told_of_a_key(day: Seq<char>, time: Seq<char>, identity: Identity)
    requires
        !day.contains('T'),
    ensures
        day_of(day + seq!['T'] + time) == day,
        day_of(day) == day,
        identity.user is Some ==> user_of(identity) == identity.user->0@,
        identity.user is None ==> user_of(identity) == "you"@,
{
    split_at_the_first(day, 'T', time);
    assert((day + seq!['T'] + time).take(day.len() as int) =~= day);
    assert(day.take(day.len() as int) =~= day);
}

/// Before a key is asked for it is told where the login goes, and where keys
/// are made: at the origin of that console.
pub proof fn it_is_told_where_keys_are_made(target: LoginView)
    ensures
        ({
            let lines = intro_text(target);
            &&& lines.len() == (if target.defaulted {
                3
            } else {
                2int
            })
            &&& lines.last() == "Create a CLI key in the console: "@ + origin_of(target.api_url)
                + "/cli"@
            &&& target.name is Some ==> lines[0] == "Log in to '"@ + target.name->0 + "' ("@
                + target.api_url + ")"@
            &&& target.name is None ==> has_prefix(lines[0], "Log in to "@ + target.api_url)
        }),
{
    begins_and_ends_as_put_together(
        "Log in to "@ + target.api_url,
        " (remote will be named after your org)"@,
    );
}

} // verus!
