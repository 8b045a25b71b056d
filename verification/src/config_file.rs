//! Edits of the configuration files, as functions from text to text.
//!
//! `config.toml` holds a section `[remotes.<name>]` for each console and, in
//! `[defaults]`, the console that is used where none is named. A repo's
//! `aoraki.toml` may pin a console in each of its environments.

use crate::document::{
    at, beside, closed_with, closing_of, comments_in, comments_meet, comments_of,
    document_comments, document_of, entries_of, entry_or_table, error_text, implicit_of, item_comments, item_sound,
    keys_of, node_of, parse_document, quotable, render, root_of, set_text, table_sound, under, written_of,
    Node,
};
use crate::failure::{fail, Failure};
use crate::text::{has_prefix, opt_str, views};
use toml_edit::{DocumentMut, Item, Table};
use vstd::multiset::Multiset;
use vstd::prelude::*;
use vstd::string::*;

verus! {

// ---------------------------------------------------------------------
// What an edit does to the map that a file writes
// ---------------------------------------------------------------------

/// The section under a key: empty where nothing stands there, none where
/// something else does.
pub open spec fn section(m: Map<Seq<char>, Node>, key: Seq<char>) -> Option<Map<Seq<char>, Node>> {
    if m.contains_key(key) {
        match m[key] {
            Node::Section(entries) => Some(entries),
            _ => None,
        }
    } else {
        Some(Map::empty())
    }
}

/// A section with a string under a key, where one is given.
pub open spec fn with_text(
    m: Map<Seq<char>, Node>,
    key: Seq<char>,
    value: Option<Seq<char>>,
) -> Map<Seq<char>, Node> {
    match value {
        Some(text) => m.insert(key, Node::Text(text)),
        None => m,
    }
}

/// A console's section with the given URL, token, org and org id. A token
/// that is not given is removed; an org or an id that is not given stays.
pub open spec fn remote_entry(
    m: Map<Seq<char>, Node>,
    api_url: Seq<char>,
    token: Option<Seq<char>>,
    org: Option<Seq<char>>,
    org_id: Option<Seq<char>>,
) -> Map<Seq<char>, Node> {
    let with_url = m.insert("api_url"@, Node::Text(api_url));
    let with_token = match token {
        Some(text) => with_url.insert("token"@, Node::Text(text)),
        None => with_url.remove("token"@),
    };
    with_text(with_text(with_token, "org"@, org), "org_id"@, org_id)
}

/// The file's map with a console's section written, before the default is
/// looked at; what is said where the file is not made so.
pub open spec fn with_remote_entry(
    m: Map<Seq<char>, Node>,
    name: Seq<char>,
    api_url: Seq<char>,
    token: Option<Seq<char>>,
    org: Option<Seq<char>>,
    org_id: Option<Seq<char>>,
) -> Result<Map<Seq<char>, Node>, Seq<char>> {
    match section(m, "remotes"@) {
        None => Err("[remotes] in config.toml is not a table"@),
        Some(remotes) => match section(remotes, name) {
            None => Err("[remotes."@ + name + "] in config.toml is not a table"@),
            Some(entry) => Ok(
                m.insert(
                    "remotes"@,
                    Node::Section(
                        remotes.insert(
                            name,
                            Node::Section(remote_entry(entry, api_url, token, org, org_id)),
                        ),
                    ),
                ),
            ),
        },
    }
}

/// The file's map with a default console, unless it has one already or its
/// defaults are not a section.
pub open spec fn with_first_default(m: Map<Seq<char>, Node>, name: Seq<char>) -> Map<
    Seq<char>,
    Node,
> {
    match section(m, "defaults"@) {
        Some(defaults) => if defaults.contains_key("remote"@) {
            m
        } else {
            m.insert("defaults"@, Node::Section(defaults.insert("remote"@, Node::Text(name))))
        },
        None => m,
    }
}

/// The file's map after a console was written: the first console becomes the
/// default.
pub open spec fn with_remote(
    m: Map<Seq<char>, Node>,
    name: Seq<char>,
    api_url: Seq<char>,
    token: Option<Seq<char>>,
    org: Option<Seq<char>>,
    org_id: Option<Seq<char>>,
) -> Result<Map<Seq<char>, Node>, Seq<char>> {
    match with_remote_entry(m, name, api_url, token, org, org_id) {
        Err(text) => Err(text),
        Ok(written) => if section(written, "remotes"@)->0.dom().len() == 1 {
            Ok(with_first_default(written, name))
        } else {
            Ok(written)
        },
    }
}

/// A file's map with a console made the default.
pub open spec fn with_default(m: Map<Seq<char>, Node>, name: Seq<char>) -> Result<
    Map<Seq<char>, Node>,
    Seq<char>,
> {
    match section(m, "defaults"@) {
        Some(defaults) => Ok(
            m.insert("defaults"@, Node::Section(defaults.insert("remote"@, Node::Text(name)))),
        ),
        None => Err("[defaults] in config.toml is not a table"@),
    }
}

/// A section whose `remote` is the old name has the new name there instead.
pub open spec fn repointed(m: Map<Seq<char>, Node>, old_name: Seq<char>, new_name: Seq<char>) -> Map<
    Seq<char>,
    Node,
> {
    if m.contains_key("remote"@) && m["remote"@] == Node::Text(old_name) {
        m.insert("remote"@, Node::Text(new_name))
    } else {
        m
    }
}

/// What stands under a key, with a section repointed.
pub open spec fn repointed_node(node: Node, old_name: Seq<char>, new_name: Seq<char>) -> Node {
    match node {
        Node::Section(entries) => Node::Section(repointed(entries, old_name, new_name)),
        other => other,
    }
}

/// A file's map with a console under another name, and the default with it
/// where it was the default.
pub open spec fn with_renamed(
    m: Map<Seq<char>, Node>,
    old_name: Seq<char>,
    new_name: Seq<char>,
) -> Result<Map<Seq<char>, Node>, Seq<char>> {
    if !m.contains_key("remotes"@) || !(m["remotes"@] is Section) {
        Err("no [remotes] in config.toml"@)
    } else {
        let remotes = m["remotes"@]->Section_0;
        if !remotes.contains_key(old_name) {
            Err("remote vanished mid-rename"@)
        } else {
            let moved = m.insert(
                "remotes"@,
                Node::Section(remotes.remove(old_name).insert(new_name, remotes[old_name])),
            );
            if moved.contains_key("defaults"@) {
                Ok(moved.insert("defaults"@, repointed_node(moved["defaults"@], old_name, new_name)))
            } else {
                Ok(moved)
            }
        }
    }
}

/// The environments of a repo's file that pin a console.
pub open spec fn pinning(m: Map<Seq<char>, Node>, remote: Seq<char>) -> Set<Seq<char>> {
    m.dom().filter(|k: Seq<char>| pins(m[k], remote))
}

/// A section that pins a console.
pub open spec fn pins(node: Node, remote: Seq<char>) -> bool {
    match node {
        Node::Section(entries) => entries.contains_key("remote"@) && entries["remote"@]
            == Node::Text(remote),
        _ => false,
    }
}

/// A repo's map with every pin of a console moved to its new name.
pub open spec fn with_pins_moved(
    m: Map<Seq<char>, Node>,
    old_name: Seq<char>,
    new_name: Seq<char>,
) -> Map<Seq<char>, Node> {
    if m.contains_key("environments"@) {
        match m["environments"@] {
            Node::Section(envs) => m.insert(
                "environments"@,
                Node::Section(
                    envs.map_values(|node: Node| repointed_node(node, old_name, new_name)),
                ),
            ),
            _ => m,
        }
    } else {
        m
    }
}

/// How many pins of a console a repo's map holds.
pub open spec fn pin_count(m: Map<Seq<char>, Node>, remote: Seq<char>) -> nat {
    if m.contains_key("environments"@) {
        match m["environments"@] {
            Node::Section(envs) => pinning(envs, remote).len(),
            _ => 0,
        }
    } else {
        0
    }
}

/// What is said of a file that is not TOML begins so.
pub open spec fn parsing_text(path: Seq<char>) -> Seq<char> {
    "parsing "@ + path + ": "@
}

/// A text is written for a document that holds a map, and whose comments stand
/// in the given relation to those of the text before. Where the written text
/// is TOML it reads back as that map, and the same holds of its comments.
pub open spec fn is_written(
    before: Seq<char>,
    written: Seq<char>,
    m: Map<Seq<char>, Node>,
    keeps: spec_fn(
        Map<Seq<Seq<char>>, Multiset<Seq<char>>>,
        Map<Seq<Seq<char>>, Multiset<Seq<char>>>,
    ) -> bool,
) -> bool {
    &&& exists|document: DocumentMut|
        #[trigger] written_of(document) == written && entries_of(root_of(document)) == m && keeps(
            comments_in(before),
            document_comments(document),
        )
    &&& document_of(written) is Some ==> document_of(written) == Some(m) && keeps(
        comments_in(before),
        comments_in(written),
    )
}

/// How an edit of a file ends: with a text that is written for the edited map,
/// or with what is said where the file cannot be edited.
pub open spec fn edit_result(
    r: Result<String, Failure>,
    path: Seq<char>,
    text: Seq<char>,
    edited: spec_fn(Map<Seq<char>, Node>) -> Result<Map<Seq<char>, Node>, Seq<char>>,
    keeps: spec_fn(
        Map<Seq<Seq<char>>, Multiset<Seq<char>>>,
        Map<Seq<Seq<char>>, Multiset<Seq<char>>>,
    ) -> bool,
) -> bool {
    match document_of(text) {
        None => r matches Err(failure) && has_prefix(failure@, parsing_text(path)),
        Some(m) => match edited(m) {
            Ok(after) => r matches Ok(written) && is_written(text, written@, after, keeps),
            Err(said) => r matches Err(failure) && failure@ == said,
        },
    }
}

// ---------------------------------------------------------------------
// The comments that an edit keeps
// ---------------------------------------------------------------------

/// The paths of a key and of all below it.
pub open spec fn from_key(key: Seq<char>) -> spec_fn(Seq<Seq<char>>) -> bool {
    |p: Seq<Seq<char>>| p.len() > 0 && p[0] == key
}

/// The paths that go through a key to one of the given paths.
pub open spec fn through(key: Seq<char>, paths: spec_fn(Seq<Seq<char>>) -> bool) -> spec_fn(
    Seq<Seq<char>>,
) -> bool {
    |p: Seq<Seq<char>>| p.len() > 0 && p[0] == key && paths(p.skip(1))
}

/// The values that are written, or removed, in a console's section.
pub open spec fn remote_values(org_given: bool, org_id_given: bool) -> spec_fn(
    Seq<Seq<char>>,
) -> bool {
    |p: Seq<Seq<char>>|
        from_key("api_url"@)(p) || from_key("token"@)(p) || (org_given && from_key("org"@)(p)) || (
        org_id_given && from_key("org_id"@)(p))
}

/// The value that says which console is the default.
pub open spec fn default_value() -> spec_fn(Seq<Seq<char>>) -> bool {
    through("defaults"@, from_key("remote"@))
}

/// The values that are written where a console is written.
pub open spec fn written_values(name: Seq<char>, org_given: bool, org_id_given: bool) -> spec_fn(
    Seq<Seq<char>>,
) -> bool {
    |p: Seq<Seq<char>>|
        through("remotes"@, through(name, remote_values(org_given, org_id_given)))(p)
            || default_value()(p)
}

/// A console's section under either of two names, and the value that says
/// which console is the default.
pub open spec fn renamed_values(old_name: Seq<char>, new_name: Seq<char>) -> spec_fn(
    Seq<Seq<char>>,
) -> bool {
    |p: Seq<Seq<char>>|
        through("remotes"@, from_key(old_name))(p) || through("remotes"@, from_key(new_name))(p)
            || default_value()(p)
}

/// The relation of comments in which those of a console's section have moved
/// from one name to another, those of its header among them where it has one,
/// and every other comment stays but for those at the default.
pub open spec fn moving_section(
    old_name: Seq<char>,
    new_name: Seq<char>,
    headed: bool,
) -> spec_fn(
    Map<Seq<Seq<char>>, Multiset<Seq<char>>>,
    Map<Seq<Seq<char>>, Multiset<Seq<char>>>,
) -> bool {
    |before: Map<Seq<Seq<char>>, Multiset<Seq<char>>>,
     after: Map<Seq<Seq<char>>, Multiset<Seq<char>>>|
        comments_stay(before, after, renamed_values(old_name, new_name)) && comments_move(
            before,
            after,
            seq!["remotes"@, old_name],
            seq!["remotes"@, new_name],
            headed,
        )
}

/// The value that pins a console in a section of the given one.
pub open spec fn pin_values() -> spec_fn(Seq<Seq<char>>) -> bool {
    |p: Seq<Seq<char>>| p.len() > 0 && from_key("remote"@)(p.skip(1))
}

/// The relation of comments in which every comment stays but for those at the
/// given paths.
pub open spec fn staying_but(but: spec_fn(Seq<Seq<char>>) -> bool) -> spec_fn(
    Map<Seq<Seq<char>>, Multiset<Seq<char>>>,
    Map<Seq<Seq<char>>, Multiset<Seq<char>>>,
) -> bool {
    |before: Map<Seq<Seq<char>>, Multiset<Seq<char>>>,
     after: Map<Seq<Seq<char>>, Multiset<Seq<char>>>|
        comments_stay(before, after, but)
}

/// The comments below a path, and with it where that is asked for, are those
/// that were below another path.
pub open spec fn comments_move(
    before: Map<Seq<Seq<char>>, Multiset<Seq<char>>>,
    after: Map<Seq<Seq<char>>, Multiset<Seq<char>>>,
    from: Seq<Seq<char>>,
    to: Seq<Seq<char>>,
    headed: bool,
) -> bool {
    forall|p: Seq<Seq<char>>|
        p.len() > 0 || headed ==> #[trigger] at(after, to + p) == at(before, from + p)
}

/// Every comment stays where it stands, but for those at the given paths.
pub open spec fn comments_stay(
    before: Map<Seq<Seq<char>>, Multiset<Seq<char>>>,
    after: Map<Seq<Seq<char>>, Multiset<Seq<char>>>,
    but: spec_fn(Seq<Seq<char>>) -> bool,
) -> bool {
    forall|p: Seq<Seq<char>>| !but(p) ==> #[trigger] at(after, p) == at(before, p)
}

proof fn lemma_beside_stays(
    before: Map<Seq<Seq<char>>, Multiset<Seq<char>>>,
    after: Map<Seq<Seq<char>>, Multiset<Seq<char>>>,
    key: Seq<char>,
)
    requires
        beside(after, key) == beside(before, key),
    ensures
        comments_stay(before, after, from_key(key)),
{
    assert forall|p: Seq<Seq<char>>| !from_key(key)(p) implies #[trigger] at(after, p) == at(
        before,
        p,
    ) by {
        assert(beside(after, key).contains_key(p) == after.contains_key(p));
        assert(beside(before, key).contains_key(p) == before.contains_key(p));
        if after.contains_key(p) {
            assert(beside(after, key)[p] == beside(before, key)[p]);
        }
    }
}

proof fn lemma_closed_stays(
    before: Map<Seq<Seq<char>>, Multiset<Seq<char>>>,
    after: Map<Seq<Seq<char>>, Multiset<Seq<char>>>,
    closing: Multiset<Seq<char>>,
    but: spec_fn(Seq<Seq<char>>) -> bool,
)
    requires
        comments_stay(before, after, but),
    ensures
        comments_stay(closed_with(before, closing), closed_with(after, closing), but),
{
    let a = closed_with(before, closing);
    let b = closed_with(after, closing);
    assert forall|p: Seq<Seq<char>>| !but(p) implies #[trigger] at(b, p) == at(a, p) by {
        assert(at(after, p) == at(before, p));
    }
}

/// The comments of an item stand in the table around it below its key.
proof fn lemma_comments_below(table: Table, key: Seq<char>, item: Item, p: Seq<Seq<char>>)
    requires
        comments_meet(table, key, item),
        p.len() > 0 || (item_sound(item) && node_of(item) is Section),
    ensures
        at(comments_of(table), seq![key] + p) == at(item_comments(item), p),
{
    if p.len() == 0 {
        assert(p =~= Seq::empty());
        assert(seq![key] + p =~= seq![key]);
    } else {
        let below = under(comments_of(table), key);
        assert(p != Seq::<Seq<char>>::empty());
        assert(below.contains_key(p) == comments_of(table).contains_key(seq![key] + p));
        if below.contains_key(p) {
            assert(below[p] == comments_of(table)[seq![key] + p]);
        }
    }
}

/// What stays in the table under a key stays in the table around it.
proof fn lemma_stays_around(
    before: Table,
    after: Table,
    key: Seq<char>,
    item: Item,
    later: Item,
    but: spec_fn(Seq<Seq<char>>) -> bool,
)
    requires
        beside(comments_of(after), key) == beside(comments_of(before), key),
        comments_meet(before, key, item),
        comments_meet(after, key, later),
        item_sound(item),
        item_sound(later),
        node_of(item) is Section,
        node_of(later) is Section,
        comments_stay(item_comments(item), item_comments(later), but),
        !but(Seq::empty()),
    ensures
        comments_stay(comments_of(before), comments_of(after), through(key, but)),
{
    lemma_beside_stays(comments_of(before), comments_of(after), key);
    assert forall|p: Seq<Seq<char>>| !through(key, but)(p) implies #[trigger] at(
        comments_of(after),
        p,
    ) == at(comments_of(before), p) by {
        if p.len() > 0 && p[0] == key {
            let rest = p.skip(1);
            assert(p =~= seq![key] + rest);
            lemma_comments_below(before, key, item, rest);
            lemma_comments_below(after, key, later, rest);
            assert(at(item_comments(later), rest) == at(item_comments(item), rest));
        } else {
            assert(!from_key(key)(p));
        }
    }
}

/// An item that is taken from one key of a section to another takes its
/// comments along.
proof fn lemma_section_moves(
    before: Table,
    after: Table,
    item: Item,
    later: Item,
    held: Table,
    changed: Table,
    old_name: Seq<char>,
    new_name: Seq<char>,
    moved: Item,
)
    requires
        comments_meet(before, "remotes"@, item),
        comments_meet(after, "remotes"@, later),
        item_comments(item) == comments_of(held),
        item_comments(later) == comments_of(changed),
        comments_meet(held, old_name, moved),
        comments_meet(changed, new_name, moved),
        item_sound(moved),
    ensures
        comments_move(
            comments_of(before),
            comments_of(after),
            seq!["remotes"@, old_name],
            seq!["remotes"@, new_name],
            node_of(moved) is Section,
        ),
{
    let from = seq!["remotes"@, old_name];
    let to = seq!["remotes"@, new_name];
    assert forall|p: Seq<Seq<char>>| p.len() > 0 || node_of(moved) is Section implies #[trigger] at(
        comments_of(after),
        to + p,
    ) == at(comments_of(before), from + p) by {
        lemma_comments_below(held, old_name, moved, p);
        lemma_comments_below(changed, new_name, moved, p);
        lemma_comments_below(before, "remotes"@, item, seq![old_name] + p);
        lemma_comments_below(after, "remotes"@, later, seq![new_name] + p);
        assert(seq!["remotes"@] + (seq![old_name] + p) =~= from + p);
        assert(seq!["remotes"@] + (seq![new_name] + p) =~= to + p);
    }
}

/// Neither the default nor the end of a file has a part in a section's move.
proof fn lemma_closed_moves(
    before: Map<Seq<Seq<char>>, Multiset<Seq<char>>>,
    between: Map<Seq<Seq<char>>, Multiset<Seq<char>>>,
    after: Map<Seq<Seq<char>>, Multiset<Seq<char>>>,
    closing: Multiset<Seq<char>>,
    old_name: Seq<char>,
    new_name: Seq<char>,
    headed: bool,
)
    requires
        comments_move(
            before,
            between,
            seq!["remotes"@, old_name],
            seq!["remotes"@, new_name],
            headed,
        ),
        comments_stay(between, after, default_value()),
    ensures
        comments_move(
            closed_with(before, closing),
            closed_with(after, closing),
            seq!["remotes"@, old_name],
            seq!["remotes"@, new_name],
            headed,
        ),
{
    lemma_keys_differ();
    let a = closed_with(before, closing);
    let b = closed_with(after, closing);
    let from = seq!["remotes"@, old_name];
    let to = seq!["remotes"@, new_name];
    assert forall|p: Seq<Seq<char>>| p.len() > 0 || headed implies #[trigger] at(b, to + p) == at(
        a,
        from + p,
    ) by {
        assert((to + p)[0] == "remotes"@);
        assert((to + p).len() > 0 && (from + p).len() > 0);
        assert(to + p != Seq::<Seq<char>>::empty() && from + p != Seq::<Seq<char>>::empty());
        assert(!default_value()(to + p));
        assert(at(b, to + p) == at(after, to + p));
        assert(at(a, from + p) == at(before, from + p));
        assert(at(between, to + p) == at(before, from + p));
    }
}

// ---------------------------------------------------------------------
// The edits
// ---------------------------------------------------------------------

fn open_document(path: &str, text: &str) -> (r: Result<DocumentMut, Failure>)
    ensures
        match r {
            Ok(document) => document_of(text@) == Some(entries_of(root_of(document)))
                && table_sound(root_of(document)) && comments_in(text@) == document_comments(
                document,
            ),
            Err(failure) => document_of(text@) is None && has_prefix(
                failure@,
                parsing_text(path@),
            ),
        },
{
    match parse_document(text) {
        Ok(document) => Ok(document),
        Err(error) => {
            let begun = "parsing ".to_string().concat(path).concat(": ");
            let message = begun.clone().concat(error_text(&error).as_str());
            proof {
                assert(message@.take(begun@.len() as int) =~= begun@);
            }
            Err(fail(message))
        },
    }
}

fn fill_remote(
    entry: &mut Table,
    api_url: &str,
    token: Option<&str>,
    org: Option<&str>,
    org_id: Option<&str>,
)
    requires
        table_sound(*old(entry)),
        quotable(api_url@),
        token is Some ==> quotable(token->0@),
        org is Some ==> quotable(org->0@),
        org_id is Some ==> quotable(org_id->0@),
    ensures
        table_sound(*final(entry)),
        entries_of(*final(entry)) == remote_entry(
            entries_of(*old(entry)),
            api_url@,
            opt_str(token),
            opt_str(org),
            opt_str(org_id),
        ),
        implicit_of(*final(entry)) == implicit_of(*old(entry)),
        comments_stay(
            comments_of(*old(entry)),
            comments_of(*final(entry)),
            remote_values(org is Some, org_id is Some),
        ),
{
    let ghost c0 = comments_of(*entry);
    set_text(entry, "api_url", api_url);
    let ghost c1 = comments_of(*entry);
    match token {
        Some(text) => {
            set_text(entry, "token", text);
        },
        None => {
            let _ = entry.remove("token");
            proof {
                assert(beside(beside(c1, "token"@), "token"@) =~= beside(c1, "token"@));
            }
        },
    }
    let ghost c2 = comments_of(*entry);
    proof {
        lemma_beside_stays(c0, c1, "api_url"@);
        lemma_beside_stays(c1, c2, "token"@);
    }
    if let Some(text) = org {
        set_text(entry, "org", text);
        proof {
            lemma_beside_stays(c2, comments_of(*entry), "org"@);
        }
    }
    let ghost c3 = comments_of(*entry);
    if let Some(text) = org_id {
        set_text(entry, "org_id", text);
        proof {
            lemma_beside_stays(c3, comments_of(*entry), "org_id"@);
        }
    }
}

proof fn lemma_not_empty(m: Map<Seq<char>, Node>, key: Seq<char>)
    requires
        m.contains_key(key),
    ensures
        m.dom() != Set::<Seq<char>>::empty(),
{
    assert(m.dom().contains(key));
}

proof fn lemma_remote_entry_has_url(
    m: Map<Seq<char>, Node>,
    api_url: Seq<char>,
    token: Option<Seq<char>>,
    org: Option<Seq<char>>,
    org_id: Option<Seq<char>>,
)
    ensures
        remote_entry(m, api_url, token, org, org_id).contains_key("api_url"@),
{
    reveal_strlit("api_url");
    reveal_strlit("token");
    assert("api_url"@.len() != "token"@.len());
}

/// Writes a console's section and tells how many consoles there are then. Where
/// there was none before, no header is written for the consoles as such.
fn put_remote(
    root: &mut Table,
    name: &str,
    api_url: &str,
    token: Option<&str>,
    org: Option<&str>,
    org_id: Option<&str>,
) -> (r: Result<usize, Failure>)
    requires
        table_sound(*old(root)),
        quotable(api_url@),
        token is Some ==> quotable(token->0@),
        org is Some ==> quotable(org->0@),
        org_id is Some ==> quotable(org_id->0@),
    ensures
        match (
            r,
            with_remote_entry(
                entries_of(*old(root)),
                name@,
                api_url@,
                opt_str(token),
                opt_str(org),
                opt_str(org_id),
            ),
        ) {
            (Ok(n), Ok(after)) => {
                &&& entries_of(*final(root)) == after
                &&& table_sound(*final(root))
                &&& comments_stay(
                    comments_of(*old(root)),
                    comments_of(*final(root)),
                    through(
                        "remotes"@,
                        through(name@, remote_values(org is Some, org_id is Some)),
                    ),
                )
                &&& n == section(after, "remotes"@)->0.dom().len()
            },
            (Err(failure), Err(said)) => failure@ == said,
            _ => false,
        },
{
    let fresh = !root.contains_key("remotes");
    let ghost values = remote_values(org is Some, org_id is Some);
    let item = entry_or_table(root, "remotes");
    let ghost first = *item;
    let ghost last = *final(item);
    match item.as_table_mut() {
        None => Err(fail("[remotes] in config.toml is not a table".to_string())),
        Some(remotes) => {
            if fresh {
                remotes.set_implicit(true);
            }
            let ghost before = *remotes;
            let inner = entry_or_table(remotes, name);
            let ghost inner_first = *inner;
            let ghost inner_last = *final(inner);
            match inner.as_table_mut() {
                None => Err(
                    fail(
                        "[remotes.".to_string().concat(name).concat(
                            "] in config.toml is not a table",
                        ),
                    ),
                ),
                Some(entry) => {
                    let ghost held = entries_of(*entry);
                    fill_remote(entry, api_url, token, org, org_id);
                    proof {
                        lemma_remote_entry_has_url(
                            held,
                            api_url@,
                            opt_str(token),
                            opt_str(org),
                            opt_str(org_id),
                        );
                        lemma_not_empty(entries_of(*entry), "api_url"@);
                    }
                    let n: usize = remotes.len();
                    proof {
                        lemma_not_empty(entries_of(*remotes), name@);
                        lemma_stays_around(before, *remotes, name@, inner_first, inner_last, values);
                        lemma_stays_around(
                            *old(root),
                            *root,
                            "remotes"@,
                            first,
                            last,
                            through(name@, values),
                        );
                    }
                    Ok(n)
                },
            }
        },
    }
}

/// Makes a console the default where there is none.
fn put_first_default(root: &mut Table, name: &str)
    requires
        table_sound(*old(root)),
        quotable(name@),
    ensures
        table_sound(*final(root)),
        entries_of(*final(root)) == with_first_default(entries_of(*old(root)), name@),
        comments_stay(comments_of(*old(root)), comments_of(*final(root)), default_value()),
{
    let ghost m = entries_of(*root);
    let item = entry_or_table(root, "defaults");
    let ghost first = *item;
    let ghost last = *final(item);
    match item.as_table_mut() {
        None => {
            proof {
                assert(m.insert("defaults"@, m["defaults"@]) =~= m);
            }
        },
        Some(defaults) => {
            let ghost held = entries_of(*defaults);
            if !defaults.contains_key("remote") {
                let ghost before = comments_of(*defaults);
                set_text(defaults, "remote", name);
                proof {
                    lemma_not_empty(entries_of(*defaults), "remote"@);
                    lemma_beside_stays(before, comments_of(*defaults), "remote"@);
                    lemma_stays_around(
                        *old(root),
                        *root,
                        "defaults"@,
                        first,
                        last,
                        from_key("remote"@),
                    );
                }
            } else {
                proof {
                    lemma_not_empty(held, "remote"@);
                    assert(m.insert("defaults"@, Node::Section(held)) =~= m);
                }
            }
        },
    }
}

/// `config.toml` with a console written, or, without a token, with its token
/// cleared. Hand-written sections and comments stay, but for the comments at
/// the values that are written.
pub fn write_remote(
    path: &str,
    text: &str,
    name: &str,
    api_url: &str,
    token: Option<&str>,
    org: Option<&str>,
    org_id: Option<&str>,
) -> (r: Result<String, Failure>)
    requires
        quotable(name@),
        quotable(api_url@),
        token is Some ==> quotable(token->0@),
        org is Some ==> quotable(org->0@),
        org_id is Some ==> quotable(org_id->0@),
    ensures
        edit_result(
            r,
            path@,
            text@,
            |m: Map<Seq<char>, Node>|
                with_remote(m, name@, api_url@, opt_str(token), opt_str(org), opt_str(org_id)),
            staying_but(written_values(name@, org is Some, org_id is Some)),
        ),
{
    let mut document = match open_document(path, text) {
        Ok(document) => document,
        Err(failure) => {
            return Err(failure);
        },
    };
    let ghost first = root_of(document);
    let ghost closing = closing_of(document);
    let root = document.as_table_mut();
    let n: usize = match put_remote(root, name, api_url, token, org, org_id) {
        Ok(n) => n,
        Err(failure) => {
            return Err(failure);
        },
    };
    if n == 1 {
        put_first_default(root, name);
    }
    proof {
        lemma_closed_stays(
            comments_of(first),
            comments_of(root_of(document)),
            closing,
            written_values(name@, org is Some, org_id is Some),
        );
    }
    Ok(render(&document))
}

/// `config.toml` with a console made the default. Comments stay, but for those
/// at the value that is written.
pub fn write_default_remote(path: &str, text: &str, name: &str) -> (r: Result<String, Failure>)
    requires
        quotable(name@),
    ensures
        edit_result(
            r,
            path@,
            text@,
            |m: Map<Seq<char>, Node>| with_default(m, name@),
            staying_but(default_value()),
        ),
{
    let mut document = match open_document(path, text) {
        Ok(document) => document,
        Err(failure) => {
            return Err(failure);
        },
    };
    let ghost before = root_of(document);
    let ghost closing = closing_of(document);
    let root = document.as_table_mut();
    let item = entry_or_table(root, "defaults");
    let ghost first = *item;
    let ghost last = *final(item);
    match item.as_table_mut() {
        None => {
            return Err(fail("[defaults] in config.toml is not a table".to_string()));
        },
        Some(defaults) => {
            let ghost held = comments_of(*defaults);
            set_text(defaults, "remote", name);
            proof {
                lemma_not_empty(entries_of(*defaults), "remote"@);
                lemma_beside_stays(held, comments_of(*defaults), "remote"@);
            }
        },
    }
    proof {
        lemma_stays_around(
            before,
            root_of(document),
            "defaults"@,
            first,
            last,
            from_key("remote"@),
        );
        lemma_closed_stays(
            comments_of(before),
            comments_of(root_of(document)),
            closing,
            default_value(),
        );
    }
    Ok(render(&document))
}

/// Moves the pin of a section, and tells whether it had one to move.
fn repoint(table: &mut Table, old_name: &str, new_name: &str) -> (r: bool)
    requires
        quotable(new_name@),
    ensures
        r == pins(Node::Section(entries_of(*old(table))), old_name@),
        entries_of(*final(table)) == repointed(entries_of(*old(table)), old_name@, new_name@),
        table_sound(*old(table)) ==> table_sound(*final(table)),
        !r ==> *final(table) == *old(table),
        r ==> entries_of(*final(table)).contains_key("remote"@),
        implicit_of(*final(table)) == implicit_of(*old(table)),
        comments_stay(comments_of(*old(table)), comments_of(*final(table)), from_key("remote"@)),
{
    let pinned = match table.get("remote") {
        Some(item) => match item.as_str() {
            Some(text) => crate::text::same(text, old_name),
            None => false,
        },
        None => false,
    };
    if pinned {
        set_text(table, "remote", new_name);
        proof {
            lemma_beside_stays(comments_of(*old(table)), comments_of(*table), "remote"@);
        }
    }
    pinned
}

/// Moves the pin of the section under a key, and tells whether there was one.
fn repoint_under(table: &mut Table, key: &str, old_name: &str, new_name: &str) -> (r: bool)
    requires
        quotable(new_name@),
        table_sound(*old(table)),
    ensures
        table_sound(*final(table)),
        r == (entries_of(*old(table)).contains_key(key@) && pins(
            entries_of(*old(table))[key@],
            old_name@,
        )),
        entries_of(*final(table)) == (if entries_of(*old(table)).contains_key(key@) {
            entries_of(*old(table)).insert(
                key@,
                repointed_node(entries_of(*old(table))[key@], old_name@, new_name@),
            )
        } else {
            entries_of(*old(table))
        }),
        implicit_of(*final(table)) == implicit_of(*old(table)),
        comments_stay(
            comments_of(*old(table)),
            comments_of(*final(table)),
            through(key@, from_key("remote"@)),
        ),
{
    match table.get_mut(key) {
        None => false,
        Some(item) => {
            let ghost first = *item;
            let ghost last = *final(item);
            match item.as_table_mut() {
                None => false,
                Some(found) => {
                    let r = repoint(found, old_name, new_name);
                    proof {
                        if r {
                            lemma_not_empty(entries_of(*found), "remote"@);
                            lemma_stays_around(
                                *old(table),
                                *table,
                                key@,
                                first,
                                last,
                                from_key("remote"@),
                            );
                        }
                    }
                    r
                },
            }
        },
    }
}

/// `config.toml` with a console under another name. Its URL, token and org go
/// with it, and so does the default where it was the default.
pub fn rename_remote(path: &str, text: &str, old_name: &str, new_name: &str) -> (r: Result<
    String,
    Failure,
>)
    requires
        quotable(new_name@),
    ensures
        edit_result(
            r,
            path@,
            text@,
            |m: Map<Seq<char>, Node>| with_renamed(m, old_name@, new_name@),
            moving_section(
                old_name@,
                new_name@,
                stored_remote(document_of(text@)->0, old_name@) matches Some(Node::Section(_)),
            ),
        ),
{
    let mut document = match open_document(path, text) {
        Ok(document) => document,
        Err(failure) => {
            return Err(failure);
        },
    };
    let ghost before = root_of(document);
    let ghost closing = closing_of(document);
    let root = document.as_table_mut();
    match root.get_mut("remotes") {
        None => {
            return Err(fail("no [remotes] in config.toml".to_string()));
        },
        Some(item) => {
            let ghost first = *item;
            let ghost last = *final(item);
            match item.as_table_mut() {
                None => {
                    return Err(fail("no [remotes] in config.toml".to_string()));
                },
                Some(remotes) => {
                    let ghost held = *remotes;
                    let ghost c0 = comments_of(held);
                    match remotes.remove(old_name) {
                        None => {
                            return Err(fail("remote vanished mid-rename".to_string()));
                        },
                        Some(entry) => {
                            let ghost c1 = comments_of(*remotes);
                            let ghost moved = entry;
                            let _ = remotes.insert(new_name, entry);
                            proof {
                                lemma_section_moves(
                                    before,
                                    *root,
                                    first,
                                    last,
                                    held,
                                    *remotes,
                                    old_name@,
                                    new_name@,
                                    moved,
                                );
                                lemma_not_empty(entries_of(*remotes), new_name@);
                                assert(beside(c1, old_name@) =~= beside(c0, old_name@));
                                lemma_beside_stays(c0, c1, old_name@);
                                lemma_beside_stays(c1, comments_of(*remotes), new_name@);
                                lemma_stays_around(
                                    before,
                                    *root,
                                    "remotes"@,
                                    first,
                                    last,
                                    |p: Seq<Seq<char>>|
                                        from_key(old_name@)(p) || from_key(new_name@)(p),
                                );
                            }
                        },
                    }
                },
            }
        },
    }
    let ghost between = *root;
    let _ = repoint_under(root, "defaults", old_name, new_name);
    proof {
        lemma_closed_stays(
            comments_of(before),
            comments_of(root_of(document)),
            closing,
            renamed_values(old_name@, new_name@),
        );
        lemma_closed_moves(
            comments_of(before),
            comments_of(between),
            comments_of(root_of(document)),
            closing,
            old_name@,
            new_name@,
            stored_remote(document_of(text@)->0, old_name@) matches Some(Node::Section(_)),
        );
    }
    Ok(render(&document))
}

/// The map with the sections of some keys repointed.
spec fn partly_moved(
    m: Map<Seq<char>, Node>,
    done: Seq<Seq<char>>,
    old_name: Seq<char>,
    new_name: Seq<char>,
) -> Map<Seq<char>, Node> {
    Map::new(
        |k: Seq<char>| m.contains_key(k),
        |k: Seq<char>|
            if done.contains(k) {
                repointed_node(m[k], old_name, new_name)
            } else {
                m[k]
            },
    )
}

/// The pinning sections among some keys.
spec fn pins_among(m: Map<Seq<char>, Node>, done: Seq<Seq<char>>, remote: Seq<char>) -> Set<
    Seq<char>,
> {
    done.to_set().filter(|k: Seq<char>| pins(m[k], remote))
}

proof fn lemma_one_more(
    m: Map<Seq<char>, Node>,
    keys: Seq<Seq<char>>,
    i: int,
    old_name: Seq<char>,
    new_name: Seq<char>,
)
    requires
        keys.no_duplicates(),
        0 <= i < keys.len(),
        m.contains_key(keys[i]),
    ensures
        ({
            let done = keys.take(i);
            let next = keys.take(i + 1);
            let part = partly_moved(m, done, old_name, new_name);
            &&& part.contains_key(keys[i])
            &&& part[keys[i]] == m[keys[i]]
            &&& partly_moved(m, next, old_name, new_name) == part.insert(
                keys[i],
                repointed_node(m[keys[i]], old_name, new_name),
            )
            &&& pins_among(m, next, old_name).len() == pins_among(m, done, old_name).len() + (if pins(
                m[keys[i]],
                old_name,
            ) {
                1nat
            } else {
                0nat
            })
        }),
{
    let done = keys.take(i);
    let next = keys.take(i + 1);
    let k = keys[i];
    let part = partly_moved(m, done, old_name, new_name);
    assert(next =~= done.push(k));
    assert(!done.contains(k)) by {
        if done.contains(k) {
            let j = choose|j: int| 0 <= j < done.len() && done[j] == k;
            assert(keys[j] == keys[i]);
        }
    }
    assert(next.contains(k)) by {
        assert(next[i] == k);
    }
    assert forall|x: Seq<char>| x != k implies next.contains(x) == done.contains(x) by {
        if next.contains(x) {
            let j = choose|j: int| 0 <= j < next.len() && next[j] == x;
            assert(done[j] == x);
        }
        if done.contains(x) {
            let j = choose|j: int| 0 <= j < done.len() && done[j] == x;
            assert(next[j] == x);
        }
    }
    assert(partly_moved(m, next, old_name, new_name) =~= part.insert(
        k,
        repointed_node(m[k], old_name, new_name),
    ));
    let a = pins_among(m, done, old_name);
    let b = pins_among(m, next, old_name);
    done.to_set().lemma_len_filter(|k: Seq<char>| pins(m[k], old_name));
    vstd::seq_lib::seq_to_set_is_finite(done);
    assert(a.finite());
    if pins(m[k], old_name) {
        assert(b =~= a.insert(k));
        assert(!a.contains(k));
    } else {
        assert(b =~= a);
    }
}

/// Moves the pins of all sections, and counts them.
fn move_pins(envs: &mut Table, old_name: &str, new_name: &str) -> (n: usize)
    requires
        quotable(new_name@),
        table_sound(*old(envs)),
    ensures
        table_sound(*final(envs)),
        entries_of(*final(envs)) == entries_of(*old(envs)).map_values(
            |node: Node| repointed_node(node, old_name@, new_name@),
        ),
        n == pinning(entries_of(*old(envs)), old_name@).len(),
        implicit_of(*final(envs)) == implicit_of(*old(envs)),
        comments_stay(comments_of(*old(envs)), comments_of(*final(envs)), pin_values()),
{
    let keys = keys_of(envs);
    let ghost m = entries_of(*envs);
    let ghost all = views(keys@);
    let mut n: usize = 0;
    let mut i: usize = 0;
    proof {
        assert(partly_moved(m, all.take(0), old_name@, new_name@) =~= m);
        assert(pins_among(m, all.take(0), old_name@) =~= Set::<Seq<char>>::empty());
    }
    while i < keys.len()
        invariant
            i <= keys.len(),
            n <= i,
            quotable(new_name@),
            table_sound(*envs),
            all == views(keys@),
            all.no_duplicates(),
            all.to_set() == m.dom(),
            entries_of(*envs) == partly_moved(m, all.take(i as int), old_name@, new_name@),
            n == pins_among(m, all.take(i as int), old_name@).len(),
            implicit_of(*envs) == implicit_of(*old(envs)),
            comments_stay(comments_of(*old(envs)), comments_of(*envs), pin_values()),
        decreases keys.len() - i,
    {
        proof {
            assert(all[i as int] == keys@[i as int]@);
            assert(all.to_set().contains(all[i as int]));
            lemma_one_more(m, all, i as int, old_name@, new_name@);
        }
        if repoint_under(envs, keys[i].as_str(), old_name, new_name) {
            n = n + 1;
        }
        i = i + 1;
    }
    proof {
        assert(all.take(i as int) =~= all);
        assert forall|k: Seq<char>| m.contains_key(k) implies all.contains(k) by {
            assert(all.to_set().contains(k));
        }
        assert(partly_moved(m, all, old_name@, new_name@) =~= m.map_values(
            |node: Node| repointed_node(node, old_name@, new_name@),
        ));
        assert(pins_among(m, all, old_name@) =~= pinning(m, old_name@));
    }
    n
}

/// How moving the pins of a file ends: with their number and, where there are
/// any, with a text that is written for the map with the pins moved.
pub open spec fn pins_result(
    r: Result<(Option<String>, usize), Failure>,
    path: Seq<char>,
    text: Seq<char>,
    old_name: Seq<char>,
    new_name: Seq<char>,
) -> bool {
    match document_of(text) {
        None => r matches Err(failure) && has_prefix(failure@, parsing_text(path)),
        Some(m) => r matches Ok((written, n)) && n == pin_count(m, old_name) && (match written {
            Some(out) => n > 0 && is_written(
                text,
                out@,
                with_pins_moved(m, old_name, new_name),
                staying_but(through("environments"@, pin_values())),
            ),
            None => n == 0,
        }),
    }
}

/// A repo's file with every `remote` pin of its environments moved to a
/// console's new name, and how many there were. Where there is none the file
/// is left as it is, and no text comes back.
pub fn update_repo_pins(path: &str, text: &str, old_name: &str, new_name: &str) -> (r: Result<
    (Option<String>, usize),
    Failure,
>)
    requires
        quotable(new_name@),
    ensures
        pins_result(r, path@, text@, old_name@, new_name@),
{
    let mut document = match open_document(path, text) {
        Ok(document) => document,
        Err(failure) => {
            return Err(failure);
        },
    };
    let ghost before = root_of(document);
    let ghost closing = closing_of(document);
    let root = document.as_table_mut();
    let mut n: usize = 0;
    match root.get_mut("environments") {
        None => {},
        Some(item) => {
            let ghost first = *item;
            let ghost last = *final(item);
            match item.as_table_mut() {
                None => {},
                Some(envs) => {
                    let ghost held = entries_of(*envs);
                    n = move_pins(envs, old_name, new_name);
                    proof {
                        if held.dom() == Set::<Seq<char>>::empty() {
                            assert(pinning(held, old_name@) =~= Set::<Seq<char>>::empty());
                        }
                        assert(entries_of(*envs).dom() =~= held.dom());
                        if n > 0 {
                            lemma_stays_around(
                                before,
                                *root,
                                "environments"@,
                                first,
                                last,
                                pin_values(),
                            );
                        }
                    }
                },
            }
        },
    }
    if n > 0 {
        proof {
            lemma_closed_stays(
                comments_of(before),
                comments_of(root_of(document)),
                closing,
                through("environments"@, pin_values()),
            );
        }
        Ok((Some(render(&document)), n))
    } else {
        Ok((None, 0))
    }
}

// ---------------------------------------------------------------------
// Laws
// ---------------------------------------------------------------------

proof fn lemma_keys_differ()
    ensures
        "remotes"@ != "defaults"@,
        "api_url"@ != "token"@,
        "api_url"@ != "org"@,
        "api_url"@ != "org_id"@,
        "token"@ != "org"@,
        "token"@ != "org_id"@,
        "org"@ != "org_id"@,
{
    reveal_strlit("remotes");
    reveal_strlit("defaults");
    reveal_strlit("api_url");
    reveal_strlit("token");
    reveal_strlit("org");
    reveal_strlit("org_id");
    assert("remotes"@.len() != "defaults"@.len());
    assert("api_url"@.len() != "token"@.len());
    assert("api_url"@.len() != "org"@.len());
    assert("api_url"@.len() != "org_id"@.len());
    assert("token"@.len() != "org"@.len());
    assert("token"@.len() != "org_id"@.len());
    assert("org"@.len() != "org_id"@.len());
}

/// What stands under a key, if anything does.
pub open spec fn stored_text(m: Map<Seq<char>, Node>, key: Seq<char>) -> Option<Node> {
    if m.contains_key(key) {
        Some(m[key])
    } else {
        None
    }
}

/// The section of a console in the file's map.
pub open spec fn stored_remote(m: Map<Seq<char>, Node>, name: Seq<char>) -> Option<Node> {
    match section(m, "remotes"@) {
        Some(remotes) => stored_text(remotes, name),
        None => None,
    }
}

/// A value of a console in the file's map.
pub open spec fn stored_value(m: Map<Seq<char>, Node>, name: Seq<char>, key: Seq<char>) -> Option<
    Node,
> {
    match stored_remote(m, name) {
        Some(Node::Section(entry)) => stored_text(entry, key),
        _ => None,
    }
}

/// The default console in the file's map.
pub open spec fn stored_default(m: Map<Seq<char>, Node>) -> Option<Node> {
    match section(m, "defaults"@) {
        Some(defaults) => stored_text(defaults, "remote"@),
        None => None,
    }
}

/// In the map of a file in which a console was written its URL is the one
/// given, its token is the one given or, where none is given, gone, and its org
/// and its org id are those given or, where none is given, those of before.
pub proof fn written_remote_is_stored(
    m: Map<Seq<char>, Node>,
    name: Seq<char>,
    api_url: Seq<char>,
    token: Option<Seq<char>>,
    org: Option<Seq<char>>,
    org_id: Option<Seq<char>>,
)
    requires
        with_remote(m, name, api_url, token, org, org_id) is Ok,
    ensures
        ({
            let after = with_remote(m, name, api_url, token, org, org_id)->Ok_0;
            &&& stored_remote(after, name) matches Some(Node::Section(entry))
            &&& stored_text(entry, "api_url"@) == Some(Node::Text(api_url))
            &&& stored_text(entry, "token"@) == (match token {
                Some(text) => Some(Node::Text(text)),
                None => None,
            })
            &&& stored_text(entry, "org"@) == (match org {
                Some(text) => Some(Node::Text(text)),
                None => stored_value(m, name, "org"@),
            })
            &&& stored_text(entry, "org_id"@) == (match org_id {
                Some(text) => Some(Node::Text(text)),
                None => stored_value(m, name, "org_id"@),
            })
        }),
{
    lemma_keys_differ();
}

/// Writing a console leaves every other console, and every section but the
/// consoles and the defaults, as it was.
pub proof fn writing_touches_one_remote(
    m: Map<Seq<char>, Node>,
    name: Seq<char>,
    api_url: Seq<char>,
    token: Option<Seq<char>>,
    org: Option<Seq<char>>,
    org_id: Option<Seq<char>>,
    other: Seq<char>,
)
    requires
        with_remote(m, name, api_url, token, org, org_id) is Ok,
    ensures
        ({
            let after = with_remote(m, name, api_url, token, org, org_id)->Ok_0;
            &&& other != name ==> stored_remote(after, other) == stored_remote(m, other)
            &&& other != "remotes"@ && other != "defaults"@ ==> stored_text(after, other)
                == stored_text(m, other)
        }),
{
    lemma_keys_differ();
}

/// A value of the defaults in the file's map.
pub open spec fn stored_default_value(m: Map<Seq<char>, Node>, key: Seq<char>) -> Option<Node> {
    match section(m, "defaults"@) {
        Some(defaults) => stored_text(defaults, key),
        None => None,
    }
}

/// A console that is written while no other is there becomes the default,
/// unless there is a default already or something other than a section stands
/// in the place of the defaults.
pub proof fn first_remote_becomes_default(
    m: Map<Seq<char>, Node>,
    name: Seq<char>,
    api_url: Seq<char>,
    token: Option<Seq<char>>,
    org: Option<Seq<char>>,
    org_id: Option<Seq<char>>,
)
    requires
        with_remote(m, name, api_url, token, org, org_id) is Ok,
        forall|other: Seq<char>| other != name ==> #[trigger] stored_remote(m, other) is None,
        section(m, "defaults"@) is Some,
        stored_default(m) is None,
    ensures
        stored_default(with_remote(m, name, api_url, token, org, org_id)->Ok_0) == Some(
            Node::Text(name),
        ),
{
    lemma_keys_differ();
    let held = section(m, "remotes"@)->0;
    let entry = section(held, name)->0;
    let one = held.insert(name, Node::Section(remote_entry(entry, api_url, token, org, org_id)));
    assert forall|k: Seq<char>| held.contains_key(k) implies k == name by {
        if k != name {
            assert(stored_remote(m, k) is None);
        }
    }
    assert(one.dom() =~= Set::<Seq<char>>::empty().insert(name));
    assert(one.dom().len() == 1);
}

/// Writing a console never changes a default that is there.
pub proof fn default_is_kept(
    m: Map<Seq<char>, Node>,
    name: Seq<char>,
    api_url: Seq<char>,
    token: Option<Seq<char>>,
    org: Option<Seq<char>>,
    org_id: Option<Seq<char>>,
)
    requires
        with_remote(m, name, api_url, token, org, org_id) is Ok,
        stored_default(m) is Some,
    ensures
        stored_default(with_remote(m, name, api_url, token, org, org_id)->Ok_0) == stored_default(m),
{
    lemma_keys_differ();
}

/// A logout forgets the token of a console and nothing else: the console stays
/// configured with all else that it holds, the other consoles stay as they
/// are, and so does every section but the consoles and the defaults, and a
/// default that is there.
pub proof fn logout_forgets_the_token_alone(
    m: Map<Seq<char>, Node>,
    name: Seq<char>,
    api_url: Seq<char>,
    key: Seq<char>,
    other: Seq<char>,
)
    requires
        stored_remote(m, name) matches Some(Node::Section(before)) && stored_text(
            before,
            "api_url"@,
        ) == Some(Node::Text(api_url)),
    ensures
        with_remote(m, name, api_url, None, None, None) matches Ok(after) && {
            &&& stored_remote(after, name) matches Some(Node::Section(entry))
            &&& stored_text(entry, key) == (if key == "token"@ {
                None
            } else {
                stored_text(stored_remote(m, name)->0->Section_0, key)
            })
            &&& other != name ==> stored_remote(after, other) == stored_remote(m, other)
            &&& other != "remotes"@ && other != "defaults"@ ==> stored_text(after, other)
                == stored_text(m, other)
            &&& stored_default(m) is Some ==> stored_default(after) == stored_default(m)
        },
{
    lemma_keys_differ();
}

/// A default that was written is in the file's map.
pub proof fn written_default_is_stored(m: Map<Seq<char>, Node>, name: Seq<char>)
    requires
        with_default(m, name) is Ok,
    ensures
        stored_default(with_default(m, name)->Ok_0) == Some(Node::Text(name)),
{
}

/// A rename moves a console with all that it holds, leaves the other consoles
/// alone, and takes the default along where it was the default.
pub proof fn rename_moves_the_remote(
    m: Map<Seq<char>, Node>,
    old_name: Seq<char>,
    new_name: Seq<char>,
    other: Seq<char>,
)
    requires
        with_renamed(m, old_name, new_name) is Ok,
        old_name != new_name,
    ensures
        ({
            let after = with_renamed(m, old_name, new_name)->Ok_0;
            &&& stored_remote(after, new_name) == stored_remote(m, old_name)
            &&& stored_remote(after, new_name) is Some
            &&& stored_remote(after, old_name) is None
            &&& other != old_name && other != new_name ==> stored_remote(after, other)
                == stored_remote(m, other)
            &&& stored_default(after) == (if stored_default(m) == Some(Node::Text(old_name)) {
                Some(Node::Text(new_name))
            } else {
                stored_default(m)
            })
        }),
{
    lemma_keys_differ();
}

/// Renaming a console to a name that is not in use, and back, changes nothing.
pub proof fn rename_is_undone_by_renaming_back(
    m: Map<Seq<char>, Node>,
    old_name: Seq<char>,
    new_name: Seq<char>,
)
    requires
        with_renamed(m, old_name, new_name) is Ok,
        stored_remote(m, new_name) is None,
        stored_default(m) != Some(Node::Text(new_name)),
    ensures
        with_renamed(with_renamed(m, old_name, new_name)->Ok_0, new_name, old_name) == Ok::<
            Map<Seq<char>, Node>,
            Seq<char>,
        >(m),
{
    lemma_keys_differ();
    let remotes = m["remotes"@]->Section_0;
    let after = with_renamed(m, old_name, new_name)->Ok_0;
    let moved = after["remotes"@]->Section_0;
    assert(moved.remove(new_name).insert(old_name, moved[new_name]) =~= remotes);
    let back = with_renamed(after, new_name, old_name)->Ok_0;
    if m.contains_key("defaults"@) {
        match m["defaults"@] {
            Node::Section(defaults) => {
                let once = repointed(defaults, old_name, new_name);
                assert(repointed(once, new_name, old_name) =~= defaults);
            },
            _ => {},
        }
    }
    assert(back =~= m);
}

/// After the pins of a console were moved, none is left, and no environment
/// has come or gone.
pub proof fn no_pin_is_left(
    m: Map<Seq<char>, Node>,
    old_name: Seq<char>,
    new_name: Seq<char>,
    env: Seq<char>,
)
    requires
        old_name != new_name,
        m.contains_key("environments"@),
        m["environments"@] is Section,
    ensures
        ({
            let before = m["environments"@]->Section_0;
            let after = with_pins_moved(m, old_name, new_name);
            &&& after.contains_key("environments"@)
            &&& after["environments"@] matches Node::Section(envs)
            &&& envs.contains_key(env) <==> before.contains_key(env)
            &&& before.contains_key(env) ==> !pins(envs[env], old_name)
            &&& before.contains_key(env) && pins(before[env], old_name) ==> pins(
                envs[env],
                new_name,
            )
            &&& before.contains_key(env) && !pins(before[env], old_name) ==> envs[env]
                == before[env]
        }),
{
}

/// Moving the pins of a console changes nothing but the environments, and a
/// second time there is none to move.
pub proof fn pins_are_moved_once(
    m: Map<Seq<char>, Node>,
    old_name: Seq<char>,
    new_name: Seq<char>,
    other: Seq<char>,
)
    requires
        old_name != new_name,
    ensures
        pin_count(with_pins_moved(m, old_name, new_name), old_name) == 0,
        other != "environments"@ ==> stored_text(with_pins_moved(m, old_name, new_name), other)
            == stored_text(m, other),
{
    let after = with_pins_moved(m, old_name, new_name);
    if m.contains_key("environments"@) && m["environments"@] is Section {
        let envs = after["environments"@]->Section_0;
        assert(pinning(envs, old_name) =~= Set::<Seq<char>>::empty());
    }
}

// ---------------------------------------------------------------------
// What is read back of a file that was written
// ---------------------------------------------------------------------

/// The file that `write_remote` gives, where it is TOML, reads back with the
/// console as it was given and all else as before: the console has the URL and
/// the token that were given, and the org and the org id that were given or
/// else those of before; other consoles and other sections are as they were;
/// and the default is as it was, unless there was none and the console is the
/// only one.
pub proof fn written_remote_is_read_back(
    path: Seq<char>,
    text: Seq<char>,
    written: String,
    name: Seq<char>,
    api_url: Seq<char>,
    token: Option<Seq<char>>,
    org: Option<Seq<char>>,
    org_id: Option<Seq<char>>,
    other: Seq<char>,
)
    requires
        edit_result(
            Ok(written),
            path,
            text,
            |m: Map<Seq<char>, Node>| with_remote(m, name, api_url, token, org, org_id),
            staying_but(written_values(name, org is Some, org_id is Some)),
        ),
        document_of(written@) is Some,
    ensures
        document_of(text) matches Some(m) && {
            let read = document_of(written@)->0;
            &&& stored_value(read, name, "api_url"@) == Some(Node::Text(api_url))
            &&& stored_value(read, name, "token"@) == (match token {
                Some(given) => Some(Node::Text(given)),
                None => None,
            })
            &&& stored_value(read, name, "org"@) == (match org {
                Some(given) => Some(Node::Text(given)),
                None => stored_value(m, name, "org"@),
            })
            &&& stored_value(read, name, "org_id"@) == (match org_id {
                Some(given) => Some(Node::Text(given)),
                None => stored_value(m, name, "org_id"@),
            })
            &&& other != name ==> stored_remote(read, other) == stored_remote(m, other)
            &&& other != "remotes"@ && other != "defaults"@ ==> stored_text(read, other)
                == stored_text(m, other)
            &&& other != "remote"@ ==> stored_default_value(read, other) == stored_default_value(
                m,
                other,
            )
            &&& stored_default(read) == (if section(m, "defaults"@) is Some && stored_default(m)
                is None && section(read, "remotes"@)->0.dom().len() == 1 {
                Some(Node::Text(name))
            } else {
                stored_default(m)
            })
            &&& comments_stay(
                comments_in(text),
                comments_in(written@),
                written_values(name, org is Some, org_id is Some),
            )
        },
{
    lemma_keys_differ();
    let m = document_of(text)->0;
    written_remote_is_stored(m, name, api_url, token, org, org_id);
    writing_touches_one_remote(m, name, api_url, token, org, org_id, other);
}

/// The file that a logout gives, where it is TOML, reads back without the
/// token and with all else as before.
pub proof fn logout_is_read_back(
    path: Seq<char>,
    text: Seq<char>,
    written: String,
    name: Seq<char>,
    api_url: Seq<char>,
    key: Seq<char>,
    other: Seq<char>,
)
    requires
        edit_result(
            Ok(written),
            path,
            text,
            |m: Map<Seq<char>, Node>| with_remote(m, name, api_url, None, None, None),
            staying_but(written_values(name, false, false)),
        ),
        document_of(written@) is Some,
        stored_value(document_of(text)->0, name, "api_url"@) == Some(Node::Text(api_url)),
    ensures
        document_of(text) matches Some(m) && {
            let read = document_of(written@)->0;
            &&& stored_remote(read, name) is Some
            &&& stored_value(read, name, key) == (if key == "token"@ {
                None
            } else {
                stored_value(m, name, key)
            })
            &&& other != name ==> stored_remote(read, other) == stored_remote(m, other)
            &&& other != "remotes"@ && other != "defaults"@ ==> stored_text(read, other)
                == stored_text(m, other)
            &&& stored_default(m) is Some ==> stored_default(read) == stored_default(m)
        },
{
    logout_forgets_the_token_alone(document_of(text)->0, name, api_url, key, other);
}

/// The file that `write_default_remote` gives, where it is TOML, reads back
/// with the default that was given and all other sections as before.
pub proof fn written_default_is_read_back(
    path: Seq<char>,
    text: Seq<char>,
    written: String,
    name: Seq<char>,
    other: Seq<char>,
)
    requires
        edit_result(
            Ok(written),
            path,
            text,
            |m: Map<Seq<char>, Node>| with_default(m, name),
            staying_but(default_value()),
        ),
        document_of(written@) is Some,
    ensures
        document_of(text) matches Some(m) && {
            let read = document_of(written@)->0;
            &&& stored_default(read) == Some(Node::Text(name))
            &&& other != "remote"@ ==> stored_default_value(read, other) == stored_default_value(
                m,
                other,
            )
            &&& other != "defaults"@ ==> stored_text(read, other) == stored_text(m, other)
        },
{
}

/// The file that `rename_remote` gives, where it is TOML, reads back with the
/// console under its new name, with all that it held, and with the default
/// moved along; all else is as before.
pub proof fn renamed_remote_is_read_back(
    path: Seq<char>,
    text: Seq<char>,
    written: String,
    old_name: Seq<char>,
    new_name: Seq<char>,
    other: Seq<char>,
)
    requires
        edit_result(
            Ok(written),
            path,
            text,
            |m: Map<Seq<char>, Node>| with_renamed(m, old_name, new_name),
            moving_section(
                old_name,
                new_name,
                stored_remote(document_of(text)->0, old_name) matches Some(Node::Section(_)),
            ),
        ),
        document_of(written@) is Some,
        old_name != new_name,
    ensures
        document_of(text) matches Some(m) && {
            let read = document_of(written@)->0;
            &&& stored_remote(read, new_name) == stored_remote(m, old_name)
            &&& stored_remote(read, old_name) is None
            &&& other != old_name && other != new_name ==> stored_remote(read, other)
                == stored_remote(m, other)
            &&& other != "remotes"@ && other != "defaults"@ ==> stored_text(read, other)
                == stored_text(m, other)
            &&& stored_default(read) == (if stored_default(m) == Some(Node::Text(old_name)) {
                Some(Node::Text(new_name))
            } else {
                stored_default(m)
            })
        },
{
    lemma_keys_differ();
    rename_moves_the_remote(document_of(text)->0, old_name, new_name, other);
}

/// A file in which a console was renamed to a name that was not in use, and
/// then back, reads back as it did, where both files that were written are
/// TOML.
pub proof fn rename_and_back_is_read_back(
    path: Seq<char>,
    text: Seq<char>,
    once: String,
    twice: String,
    old_name: Seq<char>,
    new_name: Seq<char>,
)
    requires
        edit_result(
            Ok(once),
            path,
            text,
            |m: Map<Seq<char>, Node>| with_renamed(m, old_name, new_name),
            moving_section(
                old_name,
                new_name,
                stored_remote(document_of(text)->0, old_name) matches Some(Node::Section(_)),
            ),
        ),
        edit_result(
            Ok(twice),
            path,
            once@,
            |m: Map<Seq<char>, Node>| with_renamed(m, new_name, old_name),
            moving_section(
                new_name,
                old_name,
                stored_remote(document_of(once@)->0, new_name) matches Some(Node::Section(_)),
            ),
        ),
        document_of(twice@) is Some,
        stored_remote(document_of(text)->0, new_name) is None,
        stored_default(document_of(text)->0) != Some(Node::Text(new_name)),
    ensures
        document_of(text) is Some,
        document_of(twice@) == document_of(text),
{
    rename_is_undone_by_renaming_back(document_of(text)->0, old_name, new_name);
}

/// The file that `update_repo_pins` gives, where it is TOML, reads back with
/// the pins moved and all else as before, and a second call finds none to move
/// and gives no file.
pub proof fn moved_pins_are_read_back(
    path: Seq<char>,
    text: Seq<char>,
    written: String,
    n: usize,
    again: Result<(Option<String>, usize), Failure>,
    old_name: Seq<char>,
    new_name: Seq<char>,
    env: Seq<char>,
    other: Seq<char>,
)
    requires
        pins_result(Ok((Some(written), n)), path, text, old_name, new_name),
        document_of(written@) is Some,
        pins_result(again, path, written@, old_name, new_name),
        old_name != new_name,
    ensures
        document_of(text) matches Some(m) && {
            let read = document_of(written@)->0;
            &&& other != "environments"@ ==> stored_text(read, other) == stored_text(m, other)
            &&& section(m, "environments"@) matches Some(before)
            &&& section(read, "environments"@) matches Some(after)
            &&& after.contains_key(env) <==> before.contains_key(env)
            &&& before.contains_key(env) && pins(before[env], old_name) ==> after[env] == Node::Section(
                before[env]->Section_0.insert("remote"@, Node::Text(new_name)),
            )
            &&& before.contains_key(env) && !pins(before[env], old_name) ==> after[env]
                == before[env]
        },
        again matches Ok((None, 0)),
{
    let m = document_of(text)->0;
    pins_are_moved_once(m, old_name, new_name, other);
    no_pin_is_left(m, old_name, new_name, env);
}

// ---------------------------------------------------------------------
// When an edit goes ahead, and what it leaves alone
// ---------------------------------------------------------------------

/// A console is written exactly where nothing but a section stands in the place
/// of the consoles, and nothing but a section in the place of that console.
pub proof fn when_a_remote_is_written(
    m: Map<Seq<char>, Node>,
    name: Seq<char>,
    api_url: Seq<char>,
    token: Option<Seq<char>>,
    org: Option<Seq<char>>,
    org_id: Option<Seq<char>>,
)
    ensures
        with_remote(m, name, api_url, token, org, org_id) is Ok <==> {
            ||| !m.contains_key("remotes"@)
            ||| m["remotes"@] matches Node::Section(remotes) && (!remotes.contains_key(name)
                || remotes[name] is Section)
        },
        m.contains_key("remotes"@) && !(m["remotes"@] is Section) ==> with_remote(
            m,
            name,
            api_url,
            token,
            org,
            org_id,
        )->Err_0 == "[remotes] in config.toml is not a table"@,
{
}

/// What a console's section holds besides the URL, the token, the org and the
/// org id stays when the console is written.
pub proof fn other_values_of_a_remote_stay(
    m: Map<Seq<char>, Node>,
    name: Seq<char>,
    api_url: Seq<char>,
    token: Option<Seq<char>>,
    org: Option<Seq<char>>,
    org_id: Option<Seq<char>>,
    key: Seq<char>,
)
    requires
        with_remote(m, name, api_url, token, org, org_id) is Ok,
        key != "api_url"@,
        key != "token"@,
        key != "org"@,
        key != "org_id"@,
    ensures
        stored_value(with_remote(m, name, api_url, token, org, org_id)->Ok_0, name, key)
            == stored_value(m, name, key),
{
    lemma_keys_differ();
}

/// A default is written exactly where nothing but a section stands in the place
/// of the defaults; all else of the file stays.
pub proof fn when_a_default_is_written(m: Map<Seq<char>, Node>, name: Seq<char>, other: Seq<char>)
    ensures
        with_default(m, name) is Ok <==> !m.contains_key("defaults"@) || m["defaults"@] is Section,
        with_default(m, name) is Ok && other != "defaults"@ ==> stored_text(
            with_default(m, name)->Ok_0,
            other,
        ) == stored_text(m, other),
        with_default(m, name) is Ok && other != "remote"@ ==> stored_default_value(
            with_default(m, name)->Ok_0,
            other,
        ) == stored_default_value(m, other),
{
}

/// A console is renamed exactly where it is there, in the section of the
/// consoles; and sections other than the consoles and the defaults stay.
pub proof fn when_a_remote_is_renamed(
    m: Map<Seq<char>, Node>,
    old_name: Seq<char>,
    new_name: Seq<char>,
    other: Seq<char>,
)
    ensures
        with_renamed(m, old_name, new_name) is Ok <==> m.contains_key("remotes"@) && (m["remotes"@]
            matches Node::Section(remotes) && remotes.contains_key(old_name)),
        with_renamed(m, old_name, new_name) is Ok && other != "remotes"@ && other != "defaults"@
            ==> stored_text(with_renamed(m, old_name, new_name)->Ok_0, other) == stored_text(
            m,
            other,
        ),
        with_renamed(m, old_name, new_name) is Ok && other != "remote"@ ==> stored_default_value(
            with_renamed(m, old_name, new_name)->Ok_0,
            other,
        ) == stored_default_value(m, other),
{
    lemma_keys_differ();
}

/// Each environment that pins a console counts once, and no other does: the
/// count grows by one with an environment that pins it, stays with one that
/// does not, and is none without environments.
pub proof fn pins_are_counted(
    m: Map<Seq<char>, Node>,
    envs: Map<Seq<char>, Node>,
    env: Seq<char>,
    entry: Map<Seq<char>, Node>,
    remote: Seq<char>,
)
    requires
        !m.contains_key("environments"@),
        !envs.contains_key(env),
        envs.dom().finite(),
    ensures
        pin_count(m, remote) == 0,
        pin_count(m.insert("environments"@, Node::Section(Map::empty())), remote) == 0,
        pin_count(
            m.insert("environments"@, Node::Section(envs.insert(env, Node::Section(entry)))),
            remote,
        ) == pin_count(m.insert("environments"@, Node::Section(envs)), remote) + (
        if entry.contains_key("remote"@) && entry["remote"@] == Node::Text(remote) {
            1nat
        } else {
            0nat
        }),
{
    let none = Map::<Seq<char>, Node>::empty();
    let more = envs.insert(env, Node::Section(entry));
    let a = pinning(envs, remote);
    let b = pinning(more, remote);
    assert(pinning(none, remote) =~= Set::<Seq<char>>::empty());
    envs.dom().lemma_len_filter(|k: Seq<char>| pins(envs[k], remote));
    assert(a.finite());
    if entry.contains_key("remote"@) && entry["remote"@] == Node::Text(remote) {
        assert(b =~= a.insert(env));
        assert(!a.contains(env));
    } else {
        assert(b =~= a);
    }
}

/// Writing a console keeps every comment that stands elsewhere than with the
/// four values of that console and with the default: those of headers, of other
/// consoles, of other sections, and those at the end.
pub proof fn comments_elsewhere_stay(
    before: Map<Seq<Seq<char>>, Multiset<Seq<char>>>,
    after: Map<Seq<Seq<char>>, Multiset<Seq<char>>>,
    name: Seq<char>,
    org_given: bool,
    org_id_given: bool,
    other: Seq<char>,
    key: Seq<char>,
)
    requires
        comments_stay(before, after, written_values(name, org_given, org_id_given)),
    ensures
        at(after, Seq::empty()) == at(before, Seq::empty()),
        at(after, seq!["remotes"@]) == at(before, seq!["remotes"@]),
        at(after, seq!["remotes"@, name]) == at(before, seq!["remotes"@, name]),
        other != name ==> at(after, seq!["remotes"@, other, key]) == at(
            before,
            seq!["remotes"@, other, key],
        ),
        key != "api_url"@ && key != "token"@ && key != "org"@ && key != "org_id"@ ==> at(
            after,
            seq!["remotes"@, name, key],
        ) == at(before, seq!["remotes"@, name, key]),
        !org_given ==> at(after, seq!["remotes"@, name, "org"@]) == at(
            before,
            seq!["remotes"@, name, "org"@],
        ),
        !org_id_given ==> at(after, seq!["remotes"@, name, "org_id"@]) == at(
            before,
            seq!["remotes"@, name, "org_id"@],
        ),
        at(after, seq!["defaults"@]) == at(before, seq!["defaults"@]),
        key != "remote"@ ==> at(after, seq!["defaults"@, key]) == at(before, seq!["defaults"@, key]),
        other != "remotes"@ && other != "defaults"@ ==> at(after, seq![other, key]) == at(
            before,
            seq![other, key],
        ),
{
    lemma_keys_differ();
    let but = written_values(name, org_given, org_id_given);
    let e = Seq::<Seq<char>>::empty();
    let r = seq!["remotes"@];
    let rn = seq!["remotes"@, name];
    let rok = seq!["remotes"@, other, key];
    let rnk = seq!["remotes"@, name, key];
    let ro = seq!["remotes"@, name, "org"@];
    let ri = seq!["remotes"@, name, "org_id"@];
    let d = seq!["defaults"@];
    let dk = seq!["defaults"@, key];
    let ok = seq![other, key];
    assert(!but(e));
    assert(!but(r));
    assert(!but(rn));
    assert(!but(d));
    assert(rok.skip(1)[0] == other);
    assert(rnk.skip(1).skip(1)[0] == key);
    assert(ro.skip(1).skip(1)[0] == "org"@);
    assert(ri.skip(1).skip(1)[0] == "org_id"@);
    assert(dk.skip(1)[0] == key);
    assert(other != name ==> !but(rok));
    assert(key != "api_url"@ && key != "token"@ && key != "org"@ && key != "org_id"@ ==> !but(rnk));
    assert(!org_given ==> !but(ro));
    assert(!org_id_given ==> !but(ri));
    assert(key != "remote"@ ==> !but(dk));
    assert(other != "remotes"@ && other != "defaults"@ ==> !but(ok));
    assert(at(after, e) == at(before, e));
    assert(at(after, r) == at(before, r));
    assert(at(after, rn) == at(before, rn));
    assert(at(after, d) == at(before, d));
    assert(!but(rok) ==> at(after, rok) == at(before, rok));
    assert(!but(rnk) ==> at(after, rnk) == at(before, rnk));
    assert(!but(ro) ==> at(after, ro) == at(before, ro));
    assert(!but(ri) ==> at(after, ri) == at(before, ri));
    assert(!but(dk) ==> at(after, dk) == at(before, dk));
    assert(!but(ok) ==> at(after, ok) == at(before, ok));
}

/// What is said of a file that cannot be read begins with its path, and comes
/// exactly where the file is no TOML or cannot hold the edit.
pub proof fn when_an_edit_fails(
    r: Result<String, Failure>,
    path: Seq<char>,
    text: Seq<char>,
    name: Seq<char>,
)
    requires
        edit_result(
            r,
            path,
            text,
            |m: Map<Seq<char>, Node>| with_default(m, name),
            staying_but(default_value()),
        ),
    ensures
        document_of(text) is None ==> r is Err && has_prefix(
            r->Err_0@,
            "parsing "@ + path + ": "@,
        ),
        r is Ok <==> document_of(text) is Some && (!document_of(text)->0.contains_key("defaults"@)
            || document_of(text)->0["defaults"@] is Section),
{
}

} // verus!
