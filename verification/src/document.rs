//! TOML documents that are edited in place.
//!
//! Editing goes through the `toml_edit` crate, which keeps the comments and
//! the layout that a user wrote. This module says what is relied on of it:
//! a document is a map from keys to nodes, each edit changes that map in one
//! stated way, and a document that was written out reads back as the same map
//! where what was written is TOML. The comments are a map of their own, from
//! the path of an entry to the comments that stand with it.
//!
//! There are documents that are written as a text that is no TOML. They come
//! of files that mix dotted keys with headers that go through the same tables,
//! and of headers with more keys than the parser takes.

use toml_edit::{DocumentMut, Item, Table, TomlError};
use vstd::multiset::Multiset;
use vstd::prelude::*;
use vstd::string::*;

verus! {

/// What stands under a key.
pub enum Node {
    /// A string.
    Text(Seq<char>),
    /// A table, in whichever way it is written, other than inline.
    Section(Map<Seq<char>, Node>),
    /// Anything else, by what it says apart from comments and layout.
    Other(Seq<char>),
}

/// How many times `c` stands at the end of `s`.
pub open spec fn end_run(s: Seq<char>, c: char) -> nat
    decreases s.len(),
{
    if s.len() > 0 && s.last() == c {
        end_run(s.drop_last(), c) + 1
    } else {
        0
    }
}

/// The length of the longest row of `c`s in `s`.
pub open spec fn longest_run(s: Seq<char>, c: char) -> nat
    decreases s.len(),
{
    if s.len() == 0 {
        0
    } else {
        let before = longest_run(s.drop_last(), c);
        let here = end_run(s, c);
        if before < here {
            here
        } else {
            before
        }
    }
}

/// A string that can be written out: the writer counts the quotes that follow
/// each other in a byte.
pub open spec fn quotable(s: Seq<char>) -> bool {
    longest_run(s, '\'') < 256 && longest_run(s, '"') < 256
}

fn short_runs(s: &str, c: char) -> (r: bool)
    ensures
        r == (longest_run(s@, c) < 256),
{
    let v = crate::text::chars_of(s);
    let mut i: usize = 0;
    let mut here: usize = 0;
    let mut ok = true;
    while i < v.len()
        invariant
            i <= v.len(),
            v@ == s@,
            here == end_run(s@.take(i as int), c),
            here <= i,
            ok == (longest_run(s@.take(i as int), c) < 256),
        decreases v.len() - i,
    {
        proof {
            assert(s@.take(i + 1).drop_last() =~= s@.take(i as int));
        }
        if v[i] == c {
            here = here + 1;
        } else {
            here = 0;
        }
        if here >= 256 {
            ok = false;
        }
        i = i + 1;
    }
    proof {
        assert(s@.take(i as int) =~= s@);
    }
    ok
}

/// Whether a string can be written out.
pub fn is_quotable(s: &str) -> (r: bool)
    ensures
        r == quotable(s@),
{
    short_runs(s, '\'') && short_runs(s, '"')
}

/// The document type of `toml_edit`.
#[verifier::external_type_specification]
#[verifier::external_body]
pub struct ExDocumentMut(toml_edit::DocumentMut);

/// The table type of `toml_edit`.
#[verifier::external_type_specification]
#[verifier::external_body]
pub struct ExTable(toml_edit::Table);

/// What stands under a key in a table of `toml_edit`.
#[verifier::external_type_specification]
#[verifier::external_body]
pub struct ExItem(toml_edit::Item);

/// The parse error of `toml_edit`.
#[verifier::external_type_specification]
#[verifier::external_body]
pub struct ExTomlError(toml_edit::TomlError);

/// The map that a text writes in TOML, if it is TOML.
pub uninterp spec fn document_of(text: Seq<char>) -> Option<Map<Seq<char>, Node>>;

/// The text that a document is written as.
pub uninterp spec fn written_of(document: DocumentMut) -> Seq<char>;

/// The root table of a document.
pub uninterp spec fn root_of(document: DocumentMut) -> Table;

/// What a table holds.
pub uninterp spec fn entries_of(table: Table) -> Map<Seq<char>, Node>;

/// Writing the items of a table, and all below them, leaves nothing out: none
/// is the empty item, no table below is hidden while it is empty, none that may
/// be hidden has a comment with its header, and each string, comment and layout
/// comes from the parser or is quotable.
pub uninterp spec fn table_sound(table: Table) -> bool;

/// What an item says.
pub uninterp spec fn node_of(item: Item) -> Node;

/// Writing an item leaves nothing out, in the sense of `table_sound`.
pub uninterp spec fn item_sound(item: Item) -> bool;

/// The comments of a text that is TOML, by the path of the entry that they
/// stand with: above it, behind it or, in an array, inside it. Those at the end
/// of the text, with no entry after them, have the empty path. A path without
/// comments is not in the map.
pub uninterp spec fn comments_in(text: Seq<char>) -> Map<Seq<Seq<char>>, Multiset<Seq<char>>>;

/// The comments at the end of a document.
pub uninterp spec fn closing_of(document: DocumentMut) -> Multiset<Seq<char>>;

/// The comments that a table's entries are written out with, by their paths
/// from that table. The empty path has those that stand with the table's own
/// header, which is written where the table has values or is not implicit; a
/// table of dotted keys has no header.
pub uninterp spec fn comments_of(table: Table) -> Map<Seq<Seq<char>>, Multiset<Seq<char>>>;

/// The comments of the table that an item is; none for any other item.
pub uninterp spec fn item_comments(item: Item) -> Map<Seq<Seq<char>>, Multiset<Seq<char>>>;

/// The header of the table is left out while the table has no values.
pub uninterp spec fn implicit_of(table: Table) -> bool;

/// The comments at a path.
pub open spec fn at(
    comments: Map<Seq<Seq<char>>, Multiset<Seq<char>>>,
    path: Seq<Seq<char>>,
) -> Multiset<Seq<char>> {
    if comments.contains_key(path) {
        comments[path]
    } else {
        Multiset::empty()
    }
}

/// The comments below a key, by their paths from there.
pub open spec fn under(comments: Map<Seq<Seq<char>>, Multiset<Seq<char>>>, key: Seq<char>) -> Map<
    Seq<Seq<char>>,
    Multiset<Seq<char>>,
> {
    Map::new(
        |p: Seq<Seq<char>>| p.len() > 0 && comments.contains_key(seq![key] + p),
        |p: Seq<Seq<char>>| comments[seq![key] + p],
    )
}

/// The comments that stand neither with a key nor below it.
pub open spec fn beside(comments: Map<Seq<Seq<char>>, Multiset<Seq<char>>>, key: Seq<char>) -> Map<
    Seq<Seq<char>>,
    Multiset<Seq<char>>,
> {
    Map::new(
        |p: Seq<Seq<char>>| comments.contains_key(p) && (p.len() == 0 || p[0] != key),
        |p: Seq<Seq<char>>| comments[p],
    )
}

/// The comments of a document, from those of its root table and of its end.
pub open spec fn closed_with(
    comments: Map<Seq<Seq<char>>, Multiset<Seq<char>>>,
    closing: Multiset<Seq<char>>,
) -> Map<Seq<Seq<char>>, Multiset<Seq<char>>> {
    if closing.len() == 0 {
        comments.remove(Seq::empty())
    } else {
        comments.insert(Seq::empty(), closing)
    }
}

/// The comments of a document.
pub open spec fn document_comments(document: DocumentMut) -> Map<
    Seq<Seq<char>>,
    Multiset<Seq<char>>,
> {
    closed_with(comments_of(root_of(document)), closing_of(document))
}

/// The comments of a table that stand below a key are those of the item there,
/// and so are those that stand with the key, where the item is a table.
pub open spec fn comments_meet(table: Table, key: Seq<char>, item: Item) -> bool {
    &&& under(comments_of(table), key) == item_comments(item).remove(Seq::empty())
    &&& item_sound(item) && node_of(item) is Section ==> at(comments_of(table), seq![key]) == at(
        item_comments(item),
        Seq::empty(),
    )
}

/// No comment is lost with the table's header.
pub open spec fn header_kept(table: Table) -> bool {
    implicit_of(table) ==> at(comments_of(table), Seq::empty()).len() == 0
}

/// `DocumentMut`'s `FromStr`: a text parses exactly where it is TOML, into the
/// map that it writes, with its comments. Writing what parsing yields leaves
/// nothing out.
#[verifier::external_body]
pub(crate) fn parse_document(text: &str) -> (r: Result<DocumentMut, TomlError>)
    ensures
        match r {
            Ok(document) => document_of(text@) == Some(entries_of(root_of(document)))
                && table_sound(root_of(document)) && comments_in(text@) == document_comments(
                document,
            ),
            Err(_) => document_of(text@) is None,
        },
{
    text.parse()
}

/// `TomlError`'s `Display`: where and why a text is not TOML. Nothing is said
/// of the wording.
#[verifier::external_body]
pub(crate) fn error_text(error: &TomlError) -> (r: String)
{
    error.to_string()
}

/// `DocumentMut`'s `Display`: the text that a document is written as. Where
/// that text is TOML it reads back as the map that the document holds, with the
/// document's comments. When it is TOML, and which layout it has otherwise, is
/// not said.
#[verifier::external_body]
pub(crate) fn render(document: &DocumentMut) -> (text: String)
    requires
        table_sound(root_of(*document)),
    ensures
        text@ == written_of(*document),
        document_of(text@) is Some ==> document_of(text@) == Some(entries_of(root_of(*document))),
        document_of(text@) is Some ==> comments_in(text@) == document_comments(*document),
{
    document.to_string()
}

/// `DocumentMut::as_table_mut` lends the root table.
pub assume_specification<'a>[ DocumentMut::as_table_mut ](document: &'a mut DocumentMut) -> (table:
    &'a mut Table)
    requires
        table_sound(root_of(*old(document))),
    ensures
        *table == root_of(*old(document)),
        root_of(*final(document)) == *final(table),
        closing_of(*final(document)) == closing_of(*old(document)),
;

/// `Table::entry` and `Entry::or_insert`, with the empty table of
/// `toml_edit::table`: lends what stands under a key, after putting an empty
/// table there where nothing stood. What stands beside the key stays, with its
/// comments.
#[verifier::external_body]
pub(crate) fn entry_or_table<'a>(table: &'a mut Table, key: &str) -> (item: &'a mut Item)
    requires
        table_sound(*old(table)),
    ensures
        item_sound(*item),
        node_of(*item) == (if entries_of(*old(table)).contains_key(key@) {
            entries_of(*old(table))[key@]
        } else {
            Node::Section(Map::empty())
        }),
        item_sound(*final(item)) ==> entries_of(*final(table)) == entries_of(*old(table)).insert(
            key@,
            node_of(*final(item)),
        ),
        item_sound(*final(item)) ==> table_sound(*final(table)),
        entries_of(*old(table)).contains_key(key@) && *final(item) == *item ==> *final(table)
            == *old(table),
        !entries_of(*old(table)).contains_key(key@) ==> at(
            item_comments(*item),
            Seq::empty(),
        ).len() == 0,
        comments_meet(*old(table), key@, *item),
        comments_meet(*final(table), key@, *final(item)),
        beside(comments_of(*final(table)), key@) == beside(comments_of(*old(table)), key@),
        implicit_of(*final(table)) == implicit_of(*old(table)),
{
    table.entry(key).or_insert(toml_edit::table())
}

/// `Item::as_table_mut` lends the table that an item is, where it is one. Of
/// an item whose table was changed nothing is left out if none of the table's
/// items is, it is not empty, and no comment is lost with its header.
pub assume_specification<'a>[ Item::as_table_mut ](item: &'a mut Item) -> (table: Option<
    &'a mut Table,
>)
    ensures
        match node_of(*old(item)) {
            Node::Section(entries) => {
                &&& table is Some
                &&& entries_of(*table->0) == entries
                &&& item_sound(*old(item)) ==> table_sound(*table->0) && header_kept(*table->0)
                &&& comments_of(*table->0) == item_comments(*old(item))
                &&& item_comments(*final(item)) == comments_of(*final(table->0))
                &&& node_of(*final(item)) == Node::Section(entries_of(*final(table->0)))
                &&& table_sound(*final(table->0)) && entries_of(*final(table->0)).dom()
                    != Set::<Seq<char>>::empty() && header_kept(*final(table->0)) ==> item_sound(
                    *final(item),
                )
                &&& *final(table->0) == *table->0 ==> *final(item) == *old(item)
            },
            _ => table is None && *final(item) == *old(item),
        },
;

/// `Table::get_mut` lends what stands under a key. What stands beside the key
/// stays, with its comments.
pub assume_specification<'a>[ Table::get_mut ](table: &'a mut Table, key: &str) -> (item: Option<
    &'a mut Item,
>)
    ensures
        if entries_of(*old(table)).contains_key(key@) {
            &&& item is Some
            &&& node_of(*item->0) == entries_of(*old(table))[key@]
            &&& table_sound(*old(table)) ==> item_sound(*item->0)
            &&& item_sound(*final(item->0)) ==> entries_of(*final(table)) == entries_of(
                *old(table),
            ).insert(key@, node_of(*final(item->0)))
            &&& table_sound(*old(table)) && item_sound(*final(item->0)) ==> table_sound(
                *final(table),
            )
            &&& *final(item->0) == *item->0 ==> *final(table) == *old(table)
            &&& comments_meet(*old(table), key@, *item->0)
            &&& comments_meet(*final(table), key@, *final(item->0))
            &&& beside(comments_of(*final(table)), key@) == beside(comments_of(*old(table)), key@)
            &&& implicit_of(*final(table)) == implicit_of(*old(table))
        } else {
            item is None && *final(table) == *old(table)
        },
;

/// `Table::get` gives what stands under a key.
pub assume_specification<'a>[ Table::get ](table: &'a Table, key: &str) -> (item: Option<&'a Item>)
    ensures
        match item {
            Some(found) => entries_of(*table).contains_key(key@) && node_of(*found) == entries_of(
                *table,
            )[key@],
            None => !entries_of(*table).contains_key(key@),
        },
;

/// `Item::as_str` gives the string that an item is, where it is one.
pub assume_specification<'a>[ Item::as_str ](item: &'a Item) -> (text: Option<&'a str>)
    ensures
        match text {
            Some(found) => node_of(*item) == Node::Text(found@),
            None => !(node_of(*item) is Text),
        },
;

/// `Table::contains_key` tells whether something stands under a key.
pub assume_specification[ Table::contains_key ](table: &Table, key: &str) -> (r: bool)
    ensures
        r == entries_of(*table).contains_key(key@),
;

/// `Table::len` counts the keys.
pub assume_specification[ Table::len ](table: &Table) -> (n: usize)
    ensures
        n == entries_of(*table).dom().len(),
;

/// `Table::set_implicit` says whether the header of a table without values is
/// left out. It changes nothing that the table holds, nor its comments.
pub assume_specification[ Table::set_implicit ](table: &mut Table, implicit: bool)
    ensures
        entries_of(*final(table)) == entries_of(*old(table)),
        table_sound(*final(table)) == table_sound(*old(table)),
        implicit_of(*final(table)) == implicit,
        comments_of(*final(table)) == comments_of(*old(table)),
;

/// `Table`'s `IndexMut` and `toml_edit::value`: puts a string under a key, in
/// place of what stood there. What stands beside the key stays, with its
/// comments.
#[verifier::external_body]
pub(crate) fn set_text(table: &mut Table, key: &str, value: &str)
    requires
        quotable(value@),
    ensures
        entries_of(*final(table)) == entries_of(*old(table)).insert(key@, Node::Text(value@)),
        table_sound(*old(table)) ==> table_sound(*final(table)),
        beside(comments_of(*final(table)), key@) == beside(comments_of(*old(table)), key@),
        implicit_of(*final(table)) == implicit_of(*old(table)),
{
    table[key] = toml_edit::value(value);
}

/// `Table::remove` takes out what stands under a key, with its comments.
pub assume_specification[ Table::remove ](table: &mut Table, key: &str) -> (item: Option<Item>)
    requires
        table_sound(*old(table)),
    ensures
        match item {
            Some(found) => entries_of(*old(table)).contains_key(key@) && node_of(found)
                == entries_of(*old(table))[key@] && item_sound(found) && comments_meet(
                *old(table),
                key@,
                found,
            ),
            None => !entries_of(*old(table)).contains_key(key@),
        },
        entries_of(*final(table)) == entries_of(*old(table)).remove(key@),
        table_sound(*final(table)),
        comments_of(*final(table)) == beside(comments_of(*old(table)), key@),
        implicit_of(*final(table)) == implicit_of(*old(table)),
;

/// `Table::insert` puts an item under a key, in place of what stood there. What
/// stands beside the key stays, with its comments.
pub assume_specification[ Table::insert ](table: &mut Table, key: &str, item: Item) -> (prior:
    Option<Item>)
    requires
        item_sound(item),
    ensures
        entries_of(*final(table)) == entries_of(*old(table)).insert(key@, node_of(item)),
        table_sound(*old(table)) ==> table_sound(*final(table)),
        comments_meet(*final(table), key@, item),
        beside(comments_of(*final(table)), key@) == beside(comments_of(*old(table)), key@),
        implicit_of(*final(table)) == implicit_of(*old(table)),
;

/// `Table::iter`: the keys of a table, each of them once.
#[verifier::external_body]
pub(crate) fn keys_of(table: &Table) -> (keys: Vec<String>)
    ensures
        crate::text::views(keys@).no_duplicates(),
        crate::text::views(keys@).to_set() == entries_of(*table).dom(),
{
    table.iter().map(|entry| entry.0.to_string()).collect()
}

proof fn lemma_runs_fit(s: Seq<char>, c: char)
    ensures
        end_run(s, c) <= s.len(),
        longest_run(s, c) <= s.len(),
        !s.contains(c) ==> end_run(s, c) == 0 && longest_run(s, c) == 0,
    decreases s.len(),
{
    if s.len() > 0 {
        lemma_runs_fit(s.drop_last(), c);
        assert(s.contains(s[s.len() - 1]));
        if s.drop_last().contains(c) {
            let j = choose|j: int| 0 <= j < s.drop_last().len() && s.drop_last()[j] == c;
            assert(s[j] == c);
        }
    }
}

/// A string of fewer than 256 characters can be written out, and so can one
/// without quotes, however long.
pub proof fn usual_strings_can_be_written(s: Seq<char>)
    ensures
        s.len() < 256 ==> quotable(s),
        !s.contains('\'') && !s.contains('"') ==> quotable(s),
{
    lemma_runs_fit(s, '\'');
    lemma_runs_fit(s, '"');
}

} // verus!
