//! JSON values, as the console and the gateway speak them and as the deploy
//! log on a box records them.

use crate::names::{lookup, position, position_is_the_first, NameMap};
use crate::text::same;
use serde_json::Value;
use vstd::prelude::*;
use vstd::string::*;

verus! {

/// What a JSON value says.
pub enum Tree {
    Null,
    Bool(bool),
    /// A number, as an unsigned and as a signed integer where it is one.
    Number(Option<u64>, Option<i64>),
    Text(Seq<char>),
    List(Seq<Tree>),
    Object(Seq<(Seq<char>, Tree)>),
}

/// A JSON value.
pub enum Json {
    Null,
    Bool(bool),
    Number(Option<u64>, Option<i64>),
    Text(String),
    List(Vec<Json>),
    Object(Vec<(String, Json)>),
}

impl Json {
    /// What the value says.
    pub open spec fn tree(&self) -> Tree
        decreases self,
    {
        match self {
            Json::Null => Tree::Null,
            Json::Bool(b) => Tree::Bool(*b),
            Json::Number(u, i) => Tree::Number(*u, *i),
            Json::Text(s) => Tree::Text(s@),
            Json::List(v) => Tree::List(trees(v@)),
            Json::Object(v) => Tree::Object(fields(v@)),
        }
    }
}

pub open spec fn trees(s: Seq<Json>) -> Seq<Tree>
    decreases s,
{
    if s.len() == 0 {
        Seq::empty()
    } else {
        trees(s.drop_last()).push(s.last().tree())
    }
}

pub open spec fn fields(s: Seq<(String, Json)>) -> Seq<(Seq<char>, Tree)>
    decreases s,
{
    if s.len() == 0 {
        Seq::empty()
    } else {
        fields(s.drop_last()).push((s.last().0@, s.last().1.tree()))
    }
}

// ---------------------------------------------------------------------
// Reading a value
// ---------------------------------------------------------------------

impl Tree {
    /// What stands under a key: null where nothing does.
    pub open spec fn get(self, key: Seq<char>) -> Tree {
        match self {
            Tree::Object(fields) => match lookup(fields, key) {
                Some(found) => found,
                None => Tree::Null,
            },
            _ => Tree::Null,
        }
    }

    /// What stands at a place of a list: null where nothing does.
    pub open spec fn at(self, i: int) -> Tree {
        match self {
            Tree::List(items) => if 0 <= i < items.len() {
                items[i]
            } else {
                Tree::Null
            },
            _ => Tree::Null,
        }
    }

    /// The string that the value is.
    pub open spec fn text(self) -> Option<Seq<char>> {
        match self {
            Tree::Text(s) => Some(s),
            _ => None,
        }
    }

    /// The string that the value is, or else the given one.
    pub open spec fn text_or(self, other: Seq<char>) -> Seq<char> {
        match self {
            Tree::Text(s) => s,
            _ => other,
        }
    }

    /// The items of the list that the value is: none where it is no list.
    pub open spec fn items(self) -> Seq<Tree> {
        match self {
            Tree::List(items) => items,
            _ => Seq::empty(),
        }
    }

    pub open spec fn unsigned(self) -> Option<u64> {
        match self {
            Tree::Number(u, _) => u,
            _ => None,
        }
    }

    pub open spec fn signed(self) -> Option<i64> {
        match self {
            Tree::Number(_, i) => i,
            _ => None,
        }
    }

    pub open spec fn is_true(self) -> bool {
        self == Tree::Bool(true)
    }

    /// The value is an object with something in it.
    pub open spec fn has_fields(self) -> bool {
        match self {
            Tree::Object(fields) => fields.len() > 0,
            _ => false,
        }
    }
}

proof fn lemma_trees(s: Seq<Json>)
    ensures
        trees(s).len() == s.len(),
        forall|i: int| 0 <= i < s.len() ==> (#[trigger] trees(s)[i]) == s[i].tree(),
    decreases s.len(),
{
    if s.len() > 0 {
        lemma_trees(s.drop_last());
    }
}

proof fn lemma_fields(s: Seq<(String, Json)>)
    ensures
        fields(s).len() == s.len(),
        forall|i: int|
            0 <= i < s.len() ==> (#[trigger] fields(s)[i]) == (s[i].0@, s[i].1.tree()),
    decreases s.len(),
{
    if s.len() > 0 {
        lemma_fields(s.drop_last());
    }
}

impl Json {
    /// What stands under a key, if anything does.
    pub fn field(&self, key: &str) -> (r: Option<&Json>)
        ensures
            match r {
                Some(found) => self.tree().get(key@) == found.tree(),
                None => self.tree().get(key@) == Tree::Null,
            },
    {
        match self {
            Json::Object(v) => {
                let ghost all = fields(v@);
                proof {
                    lemma_fields(v@);
                    assert(all.skip(0) =~= all);
                }
                let mut i: usize = 0;
                while i < v.len()
                    invariant
                        i <= v.len(),
                        all == fields(v@),
                        all.len() == v@.len(),
                        forall|i: int|
                            0 <= i < v@.len() ==> (#[trigger] all[i]) == (v@[i].0@, v@[i].1.tree()),
                        position(all, key@) == (match position(all.skip(i as int), key@) {
                            Some(k) => Some(k + i),
                            None => None,
                        }),
                        self.tree() == Tree::Object(all),
                    decreases v.len() - i,
                {
                    proof {
                        assert(all.skip(i as int).skip(1) =~= all.skip(i + 1));
                        assert(all.skip(i as int)[0] == all[i as int]);
                    }
                    if same(v[i].0.as_str(), key) {
                        return Some(&v[i].1);
                    }
                    i = i + 1;
                }
                None
            },
            _ => None,
        }
    }

    /// What stands under the last of a row of keys, each under the one before.
    pub fn field2(&self, first: &str, second: &str) -> (r: Option<&Json>)
        ensures
            match r {
                Some(found) => self.tree().get(first@).get(second@) == found.tree(),
                None => self.tree().get(first@).get(second@) == Tree::Null,
            },
    {
        match self.field(first) {
            Some(found) => found.field(second),
            None => None,
        }
    }

    /// The string under a key.
    pub fn text_at(&self, key: &str) -> (r: Option<&str>)
        ensures
            crate::text::opt_str(r) == self.tree().get(key@).text(),
    {
        match self.field(key) {
            Some(Json::Text(s)) => Some(s.as_str()),
            _ => None,
        }
    }

    /// The string under the second of two keys.
    pub fn text_at2(&self, first: &str, second: &str) -> (r: Option<&str>)
        ensures
            crate::text::opt_str(r) == self.tree().get(first@).get(second@).text(),
    {
        match self.field2(first, second) {
            Some(Json::Text(s)) => Some(s.as_str()),
            _ => None,
        }
    }

    /// The string under a key of the first item of the list under two keys.
    pub fn first_text_at2(&self, first: &str, second: &str, key: &str) -> (r: Option<&str>)
        ensures
            crate::text::opt_str(r) == self.tree().get(first@).get(second@).at(0).get(key@).text(),
    {
        match self.field2(first, second) {
            Some(Json::List(v)) => {
                proof {
                    lemma_trees(v@);
                }
                if v.len() > 0 {
                    v[0].text_at(key)
                } else {
                    None
                }
            },
            _ => None,
        }
    }

    /// The string under a key, or else the given one.
    pub fn text_or<'a>(&'a self, key: &str, other: &'a str) -> (r: &'a str)
        ensures
            r@ == self.tree().get(key@).text_or(other@),
    {
        match self.text_at(key) {
            Some(s) => s,
            None => other,
        }
    }

    /// Whether the string under a key is the given one.
    pub fn text_is(&self, key: &str, text: &str) -> (r: bool)
        ensures
            r == (self.tree().get(key@).text() == Some(text@)),
    {
        match self.text_at(key) {
            Some(s) => same(s, text),
            None => false,
        }
    }

    /// How many items the list under a key has.
    pub fn count_at(&self, key: &str) -> (n: usize)
        ensures
            n == self.tree().get(key@).items().len(),
    {
        match self.field(key) {
            Some(Json::List(v)) => {
                proof {
                    lemma_trees(v@);
                }
                v.len()
            },
            _ => 0,
        }
    }

    /// An item of the list under a key.
    pub fn item_at(&self, key: &str, i: usize) -> (r: &Json)
        requires
            i < self.tree().get(key@).items().len(),
        ensures
            r.tree() == self.tree().get(key@).items()[i as int],
    {
        match self.field(key) {
            Some(Json::List(v)) => {
                proof {
                    lemma_trees(v@);
                }
                &v[i]
            },
            _ => self,
        }
    }

    /// The unsigned integer under a key.
    pub fn unsigned_at(&self, key: &str) -> (r: Option<u64>)
        ensures
            r == self.tree().get(key@).unsigned(),
    {
        match self.field(key) {
            Some(Json::Number(u, _)) => *u,
            _ => None,
        }
    }

    /// The signed integer under a key.
    pub fn signed_at(&self, key: &str) -> (r: Option<i64>)
        ensures
            r == self.tree().get(key@).signed(),
    {
        match self.field(key) {
            Some(Json::Number(_, i)) => *i,
            _ => None,
        }
    }

    /// Whether `true` stands under a key.
    pub fn true_at(&self, key: &str) -> (r: bool)
        ensures
            r == self.tree().get(key@).is_true(),
    {
        match self.field(key) {
            Some(Json::Bool(b)) => *b,
            _ => false,
        }
    }

    /// Whether an object with something in it stands under a key.
    pub fn fields_at(&self, key: &str) -> (r: bool)
        ensures
            r == self.tree().get(key@).has_fields(),
    {
        match self.field(key) {
            Some(Json::Object(v)) => {
                proof {
                    lemma_fields(v@);
                }
                v.len() > 0
            },
            _ => false,
        }
    }
}

// ---------------------------------------------------------------------
// Parsing
// ---------------------------------------------------------------------

/// The value type of `serde_json`.
#[verifier::external_type_specification]
#[verifier::external_body]
pub struct ExValue(serde_json::Value);

/// The error type of `serde_json`.
#[verifier::external_type_specification]
#[verifier::external_body]
pub struct ExJsonError(serde_json::Error);

/// What a value of `serde_json` says.
pub uninterp spec fn value_tree(value: Value) -> Tree;

/// The JSON value that a text writes, if it writes one.
pub uninterp spec fn json_of(text: Seq<char>) -> Option<Tree>;

/// The top of a value of `serde_json`.
pub enum Top {
    Null,
    Bool(bool),
    Number(Option<u64>, Option<i64>),
    Text(String),
    List(Vec<Value>),
    Object(Vec<(String, Value)>),
}

/// `serde_json::from_str` reads the value that a text writes, and fails where
/// it writes none.
#[verifier::external_body]
fn parse_value(text: &str) -> (r: Result<Value, serde_json::Error>)
    ensures
        match r {
            Ok(value) => json_of(text@) == Some(value_tree(value)),
            Err(_) => json_of(text@) is None,
        },
{
    serde_json::from_str(text)
}

pub open spec fn value_trees(s: Seq<Value>) -> Seq<Tree> {
    s.map_values(|v: Value| value_tree(v))
}

pub open spec fn value_fields(s: Seq<(String, Value)>) -> Seq<(Seq<char>, Tree)> {
    s.map_values(|e: (String, Value)| (e.0@, value_tree(e.1)))
}

/// The variants of `serde_json::Value`, with `Number::as_u64` and
/// `Number::as_i64`: the top of a value, and below it the values that it is
/// made of.
#[verifier::external_body]
fn take_apart(value: Value) -> (r: Top)
    ensures
        value_tree(value) == (match r {
            Top::Null => Tree::Null,
            Top::Bool(b) => Tree::Bool(b),
            Top::Number(u, i) => Tree::Number(u, i),
            Top::Text(s) => Tree::Text(s@),
            Top::List(v) => Tree::List(value_trees(v@)),
            Top::Object(v) => Tree::Object(value_fields(v@)),
        }),
{
    match value {
        Value::Null => Top::Null,
        Value::Bool(b) => Top::Bool(b),
        Value::Number(n) => Top::Number(n.as_u64(), n.as_i64()),
        Value::String(s) => Top::Text(s),
        Value::Array(v) => Top::List(v),
        Value::Object(m) => Top::Object(m.into_iter().collect()),
    }
}

impl Json {
    /// The value that a value of `serde_json` is.
    pub fn from_value(value: Value) -> (r: Json)
        ensures
            r.tree() == value_tree(value),
        decreases value_tree(value),
    {
        match take_apart(value) {
            Top::Null => Json::Null,
            Top::Bool(b) => Json::Bool(b),
            Top::Number(u, i) => Json::Number(u, i),
            Top::Text(s) => Json::Text(s),
            Top::List(v) => {
                let ghost all = v@;
                let mut rest = v;
                let mut out: Vec<Json> = Vec::new();
                while rest.len() > 0
                    invariant
                        value_tree(value) == Tree::List(value_trees(all)),
                        rest.len() + out.len() == all.len(),
                        rest@ == all.skip(out.len() as int),
                        trees(out@) == value_trees(all).take(out.len() as int),
                    decreases rest.len(),
                {
                    let ghost k = out.len() as int;
                    let item = rest.remove(0);
                    proof {
                        assert(item == all[k]);
                        assert(value_trees(all)[k] == value_tree(item));
                        let t = value_tree(value);
                        assert(decreases_to!(t => t->List_0));
                        assert(decreases_to!(t->List_0 => t->List_0[k]));
                    }
                    let converted = Json::from_value(item);
                    let ghost before = out@;
                    out.push(converted);
                    proof {
                        assert(out@.drop_last() =~= before);
                        assert(value_trees(all).take(k + 1) =~= value_trees(all).take(k).push(
                            value_trees(all)[k],
                        ));
                    }
                }
                proof {
                    assert(value_trees(all).take(out.len() as int) =~= value_trees(all));
                }
                Json::List(out)
            },
            Top::Object(v) => {
                let ghost all = v@;
                let mut rest = v;
                let mut out: Vec<(String, Json)> = Vec::new();
                while rest.len() > 0
                    invariant
                        value_tree(value) == Tree::Object(value_fields(all)),
                        rest.len() + out.len() == all.len(),
                        rest@ == all.skip(out.len() as int),
                        fields(out@) == value_fields(all).take(out.len() as int),
                    decreases rest.len(),
                {
                    let ghost k = out.len() as int;
                    let (key, item) = rest.remove(0);
                    proof {
                        assert((key, item) == all[k]);
                        assert(value_fields(all)[k] == (key@, value_tree(item)));
                        let t = value_tree(value);
                        assert(decreases_to!(t => t->Object_0));
                        assert(decreases_to!(t->Object_0 => t->Object_0[k]));
                        assert(decreases_to!(t->Object_0[k] => t->Object_0[k].1));
                    }
                    let converted = Json::from_value(item);
                    let ghost before = out@;
                    out.push((key, converted));
                    proof {
                        assert(out@.drop_last() =~= before);
                        assert(value_fields(all).take(k + 1) =~= value_fields(all).take(k).push(
                            value_fields(all)[k],
                        ));
                    }
                }
                proof {
                    assert(value_fields(all).take(out.len() as int) =~= value_fields(all));
                }
                Json::Object(out)
            },
        }
    }

    /// The value that a text writes.
    pub fn parse(text: &str) -> (r: Option<Json>)
        ensures
            match r {
                Some(json) => json_of(text@) == Some(json.tree()),
                None => json_of(text@) is None,
            },
    {
        match parse_value(text) {
            Ok(value) => Some(Json::from_value(value)),
            Err(_) => None,
        }
    }
}

// ---------------------------------------------------------------------
// Building a value
// ---------------------------------------------------------------------

/// A string value.
pub fn text_value(s: &str) -> (r: Json)
    ensures
        r.tree() == Tree::Text(s@),
{
    Json::Text(s.to_string())
}

/// What an unsigned number is as a value.
pub open spec fn count_tree(n: u64) -> Tree {
    Tree::Number(
        Some(n),
        if n <= i64::MAX {
            Some(n as i64)
        } else {
            None
        },
    )
}

/// An unsigned number as a value.
pub fn count_value(n: u64) -> (r: Json)
    ensures
        r.tree() == count_tree(n),
{
    let signed = if n <= 9223372036854775807 {
        Some(n as i64)
    } else {
        None
    };
    Json::Number(Some(n), signed)
}

/// What a port number is as a value.
pub open spec fn port_tree(port: u16) -> Tree {
    Tree::Number(Some(port as u64), Some(port as i64))
}

/// A port number as a value.
pub fn port_value(port: u16) -> (r: Json)
    ensures
        r.tree() == port_tree(port),
{
    Json::Number(Some(port as u64), Some(port as i64))
}

/// The fields of an object, with one more at the end.
pub fn with_field(list: Vec<(String, Json)>, key: &str, value: Json) -> (r: Vec<(String, Json)>)
    ensures
        fields(r@) == fields(list@).push((key@, value.tree())),
{
    let ghost before = list@;
    let mut out = list;
    out.push((key.to_string(), value));
    proof {
        assert(out@.drop_last() =~= before);
    }
    out
}

/// What a map of names to strings is as a value.
pub open spec fn names_tree(s: Seq<(Seq<char>, String)>) -> Tree {
    Tree::Object(s.map_values(|e: (Seq<char>, String)| (e.0, Tree::Text(e.1@))))
}

/// A map of names to strings as a value.
pub fn names_value(map: &NameMap<String>) -> (r: Json)
    ensures
        r.tree() == names_tree(map@),
{
    let mut out: Vec<(String, Json)> = Vec::new();
    let mut i: usize = 0;
    let ghost all = map@.map_values(|e: (Seq<char>, String)| (e.0, Tree::Text(e.1@)));
    while i < map.len()
        invariant
            i <= map@.len(),
            all == map@.map_values(|e: (Seq<char>, String)| (e.0, Tree::Text(e.1@))),
            fields(out@) == all.take(i as int),
        decreases map@.len() - i,
    {
        out = with_field(out, map.name_at(i), text_value(map.value_at(i).as_str()));
        proof {
            assert(all.take(i + 1) =~= all.take(i as int).push(all[i as int]));
        }
        i = i + 1;
    }
    proof {
        assert(all.take(i as int) =~= all);
    }
    Json::Object(out)
}

// ---------------------------------------------------------------------
// Laws
// ---------------------------------------------------------------------

/// In an object with different keys each value stands under its key, and
/// nothing under any other.
pub proof fn fields_stand_under_their_keys(list: Seq<(Seq<char>, Tree)>)
    requires
        forall|i: int, j: int|
            0 <= i < j < list.len() ==> (#[trigger] list[i]).0 != (#[trigger] list[j]).0,
    ensures
        forall|i: int|
            0 <= i < list.len() ==> Tree::Object(list).get((#[trigger] list[i]).0) == list[i].1,
        forall|key: Seq<char>|
            (forall|i: int| 0 <= i < list.len() ==> (#[trigger] list[i]).0 != key)
                ==> #[trigger] Tree::Object(list).get(key) == Tree::Null,
{
    assert forall|i: int| 0 <= i < list.len() implies Tree::Object(list).get((#[trigger] list[i]).0)
        == list[i].1 by {
        position_is_the_first(list, list[i].0);
        let p = position(list, list[i].0);
        if p is Some && p->0 < i {
            assert(list[p->0].0 != list[i].0);
        }
    }
    assert forall|key: Seq<char>|
        (forall|i: int| 0 <= i < list.len() ==> (#[trigger] list[i]).0
            != key) implies #[trigger] Tree::Object(list).get(key) == Tree::Null by {
        position_is_the_first(list, key);
    }
}

/// A map of names to strings is an object that holds each string under its
/// name and nothing else.
pub proof fn names_stand_under_their_keys(s: Seq<(Seq<char>, String)>, name: Seq<char>)
    ensures
        names_tree(s).get(name) == (match lookup(s, name) {
            Some(value) => Tree::Text(value@),
            None => Tree::Null,
        }),
{
    let list = names_tree(s)->Object_0;
    position_is_the_first(s, name);
    position_is_the_first(list, name);
    let a = position(s, name);
    let b = position(list, name);
    if a is Some {
        assert(list[a->0].0 == name);
        if b is None {
            assert(list[a->0].0 != name);
        } else if b->0 < a->0 {
            assert(s[b->0].0 == list[b->0].0);
        } else if a->0 < b->0 {
            assert(list[a->0].0 != name);
        }
    } else if b is Some {
        assert(s[b->0].0 == list[b->0].0);
    }
}

/// A number that was put into a value is read from it, as an unsigned and, as
/// far as it fits, as a signed number.
pub proof fn numbers_are_read_back(n: u64, port: u16)
    ensures
        count_tree(n).unsigned() == Some(n),
        n <= i64::MAX ==> count_tree(n).signed() == Some(n as i64),
        port_tree(port).unsigned() == Some(port as u64),
        port_tree(port).signed() == Some(port as i64),
{
}

/// What is read from a value is what stands in it: a string where it is one,
/// an item where the list has it, and nothing where it is something else.
pub proof fn values_are_read_as_they_are(text: Seq<char>, other: Seq<char>, items: Seq<Tree>, i: int)
    ensures
        Tree::Text(text).text() == Some(text),
        Tree::Text(text).text_or(other) == text,
        Tree::Null.text() is None,
        Tree::Null.text_or(other) == other,
        Tree::List(items).text() is None,
        Tree::List(items).items() == items,
        Tree::Null.items().len() == 0,
        0 <= i < items.len() ==> Tree::List(items).at(i) == items[i],
        Tree::Text(text).get(other) == Tree::Null,
{
}

} // verus!
