//! A map from names to values, in the order of the names.
//!
//! Configuration files are read into these maps. Their order shows: it is the
//! order in which alternatives are listed to the user and in which they are
//! tried, so it is part of what the map's contracts state.

use crate::text::same;
use vstd::prelude::*;
use vstd::string::*;

verus! {

/// `a` stands before `b` in the order of strings: by the first character in
/// which they differ, a string before every longer one that begins with it.
pub open spec fn precedes(a: Seq<char>, b: Seq<char>) -> bool
    decreases a.len(),
{
    if b.len() == 0 {
        false
    } else if a.len() == 0 {
        true
    } else if a[0] != b[0] {
        a[0] < b[0]
    } else {
        precedes(a.skip(1), b.skip(1))
    }
}

/// No string stands before itself.
pub proof fn precedes_irreflexive(a: Seq<char>)
    ensures
        !precedes(a, a),
    decreases a.len(),
{
    if a.len() > 0 {
        precedes_irreflexive(a.skip(1));
    }
}

/// The order of strings is transitive.
pub proof fn precedes_transitive(a: Seq<char>, b: Seq<char>, c: Seq<char>)
    requires
        precedes(a, b),
        precedes(b, c),
    ensures
        precedes(a, c),
    decreases a.len(),
{
    if a.len() > 0 && a[0] == b[0] && b[0] == c[0] {
        precedes_transitive(a.skip(1), b.skip(1), c.skip(1));
    }
}

/// Of two different strings one stands before the other.
pub proof fn precedes_total(a: Seq<char>, b: Seq<char>)
    ensures
        precedes(a, b) || a == b || precedes(b, a),
    decreases a.len(),
{
    if a.len() > 0 && b.len() > 0 && a[0] == b[0] {
        precedes_total(a.skip(1), b.skip(1));
        if a.skip(1) == b.skip(1) {
            assert(a =~= seq![a[0]] + a.skip(1));
            assert(b =~= seq![b[0]] + b.skip(1));
        }
    } else if a.len() == 0 && b.len() == 0 {
        assert(a =~= b);
    }
}

/// Whether `a` stands before `b`.
pub fn comes_before(a: &str, b: &str) -> (r: bool)
    ensures
        r == precedes(a@, b@),
{
    let v = crate::text::chars_of(a);
    let w = crate::text::chars_of(b);
    let mut i: usize = 0;
    proof {
        assert(v@.skip(0) =~= v@);
        assert(w@.skip(0) =~= w@);
    }
    while i < v.len() && i < w.len()
        invariant
            i <= v.len(),
            i <= w.len(),
            v@ == a@,
            w@ == b@,
            precedes(a@, b@) == precedes(a@.skip(i as int), b@.skip(i as int)),
        decreases v.len() - i,
    {
        if v[i] != w[i] {
            return v[i] < w[i];
        }
        proof {
            assert(a@.skip(i as int).skip(1) =~= a@.skip(i + 1));
            assert(b@.skip(i as int).skip(1) =~= b@.skip(i + 1));
        }
        i = i + 1;
    }
    i < w.len()
}

/// The names stand in their order, each of them once.
pub open spec fn ordered<V>(s: Seq<(Seq<char>, V)>) -> bool {
    forall|i: int, j: int| 0 <= i < j < s.len() ==> precedes(#[trigger] s[i].0, #[trigger] s[j].0)
}

/// Where `name` stands in `s`.
pub open spec fn position<V>(s: Seq<(Seq<char>, V)>, name: Seq<char>) -> Option<int>
    decreases s.len(),
{
    if s.len() == 0 {
        None
    } else if s[0].0 == name {
        Some(0)
    } else {
        match position(s.skip(1), name) {
            Some(i) => Some(i + 1),
            None => None,
        }
    }
}

/// The value that stands under `name`.
pub open spec fn lookup<V>(s: Seq<(Seq<char>, V)>, name: Seq<char>) -> Option<V> {
    match position(s, name) {
        Some(i) => Some(s[i].1),
        None => None,
    }
}

/// The names of `s`.
pub open spec fn names_of<V>(s: Seq<(Seq<char>, V)>) -> Seq<Seq<char>> {
    s.map_values(|e: (Seq<char>, V)| e.0)
}

/// `s` with `value` under `name`, in place of what stood there.
pub open spec fn inserted<V>(s: Seq<(Seq<char>, V)>, name: Seq<char>, value: V) -> Seq<
    (Seq<char>, V),
>
    decreases s.len(),
{
    if s.len() == 0 {
        seq![(name, value)]
    } else if s[0].0 == name {
        seq![(name, value)] + s.skip(1)
    } else if precedes(name, s[0].0) {
        seq![(name, value)] + s
    } else {
        seq![s[0]] + inserted(s.skip(1), name, value)
    }
}

proof fn lemma_position<V>(s: Seq<(Seq<char>, V)>, name: Seq<char>)
    ensures
        match position(s, name) {
            Some(i) => 0 <= i < s.len() && s[i].0 == name && forall|j: int|
                0 <= j < i ==> (#[trigger] s[j]).0 != name,
            None => forall|j: int| 0 <= j < s.len() ==> (#[trigger] s[j]).0 != name,
        },
    decreases s.len(),
{
    if s.len() > 0 && s[0].0 != name {
        lemma_position(s.skip(1), name);
        let p = position(s.skip(1), name);
        let end = if p is Some { p->0 + 1 } else { s.len() as int };
        assert forall|j: int| 0 <= j < end implies (#[trigger] s[j]).0 != name by {
            if j > 0 {
                assert(s.skip(1)[j - 1].0 != name);
            }
        }
    }
}

/// A name is found at the first place where it stands, and nowhere where it
/// stands at none.
pub proof fn position_is_the_first<V>(s: Seq<(Seq<char>, V)>, name: Seq<char>)
    ensures
        match position(s, name) {
            Some(i) => 0 <= i < s.len() && s[i].0 == name && forall|j: int|
                0 <= j < i ==> (#[trigger] s[j]).0 != name,
            None => forall|j: int| 0 <= j < s.len() ==> (#[trigger] s[j]).0 != name,
        },
        forall|i: int|
            0 <= i < s.len() && s[i].0 == name && (forall|j: int|
                0 <= j < i ==> (#[trigger] s[j]).0 != name) ==> #[trigger] s[i].1 == lookup(
                s,
                name,
            )->0 && position(s, name) == Some(i),
{
    lemma_position(s, name);
}

/// The place where a name stands is the only one where it does.
pub proof fn position_is_unique<V>(s: Seq<(Seq<char>, V)>, i: int)
    requires
        ordered(s),
        0 <= i < s.len(),
    ensures
        position(s, s[i].0) == Some(i),
{
    lemma_position(s, s[i].0);
    let p = position(s, s[i].0);
    if p is None {
        assert(s[i].0 != s[i].0);
    } else if p->0 < i {
        assert(precedes(s[p->0].0, s[i].0));
        precedes_irreflexive(s[i].0);
    } else if i < p->0 {
        assert(s[i].0 != s[i].0);
    }
}

/// The place where a name is found is a place of the map.
pub proof fn position_in_bounds<V>(s: Seq<(Seq<char>, V)>, name: Seq<char>)
    ensures
        position(s, name) matches Some(i) ==> 0 <= i < s.len() && s[i].0 == name,
{
    lemma_position(s, name);
}

/// A name that stands somewhere is found.
pub proof fn found_where_it_stands<V>(s: Seq<(Seq<char>, V)>, i: int)
    requires
        0 <= i < s.len(),
    ensures
        position(s, s[i].0) is Some,
{
    lemma_position(s, s[i].0);
    if position(s, s[i].0) is None {
        assert(s[i].0 != s[i].0);
    }
}

/// What a lookup finds stands in the map under that name.
pub proof fn lookup_is_an_entry<V>(s: Seq<(Seq<char>, V)>, name: Seq<char>)
    ensures
        lookup(s, name) matches Some(v) ==> s.contains((name, v)),
        lookup(s, name) is None ==> !names_of(s).contains(name),
        lookup(s, name) is Some ==> names_of(s).contains(name),
{
    lemma_position(s, name);
    match position(s, name) {
        Some(i) => {
            assert(s[i] == (name, s[i].1));
            assert(names_of(s)[i] == name);
        },
        None => {
            assert forall|j: int| 0 <= j < names_of(s).len() implies names_of(s)[j] != name by {
                assert(s[j].0 != name);
            }
        },
    }
}

proof fn lemma_inserted_first<V>(s: Seq<(Seq<char>, V)>, name: Seq<char>, value: V)
    ensures
        inserted(s, name, value).len() > 0,
        forall|j: int|
            0 <= j < inserted(s, name, value).len() ==> (#[trigger] inserted(s, name, value)[j]).0 == name
                || exists|k: int| 0 <= k < s.len() && inserted(s, name, value)[j] == #[trigger] s[k],
    decreases s.len(),
{
    if s.len() > 0 && s[0].0 != name && !precedes(name, s[0].0) {
        lemma_inserted_first(s.skip(1), name, value);
        let t = inserted(s, name, value);
        assert forall|j: int| 0 <= j < t.len() implies (#[trigger] t[j]).0 == name || exists|k: int|
            0 <= k < s.len() && t[j] == #[trigger] s[k] by {
            if j == 0 {
                assert(t[0] == s[0]);
            } else {
                let u = inserted(s.skip(1), name, value);
                assert(t[j] == u[j - 1]);
                if u[j - 1].0 != name {
                    let k = choose|k: int| 0 <= k < s.skip(1).len() && u[j - 1] == #[trigger] s.skip(1)[k];
                    assert(t[j] == s[k + 1]);
                }
            }
        }
    } else if s.len() > 0 {
        let t = inserted(s, name, value);
        assert forall|j: int| 0 <= j < t.len() implies (#[trigger] t[j]).0 == name || exists|k: int|
            0 <= k < s.len() && t[j] == #[trigger] s[k] by {
            if j > 0 {
                if s[0].0 == name {
                    assert(t[j] == s[j]);
                } else {
                    assert(t[j] == s[j - 1]);
                }
            }
        }
    }
}

/// Putting a value under a name keeps the names in order.
pub proof fn inserted_is_ordered<V>(s: Seq<(Seq<char>, V)>, name: Seq<char>, value: V)
    requires
        ordered(s),
    ensures
        ordered(inserted(s, name, value)),
    decreases s.len(),
{
    let t = inserted(s, name, value);
    if s.len() == 0 {
    } else if s[0].0 == name {
        assert forall|i: int, j: int| 0 <= i < j < t.len() implies precedes(
            #[trigger] t[i].0,
            #[trigger] t[j].0,
        ) by {
            assert(precedes(s[i].0, s[j].0));
        }
    } else if precedes(name, s[0].0) {
        assert forall|i: int, j: int| 0 <= i < j < t.len() implies precedes(
            #[trigger] t[i].0,
            #[trigger] t[j].0,
        ) by {
            if i > 0 {
                assert(precedes(s[i - 1].0, s[j - 1].0));
            } else if j > 1 {
                assert(precedes(s[0].0, s[j - 1].0));
                precedes_transitive(name, s[0].0, s[j - 1].0);
            }
        }
    } else {
        precedes_total(name, s[0].0);
        let r = s.skip(1);
        assert forall|i: int, j: int| 0 <= i < j < r.len() implies precedes(
            #[trigger] r[i].0,
            #[trigger] r[j].0,
        ) by {
            assert(precedes(s[i + 1].0, s[j + 1].0));
        }
        inserted_is_ordered(r, name, value);
        lemma_inserted_first(r, name, value);
        let u = inserted(r, name, value);
        assert forall|i: int, j: int| 0 <= i < j < t.len() implies precedes(
            #[trigger] t[i].0,
            #[trigger] t[j].0,
        ) by {
            assert(t[j] == u[j - 1]);
            if i > 0 {
                assert(t[i] == u[i - 1]);
            } else if u[j - 1].0 != name {
                let k = choose|k: int| 0 <= k < r.len() && u[j - 1] == #[trigger] r[k];
                assert(precedes(s[0].0, s[k + 1].0));
            }
        }
    }
}

/// A value that was put under a name is found there, and what stood under
/// every other name is found as before.
pub proof fn lookup_after_insert<V>(
    s: Seq<(Seq<char>, V)>,
    name: Seq<char>,
    value: V,
    other: Seq<char>,
)
    ensures
        lookup(inserted(s, name, value), name) == Some(value),
        other != name ==> lookup(inserted(s, name, value), other) == lookup(s, other),
    decreases s.len(),
{
    let t = inserted(s, name, value);
    lemma_position(s, other);
    lemma_position(t.skip(1), other);
    if s.len() == 0 {
        assert(t.skip(1) =~= Seq::<(Seq<char>, V)>::empty());
    } else if s[0].0 == name {
        assert(t.skip(1) =~= s.skip(1));
        match position(s.skip(1), other) {
            Some(i) => {
                assert(t[i + 1] == s.skip(1)[i]);
            },
            None => {},
        }
    } else if precedes(name, s[0].0) {
        assert(t.skip(1) =~= s);
    } else {
        lookup_after_insert(s.skip(1), name, value, other);
        assert(t.skip(1) =~= inserted(s.skip(1), name, value));
        let u = t.skip(1);
        lemma_position(u, name);
        lemma_position(u, other);
        lemma_position(s.skip(1), other);
        match position(u, name) {
            Some(i) => {
                assert(t[i + 1] == u[i]);
            },
            None => {},
        }
        match position(u, other) {
            Some(i) => {
                assert(t[i + 1] == u[i]);
            },
            None => {},
        }
        match position(s.skip(1), other) {
            Some(i) => {
                assert(s[i + 1] == s.skip(1)[i]);
            },
            None => {},
        }
    }
}

/// The places of `s` whose entries satisfy `p`, in their order.
pub open spec fn hits<V>(s: Seq<(Seq<char>, V)>, p: spec_fn((Seq<char>, V)) -> bool) -> Seq<int>
    decreases s.len(),
{
    if s.len() == 0 {
        Seq::empty()
    } else {
        let before = hits(s.drop_last(), p);
        if p(s.last()) {
            before.push(s.len() - 1)
        } else {
            before
        }
    }
}

/// The hits are exactly the places that satisfy the predicate, and they stand
/// in ascending order.
pub proof fn hits_are_exact<V>(s: Seq<(Seq<char>, V)>, p: spec_fn((Seq<char>, V)) -> bool)
    ensures
        forall|k: int|
            0 <= k < hits(s, p).len() ==> 0 <= (#[trigger] hits(s, p)[k]) < s.len() && p(
                s[hits(s, p)[k]],
            ),
        forall|i: int| 0 <= i < s.len() && p(#[trigger] s[i]) ==> hits(s, p).contains(i),
        forall|k: int, l: int|
            0 <= k < l < hits(s, p).len() ==> (#[trigger] hits(s, p)[k]) < (#[trigger] hits(s, p)[l]),
    decreases s.len(),
{
    if s.len() > 0 {
        let t = s.drop_last();
        hits_are_exact(t, p);
        let h = hits(s, p);
        let g = hits(t, p);
        assert forall|k: int| 0 <= k < h.len() implies 0 <= (#[trigger] h[k]) < s.len() && p(
            s[h[k]],
        ) by {
            if k < g.len() {
                assert(h[k] == g[k]);
            }
        }
        assert forall|i: int| 0 <= i < s.len() && p(#[trigger] s[i]) implies h.contains(i) by {
            if i < t.len() {
                assert(t[i] == s[i]);
                let k = choose|k: int| 0 <= k < g.len() && g[k] == i;
                assert(h[k] == i);
            } else {
                assert(h[h.len() - 1] == i);
            }
        }
        assert forall|k: int, l: int| 0 <= k < l < h.len() implies (#[trigger] h[k]) < (
        #[trigger] h[l]) by {
            if l < g.len() {
                assert(g[k] < g[l]);
            } else {
                assert(h[k] == g[k]);
            }
        }
    }
}

/// Places in a list, as whole numbers.
pub open spec fn places(list: Seq<usize>) -> Seq<int> {
    list.map_values(|i: usize| i as int)
}

/// A map from names to values. Its view lists the entries in the order of
/// their names.
pub struct NameMap<V> {
    entries: Vec<(String, V)>,
}

impl<V> View for NameMap<V> {
    type V = Seq<(Seq<char>, V)>;

    closed spec fn view(&self) -> Seq<(Seq<char>, V)> {
        self.entries@.map_values(|e: (String, V)| (e.0@, e.1))
    }
}

impl<V> NameMap<V> {
    /// The names stand in order, each of them once.
    #[verifier::type_invariant]
    pub closed spec fn in_order(&self) -> bool {
        ordered(self.entries@.map_values(|e: (String, V)| (e.0@, e.1)))
    }

    /// A map without entries.
    pub fn new() -> (r: Self)
        ensures
            r@ == Seq::<(Seq<char>, V)>::empty(),
    {
        let r = NameMap { entries: Vec::new() };
        proof {
            assert(r@ =~= Seq::<(Seq<char>, V)>::empty());
        }
        r
    }

    /// How many entries there are.
    pub fn len(&self) -> (n: usize)
        ensures
            n == self@.len(),
            ordered(self@),
    {
        proof {
            use_type_invariant(self);
        }
        self.entries.len()
    }

    /// Whether there is no entry.
    pub fn is_empty(&self) -> (r: bool)
        ensures
            r == (self@.len() == 0),
    {
        self.entries.len() == 0
    }

    /// The name at a place in the order.
    pub fn name_at(&self, i: usize) -> (r: &str)
        requires
            i < self@.len(),
        ensures
            r@ == self@[i as int].0,
    {
        self.entries[i].0.as_str()
    }

    /// The value at a place in the order.
    pub fn value_at(&self, i: usize) -> (r: &V)
        requires
            i < self@.len(),
        ensures
            *r == self@[i as int].1,
    {
        &self.entries[i].1
    }

    /// Where a name stands.
    pub fn index_of(&self, name: &str) -> (r: Option<usize>)
        ensures
            match r {
                Some(i) => i < self@.len() && position(self@, name@) == Some(i as int),
                None => position(self@, name@) is None,
            },
    {
        let mut i: usize = 0;
        proof {
            assert(self@.skip(0) =~= self@);
        }
        while i < self.entries.len()
            invariant
                i <= self@.len(),
                self@.len() == self.entries@.len(),
                position(self@, name@) == (match position(self@.skip(i as int), name@) {
                    Some(k) => Some(k + i),
                    None => None,
                }),
            decreases self.entries.len() - i,
        {
            if same(self.entries[i].0.as_str(), name) {
                return Some(i);
            }
            proof {
                assert(self@.skip(i as int).skip(1) =~= self@.skip(i + 1));
            }
            i = i + 1;
        }
        None
    }

    /// The value under a name.
    pub fn get(&self, name: &str) -> (r: Option<&V>)
        ensures
            match r {
                Some(v) => lookup(self@, name@) == Some(*v),
                None => lookup(self@, name@) is None,
            },
    {
        match self.index_of(name) {
            Some(i) => Some(&self.entries[i].1),
            None => None,
        }
    }

    /// Whether there is a value under a name.
    pub fn contains_key(&self, name: &str) -> (r: bool)
        ensures
            r == (position(self@, name@) is Some),
    {
        self.index_of(name).is_some()
    }

    /// All names, in their order.
    pub fn names(&self) -> (r: Vec<String>)
        ensures
            crate::text::views(r@) == names_of(self@),
    {
        let mut out: Vec<String> = Vec::new();
        let mut i: usize = 0;
        while i < self.entries.len()
            invariant
                i <= self@.len(),
                self@.len() == self.entries@.len(),
                crate::text::views(out@) == names_of(self@).take(i as int),
            decreases self.entries.len() - i,
        {
            let ghost done = crate::text::views(out@);
            out.push(self.entries[i].0.clone());
            proof {
                assert(crate::text::views(out@) =~= done.push(self@[i as int].0));
                assert(names_of(self@).take(i + 1) =~= names_of(self@).take(i as int).push(
                    self@[i as int].0,
                ));
            }
            i = i + 1;
        }
        proof {
            assert(names_of(self@).take(i as int) =~= names_of(self@));
        }
        out
    }

    /// Puts a value under a name, in place of what stood there.
    pub fn insert(&mut self, name: String, value: V)
        ensures
            final(self)@ == inserted(old(self)@, name@, value),
    {
        proof {
            use_type_invariant(&*self);
            inserted_is_ordered(self@, name@, value);
        }
        let ghost s = self@;
        let mut entries: Vec<(String, V)> = Vec::new();
        std::mem::swap(&mut entries, &mut self.entries);
        let ghost list = entries@;
        let mut i: usize = 0;
        proof {
            assert(s.skip(0) =~= s);
            assert(s.take(0) + inserted(s, name@, value) =~= inserted(s, name@, value));
        }
        while i < entries.len() && !same(entries[i].0.as_str(), name.as_str()) && !comes_before(
            name.as_str(),
            entries[i].0.as_str(),
        )
            invariant
                i <= entries.len(),
                entries@ == list,
                s == list.map_values(|e: (String, V)| (e.0@, e.1)),
                inserted(s, name@, value) == s.take(i as int) + inserted(
                    s.skip(i as int),
                    name@,
                    value,
                ),
            decreases entries.len() - i,
        {
            proof {
                assert(s.skip(i as int).skip(1) =~= s.skip(i + 1));
                assert(s.take(i as int) + (seq![s[i as int]] + inserted(s.skip(i + 1), name@, value))
                    =~= s.take(i + 1) + inserted(s.skip(i + 1), name@, value));
            }
            i = i + 1;
        }
        let ghost n = name@;
        if i < entries.len() && same(entries[i].0.as_str(), name.as_str()) {
            entries.set(i, (name, value));
            proof {
                assert(s.skip(i as int).skip(1) =~= s.skip(i + 1));
            }
        } else {
            entries.insert(i, (name, value));
        }
        proof {
            assert(entries@.map_values(|e: (String, V)| (e.0@, e.1)) =~= inserted(s, n, value));
        }
        self.entries = entries;
    }
}


// ---------------------------------------------------------------------
// Maps to strings, and lists of names
// ---------------------------------------------------------------------

/// The views of a map to strings.
pub open spec fn texts(s: Seq<(Seq<char>, String)>) -> Seq<(Seq<char>, Seq<char>)> {
    s.map_values(|e: (Seq<char>, String)| (e.0, e.1@))
}

/// Putting a string under a name, seen in views.
pub proof fn texts_after_insert(s: Seq<(Seq<char>, String)>, name: Seq<char>, value: String)
    ensures
        texts(inserted(s, name, value)) == inserted(texts(s), name, value@),
    decreases s.len(),
{
    if s.len() == 0 {
        assert(texts(inserted(s, name, value)) =~= inserted(texts(s), name, value@));
    } else {
        assert(texts(s).skip(1) =~= texts(s.skip(1)));
        assert(texts(s)[0] == (s[0].0, s[0].1@));
        if s[0].0 != name && !precedes(name, s[0].0) {
            texts_after_insert(s.skip(1), name, value);
        }
        assert(texts(inserted(s, name, value)) =~= inserted(texts(s), name, value@));
    }
}

/// The names stand in their order.
pub open spec fn in_name_order(s: Seq<Seq<char>>) -> bool {
    forall|i: int, j: int|
        0 <= i < j < s.len() ==> !precedes(#[trigger] s[j], #[trigger] s[i])
}

/// The names of a list in their order.
pub fn sort_names(list: &Vec<String>) -> (r: Vec<String>)
    ensures
        in_name_order(crate::text::views(r@)),
        crate::text::views(r@).to_multiset() == crate::text::views(list@).to_multiset(),
{
    let mut out: Vec<String> = Vec::new();
    let mut i: usize = 0;
    let ghost all = crate::text::views(list@);
    proof {
        assert(all.take(0) =~= crate::text::views(out@));
    }
    while i < list.len()
        invariant
            i <= list.len(),
            all == crate::text::views(list@),
            in_name_order(crate::text::views(out@)),
            crate::text::views(out@).to_multiset() == all.take(i as int).to_multiset(),
        decreases list.len() - i,
    {
        let ghost before = crate::text::views(out@);
        let mut k: usize = out.len();
        while k > 0 && comes_before(list[i].as_str(), out[k - 1].as_str())
            invariant
                i < list.len(),
                k <= out.len(),
                before == crate::text::views(out@),
                forall|j: int|
                    k <= j < out.len() ==> precedes(list@[i as int]@, #[trigger] before[j]),
            decreases k,
        {
            k = k - 1;
        }
        out.insert(k, list[i].clone());
        proof {
            let name = list@[i as int]@;
            let after = crate::text::views(out@);
            assert(after =~= before.insert(k as int, name));
            assert forall|a: int, b: int| 0 <= a < b < after.len() implies !precedes(
                #[trigger] after[b],
                #[trigger] after[a],
            ) by {
                precedes_irreflexive(name);
                if a < k && b == k {
                    if a < k - 1 {
                        if precedes(name, before[a]) {
                            precedes_total(before[a], before[k - 1]);
                            if precedes(before[a], before[k - 1]) {
                                precedes_transitive(name, before[a], before[k - 1]);
                            }
                            assert(!precedes(before[k - 1], before[a]));
                        }
                    }
                } else if a == k && b > k {
                    assert(precedes(name, before[b - 1]));
                    if precedes(after[b], name) {
                        precedes_transitive(name, after[b], name);
                    }
                } else if a < k && b < k {
                    assert(!precedes(before[b], before[a]));
                } else if a < k {
                    assert(!precedes(before[b - 1], before[a]));
                } else {
                    assert(!precedes(before[b - 1], before[a - 1]));
                }
            }
            assert(after.remove(k as int) =~= before);
            vstd::seq_lib::to_multiset_remove(after, k as int);
            after.to_multiset_ensures();
            assert(after.contains(name)) by {
                assert(after[k as int] == name);
            }
            assert(after.to_multiset() =~= before.to_multiset().insert(name));
            assert(all.take(i + 1) =~= all.take(i as int).push(name));
            vstd::seq_lib::to_multiset_build(all.take(i as int), name);
        }
        i = i + 1;
    }
    proof {
        assert(all.take(i as int) =~= all);
    }
    out
}

/// Strings are ordered by the first character in which they differ, and a
/// string stands before every longer one that begins with it.
pub proof fn how_strings_are_ordered(
    head: Seq<char>,
    a: char,
    b: char,
    x: Seq<char>,
    y: Seq<char>,
)
    ensures
        a < b ==> precedes(head + (seq![a] + x), head + (seq![b] + y)),
        precedes(head, head + (seq![a] + x)),
    decreases head.len(),
{
    let s = head + (seq![a] + x);
    let t = head + (seq![b] + y);
    if head.len() > 0 {
        let rest = head.skip(1);
        how_strings_are_ordered(rest, a, b, x, y);
        assert(s.skip(1) =~= rest + (seq![a] + x));
        assert(t.skip(1) =~= rest + (seq![b] + y));
        assert(s[0] == head[0] && t[0] == head[0]);
    } else {
        assert(s[0] == a && t[0] == b);
    }
}

} // verus!
