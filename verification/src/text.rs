//! Text as the rest of the crate reads and writes it.
//!
//! Every function here works on the characters of a string, and every
//! contract speaks of `Seq<char>`. The spec functions come first; the
//! executable functions that compute them follow.

use vstd::prelude::*;
use vstd::string::*;

verus! {

// ---------------------------------------------------------------------
// What the pieces of a text are
// ---------------------------------------------------------------------

/// `s` begins with `p`.
pub open spec fn has_prefix(s: Seq<char>, p: Seq<char>) -> bool {
    p.len() <= s.len() && s.take(p.len() as int) == p
}

/// `s` ends with `p`.
pub open spec fn has_suffix(s: Seq<char>, p: Seq<char>) -> bool {
    p.len() <= s.len() && s.skip(s.len() - p.len()) == p
}

/// `p` stands somewhere in `s`.
pub open spec fn occurs_in(p: Seq<char>, s: Seq<char>) -> bool {
    exists|i: int| 0 <= i <= s.len() && #[trigger] has_prefix(s.skip(i), p)
}

/// `s` without the `c`s at its end.
pub open spec fn without_end(s: Seq<char>, c: char) -> Seq<char>
    decreases s.len(),
{
    if s.len() > 0 && s.last() == c {
        without_end(s.drop_last(), c)
    } else {
        s
    }
}

/// `s` without the `c`s at its start.
pub open spec fn without_start(s: Seq<char>, c: char) -> Seq<char>
    decreases s.len(),
{
    if s.len() > 0 && s[0] == c {
        without_start(s.skip(1), c)
    } else {
        s
    }
}

/// `s` without the copies of `p` at its end.
pub open spec fn without_end_text(s: Seq<char>, p: Seq<char>) -> Seq<char>
    decreases s.len(),
{
    if p.len() > 0 && has_suffix(s, p) {
        without_end_text(s.take(s.len() - p.len()), p)
    } else {
        s
    }
}

/// The characters with Unicode's White_Space property.
pub open spec fn is_blank(c: char) -> bool {
    ||| '\u{9}' <= c <= '\u{d}'
    ||| c == ' '
    ||| c == '\u{85}'
    ||| c == '\u{a0}'
    ||| c == '\u{1680}'
    ||| '\u{2000}' <= c <= '\u{200a}'
    ||| c == '\u{2028}'
    ||| c == '\u{2029}'
    ||| c == '\u{202f}'
    ||| c == '\u{205f}'
    ||| c == '\u{3000}'
}

/// `s` without the blanks at its start.
pub open spec fn trimmed_start(s: Seq<char>) -> Seq<char>
    decreases s.len(),
{
    if s.len() > 0 && is_blank(s[0]) {
        trimmed_start(s.skip(1))
    } else {
        s
    }
}

/// `s` without the blanks at its end.
pub open spec fn trimmed_end(s: Seq<char>) -> Seq<char>
    decreases s.len(),
{
    if s.len() > 0 && is_blank(s.last()) {
        trimmed_end(s.drop_last())
    } else {
        s
    }
}

/// `s` without the blanks at either end.
pub open spec fn trimmed(s: Seq<char>) -> Seq<char> {
    trimmed_end(trimmed_start(s))
}

/// Where `c` first stands in `s`; the length of `s` where it does not.
pub open spec fn first_index(s: Seq<char>, c: char) -> int
    decreases s.len(),
{
    if s.len() == 0 || s[0] == c {
        0
    } else {
        1 + first_index(s.skip(1), c)
    }
}

/// Where `p` first stands in `s`, if it does.
pub open spec fn first_match(s: Seq<char>, p: Seq<char>) -> Option<int>
    decreases s.len(),
{
    if has_prefix(s, p) {
        Some(0)
    } else if s.len() == 0 {
        None
    } else {
        match first_match(s.skip(1), p) {
            Some(i) => Some(i + 1),
            None => None,
        }
    }
}

/// The two sides of the first `c` in `s`, if there is one.
pub open spec fn halves(s: Seq<char>, c: char) -> Option<(Seq<char>, Seq<char>)> {
    let i = first_index(s, c);
    if i < s.len() {
        Some((s.take(i), s.skip(i + 1)))
    } else {
        None
    }
}

/// The pieces of `s` between its `c`s: one more than there are `c`s.
pub open spec fn pieces(s: Seq<char>, c: char) -> Seq<Seq<char>>
    decreases s.len(),
{
    match halves(s, c) {
        Some((head, rest)) => if rest.len() < s.len() {
            seq![head] + pieces(rest, c)
        } else {
            seq![s]
        },
        None => seq![s],
    }
}

/// A line without the carriage return before its line feed.
pub open spec fn without_return(line: Seq<char>) -> Seq<char> {
    if line.len() > 0 && line.last() == '\r' {
        line.drop_last()
    } else {
        line
    }
}

/// The lines of `s`: each ends at a line feed or at the end of `s`, and the
/// line feed, with a carriage return before it, is no part of the line.
pub open spec fn line_seq(s: Seq<char>) -> Seq<Seq<char>>
    decreases s.len(),
{
    if s.len() == 0 {
        Seq::empty()
    } else {
        match halves(s, '\n') {
            Some((head, rest)) => if rest.len() < s.len() {
                seq![without_return(head)] + line_seq(rest)
            } else {
                seq![s]
            },
            None => seq![s],
        }
    }
}

/// `s` with each `from` in it, taken from the left, replaced by `to`.
pub open spec fn replaced(s: Seq<char>, from: Seq<char>, to: Seq<char>) -> Seq<char>
    decreases s.len(),
{
    if s.len() == 0 || from.len() == 0 {
        s
    } else if has_prefix(s, from) {
        to + replaced(s.skip(from.len() as int), from, to)
    } else {
        seq![s[0]] + replaced(s.skip(1), from, to)
    }
}

/// The texts of `list` with `sep` between each two.
pub open spec fn joined(list: Seq<Seq<char>>, sep: Seq<char>) -> Seq<char>
    decreases list.len(),
{
    if list.len() == 0 {
        Seq::empty()
    } else if list.len() == 1 {
        list[0]
    } else {
        joined(list.drop_last(), sep) + sep + list.last()
    }
}

/// The digit for a number below ten.
pub open spec fn digit(n: nat) -> char {
    ('0' as nat + n) as char
}

/// A number in decimal notation.
pub open spec fn decimal(n: nat) -> Seq<char>
    decreases n,
{
    if n < 10 {
        seq![digit(n)]
    } else {
        decimal(n / 10).push(digit(n % 10))
    }
}

/// A whole number in decimal notation, with a minus sign where it is negative.
pub open spec fn signed_decimal(n: int) -> Seq<char> {
    if n < 0 {
        seq!['-'] + decimal((-n) as nat)
    } else {
        decimal(n as nat)
    }
}

/// A number ends in its last digit, behind the digits of its tenth.
pub proof fn decimal_digits(n: nat)
    ensures
        decimal(n).len() >= 1,
        n >= 10 ==> decimal(n).len() >= 2,
        n < 10 ==> decimal(n).len() == 1,
        decimal(n).last() == digit(n % 10),
        n >= 10 ==> decimal(n).drop_last() == decimal(n / 10),
    decreases n,
{
    if n >= 10 {
        decimal_digits(n / 10);
        assert(decimal(n).drop_last() =~= decimal(n / 10));
    }
}

/// Two numbers that are written alike are the same.
pub proof fn decimal_is_unique(a: nat, b: nat)
    requires
        decimal(a) == decimal(b),
    ensures
        a == b,
    decreases a,
{
    decimal_digits(a);
    decimal_digits(b);
    assert(digit(a % 10) as int == 48 + a % 10);
    assert(digit(b % 10) as int == 48 + b % 10);
    if a >= 10 {
        decimal_is_unique(a / 10, b / 10);
    }
}

pub open spec fn is_digit(c: char) -> bool {
    '0' <= c <= '9'
}

/// The number that a row of digits writes.
pub open spec fn digits_value(s: Seq<char>) -> nat
    decreases s.len(),
{
    if s.len() == 0 {
        0
    } else {
        (digits_value(s.drop_last()) * 10 + (s.last() as int - '0' as int)) as nat
    }
}

pub open spec fn all_digits(s: Seq<char>) -> bool {
    forall|i: int| 0 <= i < s.len() ==> is_digit(#[trigger] s[i])
}

/// The number that a text writes: digits, after a plus sign or none.
pub open spec fn number_of(s: Seq<char>) -> Option<nat> {
    let body = if s.len() > 0 && s[0] == '+' { s.skip(1) } else { s };
    if body.len() > 0 && all_digits(body) {
        Some(digits_value(body))
    } else {
        None
    }
}

pub open spec fn spaces(n: nat) -> Seq<char> {
    Seq::new(n, |i: int| ' ')
}

/// `s` filled up with spaces on the right to `width` characters.
pub open spec fn padded_right(s: Seq<char>, width: nat) -> Seq<char> {
    if s.len() < width {
        s + spaces((width - s.len()) as nat)
    } else {
        s
    }
}

/// `s` filled up with spaces on the left to `width` characters.
pub open spec fn padded_left(s: Seq<char>, width: nat) -> Seq<char> {
    if s.len() < width {
        spaces((width - s.len()) as nat) + s
    } else {
        s
    }
}

pub open spec fn is_alphanumeric(c: char) -> bool {
    'a' <= c <= 'z' || 'A' <= c <= 'Z' || '0' <= c <= '9'
}

/// An ASCII letter in lower case; any other character as it is.
pub open spec fn lower(c: char) -> char {
    if 'A' <= c <= 'Z' {
        (c as int + 32) as char
    } else {
        c
    }
}

/// How many bytes a character takes in UTF-8.
pub open spec fn utf8_len(c: char) -> nat {
    if (c as int) < 0x80 {
        1
    } else if (c as int) < 0x800 {
        2
    } else if (c as int) < 0x10000 {
        3
    } else {
        4
    }
}

/// The first characters of `s` that fit into `n` bytes of UTF-8.
pub open spec fn first_bytes(s: Seq<char>, n: int) -> Seq<char>
    decreases s.len(),
{
    if s.len() == 0 || utf8_len(s[0]) > n {
        Seq::empty()
    } else {
        seq![s[0]] + first_bytes(s.skip(1), n - utf8_len(s[0]))
    }
}

/// The short form of a commit id.
pub open spec fn short_id(s: Seq<char>) -> Seq<char> {
    first_bytes(s, 7)
}

/// The views of a list of strings.
pub open spec fn views(list: Seq<String>) -> Seq<Seq<char>> {
    list.map_values(|s: String| s@)
}

/// The view of an optional string.
pub open spec fn opt(s: Option<String>) -> Option<Seq<char>> {
    match s {
        Some(t) => Some(t@),
        None => None,
    }
}

/// The view of an optional string slice.
pub open spec fn opt_str(s: Option<&str>) -> Option<Seq<char>> {
    match s {
        Some(t) => Some(t@),
        None => None,
    }
}

// ---------------------------------------------------------------------
// Characters and strings
// ---------------------------------------------------------------------

/// `String::push` puts one character at the end of a string.
pub assume_specification[ String::push ](s: &mut String, c: char)
    ensures
        final(s)@ == old(s)@.push(c),
;

/// The characters of a string.
pub fn chars_of(s: &str) -> (v: Vec<char>)
    ensures
        v@ == s@,
{
    let mut v: Vec<char> = Vec::new();
    for c in it: s.chars()
        invariant
            it.seq() == s@,
            v@ == s@.take(it.index() as int),
    {
        v.push(c);
    }
    v
}

/// The string of the characters from `from` up to `to`.
pub fn text_of(v: &Vec<char>, from: usize, to: usize) -> (s: String)
    requires
        from <= to <= v.len(),
    ensures
        s@ == v@.subrange(from as int, to as int),
{
    let mut s = String::new();
    let mut i: usize = from;
    while i < to
        invariant
            from <= i <= to <= v.len(),
            s@ == v@.subrange(from as int, i as int),
        decreases to - i,
    {
        s.push(v[i]);
        i = i + 1;
    }
    s
}

/// Whether two strings are the same.
pub fn same(a: &str, b: &str) -> (r: bool)
    ensures
        r == (a@ == b@),
{
    a.to_string() == b.to_string()
}

/// Whether an optional string is there and is `b`.
pub fn is_some_text(a: &Option<String>, b: &str) -> (r: bool)
    ensures
        r == (opt(*a) == Some(b@)),
{
    match a {
        Some(t) => same(t.as_str(), b),
        None => false,
    }
}

/// A copy of an optional string.
pub fn copy_opt(a: &Option<String>) -> (r: Option<String>)
    ensures
        opt(r) == opt(*a),
{
    match a {
        Some(t) => Some(t.clone()),
        None => None,
    }
}

// ---------------------------------------------------------------------
// Prefixes, suffixes, search
// ---------------------------------------------------------------------

fn matches_at(v: &Vec<char>, at: usize, p: &Vec<char>) -> (r: bool)
    requires
        at <= v.len(),
    ensures
        r == has_prefix(v@.skip(at as int), p@),
{
    if p.len() > v.len() - at {
        return false;
    }
    let mut i: usize = 0;
    while i < p.len()
        invariant
            at <= v.len(),
            p.len() <= v.len() - at,
            i <= p.len(),
            forall|j: int| 0 <= j < i ==> v@[at + j] == p@[j],
        decreases p.len() - i,
    {
        if v[at + i] != p[i] {
            proof {
                assert(v@.skip(at as int).take(p@.len() as int)[i as int] != p@[i as int]);
            }
            return false;
        }
        i = i + 1;
    }
    proof {
        assert(v@.skip(at as int).take(p@.len() as int) =~= p@);
    }
    true
}

/// Whether `s` begins with `p`.
pub fn starts_with(s: &str, p: &str) -> (r: bool)
    ensures
        r == has_prefix(s@, p@),
{
    let v = chars_of(s);
    let w = chars_of(p);
    proof {
        assert(v@.skip(0) =~= v@);
    }
    matches_at(&v, 0, &w)
}

/// Whether `s` ends with `p`.
pub fn ends_with(s: &str, p: &str) -> (r: bool)
    ensures
        r == has_suffix(s@, p@),
{
    let v = chars_of(s);
    let w = chars_of(p);
    if w.len() > v.len() {
        return false;
    }
    let at: usize = v.len() - w.len();
    proof {
        assert(v@.skip(at as int).take(w@.len() as int) =~= v@.skip(at as int));
    }
    matches_at(&v, at, &w)
}

/// What follows `p` at the start of `s`, if `s` begins with it.
pub fn strip_prefix<'a>(s: &'a str, p: &str) -> (r: Option<&'a str>)
    ensures
        match r {
            Some(rest) => has_prefix(s@, p@) && rest@ == s@.skip(p@.len() as int),
            None => !has_prefix(s@, p@),
        },
{
    if starts_with(s, p) {
        let n: usize = s.unicode_len();
        let k: usize = p.unicode_len();
        proof {
            assert(s@.subrange(k as int, n as int) =~= s@.skip(k as int));
        }
        Some(s.substring_char(k, n))
    } else {
        None
    }
}

/// What precedes `p` at the end of `s`, if `s` ends with it.
pub fn strip_suffix<'a>(s: &'a str, p: &str) -> (r: Option<&'a str>)
    ensures
        match r {
            Some(rest) => has_suffix(s@, p@) && rest@ == s@.take(s@.len() - p@.len()),
            None => !has_suffix(s@, p@),
        },
{
    if ends_with(s, p) {
        let n: usize = s.unicode_len();
        let k: usize = p.unicode_len();
        proof {
            assert(s@.subrange(0, n - k) =~= s@.take(n - k));
        }
        Some(s.substring_char(0, n - k))
    } else {
        None
    }
}

proof fn lemma_skip_skip(s: Seq<char>, a: int, b: int)
    requires
        0 <= a,
        0 <= b,
        a + b <= s.len(),
    ensures
        s.skip(a).skip(b) == s.skip(a + b),
{
    assert(s.skip(a).skip(b) =~= s.skip(a + b));
}

/// Where `p` first stands in `s`, counted in characters.
pub fn find(s: &str, p: &str) -> (r: Option<usize>)
    ensures
        match r {
            Some(i) => first_match(s@, p@) == Some(i as int) && i + p@.len() <= s@.len(),
            None => first_match(s@, p@) is None,
        },
{
    let v = chars_of(s);
    let w = chars_of(p);
    let mut i: usize = 0;
    proof {
        assert(v@.skip(0) =~= v@);
    }
    loop
        invariant
            i <= v.len(),
            v@ == s@,
            w@ == p@,
            first_match(s@, p@) == (match first_match(s@.skip(i as int), p@) {
                Some(k) => Some(k + i),
                None => None,
            }),
        decreases v.len() - i,
    {
        if matches_at(&v, i, &w) {
            return Some(i);
        }
        if i == v.len() {
            return None;
        }
        proof {
            lemma_skip_skip(s@, i as int, 1);
        }
        i = i + 1;
    }
}

proof fn lemma_first_match_occurs(s: Seq<char>, p: Seq<char>)
    ensures
        first_match(s, p) is Some <==> occurs_in(p, s),
    decreases s.len(),
{
    assert(s.skip(0) =~= s);
    if has_prefix(s, p) {
        assert(has_prefix(s.skip(0), p));
    } else if s.len() > 0 {
        lemma_first_match_occurs(s.skip(1), p);
        if first_match(s.skip(1), p) is Some {
            let i = choose|i: int| 0 <= i <= s.skip(1).len() && #[trigger] has_prefix(s.skip(1).skip(i), p);
            lemma_skip_skip(s, 1, i);
            assert(has_prefix(s.skip(1 + i), p));
        }
        if occurs_in(p, s) {
            let i = choose|i: int| 0 <= i <= s.len() && #[trigger] has_prefix(s.skip(i), p);
            assert(i > 0);
            lemma_skip_skip(s, 1, i - 1);
            assert(has_prefix(s.skip(1).skip(i - 1), p));
        }
    } else if occurs_in(p, s) {
        let i = choose|i: int| 0 <= i <= s.len() && #[trigger] has_prefix(s.skip(i), p);
        assert(i == 0);
    }
}

/// Whether `p` stands somewhere in `s`.
pub fn contains(s: &str, p: &str) -> (r: bool)
    ensures
        r == occurs_in(p@, s@),
{
    proof {
        lemma_first_match_occurs(s@, p@);
    }
    find(s, p).is_some()
}

// ---------------------------------------------------------------------
// Trimming
// ---------------------------------------------------------------------

/// `s` without the `c`s at its end.
pub fn trim_end_char<'a>(s: &'a str, c: char) -> (r: &'a str)
    ensures
        r@ == without_end(s@, c),
{
    let v = chars_of(s);
    let mut n: usize = v.len();
    proof {
        assert(v@.take(n as int) =~= v@);
    }
    while n > 0 && v[n - 1] == c
        invariant
            n <= v.len(),
            v@ == s@,
            without_end(s@, c) == without_end(s@.take(n as int), c),
        decreases n,
    {
        proof {
            assert(s@.take(n as int).drop_last() =~= s@.take(n - 1));
        }
        n = n - 1;
    }
    proof {
        assert(s@.subrange(0, n as int) =~= s@.take(n as int));
    }
    s.substring_char(0, n)
}

/// `s` without the `c`s at its start.
pub fn trim_start_char<'a>(s: &'a str, c: char) -> (r: &'a str)
    ensures
        r@ == without_start(s@, c),
{
    let v = chars_of(s);
    let mut from: usize = 0;
    proof {
        assert(v@.skip(0) =~= v@);
    }
    while from < v.len() && v[from] == c
        invariant
            from <= v.len(),
            v@ == s@,
            without_start(s@, c) == without_start(s@.skip(from as int), c),
        decreases v.len() - from,
    {
        proof {
            lemma_skip_skip(s@, from as int, 1);
        }
        from = from + 1;
    }
    proof {
        assert(s@.subrange(from as int, s@.len() as int) =~= s@.skip(from as int));
    }
    s.substring_char(from, v.len())
}

/// `s` without the copies of `p` at its end.
pub fn trim_end_text<'a>(s: &'a str, p: &str) -> (r: &'a str)
    requires
        p@.len() > 0,
    ensures
        r@ == without_end_text(s@, p@),
{
    let mut cur: &'a str = s;
    loop
        invariant
            p@.len() > 0,
            without_end_text(s@, p@) == without_end_text(cur@, p@),
        decreases cur@.len(),
    {
        match strip_suffix(cur, p) {
            Some(rest) => {
                cur = rest;
            },
            None => {
                return cur;
            },
        }
    }
}

/// Whether `c` is a blank.
pub fn blank(c: char) -> (r: bool)
    ensures
        r == is_blank(c),
{
    ('\u{9}' <= c && c <= '\u{d}') || c == ' ' || c == '\u{85}' || c == '\u{a0}' || c == '\u{1680}'
        || ('\u{2000}' <= c && c <= '\u{200a}') || c == '\u{2028}' || c == '\u{2029}' || c
        == '\u{202f}' || c == '\u{205f}' || c == '\u{3000}'
}

/// `s` without the blanks at either end.
pub fn trim<'a>(s: &'a str) -> (r: &'a str)
    ensures
        r@ == trimmed(s@),
{
    let v = chars_of(s);
    let mut from: usize = 0;
    proof {
        assert(v@.skip(0) =~= v@);
    }
    while from < v.len() && blank(v[from])
        invariant
            from <= v.len(),
            v@ == s@,
            trimmed_start(s@) == trimmed_start(s@.skip(from as int)),
        decreases v.len() - from,
    {
        proof {
            lemma_skip_skip(s@, from as int, 1);
        }
        from = from + 1;
    }
    let mut to: usize = v.len();
    let ghost rest = s@.skip(from as int);
    proof {
        assert(rest.take(to - from) =~= rest);
        assert(trimmed_start(s@) == rest);
    }
    while to > from && blank(v[to - 1])
        invariant
            from <= to <= v.len(),
            v@ == s@,
            rest == s@.skip(from as int),
            trimmed_end(rest) == trimmed_end(rest.take(to - from)),
        decreases to,
    {
        proof {
            assert(rest.take(to - from).drop_last() =~= rest.take(to - 1 - from));
        }
        to = to - 1;
    }
    proof {
        assert(s@.subrange(from as int, to as int) =~= rest.take(to - from));
    }
    s.substring_char(from, to)
}

// ---------------------------------------------------------------------
// Splitting and joining
// ---------------------------------------------------------------------

/// The first place of a character is a place of the text, or its end.
pub proof fn first_index_is_a_place(s: Seq<char>, c: char)
    ensures
        0 <= first_index(s, c) <= s.len(),
        first_index(s, c) < s.len() ==> s[first_index(s, c)] == c,
        forall|j: int| 0 <= j < first_index(s, c) ==> s[j] != c,
    decreases s.len(),
{
    if s.len() > 0 && s[0] != c {
        first_index_is_a_place(s.skip(1), c);
        assert forall|j: int| 0 <= j < first_index(s, c) implies s[j] != c by {
            if j > 0 {
                assert(s.skip(1)[j - 1] != c);
            }
        }
    }
}

fn index_from(v: &Vec<char>, from: usize, c: char) -> (r: usize)
    requires
        from <= v.len(),
    ensures
        from <= r <= v.len(),
        r == from + first_index(v@.skip(from as int), c),
{
    let mut i: usize = from;
    while i < v.len() && v[i] != c
        invariant
            from <= i <= v.len(),
            first_index(v@.skip(from as int), c) == (i - from) + first_index(v@.skip(i as int), c),
        decreases v.len() - i,
    {
        proof {
            lemma_skip_skip(v@, i as int, 1);
        }
        i = i + 1;
    }
    i
}

/// The two sides of the first `c` in `s`, if there is one.
pub fn split_once<'a>(s: &'a str, c: char) -> (r: Option<(&'a str, &'a str)>)
    ensures
        match r {
            Some((head, rest)) => halves(s@, c) == Some((head@, rest@)),
            None => halves(s@, c) is None,
        },
{
    let v = chars_of(s);
    proof {
        assert(v@.skip(0) =~= v@);
    }
    let i: usize = index_from(&v, 0, c);
    if i < v.len() {
        proof {
            assert(s@.subrange(0, i as int) =~= s@.take(i as int));
            assert(s@.subrange(i + 1, s@.len() as int) =~= s@.skip(i + 1));
        }
        Some((s.substring_char(0, i), s.substring_char(i + 1, v.len())))
    } else {
        None
    }
}

/// What precedes the first `c` in `s`: all of `s` where there is none.
pub fn before<'a>(s: &'a str, c: char) -> (r: &'a str)
    ensures
        r@ == s@.take(first_index(s@, c)),
{
    let v = chars_of(s);
    proof {
        assert(v@.skip(0) =~= v@);
    }
    let i: usize = index_from(&v, 0, c);
    proof {
        assert(s@.subrange(0, i as int) =~= s@.take(i as int));
    }
    s.substring_char(0, i)
}

/// What follows the last `c` in `s`: all of `s` where there is none.
pub open spec fn after_last(s: Seq<char>, c: char) -> Seq<char>
    decreases s.len(),
{
    if s.len() == 0 || s.last() == c {
        Seq::empty()
    } else {
        after_last(s.drop_last(), c).push(s.last())
    }
}

proof fn lemma_after_last(s: Seq<char>, c: char, n: int)
    requires
        0 <= n <= s.len(),
        n > 0 ==> s[n - 1] == c,
        forall|j: int| n <= j < s.len() ==> s[j] != c,
    ensures
        after_last(s, c) == s.skip(n),
    decreases s.len(),
{
    if s.len() > n {
        lemma_after_last(s.drop_last(), c, n);
        assert(s.drop_last().skip(n).push(s.last()) =~= s.skip(n));
    } else {
        assert(s.skip(n) =~= Seq::<char>::empty());
    }
}

/// What follows the last `c` in `s`.
pub fn after_last_char<'a>(s: &'a str, c: char) -> (r: &'a str)
    ensures
        r@ == after_last(s@, c),
{
    let v = chars_of(s);
    let mut n: usize = v.len();
    while n > 0 && v[n - 1] != c
        invariant
            n <= v.len(),
            v@ == s@,
            forall|j: int| n <= j < s@.len() ==> s@[j] != c,
        decreases n,
    {
        n = n - 1;
    }
    proof {
        lemma_after_last(s@, c, n as int);
        assert(s@.subrange(n as int, s@.len() as int) =~= s@.skip(n as int));
    }
    s.substring_char(n, v.len())
}

/// The pieces of `s` between its `c`s.
pub fn split(s: &str, c: char) -> (r: Vec<String>)
    ensures
        views(r@) == pieces(s@, c),
{
    let v = chars_of(s);
    let mut out: Vec<String> = Vec::new();
    let mut at: usize = 0;
    proof {
        assert(v@.skip(0) =~= v@);
        assert(views(out@) + pieces(s@, c) =~= pieces(s@, c));
    }
    loop
        invariant
            at <= v.len(),
            v@ == s@,
            pieces(s@, c) == views(out@) + pieces(s@.skip(at as int), c),
        decreases v.len() - at,
    {
        let ghost rest = s@.skip(at as int);
        let i: usize = index_from(&v, at, c);
        let ghost done = views(out@);
        let piece = text_of(&v, at, i);
        if i < v.len() {
            proof {
                lemma_skip_skip(s@, at as int, i + 1 - at);
                assert(s@.subrange(at as int, i as int) =~= rest.take(i - at));
                assert(halves(rest, c) == Some((piece@, s@.skip(i + 1))));
            }
            out.push(piece);
            proof {
                assert(views(out@) =~= done.push(piece@));
                assert(done + (seq![piece@] + pieces(s@.skip(i + 1), c)) =~= done.push(piece@)
                    + pieces(s@.skip(i + 1), c));
            }
            at = i + 1;
        } else {
            proof {
                assert(s@.subrange(at as int, i as int) =~= rest);
            }
            out.push(piece);
            proof {
                assert(views(out@) =~= done + seq![rest]);
            }
            return out;
        }
    }
}

/// The lines of `s`.
pub fn lines(s: &str) -> (r: Vec<String>)
    ensures
        views(r@) == line_seq(s@),
{
    let v = chars_of(s);
    let mut out: Vec<String> = Vec::new();
    let mut at: usize = 0;
    proof {
        assert(v@.skip(0) =~= v@);
        assert(views(out@) + line_seq(s@) =~= line_seq(s@));
    }
    while at < v.len()
        invariant
            at <= v.len(),
            v@ == s@,
            line_seq(s@) == views(out@) + line_seq(s@.skip(at as int)),
        decreases v.len() - at,
    {
        let ghost rest = s@.skip(at as int);
        let i: usize = index_from(&v, at, '\n');
        let ghost done = views(out@);
        if i < v.len() {
            proof {
                lemma_skip_skip(s@, at as int, i + 1 - at);
                assert(halves(rest, '\n') == Some((rest.take(i - at), s@.skip(i + 1))));
            }
            let to: usize = if i > at && v[i - 1] == '\r' { i - 1 } else { i };
            let line = text_of(&v, at, to);
            proof {
                assert(line@ =~= without_return(rest.take(i - at)));
            }
            out.push(line);
            proof {
                assert(views(out@) =~= done.push(line@));
                assert(done + (seq![line@] + line_seq(s@.skip(i + 1))) =~= done.push(line@)
                    + line_seq(s@.skip(i + 1)));
            }
            at = i + 1;
        } else {
            let line = text_of(&v, at, i);
            proof {
                assert(line@ =~= rest);
                assert(line_seq(rest) == seq![rest]);
            }
            out.push(line);
            proof {
                assert(views(out@) =~= done + seq![rest]);
                assert(s@.skip(v.len() as int) =~= Seq::<char>::empty());
                assert(views(out@) + Seq::<Seq<char>>::empty() =~= views(out@));
            }
            at = i;
        }
    }
    proof {
        assert(s@.skip(at as int) =~= Seq::<char>::empty());
        assert(views(out@) + Seq::<Seq<char>>::empty() =~= views(out@));
    }
    out
}

/// `s` with each `from` in it replaced by `to`.
pub fn replace(s: &str, from: &str, to: &str) -> (r: String)
    requires
        from@.len() > 0,
    ensures
        r@ == replaced(s@, from@, to@),
{
    let v = chars_of(s);
    let w = chars_of(from);
    let mut out = String::new();
    let mut i: usize = 0;
    proof {
        assert(v@.skip(0) =~= v@);
        assert(out@ + replaced(s@, from@, to@) =~= replaced(s@, from@, to@));
    }
    while i < v.len()
        invariant
            i <= v.len(),
            v@ == s@,
            w@ == from@,
            from@.len() > 0,
            replaced(s@, from@, to@) == out@ + replaced(s@.skip(i as int), from@, to@),
        decreases v.len() - i,
    {
        let ghost rest = s@.skip(i as int);
        let ghost done = out@;
        if matches_at(&v, i, &w) {
            out.append(to);
            proof {
                lemma_skip_skip(s@, i as int, w@.len() as int);
                assert(done + (to@ + replaced(rest.skip(w@.len() as int), from@, to@)) =~= done + to@
                    + replaced(rest.skip(w@.len() as int), from@, to@));
            }
            i = i + w.len();
        } else {
            out.push(v[i]);
            proof {
                lemma_skip_skip(s@, i as int, 1);
                assert(done + (seq![rest[0]] + replaced(rest.skip(1), from@, to@)) =~= done.push(
                    rest[0],
                ) + replaced(rest.skip(1), from@, to@));
            }
            i = i + 1;
        }
    }
    proof {
        assert(s@.skip(i as int) =~= Seq::<char>::empty());
        assert(out@ + Seq::<char>::empty() =~= out@);
    }
    out
}

/// The strings of `list` with `sep` between each two.
pub fn join(list: &Vec<String>, sep: &str) -> (r: String)
    ensures
        r@ == joined(views(list@), sep@),
{
    let mut out = String::new();
    let mut i: usize = 0;
    let ghost all = views(list@);
    while i < list.len()
        invariant
            i <= list.len(),
            all == views(list@),
            out@ == joined(all.take(i as int), sep@),
        decreases list.len() - i,
    {
        proof {
            assert(all.take(i + 1).drop_last() =~= all.take(i as int));
            assert(all.take(i + 1).last() == list@[i as int]@);
        }
        if i > 0 {
            out.append(sep);
        }
        out.append(list[i].as_str());
        proof {
            if i == 0 {
                assert(out@ =~= all[0]);
            }
        }
        i = i + 1;
    }
    proof {
        assert(all.take(i as int) =~= all);
    }
    out
}

/// Whether `list` holds `s`.
pub fn list_has(list: &Vec<String>, s: &str) -> (r: bool)
    ensures
        r == views(list@).contains(s@),
{
    let mut i: usize = 0;
    while i < list.len()
        invariant
            i <= list.len(),
            forall|j: int| 0 <= j < i ==> list@[j]@ != s@,
        decreases list.len() - i,
    {
        if same(list[i].as_str(), s) {
            proof {
                assert(views(list@)[i as int] == s@);
            }
            return true;
        }
        i = i + 1;
    }
    proof {
        assert forall|j: int| 0 <= j < views(list@).len() implies views(list@)[j] != s@ by {
            assert(list@[j]@ != s@);
        }
    }
    false
}

// ---------------------------------------------------------------------
// Numbers
// ---------------------------------------------------------------------

fn digit_char(n: u64) -> (c: char)
    requires
        n < 10,
    ensures
        c == digit(n as nat),
{
    let d: u8 = n as u8;
    (48 + d) as char
}

/// A number in decimal notation.
pub fn show(n: u64) -> (r: String)
    ensures
        r@ == decimal(n as nat),
    decreases n,
{
    if n < 10 {
        let mut s = String::new();
        s.push(digit_char(n));
        proof {
            assert(s@ =~= seq![digit(n as nat)]);
        }
        s
    } else {
        let mut s = show(n / 10);
        s.push(digit_char(n % 10));
        s
    }
}

/// A whole number in decimal notation.
pub fn show_signed(n: i64) -> (r: String)
    ensures
        r@ == signed_decimal(n as int),
{
    if n >= 0 {
        show(n as u64)
    } else {
        let m: u64 = (-(n as i128)) as u64;
        let mut s = String::new();
        s.push('-');
        let t = show(m);
        proof {
            assert(s@ =~= seq!['-']);
        }
        s.concat(t.as_str())
    }
}

/// The number that `s` writes, if it writes one that is at most `max`.
pub fn parse_number(s: &str, max: u32) -> (r: Option<u32>)
    ensures
        match r {
            Some(n) => number_of(s@) == Some(n as nat) && n <= max,
            None => match number_of(s@) {
                Some(n) => n > max,
                None => true,
            },
        },
{
    let v = chars_of(s);
    let from: usize = if v.len() > 0 && v[0] == '+' { 1 } else { 0 };
    let ghost body = if s@.len() > 0 && s@[0] == '+' { s@.skip(1) } else { s@ };
    proof {
        assert(body =~= s@.skip(from as int));
    }
    if from == v.len() {
        return None;
    }
    let mut i: usize = from;
    let mut n: u32 = 0;
    let mut over: bool = false;
    proof {
        assert(body.take(0) =~= Seq::<char>::empty());
    }
    while i < v.len()
        invariant
            from <= i <= v.len(),
            v@ == s@,
            body == s@.skip(from as int),
            body == (if s@.len() > 0 && s@[0] == '+' { s@.skip(1) } else { s@ }),
            all_digits(body.take(i - from)),
            !over ==> n == digits_value(body.take(i - from)) && n <= max,
            over ==> digits_value(body.take(i - from)) > max,
        decreases v.len() - i,
    {
        let c = v[i];
        if !('0' <= c && c <= '9') {
            proof {
                assert(body[i - from] == c);
                assert(!all_digits(body));
            }
            return None;
        }
        let d: u32 = (c as u32) - 48;
        let ghost head = body.take(i - from);
        proof {
            assert(body.take(i + 1 - from).drop_last() =~= head);
            assert(body.take(i + 1 - from).last() == c);
            assert(digits_value(body.take(i + 1 - from)) == digits_value(head) * 10 + d);
            assert forall|j: int| 0 <= j < i + 1 - from implies is_digit(
                #[trigger] body.take(i + 1 - from)[j],
            ) by {
                if j < i - from {
                    assert(is_digit(head[j]));
                }
            }
        }
        if !over {
            let wide: u64 = (n as u64) * 10 + (d as u64);
            if wide <= max as u64 {
                n = wide as u32;
            } else {
                over = true;
            }
        }
        i = i + 1;
    }
    proof {
        assert(body.take(i - from) =~= body);
    }
    if over {
        None
    } else {
        Some(n)
    }
}

// ---------------------------------------------------------------------
// Columns
// ---------------------------------------------------------------------

fn blanks(n: usize) -> (r: String)
    ensures
        r@ == spaces(n as nat),
{
    let mut s = String::new();
    let mut i: usize = 0;
    while i < n
        invariant
            i <= n,
            s@ == spaces(i as nat),
        decreases n - i,
    {
        s.push(' ');
        proof {
            assert(s@ =~= spaces((i + 1) as nat));
        }
        i = i + 1;
    }
    s
}

/// `s` filled up with spaces on the right to `width` characters.
pub fn pad_right(s: &str, width: usize) -> (r: String)
    ensures
        r@ == padded_right(s@, width as nat),
{
    let n: usize = s.unicode_len();
    if n < width {
        s.to_string().concat(blanks(width - n).as_str())
    } else {
        s.to_string()
    }
}

/// `s` filled up with spaces on the left to `width` characters.
pub fn pad_left(s: &str, width: usize) -> (r: String)
    ensures
        r@ == padded_left(s@, width as nat),
{
    let n: usize = s.unicode_len();
    if n < width {
        blanks(width - n).concat(s)
    } else {
        s.to_string()
    }
}

// ---------------------------------------------------------------------
// ASCII
// ---------------------------------------------------------------------

/// Whether `c` is an ASCII letter or digit.
pub fn alphanumeric(c: char) -> (r: bool)
    ensures
        r == is_alphanumeric(c),
{
    ('a' <= c && c <= 'z') || ('A' <= c && c <= 'Z') || ('0' <= c && c <= '9')
}

/// `c` in lower case.
pub fn lower_char(c: char) -> (r: char)
    ensures
        r == lower(c),
{
    if 'A' <= c && c <= 'Z' {
        let b: u8 = c as u8;
        (b + 32) as char
    } else {
        c
    }
}


/// The short form of a commit id.
pub fn short(s: &str) -> (r: String)
    ensures
        r@ == short_id(s@),
{
    let v = chars_of(s);
    let mut out = String::new();
    let mut i: usize = 0;
    let mut left: usize = 7;
    proof {
        assert(s@.skip(0) =~= s@);
        assert(out@ + first_bytes(s@, 7) =~= first_bytes(s@, 7));
    }
    while i < v.len()
        invariant
            i <= v.len(),
            v@ == s@,
            left <= 7,
            short_id(s@) == out@ + first_bytes(s@.skip(i as int), left as int),
        decreases v.len() - i,
    {
        let c = v[i];
        let n: usize = if c <= '\u{7f}' {
            1
        } else if c <= '\u{7ff}' {
            2
        } else if c <= '\u{ffff}' {
            3
        } else {
            4
        };
        proof {
            assert(n == utf8_len(c));
            lemma_skip_skip(s@, i as int, 1);
        }
        if n > left {
            proof {
                assert(out@ + Seq::<char>::empty() =~= out@);
            }
            return out;
        }
        let ghost done = out@;
        out.push(c);
        left = left - n;
        proof {
            let rest = first_bytes(s@.skip(i + 1), left as int);
            assert(done + (seq![c] + rest) =~= out@ + rest);
        }
        i = i + 1;
    }
    proof {
        assert(s@.skip(i as int) =~= Seq::<char>::empty());
        assert(out@ + Seq::<char>::empty() =~= out@);
    }
    out
}

/// The short form of an id in ASCII is its first seven characters.
pub proof fn short_id_of_ascii(s: Seq<char>)
    requires
        forall|i: int| 0 <= i < s.len() ==> (#[trigger] s[i] as int) < 0x80,
    ensures
        short_id(s) == (if s.len() < 7 {
            s
        } else {
            s.take(7)
        }),
{
    lemma_first_bytes_of_ascii(s, 7);
}

proof fn lemma_first_bytes_of_ascii(s: Seq<char>, n: int)
    requires
        0 <= n,
        forall|i: int| 0 <= i < s.len() ==> (#[trigger] s[i] as int) < 0x80,
    ensures
        first_bytes(s, n) == (if s.len() < n {
            s
        } else {
            s.take(n)
        }),
    decreases s.len(),
{
    if s.len() == 0 || n == 0 {
        assert(first_bytes(s, n) =~= (if s.len() < n {
            s
        } else {
            s.take(n)
        }));
    } else {
        lemma_first_bytes_of_ascii(s.skip(1), n - 1);
        assert(seq![s[0]] + s.skip(1) =~= s);
        if s.len() >= n {
            assert(seq![s[0]] + s.skip(1).take(n - 1) =~= s.take(n));
        }
    }
}


// ---------------------------------------------------------------------
// Texts in texts
// ---------------------------------------------------------------------

/// What stands in a part of a text stands in the text.
pub proof fn occurs_in_a_part(p: Seq<char>, before: Seq<char>, part: Seq<char>, after: Seq<char>)
    requires
        occurs_in(p, part),
    ensures
        occurs_in(p, before + part + after),
{
    let i = choose|i: int| 0 <= i <= part.len() && #[trigger] has_prefix(part.skip(i), p);
    let whole = before + part + after;
    let k = before.len() + i;
    assert(part.skip(i).take(p.len() as int) == p);
    assert(whole.skip(k).take(p.len() as int) =~= p) by {
        assert forall|j: int| 0 <= j < p.len() implies whole.skip(k).take(p.len() as int)[j] == p[j] by {
            assert(part.skip(i).take(p.len() as int)[j] == p[j]);
            assert(whole[k + j] == part[i + j]);
        }
    }
    assert(has_prefix(whole.skip(k), p));
}

/// A text stands in itself.
pub proof fn occurs_in_itself(p: Seq<char>)
    ensures
        occurs_in(p, p),
{
    assert(p.skip(0).take(p.len() as int) =~= p);
    assert(has_prefix(p.skip(0), p));
}

/// Each text of a list stands in the list written out.
pub proof fn listed_text_occurs(list: Seq<Seq<char>>, sep: Seq<char>, i: int)
    requires
        0 <= i < list.len(),
    ensures
        occurs_in(list[i], joined(list, sep)),
    decreases list.len(),
{
    occurs_in_itself(list[i]);
    if list.len() > 1 {
        let rest = list.drop_last();
        if i < rest.len() {
            listed_text_occurs(rest, sep, i);
            occurs_in_a_part(
                list[i],
                Seq::empty(),
                joined(rest, sep),
                sep + list.last(),
            );
            assert(Seq::<char>::empty() + joined(rest, sep) + (sep + list.last()) =~= joined(
                list,
                sep,
            ));
        } else {
            occurs_in_a_part(list[i], joined(rest, sep) + sep, list.last(), Seq::empty());
            assert(joined(rest, sep) + sep + list.last() + Seq::<char>::empty() =~= joined(
                list,
                sep,
            ));
        }
    }
}

/// A list written out begins with its first text.
pub proof fn joined_from_the_front(list: Seq<Seq<char>>, sep: Seq<char>)
    requires
        list.len() > 1,
    ensures
        joined(list, sep) == list[0] + sep + joined(list.skip(1), sep),
    decreases list.len(),
{
    let rest = list.drop_last();
    if list.len() == 2 {
        assert(joined(rest, sep) == list[0]);
        assert(list.skip(1).len() == 1);
        assert(joined(list.skip(1), sep) == list[1]);
    } else {
        joined_from_the_front(rest, sep);
        let tail = list.skip(1);
        assert(tail.drop_last() =~= rest.skip(1));
        assert(tail.last() == list.last());
        assert(joined(list, sep) =~= list[0] + sep + joined(tail, sep));
    }
}

/// A number that was written in decimal notation is read back.
pub proof fn decimal_is_read_back(n: nat)
    ensures
        all_digits(decimal(n)),
        decimal(n).len() > 0,
        digits_value(decimal(n)) == n,
        number_of(decimal(n)) == Some(n),
    decreases n,
{
    decimal_digits(n);
    let s = decimal(n);
    if n >= 10 {
        decimal_is_read_back(n / 10);
        let t = decimal(n / 10);
        assert forall|i: int| 0 <= i < s.len() implies is_digit(#[trigger] s[i]) by {
            if i < t.len() {
                assert(s[i] == t[i]);
            }
        }
        assert(digits_value(s.drop_last()) == n / 10);
    } else {
        assert(s.drop_last() =~= Seq::<char>::empty());
        assert(digits_value(s.drop_last()) == 0);
    }
    assert(is_digit(s[0]));
}

// ---------------------------------------------------------------------
// Laws of the pieces
// ---------------------------------------------------------------------

/// A text begins and ends with what it was put together from.
pub proof fn begins_and_ends_as_put_together(a: Seq<char>, b: Seq<char>)
    ensures
        has_prefix(a + b, a),
        has_suffix(a + b, b),
        (a + b).skip(a.len() as int) == b,
        (a + b).take((a + b).len() - b.len()) == a,
{
    assert((a + b).take(a.len() as int) =~= a);
    assert((a + b).skip((a + b).len() - b.len()) =~= b);
    assert((a + b).skip(a.len() as int) =~= b);
    assert((a + b).take((a + b).len() - b.len()) =~= a);
}

/// A text is split at the first separator, which belongs to neither side.
pub proof fn split_at_the_first(a: Seq<char>, c: char, b: Seq<char>)
    requires
        !a.contains(c),
    ensures
        halves(a + seq![c] + b, c) == Some((a, b)),
        halves(a, c) is None,
        first_index(a + seq![c] + b, c) == a.len(),
        first_index(a, c) == a.len(),
{
    let s = a + seq![c] + b;
    first_index_is_a_place(s, c);
    first_index_is_a_place(a, c);
    assert(s[a.len() as int] == c);
    assert forall|j: int| 0 <= j < a.len() implies s[j] != c by {
        assert(s[j] == a[j]);
        assert(a.contains(a[j]));
    }
    if first_index(a, c) < a.len() {
        assert(a.contains(a[first_index(a, c)]));
    }
    assert(s.take(a.len() as int) =~= a);
    assert(s.skip(a.len() as int + 1) =~= b);
}

/// The two sides of a split, with the separator between them, are the text,
/// and the first of them does not have the separator.
pub proof fn a_split_loses_nothing(s: Seq<char>, c: char)
    ensures
        halves(s, c) matches Some((head, rest)) ==> s == head + seq![c] + rest && !head.contains(c),
        halves(s, c) is None <==> !s.contains(c),
{
    first_index_is_a_place(s, c);
    let i = first_index(s, c);
    if i < s.len() {
        assert(s =~= s.take(i) + seq![c] + s.skip(i + 1));
        assert(s.contains(s[i]));
    } else if s.contains(c) {
        let j = choose|j: int| 0 <= j < s.len() && s[j] == c;
        assert(s[j] != c);
    }
}

/// The pieces of a text are those between its separators.
pub proof fn pieces_stand_between_separators(a: Seq<char>, c: char, b: Seq<char>)
    requires
        !a.contains(c),
    ensures
        pieces(a, c) == seq![a],
        pieces(a + seq![c] + b, c) == seq![a] + pieces(b, c),
{
    split_at_the_first(a, c, b);
}

/// The lines of a text are those between its line feeds; a carriage return
/// before a line feed belongs to neither, and a line feed at the end begins no
/// further line.
pub proof fn lines_stand_between_line_feeds(a: Seq<char>, b: Seq<char>)
    requires
        !a.contains('\n'),
    ensures
        line_seq(Seq::empty()).len() == 0,
        a.len() > 0 ==> line_seq(a) == seq![a],
        a.len() == 0 || a.last() != '\r' ==> line_seq(a + seq!['\n'] + b) == seq![a] + line_seq(b),
        line_seq(a + seq!['\r'] + seq!['\n'] + b) == seq![a] + line_seq(b),
{
    split_at_the_first(a, '\n', b);
    let r = a + seq!['\r'];
    assert(!r.contains('\n')) by {
        if r.contains('\n') {
            let j = choose|j: int| 0 <= j < r.len() && r[j] == '\n';
            if j < a.len() {
                assert(a.contains(a[j]));
            }
        }
    }
    split_at_the_first(r, '\n', b);
    assert(r.drop_last() =~= a);
}

/// Spaces, tabs and line ends are blanks; letters, digits and the signs of
/// ASCII are not.
pub proof fn what_is_blank(c: char)
    ensures
        is_blank(' '),
        is_blank('\t'),
        is_blank('\n'),
        is_blank('\r'),
        is_blank('\u{a0}'),
        is_blank('\u{2003}'),
        is_blank('\u{3000}'),
        '!' <= c <= '~' ==> !is_blank(c),
{
}

/// Blanks are taken off both ends of a text and nowhere else.
pub proof fn blanks_at_the_ends_go(a: Seq<char>, t: Seq<char>, b: Seq<char>)
    requires
        forall|i: int| 0 <= i < a.len() ==> is_blank(#[trigger] a[i]),
        forall|i: int| 0 <= i < b.len() ==> is_blank(#[trigger] b[i]),
        t.len() > 0 ==> !is_blank(t[0]) && !is_blank(t.last()),
    ensures
        trimmed(a + t + b) == t,
{
    lemma_start_goes(a, t + b);
    assert(a + t + b =~= a + (t + b));
    if t.len() == 0 {
        assert(t + b =~= b + t);
        lemma_start_goes(b, t);
        assert(trimmed_start(t) =~= t);
        assert(trimmed_end(t) =~= t);
    } else {
        assert((t + b)[0] == t[0]);
        lemma_end_goes(t, b);
    }
}

proof fn lemma_start_goes(a: Seq<char>, s: Seq<char>)
    requires
        forall|i: int| 0 <= i < a.len() ==> is_blank(#[trigger] a[i]),
    ensures
        trimmed_start(a + s) == trimmed_start(s),
    decreases a.len(),
{
    if a.len() > 0 {
        assert((a + s)[0] == a[0]);
        assert((a + s).skip(1) =~= a.skip(1) + s);
        assert forall|i: int| 0 <= i < a.skip(1).len() implies is_blank(#[trigger] a.skip(1)[i]) by {
            assert(a.skip(1)[i] == a[i + 1]);
        }
        lemma_start_goes(a.skip(1), s);
    } else {
        assert(a + s =~= s);
    }
}

proof fn lemma_end_goes(t: Seq<char>, b: Seq<char>)
    requires
        forall|i: int| 0 <= i < b.len() ==> is_blank(#[trigger] b[i]),
        t.len() > 0,
        !is_blank(t.last()),
    ensures
        trimmed_end(t + b) == t,
    decreases b.len(),
{
    if b.len() > 0 {
        assert((t + b).last() == b.last());
        assert((t + b).drop_last() =~= t + b.drop_last());
        assert(is_blank(b[b.len() - 1]));
        lemma_end_goes(t, b.drop_last());
    } else {
        assert(t + b =~= t);
    }
}

/// What follows the last separator has none, and all of a text without one
/// follows.
pub proof fn what_follows_the_last(a: Seq<char>, c: char, b: Seq<char>)
    requires
        !b.contains(c),
    ensures
        after_last(a + seq![c] + b, c) == b,
        after_last(b, c) == b,
{
    let s = a + seq![c] + b;
    let n = a.len() + 1;
    assert forall|j: int| n <= j < s.len() implies s[j] != c by {
        assert(s[j] == b[j - n]);
        assert(b.contains(b[j - n]));
    }
    lemma_after_last(s, c, n as int);
    assert(s.skip(n as int) =~= b);
    assert forall|j: int| 0 <= j < b.len() implies b[j] != c by {
        assert(b.contains(b[j]));
    }
    lemma_after_last(b, c, 0);
    assert(b.skip(0) =~= b);
}

/// Filling up adds spaces on one side, as many as are missing and no more.
pub proof fn filling_up_adds_spaces(s: Seq<char>, width: nat)
    ensures
        padded_right(s, width).len() == (if s.len() < width {
            width
        } else {
            s.len()
        }),
        padded_right(s, width).take(s.len() as int) == s,
        forall|i: int|
            s.len() <= i < padded_right(s, width).len() ==> #[trigger] padded_right(s, width)[i]
                == ' ',
        padded_left(s, width).len() == padded_right(s, width).len(),
        padded_left(s, width).skip(padded_left(s, width).len() - s.len()) == s,
        forall|i: int|
            0 <= i < padded_left(s, width).len() - s.len() ==> #[trigger] padded_left(s, width)[i]
                == ' ',
{
    assert(padded_right(s, width).take(s.len() as int) =~= s);
    assert(padded_left(s, width).skip(padded_left(s, width).len() - s.len()) =~= s);
}

/// A character is taken off the end of a text as often as it stands there, and
/// off the start likewise.
pub proof fn ends_are_taken_off(s: Seq<char>, c: char)
    ensures
        without_end(s.push(c), c) == without_end(s, c),
        s.len() > 0 && s.last() != c ==> without_end(s, c) == s,
        without_start(seq![c] + s, c) == without_start(s, c),
        s.len() > 0 && s[0] != c ==> without_start(s, c) == s,
{
    assert(s.push(c).drop_last() =~= s);
    assert((seq![c] + s).skip(1) =~= s);
}

/// Capital letters of ASCII become small ones, and nothing else changes.
pub proof fn capitals_become_small(c: char)
    ensures
        lower('A') == 'a',
        lower('Z') == 'z',
        'A' <= c <= 'Z' ==> lower(c) as int == c as int + 32,
        !('A' <= c <= 'Z') ==> lower(c) == c,
        'a' <= c <= 'z' || 'A' <= c <= 'Z' || '0' <= c <= '9' <==> is_alphanumeric(c),
{
}

/// A text is replaced at each of its places, from the left, and nowhere else.
pub proof fn each_place_is_replaced(a: Seq<char>, from: Seq<char>, to: Seq<char>, b: Seq<char>)
    requires
        from.len() == 1,
        !a.contains(from[0]),
    ensures
        replaced(a, from, to) == a,
        replaced(a + from + b, from, to) == a + to + replaced(b, from, to),
    decreases a.len(),
{
    let s = a + from + b;
    if a.len() == 0 {
        assert(s.take(1) =~= from);
        assert(s.skip(1) =~= b);
        assert(a + to =~= to);
    } else {
        assert(a.contains(a[0]));
        assert(a.take(1)[0] == a[0]);
        assert(s.take(1)[0] == a[0]);
        let tail = a.skip(1);
        assert(!tail.contains(from[0])) by {
            if tail.contains(from[0]) {
                let j = choose|j: int| 0 <= j < tail.len() && tail[j] == from[0];
                assert(a[j + 1] == from[0]);
            }
        }
        each_place_is_replaced(tail, from, to, b);
        assert(s.skip(1) =~= tail + from + b);
        assert(seq![a[0]] + tail =~= a);
        assert(seq![a[0]] + (tail + to + replaced(b, from, to)) =~= a + to + replaced(b, from, to));
    }
}

/// A list of one text is that text written out, and a list of none is nothing.
pub proof fn short_lists_are_written_out(a: Seq<char>, b: Seq<char>, sep: Seq<char>)
    ensures
        joined(Seq::empty(), sep).len() == 0,
        joined(seq![a], sep) == a,
        joined(seq![a, b], sep) == a + sep + b,
{
    assert(seq![a, b].drop_last() =~= seq![a]);
    assert(joined(seq![a], sep) == a);
}

/// The digits of a number are read from the left, and a plus sign before them
/// changes nothing; a text with anything else in it writes no number, nor does
/// one without digits.
pub proof fn what_writes_a_number(s: Seq<char>, i: int)
    ensures
        all_digits(s) && s.len() > 0 ==> number_of(s) == Some(digits_value(s)),
        all_digits(s) && s.len() > 0 ==> number_of(seq!['+'] + s) == Some(digits_value(s)),
        0 < i < s.len() && !('0' <= s[i] <= '9') ==> number_of(s) is None,
        s.len() == 0 ==> number_of(s) is None,
{
    assert((seq!['+'] + s).skip(1) =~= s);
    if s.len() > 0 {
        if all_digits(s) {
            assert(is_digit(s[0]));
        }
        if 0 < i < s.len() && !('0' <= s[i] <= '9') {
            let body = if s[0] == '+' {
                s.skip(1)
            } else {
                s
            };
            let at = if s[0] == '+' {
                i - 1
            } else {
                i
            };
            assert(body[at] == s[i]);
        }
    }
}

} // verus!
