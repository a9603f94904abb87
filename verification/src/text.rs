//! Character-level operations on snapshot identifiers and the lexicographic
//! order in which labels are compared.
//!
//! A string is modelled by its view, a `Seq<char>`. Strings are ordered as
//! `str` orders them: character by character, by code point, a proper prefix
//! before any of its extensions.

use vstd::prelude::*;
use vstd::std_specs::iter::IteratorSpec;

verus! {

/// `String::push` appends one character.
pub assume_specification[ String::push ](s: &mut String, ch: char)
    ensures
        final(s)@ == old(s)@.push(ch),
;

/// The character that separates the pool from the label in a snapshot identifier.
pub open spec fn separator() -> char {
    '@'
}

/// `a` and `b` agree on their first `k` characters and `a` comes first at
/// position `k`: either `a` ends there and `b` goes on, or both go on and
/// `a` holds the smaller character.
pub open spec fn precedes_at(a: Seq<char>, b: Seq<char>, k: int) -> bool {
    &&& 0 <= k <= a.len()
    &&& k < b.len()
    &&& a.take(k) == b.take(k)
    &&& (k < a.len() ==> a[k] < b[k])
}

/// Strict lexicographic order on strings.
pub open spec fn lex_lt(a: Seq<char>, b: Seq<char>) -> bool {
    exists|k: int| #[trigger] precedes_at(a, b, k)
}

/// Lexicographic order on strings.
pub open spec fn lex_le(a: Seq<char>, b: Seq<char>) -> bool {
    a == b || lex_lt(a, b)
}

/// A sequence of strings is in ascending lexicographic order.
pub open spec fn ascending(names: Seq<Seq<char>>) -> bool {
    forall|i: int, j: int| 0 <= i <= j < names.len() ==> lex_le(names[i], names[j])
}

/// The index one past the last `mark` in `s`, or 0 where `s` holds none.
pub open spec fn after_last(s: Seq<char>, mark: char) -> int
    decreases s.len(),
{
    if s.len() == 0 {
        0
    } else if s.last() == mark {
        s.len() as int
    } else {
        after_last(s.drop_last(), mark)
    }
}

/// The index at which the label of `id` starts: one past the last separator,
/// or 0 where `id` holds none.
pub open spec fn label_start(id: Seq<char>) -> int {
    after_last(id, separator())
}

/// The label of a snapshot identifier: what follows its last separator, the
/// whole identifier where it holds none.
pub open spec fn label_part(id: Seq<char>) -> Seq<char> {
    id.skip(label_start(id))
}

/// The index at which the pool of `id` ends: the position of the first
/// separator, or the length of `id` where it holds none.
pub open spec fn pool_end(id: Seq<char>) -> int
    decreases id.len(),
{
    if id.len() == 0 {
        0
    } else if id.first() == separator() {
        0
    } else {
        1 + pool_end(id.drop_first())
    }
}

/// The pool of a snapshot identifier: what precedes its first separator, the
/// whole identifier where it holds none.
pub open spec fn pool_part(id: Seq<char>) -> Seq<char> {
    id.take(pool_end(id))
}

/// The views of a list of strings, in order.
pub open spec fn texts(names: Seq<String>) -> Seq<Seq<char>> {
    names.map_values(|s: String| s@)
}

/// The views of a list of character vectors, in order.
pub open spec fn rows(keys: Seq<Vec<char>>) -> Seq<Seq<char>> {
    keys.map_values(|k: Vec<char>| k@)
}

/// The views of a list that has grown by one string.
pub proof fn lemma_texts_push(names: Seq<String>, last: String)
    ensures
        texts(names.push(last)) == texts(names).push(last@),
{
    assert(texts(names.push(last)) =~= texts(names).push(last@));
}

/// The views of a list that has grown by one character vector.
pub proof fn lemma_rows_push(keys: Seq<Vec<char>>, last: Vec<char>)
    ensures
        rows(keys.push(last)) == rows(keys).push(last@),
{
    assert(rows(keys.push(last)) =~= rows(keys).push(last@));
}

/// The bounds of `after_last`, and where the marks lie around it.
pub proof fn lemma_after_last_bounds(s: Seq<char>, mark: char)
    ensures
        0 <= after_last(s, mark) <= s.len(),
        after_last(s, mark) > 0 ==> s[after_last(s, mark) - 1] == mark,
        forall|i: int| after_last(s, mark) <= i < s.len() ==> s[i] != mark,
    decreases s.len(),
{
    if s.len() > 0 && s.last() != mark {
        let rest = s.drop_last();
        lemma_after_last_bounds(rest, mark);
        assert forall|i: int| after_last(s, mark) <= i < s.len() implies s[i] != mark by {
            if i < rest.len() {
                assert(s[i] == rest[i]);
            }
        }
    }
}

/// The bounds of `pool_end`, and where the separators lie around it.
pub proof fn lemma_pool_end_bounds(id: Seq<char>)
    ensures
        0 <= pool_end(id) <= id.len(),
        pool_end(id) < id.len() ==> id[pool_end(id)] == separator(),
        forall|i: int| 0 <= i < pool_end(id) ==> id[i] != separator(),
    decreases id.len(),
{
    if id.len() > 0 && id.first() != separator() {
        lemma_pool_end_bounds(id.drop_first());
        assert forall|i: int| 0 <= i < pool_end(id) implies id[i] != separator() by {
            if i > 0 {
                assert(id[i] == id.drop_first()[i - 1]);
            }
        }
    }
}

/// No string precedes itself.
pub proof fn lemma_lex_irreflexive(a: Seq<char>)
    ensures
        !lex_lt(a, a),
{
}

/// The order is transitive.
pub proof fn lemma_lex_transitive(a: Seq<char>, b: Seq<char>, c: Seq<char>)
    requires
        lex_lt(a, b),
        lex_lt(b, c),
    ensures
        lex_lt(a, c),
{
    let i = choose|k: int| precedes_at(a, b, k);
    let j = choose|k: int| precedes_at(b, c, k);
    let k = if i <= j { i } else { j };
    assert(a.take(k) == a.take(i).take(k));
    assert(b.take(k) == b.take(i).take(k));
    assert(b.take(k) == b.take(j).take(k));
    assert(c.take(k) == c.take(j).take(k));
    if i < j {
        assert(b[i] == b.take(j)[i]);
        assert(c[i] == c.take(j)[i]);
    }
    if j < i {
        assert(a[j] == a.take(i)[j]);
        assert(b[j] == b.take(i)[j]);
    }
    assert(precedes_at(a, c, k));
}

/// Of two strings that agree on their first `k` characters, one precedes the
/// other or they are equal.
proof fn lemma_lex_total_from(a: Seq<char>, b: Seq<char>, k: int)
    requires
        0 <= k <= a.len(),
        k <= b.len(),
        a.take(k) == b.take(k),
    ensures
        lex_lt(a, b) || lex_lt(b, a) || a == b,
    decreases a.len() - k,
{
    if k == a.len() {
        if k == b.len() {
            assert(a.take(k) == a);
            assert(b.take(k) == b);
        } else {
            assert(precedes_at(a, b, k));
        }
    } else if k == b.len() {
        assert(precedes_at(b, a, k));
    } else if a[k] == b[k] {
        assert(a.take(k + 1) == a.take(k).push(a[k]));
        assert(b.take(k + 1) == b.take(k).push(b[k]));
        lemma_lex_total_from(a, b, k + 1);
    } else if a[k] < b[k] {
        assert(precedes_at(a, b, k));
    } else {
        assert(precedes_at(b, a, k));
    }
}

/// The order is total.
pub proof fn lemma_lex_total(a: Seq<char>, b: Seq<char>)
    ensures
        lex_lt(a, b) || lex_lt(b, a) || a == b,
{
    assert(a.take(0) == b.take(0));
    lemma_lex_total_from(a, b, 0);
}

/// No two strings precede each other.
pub proof fn lemma_lex_asymmetric(a: Seq<char>, b: Seq<char>)
    requires
        lex_lt(a, b),
    ensures
        !lex_lt(b, a),
{
    if lex_lt(b, a) {
        lemma_lex_transitive(a, b, a);
    }
}

/// A common prefix does not change the order of what follows it.
pub proof fn lemma_lex_common_prefix(p: Seq<char>, a: Seq<char>, b: Seq<char>)
    ensures
        lex_lt(p + a, p + b) == lex_lt(a, b),
{
    if lex_lt(a, b) {
        let k = choose|k: int| precedes_at(a, b, k);
        assert((p + a).take(p.len() + k) == p + a.take(k));
        assert((p + b).take(p.len() + k) == p + b.take(k));
        assert(precedes_at(p + a, p + b, p.len() + k));
    }
    if lex_lt(p + a, p + b) {
        let k = choose|k: int| precedes_at(p + a, p + b, k);
        if k < p.len() {
            assert((p + a)[k] == p[k]);
            assert((p + b)[k] == p[k]);
            assert(false);
        }
        let m = k - p.len();
        assert(a.take(m) =~= (p + a).take(k).skip(p.len() as int));
        assert(b.take(m) =~= (p + b).take(k).skip(p.len() as int));
        if m < a.len() {
            assert((p + a)[k] == a[m]);
        }
        assert((p + b)[k] == b[m]);
        assert(precedes_at(a, b, m));
    }
}

/// Of two strings of one length, the order is decided before either ends:
/// what is appended to them does not change it.
pub proof fn lemma_lex_same_length_heads(
    a: Seq<char>,
    b: Seq<char>,
    x: Seq<char>,
    y: Seq<char>,
)
    requires
        a.len() == b.len(),
        lex_lt(a, b),
    ensures
        lex_lt(a + x, b + y),
{
    let k = choose|k: int| precedes_at(a, b, k);
    assert((a + x).take(k) == a.take(k));
    assert((b + y).take(k) == b.take(k));
    assert((a + x)[k] == a[k]);
    assert((b + y)[k] == b[k]);
    assert(precedes_at(a + x, b + y, k));
}

/// The characters of a string, in order.
pub fn chars_of(s: &str) -> (out: Vec<char>)
    ensures
        out@ == s@,
{
    let mut out: Vec<char> = Vec::new();
    for c in it: s.chars()
        invariant
            out@ == s@.take(it.index() as int),
            it.seq() == s@,
    {
        out.push(c);
    }
    out
}

/// The string made of the characters of `v` from `from` up to `to`.
pub(crate) fn string_of(v: &Vec<char>, from: usize, to: usize) -> (out: String)
    requires
        from <= to <= v.len(),
    ensures
        out@ == v@.subrange(from as int, to as int),
{
    let mut out = String::new();
    let mut i: usize = from;
    while i < to
        invariant
            from <= i <= to <= v.len(),
            out@ == v@.subrange(from as int, i as int),
        decreases to - i,
    {
        out.push(v[i]);
        i += 1;
    }
    out
}

/// Whether `a` precedes `b` in lexicographic order.
pub fn chars_lt(a: &Vec<char>, b: &Vec<char>) -> (r: bool)
    ensures
        r == lex_lt(a@, b@),
{
    let mut i: usize = 0;
    while i < a.len() && i < b.len() && a[i] == b[i]
        invariant
            i <= a.len(),
            i <= b.len(),
            a@.take(i as int) == b@.take(i as int),
        decreases a.len() - i,
    {
        proof {
            assert(a@.take(i + 1) == a@.take(i as int).push(a@[i as int]));
            assert(b@.take(i + 1) == b@.take(i as int).push(b@[i as int]));
        }
        i += 1;
    }
    let r = i < b.len() && (i == a.len() || a[i] < b[i]);
    proof {
        if r {
            assert(precedes_at(a@, b@, i as int));
        } else {
            assert forall|k: int| !precedes_at(a@, b@, k) by {
                if precedes_at(a@, b@, k) {
                    if k < i {
                        assert(a@[k] == a@.take(i as int)[k]);
                        assert(b@[k] == b@.take(i as int)[k]);
                    } else if k > i {
                        if i < a.len() && i < b.len() {
                            assert(a@[i as int] == a@.take(k)[i as int]);
                            assert(b@[i as int] == b@.take(k)[i as int]);
                        }
                    }
                }
            }
        }
    }
    r
}

/// Whether `s` starts with `p`.
pub(crate) fn chars_start_with(s: &Vec<char>, from: usize, p: &Vec<char>) -> (r: bool)
    requires
        from <= s.len(),
    ensures
        r == p@.is_prefix_of(s@.skip(from as int)),
{
    if p.len() > s.len() - from {
        return false;
    }
    let mut i: usize = 0;
    while i < p.len()
        invariant
            from <= s.len(),
            p.len() <= s.len() - from,
            i <= p.len(),
            forall|k: int| 0 <= k < i ==> p@[k] == s@[from + k],
        decreases p.len() - i,
    {
        if p[i] != s[from + i] {
            proof {
                let t = s@.skip(from as int).subrange(0, p@.len() as int);
                assert(t[i as int] == s@[from + i]);
            }
            return false;
        }
        i += 1;
    }
    proof {
        assert(p@ =~= s@.skip(from as int).subrange(0, p@.len() as int));
    }
    true
}

/// Whether `s` ends with `p`.
pub fn chars_end_with(s: &Vec<char>, p: &Vec<char>) -> (r: bool)
    ensures
        r == p@.is_suffix_of(s@),
{
    if p.len() > s.len() {
        return false;
    }
    let from = s.len() - p.len();
    let r = chars_start_with(s, from, p);
    proof {
        assert(s@.skip(from as int).subrange(0, p@.len() as int) =~= s@.subrange(
            (s@.len() - p@.len()) as int,
            s@.len() as int,
        ));
    }
    r
}

/// The index at which the label starts in the characters of an identifier.
pub fn label_index(id: &Vec<char>) -> (r: usize)
    ensures
        r == label_start(id@),
        r <= id.len(),
{
    let mut last: usize = 0;
    let mut i: usize = 0;
    while i < id.len()
        invariant
            i <= id.len(),
            last <= i,
            last == after_last(id@.take(i as int), separator()),
        decreases id.len() - i,
    {
        proof {
            assert(id@.take(i + 1).drop_last() == id@.take(i as int));
        }
        if id[i] == '@' {
            last = i + 1;
        }
        i += 1;
    }
    proof {
        assert(id@.take(i as int) == id@);
    }
    last
}

/// The characters of the label of a snapshot identifier.
pub fn label_chars(id: &str) -> (label: Vec<char>)
    ensures
        label@ == label_part(id@),
{
    let chars = chars_of(id);
    let start = label_index(&chars);
    let mut label: Vec<char> = Vec::new();
    let mut i: usize = start;
    while i < chars.len()
        invariant
            start <= i <= chars.len(),
            label@ == chars@.subrange(start as int, i as int),
        decreases chars.len() - i,
    {
        label.push(chars[i]);
        i += 1;
    }
    label
}

/// The index at which the pool ends in the characters of an identifier.
pub fn pool_index(id: &Vec<char>) -> (r: usize)
    ensures
        r == pool_end(id@),
        r <= id.len(),
{
    let mut i: usize = 0;
    proof {
        assert(id@.skip(0) == id@);
    }
    while i < id.len() && id[i] != '@'
        invariant
            i <= id.len(),
            pool_end(id@) == i + pool_end(id@.skip(i as int)),
        decreases id.len() - i,
    {
        proof {
            assert(id@.skip(i as int).drop_first() == id@.skip(i + 1));
        }
        i += 1;
    }
    i
}

/// The label of a snapshot identifier.
pub fn snapshot_label(id: &str) -> (r: String)
    ensures
        r@ == label_part(id@),
{
    let chars = chars_of(id);
    let start = label_index(&chars);
    string_of(&chars, start, chars.len())
}

/// The pool of a snapshot identifier.
pub fn snapshot_pool(id: &str) -> (r: String)
    ensures
        r@ == pool_part(id@),
{
    let chars = chars_of(id);
    let end = pool_index(&chars);
    string_of(&chars, 0, end)
}

/// Whether `s` starts with `prefix`.
pub fn has_prefix(s: &str, prefix: &str) -> (r: bool)
    ensures
        r == prefix@.is_prefix_of(s@),
{
    let a = chars_of(s);
    let p = chars_of(prefix);
    chars_start_with(&a, 0, &p)
}

/// Whether `s` ends with `suffix`.
pub fn has_suffix(s: &str, suffix: &str) -> (r: bool)
    ensures
        r == suffix@.is_suffix_of(s@),
{
    let a = chars_of(s);
    let p = chars_of(suffix);
    chars_end_with(&a, &p)
}

/// Whether `a` precedes `b` in lexicographic order.
pub fn str_lt(a: &str, b: &str) -> (r: bool)
    ensures
        r == lex_lt(a@, b@),
{
    let x = chars_of(a);
    let y = chars_of(b);
    chars_lt(&x, &y)
}

} // verus!
