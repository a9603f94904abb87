//! The catalog of a pool: the identifiers of its snapshots, as the listing
//! of the filesystem tool gives them, and what is selected from them by kind.

use crate::text::{
    ascending, chars_lt, chars_of, chars_start_with, label_chars, label_part, lemma_lex_total,
    lemma_lex_transitive, lemma_texts_push, lex_le, lex_lt, rows, texts,
};
use vstd::prelude::*;

verus! {

/// Whether the label of the snapshot `id` starts with `prefix`.
pub open spec fn has_kind(id: Seq<char>, prefix: Seq<char>) -> bool {
    prefix.is_prefix_of(label_part(id))
}

/// Those of `names` whose label starts with `prefix`, in order.
pub open spec fn of_kind(names: Seq<Seq<char>>, prefix: Seq<char>) -> Seq<Seq<char>> {
    names.filter(|id: Seq<char>| has_kind(id, prefix))
}

/// The views of a list into which one string was inserted.
proof fn lemma_texts_insert(names: Seq<String>, at: int, name: String)
    requires
        0 <= at <= names.len(),
    ensures
        texts(names.insert(at, name)) == texts(names).insert(at, name@),
{
    assert(texts(names.insert(at, name)) =~= texts(names).insert(at, name@));
}

/// The views of a list into which one character vector was inserted.
proof fn lemma_rows_insert(keys: Seq<Vec<char>>, at: int, key: Vec<char>)
    requires
        0 <= at <= keys.len(),
    ensures
        rows(keys.insert(at, key)) == rows(keys).insert(at, key@),
{
    assert(rows(keys.insert(at, key)) =~= rows(keys).insert(at, key@));
}

/// A sorted list stays sorted where a string is inserted behind all that do
/// not follow it and before all that do.
proof fn lemma_insert_keeps_order(names: Seq<Seq<char>>, at: int, name: Seq<char>)
    requires
        ascending(names),
        0 <= at <= names.len(),
        forall|k: int| at <= k < names.len() ==> lex_lt(name, #[trigger] names[k]),
        at > 0 ==> !lex_lt(name, names[at - 1]),
    ensures
        ascending(names.insert(at, name)),
{
    let grown = names.insert(at, name);
    assert forall|i: int, j: int| 0 <= i <= j < grown.len() implies lex_le(grown[i], grown[j]) by {
        if i == j {
        } else if j < at {
            assert(grown[i] == names[i] && grown[j] == names[j]);
        } else if i > at {
            assert(grown[i] == names[i - 1] && grown[j] == names[j - 1]);
        } else if i == at {
            assert(grown[j] == names[j - 1]);
        } else if j == at {
            assert(grown[i] == names[i]);
            lemma_lex_total(name, names[at - 1]);
            assert(lex_le(names[i], names[at - 1]));
            if names[i] != names[at - 1] && names[at - 1] != name {
                lemma_lex_transitive(names[i], names[at - 1], name);
            }
        } else {
            assert(grown[i] == names[i] && grown[j] == names[j - 1]);
        }
    }
}

/// The names in ascending order.
pub fn sort_names(names: &Vec<String>) -> (sorted: Vec<String>)
    ensures
        ascending(texts(sorted@)),
        texts(sorted@).to_multiset() == texts(names@).to_multiset(),
{
    let mut sorted: Vec<String> = Vec::new();
    let mut keys: Vec<Vec<char>> = Vec::new();
    let mut i: usize = 0;
    proof {
        assert(texts(sorted@) =~= Seq::empty());
        assert(rows(keys@) =~= Seq::empty());
        assert(texts(names@).take(0) =~= Seq::empty());
    }
    while i < names.len()
        invariant
            i <= names.len(),
            rows(keys@) == texts(sorted@),
            keys.len() == sorted.len(),
            ascending(texts(sorted@)),
            texts(sorted@).to_multiset() == texts(names@).take(i as int).to_multiset(),
        decreases names.len() - i,
    {
        let key = chars_of(names[i].as_str());
        let mut at: usize = keys.len();
        while at > 0 && chars_lt(&key, &keys[at - 1])
            invariant
                at <= keys.len(),
                forall|k: int| at <= k < keys.len() ==> lex_lt(key@, #[trigger] rows(keys@)[k]),
            decreases at,
        {
            at -= 1;
        }
        let name = names[i].clone();
        proof {
            let before = texts(sorted@);
            lemma_insert_keeps_order(before, at as int, key@);
            lemma_texts_insert(sorted@, at as int, name);
            lemma_rows_insert(keys@, at as int, key);
            vstd::seq_lib::to_multiset_insert(before, at as int, key@);
            let seen = texts(names@).take(i as int);
            assert(texts(names@).take(i + 1) =~= seen.push(key@));
            vstd::seq_lib::to_multiset_build(seen, key@);
        }
        sorted.insert(at, name);
        keys.insert(at, key);
        i += 1;
    }
    proof {
        assert(texts(names@).take(i as int) =~= texts(names@));
    }
    sorted
}

/// The snapshots of `catalog` whose label starts with `prefix`, in ascending
/// order: each of them as often as the catalog holds it, and no other.
pub fn filter_by_kind(catalog: &Vec<String>, prefix: &str) -> (found: Vec<String>)
    ensures
        ascending(texts(found@)),
        texts(found@).to_multiset() == of_kind(texts(catalog@), prefix@).to_multiset(),
        forall|i: int| 0 <= i < found.len() ==> has_kind(#[trigger] texts(found@)[i], prefix@),
{
    let wanted = chars_of(prefix);
    let mut kept: Vec<String> = Vec::new();
    let mut i: usize = 0;
    proof {
        reveal(Seq::filter);
        assert(texts(catalog@).take(0) =~= Seq::empty());
        assert(texts(kept@) =~= Seq::empty());
    }
    while i < catalog.len()
        invariant
            i <= catalog.len(),
            wanted@ == prefix@,
            texts(kept@) == of_kind(texts(catalog@).take(i as int), prefix@),
        decreases catalog.len() - i,
    {
        proof {
            let names = texts(catalog@);
            assert(names.take(i + 1) =~= names.take(i as int).push(catalog@[i as int]@));
            names.take(i as int).lemma_filter_push(
                catalog@[i as int]@,
                |id: Seq<char>| has_kind(id, prefix@),
            );
        }
        let label = label_chars(catalog[i].as_str());
        proof {
            assert(label@.skip(0) =~= label@);
        }
        if chars_start_with(&label, 0, &wanted) {
            let name = catalog[i].clone();
            proof {
                lemma_texts_push(kept@, name);
            }
            kept.push(name);
        }
        i += 1;
    }
    let found = sort_names(&kept);
    proof {
        let names = texts(catalog@);
        assert(names.take(i as int) =~= names);
        let chosen = of_kind(names, prefix@);
        assert forall|k: int| 0 <= k < found.len() implies has_kind(
            #[trigger] texts(found@)[k],
            prefix@,
        ) by {
            let name = texts(found@)[k];
            texts(found@).to_multiset_ensures();
            chosen.to_multiset_ensures();
            assert(texts(found@).contains(name));
            assert(texts(found@).to_multiset().count(name) > 0);
            assert(chosen.to_multiset().count(name) > 0);
            assert(chosen.contains(name));
            let at = choose|at: int| 0 <= at < chosen.len() && chosen[at] == name;
            names.lemma_filter_pred(|id: Seq<char>| has_kind(id, prefix@), at);
        }
    }
    found
}

/// The newest snapshot of a catalog in ascending order: its last entry.
pub fn latest(catalog: &Vec<String>) -> (r: Option<String>)
    ensures
        match r {
            Some(name) => catalog.len() > 0 && name@ == texts(catalog@).last(),
            None => catalog.len() == 0,
        },
{
    if catalog.len() == 0 {
        None
    } else {
        Some(catalog[catalog.len() - 1].clone())
    }
}

} // verus!
