//! Which snapshots may go.
//!
//! Automatic snapshots go by age: those whose label sorts before the label of
//! the cutoff. Replication snapshots go by supersession: once a transfer is
//! confirmed, those that stood in the catalog when the session began, never
//! the base that the session made.

use crate::stamp::{
    earlier, label_text, lemma_label_has_no_separator, lemma_label_of_name, lemma_label_order,
    name_text, Moment, SnapshotKind, Timestamp,
};
use crate::text::{
    chars_lt, chars_of, chars_start_with, label_chars, label_part, lemma_lex_asymmetric,
    lemma_texts_push, lex_lt, texts,
};
use vstd::prelude::*;

verus! {

/// `names` without `name`, in order.
pub open spec fn without(names: Seq<Seq<char>>, name: Seq<char>) -> Seq<Seq<char>> {
    names.filter(|s: Seq<char>| s != name)
}

/// Whether the snapshot `id` is an automatic one with a label that sorts before `cutoff`.
pub open spec fn is_expired(id: Seq<char>, cutoff: Seq<char>) -> bool {
    "auto_"@.is_prefix_of(label_part(id)) && lex_lt(label_part(id), cutoff)
}

/// Those of `names` that have expired at `cutoff`, in order.
pub open spec fn expired_of(names: Seq<Seq<char>>, cutoff: Seq<char>) -> Seq<Seq<char>> {
    names.filter(|id: Seq<char>| is_expired(id, cutoff))
}

/// The snapshots that a confirmed session supersedes: those that the
/// catalog held when the session began, without the base that the session
/// made.
pub fn superseded(at_start: &Vec<String>, base: &String) -> (gone: Vec<String>)
    ensures
        texts(gone@) == without(texts(at_start@), base@),
        !texts(gone@).contains(base@),
{
    let mut gone: Vec<String> = Vec::new();
    let mut i: usize = 0;
    proof {
        reveal(Seq::filter);
        assert(texts(at_start@).take(0) =~= Seq::empty());
        assert(texts(gone@) =~= Seq::empty());
    }
    while i < at_start.len()
        invariant
            i <= at_start.len(),
            texts(gone@) == without(texts(at_start@).take(i as int), base@),
        decreases at_start.len() - i,
    {
        proof {
            let names = texts(at_start@);
            assert(names.take(i + 1) =~= names.take(i as int).push(at_start@[i as int]@));
            names.take(i as int).lemma_filter_push(
                at_start@[i as int]@,
                |s: Seq<char>| s != base@,
            );
        }
        if at_start[i] != *base {
            let name = at_start[i].clone();
            proof {
                lemma_texts_push(gone@, name);
            }
            gone.push(name);
        }
        i += 1;
    }
    proof {
        let names = texts(at_start@);
        assert(names.take(i as int) =~= names);
        if texts(gone@).contains(base@) {
            names.lemma_filter_contains_rev(|s: Seq<char>| s != base@, base@);
            let k = choose|k: int| 0 <= k < texts(gone@).len() && texts(gone@)[k] == base@;
            names.lemma_filter_pred(|s: Seq<char>| s != base@, k);
        }
    }
    gone
}

/// The automatic snapshots of `catalog` whose label sorts before
/// `cutoff_label`, in the order of the catalog.
pub fn expired(catalog: &Vec<String>, cutoff_label: &str) -> (gone: Vec<String>)
    ensures
        texts(gone@) == expired_of(texts(catalog@), cutoff_label@),
{
    let cutoff = chars_of(cutoff_label);
    let auto = chars_of(SnapshotKind::Auto.prefix());
    let mut gone: Vec<String> = Vec::new();
    let mut i: usize = 0;
    proof {
        reveal(Seq::filter);
        assert(texts(catalog@).take(0) =~= Seq::empty());
        assert(texts(gone@) =~= Seq::empty());
    }
    while i < catalog.len()
        invariant
            i <= catalog.len(),
            cutoff@ == cutoff_label@,
            auto@ == "auto_"@,
            texts(gone@) == expired_of(texts(catalog@).take(i as int), cutoff_label@),
        decreases catalog.len() - i,
    {
        proof {
            let names = texts(catalog@);
            assert(names.take(i + 1) =~= names.take(i as int).push(catalog@[i as int]@));
            names.take(i as int).lemma_filter_push(
                catalog@[i as int]@,
                |id: Seq<char>| is_expired(id, cutoff_label@),
            );
        }
        let label = label_chars(catalog[i].as_str());
        proof {
            assert(label@.skip(0) =~= label@);
        }
        if chars_start_with(&label, 0, &auto) && chars_lt(&label, &cutoff) {
            let name = catalog[i].clone();
            proof {
                lemma_texts_push(gone@, name);
            }
            gone.push(name);
        }
        i += 1;
    }
    proof {
        assert(texts(catalog@).take(i as int) =~= texts(catalog@));
    }
    gone
}

/// The label that separates what is kept from what goes: that of an
/// automatic snapshot made `keep_hours` hours before `now`. `None` where
/// that moment lies before the year 0: no label sorts before it.
pub fn cutoff_label(now: &Timestamp, keep_hours: u32) -> (r: Option<String>)
    ensures
        match r {
            Some(label) => earlier(now@, keep_hours) matches Some(at) && label@ == label_text(
                SnapshotKind::Auto,
                at,
            ),
            None => earlier(now@, keep_hours) is None,
        },
{
    match now.hours_before(keep_hours) {
        Some(at) => Some(at.label(SnapshotKind::Auto)),
        None => None,
    }
}

/// The automatic snapshots of `catalog` that are older than `keep_hours`
/// hours at `now`, in the order of the catalog: those whose label sorts
/// before the label of the cutoff.
pub fn snapshot_cleanup(catalog: &Vec<String>, now: &Timestamp, keep_hours: u32) -> (gone: Vec<
    String,
>)
    ensures
        texts(gone@) == match earlier(now@, keep_hours) {
            Some(at) => expired_of(texts(catalog@), label_text(SnapshotKind::Auto, at)),
            None => Seq::empty(),
        },
{
    match cutoff_label(now, keep_hours) {
        Some(label) => expired(catalog, label.as_str()),
        None => {
            let gone: Vec<String> = Vec::new();
            assert(texts(gone@) =~= Seq::empty());
            gone
        },
    }
}

/// Expiry follows age: an automatic snapshot expires at a cutoff exactly
/// where it was made before the moment of the cutoff, whatever its pool.
pub proof fn lemma_expiry_follows_age(pool: Seq<char>, made: Moment, cutoff: Moment)
    requires
        made.wf(),
        cutoff.wf(),
    ensures
        is_expired(
            name_text(pool, label_text(SnapshotKind::Auto, made)),
            label_text(SnapshotKind::Auto, cutoff),
        ) <==> made.before(cutoff),
{
    let label = label_text(SnapshotKind::Auto, made);
    let limit = label_text(SnapshotKind::Auto, cutoff);
    lemma_label_has_no_separator(SnapshotKind::Auto, made);
    lemma_label_of_name(pool, label);
    assert("auto_"@.is_prefix_of(label)) by {
        assert(label.subrange(0, "auto_"@.len() as int) =~= "auto_"@);
    }
    if made.before(cutoff) {
        lemma_label_order(SnapshotKind::Auto, made, cutoff);
    } else if cutoff.before(made) {
        lemma_label_order(SnapshotKind::Auto, cutoff, made);
        lemma_lex_asymmetric(limit, label);
    } else {
        assert(made == cutoff);
    }
}

} // verus!
