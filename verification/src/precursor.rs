//! The precursor of an incremental transfer: the newest snapshot of the
//! source that the destination holds too.
//!
//! The destination may keep its snapshots under another pool name, so a
//! snapshot of the source counts as held where the identifier of some
//! snapshot of the destination ends with its identifier.

use crate::error::ReplError;
use crate::text::{chars_end_with, chars_of, lemma_rows_push, rows, texts};
use vstd::prelude::*;

verus! {

/// Whether some identifier in `to` ends with `candidate`.
pub open spec fn landed(candidate: Seq<char>, to: Seq<Seq<char>>) -> bool {
    exists|j: int| 0 <= j < to.len() && candidate.is_suffix_of(#[trigger] to[j])
}

/// Whether `from[i]` is the precursor: it has landed in `to`, and nothing
/// that follows it in `from` has.
pub open spec fn is_precursor(from: Seq<Seq<char>>, to: Seq<Seq<char>>, i: int) -> bool {
    &&& 0 <= i < from.len()
    &&& landed(from[i], to)
    &&& forall|k: int| i < k < from.len() ==> !landed(#[trigger] from[k], to)
}

/// Whether the two timelines have diverged: nothing in `from` has landed in `to`.
pub open spec fn diverged(from: Seq<Seq<char>>, to: Seq<Seq<char>>) -> bool {
    forall|i: int| 0 <= i < from.len() ==> !landed(#[trigger] from[i], to)
}

/// The characters of each name, in order.
pub fn keys_of(names: &Vec<String>) -> (keys: Vec<Vec<char>>)
    ensures
        rows(keys@) == texts(names@),
{
    let mut keys: Vec<Vec<char>> = Vec::new();
    let mut i: usize = 0;
    while i < names.len()
        invariant
            i <= names.len(),
            rows(keys@) == texts(names@).take(i as int),
        decreases names.len() - i,
    {
        let key = chars_of(names[i].as_str());
        proof {
            lemma_rows_push(keys@, key);
            assert(texts(names@).take(i + 1) =~= texts(names@).take(i as int).push(key@));
        }
        keys.push(key);
        i += 1;
    }
    proof {
        assert(texts(names@).take(i as int) =~= texts(names@));
    }
    keys
}

/// Whether some identifier in `to` ends with `candidate`. The newest is tried first.
pub fn has_landed(candidate: &Vec<char>, to: &Vec<Vec<char>>) -> (r: bool)
    ensures
        r == landed(candidate@, rows(to@)),
{
    let mut j: usize = to.len();
    while j > 0
        invariant
            j <= to.len(),
            forall|k: int| j <= k < to.len() ==> !candidate@.is_suffix_of(#[trigger] rows(to@)[k]),
        decreases j,
    {
        j -= 1;
        if chars_end_with(&to[j], candidate) {
            assert(candidate@.is_suffix_of(rows(to@)[j as int]));
            return true;
        }
    }
    false
}

/// Finds the precursor: the last identifier in `from` that has landed in
/// `to`. Both lists are in ascending order, so this is the newest snapshot
/// that the two timelines share. Where they share none, the timelines have
/// diverged and the error is `ReplError::NoPrecursor`.
pub fn resolve_precursor(from: &Vec<String>, to: &Vec<String>) -> (r: Result<String, ReplError>)
    ensures
        match r {
            Ok(found) => exists|i: int|
                #[trigger] is_precursor(texts(from@), texts(to@), i) && found@ == texts(from@)[i],
            Err(e) => e == ReplError::NoPrecursor && diverged(texts(from@), texts(to@)),
        },
{
    let to_keys = keys_of(to);
    let mut i: usize = from.len();
    while i > 0
        invariant
            i <= from.len(),
            rows(to_keys@) == texts(to@),
            forall|k: int| i <= k < from.len() ==> !landed(#[trigger] texts(from@)[k], texts(to@)),
        decreases i,
    {
        i -= 1;
        let candidate = chars_of(from[i].as_str());
        if has_landed(&candidate, &to_keys) {
            assert(is_precursor(texts(from@), texts(to@), i as int));
            return Ok(from[i].clone());
        }
    }
    Err(ReplError::NoPrecursor)
}

} // verus!
