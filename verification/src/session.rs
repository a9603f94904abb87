//! The sessions: what each of them transfers, from which precursor, and
//! which snapshots its new base supersedes.
//!
//! A session is planned from plain values: the catalogs as they stood when
//! it began and the moment that names its base. The plan is a pipeline in
//! its first phase; running it is the caller's part.

use crate::error::ReplError;
use crate::metadata::RemoteMetadata;
use crate::pipeline::{Pipeline, Plan};
use crate::machine::{Phase, Route};
use crate::precursor::{diverged, is_precursor, resolve_precursor};
use crate::retention::without;
use crate::stamp::{label_text, name_text, snapshot_name, SnapshotKind, Timestamp};
use crate::text::{lemma_texts_push, pool_part, texts};
use vstd::prelude::*;

verus! {

/// The identifier of the base snapshot that a session of `kind` makes of `pool` at `at`.
pub open spec fn base_text(pool: Seq<char>, kind: SnapshotKind, at: crate::stamp::Moment) -> Seq<
    char,
> {
    name_text(pool, label_text(kind, at))
}

/// The names of the snapshots of `label` of each of `pools`.
pub open spec fn snapshots_of(pools: Seq<Seq<char>>, label: Seq<char>) -> Seq<Seq<char>> {
    pools.map_values(|pool: Seq<char>| name_text(pool, label))
}

/// The identifier of the base snapshot that a session of `kind` makes of `pool` at `at`.
pub fn base_name(pool: &str, kind: SnapshotKind, at: &Timestamp) -> (r: String)
    ensures
        r@ == base_text(pool@, kind, at@),
{
    let label = at.label(kind);
    snapshot_name(pool, label.as_str())
}

/// Two catalogs, one after the other.
pub fn both(first: &Vec<String>, second: &Vec<String>) -> (all: Vec<String>)
    ensures
        texts(all@) == texts(first@) + texts(second@),
{
    let mut all: Vec<String> = Vec::new();
    let mut i: usize = 0;
    assert(texts(all@) =~= texts(first@).take(0));
    while i < first.len()
        invariant
            i <= first.len(),
            texts(all@) == texts(first@).take(i as int),
        decreases first.len() - i,
    {
        let name = first[i].clone();
        proof {
            lemma_texts_push(all@, name);
            assert(texts(first@).take(i + 1) =~= texts(first@).take(i as int).push(name@));
        }
        all.push(name);
        i += 1;
    }
    assert(texts(first@).take(i as int) =~= texts(first@));
    let mut j: usize = 0;
    assert(texts(all@) =~= texts(first@) + texts(second@).take(0));
    while j < second.len()
        invariant
            j <= second.len(),
            texts(all@) == texts(first@) + texts(second@).take(j as int),
        decreases second.len() - j,
    {
        let name = second[j].clone();
        proof {
            lemma_texts_push(all@, name);
            assert(texts(second@).take(j + 1) =~= texts(second@).take(j as int).push(name@));
            assert((texts(first@) + texts(second@).take(j as int)).push(name@) =~= texts(first@)
                + texts(second@).take(j + 1));
        }
        all.push(name);
        j += 1;
    }
    assert(texts(second@).take(j as int) =~= texts(second@));
    all
}

/// The first replication of `from_pool` into `to_pool`: a full stream of a
/// new base snapshot, which supersedes the replication snapshots that
/// `from_pool` held when the session began.
pub fn plan_init(
    from_pool: &str,
    to_pool: &str,
    from_snaps: &Vec<String>,
    now: &Timestamp,
    dry_run: bool,
) -> (r: Pipeline)
    ensures
        r@ == (Plan {
            route: Route::LocalReceive,
            dry_run,
            phase: Phase::Init,
            base: Some(base_text(from_pool@, SnapshotKind::Repl, now@)),
            precursor: None,
            peer: to_pool@,
            file: Seq::empty(),
            superseded: without(
                texts(from_snaps@),
                base_text(from_pool@, SnapshotKind::Repl, now@),
            ),
        }),
        r@.wf(),
{
    let base = base_name(from_pool, SnapshotKind::Repl, now);
    Pipeline::to_pool(base, None, String::from_str(to_pool), from_snaps, dry_run)
}

/// A further replication of `from_pool` into `to_pool`: an incremental
/// stream from the precursor, the newest snapshot that both hold, to a new
/// base snapshot. The base supersedes the replication snapshots that the two
/// pools held when the session began. Where the pools share no snapshot
/// the error is `ReplError::NoPrecursor`.
pub fn plan_repl(
    from_pool: &str,
    to_pool: &str,
    from_snaps: &Vec<String>,
    to_snaps: &Vec<String>,
    now: &Timestamp,
    dry_run: bool,
) -> (r: Result<Pipeline, ReplError>)
    ensures
        match r {
            Ok(p) => p@.wf() && exists|i: int|
                #[trigger] is_precursor(texts(from_snaps@), texts(to_snaps@), i) && p@ == (Plan {
                    route: Route::LocalReceive,
                    dry_run,
                    phase: Phase::Init,
                    base: Some(base_text(from_pool@, SnapshotKind::Repl, now@)),
                    precursor: Some(texts(from_snaps@)[i]),
                    peer: to_pool@,
                    file: Seq::empty(),
                    superseded: without(
                        texts(from_snaps@) + texts(to_snaps@),
                        base_text(from_pool@, SnapshotKind::Repl, now@),
                    ),
                }),
            Err(e) => e == ReplError::NoPrecursor && diverged(texts(from_snaps@), texts(to_snaps@)),
        },
{
    match resolve_precursor(from_snaps, to_snaps) {
        Ok(precursor) => {
            let base = base_name(from_pool, SnapshotKind::Repl, now);
            let at_start = both(from_snaps, to_snaps);
            let p = Pipeline::to_pool(
                base,
                Some(precursor),
                String::from_str(to_pool),
                &at_start,
                dry_run,
            );
            proof {
                let i = choose|i: int|
                    #[trigger] is_precursor(texts(from_snaps@), texts(to_snaps@), i) && precursor@
                        == texts(from_snaps@)[i];
                assert(is_precursor(texts(from_snaps@), texts(to_snaps@), i));
            }
            Ok(p)
        },
        Err(e) => Err(e),
    }
}

/// The start of a replication through an archive: a full stream of a new
/// base snapshot of `pool` into `file`. The base is what the precursor
/// record is to name once the transfer is confirmed.
pub fn plan_init_archive(
    pool: &str,
    file: &str,
    remote_snaps: &Vec<String>,
    now: &Timestamp,
    dry_run: bool,
) -> (r: Pipeline)
    ensures
        r@ == (Plan {
            route: Route::ArchiveWrite,
            dry_run,
            phase: Phase::Init,
            base: Some(base_text(pool@, SnapshotKind::Remote, now@)),
            precursor: None,
            peer: Seq::empty(),
            file: file@,
            superseded: without(
                texts(remote_snaps@),
                base_text(pool@, SnapshotKind::Remote, now@),
            ),
        }),
        r@.wf(),
{
    let base = base_name(pool, SnapshotKind::Remote, now);
    Pipeline::to_archive(base, None, String::from_str(file), remote_snaps, dry_run)
}

/// The loading of the archive `file` into `pool`.
pub fn plan_load_archive(pool: &str, file: &str, dry_run: bool) -> (r: Pipeline)
    ensures
        r@ == (Plan {
            route: Route::ArchiveLoad,
            dry_run,
            phase: Phase::Init,
            base: None,
            precursor: None,
            peer: pool@,
            file: file@,
            superseded: Seq::empty(),
        }),
        r@.wf(),
{
    Pipeline::from_archive(String::from_str(file), String::from_str(pool), dry_run)
}

/// A further replication through a remote shell. The far side cannot be
/// asked what it holds: the record names it. The precursor is the newest
/// snapshot of `local_snaps` with whose identifier the recorded one ends,
/// and the pool is that of the record. Where no snapshot of `local_snaps`
/// is the recorded one the error is `ReplError::NoPrecursor`.
pub fn plan_remote_repl(
    record: &RemoteMetadata,
    local_snaps: &Vec<String>,
    endpoint: &str,
    now: &Timestamp,
    dry_run: bool,
) -> (r: Result<Pipeline, ReplError>)
    ensures
        match r {
            Ok(p) => p@.wf() && exists|i: int|
                #[trigger] is_precursor(texts(local_snaps@), seq![record.precursor_snap@], i)
                    && p@ == (Plan {
                    route: Route::RemoteShell,
                    dry_run,
                    phase: Phase::Init,
                    base: Some(
                        base_text(pool_part(record.precursor_snap@), SnapshotKind::Remote, now@),
                    ),
                    precursor: Some(texts(local_snaps@)[i]),
                    peer: endpoint@,
                    file: Seq::empty(),
                    superseded: without(
                        texts(local_snaps@),
                        base_text(pool_part(record.precursor_snap@), SnapshotKind::Remote, now@),
                    ),
                }),
            Err(e) => e == ReplError::NoPrecursor && diverged(
                texts(local_snaps@),
                seq![record.precursor_snap@],
            ),
        },
{
    let mut recorded: Vec<String> = Vec::new();
    recorded.push(record.precursor());
    assert(texts(recorded@) =~= seq![record.precursor_snap@]);
    match resolve_precursor(local_snaps, &recorded) {
        Ok(precursor) => {
            let pool = record.pool();
            let base = base_name(pool.as_str(), SnapshotKind::Remote, now);
            let p = Pipeline::to_remote(
                base,
                Some(precursor),
                String::from_str(endpoint),
                local_snaps,
                dry_run,
            );
            proof {
                let i = choose|i: int|
                    #[trigger] is_precursor(texts(local_snaps@), texts(recorded@), i)
                        && precursor@ == texts(local_snaps@)[i];
                assert(is_precursor(texts(local_snaps@), seq![record.precursor_snap@], i));
            }
            Ok(p)
        },
        Err(e) => Err(e),
    }
}

/// The periodic snapshots to be made at `now`: one of each mounted pool,
/// all with the one label of that moment.
pub fn plan_auto_snapshots(mounted: &Vec<String>, now: &Timestamp) -> (names: Vec<String>)
    ensures
        texts(names@) == snapshots_of(texts(mounted@), label_text(SnapshotKind::Auto, now@)),
{
    let label = now.label(SnapshotKind::Auto);
    let mut names: Vec<String> = Vec::new();
    let mut i: usize = 0;
    assert(texts(names@) =~= snapshots_of(texts(mounted@).take(0), label@));
    while i < mounted.len()
        invariant
            i <= mounted.len(),
            label@ == label_text(SnapshotKind::Auto, now@),
            texts(names@) == snapshots_of(texts(mounted@).take(i as int), label@),
        decreases mounted.len() - i,
    {
        let name = snapshot_name(mounted[i].as_str(), label.as_str());
        proof {
            lemma_texts_push(names@, name);
            assert(snapshots_of(texts(mounted@).take(i + 1), label@) =~= snapshots_of(
                texts(mounted@).take(i as int),
                label@,
            ).push(name@));
        }
        names.push(name);
        i += 1;
    }
    assert(texts(mounted@).take(i as int) =~= texts(mounted@));
    names
}

} // verus!
