use snaprepl::error::ReplError;
use snaprepl::machine::{Action, Event, Phase, Route};
use snaprepl::metadata::RemoteMetadata;
use snaprepl::pipeline::Pipeline;
use snaprepl::session::{
    base_name, both, plan_auto_snapshots, plan_init, plan_init_archive, plan_load_archive,
    plan_remote_repl, plan_repl,
};
use snaprepl::stamp::{SnapshotKind, Timestamp};

fn names(list: &[&str]) -> Vec<String> {
    list.iter().map(|s| s.to_string()).collect()
}

fn now() -> Timestamp {
    Timestamp::new(2022, 5, 22, 12, 12, 59).unwrap()
}

fn from_snaps() -> Vec<String> {
    names(&["tank@repl_2022_05_22_12_09_46", "tank@repl_2022_05_22_12_11_24"])
}

fn to_snaps() -> Vec<String> {
    names(&["backup/tank@repl_2022_05_22_12_09_46", "backup/tank@repl_2022_05_22_12_11_24"])
}

fn drive(p: &mut Pipeline, events: &[Event]) -> Vec<Action> {
    events.iter().map(|e| p.step(*e)).collect()
}

#[test]
fn base_name_is_pool_kind_and_moment() {
    assert_eq!(base_name("tank", SnapshotKind::Repl, &now()), "tank@repl_2022_05_22_12_12_59");
    assert_eq!(
        base_name("tank/a", SnapshotKind::Remote, &now()),
        "tank/a@remote_2022_05_22_12_12_59"
    );
}

#[test]
fn init_plans_a_full_local_transfer() {
    let p = plan_init("tank", "backup/tank", &from_snaps(), &now(), false);
    assert_eq!(p.route(), Route::LocalReceive);
    assert_eq!(p.phase(), Phase::Init);
    assert!(!p.dry_run());
    assert_eq!(p.base(), Some("tank@repl_2022_05_22_12_12_59".to_string()));
    assert_eq!(p.precursor(), None);
    assert_eq!(p.peer(), "backup/tank");
    assert_eq!(p.file(), "");
    assert_eq!(
        p.create_command(),
        Some(names(&["zfs", "snapshot", "-r", "tank@repl_2022_05_22_12_12_59"]))
    );
    assert_eq!(
        p.producer_command(),
        Some(names(&["zfs", "send", "-v", "-R", "-w", "-L", "tank@repl_2022_05_22_12_12_59"]))
    );
    assert_eq!(
        p.consumer_command(),
        Some(names(&["zfs", "recv", "-o", "mountpoint=none", "-o", "readonly=on", "backup/tank"]))
    );
    assert_eq!(
        p.cleanup_command(),
        Some(names(&["zfs", "destroy", "-r", "tank@repl_2022_05_22_12_12_59"]))
    );
    assert_eq!(
        p.transfer_line(),
        "zfs send -v -R -w -L tank@repl_2022_05_22_12_12_59 | zfs recv -o mountpoint=none -o readonly=on backup/tank"
    );
    assert_eq!(p.outcome(), None);
    assert_eq!(p.removals(), Vec::<String>::new());
}

#[test]
fn repl_plans_an_incremental_transfer_from_the_precursor() {
    let p = plan_repl("tank", "backup/tank", &from_snaps(), &to_snaps(), &now(), false).unwrap();
    assert_eq!(p.precursor(), Some("tank@repl_2022_05_22_12_11_24".to_string()));
    assert_eq!(p.base(), Some("tank@repl_2022_05_22_12_12_59".to_string()));
    assert_eq!(
        p.transfer_line(),
        "zfs send -v -R -w -L -I tank@repl_2022_05_22_12_11_24 tank@repl_2022_05_22_12_12_59 | zfs recv -o mountpoint=none -o readonly=on backup/tank"
    );
}

#[test]
fn repl_without_a_common_snapshot_is_refused() {
    let to = names(&["backup/tank@repl_2021_01_01_00_00_00"]);
    let r = plan_repl("tank", "backup/tank", &from_snaps(), &to, &now(), false);
    assert_eq!(r.err(), Some(ReplError::NoPrecursor));
    let r = plan_repl("tank", "backup/tank", &Vec::new(), &Vec::new(), &now(), true);
    assert_eq!(r.err(), Some(ReplError::NoPrecursor));
}

#[test]
fn confirmed_repl_supersedes_what_stood_at_the_start() {
    let mut p =
        plan_repl("tank", "backup/tank", &from_snaps(), &to_snaps(), &now(), false).unwrap();
    let actions = drive(
        &mut p,
        &[
            Event::Begin,
            Event::SnapshotDone { ok: true },
            Event::ProducerStarted { ok: true },
            Event::ConsumerStarted { ok: true },
        ],
    );
    assert_eq!(
        actions,
        vec![
            Action::CreateSnapshot,
            Action::StartProducer,
            Action::StartConsumer,
            Action::AwaitConsumer
        ]
    );
    assert_eq!(p.removals(), Vec::<String>::new());
    assert_eq!(p.step(Event::ConsumerExited { code: Some(0) }), Action::AwaitProducer);
    assert_eq!(p.removals(), Vec::<String>::new());
    assert_eq!(p.step(Event::ProducerExited { ok: true }), Action::Prune);
    assert_eq!(p.phase(), Phase::Confirmed);
    assert_eq!(p.outcome(), Some(Ok(())));
    let mut expected = from_snaps();
    expected.extend(to_snaps());
    assert_eq!(p.removals(), expected);
    assert!(!p.removals().contains(&p.base().unwrap()));
}

#[test]
fn refused_status_destroys_the_base_and_removes_nothing_else() {
    let mut p =
        plan_repl("tank", "backup/tank", &from_snaps(), &to_snaps(), &now(), false).unwrap();
    drive(
        &mut p,
        &[
            Event::Begin,
            Event::SnapshotDone { ok: true },
            Event::ProducerStarted { ok: true },
            Event::ConsumerStarted { ok: true },
        ],
    );
    assert_eq!(p.step(Event::ConsumerExited { code: Some(1) }), Action::DestroyBase);
    assert_eq!(p.phase(), Phase::Failed(ReplError::Pipeline));
    assert_eq!(p.outcome(), Some(Err(ReplError::Pipeline)));
    assert_eq!(
        p.cleanup_command(),
        Some(names(&["zfs", "destroy", "-r", "tank@repl_2022_05_22_12_12_59"]))
    );
    assert_eq!(p.removals(), Vec::<String>::new());
    assert_eq!(p.step(Event::ProducerExited { ok: true }), Action::Rejected);
    assert_eq!(p.step(Event::Begin), Action::Rejected);
    assert_eq!(p.removals(), Vec::<String>::new());
    assert_eq!(p.phase(), Phase::Failed(ReplError::Pipeline));
}

#[test]
fn dry_run_announces_and_rehearses_the_cleanup() {
    let mut p = plan_repl("tank", "backup/tank", &from_snaps(), &to_snaps(), &now(), true).unwrap();
    assert!(p.dry_run());
    assert_eq!(p.step(Event::Begin), Action::Announce);
    assert_eq!(p.phase(), Phase::Confirmed);
    assert_eq!(
        p.transfer_line(),
        "zfs send -v -R -w -L -I tank@repl_2022_05_22_12_11_24 tank@repl_2022_05_22_12_12_59 | zfs recv -o mountpoint=none -o readonly=on backup/tank"
    );
    let mut expected = from_snaps();
    expected.extend(to_snaps());
    assert_eq!(p.removals(), expected);
    for e in [
        Event::Begin,
        Event::SnapshotDone { ok: true },
        Event::ProducerStarted { ok: true },
        Event::ConsumerStarted { ok: true },
        Event::ConsumerExited { code: Some(0) },
        Event::ProducerExited { ok: true },
    ] {
        assert_eq!(p.step(e), Action::Rejected);
    }
}

#[test]
fn a_base_that_stood_at_the_start_is_not_superseded() {
    let at_start = names(&["tank@repl_2022_05_22_12_12_59", "tank@repl_2022_05_22_12_11_24"]);
    let mut p = plan_init("tank", "backup/tank", &at_start, &now(), true);
    assert_eq!(p.step(Event::Begin), Action::Announce);
    assert_eq!(p.removals(), names(&["tank@repl_2022_05_22_12_11_24"]));
}

#[test]
fn archive_sessions_go_through_a_file() {
    let old = names(&["tank@remote_2022_05_01_00_00_00"]);
    let mut p = plan_init_archive("tank", "/backup/tank.zfs", &old, &now(), false);
    assert_eq!(p.route(), Route::ArchiveWrite);
    assert_eq!(p.base(), Some("tank@remote_2022_05_22_12_12_59".to_string()));
    assert_eq!(p.file(), "/backup/tank.zfs");
    assert_eq!(p.consumer_command(), None);
    assert_eq!(
        p.transfer_line(),
        "zfs send -v -R -w -L tank@remote_2022_05_22_12_12_59 > /backup/tank.zfs"
    );
    let actions = drive(
        &mut p,
        &[
            Event::Begin,
            Event::SnapshotDone { ok: true },
            Event::ProducerStarted { ok: true },
            Event::ConsumerStarted { ok: true },
            Event::CopyDone { ok: true },
            Event::ProducerExited { ok: true },
        ],
    );
    assert_eq!(actions.last(), Some(&Action::Prune));
    assert_eq!(p.removals(), old);

    let mut q = plan_load_archive("backup/tank", "/backup/tank.zfs", false);
    assert_eq!(q.route(), Route::ArchiveLoad);
    assert_eq!(q.base(), None);
    assert_eq!(q.create_command(), None);
    assert_eq!(q.producer_command(), None);
    assert_eq!(q.cleanup_command(), None);
    assert_eq!(
        q.transfer_line(),
        "cat /backup/tank.zfs | zfs recv -o mountpoint=none -o readonly=on backup/tank"
    );
    let actions = drive(
        &mut q,
        &[
            Event::Begin,
            Event::ProducerStarted { ok: true },
            Event::ConsumerStarted { ok: true },
            Event::ConsumerExited { code: Some(0) },
        ],
    );
    assert_eq!(
        actions,
        vec![
            Action::StartProducer,
            Action::StartConsumer,
            Action::AwaitConsumer,
            Action::Prune
        ]
    );
    assert_eq!(q.removals(), Vec::<String>::new());
}

#[test]
fn remote_repl_takes_its_precursor_from_the_record() {
    let record = RemoteMetadata::new("tank@remote_2022_05_22_12_11_24".to_string());
    assert_eq!(record.precursor(), "tank@remote_2022_05_22_12_11_24");
    assert_eq!(record.pool(), "tank");
    let local = names(&[
        "tank@remote_2022_05_22_12_09_46",
        "tank@remote_2022_05_22_12_11_24",
        "tank@remote_2022_05_22_12_11_51",
    ]);
    let mut p = plan_remote_repl(&record, &local, "backup@host", &now(), false).unwrap();
    assert_eq!(p.route(), Route::RemoteShell);
    assert_eq!(p.precursor(), Some(record.precursor()));
    assert_eq!(p.base(), Some("tank@remote_2022_05_22_12_12_59".to_string()));
    assert_eq!(p.consumer_command(), Some(names(&["ssh", "backup@host"])));
    assert_eq!(
        p.transfer_line(),
        "zfs send -v -R -w -L -I tank@remote_2022_05_22_12_11_24 tank@remote_2022_05_22_12_12_59 | ssh backup@host"
    );
    drive(
        &mut p,
        &[
            Event::Begin,
            Event::SnapshotDone { ok: true },
            Event::ProducerStarted { ok: true },
            Event::ConsumerStarted { ok: true },
        ],
    );
    assert_eq!(p.step(Event::ConsumerExited { code: Some(1) }), Action::AwaitProducer);
    assert_eq!(p.step(Event::ProducerExited { ok: true }), Action::Prune);
    assert_eq!(p.removals(), local);
}

#[test]
fn remote_repl_needs_the_recorded_snapshot() {
    let record = RemoteMetadata::new("tank@remote_2022_05_22_12_11_24".to_string());
    let local = names(&["tank@remote_2022_05_22_12_09_46"]);
    let r = plan_remote_repl(&record, &local, "backup@host", &now(), false);
    assert_eq!(r.err(), Some(ReplError::NoPrecursor));
}

#[test]
fn remote_shell_refuses_other_statuses() {
    let record = RemoteMetadata::new("tank@remote_1".to_string());
    let local = names(&["tank@remote_1"]);
    let mut p = plan_remote_repl(&record, &local, "backup@host", &now(), false).unwrap();
    drive(
        &mut p,
        &[
            Event::Begin,
            Event::SnapshotDone { ok: true },
            Event::ProducerStarted { ok: true },
            Event::ConsumerStarted { ok: true },
        ],
    );
    assert_eq!(p.step(Event::ConsumerExited { code: None }), Action::DestroyBase);
    assert_eq!(p.outcome(), Some(Err(ReplError::Pipeline)));
    assert_eq!(p.removals(), Vec::<String>::new());
}

#[test]
fn auto_snapshots_share_one_label() {
    let mounted = names(&["tank", "tank/home", "scratch"]);
    assert_eq!(
        plan_auto_snapshots(&mounted, &now()),
        names(&[
            "tank@auto_2022_05_22_12_12_59",
            "tank/home@auto_2022_05_22_12_12_59",
            "scratch@auto_2022_05_22_12_12_59",
        ])
    );
    assert_eq!(plan_auto_snapshots(&Vec::new(), &now()), Vec::<String>::new());
}

#[test]
fn both_is_one_catalog_after_the_other() {
    assert_eq!(both(&names(&["a", "b"]), &names(&["c"])), names(&["a", "b", "c"]));
    assert_eq!(both(&Vec::new(), &Vec::new()), Vec::<String>::new());
}

#[test]
fn pipelines_can_be_made_directly() {
    let p = Pipeline::to_pool(
        "t@repl_2".to_string(),
        Some("t@repl_1".to_string()),
        "b/t".to_string(),
        &names(&["t@repl_1", "t@repl_2"]),
        false,
    );
    assert_eq!(p.route(), Route::LocalReceive);
    let q = Pipeline::to_remote("t@r_2".to_string(), None, "h".to_string(), &Vec::new(), true);
    assert_eq!(q.route(), Route::RemoteShell);
    assert_eq!(q.transfer_line(), "zfs send -v -R -w -L t@r_2 | ssh h");
    let a = Pipeline::to_archive("t@r_2".to_string(), None, "f".to_string(), &Vec::new(), true);
    assert_eq!(a.transfer_line(), "zfs send -v -R -w -L t@r_2 > f");
    let l = Pipeline::from_archive("f".to_string(), "b/t".to_string(), true);
    assert_eq!(l.peer(), "b/t");
}
