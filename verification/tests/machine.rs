use snaprepl::error::ReplError;
use snaprepl::machine::{advance, exit_status, Action, Event, Phase, Route, Stage, Step};

const ROUTES: [Route; 4] =
    [Route::LocalReceive, Route::RemoteShell, Route::ArchiveWrite, Route::ArchiveLoad];

fn events() -> Vec<Event> {
    vec![
        Event::Begin,
        Event::SnapshotDone { ok: true },
        Event::SnapshotDone { ok: false },
        Event::ProducerStarted { ok: true },
        Event::ProducerStarted { ok: false },
        Event::ConsumerStarted { ok: true },
        Event::ConsumerStarted { ok: false },
        Event::ConsumerExited { code: Some(0) },
        Event::ConsumerExited { code: Some(1) },
        Event::ConsumerExited { code: Some(2) },
        Event::ConsumerExited { code: None },
        Event::CopyDone { ok: true },
        Event::CopyDone { ok: false },
        Event::ProducerExited { ok: true },
        Event::ProducerExited { ok: false },
    ]
}

fn phases() -> Vec<Phase> {
    vec![
        Phase::Init,
        Phase::Creating,
        Phase::SnapshotCreated,
        Phase::Connecting,
        Phase::Draining,
        Phase::Finishing,
        Phase::Confirmed,
        Phase::Failed(ReplError::Pipeline),
        Phase::Failed(ReplError::Io),
    ]
}

fn run(route: Route, events: &[Event]) -> Vec<Step> {
    let mut phase = Phase::Init;
    let mut steps = Vec::new();
    for e in events {
        let step = advance(route, false, phase, *e);
        phase = step.phase;
        steps.push(step);
    }
    steps
}

fn step(phase: Phase, action: Action) -> Step {
    Step { phase, action }
}

#[test]
fn local_transfer_runs_to_confirmation() {
    let steps = run(
        Route::LocalReceive,
        &[
            Event::Begin,
            Event::SnapshotDone { ok: true },
            Event::ProducerStarted { ok: true },
            Event::ConsumerStarted { ok: true },
            Event::ConsumerExited { code: Some(0) },
            Event::ProducerExited { ok: true },
        ],
    );
    assert_eq!(
        steps,
        vec![
            step(Phase::Creating, Action::CreateSnapshot),
            step(Phase::SnapshotCreated, Action::StartProducer),
            step(Phase::Connecting, Action::StartConsumer),
            step(Phase::Draining, Action::AwaitConsumer),
            step(Phase::Finishing, Action::AwaitProducer),
            step(Phase::Confirmed, Action::Prune),
        ]
    );
}

#[test]
fn archive_routes_copy_through_a_file() {
    let written = run(
        Route::ArchiveWrite,
        &[
            Event::Begin,
            Event::SnapshotDone { ok: true },
            Event::ProducerStarted { ok: true },
            Event::ConsumerStarted { ok: true },
            Event::CopyDone { ok: true },
            Event::ProducerExited { ok: true },
        ],
    );
    assert_eq!(written.last(), Some(&step(Phase::Confirmed, Action::Prune)));
    assert_eq!(written[4], step(Phase::Finishing, Action::AwaitProducer));
    let loaded = run(
        Route::ArchiveLoad,
        &[
            Event::Begin,
            Event::ProducerStarted { ok: true },
            Event::ConsumerStarted { ok: true },
            Event::ConsumerExited { code: Some(0) },
        ],
    );
    assert_eq!(
        loaded,
        vec![
            step(Phase::SnapshotCreated, Action::StartProducer),
            step(Phase::Connecting, Action::StartConsumer),
            step(Phase::Draining, Action::AwaitConsumer),
            step(Phase::Confirmed, Action::Prune),
        ]
    );
}

#[test]
fn snapshot_failure_leaves_nothing_to_destroy() {
    let steps = run(Route::LocalReceive, &[Event::Begin, Event::SnapshotDone { ok: false }]);
    assert_eq!(steps[1], step(Phase::Failed(ReplError::Pipeline), Action::Abort));
}

#[test]
fn spawn_failures_destroy_the_base() {
    let steps = run(
        Route::LocalReceive,
        &[Event::Begin, Event::SnapshotDone { ok: true }, Event::ProducerStarted { ok: false }],
    );
    assert_eq!(steps[2], step(Phase::Failed(ReplError::ProducerSpawn), Action::DestroyBase));
    let steps = run(
        Route::RemoteShell,
        &[
            Event::Begin,
            Event::SnapshotDone { ok: true },
            Event::ProducerStarted { ok: true },
            Event::ConsumerStarted { ok: false },
        ],
    );
    assert_eq!(steps[3], step(Phase::Failed(ReplError::ConsumerSpawn), Action::DestroyBase));
}

#[test]
fn file_failures_are_io_errors() {
    let steps = run(
        Route::ArchiveWrite,
        &[
            Event::Begin,
            Event::SnapshotDone { ok: true },
            Event::ProducerStarted { ok: true },
            Event::ConsumerStarted { ok: false },
        ],
    );
    assert_eq!(steps[3], step(Phase::Failed(ReplError::Io), Action::DestroyBase));
    let steps = run(Route::ArchiveLoad, &[Event::Begin, Event::ProducerStarted { ok: false }]);
    assert_eq!(steps[1], step(Phase::Failed(ReplError::Io), Action::Abort));
    let steps = run(
        Route::ArchiveWrite,
        &[
            Event::Begin,
            Event::SnapshotDone { ok: true },
            Event::ProducerStarted { ok: true },
            Event::ConsumerStarted { ok: true },
            Event::CopyDone { ok: false },
        ],
    );
    assert_eq!(steps[4], step(Phase::Failed(ReplError::Io), Action::DestroyBase));
    assert_eq!(
        advance(Route::ArchiveLoad, false, Phase::Draining, Event::CopyDone { ok: false }),
        step(Phase::Failed(ReplError::Io), Action::Abort)
    );
}

#[test]
fn only_accepted_statuses_pass() {
    for route in [Route::LocalReceive, Route::RemoteShell, Route::ArchiveLoad] {
        for code in [Some(0), Some(1), Some(2), Some(255), Some(-1), None] {
            let got = advance(route, false, Phase::Draining, Event::ConsumerExited { code });
            let accepted = code == Some(0) || (code == Some(1) && route == Route::RemoteShell);
            assert_eq!(route.accepts(exit_status(code)), accepted);
            if accepted {
                assert_ne!(got.phase.stage(), Stage::Failed);
            } else {
                assert_eq!(got.phase, Phase::Failed(ReplError::Pipeline));
                let expected =
                    if route == Route::ArchiveLoad { Action::Abort } else { Action::DestroyBase };
                assert_eq!(got.action, expected);
            }
        }
    }
    assert_eq!(exit_status(None), 255);
    assert_eq!(exit_status(Some(3)), 3);
}

#[test]
fn producer_failure_fails_the_session() {
    assert_eq!(
        advance(Route::LocalReceive, false, Phase::Finishing, Event::ProducerExited { ok: false }),
        step(Phase::Failed(ReplError::Pipeline), Action::DestroyBase)
    );
}

#[test]
fn dry_run_starts_nothing() {
    for route in ROUTES {
        assert_eq!(
            advance(route, true, Phase::Init, Event::Begin),
            step(Phase::Confirmed, Action::Announce)
        );
        for phase in phases() {
            for event in events() {
                let got = advance(route, true, phase, event);
                assert!(got.action == Action::Announce || got.action == Action::Rejected);
                if got.action == Action::Rejected {
                    assert_eq!(got.phase, phase);
                }
            }
        }
    }
}

#[test]
fn ended_sessions_reject_everything() {
    for route in ROUTES {
        for dry in [false, true] {
            for phase in [Phase::Confirmed, Phase::Failed(ReplError::Pipeline)] {
                for event in events() {
                    assert_eq!(advance(route, dry, phase, event), step(phase, Action::Rejected));
                }
            }
        }
    }
}

#[test]
fn the_base_is_destroyed_only_on_failure_and_pruning_needs_success() {
    for route in ROUTES {
        for phase in phases() {
            for event in events() {
                let got = advance(route, false, phase, event);
                if got.action == Action::DestroyBase {
                    assert_eq!(got.phase.stage(), Stage::Failed);
                    assert!(route.sends());
                }
                if got.action == Action::Prune {
                    assert_eq!(got.phase, Phase::Confirmed);
                }
                if got.action == Action::CreateSnapshot {
                    assert_eq!(phase, Phase::Init);
                }
                if got.action == Action::AwaitProducer {
                    assert_eq!(phase, Phase::Draining);
                }
            }
        }
    }
}

#[test]
fn events_out_of_turn_change_nothing() {
    assert_eq!(
        advance(Route::LocalReceive, false, Phase::Init, Event::ProducerExited { ok: true }),
        step(Phase::Init, Action::Rejected)
    );
    assert_eq!(
        advance(Route::LocalReceive, false, Phase::Draining, Event::CopyDone { ok: true }),
        step(Phase::Draining, Action::Rejected)
    );
    assert_eq!(
        advance(Route::ArchiveWrite, false, Phase::Draining, Event::ConsumerExited { code: Some(0) }),
        step(Phase::Draining, Action::Rejected)
    );
    assert_eq!(
        advance(Route::ArchiveLoad, false, Phase::Draining, Event::CopyDone { ok: true }),
        step(Phase::Draining, Action::Rejected)
    );
}

#[test]
fn routes_and_stages() {
    assert!(Route::LocalReceive.sends() && Route::LocalReceive.receives());
    assert!(Route::RemoteShell.sends() && Route::RemoteShell.receives());
    assert!(Route::ArchiveWrite.sends() && !Route::ArchiveWrite.receives());
    assert!(!Route::ArchiveLoad.sends() && Route::ArchiveLoad.receives());
    assert_eq!(Phase::Init.stage(), Stage::Init);
    assert_eq!(Phase::Creating.stage(), Stage::Init);
    assert_eq!(Phase::SnapshotCreated.stage(), Stage::SnapshotCreated);
    assert_eq!(Phase::Connecting.stage(), Stage::Streaming);
    assert_eq!(Phase::Draining.stage(), Stage::Streaming);
    assert_eq!(Phase::Finishing.stage(), Stage::Streaming);
    assert_eq!(Phase::Confirmed.stage(), Stage::Confirmed);
    assert_eq!(Phase::Failed(ReplError::Io).stage(), Stage::Failed);
}
