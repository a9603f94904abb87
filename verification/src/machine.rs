//! The state machine of a transfer.
//!
//! A session moves from `Init` through the creation of its base snapshot and
//! the streaming of data to `Confirmed` or `Failed`. The machine decides; its
//! caller acts. Each step takes what happened last (an `Event`) and gives the
//! next thing to do (an `Action`). In a dry run nothing is ever started: the
//! one step that applies announces the plan and confirms.

use crate::error::ReplError;
use vstd::prelude::*;

verus! {

/// How the data travels.
#[derive(Clone, Copy, PartialEq, Eq, Debug, Structural)]
pub enum Route {
    /// A send process feeds a receive process on this machine.
    LocalReceive,
    /// A send process feeds a remote shell, which forwards to a receive far away.
    RemoteShell,
    /// A send process is copied into an archive file.
    ArchiveWrite,
    /// An archive file is copied into a receive process.
    ArchiveLoad,
}

/// Where a session stands.
#[derive(Clone, Copy, PartialEq, Eq, Debug, Structural)]
pub enum Phase {
    /// Nothing has been done.
    Init,
    /// The base snapshot is being created; it does not exist yet.
    Creating,
    /// The base snapshot exists, or none is needed; the producer is being started.
    SnapshotCreated,
    /// The producer runs; the consumer is being started.
    Connecting,
    /// Both sides run; the consumer is awaited.
    Draining,
    /// The consumer ended as accepted; the producer is awaited.
    Finishing,
    /// The transfer succeeded: superseded snapshots may go.
    Confirmed,
    /// The transfer failed, for the reason given.
    Failed(ReplError),
}

/// The five states of a session, without the detail of what is awaited.
#[derive(Clone, Copy, PartialEq, Eq, Debug, Structural)]
pub enum Stage {
    Init,
    SnapshotCreated,
    Streaming,
    Confirmed,
    Failed,
}

/// What the caller reports to the machine.
#[derive(Clone, Copy, PartialEq, Eq, Debug)]
pub enum Event {
    /// The session is to start.
    Begin,
    /// The base snapshot was created, or could not be.
    SnapshotDone { ok: bool },
    /// The producer was started (a process spawned, an archive opened), or could not be.
    ProducerStarted { ok: bool },
    /// The consumer was started (a process spawned, an archive created), or could not be.
    ConsumerStarted { ok: bool },
    /// The consumer process ended, with this exit code; `None` where it gave none.
    ConsumerExited { code: Option<i32> },
    /// The copy through the archive file ended.
    CopyDone { ok: bool },
    /// The producer process ended, with success or not.
    ProducerExited { ok: bool },
}

/// What the machine asks its caller to do next.
#[derive(Clone, Copy, PartialEq, Eq, Debug, Structural)]
pub enum Action {
    /// Create the base snapshot.
    CreateSnapshot,
    /// Start the producer.
    StartProducer,
    /// Start the consumer, fed by the producer.
    StartConsumer,
    /// Wait until the consumer has ended.
    AwaitConsumer,
    /// Wait until the producer has ended.
    AwaitProducer,
    /// Destroy the base snapshot that this session created; the session has failed.
    DestroyBase,
    /// Log the plan; nothing is to be run. The session counts as confirmed.
    Announce,
    /// The transfer is confirmed: remove the superseded snapshots.
    Prune,
    /// Stop; the session has failed and left nothing behind.
    Abort,
    /// The event does not apply in this phase; nothing has changed.
    Rejected,
}

/// A phase and the action that leads into it.
#[derive(Clone, Copy, PartialEq, Eq, Debug)]
pub struct Step {
    pub phase: Phase,
    pub action: Action,
}

impl Route {
    /// Whether the producer is a send process. Such a session creates a base snapshot.
    #[verifier::when_used_as_spec(spec_sends)]
    pub fn sends(self) -> (r: bool)
        ensures
            r == self.spec_sends(),
    {
        !matches!(self, Route::ArchiveLoad)
    }

    pub open spec fn spec_sends(self) -> bool {
        self != Route::ArchiveLoad
    }

    /// Whether the consumer is a process, which ends with an exit code.
    #[verifier::when_used_as_spec(spec_receives)]
    pub fn receives(self) -> (r: bool)
        ensures
            r == self.spec_receives(),
    {
        !matches!(self, Route::ArchiveWrite)
    }

    pub open spec fn spec_receives(self) -> bool {
        self != Route::ArchiveWrite
    }

    /// Whether an exit status of the consumer counts as success: 0 always,
    /// and 1 as well from a remote shell, which cannot tell a failed receive
    /// from a harmless disconnect.
    #[verifier::when_used_as_spec(spec_accepts)]
    pub fn accepts(self, status: i32) -> (r: bool)
        ensures
            r == self.spec_accepts(status),
    {
        status == 0 || (status == 1 && matches!(self, Route::RemoteShell))
    }

    pub open spec fn spec_accepts(self, status: i32) -> bool {
        status == 0 || (status == 1 && self == Route::RemoteShell)
    }
}

impl Phase {
    /// The state of the session that this phase belongs to.
    #[verifier::when_used_as_spec(spec_stage)]
    pub fn stage(self) -> (r: Stage)
        ensures
            r == self.spec_stage(),
    {
        match self {
            Phase::Init => Stage::Init,
            Phase::Creating => Stage::Init,
            Phase::SnapshotCreated => Stage::SnapshotCreated,
            Phase::Connecting => Stage::Streaming,
            Phase::Draining => Stage::Streaming,
            Phase::Finishing => Stage::Streaming,
            Phase::Confirmed => Stage::Confirmed,
            Phase::Failed(_) => Stage::Failed,
        }
    }

    pub open spec fn spec_stage(self) -> Stage {
        match self {
            Phase::Init | Phase::Creating => Stage::Init,
            Phase::SnapshotCreated => Stage::SnapshotCreated,
            Phase::Connecting | Phase::Draining | Phase::Finishing => Stage::Streaming,
            Phase::Confirmed => Stage::Confirmed,
            Phase::Failed(_) => Stage::Failed,
        }
    }

    /// Whether the session has ended.
    pub open spec fn is_final(self) -> bool {
        self == Phase::Confirmed || self is Failed
    }
}

/// The exit status that stands for an exit code: the code itself, 255 where
/// the process gave none.
pub open spec fn status_of(code: Option<i32>) -> i32 {
    match code {
        Some(c) => c,
        None => 255,
    }
}

/// Whether a base snapshot created by this session exists in `phase`.
pub open spec fn base_exists(route: Route, phase: Phase) -> bool {
    route.sends() && (phase == Phase::SnapshotCreated || phase.stage() == Stage::Streaming)
}

/// The step into failure: the base snapshot, where one exists, is destroyed.
pub open spec fn failure(route: Route, phase: Phase, why: ReplError) -> Step {
    Step {
        phase: Phase::Failed(why),
        action: if base_exists(route, phase) {
            Action::DestroyBase
        } else {
            Action::Abort
        },
    }
}

/// The step that a real run takes from `phase` on `event`.
pub open spec fn live_step(route: Route, phase: Phase, event: Event) -> Step {
    match (phase, event) {
        (Phase::Init, Event::Begin) => if route.sends() {
            Step { phase: Phase::Creating, action: Action::CreateSnapshot }
        } else {
            Step { phase: Phase::SnapshotCreated, action: Action::StartProducer }
        },
        (Phase::Creating, Event::SnapshotDone { ok }) => if ok {
            Step { phase: Phase::SnapshotCreated, action: Action::StartProducer }
        } else {
            failure(route, phase, ReplError::Pipeline)
        },
        (Phase::SnapshotCreated, Event::ProducerStarted { ok }) => if ok {
            Step { phase: Phase::Connecting, action: Action::StartConsumer }
        } else if route.sends() {
            failure(route, phase, ReplError::ProducerSpawn)
        } else {
            failure(route, phase, ReplError::Io)
        },
        (Phase::Connecting, Event::ConsumerStarted { ok }) => if ok {
            Step { phase: Phase::Draining, action: Action::AwaitConsumer }
        } else if route.receives() {
            failure(route, phase, ReplError::ConsumerSpawn)
        } else {
            failure(route, phase, ReplError::Io)
        },
        (Phase::Draining, Event::ConsumerExited { code }) => if !route.receives() {
            Step { phase, action: Action::Rejected }
        } else if !route.accepts(status_of(code)) {
            failure(route, phase, ReplError::Pipeline)
        } else if route.sends() {
            Step { phase: Phase::Finishing, action: Action::AwaitProducer }
        } else {
            Step { phase: Phase::Confirmed, action: Action::Prune }
        },
        (Phase::Draining, Event::CopyDone { ok }) => if route.sends() && route.receives() {
            Step { phase, action: Action::Rejected }
        } else if !ok {
            failure(route, phase, ReplError::Io)
        } else if route.sends() {
            Step { phase: Phase::Finishing, action: Action::AwaitProducer }
        } else {
            Step { phase, action: Action::Rejected }
        },
        (Phase::Finishing, Event::ProducerExited { ok }) => if ok {
            Step { phase: Phase::Confirmed, action: Action::Prune }
        } else {
            failure(route, phase, ReplError::Pipeline)
        },
        _ => Step { phase, action: Action::Rejected },
    }
}

/// The step that the machine takes from `phase` on `event`. A dry run
/// confirms at once and starts nothing.
pub open spec fn next_step(route: Route, dry_run: bool, phase: Phase, event: Event) -> Step {
    if !dry_run {
        live_step(route, phase, event)
    } else if phase == Phase::Init && event == Event::Begin {
        Step { phase: Phase::Confirmed, action: Action::Announce }
    } else {
        Step { phase, action: Action::Rejected }
    }
}

/// The phase that a run of events leads to.
pub open spec fn run(route: Route, dry_run: bool, phase: Phase, events: Seq<Event>) -> Phase
    decreases events.len(),
{
    if events.len() == 0 {
        phase
    } else {
        next_step(route, dry_run, run(route, dry_run, phase, events.drop_last()), events.last()).phase
    }
}

/// The exit status that stands for an exit code.
pub fn exit_status(code: Option<i32>) -> (status: i32)
    ensures
        status == status_of(code),
{
    match code {
        Some(c) => c,
        None => 255,
    }
}

fn fail(route: Route, phase: Phase, why: ReplError) -> (step: Step)
    ensures
        step == failure(route, phase, why),
{
    let exists = route.sends() && match phase {
        Phase::SnapshotCreated | Phase::Connecting | Phase::Draining | Phase::Finishing => true,
        _ => false,
    };
    Step {
        phase: Phase::Failed(why),
        action: if exists {
            Action::DestroyBase
        } else {
            Action::Abort
        },
    }
}

/// Takes one step of the machine.
pub fn advance(route: Route, dry_run: bool, phase: Phase, event: Event) -> (step: Step)
    ensures
        step == next_step(route, dry_run, phase, event),
{
    let rejected = Step { phase, action: Action::Rejected };
    if dry_run {
        return match (phase, event) {
            (Phase::Init, Event::Begin) => Step { phase: Phase::Confirmed, action: Action::Announce },
            _ => rejected,
        };
    }
    match phase {
        Phase::Init => match event {
            Event::Begin => if route.sends() {
                Step { phase: Phase::Creating, action: Action::CreateSnapshot }
            } else {
                Step { phase: Phase::SnapshotCreated, action: Action::StartProducer }
            },
            _ => rejected,
        },
        Phase::Creating => match event {
            Event::SnapshotDone { ok: true } => Step {
                phase: Phase::SnapshotCreated,
                action: Action::StartProducer,
            },
            Event::SnapshotDone { ok: false } => fail(route, phase, ReplError::Pipeline),
            _ => rejected,
        },
        Phase::SnapshotCreated => match event {
            Event::ProducerStarted { ok: true } => Step {
                phase: Phase::Connecting,
                action: Action::StartConsumer,
            },
            Event::ProducerStarted { ok: false } => {
                let why = if route.sends() {
                    ReplError::ProducerSpawn
                } else {
                    ReplError::Io
                };
                fail(route, phase, why)
            },
            _ => rejected,
        },
        Phase::Connecting => match event {
            Event::ConsumerStarted { ok: true } => Step {
                phase: Phase::Draining,
                action: Action::AwaitConsumer,
            },
            Event::ConsumerStarted { ok: false } => {
                let why = if route.receives() {
                    ReplError::ConsumerSpawn
                } else {
                    ReplError::Io
                };
                fail(route, phase, why)
            },
            _ => rejected,
        },
        Phase::Draining => match event {
            Event::ConsumerExited { code } => {
                if !route.receives() {
                    rejected
                } else if !route.accepts(exit_status(code)) {
                    fail(route, phase, ReplError::Pipeline)
                } else if route.sends() {
                    Step { phase: Phase::Finishing, action: Action::AwaitProducer }
                } else {
                    Step { phase: Phase::Confirmed, action: Action::Prune }
                }
            },
            Event::CopyDone { ok } => {
                if route.sends() && route.receives() {
                    rejected
                } else if !ok {
                    fail(route, phase, ReplError::Io)
                } else if route.sends() {
                    Step { phase: Phase::Finishing, action: Action::AwaitProducer }
                } else {
                    rejected
                }
            },
            _ => rejected,
        },
        Phase::Finishing => match event {
            Event::ProducerExited { ok: true } => Step {
                phase: Phase::Confirmed,
                action: Action::Prune,
            },
            Event::ProducerExited { ok: false } => fail(route, phase, ReplError::Pipeline),
            _ => rejected,
        },
        Phase::Confirmed => rejected,
        Phase::Failed(_) => rejected,
    }
}

/// A dry run starts nothing, creates nothing and destroys nothing: its one
/// step that applies leads from `Init` to `Confirmed` and announces the plan.
pub proof fn lemma_dry_run_starts_nothing(route: Route, phase: Phase, event: Event)
    ensures
        next_step(route, true, Phase::Init, Event::Begin) == (Step {
            phase: Phase::Confirmed,
            action: Action::Announce,
        }),
        next_step(route, true, phase, event).action == Action::Announce || next_step(
            route,
            true,
            phase,
            event,
        ).action == Action::Rejected,
{
}

/// A dry run that has begun stands in `Confirmed`, whatever is reported to it.
pub proof fn lemma_dry_run_confirms(route: Route, events: Seq<Event>)
    ensures
        run(route, true, Phase::Confirmed, events) == Phase::Confirmed,
        events.len() > 0 && events[0] == Event::Begin ==> run(route, true, Phase::Init, events)
            == Phase::Confirmed,
    decreases events.len(),
{
    if events.len() > 0 {
        lemma_dry_run_confirms(route, events.drop_last());
        if events.len() == 1 {
            assert(events.drop_last().len() == 0);
            assert(events.last() == events[0]);
        } else {
            assert(events.drop_last()[0] == events[0]);
        }
    }
}

/// A consumer that ends with a status that is not accepted fails the
/// session, and the one thing then asked for is the removal of the base
/// snapshot that the session created.
pub proof fn lemma_refused_status_fails(route: Route, code: Option<i32>)
    requires
        route.receives(),
        !route.accepts(status_of(code)),
    ensures
        next_step(route, false, Phase::Draining, Event::ConsumerExited { code }).phase
            == Phase::Failed(ReplError::Pipeline),
        next_step(route, false, Phase::Draining, Event::ConsumerExited { code }).action == (
        if route.sends() {
            Action::DestroyBase
        } else {
            Action::Abort
        }),
{
}

/// The base snapshot is destroyed only on the step into failure, and only
/// where this session has created it.
pub proof fn lemma_destroy_only_on_failure(
    route: Route,
    dry_run: bool,
    phase: Phase,
    event: Event,
)
    requires
        next_step(route, dry_run, phase, event).action == Action::DestroyBase,
    ensures
        !dry_run,
        base_exists(route, phase),
        next_step(route, dry_run, phase, event).phase is Failed,
{
}

/// Pruning is asked for only on the step into `Confirmed`, and a real run
/// gets there only when the last of its two sides has ended well: the
/// producer, or the consumer where the producer is a file.
pub proof fn lemma_prune_only_on_success(route: Route, dry_run: bool, phase: Phase, event: Event)
    requires
        next_step(route, dry_run, phase, event).action == Action::Prune,
    ensures
        !dry_run,
        next_step(route, dry_run, phase, event).phase == Phase::Confirmed,
        phase == Phase::Finishing || (phase == Phase::Draining && !route.sends()),
        phase == Phase::Finishing ==> event == (Event::ProducerExited { ok: true }),
        phase == Phase::Draining ==> (event matches Event::ConsumerExited { code }
            && route.accepts(status_of(code))),
{
}

/// The producer is awaited only once the consumer has ended as accepted.
pub proof fn lemma_consumer_first(route: Route, dry_run: bool, phase: Phase, event: Event)
    requires
        next_step(route, dry_run, phase, event).action == Action::AwaitProducer,
    ensures
        phase == Phase::Draining,
        next_step(route, dry_run, phase, event).phase == Phase::Finishing,
        event matches Event::ConsumerExited { code } ==> route.accepts(status_of(code)),
        event matches Event::CopyDone { ok } ==> ok,
{
}

/// A session creates at most one base snapshot: the request comes on the
/// first step only, no step leads back to `Init`, and a session that has
/// ended stays where it is.
pub proof fn lemma_one_base_per_session(route: Route, dry_run: bool, phase: Phase, event: Event)
    ensures
        next_step(route, dry_run, phase, event).action == Action::CreateSnapshot ==> phase
            == Phase::Init && next_step(route, dry_run, phase, event).phase == Phase::Creating,
        next_step(route, dry_run, phase, event).phase == Phase::Init ==> phase == Phase::Init,
        phase.is_final() ==> next_step(route, dry_run, phase, event) == (Step {
            phase,
            action: Action::Rejected,
        }),
{
}

} // verus!
