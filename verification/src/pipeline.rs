//! A transfer as a whole: what is sent, where it goes, what it supersedes,
//! and where the session stands.
//!
//! The pipeline holds the plan and the phase. Its caller runs the commands
//! that it names and reports what came of them; the pipeline says what is to
//! be done next. Snapshots are removed only once the transfer is confirmed,
//! and the base that the session made is never among them.

use crate::command::{
    command_line, destroy_args, destroy_command, joined, receive_args, receive_command,
    remote_shell_args, remote_shell_command, send_args, send_command, snapshot_args,
    snapshot_command,
};
use crate::error::ReplError;
use crate::machine::{advance, next_step, Action, Event, Phase, Route, Step};
use crate::retention::{superseded, without};
use crate::text::{lemma_texts_push, texts};
use vstd::prelude::*;

verus! {

/// What a pipeline holds, as plain values.
pub struct Plan {
    pub route: Route,
    pub dry_run: bool,
    pub phase: Phase,
    /// The base snapshot that the session creates and sends; none where an archive is loaded.
    pub base: Option<Seq<char>>,
    /// The snapshot from which an incremental stream starts; none for a full stream.
    pub precursor: Option<Seq<char>>,
    /// The pool that receives, or the endpoint of the remote shell.
    pub peer: Seq<char>,
    /// The archive file, where the route has one.
    pub file: Seq<char>,
    /// The snapshots that the new base supersedes.
    pub superseded: Seq<Seq<char>>,
}

/// A transfer and the phase it is in.
pub struct Pipeline {
    route: Route,
    dry_run: bool,
    phase: Phase,
    base: Option<String>,
    precursor: Option<String>,
    peer: String,
    file: String,
    superseded: Vec<String>,
}

/// The view of a string that may be absent.
pub open spec fn opt_text(s: Option<String>) -> Option<Seq<char>> {
    match s {
        Some(s) => Some(s@),
        None => None,
    }
}

impl Plan {
    /// A base snapshot belongs to the routes that send, a precursor needs a
    /// base, and the base is not among the snapshots that it supersedes.
    pub open spec fn wf(self) -> bool {
        &&& self.route.sends() <==> self.base is Some
        &&& self.precursor is Some ==> self.base is Some
        &&& self.base matches Some(b) ==> !self.superseded.contains(b)
    }

    /// The command that creates the base snapshot.
    pub open spec fn create_args(self) -> Option<Seq<Seq<char>>> {
        match self.base {
            Some(b) => Some(snapshot_args(b, true)),
            None => None,
        }
    }

    /// The command that destroys the base snapshot.
    pub open spec fn cleanup_args(self) -> Option<Seq<Seq<char>>> {
        match self.base {
            Some(b) => Some(destroy_args(b)),
            None => None,
        }
    }

    /// The command of the producer; none where the producer is an archive file.
    pub open spec fn producer_args(self) -> Option<Seq<Seq<char>>> {
        match self.base {
            Some(b) => Some(send_args(self.precursor, b)),
            None => None,
        }
    }

    /// The command of the consumer; none where the consumer is an archive file.
    pub open spec fn consumer_args(self) -> Option<Seq<Seq<char>>> {
        match self.route {
            Route::LocalReceive | Route::ArchiveLoad => Some(receive_args(self.peer)),
            Route::RemoteShell => Some(remote_shell_args(self.peer)),
            Route::ArchiveWrite => None,
        }
    }

    /// The transfer on one line, as a shell would have it.
    pub open spec fn transfer_line(self) -> Seq<char> {
        let producer = match self.producer_args() {
            Some(words) => joined(words),
            None => "cat "@ + self.file,
        };
        match self.consumer_args() {
            Some(words) => producer + " | "@ + joined(words),
            None => producer + " > "@ + self.file,
        }
    }

    /// The snapshots that may be removed now: those that the base
    /// supersedes once the transfer is confirmed, none before and none
    /// after a failure.
    pub open spec fn removals(self) -> Seq<Seq<char>> {
        if self.phase == Phase::Confirmed {
            self.superseded
        } else {
            Seq::empty()
        }
    }

    /// The plan after `event` was reported.
    pub open spec fn after(self, event: Event) -> Plan {
        Plan { phase: next_step(self.route, self.dry_run, self.phase, event).phase, ..self }
    }

    /// What is to be done once `event` was reported.
    pub open spec fn reply(self, event: Event) -> Action {
        next_step(self.route, self.dry_run, self.phase, event).action
    }

    /// How the session has ended; `None` while it runs.
    pub open spec fn outcome(self) -> Option<Result<(), ReplError>> {
        match self.phase {
            Phase::Confirmed => Some(Ok(())),
            Phase::Failed(why) => Some(Err(why)),
            _ => None,
        }
    }
}

impl View for Pipeline {
    type V = Plan;

    closed spec fn view(&self) -> Plan {
        Plan {
            route: self.route,
            dry_run: self.dry_run,
            phase: self.phase,
            base: opt_text(self.base),
            precursor: opt_text(self.precursor),
            peer: self.peer@,
            file: self.file@,
            superseded: texts(self.superseded@),
        }
    }
}

fn copy_names(names: &Vec<String>) -> (r: Vec<String>)
    ensures
        texts(r@) == texts(names@),
{
    let mut r: Vec<String> = Vec::new();
    let mut i: usize = 0;
    assert(texts(r@) =~= texts(names@).take(0));
    while i < names.len()
        invariant
            i <= names.len(),
            texts(r@) == texts(names@).take(i as int),
        decreases names.len() - i,
    {
        let name = names[i].clone();
        proof {
            lemma_texts_push(r@, name);
            assert(texts(names@).take(i + 1) =~= texts(names@).take(i as int).push(name@));
        }
        r.push(name);
        i += 1;
    }
    assert(texts(names@).take(i as int) =~= texts(names@));
    r
}

impl Pipeline {
    /// Every pipeline holds a well-formed plan.
    #[verifier::type_invariant]
    pub open spec fn inv(self) -> bool {
        self@.wf()
    }

    fn sending(
        route: Route,
        base: String,
        precursor: Option<String>,
        peer: String,
        file: String,
        at_start: &Vec<String>,
        dry_run: bool,
    ) -> (r: Pipeline)
        requires
            route.sends(),
        ensures
            r@ == (Plan {
                route,
                dry_run,
                phase: Phase::Init,
                base: Some(base@),
                precursor: opt_text(precursor),
                peer: peer@,
                file: file@,
                superseded: without(texts(at_start@), base@),
            }),
            r@.wf(),
    {
        let gone = superseded(at_start, &base);
        Pipeline {
            route,
            dry_run,
            phase: Phase::Init,
            base: Some(base),
            precursor,
            peer,
            file,
            superseded: gone,
        }
    }

    /// A transfer of `base` into `pool` on this machine, from `precursor`
    /// on where one is given. Once confirmed it supersedes the snapshots
    /// of `at_start`, but for `base` itself.
    pub fn to_pool(
        base: String,
        precursor: Option<String>,
        pool: String,
        at_start: &Vec<String>,
        dry_run: bool,
    ) -> (r: Pipeline)
        ensures
            r@ == (Plan {
                route: Route::LocalReceive,
                dry_run,
                phase: Phase::Init,
                base: Some(base@),
                precursor: opt_text(precursor),
                peer: pool@,
                file: Seq::empty(),
                superseded: without(texts(at_start@), base@),
            }),
            r@.wf(),
    {
        Pipeline::sending(
            Route::LocalReceive,
            base,
            precursor,
            pool,
            String::new(),
            at_start,
            dry_run,
        )
    }

    /// A transfer of `base` through the remote shell at `endpoint`.
    pub fn to_remote(
        base: String,
        precursor: Option<String>,
        endpoint: String,
        at_start: &Vec<String>,
        dry_run: bool,
    ) -> (r: Pipeline)
        ensures
            r@ == (Plan {
                route: Route::RemoteShell,
                dry_run,
                phase: Phase::Init,
                base: Some(base@),
                precursor: opt_text(precursor),
                peer: endpoint@,
                file: Seq::empty(),
                superseded: without(texts(at_start@), base@),
            }),
            r@.wf(),
    {
        Pipeline::sending(
            Route::RemoteShell,
            base,
            precursor,
            endpoint,
            String::new(),
            at_start,
            dry_run,
        )
    }

    /// A transfer of `base` into the archive `file`.
    pub fn to_archive(
        base: String,
        precursor: Option<String>,
        file: String,
        at_start: &Vec<String>,
        dry_run: bool,
    ) -> (r: Pipeline)
        ensures
            r@ == (Plan {
                route: Route::ArchiveWrite,
                dry_run,
                phase: Phase::Init,
                base: Some(base@),
                precursor: opt_text(precursor),
                peer: Seq::empty(),
                file: file@,
                superseded: without(texts(at_start@), base@),
            }),
            r@.wf(),
    {
        Pipeline::sending(
            Route::ArchiveWrite,
            base,
            precursor,
            String::new(),
            file,
            at_start,
            dry_run,
        )
    }

    /// A transfer of the archive `file` into `pool`. It creates no
    /// snapshot and supersedes none.
    pub fn from_archive(file: String, pool: String, dry_run: bool) -> (r: Pipeline)
        ensures
            r@ == (Plan {
                route: Route::ArchiveLoad,
                dry_run,
                phase: Phase::Init,
                base: None,
                precursor: None,
                peer: pool@,
                file: file@,
                superseded: Seq::empty(),
            }),
            r@.wf(),
    {
        let none: Vec<String> = Vec::new();
        assert(texts(none@) =~= Seq::empty());
        Pipeline {
            route: Route::ArchiveLoad,
            dry_run,
            phase: Phase::Init,
            base: None,
            precursor: None,
            peer: pool,
            file,
            superseded: none,
        }
    }

    /// Takes note of `event` and says what is to be done next. Only the
    /// phase changes.
    pub fn step(&mut self, event: Event) -> (action: Action)
        ensures
            final(self)@ == old(self)@.after(event),
            action == old(self)@.reply(event),
            final(self)@.wf(),
    {
        proof {
            use_type_invariant(&*self);
        }
        let Step { phase, action } = advance(self.route, self.dry_run, self.phase, event);
        self.phase = phase;
        action
    }

    pub fn route(&self) -> (r: Route)
        ensures
            r == self@.route,
    {
        self.route
    }

    pub fn phase(&self) -> (r: Phase)
        ensures
            r == self@.phase,
    {
        self.phase
    }

    pub fn dry_run(&self) -> (r: bool)
        ensures
            r == self@.dry_run,
    {
        self.dry_run
    }

    /// The base snapshot that the session creates.
    pub fn base(&self) -> (r: Option<String>)
        ensures
            opt_text(r) == self@.base,
    {
        match &self.base {
            Some(b) => Some(b.clone()),
            None => None,
        }
    }

    /// The snapshot from which the stream starts.
    pub fn precursor(&self) -> (r: Option<String>)
        ensures
            opt_text(r) == self@.precursor,
    {
        match &self.precursor {
            Some(p) => Some(p.clone()),
            None => None,
        }
    }

    /// The archive file of the route.
    pub fn file(&self) -> (r: String)
        ensures
            r@ == self@.file,
    {
        self.file.clone()
    }

    /// The pool that receives, or the endpoint of the remote shell.
    pub fn peer(&self) -> (r: String)
        ensures
            r@ == self@.peer,
    {
        self.peer.clone()
    }

    /// How the session has ended; `None` while it runs.
    pub fn outcome(&self) -> (r: Option<Result<(), ReplError>>)
        ensures
            r == self@.outcome(),
    {
        match self.phase {
            Phase::Confirmed => Some(Ok(())),
            Phase::Failed(why) => Some(Err(why)),
            _ => None,
        }
    }

    /// The command that creates the base snapshot.
    pub fn create_command(&self) -> (r: Option<Vec<String>>)
        ensures
            match r {
                Some(argv) => self@.create_args() == Some(texts(argv@)),
                None => self@.create_args() is None,
            },
    {
        match &self.base {
            Some(b) => Some(snapshot_command(b.as_str(), true)),
            None => None,
        }
    }

    /// The command that destroys the base snapshot.
    pub fn cleanup_command(&self) -> (r: Option<Vec<String>>)
        ensures
            match r {
                Some(argv) => self@.cleanup_args() == Some(texts(argv@)),
                None => self@.cleanup_args() is None,
            },
    {
        match &self.base {
            Some(b) => Some(destroy_command(b.as_str())),
            None => None,
        }
    }

    /// The command of the producer.
    pub fn producer_command(&self) -> (r: Option<Vec<String>>)
        ensures
            match r {
                Some(argv) => self@.producer_args() == Some(texts(argv@)),
                None => self@.producer_args() is None,
            },
    {
        match &self.base {
            Some(b) => {
                let argv = match &self.precursor {
                    Some(p) => send_command(Some(p.as_str()), b.as_str()),
                    None => send_command(None, b.as_str()),
                };
                Some(argv)
            },
            None => None,
        }
    }

    /// The command of the consumer.
    pub fn consumer_command(&self) -> (r: Option<Vec<String>>)
        ensures
            match r {
                Some(argv) => self@.consumer_args() == Some(texts(argv@)),
                None => self@.consumer_args() is None,
            },
    {
        match self.route {
            Route::LocalReceive => Some(receive_command(self.peer.as_str())),
            Route::ArchiveLoad => Some(receive_command(self.peer.as_str())),
            Route::RemoteShell => Some(remote_shell_command(self.peer.as_str())),
            Route::ArchiveWrite => None,
        }
    }

    /// The transfer on one line, for the log.
    pub fn transfer_line(&self) -> (line: String)
        ensures
            line@ == self@.transfer_line(),
    {
        let producer = match self.producer_command() {
            Some(argv) => command_line(&argv),
            None => String::from_str("cat ").concat(self.file.as_str()),
        };
        match self.consumer_command() {
            Some(argv) => {
                let consumer = command_line(&argv);
                producer.concat(" | ").concat(consumer.as_str())
            },
            None => producer.concat(" > ").concat(self.file.as_str()),
        }
    }

    /// The snapshots that may be removed now.
    pub fn removals(&self) -> (gone: Vec<String>)
        ensures
            texts(gone@) == self@.removals(),
            self@.base matches Some(b) ==> !texts(gone@).contains(b),
    {
        proof {
            use_type_invariant(self);
        }
        match self.phase {
            Phase::Confirmed => copy_names(&self.superseded),
            _ => {
                let gone: Vec<String> = Vec::new();
                assert(texts(gone@) =~= Seq::empty());
                gone
            },
        }
    }
}

/// Whatever is reported, the plan of a pipeline changes in its phase alone:
/// the base, the precursor and the snapshots to be superseded stay as they
/// were planned.
pub proof fn lemma_step_keeps_plan(plan: Plan, event: Event)
    ensures
        plan.after(event).base == plan.base,
        plan.after(event).precursor == plan.precursor,
        plan.after(event).superseded == plan.superseded,
        plan.after(event).route == plan.route,
        plan.after(event).dry_run == plan.dry_run,
        plan.wf() ==> plan.after(event).wf(),
{
}

/// Snapshots are removed only after success: where anything may be
/// removed, the session is confirmed; and what may be removed then never
/// holds the base that the session made.
pub proof fn lemma_removals_need_confirmation(plan: Plan)
    requires
        plan.wf(),
    ensures
        plan.removals().len() > 0 ==> plan.phase == Phase::Confirmed,
        plan.phase is Failed ==> plan.removals() == Seq::<Seq<char>>::empty(),
        plan.base matches Some(b) ==> !plan.removals().contains(b),
{
}

/// A consumer that ends with a status that is not accepted fails the
/// session: the base snapshot of the session is to be destroyed, and no
/// other snapshot may be removed, then or later.
pub proof fn lemma_refused_status_removes_base_only(
    plan: Plan,
    code: Option<i32>,
    later: Event,
)
    requires
        plan.wf(),
        !plan.dry_run,
        plan.phase == Phase::Draining,
        plan.route.receives(),
        !plan.route.accepts(crate::machine::status_of(code)),
    ensures
        plan.after(Event::ConsumerExited { code }).phase == Phase::Failed(ReplError::Pipeline),
        plan.route.sends() ==> plan.reply(Event::ConsumerExited { code }) == Action::DestroyBase,
        plan.after(Event::ConsumerExited { code }).removals() == Seq::<Seq<char>>::empty(),
        plan.after(Event::ConsumerExited { code }).after(later).removals() == Seq::<
            Seq<char>,
        >::empty(),
        plan.after(Event::ConsumerExited { code }).reply(later) == Action::Rejected,
{
}

/// A dry run starts nothing and yet rehearses the cleanup: its first step
/// announces the plan, and what may be removed after it is what a confirmed
/// transfer would supersede.
pub proof fn lemma_dry_run_rehearses(plan: Plan)
    requires
        plan.dry_run,
        plan.phase == Phase::Init,
    ensures
        plan.reply(Event::Begin) == Action::Announce,
        plan.after(Event::Begin).phase == Phase::Confirmed,
        plan.after(Event::Begin).removals() == plan.superseded,
{
}

} // verus!
