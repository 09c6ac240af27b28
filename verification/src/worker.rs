//! The worker that keeps one record: a machine that is told what happened
//! and answers what to do next.
//!
//! The worker itself does nothing but decide. Whoever drives it runs the
//! discovery command, sends the requests, runs the commands, sleeps, and
//! tells the worker each time what came of it.

use crate::address::{AddressView, IpAddress};
use crate::config::{toml_view, Config, ConfigError, TomlView};
use crate::dispatch::{dispatched, maybe_dispatch, remembered, DedupState};
use crate::record::{record_of, RecordSpec, RecordSpecView};
use crate::registrar::{
    ReconcileOutcome, RegistrarError, Reply, Request, RequestView, Step, StepView,
};
use crate::resolver::{resolution, resolve, ResolutionError};
use vstd::prelude::*;

verus! {

/// How many seconds a worker sleeps between two cycles.
pub const POLL_INTERVAL_SECS: u64 = 60;

/// What a worker is told.
#[derive(Debug)]
pub enum Event {
    /// The worker was started.
    Started,
    /// The discovery command ended: what it printed, or why it failed.
    Discovered(Result<String, String>),
    /// A request was answered; `None` where it did not reach the registrar.
    Replied(Option<Reply>),
    /// The commands were run.
    Dispatched,
    /// The sleep is over.
    Woke,
}

/// What a worker asks for.
#[derive(Debug)]
pub enum Action {
    /// Run the discovery command and tell what it printed.
    Discover { command: String },
    /// Send the request and tell what was answered.
    Send(Request),
    /// Run the commands one after the other, each whether or not the ones
    /// before it failed, and tell when that is done.
    Run { commands: Vec<String> },
    /// Sleep and tell when the sleep is over.
    Sleep { seconds: u64 },
}

/// An `Action` with its texts as characters.
pub enum ActionView {
    Discover { command: Seq<char> },
    Send(RequestView),
    Run { commands: Seq<Seq<char>> },
    Sleep { seconds: u64 },
}

impl View for Action {
    type V = ActionView;

    open spec fn view(&self) -> ActionView {
        match self {
            Action::Discover { command } => ActionView::Discover { command: command@ },
            Action::Send(request) => ActionView::Send(request@),
            Action::Run { commands } => ActionView::Run { commands: commands.deep_view() },
            Action::Sleep { seconds } => ActionView::Sleep { seconds: *seconds },
        }
    }
}

/// What a step brought to light, for whoever keeps a log.
#[derive(Clone, Copy, Debug, PartialEq, Eq, Structural)]
pub enum Report {
    Nothing,
    ResolutionFailed(ResolutionError),
    ReconcileFailed(RegistrarError),
    Unchanged,
    Updated,
}

/// Where a worker stands in its cycle.
#[derive(Clone, Copy, Debug)]
pub enum WorkerState {
    Idle,
    Resolving,
    /// The address is known; the lookup is under way, or, once `writing`,
    /// the write.
    Reconciling { desired: IpAddress, writing: bool },
    Dispatching,
    Sleeping,
}

/// A `WorkerState` with its address as a view.
pub enum PhaseView {
    Idle,
    Resolving,
    Reconciling { desired: AddressView, writing: bool },
    Dispatching,
    Sleeping,
}

impl View for WorkerState {
    type V = PhaseView;

    open spec fn view(&self) -> PhaseView {
        match self {
            WorkerState::Idle => PhaseView::Idle,
            WorkerState::Resolving => PhaseView::Resolving,
            WorkerState::Reconciling { desired, writing } => PhaseView::Reconciling {
                desired: desired@,
                writing: *writing,
            },
            WorkerState::Dispatching => PhaseView::Dispatching,
            WorkerState::Sleeping => PhaseView::Sleeping,
        }
    }
}

/// The worker of one record.
#[derive(Debug)]
pub struct Worker {
    spec: RecordSpec,
    dedup: DedupState,
    state: WorkerState,
}

/// What a worker answers to an event.
#[derive(Debug)]
pub struct Transition {
    pub action: Action,
    pub report: Report,
}

/// One move of a worker: where it stands after it, what it remembers, what
/// it asks for and what it reports.
pub struct Move {
    pub phase: PhaseView,
    pub memory: Option<AddressView>,
    pub action: ActionView,
    pub report: Report,
}

/// The move that ends a cycle: the worker goes to sleep for the poll
/// interval and remembers what it remembered.
pub open spec fn to_sleep(memory: Option<AddressView>, report: Report) -> Move {
    Move {
        phase: PhaseView::Sleeping,
        memory,
        action: ActionView::Sleep { seconds: POLL_INTERVAL_SECS },
        report,
    }
}

/// The move that begins a cycle: the discovery command is to be run.
pub open spec fn to_resolving(spec: RecordSpecView, memory: Option<AddressView>) -> Move {
    Move {
        phase: PhaseView::Resolving,
        memory,
        action: ActionView::Discover { command: spec.ip_address_from_cmd },
        report: Report::Nothing,
    }
}

/// What a result of a reconciliation is reported as.
pub open spec fn report_of(result: Result<ReconcileOutcome, RegistrarError>) -> Report {
    match result {
        Ok(ReconcileOutcome::Unchanged) => Report::Unchanged,
        Ok(ReconcileOutcome::Updated) => Report::Updated,
        Err(e) => Report::ReconcileFailed(e),
    }
}

/// What follows from a step of a reconciliation while the worker knows the
/// address `desired`: a request is sent, and with a result the cycle ends.
pub open spec fn follow(
    step: StepView,
    memory: Option<AddressView>,
    desired: AddressView,
    writing: bool,
) -> Move {
    match step {
        StepView::Send(request) => Move {
            phase: PhaseView::Reconciling { desired, writing },
            memory,
            action: ActionView::Send(request),
            report: Report::Nothing,
        },
        StepView::Done(result) => to_sleep(memory, report_of(result)),
    }
}

/// The move of a worker that stands in `phase`, remembers `memory` and is
/// told `event`.
///
/// A started or woken worker resolves. A resolving worker that is told of
/// the discovery reconciles where an address of the right family came out,
/// and sleeps where none did. A reconciling worker that is told of the
/// answer to the lookup sleeps unless a write is due; told of the answer to
/// the write, it dispatches where the record was updated and sleeps where it
/// was not. A dispatching worker sleeps once the commands were run. A worker
/// that is told anything it did not ask for sleeps.
pub open spec fn worker_move(
    spec: RecordSpecView,
    memory: Option<AddressView>,
    phase: PhaseView,
    event: Event,
) -> Move {
    match (phase, event) {
        (PhaseView::Idle, Event::Started) => to_resolving(spec, memory),
        (PhaseView::Sleeping, Event::Woke) => to_resolving(spec, memory),
        (PhaseView::Resolving, Event::Discovered(outcome)) => match resolution(
            outcome,
            spec.registrar.record_type(),
        ) {
            Err(e) => to_sleep(memory, Report::ResolutionFailed(e)),
            Ok(desired) => follow(spec.registrar.begin(), memory, desired, false),
        },
        (PhaseView::Reconciling { desired, writing: false }, Event::Replied(reply)) => follow(
            spec.registrar.after_lookup(desired.text(), reply),
            memory,
            desired,
            true,
        ),
        (PhaseView::Reconciling { desired, writing: true }, Event::Replied(reply)) => {
            match spec.registrar.after_write(reply) {
                Ok(ReconcileOutcome::Updated) => Move {
                    phase: PhaseView::Dispatching,
                    memory: remembered(spec.ip_address_on_update_cmd, memory, desired),
                    action: ActionView::Run {
                        commands: dispatched(spec.ip_address_on_update_cmd, memory, desired),
                    },
                    report: Report::Updated,
                },
                result => to_sleep(memory, report_of(result)),
            }
        },
        (PhaseView::Dispatching, Event::Dispatched) => to_sleep(memory, Report::Nothing),
        _ => to_sleep(memory, Report::Nothing),
    }
}

impl Worker {
    /// A worker for a record, not yet started and with nothing remembered.
    pub fn new(spec: RecordSpec) -> (worker: Worker)
        ensures
            worker.spec() == spec,
            worker.phase() is Idle,
            worker.memory() is None,
    {
        Worker { spec, dedup: DedupState::new(), state: WorkerState::Idle }
    }

    /// The record that the worker keeps.
    pub closed spec fn spec(&self) -> RecordSpec {
        self.spec
    }

    /// Where the worker stands.
    pub closed spec fn phase(&self) -> PhaseView {
        self.state@
    }

    /// The last address for which the worker handed commands out.
    pub closed spec fn memory(&self) -> Option<AddressView> {
        self.dedup@
    }

    /// The record that the worker keeps.
    pub fn record(&self) -> (record: &RecordSpec)
        ensures
            *record == self.spec(),
    {
        &self.spec
    }

    /// Where the worker stands.
    pub fn state(&self) -> (state: WorkerState)
        ensures
            state@ == self.phase(),
    {
        self.state
    }

    /// What the worker remembers.
    pub fn dedup(&self) -> (dedup: DedupState)
        ensures
            dedup@ == self.memory(),
    {
        self.dedup
    }

    fn sleep(&mut self, report: Report) -> (transition: Transition)
        ensures
            final(self).spec() == old(self).spec(),
            final(self).phase() == PhaseView::Sleeping,
            final(self).memory() == old(self).memory(),
            transition.action@ == (ActionView::Sleep { seconds: POLL_INTERVAL_SECS }),
            transition.report == report,
    {
        self.state = WorkerState::Sleeping;
        Transition { action: Action::Sleep { seconds: POLL_INTERVAL_SECS }, report }
    }

    fn follow(&mut self, step: Step, desired: IpAddress, writing: bool) -> (transition: Transition)
        ensures
            final(self).spec() == old(self).spec(),
            (Move {
                phase: final(self).phase(),
                memory: final(self).memory(),
                action: transition.action@,
                report: transition.report,
            }) == follow(step@, old(self).memory(), desired@, writing),
    {
        match step {
            Step::Send(request) => {
                self.state = WorkerState::Reconciling { desired, writing };
                Transition { action: Action::Send(request), report: Report::Nothing }
            },
            Step::Done(Ok(ReconcileOutcome::Unchanged)) => self.sleep(Report::Unchanged),
            Step::Done(Ok(ReconcileOutcome::Updated)) => self.sleep(Report::Updated),
            Step::Done(Err(e)) => self.sleep(Report::ReconcileFailed(e)),
        }
    }

    /// Tells the worker what happened and takes what it asks for next.
    pub fn step(&mut self, event: Event) -> (transition: Transition)
        ensures
            final(self).spec() == old(self).spec(),
            (Move {
                phase: final(self).phase(),
                memory: final(self).memory(),
                action: transition.action@,
                report: transition.report,
            }) == worker_move(old(self).spec()@, old(self).memory(), old(self).phase(), event),
    {
        let state = self.state;
        match (state, event) {
            (WorkerState::Idle, Event::Started) | (WorkerState::Sleeping, Event::Woke) => {
                self.state = WorkerState::Resolving;
                Transition {
                    action: Action::Discover { command: self.spec.ip_address_from_cmd.clone() },
                    report: Report::Nothing,
                }
            },
            (WorkerState::Resolving, Event::Discovered(outcome)) => {
                match resolve(&outcome, self.spec.registrar.record_type()) {
                    Err(e) => self.sleep(Report::ResolutionFailed(e)),
                    Ok(desired) => {
                        let first = self.spec.registrar.begin();
                        self.follow(first, desired, false)
                    },
                }
            },
            (WorkerState::Reconciling { desired, writing: false }, Event::Replied(reply)) => {
                let next = self.spec.registrar.after_lookup(&desired, &reply);
                self.follow(next, desired, true)
            },
            (WorkerState::Reconciling { desired, writing: true }, Event::Replied(reply)) => {
                match self.spec.registrar.after_write(&reply) {
                    Ok(ReconcileOutcome::Updated) => {
                        let commands = maybe_dispatch(&self.spec, &mut self.dedup, &desired);
                        self.state = WorkerState::Dispatching;
                        Transition { action: Action::Run { commands }, report: Report::Updated }
                    },
                    Ok(ReconcileOutcome::Unchanged) => self.sleep(Report::Unchanged),
                    Err(e) => self.sleep(Report::ReconcileFailed(e)),
                }
            },
            (WorkerState::Dispatching, Event::Dispatched) => self.sleep(Report::Nothing),
            _ => self.sleep(Report::Nothing),
        }
    }
}

// ---------------------------------------------------------------------------
// What holds of every move
// ---------------------------------------------------------------------------

/// Whatever goes wrong in a cycle ends the cycle and nothing else: a move
/// that reports a failure puts the worker to sleep for the poll interval and
/// leaves what it remembers as it was.
pub proof fn lemma_failure_ends_the_cycle(
    spec: RecordSpecView,
    memory: Option<AddressView>,
    phase: PhaseView,
    event: Event,
)
    requires
        worker_move(spec, memory, phase, event).report is ResolutionFailed || worker_move(
            spec,
            memory,
            phase,
            event,
        ).report is ReconcileFailed,
    ensures
        worker_move(spec, memory, phase, event).phase is Sleeping,
        worker_move(spec, memory, phase, event).action == (ActionView::Sleep {
            seconds: POLL_INTERVAL_SECS,
        }),
        worker_move(spec, memory, phase, event).memory == memory,
{
}

/// No request goes out before an address is known: a worker that is told
/// that the discovery failed, or that it yielded no address for the record,
/// sleeps.
pub proof fn lemma_no_address_no_request(
    spec: RecordSpecView,
    memory: Option<AddressView>,
    outcome: Result<String, String>,
)
    requires
        resolution(outcome, spec.registrar.record_type()) is Err,
    ensures
        worker_move(spec, memory, PhaseView::Resolving, Event::Discovered(outcome)) == to_sleep(
            memory,
            Report::ResolutionFailed(resolution(outcome, spec.registrar.record_type())->Err_0),
        ),
{
}

/// Commands are handed out, and the memory changed, with an update and with
/// nothing else: a move that asks for commands to be run or that changes
/// what the worker remembers is the move of a worker that was told the
/// answer to its write, it reports the update, and what the worker remembers
/// afterwards is the address that was written, unless the record has no
/// commands for a change.
pub proof fn lemma_dispatch_only_with_an_update(
    spec: RecordSpecView,
    memory: Option<AddressView>,
    phase: PhaseView,
    event: Event,
)
    requires
        worker_move(spec, memory, phase, event).action is Run || worker_move(
            spec,
            memory,
            phase,
            event,
        ).memory != memory,
    ensures
        worker_move(spec, memory, phase, event).report == Report::Updated,
        worker_move(spec, memory, phase, event).phase is Dispatching,
        phase matches PhaseView::Reconciling { desired, writing: true } && worker_move(
            spec,
            memory,
            phase,
            event,
        ).memory == remembered(spec.ip_address_on_update_cmd, memory, desired),
{
}

/// What became of one configured record: its worker, or why it has none.
pub open spec fn started(made: Result<Worker, ConfigError>, c: TomlView) -> bool {
    match made {
        Ok(worker) => record_of(c) == Ok::<RecordSpecView, ConfigError>(worker.spec()@)
            && worker.phase() is Idle && worker.memory() is None,
        Err(e) => record_of(c) == Err::<RecordSpecView, ConfigError>(e),
    }
}

/// Makes one worker for each configured record, in the order of the
/// configuration. A record that cannot be kept gets no worker, and the
/// reason stands in its place; the others are not touched by that.
pub fn start_worker(toml_config: &Config) -> (workers: Vec<Result<Worker, ConfigError>>)
    ensures
        workers.len() == toml_config.record.len(),
        forall|i: int|
            0 <= i < workers.len() ==> started(
                #[trigger] workers@[i],
                toml_view(toml_config.record@[i]),
            ),
{
    let mut workers: Vec<Result<Worker, ConfigError>> = Vec::new();
    let mut i: usize = 0;
    while i < toml_config.record.len()
        invariant
            i <= toml_config.record.len(),
            workers.len() == i,
            forall|k: int|
                0 <= k < i ==> started(#[trigger] workers@[k], toml_view(toml_config.record@[k])),
        decreases toml_config.record.len() - i,
    {
        let made = match RecordSpec::from_config(&toml_config.record[i]) {
            Ok(spec) => Ok(Worker::new(spec)),
            Err(e) => Err(e),
        };
        workers.push(made);
        i += 1;
    }
    workers
}

} // verus!
