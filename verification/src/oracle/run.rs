//! How the oracle goes from block to block.
//!
//! A running oracle alternates with work that is done elsewhere, as the check of a
//! block does: each piece of work is a [`Task`], its outcome comes back as an
//! [`Event`].

use core::time::Duration;

use vstd::prelude::*;

use super::config::{await_initial_configuration, update_config, Command, Config, Polled};
use super::error::{Error, ErrorView};
use super::events::PendingEvent;
use super::process::{Action, ActionView, Job, JobView, Phase, PhaseView, Reply, ReplyView};
use crate::ethereum::{codec_signature, event_codecs, EventCodec, EventKind, EVENT_CODECS};
use crate::uint256::{uint256_limit, Uint256};

verus! {

/// The time, in milliseconds, that the oracle waits by default before it tries a
/// block again.
pub const DEFAULT_BACKOFF_MS: u64 = 500;

/// The time, in milliseconds, for which the oracle lets the node be unresponsive by
/// default.
pub const DEFAULT_CEILING_MS: u64 = 30000;

/// What the oracle is at.
pub enum Stage<E> {
    /// The oracle waits for its initial configuration; `last_processed_block` is what
    /// is published as the block processed last by then.
    Configuring { last_processed_block: Option<Uint256>, codecs: Vec<EventCodec> },
    /// A block is being checked.
    Processing { job: Job, phase: Phase<E> },
    /// The block could not be processed yet: it is tried again after a while. `waiting`
    /// are the events of blocks before that wait for their confirmations.
    Waiting { job: Job, waiting: Vec<PendingEvent<E>> },
    /// The block was processed: this is published, and a new configuration may come.
    /// `waiting` are the events found so far that wait for their confirmations.
    Publishing { job: Job, waiting: Vec<PendingEvent<E>> },
    /// The oracle is no longer running.
    Stopped,
}

/// A watch over Ethereum that relays the events of the bridge to the ledger.
pub struct Oracle<E> {
    /// How long to wait before a block is tried again.
    backoff: Duration,
    /// How long the node may be unresponsive.
    ceiling: Duration,
    /// Whether a node that cannot be asked for events is asked again.
    patient: bool,
    /// What the oracle is at.
    stage: Stage<E>,
}

/// Why the oracle is no longer running.
pub enum StopReason {
    /// The command channel was closed before a configuration came.
    NotConfigured,
    /// The receiver of events has hung up.
    ReceiverHungUp,
    /// The block could not be processed, for a reason that does not pass.
    Disconnected { block: Uint256, reason: Error },
}

/// Outside work that the oracle asks for.
pub enum Task<E> {
    /// Wait for the initial configuration.
    AwaitConfiguration,
    /// Do a piece of work for the block that is being checked.
    Process(Action<E>),
    /// Wait for the given time, after which the block is tried again; `error` is why it
    /// could not be processed yet.
    Sleep { time: Duration, block: Uint256, error: Error },
    /// Publish the block as the one that was processed last, and look for a command.
    Publish(Uint256),
    /// Nothing more is to be done.
    Stop(StopReason),
}

/// What came of a task, or a change that the oracle has to know of.
pub enum Event<E> {
    /// A first command, or `None` where the command channel was closed.
    Configured(Option<Command>),
    /// The outcome of work for the block that is being checked.
    Processed(Reply<E>),
    /// The receiver of events has hung up.
    ReceiverHungUp,
    /// The time to wait is over.
    Slept,
    /// The block was published; this is what the command channel held.
    Published(Polled),
}

/// What a stage holds.
pub enum StageView<E> {
    Configuring { last_processed_block: Option<nat>, codecs: Seq<EventCodec> },
    Processing { job: JobView, phase: PhaseView<E> },
    Waiting { job: JobView, waiting: Seq<PendingEvent<E>> },
    Publishing { job: JobView, waiting: Seq<PendingEvent<E>> },
    Stopped,
}

/// What an oracle holds.
pub struct OracleView<E> {
    pub backoff: Duration,
    pub ceiling: Duration,
    pub patient: bool,
    pub stage: StageView<E>,
}

/// What a reason to stop holds.
pub enum StopView {
    NotConfigured,
    ReceiverHungUp,
    Disconnected { block: nat, reason: ErrorView },
}

/// What a task holds.
pub enum TaskView<E> {
    AwaitConfiguration,
    Process(ActionView<E>),
    Sleep { time: Duration, block: nat, error: ErrorView },
    Publish(nat),
    Stop(StopView),
}

/// What an event holds.
pub enum EventView<E> {
    Configured(Option<Command>),
    Processed(ReplyView<E>),
    ReceiverHungUp,
    Slept,
    Published(Polled),
}

/// The number of a block, if there is one.
pub open spec fn number_of(block: Option<Uint256>) -> Option<nat> {
    match block {
        Some(number) => Some(number@),
        None => None,
    }
}

impl<E> View for Stage<E> {
    type V = StageView<E>;

    open spec fn view(&self) -> StageView<E> {
        match self {
            Stage::Configuring { last_processed_block, codecs } => StageView::Configuring {
                last_processed_block: number_of(*last_processed_block),
                codecs: codecs@,
            },
            Stage::Processing { job, phase } => StageView::Processing { job: job@, phase: phase@ },
            Stage::Waiting { job, waiting } => StageView::Waiting {
                job: job@,
                waiting: waiting@,
            },
            Stage::Publishing { job, waiting } => StageView::Publishing {
                job: job@,
                waiting: waiting@,
            },
            Stage::Stopped => StageView::Stopped,
        }
    }
}

impl<E> View for Oracle<E> {
    type V = OracleView<E>;

    closed spec fn view(&self) -> OracleView<E> {
        OracleView {
            backoff: self.backoff,
            ceiling: self.ceiling,
            patient: self.patient,
            stage: self.stage@,
        }
    }
}

impl View for StopReason {
    type V = StopView;

    open spec fn view(&self) -> StopView {
        match self {
            StopReason::NotConfigured => StopView::NotConfigured,
            StopReason::ReceiverHungUp => StopView::ReceiverHungUp,
            StopReason::Disconnected { block, reason } => StopView::Disconnected {
                block: block@,
                reason: reason@,
            },
        }
    }
}

impl<E> View for Task<E> {
    type V = TaskView<E>;

    open spec fn view(&self) -> TaskView<E> {
        match self {
            Task::AwaitConfiguration => TaskView::AwaitConfiguration,
            Task::Process(action) => TaskView::Process(action@),
            Task::Sleep { time, block, error } => TaskView::Sleep {
                time: *time,
                block: block@,
                error: error@,
            },
            Task::Publish(block) => TaskView::Publish(block@),
            Task::Stop(reason) => TaskView::Stop(reason@),
        }
    }
}

impl<E> View for Event<E> {
    type V = EventView<E>;

    open spec fn view(&self) -> EventView<E> {
        match self {
            Event::Configured(command) => EventView::Configured(*command),
            Event::Processed(reply) => EventView::Processed(reply@),
            Event::ReceiverHungUp => EventView::ReceiverHungUp,
            Event::Slept => EventView::Slept,
            Event::Published(polled) => EventView::Published(*polled),
        }
    }
}

impl JobView {
    /// The job for the block after this one, for an oracle that has just processed
    /// this one: a new configuration takes effect, but does not move the oracle.
    pub open spec fn following(self, polled: Polled) -> JobView {
        JobView {
            block: self.block + 1,
            config: match polled {
                Polled::Received(command) => command.config(),
                _ => self.config,
            },
            last_processed_block: Some(self.block),
            codecs: self.codecs,
        }
    }

    /// The first job of an oracle that starts when the given block is published as the
    /// one processed last.
    pub open spec fn first(
        config: Config,
        last_processed_block: Option<nat>,
        codecs: Seq<EventCodec>,
    ) -> JobView {
        JobView { block: config.start_block@, config, last_processed_block, codecs }
    }
}

impl<E> OracleView<E> {
    /// What the oracle is at respects what it works with.
    pub open spec fn wf(self) -> bool {
        match self.stage {
            StageView::Configuring { .. } => true,
            StageView::Processing { job, phase } => job.wf() && phase.wf(job) && !(phase is Done),
            StageView::Waiting { job, .. } => job.wf(),
            StageView::Publishing { job, .. } => job.wf() && job.block + 1 < uint256_limit(),
            StageView::Stopped => true,
        }
    }

    /// Whether the event can come to the oracle at this stage. A configuration asks
    /// for at least one confirmation, the height at which a block has its
    /// confirmations is within the range of heights, and the command channel does not
    /// hang up on a running oracle.
    pub open spec fn accepts(self, event: EventView<E>) -> bool {
        match (self.stage, event) {
            (
                StageView::Configuring { last_processed_block, codecs },
                EventView::Configured(Some(command)),
            ) => JobView::first(command.config(), last_processed_block, codecs).wf(),
            (StageView::Configuring { .. }, EventView::Configured(None)) => true,
            (StageView::Processing { job, phase }, EventView::Processed(reply)) => phase.awaits(
                reply,
            ) && phase.in_range(job, reply),
            (StageView::Processing { job, phase }, EventView::ReceiverHungUp) => true,
            (StageView::Waiting { .. }, EventView::Slept) => true,
            (StageView::Publishing { job, .. }, EventView::Published(polled)) => !(
            polled is Disconnected) && job.following(polled).wf(),
            _ => false,
        }
    }

    /// Whether the oracle tries a block again after the given error.
    pub open spec fn retries(self, error: ErrorView) -> bool {
        error.recoverable() || (self.patient && error is CheckEvents)
    }

    /// The oracle after an event, and the task that it asks for.
    pub open spec fn next(self, event: EventView<E>) -> (OracleView<E>, TaskView<E>) {
        let start = |job: JobView, carried: Seq<PendingEvent<E>>|
            (
                OracleView {
                    stage: StageView::Processing { job, phase: PhaseView::Syncing { carried } },
                    ..self
                },
                TaskView::Process(ActionView::GetSyncStatus),
            );
        let stop = |reason: StopView|
            (OracleView { stage: StageView::Stopped, ..self }, TaskView::Stop(reason));
        match (self.stage, event) {
            (
                StageView::Configuring { last_processed_block, codecs },
                EventView::Configured(Some(command)),
            ) => start(
                JobView::first(command.config(), last_processed_block, codecs),
                Seq::empty(),
            ),
            (StageView::Configuring { .. }, EventView::Configured(None)) => stop(
                StopView::NotConfigured,
            ),
            (StageView::Processing { job, phase }, EventView::Processed(reply)) => match phase.next(
                job,
                reply,
            ) {
                (PhaseView::Done { waiting }, ActionView::Finish(Ok(()))) => (
                    OracleView { stage: StageView::Publishing { job, waiting }, ..self },
                    TaskView::Publish(job.block),
                ),
                (PhaseView::Done { waiting }, ActionView::Finish(Err(error))) => if self.retries(
                    error,
                ) {
                    (
                        OracleView { stage: StageView::Waiting { job, waiting }, ..self },
                        TaskView::Sleep { time: self.backoff, block: job.block, error },
                    )
                } else {
                    stop(StopView::Disconnected { block: job.block, reason: error })
                },
                (phase, action) => (
                    OracleView { stage: StageView::Processing { job, phase }, ..self },
                    TaskView::Process(action),
                ),
            },
            (StageView::Processing { job, phase }, EventView::ReceiverHungUp) => stop(
                StopView::ReceiverHungUp,
            ),
            (StageView::Waiting { job, waiting }, EventView::Slept) => start(job, waiting),
            (StageView::Publishing { job, waiting }, EventView::Published(polled)) => start(
                job.following(polled),
                waiting,
            ),
            _ => arbitrary(),
        }
    }
}

impl<E> Oracle<E> {
    /// Constructs an oracle that looks for all events of the bridge, while the given
    /// block is published as the one processed last. It can not do anything until it
    /// has been sent a configuration.
    pub fn new(
        last_processed_block: Option<Uint256>,
        backoff: Duration,
        ceiling: Duration,
    ) -> (r: Oracle<E>)
        ensures
            r@.backoff == backoff,
            r@.ceiling == ceiling,
            !r@.patient,
            r@.stage matches StageView::Configuring { last_processed_block: last, codecs } && {
                &&& last == number_of(last_processed_block)
                &&& codecs.len() == EVENT_CODECS
                &&& forall|i: int|
                    0 <= i < EVENT_CODECS ==> (#[trigger] codecs[i]).signature@ == codec_signature(i)
                        && codecs[i].kind == EventKind::Bridge
            },
            r@.wf(),
    {
        Oracle::with_codecs(event_codecs(), last_processed_block, backoff, ceiling, false)
    }

    /// Constructs an oracle that looks for the given types of events. A patient
    /// oracle asks a node that cannot be asked for events again after a while, where
    /// another one stops.
    pub fn with_codecs(
        codecs: Vec<EventCodec>,
        last_processed_block: Option<Uint256>,
        backoff: Duration,
        ceiling: Duration,
        patient: bool,
    ) -> (r: Oracle<E>)
        ensures
            r@ == (OracleView {
                backoff,
                ceiling,
                patient,
                stage: StageView::<E>::Configuring {
                    last_processed_block: number_of(last_processed_block),
                    codecs: codecs@,
                },
            }),
            r@.wf(),
    {
        Oracle {
            backoff,
            ceiling,
            patient,
            stage: Stage::Configuring { last_processed_block, codecs },
        }
    }

    /// How long the node may be unresponsive.
    pub fn ceiling(&self) -> (r: Duration)
        ensures
            r == self@.ceiling,
    {
        self.ceiling
    }

    /// How long to wait before a block is tried again.
    pub fn backoff(&self) -> (r: Duration)
        ensures
            r == self@.backoff,
    {
        self.backoff
    }

    /// What a new oracle asks for: its configuration.
    pub fn first_task(&self) -> (r: Task<E>)
        requires
            self@.stage is Configuring,
        ensures
            r@ == TaskView::<E>::AwaitConfiguration,
    {
        Task::AwaitConfiguration
    }

    /// Whether the oracle can take in the event.
    pub fn can_take(&self, event: &Event<E>) -> (r: bool)
        ensures
            r == self@.accepts(event@),
    {
        match (&self.stage, event) {
            (Stage::Configuring { .. }, Event::Configured(Some(Command::UpdateConfig(config)))) => {
                config.min_confirmations > 0
            },
            (Stage::Configuring { .. }, Event::Configured(None)) => true,
            (Stage::Processing { job, phase }, Event::Processed(reply)) => {
                phase.can_take(job, reply)
            },
            (Stage::Processing { .. }, Event::ReceiverHungUp) => true,
            (Stage::Waiting { .. }, Event::Slept) => true,
            (Stage::Publishing { job, .. }, Event::Published(polled)) => match polled {
                Polled::Received(Command::UpdateConfig(config)) => config.min_confirmations > 0,
                Polled::Empty => job.config.min_confirmations > 0,
                Polled::Disconnected => false,
            },
            _ => false,
        }
    }

    fn start(self, job: Job, carried: Vec<PendingEvent<E>>) -> (r: (Oracle<E>, Task<E>))
        requires
            job@.wf(),
        ensures
            r.0@ == (OracleView {
                stage: StageView::Processing {
                    job: job@,
                    phase: PhaseView::Syncing { carried: carried@ },
                },
                ..self@
            }),
            r.1@ == TaskView::<E>::Process(ActionView::GetSyncStatus),
    {
        let (phase, action) = Phase::start(carried);
        (Oracle { stage: Stage::Processing { job, phase }, ..self }, Task::Process(action))
    }

    fn after_error(self, job: Job, waiting: Vec<PendingEvent<E>>, error: Error) -> (r: (
        Oracle<E>,
        Task<E>,
    ))
        ensures
            self@.retries(error@) ==> r.0@ == (OracleView {
                stage: StageView::Waiting { job: job@, waiting: waiting@ },
                ..self@
            }) && r.1@ == (TaskView::<E>::Sleep {
                time: self@.backoff,
                block: job@.block,
                error: error@,
            }),
            !self@.retries(error@) ==> r.0@ == (OracleView { stage: StageView::Stopped, ..self@ })
                && r.1@ == TaskView::<E>::Stop(
                StopView::Disconnected { block: job@.block, reason: error@ },
            ),
    {
        let asked_in_vain = match &error {
            Error::CheckEvents(_, _, _) => true,
            _ => false,
        };
        let block = job.block;
        if error.is_recoverable() || (self.patient && asked_in_vain) {
            let time = self.backoff;
            (
                Oracle { stage: Stage::Waiting { job, waiting }, ..self },
                Task::Sleep { time, block, error },
            )
        } else {
            (
                Oracle { stage: Stage::Stopped, ..self },
                Task::Stop(StopReason::Disconnected { block, reason: error }),
            )
        }
    }

    /// Takes in an event, and says what is to be done next.
    pub fn step(self, event: Event<E>) -> (r: (Oracle<E>, Task<E>))
        requires
            self@.wf(),
            self@.accepts(event@),
        ensures
            (r.0@, r.1@) == self@.next(event@),
            r.0@.wf(),
    {
        let Oracle { backoff, ceiling, patient, stage } = self;
        let idle: Oracle<E> = Oracle { backoff, ceiling, patient, stage: Stage::Stopped };
        match (stage, event) {
            (Stage::Configuring { last_processed_block, codecs }, Event::Configured(received)) => {
                match await_initial_configuration(received) {
                    Some(config) => {
                        let job = Job {
                            block: config.start_block,
                            config,
                            last_processed_block,
                            codecs,
                        };
                        idle.start(job, Vec::new())
                    },
                    None => (idle, Task::Stop(StopReason::NotConfigured)),
                }
            },
            (Stage::Processing { job, phase }, Event::Processed(reply)) => {
                match phase.step(&job, reply) {
                    (Phase::Done { waiting }, Action::Finish(Ok(()))) => {
                        let block = job.block;
                        (
                            Oracle { stage: Stage::Publishing { job, waiting }, ..idle },
                            Task::Publish(block),
                        )
                    },
                    (Phase::Done { waiting }, Action::Finish(Err(error))) => {
                        idle.after_error(job, waiting, error)
                    },
                    (phase, action) => {
                        (
                            Oracle { stage: Stage::Processing { job, phase }, ..idle },
                            Task::Process(action),
                        )
                    },
                }
            },
            (Stage::Processing { .. }, Event::ReceiverHungUp) => {
                (idle, Task::Stop(StopReason::ReceiverHungUp))
            },
            (Stage::Waiting { job, waiting }, Event::Slept) => idle.start(job, waiting),
            (Stage::Publishing { job, waiting }, Event::Published(polled)) => {
                let config = match update_config(polled) {
                    Some(new_config) => new_config,
                    None => job.config,
                };
                let next_block = job.block.plus(&Uint256::from_u64(1));
                let following = Job {
                    block: next_block,
                    config,
                    last_processed_block: Some(job.block),
                    codecs: job.codecs,
                };
                idle.start(following, waiting)
            },
            _ => {
                assert(false);
                vstd::pervasive::unreached()
            },
        }
    }
}

/// The oracle tries a block again when the node has fallen behind or confirmations are
/// missing; a patient one also does when the node cannot be asked for events.
pub proof fn law_errors_that_are_retried<E>(oracle: OracleView<E>, error: ErrorView)
    ensures
        oracle.retries(error) <==> {
            ||| error == ErrorView::FallenBehind
            ||| error == ErrorView::MoreConfirmations
            ||| oracle.patient && error is CheckEvents
        },
{
}

/// A job is followed by one for the next block, with the same types of events, by which
/// its own block counts as processed; only a command changes the configuration. The first
/// job is for the start block.
pub proof fn law_jobs_follow_each_other(
    job: JobView,
    config: Config,
    last: Option<nat>,
    codecs: Seq<EventCodec>,
)
    ensures
        job.following(Polled::Empty) == (JobView {
            block: job.block + 1,
            config: job.config,
            last_processed_block: Some(job.block),
            codecs: job.codecs,
        }),
        job.following(Polled::Received(Command::UpdateConfig(config))) == (JobView {
            block: job.block + 1,
            config,
            last_processed_block: Some(job.block),
            codecs: job.codecs,
        }),
        JobView::first(config, last, codecs) == (JobView {
            block: config.start_block@,
            config,
            last_processed_block: last,
            codecs,
        }),
{
}

/// What the oracle can take in: a first command that asks for confirmations, or the end of
/// the command channel, while it waits for a configuration; a reply in turn, or the end of
/// the receiver, while it checks a block; the end of a wait; and, once a block was
/// published, what the command channel held, which has not hung up and holds no
/// configuration without confirmations.
pub proof fn law_events_in_turn<E>(oracle: OracleView<E>, event: EventView<E>)
    requires
        oracle.wf(),
    ensures
        oracle.accepts(event) <==> match oracle.stage {
            StageView::Configuring { .. } => match event {
                EventView::Configured(Some(Command::UpdateConfig(config))) =>
                    config.min_confirmations != 0,
                EventView::Configured(None) => true,
                _ => false,
            },
            StageView::Processing { job, phase } => match event {
                EventView::Processed(reply) => phase.awaits(reply) && phase.in_range(job, reply),
                EventView::ReceiverHungUp => true,
                _ => false,
            },
            StageView::Waiting { .. } => event is Slept,
            StageView::Publishing { .. } => match event {
                EventView::Published(Polled::Received(Command::UpdateConfig(config))) =>
                    config.min_confirmations != 0,
                EventView::Published(Polled::Empty) => true,
                _ => false,
            },
            StageView::Stopped => false,
        },
{
}

/// A stage holds what it was made from.
pub proof fn law_stage_holds<E>(stage: Stage<E>)
    ensures
        match stage {
            Stage::Configuring { last_processed_block, codecs } => {
                &&& stage@ matches StageView::Configuring { last_processed_block: last, codecs: held }
                &&& last is None <==> last_processed_block is None
                &&& last_processed_block matches Some(block) ==> last == Some(block@)
                &&& held == codecs@
            },
            Stage::Processing { job, phase } => stage@ == (StageView::Processing {
                job: job@,
                phase: phase@,
            }),
            Stage::Waiting { job, waiting } => stage@ == (StageView::Waiting {
                job: job@,
                waiting: waiting@,
            }),
            Stage::Publishing { job, waiting } => stage@ == (StageView::Publishing {
                job: job@,
                waiting: waiting@,
            }),
            Stage::Stopped => stage@ is Stopped,
        },
{
}

/// A task holds what it was made from.
pub proof fn law_task_holds<E>(task: Task<E>)
    ensures
        match task {
            Task::AwaitConfiguration => task@ is AwaitConfiguration,
            Task::Process(action) => task@ == TaskView::Process(action@),
            Task::Sleep { time, block, error } => task@ == (TaskView::<E>::Sleep {
                time,
                block: block@,
                error: error@,
            }),
            Task::Publish(block) => task@ == TaskView::<E>::Publish(block@),
            Task::Stop(StopReason::NotConfigured) => task@ == TaskView::<E>::Stop(
                StopView::NotConfigured,
            ),
            Task::Stop(StopReason::ReceiverHungUp) => task@ == TaskView::<E>::Stop(
                StopView::ReceiverHungUp,
            ),
            Task::Stop(StopReason::Disconnected { block, reason }) => task@ == TaskView::<E>::Stop(
                StopView::Disconnected { block: block@, reason: reason@ },
            ),
        },
{
}

/// An event holds what it was made from.
pub proof fn law_event_holds<E>(event: Event<E>)
    ensures
        match event {
            Event::Configured(command) => event@ == EventView::<E>::Configured(command),
            Event::Processed(reply) => event@ == EventView::Processed(reply@),
            Event::ReceiverHungUp => event@ is ReceiverHungUp,
            Event::Slept => event@ is Slept,
            Event::Published(polled) => event@ == EventView::<E>::Published(polled),
        },
{
}

/// A block that may be missing stands for its number, if it is there.
pub proof fn law_number_of(block: Uint256)
    ensures
        number_of(Some(block)) == Some(block@),
        number_of(None) is None,
{
}

} // verus!
