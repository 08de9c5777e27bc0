//! How one Ethereum block is checked for events of the bridge.
//!
//! The check alternates with work that is done elsewhere: the node is asked for
//! its height and for logs, logs are decoded, events are sent on. Each such piece
//! of work is an [`Action`]; its outcome comes back as a [`Reply`].

use vstd::prelude::*;

use super::config::Config;
use super::error::{Error, ErrorView};
use super::events::{
    confirmed_events, law_queues_joined, process_queue, unconfirmed, PendingEvent,
};
use crate::ethereum::{EthAddress, EventCodec, EventKind, Log, LogView, RawLog};
use crate::uint256::{lemma_uint256_bound, uint256_limit, Uint256};

verus! {

/// How far the Ethereum node is.
#[derive(Clone, Copy, Debug)]
pub enum SyncStatus {
    /// The node is still catching up with the chain.
    Syncing,
    /// The node has the chain up to the given height.
    AtHeight(Uint256),
}

/// The block to check, and all that stays fixed while it is checked.
pub struct Job {
    /// The block to check.
    pub block: Uint256,
    /// The configuration of the oracle.
    pub config: Config,
    /// The block that was processed last.
    pub last_processed_block: Option<Uint256>,
    /// The types of events to look for.
    pub codecs: Vec<EventCodec>,
}

/// How far the check of a block has come: the outside work that it waits for.
///
/// An event is sent once the chain has the confirmations that the event asks for. Until
/// then it waits: in `pending` while the block that it was found in is checked, and in
/// `carried` while a block after that one is checked. What still waits when the check is
/// over is handed on, to the check of the next block.
pub enum Phase<E> {
    /// The node is asked how far it is.
    Syncing { carried: Vec<PendingEvent<E>> },
    /// The node is asked for the logs of the event type `codec`.
    Checking {
        latest: Uint256,
        codec: usize,
        carried: Vec<PendingEvent<E>>,
        pending: Vec<PendingEvent<E>>,
    },
    /// The logs of the event type `codec` are decoded.
    Decoding {
        latest: Uint256,
        codec: usize,
        carried: Vec<PendingEvent<E>>,
        pending: Vec<PendingEvent<E>>,
    },
    /// `confirmed` is about to be sent, if the receiver is still there.
    Opening {
        latest: Uint256,
        codec: usize,
        carried: Vec<PendingEvent<E>>,
        pending: Vec<PendingEvent<E>>,
        confirmed: Vec<E>,
    },
    /// An event is being sent; `unsent` come after it.
    Sending {
        latest: Uint256,
        codec: usize,
        carried: Vec<PendingEvent<E>>,
        pending: Vec<PendingEvent<E>>,
        unsent: Vec<E>,
    },
    /// The check is over; `waiting` are the events to hand on. Where the check failed,
    /// these are only events of blocks before, since the block will be checked again.
    Done { waiting: Vec<PendingEvent<E>> },
}

/// Outside work that the check of a block asks for.
pub enum Action<E> {
    /// Ask the node how far it is.
    GetSyncStatus,
    /// Ask the node for the logs of one contract that carry one signature, from one
    /// block to another.
    CheckForEvents {
        from_block: Uint256,
        to_block: Uint256,
        address: EthAddress,
        signature: String,
    },
    /// Decode logs, found in a block, as events of the type `codec`, each of which
    /// waits for at least `confirmations` blocks.
    Decode { codec: usize, block_height: Uint256, logs: Vec<RawLog>, confirmations: Uint256 },
    /// See whether the receiver of events has hung up.
    CheckReceiver,
    /// Send an event on.
    Send(E),
    /// Nothing more is to be done: this is how the check ended.
    Finish(Result<(), Error>),
}

/// What came of an action.
pub enum Reply<E> {
    /// How far the node is; `None` where it did not answer in time.
    SyncStatus(Option<SyncStatus>),
    /// The logs that were found, or what the endpoint said.
    Logs(Result<Vec<Log>, String>),
    /// An event for each log that could be decoded, `None` for any other.
    Decoded(Vec<Option<PendingEvent<E>>>),
    /// Whether the receiver of events has hung up.
    ReceiverClosed(bool),
    /// Whether the event was sent.
    Sent(bool),
}

/// What a job holds.
pub struct JobView {
    pub block: nat,
    pub config: Config,
    pub last_processed_block: Option<nat>,
    pub codecs: Seq<EventCodec>,
}

impl View for Job {
    type V = JobView;

    open spec fn view(&self) -> JobView {
        JobView {
            block: self.block@,
            config: self.config,
            last_processed_block: match self.last_processed_block {
                Some(last) => Some(last@),
                None => None,
            },
            codecs: self.codecs@,
        }
    }
}

/// What a phase holds.
pub enum PhaseView<E> {
    Syncing { carried: Seq<PendingEvent<E>> },
    Checking {
        latest: nat,
        codec: int,
        carried: Seq<PendingEvent<E>>,
        pending: Seq<PendingEvent<E>>,
    },
    Decoding {
        latest: nat,
        codec: int,
        carried: Seq<PendingEvent<E>>,
        pending: Seq<PendingEvent<E>>,
    },
    Opening {
        latest: nat,
        codec: int,
        carried: Seq<PendingEvent<E>>,
        pending: Seq<PendingEvent<E>>,
        confirmed: Seq<E>,
    },
    Sending {
        latest: nat,
        codec: int,
        carried: Seq<PendingEvent<E>>,
        pending: Seq<PendingEvent<E>>,
        unsent: Seq<E>,
    },
    Done { waiting: Seq<PendingEvent<E>> },
}

/// What an action holds.
pub enum ActionView<E> {
    GetSyncStatus,
    CheckForEvents {
        from_block: nat,
        to_block: nat,
        address: EthAddress,
        signature: Seq<char>,
    },
    Decode { codec: int, block_height: nat, logs: Seq<LogView>, confirmations: nat },
    CheckReceiver,
    Send(E),
    Finish(Result<(), ErrorView>),
}

/// What a reply holds.
pub enum ReplyView<E> {
    SyncStatus(Option<SyncStatus>),
    Logs(Result<Seq<LogView>, Seq<char>>),
    Decoded(Seq<Option<PendingEvent<E>>>),
    ReceiverClosed(bool),
    Sent(bool),
}

impl<E> View for Phase<E> {
    type V = PhaseView<E>;

    open spec fn view(&self) -> PhaseView<E> {
        match self {
            Phase::Syncing { carried } => PhaseView::Syncing { carried: carried@ },
            Phase::Checking { latest, codec, carried, pending } => PhaseView::Checking {
                latest: latest@,
                codec: *codec as int,
                carried: carried@,
                pending: pending@,
            },
            Phase::Decoding { latest, codec, carried, pending } => PhaseView::Decoding {
                latest: latest@,
                codec: *codec as int,
                carried: carried@,
                pending: pending@,
            },
            Phase::Opening { latest, codec, carried, pending, confirmed } => PhaseView::Opening {
                latest: latest@,
                codec: *codec as int,
                carried: carried@,
                pending: pending@,
                confirmed: confirmed@,
            },
            Phase::Sending { latest, codec, carried, pending, unsent } => PhaseView::Sending {
                latest: latest@,
                codec: *codec as int,
                carried: carried@,
                pending: pending@,
                unsent: unsent@,
            },
            Phase::Done { waiting } => PhaseView::Done { waiting: waiting@ },
        }
    }
}

impl<E> View for Action<E> {
    type V = ActionView<E>;

    open spec fn view(&self) -> ActionView<E> {
        match self {
            Action::GetSyncStatus => ActionView::GetSyncStatus,
            Action::CheckForEvents { from_block, to_block, address, signature } =>
                ActionView::CheckForEvents {
                from_block: from_block@,
                to_block: to_block@,
                address: *address,
                signature: signature@,
            },
            Action::Decode { codec, block_height, logs, confirmations } => ActionView::Decode {
                codec: *codec as int,
                block_height: block_height@,
                logs: logs@.map_values(|l: RawLog| l@),
                confirmations: confirmations@,
            },
            Action::CheckReceiver => ActionView::CheckReceiver,
            Action::Send(event) => ActionView::Send(*event),
            Action::Finish(Ok(())) => ActionView::Finish(Ok(())),
            Action::Finish(Err(error)) => ActionView::Finish(Err(error@)),
        }
    }
}

impl<E> View for Reply<E> {
    type V = ReplyView<E>;

    open spec fn view(&self) -> ReplyView<E> {
        match self {
            Reply::SyncStatus(status) => ReplyView::SyncStatus(*status),
            Reply::Logs(Ok(logs)) => ReplyView::Logs(Ok(logs@.map_values(|l: Log| l@))),
            Reply::Logs(Err(reason)) => ReplyView::Logs(Err(reason@)),
            Reply::Decoded(events) => ReplyView::Decoded(events@),
            Reply::ReceiverClosed(closed) => ReplyView::ReceiverClosed(*closed),
            Reply::Sent(sent) => ReplyView::Sent(*sent),
        }
    }
}

/// How far a node is, from its own word on whether it is catching up and from its
/// block height. It may deny inaccurately that it is catching up: then its height is 0.
pub fn sync_status(says_syncing: bool, height: Uint256) -> (r: SyncStatus)
    ensures
        r == (if says_syncing || height@ == 0 {
            SyncStatus::Syncing
        } else {
            SyncStatus::AtHeight(height)
        }),
{
    if says_syncing || height.at_most(&Uint256::from_u64(0)) {
        SyncStatus::Syncing
    } else {
        SyncStatus::AtHeight(height)
    }
}

/// How far the node is, for an oracle that has processed `last_processed_block`:
/// a node that has no block after that one has fallen behind.
pub open spec fn sync_outcome(
    answer: Option<SyncStatus>,
    last_processed_block: Option<nat>,
) -> Result<SyncStatus, ErrorView> {
    match (answer, last_processed_block) {
        (None, _) => Err(ErrorView::Timeout),
        (Some(SyncStatus::AtHeight(height)), Some(last)) if height@ <= last => Err(
            ErrorView::FallenBehind,
        ),
        (Some(status), _) => Ok(status),
    }
}

/// Checks what the node answered when it was asked how far it is (`None` where it
/// did not answer in time), against the block that was processed last.
pub fn syncing(answer: Option<SyncStatus>, last_processed_block: &Option<Uint256>) -> (r: Result<
    SyncStatus,
    Error,
>)
    ensures
        match sync_outcome(
            answer,
            match *last_processed_block {
                Some(last) => Some(last@),
                None => None,
            },
        ) {
            Ok(status) => r == Ok::<SyncStatus, Error>(status),
            Err(error) => r is Err && r->Err_0@ == error,
        },
        match answer {
            None => r matches Err(error) && error@ == ErrorView::Timeout,
            Some(SyncStatus::Syncing) => r == Ok::<SyncStatus, Error>(SyncStatus::Syncing),
            Some(SyncStatus::AtHeight(height)) => if *last_processed_block is Some && height@
                <= last_processed_block->0@ {
                r matches Err(error) && error@ == ErrorView::FallenBehind
            } else {
                r == Ok::<SyncStatus, Error>(SyncStatus::AtHeight(height))
            },
        },
{
    match answer {
        None => Err(Error::Timeout),
        Some(SyncStatus::Syncing) => Ok(SyncStatus::Syncing),
        Some(SyncStatus::AtHeight(height)) => {
            match last_processed_block {
                Some(last) => {
                    if height.at_most(last) {
                        Err(Error::FallenBehind)
                    } else {
                        Ok(SyncStatus::AtHeight(height))
                    }
                },
                None => Ok(SyncStatus::AtHeight(height)),
            }
        },
    }
}

impl JobView {
    /// The lowest height of the chain at which the block has its confirmations.
    pub open spec fn minimum_latest_block(self) -> nat {
        self.block + self.config.min_confirmations as nat
    }

    /// At least one confirmation is asked for.
    pub open spec fn wf(self) -> bool {
        self.config.wf()
    }

    /// The block has its confirmations at the height `latest`, and `codec` is one of
    /// the event types.
    pub open spec fn ready_for(self, latest: nat, codec: int) -> bool {
        &&& 0 <= codec < self.codecs.len()
        &&& self.minimum_latest_block() <= latest < uint256_limit()
    }

    /// The contract that emits events of the type `codec`.
    pub open spec fn address(self, codec: int) -> EthAddress {
        self.config.contract(self.codecs[codec].kind)
    }

    /// The signature of events of the type `codec`.
    pub open spec fn signature(self, codec: int) -> Seq<char> {
        self.codecs[codec].signature@
    }
}

/// The events among the outcomes of decoding, in their order.
pub open spec fn decoded_events<E>(outcomes: Seq<Option<PendingEvent<E>>>) -> Seq<PendingEvent<E>> {
    outcomes.filter(|o: Option<PendingEvent<E>>| o is Some).map_values(
        |o: Option<PendingEvent<E>>| o->0,
    )
}

impl<E> PhaseView<E> {
    /// The check ends with the given outcome, and hands on what waits.
    pub open spec fn finish(
        outcome: Result<(), ErrorView>,
        waiting: Seq<PendingEvent<E>>,
    ) -> (PhaseView<E>, ActionView<E>) {
        (PhaseView::Done { waiting }, ActionView::Finish(outcome))
    }

    /// The check goes on with the event type `codec`, or ends after the last one.
    pub open spec fn check_codec(
        job: JobView,
        latest: nat,
        codec: int,
        carried: Seq<PendingEvent<E>>,
        pending: Seq<PendingEvent<E>>,
    ) -> (PhaseView<E>, ActionView<E>) {
        if codec < job.codecs.len() {
            (
                PhaseView::Checking { latest, codec, carried, pending },
                ActionView::CheckForEvents {
                    from_block: job.block,
                    to_block: job.block,
                    address: job.address(codec),
                    signature: job.signature(codec),
                },
            )
        } else {
            PhaseView::finish(Ok(()), carried + pending)
        }
    }

    /// The next of the events in `unsent` is sent; where there is none, the check
    /// goes on with the next event type.
    pub open spec fn send_next(
        job: JobView,
        latest: nat,
        codec: int,
        carried: Seq<PendingEvent<E>>,
        pending: Seq<PendingEvent<E>>,
        unsent: Seq<E>,
    ) -> (PhaseView<E>, ActionView<E>) {
        if unsent.len() > 0 {
            (
                PhaseView::Sending { latest, codec, carried, pending, unsent: unsent.drop_first() },
                ActionView::Send(unsent.first()),
            )
        } else {
            PhaseView::check_codec(job, latest, codec + 1, carried, pending)
        }
    }

    /// Whether the reply is one to the work that the phase waits for.
    pub open spec fn awaits(self, reply: ReplyView<E>) -> bool {
        match self {
            PhaseView::Syncing { .. } => reply is SyncStatus,
            PhaseView::Checking { .. } => reply is Logs,
            PhaseView::Decoding { .. } => reply is Decoded,
            PhaseView::Opening { .. } => reply is ReceiverClosed,
            PhaseView::Sending { .. } => reply is Sent,
            PhaseView::Done { .. } => false,
        }
    }

    /// The height at which the block has its confirmations is within the range of
    /// heights, where the reply has it worked out.
    pub open spec fn in_range(self, job: JobView, reply: ReplyView<E>) -> bool {
        match (self, reply) {
            (PhaseView::Syncing { .. }, ReplyView::SyncStatus(answer)) => sync_outcome(
                answer,
                job.last_processed_block,
            ) matches Ok(SyncStatus::AtHeight(_)) ==> job.minimum_latest_block()
                < uint256_limit(),
            _ => true,
        }
    }

    /// The phase belongs to the job: the event type that it is at exists, and the
    /// block has its confirmations at the height that the node gave.
    pub open spec fn wf(self, job: JobView) -> bool {
        match self {
            PhaseView::Syncing { .. } => true,
            PhaseView::Checking { latest, codec, .. } => job.ready_for(latest, codec),
            PhaseView::Decoding { latest, codec, .. } => job.ready_for(latest, codec),
            PhaseView::Opening { latest, codec, .. } => job.ready_for(latest, codec),
            PhaseView::Sending { latest, codec, .. } => job.ready_for(latest, codec),
            PhaseView::Done { .. } => true,
        }
    }

    /// The phase after a reply, and the action that it asks for.
    pub open spec fn next(self, job: JobView, reply: ReplyView<E>) -> (PhaseView<E>, ActionView<E>) {
        match (self, reply) {
            (PhaseView::Syncing { carried }, ReplyView::SyncStatus(answer)) => match sync_outcome(
                answer,
                job.last_processed_block,
            ) {
                Err(error) => PhaseView::finish(Err(error), carried),
                Ok(SyncStatus::Syncing) => PhaseView::finish(Err(ErrorView::FallenBehind), carried),
                Ok(SyncStatus::AtHeight(latest)) => if job.minimum_latest_block() > latest@ {
                    PhaseView::finish(Err(ErrorView::MoreConfirmations), carried)
                } else {
                    PhaseView::check_codec(job, latest@, 0, carried, Seq::empty())
                },
            },
            (
                PhaseView::Checking { latest, codec, carried, pending },
                ReplyView::Logs(Err(reason)),
            ) => PhaseView::finish(
                Err(ErrorView::CheckEvents(job.signature(codec), job.address(codec), reason)),
                carried,
            ),
            (
                PhaseView::Checking { latest, codec, carried, pending },
                ReplyView::Logs(Ok(logs)),
            ) => (
                PhaseView::Decoding { latest, codec, carried, pending },
                ActionView::Decode {
                    codec,
                    block_height: job.block,
                    logs: logs.map_values(|l: LogView| l.hashes_only()),
                    confirmations: job.config.min_confirmations as nat,
                },
            ),
            (
                PhaseView::Decoding { latest, codec, carried, pending },
                ReplyView::Decoded(outcomes),
            ) => {
                let queue = pending + decoded_events(outcomes);
                (
                    PhaseView::Opening {
                        latest,
                        codec,
                        carried: unconfirmed(carried, latest),
                        pending: unconfirmed(queue, latest),
                        confirmed: confirmed_events(carried + queue, latest),
                    },
                    ActionView::CheckReceiver,
                )
            },
            (
                PhaseView::Opening { latest, codec, carried, pending, confirmed },
                ReplyView::ReceiverClosed(closed),
            ) => if closed {
                PhaseView::finish(
                    Err(ErrorView::Channel(job.signature(codec), job.address(codec))),
                    carried,
                )
            } else {
                PhaseView::send_next(job, latest, codec, carried, pending, confirmed)
            },
            (
                PhaseView::Sending { latest, codec, carried, pending, unsent },
                ReplyView::Sent(sent),
            ) => if sent {
                PhaseView::send_next(job, latest, codec, carried, pending, unsent)
            } else {
                PhaseView::finish(
                    Err(ErrorView::Channel(job.signature(codec), job.address(codec))),
                    carried,
                )
            },
            _ => arbitrary(),
        }
    }
}

/// Converts the logs of a node to logs that can be decoded.
fn raw_logs(logs: Vec<Log>) -> (r: Vec<RawLog>)
    ensures
        r@.map_values(|l: RawLog| l@) == logs@.map_values(|l: Log| l@).map_values(
            |l: LogView| l.hashes_only(),
        ),
{
    let ghost given = logs@;
    let mut raw: Vec<RawLog> = Vec::new();
    for log in iter: logs
        invariant
            iter.seq() == given,
            raw@.len() == iter.index(),
            forall|i: int| 0 <= i < raw@.len() ==> (#[trigger] raw@[i])@ == given[i]@.hashes_only(),
    {
        raw.push(log.into_ethabi());
    }
    raw
}

/// Appends the events among the outcomes of decoding to the queue.
fn append_decoded<E>(pending: &mut Vec<PendingEvent<E>>, outcomes: Vec<Option<PendingEvent<E>>>)
    ensures
        final(pending)@ == old(pending)@ + decoded_events(outcomes@),
{
    let ghost given = outcomes@;
    let ghost is_event = |o: Option<PendingEvent<E>>| o is Some;
    let ghost event_of = |o: Option<PendingEvent<E>>| o->0;
    proof {
        reveal(Seq::filter);
        assert(given.take(0).len() == 0);
        assert(given.take(given.len() as int) == given);
    }
    for outcome in iter: outcomes
        invariant
            iter.seq() == given,
            is_event == (|o: Option<PendingEvent<E>>| o is Some),
            event_of == (|o: Option<PendingEvent<E>>| o->0),
            pending@ == old(pending)@ + decoded_events(given.take(iter.index())),
    {
        proof {
            let n = iter.index();
            reveal(Seq::filter);
            assert(given.take(n + 1).drop_last() == given.take(n));
            let kept = given.take(n).filter(is_event);
            assert(kept.push(given[n]).map_values(event_of) == kept.map_values(event_of).push(
                given[n]->0,
            ));
        }
        match outcome {
            Some(event) => {
                pending.push(event);
            },
            None => {},
        }
    }
}

impl<E> Phase<E> {
    /// Starts the check of a block, with the events that wait since the blocks before:
    /// the node is asked how far it is.
    pub fn start(carried: Vec<PendingEvent<E>>) -> (r: (Phase<E>, Action<E>))
        ensures
            r.0@ == (PhaseView::<E>::Syncing { carried: carried@ }),
            r.1@ == ActionView::<E>::GetSyncStatus,
    {
        (Phase::Syncing { carried }, Action::GetSyncStatus)
    }

    fn check_codec(
        job: &Job,
        latest: Uint256,
        codec: usize,
        carried: Vec<PendingEvent<E>>,
        pending: Vec<PendingEvent<E>>,
    ) -> (r: (Phase<E>, Action<E>))
        ensures
            (r.0@, r.1@) == PhaseView::check_codec(
                job@,
                latest@,
                codec as int,
                carried@,
                pending@,
            ),
    {
        if codec < job.codecs.len() {
            let address = job.config.contract_address(job.codecs[codec].kind);
            let signature = job.codecs[codec].signature.clone();
            (
                Phase::Checking { latest, codec, carried, pending },
                Action::CheckForEvents {
                    from_block: job.block,
                    to_block: job.block,
                    address,
                    signature,
                },
            )
        } else {
            let mut waiting = carried;
            let mut pending = pending;
            waiting.append(&mut pending);
            (Phase::Done { waiting }, Action::Finish(Ok(())))
        }
    }

    fn send_next(
        job: &Job,
        latest: Uint256,
        codec: usize,
        carried: Vec<PendingEvent<E>>,
        pending: Vec<PendingEvent<E>>,
        unsent: Vec<E>,
    ) -> (r: (Phase<E>, Action<E>))
        requires
            codec < job.codecs@.len(),
        ensures
            (r.0@, r.1@) == PhaseView::send_next(
                job@,
                latest@,
                codec as int,
                carried@,
                pending@,
                unsent@,
            ),
    {
        if unsent.len() > 0 {
            let mut unsent = unsent;
            let event = unsent.remove(0);
            (Phase::Sending { latest, codec, carried, pending, unsent }, Action::Send(event))
        } else {
            assert(codec < job.codecs.len());
            Phase::check_codec(job, latest, codec + 1, carried, pending)
        }
    }

    fn receiver_gone(job: &Job, codec: usize, carried: Vec<PendingEvent<E>>) -> (r: (
        Phase<E>,
        Action<E>,
    ))
        requires
            codec < job.codecs@.len(),
        ensures
            (r.0@, r.1@) == PhaseView::<E>::finish(
                Err(
                    ErrorView::Channel(job@.signature(codec as int), job@.address(codec as int)),
                ),
                carried@,
            ),
    {
        let address = job.config.contract_address(job.codecs[codec].kind);
        let signature = job.codecs[codec].signature.clone();
        (Phase::Done { waiting: carried }, Action::Finish(Err(Error::Channel(signature, address))))
    }

    fn start_checks(
        job: &Job,
        carried: Vec<PendingEvent<E>>,
        answer: Option<SyncStatus>,
    ) -> (r: (Phase<E>, Action<E>))
        requires
            (PhaseView::Syncing { carried: carried@ }).in_range(
                job@,
                ReplyView::SyncStatus(answer),
            ),
        ensures
            (r.0@, r.1@) == (PhaseView::Syncing { carried: carried@ }).next(
                job@,
                ReplyView::SyncStatus(answer),
            ),
            r.0@.wf(job@),
            r.1@ == ActionView::<E>::Finish(Ok(())) ==> job@.minimum_latest_block()
                < uint256_limit(),
    {
        let latest = match syncing(answer, &job.last_processed_block) {
            Err(error) => {
                return (Phase::Done { waiting: carried }, Action::Finish(Err(error)));
            },
            Ok(SyncStatus::Syncing) => {
                return (Phase::Done { waiting: carried }, Action::Finish(Err(Error::FallenBehind)));
            },
            Ok(SyncStatus::AtHeight(height)) => height,
        };
        let minimum_latest_block = job.block.plus(
            &Uint256::from_u64(job.config.min_confirmations),
        );
        if !minimum_latest_block.at_most(&latest) {
            return (Phase::Done { waiting: carried }, Action::Finish(Err(Error::MoreConfirmations)));
        }
        proof {
            lemma_uint256_bound(latest);
        }
        let pending: Vec<PendingEvent<E>> = Vec::new();
        Phase::check_codec(job, latest, 0, carried, pending)
    }

    /// Whether the check can go on with the given reply: it is one to the work that the
    /// check waits for, and heights stay within their range.
    pub fn can_take(&self, job: &Job, reply: &Reply<E>) -> (r: bool)
        ensures
            r == (self@.awaits(reply@) && self@.in_range(job@, reply@)),
    {
        match (self, reply) {
            (Phase::Syncing { .. }, Reply::SyncStatus(answer)) => {
                match syncing(*answer, &job.last_processed_block) {
                    Ok(SyncStatus::AtHeight(_)) => job.block.can_add(
                        &Uint256::from_u64(job.config.min_confirmations),
                    ),
                    _ => true,
                }
            },
            (Phase::Checking { .. }, Reply::Logs(_)) => true,
            (Phase::Decoding { .. }, Reply::Decoded(_)) => true,
            (Phase::Opening { .. }, Reply::ReceiverClosed(_)) => true,
            (Phase::Sending { .. }, Reply::Sent(_)) => true,
            _ => false,
        }
    }

    /// Goes on with the check of a block when the outside work that it waited for
    /// is done.
    pub fn step(self, job: &Job, reply: Reply<E>) -> (r: (Phase<E>, Action<E>))
        requires
            self@.wf(job@),
            self@.awaits(reply@),
            self@.in_range(job@, reply@),
        ensures
            (r.0@, r.1@) == self@.next(job@, reply@),
            r.0@.wf(job@),
            r.1@ == ActionView::<E>::Finish(Ok(())) ==> job@.minimum_latest_block()
                < uint256_limit(),
    {
        match (self, reply) {
            (Phase::Syncing { carried }, Reply::SyncStatus(answer)) => {
                Phase::start_checks(job, carried, answer)
            },
            (Phase::Checking { latest, codec, carried, pending }, Reply::Logs(Ok(logs))) => {
                (
                    Phase::Decoding { latest, codec, carried, pending },
                    Action::Decode {
                        codec,
                        block_height: job.block,
                        logs: raw_logs(logs),
                        confirmations: Uint256::from_u64(job.config.min_confirmations),
                    },
                )
            },
            (Phase::Checking { latest, codec, carried, pending }, Reply::Logs(Err(reason))) => {
                let address = job.config.contract_address(job.codecs[codec].kind);
                let signature = job.codecs[codec].signature.clone();
                (
                    Phase::Done { waiting: carried },
                    Action::Finish(Err(Error::CheckEvents(signature, address, reason))),
                )
            },
            (Phase::Decoding { latest, codec, carried, pending }, Reply::Decoded(outcomes)) => {
                let mut carried = carried;
                let mut pending = pending;
                append_decoded(&mut pending, outcomes);
                proof {
                    law_queues_joined(carried@, pending@, latest@);
                }
                let mut confirmed = process_queue(&latest, &mut carried);
                confirmed.append(&mut process_queue(&latest, &mut pending));
                (Phase::Opening { latest, codec, carried, pending, confirmed }, Action::CheckReceiver)
            },
            (
                Phase::Opening { latest, codec, carried, pending, confirmed },
                Reply::ReceiverClosed(closed),
            ) => {
                if closed {
                    Phase::receiver_gone(job, codec, carried)
                } else {
                    Phase::send_next(job, latest, codec, carried, pending, confirmed)
                }
            },
            (Phase::Sending { latest, codec, carried, pending, unsent }, Reply::Sent(sent)) => {
                if sent {
                    Phase::send_next(job, latest, codec, carried, pending, unsent)
                } else {
                    Phase::receiver_gone(job, codec, carried)
                }
            },
            _ => {
                assert(false);
                vstd::pervasive::unreached()
            },
        }
    }
}

/// What the node answers counts as it is, unless it did not answer in time or has no block
/// after the one that was processed last.
pub proof fn law_answer_of_the_node(height: Uint256, last: nat)
    ensures
        sync_outcome(None, None) == Err::<SyncStatus, ErrorView>(ErrorView::Timeout),
        sync_outcome(None, Some(last)) == Err::<SyncStatus, ErrorView>(ErrorView::Timeout),
        sync_outcome(Some(SyncStatus::Syncing), None) == Ok::<SyncStatus, ErrorView>(
            SyncStatus::Syncing,
        ),
        sync_outcome(Some(SyncStatus::Syncing), Some(last)) == Ok::<SyncStatus, ErrorView>(
            SyncStatus::Syncing,
        ),
        sync_outcome(Some(SyncStatus::AtHeight(height)), None) == Ok::<SyncStatus, ErrorView>(
            SyncStatus::AtHeight(height),
        ),
        last < height@ ==> sync_outcome(Some(SyncStatus::AtHeight(height)), Some(last)) == Ok::<
            SyncStatus,
            ErrorView,
        >(SyncStatus::AtHeight(height)),
        height@ <= last ==> sync_outcome(Some(SyncStatus::AtHeight(height)), Some(last)) == Err::<
            SyncStatus,
            ErrorView,
        >(ErrorView::FallenBehind),
{
}

/// A job asks for its block to stand under as many blocks as its configuration says, and
/// finds the signature and the contract of a type of event in its list.
pub proof fn law_job_asks_for(job: JobView, codec: int)
    ensures
        job.minimum_latest_block() == job.block + job.config.min_confirmations,
        job.wf() <==> job.config.min_confirmations != 0,
        job.signature(codec) == job.codecs[codec].signature@,
        job.codecs[codec].kind == EventKind::Bridge ==> job.address(codec)
            == job.config.bridge_contract,
        job.codecs[codec].kind == EventKind::Governance ==> job.address(codec)
            == job.config.governance_contract,
{
}

/// A job holds what it was made from.
pub proof fn law_job_holds(job: Job)
    ensures
        job@.block == job.block@,
        job@.config == job.config,
        job.last_processed_block is None <==> job@.last_processed_block is None,
        job.last_processed_block matches Some(last) ==> job@.last_processed_block == Some(last@),
        job@.codecs == job.codecs@,
{
}

/// A phase holds what it was made from.
pub proof fn law_phase_holds<E>(phase: Phase<E>)
    ensures
        match phase {
            Phase::Syncing { carried } => phase@ == (PhaseView::Syncing { carried: carried@ }),
            Phase::Checking { latest, codec, carried, pending } => phase@ == (PhaseView::Checking {
                latest: latest@,
                codec: codec as int,
                carried: carried@,
                pending: pending@,
            }),
            Phase::Decoding { latest, codec, carried, pending } => phase@ == (PhaseView::Decoding {
                latest: latest@,
                codec: codec as int,
                carried: carried@,
                pending: pending@,
            }),
            Phase::Opening { latest, codec, carried, pending, confirmed } => phase@ == (
            PhaseView::Opening {
                latest: latest@,
                codec: codec as int,
                carried: carried@,
                pending: pending@,
                confirmed: confirmed@,
            }),
            Phase::Sending { latest, codec, carried, pending, unsent } => phase@ == (
            PhaseView::Sending {
                latest: latest@,
                codec: codec as int,
                carried: carried@,
                pending: pending@,
                unsent: unsent@,
            }),
            Phase::Done { waiting } => phase@ == (PhaseView::Done { waiting: waiting@ }),
        },
{
}

/// An action holds what it was made from.
pub proof fn law_action_holds<E>(action: Action<E>)
    ensures
        match action {
            Action::GetSyncStatus => action@ is GetSyncStatus,
            Action::CheckForEvents { from_block, to_block, address, signature } => action@ == (
            ActionView::<E>::CheckForEvents {
                from_block: from_block@,
                to_block: to_block@,
                address,
                signature: signature@,
            }),
            Action::Decode { codec, block_height, logs, confirmations } => {
                &&& action@ matches ActionView::Decode {
                    codec: named,
                    block_height: block,
                    logs: held,
                    confirmations: asked_for,
                }
                &&& named == codec
                &&& block == block_height@
                &&& asked_for == confirmations@
                &&& held.len() == logs@.len()
                &&& forall|i: int| 0 <= i < logs@.len() ==> #[trigger] held[i] == logs@[i]@
            },
            Action::CheckReceiver => action@ is CheckReceiver,
            Action::Send(event) => action@ == ActionView::Send(event),
            Action::Finish(Ok(())) => action@ == ActionView::<E>::Finish(Ok(())),
            Action::Finish(Err(error)) => action@ == ActionView::<E>::Finish(Err(error@)),
        },
{
}

/// A reply holds what it was made from.
pub proof fn law_reply_holds<E>(reply: Reply<E>)
    ensures
        match reply {
            Reply::SyncStatus(status) => reply@ == ReplyView::<E>::SyncStatus(status),
            Reply::Logs(Ok(logs)) => {
                &&& reply@ matches ReplyView::Logs(Ok(held))
                &&& held.len() == logs@.len()
                &&& forall|i: int| 0 <= i < logs@.len() ==> #[trigger] held[i] == logs@[i]@
            },
            Reply::Logs(Err(reason)) => reply@ == ReplyView::<E>::Logs(Err(reason@)),
            Reply::Decoded(outcomes) => reply@ == ReplyView::Decoded(outcomes@),
            Reply::ReceiverClosed(closed) => reply@ == ReplyView::<E>::ReceiverClosed(closed),
            Reply::Sent(sent) => reply@ == ReplyView::<E>::Sent(sent),
        },
{
}

} // verus!
