//! What holds of a whole run of the oracle, whatever the outside work brings.

use vstd::prelude::*;

use super::config::{Command, Config, Polled};
use super::error::ErrorView;
use super::events::{
    confirmed_events, events_of, law_left_unconfirmed, law_queue_is_split, unconfirmed,
    PendingEvent,
};
use super::process::{ActionView, JobView, PhaseView, ReplyView, SyncStatus};
use super::process_laws::{
    action_after, asked, decoded, found, height_given, in_turn, law_every_event_type_checked,
    law_decoding_follows_question, law_questions_follow_the_list, law_recoverable_before_work,
    law_sent_once_confirmed, law_unconfirmed_is_handed_on, law_waits_for_confirmations, phase_after,
    sent, targets,
};
use super::run::{EventView, OracleView, StageView, StopView, TaskView};
use crate::ethereum::{EventCodec, EventKind};
use crate::uint256::{lemma_uint256_bound, uint256_limit, Uint256};

verus! {

/// The oracle after the given events.
pub open spec fn oracle_after<E>(oracle: OracleView<E>, events: Seq<EventView<E>>) -> OracleView<E>
    decreases events.len(),
{
    if events.len() == 0 {
        oracle
    } else {
        oracle_after(oracle, events.drop_last()).next(events.last()).0
    }
}

/// What the oracle asks for after the given events.
pub open spec fn task_after<E>(oracle: OracleView<E>, events: Seq<EventView<E>>) -> TaskView<E> {
    if events.len() == 0 {
        TaskView::AwaitConfiguration
    } else {
        oracle_after(oracle, events.drop_last()).next(events.last()).1
    }
}

/// Each of the events can come to the oracle when it comes.
pub open spec fn run_of<E>(oracle: OracleView<E>, events: Seq<EventView<E>>) -> bool
    decreases events.len(),
{
    events.len() == 0 || {
        &&& run_of(oracle, events.drop_last())
        &&& oracle_after(oracle, events.drop_last()).accepts(events.last())
    }
}

/// The blocks that were published, in order.
pub open spec fn published<E>(oracle: OracleView<E>, events: Seq<EventView<E>>) -> Seq<nat>
    decreases events.len(),
{
    if events.len() == 0 {
        Seq::empty()
    } else {
        match task_after(oracle, events) {
            TaskView::Publish(block) => published(oracle, events.drop_last()).push(block),
            _ => published(oracle, events.drop_last()),
        }
    }
}

/// The block that the first configuration names, 0 where none came.
pub open spec fn start_block<E>(events: Seq<EventView<E>>) -> nat {
    if events.len() == 0 {
        0
    } else {
        match events[0] {
            EventView::Configured(Some(command)) => command.config().start_block@,
            _ => 0,
        }
    }
}

/// The replies that have come since the check of the current block was last begun.
pub open spec fn attempt<E>(events: Seq<EventView<E>>) -> Seq<ReplyView<E>>
    decreases events.len(),
{
    if events.len() == 0 {
        Seq::empty()
    } else {
        match events.last() {
            EventView::Processed(reply) => attempt(events.drop_last()).push(reply),
            _ => Seq::empty(),
        }
    }
}

/// The events that waited for their confirmations when the check of the current block
/// was last begun.
pub open spec fn carried_in<E>(
    oracle: OracleView<E>,
    events: Seq<EventView<E>>,
) -> Seq<PendingEvent<E>>
    decreases events.len(),
{
    if events.len() == 0 {
        Seq::empty()
    } else {
        match (oracle_after(oracle, events.drop_last()).stage, events.last()) {
            (StageView::Waiting { waiting, .. }, EventView::Slept) => waiting,
            (StageView::Publishing { waiting, .. }, EventView::Published(_)) => waiting,
            _ => carried_in(oracle, events.drop_last()),
        }
    }
}

/// The events that wait for their confirmations between two checks; during a check and
/// after the last one, those that waited when it was begun.
pub open spec fn waiting_in<E>(
    oracle: OracleView<E>,
    events: Seq<EventView<E>>,
) -> Seq<PendingEvent<E>> {
    match oracle_after(oracle, events).stage {
        StageView::Waiting { waiting, .. } => waiting,
        StageView::Publishing { waiting, .. } => waiting,
        _ => carried_in(oracle, events),
    }
}

/// All events that were handed over to be sent in the run, in order.
pub open spec fn sent_in<E>(oracle: OracleView<E>, events: Seq<EventView<E>>) -> Seq<E>
    decreases events.len(),
{
    if events.len() == 0 {
        Seq::empty()
    } else {
        match task_after(oracle, events) {
            TaskView::Process(ActionView::Send(event)) => sent_in(oracle, events.drop_last()).push(
                event,
            ),
            _ => sent_in(oracle, events.drop_last()),
        }
    }
}

/// What the published blocks brought, block by block: for each of them, the events that
/// were found confirmed by the check after which it was published.
pub open spec fn brought_in<E>(oracle: OracleView<E>, events: Seq<EventView<E>>) -> Seq<E>
    decreases events.len(),
{
    if events.len() == 0 {
        Seq::empty()
    } else {
        match task_after(oracle, events) {
            TaskView::Publish(_) => brought_in(oracle, events.drop_last()) + found(
                carried_in(oracle, events),
                attempt(events),
                height_given(attempt(events)),
            ),
            _ => brought_in(oracle, events.drop_last()),
        }
    }
}

/// The events that were decoded from the published blocks, block by block.
pub open spec fn decoded_in<E>(
    oracle: OracleView<E>,
    events: Seq<EventView<E>>,
) -> Seq<PendingEvent<E>>
    decreases events.len(),
{
    if events.len() == 0 {
        Seq::empty()
    } else {
        match task_after(oracle, events) {
            TaskView::Publish(_) => decoded_in(oracle, events.drop_last()) + decoded(
                attempt(events),
            ),
            _ => decoded_in(oracle, events.drop_last()),
        }
    }
}

/// The block that is published as the one processed last, after the given blocks were
/// published in turn; before that it was `at_first`.
pub open spec fn last_of(at_first: Option<nat>, blocks: Seq<nat>) -> Option<nat> {
    if blocks.len() == 0 {
        at_first
    } else {
        Some(blocks.last())
    }
}

/// What is published as the block processed last when a new oracle starts.
pub open spec fn published_at_first<E>(oracle: OracleView<E>) -> Option<nat> {
    match oracle.stage {
        StageView::Configuring { last_processed_block, .. } => last_processed_block,
        _ => None,
    }
}

/// The types of events that a new oracle was made to look for.
pub open spec fn types_of<E>(oracle: OracleView<E>) -> Seq<EventCodec> {
    match oracle.stage {
        StageView::Configuring { codecs, .. } => codecs,
        _ => Seq::empty(),
    }
}

/// The configuration that came last, if one came.
pub open spec fn config_in<E>(events: Seq<EventView<E>>) -> Option<Config>
    decreases events.len(),
{
    if events.len() == 0 {
        None
    } else {
        match events.last() {
            EventView::Configured(Some(Command::UpdateConfig(config))) => Some(config),
            EventView::Published(Polled::Received(Command::UpdateConfig(config))) => Some(config),
            _ => config_in(events.drop_last()),
        }
    }
}

spec fn consecutive(blocks: Seq<nat>, start: nat) -> bool {
    forall|i: int| 0 <= i < blocks.len() ==> #[trigger] blocks[i] == start + i
}

spec fn on_course<E>(oracle: OracleView<E>, events: Seq<EventView<E>>) -> bool {
    let now = oracle_after(oracle, events);
    let start = start_block(events);
    let blocks = published(oracle, events);
    let at_first = published_at_first(oracle);
    let carried = carried_in(oracle, events);
    &&& now.wf()
    &&& (now.backoff, now.ceiling, now.patient) == (oracle.backoff, oracle.ceiling, oracle.patient)
    &&& consecutive(blocks, start)
    &&& match now.stage {
        StageView::Configuring { .. } => events.len() == 0,
        StageView::Processing { job, phase } => {
            &&& events.len() > 0
            &&& job.block == start + blocks.len()
            &&& job.last_processed_block == last_of(at_first, blocks)
            &&& job.codecs == types_of(oracle)
            &&& Some(job.config) == config_in(events)
            &&& in_turn(job, carried, attempt(events))
            &&& phase == phase_after(job, carried, attempt(events))
            &&& task_after(oracle, events) == TaskView::Process(
                action_after(job, carried, attempt(events)),
            )
        },
        StageView::Waiting { job, waiting } => {
            &&& events.len() > 0
            &&& job.block == start + blocks.len()
            &&& job.last_processed_block == last_of(at_first, blocks)
            &&& job.codecs == types_of(oracle)
            &&& Some(job.config) == config_in(events)
            &&& in_turn(job, carried, attempt(events))
            &&& phase_after(job, carried, attempt(events)) == (PhaseView::Done { waiting })
            &&& task_after(oracle, events) matches TaskView::Sleep { time, block, error }
            &&& (time, block) == (oracle.backoff, job.block)
            &&& oracle.retries(error)
            &&& action_after(job, carried, attempt(events)) == ActionView::<E>::Finish(Err(error))
        },
        StageView::Publishing { job, waiting } => {
            &&& events.len() > 0
            &&& blocks.len() > 0
            &&& blocks.last() == job.block
            &&& job.last_processed_block == last_of(at_first, blocks.drop_last())
            &&& job.codecs == types_of(oracle)
            &&& Some(job.config) == config_in(events)
            &&& in_turn(job, carried, attempt(events))
            &&& phase_after(job, carried, attempt(events)) == (PhaseView::Done { waiting })
            &&& action_after(job, carried, attempt(events)) == ActionView::<E>::Finish(Ok(()))
            &&& task_after(oracle, events) == TaskView::<E>::Publish(job.block)
        },
        StageView::Stopped => events.len() > 0,
    }
}

proof fn lemma_on_course<E>(oracle: OracleView<E>, events: Seq<EventView<E>>)
    requires
        oracle.stage is Configuring,
        run_of(oracle, events),
    ensures
        on_course(oracle, events),
    decreases events.len(),
{
    if events.len() > 0 {
        let before = events.drop_last();
        lemma_on_course(oracle, before);
        if before.len() > 0 {
            assert(events[0] == before[0]);
        }
        let blocks = published(oracle, before);
        match (oracle_after(oracle, before).stage, events.last()) {
            (StageView::Configuring { .. }, _) => {
                assert(published(oracle, before) == Seq::<nat>::empty());
                assert(attempt(events) == Seq::<ReplyView<E>>::empty());
            },
            (StageView::Processing { job, phase }, EventView::Processed(reply)) => {
                if let ReplyView::SyncStatus(Some(SyncStatus::AtHeight(height))) = reply {
                    lemma_uint256_bound(height);
                }
                let replies = attempt(before);
                assert(attempt(events) == replies.push(reply));
                assert(replies.push(reply).drop_last() == replies);
                assert(published(oracle, events).drop_last() == blocks || published(oracle, events)
                    == blocks);
            },
            (StageView::Publishing { .. }, _) => {
                assert(attempt(events) == Seq::<ReplyView<E>>::empty());
            },
            (StageView::Waiting { .. }, _) => {
                assert(attempt(events) == Seq::<ReplyView<E>>::empty());
            },
            _ => {},
        }
    }
}

/// Blocks are processed in sequence: what is published is the start block, then the
/// one after it, and so on, with none left out and none twice. New configurations
/// do not change that.
pub proof fn law_blocks_in_sequence<E>(oracle: OracleView<E>, events: Seq<EventView<E>>)
    requires
        oracle.stage is Configuring,
        run_of(oracle, events),
    ensures
        published(oracle, events) == Seq::new(
            published(oracle, events).len(),
            |i: int| (start_block(events) + i) as nat,
        ),
{
    lemma_on_course(oracle, events);
}

/// The block that the oracle takes for the one processed last is the one that it
/// published last; until it has published one, it is the one that was published when
/// the oracle was made.
pub proof fn law_last_processed_block<E>(oracle: OracleView<E>, events: Seq<EventView<E>>)
    requires
        oracle.stage is Configuring,
        run_of(oracle, events),
    ensures
        oracle_after(oracle, events).stage matches StageView::Processing { job, .. }
            ==> job.last_processed_block == last_of(
            published_at_first(oracle),
            published(oracle, events),
        ),
        oracle_after(oracle, events).stage matches StageView::Waiting { job, .. }
            ==> job.last_processed_block == last_of(
            published_at_first(oracle),
            published(oracle, events),
        ),
        oracle_after(oracle, events).stage matches StageView::Publishing { job, .. }
            ==> job.last_processed_block == last_of(
            published_at_first(oracle),
            published(oracle, events).drop_last(),
        ) && Some(job.block) == last_of(published_at_first(oracle), published(oracle, events)),
{
    lemma_on_course(oracle, events);
}

/// Whatever the oracle is at, it is at the block after those that were published: while
/// it checks a block, and while it waits to try one again. Once a block is done, it is
/// the last of those.
pub proof fn law_block_in_hand<E>(oracle: OracleView<E>, events: Seq<EventView<E>>)
    requires
        oracle.stage is Configuring,
        run_of(oracle, events),
    ensures
        oracle_after(oracle, events).stage matches StageView::Processing { job, .. } ==> job.block
            == start_block(events) + published(oracle, events).len(),
        oracle_after(oracle, events).stage matches StageView::Waiting { job, .. } ==> job.block
            == start_block(events) + published(oracle, events).len(),
        oracle_after(oracle, events).stage matches StageView::Publishing { job, .. } ==> job.block + 1
            == start_block(events) + published(oracle, events).len(),
{
    lemma_on_course(oracle, events);
}

/// An oracle that starts when a block is published that the node is not past yet goes
/// no further: no log is asked for, and the block is tried again later.
pub proof fn law_waits_for_published_block<E>(
    oracle: OracleView<E>,
    command: Command,
    last: nat,
    height: Uint256,
)
    requires
        published_at_first(oracle) == Some(last),
        oracle.accepts(EventView::Configured(Some(command))),
        height@ <= last,
    ensures
        ({
            let started = oracle.next(EventView::Configured(Some(command))).0;
            let reply = ReplyView::<E>::SyncStatus(Some(SyncStatus::AtHeight(height)));
            started.next(EventView::Processed(reply)).1 == (TaskView::<E>::Sleep {
                time: oracle.backoff,
                block: command.config().start_block@,
                error: ErrorView::FallenBehind,
            })
        }),
{
}

/// The only block that is ever checked is the one after those that were published.
pub proof fn law_next_block_is_checked<E>(oracle: OracleView<E>, events: Seq<EventView<E>>)
    requires
        oracle.stage is Configuring,
        run_of(oracle, events),
        task_after(oracle, events) matches TaskView::Process(ActionView::CheckForEvents { .. }),
    ensures
        task_after(oracle, events) matches TaskView::Process(
            ActionView::CheckForEvents { from_block, to_block, .. },
        ) && from_block == to_block && from_block == start_block(events) + published(
            oracle,
            events,
        ).len(),
{
    lemma_on_course(oracle, events);
    lemma_checks_own_block(oracle, events);
}

proof fn lemma_checks_own_block<E>(oracle: OracleView<E>, events: Seq<EventView<E>>)
    requires
        oracle.stage is Configuring,
        run_of(oracle, events),
    ensures
        task_after(oracle, events) matches TaskView::Process(
            ActionView::CheckForEvents { from_block, to_block, .. },
        ) ==> from_block == to_block && (oracle_after(oracle, events).stage
            matches StageView::Processing { job, .. } && from_block == job.block),
{
    if events.len() > 0 {
        lemma_on_course(oracle, events.drop_last());
    }
}

/// A block is published only when it has its confirmations, every type of event was
/// asked for, and every event that was decoded, or waited since the blocks before, and is
/// confirmed has been sent. The others wait on.
pub proof fn law_published_block_is_relayed<E>(
    oracle: OracleView<E>,
    events: Seq<EventView<E>>,
    block: nat,
)
    requires
        oracle.stage is Configuring,
        run_of(oracle, events),
        task_after(oracle, events) == TaskView::<E>::Publish(block),
    ensures
        oracle_after(oracle, events).stage matches StageView::Publishing { job, waiting } && {
            let carried = carried_in(oracle, events);
            let replies = attempt(events);
            &&& job.block == block
            &&& replies.len() > 0
            &&& replies[0] matches ReplyView::SyncStatus(Some(SyncStatus::AtHeight(height)))
            &&& job.minimum_latest_block() <= height@
            &&& asked(job, carried, replies) == targets(job, job.codecs.len())
            &&& sent(job, carried, replies) == found(carried, replies, height@)
            &&& job.codecs.len() > 0 ==> waiting == unconfirmed(carried + decoded(replies), height@)
        },
{
    lemma_on_course(oracle, events);
    if events.len() > 0 {
        lemma_on_course(oracle, events.drop_last());
    }
    match oracle_after(oracle, events).stage {
        StageView::Publishing { job, .. } => {
            let (carried, replies) = (carried_in(oracle, events), attempt(events));
            law_sent_once_confirmed(job, carried, replies);
            law_every_event_type_checked(job, carried, replies);
            law_unconfirmed_is_handed_on(job, carried, replies);
            assert(replies.len() > 0);
            law_waits_for_confirmations(job, carried, replies);
        },
        _ => {},
    }
}

/// An event is sent while the block after those that were published is checked, and only
/// when that block has its confirmations.
pub proof fn law_sent_from_confirmed_block<E>(
    oracle: OracleView<E>,
    events: Seq<EventView<E>>,
    event: E,
)
    requires
        oracle.stage is Configuring,
        run_of(oracle, events),
        task_after(oracle, events) == TaskView::Process(ActionView::Send(event)),
    ensures
        oracle_after(oracle, events).stage matches StageView::Processing { job, .. } && {
            let carried = carried_in(oracle, events);
            let replies = attempt(events);
            &&& job.block == start_block(events) + published(oracle, events).len()
            &&& job.minimum_latest_block() <= height_given(replies)
            &&& sent(job, carried, replies).len() > 0
            &&& sent(job, carried, replies).last() == event
            &&& sent(job, carried, replies).is_prefix_of(
                found(carried, replies, height_given(replies)),
            )
        },
{
    lemma_on_course(oracle, events);
    if events.len() > 0 {
        lemma_on_course(oracle, events.drop_last());
    }
    match oracle_after(oracle, events).stage {
        StageView::Processing { job, .. } => {
            let (carried, replies) = (carried_in(oracle, events), attempt(events));
            assert(action_after(job, carried, replies) == ActionView::Send(event));
            law_sent_once_confirmed(job, carried, replies);
            assert(replies.len() > 0);
            law_waits_for_confirmations(job, carried, replies);
        },
        _ => {},
    }
}

/// Every event that was decoded is among those that wait or has been sent on.
spec fn accounted_for<E>(
    all: Seq<PendingEvent<E>>,
    waiting: Seq<PendingEvent<E>>,
    sent: Seq<E>,
) -> bool {
    forall|p: PendingEvent<E>| #[trigger]
        all.contains(p) ==> waiting.contains(p) || sent.contains(p.event)
}

spec fn relayed<E>(oracle: OracleView<E>, events: Seq<EventView<E>>) -> bool {
    let stage = oracle_after(oracle, events).stage;
    let waiting = waiting_in(oracle, events);
    let brought = brought_in(oracle, events);
    let all = decoded_in(oracle, events);
    &&& match stage {
        StageView::Processing { job, .. } => sent_in(oracle, events) == brought + sent(
            job,
            carried_in(oracle, events),
            attempt(events),
        ),
        StageView::Stopped => true,
        _ => sent_in(oracle, events) == brought,
    }
    &&& events_of(all).to_multiset() =~= brought.to_multiset().add(
        events_of(waiting).to_multiset(),
    )
    &&& accounted_for(all, waiting, brought)
    &&& types_of(oracle).len() == 0 ==> all.len() == 0 && waiting.len() == 0
}

/// What becomes of the events when a block is published: of those that waited or were
/// decoded, some are sent on, and the others wait.
proof fn lemma_published<E>(
    all: Seq<PendingEvent<E>>,
    carried: Seq<PendingEvent<E>>,
    brought: Seq<E>,
    new: Seq<PendingEvent<E>>,
    height: nat,
)
    requires
        events_of(all).to_multiset() =~= brought.to_multiset().add(
            events_of(carried).to_multiset(),
        ),
        accounted_for(all, carried, brought),
    ensures
        ({
            let out = brought + confirmed_events(carried + new, height);
            let waiting = unconfirmed(carried + new, height);
            &&& events_of(all + new).to_multiset() =~= out.to_multiset().add(
                events_of(waiting).to_multiset(),
            )
            &&& accounted_for(all + new, waiting, out)
        }),
{
    let queue = carried + new;
    let due = confirmed_events(queue, height);
    let out = brought + due;
    let waiting = unconfirmed(queue, height);
    law_queue_is_split(queue, height);
    assert(events_of(all + new) == events_of(all) + events_of(new));
    assert(events_of(queue) == events_of(carried) + events_of(new));
    vstd::seq_lib::lemma_multiset_commutative(events_of(all), events_of(new));
    vstd::seq_lib::lemma_multiset_commutative(events_of(carried), events_of(new));
    vstd::seq_lib::lemma_multiset_commutative(brought, due);
    assert(events_of(all + new).to_multiset() =~= out.to_multiset().add(
        events_of(waiting).to_multiset(),
    )) by {
        let (b, c, n) = (
            brought.to_multiset(),
            events_of(carried).to_multiset(),
            events_of(new).to_multiset(),
        );
        let (d, w) = (due.to_multiset(), events_of(waiting).to_multiset());
        assert(c.add(n) == d.add(w));
        assert(b.add(c).add(n) =~= b.add(c.add(n)));
        assert(b.add(d.add(w)) =~= b.add(d).add(w));
    }
    assert forall|p: PendingEvent<E>| #[trigger] (all + new).contains(p) implies waiting.contains(p)
        || out.contains(p.event) by {
        let n = choose|n: int| 0 <= n < (all + new).len() && (all + new)[n] == p;
        if n < all.len() {
            assert(all[n] == p);
            assert(all.contains(p));
        } else {
            assert(queue[carried.len() + n - all.len()] == p);
        }
        if brought.contains(p.event) {
            let m = choose|m: int| 0 <= m < brought.len() && brought[m] == p.event;
            assert(out[m] == p.event);
        } else {
            if carried.contains(p) {
                let m = choose|m: int| 0 <= m < carried.len() && carried[m] == p;
                assert(queue[m] == p);
            }
            assert(queue.contains(p));
            lemma_sent_or_kept(queue, p, height);
            if due.contains(p.event) {
                let m = choose|m: int| 0 <= m < due.len() && due[m] == p.event;
                assert(out[brought.len() + m] == p.event);
            }
        }
    }
}

proof fn lemma_sent_or_kept<E>(queue: Seq<PendingEvent<E>>, p: PendingEvent<E>, height: nat)
    requires
        queue.contains(p),
    ensures
        unconfirmed(queue, height).contains(p) || confirmed_events(queue, height).contains(p.event),
{
    let done = |q: PendingEvent<E>| q.confirmed_at(height);
    let keep = |q: PendingEvent<E>| !q.confirmed_at(height);
    let n = choose|n: int| 0 <= n < queue.len() && queue[n] == p;
    if p.confirmed_at(height) {
        queue.lemma_filter_contains(done, n);
        let m = choose|m: int| 0 <= m < queue.filter(done).len() && queue.filter(done)[m] == p;
        assert(confirmed_events(queue, height)[m] == p.event);
    } else {
        queue.lemma_filter_contains(keep, n);
    }
}

proof fn lemma_relayed<E>(oracle: OracleView<E>, events: Seq<EventView<E>>)
    requires
        oracle.stage is Configuring,
        run_of(oracle, events),
        !oracle.patient,
    ensures
        relayed(oracle, events),
    decreases events.len(),
{
    lemma_on_course(oracle, events);
    if events.len() == 0 {
        assert(sent_in(oracle, events) == brought_in(oracle, events));
        assert(events_of(decoded_in(oracle, events)) == Seq::<E>::empty());
        assert(events_of(waiting_in(oracle, events)) == Seq::<E>::empty());
        assert(brought_in(oracle, events) == Seq::<E>::empty());
        broadcast use vstd::seq_lib::group_to_multiset_ensures;

    } else {
        let before = events.drop_last();
        let brought = brought_in(oracle, before);
        lemma_on_course(oracle, before);
        lemma_relayed(oracle, before);
        match (oracle_after(oracle, before).stage, events.last()) {
            (StageView::Processing { job, .. }, EventView::Processed(reply)) => {
                let (carried, replies) = (carried_in(oracle, events), attempt(events));
                assert(replies.drop_last() == attempt(before));
                let sends = sent(job, carried, attempt(before));
                match oracle_after(oracle, events).stage {
                    StageView::Processing { .. } => {
                        if let ActionView::Send(event) = action_after(job, carried, replies) {
                            assert((brought + sends).push(event) == brought + sends.push(event));
                        }
                    },
                    StageView::Publishing { .. } => {
                        law_sent_once_confirmed(job, carried, replies);
                        law_unconfirmed_is_handed_on(job, carried, replies);
                        lemma_published(
                            decoded_in(oracle, before),
                            carried,
                            brought,
                            decoded(replies),
                            height_given(replies),
                        );
                        if types_of(oracle).len() == 0 {
                            assert(brought + sends == brought);
                            assert(decoded_in(oracle, events) == decoded_in(oracle, before));
                        }
                    },
                    StageView::Waiting { .. } => {
                        if let TaskView::Sleep { error, .. } = task_after(oracle, events) {
                            law_recoverable_before_work(job, carried, replies, error);
                        }
                        assert(brought + sends == brought);
                    },
                    _ => {},
                }
            },
            _ => {
                assert(attempt(events) == Seq::<ReplyView<E>>::empty());
                assert(brought + Seq::<E>::empty() == brought);
            },
        }
    }
}

/// All that an oracle that is not patient hands over to be sent in a run is, block by
/// block from the start block, what each published block brought, followed by what the
/// check in hand has sent. Stopping hands over nothing.
pub proof fn law_sent_block_by_block<E>(oracle: OracleView<E>, events: Seq<EventView<E>>)
    requires
        oracle.stage is Configuring,
        run_of(oracle, events),
        !oracle.patient,
    ensures
        match oracle_after(oracle, events).stage {
            StageView::Processing { job, .. } => sent_in(oracle, events) == brought_in(
                oracle,
                events,
            ) + sent(job, carried_in(oracle, events), attempt(events)),
            StageView::Stopped => {
                &&& events.len() > 0
                &&& sent_in(oracle, events) == sent_in(oracle, events.drop_last())
                &&& brought_in(oracle, events) == brought_in(oracle, events.drop_last())
            },
            _ => sent_in(oracle, events) == brought_in(oracle, events),
        },
{
    lemma_relayed(oracle, events);
    lemma_on_course(oracle, events);
    if events.len() > 0 {
        lemma_on_course(oracle, events.drop_last());
    }
}

/// No event is lost, and none is sent twice: in a run of an oracle that is not patient,
/// what the published blocks brought and what waits are together, counted with
/// repetition, the events that were decoded from these blocks.
pub proof fn law_no_event_is_lost<E>(oracle: OracleView<E>, events: Seq<EventView<E>>)
    requires
        oracle.stage is Configuring,
        run_of(oracle, events),
        !oracle.patient,
    ensures
        events_of(decoded_in(oracle, events)).to_multiset() =~= brought_in(
            oracle,
            events,
        ).to_multiset().add(events_of(waiting_in(oracle, events)).to_multiset()),
{
    lemma_relayed(oracle, events);
}

/// Once an event has the confirmations that it asks for, it is forwarded: when an oracle
/// that is not patient publishes a block, every event that was decoded from this block or
/// one before, and is confirmed at the height that the node gave, has been sent.
pub proof fn law_confirmed_event_is_sent<E>(
    oracle: OracleView<E>,
    events: Seq<EventView<E>>,
    p: PendingEvent<E>,
)
    requires
        oracle.stage is Configuring,
        run_of(oracle, events),
        !oracle.patient,
        oracle_after(oracle, events).stage is Publishing,
        decoded_in(oracle, events).contains(p),
        p.confirmed_at(height_given(attempt(events))),
    ensures
        sent_in(oracle, events).contains(p.event),
{
    lemma_relayed(oracle, events);
    lemma_on_course(oracle, events);
    match oracle_after(oracle, events).stage {
        StageView::Publishing { job, waiting } => {
            let (carried, replies) = (carried_in(oracle, events), attempt(events));
            law_unconfirmed_is_handed_on(job, carried, replies);
            law_left_unconfirmed(carried + decoded(replies), height_given(replies));
            if waiting.contains(p) {
                let n = choose|n: int| 0 <= n < waiting.len() && waiting[n] == p;
                assert(!waiting[n].confirmed_at(height_given(replies)));
            }
        },
        _ => {},
    }
}

/// When a block cannot be processed yet, the oracle waits for its backoff, and then
/// starts on the same block again, with the events that the check handed on.
pub proof fn law_same_block_is_retried<E>(
    oracle: OracleView<E>,
    job: JobView,
    phase: PhaseView<E>,
    reply: ReplyView<E>,
    carried: Seq<PendingEvent<E>>,
    error: ErrorView,
)
    requires
        oracle.wf(),
        oracle.stage == (StageView::Processing { job, phase }),
        phase.awaits(reply),
        phase.next(job, reply) == (
            PhaseView::Done { waiting: carried },
            ActionView::<E>::Finish(Err(error)),
        ),
        oracle.retries(error),
    ensures
        ({
            let (waiting, task) = oracle.next(EventView::Processed(reply));
            &&& task == (TaskView::<E>::Sleep { time: oracle.backoff, block: job.block, error })
            &&& waiting.accepts(EventView::Slept)
            &&& waiting.next(EventView::Slept) == (
                OracleView {
                    stage: StageView::Processing { job, phase: PhaseView::Syncing { carried } },
                    ..oracle
                },
                TaskView::<E>::Process(ActionView::GetSyncStatus),
            )
        }),
{
}

/// An oracle that is not patient sends nothing twice: where it waits to try a block
/// again, nothing was sent and no log was asked for since it last began on the block, and
/// all that waited then still waits.
pub proof fn law_retry_repeats_nothing<E>(oracle: OracleView<E>, events: Seq<EventView<E>>)
    requires
        oracle.stage is Configuring,
        run_of(oracle, events),
        !oracle.patient,
        oracle_after(oracle, events).stage is Waiting,
    ensures
        oracle_after(oracle, events).stage matches StageView::Waiting { job, waiting } && {
            let carried = carried_in(oracle, events);
            &&& sent(job, carried, attempt(events)).len() == 0
            &&& asked(job, carried, attempt(events)).len() == 0
            &&& waiting == carried
        },
{
    lemma_on_course(oracle, events);
    match (oracle_after(oracle, events).stage, task_after(oracle, events)) {
        (StageView::Waiting { job, .. }, TaskView::Sleep { error, .. }) => {
            law_recoverable_before_work(job, carried_in(oracle, events), attempt(events), error);
        },
        _ => {},
    }
}

/// The oracle stops when it gets no configuration, when the receiver of events has
/// hung up, and when a block fails with an error that does not pass; on nothing else.
/// It says which, with the block and the error.
pub proof fn law_stops_only_when_done<E>(
    oracle: OracleView<E>,
    event: EventView<E>,
    block: nat,
    reason: ErrorView,
)
    requires
        oracle.wf(),
        oracle.accepts(event),
    ensures
        oracle.next(event).1 == TaskView::<E>::Stop(StopView::NotConfigured) <==> event
            == EventView::<E>::Configured(None),
        oracle.next(event).1 == TaskView::<E>::Stop(StopView::ReceiverHungUp) <==> event
            == EventView::<E>::ReceiverHungUp,
        oracle.next(event).1 == TaskView::<E>::Stop(StopView::Disconnected { block, reason }) <==> {
            &&& oracle.stage matches StageView::Processing { job, phase }
            &&& event matches EventView::Processed(reply)
            &&& phase.next(job, reply).1 == ActionView::<E>::Finish(Err(reason))
            &&& !oracle.retries(reason)
            &&& job.block == block
        },
        oracle.next(event).1 is Stop <==> oracle.next(event).0.stage is Stopped,
{
}

/// Once stopped, the oracle takes in nothing more.
pub proof fn law_stopped_for_good<E>(oracle: OracleView<E>, event: EventView<E>)
    requires
        oracle.stage is Stopped,
    ensures
        !oracle.accepts(event),
{
}

/// A new configuration takes effect with the next block, which is the one after the
/// block just processed, wherever the configuration would have the oracle start. What
/// waits for its confirmations waits on.
pub proof fn law_new_configuration<E>(
    oracle: OracleView<E>,
    job: JobView,
    waiting: Seq<PendingEvent<E>>,
    polled: Polled,
)
    requires
        oracle.wf(),
        oracle.stage == (StageView::Publishing { job, waiting }),
        oracle.accepts(EventView::Published(polled)),
    ensures
        oracle.next(EventView::Published(polled)).0.stage matches StageView::Processing {
            job: following,
            phase,
        } && {
            &&& oracle.next(EventView::Published(polled)).1 == TaskView::<E>::Process(
                ActionView::GetSyncStatus,
            )
            &&& phase == PhaseView::Syncing { carried: waiting }
            &&& following.codecs == job.codecs
            &&& following.block == job.block + 1
            &&& following.last_processed_block == Some(job.block)
            &&& polled matches Polled::Received(command) ==> following.config == command.config()
            &&& polled matches Polled::Received(Command::UpdateConfig(config)) ==> following.config
                == config
            &&& polled is Empty ==> following.config == job.config
        },
{
}

/// Whether the event is one that can come of the task.
pub open spec fn comes_of<E>(task: TaskView<E>, event: EventView<E>) -> bool {
    match task {
        TaskView::AwaitConfiguration => event is Configured,
        TaskView::Process(action) => match event {
            EventView::ReceiverHungUp => true,
            EventView::Processed(reply) => match action {
                ActionView::GetSyncStatus => reply is SyncStatus,
                ActionView::CheckForEvents { .. } => reply is Logs,
                ActionView::Decode { .. } => reply is Decoded,
                ActionView::CheckReceiver => reply is ReceiverClosed,
                ActionView::Send(_) => reply is Sent,
                ActionView::Finish(_) => false,
            },
            _ => false,
        },
        TaskView::Sleep { .. } => event is Slept,
        TaskView::Publish(_) => event is Published,
        TaskView::Stop(_) => false,
    }
}

/// Whatever comes of the task that the oracle asked for can be handed to it, as long
/// as the command channel does not hang up, a new configuration asks for a
/// confirmation, and the height at which a block has its confirmations is within the
/// range of heights. A task is never the end of a check.
pub proof fn law_outcome_is_accepted<E>(
    oracle: OracleView<E>,
    event: EventView<E>,
    outcome: EventView<E>,
)
    requires
        oracle.wf(),
        oracle.accepts(event),
        comes_of(oracle.next(event).1, outcome),
        outcome matches EventView::Published(polled) ==> !(polled is Disconnected) && (
        polled matches Polled::Received(command) ==> command.config().wf()),
        oracle.next(event).0.stage matches StageView::Processing { job, .. }
            ==> job.minimum_latest_block() < uint256_limit(),
    ensures
        oracle.next(event).0.accepts(outcome),
        !(oracle.next(event).1 matches TaskView::Process(ActionView::Finish(_))),
{
}

/// The types of events that the oracle looks for stay what they were when it was made, one
/// by one: no block that is processed, tried again or published, and no new configuration,
/// changes the list that a job goes by.
pub proof fn law_event_types_stay<E>(oracle: OracleView<E>, events: Seq<EventView<E>>)
    requires
        oracle.stage is Configuring,
        run_of(oracle, events),
    ensures
        match oracle_after(oracle, events).stage {
            StageView::Processing { job, .. } => Some(job.codecs),
            StageView::Waiting { job, .. } => Some(job.codecs),
            StageView::Publishing { job, .. } => Some(job.codecs),
            _ => None,
        } matches Some(codecs) ==> {
            &&& oracle.stage matches StageView::Configuring { codecs: made_with, .. }
            &&& codecs.len() == made_with.len()
            &&& forall|i: int| 0 <= i < made_with.len() ==> #[trigger] codecs[i] == made_with[i]
        },
{
    lemma_on_course(oracle, events);
}

/// The configuration in force is the one that came last; the settings of the oracle stay
/// what they were when it was made.
pub proof fn law_last_configuration_is_in_force<E>(
    oracle: OracleView<E>,
    events: Seq<EventView<E>>,
)
    requires
        oracle.stage is Configuring,
        run_of(oracle, events),
    ensures
        match oracle_after(oracle, events).stage {
            StageView::Processing { job, .. } => Some(job.config) == config_in(events),
            StageView::Waiting { job, .. } => Some(job.config) == config_in(events),
            StageView::Publishing { job, .. } => Some(job.config) == config_in(events),
            _ => true,
        },
        oracle_after(oracle, events).backoff == oracle.backoff,
        oracle_after(oracle, events).ceiling == oracle.ceiling,
        oracle_after(oracle, events).patient == oracle.patient,
{
    lemma_on_course(oracle, events);
}

/// In every block the questions go through the types that the oracle was made with: where
/// it has asked for so many types since it began on the block, the last question is for
/// the type at that place in the list, of the contract that the configuration in force
/// names for it.
pub proof fn law_questions_in_run<E>(oracle: OracleView<E>, events: Seq<EventView<E>>)
    requires
        oracle.stage is Configuring,
        run_of(oracle, events),
        task_after(oracle, events) matches TaskView::Process(ActionView::CheckForEvents { .. }),
    ensures
        ({
            &&& task_after(oracle, events) matches TaskView::Process(
                ActionView::CheckForEvents { from_block, to_block, address, signature },
            )
            &&& oracle_after(oracle, events).stage matches StageView::Processing { job, .. }
            &&& oracle.stage matches StageView::Configuring { codecs, .. }
            &&& config_in(events) matches Some(config)
            &&& ({
                let place = asked(job, carried_in(oracle, events), attempt(events)).len() - 1;
                &&& 0 <= place < codecs.len()
                &&& signature == codecs[place].signature@
                &&& address == if codecs[place].kind == EventKind::Bridge {
                    config.bridge_contract
                } else {
                    config.governance_contract
                }
                &&& from_block == start_block(events) + published(oracle, events).len()
                &&& to_block == from_block
            })
        }),
{
    lemma_on_course(oracle, events);
    lemma_checks_own_block(oracle, events);
    match oracle_after(oracle, events).stage {
        StageView::Processing { job, .. } => {
            let (carried, replies) = (carried_in(oracle, events), attempt(events));
            let questions = asked(job, carried, replies);
            assert(questions.len() > 0);
            law_questions_follow_the_list(job, carried, replies, questions.len() - 1);
        },
        _ => {},
    }
}

/// In every block logs are decoded as the type of the list that the oracle was made with
/// whose signature they were just asked for by.
pub proof fn law_decoding_in_run<E>(oracle: OracleView<E>, events: Seq<EventView<E>>)
    requires
        oracle.stage is Configuring,
        run_of(oracle, events),
        task_after(oracle, events) matches TaskView::Process(ActionView::Decode { .. }),
    ensures
        ({
            &&& task_after(oracle, events) matches TaskView::Process(
                ActionView::Decode { codec, block_height, confirmations, .. },
            )
            &&& task_after(oracle, events.drop_last()) matches TaskView::Process(
                ActionView::CheckForEvents { from_block, signature, .. },
            )
            &&& oracle.stage matches StageView::Configuring { codecs, .. }
            &&& config_in(events) matches Some(config)
            &&& 0 <= codec < codecs.len()
            &&& signature == codecs[codec].signature@
            &&& block_height == from_block
            &&& confirmations == config.min_confirmations
        }),
{
    lemma_on_course(oracle, events);
    if events.len() > 0 {
        let before = events.drop_last();
        lemma_on_course(oracle, before);
        match oracle_after(oracle, events).stage {
            StageView::Processing { job, .. } => {
                let (carried, replies) = (carried_in(oracle, events), attempt(events));
                law_decoding_follows_question(job, carried, replies);
                assert(replies.drop_last() == attempt(before));
            },
            _ => {},
        }
    }
}

/// How the oracle goes on with the check of a block: it hands out what the check asks for.
/// Where the check ends well it publishes the block; where it fails the oracle waits for
/// its backoff if it tries the block again, and stops otherwise. What waits for its
/// confirmations is kept.
pub proof fn law_check_drives_the_oracle<E>(
    oracle: OracleView<E>,
    job: JobView,
    phase: PhaseView<E>,
    reply: ReplyView<E>,
)
    requires
        oracle.wf(),
        oracle.stage == (StageView::Processing { job, phase }),
        oracle.accepts(EventView::Processed(reply)),
    ensures
        ({
            let (then, action) = phase.next(job, reply);
            let (next, task) = oracle.next(EventView::Processed(reply));
            &&& action is Finish <==> then is Done
            &&& match action {
                ActionView::Finish(outcome) => {
                    &&& then matches PhaseView::Done { waiting }
                    &&& match outcome {
                        Ok(()) => {
                            &&& task == TaskView::<E>::Publish(job.block)
                            &&& next.stage == StageView::Publishing { job, waiting }
                        },
                        Err(error) => if error == ErrorView::FallenBehind || error
                            == ErrorView::MoreConfirmations || (oracle.patient
                            && error is CheckEvents) {
                            &&& task == (TaskView::<E>::Sleep {
                                time: oracle.backoff,
                                block: job.block,
                                error,
                            })
                            &&& next.stage == StageView::Waiting { job, waiting }
                        } else {
                            &&& task == TaskView::<E>::Stop(
                                StopView::Disconnected { block: job.block, reason: error },
                            )
                            &&& next.stage == StageView::<E>::Stopped
                        },
                    }
                },
                _ => {
                    &&& task == TaskView::Process(action)
                    &&& next.stage == StageView::Processing { job, phase: then }
                },
            }
            &&& (next.backoff, next.ceiling, next.patient) == (
                oracle.backoff,
                oracle.ceiling,
                oracle.patient,
            )
        }),
{
    if let ReplyView::SyncStatus(Some(SyncStatus::AtHeight(height))) = reply {
        lemma_uint256_bound(height);
    }
}

/// How a run begins and how it goes on after a wait: with the start block of the first
/// configuration, or with the block that could not be processed, and each time the node is
/// asked first how far it is.
pub proof fn law_block_is_begun<E>(
    oracle: OracleView<E>,
    last: Option<nat>,
    codecs: Seq<EventCodec>,
    config: Config,
    waits: OracleView<E>,
    job: JobView,
    waiting: Seq<PendingEvent<E>>,
)
    requires
        oracle.stage == (StageView::<E>::Configuring { last_processed_block: last, codecs }),
        waits.stage == (StageView::Waiting { job, waiting }),
    ensures
        oracle.next(EventView::Configured(Some(Command::UpdateConfig(config)))) == (
            OracleView {
                stage: StageView::<E>::Processing {
                    job: JobView {
                        block: config.start_block@,
                        config,
                        last_processed_block: last,
                        codecs,
                    },
                    phase: PhaseView::Syncing { carried: Seq::empty() },
                },
                ..oracle
            },
            TaskView::<E>::Process(ActionView::GetSyncStatus),
        ),
        waits.next(EventView::Slept) == (
            OracleView {
                stage: StageView::Processing { job, phase: PhaseView::Syncing { carried: waiting } },
                ..waits
            },
            TaskView::<E>::Process(ActionView::GetSyncStatus),
        ),
{
}

/// Only what comes of the task that was asked for last can be handed to the oracle.
pub proof fn law_only_outcomes_are_accepted<E>(
    oracle: OracleView<E>,
    events: Seq<EventView<E>>,
    event: EventView<E>,
)
    requires
        oracle.stage is Configuring,
        run_of(oracle, events),
        oracle_after(oracle, events).accepts(event),
    ensures
        comes_of(task_after(oracle, events), event),
{
    lemma_on_course(oracle, events);
    if events.len() > 0 {
        lemma_on_course(oracle, events.drop_last());
    }
    match oracle_after(oracle, events).stage {
        StageView::Processing { job, .. } => {
            lemma_action_of_phase(job, carried_in(oracle, events), attempt(events));
        },
        _ => {},
    }
}

proof fn lemma_action_of_phase<E>(
    job: JobView,
    carried: Seq<PendingEvent<E>>,
    replies: Seq<ReplyView<E>>,
)
    requires
        in_turn(job, carried, replies),
    ensures
        match phase_after(job, carried, replies) {
            PhaseView::Syncing { .. } => action_after(job, carried, replies) is GetSyncStatus,
            PhaseView::Checking { .. } => action_after(job, carried, replies) is CheckForEvents,
            PhaseView::Decoding { .. } => action_after(job, carried, replies) is Decode,
            PhaseView::Opening { .. } => action_after(job, carried, replies) is CheckReceiver,
            PhaseView::Sending { .. } => action_after(job, carried, replies) is Send,
            PhaseView::Done { .. } => action_after(job, carried, replies) is Finish,
        },
{
}

} // verus!
