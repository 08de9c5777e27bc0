//! What holds of the whole check of a block, whatever the outside work brings.
//!
//! A check is given by its job, the events that wait since the blocks before, and the
//! replies that have come.

use vstd::arithmetic::power::pow;
use vstd::prelude::*;

use super::error::ErrorView;
use super::events::{
    confirmed_events, law_processed_once, law_queues_joined, unconfirmed, PendingEvent,
};
use super::process::{
    decoded_events, ActionView, JobView, PhaseView, ReplyView, SyncStatus,
};
use crate::ethereum::{EthAddress, EventKind, LogView};
use crate::uint256::{law_limit_is_256_bits, lemma_uint256_bound};

verus! {

/// The phase that a check is in after the given replies.
pub open spec fn phase_after<E>(
    job: JobView,
    carried: Seq<PendingEvent<E>>,
    replies: Seq<ReplyView<E>>,
) -> PhaseView<E>
    decreases replies.len(),
{
    if replies.len() == 0 {
        PhaseView::Syncing { carried }
    } else {
        phase_after(job, carried, replies.drop_last()).next(job, replies.last()).0
    }
}

/// What a check asks for after the given replies.
pub open spec fn action_after<E>(
    job: JobView,
    carried: Seq<PendingEvent<E>>,
    replies: Seq<ReplyView<E>>,
) -> ActionView<E> {
    if replies.len() == 0 {
        ActionView::GetSyncStatus
    } else {
        phase_after(job, carried, replies.drop_last()).next(job, replies.last()).1
    }
}

/// Each of the replies is one to the action before it.
pub open spec fn in_turn<E>(
    job: JobView,
    carried: Seq<PendingEvent<E>>,
    replies: Seq<ReplyView<E>>,
) -> bool
    decreases replies.len(),
{
    replies.len() == 0 || {
        &&& in_turn(job, carried, replies.drop_last())
        &&& phase_after(job, carried, replies.drop_last()).awaits(replies.last())
    }
}

/// The height that the node gave, 0 where it gave none.
pub open spec fn height_given<E>(replies: Seq<ReplyView<E>>) -> nat {
    if replies.len() == 0 {
        0
    } else {
        match replies[0] {
            ReplyView::SyncStatus(Some(SyncStatus::AtHeight(height))) => height@,
            _ => 0,
        }
    }
}

/// The events that were handed over to be sent, in order.
pub open spec fn sent<E>(
    job: JobView,
    carried: Seq<PendingEvent<E>>,
    replies: Seq<ReplyView<E>>,
) -> Seq<E>
    decreases replies.len(),
{
    if replies.len() == 0 {
        Seq::empty()
    } else {
        let before = sent(job, carried, replies.drop_last());
        match action_after(job, carried, replies) {
            ActionView::Send(event) => before.push(event),
            _ => before,
        }
    }
}

/// The events that were decoded, in order.
pub open spec fn decoded<E>(replies: Seq<ReplyView<E>>) -> Seq<PendingEvent<E>>
    decreases replies.len(),
{
    if replies.len() == 0 {
        Seq::empty()
    } else {
        match replies.last() {
            ReplyView::Decoded(outcomes) => decoded(replies.drop_last()) + decoded_events(outcomes),
            _ => decoded(replies.drop_last()),
        }
    }
}

/// Whether the logs of an event type were decoded, so that the events that wait have
/// been looked through.
pub open spec fn looked_through<E>(replies: Seq<ReplyView<E>>) -> bool
    decreases replies.len(),
{
    replies.len() > 0 && (replies.last() is Decoded || looked_through(replies.drop_last()))
}

/// The events that are confirmed at `height`, in order: of those that wait since the
/// blocks before, and of those that were decoded.
pub open spec fn found<E>(
    carried: Seq<PendingEvent<E>>,
    replies: Seq<ReplyView<E>>,
    height: nat,
) -> Seq<E> {
    if looked_through(replies) {
        confirmed_events(carried + decoded(replies), height)
    } else {
        Seq::empty()
    }
}

/// What still waits, of the events that wait since the blocks before.
pub open spec fn still_carried<E>(
    carried: Seq<PendingEvent<E>>,
    replies: Seq<ReplyView<E>>,
    height: nat,
) -> Seq<PendingEvent<E>> {
    if looked_through(replies) {
        unconfirmed(carried, height)
    } else {
        carried
    }
}

/// The reply says that `p` was decoded.
pub open spec fn reports<E>(reply: ReplyView<E>, p: PendingEvent<E>) -> bool {
    reply matches ReplyView::Decoded(outcomes) && outcomes.contains(Some(p))
}

/// The contracts and signatures that the node was asked for, in order.
pub open spec fn asked<E>(
    job: JobView,
    carried: Seq<PendingEvent<E>>,
    replies: Seq<ReplyView<E>>,
) -> Seq<(EthAddress, Seq<char>)>
    decreases replies.len(),
{
    if replies.len() == 0 {
        Seq::empty()
    } else {
        let before = asked(job, carried, replies.drop_last());
        match action_after(job, carried, replies) {
            ActionView::CheckForEvents { address, signature, .. } => before.push(
                (address, signature),
            ),
            _ => before,
        }
    }
}

/// The contract and the signature of each of the first `n` event types.
pub open spec fn targets(job: JobView, n: nat) -> Seq<(EthAddress, Seq<char>)> {
    Seq::new(n, |i: int| (job.address(i), job.signature(i)))
}

/// The block has its confirmations, and comes after the one processed last.
spec fn ready<E>(job: JobView, replies: Seq<ReplyView<E>>) -> bool {
    &&& replies.len() > 0
    &&& replies[0] matches ReplyView::SyncStatus(Some(SyncStatus::AtHeight(height)))
    &&& job.minimum_latest_block() <= height@
    &&& job.last_processed_block matches Some(last) ==> last < height@
}

/// What holds while the event type `codec` is worked on: `left` are the events of blocks
/// before that wait, `pending` those of this block, and `unsent` are yet to be sent.
spec fn at_work<E>(
    job: JobView,
    carried: Seq<PendingEvent<E>>,
    replies: Seq<ReplyView<E>>,
    latest: nat,
    codec: int,
    left: Seq<PendingEvent<E>>,
    pending: Seq<PendingEvent<E>>,
    unsent: Seq<E>,
) -> bool {
    let h = height_given(replies);
    &&& ready(job, replies)
    &&& latest == h
    &&& left == still_carried(carried, replies, h)
    &&& pending == unconfirmed(decoded(replies), h)
    &&& sent(job, carried, replies) + unsent == found(carried, replies, h)
    &&& asked(job, carried, replies) == targets(job, (codec + 1) as nat)
}

spec fn on_course<E>(
    job: JobView,
    carried: Seq<PendingEvent<E>>,
    replies: Seq<ReplyView<E>>,
) -> bool {
    let h = height_given(replies);
    let phase = phase_after(job, carried, replies);
    let none = Seq::<E>::empty();
    &&& phase.wf(job)
    &&& match phase {
        PhaseView::Syncing { carried: left } => replies.len() == 0 && left == carried,
        PhaseView::Checking { latest, codec, carried: left, pending } => {
            &&& at_work(job, carried, replies, latest, codec, left, pending, none)
            &&& looked_through(replies) == (codec > 0)
        },
        PhaseView::Decoding { latest, codec, carried: left, pending } => {
            &&& at_work(job, carried, replies, latest, codec, left, pending, none)
            &&& looked_through(replies) == (codec > 0)
        },
        PhaseView::Opening { latest, codec, carried: left, pending, confirmed } => {
            &&& at_work(job, carried, replies, latest, codec, left, pending, confirmed)
            &&& looked_through(replies)
        },
        PhaseView::Sending { latest, codec, carried: left, pending, unsent } => {
            &&& at_work(job, carried, replies, latest, codec, left, pending, unsent)
            &&& looked_through(replies)
        },
        PhaseView::Done { waiting } => {
            &&& replies.len() > 0
            &&& sent(job, carried, replies).is_prefix_of(found(carried, replies, h))
            &&& asked(job, carried, replies).is_prefix_of(targets(job, job.codecs.len()))
            &&& match action_after(job, carried, replies) {
                ActionView::Finish(Ok(())) => {
                    &&& ready(job, replies)
                    &&& sent(job, carried, replies) == found(carried, replies, h)
                    &&& asked(job, carried, replies) == targets(job, job.codecs.len())
                    &&& looked_through(replies) == (job.codecs.len() > 0)
                    &&& waiting == still_carried(carried, replies, h) + unconfirmed(
                        decoded(replies),
                        h,
                    )
                },
                ActionView::Finish(Err(error)) => {
                    &&& waiting == still_carried(carried, replies, h)
                    &&& error is CheckEvents ==> sent(job, carried, replies) == found(
                        carried,
                        replies,
                        h,
                    )
                },
                _ => false,
            }
        },
    }
}

proof fn lemma_targets(job: JobView, codec: int)
    requires
        0 <= codec <= job.codecs.len(),
    ensures
        codec < job.codecs.len() ==> targets(job, codec as nat).push(
            (job.address(codec), job.signature(codec)),
        ) == targets(job, (codec + 1) as nat),
        targets(job, codec as nat).is_prefix_of(targets(job, job.codecs.len())),
{
}

/// The events that come out when those that wait are looked through again, together
/// with newly decoded ones.
proof fn lemma_looked_through<E>(
    carried: Seq<PendingEvent<E>>,
    before: Seq<PendingEvent<E>>,
    new: Seq<PendingEvent<E>>,
    height: nat,
)
    ensures
        confirmed_events(carried + before, height) + confirmed_events(
            unconfirmed(carried, height) + (unconfirmed(before, height) + new),
            height,
        ) == confirmed_events(carried + (before + new), height),
        unconfirmed(unconfirmed(carried, height), height) == unconfirmed(carried, height),
        unconfirmed(unconfirmed(before, height) + new, height) == unconfirmed(before + new, height),
{
    law_processed_once(carried, height);
    law_processed_once(before, height);
    law_queues_joined(carried, before, height);
    law_queues_joined(before, new, height);
    law_queues_joined(carried, before + new, height);
    law_queues_joined(unconfirmed(before, height), new, height);
    law_queues_joined(unconfirmed(carried, height), unconfirmed(before, height) + new, height);
    let (c, b, n) = (
        confirmed_events(carried, height),
        confirmed_events(before, height),
        confirmed_events(new, height),
    );
    assert(Seq::<E>::empty() + (Seq::<E>::empty() + n) == n);
    assert((c + b) + n == c + (b + n));
}

proof fn lemma_on_course<E>(
    job: JobView,
    carried: Seq<PendingEvent<E>>,
    replies: Seq<ReplyView<E>>,
)
    requires
        in_turn(job, carried, replies),
    ensures
        on_course(job, carried, replies),
    decreases replies.len(),
{
    if replies.len() > 0 {
        let before = replies.drop_last();
        lemma_on_course(job, carried, before);
        if before.len() > 0 {
            assert(replies[0] == before[0]);
        }
        let h = height_given(replies);
        let none = Seq::<PendingEvent<E>>::empty();
        let sends = sent(job, carried, before);
        assert(sends + Seq::<E>::empty() == sends);
        match (phase_after(job, carried, before), replies.last()) {
            (PhaseView::Syncing { .. }, _) => {
                if let ReplyView::SyncStatus(Some(SyncStatus::AtHeight(height))) = replies.last() {
                    lemma_uint256_bound(height);
                }
                assert(asked(job, carried, before) == targets(job, 0));
                assert(decoded(before) == none);
                assert(!looked_through(before));
                reveal(Seq::filter);
                assert(unconfirmed(none, h) == none);
                lemma_targets(job, 0);
            },
            (PhaseView::Checking { codec, .. }, _) => {
                lemma_targets(job, codec + 1);
            },
            (
                PhaseView::Decoding { codec, carried: left, pending, .. },
                ReplyView::Decoded(outcomes),
            ) => {
                let new = decoded_events(outcomes);
                lemma_looked_through(carried, decoded(before), new, h);
                if !looked_through(before) {
                    lemma_nothing_decoded(before);
                    reveal(Seq::filter);
                    assert(unconfirmed(none, h) == none);
                    assert(none + new == new);
                    assert(Seq::<E>::empty() + confirmed_events(carried + new, h)
                        == confirmed_events(carried + new, h));
                }
            },
            (PhaseView::Opening { codec, confirmed, .. }, _) => {
                lemma_targets(job, codec + 1);
                if confirmed.len() > 0 {
                    assert(sends.push(confirmed.first()) + confirmed.drop_first() == sends
                        + confirmed);
                } else {
                    assert(sends + confirmed == sends);
                }
            },
            (PhaseView::Sending { codec, unsent, .. }, _) => {
                lemma_targets(job, codec + 1);
                if unsent.len() > 0 {
                    assert(sends.push(unsent.first()) + unsent.drop_first() == sends + unsent);
                } else {
                    assert(sends + unsent == sends);
                }
            },
            _ => {},
        }
    }
}

proof fn lemma_nothing_decoded<E>(replies: Seq<ReplyView<E>>)
    requires
        !looked_through(replies),
    ensures
        decoded(replies) == Seq::<PendingEvent<E>>::empty(),
    decreases replies.len(),
{
    if replies.len() > 0 {
        lemma_nothing_decoded(replies.drop_last());
    }
}

/// What is sent on is what was decoded, or waited since the blocks before, and is
/// confirmed at the height that the node gave: each event once and in order, nothing
/// else, and all of them where the check ends well.
pub proof fn law_sent_once_confirmed<E>(
    job: JobView,
    carried: Seq<PendingEvent<E>>,
    replies: Seq<ReplyView<E>>,
)
    requires
        in_turn(job, carried, replies),
    ensures
        sent(job, carried, replies).is_prefix_of(found(carried, replies, height_given(replies))),
        action_after(job, carried, replies) == ActionView::<E>::Finish(Ok(())) ==> sent(
            job,
            carried,
            replies,
        ) == found(carried, replies, height_given(replies)),
{
    lemma_on_course(job, carried, replies);
    if replies.len() == 0 {
        assert(sent(job, carried, replies) == found(carried, replies, height_given(replies)));
    }
}

/// No event is dropped: where the check ends well, each event that waited since the
/// blocks before or was decoded has been sent, if it is confirmed at the height that the
/// node gave, and is handed on otherwise, in the same order. A check that looks for no
/// type of event hands on what waited.
pub proof fn law_unconfirmed_is_handed_on<E>(
    job: JobView,
    carried: Seq<PendingEvent<E>>,
    replies: Seq<ReplyView<E>>,
)
    requires
        in_turn(job, carried, replies),
        action_after(job, carried, replies) == ActionView::<E>::Finish(Ok(())),
    ensures
        ({
            let h = height_given(replies);
            let sends = sent(job, carried, replies);
            let phase = phase_after(job, carried, replies);
            let queue = carried + decoded(replies);
            if job.codecs.len() > 0 {
                &&& sends == confirmed_events(queue, h)
                &&& phase == PhaseView::Done { waiting: unconfirmed(queue, h) }
            } else {
                &&& sends == Seq::<E>::empty()
                &&& decoded(replies) == Seq::<PendingEvent<E>>::empty()
                &&& phase == PhaseView::Done { waiting: carried }
            }
        }),
{
    let h = height_given(replies);
    lemma_on_course(job, carried, replies);
    law_queues_joined(carried, decoded(replies), h);
    if job.codecs.len() == 0 {
        lemma_nothing_decoded(replies);
        reveal(Seq::filter);
        assert(carried + unconfirmed(decoded(replies), h) == carried);
    }
}

/// A check that fails hands on what waited since the blocks before and is not confirmed
/// yet. Where the events were not looked through, that is all that waited.
pub proof fn law_failed_check_hands_on<E>(
    job: JobView,
    carried: Seq<PendingEvent<E>>,
    replies: Seq<ReplyView<E>>,
)
    requires
        in_turn(job, carried, replies),
        action_after(job, carried, replies) matches ActionView::Finish(Err(_)),
    ensures
        phase_after(job, carried, replies) == (PhaseView::Done {
            waiting: still_carried(carried, replies, height_given(replies)),
        }),
{
    lemma_on_course(job, carried, replies);
}

/// Nothing that was found confirmed is held back: whenever the node is asked for a type
/// of event, and while its logs are decoded, all that was found so far has been sent,
/// and nothing else. While events are being sent, what is sent so far and what is yet
/// to be sent is all that was found. So when the node cannot be asked for a type of
/// event, what the types before it brought has been sent, and nothing more.
pub proof fn law_sent_as_found<E>(
    job: JobView,
    carried: Seq<PendingEvent<E>>,
    replies: Seq<ReplyView<E>>,
)
    requires
        in_turn(job, carried, replies),
    ensures
        ({
            let sends = sent(job, carried, replies);
            let finds = found(carried, replies, height_given(replies));
            &&& match phase_after(job, carried, replies) {
                PhaseView::Syncing { .. } => sends == finds,
                PhaseView::Checking { .. } => sends == finds,
                PhaseView::Decoding { .. } => sends == finds,
                PhaseView::Opening { confirmed, .. } => sends + confirmed == finds,
                PhaseView::Sending { unsent, .. } => sends + unsent == finds,
                PhaseView::Done { .. } => true,
            }
            &&& (action_after(job, carried, replies) matches ActionView::Finish(
                Err(ErrorView::CheckEvents(..)),
            )) ==> sends == finds
        }),
{
    lemma_on_course(job, carried, replies);
    let sends = sent(job, carried, replies);
    assert(sends + Seq::<E>::empty() == sends);
    if replies.len() == 0 {
        assert(sends == found(carried, replies, height_given(replies)));
    }
}

/// The node is asked for each type of event once, in the order of the types, and
/// for all of them where the check ends well.
pub proof fn law_every_event_type_checked<E>(
    job: JobView,
    carried: Seq<PendingEvent<E>>,
    replies: Seq<ReplyView<E>>,
)
    requires
        in_turn(job, carried, replies),
    ensures
        asked(job, carried, replies).is_prefix_of(targets(job, job.codecs.len())),
        action_after(job, carried, replies) == ActionView::<E>::Finish(Ok(())) ==> asked(
            job,
            carried,
            replies,
        ) == targets(job, job.codecs.len()),
{
    lemma_on_course(job, carried, replies);
    lemma_targets(job, asked(job, carried, replies).len() as int);
}

/// Until the node has a block that comes after the one processed last, and the
/// block to check has its confirmations, no log is asked for and nothing is sent,
/// and the check does not end well.
pub proof fn law_waits_for_confirmations<E>(
    job: JobView,
    carried: Seq<PendingEvent<E>>,
    replies: Seq<ReplyView<E>>,
)
    requires
        in_turn(job, carried, replies),
        replies.len() > 0,
        !(action_after(job, carried, replies) matches ActionView::Finish(Err(_))),
    ensures
        replies[0] matches ReplyView::SyncStatus(Some(SyncStatus::AtHeight(height)))
            && job.minimum_latest_block() <= height@ && (job.last_processed_block matches Some(
            last,
        ) ==> last < height@),
{
    lemma_on_course(job, carried, replies);
}

/// Every event that is sent was decoded from the block, or waited since one before, and
/// stands under as many blocks as it asks for at the height that the node gave.
pub proof fn law_sent_event_is_confirmed<E>(
    job: JobView,
    carried: Seq<PendingEvent<E>>,
    replies: Seq<ReplyView<E>>,
    event: E,
)
    requires
        in_turn(job, carried, replies),
        action_after(job, carried, replies) == ActionView::Send(event),
    ensures
        exists|p: PendingEvent<E>|
            {
                &&& p.event == event
                &&& #[trigger] p.confirmed_at(height_given(replies))
                &&& carried.contains(p) || exists|j: int|
                    0 <= j < replies.len() && #[trigger] reports(replies[j], p)
            },
{
    lemma_on_course(job, carried, replies);
    let h = height_given(replies);
    let sends = sent(job, carried, replies);
    let queue = carried + decoded(replies);
    let n = sends.len() - 1;
    assert(sends.last() == event);
    assert(found(carried, replies, h)[n] == event);
    let done = |p: PendingEvent<E>| p.confirmed_at(h);
    assert(n < found(carried, replies, h).len());
    assert(n < queue.filter(done).len());
    let p = queue.filter(done)[n];
    queue.lemma_filter_pred(done, n);
    queue.lemma_filter_contains_rev(done, p);
    assert(p.event == event);
    assert(p.confirmed_at(h));
    if !carried.contains(p) {
        let m = choose|m: int| 0 <= m < queue.len() && queue[m] == p;
        if m < carried.len() {
            assert(carried[m] == p);
        } else {
            assert(decoded(replies)[m - carried.len()] == p);
        }
        lemma_decoded(replies, p);
    }
}

proof fn lemma_decoded<E>(replies: Seq<ReplyView<E>>, p: PendingEvent<E>)
    requires
        decoded(replies).contains(p),
    ensures
        exists|j: int| 0 <= j < replies.len() && #[trigger] reports(replies[j], p),
    decreases replies.len(),
{
    let before = replies.drop_last();
    let n = choose|n: int| 0 <= n < decoded(replies).len() && decoded(replies)[n] == p;
    if n < decoded(before).len() {
        assert(decoded(before)[n] == p);
        lemma_decoded(before, p);
        let j = choose|j: int| 0 <= j < before.len() && #[trigger] reports(before[j], p);
        assert(reports(replies[j], p));
    } else {
        let outcomes = replies.last()->Decoded_0;
        let is_event = |o: Option<PendingEvent<E>>| o is Some;
        let m = n - decoded(before).len();
        let o = outcomes.filter(is_event)[m];
        outcomes.lemma_filter_pred(is_event, m);
        outcomes.lemma_filter_contains_rev(is_event, o);
        assert(o == Some(p));
        assert(reports(replies[replies.len() - 1], p));
    }
}

/// How a check can fail, and on what: each error comes on the reply that causes it,
/// and on no other.
pub proof fn law_error_causes<E>(job: JobView, phase: PhaseView<E>, reply: ReplyView<E>)
    requires
        phase.wf(job),
        phase.awaits(reply),
    ensures
        ({
            let action = phase.next(job, reply).1;
            let silent = reply == ReplyView::<E>::SyncStatus(None);
            let catching_up = reply == ReplyView::<E>::SyncStatus(Some(SyncStatus::Syncing));
            let behind = reply matches ReplyView::SyncStatus(Some(SyncStatus::AtHeight(height)))
                && job.last_processed_block matches Some(last) && height@ <= last;
            let shallow = reply matches ReplyView::SyncStatus(Some(SyncStatus::AtHeight(height)))
                && height@ < job.minimum_latest_block();
            &&& action == ActionView::<E>::Finish(Err(ErrorView::Timeout)) <==> silent
            &&& action == ActionView::<E>::Finish(Err(ErrorView::FallenBehind)) <==> catching_up
                || behind
            &&& action == ActionView::<E>::Finish(Err(ErrorView::MoreConfirmations)) <==> shallow
                && !behind
            &&& (action matches ActionView::Finish(Err(ErrorView::CheckEvents(_, _, _)))) <==> (
            reply matches ReplyView::Logs(Err(_)))
            &&& reply matches ReplyView::Logs(Err(reason)) ==> (phase matches PhaseView::Checking {
                codec,
                ..
            } && action == ActionView::<E>::Finish(
                Err(ErrorView::CheckEvents(job.signature(codec), job.address(codec), reason)),
            ))
            &&& (action matches ActionView::Finish(Err(ErrorView::Channel(_, _)))) <==> reply
                == ReplyView::<E>::ReceiverClosed(true) || reply == ReplyView::<E>::Sent(false)
        }),
{
}

/// A check that fails with an error that passes has not begun to work: the node was
/// asked how far it is and nothing else, nothing was sent, and all that waited since the
/// blocks before still waits.
pub proof fn law_recoverable_before_work<E>(
    job: JobView,
    carried: Seq<PendingEvent<E>>,
    replies: Seq<ReplyView<E>>,
    error: ErrorView,
)
    requires
        in_turn(job, carried, replies),
        action_after(job, carried, replies) == ActionView::<E>::Finish(Err(error)),
        error.recoverable(),
    ensures
        replies.len() == 1,
        asked(job, carried, replies).len() == 0,
        sent(job, carried, replies).len() == 0,
        phase_after(job, carried, replies) == (PhaseView::Done { waiting: carried }),
{
    let before = replies.drop_last();
    lemma_on_course(job, carried, before);
    law_error_causes(job, phase_after(job, carried, before), replies.last());
    assert(asked(job, carried, before).len() == 0);
    assert(sent(job, carried, before).len() == 0);
}

/// How much of a check is left: the event types, the steps for the current one, and the
/// events to send.
pub open spec fn left<E>(job: JobView, phase: PhaseView<E>) -> (int, int, int) {
    let types = job.codecs.len() as int;
    match phase {
        PhaseView::Syncing { .. } => (types + 1, 0, 0),
        PhaseView::Checking { codec, .. } => (types - codec, 4, 0),
        PhaseView::Decoding { codec, .. } => (types - codec, 3, 0),
        PhaseView::Opening { codec, .. } => (types - codec, 2, 0),
        PhaseView::Sending { codec, unsent, .. } => (types - codec, 1, unsent.len() as int),
        PhaseView::Done { .. } => (0, 0, 0),
    }
}

/// A check comes to an end: with each reply there is less of it left, and what is left
/// does not fall below nothing.
pub proof fn law_check_ends<E>(job: JobView, phase: PhaseView<E>, reply: ReplyView<E>)
    requires
        phase.wf(job),
        phase.awaits(reply),
    ensures
        ({
            let (now, next) = (left(job, phase), left(job, phase.next(job, reply).0));
            &&& next.0 >= 0 && next.1 >= 0 && next.2 >= 0
            &&& next.0 < now.0 || (next.0 == now.0 && (next.1 < now.1 || (next.1 == now.1 && next.2
                < now.2)))
        }),
{
}

/// How a check begins: a node that does not answer in time, is catching up, has no block
/// after the one processed last, or lacks blocks on top of the one to check ends it. From
/// any other the logs of the first type of event are asked for, of this block alone and of
/// the contract that emits the type.
pub proof fn law_check_begins<E>(
    job: JobView,
    carried: Seq<PendingEvent<E>>,
    status: Option<SyncStatus>,
)
    ensures
        ({
            let (phase, action) = PhaseView::Syncing { carried }.next(
                job,
                ReplyView::SyncStatus(status),
            );
            let over = PhaseView::Done { waiting: carried };
            match status {
                None => phase == over && action == ActionView::<E>::Finish(Err(ErrorView::Timeout)),
                Some(SyncStatus::Syncing) => phase == over && action == ActionView::<E>::Finish(
                    Err(ErrorView::FallenBehind),
                ),
                Some(SyncStatus::AtHeight(height)) => if job.last_processed_block is Some && height@
                    <= job.last_processed_block->0 {
                    phase == over && action == ActionView::<E>::Finish(Err(ErrorView::FallenBehind))
                } else if height@ < job.block + job.config.min_confirmations {
                    phase == over && action == ActionView::<E>::Finish(
                        Err(ErrorView::MoreConfirmations),
                    )
                } else if job.codecs.len() == 0 {
                    phase == over && action == ActionView::<E>::Finish(Ok(()))
                } else {
                    &&& phase == PhaseView::Checking {
                        latest: height@,
                        codec: 0,
                        carried,
                        pending: Seq::empty(),
                    }
                    &&& action == ActionView::<E>::CheckForEvents {
                        from_block: job.block,
                        to_block: job.block,
                        address: if job.codecs[0].kind == EventKind::Bridge {
                            job.config.bridge_contract
                        } else {
                            job.config.governance_contract
                        },
                        signature: job.codecs[0].signature@,
                    }
                },
            }
        }),
{
    assert(carried + Seq::<PendingEvent<E>>::empty() == carried);
}

/// Logs are decoded as the type of event that they were asked for as, log by log, with the
/// topics that are no hashes left out. Where the node cannot be asked, the check fails and
/// names the type and its contract.
pub proof fn law_logs_are_decoded_as_asked<E>(
    job: JobView,
    latest: nat,
    codec: int,
    carried: Seq<PendingEvent<E>>,
    pending: Seq<PendingEvent<E>>,
    given: Seq<LogView>,
    reason: Seq<char>,
)
    ensures
        ({
            let phase = PhaseView::Checking { latest, codec, carried, pending };
            let (decoding, action) = phase.next(job, ReplyView::Logs(Ok(given)));
            &&& decoding == PhaseView::Decoding { latest, codec, carried, pending }
            &&& action matches ActionView::Decode { codec: named, block_height, logs, confirmations }
            &&& named == codec
            &&& block_height == job.block
            &&& confirmations == job.config.min_confirmations
            &&& logs.len() == given.len()
            &&& forall|i: int|
                0 <= i < given.len() ==> #[trigger] logs[i] == given[i].hashes_only()
        }),
        (PhaseView::Checking { latest, codec, carried, pending }).next(
            job,
            ReplyView::Logs(Err(reason)),
        ) == (
            PhaseView::Done { waiting: carried },
            ActionView::<E>::Finish(
                Err(
                    ErrorView::CheckEvents(
                        job.codecs[codec].signature@,
                        if job.codecs[codec].kind == EventKind::Bridge {
                            job.config.bridge_contract
                        } else {
                            job.config.governance_contract
                        },
                        reason,
                    ),
                ),
            ),
        ),
{
}

/// What decoding brings is gone through log by log: what could be decoded is an event, in
/// the order of the logs, and what could not is none.
pub proof fn law_decoded_one_by_one<E>(
    outcomes: Seq<Option<PendingEvent<E>>>,
    p: PendingEvent<E>,
)
    ensures
        decoded_events(Seq::<Option<PendingEvent<E>>>::empty()) == Seq::<PendingEvent<E>>::empty(),
        decoded_events(outcomes.push(Some(p))) == decoded_events(outcomes).push(p),
        decoded_events(outcomes.push(None)) == decoded_events(outcomes),
{
    reveal(Seq::filter);
    let is_event = |o: Option<PendingEvent<E>>| o is Some;
    let event_of = |o: Option<PendingEvent<E>>| o->0;
    assert(outcomes.push(Some(p)).drop_last() == outcomes);
    assert(outcomes.push(None).drop_last() == outcomes);
    let kept = outcomes.filter(is_event);
    assert(kept.push(Some(p)).map_values(event_of) == kept.map_values(event_of).push(p));
}

/// Decoded events join those that wait. What is confirmed at the height that the node
/// gave is about to be sent, the oldest first, and the rest waits on; the receiver is
/// looked at before anything is sent.
pub proof fn law_decoded_events_are_sorted<E>(
    job: JobView,
    latest: nat,
    codec: int,
    carried: Seq<PendingEvent<E>>,
    pending: Seq<PendingEvent<E>>,
    outcomes: Seq<Option<PendingEvent<E>>>,
)
    ensures
        ({
            let phase = PhaseView::Decoding { latest, codec, carried, pending };
            let (opening, action) = phase.next(job, ReplyView::Decoded(outcomes));
            let new = decoded_events(outcomes);
            &&& action == ActionView::<E>::CheckReceiver
            &&& opening == PhaseView::Opening {
                latest,
                codec,
                carried: unconfirmed(carried, latest),
                pending: unconfirmed(pending, latest) + unconfirmed(new, latest),
                confirmed: confirmed_events(carried, latest) + (confirmed_events(pending, latest)
                    + confirmed_events(new, latest)),
            }
        }),
{
    let new = decoded_events(outcomes);
    law_queues_joined(pending, new, latest);
    law_queues_joined(carried, pending + new, latest);
}

/// Events are sent one at a time, in their order, as long as the receiver takes them.
/// After the last of them the next type of event is asked for, and after the last type the
/// check ends well and hands on what waits. A receiver that is gone ends the check, which
/// names the type of event that it was at.
pub proof fn law_events_are_sent_in_turn<E>(
    job: JobView,
    latest: nat,
    codec: int,
    carried: Seq<PendingEvent<E>>,
    pending: Seq<PendingEvent<E>>,
    unsent: Seq<E>,
)
    requires
        0 <= codec < job.codecs.len(),
    ensures
        ({
            let opening = PhaseView::Opening { latest, codec, carried, pending, confirmed: unsent };
            let sending = PhaseView::Sending { latest, codec, carried, pending, unsent };
            let (phase, action) = opening.next(job, ReplyView::ReceiverClosed(false));
            &&& sending.next(job, ReplyView::Sent(true)) == (phase, action)
            &&& if unsent.len() > 0 {
                &&& action == ActionView::Send(unsent[0])
                &&& phase == PhaseView::Sending {
                    latest,
                    codec,
                    carried,
                    pending,
                    unsent: unsent.skip(1),
                }
            } else if codec + 1 < job.codecs.len() {
                &&& phase == PhaseView::Checking { latest, codec: codec + 1, carried, pending }
                &&& action == ActionView::<E>::CheckForEvents {
                    from_block: job.block,
                    to_block: job.block,
                    address: if job.codecs[codec + 1].kind == EventKind::Bridge {
                        job.config.bridge_contract
                    } else {
                        job.config.governance_contract
                    },
                    signature: job.codecs[codec + 1].signature@,
                }
            } else {
                &&& phase == PhaseView::Done { waiting: carried + pending }
                &&& action == ActionView::<E>::Finish(Ok(()))
            }
            &&& opening.next(job, ReplyView::ReceiverClosed(true)) == sending.next(
                job,
                ReplyView::Sent(false),
            )
            &&& opening.next(job, ReplyView::ReceiverClosed(true)) == (
                PhaseView::Done { waiting: carried },
                ActionView::<E>::Finish(
                    Err(
                        ErrorView::Channel(
                            job.codecs[codec].signature@,
                            if job.codecs[codec].kind == EventKind::Bridge {
                                job.config.bridge_contract
                            } else {
                                job.config.governance_contract
                            },
                        ),
                    ),
                ),
            )
        }),
{
    if unsent.len() > 0 {
        assert(unsent.drop_first() == unsent.skip(1));
    }
}

/// What a check can take in: the reply to what it asked for, and nothing once it is over.
/// A height is taken in only where the height at which the block has its confirmations is
/// a number of 256 bits, unless the node has fallen behind.
pub proof fn law_replies_in_turn<E>(job: JobView, phase: PhaseView<E>, reply: ReplyView<E>)
    ensures
        phase.awaits(reply) <==> match phase {
            PhaseView::Syncing { .. } => reply is SyncStatus,
            PhaseView::Checking { .. } => reply is Logs,
            PhaseView::Decoding { .. } => reply is Decoded,
            PhaseView::Opening { .. } => reply is ReceiverClosed,
            PhaseView::Sending { .. } => reply is Sent,
            PhaseView::Done { .. } => false,
        },
        phase.awaits(reply) ==> (phase.in_range(job, reply) <==> !{
            &&& reply matches ReplyView::SyncStatus(Some(SyncStatus::AtHeight(height)))
            &&& job.last_processed_block matches Some(last) ==> last < height@
            &&& job.block + job.config.min_confirmations >= pow(2, 256)
        }),
{
    law_limit_is_256_bits();
}

proof fn lemma_question_in_hand<E>(
    job: JobView,
    carried: Seq<PendingEvent<E>>,
    replies: Seq<ReplyView<E>>,
)
    requires
        in_turn(job, carried, replies),
    ensures
        phase_after(job, carried, replies) matches PhaseView::Checking { codec, .. }
            ==> action_after(job, carried, replies) == (ActionView::<E>::CheckForEvents {
            from_block: job.block,
            to_block: job.block,
            address: job.address(codec),
            signature: job.signature(codec),
        }),
{
    if replies.len() > 0 {
        lemma_on_course(job, carried, replies.drop_last());
    }
}

/// Whenever logs are to be decoded, the type of event that they are decoded as is the one
/// whose signature and contract they were just asked for by, and they come from the block
/// that was asked about.
pub proof fn law_decoding_follows_question<E>(
    job: JobView,
    carried: Seq<PendingEvent<E>>,
    replies: Seq<ReplyView<E>>,
)
    requires
        in_turn(job, carried, replies),
        action_after(job, carried, replies) is Decode,
    ensures
        ({
            &&& action_after(job, carried, replies) matches ActionView::Decode {
                codec,
                block_height,
                logs,
                confirmations,
            }
            &&& replies.last() matches ReplyView::Logs(Ok(given))
            &&& action_after(job, carried, replies.drop_last()) matches ActionView::CheckForEvents {
                from_block,
                to_block,
                address,
                signature,
            }
            &&& 0 <= codec < job.codecs.len()
            &&& signature == job.codecs[codec].signature@
            &&& address == if job.codecs[codec].kind == EventKind::Bridge {
                job.config.bridge_contract
            } else {
                job.config.governance_contract
            }
            &&& from_block == job.block && to_block == job.block && block_height == job.block
            &&& confirmations == job.config.min_confirmations
            &&& logs.len() == given.len()
            &&& forall|i: int|
                0 <= i < given.len() ==> #[trigger] logs[i] == given[i].hashes_only()
        }),
{
    if replies.len() > 0 {
        lemma_on_course(job, carried, replies.drop_last());
        lemma_question_in_hand(job, carried, replies.drop_last());
    }
}

/// The types of events that logs were decoded as, in order.
pub open spec fn types_decoded<E>(
    job: JobView,
    carried: Seq<PendingEvent<E>>,
    replies: Seq<ReplyView<E>>,
) -> Seq<int>
    decreases replies.len(),
{
    if replies.len() == 0 {
        Seq::empty()
    } else {
        let before = types_decoded(job, carried, replies.drop_last());
        match action_after(job, carried, replies) {
            ActionView::Decode { codec, .. } => before.push(codec),
            _ => before,
        }
    }
}

proof fn lemma_types_decoded<E>(
    job: JobView,
    carried: Seq<PendingEvent<E>>,
    replies: Seq<ReplyView<E>>,
)
    requires
        in_turn(job, carried, replies),
    ensures
        ({
            let types = types_decoded(job, carried, replies);
            &&& types == Seq::new(types.len(), |i: int| i)
            &&& types.len() <= job.codecs.len()
            &&& match phase_after(job, carried, replies) {
                PhaseView::Syncing { .. } => types.len() == 0,
                PhaseView::Checking { codec, .. } => types.len() == codec,
                PhaseView::Decoding { codec, .. } => types.len() == codec + 1,
                PhaseView::Opening { codec, .. } => types.len() == codec + 1,
                PhaseView::Sending { codec, .. } => types.len() == codec + 1,
                PhaseView::Done { .. } => action_after(job, carried, replies) == ActionView::<
                    E,
                >::Finish(Ok(())) ==> types.len() == job.codecs.len(),
            }
        }),
    decreases replies.len(),
{
    if replies.len() > 0 {
        lemma_types_decoded(job, carried, replies.drop_last());
        lemma_on_course(job, carried, replies.drop_last());
        let (before, types) = (
            types_decoded(job, carried, replies.drop_last()),
            types_decoded(job, carried, replies),
        );
        assert(types == Seq::new(types.len(), |i: int| i));
    }
}

/// Logs are decoded as the first type of event, then as the second, and so on, with none
/// left out and none twice, and as every type where the check ends well.
pub proof fn law_every_event_type_decoded<E>(
    job: JobView,
    carried: Seq<PendingEvent<E>>,
    replies: Seq<ReplyView<E>>,
)
    requires
        in_turn(job, carried, replies),
    ensures
        types_decoded(job, carried, replies).len() <= job.codecs.len(),
        forall|i: int|
            0 <= i < types_decoded(job, carried, replies).len() ==> #[trigger] types_decoded(
                job,
                carried,
                replies,
            )[i] == i,
        action_after(job, carried, replies) == ActionView::<E>::Finish(Ok(())) ==> types_decoded(
            job,
            carried,
            replies,
        ).len() == job.codecs.len(),
{
    lemma_types_decoded(job, carried, replies);
}

/// The questions of a check go through the list of event types: the first is for the first
/// type of the list and the contract that emits it, the next for the second, and so on.
pub proof fn law_questions_follow_the_list<E>(
    job: JobView,
    carried: Seq<PendingEvent<E>>,
    replies: Seq<ReplyView<E>>,
    i: int,
)
    requires
        in_turn(job, carried, replies),
        0 <= i < asked(job, carried, replies).len(),
    ensures
        i < job.codecs.len(),
        asked(job, carried, replies)[i].1 == job.codecs[i].signature@,
        asked(job, carried, replies)[i].0 == if job.codecs[i].kind == EventKind::Bridge {
            job.config.bridge_contract
        } else {
            job.config.governance_contract
        },
{
    law_every_event_type_checked(job, carried, replies);
}

/// An error that names a type of event names the one that was asked for last.
pub proof fn law_error_names_last_question<E>(
    job: JobView,
    carried: Seq<PendingEvent<E>>,
    replies: Seq<ReplyView<E>>,
)
    requires
        in_turn(job, carried, replies),
    ensures
        action_after(job, carried, replies) matches ActionView::Finish(
            Err(ErrorView::CheckEvents(signature, contract, reason)),
        ) ==> {
            &&& asked(job, carried, replies).len() > 0
            &&& asked(job, carried, replies).last() == (contract, signature)
            &&& replies.last() == ReplyView::<E>::Logs(Err(reason))
        },
        action_after(job, carried, replies) matches ActionView::Finish(
            Err(ErrorView::Channel(signature, contract)),
        ) ==> {
            &&& asked(job, carried, replies).len() > 0
            &&& asked(job, carried, replies).last() == (contract, signature)
            &&& replies.last() == ReplyView::<E>::ReceiverClosed(true) || replies.last()
                == ReplyView::<E>::Sent(false)
        },
{
    if replies.len() > 0 {
        lemma_on_course(job, carried, replies.drop_last());
    }
}

} // verus!
