//! Events that wait for their confirmations.

use vstd::prelude::*;

use crate::uint256::Uint256;

verus! {

/// An event waiting for a certain number of confirmations before it is sent to
/// the ledger.
pub struct PendingEvent<E> {
    /// The number of confirmations after which the event is final.
    pub confirmations: Uint256,
    /// The height of the block that the event comes from.
    pub block_height: Uint256,
    /// The event itself.
    pub event: E,
}

impl<E> PendingEvent<E> {
    /// Whether at least as many blocks as the event asks for stand on top of its
    /// block when the chain has reached `height`.
    pub open spec fn confirmed_at(&self, height: nat) -> bool {
        self.block_height@ + self.confirmations@ <= height
    }

    /// Checks whether the event has its confirmations at block `height`.
    pub fn is_confirmed(&self, height: &Uint256) -> (r: bool)
        ensures
            r == self.confirmed_at(height@),
            r == (self.block_height@ + self.confirmations@ <= height@),
    {
        self.block_height.at_most(height) && self.confirmations.at_most(
            &height.minus(&self.block_height),
        )
    }
}

/// The events of `queue`, in its order.
pub open spec fn events_of<E>(queue: Seq<PendingEvent<E>>) -> Seq<E> {
    queue.map_values(|p: PendingEvent<E>| p.event)
}

/// The events of `queue` that are confirmed at `height`, in the order of the queue.
pub open spec fn confirmed_events<E>(queue: Seq<PendingEvent<E>>, height: nat) -> Seq<E> {
    queue.filter(|p: PendingEvent<E>| p.confirmed_at(height)).map_values(
        |p: PendingEvent<E>| p.event,
    )
}

/// What remains of `queue` once the events confirmed at `height` are taken out.
pub open spec fn unconfirmed<E>(queue: Seq<PendingEvent<E>>, height: nat) -> Seq<PendingEvent<E>> {
    queue.filter(|p: PendingEvent<E>| !p.confirmed_at(height))
}

proof fn lemma_next_in_queue<E>(queue: Seq<PendingEvent<E>>, n: int, height: nat)
    requires
        0 <= n < queue.len(),
    ensures
        queue[n].confirmed_at(height) ==> {
            &&& confirmed_events(queue.take(n + 1), height) == confirmed_events(
                queue.take(n),
                height,
            ).push(queue[n].event)
            &&& unconfirmed(queue.take(n + 1), height) == unconfirmed(queue.take(n), height)
        },
        !queue[n].confirmed_at(height) ==> {
            &&& confirmed_events(queue.take(n + 1), height) == confirmed_events(
                queue.take(n),
                height,
            )
            &&& unconfirmed(queue.take(n + 1), height) == unconfirmed(queue.take(n), height).push(
                queue[n],
            )
        },
{
    reveal(Seq::filter);
    assert(queue.take(n + 1).drop_last() == queue.take(n));
    let kept = queue.take(n).filter(|p: PendingEvent<E>| p.confirmed_at(height));
    assert(kept.push(queue[n]).map_values(|p: PendingEvent<E>| p.event) == kept.map_values(
        |p: PendingEvent<E>| p.event,
    ).push(queue[n].event));
}

/// Takes the events that have reached their number of confirmations out of the
/// queue of pending events, and hands them out.
pub fn process_queue<E>(latest_block: &Uint256, pending: &mut Vec<PendingEvent<E>>) -> (confirmed:
    Vec<E>)
    ensures
        confirmed@ == confirmed_events(old(pending)@, latest_block@),
        final(pending)@ == unconfirmed(old(pending)@, latest_block@),
{
    let mut pending_tmp: Vec<PendingEvent<E>> = Vec::with_capacity(pending.len());
    std::mem::swap(&mut pending_tmp, pending);
    let ghost queue = pending_tmp@;
    let mut confirmed: Vec<E> = Vec::new();
    proof {
        reveal(Seq::filter);
        assert(queue.take(0).len() == 0);
        assert(queue.take(queue.len() as int) == queue);
    }
    for item in iter: pending_tmp
        invariant
            iter.seq() == queue,
            confirmed@ == confirmed_events(queue.take(iter.index()), latest_block@),
            pending@ == unconfirmed(queue.take(iter.index()), latest_block@),
    {
        proof {
            lemma_next_in_queue(queue, iter.index(), latest_block@);
        }
        if item.is_confirmed(latest_block) {
            confirmed.push(item.event);
        } else {
            pending.push(item);
        }
    }
    confirmed
}

/// An event that has its confirmations at one height has them at every greater one.
pub proof fn law_confirmed_for_good<E>(p: PendingEvent<E>, height: nat, later: nat)
    requires
        p.confirmed_at(height),
        height <= later,
    ensures
        p.confirmed_at(later),
{
}

/// Events that are not confirmed yield none, and all of them stay in the queue.
pub proof fn law_nothing_confirmed<E>(queue: Seq<PendingEvent<E>>, height: nat)
    requires
        forall|i: int| 0 <= i < queue.len() ==> !(#[trigger] queue[i]).confirmed_at(height),
    ensures
        confirmed_events(queue, height) == Seq::<E>::empty(),
        unconfirmed(queue, height) == queue,
    decreases queue.len(),
{
    reveal(Seq::filter);
    if queue.len() > 0 {
        assert forall|i: int| 0 <= i < queue.drop_last().len() implies !(
        #[trigger] queue.drop_last()[i]).confirmed_at(height) by {
            assert(queue.drop_last()[i] == queue[i]);
        }
        law_nothing_confirmed(queue.drop_last(), height);
        assert(queue.drop_last().push(queue.last()) == queue);
    }
    assert(confirmed_events(queue, height) == Seq::<E>::empty());
    assert(unconfirmed(queue, height) == queue);
}

/// No event that is left in the queue is confirmed, and every one that is left was
/// there before.
pub proof fn law_left_unconfirmed<E>(queue: Seq<PendingEvent<E>>, height: nat)
    ensures
        forall|i: int|
            0 <= i < unconfirmed(queue, height).len() ==> !(#[trigger] unconfirmed(
                queue,
                height,
            )[i]).confirmed_at(height) && queue.contains(unconfirmed(queue, height)[i]),
{
    broadcast use Seq::lemma_filter_pred;

    let keep = |p: PendingEvent<E>| !p.confirmed_at(height);
    assert forall|i: int| 0 <= i < unconfirmed(queue, height).len() implies !(
    #[trigger] unconfirmed(queue, height)[i]).confirmed_at(height) && queue.contains(
        unconfirmed(queue, height)[i],
    ) by {
        assert(keep(queue.filter(keep)[i]));
        queue.lemma_filter_contains_rev(keep, queue.filter(keep)[i]);
    }
}

/// A queue that was just processed has nothing more to hand out at the same height.
pub proof fn law_processed_once<E>(queue: Seq<PendingEvent<E>>, height: nat)
    ensures
        confirmed_events(unconfirmed(queue, height), height) == Seq::<E>::empty(),
        unconfirmed(unconfirmed(queue, height), height) == unconfirmed(queue, height),
{
    law_left_unconfirmed(queue, height);
    law_nothing_confirmed(unconfirmed(queue, height), height);
}

/// No event is lost and none is made up: what is handed out and what is left are
/// together as many as the queue held.
pub proof fn law_queue_is_split<E>(queue: Seq<PendingEvent<E>>, height: nat)
    ensures
        queue.to_multiset() =~= queue.filter(
            |p: PendingEvent<E>| p.confirmed_at(height),
        ).to_multiset().add(unconfirmed(queue, height).to_multiset()),
        events_of(queue).to_multiset() =~= confirmed_events(queue, height).to_multiset().add(
            events_of(unconfirmed(queue, height)).to_multiset(),
        ),
        confirmed_events(queue, height).len() + unconfirmed(queue, height).len() == queue.len(),
    decreases queue.len(),
{
    broadcast use vstd::seq_lib::group_to_multiset_ensures;

    reveal(Seq::filter);
    if queue.len() > 0 {
        let (before, last) = (queue.drop_last(), queue.last());
        law_queue_is_split(before, height);
        assert(before.push(last) == queue);
        assert(events_of(queue) == events_of(before).push(last.event));
        if last.confirmed_at(height) {
            assert(confirmed_events(queue, height) == confirmed_events(before, height).push(
                last.event,
            ));
        } else {
            assert(events_of(unconfirmed(queue, height)) == events_of(
                unconfirmed(before, height),
            ).push(last.event));
        }
    }
}

/// The events of two queues, one behind the other.
pub proof fn law_queues_joined<E>(
    first: Seq<PendingEvent<E>>,
    second: Seq<PendingEvent<E>>,
    height: nat,
)
    ensures
        confirmed_events(first + second, height) == confirmed_events(first, height)
            + confirmed_events(second, height),
        unconfirmed(first + second, height) == unconfirmed(first, height) + unconfirmed(
            second,
            height,
        ),
{
    let done = |p: PendingEvent<E>| p.confirmed_at(height);
    let event_of = |p: PendingEvent<E>| p.event;
    Seq::filter_distributes_over_add(first, second, done);
    Seq::filter_distributes_over_add(
        first,
        second,
        |p: PendingEvent<E>| !p.confirmed_at(height),
    );
    assert((first.filter(done) + second.filter(done)).map_values(event_of) == first.filter(
        done,
    ).map_values(event_of) + second.filter(done).map_values(event_of));
}

/// An event is confirmed at a height just where as many blocks as it asks for stand on top
/// of its block: from the height `block + confirmations` on, and not one block before. To
/// move the chain and the event by the same number of blocks changes nothing.
pub proof fn law_confirmed_from_its_height_on<E>(
    p: PendingEvent<E>,
    height: nat,
    moved: PendingEvent<E>,
    by: nat,
)
    requires
        moved.block_height@ == p.block_height@ + by,
        moved.confirmations@ == p.confirmations@,
    ensures
        p.confirmed_at(height) <==> p.block_height@ + p.confirmations@ <= height,
        p.confirmed_at(p.block_height@ + p.confirmations@),
        height < p.block_height@ + p.confirmations@ ==> !p.confirmed_at(height),
        moved.confirmed_at(height + by) <==> p.confirmed_at(height),
{
}

/// Each event of a queue is dealt with by itself: it is handed out where enough blocks
/// stand on top of its own, and stays as it is otherwise, and the order is kept.
pub proof fn law_queue_one_by_one<E>(queue: Seq<PendingEvent<E>>, p: PendingEvent<E>, height: nat)
    ensures
        confirmed_events(Seq::<PendingEvent<E>>::empty(), height) == Seq::<E>::empty(),
        unconfirmed(Seq::<PendingEvent<E>>::empty(), height) == Seq::<PendingEvent<E>>::empty(),
        p.block_height@ + p.confirmations@ <= height ==> {
            &&& confirmed_events(queue.push(p), height) == confirmed_events(queue, height).push(
                p.event,
            )
            &&& unconfirmed(queue.push(p), height) == unconfirmed(queue, height)
        },
        p.block_height@ + p.confirmations@ > height ==> {
            &&& confirmed_events(queue.push(p), height) == confirmed_events(queue, height)
            &&& unconfirmed(queue.push(p), height) == unconfirmed(queue, height).push(p)
        },
        events_of(queue.push(p)) == events_of(queue).push(p.event),
        events_of(Seq::<PendingEvent<E>>::empty()) == Seq::<E>::empty(),
{
    reveal(Seq::filter);
    let n = queue.len() as int;
    lemma_next_in_queue(queue.push(p), n, height);
    assert(queue.push(p).take(n) == queue);
    assert(queue.push(p).take(n + 1) == queue.push(p));
}

} // verus!
