//! The event merger: the producers of events and the point where their
//! events become one stream.
//!
//! Three producers feed the stream: a timer, a watch on the configuration,
//! and a startup producer that speaks once. Waiting is the driver's work.
//! What is decided here is what the startup producer does each time it is
//! asked, and in which order events that were handed in come out again.

use crate::state::Message;
use std::collections::VecDeque;
use vstd::prelude::*;

verus! {

/// The period of the timer, in seconds: one tick each.
pub const TICK_PERIOD_SECS: u64 = 1;

/// How many events the merge point holds before it pushes back.
pub const CAPACITY: usize = 4;

/// What a producer does when it is asked for its next event.
#[derive(Clone, Debug, PartialEq, Eq)]
pub enum Emission<C> {
    /// It hands over an event.
    Emit(Message<C>),
    /// It has nothing to hand over and stays alive.
    Idle,
}

/// What the startup producer does when it is asked and `emitted` tells
/// whether it has spoken before, with what `emitted` is afterwards: it
/// hands over the startup signal the first time and is idle ever after.
pub open spec fn polled<C>(emitted: bool) -> (bool, Emission<C>) {
    if emitted {
        (true, Emission::Idle)
    } else {
        (true, Emission::Emit(Message::SubscriptionChannel))
    }
}

/// What the startup producer does over `n` times of asking, in order,
/// beginning where `emitted` tells whether it has spoken before.
pub open spec fn emissions<C>(emitted: bool, n: nat) -> Seq<Emission<C>>
    decreases n,
{
    if n == 0 {
        Seq::empty()
    } else {
        seq![polled::<C>(emitted).1] + emissions(polled::<C>(emitted).0, (n - 1) as nat)
    }
}

/// The startup producer: it hands over one startup signal and then stays
/// alive without another word, so that the stream it feeds never ends for
/// its sake.
#[derive(Debug)]
pub struct Bootstrap {
    emitted: bool,
}

impl Bootstrap {
    /// Whether the startup signal was handed over.
    pub closed spec fn emitted(&self) -> bool {
        self.emitted
    }

    /// A producer that has not spoken yet.
    pub fn new() -> (producer: Self)
        ensures
            !producer.emitted(),
    {
        Bootstrap { emitted: false }
    }

    /// Tells whether the startup signal was handed over.
    pub fn has_emitted(&self) -> (b: bool)
        ensures
            b == self.emitted(),
    {
        self.emitted
    }

    /// Asks the producer for its next event.
    pub fn poll<C>(&mut self) -> (emission: Emission<C>)
        ensures
            (final(self).emitted(), emission) == polled::<C>(old(self).emitted()),
    {
        if self.emitted {
            Emission::Idle
        } else {
            self.emitted = true;
            Emission::Emit(Message::SubscriptionChannel)
        }
    }
}

/// However often a fresh startup producer is asked, it hands over the
/// startup signal the first time and is idle every time after that: one
/// event in all, and never an end.
pub proof fn lemma_bootstrap_emits_once<C>(n: nat)
    ensures
        emissions::<C>(false, n).len() == n,
        n > 0 ==> emissions::<C>(false, n)[0] == Emission::<C>::Emit(Message::SubscriptionChannel),
        forall|i: int| 1 <= i < n ==> #[trigger] emissions::<C>(false, n)[i] == Emission::<C>::Idle,
{
    if n > 0 {
        lemma_spent_bootstrap_is_idle::<C>((n - 1) as nat);
        let rest = emissions::<C>(true, (n - 1) as nat);
        assert forall|i: int| 1 <= i < n implies #[trigger] emissions::<C>(false, n)[i]
            == Emission::<C>::Idle by {
            assert(emissions::<C>(false, n)[i] == rest[i - 1]);
        }
    }
}

/// A startup producer that has spoken is idle however often it is asked.
pub proof fn lemma_spent_bootstrap_is_idle<C>(n: nat)
    ensures
        emissions::<C>(true, n).len() == n,
        forall|i: int| 0 <= i < n ==> #[trigger] emissions::<C>(true, n)[i] == Emission::<C>::Idle,
    decreases n,
{
    if n > 0 {
        lemma_spent_bootstrap_is_idle::<C>((n - 1) as nat);
        let rest = emissions::<C>(true, (n - 1) as nat);
        assert forall|i: int| 0 <= i < n implies #[trigger] emissions::<C>(true, n)[i]
            == Emission::<C>::Idle by {
            if i > 0 {
                assert(emissions::<C>(true, n)[i] == rest[i - 1]);
            }
        }
    }
}

/// The merge point after `message` was offered to it while it held
/// `pending` and had room for `capacity` events, with the message that is
/// handed back: none where there was room, the offered one where there was
/// not.
pub open spec fn offered<C>(pending: Seq<Message<C>>, capacity: nat, message: Message<C>) -> (
    Seq<Message<C>>,
    Option<Message<C>>,
) {
    if pending.len() < capacity {
        (pending.push(message), None)
    } else {
        (pending, Some(message))
    }
}

/// The merge point after its next event was taken while it held `pending`,
/// with that event: the one that has waited longest, if any waits.
pub open spec fn taken<C>(pending: Seq<Message<C>>) -> (Seq<Message<C>>, Option<Message<C>>) {
    if pending.len() == 0 {
        (pending, None)
    } else {
        (pending.drop_first(), Some(pending[0]))
    }
}

/// The point where the events of all producers become one stream: a queue
/// with a fixed capacity that hands events on in the order in which it
/// accepted them. A full queue accepts nothing and drops nothing: the event
/// goes back to its producer, which has to wait and offer it again.
pub struct EventMerger<C> {
    pending: VecDeque<Message<C>>,
    capacity: usize,
}

impl<C> View for EventMerger<C> {
    type V = Seq<Message<C>>;

    closed spec fn view(&self) -> Seq<Message<C>> {
        self.pending@
    }
}

impl<C> EventMerger<C> {
    #[verifier::type_invariant]
    spec fn within_capacity(&self) -> bool {
        self.pending@.len() <= self.capacity
    }

    /// How many events the merge point holds at most.
    pub closed spec fn room(&self) -> nat {
        self.capacity as nat
    }

    /// An empty merge point with room for `capacity` events.
    pub fn new(capacity: usize) -> (merger: Self)
        ensures
            merger@ == Seq::<Message<C>>::empty(),
            merger.room() == capacity,
    {
        EventMerger { pending: VecDeque::new(), capacity }
    }

    /// How many events the merge point holds at most.
    pub fn capacity(&self) -> (capacity: usize)
        ensures
            capacity == self.room(),
            self@.len() <= capacity,
    {
        proof {
            use_type_invariant(self);
        }
        self.capacity
    }

    /// How many events wait to be taken.
    pub fn len(&self) -> (len: usize)
        ensures
            len == self@.len(),
            len <= self.room(),
    {
        proof {
            use_type_invariant(self);
        }
        self.pending.len()
    }

    /// Offers an event of some producer. Where there is room the event
    /// joins the end of the queue; where there is none the queue stays as
    /// it is and the event comes back as the error.
    pub fn offer(&mut self, message: Message<C>) -> (answer: Result<(), Message<C>>)
        ensures
            final(self).room() == old(self).room(),
            final(self)@ == offered(old(self)@, old(self).room(), message).0,
            match answer {
                Ok(_) => offered(old(self)@, old(self).room(), message).1 is None,
                Err(back) => offered(old(self)@, old(self).room(), message).1 == Some(back),
            },
    {
        proof {
            use_type_invariant(&*self);
        }
        if self.pending.len() < self.capacity {
            // The queue leaves the merger while it changes and comes back
            // within capacity.
            let mut pending = VecDeque::new();
            std::mem::swap(&mut self.pending, &mut pending);
            pending.push_back(message);
            self.pending = pending;
            Ok(())
        } else {
            Err(message)
        }
    }

    /// Takes the event that has waited longest, if any waits. That none
    /// waits says nothing of the stream's end: it has none.
    pub fn next(&mut self) -> (event: Option<Message<C>>)
        ensures
            final(self).room() == old(self).room(),
            (final(self)@, event) == taken(old(self)@),
    {
        proof {
            use_type_invariant(&*self);
        }
        let mut pending = VecDeque::new();
        std::mem::swap(&mut self.pending, &mut pending);
        let event = pending.pop_front();
        self.pending = pending;
        proof {
            if event is Some {
                assert(self.pending@ =~= old(self).pending@.drop_first());
            }
        }
        event
    }
}

/// One step of a producer or of the consumer at the merge point.
pub ghost enum Step<C> {
    /// A producer offers an event.
    Offer(Message<C>),
    /// The consumer takes the next event.
    Next,
}

/// What a run of steps has led to.
pub ghost struct Trace<C> {
    /// The events that were accepted, in the order of their acceptance.
    pub accepted: Seq<Message<C>>,
    /// The events that were delivered, in the order of their delivery.
    pub delivered: Seq<Message<C>>,
    /// The events that still wait.
    pub pending: Seq<Message<C>>,
}

/// What the steps `steps`, made in order at an empty merge point with room
/// for `capacity` events, lead to.
pub open spec fn run<C>(capacity: nat, steps: Seq<Step<C>>) -> Trace<C>
    decreases steps.len(),
{
    if steps.len() == 0 {
        Trace { accepted: Seq::empty(), delivered: Seq::empty(), pending: Seq::empty() }
    } else {
        let before = run(capacity, steps.drop_last());
        match steps.last() {
            Step::Offer(message) => {
                let (pending, back) = offered(before.pending, capacity, message);
                Trace {
                    accepted: if back is None {
                        before.accepted.push(message)
                    } else {
                        before.accepted
                    },
                    delivered: before.delivered,
                    pending,
                }
            },
            Step::Next => {
                let (pending, event) = taken(before.pending);
                Trace {
                    accepted: before.accepted,
                    delivered: match event {
                        Some(message) => before.delivered.push(message),
                        None => before.delivered,
                    },
                    pending,
                }
            },
        }
    }
}

/// Whatever the producers and the consumer do, and in whatever order, the
/// events delivered followed by the events that wait are the events
/// accepted, in the order of their acceptance: nothing is lost, nothing
/// overtakes, and no more wait than there is room for.
pub proof fn lemma_nothing_lost_or_reordered<C>(capacity: nat, steps: Seq<Step<C>>)
    ensures
        run(capacity, steps).delivered + run(capacity, steps).pending == run(
            capacity,
            steps,
        ).accepted,
        run(capacity, steps).pending.len() <= capacity,
    decreases steps.len(),
{
    if steps.len() > 0 {
        lemma_nothing_lost_or_reordered(capacity, steps.drop_last());
        let before = run(capacity, steps.drop_last());
        let after = run(capacity, steps);
        assert(after.delivered + after.pending =~= after.accepted);
    } else {
        let after = run(capacity, steps);
        assert(after.delivered + after.pending =~= after.accepted);
    }
}

} // verus!
