//! Publish/subscribe of internal notifications, keyed by event kind.
use vstd::prelude::*;

verus! {

/// A subscriber registered for one kind of event.
#[derive(Clone, Copy, Debug, PartialEq, Eq, Structural)]
pub struct Subscription {
    pub event: u64,
    pub subscriber: u64,
}

/// The subscribers reached by publishing `event`, in subscription order.
pub open spec fn subscribers_of(s: Seq<Subscription>, event: u64) -> Seq<u64>
    decreases s.len(),
{
    if s.len() == 0 {
        Seq::empty()
    } else {
        let rest = subscribers_of(s.drop_last(), event);
        if s.last().event == event {
            rest.push(s.last().subscriber)
        } else {
            rest
        }
    }
}

/// The subscriptions of `s` to `event`.
pub open spec fn subscriptions_to(s: Seq<Subscription>, event: u64) -> Seq<Subscription> {
    s.filter(|x: Subscription| x.event == event)
}

/// Subscriptions made once at start-up and never removed.
pub struct EventHandlers {
    subs: Vec<Subscription>,
}

impl View for EventHandlers {
    type V = Seq<Subscription>;

    closed spec fn view(&self) -> Seq<Subscription> {
        self.subs@
    }
}

impl EventHandlers {
    pub fn new() -> (r: EventHandlers)
        ensures
            r@ == Seq::<Subscription>::empty(),
    {
        EventHandlers { subs: Vec::new() }
    }

    /// Subscribes `subscriber` to events of kind `event`.
    pub fn add_handler(&mut self, event: u64, subscriber: u64)
        ensures
            final(self)@ == old(self)@.push(Subscription { event, subscriber }),
    {
        self.subs.push(Subscription { event, subscriber });
    }

    /// The subscribers to schedule for one publication of `event`; each is
    /// to be run as an independent task.
    pub fn emit(&self, event: u64) -> (r: Vec<u64>)
        ensures
            r@ == subscribers_of(self@, event),
    {
        let mut r: Vec<u64> = Vec::new();
        let mut i: usize = 0;
        while i < self.subs.len()
            invariant
                i <= self@.len(),
                r@ == subscribers_of(self@.subrange(0, i as int), event),
            decreases self@.len() - i,
        {
            let s = self.subs[i];
            if s.event == event {
                r.push(s.subscriber);
            }
            proof {
                assert(self@.subrange(0, i + 1).drop_last() =~= self@.subrange(0, i as int));
            }
            i = i + 1;
        }
        proof {
            assert(self@.subrange(0, i as int) =~= self@);
        }
        r
    }
}

/// Publishing an event reaches one invocation per subscription to its kind,
/// and only subscribers to that kind.
pub proof fn lemma_publish_reaches_exactly_subscribers(s: Seq<Subscription>, event: u64)
    ensures
        subscribers_of(s, event).len() == subscriptions_to(s, event).len(),
        forall|k: int| 0 <= k < subscribers_of(s, event).len()
            ==> s.contains(Subscription { event, subscriber: #[trigger] subscribers_of(s, event)[k] }),
    decreases s.len(),
{
    reveal(Seq::filter);
    if s.len() > 0 {
        lemma_publish_reaches_exactly_subscribers(s.drop_last(), event);
        let rest = subscribers_of(s.drop_last(), event);
        assert forall|k: int| 0 <= k < subscribers_of(s, event).len()
            implies s.contains(Subscription { event, subscriber: #[trigger] subscribers_of(s, event)[k] }) by {
            if k < rest.len() {
                assert(subscribers_of(s, event)[k] == rest[k]);
                let x = Subscription { event, subscriber: rest[k] };
                let j = choose|j: int| 0 <= j < s.drop_last().len() && s.drop_last()[j] == x;
                assert(s[j] == x);
            } else {
                assert(s[s.len() - 1] == Subscription { event, subscriber: subscribers_of(s, event)[k] });
            }
        }
    }
}

} // verus!
