//! The reload fan-out: one publisher (the change watcher), many subscribers
//! (waiting request handlers).  The broadcaster counts published events;
//! a subscription remembers how many it has consumed.  Waiting and waking
//! are transport concerns left to the caller, which runs a loop of polls;
//! every decision inside that loop is made here.

use vstd::prelude::*;
use vstd::string::*;

verus! {

/// The shared state of the fan-out: how many events were published, and how
/// many a slow subscriber may fall behind before events are dropped for it.
pub struct Broadcaster {
    pub published: u64,
    pub capacity: u64,
}

/// One subscriber's view of the fan-out: how many events it has consumed.
pub struct Subscription {
    pub seen: u64,
}

/// What one poll of a subscription yields.
#[derive(Clone, Copy, PartialEq, Eq, Structural, Debug)]
pub enum PollOutcome {
    /// No event has been published since the subscriber last looked.
    Pending,
    /// The next event is delivered.
    Event,
    /// The subscriber fell behind by more than the capacity; the stated
    /// number of events were dropped for it, and it is moved to the oldest
    /// event still retained.
    Lagged { missed: u64 },
}

impl Broadcaster {
    pub open spec fn wf(&self) -> bool {
        self.capacity >= 1
    }

    /// Makes a fresh broadcaster with nothing published.
    pub fn new(capacity: u64) -> (b: Broadcaster)
        requires
            capacity >= 1,
        ensures
            b.published == 0,
            b.capacity == capacity,
            b.wf(),
    {
        Broadcaster { published: 0, capacity }
    }

    /// Registers a new subscriber; it observes only events published after
    /// this point.
    pub fn subscribe(&self) -> (s: Subscription)
        ensures
            s.seen == self.published,
            s.valid_for(*self),
    {
        Subscription { seen: self.published }
    }

    /// Records one published event.
    pub fn publish(&mut self)
        requires
            old(self).published < u64::MAX,
        ensures
            final(self).published == old(self).published + 1,
            final(self).capacity == old(self).capacity,
    {
        self.published = self.published + 1;
    }

    /// Polls a subscription: delivers the next event, or reports that the
    /// subscriber lagged and repositions it, or reports nothing new.
    pub fn poll(&self, sub: &mut Subscription) -> (o: PollOutcome)
        requires
            old(sub).valid_for(*self),
        ensures
            o == spec_poll_outcome(*self, *old(sub)),
            final(sub).seen == spec_poll_seen(*self, *old(sub)),
            final(sub).valid_for(*self),
    {
        if sub.seen == self.published {
            PollOutcome::Pending
        } else if self.published - sub.seen <= self.capacity {
            sub.seen = sub.seen + 1;
            PollOutcome::Event
        } else {
            let missed = self.published - self.capacity - sub.seen;
            sub.seen = self.published - self.capacity;
            PollOutcome::Lagged { missed }
        }
    }
}

impl Subscription {
    /// A subscription never runs ahead of the broadcaster it belongs to.
    pub open spec fn valid_for(&self, b: Broadcaster) -> bool {
        self.seen <= b.published
    }
}

/// The outcome a poll yields, as a function of the two states.
pub open spec fn spec_poll_outcome(b: Broadcaster, s: Subscription) -> PollOutcome {
    if s.seen == b.published {
        PollOutcome::Pending
    } else if b.published - s.seen <= b.capacity {
        PollOutcome::Event
    } else {
        PollOutcome::Lagged { missed: (b.published - b.capacity - s.seen) as u64 }
    }
}

/// Where a poll leaves the subscription.
pub open spec fn spec_poll_seen(b: Broadcaster, s: Subscription) -> u64 {
    if s.seen == b.published {
        s.seen
    } else if b.published - s.seen <= b.capacity {
        (s.seen + 1) as u64
    } else {
        (b.published - b.capacity) as u64
    }
}

/// Whether a poll outcome ends the subscriber's wait: anything but
/// `Pending` means the page should reload now.
pub fn should_respond(o: &PollOutcome) -> (r: bool)
    ensures
        r == !(o is Pending),
{
    match o {
        PollOutcome::Pending => false,
        PollOutcome::Event => true,
        PollOutcome::Lagged { .. } => true,
    }
}

/// The body sent to a subscriber whose wait has ended.
pub fn reload_message() -> (r: String)
    ensures
        r@ == "reload"@,
{
    String::from_str("reload")
}

/// Law: publishing one event while any number of subscribers are waiting
/// ends every one of those waits: each subscriber that had consumed
/// everything published before now polls an event, with none dropped and
/// with no need to subscribe again.
pub proof fn lemma_publish_wakes_all_waiters(
    before: Broadcaster,
    after: Broadcaster,
    subs: Seq<Subscription>,
)
    requires
        before.wf(),
        after.capacity == before.capacity,
        after.published == before.published + 1,
        forall|i: int| 0 <= i < subs.len() ==> subs[i].seen == before.published,
    ensures
        forall|i: int| 0 <= i < subs.len() ==> spec_poll_outcome(after, subs[i])
            == PollOutcome::Event,
{
}

} // verus!
