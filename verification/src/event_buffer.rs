//! The broadcast channel's buffering discipline: a fixed-capacity ring of
//! the most recent events with multi-subscriber delivery. Every subscriber
//! receives every event published after it subscribed, in publication
//! order, independently of other subscribers; one that falls behind the
//! ring's capacity is told how many events it missed rather than blocking
//! the publisher or growing the buffer. Publishing with no subscribers is a
//! no-op failure, not an error state.

use vstd::prelude::*;

verus! {

/// Multi-subscriber ring buffer of the most recent events.
pub struct EventBuffer {
    capacity: usize,
    /// The retained events, oldest first.
    entries: Vec<String>,
    /// How many events have been pushed out of the ring since creation.
    dropped: u64,
    /// Active subscriber count.
    receivers: usize,
    /// Every event ever published, in order.
    history: Ghost<Seq<Seq<char>>>,
}

/// One subscriber's position in the published history.
#[derive(Debug, Clone, Copy, PartialEq, Eq, Structural)]
pub struct EventCursor {
    pub next: u64,
}

/// What one receive attempt yields.
#[derive(Debug)]
pub enum Received {
    /// Nothing published past this cursor yet.
    Empty,
    /// The cursor fell behind the ring: `missed` events were dropped for
    /// this subscriber, and the cursor now points at the oldest retained
    /// event.
    Lagged { missed: u64 },
    /// The next event, in publication order.
    Event(String),
}

impl EventBuffer {
    /// Every event ever published through this buffer, in order.
    pub closed spec fn history(self) -> Seq<Seq<char>> {
        self.history@
    }

    /// The position of the oldest event the ring still retains.
    pub closed spec fn first_retained(self) -> int {
        self.dropped as int
    }

    /// How many events the ring retains at most.
    pub closed spec fn cap(self) -> int {
        self.capacity as int
    }

    /// The current subscriber count.
    pub closed spec fn subscribers(self) -> int {
        self.receivers as int
    }

    /// The ring holds the most recent events of the history, at most
    /// `capacity` of them, and their count never shrinks while the history
    /// grows.
    pub closed spec fn wf(self) -> bool {
        &&& self.capacity >= 1
        &&& self.entries@.len() <= self.capacity
        &&& self.dropped as int + self.entries@.len() == self.history@.len()
        &&& self.history@.len() <= u64::MAX
        &&& forall|i: int|
            0 <= i < self.entries@.len() ==> (#[trigger] self.entries@[i])@ == self.history@[
                self.dropped as int + i
            ]
    }

    /// An empty buffer that retains at most `capacity` events.
    pub fn new(capacity: usize) -> (r: EventBuffer)
        requires
            capacity >= 1,
        ensures
            r.wf(),
            r.history() == Seq::<Seq<char>>::empty(),
            r.cap() == capacity,
            r.subscribers() == 0,
            r.first_retained() == 0,
    {
        EventBuffer {
            capacity,
            entries: Vec::new(),
            dropped: 0,
            receivers: 0,
            history: Ghost(Seq::empty()),
        }
    }

    /// The current subscriber count.
    pub fn receiver_count(&self) -> (r: usize)
        ensures
            r == self.subscribers(),
    {
        self.receivers
    }

    /// Registers a new subscriber. It will receive exactly the events
    /// published after this call.
    pub fn subscribe(&mut self) -> (r: EventCursor)
        requires
            old(self).wf(),
            old(self).subscribers() < usize::MAX,
        ensures
            final(self).wf(),
            final(self).history() == old(self).history(),
            final(self).first_retained() == old(self).first_retained(),
            final(self).cap() == old(self).cap(),
            final(self).subscribers() == old(self).subscribers() + 1,
            r.next == old(self).history().len(),
    {
        self.receivers = self.receivers + 1;
        let cursor = self.dropped + self.entries.len() as u64;
        EventCursor { next: cursor }
    }

    /// Deregisters one subscriber.
    pub fn unsubscribe(&mut self)
        requires
            old(self).wf(),
            old(self).subscribers() > 0,
        ensures
            final(self).wf(),
            final(self).history() == old(self).history(),
            final(self).first_retained() == old(self).first_retained(),
            final(self).cap() == old(self).cap(),
            final(self).subscribers() == old(self).subscribers() - 1,
    {
        self.receivers = self.receivers - 1;
    }

    /// Publishes one event. With no subscribers the event is discarded and
    /// handed back as the failure value; otherwise it is appended, the
    /// oldest retained event falling out once the ring is full, and the
    /// subscriber count is returned. The publisher never blocks.
    pub fn publish(&mut self, ev: String) -> (r: Result<usize, String>)
        requires
            old(self).wf(),
            old(self).history().len() < u64::MAX,
        ensures
            final(self).wf(),
            final(self).cap() == old(self).cap(),
            final(self).subscribers() == old(self).subscribers(),
            r matches Err(e) ==> old(self).subscribers() == 0 && e == ev && *final(self) == *old(
                self,
            ),
            r matches Ok(n) ==> old(self).subscribers() > 0 && n == old(self).subscribers()
                && final(self).history() == old(self).history().push(ev@),
            r is Ok ==> final(self).first_retained() == if old(self).history().len() - old(
                self,
            ).first_retained() < old(self).cap() {
                old(self).first_retained()
            } else {
                old(self).first_retained() + 1
            },
    {
        if self.receivers == 0 {
            return Err(ev);
        }
        if self.entries.len() == self.capacity {
            let _ = self.entries.remove(0);
            self.dropped = self.dropped + 1;
            proof {
                assert(self.entries@ =~= old(self).entries@.skip(1));
            }
        }
        let ghost entries0 = self.entries@;
        let ghost shifted = old(self).entries@.len() == old(self).capacity;
        let ghost evview = ev@;
        self.entries.push(ev);
        proof {
            self.history@ = self.history@.push(evview);
            assert forall|i: int| 0 <= i < self.entries@.len() implies (#[trigger] self
                .entries@[i])@ == self.history@[self.dropped as int + i] by {
                if i < self.entries@.len() - 1 {
                    assert(self.entries@[i] == entries0[i]);
                    if shifted {
                        assert(entries0[i] == old(self).entries@[i + 1]);
                    } else {
                        assert(entries0[i] == old(self).entries@[i]);
                    }
                }
            }
        }
        Ok(self.receivers)
    }

    /// One receive attempt for the subscriber at `cursor`: the next event
    /// in publication order; or, when the cursor has fallen behind the
    /// ring, how many events it missed, skipping it ahead to the oldest
    /// retained one; or nothing when it has seen everything published.
    pub fn recv(&self, cursor: &mut EventCursor) -> (r: Received)
        requires
            self.wf(),
        ensures
            r is Empty <==> old(cursor).next >= self.history().len(),
            r is Empty ==> *final(cursor) == *old(cursor),
            r matches Received::Lagged { missed } ==> old(cursor).next < self.first_retained() && missed
                == self.first_retained() - old(cursor).next && final(cursor).next
                == self.first_retained(),
            r matches Received::Event(ev) ==> self.first_retained() <= old(cursor).next < self.history().len()
                && ev@ == self.history()[old(cursor).next as int] && final(cursor).next == old(
                cursor,
            ).next + 1,
    {
        let end = self.dropped + self.entries.len() as u64;
        if cursor.next >= end {
            Received::Empty
        } else if cursor.next < self.dropped {
            let missed = self.dropped - cursor.next;
            cursor.next = self.dropped;
            Received::Lagged { missed }
        } else {
            let idx = (cursor.next - self.dropped) as usize;
            let ev = self.entries[idx].clone();
            cursor.next = cursor.next + 1;
            Received::Event(ev)
        }
    }
}

} // verus!
