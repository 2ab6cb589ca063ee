//! The bounded broadcast channel shared by all chat sessions.
//!
//! Every published message enters one process-wide, publish-ordered log.
//! The bus retains only the most recent `capacity` messages: a publisher
//! never blocks, and a subscriber that falls more than `capacity`
//! messages behind loses the oldest undelivered ones and resumes at the
//! oldest retained message. A subscriber's view starts at the moment it
//! subscribes; it never observes earlier messages.

use vstd::math::max;
use vstd::prelude::*;

verus! {

/// The log position a subscriber at `cursor` reads next: its own cursor,
/// or the oldest retained message when it has fallen behind.
pub open spec fn next_delivery(cursor: nat, log_len: nat, capacity: nat) -> int {
    max(cursor as int, log_len - capacity)
}

/// A bounded multi-producer broadcast channel.
pub struct BroadcastBus {
    /// Retained messages, oldest first; never more than `slots`.
    buffer: Vec<String>,
    /// How many messages have been discarded from the front of the log.
    discarded: usize,
    /// Maximum number of retained messages.
    slots: usize,
    /// Every message ever published, in publish order.
    history: Ghost<Seq<Seq<char>>>,
}

impl BroadcastBus {
    /// The complete publish-ordered message log.
    pub closed spec fn log(&self) -> Seq<Seq<char>> {
        self.history@
    }

    /// The bound on retained messages.
    pub closed spec fn capacity(&self) -> nat {
        self.slots as nat
    }

    /// The buffer holds exactly the most recent messages of the log, no
    /// more than `capacity` of them.
    pub closed spec fn wf(&self) -> bool {
        &&& self.slots > 0
        &&& self.history@.len() <= usize::MAX
        &&& self.buffer@.len() == vstd::math::min(self.history@.len() as int, self.slots as int)
        &&& self.discarded + self.buffer@.len() == self.history@.len()
        &&& forall|i: int|
            0 <= i < self.buffer@.len() ==> self.buffer@[i]@ == self.history@[self.discarded + i]
    }

    /// A fresh bus with room for `slots` retained messages and an empty log.
    pub fn new(slots: usize) -> (bus: BroadcastBus)
        requires
            slots > 0,
        ensures
            bus.wf(),
            bus.log() == Seq::<Seq<char>>::empty(),
            bus.capacity() == slots as nat,
    {
        BroadcastBus { buffer: Vec::new(), discarded: 0, slots, history: Ghost(Seq::empty()) }
    }

    /// Append `msg` to the log. Never blocks: when the buffer is full the
    /// oldest retained message is discarded to make room.
    pub fn publish(&mut self, msg: String)
        requires
            old(self).wf(),
            old(self).log().len() < usize::MAX,
        ensures
            final(self).wf(),
            final(self).log() == old(self).log().push(msg@),
            final(self).capacity() == old(self).capacity(),
    {
        let ghost m = msg@;
        if self.buffer.len() == self.slots {
            let _oldest = self.buffer.remove(0);
            self.discarded = self.discarded + 1;
        }
        self.buffer.push(msg);
        proof {
            self.history@ = self.history@.push(m);
        }
    }

    /// How many messages have ever been published.
    pub fn message_count(&self) -> (n: usize)
        requires
            self.wf(),
        ensures
            n == self.log().len(),
    {
        self.discarded + self.buffer.len()
    }

    /// Create a subscriber whose view starts now: it will only ever
    /// observe messages published after this call.
    pub fn subscribe(&self) -> (sub: Subscriber)
        requires
            self.wf(),
        ensures
            sub.wf(self),
            sub.joined() == self.log().len(),
            sub.cursor() == self.log().len(),
            sub.delivered() == Seq::<Seq<char>>::empty(),
    {
        Subscriber {
            cursor: self.discarded + self.buffer.len(),
            joined: Ghost(self.history@.len()),
            delivered: Ghost(Seq::empty()),
            indices: Ghost(Seq::empty()),
        }
    }
}

/// One session's handle onto the bus: a cursor into the log, together
/// with the record of what it has observed.
pub struct Subscriber {
    /// Log position of the next message to deliver.
    cursor: usize,
    /// Length of the log at subscribe time.
    joined: Ghost<nat>,
    /// Every message this subscriber has pulled, in delivery order.
    delivered: Ghost<Seq<Seq<char>>>,
    /// The log position each delivered message came from.
    indices: Ghost<Seq<int>>,
}

impl Subscriber {
    /// Log position of the next message to deliver.
    pub closed spec fn cursor(&self) -> nat {
        self.cursor as nat
    }

    /// Length of the log at subscribe time.
    pub closed spec fn joined(&self) -> nat {
        self.joined@
    }

    /// Every message this subscriber has pulled, in delivery order.
    pub closed spec fn delivered(&self) -> Seq<Seq<char>> {
        self.delivered@
    }

    /// The log position each delivered message came from.
    pub closed spec fn delivered_indices(&self) -> Seq<int> {
        self.indices@
    }

    /// Well-formed against a log: the cursor sits between the subscribe
    /// point and the end of the log, and the delivery record matches the
    /// log at strictly increasing positions, none before the subscribe
    /// point, the latest being just behind the cursor.
    pub open spec fn wf_for(&self, log: Seq<Seq<char>>) -> bool {
        &&& self.joined() <= self.cursor() <= log.len()
        &&& self.delivered().len() == self.delivered_indices().len()
        &&& forall|k: int|
            0 <= k < self.delivered_indices().len()
                ==> self.joined() <= #[trigger] self.delivered_indices()[k] < self.cursor()
        &&& forall|k1: int, k2: int|
            0 <= k1 < k2 < self.delivered_indices().len()
                ==> self.delivered_indices()[k1] < self.delivered_indices()[k2]
        &&& forall|k: int|
            0 <= k < self.delivered_indices().len()
                ==> #[trigger] self.delivered()[k] == log[self.delivered_indices()[k]]
        &&& (self.delivered_indices().len() > 0 ==> self.delivered_indices().last() + 1
            == self.cursor())
        &&& (self.delivered_indices().len() == 0 ==> self.cursor() == self.joined())
    }

    /// Well-formed against the bus it subscribes to.
    pub open spec fn wf(&self, bus: &BroadcastBus) -> bool {
        self.wf_for(bus.log())
    }

    /// Pull the next message in publish order. Returns `None` when fully
    /// caught up (the caller then suspends until a publish). When the
    /// subscriber has fallen more than `capacity` behind, the oldest
    /// undelivered messages are skipped and delivery resumes at the
    /// oldest retained one.
    pub fn pull(&mut self, bus: &BroadcastBus) -> (msg: Option<String>)
        requires
            bus.wf(),
            old(self).wf(bus),
        ensures
            final(self).wf(bus),
            final(self).joined() == old(self).joined(),
            msg is Some <==> old(self).cursor() < bus.log().len(),
            msg is None ==> final(self).cursor() == old(self).cursor()
                && final(self).delivered() == old(self).delivered()
                && final(self).delivered_indices() == old(self).delivered_indices(),
            msg matches Some(m) ==> m@ == bus.log()[next_delivery(
                old(self).cursor(),
                bus.log().len(),
                bus.capacity(),
            )] && final(self).cursor() == next_delivery(
                old(self).cursor(),
                bus.log().len(),
                bus.capacity(),
            ) + 1 && final(self).delivered() == old(self).delivered().push(m@)
                && final(self).delivered_indices() == old(self).delivered_indices().push(
                next_delivery(old(self).cursor(), bus.log().len(), bus.capacity()),
            ),
    {
        let total: usize = bus.discarded + bus.buffer.len();
        if self.cursor >= total {
            return None;
        }
        if self.cursor < bus.discarded {
            // lagged: the oldest undelivered messages were discarded
            self.cursor = bus.discarded;
        }
        let m = self.buffer_front_clone(bus);
        proof {
            self.delivered@ = self.delivered@.push(m@);
            self.indices@ = self.indices@.push(self.cursor as int);
        }
        self.cursor = self.cursor + 1;
        Some(m)
    }

    /// Copy out the retained message at this subscriber's cursor.
    fn buffer_front_clone(&self, bus: &BroadcastBus) -> (m: String)
        requires
            bus.wf(),
            bus.log().len() > bus.capacity() ==> self.cursor() >= bus.log().len()
                - bus.capacity(),
            self.cursor() < bus.log().len(),
        ensures
            m@ == bus.log()[self.cursor() as int],
    {
        bus.buffer[self.cursor - bus.discarded].clone()
    }
}

/// Law: a subscriber stays well-formed as further messages are published;
/// its record refers only to the already-published prefix of the log.
pub proof fn lemma_subscriber_survives_publish(
    sub: &Subscriber,
    log: Seq<Seq<char>>,
    m: Seq<char>,
)
    requires
        sub.wf_for(log),
    ensures
        sub.wf_for(log.push(m)),
{
}

/// Law: messages are observed in publish order — the log positions of a
/// subscriber's deliveries are strictly increasing.
pub proof fn lemma_delivery_in_publish_order(sub: &Subscriber, bus: &BroadcastBus, k1: int, k2: int)
    requires
        sub.wf(bus),
        0 <= k1 < k2 < sub.delivered_indices().len(),
    ensures
        sub.delivered_indices()[k1] < sub.delivered_indices()[k2],
{
}

/// Law: a subscriber never observes a message published before it
/// subscribed — every delivery comes from a log position at or after the
/// subscribe point.
pub proof fn lemma_nothing_from_before_join(sub: &Subscriber, bus: &BroadcastBus, k: int)
    requires
        sub.wf(bus),
        0 <= k < sub.delivered_indices().len(),
    ensures
        sub.delivered_indices()[k] >= sub.joined(),
{
}

/// Positions strictly increase, so they spread at least as fast as their
/// count.
proof fn lemma_increasing_spread(idx: Seq<int>, k1: int, k2: int)
    requires
        forall|a: int, b: int| 0 <= a < b < idx.len() ==> idx[a] < idx[b],
        0 <= k1 <= k2 < idx.len(),
    ensures
        idx[k2] >= idx[k1] + (k2 - k1),
    decreases k2 - k1,
{
    if k1 < k2 {
        lemma_increasing_spread(idx, k1, k2 - 1);
    }
}

/// Law: a subscriber that never fell behind the bus capacity has observed
/// exactly the messages published since it subscribed, each one, in
/// publish order.
pub proof fn lemma_no_overflow_sees_everything(sub: &Subscriber, bus: &BroadcastBus)
    requires
        sub.wf(bus),
        sub.delivered().len() == sub.cursor() - sub.joined(),
    ensures
        sub.delivered() == bus.log().subrange(sub.joined() as int, sub.cursor() as int),
{
    let idx = sub.delivered_indices();
    let lo = sub.joined() as int;
    assert forall|k: int| 0 <= k < idx.len() implies #[trigger] idx[k] == lo + k by {
        lemma_increasing_spread(idx, 0, k);
        if k < idx.len() - 1 {
            lemma_increasing_spread(idx, k, idx.len() - 1);
        }
        assert(idx[idx.len() - 1] + 1 == sub.cursor());
    }
    assert(sub.delivered() =~= bus.log().subrange(sub.joined() as int, sub.cursor() as int));
}

} // verus!
