//! The prioritised queue of messages that wait to be sent to the other half.
//!
//! The queue is a bounded priority channel. It orders its items itself, so
//! it holds plain keys: the priority of a message and a ticket that counts
//! the sends. The messages wait beside it, in the order they were sent.

use vstd::prelude::*;
use vstd::multiset::Multiset;
use embassy_sync::blocking_mutex::raw::NoopRawMutex;
use embassy_sync::priority_channel::Min;
use embassy_sync::priority_channel::PriorityChannel;
use crate::messages::device_to_device::DeviceToDevice;

verus! {

/// Messages the queue holds at most.
pub const QUEUE_CAPACITY: usize = 16;

/// A bounded min-first priority channel of `(priority, ticket)` keys.
#[verifier::external_body]
pub struct KeyChannel {
    inner: PriorityChannel<NoopRawMutex, (u8, u64), Min, 16>,
}

/// The keys that a channel holds.
pub uninterp spec fn channel_keys(ch: KeyChannel) -> Multiset<(u8, u64)>;

/// Whether key `a` leaves the channel no later than key `b`: the lower
/// priority value first, then the lower ticket.
pub open spec fn key_le(a: (u8, u64), b: (u8, u64)) -> bool {
    a.0 < b.0 || (a.0 == b.0 && a.1 <= b.1)
}

/// `PriorityChannel::new`: a channel that holds nothing.
#[verifier::external_body]
fn channel_new() -> (ch: KeyChannel)
    ensures
        channel_keys(ch) == Multiset::<(u8, u64)>::empty(),
{
    KeyChannel { inner: PriorityChannel::new() }
}

/// `PriorityChannel::try_send`: puts the key into the channel unless the
/// channel already holds sixteen keys; then it changes nothing and says no.
#[verifier::external_body]
fn channel_try_send(ch: &mut KeyChannel, key: (u8, u64)) -> (sent: bool)
    ensures
        sent == (channel_keys(*old(ch)).len() < QUEUE_CAPACITY),
        sent ==> channel_keys(*final(ch)) == channel_keys(*old(ch)).insert(key),
        !sent ==> channel_keys(*final(ch)) == channel_keys(*old(ch)),
{
    ch.inner.try_send(key).is_ok()
}

/// `PriorityChannel::try_receive`: takes a least key out of the channel, by
/// the order of tuples; an empty channel gives nothing.
#[verifier::external_body]
fn channel_try_receive(ch: &mut KeyChannel) -> (key: Option<(u8, u64)>)
    ensures
        key is None <==> channel_keys(*old(ch)).len() == 0,
        key is None ==> channel_keys(*final(ch)) == channel_keys(*old(ch)),
        key is Some ==> channel_keys(*old(ch)).contains(key->0) && channel_keys(*final(ch))
            == channel_keys(*old(ch)).remove(key->0) && forall|other: (u8, u64)|
            channel_keys(*old(ch)).contains(other) ==> key_le(key->0, other),
{
    ch.inner.try_receive().ok()
}

/// A message and the priority it is sent with: the lower value goes first.
#[derive(Debug)]
pub struct PrioritisedMessage<T> {
    pub msg: T,
    pub priority: u8,
}

/// The keys of the first `n` waiting messages.
pub open spec fn keys_of(
    waiting: Seq<PrioritisedMessage<DeviceToDevice>>,
    tickets: Seq<u64>,
    n: nat,
) -> Multiset<(u8, u64)>
    decreases n,
{
    if n == 0 {
        Multiset::empty()
    } else {
        keys_of(waiting, tickets, (n - 1) as nat).insert((waiting[n - 1].priority, tickets[n - 1]))
    }
}

/// Whether the message at `idx` is the one to leave the queue `q` next: no
/// message has a lower priority value, and none of the same priority was
/// sent before it.
pub open spec fn is_next(q: Seq<PrioritisedMessage<DeviceToDevice>>, idx: int) -> bool {
    &&& 0 <= idx < q.len()
    &&& forall|k: int| 0 <= k < idx ==> (#[trigger] q[k]).priority > q[idx].priority
    &&& forall|k: int| idx < k < q.len() ==> (#[trigger] q[k]).priority >= q[idx].priority
}

/// The messages that wait to be sent to the other half.
pub struct OutboundQueue {
    keys: KeyChannel,
    waiting: Vec<PrioritisedMessage<DeviceToDevice>>,
    tickets: Vec<u64>,
    sent: u64,
}

impl View for OutboundQueue {
    type V = Seq<PrioritisedMessage<DeviceToDevice>>;

    /// The waiting messages in the order they were sent.
    closed spec fn view(&self) -> Seq<PrioritisedMessage<DeviceToDevice>> {
        self.waiting@
    }
}

impl OutboundQueue {
    /// The channel holds the key of every waiting message and nothing else,
    /// the tickets grow in the order of the sends, and no more messages
    /// wait than the channel has room for.
    pub closed spec fn wf(&self) -> bool {
        &&& self.tickets@.len() == self.waiting@.len()
        &&& self.waiting@.len() <= QUEUE_CAPACITY
        &&& channel_keys(self.keys) == keys_of(self.waiting@, self.tickets@, self.waiting@.len())
        &&& forall|i: int, j: int|
            0 <= i < j < self.tickets@.len() ==> self.tickets@[i] < self.tickets@[j]
        &&& forall|i: int| 0 <= i < self.tickets@.len() ==> self.tickets@[i] < self.sent
    }

    /// An empty queue.
    pub fn new() -> (r: Self)
        ensures
            r.wf(),
            r@.len() == 0,
    {
        OutboundQueue { keys: channel_new(), waiting: Vec::new(), tickets: Vec::new(), sent: 0 }
    }

    /// How many messages wait.
    pub fn len(&self) -> (r: usize)
        ensures
            r == self@.len(),
    {
        self.waiting.len()
    }

    /// Hands out the tickets anew, from zero, in the order of the sends. The
    /// waiting messages and their order stay as they are.
    fn renumber(&mut self)
        requires
            old(self).wf(),
        ensures
            final(self).wf(),
            final(self)@ == old(self)@,
            final(self).sent == final(self)@.len(),
    {
        let n: usize = self.waiting.len();
        let mut keys = channel_new();
        let mut tickets: Vec<u64> = Vec::new();
        let mut i: usize = 0;
        while i < n
            invariant
                i <= n,
                n == self.waiting@.len(),
                n <= QUEUE_CAPACITY,
                self.waiting@ == old(self).waiting@,
                tickets@.len() == i,
                forall|k: int| 0 <= k < i ==> tickets@[k] == k,
                channel_keys(keys) == keys_of(self.waiting@, tickets@, i as nat),
            decreases n - i,
        {
            proof {
                lemma_keys_len(self.waiting@, tickets@, i as nat);
            }
            let ghost t0 = tickets@;
            let sent = channel_try_send(&mut keys, (self.waiting[i].priority, i as u64));
            assert(sent);
            tickets.push(i as u64);
            proof {
                lemma_keys_prefix(self.waiting@, t0, self.waiting@, tickets@, i as nat);
            }
            i += 1;
        }
        self.keys = keys;
        self.tickets = tickets;
        self.sent = n as u64;
    }

    /// Queues `msg` unless the queue is full. A full queue is left as it is
    /// and the message is handed back to nobody: the caller decides whether
    /// to try again.
    pub fn try_send(&mut self, msg: DeviceToDevice, priority: u8) -> (r: Result<(), ()>)
        requires
            old(self).wf(),
        ensures
            final(self).wf(),
            r is Ok <==> old(self)@.len() < QUEUE_CAPACITY,
            r is Ok ==> final(self)@ == old(self)@.push(PrioritisedMessage { msg, priority }),
            r is Err ==> final(self)@ == old(self)@,
    {
        if self.waiting.len() >= QUEUE_CAPACITY {
            return Err(());
        }
        if self.sent == u64::MAX {
            self.renumber();
        }
        proof {
            lemma_keys_len(self.waiting@, self.tickets@, self.waiting@.len());
        }
        let ticket: u64 = self.sent;
        let sent = channel_try_send(&mut self.keys, (priority, ticket));
        assert(sent);
        let ghost w0 = self.waiting@;
        let ghost t0 = self.tickets@;
        self.waiting.push(PrioritisedMessage { msg, priority });
        self.tickets.push(ticket);
        self.sent = ticket + 1;
        proof {
            lemma_keys_prefix(w0, t0, self.waiting@, self.tickets@, w0.len());
        }
        Ok(())
    }

    /// Takes the next message out of the queue: one of the lowest priority
    /// value, and of those the one that was sent first.
    pub fn try_receive(&mut self) -> (r: Option<PrioritisedMessage<DeviceToDevice>>)
        requires
            old(self).wf(),
        ensures
            final(self).wf(),
            r is None <==> old(self)@.len() == 0,
            r is None ==> final(self)@ == old(self)@,
            r is Some ==> exists|idx: int|
                #[trigger] is_next(old(self)@, idx) && r->0 == old(self)@[idx] && final(self)@
                    == old(self)@.remove(idx),
    {
        proof {
            lemma_keys_len(self.waiting@, self.tickets@, self.waiting@.len());
        }
        let ghost w0 = self.waiting@;
        let ghost t0 = self.tickets@;
        match channel_try_receive(&mut self.keys) {
            None => None,
            Some(key) => {
                proof {
                    lemma_key_has_index(w0, t0, w0.len(), key);
                }
                let mut k: usize = 0;
                while k < self.tickets.len() && !(self.tickets[k] == key.1
                    && self.waiting[k].priority == key.0)
                    invariant
                        k <= self.tickets@.len(),
                        self.tickets@ == t0,
                        self.waiting@ == w0,
                        t0.len() == w0.len(),
                        forall|m: int|
                            0 <= m < k ==> !(t0[m] == key.1 && (#[trigger] w0[m]).priority
                                == key.0),
                    decreases self.tickets@.len() - k,
                {
                    k += 1;
                }
                assert(k < t0.len());
                proof {
                    lemma_keys_remove(w0, t0, w0.len(), k as int);
                    assert forall|m: int| 0 <= m < w0.len() implies key_le(
                        key,
                        ((#[trigger] w0[m]).priority, t0[m]),
                    ) by {
                        lemma_index_has_key(w0, t0, w0.len(), m);
                    }
                    assert(is_next(w0, k as int));
                }
                let msg = self.waiting.remove(k);
                self.tickets.remove(k);
                assert(is_next(old(self)@, k as int) && msg == old(self)@[k as int] && self@
                    == old(self)@.remove(k as int));
                Some(msg)
            },
        }
    }
}

/// Queues `msg` for the other half without waiting; see
/// [`OutboundQueue::try_send`].
pub fn try_send_msg(queue: &mut OutboundQueue, msg: DeviceToDevice, priority: u8) -> (r: Result<
    (),
    (),
>)
    requires
        old(queue).wf(),
    ensures
        final(queue).wf(),
        r is Ok <==> old(queue)@.len() < QUEUE_CAPACITY,
        r is Ok ==> final(queue)@ == old(queue)@.push(PrioritisedMessage { msg, priority }),
        r is Err ==> final(queue)@ == old(queue)@,
{
    queue.try_send(msg, priority)
}

/// There is one key per waiting message.
pub proof fn lemma_keys_len(
    waiting: Seq<PrioritisedMessage<DeviceToDevice>>,
    tickets: Seq<u64>,
    n: nat,
)
    ensures
        keys_of(waiting, tickets, n).len() == n,
    decreases n,
{
    if n > 0 {
        lemma_keys_len(waiting, tickets, (n - 1) as nat);
    }
}

/// The keys of the first `n` messages depend on those messages only.
pub proof fn lemma_keys_prefix(
    w1: Seq<PrioritisedMessage<DeviceToDevice>>,
    t1: Seq<u64>,
    w2: Seq<PrioritisedMessage<DeviceToDevice>>,
    t2: Seq<u64>,
    n: nat,
)
    requires
        n <= w1.len(),
        n <= w2.len(),
        n <= t1.len(),
        n <= t2.len(),
        forall|k: int| 0 <= k < n ==> (#[trigger] w1[k]).priority == w2[k].priority,
        forall|k: int| 0 <= k < n ==> #[trigger] t1[k] == t2[k],
    ensures
        keys_of(w1, t1, n) == keys_of(w2, t2, n),
    decreases n,
{
    if n > 0 {
        lemma_keys_prefix(w1, t1, w2, t2, (n - 1) as nat);
        assert(w1[n - 1].priority == w2[n - 1].priority);
        assert(t1[n - 1] == t2[n - 1]);
    }
}

/// Every key among the first `n` belongs to one of the first `n` messages.
pub proof fn lemma_key_has_index(
    waiting: Seq<PrioritisedMessage<DeviceToDevice>>,
    tickets: Seq<u64>,
    n: nat,
    key: (u8, u64),
)
    requires
        keys_of(waiting, tickets, n).contains(key),
    ensures
        exists|k: int| 0 <= k < n && tickets[k] == key.1 && (#[trigger] waiting[k]).priority == key.0,
    decreases n,
{
    if n > 0 {
        if (waiting[n - 1].priority, tickets[n - 1]) == key {
            assert(waiting[n - 1].priority == key.0);
        } else {
            lemma_key_has_index(waiting, tickets, (n - 1) as nat, key);
        }
    }
}

/// The key of each of the first `n` messages is among the keys.
pub proof fn lemma_index_has_key(
    waiting: Seq<PrioritisedMessage<DeviceToDevice>>,
    tickets: Seq<u64>,
    n: nat,
    k: int,
)
    requires
        0 <= k < n,
    ensures
        keys_of(waiting, tickets, n).contains((waiting[k].priority, tickets[k])),
    decreases n,
{
    if k < n - 1 {
        lemma_index_has_key(waiting, tickets, (n - 1) as nat, k);
    }
}

/// Taking message `i` away takes its key away.
pub proof fn lemma_keys_remove(
    waiting: Seq<PrioritisedMessage<DeviceToDevice>>,
    tickets: Seq<u64>,
    n: nat,
    i: int,
)
    requires
        0 <= i < n,
        n <= waiting.len(),
        n <= tickets.len(),
    ensures
        keys_of(waiting.remove(i), tickets.remove(i), (n - 1) as nat) == keys_of(
            waiting,
            tickets,
            n,
        ).remove((waiting[i].priority, tickets[i])),
    decreases n,
{
    let key = (waiting[i].priority, tickets[i]);
    if i == n - 1 {
        lemma_keys_prefix(
            waiting,
            tickets,
            waiting.remove(i),
            tickets.remove(i),
            (n - 1) as nat,
        );
        assert(keys_of(waiting, tickets, (n - 1) as nat).insert(key).remove(key) =~= keys_of(
            waiting,
            tickets,
            (n - 1) as nat,
        ));
    } else {
        lemma_keys_remove(waiting, tickets, (n - 1) as nat, i);
        lemma_index_has_key(waiting, tickets, (n - 1) as nat, i);
        let last = (waiting[n - 1].priority, tickets[n - 1]);
        assert(waiting.remove(i)[n - 2] == waiting[n - 1]);
        assert(tickets.remove(i)[n - 2] == tickets[n - 1]);
        assert(keys_of(waiting, tickets, (n - 1) as nat).remove(key).insert(last) =~= keys_of(
            waiting,
            tickets,
            (n - 1) as nat,
        ).insert(last).remove(key));
    }
}

/// Lowest value first: the message that leaves next has a priority value
/// no higher than that of any message that waits, so none that stays in
/// the queue has a lower one.
pub proof fn lemma_next_is_lowest(q: Seq<PrioritisedMessage<DeviceToDevice>>, idx: int, k: int)
    requires
        is_next(q, idx),
        0 <= k < q.len(),
    ensures
        q[idx].priority <= q[k].priority,
{
}

/// Draining gives the priorities in rising order: the message that leaves
/// next has a priority value no higher than the one that leaves after it.
pub proof fn lemma_drain_order(q: Seq<PrioritisedMessage<DeviceToDevice>>, first: int, second: int)
    requires
        is_next(q, first),
        is_next(q.remove(first), second),
    ensures
        q[first].priority <= q.remove(first)[second].priority,
{
    if second < first {
        assert(q.remove(first)[second] == q[second]);
    } else {
        assert(q.remove(first)[second] == q[second + 1]);
    }
}

} // verus!
