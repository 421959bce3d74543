use crossbeam::queue::ArrayQueue;
use vstd::prelude::*;

verus! {

/// The queue type of `crossbeam`, opaque to Verus: what it holds is known
/// through `array_queue_items` and `array_queue_capacity`. A queue here is
/// owned by one `RingBuffer` and reached only through it, so every call sees
/// the queue as the previous call left it.
#[verifier::external_type_specification]
#[verifier::external_body]
#[verifier::reject_recursive_types(T)]
pub struct ExArrayQueue<T>(ArrayQueue<T>);

/// The messages that a queue holds, oldest first.
pub uninterp spec fn array_queue_items(q: ArrayQueue<Vec<u8>>) -> Seq<Seq<u8>>;

/// The capacity that a queue was made with.
pub uninterp spec fn array_queue_capacity(q: ArrayQueue<Vec<u8>>) -> nat;

/// A capacity that a queue can be made with: `ArrayQueue::new` panics on 0,
/// and when `cap + 1` rounded up to a power of two overflows its index type
/// or the array of `cap` slots overflows the address space; with at most
/// `usize::MAX / 128` slots neither happens.
pub open spec fn valid_capacity(cap: usize) -> bool {
    0 < cap <= usize::MAX / 128
}

/// Calls `ArrayQueue::new`, which allocates a queue of `cap` slots. The new
/// queue is empty and has capacity `cap`.
#[verifier::external_body]
fn queue_new(cap: usize) -> (q: ArrayQueue<Vec<u8>>)
    requires
        valid_capacity(cap),
    ensures
        array_queue_items(q) == Seq::<Seq<u8>>::empty(),
        array_queue_capacity(q) == cap,
{
    ArrayQueue::new(cap)
}

/// Calls `ArrayQueue::push` with exclusive access to the queue: when fewer
/// than `capacity` messages are held, the message goes to the back and `Ok`
/// is returned; otherwise the queue is unchanged and the message comes back
/// in `Err`.
#[verifier::external_body]
fn queue_push(q: &mut ArrayQueue<Vec<u8>>, item: Vec<u8>) -> (r: Result<(), Vec<u8>>)
    ensures
        array_queue_capacity(*final(q)) == array_queue_capacity(*old(q)),
        array_queue_items(*old(q)).len() < array_queue_capacity(*old(q)) ==> {
            &&& r is Ok
            &&& array_queue_items(*final(q)) == array_queue_items(*old(q)).push(item@)
        },
        array_queue_items(*old(q)).len() >= array_queue_capacity(*old(q)) ==> {
            &&& r == Err::<(), Vec<u8>>(item)
            &&& array_queue_items(*final(q)) == array_queue_items(*old(q))
        },
{
    q.push(item)
}

/// Calls `ArrayQueue::pop` with exclusive access to the queue: the oldest
/// message is removed and returned, or `None` when the queue is empty.
#[verifier::external_body]
fn queue_pop(q: &mut ArrayQueue<Vec<u8>>) -> (r: Option<Vec<u8>>)
    ensures
        array_queue_capacity(*final(q)) == array_queue_capacity(*old(q)),
        array_queue_items(*old(q)).len() == 0 ==> {
            &&& r is None
            &&& array_queue_items(*final(q)) == array_queue_items(*old(q))
        },
        array_queue_items(*old(q)).len() > 0 ==> {
            &&& r matches Some(m) && m@ == array_queue_items(*old(q))[0]
            &&& array_queue_items(*final(q)) == array_queue_items(*old(q)).drop_first()
        },
{
    q.pop()
}

/// Calls `ArrayQueue::len`: the number of messages held.
#[verifier::external_body]
fn queue_len(q: &ArrayQueue<Vec<u8>>) -> (n: usize)
    ensures
        n == array_queue_items(*q).len(),
{
    q.len()
}

/// Calls `ArrayQueue::is_empty`: whether no message is held.
#[verifier::external_body]
fn queue_is_empty(q: &ArrayQueue<Vec<u8>>) -> (b: bool)
    ensures
        b == (array_queue_items(*q).len() == 0),
{
    q.is_empty()
}

/// Calls `ArrayQueue::capacity`: the capacity the queue was made with.
#[verifier::external_body]
fn queue_capacity(q: &ArrayQueue<Vec<u8>>) -> (n: usize)
    ensures
        n == array_queue_capacity(*q),
{
    q.capacity()
}

/// Determines how a buffer handles a push when it is full.
#[derive(Debug, Clone, Copy, PartialEq, Eq, Structural)]
pub enum OverflowPolicy {
    /// The producer waits until space is available
    Block,
    /// The oldest message is dropped to make space
    DropOldest,
}

/// The counter after one more event: counters wrap around at `u64::MAX`.
pub open spec fn bump(c: u64) -> u64 {
    if c < u64::MAX {
        (c + 1) as u64
    } else {
        0
    }
}

fn bump_exec(c: u64) -> (r: u64)
    ensures
        r == bump(c),
{
    if c < u64::MAX {
        c + 1
    } else {
        0
    }
}

/// A bounded FIFO buffer of messages with an overflow policy, counting the
/// messages it dropped and the pushes that found it full and had to wait.
pub struct RingBuffer {
    queue: ArrayQueue<Vec<u8>>,
    policy: OverflowPolicy,
    dropped_count: u64,
    block_count: u64,
}

/// Utilization in percent of a buffer holding `len` messages out of `cap`,
/// computed in 32-bit arithmetic and capped at 100.
pub open spec fn utilization_of(len: nat, cap: usize) -> u32 {
    let u = ((len * 100) as u32 / (cap as u32)) as u32;
    if u < 100 {
        u
    } else {
        100
    }
}

/// The outcome of one attempt to hand a message to a buffer.
#[derive(Debug)]
pub enum PushOutcome {
    /// The message is in the buffer.
    Pushed,
    /// The buffer is full under `Block`: the caller must wait until space is
    /// available and offer the message, handed back here, again.
    Wait(Vec<u8>),
}

/// Whether a producer must wait before its message can go in: the buffer is
/// full and its policy is `Block`.
pub open spec fn must_wait(b: RingBuffer) -> bool {
    b.items().len() >= b.capacity_spec() && b.policy_spec() == OverflowPolicy::Block
}

/// What offering a message does to a buffer, by the buffer's fill and
/// overflow policy.
pub open spec fn offer_outcome(
    before: RingBuffer,
    after: RingBuffer,
    item: Vec<u8>,
    o: PushOutcome,
) -> bool {
    &&& after.capacity_spec() == before.capacity_spec()
    &&& after.policy_spec() == before.policy_spec()
    &&& before.items().len() < before.capacity_spec() ==> {
        &&& o is Pushed
        &&& after.items() == before.items().push(item@)
        &&& after.dropped_spec() == before.dropped_spec()
        &&& after.blocks_spec() == before.blocks_spec()
    }
    &&& must_wait(before) ==> {
        &&& o == PushOutcome::Wait(item)
        &&& after.items() == before.items()
        &&& after.dropped_spec() == before.dropped_spec()
        &&& after.blocks_spec() == bump(before.blocks_spec())
    }
    &&& before.items().len() >= before.capacity_spec() && before.policy_spec()
        == OverflowPolicy::DropOldest ==> {
        &&& o is Pushed
        &&& after.items() == before.items().drop_first().push(item@)
        &&& after.dropped_spec() == bump(before.dropped_spec())
        &&& after.blocks_spec() == before.blocks_spec()
    }
}

/// The newest `k` elements of `s` (all of `s` when it has fewer).
pub open spec fn newest<A>(s: Seq<A>, k: nat) -> Seq<A> {
    if s.len() <= k {
        s
    } else {
        s.subrange(s.len() - k, s.len() as int)
    }
}

/// Under `Block` an offer never loses a message: it is either appended, or
/// handed back for the producer to wait with the buffer unchanged.
pub proof fn lemma_block_keeps_every_message(
    before: RingBuffer,
    after: RingBuffer,
    item: Vec<u8>,
    o: PushOutcome,
)
    requires
        before.wf(),
        before.policy_spec() == OverflowPolicy::Block,
        offer_outcome(before, after, item, o),
    ensures
        (o is Pushed && after.items() == before.items().push(item@)) || (o
            == PushOutcome::Wait(item) && after.items() == before.items()),
        after.dropped_spec() == before.dropped_spec(),
{
}

/// Under `DropOldest` an offer always succeeds and the buffer then holds the
/// newest `capacity` messages of what it held followed by the new one; the
/// drop counter advances exactly when a message was dropped.
pub proof fn lemma_drop_oldest_keeps_newest(
    before: RingBuffer,
    after: RingBuffer,
    item: Vec<u8>,
    o: PushOutcome,
)
    requires
        before.wf(),
        before.policy_spec() == OverflowPolicy::DropOldest,
        offer_outcome(before, after, item, o),
    ensures
        o is Pushed,
        after.items() == newest(before.items().push(item@), before.capacity_spec()),
        after.items().last() == item@,
        before.items().len() < before.capacity_spec() ==> after.dropped_spec()
            == before.dropped_spec(),
        before.items().len() == before.capacity_spec() ==> after.dropped_spec() == bump(
            before.dropped_spec(),
        ),
{
    let s = before.items().push(item@);
    if before.items().len() == before.capacity_spec() {
        assert(s.subrange(s.len() - before.capacity_spec(), s.len() as int) =~= before.items().drop_first().push(item@));
    }
}

/// What one more attempt of a waiting producer does to a buffer: nothing
/// is counted and nothing is dropped.
pub open spec fn retry_outcome(
    before: RingBuffer,
    after: RingBuffer,
    item: Vec<u8>,
    o: PushOutcome,
) -> bool {
    &&& after.capacity_spec() == before.capacity_spec()
    &&& after.policy_spec() == before.policy_spec()
    &&& after.dropped_spec() == before.dropped_spec()
    &&& after.blocks_spec() == before.blocks_spec()
    &&& before.items().len() < before.capacity_spec() ==> {
        &&& o is Pushed
        &&& after.items() == before.items().push(item@)
    }
    &&& before.items().len() >= before.capacity_spec() ==> {
        &&& o == PushOutcome::Wait(item)
        &&& after.items() == before.items()
    }
}

/// A buffer's invariant gives its callers a positive capacity and at most
/// that many messages.
pub proof fn lemma_buffer_bounds(b: RingBuffer)
    requires
        b.wf(),
    ensures
        0 < b.capacity_spec() <= usize::MAX,
        b.items().len() <= b.capacity_spec(),
{
}

impl RingBuffer {
    /// The messages held, oldest first.
    pub closed spec fn items(&self) -> Seq<Seq<u8>> {
        array_queue_items(self.queue)
    }

    /// The capacity the buffer was made with.
    pub closed spec fn capacity_spec(&self) -> nat {
        array_queue_capacity(self.queue)
    }

    /// The overflow policy the buffer was made with.
    pub closed spec fn policy_spec(&self) -> OverflowPolicy {
        self.policy
    }

    /// The number of messages dropped to make room.
    pub closed spec fn dropped_spec(&self) -> u64 {
        self.dropped_count
    }

    /// The number of pushes that found the buffer full under `Block`.
    pub closed spec fn blocks_spec(&self) -> u64 {
        self.block_count
    }

    /// The buffer's invariant: a positive capacity that the queue accepts,
    /// and never more messages than the capacity.
    pub closed spec fn wf(&self) -> bool {
        &&& 0 < self.capacity_spec() <= usize::MAX / 128
        &&& self.items().len() <= self.capacity_spec()
    }

    /// Creates an empty buffer with the given capacity and overflow policy.
    pub fn new(capacity: usize, policy: OverflowPolicy) -> (b: Self)
        requires
            valid_capacity(capacity),
        ensures
            b.wf(),
            b.items() == Seq::<Seq<u8>>::empty(),
            b.capacity_spec() == capacity,
            b.policy_spec() == policy,
            b.dropped_spec() == 0,
            b.blocks_spec() == 0,
    {
        RingBuffer { queue: queue_new(capacity), policy, dropped_count: 0, block_count: 0 }
    }

    /// Pushes a message that can go in without waiting: when the buffer
    /// has room the message goes to the back; when it is full under
    /// `DropOldest` the oldest message is dropped and counted, and the new
    /// one goes to the back. A push never fails. A producer facing a full
    /// `Block` buffer waits instead: see `offer` and `try_push`.
    pub fn push(&mut self, item: Vec<u8>) -> (r: Result<(), Vec<u8>>)
        requires
            old(self).wf(),
            !must_wait(*old(self)),
        ensures
            final(self).wf(),
            r is Ok,
            offer_outcome(*old(self), *final(self), item, PushOutcome::Pushed),
    {
        match self.offer(item) {
            PushOutcome::Pushed => Ok(()),
            PushOutcome::Wait(item) => Err(item),
        }
    }

    /// The first attempt of a producer to hand over a message. When the
    /// buffer has room the message goes to the back. When it is full,
    /// `DropOldest` drops the oldest message, counts the drop and appends the
    /// new one; `Block` counts a block event and hands the message back in
    /// `Wait`: the producer must wait until space is available and retry with
    /// `try_push`.
    pub fn offer(&mut self, item: Vec<u8>) -> (o: PushOutcome)
        requires
            old(self).wf(),
        ensures
            final(self).wf(),
            offer_outcome(*old(self), *final(self), item, o),
    {
        match queue_push(&mut self.queue, item) {
            Ok(()) => PushOutcome::Pushed,
            Err(item) => {
                match self.policy {
                    OverflowPolicy::Block => {
                        self.block_count = bump_exec(self.block_count);
                        PushOutcome::Wait(item)
                    },
                    OverflowPolicy::DropOldest => {
                        self.dropped_count = bump_exec(self.dropped_count);
                        let _ = queue_pop(&mut self.queue);
                        let _ = queue_push(&mut self.queue, item);
                        PushOutcome::Pushed
                    },
                }
            },
        }
    }

    /// One more attempt of a producer that is waiting for space: the message
    /// goes to the back when there is room, and comes back in `Wait`
    /// otherwise. Nothing is counted.
    pub fn try_push(&mut self, item: Vec<u8>) -> (o: PushOutcome)
        requires
            old(self).wf(),
        ensures
            final(self).wf(),
            retry_outcome(*old(self), *final(self), item, o),
    {
        match queue_push(&mut self.queue, item) {
            Ok(()) => PushOutcome::Pushed,
            Err(item) => PushOutcome::Wait(item),
        }
    }

    /// Removes and returns the oldest message, or `None` when empty.
    pub fn pop(&mut self) -> (r: Option<Vec<u8>>)
        requires
            old(self).wf(),
        ensures
            final(self).wf(),
            final(self).capacity_spec() == old(self).capacity_spec(),
            final(self).policy_spec() == old(self).policy_spec(),
            final(self).dropped_spec() == old(self).dropped_spec(),
            final(self).blocks_spec() == old(self).blocks_spec(),
            old(self).items().len() == 0 ==> r is None && final(self).items() == old(self).items(),
            old(self).items().len() > 0 ==> {
                &&& r matches Some(m) && m@ == old(self).items()[0]
                &&& final(self).items() == old(self).items().drop_first()
            },
    {
        queue_pop(&mut self.queue)
    }

    /// The number of messages held.
    pub fn len(&self) -> (n: usize)
        ensures
            n == self.items().len(),
    {
        queue_len(&self.queue)
    }

    /// Whether no message is held.
    pub fn is_empty(&self) -> (b: bool)
        ensures
            b == (self.items().len() == 0),
    {
        queue_is_empty(&self.queue)
    }

    /// The capacity of the buffer.
    pub fn capacity(&self) -> (n: usize)
        ensures
            n == self.capacity_spec(),
    {
        queue_capacity(&self.queue)
    }

    /// The utilization of the buffer in percent, capped at 100.
    pub fn utilization(&self) -> (u: u32)
        requires
            self.wf(),
            self.items().len() * 100 <= u32::MAX,
            self.capacity_spec() as u32 != 0,
        ensures
            u == utilization_of(self.items().len(), self.capacity_spec() as usize),
            u <= 100,
    {
        let len = self.len();
        let cap = self.capacity();
        let u = (len as u32 * 100) / (cap as u32);
        if u < 100 {
            u
        } else {
            100
        }
    }

    /// The number of dropped messages.
    pub fn dropped_count(&self) -> (n: u64)
        ensures
            n == self.dropped_spec(),
    {
        self.dropped_count
    }

    /// The number of block events.
    pub fn block_count(&self) -> (n: u64)
        ensures
            n == self.blocks_spec(),
    {
        self.block_count
    }

    /// Resets both counters to zero; the messages stay.
    pub fn reset_counters(&mut self)
        requires
            old(self).wf(),
        ensures
            final(self).wf(),
            final(self).items() == old(self).items(),
            final(self).capacity_spec() == old(self).capacity_spec(),
            final(self).policy_spec() == old(self).policy_spec(),
            final(self).dropped_spec() == 0,
            final(self).blocks_spec() == 0,
    {
        self.dropped_count = 0;
        self.block_count = 0;
    }
}

} // verus!
