//! A bounded event log: a fixed-capacity circular buffer of event records
//! with a monotonic offset counter and an explicit reset. The buffer itself
//! is `circular_queue::CircularQueue`, used through trusted wrappers; the
//! log's bookkeeping around it is verified.

use vstd::prelude::*;

verus! {

/// One retained event: an opaque tag, the offset the log assigned at
/// ingestion, and the monotonic arrival time in seconds.
#[derive(Clone, Copy, Debug, PartialEq, Eq, Structural)]
pub struct Record {
    /// Opaque event identifier; the meaning of its values belongs to the
    /// application, not to the log.
    pub tag: u32,
    /// Offset assigned at ingestion: 0 for the first event after a reset,
    /// then one more per event.
    pub offset: u32,
    /// Arrival time on a monotonic clock, in seconds.
    pub arrival_time: u64,
}

#[verifier::external_type_specification]
#[verifier::external_body]
#[verifier::reject_recursive_types(T)]
pub struct ExCircularQueue<T>(circular_queue::CircularQueue<T>);

/// What the queue retains, newest first, as `(tag, offset, arrival_time)`
/// triples.
pub uninterp spec fn queue_items(q: circular_queue::CircularQueue<(u32, u32, u64)>) -> Seq<
    (u32, u32, u64),
>;

/// The capacity the queue was created with.
pub uninterp spec fn queue_capacity(q: circular_queue::CircularQueue<(u32, u32, u64)>) -> nat;

/// Relies on circular_queue::CircularQueue::with_capacity: the new queue is
/// empty and keeps the requested capacity.
#[verifier::external_body]
fn queue_with_capacity(capacity: usize) -> (q: circular_queue::CircularQueue<(u32, u32, u64)>)
    ensures
        queue_items(q) =~= Seq::<(u32, u32, u64)>::empty(),
        queue_capacity(q) == capacity as nat,
{
    circular_queue::CircularQueue::with_capacity(capacity)
}

/// Relies on circular_queue::CircularQueue::push: below capacity the item is
/// added in front of the rest and nothing leaves; at capacity the oldest item
/// is overwritten and returned.
#[verifier::external_body]
fn queue_push(
    q: &mut circular_queue::CircularQueue<(u32, u32, u64)>,
    item: (u32, u32, u64),
) -> (evicted: Option<(u32, u32, u64)>)
    ensures
        queue_capacity(*final(q)) == queue_capacity(*old(q)),
        queue_items(*old(q)).len() < queue_capacity(*old(q)) ==> {
            &&& queue_items(*final(q)) =~= seq![item] + queue_items(*old(q))
            &&& evicted is None
        },
        (queue_items(*old(q)).len() == queue_capacity(*old(q)) && queue_capacity(*old(q)) > 0)
            ==> {
            &&& queue_items(*final(q)) =~= seq![item] + queue_items(*old(q)).take(
                queue_capacity(*old(q)) as int - 1,
            )
            &&& evicted == Some(queue_items(*old(q)).last())
        },
{
    q.push(item)
}

/// Relies on circular_queue::CircularQueue::clear: all items leave, the
/// capacity stays.
#[verifier::external_body]
fn queue_clear(q: &mut circular_queue::CircularQueue<(u32, u32, u64)>)
    ensures
        queue_items(*final(q)) =~= Seq::<(u32, u32, u64)>::empty(),
        queue_capacity(*final(q)) == queue_capacity(*old(q)),
{
    q.clear()
}

/// Relies on circular_queue::CircularQueue::len: the number of items the
/// queue retains.
#[verifier::external_body]
fn queue_len(q: &circular_queue::CircularQueue<(u32, u32, u64)>) -> (n: usize)
    ensures
        n == queue_items(*q).len(),
{
    q.len()
}

/// Relies on circular_queue::CircularQueue::iter: the items from the most
/// recently pushed to the oldest.
#[verifier::external_body]
fn queue_to_vec(q: &circular_queue::CircularQueue<(u32, u32, u64)>) -> (v: Vec<(u32, u32, u64)>)
    ensures
        v@ =~= queue_items(*q),
{
    q.iter().copied().collect()
}

/// The record a retained `(tag, offset, arrival_time)` triple stands for.
pub open spec fn record_of(t: (u32, u32, u64)) -> Record {
    Record { tag: t.0, offset: t.1, arrival_time: t.2 }
}

/// A fixed-capacity circular buffer of event records plus the next-offset
/// counter. Created empty; `append` evicts the oldest record once the buffer
/// is at capacity; `reset` forgets everything, offsets included.
pub struct EventLog {
    queue: circular_queue::CircularQueue<(u32, u32, u64)>,
    next_offset: u32,
}

impl View for EventLog {
    type V = Seq<Record>;

    /// The retained records, newest first.
    closed spec fn view(&self) -> Seq<Record> {
        queue_items(self.queue).map(|i: int, t: (u32, u32, u64)| record_of(t))
    }
}

impl EventLog {
    /// The capacity the log was created with.
    pub closed spec fn capacity_spec(&self) -> nat {
        queue_capacity(self.queue)
    }

    /// The offset the next appended event will be assigned.
    pub closed spec fn next_offset_spec(&self) -> u32 {
        self.next_offset
    }

    /// A log never retains more records than its capacity, and its capacity
    /// is positive.
    pub open spec fn wf(&self) -> bool {
        &&& self.capacity_spec() > 0
        &&& self@.len() <= self.capacity_spec()
    }

    /// Creates an empty log whose buffer holds `capacity` records; the first
    /// event will be assigned offset 0.
    pub fn new(capacity: usize) -> (log: EventLog)
        requires
            capacity > 0,
        ensures
            log.wf(),
            log@ =~= Seq::<Record>::empty(),
            log.capacity_spec() == capacity as nat,
            log.next_offset_spec() == 0,
    {
        EventLog { queue: queue_with_capacity(capacity), next_offset: 0 }
    }

    /// Appends an event, assigning it the next offset; at capacity the
    /// oldest record is evicted, so exactly the `capacity` most recent
    /// records remain. The offset counter wraps to 0 after `u32::MAX`.
    pub fn append(&mut self, tag: u32, arrival_time: u64) -> (offset: u32)
        requires
            old(self).wf(),
        ensures
            final(self).wf(),
            offset == old(self).next_offset_spec(),
            final(self).next_offset_spec() == (old(self).next_offset_spec() + 1) % 0x1_0000_0000,
            final(self).capacity_spec() == old(self).capacity_spec(),
            old(self)@.len() < old(self).capacity_spec() ==> final(self)@ =~= seq![
                Record { tag, offset: old(self).next_offset_spec(), arrival_time },
            ] + old(self)@,
            old(self)@.len() == old(self).capacity_spec() ==> final(self)@ =~= seq![
                Record { tag, offset: old(self).next_offset_spec(), arrival_time },
            ] + old(self)@.take(old(self).capacity_spec() as int - 1),
            final(self)@.len() <= old(self)@.len() + 1,
    {
        let offset = self.next_offset;
        let ghost items_before = queue_items(self.queue);
        let _evicted = queue_push(&mut self.queue, (tag, offset, arrival_time));
        proof {
            assert(self@ =~= queue_items(self.queue).map(|i: int, t: (u32, u32, u64)| record_of(t)));
            if items_before.len() < queue_capacity(self.queue) {
                assert(self@ =~= seq![Record { tag, offset, arrival_time }] + old(self)@);
            } else {
                assert(queue_items(self.queue) =~= seq![(tag, offset, arrival_time)]
                    + items_before.take(queue_capacity(self.queue) as int - 1));
                assert(self@ =~= seq![Record { tag, offset, arrival_time }] + old(self)@.take(
                    old(self).capacity_spec() as int - 1,
                ));
            }
        }
        self.next_offset = if self.next_offset == 0xFFFF_FFFF {
            0
        } else {
            self.next_offset + 1
        };
        offset
    }

    /// Clears all retained records and sets the next offset back to 0,
    /// as after a total loss of memory.
    pub fn reset(&mut self)
        requires
            old(self).wf(),
        ensures
            final(self).wf(),
            final(self)@ =~= Seq::<Record>::empty(),
            final(self).next_offset_spec() == 0,
            final(self).capacity_spec() == old(self).capacity_spec(),
    {
        queue_clear(&mut self.queue);
        self.next_offset = 0;
    }

    /// The retained records from the most recently appended to the oldest.
    /// A fresh call re-walks the current state; evicted records are gone.
    pub fn iterate_newest_first(&self) -> (records: Vec<Record>)
        ensures
            records@ =~= self@,
    {
        let triples = queue_to_vec(&self.queue);
        let mut records: Vec<Record> = Vec::new();
        let mut i: usize = 0;
        while i < triples.len()
            invariant
                i <= triples.len(),
                triples@ =~= queue_items(self.queue),
                records@ =~= self@.take(i as int),
            decreases triples.len() - i,
        {
            let t = triples[i];
            records.push(Record { tag: t.0, offset: t.1, arrival_time: t.2 });
            i += 1;
        }
        records
    }

    /// The number of records the log currently retains.
    pub fn len(&self) -> (n: usize)
        ensures
            n == self@.len(),
    {
        queue_len(&self.queue)
    }
}

/// Eviction keeps exactly the most recent records: appending to a log at
/// capacity leaves the length at capacity, the new record first, each older
/// record one place further back, and only the oldest gone.
pub proof fn lemma_append_at_capacity_keeps_most_recent(
    before: Seq<Record>,
    after: Seq<Record>,
    appended: Record,
    capacity: nat,
)
    requires
        capacity > 0,
        before.len() == capacity,
        after =~= seq![appended] + before.take(capacity as int - 1),
    ensures
        after.len() == capacity,
        after[0] == appended,
        forall|j: int| 1 <= j < capacity ==> after[j] == before[j - 1],
{
}

/// Reset is total loss of memory: a log in the state `reset` leaves behind
/// retains nothing, and the next appended record is assigned offset 0 and
/// becomes the log's sole content.
pub proof fn lemma_reset_restarts_offsets(
    after_reset: EventLog,
    after_append: EventLog,
    tag: u32,
    arrival_time: u64,
    offset: u32,
)
    requires
        after_reset.wf(),
        after_reset@ =~= Seq::<Record>::empty(),
        after_reset.next_offset_spec() == 0,
        offset == after_reset.next_offset_spec(),
        after_append@ =~= seq![Record { tag, offset, arrival_time }] + after_reset@,
    ensures
        after_reset@.len() == 0,
        offset == 0,
        after_append@ =~= seq![Record { tag, offset: 0, arrival_time }],
{
}

} // verus!
