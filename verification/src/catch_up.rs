//! The event catch-up protocol: the request and reply messages, and the pure
//! rule a server follows to pick, from the log's newest-first snapshot and
//! the client's last-seen offset, the one event to send back.

use vstd::prelude::*;
use crate::event_log::EventLog;
use crate::event_log::Record;

verus! {

/// A client's request: the command it asks to run and the offset of the last
/// event it has seen. A client that remembers nothing sends an offset no
/// retained record exceeds and is answered by the fallback resend.
#[derive(Clone, Copy, Debug, PartialEq, Eq, Structural)]
pub struct CommandRequest {
    /// Opaque command identifier; its meaning belongs to the application.
    pub requested_command: u32,
    /// The offset of the last event the client has seen.
    pub last_event_offset: u32,
}

/// The event part of a reply: the tag, the offset the client should remember
/// as its new cursor, and how many seconds ago the event arrived.
#[derive(Clone, Copy, Debug, PartialEq, Eq, Structural)]
pub struct ReplyEvent {
    /// Opaque event identifier.
    pub tag: u32,
    /// The offset the log assigned to the event.
    pub offset: u32,
    /// Seconds between the event's arrival and the reply.
    pub age_seconds: u64,
}

/// The server's reply: at most one event. An empty reply is a valid answer,
/// sent when the log retains nothing.
#[derive(Clone, Copy, Debug, PartialEq, Eq)]
pub struct EventReply {
    /// The chosen event, if the log retained any record at all.
    pub event: Option<ReplyEvent>,
}

/// How many records of the newest-first snapshot, counted from the front,
/// have an offset strictly greater than the client's cursor: the records the
/// client has provably not seen. A record whose offset equals the cursor is
/// excluded.
pub open spec fn qualifying_len(records: Seq<Record>, last_event_offset: u32) -> nat
    decreases records.len(),
{
    if records.len() == 0 {
        0
    } else if records[0].offset <= last_event_offset {
        0
    } else {
        1 + qualifying_len(records.drop_first(), last_event_offset)
    }
}

/// The record the resolver picks: the last of the qualifying prefix — the
/// oldest record still newer than the client's cursor — so that no event in
/// between is ever skipped across repeated polls. Where the prefix is empty
/// the newest record is resent, letting a current client's cursor make
/// progress; an empty log yields nothing.
pub open spec fn resolve_spec(records: Seq<Record>, last_event_offset: u32) -> Option<Record> {
    let k = qualifying_len(records, last_event_offset);
    if k > 0 {
        Some(records[k as int - 1])
    } else if records.len() > 0 {
        Some(records[0])
    } else {
        None
    }
}

/// The qualifying prefix is a prefix in the exact sense: every record before
/// its end exceeds the cursor, and the record at its end, where one exists,
/// does not.
pub proof fn lemma_qualifying_len(records: Seq<Record>, last_event_offset: u32)
    ensures
        qualifying_len(records, last_event_offset) <= records.len(),
        forall|j: int|
            0 <= j < qualifying_len(records, last_event_offset)
                ==> #[trigger] records[j].offset > last_event_offset,
        qualifying_len(records, last_event_offset) < records.len() ==> records[qualifying_len(
            records,
            last_event_offset,
        ) as int].offset <= last_event_offset,
    decreases records.len(),
{
    if records.len() == 0 {
    } else if records[0].offset <= last_event_offset {
    } else {
        let rest = records.drop_first();
        lemma_qualifying_len(rest, last_event_offset);
        assert forall|j: int|
            0 <= j < qualifying_len(records, last_event_offset)
                implies #[trigger] records[j].offset > last_event_offset by {
            if j > 0 {
                assert(rest[j - 1] == records[j]);
            }
        }
        if qualifying_len(records, last_event_offset) < records.len() {
            assert(rest[qualifying_len(rest, last_event_offset) as int] == records[qualifying_len(
                records,
                last_event_offset,
            ) as int]);
        }
    }
}

/// Scans the newest-first snapshot while records exceed the client's cursor
/// and picks the last qualifying one; falls back to the newest record where
/// none qualifies, and to nothing where the log is empty.
pub fn resolve(records: &Vec<Record>, last_event_offset: u32) -> (resolved: Option<Record>)
    ensures
        resolved == resolve_spec(records@, last_event_offset),
{
    let n = records.len();
    let mut i: usize = 0;
    while i < n && records[i].offset > last_event_offset
        invariant
            n == records@.len(),
            i <= n,
            forall|j: int| 0 <= j < i ==> #[trigger] records@[j].offset > last_event_offset,
        decreases n - i,
    {
        i += 1;
    }
    proof {
        lemma_qualifying_len(records@, last_event_offset);
        let k = qualifying_len(records@, last_event_offset) as int;
        if (i as int) < k {
            assert(records@[i as int].offset > last_event_offset);
        }
        if (i as int) > k {
            assert(records@[k].offset > last_event_offset);
        }
        assert(i as int == k);
    }
    if i == 0 {
        if n > 0 {
            Some(records[0])
        } else {
            None
        }
    } else {
        Some(records[i - 1])
    }
}

/// Idempotence: the resolver's choice is a function of the log snapshot and
/// the client's cursor alone, so repeated resolutions of the same snapshot
/// and cursor agree.
pub proof fn lemma_resolver_idempotent(
    records: Seq<Record>,
    last_event_offset: u32,
    first: Option<Record>,
    second: Option<Record>,
)
    requires
        first == resolve_spec(records, last_event_offset),
        second == resolve_spec(records, last_event_offset),
    ensures
        first == second,
{
}

/// No event is skipped: where some retained record is newer than the cursor,
/// the resolver returns the oldest such record — everything before it in the
/// newest-first order also exceeds the cursor, and the record after it, where
/// one exists, does not.
pub proof fn lemma_resolver_returns_oldest_unseen(records: Seq<Record>, last_event_offset: u32)
    requires
        qualifying_len(records, last_event_offset) > 0,
    ensures
        ({
            let k = qualifying_len(records, last_event_offset) as int;
            &&& resolve_spec(records, last_event_offset) == Some(records[k - 1])
            &&& records[k - 1].offset > last_event_offset
            &&& forall|j: int| 0 <= j < k ==> #[trigger] records[j].offset > last_event_offset
            &&& (k == records.len() || records[k].offset <= last_event_offset)
        }),
{
    lemma_qualifying_len(records, last_event_offset);
}

/// Fallback resend: a client whose cursor no retained record exceeds — one
/// already fully caught up, however high its cursor — is answered with the
/// newest record whenever the log is nonempty, never with an error.
pub proof fn lemma_resolver_fallback(records: Seq<Record>, last_event_offset: u32)
    requires
        records.len() > 0,
        forall|j: int|
            0 <= j < records.len() ==> #[trigger] records[j].offset <= last_event_offset,
    ensures
        resolve_spec(records, last_event_offset) == Some(records[0]),
{
    assert(records[0].offset <= last_event_offset);
}

/// An empty log resolves to nothing, whatever the cursor.
pub proof fn lemma_resolver_empty_log(records: Seq<Record>, last_event_offset: u32)
    requires
        records.len() == 0,
    ensures
        resolve_spec(records, last_event_offset) is None,
{
}

/// The reply owed for a resolved record: its tag, its offset as the client's
/// new cursor, and its age — the current monotonic time less the arrival
/// time, zero where the clock reads no later than the arrival. No record
/// resolves to the valid empty reply.
pub open spec fn reply_spec(resolved: Option<Record>, now: u64) -> EventReply {
    match resolved {
        None => EventReply { event: None },
        Some(rec) => EventReply {
            event: Some(
                ReplyEvent {
                    tag: rec.tag,
                    offset: rec.offset,
                    age_seconds: if now >= rec.arrival_time {
                        (now - rec.arrival_time) as u64
                    } else {
                        0
                    },
                },
            ),
        },
    }
}

/// Builds the reply for a resolved record; `now` is the current monotonic
/// time in seconds.
pub fn event_reply(resolved: Option<Record>, now: u64) -> (reply: EventReply)
    ensures
        reply == reply_spec(resolved, now),
{
    match resolved {
        None => EventReply { event: None },
        Some(rec) => EventReply {
            event: Some(
                ReplyEvent {
                    tag: rec.tag,
                    offset: rec.offset,
                    age_seconds: if now >= rec.arrival_time {
                        now - rec.arrival_time
                    } else {
                        0
                    },
                },
            ),
        },
    }
}

/// Answers one request against the log's current snapshot: resolve, then
/// build the reply. This is the whole of the server's request handling once
/// the request's bytes have been decoded.
pub fn handle_request(log: &EventLog, request: CommandRequest, now: u64) -> (reply: EventReply)
    ensures
        reply == reply_spec(resolve_spec(log@, request.last_event_offset), now),
{
    let records = log.iterate_newest_first();
    let resolved = resolve(&records, request.last_event_offset);
    event_reply(resolved, now)
}

/// One event-arm step of the server loop: append the occurrence to the log
/// and then, where the caller's reset policy fired, forget everything. The
/// caller supplies the policy's decision; the step holds for either value.
pub fn ingest_event(log: &mut EventLog, tag: u32, arrival_time: u64, reset: bool) -> (offset: u32)
    requires
        old(log).wf(),
    ensures
        final(log).wf(),
        final(log).capacity_spec() == old(log).capacity_spec(),
        offset == old(log).next_offset_spec(),
        reset ==> final(log)@ =~= Seq::<Record>::empty(),
        reset ==> final(log).next_offset_spec() == 0,
        !reset ==> final(log).next_offset_spec() == (old(log).next_offset_spec() + 1)
            % 0x1_0000_0000,
        (!reset && old(log)@.len() < old(log).capacity_spec()) ==> final(log)@ =~= seq![
            Record { tag, offset: old(log).next_offset_spec(), arrival_time },
        ] + old(log)@,
        (!reset && old(log)@.len() == old(log).capacity_spec()) ==> final(log)@ =~= seq![
            Record { tag, offset: old(log).next_offset_spec(), arrival_time },
        ] + old(log)@.take(old(log).capacity_spec() as int - 1),
{
    let offset = log.append(tag, arrival_time);
    if reset {
        log.reset();
    }
    offset
}

} // verus!
