use flip_flop::catch_up::event_reply;
use flip_flop::catch_up::handle_request;
use flip_flop::catch_up::ingest_event;
use flip_flop::catch_up::resolve;
use flip_flop::catch_up::CommandRequest;
use flip_flop::event_log::EventLog;
use flip_flop::event_log::Record;

fn record(tag: u32, offset: u32, arrival_time: u64) -> Record {
    Record {
        tag,
        offset,
        arrival_time,
    }
}

#[test]
fn append_assigns_consecutive_offsets() {
    let mut log = EventLog::new(10);
    for expected in 0..5u32 {
        let offset = log.append(expected, 100 + expected as u64);
        assert_eq!(offset, expected);
    }
    assert_eq!(log.len(), 5);
    let records = log.iterate_newest_first();
    let offsets: Vec<u32> = records.iter().map(|r| r.offset).collect();
    assert_eq!(offsets, vec![4, 3, 2, 1, 0]);
}

#[test]
fn eviction_keeps_the_most_recent_records() {
    // Eleven appends into a capacity-ten log: exactly the ten most recent
    // remain, newest first.
    let mut log = EventLog::new(10);
    for i in 0..11u32 {
        log.append(i, i as u64);
    }
    assert_eq!(log.len(), 10);
    let records = log.iterate_newest_first();
    let offsets: Vec<u32> = records.iter().map(|r| r.offset).collect();
    assert_eq!(offsets, vec![10, 9, 8, 7, 6, 5, 4, 3, 2, 1]);
}

#[test]
fn reset_clears_records_and_offsets() {
    let mut log = EventLog::new(10);
    log.append(1, 10);
    log.append(2, 11);
    log.reset();
    assert_eq!(log.len(), 0);
    assert!(log.iterate_newest_first().is_empty());
    let offset = log.append(3, 12);
    assert_eq!(offset, 0);
}

#[test]
fn resolver_returns_oldest_unseen_record() {
    // Log holds offsets [0, 1, 2, 3], newest 3. A client at offset 1 gets
    // offset 2: the oldest record it has not seen.
    let records = vec![
        record(13, 3, 30),
        record(12, 2, 20),
        record(11, 1, 10),
        record(10, 0, 0),
    ];
    let resolved = resolve(&records, 1).unwrap();
    assert_eq!(resolved.offset, 2);
    assert_eq!(resolved.tag, 12);
}

#[test]
fn resolver_resends_newest_when_client_is_current() {
    // A client already at the newest offset 3 gets offset 3 again.
    let records = vec![
        record(13, 3, 30),
        record(12, 2, 20),
        record(11, 1, 10),
        record(10, 0, 0),
    ];
    let resolved = resolve(&records, 3).unwrap();
    assert_eq!(resolved.offset, 3);
    assert_eq!(resolved.tag, 13);
}

#[test]
fn resolver_returns_nothing_on_empty_log() {
    let records: Vec<Record> = Vec::new();
    for cursor in [0u32, 1, 1000, u32::MAX] {
        assert!(resolve(&records, cursor).is_none());
    }
}

#[test]
fn record_at_cursor_offset_is_not_new() {
    // A record whose offset equals the cursor is excluded from the
    // qualifying prefix: strictly greater, not greater-or-equal.
    let only_zero = vec![record(10, 0, 0)];
    let resolved = resolve(&only_zero, 0).unwrap();
    // Fallback resend of the newest record, not a "new" record.
    assert_eq!(resolved.offset, 0);

    let zero_and_one = vec![record(11, 1, 10), record(10, 0, 0)];
    let resolved = resolve(&zero_and_one, 0).unwrap();
    assert_eq!(resolved.offset, 1);
}

#[test]
fn resolver_is_idempotent_on_a_snapshot() {
    let records = vec![record(13, 3, 30), record(12, 2, 20), record(11, 1, 10)];
    for cursor in [0u32, 1, 2, 3, 4, u32::MAX] {
        let first = resolve(&records, cursor);
        let second = resolve(&records, cursor);
        assert_eq!(first, second);
    }
}

#[test]
fn reply_carries_tag_offset_and_age() {
    let reply = event_reply(Some(record(7, 4, 100)), 125);
    let event = reply.event.unwrap();
    assert_eq!(event.tag, 7);
    assert_eq!(event.offset, 4);
    assert_eq!(event.age_seconds, 25);
}

#[test]
fn reply_age_is_zero_for_a_clock_reading_before_arrival() {
    let reply = event_reply(Some(record(7, 4, 100)), 90);
    assert_eq!(reply.event.unwrap().age_seconds, 0);
}

#[test]
fn reply_for_nothing_is_empty() {
    let reply = event_reply(None, 125);
    assert!(reply.event.is_none());
}

#[test]
fn impossibly_high_cursor_gets_the_newest_record() {
    // A client claiming to have seen offset 0xFFFFFFFF against a log that
    // has not gone nearly that far is answered with the fallback resend of
    // the newest record, not an error.
    let mut log = EventLog::new(10);
    log.append(21, 5);
    log.append(22, 8);
    log.append(23, 13);
    let request = CommandRequest {
        requested_command: 1,
        last_event_offset: 0xFFFF_FFFF,
    };
    let reply = handle_request(&log, request, 20);
    let event = reply.event.unwrap();
    assert_eq!(event.tag, 23);
    assert_eq!(event.offset, 2);
    assert_eq!(event.age_seconds, 7);
}

#[test]
fn handle_request_on_empty_log_replies_empty() {
    let log = EventLog::new(10);
    let request = CommandRequest {
        requested_command: 1,
        last_event_offset: 0,
    };
    let reply = handle_request(&log, request, 20);
    assert!(reply.event.is_none());
}

#[test]
fn ingest_without_reset_appends() {
    let mut log = EventLog::new(10);
    let offset = ingest_event(&mut log, 9, 42, false);
    assert_eq!(offset, 0);
    assert_eq!(log.len(), 1);
    let records = log.iterate_newest_first();
    assert_eq!(records[0], record(9, 0, 42));
}

#[test]
fn ingest_with_reset_forgets_everything() {
    let mut log = EventLog::new(10);
    ingest_event(&mut log, 9, 42, false);
    ingest_event(&mut log, 10, 43, false);
    let offset = ingest_event(&mut log, 11, 44, true);
    assert_eq!(offset, 2);
    assert_eq!(log.len(), 0);
    let offset = ingest_event(&mut log, 12, 45, false);
    assert_eq!(offset, 0);
}
