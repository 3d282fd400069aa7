use netwatch::buffer::AggregationBuffer;
use netwatch::codec::{parse_frame, HeaderKey};
use netwatch::history::HistoryRing;
use netwatch::json::JsonVal;
use netwatch::session::InterfaceStatistics;

fn key(tag: u8) -> HeaderKey {
    let mut f = vec![0u8; 14];
    f[5] = tag;
    f[12] = 0x08;
    f[13] = 0x06;
    parse_frame(&f).unwrap()
}

fn obj(v: &JsonVal) -> &Vec<(String, JsonVal)> {
    match v {
        JsonVal::Obj(m) => m,
        other => panic!("expected object, got {:?}", other),
    }
}

fn arr(v: &JsonVal) -> &Vec<JsonVal> {
    match v {
        JsonVal::Arr(a) => a,
        other => panic!("expected array, got {:?}", other),
    }
}

fn field<'a>(v: &'a JsonVal, name: &str) -> &'a JsonVal {
    let m = obj(v);
    &m.iter().find(|(k, _)| k == name).expect("missing field").1
}

fn uint(v: &JsonVal) -> u64 {
    match v {
        JsonVal::UInt(n) => *n,
        other => panic!("expected integer, got {:?}", other),
    }
}

#[test]
fn counts_accumulate_per_key() {
    let mut b = AggregationBuffer::new();
    let ka = key(1);
    let kb = key(2);
    b.record(ka, 100);
    b.record(kb, 7);
    b.record(ka, 50);
    assert_eq!(b.get(ka), 150);
    assert_eq!(b.get(kb), 7);
    assert_eq!(b.get(key(3)), 0);
    assert_eq!(b.len(), 2);
}

#[test]
fn interleavings_reach_the_same_counts() {
    let ka = key(1);
    let kb = key(2);
    let mut one = AggregationBuffer::new();
    for (k, n) in [(ka, 10), (kb, 20), (ka, 30), (kb, 5), (ka, 1)] {
        one.record(k, n);
    }
    let mut two = AggregationBuffer::new();
    for (k, n) in [(kb, 5), (ka, 1), (ka, 30), (kb, 20), (ka, 10)] {
        two.record(k, n);
    }
    assert_eq!(one.get(ka), 41);
    assert_eq!(two.get(ka), 41);
    assert_eq!(one.get(kb), 25);
    assert_eq!(two.get(kb), 25);
}

#[test]
fn counts_saturate_instead_of_wrapping() {
    let mut b = AggregationBuffer::new();
    let k = key(1);
    b.record(k, u64::MAX - 1);
    b.record(k, 5);
    assert_eq!(b.get(k), u64::MAX);
}

#[test]
fn record_all_sums_a_batch() {
    let ka = key(1);
    let kb = key(2);
    let mut b = AggregationBuffer::new();
    b.record(ka, 3);
    b.record_all(&vec![(ka, 10), (kb, 20), (ka, 30)]);
    assert_eq!(b.get(ka), 43);
    assert_eq!(b.get(kb), 20);
}

#[test]
fn retention_bound_holds_after_any_tick() {
    let mut ring = HistoryRing::new();
    for t in 0..65u64 {
        ring.append(t, AggregationBuffer::new());
        ring.enforce_bound(60);
        assert!(ring.len() <= 60);
    }
    assert_eq!(ring.len(), 60);
    // the oldest five intervals were evicted
    assert_eq!(ring.entry(0).timestamp, 5);
    assert_eq!(ring.entry(59).timestamp, 64);
}

#[test]
fn update_drains_the_buffer_into_history() {
    let mut s = InterfaceStatistics::new(Some(0x0000_0102_0304_05));
    let k = key(9);
    s.buffer.record(k, 42);
    s.update(1000, 60);
    assert_eq!(s.buffer.len(), 0);
    assert_eq!(s.history.len(), 1);
    assert_eq!(s.history.entry(0).timestamp, 1000);
    assert_eq!(s.history.entry(0).counts.get(k), 42);
}

#[test]
fn three_ticks_scenario_shows_three_entries() {
    // interface with no prior session: ticks with 100, 250, 0 bytes for K
    let mut s = InterfaceStatistics::new(None);
    let k = key(7);
    s.buffer.record(k, 100);
    s.update(1000, 60);
    s.buffer.record(k, 150);
    s.buffer.record(k, 100);
    s.update(2000, 60);
    s.update(3000, 60);

    let snapshot = s.to_json();
    let history = arr(field(&snapshot, "history"));
    assert_eq!(history.len(), 3);

    let first = arr(&history[0]);
    assert_eq!(uint(&first[0]), 1000);
    let first_counts = obj(&first[1]);
    assert_eq!(first_counts.len(), 1);
    assert_eq!(uint(&first_counts[0].1), 100);

    let second = arr(&history[1]);
    assert_eq!(uint(&second[0]), 2000);
    assert_eq!(uint(&obj(&second[1])[0].1), 250);

    let third = arr(&history[2]);
    assert_eq!(uint(&third[0]), 3000);
    assert!(obj(&third[1]).is_empty(), "K must be absent in the third entry");

    match field(&snapshot, "closed") {
        JsonVal::Bool(closed) => assert!(!closed),
        other => panic!("expected bool, got {:?}", other),
    }
}

#[test]
fn snapshot_reports_mac_and_closed_state() {
    let mut s = InterfaceStatistics::new(Some(0xffff_ffff_ffff));
    let snapshot = s.to_json();
    match field(&snapshot, "mac") {
        JsonVal::Str(m) => assert_eq!(m, "ff:ff:ff:ff:ff:ff"),
        other => panic!("expected string, got {:?}", other),
    }
    s.close();
    let snapshot = s.to_json();
    match field(&snapshot, "closed") {
        JsonVal::Bool(closed) => assert!(closed),
        other => panic!("expected bool, got {:?}", other),
    }
    let s2 = InterfaceStatistics::new(None);
    match field(&s2.to_json(), "mac") {
        JsonVal::Null => {}
        other => panic!("expected null, got {:?}", other),
    }
}

#[test]
fn partial_snapshot_elides_seen_entries() {
    let mut s = InterfaceStatistics::new(None);
    let k = key(3);
    s.buffer.record(k, 100);
    s.update(1000, 60);
    // the client noted the last timestamp t = 1000; one more tick happens
    s.buffer.record(k, 50);
    s.update(2000, 60);

    let part = s.part_to_json(1000);
    let history = arr(field(&part, "history"));
    assert_eq!(history.len(), 2);

    let first = arr(&history[0]);
    assert_eq!(uint(&first[0]), 1000);
    assert!(matches!(first[1], JsonVal::Null), "older entry must be null");

    let second = arr(&history[1]);
    assert_eq!(uint(&second[0]), 2000);
    assert_eq!(uint(&obj(&second[1])[0].1), 50, "only the new tick carries data");
}

#[test]
fn partial_snapshot_with_old_watermark_is_full() {
    let mut s = InterfaceStatistics::new(None);
    let k = key(3);
    s.buffer.record(k, 1);
    s.update(1000, 60);
    s.update(2000, 60);
    let part = s.part_to_json(0);
    let history = arr(field(&part, "history"));
    assert!(history.iter().all(|e| !matches!(arr(e)[1], JsonVal::Null)));
}

#[test]
fn partial_snapshot_keeps_tail_after_first_newer_entry() {
    // an entry at or below the watermark that follows a newer one is sent in
    // full: the walk stops eliding at the first newer timestamp
    let mut s = InterfaceStatistics::new(None);
    s.update(1000, 60);
    s.update(3000, 60);
    s.update(2000, 60);
    let part = s.part_to_json(2500);
    let history = arr(field(&part, "history"));
    assert!(matches!(arr(&history[0])[1], JsonVal::Null));
    assert!(!matches!(arr(&history[1])[1], JsonVal::Null));
    assert!(!matches!(arr(&history[2])[1], JsonVal::Null));
}
