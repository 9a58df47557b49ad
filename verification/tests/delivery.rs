// Subscriber delivery: snapshots, per-path ordered deltas, backpressure.

use flowcore::flow::{FlowDelta, FlowMode, FlowState};
use flowcore::registry::Registry;
use flowcore::tracer::{Board, Counter};
use flowcore::FlowError;

fn counter_of(s: &FlowState) -> i64 {
    match s {
        FlowState::Counter(c) => c.value,
        _ => panic!("not a counter"),
    }
}

fn replay_counter(mut v: i64, deltas: &[FlowDelta]) -> i64 {
    for d in deltas {
        match d {
            FlowDelta::CounterInc { delta } => v = v.wrapping_add(*delta),
            _ => panic!("unexpected delta"),
        }
    }
    v
}

#[test]
fn late_subscriber_gets_snapshot_then_only_later_deltas() {
    let mut reg = Registry::new();
    let c = Counter::new(&mut reg, "app.sync", FlowMode::Realtime).unwrap();
    c.inc(&mut reg, 1).unwrap();
    c.inc(&mut reg, 2).unwrap();
    c.inc(&mut reg, 3).unwrap();
    // Joining after three mutations: the snapshot reflects all three.
    let (id, snap) = reg.subscribe(&c.path).unwrap();
    assert_eq!(counter_of(&snap), 6);
    // Nothing is pending at join time: no mutation is delivered twice.
    assert!(reg.drain(&c.path, id).unwrap().is_none());
    // Later mutations arrive as deltas, in mutation order.
    c.inc(&mut reg, 10).unwrap();
    c.inc(&mut reg, -4).unwrap();
    let mut got = Vec::new();
    while let Some(d) = reg.drain(&c.path, id).unwrap() {
        got.push(d);
    }
    assert_eq!(got.len(), 2);
    let replayed = replay_counter(counter_of(&snap), &got);
    let now = counter_of(&reg.snapshot(&c.path).unwrap());
    assert_eq!(replayed, now);
    assert_eq!(replayed, 12);
}

#[test]
fn two_subscribers_each_see_every_mutation_once() {
    let mut reg = Registry::new();
    let c = Counter::new(&mut reg, "app.fan", FlowMode::Realtime).unwrap();
    let (id1, s1) = reg.subscribe(&c.path).unwrap();
    c.inc(&mut reg, 7).unwrap();
    let (id2, s2) = reg.subscribe(&c.path).unwrap();
    c.inc(&mut reg, 5).unwrap();
    let mut d1 = Vec::new();
    while let Some(d) = reg.drain(&c.path, id1).unwrap() {
        d1.push(d);
    }
    let mut d2 = Vec::new();
    while let Some(d) = reg.drain(&c.path, id2).unwrap() {
        d2.push(d);
    }
    assert_eq!(d1.len(), 2);
    assert_eq!(d2.len(), 1);
    let now = counter_of(&reg.snapshot(&c.path).unwrap());
    assert_eq!(replay_counter(counter_of(&s1), &d1), now);
    assert_eq!(replay_counter(counter_of(&s2), &d2), now);
}

#[test]
fn slow_subscriber_is_marked_for_resync_not_queued_forever() {
    let mut reg = Registry::new();
    let c = Counter::new(&mut reg, "app.slow", FlowMode::Realtime).unwrap();
    let (id, _snap) = reg.subscribe(&c.path).unwrap();
    // One past the queue bound of 16: the pending deltas are dropped and
    // the subscriber must resync from a snapshot.
    for _ in 0..17 {
        c.inc(&mut reg, 1).unwrap();
    }
    assert!(reg.drain(&c.path, id).unwrap().is_none());
    let snap = reg.resync(&c.path, id).unwrap();
    assert_eq!(counter_of(&snap), 17);
    // After the resync the stream continues normally.
    c.inc(&mut reg, 1).unwrap();
    let d = reg.drain(&c.path, id).unwrap().unwrap();
    assert_eq!(replay_counter(counter_of(&snap), &[d]), 18);
}

#[test]
fn subscribe_and_drain_errors() {
    let mut reg = Registry::new();
    let c = Counter::new(&mut reg, "app.errs", FlowMode::Realtime).unwrap();
    let missing = flowcore::path::Path::parse("no.such").unwrap();
    assert_eq!(reg.subscribe(&missing).err(), Some(FlowError::UnknownPath));
    assert_eq!(reg.drain(&missing, 0).err(), Some(FlowError::UnknownPath));
    assert_eq!(
        reg.drain(&c.path, 99).err(),
        Some(FlowError::UnknownSubscriber)
    );
    assert_eq!(
        reg.resync(&c.path, 99).err(),
        Some(FlowError::UnknownSubscriber)
    );
}

#[test]
fn close_hands_back_subscribers_for_teardown() {
    let mut reg = Registry::new();
    let b = Board::new(&mut reg, "app.bye", FlowMode::Realtime).unwrap();
    let (id, _snap) = reg.subscribe(&b.path).unwrap();
    let entry = b.close(&mut reg).expect("was bound");
    assert_eq!(entry.subs.len(), 1);
    assert_eq!(entry.subs[0].id, id);
    // The path is free again.
    assert!(reg.snapshot(&entry.path).is_err());
}

#[test]
fn board_deltas_carry_the_written_pair() {
    let mut reg = Registry::new();
    let b = Board::new(&mut reg, "app.kv", FlowMode::Realtime).unwrap();
    let (id, _snap) = reg.subscribe(&b.path).unwrap();
    b.set(&mut reg, String::from("k"), String::from("v")).unwrap();
    match reg.drain(&b.path, id).unwrap().unwrap() {
        FlowDelta::BoardSet { key, value } => {
            assert_eq!(key, "k");
            assert_eq!(value, "v");
        },
        _ => panic!("unexpected delta"),
    }
}
