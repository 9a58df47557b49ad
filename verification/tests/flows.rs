// Behaviour of the six flow types through their tracer handles.

use flowcore::flow::{FlowMode, FlowState};
use flowcore::gauge::GaugeOpts;
use flowcore::registry::Registry;
use flowcore::tracer::{Board, Counter, Gauge, Histogram, Pulse, Table};
use flowcore::FlowError;

/// Order-preserving encoding of an f64 reading into the core's i64 key
/// space: non-negative floats keep their bit pattern, negative floats map
/// to the negated magnitude bits.
fn key(x: f64) -> i64 {
    let b = x.to_bits();
    if x >= 0.0 {
        b as i64
    } else {
        -((b & 0x7fff_ffff_ffff_ffff) as i64)
    }
}

fn counter_value(reg: &Registry, c: &Counter) -> i64 {
    match reg.snapshot(&c.path).unwrap() {
        FlowState::Counter(s) => s.value,
        _ => panic!("not a counter"),
    }
}

#[test]
fn counter_accumulates_sum_of_deltas() {
    let mut reg = Registry::new();
    let c = Counter::new(&mut reg, "app.requests", FlowMode::Realtime).unwrap();
    c.inc(&mut reg, 5).unwrap();
    c.inc(&mut reg, -2).unwrap();
    c.inc(&mut reg, 10).unwrap();
    assert_eq!(counter_value(&reg, &c), 13);
}

#[test]
fn counter_wraps_on_overflow() {
    let mut reg = Registry::new();
    let c = Counter::new(&mut reg, "app.big", FlowMode::Realtime).unwrap();
    c.inc(&mut reg, i64::MAX).unwrap();
    c.inc(&mut reg, 1).unwrap();
    assert_eq!(counter_value(&reg, &c), i64::MIN);
}

#[test]
fn pulse_keeps_most_recent_values_oldest_evicted() {
    let mut reg = Registry::new();
    let p = Pulse::new(&mut reg, "app.latency", FlowMode::Realtime).unwrap();
    // 12 pushes against a retention bound of 8.
    for v in 1..=12i64 {
        p.push(&mut reg, v).unwrap();
    }
    match reg.snapshot(&p.path).unwrap() {
        FlowState::Pulse(s) => {
            assert_eq!(s.history, vec![5, 6, 7, 8, 9, 10, 11, 12]);
        },
        _ => panic!("not a pulse"),
    }
}

#[test]
fn gauge_set_below_declared_min_succeeds_and_is_readable() {
    let mut reg = Registry::new();
    let opts = GaugeOpts {
        min: Some(key(0.0)),
        lower: None,
        max: Some(key(100.0)),
        higher: None,
    };
    let g = Gauge::new(&mut reg, "app.temp", FlowMode::Realtime, opts).unwrap();
    g.set(&mut reg, key(-999.0)).unwrap();
    match reg.snapshot(&g.path).unwrap() {
        FlowState::Gauge(s) => {
            assert_eq!(s.value, key(-999.0));
            assert_eq!(s.opts.min, Some(key(0.0)));
        },
        _ => panic!("not a gauge"),
    }
}

#[test]
fn histogram_bucket_rule_half_open() {
    let mut reg = Registry::new();
    let levels = vec![key(1.0), key(2.0), key(3.0)];
    let h = Histogram::new(&mut reg, "app.sizes", FlowMode::Realtime, levels).unwrap();
    h.add(&mut reg, key(0.5)).unwrap();
    h.add(&mut reg, key(1.5)).unwrap();
    h.add(&mut reg, key(2.5)).unwrap();
    h.add(&mut reg, key(10.0)).unwrap();
    match reg.snapshot(&h.path).unwrap() {
        FlowState::Histogram(s) => {
            // below 1.0 | [1.0, 2.0) | [2.0, 3.0) | at or above 3.0
            assert_eq!(s.counts, vec![1, 1, 1, 1]);
            assert_eq!(s.total, 4);
        },
        _ => panic!("not a histogram"),
    }
}

#[test]
fn histogram_boundary_value_falls_in_upper_bucket() {
    let mut reg = Registry::new();
    let h = Histogram::new(&mut reg, "app.exact", FlowMode::Realtime, vec![key(1.0), key(2.0)]).unwrap();
    h.add(&mut reg, key(1.0)).unwrap();
    match reg.snapshot(&h.path).unwrap() {
        FlowState::Histogram(s) => {
            assert_eq!(s.counts, vec![0, 1, 0]);
        },
        _ => panic!("not a histogram"),
    }
}

#[test]
fn board_last_write_wins() {
    let mut reg = Registry::new();
    let b = Board::new(&mut reg, "app.info", FlowMode::Realtime).unwrap();
    b.set(&mut reg, String::from("version"), String::from("1.0")).unwrap();
    b.set(&mut reg, String::from("host"), String::from("alpha")).unwrap();
    b.set(&mut reg, String::from("version"), String::from("2.0")).unwrap();
    match reg.snapshot(&b.path).unwrap() {
        FlowState::Board(s) => {
            assert_eq!(s.get(&String::from("version")), Some(&String::from("2.0")));
            assert_eq!(s.get(&String::from("host")), Some(&String::from("alpha")));
            assert_eq!(s.get(&String::from("absent")), None);
            assert_eq!(s.entries.len(), 2);
        },
        _ => panic!("not a board"),
    }
}

fn table_rows(reg: &Registry, t: &Table) -> Vec<(u64, Vec<(u64, String)>)> {
    match reg.snapshot(&t.path).unwrap() {
        FlowState::Table(s) => s.rows,
        _ => panic!("not a table"),
    }
}

#[test]
fn table_set_cell_errors_exactly() {
    let mut reg = Registry::new();
    let t = Table::new(&mut reg, "app.procs", FlowMode::Realtime, vec![(1, String::from("name"))]).unwrap();
    // A row never added: UnknownRow, even though the column exists.
    assert_eq!(
        t.set_cell(&mut reg, 7, 1, String::from("x")),
        Err(FlowError::UnknownRow)
    );
    t.add_row(&mut reg, 7).unwrap();
    // Declared row, undeclared column: UnknownColumn.
    assert_eq!(
        t.set_cell(&mut reg, 7, 9, String::from("x")),
        Err(FlowError::UnknownColumn)
    );
    // Both declared: the write lands.
    t.set_cell(&mut reg, 7, 1, String::from("init")).unwrap();
    assert_eq!(
        table_rows(&reg, &t),
        vec![(7u64, vec![(1u64, String::from("init"))])]
    );
}

#[test]
fn table_del_row_twice_is_idempotent() {
    let mut reg = Registry::new();
    let t = Table::new(&mut reg, "app.jobs", FlowMode::Realtime, vec![(1, String::from("state"))]).unwrap();
    t.add_row(&mut reg, 1).unwrap();
    t.add_row(&mut reg, 2).unwrap();
    t.set_cell(&mut reg, 2, 1, String::from("run")).unwrap();
    t.del_row(&mut reg, 1).unwrap();
    let after_first = table_rows(&reg, &t);
    t.del_row(&mut reg, 1).unwrap();
    let after_second = table_rows(&reg, &t);
    assert_eq!(after_first, after_second);
    assert_eq!(after_second, vec![(2u64, vec![(1u64, String::from("run"))])]);
}

#[test]
fn table_add_row_twice_then_set_cell_equals_once() {
    let mut reg = Registry::new();
    let cols = vec![(1, String::from("v"))];
    let t1 = Table::new(&mut reg, "app.twice", FlowMode::Realtime, cols.clone()).unwrap();
    t1.add_row(&mut reg, 3).unwrap();
    t1.add_row(&mut reg, 3).unwrap();
    t1.set_cell(&mut reg, 3, 1, String::from("a")).unwrap();
    let doubled = table_rows(&reg, &t1);

    let t2 = Table::new(&mut reg, "app.once", FlowMode::Realtime, cols).unwrap();
    t2.add_row(&mut reg, 3).unwrap();
    t2.set_cell(&mut reg, 3, 1, String::from("a")).unwrap();
    let single = table_rows(&reg, &t2);

    assert_eq!(doubled, single);
}

#[test]
fn table_duplicate_column_ids_rejected() {
    let mut reg = Registry::new();
    let r = Table::new(&mut reg, "app.bad", FlowMode::Realtime, vec![(1, String::from("a")), (1, String::from("b"))],
    );
    assert_eq!(r.err(), Some(FlowError::SpecViolation));
}

#[test]
fn malformed_paths_rejected() {
    let mut reg = Registry::new();
    assert_eq!(Counter::new(&mut reg, "", FlowMode::Realtime).err(), Some(FlowError::InvalidPath));
    assert_eq!(Counter::new(&mut reg, ".a", FlowMode::Realtime).err(), Some(FlowError::InvalidPath));
    assert_eq!(Counter::new(&mut reg, "a.", FlowMode::Realtime).err(), Some(FlowError::InvalidPath));
    assert_eq!(Counter::new(&mut reg, "a..b", FlowMode::Realtime).err(), Some(FlowError::InvalidPath));
    assert!(Counter::new(&mut reg, "a.b.c", FlowMode::Realtime).is_ok());
    assert!(Counter::new(&mut reg, "solo", FlowMode::Realtime).is_ok());
}

#[test]
fn replace_policy_starts_fresh() {
    let mut reg = Registry::new();
    let c1 = Counter::new(&mut reg, "app.hits", FlowMode::Realtime).unwrap();
    c1.inc(&mut reg, 41).unwrap();
    c1.close(&mut reg);
    let c2 = Counter::new(&mut reg, "app.hits", FlowMode::Realtime).unwrap();
    assert_eq!(counter_value(&reg, &c2), 0);
}

#[test]
fn replacing_a_live_binding_also_starts_fresh() {
    let mut reg = Registry::new();
    let c1 = Counter::new(&mut reg, "app.live", FlowMode::Realtime).unwrap();
    c1.inc(&mut reg, 10).unwrap();
    let c2 = Counter::new(&mut reg, "app.live", FlowMode::Realtime).unwrap();
    assert_eq!(counter_value(&reg, &c2), 0);
}

#[test]
fn stale_handle_mutation_fails() {
    let mut reg = Registry::new();
    let c = Counter::new(&mut reg, "app.gone", FlowMode::Realtime).unwrap();
    let g = Gauge::new(&mut reg, "app.gone", FlowMode::Realtime, GaugeOpts::default()).unwrap();
    // The gauge replaced the counter: the counter handle is stale.
    assert_eq!(c.inc(&mut reg, 1), Err(FlowError::UnknownPath));
    g.close(&mut reg);
    // Now the path is unbound entirely.
    assert_eq!(c.inc(&mut reg, 1), Err(FlowError::UnknownPath));
}

#[test]
fn pulse_current_value_is_last_pushed() {
    let mut reg = Registry::new();
    let p = Pulse::new(&mut reg, "app.cur", FlowMode::Realtime).unwrap();
    p.push(&mut reg, key(1.25)).unwrap();
    p.push(&mut reg, key(7.5)).unwrap();
    match reg.snapshot(&p.path).unwrap() {
        FlowState::Pulse(s) => {
            assert_eq!(s.history.last(), Some(&key(7.5)));
        },
        _ => panic!("not a pulse"),
    }
}
