use awesome_wayland::signal::{signal_connect, signal_disconnect, signal_object_emit, SignalTable};
use awesome_wayland::refs::{Decref, RefTable};

fn s(x: &str) -> String {
    x.to_string()
}

#[test]
fn connect_twice_runs_both_in_connection_order() {
    let mut t = SignalTable::new();
    signal_connect(&mut t, &s("new"), 10);
    signal_connect(&mut t, &s("new"), 20);
    assert_eq!(signal_object_emit(&t, &s("new")), vec![10, 20]);
}

#[test]
fn same_handler_connected_twice_runs_twice() {
    let mut t = SignalTable::new();
    t.connect(&s("property::button"), 7);
    t.connect(&s("property::button"), 7);
    assert_eq!(t.snapshot(&s("property::button")), vec![7, 7]);
    assert_eq!(t.len(), 2);
}

#[test]
fn disconnect_unconnected_reports_zero() {
    let mut t = SignalTable::new();
    t.connect(&s("a"), 1);
    assert_eq!(signal_disconnect(&mut t, &s("a"), 2), 0);
    assert_eq!(signal_disconnect(&mut t, &s("b"), 1), 0);
    assert_eq!(t.snapshot(&s("a")), vec![1]);
    assert_eq!(t.len(), 1);
}

#[test]
fn disconnect_connected_removes_exactly_one() {
    let mut t = SignalTable::new();
    t.connect(&s("a"), 5);
    t.connect(&s("a"), 6);
    t.connect(&s("a"), 5);
    assert_eq!(t.disconnect(&s("a"), 5), 1);
    assert_eq!(t.snapshot(&s("a")), vec![6, 5]);
    assert_eq!(t.len(), 2);
}

#[test]
fn disconnect_leaves_other_names_alone() {
    let mut t = SignalTable::new();
    t.connect(&s("a"), 5);
    t.connect(&s("b"), 5);
    assert_eq!(t.disconnect(&s("b"), 5), 1);
    assert_eq!(t.snapshot(&s("a")), vec![5]);
    assert!(t.snapshot(&s("b")).is_empty());
    assert!(!t.has_signal(&s("b")));
    assert!(t.has_signal(&s("a")));
}

#[test]
fn emission_snapshot_survives_disconnect_during_pass() {
    let mut t = SignalTable::new();
    t.connect(&s("tick"), 1);
    t.connect(&s("tick"), 2);
    t.connect(&s("tick"), 3);
    let pass = t.snapshot(&s("tick"));
    let mut ran = Vec::new();
    for h in pass.iter() {
        ran.push(*h);
        if *h == 1 {
            // handler 1 disconnects itself and handler 3 while the pass runs
            t.disconnect(&s("tick"), 1);
            t.disconnect(&s("tick"), 3);
        }
    }
    assert_eq!(ran, vec![1, 2, 3]);
    assert_eq!(t.snapshot(&s("tick")), vec![2]);
}

#[test]
fn clear_drops_every_connection() {
    let mut t = SignalTable::new();
    t.connect(&s("a"), 1);
    t.connect(&s("b"), 2);
    t.clear();
    assert_eq!(t.len(), 0);
    assert!(t.snapshot(&s("a")).is_empty());
}

#[test]
fn incref_counts_and_decref_releases_at_zero() {
    let mut r = RefTable::new();
    assert_eq!(r.incref(42), 42);
    assert_eq!(r.incref(42), 42);
    assert_eq!(r.count(42), 2);
    assert_eq!(r.decref(42), Decref::Remaining(1));
    assert_eq!(r.count(42), 1);
    assert_eq!(r.decref(42), Decref::Released);
    assert_eq!(r.count(42), 0);
}

#[test]
fn decref_of_unknown_value_is_reported() {
    let mut r = RefTable::new();
    r.incref(1);
    assert_eq!(r.decref(2), Decref::NotFound);
    assert_eq!(r.count(1), 1);
    r.clear();
    assert_eq!(r.count(1), 0);
}
