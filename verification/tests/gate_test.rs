use kanban_orchestrator::dispatcher::gate::Gate;

#[test]
fn gate_caps_concurrency() {
    let mut g = Gate::new(2, 1);
    let p1 = g.try_acquire("Coding").unwrap();
    let p2 = g.try_acquire("Reviewing").unwrap();
    assert!(g.try_acquire("Reviewing").is_none(), "per-column cap should reject");
    g.release(p2);
    let p3 = g.try_acquire("Reviewing").unwrap();
    g.release(p1);
    g.release(p3);
}

#[test]
fn global_cap_rejects_any_column() {
    let mut g = Gate::new(1, 5);
    let p = g.try_acquire("A").unwrap();
    assert!(g.try_acquire("B").is_none());
    g.release(p);
    assert!(g.try_acquire("B").is_some());
}

#[test]
fn released_slot_can_be_taken_again() {
    let mut g = Gate::new(3, 1);
    let p = g.try_acquire("Coding").unwrap();
    assert_eq!(p.column_name(), "Coding");
    g.release(p);
    let again = g.try_acquire("Coding").unwrap();
    assert_eq!(again.column_name(), "Coding");
}

#[test]
fn zero_caps_refuse_everything() {
    let mut g = Gate::new(0, 1);
    assert!(g.try_acquire("A").is_none());
    let mut h = Gate::new(1, 0);
    assert!(h.try_acquire("A").is_none());
}

#[test]
fn caps_hold_after_a_series_of_calls() {
    let mut g = Gate::new(2, 1);
    let a = g.try_acquire("A");
    let b = g.try_acquire("A");
    let c = g.try_acquire("B");
    assert!(a.is_some() && b.is_none() && c.is_some());
    g.within_caps();
    assert!(g.try_acquire("C").is_none());
    g.release(a.unwrap());
    g.release(c.unwrap());
    g.within_caps();
}
