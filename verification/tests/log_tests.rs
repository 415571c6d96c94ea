use ergot_demo::{BoundedLog, IdCounter, LinkRegistry};

#[test]
fn log_keeps_the_newest_entries() {
    let mut log = BoundedLog::new(3);
    for i in 0..7u32 {
        log.push(i);
    }
    assert_eq!(log.len(), 3);
    assert_eq!(log.drain(), vec![4, 5, 6]);
}

#[test]
fn drain_empties_the_log_and_returns_everything_in_order() {
    let mut log = BoundedLog::new(64);
    log.push("a");
    log.push("b");
    assert_eq!(log.drain(), vec!["a", "b"]);
    assert_eq!(log.drain(), Vec::<&str>::new());
    log.push("c");
    assert_eq!(log.drain(), vec!["c"]);
}

#[test]
fn counter_starts_at_one_and_counts_up() {
    let mut c = IdCounter::new();
    assert_eq!(c.take(), 1);
    assert_eq!(c.take(), 2);
    assert_eq!(c.take(), 3);
}

#[test]
fn registry_forgets_one_generation_only() {
    let mut reg = LinkRegistry::new();
    reg.insert(5, "a");
    reg.insert(7, "b");
    reg.insert(9, "c");
    assert!(reg.holds(5));
    reg.remove(5);
    assert_eq!(reg.len(), 2);
    assert!(!reg.holds(5));
    assert!(reg.holds(7));
    reg.remove(5);
    assert_eq!(reg.len(), 2);
    assert_eq!(reg.take_all(), vec!["b", "c"]);
    assert_eq!(reg.len(), 0);
}

#[test]
fn disconnect_lowers_each_end_by_one() {
    let mut a = LinkRegistry::new();
    let mut b = LinkRegistry::new();
    a.insert(1, 'p');
    a.insert(2, 'q');
    b.insert(2, 'q');
    b.insert(3, 'r');
    b.insert(4, 's');
    let mut t = ergot_demo::LinkTeardown::new(2);
    if t.begin() {
        a.remove(t.generation());
        b.remove(t.generation());
    }
    assert_eq!(a.len(), 1);
    assert_eq!(b.len(), 2);
    if t.begin() {
        a.remove(t.generation());
        b.remove(t.generation());
    }
    a.remove(2);
    assert_eq!(a.len(), 1);
    assert_eq!(b.len(), 2);
    assert_eq!(a.take_all(), vec!['p']);
    assert_eq!(b.take_all(), vec!['r', 's']);
}

#[test]
fn teardown_happens_once() {
    let mut t = ergot_demo::LinkTeardown::new(9);
    assert_eq!(t.generation(), 9);
    assert!(t.begin());
    assert!(!t.begin());
    assert_eq!(t.generation(), 9);
}

#[test]
fn registry_keeps_insertion_order() {
    let mut reg = LinkRegistry::new();
    reg.insert(1, 'x');
    reg.insert(2, 'y');
    reg.insert(3, 'z');
    reg.remove(2);
    assert_eq!(reg.take_all(), vec!['x', 'z']);
}
