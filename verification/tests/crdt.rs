use cell_sdk::crdt::{GCounter, LwwRegister};

#[test]
fn test_gcounter_convergence() {
    // Node A
    let mut a = GCounter::new(1);
    a.inc();
    a.inc();
    assert_eq!(a.value(), 2);

    // Node B
    let mut b = GCounter::new(2);
    b.inc();
    assert_eq!(b.value(), 1);

    // Network partition: A updates
    a.inc();

    // Heal: sync B into A
    a.merge(&b);
    assert_eq!(a.value(), 4);

    // Sync A into B
    b.merge(&a);
    assert_eq!(b.value(), 4);

    assert_eq!(a.value(), b.value());
}

#[test]
fn test_lww_register() {
    let mut reg_a = LwwRegister::new("Initial", 100);
    let mut reg_b = LwwRegister::new("Initial", 100);

    reg_a.set("Update A", 110);
    reg_b.set("Update B", 120);

    reg_a.merge(&reg_b);
    assert_eq!(*reg_a.get(), "Update B");

    reg_b.merge(&reg_a);
    assert_eq!(*reg_b.get(), "Update B");
}

#[test]
fn gcounter_merge_is_commutative_on_values() {
    let mut a = GCounter::new(7);
    a.inc();
    a.inc();
    a.inc();
    let mut b = GCounter::new(3);
    b.inc();
    let mut c = GCounter::new(5);
    c.inc();
    c.inc();

    let mut ab = GCounter::new(7);
    ab.merge(&a);
    ab.merge(&b);
    let mut ba = GCounter::new(3);
    ba.merge(&b);
    ba.merge(&a);
    assert_eq!(ab.value(), 4);
    assert_eq!(ab.value(), ba.value());

    // associativity: (a+b)+c == a+(b+c)
    ab.merge(&c);
    let mut bc = GCounter::new(3);
    bc.merge(&b);
    bc.merge(&c);
    let mut a_bc = GCounter::new(7);
    a_bc.merge(&a);
    a_bc.merge(&bc);
    assert_eq!(ab.value(), 6);
    assert_eq!(ab.value(), a_bc.value());
}

#[test]
fn gcounter_merge_is_idempotent() {
    let mut a = GCounter::new(1);
    a.inc();
    let mut b = GCounter::new(2);
    b.inc();
    b.inc();
    a.merge(&b);
    let once = a.value();
    a.merge(&b);
    assert_eq!(a.value(), once);
    assert_eq!(once, 3);
}

#[test]
fn gcounter_merge_keeps_the_larger_count() {
    let mut a = GCounter::new(1);
    a.inc();
    a.inc();
    a.inc();
    // b has seen an older state of node 1 plus its own increments
    let mut b = GCounter::new(1);
    b.inc();
    b.merge(&a);
    assert_eq!(b.value(), 3);
}

#[test]
fn gcounter_starts_at_zero() {
    let a = GCounter::new(9);
    assert_eq!(a.value(), 0);
}

#[test]
fn lww_register_keeps_later_write() {
    let mut r = LwwRegister::new(1u32, 50);
    r.set(2, 40);
    assert_eq!(*r.get(), 1);
    r.set(3, 50);
    assert_eq!(*r.get(), 1);
    r.set(4, 51);
    assert_eq!(*r.get(), 4);
    let older = LwwRegister::new(9u32, 10);
    r.merge(&older);
    assert_eq!(*r.get(), 4);
}

#[test]
fn lww_replicas_agree_after_merging_both_ways() {
    let mut a = LwwRegister::new(7u32, 20);
    let mut b = LwwRegister::new(8u32, 30);
    let a0 = LwwRegister::new(7u32, 20);
    let b0 = LwwRegister::new(8u32, 30);
    a.merge(&b0);
    b.merge(&a0);
    assert_eq!(*a.get(), 8);
    assert_eq!(*b.get(), 8);
}

#[test]
fn merged_counter_is_at_least_either_side() {
    let mut a = GCounter::new(1);
    a.inc();
    a.inc();
    let mut b = GCounter::new(2);
    b.inc();
    let before = a.value();
    a.merge(&b);
    assert!(a.value() >= before);
    assert!(a.value() >= b.value());
    assert_eq!(a.value(), 3);
}
