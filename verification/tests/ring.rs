use cell_sdk::error::CellError;
use cell_sdk::ring::{
    align16, alive_after_probe, data_capacity, fits_slot, plan_alloc, plan_read, read_decision,
    ring_size, AllocPlan, ReadDecision, ShmError, WaitBackoff, WaitStep, PADDING_SENTINEL,
};

#[test]
fn alignment() {
    assert_eq!(align16(0), 0);
    assert_eq!(align16(1), 16);
    assert_eq!(align16(16), 16);
    assert_eq!(align16(17), 32);
}

#[test]
fn claims_fit_or_wrap() {
    // empty ring of 1024 bytes: a 10-byte payload takes 64 + 16 bytes at offset 0
    let p = plan_alloc(0, 0, 1024, 10).unwrap();
    assert_eq!(p, AllocPlan { offset: 0, wrap_padding: 0, new_write: 80, epoch_claim: 0 });
    // near the end: 1000 written and read, only 24 bytes left before the end
    let p = plan_alloc(1000, 1000, 1024, 10).unwrap();
    assert_eq!(p, AllocPlan { offset: 0, wrap_padding: 24, new_write: 1104, epoch_claim: 1024 });
    // full ring
    assert_eq!(plan_alloc(1000, 0, 1024, 10), None);
    // too large
    assert_eq!(plan_alloc(0, 0, 1 << 30, 16 * 1024 * 1024 + 1), None);
}

#[test]
fn reader_follows_the_writer() {
    let r = plan_read(0, 1024, 0);
    assert_eq!((r.header_at, r.data_at, r.skip, r.expected_epoch), (0, 64, 64, 0));
    let r = plan_read(1000, 1024, PADDING_SENTINEL);
    assert_eq!((r.header_at, r.data_at, r.skip, r.expected_epoch), (0, 64, 88, 1024));
    assert_eq!(read_decision(5, 5, &r, 1024, 3, 0, 0, true), ReadDecision::Empty);
    assert_eq!(read_decision(1000, 1104, &r, 1000, 3, 0, 0, true), ReadDecision::NotReady);
    assert_eq!(read_decision(1000, 1104, &r, 1024, 0, 0, 0, true), ReadDecision::NotReady);
    assert_eq!(read_decision(1000, 1104, &r, 1024, 3, 1, 77, true), ReadDecision::Busy);
    assert_eq!(
        read_decision(1000, 1104, &r, 1024, 10, 1, 77, false),
        ReadDecision::Take { len: 10, consumed: 104, reclaimed: true }
    );
    assert_eq!(
        read_decision(1000, 1104, &r, 1024, 10, 0, 0, true),
        ReadDecision::Take { len: 10, consumed: 104, reclaimed: false }
    );
}

#[test]
fn ring_errors_and_sizes() {
    assert_eq!(ShmError::CapacityExceeded.to_cell_error(), CellError::ResourceExhausted);
    assert_eq!(ShmError::Corruption("x".to_string()).to_cell_error(), CellError::Corruption);
    assert_eq!(ShmError::GenerationMismatch.to_cell_error(), CellError::Corruption);
    assert_eq!(ShmError::StaleProcess(4).to_cell_error(), CellError::ConnectionReset);
    assert_eq!(ShmError::MappingFailed("m".to_string()).to_cell_error(), CellError::IoError);
    assert_eq!(ShmError::Serialization("s".to_string()).to_cell_error(), CellError::SerializationFailure);
    assert_eq!(ShmError::Deserialization("d".to_string()).to_cell_error(), CellError::DeserializationFailure);
    assert_eq!(ring_size(0), 1 << 20);
    assert_eq!(ring_size(3 << 20), 4 << 20);
    assert_eq!(ring_size(1 << 21), 1 << 21);
    assert_eq!(data_capacity(32 << 20), (32 << 20) - 128);
    assert_eq!(data_capacity(100), 0);
    assert!(alive_after_probe(true, false));
    assert!(!alive_after_probe(false, true));
    assert!(alive_after_probe(false, false));
    assert!(fits_slot(10, 10));
    assert!(!fits_slot(11, 10));
}

#[test]
fn waiting_spins_then_yields_then_sleeps() {
    let mut w = WaitBackoff::new();
    for _ in 0..99 {
        assert_eq!(w.next_step(), WaitStep::Spin);
    }
    assert_eq!(w.next_step(), WaitStep::Yield);
    for _ in 0..899 {
        assert_eq!(w.next_step(), WaitStep::Yield);
    }
    assert_eq!(w.next_step(), WaitStep::Sleep(1));
    assert_eq!(w.next_step(), WaitStep::Sleep(2));
    for _ in 0..30 {
        w.next_step();
    }
    assert_eq!(w.next_step(), WaitStep::Sleep(1_000_000));
    assert_eq!(w.backoff_ns, 10_000_000);
}

#[test]
fn taken_slot_is_not_delivered_again() {
    let p = plan_read(0, 1024, 0);
    let d = read_decision(0, 200, &p, 0, 10, 0, 0, true);
    let consumed = match d {
        ReadDecision::Take { consumed, .. } => consumed,
        _ => panic!("expected a take"),
    };
    assert_eq!(consumed, 64 + 16);
    let q = plan_read(consumed, 1024, 0);
    // the old header, still stamped with epoch 0, is not taken again
    assert_eq!(read_decision(consumed, 200, &q, 0, 10, 0, 0, true), ReadDecision::NotReady);
    // a slot held by a live reader is left alone
    assert_eq!(read_decision(0, 200, &p, 0, 10, 2, 5, true), ReadDecision::Busy);
}
