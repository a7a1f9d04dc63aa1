//! Tests for the ownership bridge: insert, repeated borrows, and
//! exactly-once reclaim.

use evmhost::registry::HostContextRegistry;
use evmhost::state::TestHostContext;
use evmhost::types::Address;

fn addr(b: u8) -> Address {
    Address([b; 20])
}

#[test]
fn insert_borrow_reclaim_exactly_once() {
    let mut reg: HostContextRegistry<TestHostContext> = HostContextRegistry::new();
    let ctx = TestHostContext::new(0, addr(1));
    let h = reg.into_opaque(ctx);
    assert!(reg.is_live_handle(h));

    // several borrows, each mutating through the borrowed reference
    for i in 0..3u32 {
        let borrowed = reg.borrow(h);
        assert_eq!(borrowed.depth, i);
        borrowed.depth += 1;
    }

    // the single reclaim returns the object with the borrows' effects
    let back = reg.reclaim(h).unwrap();
    assert_eq!(back.depth, 3);
    assert!(!reg.is_live_handle(h));

    // a second reclaim of the same handle returns nothing
    assert!(reg.reclaim(h).is_none());
}

#[test]
fn distinct_handles_do_not_alias() {
    let mut reg: HostContextRegistry<TestHostContext> = HostContextRegistry::new();
    let h1 = reg.into_opaque(TestHostContext::new(1, addr(1)));
    let h2 = reg.into_opaque(TestHostContext::new(2, addr(2)));
    assert_ne!(h1, h2);
    assert_eq!(reg.borrow(h1).depth, 1);
    assert_eq!(reg.borrow(h2).depth, 2);
    let first = reg.reclaim(h1).unwrap();
    assert_eq!(first.depth, 1);
    // the other object is untouched by the reclaim
    assert_eq!(reg.borrow(h2).depth, 2);
    assert_eq!(reg.reclaim(h2).unwrap().depth, 2);
}

#[test]
fn stale_handle_stays_dead_after_slot_reuse() {
    let mut reg: HostContextRegistry<TestHostContext> = HostContextRegistry::new();
    let h1 = reg.into_opaque(TestHostContext::new(1, addr(1)));
    assert!(reg.reclaim(h1).is_some());

    // the slot is reused with a new generation stamp
    let h2 = reg.into_opaque(TestHostContext::new(2, addr(2)));
    assert_eq!(h2.index, h1.index);
    assert_ne!(h2.generation, h1.generation);

    // the stale handle reaches nothing, the fresh one its object
    assert!(!reg.is_live_handle(h1));
    assert!(reg.reclaim(h1).is_none());
    assert_eq!(reg.reclaim(h2).unwrap().depth, 2);
}
