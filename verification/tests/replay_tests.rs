use ratls::events::{replay, Event};

fn ev(register: u8, fill: u8) -> Event {
    Event { register, digest: vec![fill; 48], payload: vec![] }
}

#[test]
fn empty_log_gives_reset_registers() {
    let regs = replay(&Vec::new());
    assert_eq!(regs.len(), 4);
    for r in &regs {
        assert_eq!(r, &vec![0u8; 48]);
    }
}

#[test]
fn replay_is_deterministic() {
    let log = vec![ev(0, 1), ev(1, 2), ev(0, 3)];
    assert_eq!(replay(&log), replay(&log));
}

#[test]
fn extend_only_touches_the_target_register() {
    let regs = replay(&vec![ev(1, 9)]);
    assert_eq!(regs[0], vec![0u8; 48]);
    assert_eq!(regs[2], vec![0u8; 48]);
    assert_eq!(regs[3], vec![0u8; 48]);
    assert_ne!(regs[1], vec![0u8; 48]);
}

#[test]
fn swapping_events_of_distinct_registers_commutes() {
    // The proved commutative case: each register folds its own digests.
    let a = replay(&vec![ev(0, 1), ev(2, 2), ev(3, 3)]);
    let b = replay(&vec![ev(2, 2), ev(0, 1), ev(3, 3)]);
    assert_eq!(a, b);
}

#[test]
fn swapping_events_of_one_register_changes_its_value() {
    // Within one register the fold is order-sensitive.
    let a = replay(&vec![ev(0, 1), ev(0, 2)]);
    let b = replay(&vec![ev(0, 2), ev(0, 1)]);
    assert_ne!(a[0], b[0]);
}
