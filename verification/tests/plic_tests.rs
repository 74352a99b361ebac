use riscv_boot_core::plic::{enable_uart_interrupts, Plic};

#[test]
fn claim_is_latched_until_completed() {
    let mut p = Plic::new(32);
    // console bring-up: threshold 0, source 10 enabled at priority 1
    p.set_threshold(0);
    p.enable(10);
    p.set_priority(10, 1);
    p.raise(10);
    // the pending source is claimed
    assert_eq!(p.next(), Some(10));
    // a second claim before completion must not return it again
    assert_eq!(p.next(), None);
    // even if the line is asserted again meanwhile: the gateway is latched
    p.raise(10);
    assert_eq!(p.next(), None);
    p.complete(10);
    // after completion the still-pending source fires again
    assert_eq!(p.next(), Some(10));
}

#[test]
fn disabled_or_masked_sources_are_not_claimed() {
    let mut p = Plic::new(32);
    p.set_priority(5, 3);
    p.raise(5);
    // not enabled
    assert_eq!(p.next(), None);
    p.enable(5);
    p.set_threshold(3);
    // priority 3 is masked by threshold 3 (at or below is masked)
    assert_eq!(p.next(), None);
    p.set_threshold(2);
    assert_eq!(p.next(), Some(5));
}

#[test]
fn priority_zero_never_fires() {
    let mut p = Plic::new(8);
    p.enable(3);
    p.raise(3);
    p.set_threshold(0);
    assert_eq!(p.next(), None);
}

#[test]
fn highest_priority_wins_lowest_id_breaks_ties() {
    let mut p = Plic::new(16);
    p.set_threshold(0);
    for id in [4usize, 7, 9] {
        p.enable(id);
        p.raise(id);
    }
    p.set_priority(4, 2);
    p.set_priority(7, 5);
    p.set_priority(9, 5);
    // 7 and 9 share the top priority; the lower id is claimed first
    assert_eq!(p.next(), Some(7));
    p.complete(7);
    assert_eq!(p.next(), Some(9));
    p.complete(9);
    assert_eq!(p.next(), Some(4));
    p.complete(4);
    assert_eq!(p.next(), None);
}

#[test]
fn uart_bring_up_helper() {
    let mut p = Plic::new(32);
    enable_uart_interrupts(&mut p, 10);
    assert_eq!(p.threshold, 0);
    assert!(p.enabled[10]);
    assert_eq!(p.priorities[10], 1);
    p.raise(10);
    assert_eq!(p.next(), Some(10));
}

#[test]
fn priority_and_threshold_keep_low_bits_only() {
    let mut p = Plic::new(4);
    p.set_priority(1, 0xff);
    assert_eq!(p.priorities[1], 7);
    p.set_threshold(0xf8);
    assert_eq!(p.threshold, 0);
}
