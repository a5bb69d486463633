use roundwatch::dispatch::Dispatcher;
use roundwatch::MIN_SEND_INTERVAL_MS;

#[test]
fn interval_constant_is_half_a_second() {
    assert_eq!(MIN_SEND_INTERVAL_MS, 500);
}

#[test]
fn fifo_order_kept() {
    let mut d = Dispatcher::new();
    d.enqueue(1);
    d.enqueue(2);
    d.enqueue(3);
    assert_eq!(d.tick(0), Some(1));
    assert_eq!(d.tick(500), Some(2));
    assert_eq!(d.tick(1000), Some(3));
    assert_eq!(d.tick(1500), None);
}

#[test]
fn minimum_interval_enforced() {
    let mut d = Dispatcher::new();
    d.enqueue(7);
    d.enqueue(8);
    assert_eq!(d.tick(100), Some(7));
    assert_eq!(d.tick(599), None);
    assert_eq!(d.tick(600), Some(8));
}

#[test]
fn first_send_is_immediate() {
    let mut d = Dispatcher::new();
    d.enqueue(9);
    assert_eq!(d.tick(0), Some(9));
}

#[test]
fn idle_wake_banks_no_allowance() {
    let mut d = Dispatcher::new();
    assert_eq!(d.tick(0), None);
    d.enqueue(5);
    // The idle wake at 0 recorded no send time, so this goes at once.
    assert_eq!(d.tick(10), Some(5));
}

#[test]
fn gate_does_not_drop_items() {
    let mut d = Dispatcher::new();
    d.enqueue(1);
    assert_eq!(d.tick(0), Some(1));
    d.enqueue(2);
    assert_eq!(d.tick(100), None);
    assert_eq!(d.pending(), 1);
    assert_eq!(d.tick(500), Some(2));
}

#[test]
fn clear_empties_queue() {
    let mut d = Dispatcher::new();
    d.enqueue(1);
    d.enqueue(2);
    d.clear_osc_queue();
    assert_eq!(d.pending(), 0);
    assert_eq!(d.tick(0), None);
}

#[test]
fn reset_timer_allows_immediate_send() {
    let mut d = Dispatcher::new();
    d.enqueue(1);
    assert_eq!(d.tick(1000), Some(1));
    d.enqueue(2);
    assert_eq!(d.tick(1001), None);
    d.reset_timer();
    assert_eq!(d.tick(1002), Some(2));
}
