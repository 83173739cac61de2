use woodeye::debounce::{should_notify, DebounceState};

#[test]
fn a_burst_within_the_window_yields_exactly_one_notification() {
    let mut d = DebounceState::new(100);
    d.note_event(1000);
    d.note_event(1010);
    d.note_event(1050);
    d.note_event(1099);
    let mut fired = 0;
    for t in [1020u64, 1060, 1099, 1100, 1101, 1150, 1500] {
        if d.poll(t) {
            fired += 1;
        }
    }
    assert_eq!(fired, 1);
}

#[test]
fn nothing_fires_before_the_window_elapses() {
    let mut d = DebounceState::new(200);
    d.note_event(0);
    assert!(!d.poll(199));
    assert!(d.poll(200));
    assert!(!d.poll(201));
}

#[test]
fn a_new_burst_after_delivery_fires_again() {
    let mut d = DebounceState::new(100);
    d.note_event(0);
    assert!(d.poll(100));
    d.note_event(300);
    d.note_event(310);
    assert!(!d.poll(399));
    assert!(d.poll(400));
    assert!(!d.poll(401));
}

#[test]
fn a_quiet_debouncer_never_fires() {
    let mut d = DebounceState::new(100);
    assert!(!d.poll(0));
    assert!(!d.poll(1_000_000));
}

#[test]
fn a_batch_notifies_only_when_it_contains_a_change() {
    assert!(should_notify(&vec![false, true, false]));
    assert!(should_notify(&vec![true]));
    assert!(!should_notify(&vec![false, false]));
    assert!(!should_notify(&vec![]));
}
