use nadbridge::action::{Action, Nad};
use nadbridge::hold::{Hold, HoldTurn, HOLD_DELAY, HOLD_INTERVAL, HOLD_MAX};

#[test]
fn the_first_wait_is_the_delay() {
    let mut hold = Hold::begin(&Action::Nad(Nad::VolumeUp), 7);
    assert_eq!(hold.label, "nad/volume_up");
    assert_eq!(hold.deadline, 7 + HOLD_DELAY as u128 + HOLD_MAX as u128);
    assert_eq!(hold.wait(), HOLD_DELAY);
    assert_eq!(hold.repeated(true), None);
    assert_eq!(hold.wait(), HOLD_INTERVAL);
    assert_eq!(hold.count, 1);
}

#[test]
fn the_times_of_a_hold() {
    assert_eq!((HOLD_DELAY, HOLD_INTERVAL, HOLD_MAX), (400_000_000, 150_000_000, 30_000_000_000));
}

#[test]
fn a_hold_ends_at_its_deadline() {
    let hold = Hold::begin(&Action::Ircc("Up", "x"), 0);
    assert!(matches!(hold.waited(HOLD_DELAY), HoldTurn::Repeat));
    let deadline = HOLD_DELAY + HOLD_MAX;
    assert!(matches!(hold.waited(deadline - 1), HoldTurn::Repeat));
    match hold.waited(deadline) {
        HoldTurn::Stop(msg) => assert_eq!(msg, "Hold ircc/Up stopped after 30s without release"),
        HoldTurn::Repeat => panic!("the hold goes on"),
    }
}

#[test]
fn a_hold_can_begin_at_any_time() {
    let hold = Hold::begin(&Action::Ircc("Up", "x"), u64::MAX);
    assert!(matches!(hold.waited(u64::MAX), HoldTurn::Repeat));
}

#[test]
fn an_error_ends_a_hold() {
    let mut hold = Hold::begin(&Action::Ircc("Up", "x"), 0);
    assert_eq!(hold.repeated(false), Some("Hold ircc/Up stopped after an error".to_string()));
    assert_eq!(hold.count, 0);
}

#[test]
fn repeats_are_reported() {
    let mut hold = Hold::begin(&Action::Nad(Nad::VolumeDown), 0);
    assert_eq!(hold.report(), None);
    for _ in 0..12 {
        hold.repeated(true);
    }
    assert_eq!(hold.report(), Some("Hold nad/volume_down repeated 12x".to_string()));
}

#[test]
fn a_hold_without_release_repeats_two_hundred_times() {
    let mut now = 1_000;
    let mut hold = Hold::begin(&Action::Ircc("Down", "x"), now);
    loop {
        now += hold.wait();
        match hold.waited(now) {
            HoldTurn::Repeat => assert_eq!(hold.repeated(true), None),
            HoldTurn::Stop(_) => break,
        }
    }
    assert_eq!(hold.count, 200);
}
