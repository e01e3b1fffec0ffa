use cubism::timer::{Action, Key, Timer};

#[test]
fn space_starts_and_stops() {
    let mut t = Timer::new();
    assert_eq!(t.on_key(Key::Space, 1_000_000), Action::Started);
    assert!(t.running);
    assert_eq!(t.on_key(Key::Space, 13_340_000), Action::Stopped(12_340_000));
    assert!(!t.running);
}

#[test]
fn signals_within_the_debounce_are_ignored() {
    let mut t = Timer::new();
    assert_eq!(t.on_key(Key::Space, 1_000_000), Action::Started);
    assert_eq!(t.on_key(Key::Space, 1_100_000), Action::Ignored);
    assert_eq!(t.on_key(Key::Space, 1_250_000), Action::Ignored);
    assert!(t.running);
    assert_eq!(t.on_key(Key::Space, 1_250_001), Action::Stopped(250_001));
}

#[test]
fn ignored_signals_do_not_move_the_debounce() {
    let mut t = Timer::new();
    t.on_key(Key::Space, 1_000_000);
    t.on_key(Key::Other, 1_200_000);
    assert_eq!(t.debounce, 1_000_000);
    assert_eq!(t.on_key(Key::Other, 1_300_000), Action::Accepted);
    assert_eq!(t.debounce, 1_300_000);
    assert_eq!(t.on_key(Key::Space, 1_400_000), Action::Ignored);
}

#[test]
fn escape_cancels_without_a_time() {
    let mut t = Timer::new();
    t.on_key(Key::Space, 1_000_000);
    assert_eq!(t.on_key(Key::Escape, 2_000_000), Action::Cancelled);
    assert!(!t.running);
}

#[test]
fn clock_going_back_gives_zero() {
    let t = Timer { running: true, start: 5_000_000, debounce: 0 };
    assert_eq!(t.elapsed(4_000_000), 0);
    assert_eq!(t.elapsed(6_500_000), 1_500_000);
}
