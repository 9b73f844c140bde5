//! Button debouncing and classification.

use sonde::modem::button::{ButtonPoll, ButtonScanner, NoButton};
use sonde::modem::message::{BUTTON_TYPE_LONG, BUTTON_TYPE_SHORT};
use std::cell::Cell;
use std::rc::Rc;

/// Create a ButtonScanner with a controllable pressed state.
fn make_test_scanner() -> (Rc<Cell<bool>>, ButtonScanner<impl FnMut() -> bool>) {
    let pressed = Rc::new(Cell::new(false));
    let pressed_clone = pressed.clone();
    let scanner = ButtonScanner::new(move || pressed_clone.get());
    (pressed, scanner)
}

/// Deterministic time offsets for button tests.
const MS: u64 = 1_000_000;

#[test]
fn button_short_press() {
    let (_, mut scanner) = make_test_scanner();
    let t0 = 5_000 * MS;

    // Idle — not pressed.
    assert_eq!(scanner.poll_at(t0, false), None);

    // Press the button.
    assert_eq!(scanner.poll_at(t0, true), None); // DebouncePress

    // Before debounce completes — still nothing.
    assert_eq!(scanner.poll_at(t0 + MS * 20, true), None);

    // Past debounce (30 ms) — enters Pressed.
    assert_eq!(scanner.poll_at(t0 + MS * 30, true), None);

    // Release at 230 ms (200 ms hold).
    assert_eq!(scanner.poll_at(t0 + MS * 230, false), None); // DebounceRelease

    // Past release debounce — classify as SHORT.
    assert_eq!(
        scanner.poll_at(t0 + MS * 260, false),
        Some(BUTTON_TYPE_SHORT)
    );

    // Back to idle.
    assert_eq!(scanner.poll_at(t0 + MS * 300, false), None);
}

#[test]
fn button_long_press() {
    let (_, mut scanner) = make_test_scanner();
    let t0 = 5_000 * MS;

    // Press.
    scanner.poll_at(t0, true);
    scanner.poll_at(t0 + MS * 30, true); // Pressed

    // Release at 1200 ms (1170 ms hold).
    scanner.poll_at(t0 + MS * 1200, false); // DebounceRelease

    // Past release debounce.
    assert_eq!(
        scanner.poll_at(t0 + MS * 1230, false),
        Some(BUTTON_TYPE_LONG)
    );
}

#[test]
fn button_glitch_rejected() {
    let (_, mut scanner) = make_test_scanner();
    let t0 = 5_000 * MS;

    // Brief press shorter than debounce.
    scanner.poll_at(t0, true); // DebouncePress
                               // Release before 30 ms.
    assert_eq!(scanner.poll_at(t0 + MS * 10, false), None); // back to Idle

    // No event.
    assert_eq!(scanner.poll_at(t0 + MS * 100, false), None);
}

#[test]
fn button_no_event_while_held() {
    let (_, mut scanner) = make_test_scanner();
    let t0 = 5_000 * MS;

    scanner.poll_at(t0, true);
    scanner.poll_at(t0 + MS * 30, true); // Pressed

    // Hold for 2 seconds — no event.
    for i in 1..=20 {
        assert_eq!(scanner.poll_at(t0 + MS * 30 + MS * 100 * i, true), None);
    }

    // Release at 2030 ms.
    scanner.poll_at(t0 + MS * 2030, false);
    assert_eq!(
        scanner.poll_at(t0 + MS * 2060, false),
        Some(BUTTON_TYPE_LONG)
    );
}

#[test]
fn button_back_to_back_presses() {
    let (_, mut scanner) = make_test_scanner();
    let t0 = 5_000 * MS;

    // First press — short (200 ms hold).
    scanner.poll_at(t0, true);
    scanner.poll_at(t0 + MS * 30, true); // Pressed
    scanner.poll_at(t0 + MS * 230, false); // DebounceRelease
    assert_eq!(
        scanner.poll_at(t0 + MS * 260, false),
        Some(BUTTON_TYPE_SHORT)
    );

    // Second press — long (1200 ms hold).
    scanner.poll_at(t0 + MS * 400, true);
    scanner.poll_at(t0 + MS * 430, true); // Pressed
    scanner.poll_at(t0 + MS * 1630, false); // DebounceRelease
    assert_eq!(
        scanner.poll_at(t0 + MS * 1660, false),
        Some(BUTTON_TYPE_LONG)
    );
}

#[test]
fn button_boundary_999ms_short_1000ms_long() {
    // exactly 999 ms → SHORT, exactly 1000 ms → LONG.
    let (_, mut scanner) = make_test_scanner();
    let t0 = 5_000 * MS;

    // 999 ms between debounced press and debounced release → SHORT.
    scanner.poll_at(t0, true); // DebouncePress
    scanner.poll_at(t0 + MS * 30, true); // Pressed, press_start = t0+30
    scanner.poll_at(t0 + MS * 999, false); // DebounceRelease
    assert_eq!(
        scanner.poll_at(t0 + MS * 1029, false), // duration = 1029-30 = 999 ms
        Some(BUTTON_TYPE_SHORT)
    );

    // 1000 ms between debounced press and debounced release → LONG.
    scanner.poll_at(t0 + MS * 1100, true); // DebouncePress
    scanner.poll_at(t0 + MS * 1130, true); // Pressed, press_start = t0+1130
    scanner.poll_at(t0 + MS * 2100, false); // DebounceRelease
    assert_eq!(
        scanner.poll_at(t0 + MS * 2130, false), // duration = 2130-1130 = 1000 ms
        Some(BUTTON_TYPE_LONG)
    );
}

#[test]
fn button_release_bounce_rejected() {
    // bounce during release should not create a second event.
    let (_, mut scanner) = make_test_scanner();
    let t0 = 5_000 * MS;

    // Press for 200 ms.
    scanner.poll_at(t0, true);
    scanner.poll_at(t0 + MS * 30, true); // Pressed

    // Release — but bounce back within debounce window.
    scanner.poll_at(t0 + MS * 230, false); // DebounceRelease
    assert_eq!(scanner.poll_at(t0 + MS * 240, true), None); // bounce → Pressed

    // Now truly release.
    scanner.poll_at(t0 + MS * 300, false); // DebounceRelease
    assert_eq!(
        scanner.poll_at(t0 + MS * 330, false),
        Some(BUTTON_TYPE_SHORT)
    );

    // No second event.
    assert_eq!(scanner.poll_at(t0 + MS * 400, false), None);
}

#[test]
fn scanner_reads_its_input() {
    let (pressed, mut scanner) = make_test_scanner();
    pressed.set(true);
    assert_eq!(scanner.poll(0), None);
    assert_eq!(scanner.poll(30 * MS), None);
    pressed.set(false);
    assert_eq!(scanner.poll(200 * MS), None);
    assert_eq!(scanner.poll(230 * MS), Some(BUTTON_TYPE_SHORT));
}

#[test]
fn absent_button_is_never_pressed() {
    assert_eq!(NoButton.poll(0), None);
}

#[test]
fn hold_time_does_not_depend_on_the_number_of_polls() {
    // Pressed from 0 to 990 ms, with a release that bounced back in between.
    for step in [1, 7, 15, 30] {
        let (_, mut scanner) = make_test_scanner();
        let mut events = Vec::new();
        let mut t = 0;
        while t < 990 {
            let bounced = (500..515).contains(&t);
            events.extend(scanner.poll_at(t * MS, !bounced));
            t += step;
        }
        for t in [990, 991, 1_005, 1_020, 1_021, 2_000] {
            events.extend(scanner.poll_at(t * MS, false));
        }
        assert_eq!(events, vec![BUTTON_TYPE_SHORT]);
    }
}
