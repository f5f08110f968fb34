//! The BOOT button.
use srkos::ipc::Command;
use srkos::tasks::button::{
    classify_press, BOOT_BUTTON_GPIO, CLICK_MAX_MS, DEBOUNCE_MS, LONG_PRESS_MS,
};

#[test]
fn timing_constants_are_consistent() {
    assert!(
        CLICK_MAX_MS < LONG_PRESS_MS,
        "click threshold must be shorter than long-press threshold"
    );
    assert!(
        DEBOUNCE_MS < CLICK_MAX_MS,
        "debounce must be shorter than click threshold to avoid masking clicks"
    );
}

#[test]
fn click_max_ms_is_500() {
    assert_eq!(CLICK_MAX_MS, 500);
}

#[test]
fn long_press_ms_is_2000() {
    assert_eq!(LONG_PRESS_MS, 2000);
}

#[test]
fn debounce_ms_is_50() {
    assert_eq!(DEBOUNCE_MS, 50);
}

#[test]
fn boot_button_gpio_is_zero() {
    assert_eq!(BOOT_BUTTON_GPIO, 0);
}

#[test]
fn short_press_is_a_click() {
    assert_eq!(classify_press(0), Some(Command::MenuNextItem));
    assert_eq!(classify_press(499), Some(Command::MenuNextItem));
}

#[test]
fn middling_press_is_ignored() {
    assert_eq!(classify_press(500), None);
    assert_eq!(classify_press(1999), None);
}

#[test]
fn long_press_selects() {
    assert_eq!(classify_press(2000), Some(Command::MenuSelect));
    assert_eq!(classify_press(u64::MAX), Some(Command::MenuSelect));
}
