use hyprdusk::clock::{clock_label, ClockReading};
use hyprdusk::decimal::i32_to_decimal;
use hyprdusk::workspaces::{focus_flags, workspace_buttons};

#[test]
fn decimal_small_numbers() {
    assert_eq!(i32_to_decimal(0), "0");
    assert_eq!(i32_to_decimal(7), "7");
    assert_eq!(i32_to_decimal(10), "10");
    assert_eq!(i32_to_decimal(1234), "1234");
}

#[test]
fn decimal_negative_and_extremes() {
    assert_eq!(i32_to_decimal(-5), "-5");
    assert_eq!(i32_to_decimal(-100), "-100");
    assert_eq!(i32_to_decimal(i32::MAX), i32::MAX.to_string());
    assert_eq!(i32_to_decimal(i32::MIN), i32::MIN.to_string());
}

#[test]
fn ten_workspace_buttons() {
    let buttons = workspace_buttons(10);
    assert_eq!(buttons.len(), 10);
    for (k, b) in buttons.iter().enumerate() {
        assert_eq!(b.id, k as i32 + 1);
        assert_eq!(b.label, (k + 1).to_string());
    }
    assert_eq!(buttons[9].label, "10");
}

#[test]
fn no_buttons_for_zero_or_negative_count() {
    assert!(workspace_buttons(0).is_empty());
    assert!(workspace_buttons(-3).is_empty());
    assert_eq!(workspace_buttons(1).len(), 1);
}

#[test]
fn only_active_workspace_is_focused() {
    let buttons = workspace_buttons(10);
    let flags = focus_flags(&buttons, 3);
    assert_eq!(flags.len(), 10);
    assert_eq!(flags.iter().filter(|f| **f).count(), 1);
    assert!(flags[2]);
}

#[test]
fn unknown_workspace_focuses_nothing() {
    let buttons = workspace_buttons(10);
    assert!(focus_flags(&buttons, 0).iter().all(|f| !*f));
    assert!(focus_flags(&buttons, 11).iter().all(|f| !*f));
    assert!(focus_flags(&buttons, -1).iter().all(|f| !*f));
}

fn reading(year: i32, month: u32, day: u32, hour: u32, minute: u32, second: u32) -> ClockReading {
    ClockReading { year, month, day, hour, minute, second }
}

#[test]
fn clock_label_format() {
    assert_eq!(
        clock_label(&reading(2024, 3, 7, 9, 5, 2)).as_deref(),
        Some("09:05:02 2024/03/07")
    );
    assert_eq!(
        clock_label(&reading(1999, 12, 31, 23, 59, 59)).as_deref(),
        Some("23:59:59 1999/12/31")
    );
}

#[test]
fn clock_label_years_outside_four_digits() {
    assert_eq!(clock_label(&reading(999, 1, 1, 0, 0, 0)).as_deref(), Some("00:00:00 0999/01/01"));
    assert_eq!(clock_label(&reading(-44, 3, 15, 12, 0, 0)).as_deref(), Some("12:00:00 -0044/03/15"));
    assert_eq!(clock_label(&reading(12345, 6, 1, 1, 2, 3)).as_deref(), Some("01:02:03 +12345/06/01"));
}

#[test]
fn clock_label_rejects_impossible_readings() {
    assert_eq!(clock_label(&reading(2023, 2, 29, 0, 0, 0)), None);
    assert!(clock_label(&reading(2024, 2, 29, 0, 0, 0)).is_some());
    assert_eq!(clock_label(&reading(1900, 2, 29, 0, 0, 0)), None);
    assert!(clock_label(&reading(2000, 2, 29, 0, 0, 0)).is_some());
    assert_eq!(clock_label(&reading(2024, 4, 31, 0, 0, 0)), None);
    assert_eq!(clock_label(&reading(2024, 13, 1, 0, 0, 0)), None);
    assert_eq!(clock_label(&reading(2024, 1, 0, 0, 0, 0)), None);
    assert_eq!(clock_label(&reading(2024, 1, 1, 24, 0, 0)), None);
    assert_eq!(clock_label(&reading(2024, 1, 1, 0, 60, 0)), None);
    assert_eq!(clock_label(&reading(2024, 1, 1, 0, 0, 60)), None);
    assert_eq!(clock_label(&reading(262143, 1, 1, 0, 0, 0)), None);
    assert!(clock_label(&reading(262142, 1, 1, 0, 0, 0)).is_some());
    assert_eq!(clock_label(&reading(-262144, 1, 1, 0, 0, 0)), None);
}

#[test]
fn clock_label_has_fixed_width() {
    for (y, m, d) in [(1, 1, 1), (2024, 12, 31), (9999, 2, 28)] {
        assert_eq!(clock_label(&reading(y, m, d, 7, 8, 9)).unwrap().len(), 19);
    }
}
