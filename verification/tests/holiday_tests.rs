use rustle::holidays::{get_holiday_for_date, is_holiday_theme, CalendarDate};

fn on(year: i32, month: u32, day: u32) -> Option<(&'static str, &'static str)> {
    get_holiday_for_date(CalendarDate { year, month, day })
}

#[test]
fn fixed_holidays() {
    assert_eq!(on(2024, 12, 31), Some(("newyear", "New Year's")));
    assert_eq!(on(2025, 1, 1), Some(("newyear", "New Year's")));
    assert_eq!(on(2025, 1, 2), None);
    assert_eq!(on(2025, 2, 12), Some(("valentine", "Valentine's Day")));
    assert_eq!(on(2025, 2, 15), None);
    assert_eq!(on(2025, 3, 17), Some(("stpatrick", "St. Patrick's Day")));
    assert_eq!(on(2025, 7, 4), Some(("independence", "Independence Day")));
    assert_eq!(on(2025, 10, 25), Some(("halloween", "Halloween")));
    assert_eq!(on(2025, 12, 20), Some(("christmas", "Christmas")));
    assert_eq!(on(2025, 12, 27), None);
}

#[test]
fn easter_runs_from_good_friday_to_easter_monday() {
    // Easter Sunday 2024 was March 31.
    assert_eq!(on(2024, 3, 28), None);
    assert_eq!(on(2024, 3, 29), Some(("easter", "Easter")));
    assert_eq!(on(2024, 3, 31), Some(("easter", "Easter")));
    assert_eq!(on(2024, 4, 1), Some(("easter", "Easter")));
    assert_eq!(on(2024, 4, 2), None);
    // Easter Sunday 2025 was April 20.
    assert_eq!(on(2025, 4, 18), Some(("easter", "Easter")));
    assert_eq!(on(2025, 4, 17), None);
    // Easter Sunday 2008 was March 23.
    assert_eq!(on(2008, 3, 21), Some(("easter", "Easter")));
}

#[test]
fn thanksgiving_runs_from_thursday_to_sunday() {
    // The fourth Thursday of November 2024 was the 28th.
    assert_eq!(on(2024, 11, 27), None);
    assert_eq!(on(2024, 11, 28), Some(("thanksgiving", "Thanksgiving")));
    assert_eq!(on(2024, 12, 1), Some(("thanksgiving", "Thanksgiving")));
    assert_eq!(on(2024, 12, 2), None);
    // In 2025 it was the 27th.
    assert_eq!(on(2025, 11, 27), Some(("thanksgiving", "Thanksgiving")));
    assert_eq!(on(2025, 11, 26), None);
}

#[test]
fn holiday_themes() {
    assert!(is_holiday_theme("halloween-pumpkin"));
    assert!(is_holiday_theme("christmas-"));
    assert!(!is_holiday_theme("christmas"));
    assert!(!is_holiday_theme("yellow"));
    assert!(!is_holiday_theme(""));
}

#[test]
fn holiday_prefixes_name_themes() {
    for (y, m, d) in [(2024, 12, 31), (2025, 2, 13), (2025, 3, 16), (2024, 3, 30), (2025, 7, 3), (2025, 10, 31), (2024, 11, 29), (2025, 12, 24)] {
        let (prefix, _) = on(y, m, d).unwrap();
        assert!(is_holiday_theme(&format!("{}-{}", prefix, "anything")));
        assert!(is_holiday_theme(&format!("{}-", prefix)));
    }
}

#[test]
fn easter_sundays_are_sundays() {
    // Known Easter Sundays, among them the earliest and the latest possible dates.
    for (y, m, d) in [(2000, 4, 23), (2019, 4, 21), (2038, 4, 25), (2285, 3, 22)] {
        assert_eq!(on(y, m, d), Some(("easter", "Easter")));
    }
}
