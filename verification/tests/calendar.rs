use commit_calendar::calendar::{days_in_month, is_leap_year, Date, MAX_YEAR, MIN_YEAR};
use commit_calendar::intensity::{bucket_label, classify};

#[test]
fn february_has_29_days_in_leap_years() {
    assert_eq!(days_in_month(2000, 2), 29);
    assert_eq!(days_in_month(2020, 2), 29);
    assert_eq!(days_in_month(2400, 2), 29);
}

#[test]
fn february_has_28_days_in_common_years() {
    assert_eq!(days_in_month(1900, 2), 28);
    assert_eq!(days_in_month(2021, 2), 28);
    assert_eq!(days_in_month(2100, 2), 28);
}

#[test]
fn leap_years_follow_the_gregorian_rule() {
    assert!(is_leap_year(2000));
    assert!(is_leap_year(2024));
    assert!(!is_leap_year(1900));
    assert!(!is_leap_year(2023));
    assert!(is_leap_year(0));
    assert!(is_leap_year(-4));
    assert!(!is_leap_year(-100));
    assert!(is_leap_year(-400));
}

#[test]
fn months_have_their_lengths() {
    let lengths = [31, 28, 31, 30, 31, 30, 31, 31, 30, 31, 30, 31];
    for month in 1..=12u32 {
        assert_eq!(days_in_month(2023, month), lengths[(month - 1) as usize]);
    }
    assert_eq!(days_in_month(2023, 0), 0);
    assert_eq!(days_in_month(2023, 13), 0);
}

#[test]
fn dates_are_checked_against_the_calendar() {
    assert_eq!(Date::from_ymd(2023, 6, 15), Some(Date { year: 2023, month: 6, day: 15 }));
    assert_eq!(Date::from_ymd(2024, 2, 29), Some(Date { year: 2024, month: 2, day: 29 }));
    assert_eq!(Date::from_ymd(2023, 2, 29), None);
    assert_eq!(Date::from_ymd(2023, 4, 31), None);
    assert_eq!(Date::from_ymd(2023, 0, 1), None);
    assert_eq!(Date::from_ymd(2023, 13, 1), None);
    assert_eq!(Date::from_ymd(2023, 1, 0), None);
    assert_eq!(Date::from_ymd(2023, 1, 32), None);
    assert_eq!(Date::from_ymd(2023, 300, 1), None);
}

#[test]
fn dates_stay_between_the_first_and_the_last_year() {
    assert!(Date::from_ymd(MIN_YEAR, 1, 1).is_some());
    assert!(Date::from_ymd(MAX_YEAR, 12, 31).is_some());
    assert!(Date::from_ymd(MIN_YEAR - 1, 12, 31).is_none());
    assert!(Date::from_ymd(MAX_YEAR + 1, 1, 1).is_none());
}

#[test]
fn classifier_boundaries() {
    assert_eq!(classify(0), 0);
    assert_eq!(classify(1), 1);
    assert_eq!(classify(2), 2);
    assert_eq!(classify(4), 2);
    assert_eq!(classify(5), 3);
    assert_eq!(classify(9), 3);
    assert_eq!(classify(10), 4);
    assert_eq!(classify(19), 4);
    assert_eq!(classify(20), 5);
    assert_eq!(classify(1000), 5);
    assert_eq!(classify(u64::MAX), 5);
}

#[test]
fn bucket_labels_name_their_ranges() {
    assert_eq!(bucket_label(1), " days with 1 commit");
    assert_eq!(bucket_label(2), " days with 2-4 commits");
    assert_eq!(bucket_label(3), " days with 5-9 commits");
    assert_eq!(bucket_label(4), " days with 10-19 commits");
    assert_eq!(bucket_label(5), " days with 20+ commits");
    assert_eq!(bucket_label(0), "");
    assert_eq!(bucket_label(6), "");
}
