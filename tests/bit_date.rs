use bitdate::BitDate;

fn ymd(date: &BitDate) -> (u32, u32, u32) {
    (date.year(), date.month(), date.day())
}

#[test]
fn leap_feb_29_is_accepted() {
    let date = BitDate::from_ymd(2024, 2, 29).expect("2024-02-29 is a date");
    assert_eq!(date.year(), 2024);
    assert_eq!(date.month(), 2);
    assert_eq!(date.day(), 29);
    assert_eq!(date.leap_year(), 1);
}

#[test]
fn common_feb_29_is_rejected() {
    assert!(BitDate::from_ymd(2023, 2, 29).is_none());
}

#[test]
fn feb_30_is_rejected() {
    assert!(BitDate::from_ymd(2024, 2, 30).is_none());
}

#[test]
fn month_out_of_range_is_rejected() {
    for y in [1000, 2023, 2024, 999_999] {
        assert!(BitDate::from_ymd(y, 13, 1).is_none());
        assert!(BitDate::from_ymd(y, 0, 1).is_none());
    }
}

#[test]
fn day_zero_is_rejected() {
    assert!(BitDate::from_ymd(2024, 1, 0).is_none());
}

#[test]
fn day_past_month_end_is_rejected() {
    assert!(BitDate::from_ymd(2024, 4, 31).is_none());
    assert!(BitDate::from_ymd(2024, 1, 32).is_none());
    assert!(BitDate::from_ymd(2024, 4, 30).is_some());
}

#[test]
fn year_out_of_range_is_rejected() {
    assert!(BitDate::from_ymd(999, 12, 31).is_none());
    assert!(BitDate::from_ymd(1_000_000, 1, 1).is_none());
    assert!(BitDate::from_ymd(u32::MAX, 1, 1).is_none());
    assert!(BitDate::from_ymd(1000, 1, 1).is_some());
    assert!(BitDate::from_ymd(999_999, 12, 31).is_some());
}

#[test]
fn leap_rule() {
    assert_eq!(BitDate::leap_year_bit(2000), 1);
    assert_eq!(BitDate::leap_year_bit(1900), 0);
    assert_eq!(BitDate::leap_year_bit(2024), 1);
    assert_eq!(BitDate::leap_year_bit(2023), 0);
    assert_eq!(BitDate::leap_year_bit(2400), 1);
}

#[test]
fn month_lengths_from_table() {
    let common = [31, 28, 31, 30, 31, 30, 31, 31, 30, 31, 30, 31];
    let leap = [31, 29, 31, 30, 31, 30, 31, 31, 30, 31, 30, 31];
    for m in 1..=12u32 {
        assert_eq!(BitDate::days_in_month(m, 0), common[(m - 1) as usize]);
        assert_eq!(BitDate::days_in_month(m, 1), leap[(m - 1) as usize]);
    }
}

#[test]
fn round_trip_over_sample_years() {
    for y in [1000, 1600, 1900, 2000, 2023, 2024, 999_999] {
        for m in 1..=12u32 {
            let last = BitDate::days_in_month(m, BitDate::leap_year_bit(y));
            for d in 1..=last {
                let date = BitDate::from_ymd(y, m, d).expect("valid date");
                assert_eq!(ymd(&date), (y, m, d));
                assert_eq!(date.leap_year(), BitDate::leap_year_bit(y));
            }
            assert!(BitDate::from_ymd(y, m, last + 1).is_none());
        }
    }
}

#[test]
fn packed_forms_are_distinct() {
    let mut seen = std::collections::HashSet::new();
    for y in [1999, 2000, 2001] {
        for m in 1..=12u32 {
            for d in 1..=BitDate::days_in_month(m, BitDate::leap_year_bit(y)) {
                let date = BitDate::from_ymd(y, m, d).unwrap();
                assert!(seen.insert(date.ymdl()));
            }
        }
    }
}

#[test]
fn packed_layout() {
    let date = BitDate::from_ymd(2024, 2, 29).unwrap();
    assert_eq!(date.ymdl(), 2024 << 10 | 2 << 6 | 29 << 1 | 1);
    assert_eq!(BitDate::pack_year(2024), 2024 << 10);
    assert_eq!(BitDate::pack_month(2), 2 << 6);
    assert_eq!(BitDate::pack_day(29), 29 << 1);
    assert_eq!(BitDate::pack_leap_year(1), 1);
}

#[test]
fn boundary_constants_decode() {
    assert_eq!(BitDate::unpack_year(BitDate::MIN), 1000);
    assert_eq!(BitDate::unpack_month(BitDate::MIN), 1);
    assert_eq!(BitDate::unpack_day(BitDate::MIN), 1);
    assert_eq!(BitDate::unpack_leap_year(BitDate::MIN), 0);
    assert_eq!(BitDate::unpack_year(BitDate::MAX), 999_999);
    assert_eq!(BitDate::unpack_month(BitDate::MAX), 12);
    assert_eq!(BitDate::unpack_day(BitDate::MAX), 31);
    assert_eq!(BitDate::unpack_leap_year(BitDate::MAX), 0);
}

#[test]
fn boundary_constants_are_packed_dates() {
    assert_eq!(BitDate::from_ymd(1000, 1, 1).unwrap().ymdl(), BitDate::MIN);
    assert_eq!(BitDate::from_ymd(999_999, 12, 31).unwrap().ymdl(), BitDate::MAX);
}

#[test]
fn equal_dates_compare_equal() {
    let a = BitDate::from_ymd(2024, 2, 29).unwrap();
    let b = a;
    assert!(a == b);
    assert!(a != BitDate::from_ymd(2024, 3, 1).unwrap());
}
