use chrono::Datelike;
use mensa_plan::MensaError;
use mensa_plan::date::weekday_of;
use mensa_plan::mensa::Weekday;

#[test]
fn tuesday_in_may() {
    assert_eq!(weekday_of("23.05.2023"), Ok(Weekday::Tue));
}

#[test]
fn nonexistent_calendar_day_is_invalid() {
    assert_eq!(weekday_of("31.02.2023"), Err(MensaError::InvalidDate));
}

#[test]
fn wrong_separator_is_malformed() {
    assert_eq!(weekday_of("23/05/2023"), Err(MensaError::MalformedDate));
}

#[test]
fn field_count_must_be_three() {
    assert_eq!(weekday_of("23.05"), Err(MensaError::MalformedDate));
    assert_eq!(weekday_of("23.05.2023.1"), Err(MensaError::MalformedDate));
    assert_eq!(weekday_of(""), Err(MensaError::MalformedDate));
    assert_eq!(weekday_of(".."), Err(MensaError::MalformedDate));
}

#[test]
fn nonnumeric_fields_are_malformed() {
    assert_eq!(weekday_of("a.b.c"), Err(MensaError::MalformedDate));
    assert_eq!(weekday_of("23.05.year"), Err(MensaError::MalformedDate));
    assert_eq!(weekday_of("2 3.05.2023"), Err(MensaError::MalformedDate));
}

#[test]
fn out_of_range_fields_are_invalid() {
    assert_eq!(weekday_of("13.13.2023"), Err(MensaError::InvalidDate));
    assert_eq!(weekday_of("00.01.2023"), Err(MensaError::InvalidDate));
    assert_eq!(weekday_of("31.04.2023"), Err(MensaError::InvalidDate));
    assert_eq!(weekday_of("32.01.2023"), Err(MensaError::InvalidDate));
}

#[test]
fn leap_years() {
    assert_eq!(weekday_of("29.02.2024"), Ok(Weekday::Thu));
    assert_eq!(weekday_of("29.02.2023"), Err(MensaError::InvalidDate));
    assert_eq!(weekday_of("29.02.2000"), Ok(Weekday::Tue));
    assert_eq!(weekday_of("29.02.1900"), Err(MensaError::InvalidDate));
}

#[test]
fn unix_epoch_was_a_thursday() {
    assert_eq!(weekday_of("01.01.1970"), Ok(Weekday::Thu));
}

fn chrono_weekday(y: i32, m: u32, d: u32) -> Weekday {
    match chrono::NaiveDate::from_ymd_opt(y, m, d).unwrap().weekday() {
        chrono::Weekday::Mon => Weekday::Mon,
        chrono::Weekday::Tue => Weekday::Tue,
        chrono::Weekday::Wed => Weekday::Wed,
        chrono::Weekday::Thu => Weekday::Thu,
        chrono::Weekday::Fri => Weekday::Fri,
        chrono::Weekday::Sat => Weekday::Sat,
        chrono::Weekday::Sun => Weekday::Sun,
    }
}

#[test]
fn weekdays_agree_with_chrono_across_two_years() {
    let lengths = [31u32, 29, 31, 30, 31, 30, 31, 31, 30, 31, 30, 31];
    for y in [2023i32, 2024] {
        for m in 1u32..=12 {
            let max_d = if m == 2 && y == 2023 { 28 } else { lengths[(m - 1) as usize] };
            for d in 1..=max_d {
                let raw = format!("{:02}.{:02}.{}", d, m, y);
                assert_eq!(weekday_of(&raw), Ok(chrono_weekday(y, m, d)), "{}", raw);
            }
        }
    }
}

#[test]
fn weekdays_agree_with_chrono_on_scattered_dates() {
    let dates = [
        (1i32, 1u32, 1u32),
        (1582, 10, 15),
        (1900, 2, 28),
        (2000, 2, 29),
        (2038, 1, 19),
        (2100, 3, 1),
        (-44, 3, 15),
        (9999, 12, 31),
    ];
    for (y, m, d) in dates {
        let raw = format!("{:02}.{:02}.{}", d, m, y);
        assert_eq!(weekday_of(&raw), Ok(chrono_weekday(y, m, d)), "{}", raw);
    }
}

#[test]
fn negative_years_resolve() {
    assert_eq!(weekday_of("01.01.-1"), Ok(chrono_weekday(-1, 1, 1)));
}

#[test]
fn weekday_names_parse_without_regard_to_case() {
    assert_eq!(Weekday::try_from("mon"), Ok(Weekday::Mon));
    assert_eq!(Weekday::try_from("Mon"), Ok(Weekday::Mon));
    assert_eq!(Weekday::try_from("TUE"), Ok(Weekday::Tue));
    assert_eq!(Weekday::try_from("sUn"), Ok(Weekday::Sun));
}

#[test]
fn unknown_weekday_names_are_rejected() {
    assert_eq!(Weekday::try_from("monday"), Err(MensaError::UnknownWeekday));
    assert_eq!(Weekday::try_from(""), Err(MensaError::UnknownWeekday));
    assert_eq!(Weekday::try_from("xyz"), Err(MensaError::UnknownWeekday));
}
