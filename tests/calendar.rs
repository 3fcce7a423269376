use salah::{Date, Error};

#[test]
fn date_new_accepts_existing_dates() {
    let d = Date::new(2021, 4, 9).unwrap();
    assert_eq!((d.year, d.month, d.day), (2021, 4, 9));
    assert!(Date::new(2020, 2, 29).is_ok());
    assert!(Date::new(-4, 2, 29).is_ok());
}

#[test]
fn date_new_rejects_missing_dates() {
    assert_eq!(Date::new(2021, 2, 29), Err(Error::InvalidDate));
    assert_eq!(Date::new(2021, 13, 1), Err(Error::InvalidDate));
    assert_eq!(Date::new(2021, 4, 31), Err(Error::InvalidDate));
    assert_eq!(Date::new(1900, 2, 29), Err(Error::InvalidDate));
    assert_eq!(Date::new(400000, 1, 1), Err(Error::InvalidDate));
}

#[test]
fn succ_crosses_month_and_year() {
    let d = Date::new(2021, 4, 30).unwrap().succ().unwrap();
    assert_eq!((d.year, d.month, d.day), (2021, 5, 1));
    let d = Date::new(2020, 12, 31).unwrap().succ().unwrap();
    assert_eq!((d.year, d.month, d.day), (2021, 1, 1));
    let d = Date::new(2020, 2, 28).unwrap().succ().unwrap();
    assert_eq!((d.year, d.month, d.day), (2020, 2, 29));
}

#[test]
fn succ_of_last_date_fails() {
    let last = Date::new(262142, 12, 31).unwrap();
    assert_eq!(last.succ(), Err(Error::InvalidDate));
}

#[test]
fn day_counts() {
    assert_eq!(Date::new(1970, 1, 1).unwrap().days_from_ce(), 719_163);
    assert_eq!(Date::new(1, 1, 1).unwrap().days_from_ce(), 1);
    assert_eq!(Date::new(0, 1, 1).unwrap().days_from_ce(), -365);
    assert_eq!(Date::new(2021, 4, 9).unwrap().julian_day(), 2_459_314);
    assert_eq!(Date::new(2000, 1, 1).unwrap().julian_day(), 2_451_545);
}

#[test]
fn and_hms_checks_time_of_day() {
    let d = Date::new(2021, 4, 9).unwrap();
    let t = d.and_hms(23, 59, 59).unwrap();
    assert_eq!((t.hour, t.minute, t.second), (23, 59, 59));
    assert_eq!(d.and_hms(24, 0, 0), Err(Error::InvalidTime));
    assert_eq!(d.and_hms(23, 60, 0), Err(Error::InvalidTime));
    assert_eq!(d.and_hms(23, 59, 60), Err(Error::InvalidTime));
}

#[test]
fn timestamps_follow_the_calendar() {
    let a = Date::new(2021, 12, 31).unwrap().and_hms(23, 59, 59).unwrap();
    let b = Date::new(2022, 1, 1).unwrap().and_hms(0, 0, 0).unwrap();
    assert_eq!(b.timestamp() - a.timestamp(), 1);
    let c = Date::new(1, 1, 1).unwrap().and_hms(1, 2, 3).unwrap();
    assert_eq!(c.timestamp(), 86_400 + 3723);
}

#[test]
fn date_time_validity() {
    let d = Date::new(2021, 4, 9).unwrap();
    assert!(d.and_hms(12, 0, 0).unwrap().is_valid());
    let bad_time = salah::DateTime { date: d, hour: 24, minute: 0, second: 0 };
    assert!(!bad_time.is_valid());
    let bad_date = Date { year: 2021, month: 2, day: 30 };
    let t = salah::DateTime { date: bad_date, hour: 1, minute: 0, second: 0 };
    assert!(!t.is_valid());
}
