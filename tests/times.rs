use salah::{Config, Date, DateTime, Error, IshaInterval, Prayer, PrayerTimes, SolarDay};

const SECOND: i64 = 1000;
const MINUTE: i64 = 60 * SECOND;
const HOUR: i64 = 60 * MINUTE;

fn clock(h: i64, m: i64, s: i64, ms: i64) -> i64 {
    h * HOUR + m * MINUTE + s * SECOND + ms
}

fn date(y: i32, m: u32, d: u32) -> Date {
    Date::new(y, m, d).unwrap()
}

fn at(d: Date, h: u32, m: u32, s: u32) -> DateTime {
    d.and_hms(h, m, s).unwrap()
}

fn hms(t: DateTime) -> (u32, u32, u32) {
    (t.hour, t.minute, t.second)
}

/// Solar measurements that give Jakarta's times of 2021-04-09.
fn jakarta_april_9() -> SolarDay {
    let noon = clock(11, 54, 14, 900);
    SolarDay {
        noon,
        asr_arc: clock(3, 18, 0, 0),
        horizon_arc: clock(6, 0, 0, 0),
        fajr_arc: noon - clock(4, 36, 34, 900),
        ishaa_arc: clock(19, 3, 49, 300) - noon,
    }
}

/// Solar measurements that give Jakarta's times of 2021-04-19.
fn jakarta_april_19() -> SolarDay {
    let noon = clock(11, 51, 45, 500);
    SolarDay {
        noon,
        asr_arc: clock(15, 11, 51, 500) - noon,
        horizon_arc: clock(17, 50, 12, 500) - noon,
        fajr_arc: noon - clock(4, 34, 54, 500),
        ishaa_arc: clock(19, 0, 27, 500) - noon,
    }
}

fn angle_config() -> Config {
    Config { isha_interval: IshaInterval { all_year: 0, ramadan: 0 }, is_summer: false }
}

fn interval_config() -> Config {
    Config { isha_interval: IshaInterval { all_year: 90, ramadan: 120 }, is_summer: false }
}

fn schedule_april_19() -> PrayerTimes {
    let s = jakarta_april_19();
    PrayerTimes::new(date(2021, 4, 19), s, s, angle_config()).unwrap()
}

#[test]
fn schedule_from_measurements() {
    let s = jakarta_april_9();
    let pt = PrayerTimes::new(date(2021, 4, 9), s, s, angle_config()).unwrap();
    assert_eq!(hms(pt.dohr), (11, 54, 14));
    assert_eq!(hms(pt.asr), (15, 12, 14));
    assert_eq!(hms(pt.maghreb), (17, 54, 14));
    assert_eq!(hms(pt.ishaa), (19, 3, 49));
    assert_eq!(hms(pt.fajr), (4, 36, 34));
    assert_eq!(hms(pt.sherook), (5, 54, 14));
    assert_eq!(hms(pt.first_third_of_night), (21, 28, 21));
    assert_eq!(hms(pt.midnight), (23, 15, 24));
    assert_eq!(hms(pt.last_third_of_night), (1, 2, 28));
    assert_eq!(pt.last_third_of_night.date, date(2021, 4, 9));
    assert_eq!(pt.fajr_tomorrow, at(date(2021, 4, 10), 4, 36, 34));
    assert_eq!(pt.date, at(date(2021, 4, 9), 0, 0, 0));
}

#[test]
fn fixed_interval_ishaa_outside_ramadan() {
    let s = jakarta_april_9();
    let pt = PrayerTimes::new(date(2021, 4, 9), s, s, interval_config()).unwrap();
    assert_eq!(hms(pt.ishaa), (19, 24, 14));
}

#[test]
fn fixed_interval_ishaa_in_ramadan() {
    let s = jakarta_april_19();
    let pt = PrayerTimes::new(date(2021, 4, 20), s, s, interval_config()).unwrap();
    assert_eq!(hms(pt.maghreb), (17, 50, 12));
    assert_eq!(hms(pt.ishaa), (19, 50, 12));
}

#[test]
fn summer_time_adds_an_hour() {
    let s = jakarta_april_9();
    let config = Config { is_summer: true, ..angle_config() };
    let pt = PrayerTimes::new(date(2021, 4, 9), s, s, config).unwrap();
    assert_eq!(hms(pt.dohr), (12, 54, 14));
    assert_eq!(hms(pt.fajr), (5, 36, 34));
    assert_eq!(hms(pt.last_third_of_night), (2, 2, 28));
}

#[test]
fn times_wrap_around_the_day() {
    let s = SolarDay { noon: -SECOND, asr_arc: 0, horizon_arc: 0, fajr_arc: 0, ishaa_arc: 0 };
    let pt = PrayerTimes::new(date(2021, 4, 9), s, s, angle_config()).unwrap();
    assert_eq!(hms(pt.dohr), (23, 59, 59));
}

#[test]
fn last_date_has_no_schedule() {
    let s = jakarta_april_9();
    let r = PrayerTimes::new(date(262142, 12, 31), s, s, angle_config());
    assert_eq!(r, Err(Error::InvalidDate));
}

#[test]
fn schedule_is_in_order() {
    let pt = schedule_april_19();
    let order = [pt.fajr, pt.sherook, pt.dohr, pt.asr, pt.maghreb, pt.ishaa, pt.fajr_tomorrow];
    for w in order.windows(2) {
        assert!(w[0].timestamp() < w[1].timestamp());
    }
}

#[test]
fn midnight_is_halfway_through_the_night() {
    let s = jakarta_april_9();
    let pt = PrayerTimes::new(date(2021, 4, 9), s, s, angle_config()).unwrap();
    let midnight = pt.midnight.timestamp();
    assert_eq!(
        midnight - pt.maghreb.timestamp(),
        pt.fajr_tomorrow.timestamp() - midnight
    );
}

#[test]
fn same_inputs_same_schedule() {
    let s = jakarta_april_9();
    let a = PrayerTimes::new(date(2021, 4, 9), s, s, angle_config());
    let b = PrayerTimes::new(date(2021, 4, 9), s, s, angle_config());
    assert_eq!(a, b);
}

#[test]
fn current_prayer_is_dohr() {
    let pt = schedule_april_19();
    let now = at(date(2021, 4, 19), 11, 52, 0);
    assert_eq!(pt.current(now), Ok(Prayer::Dohr));
}

#[test]
fn current_prayer_is_asr() {
    let pt = schedule_april_19();
    let now = at(date(2021, 4, 19), 15, 13, 0);
    assert_eq!(pt.current(now), Ok(Prayer::Asr));
}

#[test]
fn current_prayer_is_maghreb() {
    let pt = schedule_april_19();
    let now = at(date(2021, 4, 19), 17, 51, 0);
    assert_eq!(pt.current(now), Ok(Prayer::Maghreb));
}

#[test]
fn current_prayer_is_ishaa() {
    let pt = schedule_april_19();
    let now = at(date(2021, 4, 19), 19, 1, 0);
    assert_eq!(pt.current(now), Ok(Prayer::Ishaa));
}

#[test]
fn current_prayer_is_fajr() {
    let pt = schedule_april_19();
    let now = at(date(2021, 4, 19), 4, 35, 0);
    assert_eq!(pt.current(now), Ok(Prayer::Fajr));
}

#[test]
fn current_prayer_is_sherook() {
    let pt = schedule_april_19();
    let now = at(date(2021, 4, 19), 8, 0, 0);
    assert_eq!(pt.current(now), Ok(Prayer::Sherook));
}

#[test]
fn maghreb_lasts_until_ishaa() {
    let pt = schedule_april_19();
    let d = date(2021, 4, 19);
    assert_eq!(pt.current(at(d, 17, 50, 12)), Ok(Prayer::Maghreb));
    assert_eq!(pt.current(at(d, 19, 0, 26)), Ok(Prayer::Maghreb));
    assert_eq!(pt.current(at(d, 19, 0, 27)), Ok(Prayer::Ishaa));
}

#[test]
fn before_fajr_is_still_ishaa() {
    let pt = schedule_april_19();
    assert_eq!(pt.current(at(date(2021, 4, 19), 2, 0, 0)), Ok(Prayer::Ishaa));
    assert_eq!(pt.current(at(date(2021, 4, 20), 2, 0, 0)), Ok(Prayer::Ishaa));
}

#[test]
fn instant_outside_the_schedule() {
    let pt = schedule_april_19();
    let now = at(date(2021, 5, 1), 12, 0, 0);
    assert_eq!(pt.current(now), Err(Error::NoCurrentPrayer));
    assert_eq!(pt.next(now), Err(Error::NoCurrentPrayer));
    assert_eq!(pt.time_remaining(now), Err(Error::NoCurrentPrayer));
}

#[test]
fn next_follows_the_cycle() {
    let pt = schedule_april_19();
    let all = [
        Prayer::Fajr,
        Prayer::Sherook,
        Prayer::Dohr,
        Prayer::Asr,
        Prayer::Maghreb,
        Prayer::Ishaa,
    ];
    for p in all {
        assert_eq!(pt.current(pt.time(p)), Ok(p));
        assert_eq!(pt.next(pt.time(p)), Ok(p.successor()));
    }
    assert_eq!(Prayer::Ishaa.successor(), Prayer::Fajr);
    assert_eq!(Prayer::Fajr.successor(), Prayer::Sherook);
}

#[test]
fn time_looks_up_the_schedule() {
    let pt = schedule_april_19();
    assert_eq!(hms(pt.time(Prayer::Asr)), (15, 11, 51));
    assert_eq!(hms(pt.time(Prayer::Sherook)), (5, 53, 18));
}

#[test]
fn time_remaining_same_day() {
    let pt = schedule_april_19();
    let now = at(date(2021, 4, 19), 11, 52, 0);
    assert_eq!(pt.time_remaining(now), Ok((3, 20)));
}

#[test]
fn time_remaining_until_tomorrows_fajr() {
    let pt = schedule_april_19();
    let now = at(date(2021, 4, 19), 19, 30, 0);
    assert_eq!(pt.next(now), Ok(Prayer::Fajr));
    assert_eq!(pt.time_remaining(now), Ok((9, 5)));
}

fn with_fajr(s: SolarDay, h: i64, m: i64, sec: i64) -> SolarDay {
    SolarDay { fajr_arc: s.noon - clock(h, m, sec, 500), ..s }
}

#[test]
fn pre_dawn_is_ishaa_when_tomorrows_fajr_is_earlier() {
    let today = jakarta_april_19();
    let tomorrow = with_fajr(today, 4, 34, 50);
    let d = date(2021, 4, 19);
    let pt = PrayerTimes::new(d, today, tomorrow, angle_config()).unwrap();
    assert_eq!(pt.current(at(d, 4, 34, 52)), Ok(Prayer::Ishaa));
    assert_eq!(pt.current(at(d, 0, 0, 0)), Ok(Prayer::Ishaa));
    assert_eq!(pt.current(at(d, 4, 34, 54)), Ok(Prayer::Fajr));
}

#[test]
fn time_remaining_counts_to_midnight() {
    let s = with_fajr(jakarta_april_19(), 4, 30, 30);
    let d = date(2021, 4, 19);
    let pt = PrayerTimes::new(d, s, s, angle_config()).unwrap();
    assert_eq!(pt.time_remaining(at(d, 20, 0, 0)), Ok((8, 31)));
}

#[test]
fn time_remaining_uses_tomorrows_fajr() {
    let today = with_fajr(jakarta_april_19(), 4, 30, 30);
    let tomorrow = with_fajr(today, 4, 29, 30);
    let d = date(2021, 4, 19);
    let pt = PrayerTimes::new(d, today, tomorrow, angle_config()).unwrap();
    assert_eq!(pt.time_remaining(at(d, 20, 0, 0)), Ok((8, 30)));
}

#[test]
fn time_remaining_after_midnight_until_fajr() {
    let pt = schedule_april_19();
    let now = at(date(2021, 4, 20), 2, 0, 0);
    assert_eq!(pt.current(now), Ok(Prayer::Ishaa));
    assert_eq!(pt.time_remaining(now), Ok((2, 35)));
}

#[test]
fn fixed_interval_elapsed_seconds() {
    let s = jakarta_april_19();
    let ramadan = PrayerTimes::new(date(2021, 4, 20), s, s, interval_config()).unwrap();
    assert_eq!(ramadan.ishaa.timestamp() - ramadan.maghreb.timestamp(), 120 * 60);
    let plain = PrayerTimes::new(date(2021, 4, 9), s, s, interval_config()).unwrap();
    assert_eq!(plain.ishaa.timestamp() - plain.maghreb.timestamp(), 90 * 60);
}

#[test]
fn schedule_validity() {
    let mut pt = schedule_april_19();
    assert!(pt.is_valid());
    pt.midnight.minute = 60;
    assert!(!pt.is_valid());
}
