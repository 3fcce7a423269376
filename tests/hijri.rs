use salah::{Date, HijriDate};

fn hijri(y: i32, m: u32, d: u32, adjustment: i32) -> (i32, u32, u32) {
    let h = HijriDate::from_gregorian(Date::new(y, m, d).unwrap(), adjustment);
    (h.year, h.month, h.day)
}

#[test]
fn hijri_epoch() {
    assert_eq!(hijri(622, 7, 19, 0), (1, 1, 1));
    assert_eq!(hijri(622, 7, 18, 0), (0, 12, 29));
}

#[test]
fn hijri_of_ramadan_1442() {
    assert_eq!(hijri(2021, 4, 13, 0), (1442, 9, 1));
    assert_eq!(hijri(2021, 4, 9, 0), (1442, 8, 26));
    assert_eq!(hijri(2021, 5, 12, 0), (1442, 9, 30));
    assert_eq!(hijri(2021, 5, 13, 0), (1442, 10, 1));
}

#[test]
fn hijri_adjustment_shifts_days() {
    assert_eq!(hijri(2021, 4, 12, 1), (1442, 9, 1));
    assert_eq!(hijri(2021, 4, 13, -1), (1442, 8, 29));
}

#[test]
fn hijri_year_boundary() {
    // 1 Muharram 1443 in the tabular calendar
    assert_eq!(hijri(2021, 8, 10, 0), (1443, 1, 1));
    assert_eq!(hijri(2021, 8, 9, 0), (1442, 12, 30));
}

#[test]
fn ramadan_detection() {
    assert!(HijriDate::is_ramadan(Date::new(2021, 4, 20).unwrap()));
    assert!(!HijriDate::is_ramadan(Date::new(2021, 4, 9).unwrap()));
    assert!(!HijriDate::is_ramadan(Date::new(2021, 5, 13).unwrap()));
}
