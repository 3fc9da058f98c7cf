use exercises::birthday::{is_valid_date, User};

#[test]
fn counts_age() {
    for ((y, m, d), expected) in [
        ((1990, 6, 4), 29),
        ((1990, 7, 4), 28),
        ((0, 1, 1), 2019),
        ((1970, 1, 1), 49),
        ((2019, 6, 25), 0),
    ] {
        let user = User::with_birthdate(y, m, d);
        assert_eq!(user.age(), expected);
    }
}

#[test]
fn zero_if_birthdate_in_future() {
    for ((y, m, d), expected) in [
        ((2032, 6, 25), 0),
        ((2019, 6, 27), 0),
        ((3000, 6, 27), 0),
        ((9999, 6, 27), 0),
    ] {
        let user = User::with_birthdate(y, m, d);
        assert_eq!(user.age(), expected);
    }
}

#[test]
fn adult() {
    for ((y, m, d), expected) in [
        ((1990, 6, 4), true),
        ((1990, 7, 4), true),
        ((0, 1, 1), true),
        ((1970, 1, 1), true),
        ((2019, 6, 25), false),
        ((2001, 6, 24), true),
        ((2001, 6, 25), true),
        ((2001, 6, 26), true),
        ((2001, 6, 27), false),
        ((2032, 6, 25), false),
        ((2019, 6, 27), false),
        ((3000, 6, 27), false),
        ((9999, 6, 27), false),
    ] {
        let user = User::with_birthdate(y, m, d);
        assert_eq!(user.is_adult(), expected, "{:?}", (y, m, d));
    }
}

#[test]
fn birthday_later_in_an_earlier_month_counts() {
    assert_eq!(User::with_birthdate(1990, 5, 30).age(), 29);
    assert_eq!(User::with_birthdate(1990, 12, 1).age(), 28);
}

#[test]
fn age_too_large_for_u16_is_zero() {
    assert_eq!(User::with_birthdate(-262143, 1, 1).age(), 0);
}

#[test]
fn validates_dates() {
    assert!(is_valid_date(2000, 2, 29));
    assert!(!is_valid_date(1900, 2, 29));
    assert!(!is_valid_date(2019, 4, 31));
    assert!(!is_valid_date(2019, 13, 1));
    assert!(!is_valid_date(2019, 1, 0));
    assert!(is_valid_date(2019, 12, 31));
}
