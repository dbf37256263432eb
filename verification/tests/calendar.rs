use holyland::calendar::{date_of, day_of_year, season_of, Month, Season, START_DAY};

#[test]
fn start_day_is_21_mar_1300_spring() {
    let (y, m, d) = date_of(START_DAY);
    assert_eq!(y, 1300);
    assert_eq!(m, Month::Mar);
    assert_eq!(d, 21);
    assert_eq!(season_of(START_DAY), Season::Spring);
}

#[test]
fn season_of_known_dates() {
    assert_eq!(season_of(79), Season::Winter);
    assert_eq!(season_of(80), Season::Spring);
    assert_eq!(season_of(171), Season::Spring);
    assert_eq!(season_of(172), Season::Summer);
    assert_eq!(season_of(265), Season::Summer);
    assert_eq!(season_of(266), Season::Autumn);
    assert_eq!(season_of(354), Season::Autumn);
    assert_eq!(season_of(355), Season::Winter);
    assert_eq!(season_of(1), Season::Winter);
}

#[test]
fn date_of_known_dates() {
    assert_eq!(date_of(1), (1300, Month::Jan, 1));
    assert_eq!(date_of(32), (1300, Month::Feb, 1));
    assert_eq!(date_of(60), (1300, Month::Mar, 1));
    assert_eq!(date_of(80), (1300, Month::Mar, 21));
    assert_eq!(date_of(365), (1300, Month::Dec, 31));
    assert_eq!(date_of(366), (1301, Month::Jan, 1));
    assert_eq!(date_of(365 + 80), (1301, Month::Mar, 21));
}

#[test]
fn day_of_year_wraps_at_year_boundary() {
    assert_eq!(day_of_year(1), 1);
    assert_eq!(day_of_year(365), 365);
    assert_eq!(day_of_year(366), 1);
    assert_eq!(day_of_year(365 * 2 + 80), 80);
}

#[test]
fn day_zero_reads_as_first_of_january() {
    assert_eq!(day_of_year(0), 1);
    assert_eq!(date_of(0), (1300, Month::Jan, 1));
    assert_eq!(season_of(0), Season::Winter);
}

#[test]
fn calendar_repeats_one_year_later() {
    for d in [1u32, 59, 60, 80, 200, 355, 365] {
        let (y, m, dd) = date_of(d);
        assert_eq!(date_of(d + 365), (y + 1, m, dd));
        assert_eq!(season_of(d + 365), season_of(d));
    }
}

#[test]
fn largest_day_does_not_overflow() {
    let (y, m, d) = date_of(u32::MAX);
    assert_eq!(y, 1300 + (u32::MAX - 1) / 365);
    assert!(d >= 1 && d <= 31);
    let _ = m;
}

#[test]
fn labels_read_as_expected() {
    assert_eq!(Season::Autumn.label(), "Autumn");
    assert_eq!(Month::Sep.short_label(), "Sep");
}
