use nadbridge::clock::{civil_from_days, log_line, DAY};

fn date(days: u64) -> (u64, u64, u64) {
    let date = civil_from_days(days);
    (date.year, date.month, date.day)
}

#[test]
fn the_epoch_begins_in_1970() {
    assert_eq!(date(0), (1970, 1, 1));
    assert_eq!(log_line(0, "hello"), "[1970-01-01 00:00:00Z] hello");
}

#[test]
fn leap_days_come_and_do_not_come() {
    assert_eq!(date(11_016), (2000, 2, 29));
    assert_eq!(date(11_017), (2000, 3, 1));
    assert_eq!(date(789), (1972, 2, 29));
    assert_eq!(date(47_540), (2100, 2, 28));
    assert_eq!(date(47_541), (2100, 3, 1));
}

#[test]
fn known_times() {
    assert_eq!(log_line(1_700_000_000, ""), "[2023-11-14 22:13:20Z] ");
    assert_eq!(log_line(951_782_400, "x"), "[2000-02-29 00:00:00Z] x");
    assert_eq!(log_line(4_102_444_799, "x"), "[2099-12-31 23:59:59Z] x");
}

#[test]
fn years_of_more_than_four_digits_are_written_out() {
    assert_eq!(log_line(253_402_300_800, "x"), "[10000-01-01 00:00:00Z] x");
    assert!(log_line(u64::MAX, "x").starts_with("[584554051223-11-09 07:00:15Z]"));
}

#[test]
fn each_day_follows_the_one_before() {
    let leap = |y: u64| y % 4 == 0 && (y % 100 != 0 || y % 400 == 0);
    let length = |y: u64, m: u64| match m {
        2 => {
            if leap(y) {
                29
            } else {
                28
            }
        }
        4 | 6 | 9 | 11 => 30,
        _ => 31,
    };
    let (mut y, mut m, mut d) = (1970, 1, 1);
    for days in 0..200_000u64 {
        assert_eq!(date(days), (y, m, d));
        d += 1;
        if d > length(y, m) {
            d = 1;
            m += 1;
        }
        if m > 12 {
            m = 1;
            y += 1;
        }
    }
}

#[test]
fn the_last_day_that_the_clock_can_show() {
    assert_eq!(date(u64::MAX / DAY), (584_554_051_223, 11, 9));
}
