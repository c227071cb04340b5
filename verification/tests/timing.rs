use forgeplayer::timing::{clamp64, floor_div, saturating_sum, Seconds, TimeBase};

fn secs(nanos: i128) -> Seconds {
    Seconds { nanos }
}

#[test]
fn ticks_become_nanoseconds() {
    let tb = TimeBase { num: 1, den: 90_000 };
    assert_eq!(tb.seconds(90_000), secs(1_000_000_000));
    assert_eq!(tb.seconds(1), secs(11_111));
    assert_eq!(tb.seconds(-1), secs(-11_112));
    assert_eq!(TimeBase { num: 1001, den: 30_000 }.seconds(30), secs(1_001_000_000));
    assert_eq!(TimeBase { num: 2, den: 0 }.seconds(3), secs(6_000_000_000));
    assert_eq!(TimeBase { num: 2, den: -5 }.seconds(3), secs(6_000_000_000));
    assert_eq!(TimeBase { num: 0, den: 1 }.seconds(i64::MAX), secs(0));
}

#[test]
fn the_widest_ticks_fit() {
    let tb = TimeBase { num: i32::MAX, den: 1 };
    assert_eq!(tb.seconds(i64::MAX).nanos, i64::MAX as i128 * i32::MAX as i128 * 1_000_000_000);
}

#[test]
fn microseconds_drop_the_fraction() {
    assert_eq!(Seconds::from_micros(1_400_000), secs(1_400_000_000));
    assert_eq!(secs(1_999).micros(), 1);
    assert_eq!(secs(-1_999).micros(), -1);
    assert_eq!(secs(i128::MAX).micros(), i64::MAX);
    assert_eq!(secs(i128::MIN).micros(), i64::MIN);
}

#[test]
fn sums_stay_in_range() {
    assert_eq!(secs(i128::MAX).plus(secs(1)), secs(i128::MAX));
    assert_eq!(secs(i128::MIN).minus(secs(1)), secs(i128::MIN));
    assert_eq!(secs(i128::MAX).minus(secs(-1)), secs(i128::MAX));
    assert_eq!(secs(5).minus(secs(7)), secs(-2));
    assert_eq!(saturating_sum(i128::MIN, -1), i128::MIN);
    assert_eq!(saturating_sum(-3, 5), 2);
}

#[test]
fn division_rounds_down() {
    assert_eq!(floor_div(7, 2), 3);
    assert_eq!(floor_div(-7, 2), -4);
    assert_eq!(floor_div(-8, 2), -4);
    assert_eq!(floor_div(i128::MIN, 1), i128::MIN);
    assert_eq!(clamp64(i128::MAX), i64::MAX);
    assert_eq!(clamp64(i128::MIN), i64::MIN);
    assert_eq!(clamp64(-9), -9);
}

#[test]
fn time_runs_forward() {
    let tb = TimeBase { num: 1001, den: 30_000 };
    let times: Vec<i128> = (-5..50).map(|t| tb.seconds(t).nanos).collect();
    assert!(times.windows(2).all(|w| w[0] <= w[1]));
}
