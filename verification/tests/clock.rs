use augustus::clock::GameClock;

#[test]
fn game_clock_advances_months_at_selected_speed() {
    let mut clock = GameClock::default();
    assert_eq!(clock.date_label(), "Jan, 60 AD");
    clock.advance(1_500_000);
    assert_eq!(clock.date_label(), "Jan, 60 AD");
    clock.advance(1_500_000);
    assert_eq!(clock.date_label(), "Feb, 60 AD");

    clock.change_speed(1);
    clock.advance(1_500_000);
    assert_eq!(clock.date_label(), "Mar, 60 AD");
    clock.change_speed(-10);
    clock.advance(12_000_000);
    assert_eq!(clock.date_label(), "Apr, 60 AD");
    clock.change_speed(10);
    assert_eq!(clock.speed_quarters() as f32 / 4.0, 4.0);
    clock.advance(750_000);
    assert_eq!(clock.date_label(), "May, 60 AD");
}

#[test]
fn game_clock_skips_year_zero() {
    let mut clock = GameClock { year: 0, month: 11, ..Default::default() };
    assert_eq!(clock.date_label(), "Dec, 1 BC");
    clock.advance(3_000_000);
    assert_eq!(clock.date_label(), "Jan, 1 AD");
}

#[test]
fn long_frames_count_every_month_and_roll_the_year() {
    let mut clock = GameClock::default();
    assert_eq!(clock.advance(3_000_000 * 25 + 1), 25);
    assert_eq!(clock.date_label(), "Feb, 62 AD");
    assert_eq!(clock.month_progress, 4);
    let mut old = GameClock { year: -43, month: 2, ..Default::default() };
    assert_eq!(old.date_label(), "Mar, 44 BC");
    old.change_speed(-5);
    assert_eq!(old.speed_step, -2);
    assert_eq!(old.advance(11_999_999), 0);
    assert_eq!(old.advance(1), 1);
    assert_eq!(old.date_label(), "Apr, 44 BC");
    let mut big = GameClock { year: 12345, ..Default::default() };
    assert_eq!(big.date_label(), "Jan, 12345 AD");
    big.month = 9;
    assert_eq!(big.date_label(), "Oct, 12345 AD");
}

#[test]
fn splitting_frame_time_keeps_the_calendar() {
    let mut whole = GameClock::new();
    let mut split = GameClock::new();
    whole.change_speed(1);
    split.change_speed(1);
    let months = whole.advance(4_100_000);
    let first = split.advance(1_234_567);
    let second = split.advance(4_100_000 - 1_234_567);
    assert_eq!(months, first + second);
    assert_eq!(months, 2);
    assert_eq!(whole, split);
}
