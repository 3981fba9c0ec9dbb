use snake::scoring::{close_timer, record_game_end, start_timer, HighScore, Score, Timer};

#[test]
fn higher_score_takes_the_record() {
    let mut high = HighScore { score: 5, time_millis: 30_000 };
    record_game_end(&mut high, 6, 50_000);
    assert_eq!(high, HighScore { score: 6, time_millis: 50_000 });
}

#[test]
fn equal_score_in_less_time_takes_the_record() {
    let mut high = HighScore { score: 5, time_millis: 30_000 };
    record_game_end(&mut high, 5, 25_000);
    assert_eq!(high, HighScore { score: 5, time_millis: 25_000 });
}

#[test]
fn equal_score_in_more_time_keeps_the_record() {
    let mut high = HighScore { score: 5, time_millis: 30_000 };
    record_game_end(&mut high, 5, 35_000);
    assert_eq!(high, HighScore { score: 5, time_millis: 30_000 });
}

#[test]
fn lower_score_keeps_the_record() {
    let mut high = HighScore { score: 5, time_millis: 30_000 };
    record_game_end(&mut high, 4, 10_000);
    assert_eq!(high, HighScore { score: 5, time_millis: 30_000 });
}

#[test]
fn first_scoring_round_sets_the_record() {
    let mut high = HighScore::default();
    record_game_end(&mut high, 1, 12_345);
    assert_eq!(high, HighScore { score: 1, time_millis: 12_345 });
}

#[test]
fn timer_runs_then_freezes() {
    let mut timer = Timer::default();
    assert!(timer.start.is_none());
    assert!(timer.runtime.is_none());
    start_timer(&mut timer);
    assert!(timer.start.is_some());
    assert!(timer.runtime.is_none());
    let mut high = HighScore::default();
    let score = Score { score: 3 };
    close_timer(&mut timer, &score, &mut high);
    assert!(timer.runtime.is_some());
    assert_eq!(high.score, 3);
    assert_eq!(high.time_millis, timer.runtime.unwrap());
}

#[test]
fn defaults_are_zeroed() {
    assert_eq!(Score::default().score, 0);
    assert_eq!(HighScore::default(), HighScore { score: 0, time_millis: 0 });
}
