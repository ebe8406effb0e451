use alpadrive::accounts::Lookup;
use alpadrive::telemetry::{
    fold_sample, plan_sample, record_sample, start_day, summarize, DailyLog, FoldError, Message,
    SampleOutcome,
};

fn sample(speed: Option<u32>, stressed: bool, odo: u32) -> Message {
    Message { gear: None, rpm: None, speed, temp: None, fuel: None, odo, stressed }
}

fn day(date: &str, average_speed: u32, distance: u32, stress: u32, max: u32, at: &str) -> DailyLog {
    DailyLog {
        date: date.to_string(),
        average_speed,
        distance,
        stress,
        last_odometer: 500,
        message_count: 3,
        max_speed: (max, at.to_string()),
    }
}

#[test]
fn telemetry_fold_of_a_fresh_day() {
    let first = start_day(&sample(Some(30), false, 100), "5-3-2024".to_string(), "09:00 AM".to_string());
    assert_eq!(first.average_speed, 30);
    assert_eq!(first.max_speed, (30, "09:00 AM".to_string()));
    assert_eq!(first.message_count, 0);
    assert_eq!(first.distance, 0);
    assert_eq!(first.last_odometer, 100);
    let second = fold_sample(&first, &sample(Some(50), true, 110), "09:05 AM".to_string()).unwrap();
    // count 0: mean (30 * 0 + 50) / 1 = 50, count 1; stressed: (0 * 0 + 1) / 1 = 1, count 2
    assert_eq!(second.distance, 10);
    assert_eq!(second.average_speed, 50);
    assert_eq!(second.stress, 1);
    assert_eq!(second.message_count, 2);
    assert_eq!(second.max_speed, (50, "09:05 AM".to_string()));
    let third = fold_sample(&second, &sample(Some(50), false, 115), "09:10 AM".to_string()).unwrap();
    // mean (50 * 2 + 50) / 3 = 50; a speed equal to the top keeps the earlier time
    assert_eq!(third.distance, 15);
    assert_eq!(third.average_speed, 50);
    assert_eq!(third.stress, 1);
    assert_eq!(third.message_count, 3);
    assert_eq!(third.max_speed, (50, "09:05 AM".to_string()));
    assert_eq!(third.last_odometer, 115);
    assert_eq!(third.date, "5-3-2024");
}

#[test]
fn running_mean_uses_integer_division() {
    let mut log = start_day(&sample(Some(10), false, 1), "1-1-2024".to_string(), "t".to_string());
    log.message_count = 2;
    let next = fold_sample(&log, &sample(Some(15), false, 1), "t".to_string()).unwrap();
    // (10 * 2 + 15) / 3 = 11
    assert_eq!(next.average_speed, 11);
    assert_eq!(next.message_count, 3);
    assert_eq!(next.max_speed.0, 15);
}

#[test]
fn zero_mean_takes_the_speed() {
    let mut log = start_day(&sample(None, false, 0), "1-1-2024".to_string(), "t".to_string());
    log.message_count = 4;
    let next = fold_sample(&log, &sample(Some(42), false, 0), "u".to_string()).unwrap();
    assert_eq!(next.average_speed, 42);
    assert_eq!(next.distance, 0);
    assert_eq!(next.max_speed, (42, "u".to_string()));
}

#[test]
fn stress_after_counted_samples() {
    let mut log = start_day(&sample(Some(10), false, 5), "1-1-2024".to_string(), "t".to_string());
    log.message_count = 3;
    log.stress = 1;
    let next = fold_sample(&log, &sample(None, true, 5), "t".to_string()).unwrap();
    // (1 * 2 + 1) / 3 = 1
    assert_eq!(next.stress, 1);
    assert_eq!(next.message_count, 4);
    let after = fold_sample(&next, &sample(None, true, 5), "t".to_string()).unwrap();
    // (1 * 3 + 1) / 4 = 1, then (1 * 4 + 1) / 5 = 1
    assert_eq!(after.stress, 1);
    log.stress = 0;
    let zero = fold_sample(&log, &sample(None, true, 5), "t".to_string()).unwrap();
    // (0 * 2 + 1) / 3 = 0
    assert_eq!(zero.stress, 0);
}

#[test]
fn lower_odometer_still_folds_speed_and_stress() {
    let mut log = start_day(&sample(Some(10), false, 100), "1-1-2024".to_string(), "t".to_string());
    log.message_count = 1;
    log.distance = 7;
    let n = fold_sample(&log, &sample(Some(20), true, 0), "u".to_string()).unwrap();
    // zero reading: no distance step, last reading kept
    assert_eq!(n.distance, 7);
    assert_eq!(n.last_odometer, 100);
    // (10 * 1 + 20) / 2 = 15, count 2; stress (0 * 1 + 1) / 2 = 0, count 3
    assert_eq!(n.average_speed, 15);
    assert_eq!(n.stress, 0);
    assert_eq!(n.message_count, 3);
    assert_eq!(n.max_speed, (20, "u".to_string()));
    let m = fold_sample(&n, &sample(Some(30), false, 99), "v".to_string()).unwrap();
    assert_eq!(m.distance, 7);
    assert_eq!(m.last_odometer, 100);
    assert_eq!(m.message_count, 4);
    let k = fold_sample(&m, &sample(None, false, 104), "w".to_string()).unwrap();
    assert_eq!(k.distance, 11);
    assert_eq!(k.last_odometer, 104);
}

#[test]
fn fold_rejects_stress_before_any_count() {
    let log = start_day(&sample(Some(10), false, 100), "1-1-2024".to_string(), "t".to_string());
    let r = fold_sample(&log, &sample(None, true, 100), "t".to_string());
    assert_eq!(r.unwrap_err(), FoldError::NothingCounted);
}

#[test]
fn fold_rejects_overflow() {
    let mut log = start_day(&sample(Some(10), false, 0), "1-1-2024".to_string(), "t".to_string());
    log.distance = u32::MAX;
    let r = fold_sample(&log, &sample(Some(10), false, 1), "t".to_string());
    assert_eq!(r.unwrap_err(), FoldError::Overflow);
    let mut log = start_day(&sample(Some(10), false, 0), "1-1-2024".to_string(), "t".to_string());
    log.message_count = u32::MAX - 1;
    let r = fold_sample(&log, &sample(Some(10), true, 0), "t".to_string());
    assert_eq!(r.unwrap_err(), FoldError::Overflow);
}

#[test]
fn large_values_fold_without_overflow() {
    let mut log = start_day(&sample(Some(u32::MAX), false, 0), "1-1-2024".to_string(), "t".to_string());
    log.message_count = u32::MAX - 2;
    let next = fold_sample(&log, &sample(Some(u32::MAX), false, 0), "t".to_string()).unwrap();
    assert_eq!(next.average_speed, u32::MAX);
    assert_eq!(next.message_count, u32::MAX - 1);
}

#[test]
fn plan_updates_today_and_starts_other_days() {
    let m = sample(Some(30), false, 600);
    match plan_sample(&Lookup::Found(day("2-2-2024", 20, 0, 0, 20, "a")), "2-2-2024".to_string(), &m, "L".to_string(), "I".to_string()) {
        Ok(SampleOutcome::Update(n)) => {
            assert_eq!(n.max_speed, (30, "I".to_string()));
            assert_eq!(n.distance, 100);
            assert_eq!(n.average_speed, (20 * 3 + 30) / 4);
        }
        other => panic!("unexpected {:?}", other),
    }
    match plan_sample(&Lookup::Found(day("2-2-2024", 20, 0, 0, 20, "a")), "3-2-2024".to_string(), &m, "L".to_string(), "I".to_string()) {
        Ok(SampleOutcome::Insert(n)) => {
            assert_eq!(n.date, "3-2-2024");
            assert_eq!(n.max_speed, (30, "L".to_string()));
            assert_eq!(n.last_odometer, 600);
        }
        other => panic!("unexpected {:?}", other),
    }
    match plan_sample(&Lookup::Missing, "3-2-2024".to_string(), &m, "L".to_string(), "I".to_string()) {
        Ok(SampleOutcome::Insert(n)) => assert_eq!(n.average_speed, 30),
        other => panic!("unexpected {:?}", other),
    }
    let failed: Lookup<DailyLog> = Lookup::Failed("timeout".to_string());
    assert_eq!(
        plan_sample(&failed, "2-2-2024".to_string(), &m, "L".to_string(), "I".to_string()).unwrap_err(),
        FoldError::LookupFailed
    );
    assert_eq!(record_sample(&failed, &m).unwrap_err(), FoldError::LookupFailed);
}

#[test]
fn record_sample_starts_a_day_from_the_clock() {
    let old = day("1-1-1970", 20, 0, 0, 20, "a");
    match record_sample(&Lookup::Found(old), &sample(Some(7), false, 9)) {
        Ok(SampleOutcome::Insert(n)) => {
            assert_ne!(n.date, "1-1-1970");
            assert_eq!(n.date.split('-').count(), 3);
            assert_eq!(n.max_speed.0, 7);
            assert_eq!(n.max_speed.1.len(), 8);
        }
        other => panic!("unexpected {:?}", other),
    }
}

#[test]
fn summarize_rolls_up_days() {
    let logs = vec![
        day("1-1-2024", 40, 10, 1, 60, "10:00 AM"),
        day("2-1-2024", 50, 20, 0, 80, "11:00 AM"),
        day("3-1-2024", 31, 5, 2, 80, "12:00 PM"),
    ];
    let r = summarize(&logs).unwrap();
    assert_eq!(r.days, 3);
    assert_eq!(r.distance, 35);
    assert_eq!(r.stress_count, 3);
    assert_eq!(r.average_speed, 40);
    assert_eq!(r.last_odometer, 500);
    assert_eq!(r.max_speed, (80, "11:00 AM".to_string()));
}

#[test]
fn summarize_of_nothing_is_none() {
    assert!(summarize(&vec![]).is_none());
}

#[test]
fn summarize_with_no_speed_keeps_empty_time() {
    let r = summarize(&vec![day("1-1-2024", 0, 0, 0, 0, "x")]).unwrap();
    assert_eq!(r.max_speed, (0, String::new()));
}

#[test]
fn top_speed_is_highest_sample() {
    let speeds = [Some(12), None, Some(70), Some(40), None, Some(69)];
    let mut log = start_day(&sample(Some(5), false, 0), "1-1-2024".to_string(), "t0".to_string());
    let mut mean: u64 = 5;
    let mut count: u64 = 0;
    for (k, s) in speeds.iter().enumerate() {
        log = fold_sample(&log, &sample(*s, false, 0), format!("t{}", k + 1)).unwrap();
        if let Some(v) = s {
            mean = if mean > 0 { (mean * count + *v as u64) / (count + 1) } else { *v as u64 };
            count += 1;
        }
    }
    assert_eq!(log.max_speed, (70, "t3".to_string()));
    assert_eq!(log.average_speed as u64, mean);
    assert_eq!(log.message_count as u64, count);
}
