use price_backfill::fetch::MAX_UTC_SECOND;
use price_backfill::models::Mode;
use price_backfill::schedule::{Scheduler, HOURLY, MINUTELY};

// 2023-11-14T22:13:20Z
const START: i64 = 1700000000;

#[test]
fn new_scheduler_has_hourly_history_and_minutely_latest() {
    let s = Scheduler::new();
    assert_eq!(s.triggers.len(), 2);
    assert_eq!(s.triggers[0].mode, Mode::Historical);
    assert_eq!(s.triggers[0].expr, HOURLY);
    assert_eq!(s.triggers[1].mode, Mode::Last);
    assert_eq!(s.triggers[1].expr, MINUTELY);
    assert!(s.triggers.iter().all(|t| t.last_tick.is_none()));
}

#[test]
fn first_tick_only_records_time() {
    let mut s = Scheduler::new();
    assert!(s.tick(START).is_empty());
    assert!(s.triggers.iter().all(|t| t.last_tick == Some(START)));
}

#[test]
fn latest_fires_at_the_minute() {
    let mut s = Scheduler::new();
    s.tick(START);
    assert!(s.tick(START + 39).is_empty());
    assert_eq!(s.tick(START + 40), vec![Mode::Last]);
    assert!(s.tick(START + 41).is_empty());
    assert!(s.tick(START + 99).is_empty());
    assert_eq!(s.tick(START + 100), vec![Mode::Last]);
}

#[test]
fn both_fire_at_the_hour_in_trigger_order() {
    let mut s = Scheduler::new();
    s.tick(START);
    s.tick(START + 40);
    // 2023-11-14T23:00:00Z
    assert_eq!(s.tick(1700002800), vec![Mode::Historical, Mode::Last]);
}

#[test]
fn missed_events_run_once() {
    let mut s = Scheduler::new();
    s.tick(START);
    assert_eq!(s.tick(START + 3 * 3600), vec![Mode::Historical, Mode::Last]);
    assert!(s.tick(START + 3 * 3600 + 1).is_empty());
}

#[test]
fn trigger_at_calendar_end_never_fires() {
    let mut s = Scheduler::new();
    s.triggers[1].last_tick = Some(MAX_UTC_SECOND);
    assert!(s.tick(i64::MAX).is_empty());
    assert!(s.triggers.iter().all(|t| t.last_tick == Some(i64::MAX)));
}

#[test]
fn trigger_before_the_epoch_never_fires() {
    let mut s = Scheduler::new();
    // 1968-02-28T23:59:59Z
    assert!(s.tick(-58060801).is_empty());
    assert!(s.tick(START).is_empty());
    assert_eq!(s.tick(START + 40), vec![Mode::Last]);
}
