use mmb_core::rate_limit::RequestsTimeoutManager;
use mmb_core::trigger_scheduler::{
    MoreOrEqualsAvailableRequestsCountTrigger, MoreOrEqualsAvailableRequestsCountTriggerScheduler,
};

#[test]
fn negative_delay() {
    let mut trigger = MoreOrEqualsAvailableRequestsCountTrigger::new(5);
    let wrong_date_time = 0;
    let delay = trigger.schedule_handler(
        3,
        wrong_date_time,
        5_000,
        MoreOrEqualsAvailableRequestsCountTriggerScheduler::utc_now(),
    );
    assert_eq!(delay, Some(0));
    assert!(trigger.is_armed());
}

#[test]
fn delay_until_period_ends() {
    let mut trigger = MoreOrEqualsAvailableRequestsCountTrigger::new(2);
    assert_eq!(trigger.schedule_handler(1, 10_000, 1_000, 10_250), Some(750));
}

#[test]
fn enough_available_schedules_nothing() {
    let mut trigger = MoreOrEqualsAvailableRequestsCountTrigger::new(2);
    assert_eq!(trigger.schedule_handler(2, 0, 1_000, 0), None);
    assert!(!trigger.is_armed());
}

#[test]
fn armed_trigger_is_not_scheduled_twice() {
    let mut trigger = MoreOrEqualsAvailableRequestsCountTrigger::new(2);
    assert_eq!(trigger.schedule_handler(0, 0, 1_000, 0), Some(1_000));
    assert_eq!(trigger.schedule_handler(0, 0, 1_000, 0), None);
    trigger.handler_finished();
    assert_eq!(trigger.schedule_handler(0, 0, 1_000, 500), Some(500));
}

#[test]
fn scheduler_ticks_each_trigger() {
    let mut scheduler = MoreOrEqualsAvailableRequestsCountTriggerScheduler::new();
    assert_eq!(scheduler.register_trigger(1), 0);
    assert_eq!(scheduler.register_trigger(3), 1);
    let scheduled = scheduler.schedule_triggers_at(2, 1_000, 1_000, 1_400);
    assert_eq!(scheduled, vec![None, Some(600)]);
    let again = scheduler.schedule_triggers_at(0, 1_000, 1_000, 1_400);
    assert_eq!(again, vec![Some(600), None]);
    scheduler.handler_finished(1);
    let third = scheduler.schedule_triggers_at(0, 1_000, 1_000, 3_000);
    assert_eq!(third, vec![None, Some(0)]);
}

#[test]
fn scheduler_with_clock() {
    let mut scheduler = MoreOrEqualsAvailableRequestsCountTriggerScheduler::new();
    scheduler.register_trigger(1);
    let now = MoreOrEqualsAvailableRequestsCountTriggerScheduler::utc_now();
    assert!(now > 1_600_000_000_000);
    let scheduled = scheduler.schedule_triggers(0, now + 60_000, 1_000);
    let delay = scheduled[0].expect("the trigger arms");
    assert!(delay > 55_000 && delay <= 61_000);
}

#[test]
fn rate_limit_trigger() {
    let mut limiter = RequestsTimeoutManager::new(5, 1_000);
    let mut scheduler = MoreOrEqualsAvailableRequestsCountTriggerScheduler::new();
    for _ in 0..5 {
        assert!(limiter.try_reserve(0).is_ok());
    }
    scheduler.register_trigger(1);
    let scheduled = scheduler.schedule_triggers_at(0, 0, 1_000, 0);
    assert_eq!(scheduled, vec![Some(1_000)]);
    assert_eq!(limiter.try_reserve(999), Err(1_000));
    assert_eq!(limiter.try_reserve(1_000), Ok(4));
}

#[test]
fn reserve_ticks_triggers() {
    let mut limiter = RequestsTimeoutManager::new(2, 1_000);
    let mut scheduler = MoreOrEqualsAvailableRequestsCountTriggerScheduler::new();
    scheduler.register_trigger(1);
    assert_eq!(limiter.reserve_and_schedule(100, &mut scheduler), Ok(vec![None]));
    assert_eq!(limiter.reserve_and_schedule(200, &mut scheduler), Ok(vec![Some(1_000)]));
    assert_eq!(limiter.reserve_and_schedule(300, &mut scheduler), Err(1_100));
}
