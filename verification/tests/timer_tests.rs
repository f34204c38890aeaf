use daily_plan::timer::{TimerManager, TimerTick};

#[test]
fn countdown_bounds() {
    let mut m = TimerManager::new();
    assert_eq!(m.start_countdown_at(1, 0, 1000), Err("分钟数必须在 1-1440 之间".to_string()));
    assert_eq!(m.start_countdown_at(1, 1441, 1000), Err("分钟数必须在 1-1440 之间".to_string()));
    assert_eq!(m.start_countdown_at(1, -5, 1000), Err("分钟数必须在 1-1440 之间".to_string()));
    assert!(m.get_timer_status_at(1, 1000).is_none());
    assert_eq!(m.start_countdown_at(1, 1440, 1000), Ok("87400".to_string()));
    assert_eq!(m.start_countdown_at(2, 1, 1000), Ok("1060".to_string()));
}

#[test]
fn countdown_status_over_time() {
    let mut m = TimerManager::new();
    assert_eq!(m.start_countdown_at(7, 90, 1_700_000_000), Ok("1700005400".to_string()));
    let s = m.get_timer_status_at(7, 1_700_000_000).unwrap();
    assert_eq!(s.task_id, 7);
    assert_eq!(s.timer_type, "countdown");
    assert_eq!(s.remaining, 5400);
    assert_eq!((s.hours, s.minutes, s.seconds), (1, 30, 0));
    assert_eq!(s.formatted, "01:30:00");
    assert!(s.is_running);
    let later = m.get_timer_status_at(7, 1_700_005_399).unwrap();
    assert_eq!(later.remaining, 1);
    assert_eq!(later.formatted, "00:00:01");
    let over = m.get_timer_status_at(7, 1_800_000_000).unwrap();
    assert_eq!(over.remaining, 0);
    assert_eq!(over.formatted, "00:00:00");
    assert!(over.is_running);
}

#[test]
fn long_timers_show_many_hours() {
    let mut m = TimerManager::new();
    assert_eq!(m.start_scheduled_timer_at(3, 500_000, 100, false), Ok("定时任务已启动".to_string()));
    let s = m.get_timer_status_at(3, 100).unwrap();
    assert_eq!(s.remaining, 499_900);
    assert_eq!(s.formatted, "138:51:40");
    assert_eq!(s.timer_type, "scheduled");
}

#[test]
fn scheduled_timer_must_be_in_the_future() {
    let mut m = TimerManager::new();
    assert_eq!(
        m.start_scheduled_timer_at(1, 100, 100, false),
        Err("目标时间必须大于当前时间".to_string())
    );
    assert_eq!(m.start_scheduled_timer_at(1, 99, 100, true), Err("目标时间已过期".to_string()));
    assert_eq!(m.start_scheduled_timer_at(1, 101, 100, true), Ok("定时任务已恢复".to_string()));
    assert!(m.get_timer_status_at(1, 100).is_some());
}

#[test]
fn a_new_timer_replaces_the_old_one() {
    let mut m = TimerManager::new();
    m.start_countdown_at(4, 10, 0).unwrap();
    m.start_scheduled_timer_at(4, 50, 0, false).unwrap();
    let s = m.get_timer_status_at(4, 0).unwrap();
    assert_eq!(s.timer_type, "scheduled");
    assert_eq!(s.remaining, 50);
}

#[test]
fn stopping_timers() {
    let mut m = TimerManager::new();
    m.start_countdown_at(1, 5, 0).unwrap();
    m.start_countdown_at(2, 5, 0).unwrap();
    m.stop_timer(1);
    assert!(m.get_timer_status_at(1, 0).is_none());
    assert!(m.get_timer_status_at(2, 0).is_some());
    m.stop_timer(99);
    m.stop_all_timers();
    assert!(m.get_timer_status_at(2, 0).is_none());
}

#[test]
fn calibration_marks_expired_timers() {
    let mut m = TimerManager::new();
    m.start_countdown_at(1, 1, 1000).unwrap();
    let before = m.calibrate_timer_at(1, 1030).unwrap();
    assert!(before.is_running);
    assert_eq!(before.remaining, 30);
    let after = m.calibrate_timer_at(1, 1060).unwrap();
    assert!(!after.is_running);
    assert_eq!(after.remaining, 0);
    let again = m.calibrate_timer_at(1, 1060).unwrap();
    assert!(!again.is_running);
    assert_eq!(again.formatted, after.formatted);
    assert!(!m.get_timer_status_at(1, 1060).unwrap().is_running);
    assert!(m.calibrate_timer_at(2, 1060).is_none());
}

#[test]
fn ticking_reports_then_expires() {
    let mut m = TimerManager::new();
    m.start_countdown_at(5, 1, 0).unwrap();
    match m.tick_at(5, 59) {
        TimerTick::Update(s) => {
            assert_eq!(s.remaining, 1);
            assert_eq!(s.formatted, "00:00:01");
        }
        other => panic!("unexpected {:?}", other),
    }
    match m.tick_at(5, 60) {
        TimerTick::Expired(s) => assert_eq!(s.remaining, 0),
        other => panic!("unexpected {:?}", other),
    }
    assert!(matches!(m.tick_at(5, 61), TimerTick::Stop));
    assert!(matches!(m.tick_at(6, 0), TimerTick::Stop));
}

#[test]
fn clock_based_calls() {
    let mut m = TimerManager::new();
    let end: u64 = m.start_countdown(9, 2).unwrap().parse().unwrap();
    let s = m.get_timer_status(9).unwrap();
    assert!(s.remaining <= 120);
    assert!(end >= 120);
    assert!(m.calibrate_timer(9).unwrap().is_running);
    assert_eq!(m.start_countdown(9, 0), Err("分钟数必须在 1-1440 之间".to_string()));
    assert_eq!(m.start_scheduled_timer(10, 1), Err("目标时间必须大于当前时间".to_string()));
    assert_eq!(m.restore_scheduled_timer(10, 1), Err("目标时间已过期".to_string()));
    assert_eq!(m.start_scheduled_timer(10, u64::MAX), Ok("定时任务已启动".to_string()));
    assert_eq!(m.restore_scheduled_timer(11, u64::MAX), Ok("定时任务已恢复".to_string()));
    assert!(m.get_timer_status(12).is_none());
}

#[test]
fn alarm_state() {
    let mut m = TimerManager::new();
    assert!(!m.is_alarm_playing());
    assert!(m.start_alarm());
    assert!(!m.start_alarm());
    assert!(m.is_alarm_playing());
    assert!(m.alarm_time_up());
    assert!(!m.is_alarm_playing());
    assert!(!m.alarm_time_up());
    m.start_alarm();
    m.stop_alarm();
    assert!(!m.is_alarm_playing());
}

#[test]
fn countdown_past_the_largest_time_is_refused() {
    let mut m = TimerManager::new();
    assert_eq!(m.start_countdown_at(1, 1, u64::MAX - 59), Err("系统时间超出范围".to_string()));
    assert!(m.get_timer_status_at(1, 0).is_none());
    assert_eq!(m.start_countdown_at(1, 1, u64::MAX - 60), Ok(u64::MAX.to_string()));
    assert_eq!(m.get_timer_status_at(1, u64::MAX - 60).unwrap().remaining, 60);
}
