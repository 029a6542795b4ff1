use liscov_core::timer_service::{
    check_after_run, check_before_run, TaskEnd, TimerConfig, TimerResult, TimerService, TimerTaskType,
};

#[test]
fn timer_config_presets() {
    let c = TimerConfig::highlight_clear(3);
    assert_eq!(c.delay_secs, 3);
    assert_eq!(c.interval_secs, None);
    assert_eq!(c.max_executions, Some(1));
    assert_eq!(c.priority, 50);
    assert_eq!(c.auto_cancel_after_secs, Some(60));
    let p = TimerConfig::periodic(10);
    assert_eq!(p.delay_secs, 0);
    assert_eq!(p.interval_secs, Some(10));
    assert_eq!(p.max_executions, None);
    assert_eq!(p.auto_cancel_after_secs, None);
    let o = TimerConfig::once(2);
    assert_eq!(o.priority, 75);
    assert_eq!(o.auto_cancel_after_secs, Some(30));
    let d = TimerConfig::default();
    assert_eq!(d.delay_secs, 5);
    assert_eq!(d.priority, 100);
    assert_eq!(d.auto_cancel_after_secs, Some(300));
}

#[test]
fn timer_run_decisions() {
    let once = TimerConfig::once(0);
    assert_eq!(check_before_run(&once, 0, 0), None);
    assert_eq!(check_before_run(&once, 0, 1), Some(TaskEnd::Completed));
    assert_eq!(check_before_run(&once, 30_000_000_001, 0), Some(TaskEnd::Timeout));
    assert_eq!(check_before_run(&once, 30_000_000_000, 0), None);
    assert_eq!(check_after_run(&once, &TimerResult::Continue), Some(TaskEnd::Completed));
    let periodic = TimerConfig::periodic(1);
    assert_eq!(check_before_run(&periodic, u128::MAX, 1000), None);
    assert_eq!(check_after_run(&periodic, &TimerResult::Continue), None);
    assert_eq!(check_after_run(&periodic, &TimerResult::Complete), Some(TaskEnd::Completed));
    assert_eq!(check_after_run(&periodic, &TimerResult::Error("x".to_string())), Some(TaskEnd::Error));
    assert_eq!(check_after_run(&periodic, &TimerResult::Cancel), Some(TaskEnd::Cancelled));
}

#[test]
fn timer_book_lifecycle() {
    let mut t = TimerService::new();
    let c = t.start_task("a".to_string(), TimerTaskType::HighlightClear, TimerConfig::once(1));
    assert_eq!(c.task_id, "a");
    assert_eq!(c.execution_count, 0);
    t.start_task("b".to_string(), TimerTaskType::DomUpdate, TimerConfig::periodic(1));
    t.start_task("c".to_string(), TimerTaskType::HighlightClear, TimerConfig::once(1));
    t.start_task("a".to_string(), TimerTaskType::StatsUpdate, TimerConfig::once(1));
    let active = t.get_active_tasks();
    let ids: Vec<&str> = active.iter().map(|(id, _)| id.as_str()).collect();
    assert_eq!(ids, vec!["b", "c", "a"]);
    assert_eq!(active[2].1, TimerTaskType::StatsUpdate);
    let s = t.get_stats();
    assert_eq!(s.total_tasks, 4);
    assert_eq!(s.active_tasks, 4);

    assert!(t.complete_task("b", TaskEnd::Completed));
    assert!(!t.complete_task("b", TaskEnd::Completed));
    let s = t.get_stats();
    assert_eq!(s.active_tasks, 3);
    assert_eq!(s.completed_tasks, 1);

    assert!(t.complete_task("c", TaskEnd::Timeout));
    assert_eq!(t.get_stats().error_tasks, 1);

    assert!(t.cancel_task("a"));
    assert!(!t.cancel_task("a"));
    assert_eq!(t.get_stats().active_tasks, 2);
    assert!(t.get_active_tasks().is_empty());
}

#[test]
fn timer_cancel_by_kind() {
    let mut t = TimerService::new();
    t.start_task("x".to_string(), TimerTaskType::Custom("k".to_string()), TimerConfig::default());
    t.start_task("y".to_string(), TimerTaskType::HighlightClear, TimerConfig::default());
    t.start_task("z".to_string(), TimerTaskType::Custom("k".to_string()), TimerConfig::default());
    t.start_task("w".to_string(), TimerTaskType::Custom("other".to_string()), TimerConfig::default());
    let ids = t.cancel_tasks_by_type(&TimerTaskType::Custom("k".to_string()));
    assert_eq!(ids, vec!["x".to_string(), "z".to_string()]);
    let (id, ctx) = t.schedule_highlight_clear(5, 1700000000123);
    assert_eq!(id, "highlight_clear_1700000000123");
    assert_eq!(ctx.task_type, TimerTaskType::HighlightClear);
    let cleared = t.cancel_highlight_clear_tasks();
    assert_eq!(cleared, vec!["y".to_string(), "highlight_clear_1700000000123".to_string()]);
    let all = t.cancel_all_tasks();
    assert_eq!(all, vec!["w".to_string()]);
    assert_eq!(t.get_stats().total_tasks, 5);
}
