use daily_plan::clean::{
    clean_plan, is_thumbnail_cache_file, may_delete, walk_step, CleanComputerManager, CleanKind, CleanStats,
    WalkStep, MAX_CLEAN_DEPTH,
};
use daily_plan::context_menu::{
    calc_main_menu_height, calc_trash_menu_height, effective_trash_task_id, ContextMenuManager,
    ContextMenuTask,
};

#[test]
fn age_rule() {
    assert!(may_delete(false, None));
    assert!(may_delete(false, Some(5)));
    assert!(!may_delete(true, None));
    assert!(!may_delete(true, Some(604_799)));
    assert!(may_delete(true, Some(604_800)));
}

#[test]
fn thumbnail_caches() {
    assert!(is_thumbnail_cache_file("thumbcache_256.db"));
    assert!(is_thumbnail_cache_file("IconCache_idx.DB"));
    assert!(!is_thumbnail_cache_file("thumbcache_256.dbx"));
    assert!(!is_thumbnail_cache_file("explorer.db"));
    assert!(!is_thumbnail_cache_file("iconcache_"));
}

#[test]
fn default_stats_are_empty() {
    let s = CleanStats::default();
    assert_eq!((s.scanned, s.deleted, s.skipped, s.freed_bytes), (0, 0, 0, 0));
    assert!(!s.is_running);
    assert!(s.current_category.is_empty() && s.current_path.is_empty());
    assert!(s.error_details.is_empty() && s.categories.is_empty());
}

#[test]
fn a_run_is_counted() {
    let mut s = CleanStats::for_new_run();
    assert!(s.is_running);
    assert_eq!(s.current_category, "初始化");
    let start = s.start_category("用户临时文件");
    s.begin_file("C:\\t\\a.tmp".to_string());
    s.record_deleted(100);
    s.begin_file("C:\\t\\b.tmp".to_string());
    s.record_skip();
    s.begin_file("C:\\t\\c.tmp".to_string());
    s.record_delete_error("c.tmp: 拒绝访问".to_string());
    assert_eq!(s.current_path, "C:\\t\\c.tmp");
    s.finish_category("用户临时文件", start);
    let start2 = s.start_category("缩略图缓存");
    s.begin_file("x".to_string());
    s.record_deleted(50);
    s.finish_category("缩略图缓存", start2);
    s.finish_run();
    assert!(!s.is_running);
    assert_eq!(s.current_category, "完成");
    assert_eq!(s.current_path, "");
    assert_eq!((s.scanned, s.deleted, s.skipped, s.freed_bytes), (4, 2, 2, 150));
    assert_eq!(s.categories.len(), 2);
    assert_eq!(s.categories[0].name, "用户临时文件");
    assert_eq!((s.categories[0].deleted, s.categories[0].skipped, s.categories[0].freed_bytes), (1, 2, 100));
    assert_eq!((s.categories[1].deleted, s.categories[1].skipped, s.categories[1].freed_bytes), (1, 0, 50));
    assert_eq!(s.error_details, vec!["c.tmp: 拒绝访问".to_string()]);
}

#[test]
fn error_details_are_capped() {
    let mut s = CleanStats::for_new_run();
    for i in 0..40 {
        s.record_delete_error(format!("e{}", i));
    }
    assert_eq!(s.error_details.len(), 30);
    assert_eq!(s.error_details[29], "e29");
    assert_eq!(s.skipped, 40);
}

#[test]
fn manager_refuses_a_second_run() {
    let mut m = CleanComputerManager::new();
    assert!(!m.is_running());
    assert!(m.get_stats().is_none());
    let idle = m.status();
    assert!(!idle.is_running && idle.scanned == 0);
    assert_eq!(m.try_start(), Ok(true));
    assert!(m.is_running());
    assert_eq!(m.try_start(), Err("清理任务正在进行中，请等待完成".to_string()));
    assert!(m.status().is_running);
    let mut s = CleanStats::for_new_run();
    s.begin_file("a".to_string());
    s.finish_run();
    m.complete(s);
    assert!(!m.is_running());
    let got = m.get_stats().unwrap();
    assert_eq!(got.scanned, 1);
    let st = m.status();
    assert!(!st.is_running);
    assert_eq!(st.current_category, "完成");
    m.set_running(true);
    assert!(m.status().is_running);
    m.set_stats(CleanStats::default());
    assert_eq!(m.get_stats().unwrap().scanned, 0);
}

fn menu_task() -> ContextMenuTask {
    ContextMenuTask {
        id: 3,
        text: "买菜".to_string(),
        status: false,
        bold: false,
        color: "#000000".to_string(),
        timer_type: "".to_string(),
        timer_remaining: 0,
    }
}

#[test]
fn menu_heights() {
    assert_eq!(calc_main_menu_height(false), 339);
    assert_eq!(calc_main_menu_height(true), 264);
    assert_eq!(calc_trash_menu_height(), 189);
}

#[test]
fn menus_remember_their_task() {
    let mut m = ContextMenuManager::new();
    assert!(m.get_current_task().is_none());
    assert_eq!(m.get_current_trash_task_id(), None);
    m.set_current_task(menu_task());
    m.set_current_trash_task_id(12);
    assert_eq!(m.get_current_task().unwrap().text, "买菜");
    assert_eq!(m.get_current_trash_task_id(), Some(12));
    assert_eq!(effective_trash_task_id(0, m.get_current_trash_task_id()), 12);
    assert_eq!(effective_trash_task_id(5, Some(12)), 5);
    assert_eq!(effective_trash_task_id(0, None), 0);
}

#[test]
fn a_running_clean_up_reports_empty_statistics() {
    let mut m = CleanComputerManager::new();
    let mut s = CleanStats::for_new_run();
    for i in 0..5 {
        s.begin_file(format!("f{}", i));
    }
    s.finish_run();
    m.complete(s);
    assert_eq!(m.status().scanned, 5);
    assert_eq!(m.try_start(), Ok(true));
    let running = m.status();
    assert!(running.is_running);
    assert_eq!((running.scanned, running.deleted, running.skipped, running.freed_bytes), (0, 0, 0, 0));
    assert!(running.current_category.is_empty() && running.categories.is_empty());
}

#[test]
fn files_are_decided_then_settled() {
    let mut s = CleanStats::for_new_run();
    assert!(!s.decide_file("a".to_string(), None, false, None));
    assert!(!s.decide_file("b".to_string(), Some(10), true, Some(100)));
    assert!(s.decide_file("c".to_string(), Some(10), true, Some(700_000)));
    assert!(s.decide_file("d".to_string(), Some(7), false, None));
    assert_eq!((s.scanned, s.skipped, s.deleted), (4, 2, 0));
    assert_eq!(s.current_path, "d");
    s.settle_removal("c", 10, Ok(()));
    s.settle_removal("d", 7, Err("拒绝访问".to_string()));
    assert_eq!((s.deleted, s.skipped, s.freed_bytes), (1, 3, 10));
    assert_eq!(s.error_details, vec!["跳过 d: 拒绝访问".to_string()]);
}

#[test]
fn the_walk_goes_down_a_limited_depth() {
    assert_eq!(MAX_CLEAN_DEPTH, 6);
    assert_eq!(walk_step(6, true, false), WalkStep::Descend(5));
    assert_eq!(walk_step(1, true, false), WalkStep::Descend(0));
    assert_eq!(walk_step(3, false, false), WalkStep::Settle);
    assert_eq!(walk_step(0, false, false), WalkStep::Skip);
    assert_eq!(walk_step(0, true, false), WalkStep::Skip);
    assert_eq!(walk_step(6, true, true), WalkStep::Skip);
    assert_eq!(walk_step(6, false, true), WalkStep::Settle);
    assert_eq!(walk_step(0, false, true), WalkStep::Skip);
}

#[test]
fn the_plan_lists_the_whitelisted_folders() {
    let only = clean_plan("/tmp", "/cache", &vec![], false);
    assert_eq!(only.len(), 1);
    assert_eq!(only[0].category, "用户临时文件");
    assert_eq!(only[0].paths, vec![vec!["/tmp".to_string()]]);
    assert!(only[0].require_old);
    let plan = clean_plan("T", "L", &vec!["abc.default".to_string()], true);
    let cats: Vec<&str> = plan.iter().map(|t| t.category.as_str()).collect();
    assert_eq!(cats, vec!["用户临时文件", "系统临时文件", "浏览器缓存", "Windows 更新缓存", "缩略图缓存", "系统日志"]);
    let ages: Vec<bool> = plan.iter().map(|t| t.require_old).collect();
    assert_eq!(ages, vec![true, true, false, false, false, true]);
    assert_eq!(plan[1].paths, vec![vec!["C:\\Windows\\Temp".to_string()]]);
    assert_eq!(plan[2].paths.len(), 7);
    assert_eq!(plan[2].paths[0], vec!["L", "Microsoft", "Edge", "User Data", "Default", "Cache"]);
    assert_eq!(plan[2].paths[5], vec!["L", "Google", "Chrome", "User Data", "Default", "GPUCache"]);
    assert_eq!(plan[2].paths[6], vec!["L", "Mozilla", "Firefox", "Profiles", "abc.default", "cache2"]);
    assert_eq!(plan[4].kind, CleanKind::ThumbnailCaches);
    assert_eq!(plan[4].paths, vec![vec!["L", "Microsoft", "Windows", "Explorer"]]);
    assert_eq!(plan[5].paths, vec![vec!["C:\\Windows\\Logs".to_string()]]);
}

#[test]
fn a_run_stays_balanced_and_its_categories_add_up() {
    let mut s = CleanStats::for_new_run();
    let start = s.start_category("用户临时文件");
    if s.decide_file("a".to_string(), Some(5), false, None) {
        s.settle_removal("a", 5, Ok(()));
    }
    if s.decide_file("b".to_string(), Some(3), false, None) {
        s.settle_removal("b", 3, Err("e".to_string()));
    }
    s.decide_file("c".to_string(), None, false, None);
    assert_eq!(s.scanned, s.deleted + s.skipped);
    s.finish_category("用户临时文件", start);
    let start2 = s.start_category("系统日志");
    if s.decide_file("d".to_string(), Some(2), true, Some(700_000)) {
        s.settle_removal("d", 2, Ok(()));
    }
    s.finish_category("系统日志", start2);
    assert_eq!(s.scanned, s.deleted + s.skipped);
    let d: usize = s.categories.iter().map(|c| c.deleted).sum();
    let k: usize = s.categories.iter().map(|c| c.skipped).sum();
    let f: u64 = s.categories.iter().map(|c| c.freed_bytes).sum();
    assert_eq!((d, k, f), (s.deleted, s.skipped, s.freed_bytes));
    assert_eq!((s.deleted, s.skipped, s.freed_bytes), (2, 2, 7));
}
