use system_cleaner::scan_scheduler::{
    big_cache_fresh, build_group_defs, extension_bases, extension_item, finish_group, fix_id,
    glob_item, glob_matches, is_extension_id, is_safe_to_close, item_id, new_fix, plugin_item,
    recycle_item, reg_i64, scan_software, scan_win11, sizes_total, speedup_categories,
    sys_plugin_dirs, win11_queries, CleanTotals, FixTarget, ProcessInfo, ScanControl, ScanRegistry,
    NO_SCAN_KEY,
};

#[test]
fn new_scan_supersedes_older_scans() {
    let mut c = ScanControl::new();
    let k1 = c.begin_clean_scan();
    c.start_scan();
    assert!(!c.is_cancelled_now(k1));
    let k2 = c.begin_clean_scan();
    assert_eq!(k2, k1 + 1);
    assert!(c.is_cancelled_now(k1));
    assert!(!c.is_cancelled_now(k2));
    assert!(!c.is_cancelled_now(NO_SCAN_KEY));
    c.cancel();
    assert!(c.is_cancelled_now(k2));
    assert!(c.is_cancelled_now(NO_SCAN_KEY));
    c.start_scan();
    assert!(!c.is_cancelled_now(k2));
    assert!(c.is_running());
    c.set_running(false);
    assert!(!c.is_running());
}

#[test]
fn recorded_files_read_back() {
    let mut reg = ScanRegistry::new();
    assert!(reg.get_scan_files("g", "it_1").is_none());
    reg.record_scan_files("g", "it_1", vec!["C:\\a".to_string(), "C:\\b".to_string()]);
    assert_eq!(reg.get_scan_files("g", "it_1"), Some(vec!["C:\\a".to_string(), "C:\\b".to_string()]));
    reg.record_scan_files("g", "it_1", vec!["C:\\c".to_string()]);
    assert_eq!(reg.get_scan_files("g", "it_1"), Some(vec!["C:\\c".to_string()]));
    assert!(reg.get_scan_files("h", "it_1").is_none());
    reg.clear_clean_results();
    assert!(reg.get_scan_files("g", "it_1").is_none());
}

#[test]
fn fix_ids_are_zero_padded() {
    assert_eq!(fix_id(1), "fix_001");
    assert_eq!(fix_id(42), "fix_042");
    assert_eq!(fix_id(1234), "fix_1234");
}

#[test]
fn assign_fix_numbers_and_stores() {
    let mut reg = ScanRegistry::new();
    let mut counter: u32 = 0;
    let f = new_fix("n".to_string(), "d".to_string(), "kill_process", FixTarget::Pid(7), false, "建议退出");
    let id = reg.assign_fix(&mut counter, "software", f);
    assert_eq!(id, "fix_001");
    assert_eq!(counter, 1);
    let stored = reg.get_fix("fix_001").unwrap();
    assert_eq!(stored.category, "software");
    assert_eq!(stored.fix.id, "fix_001");
    assert_eq!(stored.fix.name, "n");
    assert!(reg.get_fix("fix_002").is_none());
}

#[test]
fn reg_numbers_are_trimmed_integers() {
    assert_eq!(reg_i64(Some(" 400 ")), Some(400));
    assert_eq!(reg_i64(Some("-5")), Some(-5));
    assert_eq!(reg_i64(Some("abc")), None);
    assert_eq!(reg_i64(None), None);
}

#[test]
fn win11_checks_trigger_on_thresholds() {
    let q = win11_queries();
    assert_eq!(q.len(), 5);
    assert_eq!(q[0], ("HKCU\\Control Panel\\Desktop", "MenuShowDelay"));
    let mut reg = ScanRegistry::new();
    let mut counter: u32 = 0;
    let values = vec![
        Some("400".to_string()),
        Some("5000".to_string()),
        None,
        Some("1".to_string()),
        None,
    ];
    let fixes = scan_win11(&mut reg, &mut counter, &values);
    assert_eq!(fixes.len(), 2);
    assert_eq!(fixes[0].name, "优化菜单显示延迟");
    assert_eq!(fixes[0].id, "fix_001");
    assert_eq!(fixes[1].name, "关闭休眠功能");
    assert!(fixes[1].risky);
    assert_eq!(counter, 2);
    assert_eq!(reg.get_fix("fix_002").unwrap().category, "win11");

    let mut reg2 = ScanRegistry::new();
    let mut c2: u32 = 0;
    let visual = vec![None, None, None, None, Some("3".to_string())];
    let f2 = scan_win11(&mut reg2, &mut c2, &visual);
    assert_eq!(f2.len(), 1);
    assert_eq!(f2[0].name, "调整为最佳性能");
}

#[test]
fn background_programs_get_kill_fixes() {
    assert!(is_safe_to_close("qqmusic.exe"));
    assert!(!is_safe_to_close("QQMusic.exe"));
    let mut reg = ScanRegistry::new();
    let mut counter: u32 = 0;
    let procs = vec![
        ProcessInfo { pid: 10, name: "QQMusic.exe".to_string(), path: None, working_set: 1024 },
        ProcessInfo { pid: 11, name: "notepad.exe".to_string(), path: Some("C:\\Windows\\notepad.exe".to_string()), working_set: 2048 },
    ];
    let fixes = scan_software(&mut reg, &mut counter, &procs);
    assert_eq!(fixes.len(), 1);
    assert_eq!(fixes[0].name, "退出后台程序 QQMusic.exe");
    assert_eq!(fixes[0].detail, "PID 10");
    assert_eq!(fixes[0].action, "kill_process");
    assert!(matches!(fixes[0].target, FixTarget::Pid(10)));
}

#[test]
fn item_ids_use_sanitized_paths() {
    let id = item_id("sys_temp", "C:\\Temp");
    assert_eq!(id, "it_sys_temp_C_Temp");
}

#[test]
fn recycle_bin_items() {
    assert!(recycle_item("recycle_bin", "C:\\", 0, 0).is_none());
    let it = recycle_item("recycle_bin", "C:\\", 10, 1).unwrap();
    assert_eq!(it.name, "回收站 (C:\\)");
    assert_eq!(it.desc, "回收站中的文件");
    assert_eq!(it.size, 10);
    assert_eq!(it.path, "C:\\");
}

#[test]
fn sizes_saturate() {
    let files = vec![("a".to_string(), u64::MAX - 1), ("b".to_string(), 5)];
    assert_eq!(sizes_total(&files), u64::MAX);
    let small = vec![("a".to_string(), 3), ("b".to_string(), 4)];
    assert_eq!(sizes_total(&small), 7);
}

#[test]
fn thumbnail_glob() {
    assert!(glob_matches("ThumbCache_32.db", "thumbcache_"));
    assert!(!glob_matches("iconcache_32.db", "thumbcache_"));
    let mut reg = ScanRegistry::new();
    let none: Vec<(String, u64)> = Vec::new();
    assert!(glob_item(&mut reg, "thumb_cache", "缩略图缓存", "d", "C:\\x", &none).is_none());
    let files = vec![("C:\\x\\thumbcache_1.db".to_string(), 5), ("C:\\x\\thumbcache_2.db".to_string(), 6)];
    let it = glob_item(&mut reg, "thumb_cache", "缩略图缓存", "d", "C:\\x", &files).unwrap();
    assert_eq!(it.size, 11);
    assert_eq!(it.count, 2);
    assert_eq!(
        reg.get_scan_files("thumb_cache", &it.id),
        Some(vec!["C:\\x\\thumbcache_1.db".to_string(), "C:\\x\\thumbcache_2.db".to_string()])
    );
}

#[test]
fn extension_ids_and_items() {
    let id = "abcdefghijklmnopabcdefghijklmnop";
    assert!(is_extension_id(id));
    assert!(!is_extension_id("abcdefghijklmnopabcdefghijklmno"));
    assert!(!is_extension_id("abcdefghijklmnopabcdefghijklmn1"));
    let bases = extension_bases("C:\\L");
    assert_eq!(
        bases,
        vec![
            "C:\\L\\Google\\Chrome\\User Data\\Default\\Extensions".to_string(),
            "C:\\L\\Microsoft\\Edge\\User Data\\Default\\Extensions".to_string(),
        ]
    );
    let mut reg = ScanRegistry::new();
    let dir = "C:\\L\\Google\\Chrome\\User Data\\Default\\Extensions\\abcdefghijklmnopabcdefghijklmnop";
    assert!(extension_item(&mut reg, "browser_ext", id, dir, 0).is_none());
    assert!(extension_item(&mut reg, "browser_ext", "Temp", dir, 10).is_none());
    let it = extension_item(&mut reg, "browser_ext", id, dir, 10).unwrap();
    assert_eq!(it.name, "扩展 abcdefgh...");
    assert_eq!(it.count, 1);
    assert_eq!(reg.get_scan_files("browser_ext", &it.id), Some(vec![dir.to_string()]));
}

#[test]
fn plugin_leftovers() {
    let dirs = sys_plugin_dirs("C:\\Windows", "C:\\R");
    assert_eq!(dirs, vec!["C:\\Windows\\Downloaded Program Files".to_string(), "C:\\R\\Microsoft\\AddIns".to_string()]);
    let mut reg = ScanRegistry::new();
    assert!(plugin_item(&mut reg, "sys_plugin", &dirs[0], &Vec::new()).is_none());
    let files = vec![("a".to_string(), 4u64), ("b".to_string(), 5u64)];
    let it = plugin_item(&mut reg, "sys_plugin", &dirs[0], &files).unwrap();
    assert_eq!(it.name, "插件残留 (C:\\Windows\\Downloaded Program Files)");
    assert_eq!(it.size, 9);
    assert_eq!(it.count, 2);
    assert_eq!(reg.get_scan_files("sys_plugin", &it.id), Some(vec!["a".to_string(), "b".to_string()]));
}

#[test]
fn group_definitions_per_tab() {
    let trash = build_group_defs("trash", "T", "W", "L", "P", "S");
    assert_eq!(trash.len(), 11);
    assert_eq!(trash[0].group_id, "recycle_bin");
    assert!(trash[0].risky);
    let soft = build_group_defs("software", "T", "W", "L", "P", "S");
    assert_eq!(soft.len(), 2);
    assert!(soft[1].list_only);
    let all = build_group_defs("all", "T", "W", "L", "P", "S");
    assert_eq!(all.len(), 15);
    let plug = build_group_defs("plugin", "T", "W", "L", "P", "S");
    assert_eq!(plug.len(), 2);
    assert_eq!(plug[0].group_id, "browser_ext");
}

#[test]
fn finished_groups_and_totals() {
    let trash = build_group_defs("trash", "T", "W", "L", "P", "S");
    let items = vec![
        recycle_item("recycle_bin", "C:\\", 10, 2).unwrap(),
        recycle_item("recycle_bin", "D:\\", 5, 1).unwrap(),
    ];
    let g = finish_group(&trash[0], "trash", &items);
    assert_eq!(g.group_id, "recycle_bin");
    assert_eq!(g.category, "trash");
    assert!(!g.checked);
    assert!(g.risky);
    assert!(g.items.iter().all(|it| !it.checked && it.risky));
    assert_eq!(g.extra_count, 2);
    assert!(g.expandable);
    let mut t = CleanTotals::new();
    t.add_group(&g.items);
    t.add_group(&g.items);
    assert_eq!(t.total_size, 30);
    assert_eq!(t.total_count, 6);

    let g2 = finish_group(&trash[1], "trash", &items);
    assert!(g2.checked);
    assert!(g2.items.iter().all(|it| it.checked && !it.risky));
}

#[test]
fn speedup_category_table() {
    let c = speedup_categories();
    assert_eq!(c.len(), 6);
    assert_eq!(c[0].0, "win11");
    assert_eq!(c[5], ("network", "网络加速", "优化DNS与网络参数", "network"));
}

#[test]
fn big_file_cache_freshness() {
    assert!(big_cache_fresh(1_000_000, 500_000));
    assert!(!big_cache_fresh(1_100_000, 500_000));
}
