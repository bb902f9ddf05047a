use system_cleaner::filesystem::{
    empty_bin_script, list_continue, lock_probe_name, recycle_script, shell_ok, DeleteTally, ScanWalk,
};
use system_cleaner::icons::{base64_encode, icon_data_url, icon_dims_ok, ico_bytes, IconCache, IconLookup};
use system_cleaner::keyed::KeyedStore;
use system_cleaner::rules_engine::{init, rules_dir};
use system_cleaner::scan_scheduler::{FixTarget, ScanRegistry};
use system_cleaner::shredder::{
    enter_dir, get_method, shred_precheck, total_size, FileShred, FolderTally, ShredAction,
    ShredEvent, CHUNK,
};
use system_cleaner::speedup::{
    clean_file_message, flush_ok, kill_decision, optimize_lookup, plan_fix, reused_message_exec,
    FixStep, KillStep,
};
use system_cleaner::startup::StringSet;
use system_cleaner::store::{push_history, HISTORY_LIMIT};
use system_cleaner::text::{chars_of, trim};

#[test]
fn scan_walk_filters_and_totals() {
    let day: u128 = 86_400_000;
    let now: u128 = 100 * day;
    let mut w = ScanWalk::new("C:\\Temp", 7, 8, Some("TMP|log"), now);
    assert!(w.reads_folder(8));
    assert!(!w.reads_folder(9));
    assert!(w.accept_file("C:\\Temp\\a.tmp", "a.tmp", now - 8 * day, 10));
    assert!(w.accept_file("C:\\Temp\\b.LOG", "b.LOG", now - 30 * day, 5));
    assert!(!w.accept_file("C:\\Temp\\c.tmp", "c.tmp", now - day, 7));
    assert!(!w.accept_file("C:\\Temp\\d.txt", "d.txt", now - 30 * day, 7));
    // a file dated in the future counts as changed just now: too new
    assert!(!w.accept_file("C:\\Temp\\e.tmp", "e.tmp", now + day, 1));
    assert_eq!(w.total_size, 15);
    assert_eq!(w.total_count, 2);
    assert_eq!(w.files.len(), 2);
    assert_eq!(w.files[0], ("C:\\Temp\\a.tmp".to_string(), 10, now - 8 * day));
    assert_eq!(w.files[1].0, "C:\\Temp\\b.LOG");
    assert!(!w.enter_dir(Some("c:\\temp")));
    assert!(w.enter_dir(Some("C:\\Temp\\Sub")));
    assert!(!w.enter_dir(Some("c:\\TEMP\\sub")));
    assert!(!w.enter_dir(None));
    w.note_cancel(true);
    assert!(!w.reads_folder(0));
}

#[test]
fn scan_walk_ticks_and_progress() {
    let mut w = ScanWalk::new("C:\\T", 0, 8, None, 0);
    let mut due = 0;
    for _ in 0..100 {
        if w.tick() {
            due += 1;
        }
    }
    assert_eq!(due, 2);
    assert!(w.progress_due(false, 1000));
    assert!(!w.progress_due(false, 1300));
    assert!(w.progress_due(false, 1400));
    assert!(w.progress_due(true, 1401));
    assert!(w.accept_file("C:\\T\\anything.bin", "anything.bin", 5, 3));
    // no minimum age: a future time is kept too
    assert!(w.accept_file("C:\\T\\later.bin", "later.bin", 9, 1));
}

#[test]
fn folder_listing_limits() {
    let mut t = false;
    assert!(list_continue(2, 5, 10, 100, &mut t));
    assert!(!t);
    assert!(!list_continue(6, 5, 10, 100, &mut t));
    assert!(!t);
    assert!(!list_continue(1, 5, 100, 100, &mut t));
    assert!(t);
}

#[test]
fn lock_probe_and_shell_scripts() {
    assert_eq!(lock_probe_name(42, 1700, 9), ".lockprobe_42_1700_9");
    assert!(shell_ok("OK\r\n"));
    assert!(!shell_ok("Exception"));
    let s = recycle_script("C:\\a'b.txt");
    assert!(s.contains("C:\\a''b.txt"));
    let e = empty_bin_script("D");
    assert!(e.contains("D"));
    let mut t = DeleteTally::new();
    t.removed(5);
    t.in_use();
    t.fail("C:\\x", "denied");
    assert_eq!((t.freed, t.deleted, t.running, t.failed.len()), (5, 1, 1, 1));
}

#[test]
fn test_apply_fix_unknown_action() {
    let dirs: Vec<String> = Vec::new();
    match plan_fix("unknown_action", &FixTarget::Null, None, &dirs) {
        FixStep::Reply { ok, message } => {
            assert!(!ok);
            assert!(message.contains("unknown action"));
        }
        _ => panic!("expected a reply"),
    }
}

#[test]
fn test_optimize_unknown_fix_id() {
    let reg = ScanRegistry::new();
    match optimize_lookup(&reg, "fix_001") {
        Err(m) => assert_eq!(m, "unknown fix id"),
        Ok(_) => panic!("unknown id found"),
    }
}

#[test]
fn fix_plans() {
    let dirs: Vec<String> = Vec::new();
    match plan_fix("disable_service", &FixTarget::Name("Spoolsv".to_string()), None, &dirs) {
        FixStep::Reply { ok, message } => {
            assert!(!ok);
            assert_eq!(message, "Protected service: Spoolsv");
        }
        _ => panic!("protected service planned"),
    }
    assert!(matches!(plan_fix("disable_service", &FixTarget::Name("SysMain".to_string()), None, &dirs), FixStep::DisableService { .. }));
    assert!(matches!(plan_fix("kill_process", &FixTarget::Pid(12), None, &dirs), FixStep::CheckProcess { pid: 12 }));
    assert!(matches!(plan_fix("flush_dns", &FixTarget::Null, None, &dirs), FixStep::FlushDns));
    match plan_fix("clean_file", &FixTarget::Name("C:\\Windows".to_string()), None, &dirs) {
        FixStep::Reply { message, .. } => assert_eq!(message, "unsafe path: clean_file target not allowed"),
        _ => panic!("critical folder planned"),
    }
    assert!(matches!(plan_fix("clean_file", &FixTarget::Name("D:\\cache".to_string()), None, &dirs), FixStep::CleanFile { .. }));
    match plan_fix("reg_set", &FixTarget::Null, None, &dirs) {
        FixStep::Reply { message, .. } => assert_eq!(message, "reg_set: missing keyPath"),
        _ => panic!("missing target planned"),
    }
}

#[test]
fn reused_pids_are_not_killed() {
    let procs = vec![(5u64, "QQMusic.exe".to_string()), (6u64, "notepad.exe".to_string())];
    assert!(matches!(kill_decision(&procs, 5), KillStep::Kill));
    match kill_decision(&procs, 6) {
        KillStep::Reused { name } => assert_eq!(reused_message_exec(&name), "PID reused by other process (notepad.exe), skipped"),
        _ => panic!("reused pid killed"),
    }
    assert!(matches!(kill_decision(&procs, 7), KillStep::AlreadyExited));
    assert!(flush_ok("Successfully flushed the DNS Resolver Cache."));
    assert!(!flush_ok("error"));
    assert_eq!(clean_file_message(3, 1024), "deleted 3 files (>=7d), freed 1024 bytes");
}

#[test]
fn base64_and_icons() {
    assert_eq!(base64_encode(b""), "");
    assert_eq!(base64_encode(b"f"), "Zg==");
    assert_eq!(base64_encode(b"fo"), "Zm8=");
    assert_eq!(base64_encode(b"foo"), "Zm9v");
    assert_eq!(base64_encode(b"hello"), "aGVsbG8=");
    assert_eq!(icon_data_url(&vec![0, 0, 1, 0]), "data:image/x-icon;base64,AAABAA==");
    assert!(icon_dims_ok(256, 1));
    assert!(!icon_dims_ok(0, 16));
    assert!(!icon_dims_ok(257, 16));
    let ico = ico_bytes(1, 1, &vec![1, 2, 3, 4]);
    assert_eq!(ico.len(), 70);
    assert_eq!(&ico[0..6], &[0, 0, 1, 0, 1, 0]);
    assert_eq!(&ico[6..22], &[1, 1, 0, 0, 1, 0, 32, 0, 48, 0, 0, 0, 22, 0, 0, 0]);
    assert_eq!(&ico[22..30], &[40, 0, 0, 0, 1, 0, 0, 0]);
    assert_eq!(&ico[30..34], &[2, 0, 0, 0]);
    assert_eq!(&ico[62..66], &[1, 2, 3, 4]);
    assert_eq!(&ico[66..70], &[0, 0, 0, 0]);
    let big = ico_bytes(256, 1, &vec![0u8; 1024]);
    assert_eq!(big[6], 0);
}

#[test]
fn icon_cache_read_back() {
    let mut c = IconCache::new();
    assert!(matches!(c.file_icon_data_url(""), IconLookup::Empty));
    let key = match c.file_icon_data_url("C:\\App.EXE") {
        IconLookup::Miss { key } => key,
        _ => panic!("empty cache hit"),
    };
    assert_eq!(key, "c:\\app.exe");
    let url = c.store(key, Some(vec![1u8, 2, 3]));
    assert_eq!(url, "data:image/x-icon;base64,AQID");
    match c.file_icon_data_url("c:\\APP.exe") {
        IconLookup::Hit { url } => assert_eq!(url, "data:image/x-icon;base64,AQID"),
        _ => panic!("stored icon missed"),
    }
    // a failure is cached as the empty answer
    let key2 = match c.file_icon_data_url("D:\\none.exe") {
        IconLookup::Miss { key } => key,
        _ => panic!("unexpected hit"),
    };
    assert_eq!(c.store(key2, None), "");
    assert!(matches!(c.file_icon_data_url("d:\\NONE.exe"), IconLookup::Hit { url } if url.is_empty()));
}

fn next_is_in_pass(a: &ShredAction) -> bool {
    matches!(a, ShredAction::Write { .. } | ShredAction::SyncPass)
}

fn run_shred(size: u64, passes: u32, cancel_at: Option<usize>) -> (Vec<&'static str>, FileShred) {
    let mut s = FileShred::new(size, passes);
    let mut log = Vec::new();
    let mut a = s.step(ShredEvent::Start, false);
    let mut n = 0usize;
    loop {
        n += 1;
        let cancelled = cancel_at == Some(n);
        a = match a {
            ShredAction::Open => {
                log.push("open");
                s.step(ShredEvent::Opened { result: Ok(()) }, cancelled)
            }
            ShredAction::Write { len } => {
                assert!(len > 0 && len <= CHUNK);
                assert_eq!(s.pending, len);
                let before = s.offset;
                log.push("write");
                let next = s.step(ShredEvent::Wrote { result: Ok(()) }, cancelled);
                if next_is_in_pass(&next) {
                    assert_eq!(s.offset, before + len);
                }
                next
            }
            ShredAction::SyncPass => {
                log.push("sync");
                s.step(ShredEvent::Synced { result: Ok(()) }, cancelled)
            }
            ShredAction::Remove => {
                log.push("remove");
                s.step(ShredEvent::Removed { result: Ok(()) }, cancelled)
            }
            ShredAction::Cancelled => {
                log.push("cancelled");
                return (log, s);
            }
            ShredAction::Failed { .. } => {
                log.push("failed");
                return (log, s);
            }
            ShredAction::Succeeded => {
                log.push("succeeded");
                return (log, s);
            }
        };
    }
}

#[test]
fn shred_overwrites_every_pass_before_removal() {
    let (log, s) = run_shred(11, 3, None);
    assert_eq!(log, vec!["open", "write", "sync", "open", "write", "sync", "open", "write", "sync", "remove", "succeeded"]);
    assert_eq!(s.written, 33);
    let (log2, _) = run_shred(CHUNK + 1, 1, None);
    assert_eq!(log2, vec!["open", "write", "write", "sync", "remove", "succeeded"]);
    let (log3, _) = run_shred(0, 1, None);
    assert_eq!(log3, vec!["open", "sync", "remove", "succeeded"]);
}

#[test]
fn shred_cancel_and_errors() {
    let (log, s) = run_shred(11, 3, Some(2));
    assert_eq!(log, vec!["open", "write", "cancelled"]);
    assert!(s.written < 33);
    let mut f = FileShred::new(5, 1);
    assert!(matches!(f.step(ShredEvent::Start, false), ShredAction::Open));
    match f.step(ShredEvent::Opened { result: Err("denied".to_string()) }, false) {
        ShredAction::Failed { error } => assert_eq!(error, "denied"),
        _ => panic!("error not reported"),
    }
    let mut g = FileShred::new(5, 1);
    assert!(matches!(g.step(ShredEvent::Start, true), ShredAction::Cancelled));
    assert_eq!(g.total_bytes(), 5);
}

#[test]
fn shred_methods_and_checks() {
    assert_eq!(get_method("zero").passes, 1);
    assert_eq!(get_method("random").passes, 1);
    assert_eq!(get_method("dod").passes, 3);
    assert_eq!(get_method("anything").passes, 3);
    let ok: Result<bool, String> = Ok(false);
    let dir: Result<bool, String> = Ok(true);
    assert_eq!(shred_precheck("C:\\Windows", None, true, &dir, true), Some("拒绝粉碎系统关键目录: C:\\Windows".to_string()));
    assert_eq!(
        shred_precheck("\\\\?\\C:\\Windows", None, true, &dir, true),
        Some("拒绝粉碎系统关键目录: \\\\?\\C:\\Windows".to_string())
    );
    assert!(shred_precheck("\\\\?\\C:\\", None, true, &dir, true).is_some());
    assert!(shred_precheck("\\\\?\\D:\\data", None, true, &dir, true).is_none());
    assert_eq!(shred_precheck("D:\\a.txt", None, false, &ok, false), Some("文件不存在".to_string()));
    assert_eq!(shred_precheck("D:\\d", None, false, &dir, true), Some("目录不存在".to_string()));
    assert_eq!(shred_precheck("D:\\d", None, true, &dir, false), Some("请使用 shred_folder 处理目录".to_string()));
    assert_eq!(shred_precheck("D:\\a.txt", None, true, &ok, true), Some("目标不是目录".to_string()));
    assert_eq!(shred_precheck("D:\\a.txt", None, true, &ok, false), None);
    let bad: Result<bool, String> = Err("io".to_string());
    assert_eq!(shred_precheck("D:\\a.txt", None, true, &bad, false), Some("io".to_string()));
}

#[test]
fn folder_shred_tallies() {
    assert_eq!(total_size(&vec![1, 2, 3]), Some(6));
    assert_eq!(total_size(&vec![u64::MAX, 1]), None);
    let mut t = FolderTally::new(10, 3, 2);
    assert_eq!(t.total_bytes, 30);
    assert_eq!(t.size, 10);
    t.record("D:\\f\\a", true, Some(4), 3);
    t.record("D:\\f\\b", false, None, 3);
    assert_eq!((t.succeeded, t.failed, t.written, t.files_done), (1, 1, 12, 2));
    assert_eq!(t.results, vec![("D:\\f\\a".to_string(), true), ("D:\\f\\b".to_string(), false)]);
    let mut seen = StringSet::new();
    assert!(enter_dir(&mut seen, Some("D:\\A")));
    assert!(!enter_dir(&mut seen, Some("d:\\a")));
    assert!(!enter_dir(&mut seen, None));
}

#[test]
fn keyed_store_insert_and_get() {
    let mut k: KeyedStore<u32> = KeyedStore::new();
    assert_eq!(k.len(), 0);
    k.insert("a".to_string(), 1);
    k.insert("b".to_string(), 2);
    k.insert("a".to_string(), 3);
    assert_eq!(k.len(), 2);
    assert_eq!(k.get("a"), Some(&3));
    assert_eq!(k.get("c"), None);
    k.clear();
    assert_eq!(k.len(), 0);
}

#[test]
fn history_keeps_the_latest_thirty() {
    let mut h: Vec<u32> = Vec::new();
    for i in 0..35u32 {
        push_history(&mut h, i);
    }
    assert_eq!(h.len(), HISTORY_LIMIT);
    assert_eq!(h[0], 5);
    assert_eq!(h[29], 34);
}

#[test]
fn rules_folder_is_set_once() {
    let mut slot: Option<String> = None;
    assert_eq!(rules_dir(None, Some("C:\\App")), "C:\\App\\..\\ui\\rules");
    assert_eq!(rules_dir(None, None), "rules");
    init(&mut slot, "D:\\r1".to_string());
    init(&mut slot, "D:\\r2".to_string());
    assert_eq!(slot, Some("D:\\r1".to_string()));
    assert_eq!(rules_dir(slot.as_deref(), Some("C:\\App")), "D:\\r1");
}

#[test]
fn chars_in_order() {
    assert_eq!(chars_of("a中😀"), vec!['a', '中', '😀']);
    assert!(chars_of("").is_empty());
}

#[test]
fn unicode_white_space_is_trimmed() {
    let t = trim(&chars_of("\u{3000}\u{85}\t x y\u{2028}\u{A0}"));
    assert_eq!(t, chars_of("x y"));
    let z = trim(&chars_of("\u{200B}x"));
    assert_eq!(z, chars_of("\u{200B}x"));
}
