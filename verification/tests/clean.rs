use system_cleaner::clean_executor::{
    extract_drive, in_scan_list, is_leap_year, listed_in, next_target_step, plan_item, sha256_hex,
    today_str, CleanTally, ItemPlan, Probe, Refusal, SafetyContext, TargetFacts, TargetStep,
    WhiteList,
};
use system_cleaner::rules_engine::protected_user_dirs;

fn ctx() -> SafetyContext {
    SafetyContext {
        user_profile: Some("C:\\Users\\Test".to_string()),
        protected_dirs: protected_user_dirs(Some("C:\\Users\\Test")),
    }
}

#[test]
fn test_extract_drive() {
    assert_eq!(extract_drive("C:\\Temp\\test.txt"), Some('C'));
    assert_eq!(extract_drive("D:/folder"), Some('D'));
    assert_eq!(extract_drive("\\\\server\\share"), None);
    assert_eq!(extract_drive("relative/path"), None);
}

#[test]
fn test_today_str() {
    let s = today_str(1_700_000_000);
    assert!(s.len() == 10);
    assert!(s.chars().nth(4) == Some('-'));
    assert!(s.chars().nth(7) == Some('-'));
    assert_eq!(s, "2023-11-14");
}

#[test]
fn today_str_epoch_and_leap_day() {
    assert_eq!(today_str(0), "1970-01-01");
    assert_eq!(today_str(951_782_400), "2000-02-29");
    assert_eq!(today_str(951_868_799), "2000-02-29");
    assert_eq!(today_str(951_868_800), "2000-03-01");
    assert_eq!(today_str(1_704_067_199), "2023-12-31");
}

#[test]
fn leap_years() {
    assert!(is_leap_year(2000));
    assert!(is_leap_year(2024));
    assert!(!is_leap_year(1900));
    assert!(!is_leap_year(2023));
}

#[test]
fn test_sha256_hex() {
    let hash = sha256_hex(b"hello world");
    assert_eq!(hash.len(), 64);
    assert!(hash.chars().all(|c| c.is_ascii_hexdigit()));
    assert_eq!(hash, hash.to_uppercase());
    assert_eq!(hash, "B94D27B9934D3E08A52E52D7DA7DABFAC484EFE37A5380EE9088F7ACE2EFCDE9");
}

#[test]
fn white_list_records_and_lookup() {
    let digest = "b94d27b9934d3e08a52e52d7da7dabfac484efe37a5380ee9088f7ace2efcde9";
    let content = format!("{}0000111122223333\r\n{}", digest, "0123456789abcdef0123456789abcdef0123456789abcdef0123456789abcde");
    let wl = WhiteList::parse(&content);
    assert_eq!(wl.len(), 1);
    assert!(wl.is_white_listed(b"hello world"));
    assert!(!wl.is_white_listed(b"hello world!"));
    assert!(!WhiteList::empty().is_white_listed(b"hello world"));
}

#[test]
fn white_list_short_final_record_counts_from_64_digits() {
    let a = "A".repeat(80);
    let b = "B".repeat(64);
    let wl = WhiteList::parse(&format!("{}{}", a, b));
    assert_eq!(wl.len(), 2);
    let wl2 = WhiteList::parse(&format!("{}{}", a, "B".repeat(63)));
    assert_eq!(wl2.len(), 1);
    let dup = WhiteList::parse(&format!("{}{}", a, a));
    assert_eq!(dup.len(), 1);
}

#[test]
fn test_list_only_group_skipped() {
    let c = ctx();
    let p = plan_item("none", "C:\\Users\\Test\\big\\big.bin", "C:\\Users\\Test\\big\\big.bin", &c, None);
    assert!(matches!(p, ItemPlan::ListOnly));
}

#[test]
fn plan_recycle_bin() {
    let c = ctx();
    assert!(matches!(plan_item("recycle_bin", "C:\\$Recycle.Bin", "C:\\$Recycle.Bin", &c, None), ItemPlan::EmptyRecycleBin('C')));
    assert!(matches!(
        plan_item("recycle_bin", "relative", "relative", &c, None),
        ItemPlan::Refuse(Refusal::InvalidDrive)
    ));
}

#[test]
fn test_protected_user_dir_refused() {
    let c = ctx();
    let p = plan_item("delete", "C:\\Users\\Test\\Downloads", "C:\\Users\\Test\\Downloads", &c, None);
    assert!(matches!(p, ItemPlan::Refuse(Refusal::ProtectedDir)));
    assert_eq!(Refusal::ProtectedDir.as_str(), "protected-dir");
}

#[test]
fn plan_uses_recorded_files() {
    let c = ctx();
    let files = vec!["C:\\Temp\\scan\\old_installer.exe".to_string()];
    match plan_item("delete", "C:\\Temp\\scan", "C:\\Temp\\scan", &c, Some(&files)) {
        ItemPlan::Targets { targets, listed } => {
            assert!(listed);
            assert_eq!(targets, files);
        }
        _ => panic!("expected targets"),
    }
    let empty: Vec<String> = Vec::new();
    match plan_item("delete", "C:\\Temp\\scan\\a.tmp", "C:\\Temp\\scan\\a.tmp", &c, Some(&empty)) {
        ItemPlan::Targets { targets, listed } => {
            assert!(!listed);
            assert_eq!(targets, vec!["C:\\Temp\\scan\\a.tmp".to_string()]);
        }
        _ => panic!("expected targets"),
    }
}

fn run_steps(target: &str, root: &str, in_list: bool, exists_as_dir: Option<bool>) -> TargetStep {
    let c = ctx();
    let mut facts = TargetFacts::unknown();
    loop {
        match next_target_step(target, root, &c, in_list, &facts) {
            TargetStep::Ask(Probe::Lock) => facts.locked = Some(false),
            TargetStep::Ask(Probe::WhiteList) => facts.white_listed = Some(false),
            TargetStep::Ask(Probe::Metadata) => facts.metadata = Some(exists_as_dir),
            other => return other,
        }
    }
}

#[test]
fn test_files_list_semantics_never_nukes_root() {
    let files = vec!["C:\\Temp\\qa\\old_installer.exe".to_string()];
    assert!(in_scan_list(&files, "C:\\Temp\\qa\\old_installer.exe"));
    assert!(!in_scan_list(&files, "C:\\Temp\\qa\\my_data.txt"));
    assert_eq!(run_steps("C:\\Temp\\qa\\old_installer.exe", "C:\\Temp\\qa", true, Some(false)), TargetStep::RemoveFile);
    assert_eq!(run_steps("C:\\Temp\\qa", "C:\\Temp\\qa", false, Some(true)), TargetStep::Refuse(Refusal::DirNotInScanList));
}

#[test]
fn test_dir_without_scan_list_is_refused() {
    assert_eq!(
        run_steps("C:\\Temp\\qa_nolist\\data", "C:\\Temp\\qa_nolist", false, Some(true)),
        TargetStep::Refuse(Refusal::DirNotInScanList)
    );
    assert_eq!(Refusal::DirNotInScanList.as_str(), "dir-not-in-scan-list");
}

#[test]
fn test_dir_in_scan_list_is_removable() {
    let files = vec!["C:\\Temp\\qa_ext\\some_extension_dir".to_string()];
    let listed = listed_in(Some(&files), "C:\\Temp\\qa_ext\\some_extension_dir");
    assert!(listed);
    assert_eq!(run_steps("C:\\Temp\\qa_ext\\some_extension_dir", "C:\\Temp\\qa_ext", listed, Some(true)), TargetStep::RemoveDir);
}

#[test]
fn target_steps_refusals_and_skip() {
    let c = ctx();
    let mut facts = TargetFacts::unknown();
    facts.locked = Some(true);
    assert_eq!(next_target_step("C:\\Temp\\a.txt", "C:\\Temp", &c, false, &facts), TargetStep::Refuse(Refusal::FileLocked));
    facts.locked = Some(false);
    facts.white_listed = Some(true);
    assert_eq!(next_target_step("C:\\Temp\\a.txt", "C:\\Temp", &c, false, &facts), TargetStep::Refuse(Refusal::WhiteListed));
    assert_eq!(run_steps("C:\\Temp\\gone.txt", "C:\\Temp", false, None), TargetStep::Skip);
    assert_eq!(run_steps("C:\\Windows\\system32\\cmd.exe", "C:\\Temp", false, Some(false)), TargetStep::Refuse(Refusal::UnsafePath));
    assert_eq!(run_steps("C:\\Users\\Test\\Documents", "C:\\Users\\Test", false, Some(true)), TargetStep::Refuse(Refusal::ProtectedDir));
}

#[test]
fn clean_tally_counts() {
    let mut t = CleanTally::new();
    t.removed(100);
    t.removed(23);
    t.skip();
    t.fail("C:\\x", "file-locked");
    assert_eq!(t.freed_size, 123);
    assert_eq!(t.count, 2);
    assert_eq!(t.skipped, 1);
    assert_eq!(t.failed.len(), 1);
    assert_eq!(t.failed[0].path, "C:\\x");
    assert_eq!(t.failed[0].reason, "file-locked");
}
