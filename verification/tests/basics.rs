use system_cleaner::exec::decode;
use system_cleaner::paths::{is_absolute, user_profile};
use system_cleaner::rules_engine::{
    is_critical_root, is_inside, is_protected_user_dir, is_safe_path, protected_user_dirs,
};
use system_cleaner::scan_scheduler::safe_to_close;
use system_cleaner::service::{extract_field, is_protected};
use system_cleaner::shredder::{ShredControl, ShredMethod};

#[test]
fn test_cancel_flag() {
    let mut c = ShredControl::new();
    c.reset_cancel();
    assert!(c.is_running());
    c.cancel();
    assert!(!c.is_running());
    c.reset_cancel();
    assert!(c.is_running());
}

#[test]
fn test_method_passes() {
    let zero = ShredMethod::zero();
    assert_eq!(zero.passes, 1);

    let random = ShredMethod::random();
    assert_eq!(random.passes, 1);

    let dod = ShredMethod::dod();
    assert_eq!(dod.passes, 3);

    let pass0 = dod.data(0);
    assert!(pass0.iter().all(|&b| b == 0x00));

    let pass1 = dod.data(1);
    assert!(pass1.iter().all(|&b| b == 0xff));

    let pass2 = dod.data(2);
    assert!(!pass2.iter().all(|&b| b == 0x00));
    assert!(!pass2.iter().all(|&b| b == 0xff));
}

#[test]
fn test_safe_to_close_contains_expected() {
    let list = safe_to_close();
    assert!(list.contains(&"qqmusic.exe"));
    assert!(list.contains(&"chromeupdate.exe"));
    assert!(!list.contains(&"notepad.exe"));
}

#[test]
fn test_is_critical_root() {
    assert!(is_critical_root("C:\\Windows", None));
    assert!(is_critical_root("C:\\Program Files", None));
    assert!(is_critical_root("C:\\", None));
    assert!(!is_critical_root("C:\\Temp", None));
}

#[test]
fn test_is_inside() {
    assert!(is_inside("C:\\Windows", "C:\\Windows\\System32"));
    assert!(is_inside("C:\\Users\\Test", "C:\\Users\\Test\\AppData"));
    assert!(!is_inside("C:\\Windows", "C:\\Program Files"));
    assert!(!is_inside("C:\\Windows", "C:\\Windows"));
}

#[test]
fn test_is_safe_path() {
    let dirs = protected_user_dirs(None);
    assert!(is_safe_path("C:\\Temp\\test.txt", "C:\\Temp", None, &dirs));
    assert!(is_safe_path("C:\\Temp\\sub\\file.txt", "C:\\Temp", None, &dirs));
    assert!(!is_safe_path("C:\\Windows\\system32\\cmd.exe", "C:\\Temp", None, &dirs));
    assert!(!is_safe_path("C:\\Windows", "C:\\Windows", None, &dirs));
    assert!(!is_safe_path("C:\\Program Files", "C:\\Program Files", None, &dirs));
}

#[test]
fn test_protected_user_dirs() {
    let up = "C:\\Users\\Test";
    let dirs = protected_user_dirs(Some(up));
    assert!(is_protected_user_dir("C:\\Users\\Test\\Downloads", &dirs));
    assert!(is_protected_user_dir("C:\\Users\\Test\\Desktop", &dirs));
    assert!(is_protected_user_dir("C:\\Users\\Test\\Documents", &dirs));
    assert!(!is_protected_user_dir("C:\\Users\\Test\\NotARealShellDir", &dirs));
    assert!(!is_safe_path(
        "C:\\Users\\Test\\Downloads",
        "C:\\Users\\Test\\Downloads",
        Some(up),
        &dirs
    ));
    assert!(is_protected_user_dir("C:\\Users\\Test\\Downloads\\some_file.txt", &dirs) == false);
    assert!(!is_protected_user_dir("", &dirs));
}

#[test]
fn test_decode_utf8() {
    let buf = b"hello world";
    assert_eq!(decode(buf), "hello world");
}

#[test]
fn test_decode_gbk() {
    let buf = &[0xD6, 0xD0, 0xCE, 0xC4];
    assert_eq!(decode(buf), "中文");
}

#[test]
fn test_decode_utf16le_bom() {
    let buf = &[0xFF, 0xFE, 0x74, 0x00, 0x65, 0x00, 0x73, 0x00, 0x74, 0x00];
    assert_eq!(decode(buf), "test");
}

#[test]
fn test_user_profile() {
    let p = user_profile(None);
    assert!(is_absolute(&p) || p.is_empty());
    let q = user_profile(Some("C:\\Users\\Test"));
    assert!(is_absolute(&q) || q.is_empty());
}

#[test]
fn test_is_protected() {
    assert!(is_protected("winlogon"));
    assert!(is_protected("WINLOGON"));
    assert!(!is_protected("myservice"));
}

#[test]
fn test_extract_field() {
    let out = "SERVICE_NAME: wuauserv\nSTATE        : 4  RUNNING";
    assert_eq!(extract_field(out, "SERVICE_NAME"), Some("wuauserv".to_string()));
    assert_eq!(extract_field(out, "STATE"), Some("4  RUNNING".to_string()));
}

#[test]
fn drive_root_never_a_safe_target() {
    let dirs = protected_user_dirs(None);
    assert!(!is_safe_path("C:\\", "C:\\", None, &dirs));
    assert!(!is_safe_path("\\\\?\\D:\\", "D:\\", None, &dirs));
    assert!(is_safe_path("D:\\cache\\x", "D:\\cache", None, &dirs));
}
