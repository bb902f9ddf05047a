use system_cleaner::startup::{
    backup_dir, backup_file_name, backup_listing, build_rule_index, compute_ban_rate,
    compute_ban_rate_export, compute_suggestion, compute_suggestion_export,
    extract_exe_from_command, extract_exe_from_command_export, extract_rule_target,
    ignore_file_path, ignore_set_from, is_default_value_name, is_system_essential, match_rule,
    match_rule_export, parse_csv, parse_csv_export, regex_captures, regex_is_match, sanitize_id,
    sanitize_id_export, shortcut_name, with_extension, StartupRule, StringSet,
};

fn rule(name: &str, t: u64, target: &str) -> StartupRule {
    StartupRule { name: name.to_string(), rule_type: t, target: target.to_string() }
}

#[test]
fn sanitize_ids() {
    assert_eq!(sanitize_id("__Hello  World!!__"), "Hello_World");
    assert_eq!(sanitize_id("a-b_c"), "a-b_c");
    assert_eq!(sanitize_id("HKCU\\Run\\App"), "HKCU_Run_App");
    assert_eq!(sanitize_id("中文"), "");
    assert_eq!(sanitize_id_export("x y".to_string()), "x_y");
    let once = sanitize_id("  C:\\Program Files\\a.exe ");
    assert_eq!(sanitize_id(&once), once);
}

#[test]
fn suggestions() {
    assert_eq!(compute_suggestion(70, false), "建议禁用");
    assert_eq!(compute_suggestion(60, false), "建议禁用");
    assert_eq!(compute_suggestion(10, false), "建议开启");
    assert_eq!(compute_suggestion(30, false), "维持现状");
    assert_eq!(compute_suggestion(90, true), "维持现状");
    assert_eq!(compute_suggestion_export(5, false), "建议开启");
}

#[test]
fn ban_rates() {
    assert_eq!(compute_ban_rate(Some(4), true), 85);
    assert_eq!(compute_ban_rate(Some(4), false), 70);
    assert_eq!(compute_ban_rate(None, true), 30);
    assert_eq!(compute_ban_rate(None, false), 15);
    assert_eq!(compute_ban_rate(Some(2), false), 0);
    assert_eq!(compute_ban_rate(Some(99), true), 30);
    assert_eq!(compute_ban_rate(Some(11), true), 60);
    assert_eq!(compute_ban_rate_export(Some(16), true), 75);
}

#[test]
fn essential_components() {
    let white = vec!["myav".to_string()];
    assert!(is_system_essential(None, "service", "winlogon", &white));
    assert!(is_system_essential(Some(2), "registry", "x", &white));
    assert!(is_system_essential(Some(9), "registry", "x", &white));
    assert!(is_system_essential(None, "service", "MyAV", &white));
    assert!(!is_system_essential(None, "registry", "MyAV", &white));
    assert!(!is_system_essential(Some(4), "service", "other", &white));
}

#[test]
fn default_value_names() {
    assert!(is_default_value_name("(Default)"));
    assert!(is_default_value_name("  (默认) "));
    assert!(!is_default_value_name("Default"));
}

#[test]
fn exe_from_command() {
    assert_eq!(
        extract_exe_from_command("\"C:\\Program Files\\App\\app.exe\" --min"),
        Some("C:\\Program Files\\App\\app.exe".to_string())
    );
    assert_eq!(extract_exe_from_command("C:\\Tools\\run.exe -x"), Some("C:\\Tools\\run.exe".to_string()));
    assert_eq!(extract_exe_from_command("rundll32.exe shell32.dll"), Some("rundll32.exe".to_string()));
    assert_eq!(extract_exe_from_command(""), None);
    assert_eq!(extract_exe_from_command("notepad"), None);
    assert_eq!(extract_exe_from_command_export("x \"a.txt\" b.EXE".to_string()), Some("b.EXE".to_string()));
}

#[test]
fn captures_of_the_two_patterns() {
    assert_eq!(
        regex_captures("\"([^\"]+\\.exe)\"", "x \"a.txt\" \"b.exe\""),
        Some(vec!["\"b.exe\"".to_string(), "b.exe".to_string()])
    );
    assert_eq!(
        regex_captures("([A-Za-z]:\\\\[^\"]*?\\.exe)", "run D:\\x\\y.exe now"),
        Some(vec!["D:\\x\\y.exe".to_string(), "D:\\x\\y.exe".to_string()])
    );
    assert_eq!(regex_captures("other", "\"a.exe\""), None);
}

#[test]
fn simple_regex_match() {
    assert!(regex_is_match("(?i)update|sync", "MyUpdater"));
    assert!(!regex_is_match("Update", "updater"));
    assert!(regex_is_match("a|b", "xbx"));
    assert!(!regex_is_match("a|b", "xyz"));
}

#[test]
fn csv_rows() {
    assert_eq!(
        parse_csv("a,\"b,c\"\r\n\"d\"\"e\",f"),
        vec![vec!["a".to_string(), "b,c".to_string()], vec!["d\"e".to_string(), "f".to_string()]]
    );
    assert_eq!(parse_csv("a,b\n"), vec![vec!["a".to_string(), "b".to_string()]]);
    assert!(parse_csv("").is_empty());
    assert_eq!(parse_csv_export("x".to_string()), vec![vec!["x".to_string()]]);
}

#[test]
fn rule_targets() {
    assert_eq!(extract_rule_target(&rule("a", 1, "foo, bar.dll ,x")), "bar.dll");
    assert_eq!(extract_rule_target(&rule("a", 1, "a, b")), "b");
    assert_eq!(extract_rule_target(&rule("a", 1, "a")), "");
    assert_eq!(extract_rule_target(&rule("a", 5, "  x.exe ")), "x.exe");
}

#[test]
fn rule_index_first_rule_wins() {
    let rules = vec![rule("Foo", 4, "foo.exe"), rule("foo", 16, "FOO.EXE"), rule("b", 2, "bar.exe")];
    let idx = build_rule_index(&rules);
    let by_exe = match_rule(&idx, None, Some("D:\\apps\\FOO.EXE")).unwrap();
    assert_eq!(by_exe.rule_type, 4);
    let by_name = match_rule(&idx, Some("FOO"), None).unwrap();
    assert_eq!(by_name.rule_type, 4);
    assert!(match_rule(&idx, Some("b"), None).is_none());
    assert_eq!(match_rule(&idx, Some("b"), Some("C:\\bar.exe")).unwrap().name, "b");
    assert!(match_rule(&idx, Some("zzz"), Some("zzz.exe")).is_none());
    let owned = match_rule_export(idx, Some("foo".to_string()), None).unwrap();
    assert_eq!(owned.target, "foo.exe");
}

#[test]
fn ignore_set_read_back() {
    let mut s = StringSet::new();
    assert!(!s.contains("a"));
    s.set_ignored("a", true);
    s.set_ignored("a", true);
    s.set_ignored("b", true);
    assert!(s.contains("a"));
    assert_eq!(s.to_vec().len(), 2);
    s.set_ignored("a", false);
    assert!(!s.contains("a"));
    assert!(s.contains("b"));
    let from = ignore_set_from(&vec!["x".to_string(), "x".to_string()]);
    assert!(from.contains("x"));
    assert_eq!(from.to_vec().len(), 1);
}

#[test]
fn disabled_shortcut_names() {
    assert_eq!(with_extension("C:\\S\\App.lnk", "lnk.disabled"), "C:\\S\\App.lnk.disabled");
    assert_eq!(with_extension("C:\\S\\a.b.lnk", "x"), "C:\\S\\a.b.x");
    assert_eq!(shortcut_name("App.LNK"), Some("App".to_string()));
    assert_eq!(shortcut_name("App.lnk"), Some("App".to_string()));
    assert_eq!(shortcut_name("App.exe"), None);
}

#[test]
fn backup_files() {
    assert_eq!(backup_file_name(1700000000123), "startup_1700000000123.json");
    let names = vec![
        "startup_1.json".to_string(),
        "notes.txt".to_string(),
        "startup_3.json".to_string(),
        "startup_2.json".to_string(),
    ];
    assert_eq!(
        backup_listing(&names),
        vec!["startup_3.json".to_string(), "startup_2.json".to_string(), "startup_1.json".to_string()]
    );
    assert_eq!(backup_dir("C:\\R"), "C:\\R\\com.opencode.systemcleaner\\startup_backups");
    assert_eq!(ignore_file_path("C:\\R"), "C:\\R\\com.opencode.systemcleaner\\startup_ignore.json");
}

#[test]
fn csv_quoted_rows_read_back() {
    let rows = vec![
        vec!["a,b".to_string(), "c\"d".to_string()],
        vec!["x\ny".to_string()],
        vec!["".to_string(), "r\r".to_string()],
    ];
    let mut text = String::new();
    for row in &rows {
        let fields: Vec<String> = row.iter().map(|f| format!("\"{}\"", f.replace('"', "\"\""))).collect();
        text.push_str(&fields.join(","));
        text.push('\n');
    }
    assert_eq!(parse_csv(&text), rows);
}
