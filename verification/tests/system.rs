use system_cleaner::elevate::{elevation_error, is_access_denied, wide};
use system_cleaner::exec::{command_outcome, timeout_message};
use system_cleaner::paths::{
    app_data, browser_cache_candidates, browser_cache_dirs, download_candidates,
    env_parts, expand_with, known_folders_from_output, local_app_data, program_data, program_files,
    program_files_x86, recycle_bins_from_output, resolve_template, system_root, temp_dir,
    windows_temp_dir,
};
use system_cleaner::process::{kill_args, kill_reply};
use system_cleaner::registry::{
    dword_data, list_values_from, normalize_root, parse_value_line, query_value_from, reg_add_args,
    run_keys, sub_keys_from,
};
use system_cleaner::service::{
    config_reply, plan_start_type, qc_info, query_reply, service_names, start_type_arg,
    start_type_name,
};

#[test]
fn env_folders_and_defaults() {
    assert_eq!(temp_dir(Some("D:\\T"), Some("C:\\Users\\A")), "D:\\T");
    assert_eq!(temp_dir(Some(""), Some("C:\\Users\\A")), "C:\\Users\\A\\AppData\\Local\\Temp");
    assert_eq!(temp_dir(None, None), "C:\\Temp");
    assert_eq!(windows_temp_dir(None), "C:\\Windows\\Temp");
    assert_eq!(windows_temp_dir(Some("D:\\Win")), "D:\\Win\\Temp");
    assert_eq!(local_app_data(None, Some("C:\\Users\\A")), "C:\\Users\\A\\AppData\\Local");
    assert_eq!(local_app_data(Some("E:\\L"), Some("C:\\Users\\A")), "E:\\L");
    assert_eq!(app_data(None, Some("C:\\Users\\A")), "C:\\Users\\A\\AppData\\Roaming");
    assert_eq!(system_root(None), "C:\\Windows");
    assert_eq!(program_files(None), "C:\\Program Files");
    assert_eq!(program_files_x86(None), "C:\\Program Files (x86)");
    assert_eq!(program_data(Some("D:\\PD")), "D:\\PD");
}

#[test]
fn browser_profile_folders() {
    let c = browser_cache_candidates("C:\\L");
    assert_eq!(c[0], "C:\\L\\Google\\Chrome\\User Data");
    assert_eq!(c[2], "C:\\L\\Mozilla\\Firefox\\Profiles");
    let dirs = browser_cache_dirs(&c, &vec![false, true, true]);
    assert_eq!(dirs, vec![c[1].clone(), c[2].clone()]);
}

#[test]
fn known_folders_need_nine_lines() {
    let out = "D\r\nDocs\r\n\r\nC:\\U\nA\nL\nPD\nPF\nS\nW\n";
    let k = known_folders_from_output(out);
    assert_eq!(k.len(), 9);
    assert_eq!(k[0], ("Desktop".to_string(), "D".to_string()));
    assert_eq!(k[2], ("UserProfile".to_string(), "C:\\U".to_string()));
    assert_eq!(k[8], ("Windows".to_string(), "W".to_string()));
    assert!(known_folders_from_output("a\nb\n").is_empty());
}

#[test]
fn recycle_bin_roots() {
    assert_eq!(
        recycle_bins_from_output("C:\\\r\n  D:\\  \r\n\r\n"),
        vec!["C:\\$Recycle.Bin".to_string(), "D:\\$Recycle.Bin".to_string()]
    );
}

fn expand_test_var(s: &str) -> String {
    let parts = env_parts(s);
    let values: Vec<String> = parts
        .iter()
        .map(|p| if p.is_var && p.text == "TEST_VAR" { "hello".to_string() } else { String::new() })
        .collect();
    expand_with(&parts, &values)
}

#[test]
fn test_env_expand() {
    assert_eq!(expand_test_var("%TEST_VAR%"), "hello");
    assert_eq!(expand_test_var("C:\\%TEST_VAR%\\world"), "C:\\hello\\world");
}

#[test]
fn env_expansion_is_one_pass() {
    // a value is not expanded again, an empty name is no variable, a lone % stays
    let parts = env_parts("%A%-%%B%-50%");
    let shape: Vec<(bool, String)> = parts.iter().map(|p| (p.is_var, p.text.clone())).collect();
    assert_eq!(
        shape,
        vec![
            (false, "".to_string()),
            (true, "A".to_string()),
            (false, "-%".to_string()),
            (false, "".to_string()),
            (true, "B".to_string()),
            (false, "-50%".to_string()),
        ]
    );
    let values: Vec<String> = parts
        .iter()
        .map(|p| if p.is_var && p.text == "A" { "%B%".to_string() } else if p.is_var { "b".to_string() } else { String::new() })
        .collect();
    assert_eq!(expand_with(&parts, &values), "%B%-%b-50%");
    assert_eq!(expand_test_var("no vars 50%"), "no vars 50%");
}

#[test]
fn templates_with_known_folders() {
    let known = vec![("Desktop".to_string(), "C:\\U\\Desktop".to_string())];
    assert_eq!(resolve_template("  {Desktop}\\x  ", &known), Some("C:\\U\\Desktop\\x".to_string()));
    assert_eq!(resolve_template("   ", &known), None);
    assert_eq!(resolve_template("{Other}\\y", &known), Some("{Other}\\y".to_string()));
}

#[test]
fn downloads_value_from_reg_query() {
    let out = "\r\nHKEY_CURRENT_USER\\Software\\x\r\n    {374DE290-123F-4565-9164-39C4925E467B}    REG_EXPAND_SZ    %USERPROFILE%\\Down loads\r\n";
    assert_eq!(download_candidates(out), vec!["%USERPROFILE%\\Down loads".to_string()]);
}

#[test]
fn registry_roots_and_values() {
    assert_eq!(normalize_root("HKLM\\Software\\X"), "HKEY_LOCAL_MACHINE\\Software\\X");
    assert_eq!(normalize_root("HKCU\\Run"), "HKEY_CURRENT_USER\\Run");
    assert_eq!(normalize_root("HKLMX\\a"), "HKLMX\\a");
    let v = parse_value_line("    OneDrive    REG_SZ    \"C:\\x\\OneDrive.exe\" /background").unwrap();
    assert_eq!(v.name, "OneDrive");
    assert_eq!(v.vtype, "REG_SZ");
    assert_eq!(v.value, "\"C:\\x\\OneDrive.exe\" /background");
    assert!(parse_value_line("HKEY_CURRENT_USER\\Run").is_none());
    assert!(parse_value_line("   ").is_none());
    let v = parse_value_line("    My App    REG_SZ    C:\\a.exe").unwrap();
    assert_eq!((v.name.as_str(), v.vtype.as_str(), v.value.as_str()), ("My App", "REG_SZ", "C:\\a.exe"));
    let v = parse_value_line("    (Default)    REG_SZ    x").unwrap();
    assert_eq!((v.name.as_str(), v.vtype.as_str(), v.value.as_str()), ("(Default)", "REG_SZ", "x"));
    let v = parse_value_line("    Flags    REG_MULTI_SZ").unwrap();
    assert_eq!((v.name.as_str(), v.vtype.as_str(), v.value.as_str()), ("Flags", "REG_MULTI_SZ", ""));
    assert!(parse_value_line("Name    REG_SZ    x").is_none());
    assert!(parse_value_line("    Name    REG_    x").is_none());
    let out = "\r\nHKEY_CURRENT_USER\\Run\r\n    A    REG_SZ    a.exe\r\n    B    REG_DWORD    0x1\r\n";
    let vals = list_values_from(out);
    assert_eq!(vals.len(), 2);
    assert_eq!(vals[1].value, "0x1");
    assert_eq!(query_value_from(out, "B").unwrap().vtype, "REG_DWORD");
    assert!(query_value_from(out, "C").is_none());
}

#[test]
fn registry_sub_keys_and_writes() {
    let out = "\r\nHKEY_LOCAL_MACHINE\\Software\\X\r\nHKEY_LOCAL_MACHINE\\Software\\X\\A\r\nHKEY_LOCAL_MACHINE\\Software\\X\\B\\C\r\nHKEY_LOCAL_MACHINE\\Software\\XY\r\n";
    assert_eq!(sub_keys_from("HKLM\\Software\\X", out), vec!["A".to_string(), "B\\C".to_string()]);
    let rk = run_keys();
    assert_eq!(rk[0].0, "hkcu_run");
    assert_eq!(
        reg_add_args("HKCU\\K", "N", "REG_DWORD", &dword_data(200)),
        vec!["add", "HKCU\\K", "/v", "N", "/t", "REG_DWORD", "/d", "200", "/f"]
    );
    assert_eq!(dword_data(0), "0");
    assert_eq!(dword_data(4294967295), "4294967295");
}

#[test]
fn service_start_types() {
    assert_eq!(start_type_arg("Manual"), Some("demand"));
    assert_eq!(start_type_arg("manual"), None);
    match plan_start_type("winlogon", "Auto") {
        Err(e) => {
            assert!(!e.ok);
            assert_eq!(e.code, -1);
            assert_eq!(e.message, "Protected service: winlogon");
        }
        Ok(_) => panic!("protected service accepted"),
    }
    match plan_start_type("mysvc", "Sometimes") {
        Err(e) => assert_eq!(e.message, "Invalid start type"),
        Ok(_) => panic!("bad start type accepted"),
    }
    assert_eq!(plan_start_type("mysvc", "Disabled").ok(), Some("disabled"));
    assert_eq!(start_type_name(4), Some("DISABLED"));
    assert_eq!(start_type_name(7), None);
}

#[test]
fn sc_replies() {
    let ok = config_reply("[SC] ChangeServiceConfig SUCCESS");
    assert!(ok.ok);
    assert_eq!(ok.code, 0);
    let bad = config_reply("[SC] OpenService FAILED 5:");
    assert!(!bad.ok);
    assert_eq!(bad.code, 1);
    let st = query_reply("x", "SERVICE_NAME: wuauserv\r\n        TYPE               : 20  WIN32_SHARE_PROCESS\r\n        STATE              : 4  RUNNING\r\n").unwrap();
    assert_eq!(st.name, "wuauserv");
    assert_eq!(st.state, "RUNNING");
    assert_eq!(st.state_code, 4);
    assert!(st.running);
    assert!(query_reply("x", "[SC] EnumQueryServicesStatus:OpenService FAILED 1060:").is_none());
    let names = service_names("SERVICE_NAME: a\r\nDISPLAY_NAME: A\r\n\r\nSERVICE_NAME: b\r\n");
    assert_eq!(names, vec!["a".to_string(), "b".to_string()]);
    let info = qc_info(Some("        START_TYPE         : 2   AUTO_START\r\n        BINARY_PATH_NAME   : C:\\x.exe -k  \r\n"));
    assert_eq!(info.start_type, Some("AUTO_START".to_string()));
    assert_eq!(info.start_type_code, Some(2));
    assert_eq!(info.binary_path, Some("C:\\x.exe -k".to_string()));
    let none = qc_info(None);
    assert!(none.start_type.is_none() && none.binary_path.is_none());
}

#[test]
fn elevation_helpers() {
    assert!(is_access_denied("Access is denied."));
    assert!(is_access_denied("错误: 拒绝访问。"));
    assert!(is_access_denied("failed (os error 5)"));
    assert!(!is_access_denied("file not found"));
    assert_eq!(wide("A中"), vec![0x41, 0x4E2D, 0]);
    assert_eq!(wide("😀"), vec![0xD83D, 0xDE00, 0]);
    assert_eq!(elevation_error(1223), "用户取消了管理员授权");
    assert_eq!(elevation_error(2), "提权启动失败 (Win32 error 2)");
}

#[test]
fn test_run_outcomes() {
    assert_eq!(command_outcome("hello\r\n", "", true), Ok("hello\r\n".to_string()));
    assert_eq!(command_outcome(" out ", "  err \n", false), Err("err".to_string()));
    assert_eq!(command_outcome(" out ", "   ", false), Err("out".to_string()));
    assert_eq!(
        timeout_message("reg", &vec!["query".to_string(), "HKCU\\Run".to_string()]),
        "Command timed out: reg query HKCU\\Run"
    );
}

#[test]
fn taskkill_replies() {
    let r = kill_reply("SUCCESS: The process with PID 5 has been terminated.");
    assert!(r.ok);
    assert_eq!(r.code, 0);
    let z = kill_reply("成功: 已终止 PID 为 5 的进程。");
    assert!(z.ok);
    let f = kill_reply("ERROR: The process \"5\" not found.");
    assert!(!f.ok);
    assert_eq!(f.code, 1);
    assert_eq!(kill_args(1234), vec!["/PID".to_string(), "1234".to_string(), "/F".to_string()]);
}
