use system_cleaner::startup::{
    build_rule_index, ignore_set_from, lookup_boot_time_by_exe, lookup_startup_time, plan_remove,
    plan_toggle, registry_item, scheduled_tasks_from_output, sort_items, BootTime, ItemMeta,
    RatingContext, RemoveAction, RestoreTally, SortOrder, StartupItem, StartupRule, ToggleAction,
};

fn ctx() -> RatingContext {
    let rules = vec![StartupRule { name: "Updater".to_string(), rule_type: 4, target: "upd.exe".to_string() }];
    RatingContext {
        index: build_rule_index(&rules),
        ds_ark_white: Vec::new(),
        ignore: ignore_set_from(&vec!["hkcu_run_Other".to_string()]),
        boot: vec![
            BootTime { name: "UPD.exe".to_string(), millis: Some(1200) },
            BootTime { name: "x".to_string(), millis: None },
        ],
    }
}

#[test]
fn run_key_items_are_rated() {
    let c = ctx();
    let (it, meta) = registry_item(
        &c,
        "hkcu_run",
        "HKCU\\Software\\Microsoft\\Windows\\CurrentVersion\\Run",
        Some("HKCU\\Software\\Microsoft\\Windows\\CurrentVersion\\Explorer\\StartupApproved\\Run"),
        "Some App",
        "\"C:\\Apps\\upd.exe\" -silent",
        Some("03000000"),
    );
    assert_eq!(it.id, "hkcu_run_Some_App");
    assert_eq!(it.target, "C:\\Apps\\upd.exe");
    assert!(!it.enabled);
    assert_eq!(it.ban_rate, 70);
    assert_eq!(it.suggestion, "建议禁用");
    assert_eq!(it.startup_time, Some(1200));
    assert!(!it.ignored);
    match meta {
        ItemMeta::Registry { value_name, command, essential, .. } => {
            assert_eq!(value_name, "Some App");
            assert_eq!(command, "\"C:\\Apps\\upd.exe\" -silent");
            assert!(!essential);
        }
        _ => panic!("wrong meta"),
    }
    let (other, _) = registry_item(&c, "hkcu_run", "K", None, "Other", "notepad", None);
    assert!(other.enabled);
    assert!(other.ignored);
    assert_eq!(other.ban_rate, 30);
    assert_eq!(other.target, "notepad");
    assert_eq!(other.startup_time, None);
}

#[test]
fn boot_time_lookups() {
    let b = ctx().boot;
    assert_eq!(lookup_startup_time(&b, Some("x"), Some("C:\\a\\upd.exe")), None);
    assert_eq!(lookup_startup_time(&b, Some("nope"), Some("C:\\a\\upd.exe")), Some(1200));
    assert_eq!(lookup_boot_time_by_exe(&b, "D:\\UPD.EXE"), Some(1200));
    assert_eq!(lookup_boot_time_by_exe(&b, ""), None);
}

#[test]
fn scheduled_tasks_csv() {
    let out = "\"TaskName\",\"Next Run Time\",\"Status\",\"Scheduled Task State\",\"Task To Run\",\"Author\",\"Schedule Type\"\r\n\
\"\\Microsoft\\Windows\\Defrag\",\"N/A\",\"Ready\",\"Enabled\",\"defrag.exe\",\"Microsoft\",\"Weekly\"\r\n\
\"TaskName\",\"Next Run Time\",\"Status\",\"Scheduled Task State\",\"Task To Run\",\"Author\",\"Schedule Type\"\r\n\
\"\\MyTask\",\"N/A\",\"Ready\",\"禁用\",\"C:\\a.exe\",\"me\",\"At logon\"\r\n";
    let tasks = scheduled_tasks_from_output(out);
    assert_eq!(tasks.len(), 2);
    assert_eq!(tasks[0].name, "\\Microsoft\\Windows\\Defrag");
    assert!(tasks[0].is_microsoft);
    assert!(tasks[0].enabled);
    assert_eq!(tasks[1].command, "C:\\a.exe");
    assert_eq!(tasks[1].creator, "me");
    assert_eq!(tasks[1].trigger, "At logon");
    assert!(!tasks[1].enabled);
    assert!(!tasks[1].is_microsoft);
    assert!(scheduled_tasks_from_output("   ").is_empty());
    assert!(scheduled_tasks_from_output("\"TaskName\"\r\n").is_empty());
}

fn item(id: &str, enabled: bool, ban: u32, known: Option<bool>) -> StartupItem {
    StartupItem {
        id: id.to_string(),
        name: id.to_string(),
        desc: String::new(),
        icon: "app",
        ban_rate: ban,
        suggestion: "维持现状",
        enabled,
        source: "s".to_string(),
        target: String::new(),
        startup_time: None,
        ignored: false,
        can_toggle: true,
        known,
    }
}

fn ids(v: &Vec<StartupItem>) -> Vec<String> {
    v.iter().map(|i| i.id.clone()).collect()
}

#[test]
fn sorting_is_stable() {
    let items = vec![
        item("a", false, 80, None),
        item("b", true, 30, Some(true)),
        item("c", true, 80, Some(false)),
        item("d", true, 30, Some(true)),
    ];
    let copy = |v: &Vec<StartupItem>| v.iter().map(|i| item(&i.id, i.enabled, i.ban_rate, i.known)).collect::<Vec<_>>();
    assert_eq!(ids(&sort_items(copy(&items), SortOrder::EnabledThenBanRate)), vec!["c", "b", "d", "a"]);
    assert_eq!(ids(&sort_items(copy(&items), SortOrder::KnownThenBanRate)), vec!["b", "d", "a", "c"]);
    assert_eq!(ids(&sort_items(copy(&items), SortOrder::BanRate)), vec!["a", "c", "b", "d"]);
}

#[test]
fn toggles() {
    match plan_toggle(None, "zzz", true) {
        ToggleAction::Reply(r) => {
            assert!(!r.ok);
            assert_eq!(r.message, Some("unknown item: zzz".to_string()));
        }
        _ => panic!("unknown id toggled"),
    }
    let essential = ItemMeta::Task { task_name: "\\T".to_string(), essential: true };
    match plan_toggle(Some(&essential), "t", false) {
        ToggleAction::Reply(r) => assert_eq!(r.message, Some("系统关键组件，禁止禁用".to_string())),
        _ => panic!("essential item disabled"),
    }
    assert!(matches!(plan_toggle(Some(&essential), "t", true), ToggleAction::ChangeTask { flag: "/ENABLE", .. }));
    let svc = ItemMeta::Service { service_name: "S".to_string(), essential: false, start_type_code: 3 };
    assert!(matches!(plan_toggle(Some(&svc), "s", true), ToggleAction::SetServiceStartType { start_type: "Manual", .. }));
    assert!(matches!(plan_toggle(Some(&svc), "s", false), ToggleAction::SetServiceStartType { start_type: "Disabled", .. }));
    let run_once = ItemMeta::Registry {
        run_key: "K".to_string(),
        approved_key: None,
        value_name: "V".to_string(),
        command: "c".to_string(),
        essential: false,
    };
    match plan_toggle(Some(&run_once), "r", false) {
        ToggleAction::Reply(r) => assert_eq!(r.message, Some("runonce items cannot be toggled".to_string())),
        _ => panic!("runonce toggled"),
    }
    let run = ItemMeta::Registry {
        run_key: "K".to_string(),
        approved_key: Some("A".to_string()),
        value_name: "V".to_string(),
        command: "c".to_string(),
        essential: false,
    };
    match plan_toggle(Some(&run), "r", false) {
        ToggleAction::SetApproved { key, value_name, hex } => {
            assert_eq!(key, "A");
            assert_eq!(value_name, "V");
            assert_eq!(hex, "03000000000000000000");
        }
        _ => panic!("wrong action"),
    }
}

#[test]
fn removals() {
    let lnk = ItemMeta::StartupFolder { lnk_path: "C:\\S\\App.lnk".to_string(), essential: false };
    match plan_remove(Some(&lnk), "x") {
        RemoveAction::DeleteShortcut { paths } => {
            assert_eq!(paths, vec!["C:\\S\\App.lnk".to_string(), "C:\\S\\App.lnk.disabled".to_string()]);
        }
        _ => panic!("wrong action"),
    }
    let svc = ItemMeta::Service { service_name: "S".to_string(), essential: false, start_type_code: 2 };
    assert!(matches!(plan_remove(Some(&svc), "s"), RemoveAction::Reply(_)));
    let ess = ItemMeta::Registry {
        run_key: "K".to_string(),
        approved_key: None,
        value_name: "V".to_string(),
        command: "c".to_string(),
        essential: true,
    };
    match plan_remove(Some(&ess), "r") {
        RemoveAction::Reply(r) => assert_eq!(r.message, Some("系统关键组件，禁止删除".to_string())),
        _ => panic!("essential item removed"),
    }
    assert!(matches!(plan_remove(None, "q"), RemoveAction::Reply(_)));
}

#[test]
fn restore_tally() {
    let mut t = RestoreTally::new();
    t.record(true, true);
    t.record(true, false);
    t.record(false, true);
    assert_eq!((t.applied, t.skipped), (1, 2));
}

#[test]
fn listed_items_can_be_acted_on() {
    let c = ctx();
    let a = registry_item(&c, "hkcu_run", "K", None, "Alpha", "a.exe", None);
    let b = registry_item(&c, "hkcu_run", "K", None, "Beta", "b.exe", None);
    let mut metas = system_cleaner::keyed::KeyedStore::new();
    let items = system_cleaner::startup::remember_items(&mut metas, vec![a, b]);
    let ids: Vec<String> = items.iter().map(|i| i.id.clone()).collect();
    assert_eq!(ids, vec!["hkcu_run_Alpha".to_string(), "hkcu_run_Beta".to_string()]);
    for id in &ids {
        let meta = metas.get(id);
        assert!(meta.is_some());
        assert!(matches!(plan_remove(meta, id), RemoveAction::DeleteRegValue { .. }));
    }
    assert!(matches!(plan_remove(metas.get("nope"), "nope"), RemoveAction::Reply(_)));
}

#[test]
fn shown_list_is_sorted_and_known() {
    let c = ctx();
    let off = registry_item(&c, "hkcu_run", "K", None, "Off", "o.exe", Some("03000000"));
    let on = registry_item(&c, "hkcu_run", "K", None, "On", "n.exe", None);
    let mut metas = system_cleaner::keyed::KeyedStore::new();
    let items = system_cleaner::startup::show_list(&mut metas, vec![off, on], SortOrder::EnabledThenBanRate);
    assert_eq!(items.len(), 2);
    assert!(items[0].enabled && !items[1].enabled);
    for it in &items {
        assert!(metas.get(&it.id).is_some());
        assert!(matches!(plan_remove(metas.get(&it.id), &it.id), RemoveAction::DeleteRegValue { .. }));
    }
}
