//! Scan bookkeeping: the supersede/cancel state shared by scans, the
//! registry of scan results, group definitions and fixes, and the rules
//! that turn what a scan found into items and fixes.

use vstd::prelude::*;
use crate::text::{chars_of, string_of, append_chars, spec_decimal, pad_left, zero_padded, trim_start_char};
use crate::rules_engine::string_views;
use crate::keyed::KeyedStore;
use crate::clean_executor::clone_strings;

verus! {

/// The key a scan passes to `is_cancelled_now` when it has no scan key of
/// its own: only the cancel flag is consulted for it.
pub const NO_SCAN_KEY: u64 = 0xffff_ffff_ffff_ffffu64;

/// The state shared by the scans: the current scan key (each new clean scan
/// takes the next one and so supersedes the others), the cancel flag and
/// the running flag.
pub struct ScanControl {
    pub scan_key: u64,
    pub cancelled: bool,
    pub running: bool,
}

impl ScanControl {
    pub fn new() -> (r: ScanControl)
        ensures
            r.scan_key == 0 && !r.cancelled && !r.running,
    {
        ScanControl { scan_key: 0, cancelled: false, running: false }
    }

    /// Takes the next scan key (wrapping at the top of the range) and
    /// returns it.
    pub fn begin_clean_scan(&mut self) -> (k: u64)
        ensures
            k == (if old(self).scan_key == u64::MAX { 0 } else { old(self).scan_key + 1 }),
            final(self).scan_key == k,
            final(self).cancelled == old(self).cancelled,
            final(self).running == old(self).running,
    {
        self.scan_key = self.scan_key.wrapping_add(1);
        self.scan_key
    }

    /// Sets the cancel flag.
    pub fn cancel(&mut self)
        ensures
            final(self).cancelled,
            final(self).scan_key == old(self).scan_key,
            final(self).running == old(self).running,
    {
        self.cancelled = true;
    }

    pub fn is_running(&self) -> (r: bool)
        ensures
            r == self.running,
    {
        self.running
    }

    pub fn set_running(&mut self, v: bool)
        ensures
            final(self).running == v,
            final(self).scan_key == old(self).scan_key,
            final(self).cancelled == old(self).cancelled,
    {
        self.running = v;
    }

    /// A scan starts: the cancel flag is cleared and the running flag set.
    pub fn start_scan(&mut self)
        ensures
            !final(self).cancelled,
            final(self).running,
            final(self).scan_key == old(self).scan_key,
    {
        self.cancelled = false;
        self.running = true;
    }

    pub open spec fn spec_cancelled_now(&self, scan_key: u64) -> bool {
        if scan_key == NO_SCAN_KEY {
            self.cancelled
        } else {
            self.cancelled || scan_key != self.scan_key
        }
    }

    /// Whether the scan holding `scan_key` should stop: the cancel flag is
    /// set, or (for a real key) a newer scan took over.
    pub fn is_cancelled_now(&self, scan_key: u64) -> (r: bool)
        ensures
            r == self.spec_cancelled_now(scan_key),
    {
        if scan_key == NO_SCAN_KEY {
            return self.cancelled;
        }
        self.cancelled || scan_key != self.scan_key
    }

    /// The answer of the probe a directory walk polls: the cancel flag is set
    /// or `scan_key` is no longer current (no special key here).
    pub fn is_cancelled_box(&self, scan_key: u64) -> (r: bool)
        ensures
            r == (self.cancelled || scan_key != self.scan_key),
    {
        self.cancelled || scan_key != self.scan_key
    }
}

/// A new clean scan supersedes every other one: right after it takes its
/// key, any other real key reads as cancelled.
pub proof fn law_new_scan_supersedes(before: ScanControl, after: ScanControl, k: u64, other: u64)
    requires
        k == (if before.scan_key == u64::MAX { 0 } else { before.scan_key + 1 }),
        after.scan_key == k,
        other != k,
        other != NO_SCAN_KEY,
    ensures
        after.spec_cancelled_now(other),
{
}

/// The current scan runs on until it is cancelled or superseded.
pub proof fn law_current_scan_continues(c: ScanControl)
    requires
        !c.cancelled,
    ensures
        !c.spec_cancelled_now(c.scan_key),
        !c.spec_cancelled_now(NO_SCAN_KEY),
{
}

/// Cancelling stops every scan, keyed or not.
pub proof fn law_cancel_stops_all(c: ScanControl, k: u64)
    requires
        c.cancelled,
    ensures
        c.spec_cancelled_now(k),
{
}

/// The registry key of an item's file list: `{group}:{item}`.
pub open spec fn result_key(group_id: Seq<char>, item_id: Seq<char>) -> Seq<char> {
    group_id + seq![':'] + item_id
}

pub fn result_key_exec(group_id: &str, item_id: &str) -> (r: String)
    ensures
        r@ == result_key(group_id@, item_id@),
{
    let mut k = chars_of(group_id);
    k.push(':');
    let i = chars_of(item_id);
    append_chars(&mut k, &i);
    string_of(&k)
}

} // verus!

verus! {

/// A registry value a fix writes.
#[derive(Clone)]
pub enum RegData {
    Dword(u32),
    Text(String),
    Binary(Vec<u8>),
}

/// What a fix acts on.
#[derive(Clone)]
pub enum FixTarget {
    Null,
    Registry { key_path: String, value_name: String, data: RegData },
    Task { task_name: String },
    Pid(u64),
    Name(String),
}

/// A speed-up suggestion found by a scan.
pub struct Fix {
    pub id: String,
    pub name: String,
    pub detail: String,
    pub action: String,
    pub target: FixTarget,
    pub risky: bool,
    pub suggestion: String,
}

/// A fix as the registry keeps it: with the category it was found in.
pub struct StoredFix {
    pub fix: Fix,
    pub category: String,
}

/// A clean group: what to scan and how its items are cleaned.
pub struct GroupDef {
    pub group_id: String,
    pub group_name: String,
    pub icon: String,
    pub category: String,
    pub checked: bool,
    pub risky: bool,
    pub kind: String,
    pub action: String,
    /// `Some(None)` is an explicit null root (the recycle bin group).
    pub allowed_root: Option<Option<String>>,
    pub dirs: Option<Vec<String>>,
    pub min_age_days: Option<u64>,
    pub max_depth: Option<u64>,
    pub ext_filter: Option<String>,
    pub dir: Option<String>,
    pub pattern: Option<String>,
    pub desc: Option<String>,
    pub list_only: bool,
}

/// One entry a clean scan reports under a group.
pub struct ScanItem {
    pub id: String,
    pub name: String,
    pub desc: String,
    pub size: u64,
    pub count: u64,
    pub path: String,
    pub safe: bool,
    pub checked: bool,
    pub risky: bool,
}

/// `fix_` followed by the number, at least three digits.
pub open spec fn fix_id_text(n: nat) -> Seq<char> {
    "fix_"@ + pad_left(spec_decimal(n), 3, '0')
}

pub fn fix_id(n: u32) -> (r: String)
    ensures
        r@ == fix_id_text(n as nat),
{
    proof {
        reveal_strlit("fix_");
    }
    let mut v = chars_of("fix_");
    let d = zero_padded(n as u64, 3);
    append_chars(&mut v, &d);
    string_of(&v)
}

/// What scans record for later steps: each item's file list, the group
/// definitions, and the fixes by id.
pub struct ScanRegistry {
    pub results: KeyedStore<Vec<String>>,
    pub group_defs: KeyedStore<GroupDef>,
    pub fixes: KeyedStore<StoredFix>,
}

impl ScanRegistry {
    pub open spec fn wf(&self) -> bool {
        self.results.wf() && self.group_defs.wf() && self.fixes.wf()
    }

    pub fn new() -> (r: ScanRegistry)
        ensures
            r.wf(),
            r.results@ == Map::<Seq<char>, Vec<String>>::empty(),
            r.group_defs@ == Map::<Seq<char>, GroupDef>::empty(),
            r.fixes@ == Map::<Seq<char>, StoredFix>::empty(),
    {
        ScanRegistry { results: KeyedStore::new(), group_defs: KeyedStore::new(), fixes: KeyedStore::new() }
    }

    /// Records the files found for an item.
    pub fn record_scan_files(&mut self, group_id: &str, item_id: &str, files: Vec<String>)
        requires
            old(self).wf(),
        ensures
            final(self).wf(),
            final(self).results@ == old(self).results@.insert(result_key(group_id@, item_id@), files),
            final(self).group_defs@ == old(self).group_defs@,
            final(self).fixes@ == old(self).fixes@,
    {
        let k = result_key_exec(group_id, item_id);
        self.results.insert(k, files);
    }

    /// The files recorded for an item, if any.
    pub fn get_scan_files(&self, group_id: &str, item_id: &str) -> (r: Option<Vec<String>>)
        requires
            self.wf(),
        ensures
            r is Some <==> self.results@.dom().contains(result_key(group_id@, item_id@)),
            r matches Some(v) ==> string_views(v@) == string_views(
                self.results@[result_key(group_id@, item_id@)]@,
            ),
    {
        let k = result_key_exec(group_id, item_id);
        match self.results.get(k.as_str()) {
            Some(v) => Some(clone_strings(v)),
            None => None,
        }
    }

    /// Records a group definition under its id.
    pub fn record_group_def(&mut self, def: GroupDef)
        requires
            old(self).wf(),
        ensures
            final(self).wf(),
            final(self).group_defs@ == old(self).group_defs@.insert(def.group_id@, def),
            final(self).results@ == old(self).results@,
            final(self).fixes@ == old(self).fixes@,
    {
        let k = string_of(&chars_of(def.group_id.as_str()));
        self.group_defs.insert(k, def);
    }

    pub fn get_group_def(&self, group_id: &str) -> (r: Option<&GroupDef>)
        requires
            self.wf(),
        ensures
            r is Some <==> self.group_defs@.dom().contains(group_id@),
            r matches Some(d) ==> *d == self.group_defs@[group_id@],
    {
        self.group_defs.get(group_id)
    }

    pub fn get_fix(&self, fix_id: &str) -> (r: Option<&StoredFix>)
        requires
            self.wf(),
        ensures
            r is Some <==> self.fixes@.dom().contains(fix_id@),
            r matches Some(f) ==> *f == self.fixes@[fix_id@],
    {
        self.fixes.get(fix_id)
    }

    /// Numbers a fix (`fix_001`, `fix_002`, ...), records it with its
    /// category, and returns its id.
    pub fn assign_fix(&mut self, counter: &mut u32, category: &str, base: Fix) -> (id: String)
        requires
            old(self).wf(),
            *old(counter) < u32::MAX,
        ensures
            final(self).wf(),
            *final(counter) == *old(counter) + 1,
            id@ == fix_id_text(*final(counter) as nat),
            final(self).fixes@.dom() == old(self).fixes@.dom().insert(id@),
            final(self).fixes@[id@].category@ == category@,
            final(self).fixes@[id@].fix.id@ == id@,
            final(self).fixes@[id@].fix.name == base.name,
            final(self).fixes@[id@].fix.detail == base.detail,
            final(self).fixes@[id@].fix.action == base.action,
            final(self).fixes@[id@].fix.target == base.target,
            final(self).fixes@[id@].fix.risky == base.risky,
            final(self).fixes@[id@].fix.suggestion == base.suggestion,
            forall|k: Seq<char>|
                k != id@ && old(self).fixes@.dom().contains(k) ==> final(self).fixes@[k]
                    == old(self).fixes@[k],
            final(self).results@ == old(self).results@,
            final(self).group_defs@ == old(self).group_defs@,
    {
        *counter = *counter + 1;
        let id = fix_id(*counter);
        let mut fix = base;
        fix.id = string_of(&chars_of(id.as_str()));
        let stored = StoredFix { fix, category: string_of(&chars_of(category)) };
        let key = string_of(&chars_of(id.as_str()));
        self.fixes.insert(key, stored);
        id
    }

    /// A clean scan starts afresh: recorded files and group definitions are
    /// dropped.
    pub fn clear_clean_results(&mut self)
        requires
            old(self).wf(),
        ensures
            final(self).wf(),
            final(self).results@ == Map::<Seq<char>, Vec<String>>::empty(),
            final(self).group_defs@ == Map::<Seq<char>, GroupDef>::empty(),
            final(self).fixes@ == old(self).fixes@,
    {
        self.results.clear();
        self.group_defs.clear();
    }

    /// A speed-up scan starts afresh: recorded fixes are dropped.
    pub fn clear_fixes(&mut self)
        requires
            old(self).wf(),
        ensures
            final(self).wf(),
            final(self).fixes@ == Map::<Seq<char>, StoredFix>::empty(),
            final(self).results@ == old(self).results@,
            final(self).group_defs@ == old(self).group_defs@,
    {
        self.fixes.clear();
    }
}

/// What was recorded for an item is what a later lookup returns, and
/// recording one item leaves every other item's files as they were.
pub proof fn law_recorded_files_read_back(
    before: Map<Seq<char>, Vec<String>>,
    group_id: Seq<char>,
    item_id: Seq<char>,
    files: Vec<String>,
    other: Seq<char>,
)
    requires
        other != result_key(group_id, item_id),
    ensures
        before.insert(result_key(group_id, item_id), files)[result_key(group_id, item_id)] == files,
        before.insert(result_key(group_id, item_id), files).dom().contains(other)
            == before.dom().contains(other),
        before.dom().contains(other) ==> before.insert(result_key(group_id, item_id), files)[other]
            == before[other],
{
}

} // verus!

verus! {

/// A registry value's data, as a value.
pub enum RegDataView {
    Dword(u32),
    Text(Seq<char>),
    Binary(Seq<u8>),
}

/// What a fix acts on, as a value.
pub enum TargetView {
    Null,
    Registry(Seq<char>, Seq<char>, RegDataView),
    Task(Seq<char>),
    Pid(u64),
    Name(Seq<char>),
}

pub open spec fn target_view(t: FixTarget) -> TargetView {
    match t {
        FixTarget::Null => TargetView::Null,
        FixTarget::Registry { key_path, value_name, data } => TargetView::Registry(
            key_path@,
            value_name@,
            match data {
                RegData::Dword(v) => RegDataView::Dword(v),
                RegData::Text(s) => RegDataView::Text(s@),
                RegData::Binary(b) => RegDataView::Binary(b@),
            },
        ),
        FixTarget::Task { task_name } => TargetView::Task(task_name@),
        FixTarget::Pid(p) => TargetView::Pid(p),
        FixTarget::Name(n) => TargetView::Name(n@),
    }
}

/// A fix as a value: name, detail, action, target, risky, suggestion.
pub type FixView = (Seq<char>, Seq<char>, Seq<char>, TargetView, bool, Seq<char>);

pub open spec fn fix_view(f: Fix) -> FixView {
    (f.name@, f.detail@, f.action@, target_view(f.target), f.risky, f.suggestion@)
}

fn copy_u8s(b: &Vec<u8>) -> (r: Vec<u8>)
    ensures
        r@ == b@,
{
    let mut r: Vec<u8> = Vec::new();
    let mut i: usize = 0;
    while i < b.len()
        invariant
            i <= b.len(),
            r@ == b@.take(i as int),
        decreases b.len() - i,
    {
        r.push(b[i]);
        i += 1;
        assert(r@ =~= b@.take(i as int));
    }
    assert(b@.take(b.len() as int) =~= b@);
    r
}

impl FixTarget {
    pub fn copy(&self) -> (r: FixTarget)
        ensures
            target_view(r) == target_view(*self),
    {
        match self {
            FixTarget::Null => FixTarget::Null,
            FixTarget::Registry { key_path, value_name, data } => FixTarget::Registry {
                key_path: key_path.clone(),
                value_name: value_name.clone(),
                data: match data {
                    RegData::Dword(v) => RegData::Dword(*v),
                    RegData::Text(s) => RegData::Text(s.clone()),
                    RegData::Binary(b) => RegData::Binary(copy_u8s(b)),
                },
            },
            FixTarget::Task { task_name } => FixTarget::Task { task_name: task_name.clone() },
            FixTarget::Pid(p) => FixTarget::Pid(*p),
            FixTarget::Name(n) => FixTarget::Name(n.clone()),
        }
    }
}

impl Fix {
    pub fn copy(&self) -> (r: Fix)
        ensures
            fix_view(r) == fix_view(*self),
            r.id@ == self.id@,
    {
        Fix {
            id: self.id.clone(),
            name: self.name.clone(),
            detail: self.detail.clone(),
            action: self.action.clone(),
            target: self.target.copy(),
            risky: self.risky,
            suggestion: self.suggestion.clone(),
        }
    }
}

/// A fix with no id yet.
pub fn new_fix(name: String, detail: String, action: &str, target: FixTarget, risky: bool, suggestion: &str) -> (f: Fix)
    ensures
        fix_view(f) == (name@, detail@, action@, target_view(target), risky, suggestion@),
        f.id@ == Seq::<char>::empty(),
{
    Fix {
        id: String::new(),
        name,
        detail,
        action: action.to_string(),
        target,
        risky,
        suggestion: suggestion.to_string(),
    }
}

/// Numbers a found fix, records it under its category, and hands back the
/// numbered fix for the list.
pub fn record_fix(reg: &mut ScanRegistry, counter: &mut u32, category: &str, base: Fix) -> (f: Fix)
    requires
        old(reg).wf(),
        *old(counter) < u32::MAX,
    ensures
        final(reg).wf(),
        *final(counter) == *old(counter) + 1,
        f.id@ == fix_id_text(*final(counter) as nat),
        fix_view(f) == fix_view(base),
        final(reg).fixes@.dom() == old(reg).fixes@.dom().insert(f.id@),
        final(reg).fixes@[f.id@].category@ == category@,
        fix_view(final(reg).fixes@[f.id@].fix) == fix_view(base),
        final(reg).results@ == old(reg).results@,
        final(reg).group_defs@ == old(reg).group_defs@,
{
    let mut out = base.copy();
    let id = reg.assign_fix(counter, category, base);
    out.id = id;
    out
}

/// The value of a registry query read as a whole number: its data
/// trimmed and parsed (`None` where there is no value or it is no number).
pub open spec fn reg_number(v: Option<Seq<char>>) -> Option<i64> {
    match v {
        Some(s) => crate::text::spec_parse_i64(crate::text::trim_ws(s)),
        None => None,
    }
}

pub fn reg_i64(v: Option<&str>) -> (r: Option<i64>)
    ensures
        r == reg_number(crate::rules_engine::opt_view(v)),
{
    match v {
        Some(s) => crate::text::parse_i64(&crate::text::trim(&chars_of(s))),
        None => None,
    }
}

/// The five settings the Windows 11 category checks, in order: menu delay,
/// application and service shut-down waits, hibernation, visual effects.
pub open spec fn win11_triggered(k: int, v: Option<i64>) -> bool {
    if k == 0 {
        (match v { Some(x) => x, None => 0 }) > 200
    } else if k == 1 || k == 2 {
        (match v { Some(x) => x, None => 0 }) > 5000
    } else if k == 3 {
        (match v { Some(x) => x, None => 0 }) == 1
    } else {
        (match v { Some(x) => x, None => 2 }) != 2
    }
}

/// When each Windows 11 check proposes its fix, for any value read: a menu
/// delay above 200 ms; an application or a service shut-down wait above
/// 5000 ms; hibernation on (1); a visual-effects setting other than best
/// performance (2). A value that could not be read proposes nothing. The
/// three delay fixes set the value to the threshold itself.
pub proof fn law_win11_thresholds(x: i64)
    ensures
        win11_triggered(0, Some(x)) <==> x > 200,
        win11_triggered(1, Some(x)) <==> x > 5000,
        win11_triggered(2, Some(x)) <==> x > 5000,
        win11_triggered(3, Some(x)) <==> x == 1,
        win11_triggered(4, Some(x)) <==> x != 2,
        forall|k: int| 0 <= k < 5 ==> !win11_triggered(k, None),
        win11_fix_view(0).3 == TargetView::Registry("HKCU\\Control Panel\\Desktop"@, "MenuShowDelay"@, RegDataView::Dword(200)),
        win11_fix_view(1).3 == TargetView::Registry("HKCU\\Control Panel\\Desktop"@, "WaitToKillAppTimeout"@, RegDataView::Dword(5000)),
        win11_fix_view(2).0 == "缩短服务关闭等待时间"@,
        win11_fix_view(2).3 == TargetView::Registry(
            "HKLM\\SYSTEM\\CurrentControlSet\\Control"@,
            "WaitToKillServiceTimeout"@,
            RegDataView::Dword(5000),
        ),
{
}

/// The fix each Windows 11 check proposes.
pub open spec fn win11_fix_view(k: int) -> FixView {
    if k == 0 {
        ("优化菜单显示延迟"@, "菜单弹出延迟过高，影响操作响应速度"@, "reg_set"@,
            TargetView::Registry("HKCU\\Control Panel\\Desktop"@, "MenuShowDelay"@, RegDataView::Dword(200)),
            false, "建议优化"@)
    } else if k == 1 {
        ("缩短程序关闭等待时间"@, "关机时等待程序退出的时间过长"@, "reg_set"@,
            TargetView::Registry("HKCU\\Control Panel\\Desktop"@, "WaitToKillAppTimeout"@, RegDataView::Dword(5000)),
            false, "建议优化"@)
    } else if k == 2 {
        ("缩短服务关闭等待时间"@, "关机时等待服务退出的时间过长"@, "reg_set"@,
            TargetView::Registry("HKLM\\SYSTEM\\CurrentControlSet\\Control"@, "WaitToKillServiceTimeout"@, RegDataView::Dword(5000)),
            false, "建议优化"@)
    } else if k == 3 {
        ("关闭休眠功能"@, "休眠文件占用磁盘空间，关闭可释放空间"@, "reg_set"@,
            TargetView::Registry("HKLM\\SYSTEM\\CurrentControlSet\\Control\\Power"@, "HibernateEnabled"@, RegDataView::Dword(0)),
            true, "建议关闭"@)
    } else {
        ("调整为最佳性能"@, "关闭动画特效可提升系统响应速度"@, "reg_set"@,
            TargetView::Registry("HKCU\\Software\\Microsoft\\Windows\\CurrentVersion\\Explorer\\VisualEffects"@, "VisualFXSetting"@, RegDataView::Dword(2)),
            true, "建议优化"@)
    }
}

fn win11_fix(k: usize) -> (f: Fix)
    requires
        k < 5,
    ensures
        fix_view(f) == win11_fix_view(k as int),
{
    if k == 0 {
        new_fix("优化菜单显示延迟".to_string(), "菜单弹出延迟过高，影响操作响应速度".to_string(), "reg_set",
            FixTarget::Registry { key_path: "HKCU\\Control Panel\\Desktop".to_string(), value_name: "MenuShowDelay".to_string(), data: RegData::Dword(200) },
            false, "建议优化")
    } else if k == 1 {
        new_fix("缩短程序关闭等待时间".to_string(), "关机时等待程序退出的时间过长".to_string(), "reg_set",
            FixTarget::Registry { key_path: "HKCU\\Control Panel\\Desktop".to_string(), value_name: "WaitToKillAppTimeout".to_string(), data: RegData::Dword(5000) },
            false, "建议优化")
    } else if k == 2 {
        new_fix("缩短服务关闭等待时间".to_string(), "关机时等待服务退出的时间过长".to_string(), "reg_set",
            FixTarget::Registry { key_path: "HKLM\\SYSTEM\\CurrentControlSet\\Control".to_string(), value_name: "WaitToKillServiceTimeout".to_string(), data: RegData::Dword(5000) },
            false, "建议优化")
    } else if k == 3 {
        new_fix("关闭休眠功能".to_string(), "休眠文件占用磁盘空间，关闭可释放空间".to_string(), "reg_set",
            FixTarget::Registry { key_path: "HKLM\\SYSTEM\\CurrentControlSet\\Control\\Power".to_string(), value_name: "HibernateEnabled".to_string(), data: RegData::Dword(0) },
            true, "建议关闭")
    } else {
        new_fix("调整为最佳性能".to_string(), "关闭动画特效可提升系统响应速度".to_string(), "reg_set",
            FixTarget::Registry { key_path: "HKCU\\Software\\Microsoft\\Windows\\CurrentVersion\\Explorer\\VisualEffects".to_string(), value_name: "VisualFXSetting".to_string(), data: RegData::Dword(2) },
            true, "建议优化")
    }
}

/// The registry values the Windows 11 checks read (key, value name).
pub fn win11_queries() -> (r: Vec<(&'static str, &'static str)>)
    ensures
        r@.len() == 5,
        forall|k: int| 0 <= k < 5 ==> (match #[trigger] win11_fix_view(k).3 {
            TargetView::Registry(key, name, _) => r@[k].0@ == key && r@[k].1@ == name,
            _ => false,
        }),
{
    vec![
        ("HKCU\\Control Panel\\Desktop", "MenuShowDelay"),
        ("HKCU\\Control Panel\\Desktop", "WaitToKillAppTimeout"),
        ("HKLM\\SYSTEM\\CurrentControlSet\\Control", "WaitToKillServiceTimeout"),
        ("HKLM\\SYSTEM\\CurrentControlSet\\Control\\Power", "HibernateEnabled"),
        ("HKCU\\Software\\Microsoft\\Windows\\CurrentVersion\\Explorer\\VisualEffects", "VisualFXSetting"),
    ]
}

pub open spec fn opt_strings(v: Seq<Option<String>>) -> Seq<Option<Seq<char>>> {
    v.map_values(|o: Option<String>| match o {
        Some(s) => Some(s@),
        None => None,
    })
}

/// `scan_win11`, once the five values were queried (`None` where a value
/// could not be read): the fixes of the checks that trigger, in order, each
/// numbered and recorded under `win11`.
pub fn scan_win11(reg: &mut ScanRegistry, counter: &mut u32, values: &Vec<Option<String>>) -> (r: Vec<Fix>)
    requires
        old(reg).wf(),
        values@.len() == 5,
        *old(counter) <= u32::MAX - 5,
    ensures
        final(reg).wf(),
        r@.map_values(|f: Fix| fix_view(f)) == Seq::new(5, |k: int| k).filter(
            |k: int| win11_triggered(k, reg_number(opt_strings(values@)[k])),
        ).map_values(|k: int| win11_fix_view(k)),
        *final(counter) == *old(counter) + r@.len(),
        final(reg).results@ == old(reg).results@,
{
    let ghost idx = Seq::new(5, |k: int| k);
    let ghost keep = |k: int| win11_triggered(k, reg_number(opt_strings(values@)[k]));
    let ghost mk = |k: int| win11_fix_view(k);
    let mut out: Vec<Fix> = Vec::new();
    let mut k: usize = 0;
    assert(idx.take(0).filter(keep) =~= Seq::<int>::empty()) by {
        reveal(Seq::filter);
    }
    assert(out@.map_values(|f: Fix| fix_view(f)) =~= Seq::<FixView>::empty());
    while k < 5
        invariant
            k <= 5,
            values@.len() == 5,
            reg.wf(),
            idx == Seq::new(5, |k: int| k),
            keep == (|k: int| win11_triggered(k, reg_number(opt_strings(values@)[k]))),
            mk == (|k: int| win11_fix_view(k)),
            out@.map_values(|f: Fix| fix_view(f)) == idx.take(k as int).filter(keep).map_values(mk),
            out@.len() <= k,
            *counter == *old(counter) + out@.len(),
            *old(counter) <= u32::MAX - 5,
            reg.results@ == old(reg).results@,
        decreases 5 - k,
    {
        let ghost pre = idx.take(k as int);
        assert(idx.take(k + 1) =~= pre.push(k as int));
        proof {
            pre.lemma_filter_push(k as int, keep);
        }
        let ghost before = out@.map_values(|f: Fix| fix_view(f));
        let v = match &values[k] {
            Some(s) => reg_i64(Some(s.as_str())),
            None => reg_i64(None),
        };
        assert(v == reg_number(opt_strings(values@)[k as int]));
        let hit = if k == 0 {
            (match v { Some(x) => x, None => 0 }) > 200
        } else if k == 1 || k == 2 {
            (match v { Some(x) => x, None => 0 }) > 5000
        } else if k == 3 {
            (match v { Some(x) => x, None => 0 }) == 1
        } else {
            (match v { Some(x) => x, None => 2 }) != 2
        };
        if hit {
            assert(keep(k as int));
            let f = record_fix(reg, counter, "win11", win11_fix(k));
            out.push(f);
            assert(out@.map_values(|f: Fix| fix_view(f)) =~= before.push(mk(k as int)));
            assert(pre.filter(keep).push(k as int).map_values(mk) =~= pre.filter(keep).map_values(
                mk,
            ).push(mk(k as int)));
        } else {
            assert(!keep(k as int));
        }
        k += 1;
    }
    assert(idx.take(5) =~= idx);
    out
}

} // verus!

verus! {

/// The background programs that may be closed without harm.
pub open spec fn safe_to_close_list() -> Seq<Seq<char>> {
    seq![
        "qqmusic.exe"@, "kugou.exe"@, "kuwo.exe"@, "cloudmusic.exe"@, "potplayermini.exe"@,
        "vlc.exe"@, "foobar2000.exe"@, "qqlive.exe"@, "iqiyi.exe"@, "youkudesktop.exe"@,
        "baofengplatform.exe"@, "thunderplatform.exe"@, "thunder.exe"@, "xunleiservice.exe"@,
        "baidunetdisk.exe"@, "utorrent.exe"@, "qbittorrent.exe"@, "googleupdate.exe"@,
        "msedgeupdate.exe"@, "chromeupdate.exe"@, "qqexternal.exe"@,
    ]
}

pub fn safe_to_close() -> (r: Vec<&'static str>)
    ensures
        r@.len() == safe_to_close_list().len(),
        forall|i: int| 0 <= i < r@.len() ==> #[trigger] r@[i]@ == safe_to_close_list()[i],
{
    vec![
        "qqmusic.exe", "kugou.exe", "kuwo.exe", "cloudmusic.exe", "potplayermini.exe", "vlc.exe",
        "foobar2000.exe", "qqlive.exe", "iqiyi.exe", "youkudesktop.exe", "baofengplatform.exe",
        "thunderplatform.exe", "thunder.exe", "xunleiservice.exe", "baidunetdisk.exe",
        "utorrent.exe", "qbittorrent.exe", "googleupdate.exe", "msedgeupdate.exe",
        "chromeupdate.exe", "qqexternal.exe",
    ]
}

/// Whether the (already lowercase) process name is on the list.
pub fn is_safe_to_close(lower_name: &str) -> (r: bool)
    ensures
        r == safe_to_close_list().contains(lower_name@),
{
    let list = safe_to_close();
    let n = chars_of(lower_name);
    let mut i: usize = 0;
    while i < list.len()
        invariant
            i <= list.len(),
            n@ == lower_name@,
            list@.len() == safe_to_close_list().len(),
            forall|k: int| 0 <= k < list@.len() ==> #[trigger] list@[k]@ == safe_to_close_list()[k],
            forall|k: int| 0 <= k < i ==> safe_to_close_list()[k] != lower_name@,
        decreases list.len() - i,
    {
        assert(list@[i as int]@ == safe_to_close_list()[i as int]);
        if crate::text::seq_equal(&chars_of(list[i]), &n) {
            return true;
        }
        i += 1;
    }
    false
}

/// A running process as the process list gives it: id, name, program
/// path when known, and working set in bytes.
pub struct ProcessInfo {
    pub pid: u32,
    pub name: String,
    pub path: Option<String>,
    pub working_set: u64,
}

/// The fix proposed for a background program on the list.
pub open spec fn software_fix_view(p: ProcessInfo) -> FixView {
    (
        "退出后台程序 "@ + p.name@,
        match p.path {
            Some(x) => x@,
            None => "PID "@ + spec_decimal(p.pid as nat),
        },
        "kill_process"@,
        TargetView::Pid(p.pid as u64),
        false,
        "建议退出"@,
    )
}

/// `scan_software`, once the processes are listed: a fix for each process
/// whose lowercase name is on the safe-to-close list, in order.
pub fn scan_software(reg: &mut ScanRegistry, counter: &mut u32, procs: &Vec<ProcessInfo>) -> (r: Vec<Fix>)
    requires
        old(reg).wf(),
        *old(counter) + procs@.len() <= u32::MAX,
    ensures
        final(reg).wf(),
        r@.map_values(|f: Fix| fix_view(f)) == procs@.filter(
            |p: ProcessInfo| safe_to_close_list().contains(crate::text::lowercase_of(p.name@)),
        ).map_values(|p: ProcessInfo| software_fix_view(p)),
        final(reg).results@ == old(reg).results@,
{
    let ghost keep = |p: ProcessInfo| safe_to_close_list().contains(crate::text::lowercase_of(p.name@));
    let ghost mk = |p: ProcessInfo| software_fix_view(p);
    let mut out: Vec<Fix> = Vec::new();
    let mut i: usize = 0;
    assert(procs@.take(0).filter(keep) =~= Seq::<ProcessInfo>::empty()) by {
        reveal(Seq::filter);
    }
    assert(out@.map_values(|f: Fix| fix_view(f)) =~= Seq::<FixView>::empty());
    while i < procs.len()
        invariant
            i <= procs.len(),
            reg.wf(),
            keep == (|p: ProcessInfo| safe_to_close_list().contains(crate::text::lowercase_of(p.name@))),
            mk == (|p: ProcessInfo| software_fix_view(p)),
            out@.map_values(|f: Fix| fix_view(f)) == procs@.take(i as int).filter(keep).map_values(mk),
            out@.len() <= i,
            *counter == *old(counter) + out@.len(),
            *old(counter) + procs@.len() <= u32::MAX,
            reg.results@ == old(reg).results@,
        decreases procs.len() - i,
    {
        let p = &procs[i];
        let ghost pre = procs@.take(i as int);
        assert(procs@.take(i + 1) =~= pre.push(*p));
        proof {
            pre.lemma_filter_push(*p, keep);
        }
        let ghost before = out@.map_values(|f: Fix| fix_view(f));
        let lower = crate::text::to_lowercase(p.name.as_str());
        if is_safe_to_close(lower.as_str()) {
            let name = crate::startup::concat("退出后台程序 ", p.name.as_str());
            let detail = match &p.path {
                Some(x) => x.clone(),
                None => {
                    let mut d = chars_of("PID ");
                    append_chars(&mut d, &crate::text::decimal(p.pid as u64));
                    string_of(&d)
                },
            };
            let f = record_fix(reg, counter, "software", new_fix(name, detail, "kill_process", FixTarget::Pid(p.pid as u64), false, "建议退出"));
            out.push(f);
            assert(out@.map_values(|f: Fix| fix_view(f)) =~= before.push(mk(*p)));
            assert(pre.filter(keep).push(*p).map_values(mk) =~= pre.filter(keep).map_values(mk).push(mk(*p)));
        } else {
            assert(!keep(*p));
        }
        i += 1;
    }
    assert(procs@.take(procs.len() as int) =~= procs@);
    out
}

/// A service as the service list gives it, with its start type's name.
pub struct ServiceStart {
    pub name: String,
    pub start_type: Option<String>,
}

/// A service that starts automatically, is not protected, and adds 300 ms
/// or more to start-up gets a fix.
pub open spec fn system_keep(s: ServiceStart, boot: Seq<(Seq<char>, Option<u64>)>) -> bool {
    &&& crate::service::opt_string_view(s.start_type) == Some("AUTO_START"@)
    &&& !crate::service::spec_is_protected(s.name@)
    &&& boot_base(boot, s.name@) >= 300
}

/// The boot time recorded under the name (0 where there is none).
pub open spec fn boot_base(boot: Seq<(Seq<char>, Option<u64>)>, name: Seq<char>) -> u64 {
    match crate::startup::boot_find(boot, name) {
        Some(Some(v)) => v,
        _ => 0,
    }
}

pub open spec fn system_fix_view(s: ServiceStart, boot: Seq<(Seq<char>, Option<u64>)>) -> FixView {
    (
        "禁用高耗时服务 "@ + s.name@,
        "开机耗时基准 "@ + spec_decimal(boot_base(boot, s.name@) as nat) + "ms"@,
        "disable_service"@,
        TargetView::Name(s.name@),
        false,
        "建议禁用"@,
    )
}

/// `scan_system`, once services and boot times are read.
pub fn scan_system(reg: &mut ScanRegistry, counter: &mut u32, services: &Vec<ServiceStart>, boot: &Vec<crate::startup::BootTime>) -> (r: Vec<Fix>)
    requires
        old(reg).wf(),
        *old(counter) + services@.len() <= u32::MAX,
    ensures
        final(reg).wf(),
        r@.map_values(|f: Fix| fix_view(f)) == services@.filter(
            |s: ServiceStart| system_keep(s, crate::startup::boot_views(boot@)),
        ).map_values(|s: ServiceStart| system_fix_view(s, crate::startup::boot_views(boot@))),
        final(reg).results@ == old(reg).results@,
{
    let ghost bv = crate::startup::boot_views(boot@);
    let ghost keep = |s: ServiceStart| system_keep(s, bv);
    let ghost mk = |s: ServiceStart| system_fix_view(s, bv);
    let mut out: Vec<Fix> = Vec::new();
    let mut i: usize = 0;
    assert(services@.take(0).filter(keep) =~= Seq::<ServiceStart>::empty()) by {
        reveal(Seq::filter);
    }
    assert(out@.map_values(|f: Fix| fix_view(f)) =~= Seq::<FixView>::empty());
    while i < services.len()
        invariant
            i <= services.len(),
            reg.wf(),
            bv == crate::startup::boot_views(boot@),
            keep == (|s: ServiceStart| system_keep(s, bv)),
            mk == (|s: ServiceStart| system_fix_view(s, bv)),
            out@.map_values(|f: Fix| fix_view(f)) == services@.take(i as int).filter(keep).map_values(mk),
            out@.len() <= i,
            *counter == *old(counter) + out@.len(),
            *old(counter) + services@.len() <= u32::MAX,
            reg.results@ == old(reg).results@,
        decreases services.len() - i,
    {
        let s = &services[i];
        let ghost pre = services@.take(i as int);
        assert(services@.take(i + 1) =~= pre.push(*s));
        proof {
            pre.lemma_filter_push(*s, keep);
        }
        let ghost before = out@.map_values(|f: Fix| fix_view(f));
        let auto = match &s.start_type {
            Some(t) => crate::clean_executor::str_eq(t.as_str(), "AUTO_START"),
            None => false,
        };
        let base: u64 = match crate::startup::boot_find_pub(boot, &chars_of(s.name.as_str())) {
            Some(Some(v)) => v,
            _ => 0,
        };
        if auto && !crate::service::is_protected(s.name.as_str()) && base >= 300 {
            assert(keep(*s));
            let name = crate::startup::concat("禁用高耗时服务 ", s.name.as_str());
            let mut d = chars_of("开机耗时基准 ");
            append_chars(&mut d, &crate::text::decimal(base));
            append_chars(&mut d, &chars_of("ms"));
            let f = record_fix(reg, counter, "system", new_fix(name, string_of(&d), "disable_service", FixTarget::Name(s.name.clone()), false, "建议禁用"));
            out.push(f);
            assert(out@.map_values(|f: Fix| fix_view(f)) =~= before.push(mk(*s)));
            assert(pre.filter(keep).push(*s).map_values(mk) =~= pre.filter(keep).map_values(mk).push(mk(*s)));
        } else {
            assert(!keep(*s));
        }
        i += 1;
    }
    assert(services@.take(services.len() as int) =~= services@);
    out
}

/// What to read next of a network interface, or what it showed.
pub enum IfaceStep {
    /// No active DHCP address: read the static `IPAddress`.
    QueryIp,
    /// No address at all: the interface is passed over.
    Skip,
    /// It has an address: read its `NameServer`.
    QueryNameServer,
    /// It has an address and no DNS server: this key gets the fix.
    NoDns,
    /// It has a DNS server.
    HasDns,
}

/// An address value that counts: not empty and not `0.0.0.0` once trimmed.
pub open spec fn has_address(v: Option<Seq<char>>) -> bool {
    match v {
        Some(s) => crate::text::trim_ws(s).len() > 0 && crate::text::trim_ws(s) != "0.0.0.0"@,
        None => false,
    }
}

fn has_address_exec(v: Option<&str>) -> (r: bool)
    ensures
        r == has_address(crate::rules_engine::opt_view(v)),
{
    match v {
        Some(s) => {
            let t = crate::text::trim(&chars_of(s));
            t.len() > 0 && !crate::text::seq_equal(&t, &chars_of("0.0.0.0"))
        },
        None => false,
    }
}

/// The step after what has been read of an interface so far: its DHCP
/// address, then (when needed) its static address, then its name server.
pub fn iface_step(dhcp: Option<&str>, ip: Option<Option<&str>>, name_server: Option<Option<&str>>) -> (r: IfaceStep)
    ensures
        !has_address(crate::rules_engine::opt_view(dhcp)) && ip is None ==> r is QueryIp,
        (!has_address(crate::rules_engine::opt_view(dhcp)) && (ip matches Some(x) && !has_address(
            crate::rules_engine::opt_view(x),
        ))) ==> r is Skip,
        (has_address(crate::rules_engine::opt_view(dhcp)) || (ip matches Some(x) && has_address(
            crate::rules_engine::opt_view(x),
        ))) ==> match name_server {
            None => r is QueryNameServer,
            Some(ns) => if crate::text::trim_ws(
                match ns {
                    Some(s) => s@,
                    None => seq![],
                },
            ).len() == 0 {
                r is NoDns
            } else {
                r is HasDns
            },
        },
{
    if !has_address_exec(dhcp) {
        match ip {
            None => {
                return IfaceStep::QueryIp;
            },
            Some(x) => if !has_address_exec(x) {
                return IfaceStep::Skip;
            },
        }
    }
    match name_server {
        None => IfaceStep::QueryNameServer,
        Some(ns) => {
            proof {
                reveal_strlit("");
            }
            let v = match ns {
                Some(s) => s,
                None => "",
            };
            if crate::text::trim(&chars_of(v)).len() == 0 {
                IfaceStep::NoDns
            } else {
                IfaceStep::HasDns
            }
        },
    }
}

/// The network fixes: public DNS servers for the first interface found
/// without one (if any), then flushing the DNS cache.
pub fn scan_network(reg: &mut ScanRegistry, counter: &mut u32, no_dns_key: Option<String>) -> (r: Vec<Fix>)
    requires
        old(reg).wf(),
        *old(counter) + 2 <= u32::MAX,
    ensures
        final(reg).wf(),
        r@.map_values(|f: Fix| fix_view(f)) == (match no_dns_key {
            Some(k) => seq![
                ("配置公共DNS加速解析"@, "当前网络接口使用默认DNS，可切换至公共DNS提升解析速度"@, "reg_set"@,
                    TargetView::Registry(k@, "NameServer"@, RegDataView::Text("223.5.5.5,8.8.8.8"@)), true, "建议优化"@),
            ],
            None => Seq::<FixView>::empty(),
        }).push(("刷新DNS缓存"@, "清除本地DNS解析缓存，加速域名解析"@, "flush_dns"@, TargetView::Null, false, "建议执行"@)),
        final(reg).results@ == old(reg).results@,
{
    let mut out: Vec<Fix> = Vec::new();
    match no_dns_key {
        Some(k) => {
            let f = record_fix(reg, counter, "network", new_fix(
                "配置公共DNS加速解析".to_string(),
                "当前网络接口使用默认DNS，可切换至公共DNS提升解析速度".to_string(),
                "reg_set",
                FixTarget::Registry { key_path: k, value_name: "NameServer".to_string(), data: RegData::Text("223.5.5.5,8.8.8.8".to_string()) },
                true,
                "建议优化",
            ));
            out.push(f);
        },
        None => {},
    }
    let f = record_fix(reg, counter, "network", new_fix(
        "刷新DNS缓存".to_string(),
        "清除本地DNS解析缓存，加速域名解析".to_string(),
        "flush_dns",
        FixTarget::Null,
        false,
        "建议执行",
    ));
    out.push(f);
    assert(out@.map_values(|f: Fix| fix_view(f)) =~= (match no_dns_key {
        Some(k) => seq![
            ("配置公共DNS加速解析"@, "当前网络接口使用默认DNS，可切换至公共DNS提升解析速度"@, "reg_set"@,
                TargetView::Registry(k@, "NameServer"@, RegDataView::Text("223.5.5.5,8.8.8.8"@)), true, "建议优化"@),
        ],
        None => Seq::<FixView>::empty(),
    }).push(("刷新DNS缓存"@, "清除本地DNS解析缓存，加速域名解析"@, "flush_dns"@, TargetView::Null, false, "建议执行"@)));
    out
}

/// The fix proposed when the system drive is short of space (the check
/// itself compares floating-point sizes and stays with the caller): clean
/// the temporary folder.
pub fn disk_fix(reg: &mut ScanRegistry, counter: &mut u32, detail: String, temp_dir: &str) -> (f: Fix)
    requires
        old(reg).wf(),
        *old(counter) < u32::MAX,
    ensures
        final(reg).wf(),
        fix_view(f) == ("磁盘空间不足，建议清理临时文件"@, detail@, "clean_file"@, TargetView::Name(temp_dir@), false, "建议清理"@),
        final(reg).results@ == old(reg).results@,
{
    record_fix(reg, counter, "disk", new_fix(
        "磁盘空间不足，建议清理临时文件".to_string(),
        detail,
        "clean_file",
        FixTarget::Name(temp_dir.to_string()),
        false,
        "建议清理",
    ))
}

} // verus!

verus! {

/// The `StartupApproved` data of a disabled item.
pub open spec fn disabled_binary() -> Seq<u8> {
    seq![3u8, 0, 0, 0, 0, 0, 0, 0, 0, 0]
}

/// A `Run` value is enabled unless the first approval entry of the same
/// name holds data not starting with `02`.
pub open spec fn boot_value_enabled(approved: Seq<(Seq<char>, Seq<char>, Seq<char>)>, name: Seq<char>) -> bool {
    match crate::registry::first_named(approved, name) {
        None => true,
        Some(a) => "02"@.is_prefix_of(a.2),
    }
}

/// The ban rate of a `Run` value under the rule index.
pub open spec fn boot_value_ban(
    ex: Map<Seq<char>, crate::startup::RuleView>,
    nm: Map<Seq<char>, crate::startup::RuleView>,
    approved: Seq<(Seq<char>, Seq<char>, Seq<char>)>,
    v: (Seq<char>, Seq<char>, Seq<char>),
) -> u32 {
    crate::startup::spec_compute_ban_rate(
        crate::startup::rule_type_of(
            crate::startup::spec_match_rule(ex, nm, Some(v.0), crate::startup::spec_extract_exe(v.2)),
        ),
        boot_value_enabled(approved, v.0),
    )
}

/// The fix that disables a start-up value through its approval key.
pub open spec fn boot_value_fix_view(approved_key: Seq<char>, v: (Seq<char>, Seq<char>, Seq<char>)) -> FixView {
    (
        "禁用启动项 "@ + v.0,
        v.2,
        "reg_set"@,
        TargetView::Registry(approved_key, v.0, RegDataView::Binary(disabled_binary())),
        false,
        "建议禁用"@,
    )
}

/// `scan_boot` for one `Run` key, once its values and its approval values
/// were read: each enabled value rated 60 or more gets a fix.
pub fn scan_boot_key(
    reg: &mut ScanRegistry,
    counter: &mut u32,
    index: &crate::startup::RuleIndex,
    approved_key: &str,
    values: &Vec<crate::registry::RegValueLine>,
    approved: &Vec<crate::registry::RegValueLine>,
) -> (r: Vec<Fix>)
    requires
        old(reg).wf(),
        index.wf(),
        *old(counter) + values@.len() <= u32::MAX,
    ensures
        final(reg).wf(),
        r@.map_values(|f: Fix| fix_view(f)) == crate::registry::line_views(values@).filter(
            |v: (Seq<char>, Seq<char>, Seq<char>)|
                boot_value_enabled(crate::registry::line_views(approved@), v.0) && boot_value_ban(
                    crate::startup::rule_views(index.by_exe@),
                    crate::startup::rule_views(index.by_name@),
                    crate::registry::line_views(approved@),
                    v,
                ) >= 60,
        ).map_values(|v: (Seq<char>, Seq<char>, Seq<char>)| boot_value_fix_view(approved_key@, v)),
        final(reg).results@ == old(reg).results@,
{
    let ghost vs = crate::registry::line_views(values@);
    let ghost av = crate::registry::line_views(approved@);
    let ghost ex = crate::startup::rule_views(index.by_exe@);
    let ghost nm = crate::startup::rule_views(index.by_name@);
    let ghost keep = |v: (Seq<char>, Seq<char>, Seq<char>)|
        boot_value_enabled(av, v.0) && boot_value_ban(ex, nm, av, v) >= 60;
    let ghost mk = |v: (Seq<char>, Seq<char>, Seq<char>)| boot_value_fix_view(approved_key@, v);
    let mut out: Vec<Fix> = Vec::new();
    let mut i: usize = 0;
    assert(vs.take(0).filter(keep) =~= Seq::<(Seq<char>, Seq<char>, Seq<char>)>::empty()) by {
        reveal(Seq::filter);
    }
    assert(out@.map_values(|f: Fix| fix_view(f)) =~= Seq::<FixView>::empty());
    while i < values.len()
        invariant
            i <= values.len(),
            reg.wf(),
            index.wf(),
            vs == crate::registry::line_views(values@),
            av == crate::registry::line_views(approved@),
            ex == crate::startup::rule_views(index.by_exe@),
            nm == crate::startup::rule_views(index.by_name@),
            keep == (|v: (Seq<char>, Seq<char>, Seq<char>)|
                boot_value_enabled(av, v.0) && boot_value_ban(ex, nm, av, v) >= 60),
            mk == (|v: (Seq<char>, Seq<char>, Seq<char>)| boot_value_fix_view(approved_key@, v)),
            out@.map_values(|f: Fix| fix_view(f)) == vs.take(i as int).filter(keep).map_values(mk),
            out@.len() <= i,
            *counter == *old(counter) + out@.len(),
            *old(counter) + values@.len() <= u32::MAX,
            reg.results@ == old(reg).results@,
        decreases values.len() - i,
    {
        let v = &values[i];
        let ghost vv = (v.name@, v.vtype@, v.value@);
        assert(vs[i as int] == vv);
        let ghost pre = vs.take(i as int);
        assert(vs.take(i + 1) =~= pre.push(vv));
        proof {
            pre.lemma_filter_push(vv, keep);
        }
        let ghost before = out@.map_values(|f: Fix| fix_view(f));
        let enabled = match crate::registry::first_named_exec(approved, v.name.as_str()) {
            None => true,
            Some(a) => crate::text::starts_with(&chars_of(a.value.as_str()), &chars_of("02")),
        };
        let exe = crate::startup::extract_exe_from_command(v.value.as_str());
        let rule = match &exe {
            Some(e) => crate::startup::match_rule(index, Some(v.name.as_str()), Some(e.as_str())),
            None => crate::startup::match_rule(index, Some(v.name.as_str()), None),
        };
        let rt: Option<u64> = match &rule {
            Some(x) => Some(x.rule_type),
            None => None,
        };
        let ban = crate::startup::compute_ban_rate(rt, enabled);
        if ban >= 60 && enabled {
            assert(keep(vv));
            let name = crate::startup::concat("禁用启动项 ", v.name.as_str());
            let data = vec![3u8, 0, 0, 0, 0, 0, 0, 0, 0, 0];
            assert(data@ =~= disabled_binary());
            let target = FixTarget::Registry {
                key_path: approved_key.to_string(),
                value_name: v.name.clone(),
                data: RegData::Binary(data),
            };
            let f = record_fix(reg, counter, "boot", new_fix(name, v.value.clone(), "reg_set", target, false, "建议禁用"));
            out.push(f);
            assert(out@.map_values(|f: Fix| fix_view(f)) =~= before.push(mk(vv)));
            assert(pre.filter(keep).push(vv).map_values(mk) =~= pre.filter(keep).map_values(mk).push(mk(vv)));
        } else {
            assert(!keep(vv));
        }
        i += 1;
    }
    assert(vs.take(values.len() as int) =~= vs);
    out
}

/// A scheduled task gets a fix when it is not Microsoft's, is enabled, and
/// is rated 60 or more.
pub open spec fn boot_task_keep(
    ex: Map<Seq<char>, crate::startup::RuleView>,
    nm: Map<Seq<char>, crate::startup::RuleView>,
    t: crate::startup::TaskView,
) -> bool {
    &&& !t.5
    &&& t.4
    &&& crate::startup::spec_compute_ban_rate(
        crate::startup::rule_type_of(
            crate::startup::spec_match_rule(ex, nm, Some(t.0), crate::startup::spec_extract_exe(t.1)),
        ),
        t.4,
    ) >= 60
}

pub open spec fn boot_task_fix_view(t: crate::startup::TaskView) -> FixView {
    (
        "禁用计划任务 "@ + trim_start_char(t.0, '\\'),
        if t.1.len() == 0 { t.0 } else { t.1 },
        "reg_set"@,
        TargetView::Task(t.0),
        false,
        "建议禁用"@,
    )
}

/// `scan_boot`'s scheduled tasks, once listed.
pub fn scan_boot_tasks(
    reg: &mut ScanRegistry,
    counter: &mut u32,
    index: &crate::startup::RuleIndex,
    tasks: &Vec<crate::startup::ScheduledTask>,
) -> (r: Vec<Fix>)
    requires
        old(reg).wf(),
        index.wf(),
        *old(counter) + tasks@.len() <= u32::MAX,
    ensures
        final(reg).wf(),
        r@.map_values(|f: Fix| fix_view(f)) == tasks@.map_values(|t: crate::startup::ScheduledTask| crate::startup::task_view(t)).filter(
            |t: crate::startup::TaskView|
                boot_task_keep(
                    crate::startup::rule_views(index.by_exe@),
                    crate::startup::rule_views(index.by_name@),
                    t,
                ),
        ).map_values(|t: crate::startup::TaskView| boot_task_fix_view(t)),
        final(reg).results@ == old(reg).results@,
{
    let ghost ts = tasks@.map_values(|t: crate::startup::ScheduledTask| crate::startup::task_view(t));
    let ghost ex = crate::startup::rule_views(index.by_exe@);
    let ghost nm = crate::startup::rule_views(index.by_name@);
    let ghost keep = |t: crate::startup::TaskView| boot_task_keep(ex, nm, t);
    let ghost mk = |t: crate::startup::TaskView| boot_task_fix_view(t);
    let mut out: Vec<Fix> = Vec::new();
    let mut i: usize = 0;
    assert(ts.take(0).filter(keep) =~= Seq::<crate::startup::TaskView>::empty()) by {
        reveal(Seq::filter);
    }
    assert(out@.map_values(|f: Fix| fix_view(f)) =~= Seq::<FixView>::empty());
    while i < tasks.len()
        invariant
            i <= tasks.len(),
            reg.wf(),
            index.wf(),
            ts == tasks@.map_values(|t: crate::startup::ScheduledTask| crate::startup::task_view(t)),
            ex == crate::startup::rule_views(index.by_exe@),
            nm == crate::startup::rule_views(index.by_name@),
            keep == (|t: crate::startup::TaskView| boot_task_keep(ex, nm, t)),
            mk == (|t: crate::startup::TaskView| boot_task_fix_view(t)),
            out@.map_values(|f: Fix| fix_view(f)) == ts.take(i as int).filter(keep).map_values(mk),
            out@.len() <= i,
            *counter == *old(counter) + out@.len(),
            *old(counter) + tasks@.len() <= u32::MAX,
            reg.results@ == old(reg).results@,
        decreases tasks.len() - i,
    {
        let t = &tasks[i];
        let ghost tv = crate::startup::task_view(*t);
        assert(ts[i as int] == tv);
        let ghost pre = ts.take(i as int);
        assert(ts.take(i + 1) =~= pre.push(tv));
        proof {
            pre.lemma_filter_push(tv, keep);
        }
        let ghost before = out@.map_values(|f: Fix| fix_view(f));
        let mut hit = false;
        if !t.is_microsoft && t.enabled {
            let exe = crate::startup::extract_exe_from_command(t.command.as_str());
            let rule = match &exe {
                Some(e) => crate::startup::match_rule(index, Some(t.name.as_str()), Some(e.as_str())),
                None => crate::startup::match_rule(index, Some(t.name.as_str()), None),
            };
            let rt: Option<u64> = match &rule {
                Some(x) => Some(x.rule_type),
                None => None,
            };
            hit = crate::startup::compute_ban_rate(rt, t.enabled) >= 60;
        }
        if hit {
            assert(keep(tv));
            let clean = string_of(&crate::text::trim_start_matches(&chars_of(t.name.as_str()), '\\'));
            let name = crate::startup::concat("禁用计划任务 ", clean.as_str());
            let detail = if chars_of(t.command.as_str()).len() == 0 {
                t.name.clone()
            } else {
                t.command.clone()
            };
            let f = record_fix(reg, counter, "boot", new_fix(name, detail, "reg_set", FixTarget::Task { task_name: t.name.clone() }, false, "建议禁用"));
            out.push(f);
            assert(out@.map_values(|f: Fix| fix_view(f)) =~= before.push(mk(tv)));
            assert(pre.filter(keep).push(tv).map_values(mk) =~= pre.filter(keep).map_values(mk).push(mk(tv)));
        } else {
            assert(!keep(tv));
        }
        i += 1;
    }
    assert(ts.take(tasks.len() as int) =~= ts);
    out
}

} // verus!

verus! {

/// A group definition as a value.
pub struct GroupDefView {
    pub group_id: Seq<char>,
    pub group_name: Seq<char>,
    pub icon: Seq<char>,
    pub category: Seq<char>,
    pub checked: bool,
    pub risky: bool,
    pub kind: Seq<char>,
    pub action: Seq<char>,
    pub allowed_root: Option<Option<Seq<char>>>,
    pub dirs: Option<Seq<Seq<char>>>,
    pub min_age_days: Option<u64>,
    pub max_depth: Option<u64>,
    pub ext_filter: Option<Seq<char>>,
    pub dir: Option<Seq<char>>,
    pub pattern: Option<Seq<char>>,
    pub desc: Option<Seq<char>>,
    pub list_only: bool,
}

pub open spec fn os(o: Option<String>) -> Option<Seq<char>> {
    match o {
        Some(s) => Some(s@),
        None => None,
    }
}

pub open spec fn def_view(d: GroupDef) -> GroupDefView {
    GroupDefView {
        group_id: d.group_id@,
        group_name: d.group_name@,
        icon: d.icon@,
        category: d.category@,
        checked: d.checked,
        risky: d.risky,
        kind: d.kind@,
        action: d.action@,
        allowed_root: match d.allowed_root {
            Some(x) => Some(os(x)),
            None => None,
        },
        dirs: match d.dirs {
            Some(v) => Some(string_views(v@)),
            None => None,
        },
        min_age_days: d.min_age_days,
        max_depth: d.max_depth,
        ext_filter: os(d.ext_filter),
        dir: os(d.dir),
        pattern: os(d.pattern),
        desc: os(d.desc),
        list_only: d.list_only,
    }
}

/// A group scanned by walking folders.
pub open spec fn dir_def(id: Seq<char>, name: Seq<char>, icon: Seq<char>, dirs: Seq<Seq<char>>, min_age: u64, max_depth: u64, desc: Seq<char>) -> GroupDefView {
    GroupDefView {
        group_id: id,
        group_name: name,
        icon: icon,
        category: "trash"@,
        checked: true,
        risky: false,
        kind: "dir_scan"@,
        action: "delete"@,
        allowed_root: None,
        dirs: Some(dirs),
        min_age_days: Some(min_age),
        max_depth: Some(max_depth),
        ext_filter: None,
        dir: None,
        pattern: None,
        desc: Some(desc),
        list_only: false,
    }
}

/// A group of another kind (no folders listed in the definition).
pub open spec fn plain_def(id: Seq<char>, name: Seq<char>, icon: Seq<char>, category: Seq<char>, checked: bool, risky: bool, kind: Seq<char>, action: Seq<char>, desc: Option<Seq<char>>) -> GroupDefView {
    GroupDefView {
        group_id: id,
        group_name: name,
        icon: icon,
        category: category,
        checked: checked,
        risky: risky,
        kind: kind,
        action: action,
        allowed_root: None,
        dirs: None,
        min_age_days: None,
        max_depth: None,
        ext_filter: None,
        dir: None,
        pattern: None,
        desc: desc,
        list_only: false,
    }
}

pub open spec fn j2(a: Seq<char>, b: Seq<char>, c: Seq<char>) -> Seq<char> {
    crate::winpath::join_spec(crate::winpath::join_spec(a, b), c)
}

pub open spec fn j3(a: Seq<char>, b: Seq<char>, c: Seq<char>, d: Seq<char>) -> Seq<char> {
    crate::winpath::join_spec(j2(a, b, c), d)
}

/// The trash-tab groups, given `%TEMP%`, the Windows temp folder, the local
/// application data, the program data and the system root.
pub open spec fn trash_defs(temp: Seq<char>, wtemp: Seq<char>, la: Seq<char>, pd: Seq<char>, sr: Seq<char>) -> Seq<GroupDefView> {
    seq![
        GroupDefView { allowed_root: Some(None), ..plain_def("recycle_bin"@, "回收站"@, "recycle"@, "trash"@, true, true, "recycle_bin"@, "recycle_bin"@, None) },
        dir_def("sys_temp"@, "Windows临时文件"@, "system"@, seq![temp], 7, 8, "%TEMP% 中超过7天的临时文件"@),
        dir_def("windows_temp"@, "系统Temp目录"@, "system"@, seq![wtemp], 7, 8, "C:\\Windows\\Temp 中超过7天的文件"@),
        GroupDefView { dir: Some(j3(la, "Microsoft"@, "Windows"@, "Explorer"@)), pattern: Some("thumbcache_"@), ..plain_def("thumb_cache"@, "缩略图缓存"@, "image"@, "trash"@, true, false, "glob_scan"@, "delete"@, Some("缩略图数据库文件"@)) },
        dir_def("prefetch"@, "预读取缓存"@, "system"@, seq![crate::winpath::join_spec(sr, "Prefetch"@)], 7, 2, "超过7天的预读取文件"@),
        plain_def("browser_cache"@, "浏览器缓存"@, "browser"@, "trash"@, true, false, "browser_cache"@, "delete"@, Some("Edge/Chrome/Firefox 缓存文件"@)),
        dir_def("crash_dumps"@, "崩溃转储"@, "system"@, seq![crate::winpath::join_spec(la, "CrashDumps"@), j3(pd, "Microsoft"@, "Windows"@, "WER"@)], 0, 4, "程序崩溃产生的转储文件"@),
        dir_def("error_reports"@, "错误报告"@, "system"@, seq![j3(la, "Microsoft"@, "Windows"@, "WER"@)], 0, 4, "Windows错误报告"@),
        dir_def("soft_dist"@, "系统更新缓存"@, "system"@, seq![j2(sr, "SoftwareDistribution"@, "Download"@)], 0, 4, "Windows更新下载缓存"@),
        dir_def("font_cache"@, "字体缓存"@, "system"@, seq![crate::winpath::join_spec(la, "FontCache"@)], 0, 2, "字体缓存数据库"@),
        dir_def("inet_cache"@, "IE缓存"@, "browser"@, seq![j3(la, "Microsoft"@, "Windows"@, "INetCache"@)], 7, 6, "IE/Edge 传统缓存"@),
    ]
}

pub open spec fn software_defs() -> Seq<GroupDefView> {
    seq![
        plain_def("soft_cache"@, "软件缓存"@, "app"@, "software"@, true, false, "app_cache"@, "delete"@, Some("已安装软件的缓存与临时文件"@)),
        GroupDefView { list_only: true, ..plain_def("big_files"@, "大文件(仅列出)"@, "file"@, "software"@, false, true, "big_files"@, "none"@, Some("扫描下载/桌面/文档中超过100MB的文件, 仅供查看, 不会自动删除"@)) },
    ]
}

pub open spec fn plugin_defs() -> Seq<GroupDefView> {
    seq![
        plain_def("browser_ext"@, "浏览器扩展残留"@, "plugin"@, "plugin"@, true, false, "extensions"@, "delete"@, Some("Chrome/Edge 扩展目录中的残留"@)),
        plain_def("sys_plugin"@, "系统插件残留"@, "plugin"@, "plugin"@, true, false, "sys_plugin"@, "delete"@, Some("系统插件与ActiveX残留"@)),
    ]
}

/// The groups of a tab: `trash`, `software`, `all` (every group), or the
/// plug-in groups for any other tab.
pub open spec fn spec_group_defs(tab: Seq<char>, temp: Seq<char>, wtemp: Seq<char>, la: Seq<char>, pd: Seq<char>, sr: Seq<char>) -> Seq<GroupDefView> {
    if tab == "trash"@ {
        trash_defs(temp, wtemp, la, pd, sr)
    } else if tab == "software"@ {
        software_defs()
    } else if tab == "all"@ {
        trash_defs(temp, wtemp, la, pd, sr) + software_defs() + plugin_defs()
    } else {
        plugin_defs()
    }
}

fn dir_def_exec(id: &str, name: &str, icon: &str, dirs: Vec<String>, min_age: u64, max_depth: u64, desc: &str) -> (d: GroupDef)
    ensures
        def_view(d) == dir_def(id@, name@, icon@, string_views(dirs@), min_age, max_depth, desc@),
{
    GroupDef {
        group_id: id.to_string(),
        group_name: name.to_string(),
        icon: icon.to_string(),
        category: "trash".to_string(),
        checked: true,
        risky: false,
        kind: "dir_scan".to_string(),
        action: "delete".to_string(),
        allowed_root: None,
        dirs: Some(dirs),
        min_age_days: Some(min_age),
        max_depth: Some(max_depth),
        ext_filter: None,
        dir: None,
        pattern: None,
        desc: Some(desc.to_string()),
        list_only: false,
    }
}

fn plain_def_exec(id: &str, name: &str, icon: &str, category: &str, checked: bool, risky: bool, kind: &str, action: &str, desc: &str) -> (d: GroupDef)
    ensures
        def_view(d) == plain_def(id@, name@, icon@, category@, checked, risky, kind@, action@, Some(desc@)),
{
    GroupDef {
        group_id: id.to_string(),
        group_name: name.to_string(),
        icon: icon.to_string(),
        category: category.to_string(),
        checked,
        risky,
        kind: kind.to_string(),
        action: action.to_string(),
        allowed_root: None,
        dirs: None,
        min_age_days: None,
        max_depth: None,
        ext_filter: None,
        dir: None,
        pattern: None,
        desc: Some(desc.to_string()),
        list_only: false,
    }
}

fn one(s: String) -> (v: Vec<String>)
    ensures
        string_views(v@) == seq![s@],
{
    let v = vec![s];
    assert(string_views(v@) =~= seq![v@[0]@]);
    v
}

fn trash_defs_exec(temp: &str, wtemp: &str, la: &str, pd: &str, sr: &str) -> (r: Vec<GroupDef>)
    ensures
        r@.map_values(|d: GroupDef| def_view(d)) == trash_defs(temp@, wtemp@, la@, pd@, sr@),
{
    let j = |a: &str, b: &str| -> (r: String) ensures r@ == crate::winpath::join_spec(a@, b@) { crate::winpath::path_join(a, b) };
    let mut v: Vec<GroupDef> = Vec::new();
    let mut rb = plain_def_exec("recycle_bin", "回收站", "recycle", "trash", true, true, "recycle_bin", "recycle_bin", "");
    rb.allowed_root = Some(None);
    rb.desc = None;
    v.push(rb);
    v.push(dir_def_exec("sys_temp", "Windows临时文件", "system", one(temp.to_string()), 7, 8, "%TEMP% 中超过7天的临时文件"));
    v.push(dir_def_exec("windows_temp", "系统Temp目录", "system", one(wtemp.to_string()), 7, 8, "C:\\Windows\\Temp 中超过7天的文件"));
    let mut tc = plain_def_exec("thumb_cache", "缩略图缓存", "image", "trash", true, false, "glob_scan", "delete", "缩略图数据库文件");
    let e1 = j(la, "Microsoft");
    let e2 = j(e1.as_str(), "Windows");
    tc.dir = Some(j(e2.as_str(), "Explorer"));
    tc.pattern = Some("thumbcache_".to_string());
    v.push(tc);
    v.push(dir_def_exec("prefetch", "预读取缓存", "system", one(j(sr, "Prefetch")), 7, 2, "超过7天的预读取文件"));
    v.push(plain_def_exec("browser_cache", "浏览器缓存", "browser", "trash", true, false, "browser_cache", "delete", "Edge/Chrome/Firefox 缓存文件"));
    let p1 = j(pd, "Microsoft");
    let p2 = j(p1.as_str(), "Windows");
    let cd = vec![j(la, "CrashDumps"), j(p2.as_str(), "WER")];
    let ghost cdv = seq![crate::winpath::join_spec(la@, "CrashDumps"@), j3(pd@, "Microsoft"@, "Windows"@, "WER"@)];
    assert(string_views(cd@) =~= cdv);
    v.push(dir_def_exec("crash_dumps", "崩溃转储", "system", cd, 0, 4, "程序崩溃产生的转储文件"));
    let w1 = j(la, "Microsoft");
    let w2 = j(w1.as_str(), "Windows");
    v.push(dir_def_exec("error_reports", "错误报告", "system", one(j(w2.as_str(), "WER")), 0, 4, "Windows错误报告"));
    let s1 = j(sr, "SoftwareDistribution");
    v.push(dir_def_exec("soft_dist", "系统更新缓存", "system", one(j(s1.as_str(), "Download")), 0, 4, "Windows更新下载缓存"));
    v.push(dir_def_exec("font_cache", "字体缓存", "system", one(j(la, "FontCache")), 0, 2, "字体缓存数据库"));
    let i1 = j(la, "Microsoft");
    let i2 = j(i1.as_str(), "Windows");
    v.push(dir_def_exec("inet_cache", "IE缓存", "browser", one(j(i2.as_str(), "INetCache")), 7, 6, "IE/Edge 传统缓存"));
    assert(v@.map_values(|d: GroupDef| def_view(d)) =~= trash_defs(temp@, wtemp@, la@, pd@, sr@));
    v
}

/// `build_group_defs`, with the folders the environment names passed in.
pub fn build_group_defs(tab: &str, temp: &str, wtemp: &str, la: &str, pd: &str, sr: &str) -> (r: Vec<GroupDef>)
    ensures
        r@.map_values(|d: GroupDef| def_view(d)) == spec_group_defs(tab@, temp@, wtemp@, la@, pd@, sr@),
{
    let sw = || -> (r: Vec<GroupDef>)
        ensures
            r@.map_values(|d: GroupDef| def_view(d)) == software_defs(),
    {
        let mut v: Vec<GroupDef> = Vec::new();
        v.push(plain_def_exec("soft_cache", "软件缓存", "app", "software", true, false, "app_cache", "delete", "已安装软件的缓存与临时文件"));
        let mut bf = plain_def_exec("big_files", "大文件(仅列出)", "file", "software", false, true, "big_files", "none", "扫描下载/桌面/文档中超过100MB的文件, 仅供查看, 不会自动删除");
        bf.list_only = true;
        v.push(bf);
        assert(v@.map_values(|d: GroupDef| def_view(d)) =~= software_defs());
        v
    };
    let pl = || -> (r: Vec<GroupDef>)
        ensures
            r@.map_values(|d: GroupDef| def_view(d)) == plugin_defs(),
    {
        let mut v: Vec<GroupDef> = Vec::new();
        v.push(plain_def_exec("browser_ext", "浏览器扩展残留", "plugin", "plugin", true, false, "extensions", "delete", "Chrome/Edge 扩展目录中的残留"));
        v.push(plain_def_exec("sys_plugin", "系统插件残留", "plugin", "plugin", true, false, "sys_plugin", "delete", "系统插件与ActiveX残留"));
        assert(v@.map_values(|d: GroupDef| def_view(d)) =~= plugin_defs());
        v
    };
    if crate::clean_executor::str_eq(tab, "trash") {
        trash_defs_exec(temp, wtemp, la, pd, sr)
    } else if crate::clean_executor::str_eq(tab, "software") {
        sw()
    } else if crate::clean_executor::str_eq(tab, "all") {
        let mut v = trash_defs_exec(temp, wtemp, la, pd, sr);
        let mut s = sw();
        let mut p = pl();
        let ghost a = v@.map_values(|d: GroupDef| def_view(d));
        let ghost b = s@.map_values(|d: GroupDef| def_view(d));
        let ghost c = p@.map_values(|d: GroupDef| def_view(d));
        let ghost vv = v@;
        let ghost sv = s@;
        let ghost pv = p@;
        v.append(&mut s);
        v.append(&mut p);
        assert(v@ =~= vv + sv + pv);
        assert(v@.map_values(|d: GroupDef| def_view(d)) =~= a + b + c);
        v
    } else {
        pl()
    }
}

} // verus!

verus! {

/// The id of the item a group reports for a path.
pub open spec fn item_id_of(group_id: Seq<char>, path: Seq<char>) -> Seq<char> {
    "it_"@ + group_id + "_"@ + crate::startup::spec_sanitize_id(path)
}

pub fn item_id(group_id: &str, path: &str) -> (r: String)
    ensures
        r@ == item_id_of(group_id@, path@),
{
    let a = crate::startup::concat("it_", group_id);
    let b = crate::startup::concat(a.as_str(), "_");
    crate::startup::concat(b.as_str(), crate::startup::sanitize_id(path).as_str())
}

/// An item as a value: id, name, description, size, count, path.
pub type ItemView = (Seq<char>, Seq<char>, Seq<char>, u64, u64, Seq<char>);

pub open spec fn item_view(it: ScanItem) -> ItemView {
    (it.id@, it.name@, it.desc@, it.size, it.count, it.path@)
}

fn scan_item(id: String, name: String, desc: String, size: u64, count: u64, path: String) -> (it: ScanItem)
    ensures
        item_view(it) == (id@, name@, desc@, size, count, path@),
        it.safe && it.checked && !it.risky,
{
    ScanItem { id, name, desc, size, count, path, safe: true, checked: true, risky: false }
}

/// A recycle bin is listed when it holds anything.
pub fn recycle_item(group_id: &str, bin: &str, size: u64, count: u64) -> (r: Option<ScanItem>)
    ensures
        r is Some <==> (size > 0 || count > 0),
        r matches Some(it) ==> item_view(it) == (
            item_id_of(group_id@, bin@),
            "回收站 ("@ + bin@ + ")"@,
            "回收站中的文件"@,
            size,
            count,
            bin@,
        ) && it.safe && it.checked,
{
    if !(size > 0 || count > 0) {
        return None;
    }
    let n1 = crate::startup::concat("回收站 (", bin);
    let name = crate::startup::concat(n1.as_str(), ")");
    Some(scan_item(item_id(group_id, bin), name, "回收站中的文件".to_string(), size, count, bin.to_string()))
}

/// A folder scan's result as an item: listed when it found any file; its
/// count is the number of files found, its size their sizes summed
/// (saturating), and the files' paths are recorded under the group and item.
pub fn found_item(
    reg: &mut ScanRegistry,
    group_id: &str,
    name: &str,
    desc: &str,
    path: &str,
    files: &Vec<(String, u64)>,
) -> (r: Option<ScanItem>)
    requires
        old(reg).wf(),
    ensures
        final(reg).wf(),
        r is Some <==> files@.len() > 0,
        r matches Some(it) ==> item_view(it) == (
            item_id_of(group_id@, path@),
            name@,
            desc@,
            sat_sum(files@.map_values(|f: (String, u64)| f.1)),
            files@.len() as u64,
            path@,
        ) && it.safe && it.checked,
        files@.len() > 0 ==> ({
            let key = result_key(group_id@, item_id_of(group_id@, path@));
            &&& final(reg).results@ == old(reg).results@.insert(key, final(reg).results@[key])
            &&& string_views(final(reg).results@[key]@) == files@.map_values(|f: (String, u64)| f.0@)
        }),
        files@.len() == 0 ==> final(reg).results@ == old(reg).results@,
        final(reg).fixes@ == old(reg).fixes@,
        final(reg).group_defs@ == old(reg).group_defs@,
{
    if files.len() == 0 {
        return None;
    }
    let total = sizes_total(files);
    let paths = paths_of(files);
    let id = item_id(group_id, path);
    let ghost key = result_key(group_id@, id@);
    reg.record_scan_files(group_id, id.as_str(), paths);
    assert(reg.results@ =~= old(reg).results@.insert(key, reg.results@[key]));
    Some(scan_item(id, name.to_string(), desc.to_string(), total, files.len() as u64, path.to_string()))
}

/// The sum of sizes, saturating at the largest `u64`.
pub open spec fn sat_sum(s: Seq<u64>) -> u64
    decreases s.len(),
{
    if s.len() == 0 {
        0
    } else {
        let p = sat_sum(s.drop_last());
        if p + s.last() <= u64::MAX {
            (p + s.last()) as u64
        } else {
            u64::MAX
        }
    }
}

pub fn sizes_total(files: &Vec<(String, u64)>) -> (t: u64)
    ensures
        t == sat_sum(files@.map_values(|f: (String, u64)| f.1)),
{
    let ghost sz = files@.map_values(|f: (String, u64)| f.1);
    let mut t: u64 = 0;
    let mut i: usize = 0;
    while i < files.len()
        invariant
            i <= files.len(),
            sz == files@.map_values(|f: (String, u64)| f.1),
            t == sat_sum(sz.take(i as int)),
        decreases files.len() - i,
    {
        assert(sz.take(i + 1).drop_last() =~= sz.take(i as int));
        t = t.saturating_add(files[i].1);
        i += 1;
    }
    assert(sz.take(files.len() as int) =~= sz);
    t
}

fn paths_of(files: &Vec<(String, u64)>) -> (r: Vec<String>)
    ensures
        string_views(r@) == files@.map_values(|f: (String, u64)| f.0@),
{
    let mut r: Vec<String> = Vec::new();
    let mut i: usize = 0;
    while i < files.len()
        invariant
            i <= files.len(),
            string_views(r@) == files@.take(i as int).map_values(|f: (String, u64)| f.0@),
        decreases files.len() - i,
    {
        let ghost before = r@;
        let s = files[i].0.clone();
        r.push(s);
        proof {
            assert(r@ =~= before.push(s));
            assert(files@.take(i + 1int) =~= files@.take(i as int).push(files@[i as int]));
            assert(string_views(r@) =~= string_views(before).push(s@));
        }
        i += 1;
        assert(string_views(r@) =~= files@.take(i as int).map_values(|f: (String, u64)| f.0@));
    }
    assert(files@.take(files.len() as int) =~= files@);
    r
}

/// A thumbnail-cache file matches when its lowercase name starts with the
/// lowercase pattern.
pub open spec fn spec_glob_matches(file_name: Seq<char>, pattern: Seq<char>) -> bool {
    crate::text::lowercase_of(pattern).is_prefix_of(crate::text::lowercase_of(file_name))
}

pub fn glob_matches(file_name: &str, pattern: &str) -> (r: bool)
    ensures
        r == spec_glob_matches(file_name@, pattern@),
{
    let n = crate::text::to_lowercase(file_name);
    let p = crate::text::to_lowercase(pattern);
    crate::text::starts_with(&chars_of(n.as_str()), &chars_of(p.as_str()))
}

/// The matching files of a folder as one item (their sizes summed,
/// saturating), with their paths recorded; none when there are none.
pub fn glob_item(reg: &mut ScanRegistry, group_id: &str, name: &str, desc: &str, dir: &str, files: &Vec<(String, u64)>) -> (r: Option<ScanItem>)
    requires
        old(reg).wf(),
    ensures
        final(reg).wf(),
        r is Some <==> files@.len() > 0,
        r matches Some(it) ==> item_view(it) == (
            item_id_of(group_id@, dir@),
            name@,
            desc@,
            sat_sum(files@.map_values(|f: (String, u64)| f.1)),
            files@.len() as u64,
            dir@,
        ),
        files@.len() > 0 ==> final(reg).results@.dom() == old(reg).results@.dom().insert(
            result_key(group_id@, item_id_of(group_id@, dir@)),
        ) && string_views(final(reg).results@[result_key(group_id@, item_id_of(group_id@, dir@))]@)
            == files@.map_values(|f: (String, u64)| f.0@),
        files@.len() == 0 ==> final(reg).results@ == old(reg).results@,
{
    if files.len() == 0 {
        return None;
    }
    found_item(reg, group_id, name, desc, dir, files)
}

/// The browsers whose caches are scanned: name, process, profile folder
/// under the local application data, and whether it is Firefox.
pub open spec fn browser_targets_of(la: Seq<char>) -> Seq<(Seq<char>, Seq<char>, Seq<char>, bool)> {
    seq![
        ("Edge"@, "msedge.exe"@, j2(crate::winpath::join_spec(la, "Microsoft"@), "Edge"@, "User Data"@), false),
        ("Chrome"@, "chrome.exe"@, j2(crate::winpath::join_spec(la, "Google"@), "Chrome"@, "User Data"@), false),
        ("Firefox"@, "firefox.exe"@, j2(crate::winpath::join_spec(la, "Mozilla"@), "Firefox"@, "Profiles"@), true),
    ]
}

pub fn browser_targets(la: &str) -> (r: Vec<(&'static str, &'static str, String, bool)>)
    ensures
        r@.map_values(|t: (&'static str, &'static str, String, bool)| (t.0@, t.1@, t.2@, t.3)) == browser_targets_of(la@),
{
    let e1 = crate::winpath::path_join(la, "Microsoft");
    let e2 = crate::winpath::path_join(e1.as_str(), "Edge");
    let c1 = crate::winpath::path_join(la, "Google");
    let c2 = crate::winpath::path_join(c1.as_str(), "Chrome");
    let f1 = crate::winpath::path_join(la, "Mozilla");
    let f2 = crate::winpath::path_join(f1.as_str(), "Firefox");
    let v = vec![
        ("Edge", "msedge.exe", crate::winpath::path_join(e2.as_str(), "User Data"), false),
        ("Chrome", "chrome.exe", crate::winpath::path_join(c2.as_str(), "User Data"), false),
        ("Firefox", "firefox.exe", crate::winpath::path_join(f2.as_str(), "Profiles"), true),
    ];
    assert(v@.map_values(|t: (&'static str, &'static str, String, bool)| (t.0@, t.1@, t.2@, t.3)) =~= browser_targets_of(la@));
    v
}

/// A Chromium profile folder is `Default` or `Profile ...`.
pub open spec fn spec_is_chromium_profile(name: Seq<char>) -> bool {
    name == "Default"@ || "Profile "@.is_prefix_of(name)
}

/// The cache folders to look for in one profile folder: Firefox keeps one
/// (`cache2`); a Chromium profile three; other folders none.
pub open spec fn profile_cache_candidates_of(firefox: bool, name: Seq<char>, profile: Seq<char>) -> Seq<Seq<char>> {
    if firefox {
        seq![crate::winpath::join_spec(profile, "cache2"@)]
    } else if spec_is_chromium_profile(name) {
        seq![
            crate::winpath::join_spec(profile, "Cache"@),
            crate::winpath::join_spec(profile, "Code Cache"@),
            crate::winpath::join_spec(profile, "GPUCache"@),
        ]
    } else {
        seq![]
    }
}

/// The caches looked for in a browser profile folder: Firefox's `cache2`;
/// for a Chromium browser, `Cache`, `Code Cache` and `GPUCache` in the
/// `Default` profile and in every `Profile ...` one; none in other folders.
pub proof fn law_profile_caches(name: Seq<char>, profile: Seq<char>)
    ensures
        profile_cache_candidates_of(true, name, profile) == seq![crate::winpath::join_spec(profile, "cache2"@)],
        profile_cache_candidates_of(false, "Default"@, profile) == seq![
            crate::winpath::join_spec(profile, "Cache"@),
            crate::winpath::join_spec(profile, "Code Cache"@),
            crate::winpath::join_spec(profile, "GPUCache"@),
        ],
        "Profile "@.is_prefix_of(name) ==> profile_cache_candidates_of(false, name, profile) == seq![
            crate::winpath::join_spec(profile, "Cache"@),
            crate::winpath::join_spec(profile, "Code Cache"@),
            crate::winpath::join_spec(profile, "GPUCache"@),
        ],
        name != "Default"@ && !"Profile "@.is_prefix_of(name) ==> profile_cache_candidates_of(false, name, profile)
            == Seq::<Seq<char>>::empty(),
{
}

pub fn profile_cache_candidates(firefox: bool, name: &str, profile: &str) -> (r: Vec<String>)
    ensures
        string_views(r@) == profile_cache_candidates_of(firefox, name@, profile@),
{
    if firefox {
        return one(crate::winpath::path_join(profile, "cache2"));
    }
    let n = chars_of(name);
    if crate::text::seq_equal(&n, &chars_of("Default")) || crate::text::starts_with(&n, &chars_of("Profile ")) {
        let v = vec![
            crate::winpath::path_join(profile, "Cache"),
            crate::winpath::path_join(profile, "Code Cache"),
            crate::winpath::path_join(profile, "GPUCache"),
        ];
        assert(string_views(v@) =~= profile_cache_candidates_of(firefox, name@, profile@));
        v
    } else {
        let v: Vec<String> = Vec::new();
        assert(string_views(v@) =~= Seq::<Seq<char>>::empty());
        v
    }
}

/// Whether a program (compared in lowercase) is among the running
/// processes' lowercase names.
pub fn is_process_running(running_lower: &Vec<String>, exe: &str) -> (r: bool)
    ensures
        r == string_views(running_lower@).contains(crate::text::lowercase_of(exe@)),
{
    let l = crate::text::to_lowercase(exe);
    crate::startup::contains_string_pub(running_lower, &chars_of(l.as_str()))
}

/// The programs whose caches are cleaned: display name, process, and the
/// path templates of their caches.
pub open spec fn app_cache_table_of() -> Seq<(Seq<char>, Seq<char>, Seq<Seq<char>>)> {
    seq![
        ("微信"@, "WeChat.exe"@, seq!["%APPDATA%\\Tencent\\WeChat"@, "%LOCALAPPDATA%\\Tencent\\WeChat"@]),
        ("QQ"@, "QQ.exe"@, seq!["%APPDATA%\\Tencent\\QQ"@, "%LOCALAPPDATA%\\Tencent\\QQ"@]),
        ("TIM"@, "TIM.exe"@, seq!["%APPDATA%\\Tencent\\TIM"@]),
        ("钉钉"@, "DingTalk.exe"@, seq!["%APPDATA%\\DingTalk"@]),
        ("企业微信"@, "WXWork.exe"@, seq!["%APPDATA%\\Tencent\\WXWork"@]),
        ("百度网盘"@, "BaiduNetdisk.exe"@, seq!["%APPDATA%\\baidu\\BaiduNetdisk"@]),
        ("迅雷"@, "Thunder.exe"@, seq!["%APPDATA%\\Thunder Network"@]),
        ("网易云音乐"@, "cloudmusic.exe"@, seq!["%APPDATA%\\NetEase\\CloudMusic"@]),
        ("QQ音乐"@, "QQMusic.exe"@, seq!["%APPDATA%\\Tencent\\QQMusic"@]),
        ("酷狗音乐"@, "KuGou.exe"@, seq!["%APPDATA%\\KuGou"@]),
        ("爱奇艺"@, "iQIYI.exe"@, seq!["%APPDATA%\\iQIYI Video"@]),
        ("腾讯视频"@, "QQLive.exe"@, seq!["%APPDATA%\\Tencent\\QQLive"@]),
        ("WPS"@, "wps.exe"@, seq!["%APPDATA%\\Kingsoft\\WPS Office"@]),
        ("Steam"@, "steam.exe"@, seq!["%APPDATA%\\Steam"@]),
        ("Discord"@, "Discord.exe"@, seq!["%APPDATA%\\discord"@]),
        ("Telegram"@, "Telegram.exe"@, seq!["%APPDATA%\\Telegram Desktop"@]),
    ]
}

pub open spec fn app_cache_row(t: (&'static str, &'static str, Vec<&'static str>)) -> (Seq<char>, Seq<char>, Seq<Seq<char>>) {
    (t.0@, t.1@, t.2@.map_values(|p: &'static str| p@))
}

pub fn app_cache_table() -> (r: Vec<(&'static str, &'static str, Vec<&'static str>)>)
    ensures
        r@.map_values(|t: (&'static str, &'static str, Vec<&'static str>)| app_cache_row(t)) == app_cache_table_of(),
{
    let v = vec![
        ("微信", "WeChat.exe", vec!["%APPDATA%\\Tencent\\WeChat", "%LOCALAPPDATA%\\Tencent\\WeChat"]),
        ("QQ", "QQ.exe", vec!["%APPDATA%\\Tencent\\QQ", "%LOCALAPPDATA%\\Tencent\\QQ"]),
        ("TIM", "TIM.exe", vec!["%APPDATA%\\Tencent\\TIM"]),
        ("钉钉", "DingTalk.exe", vec!["%APPDATA%\\DingTalk"]),
        ("企业微信", "WXWork.exe", vec!["%APPDATA%\\Tencent\\WXWork"]),
        ("百度网盘", "BaiduNetdisk.exe", vec!["%APPDATA%\\baidu\\BaiduNetdisk"]),
        ("迅雷", "Thunder.exe", vec!["%APPDATA%\\Thunder Network"]),
        ("网易云音乐", "cloudmusic.exe", vec!["%APPDATA%\\NetEase\\CloudMusic"]),
        ("QQ音乐", "QQMusic.exe", vec!["%APPDATA%\\Tencent\\QQMusic"]),
        ("酷狗音乐", "KuGou.exe", vec!["%APPDATA%\\KuGou"]),
        ("爱奇艺", "iQIYI.exe", vec!["%APPDATA%\\iQIYI Video"]),
        ("腾讯视频", "QQLive.exe", vec!["%APPDATA%\\Tencent\\QQLive"]),
        ("WPS", "wps.exe", vec!["%APPDATA%\\Kingsoft\\WPS Office"]),
        ("Steam", "steam.exe", vec!["%APPDATA%\\Steam"]),
        ("Discord", "Discord.exe", vec!["%APPDATA%\\discord"]),
        ("Telegram", "Telegram.exe", vec!["%APPDATA%\\Telegram Desktop"]),
    ];
    assert forall|i: int| 0 <= i < v@.len() implies app_cache_row(#[trigger] v@[i]) == app_cache_table_of()[i] by {
        assert(v@[i].2@.map_values(|p: &'static str| p@) =~= app_cache_table_of()[i].2);
    }
    assert(v@.map_values(|t: (&'static str, &'static str, Vec<&'static str>)| app_cache_row(t)) =~= app_cache_table_of());
    v
}

/// The big-file list found in the last ten minutes is reused.
pub fn big_cache_fresh(now: u128, cached_at: u128) -> (r: bool)
    requires
        cached_at <= now,
    ensures
        r == (now - cached_at < 600000),
{
    now - cached_at < 600000
}

/// Where big files are looked for: the Downloads folder (when known), then
/// the profile's Desktop and Documents.
pub fn big_file_roots(downloads: Option<&str>, profile: &str) -> (r: Vec<String>)
    ensures
        string_views(r@) == (match downloads {
            Some(d) => seq![d@],
            None => Seq::<Seq<char>>::empty(),
        }) + seq![
            crate::winpath::join_spec(profile@, "Desktop"@),
            crate::winpath::join_spec(profile@, "Documents"@),
        ],
{
    let mut v: Vec<String> = Vec::new();
    match downloads {
        Some(d) => v.push(d.to_string()),
        None => {},
    }
    let ghost before = string_views(v@);
    v.push(crate::winpath::path_join(profile, "Desktop"));
    v.push(crate::winpath::path_join(profile, "Documents"));
    assert(string_views(v@) =~= before + seq![
        crate::winpath::join_spec(profile@, "Desktop"@),
        crate::winpath::join_spec(profile@, "Documents"@),
    ]);
    v
}

/// A file is big from 100 MiB.
pub const BIG_FILE_BYTES: u64 = 104857600;

/// The big files under one root as an item (their paths recorded).
pub fn big_file_item(reg: &mut ScanRegistry, group_id: &str, root: &str, files: &Vec<(String, u64)>) -> (r: Option<ScanItem>)
    requires
        old(reg).wf(),
    ensures
        final(reg).wf(),
        ({
            let big = files@.filter(|f: (String, u64)| f.1 >= BIG_FILE_BYTES);
            &&& r is Some <==> big.len() > 0
            &&& r matches Some(it) ==> item_view(it) == (
                item_id_of(group_id@, root@),
                "大文件 ("@ + root@ + ")"@,
                "超过100MB的文件"@,
                sat_sum(big.map_values(|f: (String, u64)| f.1)),
                big.len() as u64,
                root@,
            )
            &&& big.len() > 0 ==> string_views(final(reg).results@[result_key(group_id@, item_id_of(group_id@, root@))]@)
                == big.map_values(|f: (String, u64)| f.0@)
        }),
{
    let ghost keep = |f: (String, u64)| f.1 >= BIG_FILE_BYTES;
    let mut big: Vec<(String, u64)> = Vec::new();
    let mut i: usize = 0;
    assert(files@.take(0).filter(keep) =~= Seq::<(String, u64)>::empty()) by {
        reveal(Seq::filter);
    }
    while i < files.len()
        invariant
            i <= files.len(),
            keep == (|f: (String, u64)| f.1 >= BIG_FILE_BYTES),
            big@.map_values(|f: (String, u64)| (f.0@, f.1)) == files@.take(i as int).filter(keep).map_values(|f: (String, u64)| (f.0@, f.1)),
        decreases files.len() - i,
    {
        let ghost pre = files@.take(i as int);
        assert(files@.take(i + 1) =~= pre.push(files@[i as int]));
        proof {
            pre.lemma_filter_push(files@[i as int], keep);
        }
        let ghost before = big@.map_values(|f: (String, u64)| (f.0@, f.1));
        if files[i].1 >= 104857600 {
            big.push((files[i].0.clone(), files[i].1));
            assert(big@.map_values(|f: (String, u64)| (f.0@, f.1)) =~= before.push((files@[i as int].0@, files@[i as int].1)));
            assert(pre.filter(keep).push(files@[i as int]).map_values(|f: (String, u64)| (f.0@, f.1)) =~= pre.filter(keep).map_values(|f: (String, u64)| (f.0@, f.1)).push((files@[i as int].0@, files@[i as int].1)));
        }
        i += 1;
    }
    assert(files@.take(files.len() as int) =~= files@);
    let ghost bigs = files@.filter(keep);
    assert(big@.len() == bigs.len()) by {
        assert(big@.map_values(|f: (String, u64)| (f.0@, f.1)).len() == bigs.map_values(|f: (String, u64)| (f.0@, f.1)).len());
    }
    assert(big@.map_values(|f: (String, u64)| f.1) =~= bigs.map_values(|f: (String, u64)| f.1)) by {
        assert forall|k: int| 0 <= k < big@.len() implies big@[k].1 == bigs[k].1 by {
            assert(big@.map_values(|f: (String, u64)| (f.0@, f.1))[k] == bigs.map_values(|f: (String, u64)| (f.0@, f.1))[k]);
        }
    }
    assert(big@.map_values(|f: (String, u64)| f.0@) =~= bigs.map_values(|f: (String, u64)| f.0@)) by {
        assert forall|k: int| 0 <= k < big@.len() implies big@[k].0@ == bigs[k].0@ by {
            assert(big@.map_values(|f: (String, u64)| (f.0@, f.1))[k] == bigs.map_values(|f: (String, u64)| (f.0@, f.1))[k]);
        }
    }
    let n1 = crate::startup::concat("大文件 (", root);
    let name = crate::startup::concat(n1.as_str(), ")");
    glob_item(reg, group_id, name.as_str(), "超过100MB的文件", root, &big)
}

/// An extension folder is named by 32 ASCII letters.
pub open spec fn spec_is_extension_id(name: Seq<char>) -> bool {
    name.len() == 32 && forall|i: int| 0 <= i < 32 ==> crate::text::is_ascii_alpha(#[trigger] name[i])
}

pub fn is_extension_id(name: &str) -> (r: bool)
    ensures
        r == spec_is_extension_id(name@),
{
    let c = chars_of(name);
    if c.len() != 32 {
        return false;
    }
    let mut i: usize = 0;
    while i < 32
        invariant
            c@ == name@,
            c.len() == 32,
            i <= 32,
            forall|j: int| 0 <= j < i ==> crate::text::is_ascii_alpha(#[trigger] name@[j]),
        decreases 32 - i,
    {
        let ch = c[i];
        if !(('a' <= ch && ch <= 'z') || ('A' <= ch && ch <= 'Z')) {
            return false;
        }
        i += 1;
    }
    true
}

/// The extension folders of the Chrome and Edge default profiles.
pub open spec fn extension_bases_of(la: Seq<char>) -> Seq<Seq<char>> {
    seq![
        crate::winpath::join_spec(j3(crate::winpath::join_spec(la, "Google"@), "Chrome"@, "User Data"@, "Default"@), "Extensions"@),
        crate::winpath::join_spec(j3(crate::winpath::join_spec(la, "Microsoft"@), "Edge"@, "User Data"@, "Default"@), "Extensions"@),
    ]
}

fn join_all(base: &str, names: &Vec<&str>) -> (r: String)
    ensures
        r@ == names@.fold_left(base@, |acc: Seq<char>, n: &str| crate::winpath::join_spec(acc, n@)),
{
    let mut r = base.to_string();
    let mut i: usize = 0;
    while i < names.len()
        invariant
            i <= names.len(),
            r@ == names@.take(i as int).fold_left(base@, |acc: Seq<char>, n: &str| crate::winpath::join_spec(acc, n@)),
        decreases names.len() - i,
    {
        proof {
            assert(names@.take(i + 1).drop_last() =~= names@.take(i as int));
        }
        r = crate::winpath::path_join(r.as_str(), names[i]);
        i += 1;
    }
    assert(names@.take(names.len() as int) =~= names@);
    r
}

pub fn extension_bases(la: &str) -> (r: Vec<String>)
    ensures
        string_views(r@) == extension_bases_of(la@),
{
    let chrome = vec!["Google", "Chrome", "User Data", "Default", "Extensions"];
    let edge = vec!["Microsoft", "Edge", "User Data", "Default", "Extensions"];
    let a = join_all(la, &chrome);
    let b = join_all(la, &edge);
    proof {
        reveal_with_fuel(Seq::fold_left, 6);
        assert(chrome@.drop_last().drop_last().drop_last().drop_last().drop_last() =~= Seq::<&str>::empty());
        assert(edge@.drop_last().drop_last().drop_last().drop_last().drop_last() =~= Seq::<&str>::empty());
    }
    let v = vec![a, b];
    assert(string_views(v@) =~= extension_bases_of(la@));
    v
}

/// A browser extension folder as an item: listed (the folder recorded as
/// its only file) when its name is an extension id and it holds anything;
/// named by the first eight letters of the id.
pub fn extension_item(reg: &mut ScanRegistry, group_id: &str, ext_id: &str, ext_dir: &str, size: u64) -> (r: Option<ScanItem>)
    requires
        old(reg).wf(),
    ensures
        final(reg).wf(),
        r is Some <==> (spec_is_extension_id(ext_id@) && size > 0),
        r matches Some(it) ==> item_view(it) == (
            item_id_of(group_id@, ext_dir@),
            "扩展 "@ + ext_id@.take(8) + "..."@,
            ext_dir@,
            size,
            1u64,
            ext_dir@,
        ) && it.safe && it.checked,
        r is Some ==> final(reg).results@ == old(reg).results@.insert(
            result_key(group_id@, item_id_of(group_id@, ext_dir@)),
            final(reg).results@[result_key(group_id@, item_id_of(group_id@, ext_dir@))],
        ) && string_views(final(reg).results@[result_key(group_id@, item_id_of(group_id@, ext_dir@))]@) == seq![ext_dir@],
        r is None ==> final(reg).results@ == old(reg).results@,
        final(reg).fixes@ == old(reg).fixes@,
        final(reg).group_defs@ == old(reg).group_defs@,
{
    if !is_extension_id(ext_id) || size == 0 {
        return None;
    }
    let c = chars_of(ext_id);
    let prefix = crate::text::slice_chars(&c, 0, 8);
    assert(prefix@ == ext_id@.take(8));
    let n1 = crate::startup::concat("扩展 ", string_of(&prefix).as_str());
    let name = crate::startup::concat(n1.as_str(), "...");
    let id = item_id(group_id, ext_dir);
    let files = vec![ext_dir.to_string()];
    assert(string_views(files@) =~= seq![ext_dir@]);
    reg.record_scan_files(group_id, id.as_str(), files);
    Some(scan_item(id, name, ext_dir.to_string(), size, 1, ext_dir.to_string()))
}

/// The folders scanned for plug-in leftovers: the downloaded program files
/// under the system root, and the Office add-ins under the roaming
/// application data.
pub open spec fn sys_plugin_dirs_of(sr: Seq<char>, app_data: Seq<char>) -> Seq<Seq<char>> {
    seq![
        crate::winpath::join_spec(sr, "Downloaded Program Files"@),
        j2(app_data, "Microsoft"@, "AddIns"@),
    ]
}

pub fn sys_plugin_dirs(sr: &str, app_data: &str) -> (r: Vec<String>)
    ensures
        string_views(r@) == sys_plugin_dirs_of(sr@, app_data@),
{
    let m = crate::winpath::path_join(app_data, "Microsoft");
    let v = vec![
        crate::winpath::path_join(sr, "Downloaded Program Files"),
        crate::winpath::path_join(m.as_str(), "AddIns"),
    ];
    assert(string_views(v@) =~= sys_plugin_dirs_of(sr@, app_data@));
    v
}

/// A plug-in folder's scan result as an item named after the folder: its
/// count and size are those of the files found, whose paths are recorded.
pub fn plugin_item(
    reg: &mut ScanRegistry,
    group_id: &str,
    dir: &str,
    files: &Vec<(String, u64)>,
) -> (r: Option<ScanItem>)
    requires
        old(reg).wf(),
    ensures
        final(reg).wf(),
        r is Some <==> files@.len() > 0,
        r matches Some(it) ==> item_view(it) == (
            item_id_of(group_id@, dir@),
            "插件残留 ("@ + dir@ + ")"@,
            dir@,
            sat_sum(files@.map_values(|f: (String, u64)| f.1)),
            files@.len() as u64,
            dir@,
        ) && it.safe && it.checked,
        files@.len() > 0 ==> ({
            let key = result_key(group_id@, item_id_of(group_id@, dir@));
            &&& final(reg).results@ == old(reg).results@.insert(key, final(reg).results@[key])
            &&& string_views(final(reg).results@[key]@) == files@.map_values(|f: (String, u64)| f.0@)
        }),
        files@.len() == 0 ==> final(reg).results@ == old(reg).results@,
        final(reg).fixes@ == old(reg).fixes@,
        final(reg).group_defs@ == old(reg).group_defs@,
{
    let n1 = crate::startup::concat("插件残留 (", dir);
    let name = crate::startup::concat(n1.as_str(), ")");
    found_item(reg, group_id, name.as_str(), dir, dir, files)
}

/// A finished clean group as reported: the definition's id, name and icon,
/// the tab, whether it starts checked, whether it is risky, and its items.
pub struct CleanGroup {
    pub group_id: String,
    pub group_name: String,
    pub icon: String,
    pub category: String,
    pub checked: bool,
    pub risky: bool,
    pub items: Vec<ScanItem>,
    pub expandable: bool,
    pub extra_count: usize,
}

/// A group starts checked when its definition is checked and not risky.
pub open spec fn group_checked(d: GroupDef) -> bool {
    d.checked && !d.risky
}

pub open spec fn item_views(s: Seq<ScanItem>) -> Seq<ItemView> {
    s.map_values(|it: ScanItem| item_view(it))
}

/// The items of a finished group: as found, each checked as the group is and
/// marked risky as the group is.
pub fn finish_group(def: &GroupDef, tab: &str, items: &Vec<ScanItem>) -> (g: CleanGroup)
    ensures
        g.group_id@ == def.group_id@,
        g.group_name@ == def.group_name@,
        g.icon@ == def.icon@,
        g.category@ == tab@,
        g.checked == group_checked(*def),
        g.risky == def.risky,
        item_views(g.items@) == item_views(items@),
        forall|i: int| 0 <= i < g.items@.len() ==> (#[trigger] g.items@[i]).checked == group_checked(*def)
            && g.items@[i].risky == def.risky && g.items@[i].safe == items@[i].safe,
        g.expandable,
        g.extra_count == items@.len(),
{
    let checked = def.checked && !def.risky;
    let mut out: Vec<ScanItem> = Vec::new();
    let mut i: usize = 0;
    while i < items.len()
        invariant
            i <= items.len(),
            checked == group_checked(*def),
            out@.len() == i,
            forall|j: int| 0 <= j < i ==> item_view(#[trigger] out@[j]) == item_view(items@[j])
                && out@[j].checked == checked && out@[j].risky == def.risky && out@[j].safe == items@[j].safe,
        decreases items.len() - i,
    {
        let it = &items[i];
        out.push(ScanItem {
            id: it.id.clone(),
            name: it.name.clone(),
            desc: it.desc.clone(),
            size: it.size,
            count: it.count,
            path: it.path.clone(),
            safe: it.safe,
            checked,
            risky: def.risky,
        });
        i += 1;
    }
    assert(item_views(out@) =~= item_views(items@)) by {
        assert forall|j: int| 0 <= j < out@.len() implies item_views(out@)[j] == item_views(items@)[j] by {
            assert(item_view(out@[j]) == item_view(items@[j]));
        }
    }
    CleanGroup {
        group_id: def.group_id.clone(),
        group_name: def.group_name.clone(),
        icon: def.icon.clone(),
        category: tab.to_string(),
        checked,
        risky: def.risky,
        items: out,
        expandable: true,
        extra_count: items.len(),
    }
}

/// The sum of the items' sizes.
pub open spec fn items_size(s: Seq<ItemView>) -> int
    decreases s.len(),
{
    if s.len() == 0 {
        0
    } else {
        items_size(s.drop_last()) + s.last().3
    }
}

/// The sum of the items' file counts.
pub open spec fn items_count(s: Seq<ItemView>) -> int
    decreases s.len(),
{
    if s.len() == 0 {
        0
    } else {
        items_count(s.drop_last()) + s.last().4
    }
}

/// The running totals of a clean scan: bytes and files over all finished
/// groups.
pub struct CleanTotals {
    pub total_size: u64,
    pub total_count: u64,
}

impl CleanTotals {
    pub fn new() -> (t: CleanTotals)
        ensures
            t.total_size == 0,
            t.total_count == 0,
    {
        CleanTotals { total_size: 0, total_count: 0 }
    }

    /// Adds a finished group's items; the sums must fit in 64 bits.
    pub fn add_group(&mut self, items: &Vec<ScanItem>)
        requires
            old(self).total_size + items_size(item_views(items@)) <= u64::MAX,
            old(self).total_count + items_count(item_views(items@)) <= u64::MAX,
        ensures
            final(self).total_size == old(self).total_size + items_size(item_views(items@)),
            final(self).total_count == old(self).total_count + items_count(item_views(items@)),
    {
        let ghost v = item_views(items@);
        let ghost s0 = self.total_size;
        let ghost c0 = self.total_count;
        let mut i: usize = 0;
        while i < items.len()
            invariant
                i <= items.len(),
                v == item_views(items@),
                s0 + items_size(v) <= u64::MAX,
                c0 + items_count(v) <= u64::MAX,
                self.total_size == s0 + items_size(v.take(i as int)),
                self.total_count == c0 + items_count(v.take(i as int)),
            decreases items.len() - i,
        {
            proof {
                assert(v.take(i + 1).drop_last() =~= v.take(i as int));
                lemma_items_sums_grow(v, i as int + 1);
            }
            self.total_size = self.total_size + items[i].size;
            self.total_count = self.total_count + items[i].count;
            i += 1;
        }
        assert(v.take(items.len() as int) =~= v);
    }
}

proof fn lemma_items_sums_grow(v: Seq<ItemView>, k: int)
    requires
        0 <= k <= v.len(),
    ensures
        items_size(v.take(k)) <= items_size(v),
        items_count(v.take(k)) <= items_count(v),
    decreases v.len() - k,
{
    if k < v.len() {
        lemma_items_sums_grow(v, k + 1);
        assert(v.take(k + 1).drop_last() =~= v.take(k));
    } else {
        assert(v.take(k) =~= v);
    }
}

/// The speed-up categories in scan order: id, name, description, icon.
pub open spec fn speedup_categories_of() -> Seq<(Seq<char>, Seq<char>, Seq<char>, Seq<char>)> {
    seq![
        ("win11"@, "Win11加速项"@, "优化Win11系统和内存设置"@, "win11"@),
        ("boot"@, "开机加速"@, "禁用非必要自启项目"@, "boot"@),
        ("software"@, "软件运行加速"@, "退出暂不使用的后台软件"@, "software"@),
        ("system"@, "系统加速"@, "关闭非必要系统服务"@, "system"@),
        ("disk"@, "硬盘加速"@, "检查磁盘空间与传输效率"@, "disk"@),
        ("network"@, "网络加速"@, "优化DNS与网络参数"@, "network"@),
    ]
}

pub fn speedup_categories() -> (r: Vec<(&'static str, &'static str, &'static str, &'static str)>)
    ensures
        r@.map_values(|c: (&'static str, &'static str, &'static str, &'static str)| (c.0@, c.1@, c.2@, c.3@))
            == speedup_categories_of(),
{
    let v = vec![
        ("win11", "Win11加速项", "优化Win11系统和内存设置", "win11"),
        ("boot", "开机加速", "禁用非必要自启项目", "boot"),
        ("software", "软件运行加速", "退出暂不使用的后台软件", "software"),
        ("system", "系统加速", "关闭非必要系统服务", "system"),
        ("disk", "硬盘加速", "检查磁盘空间与传输效率", "disk"),
        ("network", "网络加速", "优化DNS与网络参数", "network"),
    ];
    assert(v@.map_values(|c: (&'static str, &'static str, &'static str, &'static str)| (c.0@, c.1@, c.2@, c.3@))
        =~= speedup_categories_of());
    v
}

/// The name of a browser's or a program's cache item.
pub fn cache_item_name(name: &str) -> (r: String)
    ensures
        r@ == name@ + "缓存"@,
{
    crate::startup::concat(name, "缓存")
}

} // verus!
