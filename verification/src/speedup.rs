//! Applying speed-up fixes: what each fix's action takes, the guards that
//! refuse it, and how the results are reported.

use vstd::prelude::*;
use crate::text::{chars_of, string_of, contains, contains_seq, spec_decimal, lowercase_of};
use crate::scan_scheduler::{Fix, FixTarget, RegData, TargetView, RegDataView, target_view, ScanRegistry, StoredFix, safe_to_close_list};
use crate::startup::concat;

verus! {

/// What applying a fix takes.
#[allow(inconsistent_fields)]
pub enum FixStep {
    /// The answer, without touching the system.
    Reply { ok: bool, message: String },
    /// Disable the (unprotected) service.
    DisableService { name: String },
    /// List the processes, then decide with `kill_decision`.
    CheckProcess { pid: u32 },
    /// `reg add` the value (binary as upper-case hex, text, or number).
    SetBinary { key_path: String, value_name: String, hex: String },
    SetString { key_path: String, value_name: String, value: String },
    SetDword { key_path: String, value_name: String, value: u32 },
    /// `ipconfig /flushdns`.
    FlushDns,
    /// Delete files older than 7 days (at most 2000) under the folder.
    CleanFile { dir: String },
}

/// `apply_fix`: the step a fix's action and target call for. An unknown
/// action, a missing or mistyped target, a protected service and an unsafe
/// folder are answered at once.
pub fn plan_fix(
    action: &str,
    target: &FixTarget,
    user_profile: Option<&str>,
    protected_dirs: &Vec<String>,
) -> (r: FixStep)
    ensures
        action@ == "disable_service"@ ==> match target_view(*target) {
            TargetView::Name(n) => if crate::service::spec_is_protected(n) {
                r matches FixStep::Reply { ok, message } && !ok && message@ == "Protected service: "@ + n
            } else {
                r matches FixStep::DisableService { name } && name@ == n
            },
            _ => r matches FixStep::Reply { ok, message } && !ok && message@
                == "disable_service: missing target (service name)"@,
        },
        action@ == "kill_process"@ ==> match target_view(*target) {
            TargetView::Pid(p) => r matches FixStep::CheckProcess { pid } && pid == p as u32,
            _ => r matches FixStep::Reply { ok, message } && !ok && message@
                == "kill_process: missing target (pid)"@,
        },
        action@ == "reg_set"@ ==> match target_view(*target) {
            TargetView::Registry(k, n, d) => match d {
                RegDataView::Binary(b) => r matches FixStep::SetBinary { key_path, value_name, hex }
                    && key_path@ == k && value_name@ == n && hex@ == crate::text::spec_hex_upper(b),
                RegDataView::Text(t) => r matches FixStep::SetString { key_path, value_name, value }
                    && key_path@ == k && value_name@ == n && value@ == t,
                RegDataView::Dword(v) => r matches FixStep::SetDword { key_path, value_name, value }
                    && key_path@ == k && value_name@ == n && value == v,
            },
            _ => r matches FixStep::Reply { ok, message } && !ok && message@
                == "reg_set: missing keyPath"@,
        },
        action@ == "flush_dns"@ ==> r is FlushDns,
        action@ == "clean_file"@ ==> match target_view(*target) {
            TargetView::Name(d) => if crate::rules_engine::spec_is_safe_path(
                d,
                d,
                crate::rules_engine::opt_view(user_profile),
                crate::rules_engine::string_views(protected_dirs@),
            ) {
                r matches FixStep::CleanFile { dir } && dir@ == d
            } else {
                r matches FixStep::Reply { ok, message } && !ok && message@
                    == "unsafe path: clean_file target not allowed"@
            },
            _ => r matches FixStep::Reply { ok, message } && !ok && message@
                == "clean_file: missing target (directory path)"@,
        },
        action@ != "disable_service"@ && action@ != "kill_process"@ && action@ != "reg_set"@
            && action@ != "flush_dns"@ && action@ != "clean_file"@ ==> (r matches FixStep::Reply {
            ok,
            message,
        } && !ok && message@ == "unknown action: "@ + action@),
{
    let a = chars_of(action);
    proof {
        reveal_strlit("disable_service");
        reveal_strlit("kill_process");
        reveal_strlit("reg_set");
        reveal_strlit("flush_dns");
        reveal_strlit("clean_file");
        assert("disable_service"@.len() == 15);
        assert("kill_process"@.len() == 12);
        assert("reg_set"@.len() == 7);
        assert("flush_dns"@.len() == 9);
        assert("clean_file"@.len() == 10);
    }
    if crate::text::seq_equal(&a, &chars_of("disable_service")) {
        return match target {
            FixTarget::Name(n) => if crate::service::is_protected(n.as_str()) {
                FixStep::Reply { ok: false, message: concat("Protected service: ", n.as_str()) }
            } else {
                FixStep::DisableService { name: n.clone() }
            },
            _ => FixStep::Reply { ok: false, message: "disable_service: missing target (service name)".to_string() },
        };
    }
    if crate::text::seq_equal(&a, &chars_of("kill_process")) {
        return match target {
            FixTarget::Pid(p) => FixStep::CheckProcess { pid: *p as u32 },
            _ => FixStep::Reply { ok: false, message: "kill_process: missing target (pid)".to_string() },
        };
    }
    if crate::text::seq_equal(&a, &chars_of("reg_set")) {
        return match target {
            FixTarget::Registry { key_path, value_name, data } => match data {
                RegData::Binary(b) => FixStep::SetBinary {
                    key_path: key_path.clone(),
                    value_name: value_name.clone(),
                    hex: string_of(&crate::text::hex_upper(b.as_slice())),
                },
                RegData::Text(t) => FixStep::SetString { key_path: key_path.clone(), value_name: value_name.clone(), value: t.clone() },
                RegData::Dword(v) => FixStep::SetDword { key_path: key_path.clone(), value_name: value_name.clone(), value: *v },
            },
            _ => FixStep::Reply { ok: false, message: "reg_set: missing keyPath".to_string() },
        };
    }
    if crate::text::seq_equal(&a, &chars_of("flush_dns")) {
        return FixStep::FlushDns;
    }
    if crate::text::seq_equal(&a, &chars_of("clean_file")) {
        return match target {
            FixTarget::Name(d) => if crate::rules_engine::is_safe_path(d.as_str(), d.as_str(), user_profile, protected_dirs) {
                FixStep::CleanFile { dir: d.clone() }
            } else {
                FixStep::Reply { ok: false, message: "unsafe path: clean_file target not allowed".to_string() }
            },
            _ => FixStep::Reply { ok: false, message: "clean_file: missing target (directory path)".to_string() },
        };
    }
    FixStep::Reply { ok: false, message: concat("unknown action: ", action) }
}

/// What to do about a process to close, once the processes are listed.
pub enum KillStep {
    /// It is gone already: the answer is `ok`.
    AlreadyExited,
    /// The id now belongs to a process not on the list: skipped.
    Reused { name: String },
    /// Run `taskkill`.
    Kill,
}

/// The first process with this id (ids read as 0 where missing).
pub open spec fn find_pid(procs: Seq<(u64, Seq<char>)>, pid: u32) -> Option<Seq<char>>
    decreases procs.len(),
{
    if procs.len() == 0 {
        None
    } else if procs[0].0 == pid as u64 {
        Some(procs[0].1)
    } else {
        find_pid(procs.drop_first(), pid)
    }
}

pub open spec fn proc_views(p: Seq<(u64, String)>) -> Seq<(u64, Seq<char>)> {
    p.map_values(|x: (u64, String)| (x.0, x.1@))
}

/// The guard against a reused process id: only a process still running
/// under a name on the safe-to-close list is killed.
pub fn kill_decision(procs: &Vec<(u64, String)>, pid: u32) -> (r: KillStep)
    ensures
        find_pid(proc_views(procs@), pid) is None ==> r is AlreadyExited,
        find_pid(proc_views(procs@), pid) matches Some(n) ==> if safe_to_close_list().contains(
            lowercase_of(n),
        ) {
            r is Kill
        } else {
            r matches KillStep::Reused { name } && name@ == lowercase_of(n)
        },
{
    let ghost all = proc_views(procs@);
    let mut i: usize = 0;
    assert(all.skip(0) =~= all);
    while i < procs.len()
        invariant
            i <= procs.len(),
            all == proc_views(procs@),
            find_pid(all, pid) == find_pid(all.skip(i as int), pid),
        decreases procs.len() - i,
    {
        assert(all.skip(i as int)[0] == (procs@[i as int].0, procs@[i as int].1@));
        assert(all.skip(i as int).drop_first() =~= all.skip(i + 1));
        if procs[i].0 == pid as u64 {
            let lower = crate::text::to_lowercase(procs[i].1.as_str());
            if crate::scan_scheduler::is_safe_to_close(lower.as_str()) {
                return KillStep::Kill;
            }
            return KillStep::Reused { name: lower };
        }
        i += 1;
    }
    assert(all.skip(i as int).len() == 0);
    KillStep::AlreadyExited
}

/// The message for a reused id.
pub open spec fn reused_message(name: Seq<char>) -> Seq<char> {
    "PID reused by other process ("@ + name + "), skipped"@
}

pub fn reused_message_exec(name: &str) -> (r: String)
    ensures
        r@ == reused_message(name@),
{
    let a = concat("PID reused by other process (", name);
    concat(a.as_str(), "), skipped")
}

/// `ipconfig /flushdns` succeeded when its output says so.
pub open spec fn spec_flush_ok(out: Seq<char>) -> bool {
    contains_seq(out, "成功"@) || contains_seq(out, "Successfully"@) || contains_seq(out, "flushed"@)
}

/// A flush is reported ok exactly when `ipconfig` says it succeeded: its
/// output holds `成功` (Chinese Windows), `Successfully` or `flushed`.
pub proof fn law_flush_ok_words(out: Seq<char>)
    ensures
        contains_seq(out, "成功"@) ==> spec_flush_ok(out),
        contains_seq(out, "Successfully"@) ==> spec_flush_ok(out),
        contains_seq(out, "flushed"@) ==> spec_flush_ok(out),
        !contains_seq(out, "成功"@) && !contains_seq(out, "Successfully"@) && !contains_seq(out, "flushed"@)
            ==> !spec_flush_ok(out),
{
}

pub fn flush_ok(out: &str) -> (r: bool)
    ensures
        r == spec_flush_ok(out@),
{
    let o = chars_of(out);
    contains(&o, &chars_of("成功")) || contains(&o, &chars_of("Successfully")) || contains(&o, &chars_of("flushed"))
}

/// The most files one `clean_file` fix deletes.
pub const CLEAN_FILE_LIMIT: usize = 2000;

/// The report of a `clean_file` fix.
pub open spec fn clean_file_message_of(deleted: u64, freed: u64) -> Seq<char> {
    "deleted "@ + spec_decimal(deleted as nat) + " files (>=7d), freed "@ + spec_decimal(freed as nat)
        + " bytes"@
}

pub fn clean_file_message(deleted: u64, freed: u64) -> (r: String)
    ensures
        r@ == clean_file_message_of(deleted, freed),
{
    let mut m = chars_of("deleted ");
    crate::text::append_chars(&mut m, &crate::text::decimal(deleted));
    crate::text::append_chars(&mut m, &chars_of(" files (>=7d), freed "));
    crate::text::append_chars(&mut m, &crate::text::decimal(freed));
    crate::text::append_chars(&mut m, &chars_of(" bytes"));
    string_of(&m)
}

/// `optimize`'s first step for one id: the fix recorded under it, or the
/// answer for an unknown id.
pub fn optimize_lookup<'a>(reg: &'a ScanRegistry, id: &str) -> (r: Result<&'a StoredFix, String>)
    requires
        reg.wf(),
    ensures
        reg.fixes@.dom().contains(id@) ==> (r matches Ok(f) && *f == reg.fixes@[id@]),
        !reg.fixes@.dom().contains(id@) ==> (r matches Err(m) && m@ == "unknown fix id"@),
{
    match reg.get_fix(id) {
        Some(f) => Ok(f),
        None => Err("unknown fix id".to_string()),
    }
}

} // verus!
