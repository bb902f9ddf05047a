//! Processes: the result of `taskkill`.

use vstd::prelude::*;
use crate::text::{chars_of, contains, contains_seq};

verus! {

/// What `taskkill /PID n /F` reports.
pub struct KillReply {
    pub ok: bool,
    pub code: i64,
    pub message: String,
}

/// `taskkill` succeeded when its output says so (in English or Chinese).
pub open spec fn spec_kill_ok(out: Seq<char>) -> bool {
    contains_seq(out, "SUCCESS"@) || contains_seq(out, "成功"@)
}

pub fn kill_reply(out: &str) -> (r: KillReply)
    ensures
        r.ok == spec_kill_ok(out@),
        r.code == (if r.ok { 0i64 } else { 1i64 }),
        r.message@ == out@,
{
    let o = chars_of(out);
    let ok = contains(&o, &chars_of("SUCCESS")) || contains(&o, &chars_of("成功"));
    KillReply { ok, code: if ok { 0 } else { 1 }, message: out.to_string() }
}

/// The arguments of `taskkill` for one process.
pub fn kill_args(pid: u32) -> (r: Vec<String>)
    ensures
        r@.len() == 3,
        r@[0]@ == "/PID"@,
        r@[1]@ == crate::text::spec_decimal(pid as nat),
        r@[2]@ == "/F"@,
{
    let n = crate::text::string_of(&crate::text::decimal(pid as u64));
    vec!["/PID".to_string(), n, "/F".to_string()]
}

} // verus!
