//! Clean execution: which items are cleaned and how, the checks every target
//! passes before removal, the white list of protected file digests, and the
//! running totals of a clean.
//!
//! The file-system work (resolving paths, probing locks, reading and
//! removing files) is done by the caller, which asks `next_target_step`
//! what to do next and reports each answer back.

use vstd::prelude::*;
use crate::text::{
    chars_of, string_of, spec_decimal, pad_left, zero_padded, append_chars, spec_hex_upper,
    hex_upper, seq_equal, views, is_ascii_alpha,
};
use crate::rules_engine::{
    spec_is_protected_user_dir, spec_is_safe_path, is_protected_user_dir, is_safe_path,
    string_views, opt_view,
};

verus! {

/// The drive letter of a path such as `C:\Temp` or `d:/x`, upper-cased.
pub open spec fn spec_extract_drive(path: Seq<char>) -> Option<char> {
    if path.len() >= 2 && is_ascii_alpha(path[0]) && path[1] == ':' {
        Some(crate::text::spec_ascii_upper(path[0]))
    } else {
        None
    }
}

pub fn extract_drive(path: &str) -> (r: Option<char>)
    ensures
        r == spec_extract_drive(path@),
{
    let c = chars_of(path);
    if c.len() >= 2 && c[1] == ':' && crate::winpath::is_ascii_alpha_char(c[0]) {
        Some(crate::text::ascii_upper(c[0]))
    } else {
        None
    }
}

pub open spec fn spec_is_leap_year(year: int) -> bool {
    (year % 4 == 0 && year % 100 != 0) || (year % 400 == 0)
}

pub fn is_leap_year(year: u64) -> (r: bool)
    ensures
        r == spec_is_leap_year(year as int),
{
    (year % 4 == 0 && year % 100 != 0) || (year % 400 == 0)
}

pub open spec fn days_in_year(year: int) -> int {
    if spec_is_leap_year(year) {
        366
    } else {
        365
    }
}

/// The year that day `days` (counted from 1 January of `year`) falls in,
/// and the day's index within that year.
pub open spec fn year_of_day(days: int, year: int) -> (int, int)
    decreases days,
{
    if days >= days_in_year(year) && days >= 0 {
        year_of_day(days - days_in_year(year), year + 1)
    } else {
        (year, days)
    }
}

pub open spec fn days_in_month(month: int, leap: bool) -> int {
    if month == 2 {
        if leap {
            29
        } else {
            28
        }
    } else if month == 4 || month == 6 || month == 9 || month == 11 {
        30
    } else {
        31
    }
}

/// The month (from `month` on) that day-of-year `days` falls in, and the
/// day's index within it; the count stops after December.
pub open spec fn month_of_day(days: int, month: int, leap: bool) -> (int, int)
    decreases 13 - month,
{
    if month <= 12 && days >= days_in_month(month, leap) {
        month_of_day(days - days_in_month(month, leap), month + 1, leap)
    } else {
        (month, days)
    }
}

/// The calendar date (year, month, day) of a Unix time in seconds.
pub open spec fn civil_date(secs: nat) -> (int, int, int) {
    let y = year_of_day((secs / 86400) as int, 1970);
    let m = month_of_day(y.1, 1, spec_is_leap_year(y.0));
    (y.0, m.0, m.1 + 1)
}

/// `YYYY-MM-DD` of the date, as `{:04}-{:02}-{:02}` renders it.
pub open spec fn date_text(date: (int, int, int)) -> Seq<char> {
    pad_left(spec_decimal(date.0 as nat), 4, '0') + seq!['-'] + pad_left(
        spec_decimal(date.1 as nat),
        2,
        '0',
    ) + seq!['-'] + pad_left(spec_decimal(date.2 as nat), 2, '0')
}

/// Today's date as `YYYY-MM-DD`, for a clock reading of `now_secs` seconds
/// since the Unix epoch.
pub fn today_str(now_secs: u64) -> (r: String)
    ensures
        r@ == date_text(civil_date(now_secs as nat)),
{
    let mut days: u64 = now_secs / 86400;
    let mut year: u64 = 1970;
    while days >= year_length(year)
        invariant
            year_of_day((now_secs / 86400) as int, 1970) == year_of_day(days as int, year as int),
            1970 <= year <= 1970 + (now_secs / 86400) - days,
            days <= now_secs / 86400,
        decreases days,
    {
        days -= year_length(year);
        year += 1;
    }
    let ghost yd = year_of_day((now_secs / 86400) as int, 1970);
    assert(yd == (year as int, days as int));
    let leap = is_leap_year(year);
    let mut month: u64 = 1;
    while month <= 12 && days >= days_in_month_exec(month, leap)
        invariant
            1 <= month <= 13,
            month_of_day(yd.1, 1, leap) == month_of_day(days as int, month as int, leap),
            leap == spec_is_leap_year(yd.0),
            days <= yd.1,
        decreases 13 - month,
    {
        days -= days_in_month_exec(month, leap);
        month += 1;
    }
    assert(month_of_day(days as int, month as int, leap) == (month as int, days as int));
    let mut out = zero_padded(year, 4);
    out.push('-');
    let mm = zero_padded(month, 2);
    append_chars(&mut out, &mm);
    out.push('-');
    let dd = zero_padded(days + 1, 2);
    append_chars(&mut out, &dd);
    string_of(&out)
}

fn year_length(year: u64) -> (r: u64)
    ensures
        r == days_in_year(year as int),
{
    if is_leap_year(year) {
        366
    } else {
        365
    }
}

fn days_in_month_exec(month: u64, leap: bool) -> (r: u64)
    ensures
        r == days_in_month(month as int, leap),
{
    if month == 2 {
        if leap {
            29
        } else {
            28
        }
    } else if month == 4 || month == 6 || month == 9 || month == 11 {
        30
    } else {
        31
    }
}

proof fn lemma_decimal_len(n: nat)
    ensures
        spec_decimal(n).len() >= 1,
        n < 10 ==> spec_decimal(n).len() == 1,
        n < 100 ==> spec_decimal(n).len() <= 2,
        n < 1000 ==> spec_decimal(n).len() <= 3,
        n < 10000 ==> spec_decimal(n).len() <= 4,
    decreases n,
{
    if n >= 10 {
        lemma_decimal_len(n / 10);
    }
}

proof fn lemma_pad_len(s: Seq<char>, w: nat, f: char)
    requires
        s.len() <= w,
    ensures
        pad_left(s, w, f).len() == w,
{
}

proof fn lemma_year_of_day(days: int, year: int)
    requires
        days >= 0,
    ensures
        year_of_day(days, year).0 >= year,
        0 <= year_of_day(days, year).1 < days_in_year(year_of_day(days, year).0),
    decreases days,
{
    if days >= days_in_year(year) {
        lemma_year_of_day(days - days_in_year(year), year + 1);
    }
}

proof fn lemma_month_of_day(days: int, leap: bool)
    requires
        0 <= days < (if leap { 366int } else { 365int }),
    ensures
        1 <= month_of_day(days, 1, leap).0 <= 12,
        0 <= month_of_day(days, 1, leap).1 < 31,
{
    reveal_with_fuel(month_of_day, 13);
}

/// The date text is ten characters, `YYYY-MM-DD` with `-` at positions 4
/// and 7, for every clock reading whose year is at most 9999.
pub proof fn law_date_text_shape(secs: nat)
    requires
        civil_date(secs).0 <= 9999,
    ensures
        date_text(civil_date(secs)).len() == 10,
        date_text(civil_date(secs))[4] == '-',
        date_text(civil_date(secs))[7] == '-',
{
    let y = year_of_day((secs / 86400) as int, 1970);
    lemma_year_of_day((secs / 86400) as int, 1970);
    let leap = spec_is_leap_year(y.0);
    lemma_month_of_day(y.1, leap);
    let d = civil_date(secs);
    assert(0 <= d.0 <= 9999 && 1 <= d.1 <= 12 && 1 <= d.2 <= 31);
    lemma_decimal_len(d.0 as nat);
    lemma_decimal_len(d.1 as nat);
    lemma_decimal_len(d.2 as nat);
    lemma_pad_len(spec_decimal(d.0 as nat), 4, '0');
    lemma_pad_len(spec_decimal(d.1 as nat), 2, '0');
    lemma_pad_len(spec_decimal(d.2 as nat), 2, '0');
}

} // verus!

verus! {

/// What the safety rules need besides the paths: the user profile (when
/// `%USERPROFILE%` is set) and the protected user folders as resolved.
pub struct SafetyContext {
    pub user_profile: Option<String>,
    pub protected_dirs: Vec<String>,
}

pub open spec fn opt_string_view(o: Option<String>) -> Option<Seq<char>> {
    match o {
        Some(s) => Some(s@),
        None => None,
    }
}

impl SafetyContext {
    pub open spec fn up(&self) -> Option<Seq<char>> {
        opt_string_view(self.user_profile)
    }

    pub open spec fn dirs(&self) -> Seq<Seq<char>> {
        string_views(self.protected_dirs@)
    }

    pub fn profile(&self) -> (r: Option<&str>)
        ensures
            opt_view(r) == self.up(),
    {
        match &self.user_profile {
            Some(s) => Some(s.as_str()),
            None => None,
        }
    }
}

/// Why a clean target was refused.
#[derive(Clone, Copy, PartialEq, Eq, Debug)]
pub enum Refusal {
    InvalidDrive,
    ProtectedDir,
    UnsafePath,
    FileLocked,
    WhiteListed,
    DirNotInScanList,
}

pub open spec fn refusal_text(r: Refusal) -> Seq<char> {
    match r {
        Refusal::InvalidDrive => "invalid-drive"@,
        Refusal::ProtectedDir => "protected-dir"@,
        Refusal::UnsafePath => "unsafe-path"@,
        Refusal::FileLocked => "file-locked"@,
        Refusal::WhiteListed => "whitelisted"@,
        Refusal::DirNotInScanList => "dir-not-in-scan-list"@,
    }
}

impl Refusal {
    /// The reason text reported for the refusal.
    pub fn as_str(&self) -> (r: &'static str)
        ensures
            r@ == refusal_text(*self),
    {
        match self {
            Refusal::InvalidDrive => "invalid-drive",
            Refusal::ProtectedDir => "protected-dir",
            Refusal::UnsafePath => "unsafe-path",
            Refusal::FileLocked => "file-locked",
            Refusal::WhiteListed => "whitelisted",
            Refusal::DirNotInScanList => "dir-not-in-scan-list",
        }
    }
}

/// How one selected item of a clean is handled.
pub enum ItemPlan {
    /// A list-only group: nothing is removed, the item counts as skipped.
    ListOnly,
    /// Empty the recycle bin of this drive.
    EmptyRecycleBin(char),
    /// The item itself is refused, with this reason.
    Refuse(Refusal),
    /// Remove these targets one by one; `listed` tells whether they came from
    /// the file list recorded at scan time.
    Targets { targets: Vec<String>, listed: bool },
}

pub open spec fn nonempty_list(files: Option<Vec<String>>) -> bool {
    files is Some && files->0@.len() > 0
}

/// The plan for an item, given its group's action, its path (as given and as
/// resolved) and the file list recorded for it at scan time:
/// - action `none`: list only;
/// - action `recycle_bin`: empty the bin of the path's drive, or refuse with
///   `invalid-drive` when the path has none;
/// - otherwise: refuse a protected user folder; else remove the recorded
///   files when there are any, or the path itself.
pub open spec fn spec_plan_item(
    action: Seq<char>,
    path: Seq<char>,
    path_resolved: Seq<char>,
    ctx: SafetyContext,
    files: Option<Vec<String>>,
    plan: ItemPlan,
) -> bool {
    if action == "none"@ {
        plan is ListOnly
    } else if action == "recycle_bin"@ {
        match spec_extract_drive(path) {
            Some(d) => plan == ItemPlan::EmptyRecycleBin(d),
            None => plan == ItemPlan::Refuse(Refusal::InvalidDrive),
        }
    } else if spec_is_protected_user_dir(path_resolved, ctx.dirs()) {
        plan == ItemPlan::Refuse(Refusal::ProtectedDir)
    } else {
        match plan {
            ItemPlan::Targets { targets, listed } => {
                &&& listed == nonempty_list(files)
                &&& listed ==> string_views(targets@) == string_views(files->0@)
                &&& !listed ==> string_views(targets@) == seq![path]
            },
            _ => false,
        }
    }
}

pub fn str_eq(a: &str, b: &str) -> (r: bool)
    ensures
        r == (a@ == b@),
{
    let ac = chars_of(a);
    let bc = chars_of(b);
    seq_equal(&ac, &bc)
}

pub fn clone_strings(v: &Vec<String>) -> (r: Vec<String>)
    ensures
        string_views(r@) == string_views(v@),
{
    let mut r: Vec<String> = Vec::new();
    let mut i: usize = 0;
    while i < v.len()
        invariant
            i <= v.len(),
            string_views(r@) == string_views(v@.take(i as int)),
        decreases v.len() - i,
    {
        let s = string_of(&chars_of(v[i].as_str()));
        let ghost before = string_views(r@);
        r.push(s);
        assert(string_views(r@) =~= before.push(v@[i as int]@));
        assert(v@.take(i + 1) =~= v@.take(i as int).push(v@[i as int]));
        i += 1;
        assert(string_views(r@) =~= string_views(v@.take(i as int)));
    }
    assert(v@.take(v.len() as int) =~= v@);
    r
}

pub fn plan_item(
    action: &str,
    path: &str,
    path_resolved: &str,
    ctx: &SafetyContext,
    files: Option<&Vec<String>>,
) -> (plan: ItemPlan)
    ensures
        spec_plan_item(
            action@,
            path@,
            path_resolved@,
            *ctx,
            match files {
                Some(f) => Some(*f),
                None => None,
            },
            plan,
        ),
{
    proof {
        reveal_strlit("none");
        reveal_strlit("recycle_bin");
    }
    if str_eq(action, "none") {
        return ItemPlan::ListOnly;
    }
    if str_eq(action, "recycle_bin") {
        return match extract_drive(path) {
            Some(d) => ItemPlan::EmptyRecycleBin(d),
            None => ItemPlan::Refuse(Refusal::InvalidDrive),
        };
    }
    if is_protected_user_dir(path_resolved, &ctx.protected_dirs) {
        return ItemPlan::Refuse(Refusal::ProtectedDir);
    }
    match files {
        Some(f) => {
            if f.len() > 0 {
                return ItemPlan::Targets { targets: clone_strings(f), listed: true };
            }
        },
        None => {},
    }
    let mut t: Vec<String> = Vec::new();
    t.push(string_of(&chars_of(path)));
    assert(string_views(t@) =~= seq![path@]);
    ItemPlan::Targets { targets: t, listed: false }
}

/// `t` is one of the recorded files.
pub open spec fn spec_in_scan_list(files: Seq<Seq<char>>, t: Seq<char>) -> bool {
    exists|i: int| 0 <= i < files.len() && files[i] == t
}

pub fn in_scan_list(files: &Vec<String>, t: &str) -> (r: bool)
    ensures
        r == spec_in_scan_list(string_views(files@), t@),
{
    let mut i: usize = 0;
    while i < files.len()
        invariant
            i <= files.len(),
            forall|k: int| 0 <= k < i ==> string_views(files@)[k] != t@,
        decreases files.len() - i,
    {
        if str_eq(files[i].as_str(), t) {
            assert(string_views(files@)[i as int] == t@);
            return true;
        }
        i += 1;
    }
    false
}

} // verus!

verus! {

/// A question about the file system the caller answers for one target.
#[derive(Clone, Copy, PartialEq, Eq, Debug)]
pub enum Probe {
    /// Is the file in use (a trial rename fails)?
    Lock,
    /// Is the file's digest on the white list?
    WhiteList,
    /// Does the target still exist, and is it a directory?
    Metadata,
}

/// The answers gathered so far for one target; `None` means not asked yet.
/// `metadata` is `Some(None)` when the target no longer exists and
/// `Some(Some(is_dir))` when it does.
#[derive(Clone, Copy, PartialEq, Eq, Debug)]
pub struct TargetFacts {
    pub locked: Option<bool>,
    pub white_listed: Option<bool>,
    pub metadata: Option<Option<bool>>,
}

impl TargetFacts {
    pub fn unknown() -> (r: TargetFacts)
        ensures
            r.locked is None && r.white_listed is None && r.metadata is None,
    {
        TargetFacts { locked: None, white_listed: None, metadata: None }
    }
}

/// The next thing to do with one clean target.
#[derive(Clone, Copy, PartialEq, Eq, Debug)]
pub enum TargetStep {
    Ask(Probe),
    Refuse(Refusal),
    /// The target vanished since the scan: counted as skipped.
    Skip,
    RemoveFile,
    /// Remove the directory and everything below it.
    RemoveDir,
}

/// The checks of one target, in order: protected user folder, safety under
/// the declared root, lock, white list, existence; a directory is removed
/// only when the scan recorded it by name.
pub open spec fn spec_target_step(
    target: Seq<char>,
    root: Seq<char>,
    ctx: SafetyContext,
    in_list: bool,
    facts: TargetFacts,
) -> TargetStep {
    if spec_is_protected_user_dir(target, ctx.dirs()) {
        TargetStep::Refuse(Refusal::ProtectedDir)
    } else if !spec_is_safe_path(target, root, ctx.up(), ctx.dirs()) {
        TargetStep::Refuse(Refusal::UnsafePath)
    } else {
        match facts.locked {
            None => TargetStep::Ask(Probe::Lock),
            Some(true) => TargetStep::Refuse(Refusal::FileLocked),
            Some(false) => match facts.white_listed {
                None => TargetStep::Ask(Probe::WhiteList),
                Some(true) => TargetStep::Refuse(Refusal::WhiteListed),
                Some(false) => match facts.metadata {
                    None => TargetStep::Ask(Probe::Metadata),
                    Some(None) => TargetStep::Skip,
                    Some(Some(is_dir)) => if is_dir {
                        if in_list {
                            TargetStep::RemoveDir
                        } else {
                            TargetStep::Refuse(Refusal::DirNotInScanList)
                        }
                    } else {
                        TargetStep::RemoveFile
                    },
                },
            },
        }
    }
}

/// The next step for a target (as resolved) under the declared root (as
/// resolved).
pub fn next_target_step(
    target_resolved: &str,
    root_resolved: &str,
    ctx: &SafetyContext,
    in_list: bool,
    facts: &TargetFacts,
) -> (r: TargetStep)
    ensures
        r == spec_target_step(target_resolved@, root_resolved@, *ctx, in_list, *facts),
{
    if is_protected_user_dir(target_resolved, &ctx.protected_dirs) {
        return TargetStep::Refuse(Refusal::ProtectedDir);
    }
    if !is_safe_path(target_resolved, root_resolved, ctx.profile(), &ctx.protected_dirs) {
        return TargetStep::Refuse(Refusal::UnsafePath);
    }
    match facts.locked {
        None => TargetStep::Ask(Probe::Lock),
        Some(true) => TargetStep::Refuse(Refusal::FileLocked),
        Some(false) => match facts.white_listed {
            None => TargetStep::Ask(Probe::WhiteList),
            Some(true) => TargetStep::Refuse(Refusal::WhiteListed),
            Some(false) => match facts.metadata {
                None => TargetStep::Ask(Probe::Metadata),
                Some(None) => TargetStep::Skip,
                Some(Some(is_dir)) => if is_dir {
                    if in_list {
                        TargetStep::RemoveDir
                    } else {
                        TargetStep::Refuse(Refusal::DirNotInScanList)
                    }
                } else {
                    TargetStep::RemoveFile
                },
            },
        },
    }
}

/// The declared root of a group: its `allowedRoot` when it has one, else
/// the item's own path.
pub fn allowed_root<'a>(group_root: Option<&'a str>, path: &'a str) -> (r: &'a str)
    ensures
        r == match group_root {
            Some(g) => g,
            None => path,
        },
{
    match group_root {
        Some(g) => g,
        None => path,
    }
}

/// A target that could not be cleaned, and why.
pub struct FailedPath {
    pub path: String,
    pub reason: String,
}

/// The running totals of a clean.
pub struct CleanTally {
    pub freed_size: u64,
    pub count: u64,
    pub skipped: u64,
    pub failed: Vec<FailedPath>,
}

pub open spec fn failed_views(f: Seq<FailedPath>) -> Seq<(Seq<char>, Seq<char>)> {
    f.map_values(|x: FailedPath| (x.path@, x.reason@))
}

impl CleanTally {
    pub fn new() -> (r: CleanTally)
        ensures
            r.freed_size == 0 && r.count == 0 && r.skipped == 0 && r.failed@.len() == 0,
    {
        CleanTally { freed_size: 0, count: 0, skipped: 0, failed: Vec::new() }
    }

    /// Records a target (or item) that could not be cleaned.
    pub fn fail(&mut self, path: &str, reason: &str)
        ensures
            final(self).freed_size == old(self).freed_size,
            final(self).count == old(self).count,
            final(self).skipped == old(self).skipped,
            failed_views(final(self).failed@) == failed_views(old(self).failed@).push(
                (path@, reason@),
            ),
    {
        let ghost before = failed_views(self.failed@);
        let entry = FailedPath { path: string_of(&chars_of(path)), reason: string_of(&chars_of(reason)) };
        self.failed.push(entry);
        assert(failed_views(self.failed@) =~= before.push((path@, reason@)));
    }

    /// Records a skipped item or vanished target.
    pub fn skip(&mut self)
        requires
            old(self).skipped < u64::MAX,
        ensures
            final(self).skipped == old(self).skipped + 1,
            final(self).freed_size == old(self).freed_size,
            final(self).count == old(self).count,
            final(self).failed@ == old(self).failed@,
    {
        self.skipped = self.skipped + 1;
    }

    /// Records a removal that freed `size` bytes.
    pub fn removed(&mut self, size: u64)
        requires
            old(self).freed_size + size <= u64::MAX,
            old(self).count < u64::MAX,
        ensures
            final(self).freed_size == old(self).freed_size + size,
            final(self).count == old(self).count + 1,
            final(self).skipped == old(self).skipped,
            final(self).failed@ == old(self).failed@,
    {
        self.freed_size = self.freed_size + size;
        self.count = self.count + 1;
    }
}

} // verus!

verus! {

/// The SHA-256 digest of a byte string, as the `sha2` crate computes it.
pub uninterp spec fn sha256_digest(data: Seq<u8>) -> Seq<u8>;

/// Calls `<sha2::Sha256 as Digest>::digest`; the result is the named digest,
/// which is 32 bytes long (the hasher's output size is `U32`).
#[verifier::external_body]
fn sha256_bytes(data: &[u8]) -> (r: Vec<u8>)
    ensures
        r@ == sha256_digest(data@),
        r@.len() == 32,
{
    <sha2::Sha256 as sha2::Digest>::digest(data).to_vec()
}

/// The SHA-256 digest of `data` in upper-case hexadecimal (64 characters).
pub fn sha256_hex(data: &[u8]) -> (r: String)
    ensures
        r@ == spec_hex_upper(sha256_digest(data@)),
        r@.len() == 64,
        forall|i: int| 0 <= i < 64 ==> crate::text::is_upper_hex_digit(#[trigger] r@[i]),
{
    let d = sha256_bytes(data);
    proof {
        crate::text::law_hex_upper_digits(d@);
    }
    let h = hex_upper(d.as_slice());
    string_of(&h)
}

pub open spec fn is_ascii_hex(c: char) -> bool {
    ('0' <= c && c <= '9') || ('a' <= c && c <= 'f') || ('A' <= c && c <= 'F')
}

/// The hexadecimal digits of a white-list file, everything else dropped.
pub open spec fn hex_digits_of(s: Seq<char>) -> Seq<char> {
    s.filter(|c: char| is_ascii_hex(c))
}

/// Entry `k` of the white list: the 64 digits starting at `80 * k`,
/// upper-cased.
pub open spec fn white_list_chunk(h: Seq<char>, k: int) -> Seq<char> {
    h.subrange(80 * k, 80 * k + 64).map_values(|c: char| crate::text::spec_ascii_upper(c))
}

/// The digest prefixes a white-list file lists: every record is 80 hex
/// digits of which the first 64 count; a short final record is ignored.
pub open spec fn white_list_of(content: Seq<char>) -> Set<Seq<char>> {
    let h = hex_digits_of(content);
    Set::new(|e: Seq<char>| exists|k: int| 0 <= k && 80 * k + 64 <= h.len() && e == white_list_chunk(h, k))
}

/// Digest prefixes of files that must never be cleaned.
pub struct WhiteList {
    entries: Vec<Vec<char>>,
}

impl View for WhiteList {
    type V = Set<Seq<char>>;

    closed spec fn view(&self) -> Set<Seq<char>> {
        views(self.entries@).to_set()
    }
}

impl WhiteList {
    pub closed spec fn wf(&self) -> bool {
        views(self.entries@).no_duplicates()
    }

    pub fn empty() -> (r: WhiteList)
        ensures
            r.wf(),
            r@ == Set::<Seq<char>>::empty(),
    {
        let r = WhiteList { entries: Vec::new() };
        assert(r@ =~= Set::<Seq<char>>::empty());
        r
    }

    /// Reads the entries of a white-list file's text.
    pub fn parse(content: &str) -> (r: WhiteList)
        ensures
            r.wf(),
            r@ == white_list_of(content@),
    {
        let c = chars_of(content);
        let mut hex: Vec<char> = Vec::new();
        let mut i: usize = 0;
        while i < c.len()
            invariant
                i <= c.len(),
                hex@ == hex_digits_of(c@.take(i as int)),
            decreases c.len() - i,
        {
            proof {
                assert(c@.take(i + 1).drop_last() =~= c@.take(i as int));
                reveal_with_fuel(Seq::filter, 1);
            }
            let ch = c[i];
            if ('0' <= ch && ch <= '9') || ('a' <= ch && ch <= 'f') || ('A' <= ch && ch <= 'F') {
                hex.push(ch);
            }
            i += 1;
        }
        assert(c@.take(c.len() as int) =~= c@);
        let ghost h = hex@;
        let mut entries: Vec<Vec<char>> = Vec::new();
        let mut k: usize = 0;
        let n = hex.len() / 80;
        while k <= n
            invariant
                hex@ == h,
                h == hex_digits_of(content@),
                n == hex.len() / 80,
                k <= n + 1,
                views(entries@).no_duplicates(),
                forall|e: Seq<char>|
                    views(entries@).contains(e) <==> exists|j: int|
                        0 <= j < k && 80 * j + 64 <= h.len() && e == white_list_chunk(h, j),
            decreases n + 1 - k,
        {
            assert(k * 80 <= hex.len()) by (nonlinear_arith)
                requires
                    k <= n,
                    n == hex.len() / 80,
            ;
            let start = k * 80;
            let ghost before = views(entries@);
            if hex.len() >= 64 && start <= hex.len() - 64 {
                let up = upper_chunk(&hex, start);
                let ghost x = white_list_chunk(h, k as int);
                assert(up@ == x);
                if !contains_entry(&entries, &up) {
                    entries.push(up);
                    assert(views(entries@) =~= before.push(x));
                    assert(views(entries@)[before.len() as int] == x);
                    assert forall|e: Seq<char>| before.contains(e) implies views(entries@).contains(e) by {
                        let i = choose|i: int| 0 <= i < before.len() && before[i] == e;
                        assert(views(entries@)[i] == e);
                    }
                    assert forall|e: Seq<char>| views(entries@).contains(e) implies before.contains(e) || e == x by {
                        let i = choose|i: int| 0 <= i < views(entries@).len() && views(entries@)[i] == e;
                        if i < before.len() {
                            assert(before[i] == e);
                        }
                    }
                }
                assert(views(entries@).contains(x));
                assert(80 * k + 64 <= h.len());
                assert forall|e: Seq<char>|
                    views(entries@).contains(e) <==> exists|jj: int|
                        0 <= jj < k + 1 && 80 * jj + 64 <= h.len() && e == white_list_chunk(h, jj) by {
                    if views(entries@).contains(e) {
                        if before.contains(e) {
                            let jj = choose|jj: int| 0 <= jj < k && 80 * jj + 64 <= h.len() && e == white_list_chunk(h, jj);
                        } else {
                            assert(e == x);
                        }
                    }
                    if exists|jj: int| 0 <= jj < k + 1 && 80 * jj + 64 <= h.len() && e == white_list_chunk(h, jj) {
                        let jj = choose|jj: int| 0 <= jj < k + 1 && 80 * jj + 64 <= h.len() && e == white_list_chunk(h, jj);
                        if jj < k {
                            assert(before.contains(e));
                        }
                    }
                }
            } else {
                assert forall|e: Seq<char>|
                    views(entries@).contains(e) <==> exists|jj: int|
                        0 <= jj < k + 1 && 80 * jj + 64 <= h.len() && e == white_list_chunk(h, jj) by {
                    if exists|jj: int| 0 <= jj < k + 1 && 80 * jj + 64 <= h.len() && e == white_list_chunk(h, jj) {
                        let jj = choose|jj: int| 0 <= jj < k + 1 && 80 * jj + 64 <= h.len() && e == white_list_chunk(h, jj);
                        assert(jj < k);
                    }
                }
            }
            k += 1;
        }
        let r = WhiteList { entries };
        assert forall|e: Seq<char>| r@.contains(e) <==> white_list_of(content@).contains(e) by {
            if exists|j: int| 0 <= j && 80 * j + 64 <= h.len() && e == white_list_chunk(h, j) {
                let j = choose|j: int| 0 <= j && 80 * j + 64 <= h.len() && e == white_list_chunk(h, j);
                assert(j < k) by (nonlinear_arith)
                    requires
                        80 * j + 64 <= h.len(),
                        k == h.len() / 80 + 1,
                        0 <= j,
                ;
            }
        }
        assert(r@ =~= white_list_of(content@));
        r
    }

    /// The number of distinct entries.
    pub fn len(&self) -> (r: usize)
        requires
            self.wf(),
        ensures
            r == self@.len(),
    {
        proof {
            views(self.entries@).unique_seq_to_set();
        }
        self.entries.len()
    }

    /// Some entry is a prefix of the digest text `hash`.
    pub fn matches_digest(&self, hash: &Vec<char>) -> (r: bool)
        ensures
            r == exists|e: Seq<char>| self@.contains(e) && e.is_prefix_of(hash@),
    {
        let mut i: usize = 0;
        while i < self.entries.len()
            invariant
                i <= self.entries.len(),
                forall|k: int| 0 <= k < i ==> !views(self.entries@)[k].is_prefix_of(hash@),
            decreases self.entries.len() - i,
        {
            if crate::text::starts_with(hash, &self.entries[i]) {
                assert(self@.contains(views(self.entries@)[i as int]));
                return true;
            }
            i += 1;
        }
        assert forall|e: Seq<char>| self@.contains(e) implies !e.is_prefix_of(hash@) by {
            let k = choose|k: int| 0 <= k < views(self.entries@).len() && views(self.entries@)[k] == e;
        }
        false
    }

    /// A file with these contents is on the white list: an entry prefixes
    /// the file's upper-case hex SHA-256 (an empty list is not consulted).
    pub fn is_white_listed(&self, data: &[u8]) -> (r: bool)
        ensures
            r == exists|e: Seq<char>|
                self@.contains(e) && e.is_prefix_of(spec_hex_upper(sha256_digest(data@))),
    {
        if self.entries.len() == 0 {
            assert forall|e: Seq<char>| !self@.contains(e) by {}
            return false;
        }
        let h = sha256_hex(data);
        let hc = chars_of(h.as_str());
        self.matches_digest(&hc)
    }
}

fn upper_chunk(hex: &Vec<char>, start: usize) -> (r: Vec<char>)
    requires
        start + 64 <= hex.len(),
    ensures
        r@ == hex@.subrange(start as int, start + 64).map_values(|c: char| crate::text::spec_ascii_upper(c)),
{
    let raw = crate::text::slice_chars(hex, start, start + 64);
    let mut up: Vec<char> = Vec::new();
    let mut j: usize = 0;
    while j < raw.len()
        invariant
            j <= raw.len(),
            up@ == raw@.take(j as int).map_values(|c: char| crate::text::spec_ascii_upper(c)),
        decreases raw.len() - j,
    {
        up.push(crate::text::ascii_upper(raw[j]));
        j += 1;
        assert(up@ =~= raw@.take(j as int).map_values(|c: char| crate::text::spec_ascii_upper(c)));
    }
    assert(raw@.take(raw.len() as int) =~= raw@);
    up
}

fn contains_entry(entries: &Vec<Vec<char>>, e: &Vec<char>) -> (r: bool)
    ensures
        r == views(entries@).contains(e@),
{
    let mut i: usize = 0;
    while i < entries.len()
        invariant
            i <= entries.len(),
            forall|k: int| 0 <= k < i ==> views(entries@)[k] != e@,
        decreases entries.len() - i,
    {
        if seq_equal(&entries[i], e) {
            assert(views(entries@)[i as int] == e@);
            return true;
        }
        i += 1;
    }
    false
}

} // verus!

verus! {

/// Whether a target counts as recorded by name: the item has a non-empty
/// recorded file list and the target is in it.
pub fn listed_in(files: Option<&Vec<String>>, t: &str) -> (r: bool)
    ensures
        r == match files {
            Some(f) => f@.len() > 0 && spec_in_scan_list(string_views(f@), t@),
            None => false,
        },
{
    match files {
        Some(f) => f.len() > 0 && in_scan_list(f, t),
        None => false,
    }
}

/// A list-only group never removes anything: its items are only counted as
/// skipped.
pub proof fn law_list_only_group_never_removes(
    path: Seq<char>,
    path_resolved: Seq<char>,
    ctx: SafetyContext,
    files: Option<Vec<String>>,
    plan: ItemPlan,
)
    requires
        spec_plan_item("none"@, path, path_resolved, ctx, files, plan),
    ensures
        plan is ListOnly,
{
}

/// An item whose path is a protected user folder is refused as a whole
/// (for every action other than list-only and recycle-bin emptying).
pub proof fn law_protected_item_refused(
    action: Seq<char>,
    path: Seq<char>,
    path_resolved: Seq<char>,
    ctx: SafetyContext,
    files: Option<Vec<String>>,
    plan: ItemPlan,
)
    requires
        action != "none"@,
        action != "recycle_bin"@,
        spec_is_protected_user_dir(path_resolved, ctx.dirs()),
        spec_plan_item(action, path, path_resolved, ctx, files, plan),
    ensures
        plan == ItemPlan::Refuse(Refusal::ProtectedDir),
{
}

/// Without a recorded file list, the only target of an item is its own path.
pub proof fn law_unlisted_item_targets_only_its_path(
    action: Seq<char>,
    path: Seq<char>,
    path_resolved: Seq<char>,
    ctx: SafetyContext,
    files: Option<Vec<String>>,
    targets: Vec<String>,
    listed: bool,
)
    requires
        !nonempty_list(files),
        spec_plan_item(
            action,
            path,
            path_resolved,
            ctx,
            files,
            ItemPlan::Targets { targets, listed },
        ),
    ensures
        !listed,
        string_views(targets@) == seq![path],
{
}

/// A target is removed only after every check passed: it is no protected
/// folder, it is safe under the declared root, it is not in use, not white
/// listed, and it still exists.
pub proof fn law_removal_passes_every_check(
    target: Seq<char>,
    root: Seq<char>,
    ctx: SafetyContext,
    in_list: bool,
    facts: TargetFacts,
)
    requires
        spec_target_step(target, root, ctx, in_list, facts) is RemoveFile || spec_target_step(
            target,
            root,
            ctx,
            in_list,
            facts,
        ) is RemoveDir,
    ensures
        !spec_is_protected_user_dir(target, ctx.dirs()),
        spec_is_safe_path(target, root, ctx.up(), ctx.dirs()),
        facts.locked == Some(false),
        facts.white_listed == Some(false),
        facts.metadata is Some && facts.metadata->0 is Some,
{
}

/// A directory is removed as a whole only when the scan recorded it by name:
/// without a recorded list, no directory (in particular no scanned root) is
/// ever removed.
pub proof fn law_directory_removed_only_when_recorded(
    target: Seq<char>,
    root: Seq<char>,
    ctx: SafetyContext,
    files: Option<Vec<String>>,
    facts: TargetFacts,
)
    requires
        spec_target_step(
            target,
            root,
            ctx,
            match files {
                Some(f) => f@.len() > 0 && spec_in_scan_list(string_views(f@), target),
                None => false,
            },
            facts,
        ) is RemoveDir,
    ensures
        nonempty_list(files),
        spec_in_scan_list(string_views(files->0@), target),
        facts.metadata == Some(Some(true)),
{
}

/// The file system is only probed (the lock probe renames the file) for a
/// target that passed the safety checks.
pub proof fn law_probes_only_safe_targets(
    target: Seq<char>,
    root: Seq<char>,
    ctx: SafetyContext,
    in_list: bool,
    facts: TargetFacts,
)
    requires
        spec_target_step(target, root, ctx, in_list, facts) is Ask,
    ensures
        !spec_is_protected_user_dir(target, ctx.dirs()),
        spec_is_safe_path(target, root, ctx.up(), ctx.dirs()),
{
}

/// The white-list files tried, in order: the vendor's default install on
/// drive D, then under the 32-bit program files folder.
pub open spec fn white_list_candidates_of(program_files_x86: Seq<char>) -> Seq<Seq<char>> {
    seq![
        "D:\\360Safe\\sweeper\\WhiteList.dat"@,
        crate::winpath::join_spec(
            crate::winpath::join_spec(
                crate::winpath::join_spec(
                    crate::winpath::join_spec(program_files_x86, "360"@),
                    "360Safe"@,
                ),
                "sweeper"@,
            ),
            "WhiteList.dat"@,
        ),
    ]
}

pub fn white_list_candidates(program_files_x86: &str) -> (r: Vec<String>)
    ensures
        string_views(r@) == white_list_candidates_of(program_files_x86@),
{
    let a = crate::winpath::path_join(program_files_x86, "360");
    let b = crate::winpath::path_join(a.as_str(), "360Safe");
    let c = crate::winpath::path_join(b.as_str(), "sweeper");
    let v = vec!["D:\\360Safe\\sweeper\\WhiteList.dat".to_string(), crate::winpath::path_join(c.as_str(), "WhiteList.dat")];
    assert(string_views(v@) =~= white_list_candidates_of(program_files_x86@));
    v
}

} // verus!
