//! Walking folders: which entries a scan keeps, when it checks for a
//! cancel and reports progress, how links are kept from looping, and the
//! tallies of deletions. The caller reads the disk; these functions decide.

use vstd::prelude::*;
use crate::text::{chars_of, string_of, lowercase_of, to_lowercase, split_char, split_on, views, contains, contains_seq};
use crate::rules_engine::string_views;
use crate::startup::{StringSet, stem_of, concat};

verus! {

/// `Path::extension` of a file name: what follows its last `.`, unless that
/// `.` is the first character or there is none (then: empty).
pub open spec fn extension_of(name: Seq<char>) -> Seq<char> {
    if exists|d: int| 0 < d < name.len() && name[d] == '.' {
        name.skip(crate::startup::last_dot(name) + 1)
    } else {
        seq![]
    }
}

fn extension_exec(name: &Vec<char>) -> (r: Vec<char>)
    ensures
        r@ == extension_of(name@),
{
    let mut j: usize = name.len();
    while j > 1 && name[j - 1] != '.'
        invariant
            j <= name.len(),
            forall|e: int| j <= e < name.len() ==> name@[e] != '.',
        decreases j,
    {
        j -= 1;
    }
    if j <= 1 {
        assert(!(exists|d: int| 0 < d < name@.len() && name@[d] == '.'));
        return Vec::new();
    }
    let d = j - 1;
    let ghost sd = crate::startup::last_dot(name@);
    assert(name@[d as int] == '.');
    assert(sd == d as int) by {
        if sd < d {
        } else if sd > d {
        }
    }
    let r = crate::text::slice_chars(name, d + 1, name.len());
    assert(r@ =~= name@.skip(d + 1));
    r
}

/// The extensions a scan keeps: `tmp|log|bak` split at `|`, lowercase;
/// none given keeps every extension.
pub open spec fn spec_ext_filters(ext_filter: Option<Seq<char>>) -> Seq<Seq<char>> {
    match ext_filter {
        Some(f) => split_on(f, '|').map_values(|x: Seq<char>| lowercase_of(x)),
        None => seq![],
    }
}

/// How a folder scan walks and what it has found so far: the files kept
/// (path, size, modification time) and their totals.
pub struct ScanWalk {
    pub min_age_ms: u128,
    pub now: u128,
    pub max_depth: u64,
    pub filters: Vec<String>,
    pub files: Vec<(String, u64, u128)>,
    pub total_size: u64,
    pub total_count: u64,
    pub cancelled: bool,
    pub since_check: u64,
    pub last_progress_at: u128,
    pub seen: StringSet,
}

/// A file is too new to clean when it was changed less than the minimum
/// age ago (a minimum of 0 keeps everything; a time in the future counts
/// as changed just now, so it is too new).
pub open spec fn too_new(min_age_ms: u128, now: u128, mtime: u128) -> bool {
    min_age_ms > 0 && (mtime > now || now - mtime < min_age_ms)
}

/// The sizes of the files found, added up.
pub open spec fn found_size(f: Seq<(String, u64, u128)>) -> int
    decreases f.len(),
{
    if f.len() == 0 {
        0
    } else {
        found_size(f.drop_last()) + f.last().1
    }
}

impl ScanWalk {
    /// The totals are those of the files kept, and no file kept is too new.
    pub open spec fn wf(&self) -> bool {
        &&& self.seen.wf()
        &&& self.total_count == self.files@.len()
        &&& self.total_size == found_size(self.files@)
        &&& forall|i: int| 0 <= i < self.files@.len() ==> !too_new(self.min_age_ms, self.now, #[trigger] self.files@[i].2)
    }

    /// A walk of the folder whose real path is `root_real`: files changed
    /// less than `min_age_days` days before `now` (ms) are passed over;
    /// folders deeper than `max_depth` are not entered.
    pub fn new(root_real: &str, min_age_days: u32, max_depth: u64, ext_filter: Option<&str>, now: u128) -> (r: ScanWalk)
        ensures
            r.wf(),
            r.min_age_ms == min_age_days as int * 86400000,
            r.now == now && r.max_depth == max_depth,
            string_views(r.filters@) == spec_ext_filters(crate::rules_engine::opt_view(ext_filter)),
            r.total_size == 0 && r.total_count == 0 && !r.cancelled && r.files@.len() == 0,
            r.since_check == 0 && r.last_progress_at == 0,
            r.seen@ == Set::<Seq<char>>::empty().insert(lowercase_of(root_real@)),
    {
        let mut filters: Vec<String> = Vec::new();
        match ext_filter {
            Some(f) => {
                let parts = split_char(&chars_of(f), '|');
                let ghost ps = views(parts@);
                let mut i: usize = 0;
                while i < parts.len()
                    invariant
                        i <= parts.len(),
                        ps == views(parts@),
                        ps == split_on(f@, '|'),
                        string_views(filters@) == ps.take(i as int).map_values(|x: Seq<char>| lowercase_of(x)),
                    decreases parts.len() - i,
                {
                    let s = string_of(&parts[i]);
                    let l = to_lowercase(s.as_str());
                    let ghost before = string_views(filters@);
                    let ghost lv = l@;
                    filters.push(l);
                    assert(ps[i as int] == parts@[i as int]@);
                    assert(string_views(filters@) =~= before.push(lv));
                    assert(ps.take(i + 1) =~= ps.take(i as int).push(ps[i as int]));
                    assert(string_views(filters@) =~= ps.take(i + 1).map_values(|x: Seq<char>| lowercase_of(x)));
                    i += 1;
                }
                assert(ps.take(parts.len() as int) =~= ps);
            },
            None => {
                assert(string_views(filters@) =~= Seq::<Seq<char>>::empty());
            },
        }
        let mut seen = StringSet::new();
        let key = to_lowercase(root_real);
        seen.set_ignored(key.as_str(), true);
        ScanWalk {
            min_age_ms: min_age_days as u128 * 86400000,
            now,
            max_depth,
            filters,
            files: Vec::new(),
            total_size: 0,
            total_count: 0,
            cancelled: false,
            since_check: 0,
            last_progress_at: 0,
            seen,
        }
    }

    /// Whether a folder at `depth` is read: not once the walk is cancelled,
    /// nor deeper than the maximum.
    pub fn reads_folder(&self, depth: u64) -> (r: bool)
        ensures
            r == (!self.cancelled && depth <= self.max_depth),
    {
        !self.cancelled && depth <= self.max_depth
    }

    /// Records the answer of the cancel probe.
    pub fn note_cancel(&mut self, cancelled: bool)
        ensures
            final(self).cancelled == (old(self).cancelled || cancelled),
            final(self).files == old(self).files,
            final(self).total_size == old(self).total_size,
            final(self).total_count == old(self).total_count,
            final(self).seen == old(self).seen,
            final(self).since_check == old(self).since_check,
            final(self).last_progress_at == old(self).last_progress_at,
            final(self).min_age_ms == old(self).min_age_ms && final(self).now == old(self).now,
            final(self).max_depth == old(self).max_depth && final(self).filters == old(self).filters,
    {
        if cancelled {
            self.cancelled = true;
        }
    }

    /// One more entry read: every 50th entry the cancel probe is asked and
    /// progress may be reported (the answer is whether that is due now).
    pub fn tick(&mut self) -> (due: bool)
        ensures
            old(self).since_check + 1 >= 50 ==> due && final(self).since_check == 0,
            final(self).files == old(self).files,
            old(self).since_check + 1 < 50 ==> !due && final(self).since_check == old(self).since_check + 1,
            final(self).total_size == old(self).total_size,
            final(self).total_count == old(self).total_count,
            final(self).cancelled == old(self).cancelled,
            final(self).seen == old(self).seen,
            final(self).last_progress_at == old(self).last_progress_at,
            final(self).min_age_ms == old(self).min_age_ms && final(self).now == old(self).now,
            final(self).max_depth == old(self).max_depth && final(self).filters == old(self).filters,
    {
        if self.since_check >= 49 {
            self.since_check = 0;
            true
        } else {
            self.since_check = self.since_check + 1;
            false
        }
    }

    /// A sub-folder is entered once per real path (lowercase); one whose
    /// real path cannot be read is passed over.
    pub fn enter_dir(&mut self, real_path: Option<&str>) -> (r: bool)
        requires
            old(self).wf(),
        ensures
            final(self).wf(),
            real_path is None ==> !r && final(self).seen@ == old(self).seen@,
            final(self).files == old(self).files,
            real_path matches Some(p) ==> r == !old(self).seen@.contains(lowercase_of(p@))
                && final(self).seen@ == old(self).seen@.insert(lowercase_of(p@)),
            final(self).total_size == old(self).total_size,
            final(self).total_count == old(self).total_count,
            final(self).cancelled == old(self).cancelled,
    {
        crate::shredder::enter_dir(&mut self.seen, real_path)
    }

    /// A file is kept unless it is too new or its extension (lowercase) is
    /// not among the filters; a kept file is added to the files found (its
    /// path, size and time) and to the totals.
    pub fn accept_file(&mut self, path: &str, file_name: &str, mtime: u128, size: u64) -> (keep: bool)
        requires
            old(self).wf(),
            old(self).total_size + size <= u64::MAX,
            old(self).total_count < u64::MAX,
        ensures
            final(self).wf(),
            keep == (!too_new(old(self).min_age_ms, old(self).now, mtime) && (old(self).filters@.len()
                == 0 || string_views(old(self).filters@).contains(
                lowercase_of(extension_of(file_name@)),
            ))),
            keep ==> final(self).files@.len() == old(self).files@.len() + 1
                && final(self).files@.drop_last() == old(self).files@
                && final(self).files@.last().0@ == path@
                && final(self).files@.last().1 == size
                && final(self).files@.last().2 == mtime,
            !keep ==> final(self).files == old(self).files,
            keep ==> final(self).total_size == old(self).total_size + size && final(self).total_count
                == old(self).total_count + 1,
            !keep ==> final(self).total_size == old(self).total_size && final(self).total_count
                == old(self).total_count,
            final(self).cancelled == old(self).cancelled,
            final(self).seen == old(self).seen,
            final(self).min_age_ms == old(self).min_age_ms && final(self).now == old(self).now,
            final(self).filters == old(self).filters,
    {
        if self.min_age_ms > 0 && (mtime > self.now || self.now - mtime < self.min_age_ms) {
            return false;
        }
        if self.filters.len() > 0 {
            let ext = extension_exec(&chars_of(file_name));
            let e = to_lowercase(string_of(&ext).as_str());
            if !crate::startup::contains_string_pub(&self.filters, &chars_of(e.as_str())) {
                return false;
            }
        }
        let ghost before = self.files@;
        self.files.push((path.to_string(), size, mtime));
        assert(self.files@.drop_last() =~= before);
        self.total_size = self.total_size + size;
        self.total_count = self.total_count + 1;
        true
    }

    /// Progress is reported at most every 400 ms, unless forced (at the
    /// end); the time of a report is kept.
    pub fn progress_due(&mut self, force: bool, t: u128) -> (due: bool)
        ensures
            due == (force || !(old(self).last_progress_at <= t && t - old(self).last_progress_at
                < 400)),
            due ==> final(self).last_progress_at == t,
            final(self).files == old(self).files,
            !due ==> final(self).last_progress_at == old(self).last_progress_at,
            final(self).total_size == old(self).total_size,
            final(self).total_count == old(self).total_count,
            final(self).cancelled == old(self).cancelled,
            final(self).seen == old(self).seen,
    {
        if !force && self.last_progress_at <= t && t - self.last_progress_at < 400 {
            return false;
        }
        self.last_progress_at = t;
        true
    }
}

/// A walk's totals are those of the files it kept: the count is their
/// number and the size their sizes added up; none of them is too new.
pub proof fn law_walk_totals_match_files(w: ScanWalk)
    requires
        w.wf(),
    ensures
        w.total_count == w.files@.len(),
        w.total_size == found_size(w.files@),
        forall|i: int| 0 <= i < w.files@.len() ==> !too_new(w.min_age_ms, w.now, #[trigger] w.files@[i].2),
{
}

/// Listing a folder for the shredder: reading stops past the maximum depth
/// or once the maximum number of files is reached (then the list is
/// marked truncated).
pub fn list_continue(depth: u64, max_depth: u64, files: u64, max_files: u64, truncated: &mut bool) -> (go: bool)
    ensures
        go == (depth <= max_depth && files < max_files),
        files >= max_files ==> *final(truncated),
        files < max_files ==> *final(truncated) == *old(truncated),
{
    if files >= max_files {
        *truncated = true;
    }
    depth <= max_depth && files < max_files
}

/// The name a listed file is shown under: the last component of its path.
pub open spec fn listed_name(path: Seq<char>) -> Seq<char> {
    match crate::winpath::file_name_of(path) {
        Some(n) => n,
        None => seq![],
    }
}

/// A folder listed for the shredder: the files found (path, name, size),
/// never more than `max_files` of them, and whether the listing stopped
/// because it was full.
pub struct FolderListing {
    pub files: Vec<(String, String, u64)>,
    pub truncated: bool,
    pub max_files: u64,
}

impl FolderListing {
    /// At most `max_files` files, each named by its path's last component.
    pub open spec fn wf(&self) -> bool {
        &&& self.files@.len() <= self.max_files
        &&& forall|i: int| 0 <= i < self.files@.len() ==> (#[trigger] self.files@[i]).1@ == listed_name(self.files@[i].0@)
    }

    pub fn new(max_files: u64) -> (r: FolderListing)
        ensures
            r.wf(),
            r.files@.len() == 0 && !r.truncated && r.max_files == max_files,
    {
        FolderListing { files: Vec::new(), truncated: false, max_files }
    }

    /// Whether reading goes on at `depth`: not deeper than `max_depth`, and
    /// not once the listing is full (which marks it truncated).
    pub fn reads_on(&mut self, depth: u64, max_depth: u64) -> (go: bool)
        ensures
            go == (depth <= max_depth && old(self).files@.len() < old(self).max_files),
            old(self).files@.len() >= old(self).max_files ==> final(self).truncated,
            old(self).files@.len() < old(self).max_files ==> final(self).truncated == old(self).truncated,
            final(self).files == old(self).files && final(self).max_files == old(self).max_files,
    {
        list_continue(depth, max_depth, self.files.len() as u64, self.max_files, &mut self.truncated)
    }

    /// One more file, named by the last component of its path.
    pub fn add_file(&mut self, path: &str, size: u64)
        requires
            old(self).wf(),
            old(self).files@.len() < old(self).max_files,
        ensures
            final(self).wf(),
            final(self).files@ == old(self).files@.push(final(self).files@.last()),
            final(self).files@.last().0@ == path@,
            final(self).files@.last().1@ == listed_name(path@),
            final(self).files@.last().2 == size,
            final(self).truncated == old(self).truncated && final(self).max_files == old(self).max_files,
    {
        let name = match crate::winpath::file_name_exec(&chars_of(path)) {
            Some(n) => string_of(&n),
            None => String::new(),
        };
        let ghost before = self.files@;
        self.files.push((path.to_string(), name, size));
        assert(self.files@ =~= before.push(self.files@.last()));
    }
}

/// A listing holds at most `max_files` files, each under the last
/// component of its path.
pub proof fn law_listing_bounded(l: FolderListing)
    requires
        l.wf(),
    ensures
        l.files@.len() <= l.max_files,
        forall|i: int| 0 <= i < l.files@.len() ==> (#[trigger] l.files@[i]).1@ == listed_name(l.files@[i].0@),
{
}

/// The name of the file a lock probe renames a file to.
pub open spec fn lock_probe_name_of(pid: u32, millis: u128, suffix: u64) -> Seq<char> {
    ".lockprobe_"@ + crate::text::spec_decimal(pid as nat) + "_"@ + crate::text::spec_decimal(
        millis as nat,
    ) + "_"@ + crate::text::spec_decimal(suffix as nat)
}

pub fn lock_probe_name(pid: u32, millis: u128, suffix: u64) -> (r: String)
    ensures
        r@ == lock_probe_name_of(pid, millis, suffix),
{
    let mut m = chars_of(".lockprobe_");
    crate::text::append_chars(&mut m, &crate::text::decimal(pid as u64));
    crate::text::append_chars(&mut m, &chars_of("_"));
    crate::text::append_chars(&mut m, &crate::text::decimal_u128(millis));
    crate::text::append_chars(&mut m, &chars_of("_"));
    crate::text::append_chars(&mut m, &crate::text::decimal(suffix));
    string_of(&m)
}

/// What deleting a list of paths came to.
pub struct DeleteTally {
    pub freed: u64,
    pub deleted: u64,
    pub running: u64,
    pub failed: Vec<(String, String)>,
}

impl DeleteTally {
    pub fn new() -> (r: DeleteTally)
        ensures
            r.freed == 0 && r.deleted == 0 && r.running == 0 && r.failed@.len() == 0,
    {
        DeleteTally { freed: 0, deleted: 0, running: 0, failed: Vec::new() }
    }

    /// A path that failed, with the reason.
    pub fn fail(&mut self, path: &str, reason: &str)
        ensures
            final(self).failed@.len() == old(self).failed@.len() + 1,
            final(self).failed@.last().0@ == path@ && final(self).failed@.last().1@ == reason@,
            final(self).failed@.drop_last() == old(self).failed@,
            final(self).freed == old(self).freed && final(self).deleted == old(self).deleted
                && final(self).running == old(self).running,
    {
        self.failed.push((path.to_string(), reason.to_string()));
        assert(self.failed@.drop_last() =~= old(self).failed@);
    }

    /// A path in use, passed over.
    pub fn in_use(&mut self)
        requires
            old(self).running < u64::MAX,
        ensures
            final(self).running == old(self).running + 1,
            final(self).failed == old(self).failed,
            final(self).freed == old(self).freed && final(self).deleted == old(self).deleted,
    {
        self.running = self.running + 1;
    }

    /// A path deleted, freeing `size` bytes.
    pub fn removed(&mut self, size: u64)
        requires
            old(self).freed + size <= u64::MAX,
            old(self).deleted < u64::MAX,
        ensures
            final(self).freed == old(self).freed + size,
            final(self).deleted == old(self).deleted + 1,
            final(self).failed == old(self).failed,
            final(self).running == old(self).running,
    {
        self.freed = self.freed + size;
        self.deleted = self.deleted + 1;
    }
}

/// PowerShell reports a failure by `Exception` or `Error` in its output.
pub open spec fn spec_shell_ok(out: Seq<char>) -> bool {
    !contains_seq(out, "Exception"@) && !contains_seq(out, "Error"@)
}

pub fn shell_ok(out: &str) -> (r: bool)
    ensures
        r == spec_shell_ok(out@),
{
    let o = chars_of(out);
    !contains(&o, &chars_of("Exception")) && !contains(&o, &chars_of("Error"))
}

/// The PowerShell command that sends a file to the recycle bin.
pub fn recycle_script(path: &str) -> (r: String)
    ensures
        r@ == "Add-Type -AssemblyName Microsoft.VisualBasic; [Microsoft.VisualBasic.FileIO.FileSystem]::DeleteFile('"@
            + crate::startup::double_quotes(path@) + "','OnlyErrorDialogs','SendToRecycleBin')"@,
{
    let a = concat(
        "Add-Type -AssemblyName Microsoft.VisualBasic; [Microsoft.VisualBasic.FileIO.FileSystem]::DeleteFile('",
        crate::startup::double_quotes_exec(path).as_str(),
    );
    concat(a.as_str(), "','OnlyErrorDialogs','SendToRecycleBin')")
}

/// The PowerShell command that empties one drive's recycle bin.
pub fn empty_bin_script(drive_letter: &str) -> (r: String)
    ensures
        r@ == "Clear-RecycleBin -DriveLetter "@ + drive_letter@ + " -Force -ErrorAction SilentlyContinue"@,
{
    let a = concat("Clear-RecycleBin -DriveLetter ", drive_letter);
    concat(a.as_str(), " -Force -ErrorAction SilentlyContinue")
}

} // verus!
