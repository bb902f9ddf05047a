//! The file shredder: overwrite methods, the cancel flag, the checks before
//! a shred, and the pass-by-pass overwrite of a file as a state machine
//! whose steps the caller performs on disk.

use vstd::prelude::*;
use crate::text::{chars_of, string_of, lowercase_of, to_lowercase};
use crate::startup::{StringSet, concat};
use rand::RngCore;

verus! {

/// The size of one overwrite buffer: 8 MiB.
pub const CHUNK: u64 = 8388608;

/// `a * b`, or `u64::MAX` where that does not fit (`u64::saturating_mul`).
pub fn sat_mul(a: u64, b: u64) -> (r: u64)
    ensures
        r == (if a * b <= u64::MAX {
            (a * b) as u64
        } else {
            u64::MAX
        }),
{
    match a.checked_mul(b) {
        Some(x) => x,
        None => u64::MAX,
    }
}

/// The cancel flag of the shredder: a new shred clears it, `cancel` sets it.
pub struct ShredControl {
    pub cancelled: bool,
}

impl ShredControl {
    pub fn new() -> (r: ShredControl)
        ensures
            !r.cancelled,
    {
        ShredControl { cancelled: false }
    }

    /// Asks the running shred to stop.
    pub fn cancel(&mut self)
        ensures
            final(self).cancelled,
    {
        self.cancelled = true;
    }

    /// Running means not cancelled.
    pub fn is_running(&self) -> (r: bool)
        ensures
            r == !self.cancelled,
    {
        !self.cancelled
    }

    /// Clears the flag before a new shred.
    pub fn reset_cancel(&mut self)
        ensures
            !final(self).cancelled,
    {
        self.cancelled = false;
    }
}

/// What an overwrite pass writes.
#[derive(PartialEq, Eq, Structural, Clone, Copy)]
pub enum Fill {
    Zeros,
    Ones,
    Random,
}

/// How a file is overwritten: one pass of zeros, one of random bytes, or
/// the three passes of the DoD method (zeros, `0xff`, random).
#[derive(PartialEq, Eq, Structural, Clone, Copy)]
pub enum MethodKind {
    Zero,
    Random,
    Dod,
}

pub struct ShredMethod {
    pub passes: u32,
    pub kind: MethodKind,
}

/// What pass `pass` of a method writes.
pub open spec fn spec_fill(kind: MethodKind, pass: u32) -> Fill {
    match kind {
        MethodKind::Zero => Fill::Zeros,
        MethodKind::Random => Fill::Random,
        MethodKind::Dod => if pass == 0 {
            Fill::Zeros
        } else if pass == 1 {
            Fill::Ones
        } else {
            Fill::Random
        },
    }
}

/// Calls `rand::RngCore::fill_bytes` on a fresh buffer of `len` bytes from
/// the thread-local generator; only the length is known of the result.
#[verifier::external_body]
fn random_bytes(len: usize) -> (r: Vec<u8>)
    ensures
        r@.len() == len,
{
    let mut buf = vec![0u8; len];
    rand::thread_rng().fill_bytes(&mut buf);
    buf
}

fn filled(b: u8, len: usize) -> (r: Vec<u8>)
    ensures
        r@.len() == len,
        forall|i: int| 0 <= i < len ==> r@[i] == b,
{
    let mut r: Vec<u8> = Vec::with_capacity(len);
    let mut i: usize = 0;
    while i < len
        invariant
            i <= len,
            r@.len() == i,
            forall|k: int| 0 <= k < i ==> r@[k] == b,
        decreases len - i,
    {
        r.push(b);
        i += 1;
    }
    r
}

impl ShredMethod {
    pub fn zero() -> (m: ShredMethod)
        ensures
            m.passes == 1 && m.kind == MethodKind::Zero,
    {
        ShredMethod { passes: 1, kind: MethodKind::Zero }
    }

    pub fn random() -> (m: ShredMethod)
        ensures
            m.passes == 1 && m.kind == MethodKind::Random,
    {
        ShredMethod { passes: 1, kind: MethodKind::Random }
    }

    pub fn dod() -> (m: ShredMethod)
        ensures
            m.passes == 3 && m.kind == MethodKind::Dod,
    {
        ShredMethod { passes: 3, kind: MethodKind::Dod }
    }

    /// One buffer for pass `pass`: `CHUNK` bytes of the pass's fill.
    pub fn data(&self, pass: u32) -> (r: Vec<u8>)
        ensures
            r@.len() == CHUNK,
            spec_fill(self.kind, pass) == Fill::Zeros ==> forall|i: int|
                0 <= i < r@.len() ==> r@[i] == 0u8,
            spec_fill(self.kind, pass) == Fill::Ones ==> forall|i: int|
                0 <= i < r@.len() ==> r@[i] == 0xffu8,
    {
        let fill = match self.kind {
            MethodKind::Zero => Fill::Zeros,
            MethodKind::Random => Fill::Random,
            MethodKind::Dod => if pass == 0 {
                Fill::Zeros
            } else if pass == 1 {
                Fill::Ones
            } else {
                Fill::Random
            },
        };
        match fill {
            Fill::Zeros => filled(0, 8388608),
            Fill::Ones => filled(0xff, 8388608),
            Fill::Random => random_bytes(8388608),
        }
    }
}

/// The method an id names: `zero`, `random`, else DoD.
pub fn get_method(method_id: &str) -> (m: ShredMethod)
    ensures
        method_id@ == "zero"@ ==> m.passes == 1 && m.kind == MethodKind::Zero,
        method_id@ == "random"@ ==> m.passes == 1 && m.kind == MethodKind::Random,
        method_id@ != "zero"@ && method_id@ != "random"@ ==> m.passes == 3 && m.kind
            == MethodKind::Dod,
{
    proof {
        reveal_strlit("zero");
        reveal_strlit("random");
        assert("zero"@[0] != "random"@[0]);
    }
    if crate::clean_executor::str_eq(method_id, "zero") {
        ShredMethod::zero()
    } else if crate::clean_executor::str_eq(method_id, "random") {
        ShredMethod::random()
    } else {
        ShredMethod::dod()
    }
}

/// Why a shred does not start: the path (its extended-length prefix
/// `\\?\` set aside) is a critical system folder, it is missing, its
/// metadata cannot be read, or it is a folder where a file is expected (or
/// the other way round).
pub open spec fn spec_shred_precheck(
    abs: Seq<char>,
    user_profile: Option<Seq<char>>,
    exists: bool,
    is_dir: Result<bool, Seq<char>>,
    want_dir: bool,
) -> Option<Seq<char>> {
    if crate::rules_engine::spec_is_critical_root(crate::winpath::strip_verbatim(abs), user_profile) {
        Some("拒绝粉碎系统关键目录: "@ + abs)
    } else if !exists {
        Some(
            if want_dir {
                "目录不存在"@
            } else {
                "文件不存在"@
            },
        )
    } else {
        match is_dir {
            Err(e) => Some(e),
            Ok(d) => if want_dir && !d {
                Some("目标不是目录"@)
            } else if !want_dir && d {
                Some("请使用 shred_folder 处理目录"@)
            } else {
                None
            },
        }
    }
}

pub open spec fn result_view(r: Result<bool, String>) -> Result<bool, Seq<char>> {
    match r {
        Ok(b) => Ok(b),
        Err(e) => Err(e@),
    }
}

/// `assert_shred_allowed` and the checks that follow it.
pub fn shred_precheck(
    abs: &str,
    user_profile: Option<&str>,
    exists: bool,
    is_dir: &Result<bool, String>,
    want_dir: bool,
) -> (r: Option<String>)
    ensures
        crate::service::opt_string_view(r) == spec_shred_precheck(
            abs@,
            crate::rules_engine::opt_view(user_profile),
            exists,
            result_view(*is_dir),
            want_dir,
        ),
{
    let plain = crate::text::string_of(&crate::winpath::strip_verbatim_chars(&crate::text::chars_of(abs)));
    if crate::rules_engine::is_critical_root(plain.as_str(), user_profile) {
        return Some(concat("拒绝粉碎系统关键目录: ", abs));
    }
    if !exists {
        return Some(
            if want_dir {
                "目录不存在".to_string()
            } else {
                "文件不存在".to_string()
            },
        );
    }
    match is_dir {
        Err(e) => Some(e.clone()),
        Ok(d) => if want_dir && !*d {
            Some("目标不是目录".to_string())
        } else if !want_dir && *d {
            Some("请使用 shred_folder 处理目录".to_string())
        } else {
            None
        },
    }
}

/// Where the overwrite of one file stands: its size, the method's passes,
/// the current pass, how far into it, and how many bytes were written in
/// all; `open` while the file is open for the current pass.
pub struct FileShred {
    pub size: u64,
    pub passes: u32,
    pub pass: u32,
    pub offset: u64,
    pub written: u64,
    pub open: bool,
    pub pending: u64,
    pub finished: bool,
}

/// What the caller does next.
pub enum ShredAction {
    /// Open the file for reading and writing (for pass `pass`).
    Open,
    /// Write `len` bytes of the pass's fill at the current offset.
    Write { len: u64 },
    /// Flush the pass to disk and close the file.
    SyncPass,
    /// Delete the file: every pass is done.
    Remove,
    /// Stop: the shred was cancelled.
    Cancelled,
    /// Stop with this error.
    Failed { error: String },
    /// Done: the file was overwritten `passes` times (and removed unless a
    /// cancel came after the last pass).
    Succeeded,
}

/// What came of the caller's last step.
pub enum ShredEvent {
    Start,
    Opened { result: Result<(), String> },
    Wrote { result: Result<(), String> },
    Synced { result: Result<(), String> },
    Removed { result: Result<(), String> },
}

/// The step at the start of a pass (the file closed): every pass done —
/// remove the file, or, when cancelled, succeed leaving it; else stop when
/// cancelled; else open the file for the pass.
pub open spec fn pass_start_action(pass: u32, passes: u32, cancelled: bool) -> ShredAction {
    if pass >= passes {
        if cancelled {
            ShredAction::Succeeded
        } else {
            ShredAction::Remove
        }
    } else if cancelled {
        ShredAction::Cancelled
    } else {
        ShredAction::Open
    }
}

/// The step inside a pass: stop when cancelled; write the next chunk while
/// bytes remain; else flush the pass.
pub open spec fn in_pass_action(size: u64, offset: u64, cancelled: bool) -> ShredAction {
    if cancelled {
        ShredAction::Cancelled
    } else if offset < size {
        ShredAction::Write {
            len: if CHUNK < size - offset {
                CHUNK
            } else {
                (size - offset) as u64
            },
        }
    } else {
        ShredAction::SyncPass
    }
}

/// What `step` does on each event: an error reported by the caller ends the
/// shred with that error; a success moves the state on and gives the next
/// step as `pass_start_action` and `in_pass_action` say.
pub open spec fn spec_step(s: FileShred, t: FileShred, ev: ShredEvent, cancelled: bool, a: ShredAction) -> bool {
    match ev {
        ShredEvent::Start => t.pass == 0 && t.offset == 0 && t.written == 0 && !t.open
            && a == pass_start_action(0, s.passes, cancelled),
        ShredEvent::Opened { result } => match result {
            Err(e) => a == ShredAction::Failed { error: e },
            Ok(_) => if s.pass >= s.passes {
                a is Failed
            } else {
                t.open && t.pass == s.pass && t.offset == s.offset && t.written == s.written
                    && a == in_pass_action(s.size, s.offset, cancelled)
            },
        },
        ShredEvent::Wrote { result } => match result {
            Err(e) => a == ShredAction::Failed { error: e },
            Ok(_) => if !s.open {
                a is Failed
            } else {
                t.open && t.pass == s.pass && t.offset == s.offset + s.pending
                    && t.written == s.written + s.pending
                    && a == in_pass_action(s.size, t.offset, cancelled)
            },
        },
        ShredEvent::Synced { result } => match result {
            Err(e) => a == ShredAction::Failed { error: e },
            Ok(_) => if !s.open || s.offset < s.size {
                a is Failed
            } else {
                !t.open && t.pass == s.pass + 1 && t.offset == 0 && t.written == s.written
                    && a == pass_start_action(t.pass, s.passes, cancelled)
            },
        },
        ShredEvent::Removed { result } => match result {
            Err(e) => a == ShredAction::Failed { error: e },
            Ok(_) => a is Succeeded,
        },
    }
}

impl FileShred {
    /// Every pass wrote the whole file before the current one, and the
    /// current one is `offset` bytes in.
    pub open spec fn wf(&self) -> bool {
        &&& self.offset <= self.size
        &&& self.pass <= self.passes
        &&& self.written == self.pass * self.size + self.offset
        &&& self.open ==> self.pass < self.passes
        &&& self.pending <= self.size - self.offset
    }

    pub fn new(size: u64, passes: u32) -> (r: FileShred)
        ensures
            r.wf(),
            r.size == size && r.passes == passes && r.pass == 0 && r.offset == 0 && r.written == 0,
            !r.open && !r.finished,
    {
        FileShred { size, passes, pass: 0, offset: 0, written: 0, open: false, pending: 0, finished: false }
    }

    /// `size * passes`, saturating: the progress total.
    pub fn total_bytes(&self) -> (r: u64)
        ensures
            r == (if self.size * self.passes <= u64::MAX {
                (self.size * self.passes) as u64
            } else {
                u64::MAX
            }),
    {
        sat_mul(self.size, self.passes as u64)
    }

    /// Where to go from the state with the file closed between passes: all
    /// passes done — remove the file, unless cancelled (then succeed without
    /// removing); else stop when cancelled; else open for the next pass.
    fn at_pass_start(&mut self, cancelled: bool) -> (a: ShredAction)
        requires
            old(self).wf(),
            !old(self).open,
            old(self).offset == 0,
        ensures
            final(self).wf(),
            final(self).size == old(self).size && final(self).passes == old(self).passes,
            a == pass_start_action(old(self).pass, old(self).passes, cancelled),
            final(self).open == old(self).open,
            final(self).pass == old(self).pass && final(self).offset == old(self).offset
                && final(self).written == old(self).written,
    {
        if self.pass >= self.passes {
            if !cancelled {
                ShredAction::Remove
            } else {
                self.finished = true;
                ShredAction::Succeeded
            }
        } else if cancelled {
            self.finished = true;
            ShredAction::Cancelled
        } else {
            ShredAction::Open
        }
    }

    /// Inside a pass: stop when cancelled; write the next chunk (at most
    /// `CHUNK` bytes) while bytes remain; else flush the pass.
    fn in_pass(&mut self, cancelled: bool) -> (a: ShredAction)
        requires
            old(self).wf(),
            old(self).open,
        ensures
            final(self).wf(),
            final(self).size == old(self).size && final(self).passes == old(self).passes,
            final(self).pass == old(self).pass && final(self).offset == old(self).offset
                && final(self).written == old(self).written,
            a == in_pass_action(old(self).size, old(self).offset, cancelled),
            final(self).open == old(self).open,
            a matches ShredAction::Write { len } ==> final(self).pending == len,
    {
        if cancelled {
            self.finished = true;
            return ShredAction::Cancelled;
        }
        if self.offset < self.size {
            let rest = self.size - self.offset;
            let len = if CHUNK < rest {
                CHUNK
            } else {
                rest
            };
            self.pending = len;
            ShredAction::Write { len }
        } else {
            ShredAction::SyncPass
        }
    }

    /// The next step after an event, with the cancel flag as it is now.
    pub fn step(&mut self, ev: ShredEvent, cancelled: bool) -> (a: ShredAction)
        requires
            old(self).wf(),
            old(self).passes <= 3,
            old(self).size * 3 <= u64::MAX,
        ensures
            final(self).wf(),
            final(self).size == old(self).size && final(self).passes == old(self).passes,
            a is Remove ==> final(self).pass == final(self).passes && final(self).written
                == final(self).size * final(self).passes,
            a is Remove ==> !cancelled,
            a matches ShredAction::Write { len } ==> len > 0 && len <= CHUNK,
            a matches ShredAction::Write { len } ==> final(self).pending == len,
            spec_step(*old(self), *final(self), ev, cancelled, a),
    {
        match ev {
            ShredEvent::Start => {
                self.pass = 0;
                self.offset = 0;
                self.written = 0;
                self.open = false;
                self.pending = 0;
                self.at_pass_start(cancelled)
            },
            ShredEvent::Opened { result } => match result {
                Err(e) => {
                    self.open = false;
                    self.finished = true;
                    ShredAction::Failed { error: e }
                },
                Ok(()) => {
                    if self.pass >= self.passes {
                        self.finished = true;
                        return ShredAction::Failed { error: "no pass to write".to_string() };
                    }
                    self.open = true;
                    self.pending = 0;
                    self.in_pass(cancelled)
                },
            },
            ShredEvent::Wrote { result } => match result {
                Err(e) => {
                    self.open = false;
                    self.finished = true;
                    ShredAction::Failed { error: e }
                },
                Ok(()) => {
                    if !self.open {
                        self.finished = true;
                        return ShredAction::Failed { error: "file not open".to_string() };
                    }
                    assert(self.written + self.pending <= self.passes * self.size) by (nonlinear_arith)
                        requires
                            self.written == self.pass * self.size + self.offset,
                            self.pending <= self.size - self.offset,
                            self.pass < self.passes,
                    ;
                    assert(self.passes * self.size <= 3 * self.size) by (nonlinear_arith)
                        requires
                            self.passes <= 3,
                    ;
                    self.offset = self.offset + self.pending;
                    self.written = self.written + self.pending;
                    self.pending = 0;
                    self.in_pass(cancelled)
                },
            },
            ShredEvent::Synced { result } => match result {
                Err(e) => {
                    self.open = false;
                    self.finished = true;
                    ShredAction::Failed { error: e }
                },
                Ok(()) => {
                    if !self.open || self.offset < self.size {
                        self.finished = true;
                        return ShredAction::Failed { error: "pass not complete".to_string() };
                    }
                    self.open = false;
                    self.pass = self.pass + 1;
                    self.offset = 0;
                    self.pending = 0;
                    assert(self.written == self.pass * self.size) by (nonlinear_arith)
                        requires
                            self.written == (self.pass - 1) * self.size + self.size,
                    ;
                    let a = self.at_pass_start(cancelled);
                    proof {
                        if a is Remove {
                            assert(self.pass == self.passes);
                        }
                    }
                    a
                },
            },
            ShredEvent::Removed { result } => {
                self.finished = true;
                match result {
                    Err(e) => ShredAction::Failed { error: e },
                    Ok(()) => ShredAction::Succeeded,
                }
            },
        }
    }
}

/// The tallies of a folder shred: each file's outcome in order (path,
/// success), the counts, the bytes written, and the folder's total size.
pub struct FolderTally {
    pub results: Vec<(String, bool)>,
    pub succeeded: u64,
    pub failed: u64,
    pub written: u64,
    pub size: u64,
    pub total_bytes: u64,
    pub files_total: u64,
    pub files_done: u64,
}

/// How many of the outcomes are successes.
pub open spec fn successes(r: Seq<(String, bool)>) -> int
    decreases r.len(),
{
    if r.len() == 0 {
        0
    } else {
        successes(r.drop_last()) + (if r.last().1 {
            1int
        } else {
            0int
        })
    }
}

impl FolderTally {
    /// One outcome per file done; the successes and failures are counted
    /// from them.
    pub open spec fn wf(&self) -> bool {
        &&& self.files_done == self.results@.len()
        &&& self.succeeded == successes(self.results@)
        &&& self.succeeded + self.failed == self.files_done
    }

    /// Nothing shredded yet, out of `files_total` files of `total_size` bytes.
    pub fn new(total_size: u64, passes: u32, files_total: u64) -> (r: FolderTally)
        ensures
            r.wf(),
            r.results@.len() == 0,
            r.succeeded == 0 && r.failed == 0 && r.written == 0 && r.files_done == 0,
            r.size == total_size,
            r.files_total == files_total,
            r.total_bytes == (if total_size * passes <= u64::MAX {
                (total_size * passes) as u64
            } else {
                u64::MAX
            }),
    {
        FolderTally {
            results: Vec::new(),
            succeeded: 0,
            failed: 0,
            written: 0,
            size: total_size,
            total_bytes: sat_mul(total_size, passes as u64),
            files_total,
            files_done: 0,
        }
    }

    /// One file's outcome: it is added to the outcomes; a success adds its
    /// size times the passes to what was written (saturating); either way one
    /// more file is done.
    pub fn record(&mut self, path: &str, ok: bool, size: Option<u64>, passes: u32)
        requires
            old(self).wf(),
            old(self).files_done < u64::MAX,
        ensures
            final(self).wf(),
            final(self).results@.len() == old(self).results@.len() + 1,
            final(self).results@.drop_last() == old(self).results@,
            final(self).results@.last().0@ == path@ && final(self).results@.last().1 == ok,
            final(self).files_done == old(self).files_done + 1,
            final(self).total_bytes == old(self).total_bytes,
            final(self).files_total == old(self).files_total,
            final(self).size == old(self).size,
            ok ==> final(self).succeeded == old(self).succeeded + 1 && final(self).failed == old(
                self,
            ).failed,
            !ok ==> final(self).failed == old(self).failed + 1 && final(self).succeeded == old(
                self,
            ).succeeded && final(self).written == old(self).written,
            ok ==> final(self).written == (match size {
                Some(s) => {
                    let add: int = if s * passes <= u64::MAX {
                        s * passes
                    } else {
                        u64::MAX as int
                    };
                    if old(self).written + add <= u64::MAX {
                        old(self).written + add
                    } else {
                        u64::MAX as int
                    }
                },
                None => old(self).written as int,
            }),
    {
        let ghost before = self.results@;
        self.results.push((path.to_string(), ok));
        assert(self.results@.drop_last() =~= before);
        if ok {
            self.succeeded = self.succeeded + 1;
            match size {
                Some(s) => {
                    self.written = self.written.saturating_add(sat_mul(s, passes as u64));
                },
                None => {},
            }
        } else {
            self.failed = self.failed + 1;
        }
        self.files_done = self.files_done + 1;
    }
}

/// A folder shred accounts for every file once: there is one outcome per
/// file done, successes and failures add up to the files done, and the
/// successes are the outcomes that succeeded.
pub proof fn law_folder_tally_accounts(t: FolderTally)
    requires
        t.wf(),
    ensures
        t.results@.len() == t.files_done,
        t.succeeded + t.failed == t.files_done,
        t.succeeded == successes(t.results@),
{
}

/// The sum of the files' sizes, when it fits in a `u64`.
pub open spec fn size_sum(s: Seq<u64>) -> int
    decreases s.len(),
{
    if s.len() == 0 {
        0
    } else {
        size_sum(s.drop_last()) + s.last()
    }
}

pub fn total_size(sizes: &Vec<u64>) -> (r: Option<u64>)
    ensures
        match r {
            Some(t) => t == size_sum(sizes@),
            None => size_sum(sizes@) > u64::MAX,
        },
{
    let mut t: u64 = 0;
    let mut i: usize = 0;
    while i < sizes.len()
        invariant
            i <= sizes.len(),
            t == size_sum(sizes@.take(i as int)),
        decreases sizes.len() - i,
    {
        assert(sizes@.take(i + 1).drop_last() =~= sizes@.take(i as int));
        match t.checked_add(sizes[i]) {
            Some(n) => {
                t = n;
            },
            None => {
                proof {
                    lemma_size_sum_mono(sizes@, i + 1);
                }
                return None;
            },
        }
        i += 1;
    }
    assert(sizes@.take(sizes.len() as int) =~= sizes@);
    Some(t)
}

proof fn lemma_size_sum_mono(s: Seq<u64>, k: int)
    requires
        0 <= k <= s.len(),
    ensures
        size_sum(s.take(k)) <= size_sum(s),
    decreases s.len() - k,
{
    if k < s.len() {
        lemma_size_sum_mono(s, k + 1);
        assert(s.take(k + 1).drop_last() =~= s.take(k));
    } else {
        assert(s.take(k) =~= s);
    }
}

/// While collecting a folder's files: a sub-folder is entered once per real
/// path (compared in lowercase), so links cannot make the walk loop; one
/// whose real path cannot be read is passed over.
pub fn enter_dir(seen: &mut StringSet, real_path: Option<&str>) -> (r: bool)
    requires
        old(seen).wf(),
    ensures
        final(seen).wf(),
        real_path is None ==> !r && final(seen)@ == old(seen)@,
        real_path matches Some(p) ==> r == !old(seen)@.contains(lowercase_of(p@)) && final(seen)@
            == old(seen)@.insert(lowercase_of(p@)),
{
    match real_path {
        None => false,
        Some(p) => {
            let key = to_lowercase(p);
            if seen.contains(key.as_str()) {
                assert(old(seen)@.insert(key@) =~= old(seen)@);
                false
            } else {
                seen.set_ignored(key.as_str(), true);
                true
            }
        },
    }
}

} // verus!
