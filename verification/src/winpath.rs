//! A model of Windows path text: separators, drive designators, the
//! components that path comparison works on, and path joining.

use vstd::prelude::*;
use crate::text::{is_ascii_alpha, views};

verus! {

pub open spec fn is_sep(c: char) -> bool {
    c == '\\' || c == '/'
}

/// The path starts with a drive designator such as `C:`.
pub open spec fn has_drive(s: Seq<char>) -> bool {
    s.len() >= 2 && is_ascii_alpha(s[0]) && s[1] == ':'
}

pub open spec fn drive_of(s: Seq<char>) -> Seq<char> {
    if has_drive(s) {
        s.take(2)
    } else {
        seq![]
    }
}

/// The text after the drive designator.
pub open spec fn body_of(s: Seq<char>) -> Seq<char> {
    if has_drive(s) {
        s.skip(2)
    } else {
        s
    }
}

/// A separator follows the drive designator (or starts the path).
pub open spec fn is_rooted(s: Seq<char>) -> bool {
    body_of(s).len() > 0 && is_sep(body_of(s)[0])
}

pub open spec fn dot() -> Seq<char> {
    seq!['.']
}

pub open spec fn dotdot() -> Seq<char> {
    seq!['.', '.']
}

pub open spec fn flush_seg(done: Seq<Seq<char>>, cur: Seq<char>) -> Seq<Seq<char>> {
    if cur.len() == 0 || cur == dot() {
        done
    } else {
        done.push(cur)
    }
}

pub open spec fn seg_state(s: Seq<char>) -> (Seq<Seq<char>>, Seq<char>)
    decreases s.len(),
{
    if s.len() == 0 {
        (seq![], seq![])
    } else {
        let st = seg_state(s.drop_last());
        if is_sep(s.last()) {
            (flush_seg(st.0, st.1), seq![])
        } else {
            (st.0, st.1.push(s.last()))
        }
    }
}

/// The named components of a path: the pieces between separators after the
/// drive designator, with empty pieces and `.` left out.
pub open spec fn segments(s: Seq<char>) -> Seq<Seq<char>> {
    flush_seg(seg_state(body_of(s)).0, seg_state(body_of(s)).1)
}

/// `c` lies strictly below `p`: same drive and root, the components of `p`
/// are a proper prefix of those of `c`, and no remaining component is `..`.
pub open spec fn path_under(p: Seq<char>, c: Seq<char>) -> bool {
    let sp = segments(p);
    let sc = segments(c);
    &&& drive_of(p) == drive_of(c)
    &&& is_rooted(p) == is_rooted(c)
    &&& sp.len() < sc.len()
    &&& sp == sc.take(sp.len() as int)
    &&& forall|k: int| sp.len() <= k < sc.len() ==> sc[k] != dotdot()
}

/// The last component, unless there is none or it is `..`.
pub open spec fn file_name_of(s: Seq<char>) -> Option<Seq<char>> {
    let sg = segments(s);
    if sg.len() == 0 || sg.last() == dotdot() {
        None
    } else {
        Some(sg.last())
    }
}

/// `base` joined with `name` the way `PathBuf::push` joins on Windows.
pub open spec fn join_spec(base: Seq<char>, name: Seq<char>) -> Seq<char> {
    if has_drive(name) {
        name
    } else if name.len() > 0 && is_sep(name[0]) {
        drive_of(base) + name
    } else if base.len() == 0 {
        name
    } else if is_sep(base.last()) || (base.len() == 2 && has_drive(base)) {
        base + name
    } else {
        base + seq!['\\'] + name
    }
}

pub fn is_sep_char(c: char) -> (r: bool)
    ensures
        r == is_sep(c),
{
    c == '\\' || c == '/'
}

pub fn is_ascii_alpha_char(c: char) -> (r: bool)
    ensures
        r == is_ascii_alpha(c),
{
    ('a' <= c && c <= 'z') || ('A' <= c && c <= 'Z')
}

pub fn has_drive_exec(s: &Vec<char>) -> (r: bool)
    ensures
        r == has_drive(s@),
{
    s.len() >= 2 && is_ascii_alpha_char(s[0]) && s[1] == ':'
}

pub fn body_start(s: &Vec<char>) -> (r: usize)
    ensures
        r <= s.len(),
        body_of(s@) == s@.subrange(r as int, s.len() as int),
        drive_of(s@) == s@.subrange(0, r as int),
{
    if has_drive_exec(s) {
        assert(s@.skip(2) =~= s@.subrange(2, s.len() as int));
        assert(s@.take(2) =~= s@.subrange(0, 2));
        2
    } else {
        assert(s@ =~= s@.subrange(0, s.len() as int));
        assert(s@.subrange(0, 0) =~= Seq::<char>::empty());
        0
    }
}

pub fn is_rooted_exec(s: &Vec<char>) -> (r: bool)
    ensures
        r == is_rooted(s@),
{
    let b = body_start(s);
    b < s.len() && is_sep_char(s[b])
}

proof fn lemma_subrange_step(s: Seq<char>, from: int, i: int)
    requires
        0 <= from <= i < s.len(),
    ensures
        s.subrange(from, i + 1).drop_last() == s.subrange(from, i),
        s.subrange(from, i + 1).last() == s[i],
        s.subrange(from, i + 1).len() > 0,
{
    assert(s.subrange(from, i + 1).drop_last() =~= s.subrange(from, i));
}

fn keep_segment(cur: &Vec<char>) -> (r: bool)
    ensures
        r == !(cur@.len() == 0 || cur@ == dot()),
{
    let keep = cur.len() > 0 && !(cur.len() == 1 && cur[0] == '.');
    assert(keep == !(cur@.len() == 0 || cur@ == dot())) by {
        if cur@.len() == 1 && cur@[0] == '.' {
            assert(cur@ =~= dot());
        }
    }
    keep
}

#[verifier::spinoff_prover]
#[verifier::rlimit(40)]
pub fn segments_exec(s: &Vec<char>) -> (r: Vec<Vec<char>>)
    ensures
        views(r@) == segments(s@),
{
    let b = body_start(s);
    let ghost body = body_of(s@);
    let mut done: Vec<Vec<char>> = Vec::new();
    let mut cur: Vec<char> = Vec::new();
    let mut i: usize = b;
    assert(s@.subrange(b as int, b as int).len() == 0);
    while i < s.len()
        invariant
            b <= i <= s.len(),
            body == s@.subrange(b as int, s.len() as int),
            views(done@) == seg_state(s@.subrange(b as int, i as int)).0,
            cur@ == seg_state(s@.subrange(b as int, i as int)).1,
        decreases s.len() - i,
    {
        proof {
            lemma_subrange_step(s@, b as int, i as int);
        }
        if is_sep_char(s[i]) {
            if keep_segment(&cur) {
                let piece = cur;
                done.push(piece);
            }
            cur = Vec::new();
        } else {
            cur.push(s[i]);
        }
        i += 1;
        assert(views(done@) =~= seg_state(s@.subrange(b as int, i as int)).0);
    }
    if keep_segment(&cur) {
        done.push(cur);
    }
    assert(views(done@) =~= segments(s@));
    done
}

} // verus!

verus! {

pub fn drive_exec(s: &Vec<char>) -> (r: Vec<char>)
    ensures
        r@ == drive_of(s@),
{
    let b = body_start(s);
    crate::text::slice_chars(s, 0, b)
}

/// Decides `path_under` on two path texts.
pub fn path_under_exec(p: &Vec<char>, c: &Vec<char>) -> (r: bool)
    ensures
        r == path_under(p@, c@),
{
    let dp = drive_exec(p);
    let dc = drive_exec(c);
    if !crate::text::seq_equal(&dp, &dc) {
        return false;
    }
    if is_rooted_exec(p) != is_rooted_exec(c) {
        return false;
    }
    let sp = segments_exec(p);
    let sc = segments_exec(c);
    let ghost gp = segments(p@);
    let ghost gc = segments(c@);
    assert(views(sp@).len() == sp.len() && views(sc@).len() == sc.len());
    if sp.len() >= sc.len() {
        assert(gp.len() >= gc.len());
        return false;
    }
    let mut i: usize = 0;
    while i < sp.len()
        invariant
            sp.len() < sc.len(),
            i <= sp.len(),
            views(sp@) == gp,
            views(sc@) == gc,
            gp == segments(p@),
            gc == segments(c@),
            drive_of(p@) == drive_of(c@),
            is_rooted(p@) == is_rooted(c@),
            forall|k: int| 0 <= k < i ==> gp[k] == gc[k],
        decreases sp.len() - i,
    {
        if !crate::text::seq_equal(&sp[i], &sc[i]) {
            assert(gp[i as int] != gc.take(gp.len() as int)[i as int]);
            return false;
        }
        i += 1;
    }
    assert(gp =~= gc.take(gp.len() as int));
    let dd: Vec<char> = vec!['.', '.'];
    let mut j: usize = sp.len();
    while j < sc.len()
        invariant
            sp.len() <= j <= sc.len(),
            views(sc@) == gc,
            gp == segments(p@),
            gc == segments(c@),
            gp.len() == sp.len(),
            dd@ == dotdot(),
            forall|k: int| sp.len() <= k < j ==> gc[k] != dotdot(),
        decreases sc.len() - j,
    {
        if crate::text::seq_equal(&sc[j], &dd) {
            assert(gc[j as int] == dotdot());
            return false;
        }
        j += 1;
    }
    true
}

pub fn file_name_exec(s: &Vec<char>) -> (r: Option<Vec<char>>)
    ensures
        match r {
            Some(v) => file_name_of(s@) == Some(v@),
            None => file_name_of(s@).is_none(),
        },
{
    let sg = segments_exec(s);
    let ghost g = segments(s@);
    assert(views(sg@).len() == sg.len());
    if sg.len() == 0 {
        return None;
    }
    let last = &sg[sg.len() - 1];
    assert(last@ == g.last());
    let dd: Vec<char> = vec!['.', '.'];
    if crate::text::seq_equal(last, &dd) {
        return None;
    }
    let r = crate::text::slice_chars(last, 0, last.len());
    assert(last@.subrange(0, last.len() as int) =~= last@);
    Some(r)
}

pub fn join_chars(base: &Vec<char>, name: &Vec<char>) -> (r: Vec<char>)
    ensures
        r@ == join_spec(base@, name@),
{
    if has_drive_exec(name) {
        let r = crate::text::slice_chars(name, 0, name.len());
        assert(name@.subrange(0, name.len() as int) =~= name@);
        return r;
    }
    if name.len() > 0 && is_sep_char(name[0]) {
        let mut r = drive_exec(base);
        crate::text::append_chars(&mut r, name);
        return r;
    }
    if base.len() == 0 {
        let r = crate::text::slice_chars(name, 0, name.len());
        assert(name@.subrange(0, name.len() as int) =~= name@);
        return r;
    }
    let mut r = crate::text::slice_chars(base, 0, base.len());
    assert(base@.subrange(0, base.len() as int) =~= base@);
    if !(is_sep_char(base[base.len() - 1]) || (base.len() == 2 && has_drive_exec(base))) {
        r.push('\\');
    }
    crate::text::append_chars(&mut r, name);
    r
}

/// `base` joined with `name` as Windows joins paths.
pub fn path_join(base: &str, name: &str) -> (r: String)
    ensures
        r@ == join_spec(base@, name@),
{
    let b = crate::text::chars_of(base);
    let n = crate::text::chars_of(name);
    let r = join_chars(&b, &n);
    crate::text::string_of(&r)
}

pub open spec fn verbatim_unc_prefix() -> Seq<char> {
    seq!['\\', '\\', '?', '\\', 'U', 'N', 'C', '\\']
}

pub open spec fn verbatim_prefix() -> Seq<char> {
    seq!['\\', '\\', '?', '\\']
}

/// The extended-length prefix `\\?\` (or `\\?\UNC\`, which becomes `\\`)
/// removed.
pub open spec fn strip_verbatim(s: Seq<char>) -> Seq<char> {
    if verbatim_unc_prefix().is_prefix_of(s) {
        seq!['\\', '\\'] + s.skip(8)
    } else if verbatim_prefix().is_prefix_of(s) {
        s.skip(4)
    } else {
        s
    }
}

/// The comparison form of a (canonicalized) path: extended-length prefix
/// removed and trailing backslashes trimmed.
pub open spec fn norm_text(s: Seq<char>) -> Seq<char> {
    crate::text::trim_end_char(strip_verbatim(s), '\\')
}

/// The extended-length prefix removed (see `strip_verbatim`).
pub fn strip_verbatim_chars(s: &Vec<char>) -> (r: Vec<char>)
    ensures
        r@ == strip_verbatim(s@),
{
    let unc: Vec<char> = vec!['\\', '\\', '?', '\\', 'U', 'N', 'C', '\\'];
    let vb: Vec<char> = vec!['\\', '\\', '?', '\\'];
    let stripped = if crate::text::starts_with(s, &unc) {
        let mut r: Vec<char> = vec!['\\', '\\'];
        let rest = crate::text::slice_chars(s, 8, s.len());
        crate::text::append_chars(&mut r, &rest);
        assert(s@.skip(8) =~= rest@);
        r
    } else if crate::text::starts_with(s, &vb) {
        let r = crate::text::slice_chars(s, 4, s.len());
        assert(s@.skip(4) =~= r@);
        r
    } else {
        let r = crate::text::slice_chars(s, 0, s.len());
        assert(s@.subrange(0, s.len() as int) =~= s@);
        r
    };
    assert(stripped@ =~= strip_verbatim(s@));
    stripped
}

pub fn norm_chars(s: &Vec<char>) -> (r: Vec<char>)
    ensures
        r@ == norm_text(s@),
{
    let stripped = strip_verbatim_chars(s);
    crate::text::trim_end_matches(&stripped, '\\')
}

/// The comparison form of a path text (see `norm_text`).
pub fn norm_path_text(s: &str) -> (r: String)
    ensures
        r@ == norm_text(s@),
{
    let c = crate::text::chars_of(s);
    let n = norm_chars(&c);
    crate::text::string_of(&n)
}

} // verus!
