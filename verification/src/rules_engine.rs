//! Path safety rules: which directories are system-critical, which are the
//! user's own folders, and when a clean target is safe to touch.
//!
//! Paths reach these functions in the form the file system resolved them to
//! (resolved where the path exists, unchanged where it does not); the caller
//! does that resolution and reads `%USERPROFILE%`.

use vstd::prelude::*;
use crate::text::{
    chars_of, lowercase_of, spec_eq_ignore_ascii_case, string_of, to_lowercase,
    eq_ignore_ascii_case, seq_equal,
};
use crate::winpath::{
    join_spec, norm_text, path_under, path_join, norm_chars, path_under_exec,
};

verus! {

pub open spec fn critical_roots() -> Seq<Seq<char>> {
    seq![
        "C:\\Windows"@,
        "C:\\Program Files"@,
        "C:\\Program Files (x86)"@,
        "C:\\ProgramData"@,
        "C:\\Users"@,
    ]
}

/// The fixed system roots that no clean may target.
pub fn critical_roots_list() -> (v: Vec<&'static str>)
    ensures
        v@.len() == critical_roots().len(),
        forall|i: int| 0 <= i < v@.len() ==> #[trigger] v@[i]@ == critical_roots()[i],
{
    let v = vec![
        "C:\\Windows",
        "C:\\Program Files",
        "C:\\Program Files (x86)",
        "C:\\ProgramData",
        "C:\\Users",
    ];
    v
}

/// A drive root such as `c:\` (the text is already lowercased by callers).
pub open spec fn spec_is_drive_root(s: Seq<char>) -> bool {
    s.len() == 3 && crate::text::is_ascii_alpha(s[0]) && s[1] == ':' && s[2] == '\\'
}

pub fn is_drive_root(path: &str) -> (r: bool)
    ensures
        r == spec_is_drive_root(path@),
{
    let c = chars_of(path);
    c.len() == 3 && crate::winpath::is_ascii_alpha_char(c[0]) && c[1] == ':' && c[2] == '\\'
}

/// A drive designator with its separator trimmed, such as `C:`: the form a
/// drive root takes once a path is put in comparison form.
pub open spec fn spec_is_bare_drive(s: Seq<char>) -> bool {
    s.len() == 2 && crate::text::is_ascii_alpha(s[0]) && s[1] == ':'
}

/// `path` is a drive root, one of the critical roots, or the user profile,
/// compared after Unicode lowercasing.
pub open spec fn spec_is_critical_root(path: Seq<char>, user_profile: Option<Seq<char>>) -> bool {
    let l = lowercase_of(path);
    ||| spec_is_drive_root(l)
    ||| exists|i: int| 0 <= i < critical_roots().len() && l == lowercase_of(critical_roots()[i])
    ||| (user_profile is Some && l == lowercase_of(user_profile->0))
}

pub open spec fn opt_view(o: Option<&str>) -> Option<Seq<char>> {
    match o {
        Some(s) => Some(s@),
        None => None,
    }
}

pub fn is_critical_root(path: &str, user_profile: Option<&str>) -> (r: bool)
    ensures
        r == spec_is_critical_root(path@, opt_view(user_profile)),
{
    let lower = to_lowercase(path);
    if is_drive_root(lower.as_str()) {
        return true;
    }
    let lc = chars_of(lower.as_str());
    let roots = critical_roots_list();
    let mut i: usize = 0;
    while i < roots.len()
        invariant
            i <= roots.len(),
            roots@.len() == critical_roots().len(),
            forall|k: int| 0 <= k < roots@.len() ==> #[trigger] roots@[k]@ == critical_roots()[k],
            lc@ == lowercase_of(path@),
            forall|k: int| 0 <= k < i ==> lc@ != lowercase_of(critical_roots()[k]),
        decreases roots.len() - i,
    {
        let cl = to_lowercase(roots[i]);
        let cc = chars_of(cl.as_str());
        assert(roots@[i as int]@ == critical_roots()[i as int]);
        if seq_equal(&lc, &cc) {
            return true;
        }
        i += 1;
    }
    match user_profile {
        Some(up) => {
            let ul = to_lowercase(up);
            let uc = chars_of(ul.as_str());
            seq_equal(&lc, &uc)
        },
        None => false,
    }
}

/// `child` lies strictly inside `parent`, both compared in lowercase.
pub open spec fn spec_is_inside(parent: Seq<char>, child: Seq<char>) -> bool {
    path_under(lowercase_of(parent), lowercase_of(child))
}

pub fn is_inside(parent: &str, child: &str) -> (r: bool)
    ensures
        r == spec_is_inside(parent@, child@),
{
    let p = to_lowercase(parent);
    let c = to_lowercase(child);
    let pc = chars_of(p.as_str());
    let cc = chars_of(c.as_str());
    path_under_exec(&pc, &cc)
}

pub open spec fn protected_names() -> Seq<Seq<char>> {
    seq![
        "Downloads"@,
        "桌面"@,
        "Desktop"@,
        "Documents"@,
        "文档"@,
        "Pictures"@,
        "图片"@,
        "Music"@,
        "音乐"@,
        "Videos"@,
        "视频"@,
        "OneDrive"@,
    ]
}

pub open spec fn profile_or_empty(user_profile: Option<Seq<char>>) -> Seq<char> {
    match user_profile {
        Some(u) => u,
        None => seq![],
    }
}

/// The user's personal folders (downloads, desktop, documents, pictures,
/// music, videos, OneDrive, with their Chinese names), below the profile.
pub fn protected_user_dirs(user_profile: Option<&str>) -> (r: Vec<String>)
    ensures
        r@.len() == protected_names().len(),
        forall|i: int|
            0 <= i < r@.len() ==> #[trigger] r@[i]@ == join_spec(
                profile_or_empty(opt_view(user_profile)),
                protected_names()[i],
            ),
{
    let up: &str = match user_profile {
        Some(u) => u,
        None => "",
    };
    proof {
        reveal_strlit("");
    }
    assert(up@ == profile_or_empty(opt_view(user_profile)));
    let names = vec![
        "Downloads",
        "桌面",
        "Desktop",
        "Documents",
        "文档",
        "Pictures",
        "图片",
        "Music",
        "音乐",
        "Videos",
        "视频",
        "OneDrive",
    ];
    let mut out: Vec<String> = Vec::new();
    let mut i: usize = 0;
    while i < names.len()
        invariant
            i <= names.len(),
            names@.len() == protected_names().len(),
            forall|k: int| 0 <= k < names@.len() ==> #[trigger] names@[k]@ == protected_names()[k],
            out@.len() == i,
            up@ == profile_or_empty(opt_view(user_profile)),
            forall|k: int|
                0 <= k < i ==> #[trigger] out@[k]@ == join_spec(up@, protected_names()[k]),
        decreases names.len() - i,
    {
        let d = path_join(up, names[i]);
        assert(names@[i as int]@ == protected_names()[i as int]);
        out.push(d);
        i += 1;
    }
    out
}

/// Non-empty, and equal (ignoring ASCII case, in comparison form) to one of
/// the protected folders.
pub open spec fn spec_is_protected_user_dir(path: Seq<char>, dirs: Seq<Seq<char>>) -> bool {
    path.len() > 0 && exists|i: int|
        0 <= i < dirs.len() && spec_eq_ignore_ascii_case(norm_text(dirs[i]), norm_text(path))
}

pub open spec fn string_views(v: Seq<String>) -> Seq<Seq<char>> {
    v.map_values(|s: String| s@)
}

/// `abs_path` (as resolved) is exactly one of the protected user folders (as
/// resolved); files inside them are not matched.
pub fn is_protected_user_dir(abs_path: &str, protected_dirs: &Vec<String>) -> (r: bool)
    ensures
        r == spec_is_protected_user_dir(abs_path@, string_views(protected_dirs@)),
{
    let a = chars_of(abs_path);
    if a.len() == 0 {
        return false;
    }
    let ts = norm_chars(&a);
    let ghost dirs = string_views(protected_dirs@);
    let mut i: usize = 0;
    while i < protected_dirs.len()
        invariant
            i <= protected_dirs.len(),
            dirs == string_views(protected_dirs@),
            ts@ == norm_text(a@),
            a@ == abs_path@,
            a@.len() > 0,
            forall|k: int|
                0 <= k < i ==> !spec_eq_ignore_ascii_case(norm_text(dirs[k]), norm_text(a@)),
        decreases protected_dirs.len() - i,
    {
        let pc = chars_of(protected_dirs[i].as_str());
        let pn = norm_chars(&pc);
        assert(dirs[i as int] == protected_dirs@[i as int]@);
        if eq_ignore_ascii_case(&pn, &ts) {
            assert(spec_eq_ignore_ascii_case(norm_text(dirs[i as int]), norm_text(abs_path@)));
            return true;
        }
        i += 1;
    }
    false
}

} // verus!

verus! {

/// The critical roots plus the user profile when it is set.
pub open spec fn crit_list(user_profile: Option<Seq<char>>) -> Seq<Seq<char>> {
    match user_profile {
        Some(u) => critical_roots().push(u),
        None => critical_roots(),
    }
}

/// A critical root `c` "covers" `t` when `t` is `c` itself or lies inside it.
pub open spec fn covers(c: Seq<char>, t: Seq<char>) -> bool {
    spec_is_inside(c, t) || lowercase_of(t) == lowercase_of(c)
}

/// The safety rule for a clean target `a` under a declared root `r`, both as
/// resolved:
/// - neither is empty;
/// - the target is the root or lies inside it;
/// - the target is no critical root (a drive root among them, also in its
///   trimmed form `C:`) and no protected user folder;
/// - when a critical root (or the profile) covers the target, the declared
///   root lies strictly inside that critical root.
pub open spec fn spec_is_safe_path(
    a: Seq<char>,
    r: Seq<char>,
    user_profile: Option<Seq<char>>,
    dirs: Seq<Seq<char>>,
) -> bool {
    let t = norm_text(a);
    let root = norm_text(r);
    &&& a.len() > 0 && r.len() > 0
    &&& (t == root || spec_is_inside(root, t))
    &&& !spec_is_critical_root(t, user_profile)
    &&& !spec_is_bare_drive(t)
    &&& !spec_is_protected_user_dir(t, dirs)
    &&& forall|i: int|
        0 <= i < crit_list(user_profile).len() ==> (covers(crit_list(user_profile)[i], t)
            ==> spec_is_inside(crit_list(user_profile)[i], root))
}

pub fn is_safe_path(
    abs_path: &str,
    allowed_root: &str,
    user_profile: Option<&str>,
    protected_dirs: &Vec<String>,
) -> (r: bool)
    ensures
        r == spec_is_safe_path(
            abs_path@,
            allowed_root@,
            opt_view(user_profile),
            string_views(protected_dirs@),
        ),
{
    let a = chars_of(abs_path);
    let rt = chars_of(allowed_root);
    if a.len() == 0 || rt.len() == 0 {
        return false;
    }
    let tv = norm_chars(&a);
    let rv = norm_chars(&rt);
    let target_str = string_of(&tv);
    let root_str = string_of(&rv);
    if !seq_equal(&tv, &rv) && !is_inside(root_str.as_str(), target_str.as_str()) {
        return false;
    }
    if is_critical_root(target_str.as_str(), user_profile) {
        return false;
    }
    if tv.len() == 2 && crate::winpath::is_ascii_alpha_char(tv[0]) && tv[1] == ':' {
        return false;
    }
    if is_protected_user_dir(target_str.as_str(), protected_dirs) {
        return false;
    }
    let ghost crits = crit_list(opt_view(user_profile));
    let roots = critical_roots_list();
    let mut i: usize = 0;
    while i < roots.len()
        invariant
            i <= roots.len(),
            roots@.len() == critical_roots().len(),
            forall|k: int| 0 <= k < roots@.len() ==> #[trigger] roots@[k]@ == critical_roots()[k],
            crits == crit_list(opt_view(user_profile)),
            target_str@ == norm_text(abs_path@),
            root_str@ == norm_text(allowed_root@),
            forall|k: int|
                0 <= k < i ==> (covers(crits[k], target_str@) ==> spec_is_inside(
                    crits[k],
                    root_str@,
                )),
        decreases roots.len() - i,
    {
        let c = roots[i];
        assert(c@ == crits[i as int]);
        let cl = to_lowercase(c);
        let tl = to_lowercase(target_str.as_str());
        let covered = is_inside(c, target_str.as_str()) || seq_equal(
            &chars_of(tl.as_str()),
            &chars_of(cl.as_str()),
        );
        if covered && !is_inside(c, root_str.as_str()) {
            return false;
        }
        i += 1;
    }
    match user_profile {
        Some(up) => {
            assert(up@ == crits[5]);
            let cl = to_lowercase(up);
            let tl = to_lowercase(target_str.as_str());
            let covered = is_inside(up, target_str.as_str()) || seq_equal(
                &chars_of(tl.as_str()),
                &chars_of(cl.as_str()),
            );
            if covered && !is_inside(up, root_str.as_str()) {
                return false;
            }
            assert forall|k: int|
                0 <= k < crits.len() && covers(crits[k], target_str@) implies spec_is_inside(
                crits[k],
                root_str@,
            ) by {
                if k < 5 {
                }
            }
        },
        None => {},
    }
    true
}

} // verus!

verus! {

/// No path lies strictly inside itself.
pub proof fn law_is_inside_irreflexive(p: Seq<char>)
    ensures
        !spec_is_inside(p, p),
{
}

/// A safe target is the declared root itself or lies inside it.
pub proof fn law_safe_target_within_root(
    a: Seq<char>,
    r: Seq<char>,
    user_profile: Option<Seq<char>>,
    dirs: Seq<Seq<char>>,
)
    requires
        spec_is_safe_path(a, r, user_profile, dirs),
    ensures
        norm_text(a) == norm_text(r) || spec_is_inside(norm_text(r), norm_text(a)),
{
}

/// A safe target is never a drive root (also as `C:\` trimmed to `C:`), a
/// critical root, the user profile, or a protected user folder.
pub proof fn law_safe_target_not_critical(
    a: Seq<char>,
    r: Seq<char>,
    user_profile: Option<Seq<char>>,
    dirs: Seq<Seq<char>>,
)
    requires
        spec_is_safe_path(a, r, user_profile, dirs),
    ensures
        !spec_is_critical_root(norm_text(a), user_profile),
        !spec_is_bare_drive(norm_text(a)),
        !spec_is_protected_user_dir(norm_text(a), dirs),
        forall|i: int|
            0 <= i < critical_roots().len() ==> lowercase_of(norm_text(a)) != lowercase_of(
                critical_roots()[i],
            ),
{
}

/// When a critical root (or the profile) holds a safe target, the declared
/// root lies strictly inside that critical root: a clean never spans a whole
/// critical root.
pub proof fn law_safe_root_strictly_inside_critical(
    a: Seq<char>,
    r: Seq<char>,
    user_profile: Option<Seq<char>>,
    dirs: Seq<Seq<char>>,
    i: int,
)
    requires
        spec_is_safe_path(a, r, user_profile, dirs),
        0 <= i < crit_list(user_profile).len(),
        covers(crit_list(user_profile)[i], norm_text(a)),
    ensures
        spec_is_inside(crit_list(user_profile)[i], norm_text(r)),
{
}

/// An empty target or root is never safe.
pub proof fn law_empty_never_safe(
    a: Seq<char>,
    r: Seq<char>,
    user_profile: Option<Seq<char>>,
    dirs: Seq<Seq<char>>,
)
    requires
        a.len() == 0 || r.len() == 0,
    ensures
        !spec_is_safe_path(a, r, user_profile, dirs),
{
}

/// The rule folder after `init`: the first folder given is kept.
pub open spec fn spec_init(slot: Option<Seq<char>>, rules_dir: Seq<char>) -> Option<Seq<char>> {
    match slot {
        Some(d) => Some(d),
        None => Some(rules_dir),
    }
}

pub open spec fn opt_string_view(o: Option<String>) -> Option<Seq<char>> {
    match o {
        Some(s) => Some(s@),
        None => None,
    }
}

/// Sets the rule folder, unless one was set before.
pub fn init(slot: &mut Option<String>, rules_dir: String)
    ensures
        opt_string_view(*final(slot)) == spec_init(opt_string_view(*old(slot)), rules_dir@),
{
    if slot.is_none() {
        *slot = Some(rules_dir);
    }
}

/// Once set, the rule folder does not change: a second `init` keeps the
/// first folder.
pub proof fn law_init_first_wins(slot: Option<Seq<char>>, a: Seq<char>, b: Seq<char>)
    ensures
        spec_init(spec_init(slot, a), b) == spec_init(slot, a),
        slot is None ==> spec_init(spec_init(slot, a), b) == Some(a),
{
}

/// The folder the rules are read from: the one set by `init`, else
/// `..\ui\rules` beside the program's folder, else `rules`.
pub open spec fn spec_rules_dir(set: Option<Seq<char>>, exe_dir: Option<Seq<char>>) -> Seq<char> {
    match set {
        Some(d) => d,
        None => match exe_dir {
            Some(p) => join_spec(join_spec(join_spec(p, ".."@), "ui"@), "rules"@),
            None => "rules"@,
        },
    }
}

pub fn rules_dir(set: Option<&str>, exe_dir: Option<&str>) -> (r: String)
    ensures
        r@ == spec_rules_dir(opt_view(set), opt_view(exe_dir)),
{
    match set {
        Some(d) => d.to_string(),
        None => match exe_dir {
            Some(p) => {
                let a = path_join(p, "..");
                let b = path_join(a.as_str(), "ui");
                path_join(b.as_str(), "rules")
            },
            None => "rules".to_string(),
        },
    }
}

} // verus!
