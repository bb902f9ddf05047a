//! Where things are on a Windows machine: the folders the environment
//! names (with their fall-backs), the browser cache folders, the known
//! folders PowerShell reports, `%VAR%` expansion and path templates.
//!
//! The environment itself is read by the caller: each function takes the
//! variables it needs (`None` where a variable is unset).

use vstd::prelude::*;
use crate::text::{chars_of, string_of, trim, trim_ws, lines, lines_of, views, contains, contains_seq};
use crate::winpath::{join_spec, path_join};
use crate::rules_engine::string_views;

verus! {

/// A variable read the way `env` reads it: unset counts as empty.
pub open spec fn env_text(v: Option<Seq<char>>) -> Seq<char> {
    match v {
        Some(s) => s,
        None => seq![],
    }
}

/// A variable read the way `env_or` reads it: the default only when unset.
pub open spec fn env_or_text(v: Option<Seq<char>>, default: Seq<char>) -> Seq<char> {
    match v {
        Some(s) => s,
        None => default,
    }
}

pub open spec fn ov(v: Option<&str>) -> Option<Seq<char>> {
    crate::rules_engine::opt_view(v)
}

fn env_or(v: Option<&str>, default: &str) -> (r: String)
    ensures
        r@ == env_or_text(ov(v), default@),
{
    match v {
        Some(s) => s.to_string(),
        None => default.to_string(),
    }
}

fn env_nonempty(v: Option<&str>) -> (r: Option<String>)
    ensures
        match r {
            Some(s) => env_text(ov(v)).len() > 0 && s@ == env_text(ov(v)),
            None => env_text(ov(v)).len() == 0,
        },
{
    match v {
        Some(s) => if chars_of(s).len() > 0 {
            Some(s.to_string())
        } else {
            None
        },
        None => None,
    }
}

/// `%TEMP%`; else `%USERPROFILE%\AppData\Local\Temp`; else `C:\Temp`.
pub open spec fn spec_temp_dir(temp: Option<Seq<char>>, user_profile: Option<Seq<char>>) -> Seq<char> {
    if env_text(temp).len() > 0 {
        env_text(temp)
    } else if env_text(user_profile).len() > 0 {
        join_spec(join_spec(join_spec(env_text(user_profile), "AppData"@), "Local"@), "Temp"@)
    } else {
        "C:\\Temp"@
    }
}

pub fn temp_dir(temp: Option<&str>, user_profile: Option<&str>) -> (r: String)
    ensures
        r@ == spec_temp_dir(ov(temp), ov(user_profile)),
{
    match env_nonempty(temp) {
        Some(t) => t,
        None => match env_nonempty(user_profile) {
            Some(up) => {
                let a = path_join(up.as_str(), "AppData");
                let b = path_join(a.as_str(), "Local");
                path_join(b.as_str(), "Temp")
            },
            None => "C:\\Temp".to_string(),
        },
    }
}

/// `%SystemRoot%\Temp` (`C:\Windows` when unset).
pub fn windows_temp_dir(system_root: Option<&str>) -> (r: String)
    ensures
        r@ == join_spec(env_or_text(ov(system_root), "C:\\Windows"@), "Temp"@),
{
    let root = env_or(system_root, "C:\\Windows");
    path_join(root.as_str(), "Temp")
}

/// `%USERPROFILE%` (empty when unset).
pub fn user_profile(profile: Option<&str>) -> (r: String)
    ensures
        r@ == env_or_text(ov(profile), seq![]),
{
    proof {
        reveal_strlit("");
    }
    env_or(profile, "")
}

/// `%LOCALAPPDATA%`; else the profile's `AppData\Local`.
pub fn local_app_data(local: Option<&str>, profile: Option<&str>) -> (r: String)
    ensures
        r@ == (if env_text(ov(local)).len() > 0 {
            env_text(ov(local))
        } else {
            join_spec(join_spec(env_or_text(ov(profile), seq![]), "AppData"@), "Local"@)
        }),
{
    match env_nonempty(local) {
        Some(l) => l,
        None => {
            let up = user_profile(profile);
            let a = path_join(up.as_str(), "AppData");
            path_join(a.as_str(), "Local")
        },
    }
}

/// `%APPDATA%`; else the profile's `AppData\Roaming`.
pub fn app_data(roaming: Option<&str>, profile: Option<&str>) -> (r: String)
    ensures
        r@ == (if env_text(ov(roaming)).len() > 0 {
            env_text(ov(roaming))
        } else {
            join_spec(join_spec(env_or_text(ov(profile), seq![]), "AppData"@), "Roaming"@)
        }),
{
    match env_nonempty(roaming) {
        Some(l) => l,
        None => {
            let up = user_profile(profile);
            let a = path_join(up.as_str(), "AppData");
            path_join(a.as_str(), "Roaming")
        },
    }
}

/// `%SystemRoot%` (`C:\Windows` when unset).
pub fn system_root(v: Option<&str>) -> (r: String)
    ensures
        r@ == env_or_text(ov(v), "C:\\Windows"@),
{
    env_or(v, "C:\\Windows")
}

/// `%ProgramFiles%` (`C:\Program Files` when unset).
pub fn program_files(v: Option<&str>) -> (r: String)
    ensures
        r@ == env_or_text(ov(v), "C:\\Program Files"@),
{
    env_or(v, "C:\\Program Files")
}

/// `%ProgramFiles(x86)%` (`C:\Program Files (x86)` when unset).
pub fn program_files_x86(v: Option<&str>) -> (r: String)
    ensures
        r@ == env_or_text(ov(v), "C:\\Program Files (x86)"@),
{
    env_or(v, "C:\\Program Files (x86)")
}

/// `%ProgramData%` (`C:\ProgramData` when unset).
pub fn program_data(v: Option<&str>) -> (r: String)
    ensures
        r@ == env_or_text(ov(v), "C:\\ProgramData"@),
{
    env_or(v, "C:\\ProgramData")
}

/// Where Chrome, Edge and Firefox keep their profiles, under the local
/// application data.
pub open spec fn browser_cache_candidates_of(local: Seq<char>) -> Seq<Seq<char>> {
    seq![
        join_spec(join_spec(join_spec(local, "Google"@), "Chrome"@), "User Data"@),
        join_spec(join_spec(join_spec(local, "Microsoft"@), "Edge"@), "User Data"@),
        join_spec(join_spec(join_spec(local, "Mozilla"@), "Firefox"@), "Profiles"@),
    ]
}

fn join3(base: &str, a: &str, b: &str, c: &str) -> (r: String)
    ensures
        r@ == join_spec(join_spec(join_spec(base@, a@), b@), c@),
{
    let x = path_join(base, a);
    let y = path_join(x.as_str(), b);
    path_join(y.as_str(), c)
}

pub fn browser_cache_candidates(local_app_data: &str) -> (r: Vec<String>)
    ensures
        string_views(r@) == browser_cache_candidates_of(local_app_data@),
{
    let v = vec![
        join3(local_app_data, "Google", "Chrome", "User Data"),
        join3(local_app_data, "Microsoft", "Edge", "User Data"),
        join3(local_app_data, "Mozilla", "Firefox", "Profiles"),
    ];
    assert(string_views(v@) =~= browser_cache_candidates_of(local_app_data@));
    v
}

/// `browser_cache_dirs`: the candidates that exist, in order.
pub fn browser_cache_dirs(candidates: &Vec<String>, exists: &Vec<bool>) -> (r: Vec<String>)
    requires
        exists@.len() == candidates@.len(),
    ensures
        string_views(r@) == Seq::new(candidates@.len(), |i: int| i).filter(|i: int| exists@[i]).map_values(
            |i: int| candidates@[i]@,
        ),
{
    let ghost idx = Seq::new(candidates@.len(), |i: int| i);
    let ghost keep = |i: int| exists@[i];
    let ghost val = |i: int| candidates@[i]@;
    let mut out: Vec<String> = Vec::new();
    let mut i: usize = 0;
    assert(idx.take(0).filter(keep) =~= Seq::<int>::empty()) by {
        reveal(Seq::filter);
    }
    assert(string_views(out@) =~= Seq::<Seq<char>>::empty());
    while i < candidates.len()
        invariant
            i <= candidates.len(),
            exists@.len() == candidates@.len(),
            idx == Seq::new(candidates@.len(), |i: int| i),
            keep == (|i: int| exists@[i]),
            val == (|i: int| candidates@[i]@),
            string_views(out@) == idx.take(i as int).filter(keep).map_values(val),
        decreases candidates.len() - i,
    {
        let ghost pre = idx.take(i as int);
        assert(idx.take(i + 1) =~= pre.push(i as int));
        proof {
            pre.lemma_filter_push(i as int, keep);
        }
        let ghost before = string_views(out@);
        if exists[i] {
            out.push(candidates[i].clone());
            assert(string_views(out@) =~= before.push(candidates@[i as int]@));
            assert(pre.filter(keep).push(i as int).map_values(val) =~= pre.filter(keep).map_values(
                val,
            ).push(val(i as int)));
        }
        i += 1;
    }
    assert(idx.take(candidates.len() as int) =~= idx);
    out
}

/// The lines of PowerShell output, trimmed, empty ones left out.
pub open spec fn nonempty_lines(out: Seq<char>) -> Seq<Seq<char>> {
    lines_of(out).map_values(|l: Seq<char>| trim_ws(l)).filter(|l: Seq<char>| l.len() > 0)
}

pub fn nonempty_lines_exec(out: &str) -> (r: Vec<String>)
    ensures
        string_views(r@) == nonempty_lines(out@),
{
    let ls = lines(&chars_of(out));
    let ghost tl = views(ls@).map_values(|l: Seq<char>| trim_ws(l));
    let ghost keep = |l: Seq<char>| l.len() > 0;
    let mut r: Vec<String> = Vec::new();
    let mut i: usize = 0;
    assert(tl.take(0).filter(keep) =~= Seq::<Seq<char>>::empty()) by {
        reveal(Seq::filter);
    }
    assert(string_views(r@) =~= Seq::<Seq<char>>::empty());
    while i < ls.len()
        invariant
            i <= ls.len(),
            tl == views(ls@).map_values(|l: Seq<char>| trim_ws(l)),
            tl == lines_of(out@).map_values(|l: Seq<char>| trim_ws(l)),
            keep == (|l: Seq<char>| l.len() > 0),
            string_views(r@) == tl.take(i as int).filter(keep),
        decreases ls.len() - i,
    {
        let t = trim(&ls[i]);
        assert(t@ == tl[i as int]);
        let ghost pre = tl.take(i as int);
        assert(tl.take(i + 1) =~= pre.push(t@));
        proof {
            pre.lemma_filter_push(t@, keep);
        }
        let ghost before = string_views(r@);
        if t.len() > 0 {
            r.push(string_of(&t));
            assert(string_views(r@) =~= before.push(t@));
        }
        i += 1;
    }
    assert(tl.take(ls.len() as int) =~= tl);
    r
}

/// The names the known folders are kept under, in the order PowerShell is
/// asked for them.
pub open spec fn known_folder_names() -> Seq<Seq<char>> {
    seq![
        "Desktop"@,
        "Documents"@,
        "UserProfile"@,
        "AppData"@,
        "LocalAppData"@,
        "ProgramData"@,
        "ProgramFiles"@,
        "System"@,
        "Windows"@,
    ]
}

/// `get_known_folders`, once PowerShell answered: each name with its line
/// (trimmed, empty lines left out) when there are at least nine; else none.
pub fn known_folders_from_output(out: &str) -> (r: Vec<(String, String)>)
    ensures
        nonempty_lines(out@).len() >= 9 ==> r@.len() == 9 && forall|i: int|
            0 <= i < 9 ==> #[trigger] r@[i].0@ == known_folder_names()[i] && r@[i].1@
                == nonempty_lines(out@)[i],
        nonempty_lines(out@).len() < 9 ==> r@.len() == 0,
{
    let ls = nonempty_lines_exec(out);
    let mut r: Vec<(String, String)> = Vec::new();
    if ls.len() < 9 {
        return r;
    }
    let names = vec![
        "Desktop",
        "Documents",
        "UserProfile",
        "AppData",
        "LocalAppData",
        "ProgramData",
        "ProgramFiles",
        "System",
        "Windows",
    ];
    let mut i: usize = 0;
    while i < 9
        invariant
            i <= 9,
            ls@.len() >= 9,
            string_views(ls@) == nonempty_lines(out@),
            names@.len() == 9,
            forall|k: int| 0 <= k < 9 ==> #[trigger] names@[k]@ == known_folder_names()[k],
            r@.len() == i,
            forall|k: int|
                0 <= k < i ==> #[trigger] r@[k].0@ == known_folder_names()[k] && r@[k].1@
                    == nonempty_lines(out@)[k],
        decreases 9 - i,
    {
        assert(string_views(ls@)[i as int] == ls@[i as int]@);
        r.push((names[i].to_string(), ls[i].clone()));
        i += 1;
    }
    r
}

/// `recycle_bins`, once PowerShell listed the ready fixed drives' roots:
/// each root's `$Recycle.Bin`.
pub fn recycle_bins_from_output(out: &str) -> (r: Vec<String>)
    ensures
        string_views(r@) == nonempty_lines(out@).map_values(|d: Seq<char>| join_spec(d, "$Recycle.Bin"@)),
{
    let ls = nonempty_lines_exec(out);
    let mut r: Vec<String> = Vec::new();
    let mut i: usize = 0;
    while i < ls.len()
        invariant
            i <= ls.len(),
            string_views(ls@) == nonempty_lines(out@),
            string_views(r@) == string_views(ls@).take(i as int).map_values(|d: Seq<char>| join_spec(d, "$Recycle.Bin"@)),
        decreases ls.len() - i,
    {
        assert(string_views(ls@)[i as int] == ls@[i as int]@);
        let ghost before = string_views(r@);
        let j = path_join(ls[i].as_str(), "$Recycle.Bin");
        r.push(j);
        assert(string_views(r@) =~= before.push(j@));
        assert(string_views(ls@).take(i + 1) =~= string_views(ls@).take(i as int).push(ls@[i as int]@));
        assert(string_views(r@) =~= string_views(ls@).take(i + 1).map_values(|d: Seq<char>| join_spec(d, "$Recycle.Bin"@)));
        i += 1;
    }
    assert(string_views(ls@).take(ls.len() as int) =~= string_views(ls@));
    r
}

} // verus!

verus! {

/// The first index at or after `from` where `c` stands.
#[verifier::opaque]
pub open spec fn index_from(s: Seq<char>, c: char, from: int) -> Option<int> {
    if exists|i: int| from <= i < s.len() && s[i] == c {
        Some(
            choose|i: int|
                from <= i < s.len() && s[i] == c && forall|k: int| from <= k < i ==> s[k] != c,
        )
    } else {
        None
    }
}

fn index_from_exec(s: &Vec<char>, c: char, from: usize) -> (r: Option<usize>)
    requires
        from <= s.len(),
    ensures
        match r {
            Some(i) => index_from(s@, c, from as int) == Some(i as int) && from <= i < s.len(),
            None => index_from(s@, c, from as int) is None,
        },
{
    reveal(index_from);
    let mut i: usize = from;
    while i < s.len() && s[i] != c
        invariant
            from <= i <= s.len(),
            forall|k: int| from <= k < i ==> s@[k] != c,
        decreases s.len() - i,
    {
        i += 1;
    }
    if i == s.len() {
        return None;
    }
    let ghost w = choose|w: int|
        from <= w < s@.len() && s@[w] == c && forall|k: int| from <= k < w ==> s@[k] != c;
    assert(s@[i as int] == c);
    assert(w == i as int) by {
        if w < i {
        } else if w > i {
        }
    }
    Some(i)
}

/// The pieces `%VAR%` expansion cuts a text into, scanning once from `i`
/// as the pattern `%([^%]+)%` matches, left to right: plain text (`false`)
/// and variable names (`true`). A `%` with no name before the next `%` is
/// plain text; a lone `%` is too.
pub open spec fn env_parts_from(s: Seq<char>, i: int) -> Seq<(bool, Seq<char>)>
    decreases s.len() - i,
{
    if i < 0 || i >= s.len() {
        seq![]
    } else {
        match index_from(s, '%', i) {
            None => seq![(false, s.subrange(i, s.len() as int))],
            Some(a) => if a < i || a >= s.len() {
                seq![]
            } else {
                match index_from(s, '%', a + 1) {
                    None => seq![(false, s.subrange(i, s.len() as int))],
                    Some(b) => if b <= a || b >= s.len() {
                        seq![]
                    } else if b == a + 1 {
                        seq![(false, s.subrange(i, a + 1))] + env_parts_from(s, a + 1)
                    } else {
                        seq![(false, s.subrange(i, a)), (true, s.subrange(a + 1, b))]
                            + env_parts_from(s, b + 1)
                    },
                }
            },
        }
    }
}

/// A piece of a text to expand: a variable's name, or text kept as it is.
pub struct EnvPart {
    pub is_var: bool,
    pub text: String,
}

pub open spec fn part_views(v: Seq<EnvPart>) -> Seq<(bool, Seq<char>)> {
    v.map_values(|p: EnvPart| (p.is_var, p.text@))
}

/// The pieces of `s` for `%VAR%` expansion, in order (see `env_parts_from`).
pub fn env_parts(s: &str) -> (r: Vec<EnvPart>)
    ensures
        part_views(r@) == env_parts_from(s@, 0),
{
    let c = chars_of(s);
    let mut out: Vec<EnvPart> = Vec::new();
    let mut i: usize = 0;
    assert(part_views(out@) =~= Seq::<(bool, Seq<char>)>::empty());
    while i < c.len()
        invariant
            i <= c.len(),
            c@ == s@,
            part_views(out@) + env_parts_from(c@, i as int) == env_parts_from(c@, 0),
        decreases c.len() - i,
    {
        let ghost before = part_views(out@);
        let rest_text = crate::text::slice_chars(&c, i, c.len());
        match index_from_exec(&c, '%', i) {
            None => {
                out.push(EnvPart { is_var: false, text: string_of(&rest_text) });
                assert(part_views(out@) =~= before + env_parts_from(c@, i as int));
                assert(env_parts_from(c@, c.len() as int) =~= Seq::<(bool, Seq<char>)>::empty());
                assert(part_views(out@) + env_parts_from(c@, c.len() as int) =~= part_views(out@));
                i = c.len();
            },
            Some(a) => match index_from_exec(&c, '%', a + 1) {
                None => {
                    out.push(EnvPart { is_var: false, text: string_of(&rest_text) });
                    assert(part_views(out@) =~= before + env_parts_from(c@, i as int));
                    assert(env_parts_from(c@, c.len() as int) =~= Seq::<(bool, Seq<char>)>::empty());
                    assert(part_views(out@) + env_parts_from(c@, c.len() as int) =~= part_views(out@));
                    i = c.len();
                },
                Some(b) => {
                    if b == a + 1 {
                        let t = crate::text::slice_chars(&c, i, a + 1);
                        out.push(EnvPart { is_var: false, text: string_of(&t) });
                        assert(part_views(out@) =~= before.push((false, c@.subrange(i as int, a + 1))));
                        assert(part_views(out@) + env_parts_from(c@, a + 1) =~= before + env_parts_from(c@, i as int));
                        i = a + 1;
                    } else {
                        let t = crate::text::slice_chars(&c, i, a);
                        let n = crate::text::slice_chars(&c, a + 1, b);
                        out.push(EnvPart { is_var: false, text: string_of(&t) });
                        out.push(EnvPart { is_var: true, text: string_of(&n) });
                        assert(part_views(out@) =~= before.push((false, c@.subrange(i as int, a as int))).push(
                            (true, c@.subrange(a + 1, b as int)),
                        ));
                        assert(part_views(out@) + env_parts_from(c@, b + 1) =~= before + env_parts_from(c@, i as int));
                        i = b + 1;
                    }
                },
            },
        }
    }
    assert(env_parts_from(c@, i as int) =~= Seq::<(bool, Seq<char>)>::empty());
    assert(part_views(out@) =~= part_views(out@) + env_parts_from(c@, i as int));
    out
}

/// The text put back together: each variable's piece replaced by its value
/// (`values` holds one entry per piece; a text piece's entry is not used).
pub open spec fn expanded(parts: Seq<(bool, Seq<char>)>, values: Seq<Seq<char>>) -> Seq<char>
    decreases parts.len(),
{
    if parts.len() == 0 {
        seq![]
    } else {
        let k = parts.len() - 1;
        expanded(parts.drop_last(), values) + (if parts[k].0 {
            values[k]
        } else {
            parts[k].1
        })
    }
}

/// The text with each `%VAR%` replaced by its value, in one pass: the
/// pieces of `env_parts` joined, a variable by the value given at its
/// place in `values` (the caller reads the environment; an unset variable
/// reads as empty).
pub fn expand_with(parts: &Vec<EnvPart>, values: &Vec<String>) -> (r: String)
    requires
        values@.len() == parts@.len(),
    ensures
        r@ == expanded(part_views(parts@), string_views(values@)),
{
    let ghost pv = part_views(parts@);
    let ghost vv = string_views(values@);
    let mut out: Vec<char> = Vec::new();
    let mut i: usize = 0;
    while i < parts.len()
        invariant
            i <= parts.len(),
            values@.len() == parts@.len(),
            pv == part_views(parts@),
            vv == string_views(values@),
            out@ == expanded(pv.take(i as int), vv),
        decreases parts.len() - i,
    {
        assert(pv.take(i + 1).drop_last() =~= pv.take(i as int));
        if parts[i].is_var {
            crate::text::append_chars(&mut out, &chars_of(values[i].as_str()));
        } else {
            crate::text::append_chars(&mut out, &chars_of(parts[i].text.as_str()));
        }
        i += 1;
    }
    assert(pv.take(parts.len() as int) =~= pv);
    string_of(&out)
}

/// The text the pieces were cut from: each variable back as `%NAME%`.
pub open spec fn restored(parts: Seq<(bool, Seq<char>)>) -> Seq<char>
    decreases parts.len(),
{
    if parts.len() == 0 {
        seq![]
    } else {
        let p = parts.last();
        restored(parts.drop_last()) + (if p.0 {
            seq!['%'] + p.1 + seq!['%']
        } else {
            p.1
        })
    }
}

proof fn lemma_restored_add(a: Seq<(bool, Seq<char>)>, b: Seq<(bool, Seq<char>)>)
    ensures
        restored(a + b) == restored(a) + restored(b),
    decreases b.len(),
{
    if b.len() == 0 {
        assert(a + b =~= a);
    } else {
        lemma_restored_add(a, b.drop_last());
        assert((a + b).drop_last() =~= a + b.drop_last());
        assert((a + b).last() == b.last());
    }
}

proof fn lemma_restored_text(t: Seq<char>)
    ensures
        restored(seq![(false, t)]) == t,
{
    assert(seq![(false, t)].drop_last() =~= Seq::<(bool, Seq<char>)>::empty());
    assert(restored(Seq::<(bool, Seq<char>)>::empty()) + t =~= t);
}

proof fn lemma_first_exists(s: Seq<char>, c: char, from: int, w: int)
    requires
        from <= w < s.len(),
        s[w] == c,
    ensures
        exists|i: int| from <= i < s.len() && s[i] == c && forall|k: int| from <= k < i ==> s[k] != c,
    decreases w - from,
{
    if s[from] == c {
        assert(forall|k: int| from <= k < from ==> s[k] != c);
    } else {
        lemma_first_exists(s, c, from + 1, w);
        let i = choose|i: int| from + 1 <= i < s.len() && s[i] == c && forall|k: int| from + 1 <= k < i ==> s[k] != c;
        assert(forall|k: int| from <= k < i ==> s[k] != c);
    }
}

proof fn lemma_index_from(s: Seq<char>, c: char, from: int)
    ensures
        index_from(s, c, from) matches Some(a) ==> from <= a < s.len() && s[a] == c,
{
    reveal(index_from);
    if exists|i: int| from <= i < s.len() && s[i] == c {
        let w = choose|i: int| from <= i < s.len() && s[i] == c;
        lemma_first_exists(s, c, from, w);
    }
}

proof fn lemma_restore_pair(s: Seq<char>, i: int, a: int, b: int)
    requires
        0 <= i <= a < b < s.len(),
        s[a] == '%' && s[b] == '%',
        restored(env_parts_from(s, b + 1)) == s.subrange(b + 1, s.len() as int),
    ensures
        restored(seq![(false, s.subrange(i, a)), (true, s.subrange(a + 1, b))] + env_parts_from(s, b + 1))
            == s.subrange(i, s.len() as int),
{
    let head = seq![(false, s.subrange(i, a)), (true, s.subrange(a + 1, b))];
    lemma_restored_add(head, env_parts_from(s, b + 1));
    assert(head.drop_last() =~= seq![(false, s.subrange(i, a))]);
    lemma_restored_text(s.subrange(i, a));
    assert(restored(head) =~= s.subrange(i, b + 1));
    assert(s.subrange(i, b + 1) + s.subrange(b + 1, s.len() as int) =~= s.subrange(i, s.len() as int));
}

proof fn lemma_restore_lone(s: Seq<char>, i: int, a: int)
    requires
        0 <= i <= a < s.len(),
        restored(env_parts_from(s, a + 1)) == s.subrange(a + 1, s.len() as int),
    ensures
        restored(seq![(false, s.subrange(i, a + 1))] + env_parts_from(s, a + 1)) == s.subrange(i, s.len() as int),
{
    let head = seq![(false, s.subrange(i, a + 1))];
    lemma_restored_add(head, env_parts_from(s, a + 1));
    lemma_restored_text(s.subrange(i, a + 1));
    assert(s.subrange(i, a + 1) + s.subrange(a + 1, s.len() as int) =~= s.subrange(i, s.len() as int));
}

proof fn lemma_parts_restore(s: Seq<char>, i: int)
    requires
        0 <= i <= s.len(),
    ensures
        restored(env_parts_from(s, i)) == s.subrange(i, s.len() as int),
    decreases s.len() - i,
{
    if i < s.len() {
        lemma_index_from(s, '%', i);
        match index_from(s, '%', i) {
            None => {
                lemma_restored_text(s.subrange(i, s.len() as int));
            },
            Some(a) => {
                lemma_index_from(s, '%', a + 1);
                match index_from(s, '%', a + 1) {
                    None => {
                        lemma_restored_text(s.subrange(i, s.len() as int));
                    },
                    Some(b) => {
                        if b == a + 1 {
                            lemma_parts_restore(s, a + 1);
                            lemma_restore_lone(s, i, a);
                        } else {
                            lemma_parts_restore(s, b + 1);
                            lemma_restore_pair(s, i, a, b);
                        }
                    },
                }
            },
        }
    } else {
        assert(restored(env_parts_from(s, i)) =~= s.subrange(i, s.len() as int));
    }
}

proof fn lemma_expanded_restored(parts: Seq<(bool, Seq<char>)>, values: Seq<Seq<char>>)
    requires
        values.len() >= parts.len(),
        forall|k: int| 0 <= k < parts.len() && parts[k].0 ==> values[k] == seq!['%'] + parts[k].1 + seq!['%'],
    ensures
        expanded(parts, values) == restored(parts),
    decreases parts.len(),
{
    if parts.len() > 0 {
        lemma_expanded_restored(parts.drop_last(), values);
    }
}

/// Expansion is a single pass: each variable's value is put in as it is,
/// never expanded again, and every other character stays — so giving each
/// variable its own `%NAME%` text as its value gives back the input.
pub proof fn law_expansion_single_pass(s: Seq<char>, values: Seq<Seq<char>>)
    requires
        values.len() == env_parts_from(s, 0).len(),
        forall|k: int|
            0 <= k < values.len() && (#[trigger] env_parts_from(s, 0)[k]).0 ==> values[k] == seq!['%']
                + env_parts_from(s, 0)[k].1 + seq!['%'],
    ensures
        expanded(env_parts_from(s, 0), values) == s,
{
    lemma_expanded_restored(env_parts_from(s, 0), values);
    lemma_parts_restore(s, 0);
    assert(s.subrange(0, s.len() as int) =~= s);
}

/// Words joined by single spaces.
pub open spec fn join_words(w: Seq<Seq<char>>) -> Seq<char>
    decreases w.len(),
{
    if w.len() == 0 {
        seq![]
    } else if w.len() == 1 {
        w[0]
    } else {
        join_words(w.drop_last()) + " "@ + w.last()
    }
}

pub(crate) fn join_words_exec(w: &Vec<Vec<char>>, from: usize) -> (r: Vec<char>)
    requires
        from <= w.len(),
    ensures
        r@ == join_words(views(w@).skip(from as int)),
{
    let ghost ws = views(w@).skip(from as int);
    let mut r: Vec<char> = Vec::new();
    let mut i: usize = from;
    assert(ws.take(0) =~= Seq::<Seq<char>>::empty());
    while i < w.len()
        invariant
            from <= i <= w.len(),
            ws == views(w@).skip(from as int),
            r@ == join_words(ws.take(i - from)),
        decreases w.len() - i,
    {
        assert(ws.take(i - from + 1).drop_last() =~= ws.take(i - from));
        assert(ws.take(i - from + 1).last() == w@[i as int]@);
        if i > from {
            r.push(' ');
            let ghost mid = r@;
            crate::text::append_chars(&mut r, &w[i]);
            assert(r@ =~= join_words(ws.take(i - from)) + " "@ + w@[i as int]@) by {
                reveal_strlit(" ");
            }
        } else {
            crate::text::append_chars(&mut r, &w[i]);
            assert(ws.take(1) =~= seq![w@[i as int]@]);
        }
        i += 1;
    }
    assert(ws.take(w.len() - from) =~= ws);
    r
}

/// The values of a `reg query` answer for the Downloads folder: on each
/// line that names a string type, the words after the name and type, joined
/// by spaces, trimmed, quotes trimmed.
pub open spec fn download_candidates_of(out: Seq<char>) -> Seq<Seq<char>> {
    lines_of(out).filter(
        |l: Seq<char>|
            contains_seq(l, "REG_"@) && (contains_seq(l, "EXPAND_SZ"@) || contains_seq(l, "SZ"@))
                && crate::text::split_ws(l).len() >= 3,
    ).map_values(
        |l: Seq<char>| crate::text::trim_char(trim_ws(join_words(crate::text::split_ws(l).skip(2))), '"'),
    )
}

pub fn download_candidates(out: &str) -> (r: Vec<String>)
    ensures
        string_views(r@) == download_candidates_of(out@),
{
    let ls = lines(&chars_of(out));
    let ghost all = views(ls@);
    let ghost keep = |l: Seq<char>|
        contains_seq(l, "REG_"@) && (contains_seq(l, "EXPAND_SZ"@) || contains_seq(l, "SZ"@))
            && crate::text::split_ws(l).len() >= 3;
    let ghost val = |l: Seq<char>|
        crate::text::trim_char(trim_ws(join_words(crate::text::split_ws(l).skip(2))), '"');
    let mut r: Vec<String> = Vec::new();
    let mut i: usize = 0;
    assert(all.take(0).filter(keep) =~= Seq::<Seq<char>>::empty()) by {
        reveal(Seq::filter);
    }
    assert(string_views(r@) =~= Seq::<Seq<char>>::empty());
    while i < ls.len()
        invariant
            i <= ls.len(),
            all == views(ls@),
            all == lines_of(out@),
            keep == (|l: Seq<char>|
                contains_seq(l, "REG_"@) && (contains_seq(l, "EXPAND_SZ"@) || contains_seq(
                    l,
                    "SZ"@,
                )) && crate::text::split_ws(l).len() >= 3),
            val == (|l: Seq<char>|
                crate::text::trim_char(
                    trim_ws(join_words(crate::text::split_ws(l).skip(2))),
                    '"',
                )),
            string_views(r@) == all.take(i as int).filter(keep).map_values(val),
        decreases ls.len() - i,
    {
        let l = &ls[i];
        assert(all[i as int] == l@);
        let ghost pre = all.take(i as int);
        assert(all.take(i + 1) =~= pre.push(l@));
        proof {
            pre.lemma_filter_push(l@, keep);
        }
        let ghost before = string_views(r@);
        let parts = crate::text::split_whitespace(l);
        proof {
            assert(views(parts@).len() == parts@.len());
        }
        if contains(l, &chars_of("REG_")) && (contains(l, &chars_of("EXPAND_SZ")) || contains(
            l,
            &chars_of("SZ"),
        )) && parts.len() >= 3 {
            let joined = join_words_exec(&parts, 2);
            let v = crate::text::trim_matches(&trim(&joined), '"');
            r.push(string_of(&v));
            assert(string_views(r@) =~= before.push(val(l@)));
            assert(pre.filter(keep).push(l@).map_values(val) =~= pre.filter(keep).map_values(
                val,
            ).push(val(l@)));
        }
        i += 1;
    }
    assert(all.take(ls.len() as int) =~= all);
    r
}

/// Every occurrence of `p` (not empty) replaced by `r`, left to right.
pub open spec fn replace_all(s: Seq<char>, p: Seq<char>, r: Seq<char>) -> Seq<char>
    decreases s.len(),
{
    if p.len() == 0 || s.len() < p.len() {
        s
    } else if p.is_prefix_of(s) {
        r + replace_all(s.skip(p.len() as int), p, r)
    } else {
        seq![s[0]] + replace_all(s.drop_first(), p, r)
    }
}

fn replace_all_exec(s: &Vec<char>, p: &Vec<char>, r: &Vec<char>) -> (out: Vec<char>)
    requires
        p.len() > 0,
    ensures
        out@ == replace_all(s@, p@, r@),
{
    let mut out: Vec<char> = Vec::new();
    let mut i: usize = 0;
    assert(s@.skip(0) =~= s@);
    while i < s.len() && s.len() - i >= p.len()
        invariant
            i <= s.len(),
            p.len() > 0,
            replace_all(s@, p@, r@) == out@ + replace_all(s@.skip(i as int), p@, r@),
        decreases s.len() - i,
    {
        let ghost rest = s@.skip(i as int);
        if crate::text::matches_at(s, p, i) {
            assert(p@.is_prefix_of(rest)) by {
                assert(s@.subrange(i as int, i + p.len()) =~= rest.take(p.len() as int));
            }
            assert(rest.skip(p.len() as int) =~= s@.skip(i + p.len()));
            let ghost before = out@;
            crate::text::append_chars(&mut out, r);
            assert(out@ + replace_all(s@.skip(i + p.len()), p@, r@) =~= before + (r@ + replace_all(
                s@.skip(i + p.len()),
                p@,
                r@,
            )));
            i += p.len();
        } else {
            assert(!p@.is_prefix_of(rest)) by {
                if p@.is_prefix_of(rest) {
                    assert(s@.subrange(i as int, i + p.len()) =~= rest.take(p.len() as int));
                }
            }
            assert(rest.drop_first() =~= s@.skip(i + 1));
            let ghost before = out@;
            out.push(s[i]);
            assert(out@ + replace_all(s@.skip(i + 1), p@, r@) =~= before + (seq![s@[i as int]]
                + replace_all(s@.skip(i + 1), p@, r@)));
            i += 1;
        }
    }
    let ghost rest = s@.skip(i as int);
    assert(replace_all(rest, p@, r@) == rest);
    let tail = crate::text::slice_chars(s, i, s.len());
    assert(tail@ =~= rest);
    crate::text::append_chars(&mut out, &tail);
    out
}

/// A path template with each `{Name}` of a known folder replaced by its
/// path (in the order given); none for a blank template.
pub open spec fn replace_known(p: Seq<char>, known: Seq<(Seq<char>, Seq<char>)>) -> Seq<char>
    decreases known.len(),
{
    if known.len() == 0 {
        p
    } else {
        replace_all(
            replace_known(p, known.drop_last()),
            seq!['{'] + known.last().0 + seq!['}'],
            known.last().1,
        )
    }
}

pub open spec fn known_views(k: Seq<(String, String)>) -> Seq<(Seq<char>, Seq<char>)> {
    k.map_values(|e: (String, String)| (e.0@, e.1@))
}

/// `resolve_path`'s first step: the trimmed template with the known
/// folders put in; none for a blank template. (`%VAR%` expansion follows,
/// see `expand_step`.)
pub fn resolve_template(template: &str, known: &Vec<(String, String)>) -> (r: Option<String>)
    ensures
        crate::service::opt_string_view(r) == (if trim_ws(template@).len() == 0 {
            None
        } else {
            Some(replace_known(trim_ws(template@), known_views(known@)))
        }),
{
    let t = trim(&chars_of(template));
    if t.len() == 0 {
        return None;
    }
    let mut p = t;
    let mut i: usize = 0;
    while i < known.len()
        invariant
            i <= known.len(),
            p@ == replace_known(trim_ws(template@), known_views(known@.take(i as int))),
        decreases known.len() - i,
    {
        assert(known_views(known@.take(i + 1)).drop_last() =~= known_views(known@.take(i as int)));
        let mut pat: Vec<char> = vec!['{'];
        crate::text::append_chars(&mut pat, &chars_of(known[i].0.as_str()));
        pat.push('}');
        assert(pat@ =~= seq!['{'] + known@[i as int].0@ + seq!['}']);
        p = replace_all_exec(&p, &pat, &chars_of(known[i].1.as_str()));
        i += 1;
    }
    assert(known@.take(known.len() as int) =~= known@);
    Some(string_of(&p))
}

/// `Path::is_absolute` on Windows: a drive with a root, or a `\\` prefix
/// (a share or a verbatim path).
pub open spec fn spec_is_absolute(p: Seq<char>) -> bool {
    (crate::winpath::has_drive(p) && crate::winpath::is_rooted(p)) || (p.len() >= 2 && p[0] == '\\'
        && p[1] == '\\')
}

pub fn is_absolute(p: &str) -> (r: bool)
    ensures
        r == spec_is_absolute(p@),
{
    let c = chars_of(p);
    (crate::winpath::has_drive_exec(&c) && crate::winpath::is_rooted_exec(&c)) || (c.len() >= 2
        && c[0] == '\\' && c[1] == '\\')
}

} // verus!
