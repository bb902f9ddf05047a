//! The registry through `reg.exe`: root key names, reading `reg query`
//! output, and the command lines that write values.

use vstd::prelude::*;
use crate::text::{chars_of, string_of, trim, trim_ws, lines, lines_of, views, starts_with, seq_equal, is_unicode_whitespace};
use crate::rules_engine::string_views;
use crate::startup::{RegValue, reg_views, concat};

verus! {

/// The short root names and the full names `reg query` prints.
pub open spec fn root_map() -> Seq<(Seq<char>, Seq<char>)> {
    seq![
        ("HKLM"@, "HKEY_LOCAL_MACHINE"@),
        ("HKCU"@, "HKEY_CURRENT_USER"@),
        ("HKCR"@, "HKEY_CLASSES_ROOT"@),
        ("HKU"@, "HKEY_USERS"@),
        ("HKCC"@, "HKEY_CURRENT_CONFIG"@),
    ]
}

/// The first short root (with its `\`) that starts the path, spelled out.
pub open spec fn normalize_from(p: Seq<char>, m: Seq<(Seq<char>, Seq<char>)>) -> Seq<char>
    decreases m.len(),
{
    if m.len() == 0 {
        p
    } else if (m[0].0 + seq!['\\']).is_prefix_of(p) {
        m[0].1 + seq!['\\'] + p.skip(m[0].0.len() + 1int)
    } else {
        normalize_from(p, m.drop_first())
    }
}

/// `normalize_root`: `HKLM\...` and the other short roots written out in full.
pub open spec fn spec_normalize_root(p: Seq<char>) -> Seq<char> {
    normalize_from(p, root_map())
}

pub fn normalize_root(key_path: &str) -> (r: String)
    ensures
        r@ == spec_normalize_root(key_path@),
{
    let p = chars_of(key_path);
    let shorts = vec!["HKLM", "HKCU", "HKCR", "HKU", "HKCC"];
    let longs = vec![
        "HKEY_LOCAL_MACHINE",
        "HKEY_CURRENT_USER",
        "HKEY_CLASSES_ROOT",
        "HKEY_USERS",
        "HKEY_CURRENT_CONFIG",
    ];
    let ghost m = root_map();
    let mut i: usize = 0;
    assert(m.skip(0) =~= m);
    while i < 5
        invariant
            i <= 5,
            p@ == key_path@,
            m == root_map(),
            shorts@.len() == 5 && longs@.len() == 5,
            forall|k: int| 0 <= k < 5 ==> #[trigger] shorts@[k]@ == m[k].0 && longs@[k]@ == m[k].1,
            spec_normalize_root(key_path@) == normalize_from(key_path@, m.skip(i as int)),
        decreases 5 - i,
    {
        assert(m.skip(i as int)[0] == m[i as int]);
        assert(m.skip(i as int).drop_first() =~= m.skip(i + 1));
        let mut pre = chars_of(shorts[i]);
        pre.push('\\');
        assert(shorts@[i as int]@ == m[i as int].0);
        if starts_with(&p, &pre) {
            let mut r = chars_of(longs[i]);
            r.push('\\');
            crate::text::append_chars(&mut r, &crate::text::slice_chars(&p, pre.len(), p.len()));
            assert(r@ =~= m[i as int].1 + seq!['\\'] + p@.skip(m[i as int].0.len() + 1int));
            return string_of(&r);
        }
        i += 1;
    }
    assert(m.skip(5) =~= Seq::<(Seq<char>, Seq<char>)>::empty());
    key_path.to_string()
}

/// The end of the whitespace run that starts at `i` (`i` itself when there
/// is none).
pub open spec fn ws_run_end(s: Seq<char>, i: int) -> int
    decreases s.len() - i,
{
    if 0 <= i < s.len() && is_unicode_whitespace(s[i]) {
        ws_run_end(s, i + 1)
    } else {
        i
    }
}

/// A word character of a regular expression's `\w`: an ASCII letter or
/// digit, or `_`.
pub open spec fn is_word_char(c: char) -> bool {
    ('a' <= c && c <= 'z') || ('A' <= c && c <= 'Z') || ('0' <= c && c <= '9') || c == '_'
}

/// The end of the run of word characters that starts at `i`.
pub open spec fn word_run_end(s: Seq<char>, i: int) -> int
    decreases s.len() - i,
{
    if 0 <= i < s.len() && is_word_char(s[i]) {
        word_run_end(s, i + 1)
    } else {
        i
    }
}

/// A type word starts at `k`: `REG_` followed by at least one word
/// character.
pub open spec fn type_starts(s: Seq<char>, k: int) -> bool {
    0 <= k && k + 5 <= s.len() && s[k] == 'R' && s[k + 1] == 'E' && s[k + 2] == 'G' && s[k + 3]
        == '_' && is_word_char(s[k + 4])
}

/// The name may end at `j`: whitespace starts there and a type word follows
/// that whitespace.
pub open spec fn splits_at(s: Seq<char>, j: int) -> bool {
    0 <= j < s.len() && is_unicode_whitespace(s[j]) && type_starts(s, ws_run_end(s, j))
}

/// The first place from `j` on where the name may end.
pub open spec fn split_from(s: Seq<char>, j: int) -> Option<int>
    decreases s.len() - j,
{
    if j < 0 || j >= s.len() {
        None
    } else if splits_at(s, j) {
        Some(j)
    } else {
        split_from(s, j + 1)
    }
}

/// One line of `reg query` output, read as `^\s+(.+?)\s+(REG_\w+)\s*(.*)$`:
/// after the leading whitespace, the name is the shortest non-empty text
/// followed by whitespace and a type word (`REG_` and word characters, as
/// many as there are); the data is the rest of the line, trimmed. A line
/// without leading whitespace, or without such a type word, is no value.
pub open spec fn spec_parse_value_line(line: Seq<char>) -> Option<(Seq<char>, Seq<char>, Seq<char>)> {
    let b = ws_run_end(line, 0);
    if b == 0 {
        None
    } else {
        match split_from(line, b + 1) {
            None => None,
            Some(j) => {
                let k = ws_run_end(line, j);
                let e = word_run_end(line, k + 4);
                Some((line.subrange(b, j), line.subrange(k, e), trim_ws(line.skip(e))))
            },
        }
    }
}

pub open spec fn value_view(v: Option<RegValueLine>) -> Option<(Seq<char>, Seq<char>, Seq<char>)> {
    match v {
        Some(x) => Some((x.name@, x.vtype@, x.value@)),
        None => None,
    }
}

/// A value line read back: name, type and data.
pub struct RegValueLine {
    pub name: String,
    pub vtype: String,
    pub value: String,
}

fn ws_end_exec(s: &Vec<char>, from: usize) -> (r: usize)
    requires
        from <= s.len(),
    ensures
        r == ws_run_end(s@, from as int),
        from <= r <= s.len(),
{
    let mut i = from;
    while i < s.len() && crate::text::is_whitespace(s[i])
        invariant
            from <= i <= s.len(),
            ws_run_end(s@, from as int) == ws_run_end(s@, i as int),
        decreases s.len() - i,
    {
        i += 1;
    }
    i
}

fn is_word_exec(c: char) -> (r: bool)
    ensures
        r == is_word_char(c),
{
    ('a' <= c && c <= 'z') || ('A' <= c && c <= 'Z') || ('0' <= c && c <= '9') || c == '_'
}

fn word_end_exec(s: &Vec<char>, from: usize) -> (r: usize)
    requires
        from <= s.len(),
    ensures
        r == word_run_end(s@, from as int),
        from <= r <= s.len(),
{
    let mut i = from;
    while i < s.len() && is_word_exec(s[i])
        invariant
            from <= i <= s.len(),
            word_run_end(s@, from as int) == word_run_end(s@, i as int),
        decreases s.len() - i,
    {
        i += 1;
    }
    i
}

fn type_starts_exec(s: &Vec<char>, k: usize) -> (r: bool)
    ensures
        r == type_starts(s@, k as int),
{
    k < s.len() && s.len() - k >= 5 && s[k] == 'R' && s[k + 1] == 'E' && s[k + 2] == 'G' && s[k + 3]
        == '_' && is_word_exec(s[k + 4])
}

pub fn parse_value_line(line: &str) -> (r: Option<RegValueLine>)
    ensures
        value_view(r) == spec_parse_value_line(line@),
{
    let t = chars_of(line);
    let b = ws_end_exec(&t, 0);
    if b == 0 || b >= t.len() {
        return None;
    }
    let mut j = b + 1;
    while j < t.len()
        invariant
            0 < b < j,
            b <= t.len(),
            b == ws_run_end(t@, 0),
            t@ == line@,
            split_from(t@, b + 1) == split_from(t@, j as int),
        decreases t.len() - j,
    {
        if crate::text::is_whitespace(t[j]) {
            let k = ws_end_exec(&t, j);
            if type_starts_exec(&t, k) {
                assert(splits_at(t@, j as int));
                let e = word_end_exec(&t, k + 4);
                let rest = crate::text::slice_chars(&t, e, t.len());
                assert(rest@ =~= t@.skip(e as int));
                return Some(RegValueLine {
                    name: string_of(&crate::text::slice_chars(&t, b, j)),
                    vtype: string_of(&crate::text::slice_chars(&t, k, e)),
                    value: string_of(&trim(&rest)),
                });
            }
        }
        j += 1;
    }
    None
}

} // verus!

verus! {

/// `list_values`, once `reg query` answered: the values of the lines that
/// parse, in order.
pub open spec fn spec_list_values(out: Seq<char>) -> Seq<(Seq<char>, Seq<char>, Seq<char>)> {
    lines_of(out).filter(|l: Seq<char>| spec_parse_value_line(l) is Some).map_values(
        |l: Seq<char>| spec_parse_value_line(l)->0,
    )
}

pub open spec fn line_views(v: Seq<RegValueLine>) -> Seq<(Seq<char>, Seq<char>, Seq<char>)> {
    v.map_values(|x: RegValueLine| (x.name@, x.vtype@, x.value@))
}

pub fn list_values_from(out: &str) -> (r: Vec<RegValueLine>)
    ensures
        line_views(r@) == spec_list_values(out@),
{
    let ls = lines(&chars_of(out));
    let ghost all = views(ls@);
    let ghost keep = |l: Seq<char>| spec_parse_value_line(l) is Some;
    let ghost val = |l: Seq<char>| spec_parse_value_line(l)->0;
    let mut r: Vec<RegValueLine> = Vec::new();
    let mut i: usize = 0;
    assert(all.take(0).filter(keep) =~= Seq::<Seq<char>>::empty()) by {
        reveal(Seq::filter);
    }
    assert(line_views(r@) =~= Seq::<(Seq<char>, Seq<char>, Seq<char>)>::empty());
    while i < ls.len()
        invariant
            i <= ls.len(),
            all == views(ls@),
            all == lines_of(out@),
            keep == (|l: Seq<char>| spec_parse_value_line(l) is Some),
            val == (|l: Seq<char>| spec_parse_value_line(l)->0),
            line_views(r@) == all.take(i as int).filter(keep).map_values(val),
        decreases ls.len() - i,
    {
        let ghost pre = all.take(i as int);
        assert(all.take(i + 1) =~= pre.push(all[i as int]));
        proof {
            pre.lemma_filter_push(all[i as int], keep);
        }
        let ghost before = line_views(r@);
        let s = string_of(&ls[i]);
        assert(s@ == all[i as int]);
        match parse_value_line(s.as_str()) {
            Some(v) => {
                let ghost vv = (v.name@, v.vtype@, v.value@);
                r.push(v);
                assert(line_views(r@) =~= before.push(vv));
                assert(pre.filter(keep).push(all[i as int]).map_values(val) =~= pre.filter(
                    keep,
                ).map_values(val).push(val(all[i as int])));
            },
            None => {},
        }
        i += 1;
    }
    assert(all.take(ls.len() as int) =~= all);
    r
}

/// `query_value`, once `reg query KEY /v NAME` answered: the first parsed
/// value whose name is the one asked for.
pub open spec fn first_named(v: Seq<(Seq<char>, Seq<char>, Seq<char>)>, name: Seq<char>) -> Option<(Seq<char>, Seq<char>, Seq<char>)>
    decreases v.len(),
{
    if v.len() == 0 {
        None
    } else if v[0].0 == name {
        Some(v[0])
    } else {
        first_named(v.drop_first(), name)
    }
}

/// The first value of the list with this name.
pub fn first_named_exec<'a>(vals: &'a Vec<RegValueLine>, name: &str) -> (r: Option<&'a RegValueLine>)
    ensures
        match r {
            Some(v) => first_named(line_views(vals@), name@) == Some((v.name@, v.vtype@, v.value@)),
            None => first_named(line_views(vals@), name@) is None,
        },
{
    let ghost all = line_views(vals@);
    let nc = chars_of(name);
    let mut i: usize = 0;
    assert(all.skip(0) =~= all);
    while i < vals.len()
        invariant
            i <= vals.len(),
            all == line_views(vals@),
            nc@ == name@,
            first_named(all, name@) == first_named(all.skip(i as int), name@),
        decreases vals.len() - i,
    {
        let x = &vals[i];
        assert(all.skip(i as int)[0] == (x.name@, x.vtype@, x.value@));
        assert(all.skip(i as int).drop_first() =~= all.skip(i + 1));
        if seq_equal(&chars_of(x.name.as_str()), &nc) {
            return Some(x);
        }
        i += 1;
    }
    assert(all.skip(i as int).len() == 0);
    None
}

pub fn query_value_from(out: &str, value_name: &str) -> (r: Option<RegValueLine>)
    ensures
        value_view(r) == first_named(spec_list_values(out@), value_name@),
{
    let vals = list_values_from(out);
    let ghost all = line_views(vals@);
    let ghost target = first_named(all, value_name@);
    let nc = chars_of(value_name);
    let mut i: usize = 0;
    assert(all.skip(0) =~= all);
    while i < vals.len()
        invariant
            i <= vals.len(),
            all == line_views(vals@),
            nc@ == value_name@,
            target == first_named(all.skip(i as int), value_name@),
            target == first_named(spec_list_values(out@), value_name@),
        decreases vals.len() - i,
    {
        let x = &vals[i];
        assert(all.skip(i as int)[0] == (x.name@, x.vtype@, x.value@));
        assert(all.skip(i as int).drop_first() =~= all.skip(i + 1));
        if seq_equal(&chars_of(x.name.as_str()), &nc) {
            return Some(RegValueLine { name: x.name.clone(), vtype: x.vtype.clone(), value: x.value.clone() });
        }
        i += 1;
    }
    assert(all.skip(i as int).len() == 0);
    None
}

/// `query_sub_keys`, once `reg query KEY` answered: each trimmed line that
/// names a key below the queried one (in full root form), relative to it.
pub open spec fn spec_sub_keys(key_path: Seq<char>, out: Seq<char>) -> Seq<Seq<char>> {
    let root = spec_normalize_root(key_path);
    lines_of(out).map_values(|l: Seq<char>| trim_ws(l)).filter(
        |t: Seq<char>|
            "HKEY_"@.is_prefix_of(t) && t != root && (root + seq!['\\']).is_prefix_of(t),
    ).map_values(|t: Seq<char>| t.skip(root.len() + 1int))
}

pub fn sub_keys_from(key_path: &str, out: &str) -> (r: Vec<String>)
    ensures
        string_views(r@) == spec_sub_keys(key_path@, out@),
{
    let root_s = normalize_root(key_path);
    let root = chars_of(root_s.as_str());
    let mut root_sep = crate::text::slice_chars(&root, 0, root.len());
    root_sep.push('\\');
    assert(root@.subrange(0, root@.len() as int) =~= root@);
    let hkey = chars_of("HKEY_");
    let ls = lines(&chars_of(out));
    let ghost tl = views(ls@).map_values(|l: Seq<char>| trim_ws(l));
    let ghost rt = spec_normalize_root(key_path@);
    let ghost keep = |t: Seq<char>|
        "HKEY_"@.is_prefix_of(t) && t != rt && (rt + seq!['\\']).is_prefix_of(t);
    let ghost val = |t: Seq<char>| t.skip(rt.len() + 1int);
    let mut r: Vec<String> = Vec::new();
    let mut i: usize = 0;
    assert(tl.take(0).filter(keep) =~= Seq::<Seq<char>>::empty()) by {
        reveal(Seq::filter);
    }
    assert(string_views(r@) =~= Seq::<Seq<char>>::empty());
    while i < ls.len()
        invariant
            i <= ls.len(),
            tl == views(ls@).map_values(|l: Seq<char>| trim_ws(l)),
            tl == lines_of(out@).map_values(|l: Seq<char>| trim_ws(l)),
            root@ == rt,
            rt == spec_normalize_root(key_path@),
            root_sep@ == rt + seq!['\\'],
            hkey@ == "HKEY_"@,
            keep == (|t: Seq<char>|
                "HKEY_"@.is_prefix_of(t) && t != rt && (rt + seq!['\\']).is_prefix_of(t)),
            val == (|t: Seq<char>| t.skip(rt.len() + 1int)),
            string_views(r@) == tl.take(i as int).filter(keep).map_values(val),
        decreases ls.len() - i,
    {
        let t = trim(&ls[i]);
        assert(t@ == tl[i as int]);
        let ghost pre = tl.take(i as int);
        assert(tl.take(i + 1) =~= pre.push(t@));
        proof {
            pre.lemma_filter_push(t@, keep);
        }
        let ghost before = string_views(r@);
        if starts_with(&t, &hkey) && !seq_equal(&t, &root) && starts_with(&t, &root_sep) {
            assert(t@.len() >= root_sep@.len());
            let sub = crate::text::slice_chars(&t, root_sep.len(), t.len());
            assert(sub@ =~= t@.skip(rt.len() + 1int));
            r.push(string_of(&sub));
            assert(string_views(r@) =~= before.push(val(t@)));
            assert(pre.filter(keep).push(t@).map_values(val) =~= pre.filter(keep).map_values(
                val,
            ).push(val(t@)));
        }
        i += 1;
    }
    assert(tl.take(ls.len() as int) =~= tl);
    r
}

/// The `Run` keys by name.
pub fn run_keys() -> (r: Vec<(&'static str, &'static str)>)
    ensures
        r@.len() == 4,
        r@[0].0@ == "hkcu_run"@ && r@[0].1@ == "HKCU\\Software\\Microsoft\\Windows\\CurrentVersion\\Run"@,
        r@[1].0@ == "hklm_run"@ && r@[1].1@ == "HKLM\\Software\\Microsoft\\Windows\\CurrentVersion\\Run"@,
        r@[2].0@ == "hkcu_runonce"@ && r@[2].1@ == "HKCU\\Software\\Microsoft\\Windows\\CurrentVersion\\RunOnce"@,
        r@[3].0@ == "hklm_runonce"@ && r@[3].1@ == "HKLM\\Software\\Microsoft\\Windows\\CurrentVersion\\RunOnce"@,
{
    vec![
        ("hkcu_run", "HKCU\\Software\\Microsoft\\Windows\\CurrentVersion\\Run"),
        ("hklm_run", "HKLM\\Software\\Microsoft\\Windows\\CurrentVersion\\Run"),
        ("hkcu_runonce", "HKCU\\Software\\Microsoft\\Windows\\CurrentVersion\\RunOnce"),
        ("hklm_runonce", "HKLM\\Software\\Microsoft\\Windows\\CurrentVersion\\RunOnce"),
    ]
}

/// The arguments of `reg add KEY /v NAME /t TYPE /d DATA /f`.
pub fn reg_add_args(key: &str, name: &str, vtype: &str, data: &str) -> (r: Vec<String>)
    ensures
        string_views(r@) == seq!["add"@, key@, "/v"@, name@, "/t"@, vtype@, "/d"@, data@, "/f"@],
{
    let v = vec![
        "add".to_string(),
        key.to_string(),
        "/v".to_string(),
        name.to_string(),
        "/t".to_string(),
        vtype.to_string(),
        "/d".to_string(),
        data.to_string(),
        "/f".to_string(),
    ];
    assert(string_views(v@) =~= seq!["add"@, key@, "/v"@, name@, "/t"@, vtype@, "/d"@, data@, "/f"@]);
    v
}

/// The data of a `REG_DWORD` value as `reg add` takes it: the decimal number.
pub fn dword_data(value: u32) -> (r: String)
    ensures
        r@ == crate::text::spec_decimal(value as nat),
{
    string_of(&crate::text::decimal(value as u64))
}

} // verus!
