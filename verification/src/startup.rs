//! Start-up items: identifiers, rule matching, ratings and the text the
//! start-up lists are read from.

use vstd::prelude::*;
use crate::text::{
    chars_of, string_of, lowercase_of, to_lowercase, seq_equal, trim, trim_ws, trim_char,
    trim_start_char, trim_end_char, trim_matches, contains, contains_seq, split_char, split_on,
    views, starts_with, ends_with,
};
use crate::rules_engine::string_views;
use crate::service::{is_protected, spec_is_protected};

verus! {

/// ASCII letters and digits, and `-`: the characters an id keeps as they are.
pub open spec fn is_id_char(c: char) -> bool {
    ('a' <= c && c <= 'z') || ('A' <= c && c <= 'Z') || ('0' <= c && c <= '9') || c == '-'
}

/// Every other character becomes `_`, and a run of `_` collapses to one.
pub open spec fn sanitize_raw(s: Seq<char>) -> Seq<char>
    decreases s.len(),
{
    if s.len() == 0 {
        seq![]
    } else {
        let r = sanitize_raw(s.drop_last());
        let c = s.last();
        if is_id_char(c) {
            r.push(c)
        } else if r.len() > 0 && r.last() == '_' {
            r
        } else {
            r.push('_')
        }
    }
}

/// The id made from a name: `sanitize_raw`, then `_` trimmed from both ends.
pub open spec fn spec_sanitize_id(s: Seq<char>) -> Seq<char> {
    trim_char(sanitize_raw(s), '_')
}

/// Only id characters and `_`, and never two `_` in a row.
pub open spec fn id_shaped(s: Seq<char>) -> bool {
    &&& forall|i: int| 0 <= i < s.len() ==> is_id_char(#[trigger] s[i]) || s[i] == '_'
    &&& forall|i: int| 0 <= i < s.len() - 1 ==> !(#[trigger] s[i] == '_' && s[i + 1] == '_')
}

proof fn lemma_sanitize_raw_shaped(s: Seq<char>)
    ensures
        id_shaped(sanitize_raw(s)),
    decreases s.len(),
{
    if s.len() > 0 {
        lemma_sanitize_raw_shaped(s.drop_last());
        let r = sanitize_raw(s.drop_last());
        let c = s.last();
        if is_id_char(c) {
            assert forall|i: int| 0 <= i < r.push(c).len() - 1 implies !(#[trigger] r.push(c)[i]
                == '_' && r.push(c)[i + 1] == '_') by {
                if i < r.len() - 1 {
                    assert(r.push(c)[i] == r[i] && r.push(c)[i + 1] == r[i + 1]);
                }
            }
        } else if r.len() > 0 && r.last() == '_' {
        } else {
            assert forall|i: int| 0 <= i < r.push('_').len() - 1 implies !(#[trigger] r.push(
                '_',
            )[i] == '_' && r.push('_')[i + 1] == '_') by {
                if i < r.len() - 1 {
                    assert(r.push('_')[i] == r[i] && r.push('_')[i + 1] == r[i + 1]);
                }
            }
        }
    }
}

proof fn lemma_shaped_drop_first(s: Seq<char>)
    requires
        id_shaped(s),
        s.len() > 0,
    ensures
        id_shaped(s.drop_first()),
{
    let t = s.drop_first();
    assert forall|i: int| 0 <= i < t.len() implies is_id_char(#[trigger] t[i]) || t[i] == '_' by {
        assert(t[i] == s[i + 1]);
    }
    assert forall|i: int| 0 <= i < t.len() - 1 implies !(#[trigger] t[i] == '_' && t[i + 1]
        == '_') by {
        assert(t[i] == s[i + 1] && t[i + 1] == s[i + 2]);
    }
}

proof fn lemma_shaped_drop_last(s: Seq<char>)
    requires
        id_shaped(s),
        s.len() > 0,
    ensures
        id_shaped(s.drop_last()),
{
    let t = s.drop_last();
    assert forall|i: int| 0 <= i < t.len() implies is_id_char(#[trigger] t[i]) || t[i] == '_' by {
        assert(t[i] == s[i]);
    }
    assert forall|i: int| 0 <= i < t.len() - 1 implies !(#[trigger] t[i] == '_' && t[i + 1]
        == '_') by {
        assert(t[i] == s[i] && t[i + 1] == s[i + 1]);
    }
}

proof fn lemma_trim_start_shaped(s: Seq<char>)
    requires
        id_shaped(s),
    ensures
        id_shaped(trim_start_char(s, '_')),
        trim_start_char(s, '_').len() > 0 ==> trim_start_char(s, '_')[0] != '_',
    decreases s.len(),
{
    if s.len() > 0 && s[0] == '_' {
        lemma_shaped_drop_first(s);
        lemma_trim_start_shaped(s.drop_first());
    }
}

proof fn lemma_trim_end_shaped(s: Seq<char>)
    requires
        id_shaped(s),
    ensures
        id_shaped(trim_end_char(s, '_')),
        trim_end_char(s, '_').is_prefix_of(s),
        trim_end_char(s, '_').len() > 0 ==> trim_end_char(s, '_').last() != '_',
    decreases s.len(),
{
    if s.len() > 0 && s.last() == '_' {
        lemma_shaped_drop_last(s);
        lemma_trim_end_shaped(s.drop_last());
        let t = trim_end_char(s.drop_last(), '_');
        assert forall|i: int| 0 <= i < t.len() implies t[i] == s[i] by {
            assert(t[i] == s.drop_last()[i]);
        }
    }
}

/// An id holds only ASCII letters, digits, `-` and `_`; it never holds two
/// `_` in a row, and it neither starts nor ends with `_`.
pub proof fn law_sanitized_id_shape(s: Seq<char>)
    ensures
        id_shaped(spec_sanitize_id(s)),
        spec_sanitize_id(s).len() > 0 ==> spec_sanitize_id(s)[0] != '_' && spec_sanitize_id(
            s,
        ).last() != '_',
{
    lemma_sanitize_raw_shaped(s);
    let a = trim_start_char(sanitize_raw(s), '_');
    lemma_trim_start_shaped(sanitize_raw(s));
    lemma_trim_end_shaped(a);
    let t = trim_end_char(a, '_');
    if t.len() > 0 {
        assert(t[0] == a[0]);
    }
}

proof fn lemma_sanitize_raw_of_shaped(t: Seq<char>)
    requires
        id_shaped(t),
    ensures
        sanitize_raw(t) == t,
    decreases t.len(),
{
    if t.len() > 0 {
        lemma_shaped_drop_last(t);
        lemma_sanitize_raw_of_shaped(t.drop_last());
        let r = t.drop_last();
        let c = t.last();
        assert(is_id_char(t[t.len() - 1]) || t[t.len() - 1] == '_');
        if !is_id_char(c) && r.len() > 0 {
            assert(!(t[t.len() - 2] == '_' && t[t.len() - 1] == '_'));
            assert(r.last() == t[t.len() - 2]);
        }
        assert(r.push(c) =~= t);
    }
}

/// Sanitizing an id again changes nothing.
pub proof fn law_sanitize_idempotent(s: Seq<char>)
    ensures
        spec_sanitize_id(spec_sanitize_id(s)) == spec_sanitize_id(s),
{
    let t = spec_sanitize_id(s);
    law_sanitized_id_shape(s);
    lemma_sanitize_raw_of_shaped(t);
    assert(trim_start_char(t, '_') == t);
    assert(trim_end_char(t, '_') == t);
}

fn sanitize_chars(s: &Vec<char>) -> (r: Vec<char>)
    ensures
        r@ == sanitize_raw(s@),
{
    let mut r: Vec<char> = Vec::new();
    let mut prev_underscore = false;
    let mut i: usize = 0;
    while i < s.len()
        invariant
            i <= s.len(),
            r@ == sanitize_raw(s@.take(i as int)),
            prev_underscore == (r@.len() > 0 && r@.last() == '_'),
        decreases s.len() - i,
    {
        let ch = s[i];
        assert(s@.take(i + 1).drop_last() =~= s@.take(i as int));
        assert(s@.take(i + 1).last() == ch);
        let keep = ('a' <= ch && ch <= 'z') || ('A' <= ch && ch <= 'Z') || ('0' <= ch && ch <= '9')
            || ch == '-';
        if keep {
            r.push(ch);
            prev_underscore = false;
        } else if !prev_underscore {
            r.push('_');
            prev_underscore = true;
        }
        i += 1;
    }
    assert(s@.take(s.len() as int) =~= s@);
    r
}

/// `sanitize_id`: the id made from a name (see `spec_sanitize_id`).
pub fn sanitize_id(s: &str) -> (r: String)
    ensures
        r@ == spec_sanitize_id(s@),
{
    let c = chars_of(s);
    let raw = sanitize_chars(&c);
    string_of(&trim_matches(&raw, '_'))
}

pub fn sanitize_id_export(s: String) -> (r: String)
    ensures
        r@ == spec_sanitize_id(s@),
{
    sanitize_id(s.as_str())
}

/// The suggestion shown for an item.
pub open spec fn spec_compute_suggestion(ban_rate: u32, essential: bool) -> Seq<char> {
    if essential {
        "维持现状"@
    } else if ban_rate >= 60 {
        "建议禁用"@
    } else if ban_rate <= 10 {
        "建议开启"@
    } else {
        "维持现状"@
    }
}

/// Essential items are kept as they are; otherwise a ban rate of 60 or more
/// suggests disabling, one of 10 or less suggests enabling.
pub fn compute_suggestion(ban_rate: u32, essential: bool) -> (r: &'static str)
    ensures
        r@ == spec_compute_suggestion(ban_rate, essential),
{
    if essential {
        return "维持现状";
    }
    if ban_rate >= 60 {
        return "建议禁用";
    }
    if ban_rate <= 10 {
        return "建议开启";
    }
    "维持现状"
}

pub fn compute_suggestion_export(ban_rate: u32, essential: bool) -> (r: &'static str)
    ensures
        r@ == spec_compute_suggestion(ban_rate, essential),
{
    compute_suggestion(ban_rate, essential)
}

/// The ban rate a rule's type gives; 30 without a rule or for another type.
pub open spec fn base_ban_rate(rule_type: Option<u64>) -> u32 {
    match rule_type {
        Some(t) => if t == 4 {
            85
        } else if t == 16 {
            75
        } else if t == 1 {
            40
        } else if t == 21 {
            45
        } else if t == 15 {
            50
        } else if t == 12 {
            55
        } else if t == 13 {
            35
        } else if t == 10 {
            45
        } else if t == 11 {
            60
        } else if t == 2 {
            5
        } else if t == 9 {
            5
        } else {
            30
        },
        None => 30,
    }
}

pub open spec fn spec_compute_ban_rate(rule_type: Option<u64>, enabled: bool) -> u32 {
    if enabled {
        base_ban_rate(rule_type)
    } else if base_ban_rate(rule_type) >= 15 {
        (base_ban_rate(rule_type) - 15) as u32
    } else {
        0
    }
}

/// The ban rates of enabled items, by the type of the rule they matched:
/// 4 gives 85, 16 gives 75, 1 gives 40, 21 gives 45, 15 gives 50, 12 gives
/// 55, 13 gives 35, 10 gives 45, 11 gives 60, 2 and 9 give 5, any other type
/// or no rule 30. A disabled item's rate is the enabled rate lowered by 15,
/// and 0 where that would go below 0.
pub proof fn law_ban_rate_table(rule_type: Option<u64>)
    ensures
        spec_compute_ban_rate(Some(4), true) == 85,
        spec_compute_ban_rate(Some(16), true) == 75,
        spec_compute_ban_rate(Some(1), true) == 40,
        spec_compute_ban_rate(Some(21), true) == 45,
        spec_compute_ban_rate(Some(15), true) == 50,
        spec_compute_ban_rate(Some(12), true) == 55,
        spec_compute_ban_rate(Some(13), true) == 35,
        spec_compute_ban_rate(Some(10), true) == 45,
        spec_compute_ban_rate(Some(11), true) == 60,
        spec_compute_ban_rate(Some(2), true) == 5,
        spec_compute_ban_rate(Some(9), true) == 5,
        spec_compute_ban_rate(None, true) == 30,
        rule_type matches Some(t) && t != 4 && t != 16 && t != 1 && t != 21 && t != 15 && t != 12
            && t != 13 && t != 10 && t != 11 && t != 2 && t != 9 ==> spec_compute_ban_rate(rule_type, true) == 30,
        spec_compute_ban_rate(rule_type, true) >= 15 ==> spec_compute_ban_rate(rule_type, false)
            == spec_compute_ban_rate(rule_type, true) - 15,
        spec_compute_ban_rate(rule_type, true) < 15 ==> spec_compute_ban_rate(rule_type, false) == 0,
{
}

/// The ban rate of an item matched to a rule of type `rule_type` (`None`
/// where no rule matched); a disabled item's rate is 15 lower, and never
/// below 0.
pub fn compute_ban_rate(rule_type: Option<u64>, enabled: bool) -> (r: u32)
    ensures
        r == spec_compute_ban_rate(rule_type, enabled),
        r <= 100,
{
    let rate: u32 = match rule_type {
        Some(t) => if t == 4 {
            85
        } else if t == 16 {
            75
        } else if t == 1 {
            40
        } else if t == 21 {
            45
        } else if t == 15 {
            50
        } else if t == 12 {
            55
        } else if t == 13 {
            35
        } else if t == 10 {
            45
        } else if t == 11 {
            60
        } else if t == 2 {
            5
        } else if t == 9 {
            5
        } else {
            30
        },
        None => 30,
    };
    let mut rate = rate;
    if !enabled {
        rate = rate.saturating_sub(15);
    }
    if rate > 100 {
        rate = 100;
    }
    rate
}

/// A system component that must not be disabled: a protected service, an
/// item whose rule has type 2 or 9, or a service on the security vendor's
/// white list (held lowercase).
pub open spec fn spec_is_system_essential(
    rule_type: Option<u64>,
    source: Seq<char>,
    name: Seq<char>,
    ds_ark_white: Seq<Seq<char>>,
) -> bool {
    ||| source == "service"@ && spec_is_protected(name)
    ||| rule_type == Some(2u64) || rule_type == Some(9u64)
    ||| source == "service"@ && ds_ark_white.contains(lowercase_of(name))
}

fn contains_string(v: &Vec<String>, s: &Vec<char>) -> (r: bool)
    ensures
        r == string_views(v@).contains(s@),
{
    let mut i: usize = 0;
    while i < v.len()
        invariant
            i <= v.len(),
            forall|k: int| 0 <= k < i ==> v@[k]@ != s@,
        decreases v.len() - i,
    {
        let e = chars_of(v[i].as_str());
        if seq_equal(&e, s) {
            assert(string_views(v@)[i as int] == s@);
            return true;
        }
        i += 1;
    }
    assert forall|k: int| 0 <= k < string_views(v@).len() implies string_views(v@)[k] != s@ by {
        assert(string_views(v@)[k] == v@[k]@);
    }
    false
}

/// Whether the list holds the text.
pub fn contains_string_pub(v: &Vec<String>, s: &Vec<char>) -> (r: bool)
    ensures
        r == string_views(v@).contains(s@),
{
    contains_string(v, s)
}

pub fn is_system_essential(
    rule_type: Option<u64>,
    source: &str,
    name: &str,
    ds_ark_white: &Vec<String>,
) -> (r: bool)
    ensures
        r == spec_is_system_essential(rule_type, source@, name@, string_views(ds_ark_white@)),
{
    let src = chars_of(source);
    let service = chars_of("service");
    let is_service = seq_equal(&src, &service);
    if is_service && is_protected(name) {
        return true;
    }
    match rule_type {
        Some(t) => if t == 2 || t == 9 {
            return true;
        },
        None => {},
    }
    if is_service {
        let lower = to_lowercase(name);
        let lc = chars_of(lower.as_str());
        if contains_string(ds_ark_white, &lc) {
            return true;
        }
    }
    false
}

/// The localised names `reg query` gives a key's default value, once trimmed.
pub open spec fn spec_is_default_value_name(name: Seq<char>) -> bool {
    let n = trim_ws(name);
    n == "(Default)"@ || n == "(默认)"@ || n == "(預設)"@ || n == "(standard)"@
}

pub fn is_default_value_name(name: &str) -> (r: bool)
    ensures
        r == spec_is_default_value_name(name@),
{
    let c = chars_of(name);
    let n = trim(&c);
    seq_equal(&n, &chars_of("(Default)")) || seq_equal(&n, &chars_of("(默认)")) || seq_equal(
        &n,
        &chars_of("(預設)"),
    ) || seq_equal(&n, &chars_of("(standard)"))
}

/// A leading `(?i)` makes a pattern ignore case.
pub open spec fn regex_ignores_case(pattern: Seq<char>) -> bool {
    "(?i)"@.is_prefix_of(pattern)
}

/// A pattern's `|`-separated alternatives, each plain text (lowercased
/// when the pattern ignores case).
pub open spec fn regex_alternatives(pattern: Seq<char>) -> Seq<Seq<char>> {
    if regex_ignores_case(pattern) {
        split_on(lowercase_of(pattern.skip(4)), '|')
    } else {
        split_on(pattern, '|')
    }
}

/// The text the alternatives are looked for in.
pub open spec fn regex_subject(pattern: Seq<char>, text: Seq<char>) -> Seq<char> {
    if regex_ignores_case(pattern) {
        lowercase_of(text)
    } else {
        text
    }
}

/// Some alternative of the pattern occurs in the text.
pub open spec fn spec_regex_is_match(pattern: Seq<char>, text: Seq<char>) -> bool {
    exists|i: int|
        0 <= i < regex_alternatives(pattern).len() && contains_seq(
            regex_subject(pattern, text),
            #[trigger] regex_alternatives(pattern)[i],
        )
}

pub fn regex_is_match(pattern: &str, text: &str) -> (r: bool)
    ensures
        r == spec_regex_is_match(pattern@, text@),
{
    let pc = chars_of(pattern);
    let prefix = chars_of("(?i)");
    proof {
        reveal_strlit("(?i)");
    }
    let ci = starts_with(&pc, &prefix);
    let pat = if ci {
        crate::text::slice_chars(&pc, 4, pc.len())
    } else {
        crate::text::slice_chars(&pc, 0, pc.len())
    };
    let ghost spat = if ci {
        pattern@.skip(4)
    } else {
        pattern@
    };
    assert(pat@ =~= spat);
    let (t, p) = if ci {
        let ts = to_lowercase(text);
        let ps = string_of(&pat);
        let pl = to_lowercase(ps.as_str());
        (chars_of(ts.as_str()), chars_of(pl.as_str()))
    } else {
        (chars_of(text), pat)
    };
    assert(t@ == (if ci {
        lowercase_of(text@)
    } else {
        text@
    }));
    assert(p@ == (if ci {
        lowercase_of(spat)
    } else {
        spat
    }));
    let parts = split_char(&p, '|');
    let mut i: usize = 0;
    while i < parts.len()
        invariant
            i <= parts.len(),
            views(parts@) == regex_alternatives(pattern@),
            t@ == regex_subject(pattern@, text@),
            forall|k: int|
                0 <= k < i ==> !contains_seq(t@, #[trigger] regex_alternatives(pattern@)[k]),
        decreases parts.len() - i,
    {
        assert(regex_alternatives(pattern@)[i as int] == parts@[i as int]@);
        if contains(&t, &parts[i]) {
            assert(contains_seq(t@, regex_alternatives(pattern@)[i as int]));
            return true;
        }
        i += 1;
    }
    assert(regex_alternatives(pattern@).len() == parts@.len());
    false
}

} // verus!

verus! {

/// A name whose lowercase form ends in `.exe`.
pub open spec fn is_exe_name(c: Seq<char>) -> bool {
    ".exe"@.is_suffix_of(lowercase_of(c))
}

fn is_exe_chars(c: &Vec<char>) -> (r: bool)
    ensures
        r == is_exe_name(c@),
{
    let s = string_of(c);
    let l = to_lowercase(s.as_str());
    let lc = chars_of(l.as_str());
    let ext = chars_of(".exe");
    ends_with(&lc, &ext)
}

/// Scanning `t` from index `i`, where `open` is the start of the quoted run
/// begun by an unmatched `"`: the first quoted run that is an exe name.
/// Quotes pair up in order; a run that is no exe name is passed over.
pub open spec fn quoted_exe_from(t: Seq<char>, i: int, open: Option<int>) -> Option<Seq<char>>
    decreases t.len() - i,
{
    if i < 0 || i >= t.len() {
        None
    } else if t[i] == '"' {
        match open {
            None => quoted_exe_from(t, i + 1, Some(i + 1)),
            Some(st) => if is_exe_name(t.subrange(st, i)) {
                Some(t.subrange(st, i))
            } else {
                quoted_exe_from(t, i + 1, None)
            },
        }
    } else {
        quoted_exe_from(t, i + 1, open)
    }
}

/// The first quoted exe name in a command line.
pub open spec fn spec_quoted_exe(t: Seq<char>) -> Option<Seq<char>> {
    quoted_exe_from(t, 0, None)
}

fn quoted_exe(t: &Vec<char>) -> (r: Option<Vec<char>>)
    ensures
        match r {
            Some(v) => spec_quoted_exe(t@) == Some(v@),
            None => spec_quoted_exe(t@) is None,
        },
{
    let mut open: Option<usize> = None;
    let mut i: usize = 0;
    while i < t.len()
        invariant
            i <= t.len(),
            match open {
                Some(st) => st <= i,
                None => true,
            },
            spec_quoted_exe(t@) == quoted_exe_from(
                t@,
                i as int,
                match open {
                    Some(st) => Some(st as int),
                    None => None,
                },
            ),
        decreases t.len() - i,
    {
        if t[i] == '"' {
            match open {
                None => {
                    open = Some(i + 1);
                },
                Some(st) => {
                    let cand = crate::text::slice_chars(t, st, i);
                    if is_exe_chars(&cand) {
                        return Some(cand);
                    }
                    open = None;
                },
            }
        }
        i += 1;
    }
    None
}

/// The index of the first `.exe`, ASCII case ignored.
pub open spec fn first_exe_at(t: Seq<char>) -> int {
    choose|p: int|
        crate::text::occurs_at(crate::text::ascii_lower_seq(t), ".exe"@, p) && forall|q: int|
            0 <= q < p ==> !crate::text::occurs_at(crate::text::ascii_lower_seq(t), ".exe"@, q)
}

/// The index of the last `:` in `s`.
pub open spec fn last_colon(s: Seq<char>) -> int {
    choose|d: int| 0 <= d < s.len() && s[d] == ':' && forall|e: int| d < e < s.len() ==> s[e] != ':'
}

/// A drive-letter path up to the first `.exe` of a command line: the text
/// up to and with the first `.exe` (ASCII case ignored), from the letter
/// before its last `:`, when that is an ASCII letter and a `\` follows.
/// Positions are counted in characters.
#[verifier::opaque]
pub open spec fn spec_drive_exe(t: Seq<char>) -> Option<Seq<char>> {
    if crate::text::contains_seq(crate::text::ascii_lower_seq(t), ".exe"@) {
        let before = t.take(first_exe_at(t) + 4);
        if exists|d: int| 0 <= d < before.len() && before[d] == ':' {
            let dp = last_colon(before);
            if dp >= 1 && crate::text::is_ascii_alpha(before[dp - 1]) && before.skip(
                dp - 1,
            ).contains('\\') {
                Some(before.skip(dp - 1))
            } else {
                None
            }
        } else {
            None
        }
    } else {
        None
    }
}

fn ascii_lower_chars(t: &Vec<char>) -> (lc: Vec<char>)
    ensures
        lc@ == crate::text::ascii_lower_seq(t@),
{
    let mut lc: Vec<char> = Vec::new();
    let mut k: usize = 0;
    while k < t.len()
        invariant
            k <= t.len(),
            lc@ == crate::text::ascii_lower_seq(t@.take(k as int)),
        decreases t.len() - k,
    {
        lc.push(crate::text::ascii_lower(t[k]));
        k += 1;
        assert(lc@ =~= crate::text::ascii_lower_seq(t@.take(k as int)));
    }
    assert(t@.take(t.len() as int) =~= t@);
    lc
}

fn last_colon_index(s: &Vec<char>) -> (r: Option<usize>)
    ensures
        match r {
            Some(d) => d < s.len() && s@[d as int] == ':' && last_colon(s@) == d as int,
            None => !(exists|d: int| 0 <= d < s@.len() && s@[d] == ':'),
        },
{
    let mut j: usize = s.len();
    while j > 0 && s[j - 1] != ':'
        invariant
            j <= s.len(),
            forall|e: int| j <= e < s.len() ==> s@[e] != ':',
        decreases j,
    {
        j -= 1;
    }
    if j == 0 {
        return None;
    }
    let dp = j - 1;
    let ghost sd = last_colon(s@);
    assert(s@[dp as int] == ':');
    assert(sd == dp as int) by {
        if sd < dp {
        } else if sd > dp {
        }
    }
    Some(dp)
}

fn has_backslash(s: &Vec<char>) -> (r: bool)
    ensures
        r == s@.contains('\\'),
{
    let mut m: usize = 0;
    while m < s.len()
        invariant
            m <= s.len(),
            forall|e: int| 0 <= e < m ==> s@[e] != '\\',
        decreases s.len() - m,
    {
        if s[m] == '\\' {
            assert(s@[m as int] == '\\');
            return true;
        }
        m += 1;
    }
    false
}

fn first_exe_index(t: &Vec<char>) -> (r: Option<usize>)
    ensures
        match r {
            Some(p) => crate::text::contains_seq(crate::text::ascii_lower_seq(t@), ".exe"@) && p
                == first_exe_at(t@) && p + 4 <= t.len(),
            None => !crate::text::contains_seq(crate::text::ascii_lower_seq(t@), ".exe"@),
        },
{
    let lc = ascii_lower_chars(t);
    let ext = chars_of(".exe");
    proof {
        reveal_strlit(".exe");
    }
    match crate::text::find(&lc, &ext) {
        Some(p) => {
            let ghost sp = first_exe_at(t@);
            assert(crate::text::occurs_at(lc@, ext@, p as int));
            assert(sp == p as int) by {
                if sp < p {
                } else if sp > p {
                }
            }
            Some(p)
        },
        None => None,
    }
}

#[verifier::spinoff_prover]
#[verifier::rlimit(40)]
fn drive_exe(t: &Vec<char>) -> (r: Option<Vec<char>>)
    ensures
        match r {
            Some(v) => spec_drive_exe(t@) == Some(v@),
            None => spec_drive_exe(t@) is None,
        },
{
    reveal(spec_drive_exe);
    let pos = match first_exe_index(t) {
        Some(p) => p,
        None => {
            return None;
        },
    };
    let before = crate::text::slice_chars(t, 0, pos + 4);
    assert(before@ =~= t@.take(pos + 4));
    let dp = match last_colon_index(&before) {
        Some(d) => d,
        None => {
            return None;
        },
    };
    assert(before@[dp as int] == ':');
    if dp >= 1 {
        let c = before[dp - 1];
        if ('a' <= c && c <= 'z') || ('A' <= c && c <= 'Z') {
            let cand = crate::text::slice_chars(&before, dp - 1, before.len());
            assert(cand@ =~= before@.skip(dp - 1));
            if has_backslash(&cand) {
                return Some(cand);
            }
        }
    }
    None
}

/// The first whitespace-separated word that is an exe name.
pub open spec fn first_exe_word(parts: Seq<Seq<char>>) -> Option<Seq<char>>
    decreases parts.len(),
{
    if parts.len() == 0 {
        None
    } else if is_exe_name(parts[0]) {
        Some(parts[0])
    } else {
        first_exe_word(parts.drop_first())
    }
}

/// The program a command line runs: the first quoted exe name, else a
/// drive-letter path ending in `.exe` (see `spec_drive_exe`), else the first
/// word that is an exe name with its quotes trimmed; nothing for an empty
/// command.
pub open spec fn spec_extract_exe(cmd: Seq<char>) -> Option<Seq<char>> {
    if cmd.len() == 0 {
        None
    } else if spec_quoted_exe(cmd) is Some {
        spec_quoted_exe(cmd)
    } else if spec_drive_exe(cmd) is Some {
        spec_drive_exe(cmd)
    } else {
        match first_exe_word(crate::text::split_ws(cmd)) {
            Some(p) => Some(trim_char(p, '"')),
            None => None,
        }
    }
}

pub fn extract_exe_from_command(cmd: &str) -> (r: Option<String>)
    ensures
        match r {
            Some(v) => spec_extract_exe(cmd@) == Some(v@),
            None => spec_extract_exe(cmd@) is None,
        },
{
    let c = chars_of(cmd);
    if c.len() == 0 {
        return None;
    }
    match quoted_exe(&c) {
        Some(v) => {
            return Some(string_of(&v));
        },
        None => {},
    }
    match drive_exe(&c) {
        Some(v) => {
            return Some(string_of(&v));
        },
        None => {},
    }
    let parts = crate::text::split_whitespace(&c);
    let ghost ps = views(parts@);
    let mut i: usize = 0;
    assert(ps.skip(0) =~= ps);
    while i < parts.len()
        invariant
            i <= parts.len(),
            ps == views(parts@),
            ps == crate::text::split_ws(c@),
            c@ == cmd@,
            c@.len() > 0,
            spec_quoted_exe(c@) is None,
            spec_drive_exe(c@) is None,
            first_exe_word(ps) == first_exe_word(ps.skip(i as int)),
        decreases parts.len() - i,
    {
        assert(ps.skip(i as int)[0] == parts@[i as int]@);
        assert(ps.skip(i as int).drop_first() =~= ps.skip(i + 1));
        if is_exe_chars(&parts[i]) {
            return Some(string_of(&trim_matches(&parts[i], '"')));
        }
        i += 1;
    }
    assert(ps.skip(i as int).len() == 0);
    None
}

/// What a pattern captures: the whole match, then the first group.
pub open spec fn spec_regex_captures(pattern: Seq<char>, text: Seq<char>) -> Option<
    Seq<Seq<char>>,
> {
    if pattern == "\"([^\"]+\\.exe)\""@ {
        match spec_quoted_exe(text) {
            Some(c) => Some(seq![seq!['"'] + c + seq!['"'], c]),
            None => None,
        }
    } else if pattern == "([A-Za-z]:\\\\[^\"]*?\\.exe)"@ {
        match spec_drive_exe(text) {
            Some(c) => Some(seq![c, c]),
            None => None,
        }
    } else {
        None
    }
}

/// The two patterns command lines are read with: a quoted name ending in
/// `.exe`, and a drive-letter path ending in `.exe`; any other pattern
/// captures nothing.
pub fn regex_captures(pattern: &str, text: &str) -> (r: Option<Vec<String>>)
    ensures
        match r {
            Some(v) => spec_regex_captures(pattern@, text@) == Some(string_views(v@)),
            None => spec_regex_captures(pattern@, text@) is None,
        },
{
    let t = chars_of(text);
    if crate::clean_executor::str_eq(pattern, "\"([^\"]+\\.exe)\"") {
        quoted_captures(&t)
    } else if crate::clean_executor::str_eq(pattern, "([A-Za-z]:\\\\[^\"]*?\\.exe)") {
        drive_captures(&t)
    } else {
        None
    }
}

#[verifier::spinoff_prover]
fn quoted_captures(t: &Vec<char>) -> (r: Option<Vec<String>>)
    ensures
        match r {
            Some(v) => spec_quoted_exe(t@) matches Some(c) && string_views(v@) == seq![
                seq!['"'] + c + seq!['"'],
                c,
            ],
            None => spec_quoted_exe(t@) is None,
        },
{
    match quoted_exe(t) {
        Some(c) => {
            let mut whole: Vec<char> = Vec::new();
            whole.push('"');
            crate::text::append_chars(&mut whole, &c);
            whole.push('"');
            assert(whole@ =~= seq!['"'] + c@ + seq!['"']);
            let w = string_of(&whole);
            let cs = string_of(&c);
            let v = vec![w, cs];
            assert(string_views(v@) =~= seq![seq!['"'] + c@ + seq!['"'], c@]);
            Some(v)
        },
        None => None,
    }
}

#[verifier::spinoff_prover]
fn drive_captures(t: &Vec<char>) -> (r: Option<Vec<String>>)
    ensures
        match r {
            Some(v) => spec_drive_exe(t@) matches Some(c) && string_views(v@) == seq![c, c],
            None => spec_drive_exe(t@) is None,
        },
{
    match drive_exe(t) {
        Some(c) => {
            let a = string_of(&c);
            let b = string_of(&c);
            let v = vec![a, b];
            assert(string_views(v@) =~= seq![c@, c@]);
            Some(v)
        },
        None => None,
    }
}

} // verus!

verus! {

/// The reader's state: rows done, the current row's fields, the current
/// field, and whether it is inside quotes.
pub type CsvState = (Seq<Seq<Seq<char>>>, Seq<Seq<char>>, Seq<char>, bool);

/// The rows once the text ends: a pending field or row is closed.
pub open spec fn csv_finish(st: CsvState) -> Seq<Seq<Seq<char>>> {
    if st.2.len() > 0 || st.1.len() > 0 {
        st.0.push(st.1.push(st.2))
    } else {
        st.0
    }
}

/// Reading `s` from index `i` in state `st`. Inside quotes, `""` is a quote
/// and a lone `"` closes them; outside, `"` opens quotes, `,` ends a field,
/// `\n` ends a row and `\r` is dropped.
pub open spec fn csv_from(s: Seq<char>, i: int, st: CsvState) -> Seq<Seq<Seq<char>>>
    decreases s.len() - i,
{
    if i < 0 || i >= s.len() {
        csv_finish(st)
    } else {
        let c = s[i];
        if st.3 {
            if c == '"' {
                if i + 1 < s.len() && s[i + 1] == '"' {
                    csv_from(s, i + 2, (st.0, st.1, st.2.push('"'), true))
                } else {
                    csv_from(s, i + 1, (st.0, st.1, st.2, false))
                }
            } else {
                csv_from(s, i + 1, (st.0, st.1, st.2.push(c), true))
            }
        } else if c == '"' {
            csv_from(s, i + 1, (st.0, st.1, st.2, true))
        } else if c == ',' {
            csv_from(s, i + 1, (st.0, st.1.push(st.2), seq![], false))
        } else if c == '\n' {
            csv_from(s, i + 1, (st.0.push(st.1.push(st.2)), seq![], seq![], false))
        } else if c != '\r' {
            csv_from(s, i + 1, (st.0, st.1, st.2.push(c), false))
        } else {
            csv_from(s, i + 1, st)
        }
    }
}

/// The rows and fields of comma-separated text (as `schtasks /fo csv` writes it).
pub open spec fn spec_parse_csv(s: Seq<char>) -> Seq<Seq<Seq<char>>> {
    csv_from(s, 0, (seq![], seq![], seq![], false))
}

pub open spec fn rows_view(rows: Seq<Vec<String>>) -> Seq<Seq<Seq<char>>> {
    rows.map_values(|r: Vec<String>| string_views(r@))
}

pub fn parse_csv(text: &str) -> (rows: Vec<Vec<String>>)
    ensures
        rows_view(rows@) == spec_parse_csv(text@),
{
    let chars = chars_of(text);
    let mut rows: Vec<Vec<String>> = Vec::new();
    let mut row: Vec<String> = Vec::new();
    let mut field: Vec<char> = Vec::new();
    let mut in_quotes = false;
    let mut i: usize = 0;
    assert(rows_view(rows@) =~= Seq::<Seq<Seq<char>>>::empty());
    assert(string_views(row@) =~= Seq::<Seq<char>>::empty());
    assert(field@ =~= Seq::<char>::empty());
    while i < chars.len()
        invariant
            i <= chars.len(),
            chars@ == text@,
            spec_parse_csv(text@) == csv_from(
                chars@,
                i as int,
                (rows_view(rows@), string_views(row@), field@, in_quotes),
            ),
        decreases chars.len() - i,
    {
        let c = chars[i];
        let ghost rv = rows_view(rows@);
        let ghost wv = string_views(row@);
        if in_quotes {
            if c == '"' {
                if i + 1 < chars.len() && chars[i + 1] == '"' {
                    field.push('"');
                    i += 1;
                } else {
                    in_quotes = false;
                }
            } else {
                field.push(c);
            }
        } else if c == '"' {
            in_quotes = true;
        } else if c == ',' {
            let f = string_of(&field);
            row.push(f);
            assert(string_views(row@) =~= wv.push(field@));
            field = Vec::new();
        } else if c == '\n' {
            let f = string_of(&field);
            row.push(f);
            assert(string_views(row@) =~= wv.push(field@));
            let done = row;
            rows.push(done);
            assert(rows_view(rows@) =~= rv.push(wv.push(field@)));
            row = Vec::new();
            field = Vec::new();
            assert(string_views(row@) =~= Seq::<Seq<char>>::empty());
        } else if c != '\r' {
            field.push(c);
        }
        i += 1;
    }
    let ghost rv = rows_view(rows@);
    let ghost wv = string_views(row@);
    if field.len() > 0 || row.len() > 0 {
        let f = string_of(&field);
        row.push(f);
        assert(string_views(row@) =~= wv.push(field@));
        rows.push(row);
        assert(rows_view(rows@) =~= rv.push(wv.push(field@)));
    }
    rows
}

/// The state reached after the character at `i`, and where reading resumes.
pub open spec fn csv_step(s: Seq<char>, i: int, st: CsvState) -> (int, CsvState) {
    let c = s[i];
    if st.3 {
        if c == '"' {
            if i + 1 < s.len() && s[i + 1] == '"' {
                (i + 2, (st.0, st.1, st.2.push('"'), true))
            } else {
                (i + 1, (st.0, st.1, st.2, false))
            }
        } else {
            (i + 1, (st.0, st.1, st.2.push(c), true))
        }
    } else if c == '"' {
        (i + 1, (st.0, st.1, st.2, true))
    } else if c == ',' {
        (i + 1, (st.0, st.1.push(st.2), seq![], false))
    } else if c == '\n' {
        (i + 1, (st.0.push(st.1.push(st.2)), seq![], seq![], false))
    } else if c != '\r' {
        (i + 1, (st.0, st.1, st.2.push(c), false))
    } else {
        (i + 1, st)
    }
}

proof fn lemma_csv_unfold(s: Seq<char>, i: int, st: CsvState)
    requires
        0 <= i < s.len(),
    ensures
        csv_from(s, i, st) == csv_from(s, csv_step(s, i, st).0, csv_step(s, i, st).1),
{
}

proof fn lemma_csv_rows_nonempty(s: Seq<char>, i: int, st: CsvState)
    requires
        forall|k: int| 0 <= k < st.0.len() ==> #[trigger] st.0[k].len() > 0,
    ensures
        forall|k: int|
            0 <= k < csv_from(s, i, st).len() ==> #[trigger] csv_from(s, i, st)[k].len() > 0,
    decreases s.len() - i,
{
    if i < 0 || i >= s.len() {
        let r = csv_finish(st);
        assert(csv_from(s, i, st) == r);
        assert forall|k: int| 0 <= k < r.len() implies #[trigger] r[k].len() > 0 by {
            if k < st.0.len() {
            }
        }
    } else {
        lemma_csv_unfold(s, i, st);
        let (j, nst) = csv_step(s, i, st);
        assert forall|k: int| 0 <= k < nst.0.len() implies #[trigger] nst.0[k].len() > 0 by {
            if k < st.0.len() {
            }
        }
        lemma_csv_rows_nonempty(s, j, nst);
    }
}

/// Every row that comma-separated text is read into has at least one field.
pub proof fn law_csv_rows_have_fields(s: Seq<char>)
    ensures
        forall|k: int|
            0 <= k < spec_parse_csv(s).len() ==> #[trigger] spec_parse_csv(s)[k].len() > 0,
{
    lemma_csv_rows_nonempty(s, 0, (seq![], seq![], seq![], false));
}

} // verus!

verus! {

/// A start-up rule: the program or component it speaks of, its type (which
/// sets the ban rate), and the name it goes by.
pub struct StartupRule {
    pub name: String,
    pub rule_type: u64,
    pub target: String,
}

/// A rule as a value: its name, type and target.
pub type RuleView = (Seq<char>, u64, Seq<char>);

impl View for StartupRule {
    type V = RuleView;

    open spec fn view(&self) -> RuleView {
        (self.name@, self.rule_type, self.target@)
    }
}

impl StartupRule {
    pub fn copy(&self) -> (r: StartupRule)
        ensures
            r == *self,
    {
        StartupRule { name: self.name.clone(), rule_type: self.rule_type, target: self.target.clone() }
    }
}

pub open spec fn rule_views(m: Map<Seq<char>, StartupRule>) -> Map<Seq<char>, RuleView> {
    m.map_values(|r: StartupRule| r@)
}

/// Ends in one of the extensions a start-up target is launched by (the
/// text is already lowercase).
pub open spec fn ends_launch_ext(l: Seq<char>) -> bool {
    ||| ".exe"@.is_suffix_of(l)
    ||| ".dll"@.is_suffix_of(l)
    ||| ".com"@.is_suffix_of(l)
    ||| ".bat"@.is_suffix_of(l)
    ||| ".cmd"@.is_suffix_of(l)
    ||| ".lnk"@.is_suffix_of(l)
}

fn ends_launch_ext_exec(l: &Vec<char>) -> (r: bool)
    ensures
        r == ends_launch_ext(l@),
{
    ends_with(l, &chars_of(".exe")) || ends_with(l, &chars_of(".dll")) || ends_with(
        l,
        &chars_of(".com"),
    ) || ends_with(l, &chars_of(".bat")) || ends_with(l, &chars_of(".cmd")) || ends_with(
        l,
        &chars_of(".lnk"),
    )
}

/// The first comma-separated part that, trimmed, names a launchable file.
pub open spec fn first_launch_part(parts: Seq<Seq<char>>) -> Option<Seq<char>>
    decreases parts.len(),
{
    if parts.len() == 0 {
        None
    } else if ends_launch_ext(lowercase_of(trim_ws(parts[0]))) {
        Some(trim_ws(parts[0]))
    } else {
        first_launch_part(parts.drop_first())
    }
}

/// The file a rule is about. A type-1 rule lists comma-separated parts: the
/// first that names a launchable file, else the second part, else nothing;
/// other rules name it whole. The result is trimmed.
pub open spec fn spec_extract_rule_target(rule_type: u64, target: Seq<char>) -> Seq<char> {
    if rule_type == 1 {
        let parts = split_on(target, ',');
        match first_launch_part(parts) {
            Some(p) => p,
            None => if parts.len() > 1 {
                trim_ws(parts[1])
            } else {
                seq![]
            },
        }
    } else {
        trim_ws(target)
    }
}

fn lower_chars(c: &Vec<char>) -> (r: Vec<char>)
    ensures
        r@ == lowercase_of(c@),
{
    let s = string_of(c);
    let l = to_lowercase(s.as_str());
    chars_of(l.as_str())
}

pub fn extract_rule_target(rule: &StartupRule) -> (r: String)
    ensures
        r@ == spec_extract_rule_target(rule.rule_type, rule.target@),
{
    let t = chars_of(rule.target.as_str());
    if rule.rule_type == 1 {
        let parts = split_char(&t, ',');
        let ghost ps = views(parts@);
        let mut i: usize = 0;
        assert(ps.skip(0) =~= ps);
        while i < parts.len()
            invariant
                i <= parts.len(),
                ps == views(parts@),
                ps == split_on(t@, ','),
                t@ == rule.target@,
                rule.rule_type == 1,
                first_launch_part(ps) == first_launch_part(ps.skip(i as int)),
            decreases parts.len() - i,
        {
            assert(ps.skip(i as int)[0] == parts@[i as int]@);
            assert(ps.skip(i as int).drop_first() =~= ps.skip(i + 1));
            let p = trim(&parts[i]);
            let l = lower_chars(&p);
            if ends_launch_ext_exec(&l) {
                return string_of(&p);
            }
            i += 1;
        }
        assert(ps.skip(i as int).len() == 0);
        if parts.len() > 1 {
            assert(ps[1] == parts@[1]@);
            return string_of(&trim(&parts[1]));
        }
        return String::new();
    }
    string_of(&trim(&t))
}

/// Its UTF-8 encoding takes more than one byte.
pub open spec fn longer_than_one_byte(s: Seq<char>) -> bool {
    s.len() >= 2 || (s.len() == 1 && (s[0] as u32) >= 0x80)
}

fn longer_than_one_byte_exec(s: &Vec<char>) -> (r: bool)
    ensures
        r == longer_than_one_byte(s@),
{
    s.len() >= 2 || (s.len() == 1 && (s[0] as u32) >= 0x80)
}

/// Rules found by the lowercase file name they launch, and by their
/// lowercase name.
pub struct RuleIndex {
    pub by_exe: crate::keyed::KeyedStore<StartupRule>,
    pub by_name: crate::keyed::KeyedStore<StartupRule>,
}

impl RuleIndex {
    pub open spec fn wf(&self) -> bool {
        self.by_exe.wf() && self.by_name.wf()
    }
}

pub open spec fn rules_view(rules: Seq<StartupRule>) -> Seq<RuleView> {
    rules.map_values(|r: StartupRule| r@)
}

pub open spec fn opt_rule_view(r: Option<StartupRule>) -> Option<RuleView> {
    match r {
        Some(x) => Some(x@),
        None => None,
    }
}

/// The key a rule is found by through the file it launches: its target,
/// lowercase, when that names a launchable file.
pub open spec fn exe_key(r: RuleView) -> Option<Seq<char>> {
    let exe = lowercase_of(spec_extract_rule_target(r.1, r.2));
    if exe.len() > 0 && ends_launch_ext(exe) {
        Some(exe)
    } else {
        None
    }
}

/// The key a rule is found by through its name, when its lowercase name
/// takes more than one byte.
pub open spec fn name_key(n: Seq<char>) -> Option<Seq<char>> {
    if longer_than_one_byte(lowercase_of(n)) {
        Some(lowercase_of(n))
    } else {
        None
    }
}

/// Adds `r` under `key` unless that key is taken: the first rule wins.
pub open spec fn add_first(m: Map<Seq<char>, RuleView>, key: Option<Seq<char>>, r: RuleView) -> Map<Seq<char>, RuleView> {
    match key {
        Some(k) => if m.dom().contains(k) {
            m
        } else {
            m.insert(k, r)
        },
        None => m,
    }
}

/// The index of a rule list, built in order.
pub open spec fn spec_rule_index(rules: Seq<RuleView>) -> (Map<Seq<char>, RuleView>, Map<Seq<char>, RuleView>)
    decreases rules.len(),
{
    if rules.len() == 0 {
        (Map::empty(), Map::empty())
    } else {
        let prev = spec_rule_index(rules.drop_last());
        let r = rules.last();
        (add_first(prev.0, exe_key(r), r), add_first(prev.1, name_key(r.0), r))
    }
}

/// The key of a rule in one of the two maps: by launched file, or by name.
pub open spec fn index_key(by_name: bool, r: RuleView) -> Option<Seq<char>> {
    if by_name {
        name_key(r.0)
    } else {
        exe_key(r)
    }
}

pub open spec fn index_map(rules: Seq<RuleView>, by_name: bool) -> Map<Seq<char>, RuleView> {
    if by_name {
        spec_rule_index(rules).1
    } else {
        spec_rule_index(rules).0
    }
}

proof fn lemma_index_dom(rules: Seq<RuleView>, by_name: bool, k: Seq<char>)
    ensures
        index_map(rules, by_name).dom().contains(k) <==> exists|j: int|
            0 <= j < rules.len() && #[trigger] index_key(by_name, rules[j]) == Some(k),
    decreases rules.len(),
{
    if rules.len() > 0 {
        let p = rules.drop_last();
        lemma_index_dom(p, by_name, k);
        if index_map(rules, by_name).dom().contains(k) {
            if !index_map(p, by_name).dom().contains(k) {
                assert(index_key(by_name, rules[rules.len() - 1]) == Some(k));
            } else {
                let j = choose|j: int| 0 <= j < p.len() && #[trigger] index_key(by_name, p[j]) == Some(k);
                assert(rules[j] == p[j]);
            }
        }
        if exists|j: int| 0 <= j < rules.len() && #[trigger] index_key(by_name, rules[j]) == Some(k) {
            let j = choose|j: int| 0 <= j < rules.len() && #[trigger] index_key(by_name, rules[j]) == Some(k);
            if j < rules.len() - 1 {
                assert(p[j] == rules[j]);
            }
        }
    }
}

/// In both maps of the rule index, a key leads to the first rule that has
/// it: a later rule with the same file or name does not replace it.
pub proof fn law_rule_index_first_wins(rules: Seq<RuleView>, by_name: bool, i: int)
    requires
        0 <= i < rules.len(),
        index_key(by_name, rules[i]) is Some,
        forall|j: int| 0 <= j < i ==> #[trigger] index_key(by_name, rules[j]) != index_key(by_name, rules[i]),
    ensures
        index_map(rules, by_name).dom().contains(index_key(by_name, rules[i])->0),
        index_map(rules, by_name)[index_key(by_name, rules[i])->0] == rules[i],
    decreases rules.len(),
{
    let k = index_key(by_name, rules[i])->0;
    let p = rules.drop_last();
    if i < rules.len() - 1 {
        assert forall|j: int| 0 <= j < i implies #[trigger] index_key(by_name, p[j]) != index_key(by_name, p[i]) by {
            assert(p[j] == rules[j]);
        }
        law_rule_index_first_wins(p, by_name, i);
    } else {
        lemma_index_dom(p, by_name, k);
        if index_map(p, by_name).dom().contains(k) {
            let j = choose|j: int| 0 <= j < p.len() && #[trigger] index_key(by_name, p[j]) == Some(k);
            assert(p[j] == rules[j]);
            assert(index_key(by_name, rules[j]) != index_key(by_name, rules[i]));
        }
    }
}

fn add_first_exec(m: &mut crate::keyed::KeyedStore<StartupRule>, key: Option<Vec<char>>, r: &StartupRule)
    requires
        old(m).wf(),
    ensures
        final(m).wf(),
        rule_views(final(m)@) == add_first(
            rule_views(old(m)@),
            match key {
                Some(k) => Some(k@),
                None => None,
            },
            r@,
        ),
{
    match key {
        Some(k) => {
            let ks = string_of(&k);
            if m.get(ks.as_str()).is_none() {
                let ghost m0 = m@;
                m.insert(ks, r.copy());
                assert(rule_views(m@) =~= rule_views(m0).insert(k@, r@));
            }
        },
        None => {},
    }
}

fn exe_key_exec(r: &StartupRule) -> (k: Option<Vec<char>>)
    ensures
        match k {
            Some(v) => exe_key(r@) == Some(v@),
            None => exe_key(r@) is None,
        },
{
    let t = extract_rule_target(r);
    let tc = chars_of(t.as_str());
    let exe = lower_chars(&tc);
    if exe.len() > 0 && ends_launch_ext_exec(&exe) {
        Some(exe)
    } else {
        None
    }
}

fn name_key_exec(n: &str) -> (k: Option<Vec<char>>)
    ensures
        match k {
            Some(v) => name_key(n@) == Some(v@),
            None => name_key(n@) is None,
        },
{
    let nc = chars_of(n);
    let l = lower_chars(&nc);
    if longer_than_one_byte_exec(&l) {
        Some(l)
    } else {
        None
    }
}

/// `build_rule_index`: each rule is found by the file it launches and by
/// its name; where two rules share a key, the first keeps it.
pub fn build_rule_index(rules: &Vec<StartupRule>) -> (idx: RuleIndex)
    ensures
        idx.wf(),
        (rule_views(idx.by_exe@), rule_views(idx.by_name@)) == spec_rule_index(rules_view(rules@)),
{
    let mut by_exe: crate::keyed::KeyedStore<StartupRule> = crate::keyed::KeyedStore::new();
    let mut by_name: crate::keyed::KeyedStore<StartupRule> = crate::keyed::KeyedStore::new();
    let mut i: usize = 0;
    while i < rules.len()
        invariant
            i <= rules.len(),
            by_exe.wf(),
            by_name.wf(),
            (rule_views(by_exe@), rule_views(by_name@)) == spec_rule_index(
                rules_view(rules@.take(i as int)),
            ),
        decreases rules.len() - i,
    {
        let r = &rules[i];
        assert(rules_view(rules@.take(i + 1)).drop_last() =~= rules_view(rules@.take(i as int)));
        assert(rules_view(rules@.take(i + 1)).last() == r@);
        add_first_exec(&mut by_exe, exe_key_exec(r), r);
        add_first_exec(&mut by_name, name_key_exec(r.name.as_str()), r);
        i += 1;
    }
    assert(rules@.take(rules.len() as int) =~= rules@);
    RuleIndex { by_exe, by_name }
}

/// The rule an item matches: by the lowercase file name of the program it
/// runs, else by its lowercase name.
pub open spec fn spec_match_rule(
    by_exe: Map<Seq<char>, RuleView>,
    by_name: Map<Seq<char>, RuleView>,
    name: Option<Seq<char>>,
    target_exe: Option<Seq<char>>,
) -> Option<RuleView> {
    let exe_hit = match target_exe {
        Some(e) => {
            let base = lowercase_of(
                match crate::winpath::file_name_of(e) {
                    Some(f) => f,
                    None => seq![],
                },
            );
            if by_exe.dom().contains(base) {
                Some(by_exe[base])
            } else {
                None
            }
        },
        None => None,
    };
    if exe_hit is Some {
        exe_hit
    } else {
        match name {
            Some(n) => if by_name.dom().contains(lowercase_of(n)) {
                Some(by_name[lowercase_of(n)])
            } else {
                None
            },
            None => None,
        }
    }
}

pub fn match_rule(index: &RuleIndex, name: Option<&str>, target_exe: Option<&str>) -> (r: Option<StartupRule>)
    requires
        index.wf(),
    ensures
        opt_rule_view(r) == spec_match_rule(
            rule_views(index.by_exe@),
            rule_views(index.by_name@),
            crate::rules_engine::opt_view(name),
            crate::rules_engine::opt_view(target_exe),
        ),
{
    match target_exe {
        Some(exe) => {
            let ec = chars_of(exe);
            let f = match crate::winpath::file_name_exec(&ec) {
                Some(f) => f,
                None => Vec::new(),
            };
            let base = string_of(&lower_chars(&f));
            match index.by_exe.get(base.as_str()) {
                Some(r) => {
                    return Some(r.copy());
                },
                None => {},
            }
        },
        None => {},
    }
    match name {
        Some(n) => {
            let lower = to_lowercase(n);
            match index.by_name.get(lower.as_str()) {
                Some(r) => Some(r.copy()),
                None => None,
            }
        },
        None => None,
    }
}

/// Names the security vendor's start-up list knows are added to the index
/// by name (type 1 for start-up programs, 12 for services) where no rule
/// has that name yet.
pub open spec fn spec_merge_names(m: Map<Seq<char>, RuleView>, names: Seq<Seq<char>>, rule_type: u64) -> Map<Seq<char>, RuleView>
    decreases names.len(),
{
    if names.len() == 0 {
        m
    } else {
        let prev = spec_merge_names(m, names.drop_last(), rule_type);
        let nm = names.last();
        add_first(prev, name_key(nm), (nm, rule_type, seq![]))
    }
}

fn merge_names(m: &mut crate::keyed::KeyedStore<StartupRule>, names: &Vec<String>, rule_type: u64)
    requires
        old(m).wf(),
    ensures
        final(m).wf(),
        rule_views(final(m)@) == spec_merge_names(rule_views(old(m)@), string_views(names@), rule_type),
{
    let ghost m0 = rule_views(m@);
    let mut i: usize = 0;
    while i < names.len()
        invariant
            i <= names.len(),
            m.wf(),
            rule_views(m@) == spec_merge_names(m0, string_views(names@.take(i as int)), rule_type),
        decreases names.len() - i,
    {
        assert(string_views(names@.take(i + 1)).drop_last() =~= string_views(names@.take(i as int)));
        let nm = names[i].clone();
        let r = StartupRule { name: nm, rule_type, target: String::new() };
        assert(string_views(names@.take(i + 1)).last() == r.name@);
        assert(r.target@ =~= Seq::<char>::empty());
        add_first_exec(m, name_key_exec(names[i].as_str()), &r);
        i += 1;
    }
    assert(names@.take(names.len() as int) =~= names@);
}

/// The index with the vendor's start-up program and service names merged in.
pub fn merge_safe_speed_boot(index: &mut RuleIndex, startup: &Vec<String>, services: &Vec<String>)
    requires
        old(index).wf(),
    ensures
        final(index).wf(),
        final(index).by_exe@ == old(index).by_exe@,
        rule_views(final(index).by_name@) == spec_merge_names(
            spec_merge_names(rule_views(old(index).by_name@), string_views(startup@), 1),
            string_views(services@),
            12,
        ),
{
    merge_names(&mut index.by_name, startup, 1);
    merge_names(&mut index.by_name, services, 12);
}

} // verus!

verus! {

/// A set of strings (the ids the user ignores, the plug-ins already seen),
/// each held once.
pub struct StringSet {
    ids: Vec<String>,
}

impl View for StringSet {
    type V = Set<Seq<char>>;

    closed spec fn view(&self) -> Set<Seq<char>> {
        string_views(self.ids@).to_set()
    }
}

impl StringSet {
    pub closed spec fn wf(&self) -> bool {
        string_views(self.ids@).no_duplicates()
    }

    pub fn new() -> (r: StringSet)
        ensures
            r.wf(),
            r@ == Set::<Seq<char>>::empty(),
    {
        let r = StringSet { ids: Vec::new() };
        assert(string_views(r.ids@) =~= Seq::<Seq<char>>::empty());
        assert(r@ =~= Set::<Seq<char>>::empty());
        r
    }

    fn position(&self, id: &str) -> (r: Option<usize>)
        ensures
            match r {
                Some(i) => i < self.ids@.len() && self.ids@[i as int]@ == id@,
                None => forall|k: int| 0 <= k < self.ids@.len() ==> self.ids@[k]@ != id@,
            },
    {
        let c = chars_of(id);
        let mut i: usize = 0;
        while i < self.ids.len()
            invariant
                i <= self.ids.len(),
                c@ == id@,
                forall|k: int| 0 <= k < i ==> self.ids@[k]@ != id@,
            decreases self.ids.len() - i,
        {
            if seq_equal(&chars_of(self.ids[i].as_str()), &c) {
                return Some(i);
            }
            i += 1;
        }
        None
    }

    /// Whether `id` is in the set.
    pub fn contains(&self, id: &str) -> (r: bool)
        ensures
            r == self@.contains(id@),
    {
        match self.position(id) {
            Some(i) => {
                assert(string_views(self.ids@)[i as int] == id@);
                true
            },
            None => {
                assert(!string_views(self.ids@).contains(id@)) by {
                    if string_views(self.ids@).contains(id@) {
                        let k = choose|k: int|
                            0 <= k < string_views(self.ids@).len() && string_views(self.ids@)[k]
                                == id@;
                        assert(self.ids@[k]@ == id@);
                    }
                }
                false
            },
        }
    }

    /// Adds `id` (when `ignored`) or removes it; no other id changes.
    pub fn set_ignored(&mut self, id: &str, ignored: bool)
        requires
            old(self).wf(),
        ensures
            final(self).wf(),
            ignored ==> final(self)@ == old(self)@.insert(id@),
            !ignored ==> final(self)@ == old(self)@.remove(id@),
            final(self)@.contains(id@) == ignored,
    {
        let ghost before = string_views(self.ids@);
        match self.position(id) {
            Some(i) => {
                assert(before[i as int] == id@);
                if !ignored {
                    self.ids.remove(i);
                    assert(string_views(self.ids@) =~= before.remove(i as int));
                    assert(before.remove(i as int).no_duplicates()) by {
                        let rm = before.remove(i as int);
                        assert forall|a: int, b: int|
                            0 <= a < rm.len() && 0 <= b < rm.len() && a != b implies rm[a]
                            != rm[b] by {
                            let aa = if a < i {
                                a
                            } else {
                                a + 1
                            };
                            let bb = if b < i {
                                b
                            } else {
                                b + 1
                            };
                            assert(rm[a] == before[aa] && rm[b] == before[bb]);
                        }
                    }
                    assert(self@ =~= before.to_set().remove(id@)) by {
                        assert forall|x: Seq<char>| self@.contains(x) == before.to_set().remove(
                            id@,
                        ).contains(x) by {
                            if self@.contains(x) {
                                let k = choose|k: int|
                                    0 <= k < before.remove(i as int).len() && before.remove(
                                        i as int,
                                    )[k] == x;
                                if k < i {
                                    assert(before[k] == x);
                                } else {
                                    assert(before[k + 1] == x);
                                }
                            }
                            if before.to_set().remove(id@).contains(x) {
                                let k = choose|k: int| 0 <= k < before.len() && before[k] == x;
                                if k < i {
                                    assert(before.remove(i as int)[k] == x);
                                } else if k > i {
                                    assert(before.remove(i as int)[k - 1] == x);
                                }
                            }
                        }
                    }
                } else {
                    assert(self@ =~= before.to_set().insert(id@));
                }
            },
            None => {
                assert(!before.contains(id@)) by {
                    if before.contains(id@) {
                        let k = choose|k: int| 0 <= k < before.len() && before[k] == id@;
                        assert(self.ids@[k]@ == id@);
                    }
                }
                if ignored {
                    self.ids.push(id.to_string());
                    assert(string_views(self.ids@) =~= before.push(id@));
                    assert(self@ =~= before.to_set().insert(id@)) by {
                        assert forall|x: Seq<char>| self@.contains(x) == before.to_set().insert(
                            id@,
                        ).contains(x) by {
                            if self@.contains(x) {
                                let k = choose|k: int|
                                    0 <= k < before.push(id@).len() && before.push(id@)[k] == x;
                                if k < before.len() {
                                    assert(before[k] == x);
                                }
                            }
                            if before.contains(x) {
                                let k = choose|k: int| 0 <= k < before.len() && before[k] == x;
                                assert(before.push(id@)[k] == x);
                            }
                            if x == id@ {
                                assert(before.push(id@)[before.len() as int] == x);
                            }
                        }
                    }
                } else {
                    assert(self@ =~= before.to_set().remove(id@));
                }
            },
        }
    }

    /// The ids in the set, each once.
    pub fn to_vec(&self) -> (r: Vec<String>)
        requires
            self.wf(),
        ensures
            string_views(r@).to_set() == self@,
            string_views(r@).no_duplicates(),
    {
        crate::clean_executor::clone_strings(&self.ids)
    }
}

/// `from_list`: the set of the ids in a list (duplicates held once).
pub fn ignore_set_from(ids: &Vec<String>) -> (r: StringSet)
    ensures
        r.wf(),
        r@ == string_views(ids@).to_set(),
{
    let mut r = StringSet::new();
    let mut i: usize = 0;
    while i < ids.len()
        invariant
            i <= ids.len(),
            r.wf(),
            r@ == string_views(ids@.take(i as int)).to_set(),
        decreases ids.len() - i,
    {
        r.set_ignored(ids[i].as_str(), true);
        assert(string_views(ids@.take(i + 1)) =~= string_views(ids@.take(i as int)).push(
            ids@[i as int]@,
        ));
        proof {
            string_views(ids@.take(i as int)).lemma_push_to_set_commute(ids@[i as int]@);
        }
        i += 1;
    }
    assert(ids@.take(ids.len() as int) =~= ids@);
    r
}

} // verus!

verus! {

/// One entry of the boot-time reference: a service or program name and the
/// time it adds to start-up, where that is a whole number of milliseconds.
pub struct BootTime {
    pub name: String,
    pub millis: Option<u64>,
}

pub open spec fn boot_views(b: Seq<BootTime>) -> Seq<(Seq<char>, Option<u64>)> {
    b.map_values(|e: BootTime| (e.name@, e.millis))
}

/// The entry named exactly `key`: the first, in order.
pub open spec fn boot_find(b: Seq<(Seq<char>, Option<u64>)>, key: Seq<char>) -> Option<Option<u64>>
    decreases b.len(),
{
    if b.len() == 0 {
        None
    } else if b[0].0 == key {
        Some(b[0].1)
    } else {
        boot_find(b.drop_first(), key)
    }
}

/// The first entry whose lowercase name is `key`.
pub open spec fn boot_find_ci(b: Seq<(Seq<char>, Option<u64>)>, key: Seq<char>) -> Option<Option<u64>>
    decreases b.len(),
{
    if b.len() == 0 {
        None
    } else if lowercase_of(b[0].0) == key {
        Some(b[0].1)
    } else {
        boot_find_ci(b.drop_first(), key)
    }
}

/// The first entry whose lowercase name is `key` and that has a time.
pub open spec fn boot_find_timed(b: Seq<(Seq<char>, Option<u64>)>, key: Seq<char>) -> Option<u64>
    decreases b.len(),
{
    if b.len() == 0 {
        None
    } else if lowercase_of(b[0].0) == key && b[0].1 is Some {
        b[0].1
    } else {
        boot_find_timed(b.drop_first(), key)
    }
}

/// The lowercase file name of a path (empty where it has none).
pub open spec fn base_name_lower(p: Seq<char>) -> Seq<char> {
    lowercase_of(
        match crate::winpath::file_name_of(p) {
            Some(f) => f,
            None => seq![],
        },
    )
}

fn base_name_lower_exec(p: &str) -> (r: Vec<char>)
    ensures
        r@ == base_name_lower(p@),
{
    let pc = chars_of(p);
    let f = match crate::winpath::file_name_exec(&pc) {
        Some(f) => f,
        None => Vec::new(),
    };
    lower_chars(&f)
}

/// The start-up time of an item: under its name, else under its program's
/// file name, else under a name equal to that file name but for case.
pub open spec fn spec_lookup_startup_time(
    b: Seq<(Seq<char>, Option<u64>)>,
    name: Option<Seq<char>>,
    exe: Option<Seq<char>>,
) -> Option<u64> {
    if name is Some && boot_find(b, name->0) is Some {
        boot_find(b, name->0)->0
    } else {
        match exe {
            Some(e) => {
                let base = base_name_lower(e);
                if boot_find(b, base) is Some {
                    boot_find(b, base)->0
                } else {
                    match boot_find_ci(b, base) {
                        Some(v) => v,
                        None => None,
                    }
                }
            },
            None => None,
        }
    }
}

fn boot_find_exec(b: &Vec<BootTime>, key: &Vec<char>, ci: bool, timed: bool) -> (r: Option<Option<u64>>)
    ensures
        !ci ==> r == boot_find(boot_views(b@), key@),
        ci && !timed ==> r == boot_find_ci(boot_views(b@), key@),
        ci && timed ==> match r {
            Some(v) => v is Some && boot_find_timed(boot_views(b@), key@) == v,
            None => boot_find_timed(boot_views(b@), key@) is None,
        },
{
    let ghost all = boot_views(b@);
    let mut i: usize = 0;
    assert(all.skip(0) =~= all);
    while i < b.len()
        invariant
            i <= b.len(),
            all == boot_views(b@),
            !ci ==> boot_find(all, key@) == boot_find(all.skip(i as int), key@),
            ci && !timed ==> boot_find_ci(all, key@) == boot_find_ci(all.skip(i as int), key@),
            ci && timed ==> boot_find_timed(all, key@) == boot_find_timed(
                all.skip(i as int),
                key@,
            ),
        decreases b.len() - i,
    {
        assert(all.skip(i as int)[0] == (b@[i as int].name@, b@[i as int].millis));
        assert(all.skip(i as int).drop_first() =~= all.skip(i + 1));
        let n = chars_of(b[i].name.as_str());
        let hit = if ci {
            let l = lower_chars(&n);
            seq_equal(&l, key) && (!timed || b[i].millis.is_some())
        } else {
            seq_equal(&n, key)
        };
        if hit {
            return Some(b[i].millis);
        }
        i += 1;
    }
    assert(all.skip(i as int).len() == 0);
    None
}

/// The entry named exactly `key` (the first).
pub fn boot_find_pub(b: &Vec<BootTime>, key: &Vec<char>) -> (r: Option<Option<u64>>)
    ensures
        r == boot_find(boot_views(b@), key@),
{
    boot_find_exec(b, key, false, false)
}

/// `lookup_startup_time`.
pub fn lookup_startup_time(b: &Vec<BootTime>, name: Option<&str>, exe: Option<&str>) -> (r: Option<u64>)
    ensures
        r == spec_lookup_startup_time(
            boot_views(b@),
            crate::rules_engine::opt_view(name),
            crate::rules_engine::opt_view(exe),
        ),
{
    match name {
        Some(n) => {
            let nc = chars_of(n);
            match boot_find_exec(b, &nc, false, false) {
                Some(v) => {
                    return v;
                },
                None => {},
            }
        },
        None => {},
    }
    match exe {
        Some(e) => {
            let base = base_name_lower_exec(e);
            match boot_find_exec(b, &base, false, false) {
                Some(v) => v,
                None => match boot_find_exec(b, &base, true, false) {
                    Some(v) => v,
                    None => None,
                },
            }
        },
        None => None,
    }
}

/// `lookup_boot_time_by_exe`: the time of the first entry whose lowercase
/// name is the program's lowercase file name and that has a time; nothing
/// for an empty path.
pub fn lookup_boot_time_by_exe(b: &Vec<BootTime>, exe: &str) -> (r: Option<u64>)
    ensures
        r == (if exe@.len() == 0 {
            None
        } else {
            boot_find_timed(boot_views(b@), base_name_lower(exe@))
        }),
{
    let ec = chars_of(exe);
    if ec.len() == 0 {
        return None;
    }
    let base = base_name_lower_exec(exe);
    match boot_find_exec(b, &base, true, true) {
        Some(v) => v,
        None => None,
    }
}

} // verus!

verus! {

/// `a` followed by `b`.
pub fn concat(a: &str, b: &str) -> (r: String)
    ensures
        r@ == a@ + b@,
{
    let mut ac = chars_of(a);
    let bc = chars_of(b);
    crate::text::append_chars(&mut ac, &bc);
    string_of(&ac)
}

/// One row of a start-up list.
pub struct StartupItem {
    pub id: String,
    pub name: String,
    pub desc: String,
    pub icon: &'static str,
    pub ban_rate: u32,
    pub suggestion: &'static str,
    pub enabled: bool,
    pub source: String,
    pub target: String,
    pub startup_time: Option<u64>,
    pub ignored: bool,
    pub can_toggle: bool,
    pub known: Option<bool>,
}

/// What an item id stands for, kept so that later actions can reach it.
#[allow(inconsistent_fields)]
#[derive(Clone)]
pub enum ItemMeta {
    Registry {
        run_key: String,
        approved_key: Option<String>,
        value_name: String,
        command: String,
        essential: bool,
    },
    StartupFolder { lnk_path: String, essential: bool },
    Task { task_name: String, essential: bool },
    Service { service_name: String, essential: bool, start_type_code: i32 },
    Cmh { key: String, clsid: Option<String>, name: String },
    ExplorerPlugin { ns_key: String, display_name: String, clsid: String },
}

impl ItemMeta {
    /// Whether the item is a system component (only the first four kinds
    /// record it; the others never are).
    pub open spec fn spec_essential(self) -> bool {
        match self {
            ItemMeta::Registry { essential, .. } => essential,
            ItemMeta::StartupFolder { essential, .. } => essential,
            ItemMeta::Task { essential, .. } => essential,
            ItemMeta::Service { essential, .. } => essential,
            _ => false,
        }
    }

    pub fn essential(&self) -> (r: bool)
        ensures
            r == self.spec_essential(),
    {
        match self {
            ItemMeta::Registry { essential, .. } => *essential,
            ItemMeta::StartupFolder { essential, .. } => *essential,
            ItemMeta::Task { essential, .. } => *essential,
            ItemMeta::Service { essential, .. } => *essential,
            _ => false,
        }
    }
}

pub open spec fn opt_str_view(o: Option<&str>) -> Option<Seq<char>> {
    crate::rules_engine::opt_view(o)
}

pub open spec fn rule_type_of(r: Option<RuleView>) -> Option<u64> {
    match r {
        Some(x) => Some(x.1),
        None => None,
    }
}

fn rule_type_exec(r: &Option<StartupRule>) -> (t: Option<u64>)
    ensures
        t == rule_type_of(opt_rule_view(*r)),
{
    match r {
        Some(x) => Some(x.rule_type),
        None => None,
    }
}

/// Whether a `StartupApproved` value marks an item enabled: absent, or its
/// data starts with `02`.
pub open spec fn approved_enabled(approved_value: Option<Seq<char>>) -> bool {
    match approved_value {
        Some(v) => "02"@.is_prefix_of(v),
        None => true,
    }
}

/// The context an item is rated in: the rule index, the vendor's white
/// list of services (lowercase), the ignored ids and the boot times.
pub struct RatingContext {
    pub index: RuleIndex,
    pub ds_ark_white: Vec<String>,
    pub ignore: StringSet,
    pub boot: Vec<BootTime>,
}

impl RatingContext {
    pub open spec fn wf(&self) -> bool {
        self.index.wf()
    }

    pub open spec fn spec_rule(&self, name: Seq<char>, exe: Option<Seq<char>>) -> Option<RuleView> {
        spec_match_rule(rule_views(self.index.by_exe@), rule_views(self.index.by_name@), Some(name), exe)
    }
}

/// The item for a value of a `Run` or `RunOnce` key.
pub fn registry_item(
    ctx: &RatingContext,
    source: &str,
    run_key: &str,
    approved_key: Option<&str>,
    value_name: &str,
    value_data: &str,
    approved_value: Option<&str>,
) -> (r: (StartupItem, ItemMeta))
    requires
        ctx.wf(),
    ensures
        ({
            let exe = spec_extract_exe(value_data@);
            let rule = ctx.spec_rule(value_name@, exe);
            let enabled = approved_enabled(opt_str_view(approved_value));
            let ban = spec_compute_ban_rate(rule_type_of(rule), enabled);
            let essential = spec_is_system_essential(
                rule_type_of(rule),
                source@,
                value_name@,
                string_views(ctx.ds_ark_white@),
            );
            let id = source@ + "_"@ + spec_sanitize_id(value_name@);
            &&& r.0.id@ == id
            &&& r.0.name@ == value_name@
            &&& r.0.desc@ == value_data@
            &&& r.0.icon@ == "app"@
            &&& r.0.ban_rate == ban
            &&& r.0.suggestion@ == spec_compute_suggestion(ban, essential)
            &&& r.0.enabled == enabled
            &&& r.0.source@ == source@
            &&& r.0.target@ == (match exe {
                Some(e) => e,
                None => value_data@,
            })
            &&& r.0.startup_time == (match exe {
                Some(e) => spec_lookup_startup_time(boot_views(ctx.boot@), Some(value_name@), Some(e)),
                None => None,
            })
            &&& r.0.ignored == ctx.ignore@.contains(id)
            &&& r.0.can_toggle
            &&& r.0.known is None
            &&& r.1 matches ItemMeta::Registry { run_key: rk, approved_key: ak, value_name: vn, command, essential: e }
                && rk@ == run_key@ && crate::service::opt_string_view(ak) == opt_str_view(approved_key) && vn@ == value_name@
                && command@ == value_data@ && e == essential
        }),
{
    let enabled = match approved_value {
        Some(v) => starts_with(&chars_of(v), &chars_of("02")),
        None => true,
    };
    let exe = extract_exe_from_command(value_data);
    let rule = match &exe {
        Some(e) => match_rule(&ctx.index, Some(value_name), Some(e.as_str())),
        None => match_rule(&ctx.index, Some(value_name), None),
    };
    let rt = rule_type_exec(&rule);
    let ban_rate = compute_ban_rate(rt, enabled);
    let essential = is_system_essential(rt, source, value_name, &ctx.ds_ark_white);
    let prefix = concat(source, "_");
    let id = concat(prefix.as_str(), sanitize_id(value_name).as_str());
    let startup_time = match &exe {
        Some(e) => lookup_startup_time(&ctx.boot, Some(value_name), Some(e.as_str())),
        None => None,
    };
    let target = match &exe {
        Some(e) => e.clone(),
        None => value_data.to_string(),
    };
    let meta = ItemMeta::Registry {
        run_key: run_key.to_string(),
        approved_key: match approved_key {
            Some(k) => Some(k.to_string()),
            None => None,
        },
        value_name: value_name.to_string(),
        command: value_data.to_string(),
        essential,
    };
    let ignored = ctx.ignore.contains(id.as_str());
    let item = StartupItem {
        id,
        name: value_name.to_string(),
        desc: value_data.to_string(),
        icon: "app",
        ban_rate,
        suggestion: compute_suggestion(ban_rate, essential),
        enabled,
        source: source.to_string(),
        target,
        startup_time,
        ignored,
        can_toggle: true,
        known: None,
    };
    (item, meta)
}

/// The item for a shortcut in a start-up folder.
pub fn startup_folder_item(ctx: &RatingContext, name: &str, path: &str, target: Option<&str>) -> (r: (
    StartupItem,
    ItemMeta,
))
    requires
        ctx.wf(),
    ensures
        ({
            let rule = ctx.spec_rule(name@, opt_str_view(target));
            let ban = spec_compute_ban_rate(rule_type_of(rule), true);
            let essential = spec_is_system_essential(
                rule_type_of(rule),
                "startup_folder"@,
                name@,
                string_views(ctx.ds_ark_white@),
            );
            let id = "startup_folder_"@ + spec_sanitize_id(name@);
            let shown = match target {
                Some(t) => t@,
                None => path@,
            };
            &&& r.0.id@ == id
            &&& r.0.name@ == name@
            &&& r.0.desc@ == shown
            &&& r.0.icon@ == "app"@
            &&& r.0.ban_rate == ban
            &&& r.0.suggestion@ == spec_compute_suggestion(ban, essential)
            &&& r.0.enabled
            &&& r.0.source@ == "startup_folder"@
            &&& r.0.target@ == shown
            &&& r.0.startup_time == (match target {
                Some(t) => spec_lookup_startup_time(boot_views(ctx.boot@), Some(name@), Some(t@)),
                None => None,
            })
            &&& r.0.ignored == ctx.ignore@.contains(id)
            &&& r.0.can_toggle
            &&& r.0.known is None
            &&& r.1 matches ItemMeta::StartupFolder { lnk_path, essential: e } && lnk_path@ == path@
                && e == essential
        }),
{
    let rule = match_rule(&ctx.index, Some(name), target);
    let rt = rule_type_exec(&rule);
    let ban_rate = compute_ban_rate(rt, true);
    let essential = is_system_essential(rt, "startup_folder", name, &ctx.ds_ark_white);
    let id = concat("startup_folder_", sanitize_id(name).as_str());
    let startup_time = match target {
        Some(t) => lookup_startup_time(&ctx.boot, Some(name), Some(t)),
        None => None,
    };
    let shown = match target {
        Some(t) => t.to_string(),
        None => path.to_string(),
    };
    let ignored = ctx.ignore.contains(id.as_str());
    let meta = ItemMeta::StartupFolder { lnk_path: path.to_string(), essential };
    let item = StartupItem {
        id,
        name: name.to_string(),
        desc: shown.clone(),
        icon: "app",
        ban_rate,
        suggestion: compute_suggestion(ban_rate, essential),
        enabled: true,
        source: "startup_folder".to_string(),
        target: shown,
        startup_time,
        ignored,
        can_toggle: true,
        known: None,
    };
    (item, meta)
}

} // verus!

verus! {

/// A scheduled task as `schtasks /query /fo csv /v` lists it.
pub struct ScheduledTask {
    pub name: String,
    pub command: String,
    pub creator: String,
    pub trigger: String,
    pub enabled: bool,
    pub is_microsoft: bool,
}

/// A task as a value: name, command, creator, trigger, enabled, from Microsoft.
pub type TaskView = (Seq<char>, Seq<char>, Seq<char>, Seq<char>, bool, bool);

pub open spec fn task_view(t: ScheduledTask) -> TaskView {
    (t.name@, t.command@, t.creator@, t.trigger@, t.enabled, t.is_microsoft)
}

/// A header names a column when it holds the Chinese name, or its lowercase
/// form holds the English one.
pub open spec fn header_matches(h: Seq<char>, zh: Seq<char>, en: Seq<char>) -> bool {
    contains_seq(h, zh) || contains_seq(lowercase_of(h), en)
}

/// The first column whose header matches, else `default`.
pub open spec fn column_index(headers: Seq<Seq<char>>, zh: Seq<char>, en: Seq<char>, default: int) -> int
    decreases headers.len(),
{
    if headers.len() == 0 {
        default
    } else if header_matches(headers[0], zh, en) {
        0
    } else {
        let rest = column_index(headers.drop_first(), zh, en, default - 1);
        rest + 1
    }
}

/// A row's cell, empty past its end.
pub open spec fn cell(row: Seq<Seq<char>>, i: int) -> Seq<char> {
    if 0 <= i < row.len() {
        row[i]
    } else {
        seq![]
    }
}

/// The columns of the name, state, command, author and schedule type.
pub open spec fn task_columns(headers: Seq<Seq<char>>) -> (int, int, int, int, int) {
    (
        column_index(headers, "任务名"@, "taskname"@, 0),
        column_index(headers, "计划任务状态"@, "scheduled task state"@, 1),
        column_index(headers, "要运行的任务"@, "task to run"@, 2),
        column_index(headers, "创建者"@, "author"@, 3),
        column_index(headers, "计划类型"@, "schedule type"@, 4),
    )
}

pub open spec fn task_of_row(row: Seq<Seq<char>>, c: (int, int, int, int, int)) -> TaskView {
    (
        cell(row, c.0),
        cell(row, c.2),
        cell(row, c.3),
        cell(row, c.4),
        !contains_seq(cell(row, c.1), "禁用"@),
        "\\Microsoft\\"@.is_prefix_of(cell(row, c.0)),
    )
}

/// A row is a task when its name is not empty and is not the header's
/// name repeated.
pub open spec fn row_kept(row: Seq<Seq<char>>, c: (int, int, int, int, int), header_name: Seq<char>) -> bool {
    cell(row, c.0).len() > 0 && !(header_name.len() > 0 && cell(row, c.0) == header_name)
}

/// The tasks in `schtasks` CSV output: none for blank output or output
/// without data rows; else every kept data row.
pub open spec fn spec_scheduled_tasks(output: Seq<char>) -> Seq<TaskView> {
    if trim_ws(output).len() == 0 {
        seq![]
    } else {
        let rows = spec_parse_csv(output);
        if rows.len() < 2 {
            seq![]
        } else {
            let c = task_columns(rows[0]);
            let hn = cell(rows[0], c.0);
            rows.skip(1).filter(|r: Seq<Seq<char>>| row_kept(r, c, hn)).map_values(
                |r: Seq<Seq<char>>| task_of_row(r, c),
            )
        }
    }
}

fn column_index_exec(headers: &Vec<String>, zh: &str, en: &str, default: usize) -> (r: usize)
    requires
        default <= 4,
    ensures
        r as int == column_index(string_views(headers@), zh@, en@, default as int),
{
    let ghost hs = string_views(headers@);
    let zc = chars_of(zh);
    let ec = chars_of(en);
    let mut i: usize = 0;
    assert(hs.skip(0) =~= hs);
    while i < headers.len()
        invariant
            i <= headers.len(),
            hs == string_views(headers@),
            zc@ == zh@,
            ec@ == en@,
            column_index(hs, zh@, en@, default as int) == column_index(
                hs.skip(i as int),
                zh@,
                en@,
                default - i,
            ) + i,
        decreases headers.len() - i,
    {
        assert(hs.skip(i as int)[0] == headers@[i as int]@);
        assert(hs.skip(i as int).drop_first() =~= hs.skip(i + 1));
        let h = chars_of(headers[i].as_str());
        if contains(&h, &zc) || contains(&lower_chars(&h), &ec) {
            return i;
        }
        i += 1;
    }
    assert(hs.skip(i as int).len() == 0);
    default
}

fn cell_exec(row: &Vec<String>, i: usize) -> (r: String)
    ensures
        r@ == cell(string_views(row@), i as int),
{
    if i < row.len() {
        row[i].clone()
    } else {
        String::new()
    }
}

fn task_of_row_exec(row: &Vec<String>, c: (usize, usize, usize, usize, usize)) -> (t: ScheduledTask)
    ensures
        task_view(t) == task_of_row(
            string_views(row@),
            (c.0 as int, c.1 as int, c.2 as int, c.3 as int, c.4 as int),
        ),
{
    let name = cell_exec(row, c.0);
    let status = cell_exec(row, c.1);
    let command = cell_exec(row, c.2);
    let creator = cell_exec(row, c.3);
    let trigger = cell_exec(row, c.4);
    let enabled = !contains(&chars_of(status.as_str()), &chars_of("禁用"));
    let is_microsoft = starts_with(&chars_of(name.as_str()), &chars_of("\\Microsoft\\"));
    ScheduledTask { name, command, creator, trigger, enabled, is_microsoft }
}

/// `list_scheduled_tasks`, once `schtasks` has answered: the tasks its CSV
/// output lists (see `spec_scheduled_tasks`).
pub fn scheduled_tasks_from_output(output: &str) -> (r: Vec<ScheduledTask>)
    ensures
        r@.map_values(|t: ScheduledTask| task_view(t)) == spec_scheduled_tasks(output@),
{
    let oc = chars_of(output);
    if trim(&oc).len() == 0 {
        let r: Vec<ScheduledTask> = Vec::new();
        assert(r@.map_values(|t: ScheduledTask| task_view(t)) =~= Seq::<TaskView>::empty());
        return r;
    }
    let rows = parse_csv(output);
    if rows.len() < 2 {
        let r: Vec<ScheduledTask> = Vec::new();
        assert(r@.map_values(|t: ScheduledTask| task_view(t)) =~= Seq::<TaskView>::empty());
        return r;
    }
    let headers = &rows[0];
    assert(rows_view(rows@)[0] == string_views(headers@));
    let c0 = column_index_exec(headers, "任务名", "taskname", 0);
    let c1 = column_index_exec(headers, "计划任务状态", "scheduled task state", 1);
    let c2 = column_index_exec(headers, "要运行的任务", "task to run", 2);
    let c3 = column_index_exec(headers, "创建者", "author", 3);
    let c4 = column_index_exec(headers, "计划类型", "schedule type", 4);
    let header_name = cell_exec(headers, c0);
    let hn = chars_of(header_name.as_str());
    let ghost allrows = rows_view(rows@);
    let ghost cols = (c0 as int, c1 as int, c2 as int, c3 as int, c4 as int);
    let ghost keep = |r: Seq<Seq<char>>| row_kept(r, cols, hn@);
    let ghost mk = |r: Seq<Seq<char>>| task_of_row(r, cols);
    assert(cols == task_columns(allrows[0]));
    let mut out: Vec<ScheduledTask> = Vec::new();
    let mut i: usize = 1;
    assert(allrows.skip(1).take(0) =~= Seq::<Seq<Seq<char>>>::empty());
    while i < rows.len()
        invariant
            1 <= i <= rows.len(),
            allrows == rows_view(rows@),
            cols == (c0 as int, c1 as int, c2 as int, c3 as int, c4 as int),
            keep == (|r: Seq<Seq<char>>| row_kept(r, cols, hn@)),
            mk == (|r: Seq<Seq<char>>| task_of_row(r, cols)),
            out@.map_values(|t: ScheduledTask| task_view(t)) == allrows.skip(1).take(i - 1).filter(
                keep,
            ).map_values(mk),
        decreases rows.len() - i,
    {
        let row = &rows[i];
        assert(allrows[i as int] == string_views(row@));
        let ghost pre = allrows.skip(1).take(i - 1);
        assert(allrows.skip(1).take(i as int) =~= pre.push(allrows[i as int]));
        proof {
            pre.lemma_filter_push(allrows[i as int], keep);
        }
        let ghost before = out@.map_values(|t: ScheduledTask| task_view(t));
        let ghost fp = pre.filter(keep);
        let name = cell_exec(row, c0);
        let nc = chars_of(name.as_str());
        let kept = nc.len() > 0 && !(hn.len() > 0 && seq_equal(&nc, &hn));
        if kept {
            assert(keep(allrows[i as int]));
            let t = task_of_row_exec(row, (c0, c1, c2, c3, c4));
            out.push(t);
            assert(out@.map_values(|t: ScheduledTask| task_view(t)) =~= before.push(
                mk(allrows[i as int]),
            ));
            assert(fp.push(allrows[i as int]).map_values(mk) =~= fp.map_values(mk).push(
                mk(allrows[i as int]),
            ));
        } else {
            assert(!keep(allrows[i as int]));
        }
        i += 1;
    }
    assert(allrows.skip(1).take(rows.len() - 1) =~= allrows.skip(1));
    out
}

} // verus!

verus! {

/// `_` and `-` shown as spaces.
pub open spec fn dashes_to_spaces(s: Seq<char>) -> Seq<char> {
    s.map_values(|c: char| if c == '_' || c == '-' { ' ' } else { c })
}

fn dashes_to_spaces_exec(s: &Vec<char>) -> (r: Vec<char>)
    ensures
        r@ == dashes_to_spaces(s@),
{
    let mut r: Vec<char> = Vec::new();
    let mut i: usize = 0;
    while i < s.len()
        invariant
            i <= s.len(),
            r@ == dashes_to_spaces(s@.take(i as int)),
        decreases s.len() - i,
    {
        let c = s[i];
        r.push(if c == '_' || c == '-' { ' ' } else { c });
        i += 1;
        assert(r@ =~= dashes_to_spaces(s@.take(i as int)));
    }
    assert(s@.take(s.len() as int) =~= s@);
    r
}

/// The stem of a file name: what stands before its last `.`, unless that
/// `.` is the first character or there is none.
pub open spec fn stem_of(n: Seq<char>) -> Seq<char> {
    if exists|d: int| 0 < d < n.len() && n[d] == '.' {
        let d = last_dot(n);
        n.take(d)
    } else {
        n
    }
}

pub open spec fn last_dot(n: Seq<char>) -> int {
    choose|d: int| 0 < d < n.len() && n[d] == '.' && forall|e: int| d < e < n.len() ==> n[e] != '.'
}

fn stem_exec(n: &Vec<char>) -> (r: Vec<char>)
    ensures
        r@ == stem_of(n@),
{
    let mut j: usize = n.len();
    while j > 1 && n[j - 1] != '.'
        invariant
            j <= n.len(),
            forall|e: int| j <= e < n.len() ==> n@[e] != '.',
        decreases j,
    {
        j -= 1;
    }
    if j <= 1 {
        assert(!(exists|d: int| 0 < d < n@.len() && n@[d] == '.'));
        return crate::text::slice_chars(n, 0, n.len());
    }
    let d = j - 1;
    let ghost sd = last_dot(n@);
    assert(n@[d as int] == '.');
    assert(sd == d as int) by {
        if sd < d {
        } else if sd > d {
        }
    }
    crate::text::slice_chars(n, 0, d)
}

/// The program's file stem with `_` and `-` as spaces, trimmed.
pub open spec fn pretty_exe_name(e: Seq<char>) -> Seq<char> {
    trim_ws(
        dashes_to_spaces(
            match crate::winpath::file_name_of(e) {
                Some(f) => stem_of(f),
                None => seq![],
            },
        ),
    )
}

/// A task's name without its leading `\`s, `_` and `-` as spaces, trimmed.
pub open spec fn clean_task_name(name: Seq<char>) -> Seq<char> {
    trim_ws(dashes_to_spaces(trim_start_char(name, '\\')))
}

/// A name that reads as a title: not empty, with an uppercase letter or a space.
pub open spec fn reads_as_title(p: Seq<char>) -> bool {
    p.len() > 0 && ((exists|i: int| 0 <= i < p.len() && crate::text::is_unicode_uppercase(
        #[trigger] p[i],
    )) || p.contains(' '))
}

/// The name a scheduled task is shown under: its program's pretty name when
/// that reads as a title, else its cleaned name.
pub open spec fn task_display_name(name: Seq<char>, exe: Option<Seq<char>>) -> Seq<char> {
    match exe {
        Some(e) => if reads_as_title(pretty_exe_name(e)) {
            pretty_exe_name(e)
        } else {
            clean_task_name(name)
        },
        None => clean_task_name(name),
    }
}

fn reads_as_title_exec(p: &Vec<char>) -> (r: bool)
    ensures
        r == reads_as_title(p@),
{
    if p.len() == 0 {
        return false;
    }
    let mut i: usize = 0;
    while i < p.len()
        invariant
            i <= p.len(),
            forall|k: int| 0 <= k < i ==> !crate::text::is_unicode_uppercase(#[trigger] p@[k]),
            forall|k: int| 0 <= k < i ==> p@[k] != ' ',
        decreases p.len() - i,
    {
        if crate::text::is_uppercase(p[i]) {
            return true;
        }
        if p[i] == ' ' {
            assert(p@[i as int] == ' ');
            return true;
        }
        i += 1;
    }
    false
}

fn task_display_name_exec(name: &str, exe: &Option<String>) -> (r: String)
    ensures
        r@ == task_display_name(
            name@,
            match exe {
                Some(e) => Some(e@),
                None => None,
            },
        ),
{
    let nc = chars_of(name);
    let clean = trim(&dashes_to_spaces_exec(&crate::text::trim_start_matches(&nc, '\\')));
    match exe {
        Some(e) => {
            let ec = chars_of(e.as_str());
            let stem = match crate::winpath::file_name_exec(&ec) {
                Some(f) => stem_exec(&f),
                None => Vec::new(),
            };
            let pretty = trim(&dashes_to_spaces_exec(&stem));
            if reads_as_title_exec(&pretty) {
                string_of(&pretty)
            } else {
                string_of(&clean)
            }
        },
        None => string_of(&clean),
    }
}

/// The trigger types a start-up task runs on (log-on or start-up).
pub open spec fn task_trigger_pattern() -> Seq<char> {
    "(?i)logon|start\\s*up|startup|登陆|启动"@
}

/// The item for a scheduled task: none for Microsoft's own tasks or tasks
/// that do not run at log-on or start-up.
pub fn scheduled_item(ctx: &RatingContext, task: &ScheduledTask) -> (r: Option<(StartupItem, ItemMeta)>)
    requires
        ctx.wf(),
    ensures
        (task.is_microsoft || !spec_regex_is_match(task_trigger_pattern(), task.trigger@)) <==> r
            is None,
        r matches Some(p) ==> {
            let exe = spec_extract_exe(task.command@);
            let rule = ctx.spec_rule(task.name@, exe);
            let ban = spec_compute_ban_rate(rule_type_of(rule), task.enabled);
            let essential = spec_is_system_essential(
                rule_type_of(rule),
                "scheduled_task"@,
                task.name@,
                string_views(ctx.ds_ark_white@),
            );
            let id = "scheduled_task_"@ + spec_sanitize_id(task.name@);
            &&& p.0.id@ == id
            &&& p.0.name@ == task_display_name(task.name@, exe)
            &&& p.0.desc@ == clean_task_name(task.name@)
            &&& p.0.icon@ == "task"@
            &&& p.0.ban_rate == ban
            &&& p.0.suggestion@ == spec_compute_suggestion(ban, essential)
            &&& p.0.enabled == task.enabled
            &&& p.0.source@ == "scheduled_task"@
            &&& p.0.target@ == (match exe {
                Some(e) => e,
                None => task.command@,
            })
            &&& p.0.startup_time == (match exe {
                Some(e) => spec_lookup_startup_time(boot_views(ctx.boot@), Some(task.name@), Some(e)),
                None => None,
            })
            &&& p.0.ignored == ctx.ignore@.contains(id)
            &&& p.0.can_toggle
            &&& p.0.known is None
            &&& p.1 matches ItemMeta::Task { task_name, essential: e } && task_name@ == task.name@
                && e == essential
        },
{
    if task.is_microsoft {
        return None;
    }
    if !regex_is_match("(?i)logon|start\\s*up|startup|登陆|启动", task.trigger.as_str()) {
        return None;
    }
    let name = task.name.as_str();
    let exe = extract_exe_from_command(task.command.as_str());
    let rule = match &exe {
        Some(e) => match_rule(&ctx.index, Some(name), Some(e.as_str())),
        None => match_rule(&ctx.index, Some(name), None),
    };
    let rt = rule_type_exec(&rule);
    let ban_rate = compute_ban_rate(rt, task.enabled);
    let essential = is_system_essential(rt, "scheduled_task", name, &ctx.ds_ark_white);
    let id = concat("scheduled_task_", sanitize_id(name).as_str());
    let nc = chars_of(name);
    let clean = string_of(&trim(&dashes_to_spaces_exec(&crate::text::trim_start_matches(&nc, '\\'))));
    let disp = task_display_name_exec(name, &exe);
    let startup_time = match &exe {
        Some(e) => lookup_startup_time(&ctx.boot, Some(name), Some(e.as_str())),
        None => None,
    };
    let target = match &exe {
        Some(e) => e.clone(),
        None => task.command.clone(),
    };
    let ignored = ctx.ignore.contains(id.as_str());
    let meta = ItemMeta::Task { task_name: task.name.clone(), essential };
    let item = StartupItem {
        id,
        name: disp,
        desc: clean,
        icon: "task",
        ban_rate,
        suggestion: compute_suggestion(ban_rate, essential),
        enabled: task.enabled,
        source: "scheduled_task".to_string(),
        target,
        startup_time,
        ignored,
        can_toggle: true,
        known: None,
    };
    Some((item, meta))
}

/// The item for a service: only services that start automatically are
/// listed. A service on the vendor's white list gets ban rate 0.
pub fn service_item(
    ctx: &RatingContext,
    name: &str,
    start_type: Option<&str>,
    start_type_code: Option<i32>,
    binary_path: Option<&str>,
) -> (r: Option<(StartupItem, ItemMeta)>)
    requires
        ctx.wf(),
    ensures
        opt_str_view(start_type) != Some("AUTO_START"@) <==> r is None,
        r matches Some(p) ==> {
            let exe_base = match binary_path {
                Some(b) => crate::winpath::file_name_of(b@),
                None => None,
            };
            let rule = ctx.spec_rule(name@, exe_base);
            let ban = spec_compute_ban_rate(rule_type_of(rule), true);
            let essential = spec_is_system_essential(
                rule_type_of(rule),
                "service"@,
                name@,
                string_views(ctx.ds_ark_white@),
            );
            let eff = if string_views(ctx.ds_ark_white@).contains(lowercase_of(name@)) {
                0
            } else {
                ban
            };
            let id = "service_"@ + spec_sanitize_id(name@);
            &&& p.0.id@ == id
            &&& p.0.name@ == name@
            &&& p.0.desc@ == (match binary_path {
                Some(b) => b@,
                None => "系统服务"@,
            })
            &&& p.0.icon@ == "service"@
            &&& p.0.ban_rate == eff
            &&& p.0.suggestion@ == spec_compute_suggestion(eff, essential)
            &&& p.0.enabled
            &&& p.0.source@ == "service"@
            &&& p.0.target@ == (match binary_path {
                Some(b) => b@,
                None => name@,
            })
            &&& p.0.startup_time == (match boot_find(boot_views(ctx.boot@), name@) {
                Some(v) => v,
                None => None,
            })
            &&& p.0.ignored == ctx.ignore@.contains(id)
            &&& p.0.can_toggle
            &&& p.0.known is None
            &&& p.1 matches ItemMeta::Service { service_name, essential: e, start_type_code: c }
                && service_name@ == name@ && e == essential && c == (match start_type_code {
                Some(x) => x,
                None => 0i32,
            })
        },
{
    let auto = match start_type {
        Some(s) => crate::clean_executor::str_eq(s, "AUTO_START"),
        None => false,
    };
    if !auto {
        return None;
    }
    let exe_base = match binary_path {
        Some(b) => crate::winpath::file_name_exec(&chars_of(b)),
        None => None,
    };
    let exe_str = match &exe_base {
        Some(f) => Some(string_of(f)),
        None => None,
    };
    let rule = match &exe_str {
        Some(e) => match_rule(&ctx.index, Some(name), Some(e.as_str())),
        None => match_rule(&ctx.index, Some(name), None),
    };
    let rt = rule_type_exec(&rule);
    let ban_rate = compute_ban_rate(rt, true);
    let essential = is_system_essential(rt, "service", name, &ctx.ds_ark_white);
    let lower = to_lowercase(name);
    let is_ds_ark = contains_string(&ctx.ds_ark_white, &chars_of(lower.as_str()));
    let eff: u32 = if is_ds_ark { 0 } else { ban_rate };
    let id = concat("service_", sanitize_id(name).as_str());
    let startup_time = match boot_find_exec(&ctx.boot, &chars_of(name), false, false) {
        Some(v) => v,
        None => None,
    };
    let ignored = ctx.ignore.contains(id.as_str());
    let meta = ItemMeta::Service {
        service_name: name.to_string(),
        essential,
        start_type_code: match start_type_code {
            Some(x) => x,
            None => 0,
        },
    };
    let item = StartupItem {
        id,
        name: name.to_string(),
        desc: match binary_path {
            Some(b) => b.to_string(),
            None => "系统服务".to_string(),
        },
        icon: "service",
        ban_rate: eff,
        suggestion: compute_suggestion(eff, essential),
        enabled: true,
        source: "service".to_string(),
        target: match binary_path {
            Some(b) => b.to_string(),
            None => name.to_string(),
        },
        startup_time,
        ignored,
        can_toggle: true,
        known: None,
    };
    Some((item, meta))
}

} // verus!

verus! {

/// A registry value as `reg query` lists it: its name and its data.
pub struct RegValue {
    pub name: String,
    pub value: String,
}

pub open spec fn reg_views(v: Seq<RegValue>) -> Seq<(Seq<char>, Seq<char>)> {
    v.map_values(|x: RegValue| (x.name@, x.value@))
}

/// The data of the first value whose name is a default-value name.
pub open spec fn spec_default_value(v: Seq<(Seq<char>, Seq<char>)>) -> Option<Seq<char>>
    decreases v.len(),
{
    if v.len() == 0 {
        None
    } else if spec_is_default_value_name(v[0].0) {
        Some(v[0].1)
    } else {
        spec_default_value(v.drop_first())
    }
}

pub fn default_value(vals: &Vec<RegValue>) -> (r: Option<String>)
    ensures
        crate::service::opt_string_view(r) == spec_default_value(reg_views(vals@)),
{
    let ghost all = reg_views(vals@);
    let mut i: usize = 0;
    assert(all.skip(0) =~= all);
    while i < vals.len()
        invariant
            i <= vals.len(),
            all == reg_views(vals@),
            spec_default_value(all) == spec_default_value(all.skip(i as int)),
        decreases vals.len() - i,
    {
        assert(all.skip(i as int)[0] == (vals@[i as int].name@, vals@[i as int].value@));
        assert(all.skip(i as int).drop_first() =~= all.skip(i + 1));
        if is_default_value_name(vals[i].name.as_str()) {
            return Some(vals[i].value.clone());
        }
        i += 1;
    }
    assert(all.skip(i as int).len() == 0);
    None
}

/// What a COM class's key says of it: its name (the last non-empty default
/// value) and its server (the last `InprocServer32` or `LocalServer32`).
pub struct ClsidInfo {
    pub component_name: Option<String>,
    pub dll_path: Option<String>,
}

pub open spec fn clsid_info_of(v: Seq<(Seq<char>, Seq<char>)>) -> (Option<Seq<char>>, Option<Seq<char>>)
    decreases v.len(),
{
    if v.len() == 0 {
        (None, None)
    } else {
        let prev = clsid_info_of(v.drop_last());
        let x = v.last();
        (
            if spec_is_default_value_name(x.0) && x.1.len() > 0 {
                Some(x.1)
            } else {
                prev.0
            },
            if x.0 == "InprocServer32"@ || x.0 == "LocalServer32"@ {
                Some(x.1)
            } else {
                prev.1
            },
        )
    }
}

/// `resolve_clsid_info`, once the class's key has been read (`vals`):
/// nothing for an empty class id.
pub fn clsid_info(clsid: &str, vals: &Vec<RegValue>) -> (r: ClsidInfo)
    ensures
        (crate::service::opt_string_view(r.component_name), crate::service::opt_string_view(
            r.dll_path,
        )) == (if clsid@.len() == 0 {
            (None, None)
        } else {
            clsid_info_of(reg_views(vals@))
        }),
{
    let cc = chars_of(clsid);
    if cc.len() == 0 {
        return ClsidInfo { component_name: None, dll_path: None };
    }
    let mut component_name: Option<String> = None;
    let mut dll_path: Option<String> = None;
    let mut i: usize = 0;
    while i < vals.len()
        invariant
            i <= vals.len(),
            (crate::service::opt_string_view(component_name), crate::service::opt_string_view(
                dll_path,
            )) == clsid_info_of(reg_views(vals@.take(i as int))),
        decreases vals.len() - i,
    {
        assert(reg_views(vals@.take(i + 1)).drop_last() =~= reg_views(vals@.take(i as int)));
        let v = &vals[i];
        if is_default_value_name(v.name.as_str()) && chars_of(v.value.as_str()).len() > 0 {
            component_name = Some(v.value.clone());
        }
        if crate::clean_executor::str_eq(v.name.as_str(), "InprocServer32")
            || crate::clean_executor::str_eq(v.name.as_str(), "LocalServer32") {
            dll_path = Some(v.value.clone());
        }
        i += 1;
    }
    assert(vals@.take(vals.len() as int) =~= vals@);
    ClsidInfo { component_name, dll_path }
}

/// The item for a context-menu handler `h` under the key `loc`, whose
/// default value names the class `clsid`; it is known when the vendor's
/// list (lowercase) holds that class.
pub fn cmh_item(
    ignore: &StringSet,
    known_set: &Vec<String>,
    loc: &str,
    h: &str,
    clsid: Option<&str>,
    info: &ClsidInfo,
) -> (r: (StartupItem, ItemMeta))
    ensures
        ({
            let known = clsid is Some && string_views(known_set@).contains(
                lowercase_of(clsid->0@),
            );
            let id = "cmh_"@ + spec_sanitize_id(loc@) + "_"@ + spec_sanitize_id(h@);
            let cl = match clsid {
                Some(c) => c@,
                None => seq![],
            };
            &&& r.0.id@ == id
            &&& r.0.name@ == (match info.component_name {
                Some(n) => n@,
                None => h@,
            })
            &&& r.0.desc@ == (match info.dll_path {
                Some(d) => d@,
                None => h@ + " · "@ + cl,
            })
            &&& r.0.icon@ == "shell"@
            &&& r.0.ban_rate == (if known {
                5u32
            } else {
                45u32
            })
            &&& r.0.suggestion@ == (if known {
                "建议开启"@
            } else {
                "维持现状"@
            })
            &&& r.0.enabled
            &&& r.0.source@ == "contextmenu"@
            &&& r.0.target@ == (match info.dll_path {
                Some(d) => d@,
                None => match clsid {
                    Some(c) => c@,
                    None => h@,
                },
            })
            &&& r.0.startup_time is None
            &&& r.0.ignored == ignore@.contains(id)
            &&& r.0.can_toggle
            &&& r.0.known == Some(known)
            &&& r.1 matches ItemMeta::Cmh { key, clsid: c, name } && key@ == loc@ + "\\"@ + h@
                && crate::service::opt_string_view(c) == opt_str_view(clsid) && name@ == h@
        }),
{
    let known = match clsid {
        Some(c) => {
            let l = to_lowercase(c);
            contains_string(known_set, &chars_of(l.as_str()))
        },
        None => false,
    };
    let a = concat("cmh_", sanitize_id(loc).as_str());
    let b = concat(a.as_str(), "_");
    let id = concat(b.as_str(), sanitize_id(h).as_str());
    let cl: &str = match clsid {
        Some(c) => c,
        None => "",
    };
    proof {
        reveal_strlit("");
    }
    assert(cl@ == (match clsid {
        Some(c) => c@,
        None => Seq::<char>::empty(),
    }));
    let name = match &info.component_name {
        Some(n) => n.clone(),
        None => h.to_string(),
    };
    let desc = match &info.dll_path {
        Some(d) => d.clone(),
        None => {
            let x = concat(h, " · ");
            concat(x.as_str(), cl)
        },
    };
    let target = match &info.dll_path {
        Some(d) => d.clone(),
        None => match clsid {
            Some(c) => c.to_string(),
            None => h.to_string(),
        },
    };
    let key = concat(concat(loc, "\\").as_str(), h);
    let ignored = ignore.contains(id.as_str());
    let meta = ItemMeta::Cmh {
        key,
        clsid: match clsid {
            Some(c) => Some(c.to_string()),
            None => None,
        },
        name: h.to_string(),
    };
    let item = StartupItem {
        id,
        name,
        desc,
        icon: "shell",
        ban_rate: if known { 5 } else { 45 },
        suggestion: if known { "建议开启" } else { "维持现状" },
        enabled: true,
        source: "contextmenu".to_string(),
        target,
        startup_time: None,
        ignored,
        can_toggle: true,
        known: Some(known),
    };
    (item, meta)
}

/// The item for a namespace extension of class `g` under the key `loc`
/// (`info` read from the class's key); known when the vendor's list
/// (lowercase) holds the class.
pub fn explorer_plugin_item(
    ignore: &StringSet,
    known_set: &Vec<String>,
    loc: &str,
    g: &str,
    info: &ClsidInfo,
) -> (r: (StartupItem, ItemMeta))
    ensures
        ({
            let known = string_views(known_set@).contains(lowercase_of(g@));
            let id = "explorerplugin_"@ + spec_sanitize_id(g@);
            let shown = match info.component_name {
                Some(n) => n@,
                None => g@,
            };
            let dll = match info.dll_path {
                Some(d) => d@,
                None => g@,
            };
            &&& r.0.id@ == id
            &&& r.0.name@ == shown
            &&& r.0.desc@ == dll
            &&& r.0.icon@ == "plugin"@
            &&& r.0.ban_rate == (if known {
                10u32
            } else {
                50u32
            })
            &&& r.0.suggestion@ == (if known {
                "建议开启"@
            } else {
                "维持现状"@
            })
            &&& r.0.enabled
            &&& r.0.source@ == "explorerplugin"@
            &&& r.0.target@ == dll
            &&& r.0.startup_time is None
            &&& r.0.ignored == ignore@.contains(id)
            &&& r.0.can_toggle
            &&& r.0.known == Some(known)
            &&& r.1 matches ItemMeta::ExplorerPlugin { ns_key, display_name, clsid } && ns_key@
                == loc@ + "\\"@ + g@ && display_name@ == shown && clsid@ == g@
        }),
{
    let l = to_lowercase(g);
    let known = contains_string(known_set, &chars_of(l.as_str()));
    let id = concat("explorerplugin_", sanitize_id(g).as_str());
    let shown = match &info.component_name {
        Some(n) => n.clone(),
        None => g.to_string(),
    };
    let dll = match &info.dll_path {
        Some(d) => d.clone(),
        None => g.to_string(),
    };
    let ns_key = concat(concat(loc, "\\").as_str(), g);
    let ignored = ignore.contains(id.as_str());
    let meta = ItemMeta::ExplorerPlugin {
        ns_key,
        display_name: shown.clone(),
        clsid: g.to_string(),
    };
    let item = StartupItem {
        id,
        name: shown,
        desc: dll.clone(),
        icon: "plugin",
        ban_rate: if known { 10 } else { 50 },
        suggestion: if known { "建议开启" } else { "维持现状" },
        enabled: true,
        source: "explorerplugin".to_string(),
        target: dll,
        startup_time: None,
        ignored,
        can_toggle: true,
        known: Some(known),
    };
    (item, meta)
}

} // verus!

verus! {

/// How a start-up list is ordered.
pub enum SortOrder {
    /// Enabled items first, then by ban rate, highest first.
    EnabledThenBanRate,
    /// Known items first, then by ban rate, highest first.
    KnownThenBanRate,
    /// By ban rate, highest first.
    BanRate,
}

/// The rank an item sorts by: smaller comes first.
pub open spec fn sort_key(it: StartupItem, order: SortOrder) -> int {
    let first: int = match order {
        SortOrder::EnabledThenBanRate => if it.enabled {
            0
        } else {
            1
        },
        SortOrder::KnownThenBanRate => if it.known == Some(true) {
            0
        } else {
            1
        },
        SortOrder::BanRate => 0,
    };
    first * 0x1_0000_0000 + (0xFFFF_FFFF - it.ban_rate)
}

fn sort_key_exec(it: &StartupItem, order: &SortOrder) -> (k: u64)
    ensures
        k == sort_key(*it, *order),
{
    let first: u64 = match order {
        SortOrder::EnabledThenBanRate => if it.enabled {
            0
        } else {
            1
        },
        SortOrder::KnownThenBanRate => if it.known == Some(true) {
            0
        } else {
            1
        },
        SortOrder::BanRate => 0,
    };
    first * 0x1_0000_0000 + (0xFFFF_FFFFu64 - it.ban_rate as u64)
}

pub open spec fn key_is(order: SortOrder, k: int) -> spec_fn(StartupItem) -> bool {
    |y: StartupItem| sort_key(y, order) == k
}

pub open spec fn sorted_by_key(s: Seq<StartupItem>, order: SortOrder) -> bool {
    forall|i: int, j: int| 0 <= i < j < s.len() ==> sort_key(s[i], order) <= sort_key(s[j], order)
}

proof fn lemma_insert_filter(s: Seq<StartupItem>, p: int, x: StartupItem, order: SortOrder, k: int)
    requires
        0 <= p <= s.len(),
        forall|i: int| p <= i < s.len() ==> sort_key(s[i], order) > sort_key(x, order),
    ensures
        s.insert(p, x).filter(key_is(order, k)) == (if sort_key(x, order) == k {
            s.filter(key_is(order, k)).push(x)
        } else {
            s.filter(key_is(order, k))
        }),
{
    let pred = key_is(order, k);
    let a = s.take(p);
    let b = s.skip(p);
    assert(s =~= a + b);
    assert(s.insert(p, x) =~= (a + seq![x]) + b);
    Seq::filter_distributes_over_add(a + seq![x], b, pred);
    Seq::filter_distributes_over_add(a, seq![x], pred);
    Seq::filter_distributes_over_add(a, b, pred);
    assert(seq![x].filter(pred) == (if pred(x) {
        seq![x]
    } else {
        Seq::<StartupItem>::empty()
    })) by {
        Seq::<StartupItem>::empty().lemma_filter_push(x, pred);
        assert(Seq::<StartupItem>::empty().push(x) =~= seq![x]);
        assert(Seq::<StartupItem>::empty().filter(pred) =~= Seq::<StartupItem>::empty()) by {
            reveal(Seq::filter);
        }
    }
    if sort_key(x, order) == k {
        assert(b.all(|y: StartupItem| !pred(y)));
        b.lemma_all_neg_filter_empty(pred);
        assert(b.filter(pred) =~= Seq::<StartupItem>::empty());
        assert(a.filter(pred) + seq![x] =~= a.filter(pred).push(x));
    } else {
        assert(a.filter(pred) + Seq::<StartupItem>::empty() =~= a.filter(pred));
    }
}

/// `sort_by` over a start-up list: ordered by `sort_key`, and stable —
/// for every rank, the items of that rank keep their order.
pub fn sort_items(items: Vec<StartupItem>, order: SortOrder) -> (r: Vec<StartupItem>)
    ensures
        sorted_by_key(r@, order),
        forall|k: int| #[trigger] r@.filter(key_is(order, k)) == items@.filter(key_is(order, k)),
        r@.len() == items@.len(),
{
    let ghost orig = items@;
    let total = items.len();
    let mut rest = items;
    let mut out: Vec<StartupItem> = Vec::new();
    let mut n: usize = 0;
    proof {
        assert forall|k: int| #[trigger] out@.filter(key_is(order, k)) == orig.take(0).filter(
            key_is(order, k),
        ) by {
            assert(out@ =~= orig.take(0));
        }
    }
    while rest.len() > 0
        invariant
            n <= orig.len(),
            orig.len() == total,
            rest@ == orig.skip(n as int),
            out@.len() == n,
            sorted_by_key(out@, order),
            forall|k: int| #[trigger] out@.filter(key_is(order, k)) == orig.take(n as int).filter(
                key_is(order, k),
            ),
        decreases rest.len(),
    {
        let x = rest.remove(0);
        assert(x == orig[n as int]);
        let kx = sort_key_exec(&x, &order);
        let mut p: usize = 0;
        while p < out.len() && sort_key_exec(&out[p], &order) <= kx
            invariant
                p <= out.len(),
                forall|i: int| 0 <= i < p ==> sort_key(out@[i], order) <= kx,
            decreases out.len() - p,
        {
            p += 1;
        }
        let ghost before = out@;
        assert(forall|i: int| p <= i < before.len() ==> sort_key(before[i], order) > kx) by {
            assert forall|i: int| p <= i < before.len() implies sort_key(before[i], order) > kx by {
                if p < before.len() {
                    assert(sort_key(before[p as int], order) > kx);
                }
            }
        }
        out.insert(p, x);
        proof {
            assert forall|k: int| #[trigger] out@.filter(key_is(order, k)) == orig.take(
                n + 1,
            ).filter(key_is(order, k)) by {
                lemma_insert_filter(before, p as int, x, order, k);
                assert(orig.take(n + 1) =~= orig.take(n as int).push(x));
                orig.take(n as int).lemma_filter_push(x, key_is(order, k));
            }
            assert forall|i: int, j: int| 0 <= i < j < out@.len() implies sort_key(out@[i], order)
                <= sort_key(out@[j], order) by {
                let ii = if i < p {
                    i
                } else if i == p {
                    -1
                } else {
                    i - 1
                };
                let jj = if j < p {
                    j
                } else if j == p {
                    -1
                } else {
                    j - 1
                };
                if ii >= 0 && jj >= 0 {
                    assert(out@[i] == before[ii] && out@[j] == before[jj]);
                }
            }
        }
        n += 1;
        assert(rest@ =~= orig.skip(n as int));
    }
    assert(orig.take(n as int) =~= orig);
    out
}

} // verus!

verus! {

/// Where the last named component of `p.take(j)` ends: trailing separators
/// and `.` components are passed over, never reaching below `lo` (the end
/// of a drive designator).
pub open spec fn name_end(p: Seq<char>, j: int, lo: int) -> int
    decreases j,
{
    if j <= lo || j <= 0 || j > p.len() {
        j
    } else if crate::winpath::is_sep(p[j - 1]) {
        name_end(p, j - 1, lo)
    } else if p[j - 1] == '.' && (j - 1 == lo || crate::winpath::is_sep(p[j - 2])) {
        name_end(p, j - 1, lo)
    } else {
        j
    }
}

/// Where the component ending at `j` starts.
pub open spec fn name_start(p: Seq<char>, j: int, lo: int) -> int
    decreases j,
{
    if j <= lo || j <= 0 || j > p.len() || crate::winpath::is_sep(p[j - 1]) {
        j
    } else {
        name_start(p, j - 1, lo)
    }
}

/// `PathBuf::with_extension`: the path cut after the stem of its file name,
/// then `.` and `ext`; a path without a file name (or whose last component
/// is `..`) is left as it is.
pub open spec fn spec_with_extension(p: Seq<char>, ext: Seq<char>) -> Seq<char> {
    let lo: int = if crate::winpath::has_drive(p) {
        2
    } else {
        0
    };
    let e = name_end(p, p.len() as int, lo);
    let s = name_start(p, e, lo);
    let name = p.subrange(s, e);
    if name.len() == 0 || name == crate::winpath::dotdot() {
        p
    } else {
        p.take(s) + stem_of(name) + seq!['.'] + ext
    }
}

pub fn with_extension(p: &str, ext: &str) -> (r: String)
    ensures
        r@ == spec_with_extension(p@, ext@),
{
    let pc = chars_of(p);
    let lo: usize = if crate::winpath::has_drive_exec(&pc) {
        2
    } else {
        0
    };
    let mut e: usize = pc.len();
    assert(name_end(pc@, pc@.len() as int, lo as int) == name_end(pc@, e as int, lo as int));
    while e > lo && (crate::winpath::is_sep_char(pc[e - 1]) || (pc[e - 1] == '.' && (e - 1 == lo
        || crate::winpath::is_sep_char(pc[e - 2]))))
        invariant
            lo <= pc.len(),
            e <= pc.len(),
            name_end(pc@, pc@.len() as int, lo as int) == name_end(pc@, e as int, lo as int),
        decreases e,
    {
        e -= 1;
    }
    let mut s: usize = e;
    while s > lo && !crate::winpath::is_sep_char(pc[s - 1])
        invariant
            s <= e <= pc.len(),
            name_start(pc@, e as int, lo as int) == name_start(pc@, s as int, lo as int),
        decreases s,
    {
        s -= 1;
    }
    let name = crate::text::slice_chars(&pc, s, e);
    if name.len() == 0 || (name.len() == 2 && name[0] == '.' && name[1] == '.') {
        if name.len() == 2 {
            assert(name@ =~= crate::winpath::dotdot());
        }
        return p.to_string();
    }
    assert(name@ != crate::winpath::dotdot()) by {
        if name@ == crate::winpath::dotdot() {
            assert(name@[0] == '.' && name@[1] == '.');
        }
    }
    let mut r = crate::text::slice_chars(&pc, 0, s);
    assert(r@ =~= pc@.take(s as int));
    crate::text::append_chars(&mut r, &stem_exec(&name));
    r.push('.');
    crate::text::append_chars(&mut r, &chars_of(ext));
    string_of(&r)
}

/// What a start-up action answers: success, an optional exit code, and a
/// message.
pub struct OpReply {
    pub ok: bool,
    pub code: Option<i64>,
    pub message: Option<String>,
}

pub open spec fn reply_is(r: OpReply, ok: bool, code: Option<i64>, message: Option<Seq<char>>) -> bool {
    r.ok == ok && r.code == code && crate::service::opt_string_view(r.message) == message
}

fn reply(ok: bool, code: Option<i64>, message: &str) -> (r: OpReply)
    ensures
        reply_is(r, ok, code, Some(message@)),
{
    OpReply { ok, code, message: Some(message.to_string()) }
}

/// The answer to an item id that no list has produced.
pub open spec fn unknown_item_message(item_id: Seq<char>) -> Seq<char> {
    "unknown item: "@ + item_id
}

/// The reply to an item id that no list has produced.
pub fn unknown_item(item_id: &str) -> (r: OpReply)
    ensures
        reply_is(r, false, None, Some(unknown_item_message(item_id@))),
{
    let m = concat("unknown item: ", item_id);
    OpReply { ok: false, code: None, message: Some(m) }
}

/// A command's outcome as a reply: its output with code 0, or its error
/// with code 1.
pub fn command_reply(result: &Result<String, String>) -> (r: OpReply)
    ensures
        match result {
            Ok(out) => reply_is(r, true, Some(0), Some(out@)),
            Err(e) => reply_is(r, false, Some(1), Some(e@)),
        },
{
    match result {
        Ok(out) => reply(true, Some(0), out.as_str()),
        Err(e) => reply(false, Some(1), e.as_str()),
    }
}

/// The `StartupApproved` data that marks an item enabled, and disabled.
pub open spec fn approved_hex(enabled: bool) -> Seq<char> {
    if enabled {
        "02000000000000000000"@
    } else {
        "03000000000000000000"@
    }
}

/// What enabling or disabling an item takes.
pub enum ToggleAction {
    Reply(OpReply),
    /// Create `key` if need be, then write `hex` as the binary value `value_name`.
    SetApproved { key: String, value_name: String, hex: &'static str },
    /// Set the service's start type (`Auto`, `Manual` or `Disabled`).
    SetServiceStartType { service_name: String, start_type: &'static str },
    /// `schtasks /Change /TN name` with `/ENABLE` or `/DISABLE`.
    ChangeTask { task_name: String, flag: &'static str },
    /// Rename the shortcut to or from its disabled name.
    RenameShortcut { enable: bool, lnk_path: String, disabled_path: String },
    /// Create `key` if need be, then write `data` as its default value.
    WriteDefault { key: String, data: String },
    /// `reg delete key /f`.
    DeleteKey { key: String },
}

/// `toggle`: what enabling (or disabling) the item with this id takes. An
/// unknown id and disabling a system component are refused; a `RunOnce`
/// value cannot be toggled. A service is re-enabled with the start type it
/// had (`Manual` for demand start, else `Auto`).
pub fn plan_toggle(meta: Option<&ItemMeta>, item_id: &str, enabled: bool) -> (r: ToggleAction)
    ensures
        meta is None ==> (r matches ToggleAction::Reply(rp) && reply_is(
            rp,
            false,
            None,
            Some(unknown_item_message(item_id@)),
        )),
        meta matches Some(m) ==> (m.spec_essential() && !enabled ==> (r matches ToggleAction::Reply(
            rp,
        ) && reply_is(rp, false, None, Some("系统关键组件，禁止禁用"@)))),
        meta matches Some(m) ==> !(m.spec_essential() && !enabled) ==> match *m {
            ItemMeta::Registry { approved_key, value_name, .. } => match approved_key {
                None => r matches ToggleAction::Reply(rp) && reply_is(
                    rp,
                    false,
                    None,
                    Some("runonce items cannot be toggled"@),
                ),
                Some(ak) => r matches ToggleAction::SetApproved { key, value_name: vn, hex }
                    && key@ == ak@ && vn@ == value_name@ && hex@ == approved_hex(enabled),
            },
            ItemMeta::Service { service_name, start_type_code, .. } => r
                matches ToggleAction::SetServiceStartType { service_name: sn, start_type }
                && sn@ == service_name@ && start_type@ == (if !enabled {
                "Disabled"@
            } else if start_type_code == 3 {
                "Manual"@
            } else {
                "Auto"@
            }),
            ItemMeta::Task { task_name, .. } => r matches ToggleAction::ChangeTask { task_name: tn, flag }
                && tn@ == task_name@ && flag@ == (if enabled {
                "/ENABLE"@
            } else {
                "/DISABLE"@
            }),
            ItemMeta::StartupFolder { lnk_path, .. } => r matches ToggleAction::RenameShortcut {
                enable,
                lnk_path: lp,
                disabled_path,
            } && enable == enabled && lp@ == lnk_path@ && disabled_path@ == spec_with_extension(
                lnk_path@,
                "lnk.disabled"@,
            ),
            ItemMeta::Cmh { key, clsid, .. } => if enabled {
                r matches ToggleAction::WriteDefault { key: k, data } && k@ == key@ && data@
                    == (match clsid {
                    Some(c) => c@,
                    None => seq![],
                })
            } else {
                r matches ToggleAction::DeleteKey { key: k } && k@ == key@
            },
            ItemMeta::ExplorerPlugin { ns_key, display_name, .. } => if enabled {
                r matches ToggleAction::WriteDefault { key: k, data } && k@ == ns_key@ && data@
                    == display_name@
            } else {
                r matches ToggleAction::DeleteKey { key: k } && k@ == ns_key@
            },
        },
{
    let m = match meta {
        Some(m) => m,
        None => {
            let msg = concat("unknown item: ", item_id);
            return ToggleAction::Reply(OpReply { ok: false, code: None, message: Some(msg) });
        },
    };
    if m.essential() && !enabled {
        return ToggleAction::Reply(reply(false, None, "系统关键组件，禁止禁用"));
    }
    match m {
        ItemMeta::Registry { approved_key, value_name, .. } => match approved_key {
            None => ToggleAction::Reply(reply(false, None, "runonce items cannot be toggled")),
            Some(ak) => ToggleAction::SetApproved {
                key: ak.clone(),
                value_name: value_name.clone(),
                hex: if enabled {
                    "02000000000000000000"
                } else {
                    "03000000000000000000"
                },
            },
        },
        ItemMeta::Service { service_name, start_type_code, .. } => {
            let restore: &'static str = if *start_type_code == 3 {
                "Manual"
            } else {
                "Auto"
            };
            ToggleAction::SetServiceStartType {
                service_name: service_name.clone(),
                start_type: if enabled {
                    restore
                } else {
                    "Disabled"
                },
            }
        },
        ItemMeta::Task { task_name, .. } => ToggleAction::ChangeTask {
            task_name: task_name.clone(),
            flag: if enabled {
                "/ENABLE"
            } else {
                "/DISABLE"
            },
        },
        ItemMeta::StartupFolder { lnk_path, .. } => ToggleAction::RenameShortcut {
            enable: enabled,
            lnk_path: lnk_path.clone(),
            disabled_path: with_extension(lnk_path.as_str(), "lnk.disabled"),
        },
        ItemMeta::Cmh { key, clsid, .. } => if enabled {
            proof {
                reveal_strlit("");
            }
            ToggleAction::WriteDefault {
                key: key.clone(),
                data: match clsid {
                    Some(c) => c.clone(),
                    None => String::new(),
                },
            }
        } else {
            ToggleAction::DeleteKey { key: key.clone() }
        },
        ItemMeta::ExplorerPlugin { ns_key, display_name, .. } => if enabled {
            ToggleAction::WriteDefault { key: ns_key.clone(), data: display_name.clone() }
        } else {
            ToggleAction::DeleteKey { key: ns_key.clone() }
        },
    }
}

/// What renaming a shortcut comes to once it is known which of its two
/// names exists.
pub enum ShortcutStep {
    /// Rename `from` (the `.lnk`, or the disabled name) to the other name.
    Rename { from_lnk: bool },
    /// Nothing to do: the reply is `ok`.
    Done,
    /// The shortcut to disable is missing.
    NotFound,
}

/// Enabling renames the disabled shortcut back when it exists (else there
/// is nothing to do); disabling renames the shortcut when it exists (else it
/// is not found).
pub fn shortcut_step(enable: bool, lnk_exists: bool, disabled_exists: bool) -> (r: ShortcutStep)
    ensures
        enable && disabled_exists ==> (r matches ShortcutStep::Rename { from_lnk } && !from_lnk),
        enable && !disabled_exists ==> r is Done,
        !enable && lnk_exists ==> (r matches ShortcutStep::Rename { from_lnk } && from_lnk),
        !enable && !lnk_exists ==> r is NotFound,
{
    if enable {
        if disabled_exists {
            ShortcutStep::Rename { from_lnk: false }
        } else {
            ShortcutStep::Done
        }
    } else if lnk_exists {
        ShortcutStep::Rename { from_lnk: true }
    } else {
        ShortcutStep::NotFound
    }
}

} // verus!

verus! {

/// What removing an item takes first.
pub enum RemoveAction {
    Reply(OpReply),
    /// Delete the value `value_name` of the `Run` key `key`.
    DeleteRegValue { key: String, value_name: String },
    /// `schtasks /Delete /TN name /F`.
    DeleteTask { task_name: String },
    /// Delete each of these files that exists; the reply is `ok`.
    DeleteShortcut { paths: Vec<String> },
    /// `reg delete key /f`.
    DeleteKey { key: String },
}

/// `remove`: what removing the item with this id takes. An unknown id and
/// system components are refused, and services cannot be removed (only
/// disabled). A shortcut is removed under both its names.
pub fn plan_remove(meta: Option<&ItemMeta>, item_id: &str) -> (r: RemoveAction)
    ensures
        meta is None ==> (r matches RemoveAction::Reply(rp) && reply_is(
            rp,
            false,
            None,
            Some(unknown_item_message(item_id@)),
        )),
        meta matches Some(m) ==> (m.spec_essential() ==> (r matches RemoveAction::Reply(rp)
            && reply_is(rp, false, None, Some("系统关键组件，禁止删除"@)))),
        meta matches Some(m) ==> !m.spec_essential() ==> match *m {
            ItemMeta::Registry { run_key, value_name, .. } => r matches RemoveAction::DeleteRegValue {
                key,
                value_name: vn,
            } && key@ == run_key@ && vn@ == value_name@,
            ItemMeta::Task { task_name, .. } => r matches RemoveAction::DeleteTask { task_name: tn }
                && tn@ == task_name@,
            ItemMeta::StartupFolder { lnk_path, .. } => r matches RemoveAction::DeleteShortcut {
                paths,
            } && paths@.len() == 2 && paths@[0]@ == lnk_path@ && paths@[1]@ == spec_with_extension(
                lnk_path@,
                "lnk.disabled"@,
            ),
            ItemMeta::Service { .. } => r matches RemoveAction::Reply(rp) && reply_is(
                rp,
                false,
                None,
                Some("系统服务不支持直接删除，请使用\"禁止启动\"停用"@),
            ),
            ItemMeta::Cmh { key, .. } => r matches RemoveAction::DeleteKey { key: k } && k@ == key@,
            ItemMeta::ExplorerPlugin { ns_key, .. } => r matches RemoveAction::DeleteKey { key: k }
                && k@ == ns_key@,
        },
{
    let m = match meta {
        Some(m) => m,
        None => {
            let msg = concat("unknown item: ", item_id);
            return RemoveAction::Reply(OpReply { ok: false, code: None, message: Some(msg) });
        },
    };
    if m.essential() {
        return RemoveAction::Reply(reply(false, None, "系统关键组件，禁止删除"));
    }
    match m {
        ItemMeta::Registry { run_key, value_name, .. } => RemoveAction::DeleteRegValue {
            key: run_key.clone(),
            value_name: value_name.clone(),
        },
        ItemMeta::Task { task_name, .. } => RemoveAction::DeleteTask { task_name: task_name.clone() },
        ItemMeta::StartupFolder { lnk_path, .. } => {
            let disabled = with_extension(lnk_path.as_str(), "lnk.disabled");
            let paths = vec![lnk_path.clone(), disabled];
            RemoveAction::DeleteShortcut { paths }
        },
        ItemMeta::Service { .. } => RemoveAction::Reply(
            reply(false, None, "系统服务不支持直接删除，请使用\"禁止启动\"停用"),
        ),
        ItemMeta::Cmh { key, .. } => RemoveAction::DeleteKey { key: key.clone() },
        ItemMeta::ExplorerPlugin { ns_key, .. } => RemoveAction::DeleteKey { key: ns_key.clone() },
    }
}

/// After a removal command failed: give up with its error, or — when the
/// error is a refused permission — retry the same deletion elevated.
pub enum RemoveRetry {
    Reply(OpReply),
    Elevate { program: &'static str, params: String },
}

/// The exit code a failed removal reports: none for a registry value, 1 for
/// the others.
pub open spec fn remove_error_code(a: RemoveAction) -> Option<i64> {
    match a {
        RemoveAction::DeleteRegValue { .. } => None,
        _ => Some(1),
    }
}

/// The elevated command line that repeats a removal.
pub open spec fn elevated_params(a: RemoveAction) -> Option<(Seq<char>, Seq<char>)> {
    match a {
        RemoveAction::DeleteRegValue { key, value_name } => Some(
            (
                "reg"@,
                "delete \""@ + key@ + "\" /v \""@ + value_name@ + "\" /f"@,
            ),
        ),
        RemoveAction::DeleteTask { task_name } => Some(
            ("schtasks"@, "/Delete /TN \""@ + task_name@ + "\" /F"@),
        ),
        RemoveAction::DeleteKey { key } => Some(("reg"@, "delete \""@ + key@ + "\" /f"@)),
        _ => None,
    }
}

pub fn remove_after_error(a: &RemoveAction, err: &str) -> (r: RemoveRetry)
    requires
        elevated_params(*a) is Some,
    ensures
        !crate::elevate::spec_is_access_denied(err@) ==> (r matches RemoveRetry::Reply(rp)
            && reply_is(rp, false, remove_error_code(*a), Some(err@))),
        crate::elevate::spec_is_access_denied(err@) ==> (r matches RemoveRetry::Elevate {
            program,
            params,
        } && elevated_params(*a) == Some((program@, params@))),
{
    if !crate::elevate::is_access_denied(err) {
        let code: Option<i64> = match a {
            RemoveAction::DeleteRegValue { .. } => None,
            _ => Some(1),
        };
        return RemoveRetry::Reply(reply(false, code, err));
    }
    match a {
        RemoveAction::DeleteRegValue { key, value_name } => {
            let p1 = concat("delete \"", key.as_str());
            let p2 = concat(p1.as_str(), "\" /v \"");
            let p3 = concat(p2.as_str(), value_name.as_str());
            let params = concat(p3.as_str(), "\" /f");
            RemoveRetry::Elevate { program: "reg", params }
        },
        RemoveAction::DeleteTask { task_name } => {
            let p1 = concat("/Delete /TN \"", task_name.as_str());
            let params = concat(p1.as_str(), "\" /F");
            RemoveRetry::Elevate { program: "schtasks", params }
        },
        RemoveAction::DeleteKey { key } => {
            let p1 = concat("delete \"", key.as_str());
            let params = concat(p1.as_str(), "\" /f");
            RemoveRetry::Elevate { program: "reg", params }
        },
        _ => RemoveRetry::Reply(reply(false, None, err)),
    }
}

/// The query that tells whether an elevated removal took effect: it fails
/// once the value, task or key is gone.
pub open spec fn verify_query(a: RemoveAction) -> Option<(Seq<char>, Seq<Seq<char>>)> {
    match a {
        RemoveAction::DeleteRegValue { key, value_name } => Some(
            ("reg"@, seq!["query"@, key@, "/v"@, value_name@]),
        ),
        RemoveAction::DeleteTask { task_name } => Some(
            ("schtasks"@, seq!["/Query"@, "/TN"@, task_name@]),
        ),
        RemoveAction::DeleteKey { key } => Some(("reg"@, seq!["query"@, key@])),
        _ => None,
    }
}

pub fn verify_query_args(a: &RemoveAction) -> (r: Option<(&'static str, Vec<String>)>)
    ensures
        match r {
            Some(q) => verify_query(*a) == Some((q.0@, string_views(q.1@))),
            None => verify_query(*a) is None,
        },
{
    match a {
        RemoveAction::DeleteRegValue { key, value_name } => {
            let v = vec!["query".to_string(), key.clone(), "/v".to_string(), value_name.clone()];
            assert(string_views(v@) =~= seq!["query"@, key@, "/v"@, value_name@]);
            Some(("reg", v))
        },
        RemoveAction::DeleteTask { task_name } => {
            let v = vec!["/Query".to_string(), "/TN".to_string(), task_name.clone()];
            assert(string_views(v@) =~= seq!["/Query"@, "/TN"@, task_name@]);
            Some(("schtasks", v))
        },
        RemoveAction::DeleteKey { key } => {
            let v = vec!["query".to_string(), key.clone()];
            assert(string_views(v@) =~= seq!["query"@, key@]);
            Some(("reg", v))
        },
        _ => None,
    }
}

/// What an elevated removal ends with: its launch error; else success when
/// the query shows the value, task or key gone, and failure when it is
/// still there.
pub fn remove_after_elevation(a: &RemoveAction, elevated: &Result<u32, String>, gone: bool) -> (r: OpReply)
    ensures
        elevated matches Err(e) ==> reply_is(r, false, remove_error_code(*a), Some(e@)),
        elevated is Ok && gone ==> reply_is(r, true, None, Some("已通过管理员权限删除"@)),
        elevated is Ok && !gone ==> reply_is(
            r,
            false,
            None,
            Some(
                match *a {
                    RemoveAction::DeleteRegValue { .. } => "提权删除未生效，值仍存在"@,
                    RemoveAction::DeleteTask { .. } => "提权删除未生效，任务仍存在"@,
                    _ => "提权删除未生效，键仍存在"@,
                },
            ),
        ),
{
    match elevated {
        Err(e) => {
            let code: Option<i64> = match a {
                RemoveAction::DeleteRegValue { .. } => None,
                _ => Some(1),
            };
            reply(false, code, e.as_str())
        },
        Ok(_) => if gone {
            reply(true, None, "已通过管理员权限删除")
        } else {
            match a {
                RemoveAction::DeleteRegValue { .. } => reply(false, None, "提权删除未生效，值仍存在"),
                RemoveAction::DeleteTask { .. } => reply(false, None, "提权删除未生效，任务仍存在"),
                _ => reply(false, None, "提权删除未生效，键仍存在"),
            }
        },
    }
}

} // verus!

verus! {

/// `Path::parent`: the path without its last component (trailing
/// separators and `.` components dropped, the root kept); none where the
/// last component is no name (an empty path, a bare drive or root).
pub open spec fn spec_parent(p: Seq<char>) -> Option<Seq<char>> {
    let lo: int = if crate::winpath::has_drive(p) {
        2
    } else {
        0
    };
    let e = name_end(p, p.len() as int, lo);
    if e <= lo {
        None
    } else {
        let s = name_start(p, e, lo);
        let pe = name_end(p, s, lo);
        if pe <= lo && crate::winpath::is_rooted(p) {
            Some(p.take(lo + 1))
        } else {
            Some(p.take(pe))
        }
    }
}

fn name_end_exec(pc: &Vec<char>, from: usize, lo: usize) -> (e: usize)
    requires
        lo <= from <= pc.len(),
    ensures
        lo <= e <= from,
        e as int == name_end(pc@, from as int, lo as int),
{
    let mut e: usize = from;
    while e > lo && (crate::winpath::is_sep_char(pc[e - 1]) || (pc[e - 1] == '.' && (e - 1 == lo
        || crate::winpath::is_sep_char(pc[e - 2]))))
        invariant
            lo <= e <= from <= pc.len(),
            name_end(pc@, from as int, lo as int) == name_end(pc@, e as int, lo as int),
        decreases e,
    {
        e -= 1;
    }
    e
}

fn name_start_exec(pc: &Vec<char>, e: usize, lo: usize) -> (s: usize)
    requires
        lo <= e <= pc.len(),
    ensures
        lo <= s <= e,
        s as int == name_start(pc@, e as int, lo as int),
{
    let mut s: usize = e;
    while s > lo && !crate::winpath::is_sep_char(pc[s - 1])
        invariant
            lo <= s <= e <= pc.len(),
            name_start(pc@, e as int, lo as int) == name_start(pc@, s as int, lo as int),
        decreases s,
    {
        s -= 1;
    }
    s
}

pub fn parent_dir(p: &str) -> (r: Option<String>)
    ensures
        crate::service::opt_string_view(r) == spec_parent(p@),
{
    let pc = chars_of(p);
    let lo: usize = if crate::winpath::has_drive_exec(&pc) {
        2
    } else {
        0
    };
    let e = name_end_exec(&pc, pc.len(), lo);
    if e <= lo {
        return None;
    }
    let s = name_start_exec(&pc, e, lo);
    let pe = name_end_exec(&pc, s, lo);
    if pe <= lo && crate::winpath::is_rooted_exec(&pc) {
        proof {
            let b = crate::winpath::body_of(pc@);
            assert(b.len() > 0);
            assert(lo + 1 <= pc.len()) by {
                if crate::winpath::has_drive(pc@) {
                    assert(b.len() == pc.len() - 2);
                }
            }
        }
        Some(string_of(&crate::text::slice_chars(&pc, 0, lo + 1)))
    } else {
        Some(string_of(&crate::text::slice_chars(&pc, 0, pe)))
    }
}

/// The program a COM server's registered command runs: its first word,
/// quotes trimmed.
pub open spec fn server_program(dll: Seq<char>) -> Seq<char> {
    let w = crate::text::split_ws(dll);
    trim_char(
        if w.len() > 0 {
            w[0]
        } else {
            seq![]
        },
        '"',
    )
}

pub fn server_program_exec(dll: &str) -> (r: String)
    ensures
        r@ == server_program(dll@),
{
    let w = crate::text::split_whitespace(&chars_of(dll));
    assert(views(w@).len() == w@.len());
    if w.len() > 0 {
        assert(views(w@)[0] == w@[0]@);
        string_of(&trim_matches(&w[0], '"'))
    } else {
        let e: Vec<char> = Vec::new();
        string_of(&trim_matches(&e, '"'))
    }
}

/// Where an item lives, before anything is checked on disk.
pub enum LocateStep {
    Reply(OpReply),
    /// The file to select, if any, and its folder.
    Candidate { file: Option<String>, dir: Option<String> },
    /// Read the class's key first, then use `server_program` of its server.
    ResolveClass { clsid: String },
}

/// `open_location`: a shortcut's folder, the folder of a `Run` value's
/// program; a shell extension's server once its class is read; nothing for
/// other items.
pub fn plan_open_location(meta: Option<&ItemMeta>, item_id: &str) -> (r: LocateStep)
    ensures
        meta is None ==> (r matches LocateStep::Reply(rp) && reply_is(
            rp,
            false,
            None,
            Some(unknown_item_message(item_id@)),
        )),
        meta matches Some(m) ==> match *m {
            ItemMeta::StartupFolder { lnk_path, .. } => r matches LocateStep::Candidate { file, dir }
                && crate::service::opt_string_view(file) == Some(lnk_path@)
                && crate::service::opt_string_view(dir) == spec_parent(lnk_path@),
            ItemMeta::Registry { command, .. } => r matches LocateStep::Candidate { file, dir }
                && crate::service::opt_string_view(file) == spec_extract_exe(command@)
                && crate::service::opt_string_view(dir) == (match spec_extract_exe(command@) {
                    Some(e) => spec_parent(e),
                    None => None,
                }),
            ItemMeta::Cmh { clsid, .. } => r matches LocateStep::ResolveClass { clsid: c } && c@
                == (match clsid {
                Some(x) => x@,
                None => seq![],
            }),
            ItemMeta::ExplorerPlugin { clsid, .. } => r matches LocateStep::ResolveClass { clsid: c }
                && c@ == clsid@,
            _ => r matches LocateStep::Candidate { file, dir } && file is None && dir is None,
        },
{
    let m = match meta {
        Some(m) => m,
        None => {
            let msg = concat("unknown item: ", item_id);
            return LocateStep::Reply(OpReply { ok: false, code: None, message: Some(msg) });
        },
    };
    match m {
        ItemMeta::StartupFolder { lnk_path, .. } => LocateStep::Candidate {
            file: Some(lnk_path.clone()),
            dir: parent_dir(lnk_path.as_str()),
        },
        ItemMeta::Registry { command, .. } => match extract_exe_from_command(command.as_str()) {
            Some(e) => {
                let dir = parent_dir(e.as_str());
                LocateStep::Candidate { file: Some(e), dir }
            },
            None => LocateStep::Candidate { file: None, dir: None },
        },
        ItemMeta::Cmh { clsid, .. } => {
            proof {
                reveal_strlit("");
            }
            LocateStep::ResolveClass {
                clsid: match clsid {
                    Some(c) => c.clone(),
                    None => String::new(),
                },
            }
        },
        ItemMeta::ExplorerPlugin { clsid, .. } => LocateStep::ResolveClass { clsid: clsid.clone() },
        _ => LocateStep::Candidate { file: None, dir: None },
    }
}

/// What Explorer is asked to show once it is known what exists: nothing
/// when there is no folder or it is missing; the file selected when it
/// exists; else the folder.
pub enum ShowStep {
    NotFound,
    SelectFile,
    OpenDir,
}

pub fn show_step(has_dir: bool, dir_exists: bool, has_file: bool, file_exists: bool) -> (r: ShowStep)
    ensures
        !(has_dir && dir_exists) ==> r is NotFound,
        has_dir && dir_exists && has_file && file_exists ==> r is SelectFile,
        has_dir && dir_exists && !(has_file && file_exists) ==> r is OpenDir,
{
    if !(has_dir && dir_exists) {
        ShowStep::NotFound
    } else if has_file && file_exists {
        ShowStep::SelectFile
    } else {
        ShowStep::OpenDir
    }
}

/// `get_detail`: the item's kind, whether it is a system component, and
/// the fields that identify it.
pub struct Detail {
    pub kind: &'static str,
    pub essential: bool,
    pub fields: Vec<(&'static str, String)>,
}

pub open spec fn detail_fields(m: ItemMeta) -> Seq<(Seq<char>, Seq<char>)> {
    match m {
        ItemMeta::Registry { run_key, value_name, command, .. } => seq![
            ("runKey"@, run_key@),
            ("valueName"@, value_name@),
            ("command"@, command@),
        ],
        ItemMeta::Task { task_name, .. } => seq![("taskName"@, task_name@)],
        ItemMeta::StartupFolder { lnk_path, .. } => seq![("lnkPath"@, lnk_path@)],
        ItemMeta::Service { service_name, .. } => seq![("serviceName"@, service_name@)],
        ItemMeta::Cmh { clsid, .. } => seq![
            (
                "clsid"@,
                match clsid {
                    Some(c) => c@,
                    None => seq![],
                },
            ),
        ],
        ItemMeta::ExplorerPlugin { clsid, .. } => seq![("clsid"@, clsid@)],
    }
}

pub open spec fn kind_name(m: ItemMeta) -> Seq<char> {
    match m {
        ItemMeta::Registry { .. } => "registry"@,
        ItemMeta::Task { .. } => "task"@,
        ItemMeta::StartupFolder { .. } => "startup_folder"@,
        ItemMeta::Service { .. } => "service"@,
        ItemMeta::Cmh { .. } => "cmh"@,
        ItemMeta::ExplorerPlugin { .. } => "explorerplugin"@,
    }
}

pub fn get_detail(meta: &ItemMeta) -> (d: Detail)
    ensures
        d.kind@ == kind_name(*meta),
        d.essential == meta.spec_essential(),
        d.fields@.map_values(|f: (&'static str, String)| (f.0@, f.1@)) == detail_fields(*meta),
{
    let essential = meta.essential();
    let (kind, fields): (&'static str, Vec<(&'static str, String)>) = match meta {
        ItemMeta::Registry { run_key, value_name, command, .. } => (
            "registry",
            vec![("runKey", run_key.clone()), ("valueName", value_name.clone()), ("command", command.clone())],
        ),
        ItemMeta::Task { task_name, .. } => ("task", vec![("taskName", task_name.clone())]),
        ItemMeta::StartupFolder { lnk_path, .. } => (
            "startup_folder",
            vec![("lnkPath", lnk_path.clone())],
        ),
        ItemMeta::Service { service_name, .. } => (
            "service",
            vec![("serviceName", service_name.clone())],
        ),
        ItemMeta::Cmh { clsid, .. } => {
            proof {
                reveal_strlit("");
            }
            (
                "cmh",
                vec![
                    (
                        "clsid",
                        match clsid {
                            Some(c) => c.clone(),
                            None => String::new(),
                        },
                    ),
                ],
            )
        },
        ItemMeta::ExplorerPlugin { clsid, .. } => (
            "explorerplugin",
            vec![("clsid", clsid.clone())],
        ),
    };
    assert(fields@.map_values(|f: (&'static str, String)| (f.0@, f.1@)) =~= detail_fields(*meta));
    Detail { kind, essential, fields }
}

/// An item the one-click optimisation disables: rated 60 or more, not a
/// system component, not ignored, enabled, and one that can be toggled.
pub open spec fn spec_auto_disable(ban_rate: u32, essential: bool, ignored: bool, enabled: bool, can_toggle: bool) -> bool {
    ban_rate >= 60 && !essential && !ignored && enabled && can_toggle
}

/// `smart_optimize`: the ids of the listed items to disable, in order. An
/// item's essential flag is read from what its id stands for (none: not
/// essential).
pub fn smart_optimize_targets(items: &Vec<StartupItem>, metas: &crate::keyed::KeyedStore<ItemMeta>) -> (r: Vec<String>)
    requires
        metas.wf(),
    ensures
        string_views(r@) == items@.filter(
            |it: StartupItem|
                spec_auto_disable(
                    it.ban_rate,
                    metas@.dom().contains(it.id@) && metas@[it.id@].spec_essential(),
                    it.ignored,
                    it.enabled,
                    it.can_toggle,
                ),
        ).map_values(|it: StartupItem| it.id@),
{
    let ghost pred = |it: StartupItem|
        spec_auto_disable(
            it.ban_rate,
            metas@.dom().contains(it.id@) && metas@[it.id@].spec_essential(),
            it.ignored,
            it.enabled,
            it.can_toggle,
        );
    let ghost idv = |it: StartupItem| it.id@;
    let mut out: Vec<String> = Vec::new();
    let mut i: usize = 0;
    while i < items.len()
        invariant
            i <= items.len(),
            metas.wf(),
            pred == (|it: StartupItem|
                spec_auto_disable(
                    it.ban_rate,
                    metas@.dom().contains(it.id@) && metas@[it.id@].spec_essential(),
                    it.ignored,
                    it.enabled,
                    it.can_toggle,
                )),
            idv == (|it: StartupItem| it.id@),
            string_views(out@) == items@.take(i as int).filter(pred).map_values(idv),
        decreases items.len() - i,
    {
        let it = &items[i];
        let ghost pre = items@.take(i as int);
        assert(items@.take(i + 1) =~= pre.push(*it));
        proof {
            pre.lemma_filter_push(*it, pred);
        }
        let ghost before = string_views(out@);
        let essential = match metas.get(it.id.as_str()) {
            Some(m) => m.essential(),
            None => false,
        };
        if it.ban_rate >= 60 && !essential && !it.ignored && it.enabled && it.can_toggle {
            assert(pred(*it));
            out.push(it.id.clone());
            assert(string_views(out@) =~= before.push(it.id@));
            assert(pre.filter(pred).push(*it).map_values(idv) =~= pre.filter(pred).map_values(
                idv,
            ).push(idv(*it)));
        } else {
            assert(!pred(*it));
        }
        i += 1;
    }
    assert(items@.take(items.len() as int) =~= items@);
    out
}

} // verus!

verus! {

/// Each `'` doubled, as a PowerShell single-quoted string needs it.
pub open spec fn double_quotes(s: Seq<char>) -> Seq<char>
    decreases s.len(),
{
    if s.len() == 0 {
        seq![]
    } else {
        double_quotes(s.drop_last()) + (if s.last() == '\'' {
            seq!['\'', '\'']
        } else {
            seq![s.last()]
        })
    }
}

pub fn double_quotes_exec(s: &str) -> (r: String)
    ensures
        r@ == double_quotes(s@),
{
    let c = chars_of(s);
    let mut r: Vec<char> = Vec::new();
    let mut i: usize = 0;
    while i < c.len()
        invariant
            i <= c.len(),
            c@ == s@,
            r@ == double_quotes(c@.take(i as int)),
        decreases c.len() - i,
    {
        assert(c@.take(i + 1).drop_last() =~= c@.take(i as int));
        let ghost before = r@;
        if c[i] == '\'' {
            r.push('\'');
            r.push('\'');
            assert(r@ =~= before + seq!['\'', '\'']);
        } else {
            r.push(c[i]);
            assert(r@ =~= before + seq![c@[i as int]]);
        }
        i += 1;
    }
    assert(c@.take(c.len() as int) =~= c@);
    string_of(&r)
}

/// The PowerShell command that prints a shortcut's target.
pub open spec fn shortcut_target_script(lnk: Seq<char>) -> Seq<char> {
    "$s=(New-Object -ComObject WScript.Shell).CreateShortcut('"@ + double_quotes(lnk)
        + "'); $s.TargetPath"@
}

pub fn shortcut_target_script_exec(lnk: &str) -> (r: String)
    ensures
        r@ == shortcut_target_script(lnk@),
{
    let a = concat("$s=(New-Object -ComObject WScript.Shell).CreateShortcut('", double_quotes_exec(lnk).as_str());
    concat(a.as_str(), "'); $s.TargetPath")
}

/// `resolve_shortcut`, once PowerShell answered: the trimmed output, when
/// not empty.
pub fn shortcut_target_from_output(out: &str) -> (r: Option<String>)
    ensures
        crate::service::opt_string_view(r) == (if trim_ws(out@).len() == 0 {
            None
        } else {
            Some(trim_ws(out@))
        }),
{
    let t = trim(&chars_of(out));
    if t.len() == 0 {
        None
    } else {
        Some(string_of(&t))
    }
}

/// `s` with every trailing copy of `p` removed (`str::trim_end_matches`).
pub open spec fn strip_suffix_all(s: Seq<char>, p: Seq<char>) -> Seq<char>
    decreases s.len(),
{
    if p.len() > 0 && p.is_suffix_of(s) {
        strip_suffix_all(s.take(s.len() - p.len()), p)
    } else {
        s
    }
}

fn strip_suffix_all_exec(s: &Vec<char>, p: &Vec<char>) -> (r: Vec<char>)
    ensures
        r@ == strip_suffix_all(s@, p@),
{
    let mut cur = crate::text::slice_chars(s, 0, s.len());
    assert(s@.subrange(0, s.len() as int) =~= s@);
    while p.len() > 0 && ends_with(&cur, p)
        invariant
            strip_suffix_all(s@, p@) == strip_suffix_all(cur@, p@),
        decreases cur.len(),
    {
        let n = cur.len() - p.len();
        let next = crate::text::slice_chars(&cur, 0, n);
        assert(next@ =~= cur@.take(cur.len() - p.len()));
        cur = next;
    }
    cur
}

/// A start-up folder entry: only `.lnk` files (any case) are listed, under
/// their name without the `.lnk` or `.LNK` ending.
pub open spec fn spec_shortcut_name(file_name: Seq<char>) -> Option<Seq<char>> {
    if ".lnk"@.is_suffix_of(lowercase_of(file_name)) {
        Some(strip_suffix_all(strip_suffix_all(file_name, ".lnk"@), ".LNK"@))
    } else {
        None
    }
}

pub fn shortcut_name(file_name: &str) -> (r: Option<String>)
    ensures
        crate::service::opt_string_view(r) == spec_shortcut_name(file_name@),
{
    let l = to_lowercase(file_name);
    if !ends_with(&chars_of(l.as_str()), &chars_of(".lnk")) {
        return None;
    }
    let f = chars_of(file_name);
    let a = strip_suffix_all_exec(&f, &chars_of(".lnk"));
    let b = strip_suffix_all_exec(&a, &chars_of(".LNK"));
    Some(string_of(&b))
}

/// What adding a start-up item takes.
pub enum AddAction {
    Reply(OpReply),
    /// Create `folder`, then run the PowerShell `script` that writes the shortcut.
    CreateShortcut { folder: String, script: String },
    /// Create the key, then write the command as the value `name`.
    WriteRun { key: &'static str, name: String, command: String },
}

/// The current user's start-up folder under the roaming application data.
pub open spec fn startup_folder_of(app_data: Seq<char>) -> Seq<char> {
    crate::winpath::join_spec(
        crate::winpath::join_spec(
            crate::winpath::join_spec(
                crate::winpath::join_spec(
                    crate::winpath::join_spec(app_data, "Microsoft"@),
                    "Windows"@,
                ),
                "Start Menu"@,
            ),
            "Programs"@,
        ),
        "Startup"@,
    )
}

pub fn startup_folder(app_data: &str) -> (r: String)
    ensures
        r@ == startup_folder_of(app_data@),
{
    let a = crate::winpath::path_join(app_data, "Microsoft");
    let b = crate::winpath::path_join(a.as_str(), "Windows");
    let c = crate::winpath::path_join(b.as_str(), "Start Menu");
    let d = crate::winpath::path_join(c.as_str(), "Programs");
    crate::winpath::path_join(d.as_str(), "Startup")
}

/// The PowerShell command that writes a shortcut at `lnk` to `target`.
pub open spec fn create_shortcut_script(lnk: Seq<char>, target: Seq<char>) -> Seq<char> {
    "$ws = New-Object -ComObject WScript.Shell; $s = $ws.CreateShortcut('"@ + double_quotes(lnk)
        + "'); $s.TargetPath = '"@ + double_quotes(target) + "'; $s.Save()"@
}

/// `add`: the item must be an object with a name and a command (both
/// trimmed, neither empty). In the start-up folder it becomes a shortcut
/// named after it; elsewhere a value of the current user's `Run` key.
pub fn plan_add(
    is_object: bool,
    name: Option<&str>,
    command: Option<&str>,
    location: Option<&str>,
    app_data: &str,
) -> (r: AddAction)
    ensures
        ({
            let n = trim_ws(
                match name {
                    Some(x) => x@,
                    None => seq![],
                },
            );
            let c = trim_ws(
                match command {
                    Some(x) => x@,
                    None => seq![],
                },
            );
            &&& !is_object ==> (r matches AddAction::Reply(rp) && reply_is(
                rp,
                false,
                None,
                Some("参数无效"@),
            ))
            &&& is_object && (n.len() == 0 || c.len() == 0) ==> (r matches AddAction::Reply(rp)
                && reply_is(rp, false, None, Some("名称和命令不能为空"@)))
            &&& is_object && n.len() > 0 && c.len() > 0 && opt_str_view(location) == Some(
                "startup_folder"@,
            ) ==> (r matches AddAction::CreateShortcut { folder, script } && folder@
                == startup_folder_of(app_data@) && script@ == create_shortcut_script(
                crate::winpath::join_spec(startup_folder_of(app_data@), n + ".lnk"@),
                c,
            ))
            &&& is_object && n.len() > 0 && c.len() > 0 && opt_str_view(location) != Some(
                "startup_folder"@,
            ) ==> (r matches AddAction::WriteRun { key, name: nm, command: cm } && key@
                == "HKCU\\Software\\Microsoft\\Windows\\CurrentVersion\\Run"@ && nm@ == n && cm@
                == c)
        }),
{
    if !is_object {
        return AddAction::Reply(reply(false, None, "参数无效"));
    }
    proof {
        reveal_strlit("");
    }
    let nm = string_of(&trim(&chars_of(match name {
        Some(x) => x,
        None => "",
    })));
    let cm = string_of(&trim(&chars_of(match command {
        Some(x) => x,
        None => "",
    })));
    if chars_of(nm.as_str()).len() == 0 || chars_of(cm.as_str()).len() == 0 {
        return AddAction::Reply(reply(false, None, "名称和命令不能为空"));
    }
    let in_folder = match location {
        Some(l) => crate::clean_executor::str_eq(l, "startup_folder"),
        None => false,
    };
    if in_folder {
        let folder = startup_folder(app_data);
        let lnk_name = concat(nm.as_str(), ".lnk");
        let lnk = crate::winpath::path_join(folder.as_str(), lnk_name.as_str());
        let a = concat(
            "$ws = New-Object -ComObject WScript.Shell; $s = $ws.CreateShortcut('",
            double_quotes_exec(lnk.as_str()).as_str(),
        );
        let b = concat(a.as_str(), "'); $s.TargetPath = '");
        let c = concat(b.as_str(), double_quotes_exec(cm.as_str()).as_str());
        let script = concat(c.as_str(), "'; $s.Save()");
        AddAction::CreateShortcut { folder, script }
    } else {
        AddAction::WriteRun { key: "HKCU\\Software\\Microsoft\\Windows\\CurrentVersion\\Run", name: nm, command: cm }
    }
}

/// The file a backup taken at `millis` (since the epoch) is written to.
pub open spec fn spec_backup_file_name(millis: u128) -> Seq<char> {
    "startup_"@ + crate::text::spec_decimal(millis as nat) + ".json"@
}

pub fn backup_file_name(millis: u128) -> (r: String)
    ensures
        r@ == spec_backup_file_name(millis),
{
    let mut m = chars_of("startup_");
    crate::text::append_chars(&mut m, &crate::text::decimal_u128(millis));
    crate::text::append_chars(&mut m, &chars_of(".json"));
    string_of(&m)
}

/// How many backed-up items were applied, and how many were passed over
/// (unknown now, or refused).
pub struct RestoreTally {
    pub applied: u64,
    pub skipped: u64,
}

impl RestoreTally {
    pub fn new() -> (r: RestoreTally)
        ensures
            r.applied == 0 && r.skipped == 0,
    {
        RestoreTally { applied: 0, skipped: 0 }
    }

    /// One backed-up item: applied when it is known and toggling it
    /// succeeded, else skipped.
    pub fn record(&mut self, known: bool, toggled_ok: bool)
        requires
            old(self).applied < u64::MAX,
            old(self).skipped < u64::MAX,
        ensures
            known && toggled_ok ==> final(self).applied == old(self).applied + 1,
            known && toggled_ok ==> final(self).skipped == old(self).skipped,
            !(known && toggled_ok) ==> final(self).skipped == old(self).skipped + 1,
            !(known && toggled_ok) ==> final(self).applied == old(self).applied,
    {
        if known && toggled_ok {
            self.applied = self.applied + 1;
        } else {
            self.skipped = self.skipped + 1;
        }
    }
}

} // verus!

verus! {

/// Lexicographic order on text, character by character (which is the byte
/// order of its UTF-8 form).
pub open spec fn lex_le(a: Seq<char>, b: Seq<char>) -> bool
    decreases a.len(),
{
    if a.len() == 0 {
        true
    } else if b.len() == 0 {
        false
    } else if a[0] != b[0] {
        a[0] < b[0]
    } else {
        lex_le(a.drop_first(), b.drop_first())
    }
}

proof fn lemma_lex_total(a: Seq<char>, b: Seq<char>)
    ensures
        lex_le(a, b) || lex_le(b, a),
    decreases a.len(),
{
    if a.len() > 0 && b.len() > 0 && a[0] == b[0] {
        lemma_lex_total(a.drop_first(), b.drop_first());
    }
}

proof fn lemma_lex_trans(a: Seq<char>, b: Seq<char>, c: Seq<char>)
    requires
        lex_le(a, b),
        lex_le(b, c),
    ensures
        lex_le(a, c),
    decreases a.len(),
{
    if a.len() > 0 && b.len() > 0 && c.len() > 0 && a[0] == b[0] && b[0] == c[0] {
        lemma_lex_trans(a.drop_first(), b.drop_first(), c.drop_first());
    }
}

fn lex_le_exec(a: &Vec<char>, b: &Vec<char>) -> (r: bool)
    ensures
        r == lex_le(a@, b@),
{
    let mut i: usize = 0;
    assert(a@.skip(0) =~= a@ && b@.skip(0) =~= b@);
    while i < a.len()
        invariant
            i <= a.len(),
            i <= b.len(),
            lex_le(a@, b@) == lex_le(a@.skip(i as int), b@.skip(i as int)),
        decreases a.len() - i,
    {
        if i == b.len() {
            return false;
        }
        assert(a@.skip(i as int)[0] == a@[i as int] && b@.skip(i as int)[0] == b@[i as int]);
        if a[i] != b[i] {
            return a[i] < b[i];
        }
        assert(a@.skip(i as int).drop_first() =~= a@.skip(i + 1));
        assert(b@.skip(i as int).drop_first() =~= b@.skip(i + 1));
        i += 1;
    }
    true
}

pub open spec fn sorted_desc(s: Seq<Seq<char>>) -> bool {
    forall|i: int, j: int| 0 <= i < j < s.len() ==> lex_le(s[j], s[i])
}

/// `list_backups`' order: the `.json` file names, newest name first
/// (descending order).
pub fn backup_listing(names: &Vec<String>) -> (r: Vec<String>)
    ensures
        sorted_desc(string_views(r@)),
        string_views(r@).to_multiset() == string_views(names@).filter(
            |n: Seq<char>| ".json"@.is_suffix_of(n),
        ).to_multiset(),
{
    let ghost pred = |n: Seq<char>| ".json"@.is_suffix_of(n);
    let ghost all = string_views(names@);
    let mut out: Vec<String> = Vec::new();
    let mut i: usize = 0;
    let json = chars_of(".json");
    assert(all.take(0).filter(pred) =~= Seq::<Seq<char>>::empty()) by {
        reveal(Seq::filter);
    }
    assert(string_views(out@) =~= Seq::<Seq<char>>::empty());
    while i < names.len()
        invariant
            i <= names.len(),
            all == string_views(names@),
            json@ == ".json"@,
            pred == (|n: Seq<char>| ".json"@.is_suffix_of(n)),
            sorted_desc(string_views(out@)),
            string_views(out@).to_multiset() == all.take(i as int).filter(pred).to_multiset(),
        decreases names.len() - i,
    {
        let ghost pre = all.take(i as int);
        assert(all.take(i + 1) =~= pre.push(all[i as int]));
        proof {
            pre.lemma_filter_push(all[i as int], pred);
        }
        let x = chars_of(names[i].as_str());
        assert(x@ == all[i as int]);
        if ends_with(&x, &json) {
            let ghost before = string_views(out@);
            let mut p: usize = 0;
            while p < out.len() && !lex_le_exec(&chars_of(out[p].as_str()), &x)
                invariant
                    p <= out.len(),
                    before == string_views(out@),
                    forall|k: int| 0 <= k < p ==> !lex_le(before[k], x@),
                decreases out.len() - p,
            {
                p += 1;
            }
            out.insert(p, names[i].clone());
            proof {
                assert(string_views(out@) =~= before.insert(p as int, x@));
                vstd::seq_lib::to_multiset_insert(before, p as int, x@);
                vstd::seq_lib::to_multiset_build(pre.filter(pred), x@);
                let after = string_views(out@);
                assert forall|a: int, b: int| 0 <= a < b < after.len() implies lex_le(
                    after[b],
                    after[a],
                ) by {
                    if a < p && b == p {
                        lemma_lex_total(before[a], x@);
                    } else if a < p && b > p {
                        assert(after[b] == before[b - 1]);
                        lemma_lex_total(before[a], x@);
                        if p < before.len() {
                        }
                        assert(lex_le(before[b - 1], before[a]));
                    } else if a == p && b > p {
                        assert(after[b] == before[b - 1]);
                        assert(lex_le(before[p as int], x@));
                        if b - 1 > p {
                            assert(lex_le(before[b - 1], before[p as int]));
                            lemma_lex_trans(before[b - 1], before[p as int], x@);
                        }
                    } else if a > p && b > p {
                        assert(after[a] == before[a - 1] && after[b] == before[b - 1]);
                    } else {
                        assert(after[a] == before[a] && after[b] == before[b]);
                    }
                }
            }
        }
        i += 1;
    }
    assert(all.take(names.len() as int) =~= all);
    out
}

} // verus!

verus! {

/// The application's folder under the roaming application data.
pub open spec fn app_folder_of(app_data: Seq<char>) -> Seq<char> {
    crate::winpath::join_spec(app_data, "com.opencode.systemcleaner"@)
}

/// The file the ignored ids are kept in.
pub fn ignore_file_path(app_data: &str) -> (r: String)
    ensures
        r@ == crate::winpath::join_spec(app_folder_of(app_data@), "startup_ignore.json"@),
{
    let d = crate::winpath::path_join(app_data, "com.opencode.systemcleaner");
    crate::winpath::path_join(d.as_str(), "startup_ignore.json")
}

/// The folder start-up backups are written to.
pub fn backup_dir(app_data: &str) -> (r: String)
    ensures
        r@ == crate::winpath::join_spec(app_folder_of(app_data@), "startup_backups"@),
{
    let d = crate::winpath::path_join(app_data, "com.opencode.systemcleaner");
    crate::winpath::path_join(d.as_str(), "startup_backups")
}

/// `extract_exe_from_command` on an owned command line.
pub fn extract_exe_from_command_export(cmd: String) -> (r: Option<String>)
    ensures
        match r {
            Some(v) => spec_extract_exe(cmd@) == Some(v@),
            None => spec_extract_exe(cmd@) is None,
        },
{
    extract_exe_from_command(cmd.as_str())
}

/// `extract_rule_target` on an owned rule.
pub fn extract_rule_target_export(rule: StartupRule) -> (r: String)
    ensures
        r@ == spec_extract_rule_target(rule.rule_type, rule.target@),
{
    extract_rule_target(&rule)
}

/// `build_rule_index` on an owned rule list.
pub fn build_rule_index_export(rules: Vec<StartupRule>) -> (idx: RuleIndex)
    ensures
        idx.wf(),
        (rule_views(idx.by_exe@), rule_views(idx.by_name@)) == spec_rule_index(rules_view(rules@)),
{
    build_rule_index(&rules)
}

/// `match_rule` with owned name and program.
pub fn match_rule_export(index: RuleIndex, name: Option<String>, target_exe: Option<String>) -> (r: Option<StartupRule>)
    requires
        index.wf(),
    ensures
        opt_rule_view(r) == spec_match_rule(
            rule_views(index.by_exe@),
            rule_views(index.by_name@),
            crate::rules_engine::opt_string_view(name),
            crate::rules_engine::opt_string_view(target_exe),
        ),
{
    let n: Option<&str> = match &name {
        Some(x) => Some(x.as_str()),
        None => None,
    };
    let t: Option<&str> = match &target_exe {
        Some(x) => Some(x.as_str()),
        None => None,
    };
    match_rule(&index, n, t)
}

/// `compute_ban_rate`, as exported.
pub fn compute_ban_rate_export(rule_type: Option<u64>, enabled: bool) -> (r: u32)
    ensures
        r == spec_compute_ban_rate(rule_type, enabled),
{
    compute_ban_rate(rule_type, enabled)
}

/// `is_system_essential` with owned source and name.
pub fn is_system_essential_export(rule_type: Option<u64>, source: String, name: String, ds_ark_white: &Vec<String>) -> (r: bool)
    ensures
        r == spec_is_system_essential(rule_type, source@, name@, string_views(ds_ark_white@)),
{
    is_system_essential(rule_type, source.as_str(), name.as_str(), ds_ark_white)
}

/// `parse_csv` on an owned text.
pub fn parse_csv_export(text: String) -> (rows: Vec<Vec<String>>)
    ensures
        rows_view(rows@) == spec_parse_csv(text@),
{
    parse_csv(text.as_str())
}

/// The scheduled-task list read in the last thirty seconds is reused.
pub fn tasks_cache_fresh(now: u128, cached_at: u128) -> (r: bool)
    requires
        cached_at <= now,
    ensures
        r == (now - cached_at < 30000),
{
    now - cached_at < 30000
}

/// The `Run` and `RunOnce` keys that are listed, each with the source name
/// its items carry and, for `Run`, the key that records which are enabled.
pub open spec fn run_key_defs_of() -> Seq<(Seq<char>, Seq<char>, Option<Seq<char>>)> {
    seq![
        ("hkcu_run"@, "HKCU\\Software\\Microsoft\\Windows\\CurrentVersion\\Run"@,
            Some("HKCU\\Software\\Microsoft\\Windows\\CurrentVersion\\Explorer\\StartupApproved\\Run"@)),
        ("hklm_run"@, "HKLM\\Software\\Microsoft\\Windows\\CurrentVersion\\Run"@,
            Some("HKLM\\Software\\Microsoft\\Windows\\CurrentVersion\\Explorer\\StartupApproved\\Run"@)),
        ("runonce"@, "HKCU\\Software\\Microsoft\\Windows\\CurrentVersion\\RunOnce"@, None),
        ("runonce"@, "HKLM\\Software\\Microsoft\\Windows\\CurrentVersion\\RunOnce"@, None),
    ]
}

pub open spec fn run_key_def_view(d: (&'static str, &'static str, Option<&'static str>)) -> (Seq<char>, Seq<char>, Option<Seq<char>>) {
    (d.0@, d.1@, crate::rules_engine::opt_view(d.2))
}

pub fn run_key_defs() -> (r: Vec<(&'static str, &'static str, Option<&'static str>)>)
    ensures
        r@.map_values(|d: (&'static str, &'static str, Option<&'static str>)| run_key_def_view(d))
            == run_key_defs_of(),
{
    let v = vec![
        ("hkcu_run", "HKCU\\Software\\Microsoft\\Windows\\CurrentVersion\\Run",
            Some("HKCU\\Software\\Microsoft\\Windows\\CurrentVersion\\Explorer\\StartupApproved\\Run")),
        ("hklm_run", "HKLM\\Software\\Microsoft\\Windows\\CurrentVersion\\Run",
            Some("HKLM\\Software\\Microsoft\\Windows\\CurrentVersion\\Explorer\\StartupApproved\\Run")),
        ("runonce", "HKCU\\Software\\Microsoft\\Windows\\CurrentVersion\\RunOnce", None),
        ("runonce", "HKLM\\Software\\Microsoft\\Windows\\CurrentVersion\\RunOnce", None),
    ];
    assert(v@.map_values(|d: (&'static str, &'static str, Option<&'static str>)| run_key_def_view(d))
        =~= run_key_defs_of());
    v
}

/// The actions every start-up item offers.
pub fn item_settings() -> (r: Vec<&'static str>)
    ensures
        r@.len() == 2,
        r@[0]@ == "打开所在目录"@,
        r@[1]@ == "删除启动项"@,
{
    vec!["打开所在目录", "删除启动项"]
}

/// The two start-up folders: the current user's (under the roaming
/// application data) and the common one (under the program data).
pub fn startup_folders(app_data: &str, program_data: &str) -> (r: Vec<String>)
    ensures
        string_views(r@) == seq![
            startup_folder_of(app_data@),
            crate::winpath::join_spec(
                crate::winpath::join_spec(
                    crate::winpath::join_spec(
                        crate::winpath::join_spec(
                            crate::winpath::join_spec(program_data@, "Microsoft"@),
                            "Windows"@,
                        ),
                        "Start Menu"@,
                    ),
                    "Programs"@,
                ),
                "StartUp"@,
            ),
        ],
{
    let a = crate::winpath::path_join(program_data, "Microsoft");
    let b = crate::winpath::path_join(a.as_str(), "Windows");
    let c = crate::winpath::path_join(b.as_str(), "Start Menu");
    let d = crate::winpath::path_join(c.as_str(), "Programs");
    let v = vec![startup_folder(app_data), crate::winpath::path_join(d.as_str(), "StartUp")];
    assert(string_views(v@) =~= seq![startup_folder_of(app_data@), crate::winpath::join_spec(d@, "StartUp"@)]);
    v
}

/// The keys whose sub-keys are the context-menu handlers.
pub open spec fn cmh_locations_of() -> Seq<Seq<char>> {
    seq![
        "HKCR\\*\\shellex\\ContextMenuHandlers"@,
        "HKCR\\Directory\\shellex\\ContextMenuHandlers"@,
        "HKCR\\Directory\\Background\\shellex\\ContextMenuHandlers"@,
        "HKCR\\Folder\\shellex\\ContextMenuHandlers"@,
        "HKCR\\Drive\\shellex\\ContextMenuHandlers"@,
        "HKCR\\AllFileSystemObjects\\shellex\\ContextMenuHandlers"@,
        "HKCU\\Software\\Classes\\*\\shellex\\ContextMenuHandlers"@,
        "HKCU\\Software\\Classes\\Directory\\shellex\\ContextMenuHandlers"@,
        "HKCU\\Software\\Classes\\Directory\\Background\\shellex\\ContextMenuHandlers"@,
        "HKCU\\Software\\Classes\\Folder\\shellex\\ContextMenuHandlers"@,
    ]
}

pub fn cmh_locations() -> (r: Vec<&'static str>)
    ensures
        r@.map_values(|k: &'static str| k@) == cmh_locations_of(),
{
    let v = vec![
        "HKCR\\*\\shellex\\ContextMenuHandlers",
        "HKCR\\Directory\\shellex\\ContextMenuHandlers",
        "HKCR\\Directory\\Background\\shellex\\ContextMenuHandlers",
        "HKCR\\Folder\\shellex\\ContextMenuHandlers",
        "HKCR\\Drive\\shellex\\ContextMenuHandlers",
        "HKCR\\AllFileSystemObjects\\shellex\\ContextMenuHandlers",
        "HKCU\\Software\\Classes\\*\\shellex\\ContextMenuHandlers",
        "HKCU\\Software\\Classes\\Directory\\shellex\\ContextMenuHandlers",
        "HKCU\\Software\\Classes\\Directory\\Background\\shellex\\ContextMenuHandlers",
        "HKCU\\Software\\Classes\\Folder\\shellex\\ContextMenuHandlers",
    ];
    assert(v@.map_values(|k: &'static str| k@) =~= cmh_locations_of());
    v
}

/// The keys whose sub-keys name the shell folders Explorer shows.
pub open spec fn explorer_ns_locations_of() -> Seq<Seq<char>> {
    seq![
        "HKCU\\Software\\Microsoft\\Windows\\CurrentVersion\\Explorer\\Desktop\\NameSpace"@,
        "HKLM\\Software\\Microsoft\\Windows\\CurrentVersion\\Explorer\\Desktop\\NameSpace"@,
        "HKCU\\Software\\Microsoft\\Windows\\CurrentVersion\\Explorer\\HideDesktopIcons\\NewStartPanel"@,
        "HKLM\\Software\\Microsoft\\Windows\\CurrentVersion\\Explorer\\HideDesktopIcons\\NewStartPanel"@,
    ]
}

pub fn explorer_ns_locations() -> (r: Vec<&'static str>)
    ensures
        r@.map_values(|k: &'static str| k@) == explorer_ns_locations_of(),
{
    let v = vec![
        "HKCU\\Software\\Microsoft\\Windows\\CurrentVersion\\Explorer\\Desktop\\NameSpace",
        "HKLM\\Software\\Microsoft\\Windows\\CurrentVersion\\Explorer\\Desktop\\NameSpace",
        "HKCU\\Software\\Microsoft\\Windows\\CurrentVersion\\Explorer\\HideDesktopIcons\\NewStartPanel",
        "HKLM\\Software\\Microsoft\\Windows\\CurrentVersion\\Explorer\\HideDesktopIcons\\NewStartPanel",
    ];
    assert(v@.map_values(|k: &'static str| k@) =~= explorer_ns_locations_of());
    v
}

/// Whether a name (compared in lowercase) is met for the first time; it is
/// recorded either way.
pub fn first_time_seen(seen: &mut StringSet, name: &str) -> (r: bool)
    requires
        old(seen).wf(),
    ensures
        final(seen).wf(),
        r == !old(seen)@.contains(lowercase_of(name@)),
        final(seen)@ == old(seen)@.insert(lowercase_of(name@)),
{
    crate::shredder::enter_dir(seen, Some(name))
}

/// Each name in lowercase, in order (the vendor lists are compared so).
pub fn lowercase_names(v: &Vec<String>) -> (r: Vec<String>)
    ensures
        string_views(r@) == string_views(v@).map_values(|n: Seq<char>| lowercase_of(n)),
{
    let mut r: Vec<String> = Vec::new();
    let mut i: usize = 0;
    while i < v.len()
        invariant
            i <= v.len(),
            string_views(r@) == string_views(v@).take(i as int).map_values(|n: Seq<char>| lowercase_of(n)),
        decreases v.len() - i,
    {
        let ghost before = string_views(r@);
        let l = to_lowercase(v[i].as_str());
        r.push(l);
        proof {
            assert(string_views(r@) =~= before.push(lowercase_of(v@[i as int]@)));
            assert(string_views(v@).take(i + 1) =~= string_views(v@).take(i as int).push(v@[i as int]@));
        }
        i += 1;
    }
    assert(string_views(v@).take(v.len() as int) =~= string_views(v@));
    r
}

} // verus!

verus! {

/// The ids of the listed items.
pub open spec fn item_ids(items: Seq<StartupItem>) -> Set<Seq<char>> {
    Set::new(|k: Seq<char>| exists|i: int| 0 <= i < items.len() && items[i].id@ == k)
}

/// A list as it is shown: the items in order, each one's details kept
/// under its id for what follows (toggle, remove, open, detail), a later
/// item replacing an earlier one with the same id. Every id shown is then
/// known, so those steps find its details and never answer "unknown item".
pub fn remember_items(
    metas: &mut crate::keyed::KeyedStore<ItemMeta>,
    pairs: Vec<(StartupItem, ItemMeta)>,
) -> (r: Vec<StartupItem>)
    requires
        old(metas).wf(),
    ensures
        final(metas).wf(),
        r@ == pairs@.map_values(|p: (StartupItem, ItemMeta)| p.0),
        forall|i: int| 0 <= i < r@.len() ==> final(metas)@.dom().contains(#[trigger] r@[i].id@),
        final(metas)@.dom() == old(metas)@.dom().union(item_ids(r@)),
        forall|i: int|
            0 <= i < r@.len() && (forall|j: int| i < j < r@.len() ==> r@[j].id@ != r@[i].id@)
                ==> final(metas)@[r@[i].id@] == pairs@[i].1,
        forall|k: Seq<char>| old(metas)@.dom().contains(k) && !item_ids(r@).contains(k)
            ==> final(metas)@[k] == old(metas)@[k],
{
    let ghost all = pairs@;
    let mut rest = pairs;
    let mut out: Vec<StartupItem> = Vec::new();
    let ghost m0 = metas@;
    while rest.len() > 0
        invariant
            metas.wf(),
            out@.len() + rest@.len() == all.len(),
            out@ == all.take(out@.len() as int).map_values(|p: (StartupItem, ItemMeta)| p.0),
            rest@ == all.skip(out@.len() as int),
            metas@.dom() == m0.dom().union(item_ids(out@)),
            forall|i: int|
                0 <= i < out@.len() && (forall|j: int| i < j < out@.len() ==> out@[j].id@ != out@[i].id@)
                    ==> metas@[out@[i].id@] == all[i].1,
            forall|k: Seq<char>| m0.dom().contains(k) && !item_ids(out@).contains(k) ==> metas@[k] == m0[k],
        decreases rest@.len(),
    {
        let ghost n = out@.len() as int;
        let ghost before = out@;
        let ghost mb = metas@;
        let (item, meta) = rest.remove(0);
        assert(all[n] == (item, meta));
        let key = item.id.clone();
        metas.insert(key, meta);
        out.push(item);
        proof {
            assert(all.take(n + 1) =~= all.take(n).push(all[n]));
            assert(out@ =~= all.take(n + 1).map_values(|p: (StartupItem, ItemMeta)| p.0));
            assert(rest@ =~= all.skip(n + 1));
            assert(item_ids(out@) =~= item_ids(before).insert(out@[n].id@)) by {
                assert forall|k: Seq<char>| item_ids(out@).contains(k) implies item_ids(before).insert(out@[n].id@).contains(k) by {
                    let i = choose|i: int| 0 <= i < out@.len() && out@[i].id@ == k;
                    if i < n {
                        assert(before[i] == out@[i]);
                    }
                }
                assert forall|k: Seq<char>| item_ids(before).insert(out@[n].id@).contains(k) implies item_ids(out@).contains(k) by {
                    if k != out@[n].id@ {
                        let i = choose|i: int| 0 <= i < before.len() && before[i].id@ == k;
                        assert(out@[i] == before[i]);
                    }
                }
            }
            assert(metas@.dom() =~= m0.dom().union(item_ids(out@)));
            assert forall|i: int|
                0 <= i < out@.len() && (forall|j: int| i < j < out@.len() ==> out@[j].id@ != out@[i].id@)
                    implies metas@[out@[i].id@] == all[i].1 by {
                if i < n {
                    assert(out@[n].id@ != out@[i].id@);
                    assert(before[i] == out@[i]);
                    assert forall|j: int| i < j < before.len() implies before[j].id@ != before[i].id@ by {
                        assert(out@[j] == before[j]);
                    }
                }
            }
            assert forall|k: Seq<char>| m0.dom().contains(k) && !item_ids(out@).contains(k) implies metas@[k] == m0[k] by {
                assert(item_ids(out@).contains(out@[n].id@)) by {
                    assert(out@[n].id@ == out@[n].id@);
                }
                assert(!item_ids(before).contains(k)) by {
                    if item_ids(before).contains(k) {
                        let i = choose|i: int| 0 <= i < before.len() && before[i].id@ == k;
                        assert(out@[i] == before[i]);
                    }
                }
            }
        }
    }
    assert(all.take(all.len() as int) =~= all);
    out
}

} // verus!

verus! {

/// A list as it is shown: the items ordered as `sort_items` orders them
/// (stably), and each one's details kept under its id, so that toggle,
/// remove, open and detail find every id shown and never answer "unknown
/// item".
pub fn show_list(
    metas: &mut crate::keyed::KeyedStore<ItemMeta>,
    pairs: Vec<(StartupItem, ItemMeta)>,
    order: SortOrder,
) -> (r: Vec<StartupItem>)
    requires
        old(metas).wf(),
    ensures
        final(metas).wf(),
        sorted_by_key(r@, order),
        forall|k: int| #[trigger] r@.filter(key_is(order, k)) == pairs@.map_values(
            |p: (StartupItem, ItemMeta)| p.0,
        ).filter(key_is(order, k)),
        r@.len() == pairs@.len(),
        forall|i: int| 0 <= i < r@.len() ==> final(metas)@.dom().contains(#[trigger] r@[i].id@),
{
    let listed = remember_items(metas, pairs);
    let ghost items = listed@;
    let r = sort_items(listed, order);
    proof {
        assert forall|i: int| 0 <= i < r@.len() implies metas@.dom().contains(#[trigger] r@[i].id@) by {
            let k = sort_key(r@[i], order);
            r@.lemma_filter_contains(key_is(order, k), i);
            assert(r@.filter(key_is(order, k)) == items.filter(key_is(order, k)));
            items.lemma_filter_contains_rev(key_is(order, k), r@[i]);
            let j = choose|j: int| 0 <= j < items.len() && items[j] == r@[i];
            assert(metas@.dom().contains(items[j].id@));
        }
    }
    r
}

} // verus!

verus! {

/// A field's text with every `"` doubled.
pub open spec fn csv_doubled(f: Seq<char>) -> Seq<char>
    decreases f.len(),
{
    if f.len() == 0 {
        seq![]
    } else {
        (if f[0] == '"' {
            seq!['"', '"']
        } else {
            seq![f[0]]
        }) + csv_doubled(f.drop_first())
    }
}

/// A field as comma-separated text writes it: in quotes, quotes doubled.
pub open spec fn csv_quoted(f: Seq<char>) -> Seq<char> {
    seq!['"'] + csv_doubled(f) + seq!['"']
}

/// A row's quoted fields joined by `,` and ended by a line break.
pub open spec fn csv_row_text(fields: Seq<Seq<char>>) -> Seq<char>
    decreases fields.len(),
{
    if fields.len() <= 1 {
        csv_quoted(fields[0]) + seq!['\n']
    } else {
        csv_quoted(fields[0]) + seq![','] + csv_row_text(fields.drop_first())
    }
}

/// Rows written one after the other.
pub open spec fn csv_text(rows: Seq<Seq<Seq<char>>>) -> Seq<char>
    decreases rows.len(),
{
    if rows.len() == 0 {
        seq![]
    } else {
        csv_row_text(rows[0]) + csv_text(rows.drop_first())
    }
}

proof fn lemma_csv_suffix(s: Seq<char>, i: int, st: CsvState)
    requires
        0 <= i <= s.len(),
    ensures
        csv_from(s, i, st) == csv_from(s.skip(i), 0, st),
    decreases s.len() - i, 0int,
{
    let t = s.skip(i);
    if i < s.len() {
        assert(t[0] == s[i]);
        assert(t.skip(1) =~= s.skip(i + 1));
        lemma_csv_suffix(s, i + 1, (st.0, st.1, st.2.push(s[i]), true));
        lemma_csv_suffix(s, i + 1, (st.0, st.1, st.2, false));
        lemma_csv_suffix(s, i + 1, (st.0, st.1, st.2, true));
        lemma_csv_suffix(s, i + 1, (st.0, st.1.push(st.2), seq![], false));
        lemma_csv_suffix(s, i + 1, (st.0.push(st.1.push(st.2)), seq![], seq![], false));
        lemma_csv_suffix(s, i + 1, (st.0, st.1, st.2.push(s[i]), false));
        lemma_csv_suffix(s, i + 1, st);
        lemma_csv_suffix_shift(t, 1, (st.0, st.1, st.2.push(s[i]), true));
        lemma_csv_suffix_shift(t, 1, (st.0, st.1, st.2, false));
        lemma_csv_suffix_shift(t, 1, (st.0, st.1, st.2, true));
        lemma_csv_suffix_shift(t, 1, (st.0, st.1.push(st.2), seq![], false));
        lemma_csv_suffix_shift(t, 1, (st.0.push(st.1.push(st.2)), seq![], seq![], false));
        lemma_csv_suffix_shift(t, 1, (st.0, st.1, st.2.push(s[i]), false));
        lemma_csv_suffix_shift(t, 1, st);
        if i + 1 < s.len() {
            assert(t[1] == s[i + 1]);
            assert(t.skip(2) =~= s.skip(i + 2));
            lemma_csv_suffix(s, i + 2, (st.0, st.1, st.2.push('"'), true));
            lemma_csv_suffix_shift(t, 2, (st.0, st.1, st.2.push('"'), true));
        }
    }
}

proof fn lemma_csv_suffix_shift(t: Seq<char>, k: int, st: CsvState)
    requires
        0 <= k <= t.len(),
    ensures
        csv_from(t, k, st) == csv_from(t.skip(k), 0, st),
    decreases t.len() - k, 1int,
{
    if k == 0 {
        assert(t.skip(0) =~= t);
    } else {
        lemma_csv_suffix(t, k, st);
    }
}


/// Reading a quoted field's body and closing quote (inside quotes) adds the
/// field's text to the current field and leaves the quotes, when what
/// follows is no `"`.
proof fn lemma_csv_field(g: Seq<char>, y: Seq<char>, r: Seq<Seq<Seq<char>>>, f: Seq<Seq<char>>, cur: Seq<char>)
    requires
        y.len() == 0 || y[0] != '"',
    ensures
        csv_from(csv_doubled(g) + seq!['"'] + y, 0, (r, f, cur, true)) == csv_from(y, 0, (r, f, cur + g, false)),
    decreases g.len(),
{
    let t = csv_doubled(g) + seq!['"'] + y;
    if g.len() == 0 {
        assert(t =~= seq!['"'] + y);
        lemma_csv_suffix(t, 1, (r, f, cur, false));
        assert(t.skip(1) =~= y);
        assert(cur + g =~= cur);
    } else {
        let rest = csv_doubled(g.drop_first()) + seq!['"'] + y;
        lemma_csv_field(g.drop_first(), y, r, f, cur.push(g[0]));
        assert(cur.push(g[0]) + g.drop_first() =~= cur + g);
        if g[0] == '"' {
            assert(t =~= seq!['"', '"'] + rest);
            lemma_csv_suffix(t, 2, (r, f, cur.push('"'), true));
            assert(t.skip(2) =~= rest);
        } else {
            assert(t =~= seq![g[0]] + rest);
            lemma_csv_suffix(t, 1, (r, f, cur.push(g[0]), true));
            assert(t.skip(1) =~= rest);
        }
    }
}

/// Reading a row's text closes the row with its fields.
proof fn lemma_csv_row(fs: Seq<Seq<char>>, y: Seq<char>, r: Seq<Seq<Seq<char>>>, f: Seq<Seq<char>>)
    requires
        fs.len() >= 1,
    ensures
        csv_from(csv_row_text(fs) + y, 0, (r, f, seq![], false)) == csv_from(y, 0, (r.push(f + fs), seq![], seq![], false)),
    decreases fs.len(),
{
    let f0 = fs[0];
    let sep: char = if fs.len() == 1 { '\n' } else { ',' };
    let after: Seq<char> = if fs.len() == 1 { y } else { csv_row_text(fs.drop_first()) + y };
    let t = csv_row_text(fs) + y;
    assert(t =~= seq!['"'] + (csv_doubled(f0) + seq!['"'] + (seq![sep] + after)));
    lemma_csv_suffix(t, 1, (r, f, seq![], true));
    assert(t.skip(1) =~= csv_doubled(f0) + seq!['"'] + (seq![sep] + after));
    lemma_csv_field(f0, seq![sep] + after, r, f, seq![]);
    assert(Seq::<char>::empty() + f0 =~= f0);
    let u = seq![sep] + after;
    assert(u[0] == sep);
    assert(u.skip(1) =~= after);
    if fs.len() == 1 {
        lemma_csv_suffix(u, 1, (r.push(f.push(f0)), seq![], seq![], false));
        assert(f + fs =~= f.push(f0));
    } else {
        lemma_csv_suffix(u, 1, (r, f.push(f0), seq![], false));
        lemma_csv_row(fs.drop_first(), y, r, f.push(f0));
        assert(f.push(f0) + fs.drop_first() =~= f + fs);
    }
}

proof fn lemma_csv_rows(rows: Seq<Seq<Seq<char>>>, r: Seq<Seq<Seq<char>>>)
    requires
        forall|k: int| 0 <= k < rows.len() ==> (#[trigger] rows[k]).len() >= 1,
    ensures
        csv_from(csv_text(rows), 0, (r, seq![], seq![], false)) == r + rows,
    decreases rows.len(),
{
    if rows.len() == 0 {
        assert(r + rows =~= r);
    } else {
        let rest = rows.drop_first();
        assert(rows[0].len() >= 1);
        lemma_csv_row(rows[0], csv_text(rest), r, seq![]);
        assert(Seq::<Seq<char>>::empty() + rows[0] =~= rows[0]);
        assert forall|k: int| 0 <= k < rest.len() implies (#[trigger] rest[k]).len() >= 1 by {
            assert(rest[k] == rows[k + 1]);
        }
        lemma_csv_rows(rest, r.push(rows[0]));
        assert(r.push(rows[0]) + rest =~= r + rows);
    }
}

/// Comma-separated text read back: rows written with every field quoted
/// (quotes doubled), fields joined by `,` and rows ended by line breaks,
/// read as they were — whatever the fields hold (commas, quotes, line
/// breaks) — provided every row has a field.
pub proof fn law_csv_round_trip(rows: Seq<Seq<Seq<char>>>)
    requires
        forall|k: int| 0 <= k < rows.len() ==> (#[trigger] rows[k]).len() >= 1,
    ensures
        spec_parse_csv(csv_text(rows)) == rows,
{
    lemma_csv_rows(rows, seq![]);
    assert(Seq::<Seq<Seq<char>>>::empty() + rows =~= rows);
}

} // verus!
