//! Retrying with administrator rights: when a refusal calls for it, how the
//! command line is encoded, and what a failed elevation reports.

use vstd::prelude::*;
use crate::text::{chars_of, string_of, lowercase_of, to_lowercase, contains, contains_seq};

verus! {

/// A command's error text reports a refused permission.
pub open spec fn spec_is_access_denied(msg: Seq<char>) -> bool {
    let m = lowercase_of(msg);
    ||| contains_seq(m, "拒绝访问"@)
    ||| contains_seq(m, "access is denied"@)
    ||| contains_seq(m, "(os error 5)"@)
    ||| contains_seq(m, "denied"@)
}

pub fn is_access_denied(msg: &str) -> (r: bool)
    ensures
        r == spec_is_access_denied(msg@),
{
    let l = to_lowercase(msg);
    let m = chars_of(l.as_str());
    contains(&m, &chars_of("拒绝访问")) || contains(&m, &chars_of("access is denied")) || contains(
        &m,
        &chars_of("(os error 5)"),
    ) || contains(&m, &chars_of("denied"))
}

/// The UTF-16 code units of one character.
pub open spec fn utf16_of(c: char) -> Seq<u16> {
    let v = c as u32;
    if v < 0x10000 {
        seq![v as u16]
    } else {
        seq![
            (0xD800 + (v - 0x10000) / 0x400) as u16,
            (0xDC00 + (v - 0x10000) % 0x400) as u16,
        ]
    }
}

pub open spec fn utf16_seq(s: Seq<char>) -> Seq<u16>
    decreases s.len(),
{
    if s.len() == 0 {
        seq![]
    } else {
        utf16_seq(s.drop_last()) + utf16_of(s.last())
    }
}

/// `wide`: the text in UTF-16 with a terminating NUL, as Windows API calls
/// take it.
pub fn wide(s: &str) -> (r: Vec<u16>)
    ensures
        r@ == utf16_seq(s@).push(0u16),
{
    let c = chars_of(s);
    let mut r: Vec<u16> = Vec::new();
    let mut i: usize = 0;
    while i < c.len()
        invariant
            i <= c.len(),
            c@ == s@,
            r@ == utf16_seq(c@.take(i as int)),
        decreases c.len() - i,
    {
        assert(c@.take(i + 1).drop_last() =~= c@.take(i as int));
        let v = c[i] as u32;
        let ghost before = r@;
        if v < 0x10000 {
            r.push(v as u16);
            assert(r@ =~= before + seq![v as u16]);
        } else {
            let hi = (0xD800 + (v - 0x10000) / 0x400) as u16;
            let lo = (0xDC00 + (v - 0x10000) % 0x400) as u16;
            r.push(hi);
            r.push(lo);
            assert(r@ =~= before + seq![hi, lo]);
        }
        i += 1;
    }
    assert(c@.take(c.len() as int) =~= c@);
    r.push(0);
    r
}

/// What a failed attempt to start an elevated process reports: the user
/// declining (error 1223), or the Win32 error number.
pub open spec fn spec_elevation_error(err: u32) -> Seq<char> {
    if err == 1223 {
        "用户取消了管理员授权"@
    } else {
        "提权启动失败 (Win32 error "@ + crate::text::spec_decimal(err as nat) + ")"@
    }
}

pub fn elevation_error(err: u32) -> (r: String)
    ensures
        r@ == spec_elevation_error(err),
{
    if err == 1223 {
        return "用户取消了管理员授权".to_string();
    }
    let mut m = chars_of("提权启动失败 (Win32 error ");
    let d = crate::text::decimal(err as u64);
    crate::text::append_chars(&mut m, &d);
    crate::text::append_chars(&mut m, &chars_of(")"));
    string_of(&m)
}

} // verus!
