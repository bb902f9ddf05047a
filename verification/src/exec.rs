//! Reading what a command printed: choosing the text encoding of its
//! output, and turning its exit status and streams into a result.

use vstd::prelude::*;
use crate::text::{chars_of, string_of, trim, trim_ws, trim_start_char};

verus! {

/// The encodings command output is tried in.
#[derive(PartialEq, Eq, Structural, Clone, Copy)]
pub enum Charset {
    Utf16Le,
    Gbk,
    Utf8,
}

/// What `encoding_rs::Encoding::decode` gives for these bytes: the text
/// (malformed sequences replaced by U+FFFD) and whether there were any.
pub uninterp spec fn decoded(charset: Charset, bytes: Seq<u8>) -> (Seq<char>, bool);

/// Calls `Encoding::decode` of `encoding_rs` (UTF-16LE, GBK or UTF-8): a
/// byte-order mark at the start selects its own encoding and is dropped,
/// then the rest is decoded. The result is named `decoded`.
#[verifier::external_body]
fn decode_bytes(charset: Charset, bytes: &[u8]) -> (r: (String, bool))
    ensures
        (r.0@, r.1) == decoded(charset, bytes@),
{
    let enc = match charset {
        Charset::Utf16Le => encoding_rs::UTF_16LE,
        Charset::Gbk => encoding_rs::GBK,
        Charset::Utf8 => encoding_rs::UTF_8,
    };
    let (text, _, had_errors) = enc.decode(bytes);
    (text.into_owned(), had_errors)
}

fn copy_bytes(b: &[u8], from: usize) -> (r: Vec<u8>)
    requires
        from <= b@.len(),
    ensures
        r@ == b@.skip(from as int),
{
    let mut r: Vec<u8> = Vec::new();
    let mut i: usize = from;
    while i < b.len()
        invariant
            from <= i <= b.len(),
            r@ == b@.subrange(from as int, i as int),
        decreases b.len() - i,
    {
        r.push(b[i]);
        i += 1;
        assert(r@ =~= b@.subrange(from as int, i as int));
    }
    assert(b@.subrange(from as int, b.len() as int) =~= b@.skip(from as int));
    r
}

/// How many of the odd-indexed bytes below `limit` are NUL.
pub open spec fn odd_nuls(b: Seq<u8>, limit: int) -> int
    decreases limit,
{
    if limit <= 1 {
        0
    } else {
        let i = limit - 1;
        odd_nuls(b, limit - 1) + (if i % 2 == 1 && b[i] == 0 {
            1int
        } else {
            0int
        })
    }
}

/// The size of the sample the NUL density is measured on.
pub open spec fn sample_len(b: Seq<u8>) -> int {
    if b.len() < 4096 {
        b.len() as int
    } else {
        4096
    }
}

/// Output is UTF-16LE when it starts with the byte-order mark `FF FE`
/// (dropped), or when more of its first 4096 bytes' odd-indexed bytes are
/// NUL than an eighth of that sample's length (a leading U+FEFF dropped);
/// else GBK when it decodes without error; else UTF-8 when that decodes
/// without error; else GBK anyway.
pub open spec fn spec_decode(b: Seq<u8>) -> Seq<char> {
    if b.len() == 0 {
        seq![]
    } else if b.len() >= 2 && b[0] == 0xffu8 && b[1] == 0xfeu8 {
        decoded(Charset::Utf16Le, b.skip(2)).0
    } else if odd_nuls(b, sample_len(b)) > sample_len(b) / 8 {
        trim_start_char(decoded(Charset::Utf16Le, b).0, '\u{FEFF}')
    } else if !decoded(Charset::Gbk, b).1 {
        decoded(Charset::Gbk, b).0
    } else if decoded(Charset::Utf8, b).1 {
        decoded(Charset::Gbk, b).0
    } else {
        decoded(Charset::Utf8, b).0
    }
}

pub fn decode(buf: &[u8]) -> (r: String)
    ensures
        r@ == spec_decode(buf@),
{
    if buf.len() == 0 {
        return String::new();
    }
    if buf.len() >= 2 && buf[0] == 0xff && buf[1] == 0xfe {
        let rest = copy_bytes(buf, 2);
        let (s, _) = decode_bytes(Charset::Utf16Le, rest.as_slice());
        return s;
    }
    let sample: usize = if buf.len() < 4096 {
        buf.len()
    } else {
        4096
    };
    let mut nul_count: usize = 0;
    let mut i: usize = 1;
    while i < sample
        invariant
            1 <= i,
            i % 2 == 1,
            i <= sample + 1,
            sample <= buf.len(),
            nul_count <= i,
            nul_count == odd_nuls(buf@, if i <= sample {
                i as int
            } else {
                sample as int
            }),
        decreases sample + 1 - i,
    {
        if buf[i] == 0 {
            nul_count += 1;
        }
        assert(odd_nuls(buf@, i + 1) == odd_nuls(buf@, i as int) + (if buf@[i as int] == 0 {
            1int
        } else {
            0int
        }));
        if i + 1 < sample {
            assert(odd_nuls(buf@, i + 2) == odd_nuls(buf@, i + 1));
        }
        i += 2;
    }
    if nul_count > sample / 8 {
        let (s, _) = decode_bytes(Charset::Utf16Le, buf);
        let t = crate::text::trim_start_matches(&chars_of(s.as_str()), '\u{FEFF}');
        return string_of(&t);
    }
    let (gbk, gbk_err) = decode_bytes(Charset::Gbk, buf);
    if !gbk_err {
        return gbk;
    }
    let (utf8, utf8_err) = decode_bytes(Charset::Utf8, buf);
    if utf8_err {
        return gbk;
    }
    utf8
}

/// A finished command's result: its output when it succeeded; else its
/// error output trimmed, or (when that is blank) its output trimmed.
pub open spec fn spec_command_outcome(stdout: Seq<char>, stderr: Seq<char>, success: bool) -> Result<Seq<char>, Seq<char>> {
    if success {
        Ok(stdout)
    } else if trim_ws(stderr).len() > 0 {
        Err(trim_ws(stderr))
    } else {
        Err(trim_ws(stdout))
    }
}

pub fn command_outcome(stdout: &str, stderr: &str, success: bool) -> (r: Result<String, String>)
    ensures
        match r {
            Ok(s) => spec_command_outcome(stdout@, stderr@, success) == Ok::<Seq<char>, Seq<char>>(s@),
            Err(e) => spec_command_outcome(stdout@, stderr@, success) == Err::<Seq<char>, Seq<char>>(e@),
        },
{
    if success {
        return Ok(stdout.to_string());
    }
    let e = trim(&chars_of(stderr));
    if e.len() > 0 {
        Err(string_of(&e))
    } else {
        Err(string_of(&trim(&chars_of(stdout))))
    }
}

/// The error of a command that did not finish in time.
pub open spec fn timeout_message_of(exe: Seq<char>, args: Seq<Seq<char>>) -> Seq<char> {
    "Command timed out: "@ + exe + " "@ + crate::paths::join_words(args)
}

pub fn timeout_message(exe: &str, args: &Vec<String>) -> (r: String)
    ensures
        r@ == timeout_message_of(exe@, crate::rules_engine::string_views(args@)),
{
    let mut m = chars_of("Command timed out: ");
    crate::text::append_chars(&mut m, &chars_of(exe));
    m.push(' ');
    assert(m@ =~= "Command timed out: "@ + exe@ + " "@) by {
        reveal_strlit(" ");
    }
    let mut words: Vec<Vec<char>> = Vec::new();
    let mut i: usize = 0;
    while i < args.len()
        invariant
            i <= args.len(),
            crate::text::views(words@) == crate::rules_engine::string_views(args@.take(i as int)),
        decreases args.len() - i,
    {
        let ghost before = crate::text::views(words@);
        let c = chars_of(args[i].as_str());
        words.push(c);
        assert(crate::text::views(words@) =~= before.push(args@[i as int]@));
        assert(crate::rules_engine::string_views(args@.take(i + 1)) =~= crate::rules_engine::string_views(args@.take(i as int)).push(args@[i as int]@));
        i += 1;
        assert(crate::text::views(words@) =~= crate::rules_engine::string_views(args@.take(i as int)));
    }
    assert(args@.take(args.len() as int) =~= args@);
    let j = crate::paths::join_words_exec(&words, 0);
    assert(crate::text::views(words@).skip(0) =~= crate::text::views(words@));
    crate::text::append_chars(&mut m, &j);
    string_of(&m)
}

} // verus!
