//! File icons as `data:` URLs: base64, the ICO file an icon bitmap is
//! packed into, and the per-path cache of results.

use vstd::prelude::*;
use crate::text::{chars_of, string_of, lowercase_of, to_lowercase};
use crate::keyed::KeyedStore;

verus! {

/// The base64 alphabet of RFC 4648.
pub open spec fn b64_char(i: int) -> char {
    if 0 <= i < 26 {
        (('A' as int) + i) as char
    } else if 26 <= i < 52 {
        (('a' as int) + (i - 26)) as char
    } else if 52 <= i < 62 {
        (('0' as int) + (i - 52)) as char
    } else if i == 62 {
        '+'
    } else {
        '/'
    }
}

fn b64_char_exec(i: u32) -> (c: char)
    requires
        i < 64,
    ensures
        c == b64_char(i as int),
{
    if i < 26 {
        ((65 + i) as u8) as char
    } else if i < 52 {
        ((97 + (i - 26)) as u8) as char
    } else if i < 62 {
        ((48 + (i - 52)) as u8) as char
    } else if i == 62 {
        '+'
    } else {
        '/'
    }
}

/// The four characters of one group of up to three bytes (`n` holds them,
/// high byte first); a group of one or two bytes ends in `=` padding.
pub open spec fn b64_group(n: int, count: int) -> Seq<char> {
    seq![
        b64_char((n / 262144) % 64),
        b64_char((n / 4096) % 64),
        if count > 1 {
            b64_char((n / 64) % 64)
        } else {
            '='
        },
        if count > 2 {
            b64_char(n % 64)
        } else {
            '='
        },
    ]
}

/// Standard base64 with padding.
pub open spec fn spec_base64(d: Seq<u8>) -> Seq<char>
    decreases d.len(),
{
    if d.len() == 0 {
        seq![]
    } else {
        let count: int = if d.len() >= 3 {
            3
        } else {
            d.len() as int
        };
        let b1: int = if d.len() > 1 {
            d[1] as int
        } else {
            0
        };
        let b2: int = if d.len() > 2 {
            d[2] as int
        } else {
            0
        };
        b64_group(d[0] * 65536 + b1 * 256 + b2, count) + spec_base64(d.skip(count))
    }
}

pub fn base64_encode(data: &[u8]) -> (r: String)
    ensures
        r@ == spec_base64(data@),
{
    let mut out: Vec<char> = Vec::new();
    let mut i: usize = 0;
    assert(data@.skip(0) =~= data@);
    while i < data.len()
        invariant
            i <= data.len(),
            spec_base64(data@) == out@ + spec_base64(data@.skip(i as int)),
        decreases data.len() - i,
    {
        let rest = data.len() - i;
        let count: usize = if rest >= 3 {
            3
        } else {
            rest
        };
        let b0 = data[i] as u32;
        let b1 = if rest > 1 {
            data[i + 1] as u32
        } else {
            0
        };
        let b2 = if rest > 2 {
            data[i + 2] as u32
        } else {
            0
        };
        let n: u32 = b0 * 65536 + b1 * 256 + b2;
        let ghost d = data@.skip(i as int);
        assert(d[0] == data@[i as int]);
        assert(rest > 1 ==> d[1] == data@[i + 1]);
        assert(rest > 2 ==> d[2] == data@[i + 2]);
        assert(d.skip(count as int) =~= data@.skip(i + count));
        let ghost before = out@;
        out.push(b64_char_exec((n / 262144) % 64));
        out.push(b64_char_exec((n / 4096) % 64));
        out.push(
            if count > 1 {
                b64_char_exec((n / 64) % 64)
            } else {
                '='
            },
        );
        out.push(
            if count > 2 {
                b64_char_exec(n % 64)
            } else {
                '='
            },
        );
        assert(out@ =~= before + b64_group(n as int, count as int));
        i += count;
    }
    string_of(&out)
}

/// The `data:` URL of an ICO file.
pub open spec fn icon_data_url_of(ico: Seq<u8>) -> Seq<char> {
    "data:image/x-icon;base64,"@ + spec_base64(ico)
}

pub fn icon_data_url(ico: &Vec<u8>) -> (r: String)
    ensures
        r@ == icon_data_url_of(ico@),
{
    let mut c = chars_of("data:image/x-icon;base64,");
    let b = base64_encode(ico.as_slice());
    crate::text::append_chars(&mut c, &chars_of(b.as_str()));
    string_of(&c)
}

/// An icon's bitmap can be packed when each side is 1 to 256 pixels.
pub open spec fn spec_icon_dims_ok(w: i32, h: i32) -> bool {
    1 <= w <= 256 && 1 <= h <= 256
}

pub fn icon_dims_ok(w: i32, h: i32) -> (r: bool)
    ensures
        r == spec_icon_dims_ok(w, h),
{
    1 <= w && w <= 256 && 1 <= h && h <= 256
}

/// The little-endian bytes of a 16-bit and a 32-bit value.
pub open spec fn le16(v: int) -> Seq<u8> {
    seq![(v % 256) as u8, ((v / 256) % 256) as u8]
}

pub open spec fn le32(v: int) -> Seq<u8> {
    seq![
        (v % 256) as u8,
        ((v / 256) % 256) as u8,
        ((v / 65536) % 256) as u8,
        ((v / 16777216) % 256) as u8,
    ]
}

/// A width or height in an icon directory entry: 256 is written as 0.
pub open spec fn dim_byte(v: int) -> u8 {
    if v >= 256 {
        0
    } else {
        v as u8
    }
}

/// The bytes of the AND mask: rows of 32-bit words, one bit per pixel.
pub open spec fn mask_len(w: int, h: int) -> int {
    ((w + 31) / 32) * 4 * h
}

/// The ICO directory, its one entry, and the bitmap header (height doubled
/// for the mask) for a `w` by `h` image with `pl` pixel bytes and `ml` mask
/// bytes.
pub open spec fn ico_header_of(w: int, h: int, pl: int, ml: int) -> Seq<u8> {
    seq![0u8, 0, 1, 0, 1, 0] + seq![dim_byte(w), dim_byte(h), 0u8, 0u8] + le16(1) + le16(32) + le32(
        40 + pl + ml,
    ) + le32(22) + le32(40) + le32(w) + le32(2 * h) + le16(1) + le16(32) + le32(0) + le32(pl + ml)
        + le32(0) + le32(0) + le32(0) + le32(0)
}

/// An ICO file with one 32-bit image: the header, the BGRA pixels
/// bottom-up, and an all-zero mask (the alpha channel does the masking).
pub open spec fn spec_ico(w: int, h: int, pixels: Seq<u8>) -> Seq<u8> {
    ico_header_of(w, h, pixels.len() as int, mask_len(w, h)) + pixels + Seq::new(
        mask_len(w, h) as nat,
        |i: int| 0u8,
    )
}

fn push_le16(out: &mut Vec<u8>, v: u32)
    requires
        v < 65536,
    ensures
        final(out)@ == old(out)@ + le16(v as int),
{
    out.push((v % 256) as u8);
    out.push(((v / 256) % 256) as u8);
    assert(final(out)@ =~= old(out)@ + le16(v as int));
}

fn push_le32(out: &mut Vec<u8>, v: u32)
    ensures
        final(out)@ == old(out)@ + le32(v as int),
{
    out.push((v % 256) as u8);
    out.push(((v / 256) % 256) as u8);
    out.push(((v / 65536) % 256) as u8);
    out.push(((v / 16777216) % 256) as u8);
    assert(final(out)@ =~= old(out)@ + le32(v as int));
}

#[verifier::rlimit(40)]
fn ico_header(w: u32, h: u32, pl: u32, ml: u32) -> (r: Vec<u8>)
    requires
        1 <= w <= 256,
        1 <= h <= 256,
        pl <= 262144,
        ml <= 8192,
    ensures
        r@ == ico_header_of(w as int, h as int, pl as int, ml as int),
{
    let mut out: Vec<u8> = Vec::new();
    out.push(0);
    out.push(0);
    out.push(1);
    out.push(0);
    out.push(1);
    out.push(0);
    let ghost s0 = out@;
    assert(s0 =~= seq![0u8, 0, 1, 0, 1, 0]);
    out.push(if w >= 256 { 0 } else { w as u8 });
    out.push(if h >= 256 { 0 } else { h as u8 });
    out.push(0);
    out.push(0);
    assert(out@ =~= s0 + seq![dim_byte(w as int), dim_byte(h as int), 0u8, 0u8]);
    push_le16(&mut out, 1);
    push_le16(&mut out, 32);
    push_le32(&mut out, 40 + pl + ml);
    push_le32(&mut out, 22);
    push_le32(&mut out, 40);
    push_le32(&mut out, w);
    push_le32(&mut out, 2 * h);
    push_le16(&mut out, 1);
    push_le16(&mut out, 32);
    push_le32(&mut out, 0);
    push_le32(&mut out, pl + ml);
    push_le32(&mut out, 0);
    push_le32(&mut out, 0);
    push_le32(&mut out, 0);
    push_le32(&mut out, 0);
    out
}

/// `hicon_to_ico`'s packing, once the bitmap's pixels (`w * h` BGRA
/// pixels, bottom-up) have been read.
pub fn ico_bytes(w: i32, h: i32, pixels: &Vec<u8>) -> (r: Vec<u8>)
    requires
        spec_icon_dims_ok(w, h),
        pixels@.len() == w * h * 4,
    ensures
        r@ == spec_ico(w as int, h as int, pixels@),
{
    let wu = w as u32;
    let hu = h as u32;
    assert(wu * hu <= 65536) by (nonlinear_arith)
        requires
            wu <= 256,
            hu <= 256,
    ;
    let words = (wu + 31) / 32;
    let row = words * 4;
    assert(row * hu <= 8192) by (nonlinear_arith)
        requires
            row <= 32,
            hu <= 256,
    ;
    let ml: u32 = row * hu;
    assert(ml as int == mask_len(w as int, h as int));
    let pl = pixels.len() as u32;
    let mut out = ico_header(wu, hu, pl, ml);
    let ghost head = out@;
    let mut i: usize = 0;
    while i < pixels.len()
        invariant
            i <= pixels.len(),
            out@ == head + pixels@.take(i as int),
        decreases pixels.len() - i,
    {
        out.push(pixels[i]);
        i += 1;
        assert(out@ =~= head + pixels@.take(i as int));
    }
    assert(pixels@.take(pixels.len() as int) =~= pixels@);
    let ghost body = out@;
    let mut k: u32 = 0;
    while k < ml
        invariant
            k <= ml,
            out@ == body + Seq::new(k as nat, |i: int| 0u8),
        decreases ml - k,
    {
        out.push(0);
        k += 1;
        assert(out@ =~= body + Seq::new(k as nat, |i: int| 0u8));
    }
    out
}

/// What the icon cache answers for a path.
pub enum IconLookup {
    /// An empty path has no icon: the answer is the empty string.
    Empty,
    /// The cached URL (empty for a path whose icon could not be read).
    Hit { url: String },
    /// Not cached yet: compute it and store it under `key`.
    Miss { key: String },
}

/// What the cache can hold for a path: the empty string (no icon) or an
/// ICO `data:` URL.
pub open spec fn icon_answer_shape(u: Seq<char>) -> bool {
    u.len() == 0 || "data:image/x-icon;base64,"@.is_prefix_of(u)
}

/// Icon URLs by lowercase path; a failure is cached as the empty string.
pub struct IconCache {
    pub urls: KeyedStore<String>,
}

impl IconCache {
    /// Every cached answer is empty or an ICO `data:` URL.
    pub open spec fn wf(&self) -> bool {
        &&& self.urls.wf()
        &&& forall|k: Seq<char>| #[trigger] self.urls@.dom().contains(k) ==> icon_answer_shape(self.urls@[k]@)
    }

    pub fn new() -> (r: IconCache)
        ensures
            r.wf(),
            r.urls@ == Map::<Seq<char>, String>::empty(),
    {
        IconCache { urls: KeyedStore::new() }
    }

    /// `file_icon_data_url`: the cached answer for a path, looked up by its
    /// lowercase form.
    pub fn file_icon_data_url(&self, file_path: &str) -> (r: IconLookup)
        requires
            self.wf(),
        ensures
            file_path@.len() == 0 ==> r is Empty,
            file_path@.len() > 0 && self.urls@.dom().contains(lowercase_of(file_path@)) ==> (r
                matches IconLookup::Hit { url } && url == self.urls@[lowercase_of(file_path@)]),
            file_path@.len() > 0 && !self.urls@.dom().contains(lowercase_of(file_path@)) ==> (r
                matches IconLookup::Miss { key } && key@ == lowercase_of(file_path@)),
            r matches IconLookup::Hit { url } ==> icon_answer_shape(url@),
    {
        if chars_of(file_path).len() == 0 {
            return IconLookup::Empty;
        }
        let key = to_lowercase(file_path);
        match self.urls.get(key.as_str()) {
            Some(u) => IconLookup::Hit { url: u.clone() },
            None => IconLookup::Miss { key },
        }
    }

    /// Keeps the answer computed for `key`: the `data:` URL of the ICO file
    /// when the icon could be read, else the empty string (a failure is
    /// cached too); the answer is returned.
    pub fn store(&mut self, key: String, ico: Option<Vec<u8>>) -> (url: String)
        requires
            old(self).wf(),
        ensures
            final(self).wf(),
            url@ == (match ico {
                Some(b) => icon_data_url_of(b@),
                None => Seq::<char>::empty(),
            }),
            final(self).urls@ == old(self).urls@.insert(key@, url),
    {
        let url = match &ico {
            Some(b) => icon_data_url(b),
            None => String::new(),
        };
        proof {
            reveal_strlit("data:image/x-icon;base64,");
            assert(icon_answer_shape(url@)) by {
                if ico is Some {
                    assert("data:image/x-icon;base64,"@.is_prefix_of(url@)) by {
                        assert(url@.subrange(0, 25) =~= "data:image/x-icon;base64,"@);
                    }
                }
            }
        }
        self.urls.insert(key, url.clone());
        url
    }
}

/// An icon computed for a path is what the cache answers for that path, and
/// for any path that differs from it only in case.
pub proof fn law_icon_cache_read_back(before: IconCache, after: IconCache, key: Seq<char>, url: String, path: Seq<char>)
    requires
        after.urls@ == before.urls@.insert(key, url),
        lowercase_of(path) == key,
    ensures
        after.urls@.dom().contains(lowercase_of(path)) && after.urls@[lowercase_of(path)] == url,
{
}

/// Whatever the cache answers for a path is the empty string (no icon) or
/// an ICO `data:` URL.
pub proof fn law_icon_answers_are_urls(c: IconCache, k: Seq<char>)
    requires
        c.wf(),
        c.urls@.dom().contains(k),
    ensures
        icon_answer_shape(c.urls@[k]@),
{
}

} // verus!
