//! Timeline media: file extensions and content types, safe paths, file names
//! and decoding uploads.
use vstd::prelude::*;

use base64::Engine;

use crate::chat::{hex_lower, to_hex};
use crate::num::{digits_of, format_u64};
use crate::text::{
    ascii_lower, char_lower, char_width, chars_of, contains_char, contains_infix, has_infix, has_prefix,
    lower_ascii, push_str, starts_with, string_of, utf8_len, utf8_width, lemma_utf8_len_mono,
};

verus! {

/// `s` with ASCII letters lower-cased, as characters.
fn lower_chars(s: &str) -> (r: Vec<char>)
    ensures
        r@ == lower_ascii(s@),
{
    let cs = chars_of(s);
    let mut out: Vec<char> = Vec::new();
    let mut i: usize = 0;
    while i < cs.len()
        invariant
            i <= cs@.len(),
            cs@ == s@,
            out@ == lower_ascii(cs@.take(i as int)),
        decreases cs@.len() - i,
    {
        out.push(char_lower(cs[i]));
        proof {
            assert(lower_ascii(cs@.take(i + 1)) =~= lower_ascii(cs@.take(i as int)).push(ascii_lower(cs@[i as int])));
        }
        i += 1;
    }
    proof {
        assert(cs@.take(cs@.len() as int) =~= cs@);
    }
    out
}

fn is(cs: &Vec<char>, lit: &str) -> (r: bool)
    ensures
        r == (cs@ == lit@),
{
    let l = chars_of(lit);
    crate::text::chars_eq(cs.as_slice(), l.as_slice())
}

/// The file extension for a media type (case-insensitive); `.bin` when unknown.
pub open spec fn mime_to_ext_spec(mime: Seq<char>) -> Seq<char> {
    let m = lower_ascii(mime);
    if m == "image/jpeg"@ || m == "image/jpg"@ {
        ".jpg"@
    } else if m == "image/png"@ {
        ".png"@
    } else if m == "image/webp"@ {
        ".webp"@
    } else if m == "image/gif"@ {
        ".gif"@
    } else if m == "image/heic"@ {
        ".heic"@
    } else if m == "image/heif"@ {
        ".heif"@
    } else if m == "video/mp4"@ {
        ".mp4"@
    } else if m == "video/quicktime"@ {
        ".mov"@
    } else if m == "video/webm"@ {
        ".webm"@
    } else if m == "video/x-m4v"@ {
        ".m4v"@
    } else {
        ".bin"@
    }
}

pub fn mime_to_ext(mime: &str) -> (r: &'static str)
    ensures
        r@ == mime_to_ext_spec(mime@),
{
    let m = lower_chars(mime);
    if is(&m, "image/jpeg") || is(&m, "image/jpg") {
        ".jpg"
    } else if is(&m, "image/png") {
        ".png"
    } else if is(&m, "image/webp") {
        ".webp"
    } else if is(&m, "image/gif") {
        ".gif"
    } else if is(&m, "image/heic") {
        ".heic"
    } else if is(&m, "image/heif") {
        ".heif"
    } else if is(&m, "video/mp4") {
        ".mp4"
    } else if is(&m, "video/quicktime") {
        ".mov"
    } else if is(&m, "video/webm") {
        ".webm"
    } else if is(&m, "video/x-m4v") {
        ".m4v"
    } else {
        ".bin"
    }
}

/// The extensions a stored media file may have.
pub open spec fn allowed_ext(ext: Seq<char>) -> bool {
    ext == ".jpg"@ || ext == ".jpeg"@ || ext == ".png"@ || ext == ".webp"@ || ext == ".gif"@ || ext
        == ".heic"@ || ext == ".heif"@ || ext == ".mp4"@ || ext == ".mov"@ || ext == ".webm"@ || ext
        == ".m4v"@
}

/// The text after the last `.` of `s`, empty when there is none.
pub open spec fn last_ext(s: Seq<char>) -> Seq<char>
    decreases s.len(),
{
    if s.len() == 0 {
        seq![]
    } else if s.last() == '.' {
        seq![]
    } else if !s.drop_last().contains('.') {
        seq![]
    } else {
        last_ext(s.drop_last()).push(s.last())
    }
}

/// The content type a media file is served with, by extension (case-insensitive).
pub open spec fn content_type_spec(filename: Seq<char>) -> Seq<char> {
    let e = last_ext(lower_ascii(filename));
    if e == "jpg"@ || e == "jpeg"@ {
        "image/jpeg"@
    } else if e == "png"@ {
        "image/png"@
    } else if e == "webp"@ {
        "image/webp"@
    } else if e == "gif"@ {
        "image/gif"@
    } else if e == "heic"@ {
        "image/heic"@
    } else if e == "heif"@ {
        "image/heif"@
    } else if e == "mp4"@ {
        "video/mp4"@
    } else if e == "mov"@ {
        "video/quicktime"@
    } else if e == "webm"@ {
        "video/webm"@
    } else if e == "m4v"@ {
        "video/x-m4v"@
    } else {
        "application/octet-stream"@
    }
}

fn ext_after_last_dot(cs: &Vec<char>) -> (r: Vec<char>)
    ensures
        r@ == last_ext(cs@),
{
    let mut k = cs.len();
    while k > 0 && cs[k - 1] != '.'
        invariant
            k <= cs@.len(),
            forall|j: int| k <= j < cs@.len() ==> cs@[j] != '.',
        decreases k,
    {
        k -= 1;
    }
    let mut out: Vec<char> = Vec::new();
    if k > 0 {
        let mut i = k;
        while i < cs.len()
            invariant
                k <= i <= cs@.len(),
                out@ == cs@.subrange(k as int, i as int),
            decreases cs@.len() - i,
        {
            out.push(cs[i]);
            proof {
                assert(cs@.subrange(k as int, i + 1) =~= cs@.subrange(k as int, i as int).push(cs@[i as int]));
            }
            i += 1;
        }
        proof {
            lemma_last_ext_at(cs@, k as int);
        }
    } else {
        proof {
            lemma_last_ext_none(cs@);
        }
    }
    out
}

proof fn lemma_last_ext_none(s: Seq<char>)
    requires
        forall|j: int| 0 <= j < s.len() ==> s[j] != '.',
    ensures
        last_ext(s) == Seq::<char>::empty(),
{
    if s.len() > 0 {
        assert(!s.drop_last().contains('.')) by {
            if s.drop_last().contains('.') {
                let j = choose|j: int| 0 <= j < s.drop_last().len() && s.drop_last()[j] == '.';
                assert(s[j] == '.');
            }
        }
    }
}

proof fn lemma_last_ext_at(s: Seq<char>, k: int)
    requires
        0 < k <= s.len(),
        s[k - 1] == '.',
        forall|j: int| k <= j < s.len() ==> s[j] != '.',
    ensures
        last_ext(s) == s.subrange(k, s.len() as int),
    decreases s.len(),
{
    if s.len() == k {
        assert(s.subrange(k, s.len() as int) =~= Seq::<char>::empty());
    } else {
        assert(s.drop_last()[k - 1] == '.');
        assert(s.drop_last().contains('.'));
        lemma_last_ext_at(s.drop_last(), k);
        assert(s.subrange(k, s.len() as int) =~= s.drop_last().subrange(k, s.drop_last().len() as int).push(s.last()));
    }
}

pub fn content_type_for(filename: &str) -> (r: &'static str)
    ensures
        r@ == content_type_spec(filename@),
{
    let lower = lower_chars(filename);
    let e = ext_after_last_dot(&lower);
    if is(&e, "jpg") || is(&e, "jpeg") {
        "image/jpeg"
    } else if is(&e, "png") {
        "image/png"
    } else if is(&e, "webp") {
        "image/webp"
    } else if is(&e, "gif") {
        "image/gif"
    } else if is(&e, "heic") {
        "image/heic"
    } else if is(&e, "heif") {
        "image/heif"
    } else if is(&e, "mp4") {
        "video/mp4"
    } else if is(&e, "mov") {
        "video/quicktime"
    } else if is(&e, "webm") {
        "video/webm"
    } else if is(&e, "m4v") {
        "video/x-m4v"
    } else {
        "application/octet-stream"
    }
}

/// `"video"` for a video media type (case-insensitive), `"photo"` otherwise.
pub open spec fn media_type_spec(mime: Seq<char>) -> Seq<char> {
    if has_prefix(lower_ascii(mime), "video/"@) {
        "video"@
    } else {
        "photo"@
    }
}

pub fn media_type_of(mime: &str) -> (r: &'static str)
    ensures
        r@ == media_type_spec(mime@),
{
    let m = lower_chars(mime);
    let p = chars_of("video/");
    if starts_with(m.as_slice(), p.as_slice()) {
        "video"
    } else {
        "photo"
    }
}

/// `dir` joined with a relative file name, as `Path::join` does.
pub open spec fn join_spec(dir: Seq<char>, name: Seq<char>) -> Seq<char> {
    if dir.len() == 0 {
        name
    } else if dir.last() == '/' {
        dir + name
    } else {
        dir + seq!['/'] + name
    }
}

/// A served file name is refused when it holds `/`, `\` or `..`.
pub open spec fn unsafe_name(name: Seq<char>) -> bool {
    name.contains('/') || name.contains('\\') || has_infix(name, ".."@)
}

/// The path of a media file under `media_dir`, refused (`None`) for names
/// that could leave the directory.
pub fn resolve_media_path(media_dir: &str, filename: &str) -> (r: Option<String>)
    ensures
        match r {
            Some(p) => !unsafe_name(filename@) && p@ == join_spec(media_dir@, filename@),
            None => unsafe_name(filename@),
        },
{
    let name = chars_of(filename);
    let dots = chars_of("..");
    if contains_char(name.as_slice(), '/') || contains_char(name.as_slice(), '\\') || contains_infix(
        name.as_slice(),
        dots.as_slice(),
    ) {
        return None;
    }
    let dir = chars_of(media_dir);
    let mut out: Vec<char> = dir.clone();
    if dir.len() > 0 && dir[dir.len() - 1] != '/' {
        out.push('/');
    }
    let mut i: usize = 0;
    let ghost base = out@;
    while i < name.len()
        invariant
            i <= name@.len(),
            out@ == base + name@.take(i as int),
        decreases name@.len() - i,
    {
        out.push(name[i]);
        proof {
            assert(name@.take(i + 1) =~= name@.take(i as int).push(name@[i as int]));
        }
        i += 1;
    }
    proof {
        assert(name@.take(name@.len() as int) =~= name@);
        if dir@.len() == 0 {
            assert(base =~= Seq::<char>::empty());
            assert(out@ =~= name@);
        } else if dir@.last() == '/' {
            assert(base == dir@);
        } else {
            assert(base =~= dir@ + seq!['/']);
        }
    }
    Some(string_of(out.as_slice()))
}

/// The characters of the first `n` bytes of `s` (`str::get(0..n)`), when `n`
/// falls on a character boundary within `s`.
pub open spec fn byte_prefix(s: Seq<char>, n: nat) -> Option<Seq<char>> {
    if exists|k: int| 0 <= k <= s.len() && utf8_len(#[trigger] s.take(k)) == n {
        Some(s.take(choose|k: int| 0 <= k <= s.len() && utf8_len(#[trigger] s.take(k)) == n))
    } else {
        None
    }
}

/// `s` without any `-`.
pub open spec fn without_dashes(s: Seq<char>) -> Seq<char> {
    s.filter(|c: char| c != '-')
}

fn remove_dashes(cs: &[char]) -> (r: Vec<char>)
    ensures
        r@ == without_dashes(cs@),
{
    let mut out: Vec<char> = Vec::new();
    let mut i: usize = 0;
    while i < cs.len()
        invariant
            i <= cs@.len(),
            out@ == without_dashes(cs@.take(i as int)),
        decreases cs@.len() - i,
    {
        proof {
            assert(cs@.take(i + 1) =~= cs@.take(i as int).push(cs@[i as int]));
            cs@.take(i as int).lemma_filter_push(cs@[i as int], |c: char| c != '-');
        }
        if cs[i] != '-' {
            out.push(cs[i]);
        }
        i += 1;
    }
    proof {
        assert(cs@.take(cs@.len() as int) =~= cs@);
    }
    out
}

/// The year-month part of a stored file name: the date's first seven bytes
/// without dashes (`2026-07-06` gives `202607`), or `000000` when the date is
/// shorter or the seventh byte splits a character.
pub open spec fn yyyymm_spec(date: Seq<char>) -> Seq<char> {
    match byte_prefix(date, 7) {
        Some(p) => without_dashes(p),
        None => without_dashes("000000"@),
    }
}

pub fn yyyymm(date: &str) -> (r: Vec<char>)
    ensures
        r@ == yyyymm_spec(date@),
{
    let cs = chars_of(date);
    let mut k: usize = 0;
    let mut bytes: usize = 0;
    while k < cs.len() && bytes < 7
        invariant
            k <= cs@.len(),
            cs@ == date@,
            bytes == utf8_len(cs@.take(k as int)),
            forall|j: int| 0 <= j < k ==> utf8_len(#[trigger] cs@.take(j)) < 7,
        decreases cs@.len() - k,
    {
        proof {
            assert(cs@.take(k + 1).drop_last() =~= cs@.take(k as int));
        }
        bytes = bytes + char_width(cs[k]);
        k += 1;
    }
    if bytes == 7 {
        proof {
            assert(utf8_len(date@.take(k as int)) == 7);
            let c = choose|c: int| 0 <= c <= date@.len() && utf8_len(#[trigger] date@.take(c)) == 7;
            if c < k {
                lemma_utf8_len_mono(date@, c, k as int);
            } else if c > k {
                lemma_utf8_len_mono(date@, k as int, c);
            }
        }
        let p = crate::text::slice_chars(cs.as_slice(), 0, k);
        proof {
            assert(cs@.subrange(0, k as int) =~= cs@.take(k as int));
        }
        remove_dashes(p.as_slice())
    } else {
        proof {
            assert(!(exists|c: int| 0 <= c <= date@.len() && utf8_len(#[trigger] date@.take(c)) == 7)) by {
                if exists|c: int| 0 <= c <= date@.len() && utf8_len(#[trigger] date@.take(c)) == 7 {
                    let c = choose|c: int| 0 <= c <= date@.len() && utf8_len(#[trigger] date@.take(c)) == 7;
                    if c < k {
                    } else if c > k {
                        lemma_utf8_len_mono(date@, k as int, c);
                        if k < cs@.len() {
                            assert(bytes >= 7);
                        }
                    }
                }
            }
        }
        let z = chars_of("000000");
        remove_dashes(z.as_slice())
    }
}

/// Lower-case hexadecimal digits of `m`, without leading zeros.
pub open spec fn hex_of(m: nat) -> Seq<char>
    decreases m,
{
    if m < 16 {
        seq![crate::chat::hex_digit(m as u8)]
    } else {
        hex_of(m / 16).push(crate::chat::hex_digit((m % 16) as u8))
    }
}

/// `hex_of(m)` padded with zeros to at least `w` digits (`{:0w$x}`).
pub open spec fn hex_padded(m: nat, w: nat) -> Seq<char> {
    let h = hex_of(m);
    if h.len() >= w {
        h
    } else {
        Seq::new((w - h.len()) as nat, |i: int| '0') + h
    }
}

fn hex_digits(m: u64) -> (r: Vec<char>)
    ensures
        r@ == hex_of(m as nat),
    decreases m,
{
    if m < 16 {
        let c = crate::chat::hex_char((m % 16) as u8);
        vec![c]
    } else {
        let mut v = hex_digits(m / 16);
        v.push(crate::chat::hex_char((m % 16) as u8));
        v
    }
}

fn hex_pad8(m: u64) -> (r: Vec<char>)
    ensures
        r@ == hex_padded(m as nat, 8),
{
    let h = hex_digits(m);
    if h.len() >= 8 {
        return h;
    }
    let pad = 8 - h.len();
    let mut out: Vec<char> = Vec::new();
    let mut i: usize = 0;
    while i < pad
        invariant
            i <= pad,
            out@ == Seq::new(i as nat, |j: int| '0'),
        decreases pad - i,
    {
        out.push('0');
        proof {
            assert(out@ =~= Seq::new((i + 1) as nat, |j: int| '0'));
        }
        i += 1;
    }
    let mut k: usize = 0;
    let ghost zeros = out@;
    while k < h.len()
        invariant
            k <= h@.len(),
            out@ == zeros + h@.take(k as int),
        decreases h@.len() - k,
    {
        out.push(h[k]);
        proof {
            assert(h@.take(k + 1) =~= h@.take(k as int).push(h@[k as int]));
        }
        k += 1;
    }
    proof {
        assert(h@.take(h@.len() as int) =~= h@);
    }
    out
}

/// The name a stored upload gets: `{yyyymm}-{millis}-{suffix}{ext}`, the
/// suffix being the random bytes in hexadecimal, or the milliseconds in
/// zero-padded hexadecimal when no random bytes could be had.
pub open spec fn media_filename_spec(date: Seq<char>, millis: u64, random: Option<Seq<u8>>, ext: Seq<char>) -> Seq<char> {
    yyyymm_spec(date) + "-"@ + digits_of(millis as nat) + "-"@ + match random {
        Some(b) => hex_lower(b),
        None => hex_padded(millis as nat, 8),
    } + ext
}

pub fn media_filename(date: &str, millis: u64, random: Option<Vec<u8>>, ext: &str) -> (r: String)
    ensures
        r@ == media_filename_spec(date@, millis, match random {
            Some(b) => Some(b@),
            None => None,
        }, ext@),
{
    let y = yyyymm(date);
    let mut out = string_of(y.as_slice());
    push_str(&mut out, "-");
    let ms = format_u64(millis);
    push_str(&mut out, ms.as_str());
    push_str(&mut out, "-");
    let suffix = match &random {
        Some(b) => to_hex(b.as_slice()),
        None => {
            let h = hex_pad8(millis);
            string_of(h.as_slice())
        },
    };
    push_str(&mut out, suffix.as_str());
    push_str(&mut out, ext);
    out
}

/// The bytes that standard base64 text decodes to, or `None` for text that is
/// not valid standard base64.
pub uninterp spec fn base64_standard_decode(text: Seq<u8>) -> Option<Seq<u8>>;

/// `base64::engine::general_purpose::STANDARD.decode`: the decoded bytes, or
/// the decoder's error text.
#[verifier::external_body]
fn decode_base64(text: &str) -> (r: Result<Vec<u8>, String>)
    ensures
        match r {
            Ok(b) => base64_standard_decode(vstd::utf8::encode_utf8(text@)) == Some(b@),
            Err(_) => base64_standard_decode(vstd::utf8::encode_utf8(text@)) is None,
        },
{
    match base64::engine::general_purpose::STANDARD.decode(text.as_bytes()) {
        Ok(b) => Ok(b),
        Err(e) => Err(e.to_string()),
    }
}

/// The extension an upload of media type `mime` is stored with, or the
/// refusal for a type that maps to no allowed extension.
pub fn media_ext(mime: &str) -> (r: Result<&'static str, String>)
    ensures
        match r {
            Ok(e) => e@ == mime_to_ext_spec(mime@) && allowed_ext(e@),
            Err(m) => mime_to_ext_spec(mime@) == ".bin"@ && m@ == "不正なメディア形式: "@ + mime@,
        },
{
    let ext = mime_to_ext(mime);
    let e = chars_of(ext);
    proof {
        let x = mime_to_ext_spec(mime@);
        assert(allowed_ext(x) || x == ".bin"@);
    }
    if is(&e, ".bin") {
        let mut m = "不正なメディア形式: ".to_owned();
        push_str(&mut m, mime);
        Err(m)
    } else {
        Ok(ext)
    }
}

/// The bytes of an upload, or the refusal when the text is not base64.
pub fn media_bytes(base64_data: &str) -> (r: Result<Vec<u8>, String>)
    ensures
        match r {
            Ok(b) => base64_standard_decode(vstd::utf8::encode_utf8(base64_data@)) == Some(b@),
            Err(_) => base64_standard_decode(vstd::utf8::encode_utf8(base64_data@)) is None,
        },
{
    match decode_base64(base64_data) {
        Ok(b) => Ok(b),
        Err(e) => {
            let mut m = "base64 のデコードに失敗しました: ".to_owned();
            push_str(&mut m, e.as_str());
            Err(m)
        },
    }
}

} // verus!
