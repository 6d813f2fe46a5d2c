//! Static front-end files and the headers every response carries.
use vstd::prelude::*;

use super::csrf::{find_first, find_last, split_chars, split_on};
use crate::text::{chars_of, is_ascii_alnum, slice_chars, starts_with};

verus! {

/// The cache policy of fingerprinted assets.
pub const IMMUTABLE: &'static str = "public, max-age=31536000, immutable";

/// The cache policy of everything else.
pub const NO_CACHE: &'static str = "no-cache, no-store, must-revalidate";

/// The largest request body, in bytes.
pub const MAX_BODY_BYTES: usize = 10 * 1024 * 1024;

pub open spec fn is_hash_char(c: char) -> bool {
    is_ascii_alnum(c) || c == '_' || c == '-'
}

/// The file name of an asset path: after `/assets/`, after the last `/`.
pub open spec fn asset_name(path: Seq<char>) -> Option<Seq<char>> {
    if !crate::text::has_prefix(path, "/assets/"@) {
        None
    } else {
        let rest = path.skip("/assets/"@.len() as int);
        Some(match super::csrf::last_index(rest, '/') {
            Some(i) => rest.skip(i + 1),
            None => rest,
        })
    }
}

/// A listed extension.
pub open spec fn listed_ext(ext: Seq<char>) -> bool {
    ext == "js"@ || ext == "css"@ || ext == "woff"@ || ext == "woff2"@ || ext == "png"@ || ext == "jpg"@
        || ext == "jpeg"@ || ext == "svg"@ || ext == "webp"@
}

/// A stem `{name}-{hash}` whose hash (after the first `-`) has at least eight
/// letters, digits, `_` or `-`.
pub open spec fn hashed_stem(stem: Seq<char>) -> bool {
    match super::csrf::first_index(stem, '-') {
        None => false,
        Some(k) => {
            let hash = stem.skip(k + 1);
            hash.len() >= 8 && forall|j: int| 0 <= j < hash.len() ==> is_hash_char(#[trigger] hash[j])
        },
    }
}

/// A fingerprinted file name: a hashed stem and a listed extension.
pub open spec fn hashed_name(name: Seq<char>) -> bool {
    match super::csrf::last_index(name, '.') {
        None => false,
        Some(d) => listed_ext(name.skip(d + 1)) && hashed_stem(name.take(d)),
    }
}

/// A fingerprinted asset: `/assets/…/{stem}-{hash}.{ext}` with a listed
/// extension and a hash of at least eight letters, digits, `_` or `-`.
pub open spec fn is_hashed_asset_spec(path: Seq<char>) -> bool {
    match asset_name(path) {
        Some(n) => hashed_name(n),
        None => false,
    }
}

fn is_hash_char_exec(c: char) -> (r: bool)
    ensures
        r == is_hash_char(c),
{
    ('0' <= c && c <= '9') || ('a' <= c && c <= 'z') || ('A' <= c && c <= 'Z') || c == '_' || c == '-'
}

fn same(e: &Vec<char>, lit: &str) -> (r: bool)
    ensures
        r == (e@ == lit@),
{
    let x = chars_of(lit);
    crate::text::chars_eq(e.as_slice(), x.as_slice())
}

fn is_listed_ext(e: &Vec<char>) -> (r: bool)
    ensures
        r == listed_ext(e@),
{
    same(e, "js") || same(e, "css") || same(e, "woff") || same(e, "woff2") || same(e, "png") || same(e, "jpg")
        || same(e, "jpeg") || same(e, "svg") || same(e, "webp")
}

fn all_hash_chars(hash: &Vec<char>) -> (r: bool)
    ensures
        r == forall|m: int| 0 <= m < hash@.len() ==> is_hash_char(#[trigger] hash@[m]),
{
    let mut j: usize = 0;
    while j < hash.len()
        invariant
            j <= hash@.len(),
            forall|m: int| 0 <= m < j ==> is_hash_char(#[trigger] hash@[m]),
        decreases hash@.len() - j,
    {
        if !is_hash_char_exec(hash[j]) {
            return false;
        }
        j += 1;
    }
    true
}

fn asset_name_exec(path: &str) -> (r: Option<Vec<char>>)
    ensures
        match r {
            Some(n) => asset_name(path@) == Some(n@),
            None => asset_name(path@) is None,
        },
{
    let cs = chars_of(path);
    let pre = chars_of("/assets/");
    if !starts_with(cs.as_slice(), pre.as_slice()) {
        return None;
    }
    proof {
        reveal_strlit("/assets/");
    }
    let rest = slice_chars(cs.as_slice(), 8, cs.len());
    proof {
        assert(rest@ =~= path@.skip(8));
    }
    match find_last(rest.as_slice(), '/') {
        Some(i) => {
            let n = slice_chars(rest.as_slice(), i + 1, rest.len());
            proof {
                assert(n@ =~= rest@.skip(i + 1));
            }
            Some(n)
        },
        None => Some(rest),
    }
}

fn hashed_stem_exec(stem: &Vec<char>) -> (r: bool)
    ensures
        r == hashed_stem(stem@),
{
    let k = match find_first(stem.as_slice(), '-') {
        Some(k) => k,
        None => return false,
    };
    let hash = slice_chars(stem.as_slice(), k + 1, stem.len());
    proof {
        assert(hash@ =~= stem@.skip(k + 1));
    }
    hash.len() >= 8 && all_hash_chars(&hash)
}

fn hashed_name_exec(name: &Vec<char>) -> (r: bool)
    ensures
        r == hashed_name(name@),
{
    let d = match find_last(name.as_slice(), '.') {
        Some(d) => d,
        None => return false,
    };
    let stem = slice_chars(name.as_slice(), 0, d);
    let ext = slice_chars(name.as_slice(), d + 1, name.len());
    proof {
        assert(stem@ =~= name@.take(d as int));
        assert(ext@ =~= name@.skip(d + 1));
    }
    is_listed_ext(&ext) && hashed_stem_exec(&stem)
}

/// Whether a request path names a fingerprinted asset (`is_hashed_asset`).
pub fn is_hashed_asset(path: &str) -> (r: bool)
    ensures
        r == is_hashed_asset_spec(path@),
{
    match asset_name_exec(path) {
        Some(n) => hashed_name_exec(&n),
        None => false,
    }
}


/// The last meaningful component of a path's pieces: empty pieces and `.`
/// are skipped.
pub open spec fn last_component(segs: Seq<Seq<char>>) -> Option<Seq<char>>
    decreases segs.len(),
{
    if segs.len() == 0 {
        None
    } else if segs.last().len() == 0 || segs.last() == "."@ {
        last_component(segs.drop_last())
    } else {
        Some(segs.last())
    }
}

/// `Path::extension` is present: the file name (the last component, when not
/// `..`) has a `.` after its first character.
pub open spec fn has_extension_spec(path: Seq<char>) -> bool {
    match last_component(split_on(path, '/')) {
        Some(name) => name != ".."@ && match super::csrf::last_index(name, '.') {
            Some(i) => i > 0,
            None => false,
        },
        None => false,
    }
}

pub fn has_extension(path: &str) -> (r: bool)
    ensures
        r == has_extension_spec(path@),
{
    let cs = chars_of(path);
    let segs = split_chars(cs.as_slice(), '/');
    let ghost sv = split_on(path@, '/');
    let mut k = segs.len();
    let dot = chars_of(".");
    let dotdot = chars_of("..");
    proof {
        assert(sv.take(k as int) =~= sv);
    }
    while k > 0
        invariant
            k <= segs@.len(),
            segs@.len() == sv.len(),
            sv == split_on(path@, '/'),
            forall|i: int| 0 <= i < segs@.len() ==> #[trigger] segs@[i]@ == sv[i],
            last_component(sv) == last_component(sv.take(k as int)),
            dot@ == "."@,
            dotdot@ == ".."@,
        decreases k,
    {
        let seg = &segs[k - 1];
        proof {
            assert(sv.take(k as int).last() == sv[k - 1]);
            assert(sv.take(k as int).drop_last() =~= sv.take(k - 1));
        }
        if seg.len() > 0 && !crate::text::chars_eq(seg.as_slice(), dot.as_slice()) {
            if crate::text::chars_eq(seg.as_slice(), dotdot.as_slice()) {
                return false;
            }
            return match find_last(seg.as_slice(), '.') {
                Some(i) => i > 0,
                None => false,
            };
        }
        k -= 1;
    }
    false
}

/// What a missing static file is answered with.
#[derive(Debug, Clone, Copy, PartialEq, Eq)]
pub enum StaticFallback {
    /// A file was asked for: the 404 page, status 404.
    NotFoundPage,
    /// A client-side route: the application shell, status 200.
    AppShell,
}

/// A missing path with an extension is a missing file; any other is a route.
pub fn static_fallback(path: &str) -> (r: StaticFallback)
    ensures
        r == if has_extension_spec(path@) {
            StaticFallback::NotFoundPage
        } else {
            StaticFallback::AppShell
        },
{
    if has_extension(path) {
        StaticFallback::NotFoundPage
    } else {
        StaticFallback::AppShell
    }
}

/// Only a successfully served fingerprinted asset may be cached for good.
pub fn cache_policy(served_ok: bool, path: &str) -> (r: &'static str)
    ensures
        r@ == if served_ok && is_hashed_asset_spec(path@) {
            IMMUTABLE@
        } else {
            NO_CACHE@
        },
{
    if served_ok && is_hashed_asset(path) {
        IMMUTABLE
    } else {
        NO_CACHE
    }
}

/// The content security policy of every response.
pub const CSP: &'static str = "default-src 'self'; script-src 'self' https://static.cloudflareinsights.com; style-src 'self' 'unsafe-inline' https://fonts.googleapis.com https://fonts.gstatic.com; font-src 'self' https://fonts.gstatic.com https://fonts.googleapis.com; img-src 'self' data: https://assets-global.website-files.com https://cdn.discordapp.com; connect-src 'self' https://cloudflareinsights.com; worker-src 'self'; frame-src 'self'; frame-ancestors 'self';";

/// The security headers set on every response: no sniffing, same-origin
/// framing, the referrer policy and the content security policy; HSTS only
/// when served over HTTPS.
pub open spec fn security_headers_spec(https: bool) -> Seq<(Seq<char>, Seq<char>)> {
    let base = seq![
        ("x-content-type-options"@, "nosniff"@),
        ("x-frame-options"@, "SAMEORIGIN"@),
        ("referrer-policy"@, "strict-origin-when-cross-origin"@),
        ("content-security-policy"@, CSP@),
    ];
    if https {
        base.push(("strict-transport-security"@, "max-age=63072000; includeSubDomains"@))
    } else {
        base
    }
}

pub fn security_headers(https: bool) -> (r: Vec<(&'static str, &'static str)>)
    ensures
        r@.map_values(|h: (&'static str, &'static str)| (h.0@, h.1@)) == security_headers_spec(https),
{
    let mut v: Vec<(&'static str, &'static str)> = Vec::new();
    v.push(("x-content-type-options", "nosniff"));
    v.push(("x-frame-options", "SAMEORIGIN"));
    v.push(("referrer-policy", "strict-origin-when-cross-origin"));
    v.push(("content-security-policy", CSP));
    if https {
        v.push(("strict-transport-security", "max-age=63072000; includeSubDomains"));
    }
    proof {
        assert(v@.map_values(|h: (&'static str, &'static str)| (h.0@, h.1@)) =~= security_headers_spec(https));
    }
    v
}

/// The fingerprinted extensions: scripts, styles, fonts and images.
pub open spec fn fingerprinted_exts() -> Seq<Seq<char>> {
    seq!["js"@, "css"@, "woff"@, "woff2"@, "png"@, "jpg"@, "jpeg"@, "svg"@, "webp"@]
}

proof fn lemma_last_at(s: Seq<char>, c: char, i: int)
    requires
        0 <= i < s.len(),
        s[i] == c,
        forall|j: int| i < j < s.len() ==> s[j] != c,
    ensures
        super::csrf::last_index(s, c) == Some(i),
{
    assert(s.contains(c));
    let k = choose|k: int| 0 <= k < s.len() && s[k] == c && forall|j: int| k < j < s.len() ==> s[j] != c;
    if k < i {
        assert(s[i] != c);
    } else if k > i {
        assert(s[k] != c);
    }
}

proof fn lemma_first_at(s: Seq<char>, c: char, i: int)
    requires
        0 <= i < s.len(),
        s[i] == c,
        forall|j: int| 0 <= j < i ==> s[j] != c,
    ensures
        super::csrf::first_index(s, c) == Some(i),
{
    assert(s.contains(c));
    let k = choose|k: int| 0 <= k < s.len() && s[k] == c && forall|j: int| 0 <= j < k ==> s[j] != c;
    if k < i {
        assert(s[k] != c);
    } else if k > i {
        assert(s[i] != c);
    }
}

/// A file under `/assets/` named `{name}-{hash}.{ext}`, with a hash of at
/// least eight letters, digits, `_` or `-` (and no `-`, `.` or `/` in the
/// name, no `.` or `/` in the extension), is a fingerprinted asset exactly
/// when its extension is `js`, `css`, `woff`, `woff2`, `png`, `jpg`, `jpeg`,
/// `svg` or `webp`: only those are cached as immutable.
pub proof fn lemma_fingerprinted_asset(name: Seq<char>, hash: Seq<char>, ext: Seq<char>)
    requires
        forall|j: int| 0 <= j < name.len() ==> name[j] != '-' && name[j] != '.' && name[j] != '/',
        hash.len() >= 8,
        forall|j: int| 0 <= j < hash.len() ==> #[trigger] is_hash_char(hash[j]),
        forall|j: int| 0 <= j < ext.len() ==> ext[j] != '.' && ext[j] != '/',
    ensures
        is_hashed_asset_spec("/assets/"@ + name + seq!['-'] + hash + seq!['.'] + ext) == fingerprinted_exts().contains(
            ext,
        ),
{
    let pre = "/assets/"@;
    let file = name + seq!['-'] + hash + seq!['.'] + ext;
    let path = pre + file;
    assert(path == "/assets/"@ + name + seq!['-'] + hash + seq!['.'] + ext) by {
        assert(path =~= "/assets/"@ + name + seq!['-'] + hash + seq!['.'] + ext);
    }
    assert(path.take(pre.len() as int) =~= pre);
    assert(path.skip(pre.len() as int) =~= file);
    let stem = name + seq!['-'] + hash;
    let d = stem.len() as int;
    assert(file[d] == '.');
    assert forall|j: int| 0 <= j < file.len() implies file[j] != '/' by {
        if j < name.len() {
            assert(file[j] == name[j]);
        } else if j == name.len() {
        } else if j < d {
            assert(file[j] == hash[j - name.len() - 1]);
            assert(is_hash_char(hash[j - name.len() - 1]));
        } else if j == d {
        } else {
            assert(file[j] == ext[j - d - 1]);
        }
    }
    assert(!file.contains('/'));
    assert forall|j: int| d < j < file.len() implies file[j] != '.' by {
        assert(file[j] == ext[j - d - 1]);
    }
    lemma_last_at(file, '.', d);
    assert(file.skip(d + 1) =~= ext);
    assert(file.take(d) =~= stem);
    let k = name.len() as int;
    assert(stem[k] == '-');
    assert forall|j: int| 0 <= j < k implies stem[j] != '-' by {
        assert(stem[j] == name[j]);
    }
    lemma_first_at(stem, '-', k);
    assert(stem.skip(k + 1) =~= hash);
    let exts = fingerprinted_exts();
    assert(exts[0] == "js"@ && exts[1] == "css"@ && exts[2] == "woff"@ && exts[3] == "woff2"@ && exts[4] == "png"@
        && exts[5] == "jpg"@ && exts[6] == "jpeg"@ && exts[7] == "svg"@ && exts[8] == "webp"@);
    if exts.contains(ext) {
        let i = choose|i: int| 0 <= i < exts.len() && exts[i] == ext;
        assert(ext == exts[i]);
    }
}

} // verus!
