//! Cross-site request forgery checks and host names of URLs.
//!
//! A state-changing request that carries the session cookie (an ambient
//! credential) and no bearer token must come from the site itself: a
//! `Sec-Fetch-Site: cross-site` is refused outright; otherwise the host of
//! `Origin` (unless `null`) or else `Referer` must be the allowed host. With
//! neither header the request passes (the cookie is `SameSite=Lax`).
use vstd::prelude::*;

use crate::text::{
    chars_of, eq_ignore_ascii_case, is_ascii_digit, is_ws, lower_ascii, slice_chars, trim,
    trim_chars, char_is_ws,
};

verus! {

/// The name of the session cookie when served over HTTPS.
pub open spec fn cookie_host() -> Seq<char> {
    "__Host-yuuka-session"@
}

/// The name of the session cookie in development.
pub open spec fn cookie_dev() -> Seq<char> {
    "yuuka-session"@
}

/// HTTP methods, as far as the checks tell them apart.
#[derive(Debug, Clone, Copy, PartialEq, Eq)]
pub enum Method {
    Get,
    Head,
    Options,
    Post,
    Put,
    Patch,
    Delete,
    Other,
}

/// POST, PUT, PATCH and DELETE change state.
pub fn is_state_changing(m: Method) -> (r: bool)
    ensures
        r == (m == Method::Post || m == Method::Put || m == Method::Patch || m == Method::Delete),
{
    match m {
        Method::Post | Method::Put | Method::Patch | Method::Delete => true,
        _ => false,
    }
}

/// The token of an `Authorization` value: the scheme word `bearer` (any
/// case), white space, then a non-blank token, trimmed.
pub open spec fn bearer_token_spec(raw: Seq<char>) -> Option<Seq<char>> {
    if raw.len() > 6 && lower_ascii(raw.take(6)) == "bearer"@ && is_ws(raw[6]) && trim(raw.skip(6)).len() > 0 {
        Some(trim(raw.skip(6)))
    } else {
        None
    }
}

/// The bearer token of an `Authorization` header value.
pub fn bearer_token(raw: &str) -> (r: Option<String>)
    ensures
        crate::json::opt_view(r) == bearer_token_spec(raw@),
{
    let cs = chars_of(raw);
    if cs.len() <= 6 {
        return None;
    }
    let scheme = slice_chars(cs.as_slice(), 0, 6);
    let word = chars_of("bearer");
    proof {
        reveal_strlit("bearer");
        assert(scheme@ =~= raw@.take(6));
        assert(lower_ascii(word@) =~= word@);
    }
    if !eq_ignore_ascii_case(scheme.as_slice(), word.as_slice()) {
        return None;
    }
    if !char_is_ws(cs[6]) {
        return None;
    }
    let rest = slice_chars(cs.as_slice(), 6, cs.len());
    proof {
        assert(rest@ =~= raw@.skip(6));
    }
    let t = trim_chars(rest.as_slice());
    if t.len() == 0 {
        None
    } else {
        Some(crate::text::string_of(t.as_slice()))
    }
}

/// Whether the request carries a (non-blank) bearer token.
pub fn has_bearer(authorization: Option<&str>) -> (r: bool)
    ensures
        r == match authorization {
            Some(a) => bearer_token_spec(a@) is Some,
            None => false,
        },
{
    match authorization {
        Some(a) => bearer_token(a).is_some(),
        None => false,
    }
}

/// The pieces of `s` between `sep` characters (`str::split`).
pub open spec fn split_on(s: Seq<char>, sep: char) -> Seq<Seq<char>>
    decreases s.len(),
{
    if s.len() == 0 {
        seq![seq![]]
    } else {
        let prev = split_on(s.drop_last(), sep);
        if s.last() == sep {
            prev.push(seq![])
        } else {
            prev.update(prev.len() - 1, prev.last().push(s.last()))
        }
    }
}

proof fn lemma_split_on_nonempty(s: Seq<char>, sep: char)
    ensures
        split_on(s, sep).len() > 0,
    decreases s.len(),
{
    if s.len() > 0 {
        lemma_split_on_nonempty(s.drop_last(), sep);
    }
}

/// Splits `s` at every `sep`.
pub fn split_chars(s: &[char], sep: char) -> (r: Vec<Vec<char>>)
    ensures
        r@.len() == split_on(s@, sep).len(),
        forall|i: int| 0 <= i < r@.len() ==> #[trigger] r@[i]@ == split_on(s@, sep)[i],
{
    let mut out: Vec<Vec<char>> = Vec::new();
    let mut cur: Vec<char> = Vec::new();
    let mut i: usize = 0;
    proof {
        assert(s@.take(0) =~= Seq::<char>::empty());
    }
    while i < s.len()
        invariant
            i <= s@.len(),
            out@.len() + 1 == split_on(s@.take(i as int), sep).len(),
            forall|k: int| 0 <= k < out@.len() ==> #[trigger] out@[k]@ == split_on(s@.take(i as int), sep)[k],
            cur@ == split_on(s@.take(i as int), sep).last(),
        decreases s@.len() - i,
    {
        proof {
            assert(s@.take(i + 1).drop_last() =~= s@.take(i as int));
            assert(s@.take(i + 1).last() == s@[i as int]);
            lemma_split_on_nonempty(s@.take(i as int), sep);
        }
        if s[i] == sep {
            let done = cur;
            out.push(done);
            cur = Vec::new();
            proof {
                assert(cur@ =~= Seq::<char>::empty());
            }
        } else {
            cur.push(s[i]);
        }
        i += 1;
    }
    out.push(cur);
    proof {
        assert(s@.take(s@.len() as int) =~= s@);
    }
    out
}

/// The position of the first `c` in `s`.
pub open spec fn first_index(s: Seq<char>, c: char) -> Option<int> {
    if s.contains(c) {
        Some(choose|i: int| 0 <= i < s.len() && s[i] == c && forall|j: int| 0 <= j < i ==> s[j] != c)
    } else {
        None
    }
}

/// The position of the last `c` in `s`.
pub open spec fn last_index(s: Seq<char>, c: char) -> Option<int> {
    if s.contains(c) {
        Some(choose|i: int| 0 <= i < s.len() && s[i] == c && forall|j: int| i < j < s.len() ==> s[j] != c)
    } else {
        None
    }
}

pub(crate) fn find_first(s: &[char], c: char) -> (r: Option<usize>)
    ensures
        match r {
            Some(i) => i < s.len() && s@[i as int] == c && first_index(s@, c) == Some(i as int),
            None => first_index(s@, c) is None,
        },
{
    let mut i: usize = 0;
    while i < s.len()
        invariant
            i <= s@.len(),
            forall|j: int| 0 <= j < i ==> s@[j] != c,
        decreases s@.len() - i,
    {
        if s[i] == c {
            proof {
                let k = choose|k: int| 0 <= k < s@.len() && s@[k] == c && forall|j: int| 0 <= j < k ==> s@[j] != c;
                if k < i {
                } else if k > i {
                    assert(s@[i as int] == c);
                }
            }
            return Some(i);
        }
        i += 1;
    }
    None
}

pub(crate) fn find_last(s: &[char], c: char) -> (r: Option<usize>)
    ensures
        match r {
            Some(i) => i < s.len() && s@[i as int] == c && last_index(s@, c) == Some(i as int),
            None => last_index(s@, c) is None,
        },
{
    let mut k = s.len();
    while k > 0
        invariant
            k <= s@.len(),
            forall|j: int| k <= j < s@.len() ==> s@[j] != c,
        decreases k,
    {
        if s[k - 1] == c {
            proof {
                let m = choose|m: int| 0 <= m < s@.len() && s@[m] == c && forall|j: int| m < j < s@.len() ==> s@[j] != c;
                if m < k - 1 {
                    assert(s@[k - 1] == c);
                } else if m > k - 1 {
                }
            }
            return Some(k - 1);
        }
        k -= 1;
    }
    None
}

/// A cookie piece's key and value: split at the first `=`, both trimmed.
pub open spec fn cookie_pair(piece: Seq<char>) -> Option<(Seq<char>, Seq<char>)> {
    match first_index(piece, '=') {
        Some(i) => Some((trim(piece.take(i)), trim(piece.skip(i + 1)))),
        None => None,
    }
}

fn cookie_pair_exec(piece: &Vec<char>) -> (r: Option<(Vec<char>, Vec<char>)>)
    ensures
        match r {
            Some((k, v)) => cookie_pair(piece@) == Some((k@, v@)),
            None => cookie_pair(piece@) is None,
        },
{
    match find_first(piece.as_slice(), '=') {
        Some(i) => {
            let k = slice_chars(piece.as_slice(), 0, i);
            let v = slice_chars(piece.as_slice(), i + 1, piece.len());
            proof {
                assert(k@ =~= piece@.take(i as int));
                assert(v@ =~= piece@.skip(i + 1));
            }
            Some((trim_chars(k.as_slice()), trim_chars(v.as_slice())))
        },
        None => None,
    }
}

/// The key of a cookie piece.
pub open spec fn pair_key(piece: Seq<char>) -> Option<Seq<char>> {
    match cookie_pair(piece) {
        Some(kv) => Some(kv.0),
        None => None,
    }
}

/// The value of a cookie piece.
pub open spec fn pair_value(piece: Seq<char>) -> Option<Seq<char>> {
    match cookie_pair(piece) {
        Some(kv) => Some(kv.1),
        None => None,
    }
}

/// The value of the cookie `name` in a `Cookie` header: the last piece with
/// that key wins.
pub open spec fn cookie_value_spec(raw: Seq<char>, name: Seq<char>) -> Option<Seq<char>> {
    let ps = split_on(raw, ';');
    if exists|i: int| 0 <= i < ps.len() && #[trigger] pair_key(ps[i]) == Some(name) {
        let i = choose|i: int| 0 <= i < ps.len() && #[trigger] pair_key(ps[i]) == Some(name) && forall|j: int|
            i < j < ps.len() ==> pair_key(ps[j]) != Some(name);
        pair_value(ps[i])
    } else {
        None
    }
}

/// The value of cookie `name` in the `Cookie` header `raw`.
pub fn cookie_value(raw: &str, name: &str) -> (r: Option<String>)
    ensures
        crate::json::opt_view(r) == cookie_value_spec(raw@, name@),
{
    let cs = chars_of(raw);
    let want = chars_of(name);
    let pieces = split_chars(cs.as_slice(), ';');
    let ghost ps = split_on(raw@, ';');
    let mut k = pieces.len();
    while k > 0
        invariant
            k <= pieces@.len(),
            pieces@.len() == ps.len(),
            ps == split_on(raw@, ';'),
            want@ == name@,
            forall|i: int| 0 <= i < pieces@.len() ==> #[trigger] pieces@[i]@ == ps[i],
            forall|j: int| k <= j < ps.len() ==> #[trigger] pair_key(ps[j]) != Some(name@),
        decreases k,
    {
        let p = &pieces[k - 1];
        match cookie_pair_exec(p) {
            Some((key, val)) => {
                if crate::text::chars_eq(key.as_slice(), want.as_slice()) {
                    proof {
                        let i = (k - 1) as int;
                        assert(pair_key(ps[i]) == Some(name@));
                        let c = choose|c: int| 0 <= c < ps.len() && #[trigger] pair_key(ps[c]) == Some(name@) && forall|j: int|
                            c < j < ps.len() ==> pair_key(ps[j]) != Some(name@);
                        if c < i {
                        } else if c > i {
                        }
                        assert(c == i);
                    }
                    return Some(crate::text::string_of(val.as_slice()));
                }
            },
            None => {},
        }
        k -= 1;
    }
    None
}

/// Whether a `Cookie` header carries the session cookie (either name).
pub open spec fn has_session_cookie_spec(raw: Seq<char>) -> bool {
    cookie_value_spec(raw, cookie_host()) is Some || cookie_value_spec(raw, cookie_dev()) is Some
}

pub fn has_session_cookie(cookie: Option<&str>) -> (r: bool)
    ensures
        r == match cookie {
            Some(c) => has_session_cookie_spec(c@),
            None => false,
        },
{
    match cookie {
        Some(c) => cookie_value(c, "__Host-yuuka-session").is_some() || cookie_value(c, "yuuka-session").is_some(),
        None => false,
    }
}

/// `h` without a trailing `:port` (only a non-empty run of digits is a port).
pub open spec fn host_only_spec(h: Seq<char>) -> Seq<char> {
    match last_index(h, ':') {
        Some(i) => if is_port(h.skip(i + 1)) {
            h.take(i)
        } else {
            h
        },
        None => h,
    }
}

/// Whether `s` is a non-empty run of ASCII digits.
pub open spec fn is_port(s: Seq<char>) -> bool {
    s.len() > 0 && forall|j: int| 0 <= j < s.len() ==> is_ascii_digit(#[trigger] s[j])
}

fn digits_only(p: &[char]) -> (r: bool)
    ensures
        r == is_port(p@),
{
    if p.len() == 0 {
        return false;
    }
    let mut j: usize = 0;
    while j < p.len()
        invariant
            j <= p@.len(),
            forall|m: int| 0 <= m < j ==> is_ascii_digit(#[trigger] p@[m]),
        decreases p@.len() - j,
    {
        if !('0' <= p[j] && p[j] <= '9') {
            return false;
        }
        j += 1;
    }
    true
}

pub fn host_only(h: &[char]) -> (r: Vec<char>)
    ensures
        r@ == host_only_spec(h@),
{
    proof {
        assert(h@.subrange(0, h@.len() as int) =~= h@);
    }
    match find_last(h, ':') {
        Some(i) => {
            let port = slice_chars(h, i + 1, h.len());
            proof {
                assert(port@ =~= h@.skip(i + 1));
            }
            if digits_only(port.as_slice()) {
                let r = slice_chars(h, 0, i);
                proof {
                    assert(r@ =~= h@.take(i as int));
                }
                r
            } else {
                slice_chars(h, 0, h.len())
            }
        },
        None => slice_chars(h, 0, h.len()),
    }
}

/// The host of a URL (`Origin` or `Referer`): after `://` if any, up to the
/// first `/`, `?` or `#`, after the last `@`, without a port.
pub open spec fn url_host_spec(url: Seq<char>) -> Seq<char> {
    host_only_spec(after_userinfo(authority_of(after_scheme(url))))
}

/// `url` after its first `://`, or all of it.
pub open spec fn after_scheme(url: Seq<char>) -> Seq<char> {
    if crate::text::has_infix(url, "://"@) {
        url.skip(first_scheme_end(url) + 3)
    } else {
        url
    }
}

/// The flags of the characters that end an authority.
pub open spec fn stops(rest: Seq<char>) -> Seq<bool> {
    Seq::new(rest.len(), |i: int| rest[i] == '/' || rest[i] == '?' || rest[i] == '#')
}

/// `rest` up to its first `/`, `?` or `#`.
pub open spec fn authority_of(rest: Seq<char>) -> Seq<char> {
    if stops(rest).contains(true) {
        rest.take(first_index_bool(stops(rest)))
    } else {
        rest
    }
}

/// `authority` after its last `@`, or all of it.
pub open spec fn after_userinfo(authority: Seq<char>) -> Seq<char> {
    match last_index(authority, '@') {
        Some(i) => authority.skip(i + 1),
        None => authority,
    }
}

/// A `://` starts at `i`.
pub open spec fn scheme_at(url: Seq<char>, i: int) -> bool {
    0 <= i <= url.len() - 3 && url.subrange(i, i + 3) == "://"@
}

/// Where the first `://` of `url` starts.
pub open spec fn first_scheme_end(url: Seq<char>) -> int {
    choose|i: int| #[trigger] scheme_at(url, i) && forall|j: int| 0 <= j < i ==> !#[trigger] scheme_at(url, j)
}

/// The first `true` of `b`.
pub open spec fn first_index_bool(b: Seq<bool>) -> int {
    choose|i: int| 0 <= i < b.len() && b[i] && forall|j: int| 0 <= j < i ==> !b[j]
}


fn scheme_end(url: &[char]) -> (r: Option<usize>)
    ensures
        match r {
            Some(i) => i + 3 <= url.len() && crate::text::has_infix(url@, "://"@) && first_scheme_end(url@) == i as int,
            None => !crate::text::has_infix(url@, "://"@),
        },
{
    let pat = chars_of("://");
    proof {
        reveal_strlit("://");
        assert("://"@ =~= seq![':', '/', '/']);
    }
    if url.len() < 3 {
        proof {
            if crate::text::has_infix(url@, "://"@) {
                let i = choose|i: int| 0 <= i <= url@.len() - "://"@.len() && #[trigger] url@.subrange(i, i + "://"@.len()) == "://"@;
            }
        }
        return None;
    }
    let mut i: usize = 0;
    while i <= url.len() - 3
        invariant
            url@.len() >= 3,
            i <= url@.len() - 2,
            pat@ == "://"@,
            "://"@ == seq![':', '/', '/'],
            forall|j: int| 0 <= j < i ==> !#[trigger] scheme_at(url@, j),
        decreases url@.len() - i,
    {
        if url[i] == ':' && url[i + 1] == '/' && url[i + 2] == '/' {
            proof {
                assert(url@.subrange(i as int, i + 3) =~= "://"@);
                assert(scheme_at(url@, i as int));
                assert(crate::text::has_infix(url@, "://"@));
                let c = first_scheme_end(url@);
                assert(scheme_at(url@, c) && forall|j: int| 0 <= j < c ==> !#[trigger] scheme_at(url@, j));
                if c < i {
                } else if c > i {
                }
            }
            return Some(i);
        }
        proof {
            assert(!scheme_at(url@, i as int)) by {
                if url@.subrange(i as int, i + 3) == "://"@ {
                    assert(url@.subrange(i as int, i + 3)[0] == ':');
                    assert(url@.subrange(i as int, i + 3)[1] == '/');
                    assert(url@.subrange(i as int, i + 3)[2] == '/');
                }
            }
        }
        i += 1;
    }
    proof {
        if crate::text::has_infix(url@, "://"@) {
            let j = choose|j: int| 0 <= j <= url@.len() - "://"@.len() && #[trigger] url@.subrange(j, j + "://"@.len()) == "://"@;
            assert(scheme_at(url@, j));
        }
    }
    None
}

fn authority_end(rest: &[char]) -> (r: usize)
    ensures
        r <= rest@.len(),
        rest@.take(r as int) == authority_of(rest@),
{
    let ghost stop = Seq::new(rest@.len(), |i: int| rest@[i] == '/' || rest@[i] == '?' || rest@[i] == '#');
    let mut i: usize = 0;
    while i < rest.len()
        invariant
            i <= rest@.len(),
            stop == Seq::new(rest@.len(), |i: int| rest@[i] == '/' || rest@[i] == '?' || rest@[i] == '#'),
            forall|j: int| 0 <= j < i ==> !stop[j],
        decreases rest@.len() - i,
    {
        if rest[i] == '/' || rest[i] == '?' || rest[i] == '#' {
            proof {
                assert(stop == stops(rest@));
                assert(stop[i as int]);
                assert(stop.contains(true));
                let c = first_index_bool(stop);
                if c < i {
                } else if c > i {
                }
            }
            return i;
        }
        i += 1;
    }
    proof {
        assert(stop == stops(rest@));
        if stop.contains(true) {
            let j = choose|j: int| 0 <= j < stop.len() && stop[j] == true;
        }
        assert(rest@.take(rest@.len() as int) =~= rest@);
    }
    rest.len()
}

fn after_scheme_exec(cs: Vec<char>) -> (r: Vec<char>)
    ensures
        r@ == after_scheme(cs@),
{
    match scheme_end(cs.as_slice()) {
        Some(i) => {
            let r = slice_chars(cs.as_slice(), i + 3, cs.len());
            proof {
                assert(r@ =~= cs@.skip(i + 3));
            }
            r
        },
        None => cs,
    }
}

fn after_userinfo_exec(a: Vec<char>) -> (r: Vec<char>)
    ensures
        r@ == after_userinfo(a@),
{
    match find_last(a.as_slice(), '@') {
        Some(i) => {
            let h = slice_chars(a.as_slice(), i + 1, a.len());
            proof {
                assert(h@ =~= a@.skip(i + 1));
            }
            h
        },
        None => a,
    }
}

/// The host of a URL (`url_host`).
pub fn url_host(url: &str) -> (r: String)
    ensures
        r@ == url_host_spec(url@),
{
    let cs = chars_of(url);
    let rest = after_scheme_exec(cs);
    let end = authority_end(rest.as_slice());
    let authority = slice_chars(rest.as_slice(), 0, end);
    proof {
        assert(authority@ =~= rest@.take(end as int));
    }
    let host = after_userinfo_exec(authority);
    let h = host_only(host.as_slice());
    crate::text::string_of(h.as_slice())
}

/// The host the site allows: the base URL's host; `None` without a base URL.
pub fn allowed_host_from_base_url(base_url: Option<&str>) -> (r: Option<String>)
    ensures
        crate::json::opt_view(r) == match base_url {
            Some(b) => Some(url_host_spec(b@)),
            None => None,
        },
{
    match base_url {
        Some(b) => Some(url_host(b)),
        None => None,
    }
}

/// A host is the site's own: equal to the allowed host up to ASCII case, or,
/// without one, a loopback name.
pub open spec fn is_allowed_host_spec(hostname: Seq<char>, allowed: Option<Seq<char>>) -> bool {
    match allowed {
        Some(h) => lower_ascii(hostname) == lower_ascii(h),
        None => hostname == "localhost"@ || hostname == "127.0.0.1"@ || hostname == "[::1]"@ || hostname == "::1"@,
    }
}

pub fn is_allowed_host(hostname: &str, allowed_host: Option<&str>) -> (r: bool)
    ensures
        r == is_allowed_host_spec(hostname@, match allowed_host {
            Some(a) => Some(a@),
            None => None,
        }),
{
    let h = chars_of(hostname);
    match allowed_host {
        Some(a) => {
            let ac = chars_of(a);
            eq_ignore_ascii_case(h.as_slice(), ac.as_slice())
        },
        None => crate::text::str_eq(hostname, "localhost") || crate::text::str_eq(hostname, "127.0.0.1")
            || crate::text::str_eq(hostname, "[::1]") || crate::text::str_eq(hostname, "::1"),
    }
}

/// The headers the cross-site check reads (each when present and readable).
#[derive(Debug, Clone, Default)]
pub struct RequestHeaders {
    pub authorization: Option<String>,
    pub cookie: Option<String>,
    pub sec_fetch_site: Option<String>,
    pub origin: Option<String>,
    pub referer: Option<String>,
    /// The request's own `Host`.
    pub host: Option<String>,
}

pub open spec fn hv(o: Option<String>) -> Option<Seq<char>> {
    crate::json::opt_view(o)
}

/// Without a configured host, a source whose host is the request's own host
/// (its `Host` without a port, up to ASCII case) is the same site.
pub open spec fn same_as_request_host(hostname: Seq<char>, allowed: Option<Seq<char>>, host: Option<Seq<char>>) -> bool {
    &&& allowed is None
    &&& host is Some
    &&& lower_ascii(host_only_spec(host->0)) == lower_ascii(hostname)
}

/// The source host is the site's own: allowed, or, without a configured
/// host, the request's own host.
pub open spec fn own_site_spec(hostname: Seq<char>, allowed: Option<Seq<char>>, host: Option<Seq<char>>) -> bool {
    is_allowed_host_spec(hostname, allowed) || same_as_request_host(hostname, allowed, host)
}

/// The request comes from another site: `Sec-Fetch-Site: cross-site`, or an
/// `Origin` (other than `null`) or else `Referer` whose host is not the
/// site's own.
pub open spec fn is_cross_site_spec(h: RequestHeaders, allowed: Option<Seq<char>>) -> bool {
    if hv(h.sec_fetch_site) is Some && lower_ascii(hv(h.sec_fetch_site)->0) == "cross-site"@ {
        true
    } else {
        let source = if hv(h.origin) is Some && lower_ascii(hv(h.origin)->0) != "null"@ {
            hv(h.origin)
        } else {
            hv(h.referer)
        };
        match source {
            None => false,
            Some(url) => !own_site_spec(url_host_spec(url), allowed, hv(h.host)),
        }
    }
}

fn ieq(s: &str, lit: &str) -> (r: bool)
    ensures
        r == (lower_ascii(s@) == lower_ascii(lit@)),
{
    let a = chars_of(s);
    let b = chars_of(lit);
    eq_ignore_ascii_case(a.as_slice(), b.as_slice())
}

pub fn is_cross_site(h: &RequestHeaders, allowed_host: Option<&str>) -> (r: bool)
    ensures
        r == is_cross_site_spec(*h, match allowed_host {
            Some(a) => Some(a@),
            None => None,
        }),
{
    proof {
        reveal_strlit("cross-site");
        reveal_strlit("null");
        assert(lower_ascii("cross-site"@) =~= "cross-site"@);
        assert(lower_ascii("null"@) =~= "null"@);
    }
    match &h.sec_fetch_site {
        Some(s) => if ieq(s.as_str(), "cross-site") {
            return true;
        },
        None => {},
    }
    let source: Option<&String> = match &h.origin {
        Some(o) => if !ieq(o.as_str(), "null") {
            Some(o)
        } else {
            h.referer.as_ref()
        },
        None => h.referer.as_ref(),
    };
    match source {
        None => false,
        Some(url) => {
            let host = url_host(url.as_str());
            if is_allowed_host(host.as_str(), allowed_host) {
                return false;
            }
            match (allowed_host, &h.host) {
                (None, Some(own)) => {
                    let own_chars = chars_of(own.as_str());
                    let own_name = host_only(own_chars.as_slice());
                    let src = chars_of(host.as_str());
                    !eq_ignore_ascii_case(own_name.as_slice(), src.as_slice())
                },
                _ => true,
            }
        },
    }
}

/// The request is refused as a cross-site forgery: it changes state, carries
/// the session cookie, has no bearer token, and comes from another site.
pub open spec fn csrf_refused_spec(m: Method, h: RequestHeaders, allowed: Option<Seq<char>>) -> bool {
    &&& (m == Method::Post || m == Method::Put || m == Method::Patch || m == Method::Delete)
    &&& hv(h.cookie) is Some && has_session_cookie_spec(hv(h.cookie)->0)
    &&& !(hv(h.authorization) is Some && bearer_token_spec(hv(h.authorization)->0) is Some)
    &&& is_cross_site_spec(h, allowed)
}

/// The guard's verdict (`csrf_guard`): true when the request is refused (403).
/// Without a configured host, an `Origin`/`Referer` naming the request's own
/// `Host` counts as the same site, besides the loopback names.
pub fn csrf_refused(m: Method, h: &RequestHeaders, allowed_host: Option<&str>) -> (r: bool)
    ensures
        r == csrf_refused_spec(m, *h, match allowed_host {
            Some(a) => Some(a@),
            None => None,
        }),
{
    is_state_changing(m) && has_session_cookie(match &h.cookie {
        Some(c) => Some(c.as_str()),
        None => None,
    }) && !has_bearer(match &h.authorization {
        Some(a) => Some(a.as_str()),
        None => None,
    }) && is_cross_site(h, allowed_host)
}

/// The guard only ever refuses requests that change state, carry the
/// session cookie, have no bearer token and come from another site: reads,
/// bearer clients, callers without the cookie and same-site requests pass;
/// without a configured host, so does an `Origin` naming the request's own
/// host.
pub proof fn lemma_csrf_spares(m: Method, h: RequestHeaders, allowed: Option<Seq<char>>)
    ensures
        !(m == Method::Post || m == Method::Put || m == Method::Patch || m == Method::Delete)
            ==> !csrf_refused_spec(m, h, allowed),
        (hv(h.authorization) is Some && bearer_token_spec(hv(h.authorization)->0) is Some)
            ==> !csrf_refused_spec(m, h, allowed),
        hv(h.cookie) is None ==> !csrf_refused_spec(m, h, allowed),
        !is_cross_site_spec(h, allowed) ==> !csrf_refused_spec(m, h, allowed),
        (hv(h.sec_fetch_site) is None && hv(h.origin) is Some && lower_ascii(hv(h.origin)->0) != "null"@
            && same_as_request_host(url_host_spec(hv(h.origin)->0), allowed, hv(h.host)))
            ==> !csrf_refused_spec(m, h, allowed),
{
}

} // verus!
