//! Webhook endpoints and deliveries: the stored rows, partial updates, the
//! audit copy of a payload and the view handed to clients.
//!
//! A secret is stored only in encrypted form, as three hex columns; the view
//! of an endpoint says whether it has one and never carries the ciphertext.
use vstd::prelude::*;

use base64::Engine;

use crate::chat::random_bytes;
use crate::text::{char_width, chars_of, lemma_utf8_len_mono, string_of, trim, trim_chars, utf8_len};

verus! {

/// The three encrypted columns of a secret (hex).
#[derive(Debug, Clone)]
pub struct EncryptedSecret {
    pub encrypted: String,
    pub iv: String,
    pub tag: String,
}

/// One stored endpoint. The secret columns are kept but never shown.
#[derive(Debug, Clone)]
pub struct WebhookEndpoint {
    pub id: i64,
    pub user_id: String,
    pub name: String,
    pub token: String,
    pub secret_encrypted: Option<String>,
    pub secret_iv: Option<String>,
    pub secret_tag: Option<String>,
    pub notify_target_type: String,
    pub notify_target_id: Option<String>,
    pub template: Option<String>,
    pub filter_keyword: Option<String>,
    pub create_todo: bool,
    pub create_reminder: bool,
    pub enabled: bool,
    pub created_at: String,
}

/// Whether the endpoint has a secret: a non-empty ciphertext.
pub open spec fn has_secret_spec(e: WebhookEndpoint) -> bool {
    match e.secret_encrypted {
        Some(s) => s@.len() > 0,
        None => false,
    }
}

impl WebhookEndpoint {
    /// Whether a secret is set (`has_secret` of the view).
    pub fn has_secret(&self) -> (r: bool)
        ensures
            r == has_secret_spec(*self),
    {
        match &self.secret_encrypted {
            Some(s) => chars_of(s.as_str()).len() > 0,
            None => false,
        }
    }
}

/// One received payload, kept for the audit list.
#[derive(Debug, Clone)]
pub struct WebhookDelivery {
    pub id: i64,
    pub endpoint_id: i64,
    pub user_id: String,
    pub payload: String,
    pub status: String,
    pub detail: Option<String>,
    pub created_at: String,
}

/// What a new endpoint is made of (its secret already encrypted).
#[derive(Debug, Default)]
pub struct EndpointCreate {
    pub name: String,
    pub secret: Option<EncryptedSecret>,
    pub notify_target_type: String,
    pub notify_target_id: Option<String>,
    pub template: Option<String>,
    pub filter_keyword: Option<String>,
    pub create_todo: bool,
    pub create_reminder: bool,
}

/// A partial update: each present field overwrites the stored one.
///
/// `secret`: `None` keeps it, `Some(None)` removes it, `Some(Some(s))` sets it.
#[derive(Debug, Default)]
pub struct EndpointPatch {
    pub name: Option<String>,
    pub secret: Option<Option<EncryptedSecret>>,
    pub notify_target_type: Option<String>,
    pub notify_target_id: Option<Option<String>>,
    pub template: Option<Option<String>>,
    pub filter_keyword: Option<Option<String>>,
    pub create_todo: Option<bool>,
    pub create_reminder: Option<bool>,
    pub enabled: Option<bool>,
}

/// The present value of a patch field, or the stored one.
pub open spec fn or_keep<T>(p: Option<T>, current: T) -> T {
    match p {
        Some(v) => v,
        None => current,
    }
}

/// The stored endpoint with the present fields of `p` laid over it.
pub open spec fn patched(c: WebhookEndpoint, p: EndpointPatch) -> WebhookEndpoint {
    let (enc, iv, tag) = match p.secret {
        None => (c.secret_encrypted, c.secret_iv, c.secret_tag),
        Some(None) => (None, None, None),
        Some(Some(s)) => (Some(s.encrypted), Some(s.iv), Some(s.tag)),
    };
    WebhookEndpoint {
        id: c.id,
        user_id: c.user_id,
        name: or_keep(p.name, c.name),
        token: c.token,
        secret_encrypted: enc,
        secret_iv: iv,
        secret_tag: tag,
        notify_target_type: or_keep(p.notify_target_type, c.notify_target_type),
        notify_target_id: or_keep(p.notify_target_id, c.notify_target_id),
        template: or_keep(p.template, c.template),
        filter_keyword: or_keep(p.filter_keyword, c.filter_keyword),
        create_todo: or_keep(p.create_todo, c.create_todo),
        create_reminder: or_keep(p.create_reminder, c.create_reminder),
        enabled: or_keep(p.enabled, c.enabled),
        created_at: c.created_at,
    }
}

/// A patch that changes nothing.
pub open spec fn is_empty_patch(p: EndpointPatch) -> bool {
    &&& p.name is None
    &&& p.secret is None
    &&& p.notify_target_type is None
    &&& p.notify_target_id is None
    &&& p.template is None
    &&& p.filter_keyword is None
    &&& p.create_todo is None
    &&& p.create_reminder is None
    &&& p.enabled is None
}

/// The row that an update writes: the stored endpoint with the patch laid
/// over it.
pub fn apply_patch(current: WebhookEndpoint, patch: EndpointPatch) -> (r: WebhookEndpoint)
    ensures
        r == patched(current, patch),
{
    let (enc, iv, tag) = match patch.secret {
        None => (current.secret_encrypted, current.secret_iv, current.secret_tag),
        Some(None) => (None, None, None),
        Some(Some(s)) => (Some(s.encrypted), Some(s.iv), Some(s.tag)),
    };
    WebhookEndpoint {
        id: current.id,
        user_id: current.user_id,
        name: match patch.name {
            Some(v) => v,
            None => current.name,
        },
        token: current.token,
        secret_encrypted: enc,
        secret_iv: iv,
        secret_tag: tag,
        notify_target_type: match patch.notify_target_type {
            Some(v) => v,
            None => current.notify_target_type,
        },
        notify_target_id: match patch.notify_target_id {
            Some(v) => v,
            None => current.notify_target_id,
        },
        template: match patch.template {
            Some(v) => v,
            None => current.template,
        },
        filter_keyword: match patch.filter_keyword {
            Some(v) => v,
            None => current.filter_keyword,
        },
        create_todo: match patch.create_todo {
            Some(v) => v,
            None => current.create_todo,
        },
        create_reminder: match patch.create_reminder {
            Some(v) => v,
            None => current.create_reminder,
        },
        enabled: match patch.enabled {
            Some(v) => v,
            None => current.enabled,
        },
        created_at: current.created_at,
    }
}

/// An update with no field present leaves the endpoint as it was.
pub proof fn lemma_empty_patch_keeps(c: WebhookEndpoint, p: EndpointPatch)
    requires
        is_empty_patch(p),
    ensures
        patched(c, p) == c,
{
}

/// Laying the same patch over twice is laying it over once.
pub proof fn lemma_patch_idempotent(c: WebhookEndpoint, p: EndpointPatch)
    ensures
        patched(patched(c, p), p) == patched(c, p),
{
}

/// An update never moves an endpoint to another owner, id, token or creation
/// time, and a secret that is set or removed is reported by `has_secret`.
pub proof fn lemma_patch_keeps_identity(c: WebhookEndpoint, p: EndpointPatch)
    ensures
        patched(c, p).id == c.id,
        patched(c, p).user_id == c.user_id,
        patched(c, p).token == c.token,
        patched(c, p).created_at == c.created_at,
        p.secret == Some(None::<EncryptedSecret>) ==> !has_secret_spec(patched(c, p)),
        p.secret is None ==> has_secret_spec(patched(c, p)) == has_secret_spec(c),
{
}

/// The byte budget of a stored payload.
pub const MAX_PAYLOAD_BYTES: usize = 8192;

/// Whether `r` is what `s` is cut to under a budget of `n` UTF-8 bytes: the
/// longest prefix on a character boundary that fits.
pub open spec fn is_byte_truncation(s: Seq<char>, n: nat, r: Seq<char>) -> bool {
    &&& r.len() <= s.len()
    &&& r == s.take(r.len() as int)
    &&& utf8_len(r) <= n
    &&& (r.len() == s.len() || utf8_len(s.take(r.len() + 1int)) > n)
}

/// The payload as stored in the audit list: cut to 8192 bytes, backed off to
/// a character boundary.
pub fn truncate_payload(payload: &str) -> (r: String)
    ensures
        is_byte_truncation(payload@, MAX_PAYLOAD_BYTES as nat, r@),
{
    let cs = chars_of(payload);
    let mut k: usize = 0;
    let mut bytes: usize = 0;
    let mut fits = true;
    while k < cs.len() && fits
        invariant
            k <= cs@.len(),
            cs@ == payload@,
            bytes == utf8_len(cs@.take(k as int)),
            bytes <= MAX_PAYLOAD_BYTES,
            !fits ==> k < cs@.len() && utf8_len(cs@.take(k + 1)) > MAX_PAYLOAD_BYTES,
        decreases cs@.len() - k + (if fits { 1int } else { 0int }),
    {
        proof {
            assert(cs@.take(k + 1).drop_last() =~= cs@.take(k as int));
        }
        let w = char_width(cs[k]);
        if bytes + w <= MAX_PAYLOAD_BYTES {
            bytes = bytes + w;
            k += 1;
        } else {
            fits = false;
        }
    }
    let mut out: Vec<char> = Vec::new();
    let mut i: usize = 0;
    while i < k
        invariant
            k <= cs@.len(),
            i <= k,
            out@ == cs@.take(i as int),
        decreases k - i,
    {
        out.push(cs[i]);
        assert(cs@.take(i + 1) =~= cs@.take(i as int).push(cs@[i as int]));
        i += 1;
    }
    assert(out@.len() == k);
    string_of(out.as_slice())
}

/// A budget cut is unique: two prefixes that both qualify are the same.
pub proof fn lemma_byte_truncation_unique(s: Seq<char>, n: nat, a: Seq<char>, b: Seq<char>)
    requires
        is_byte_truncation(s, n, a),
        is_byte_truncation(s, n, b),
    ensures
        a == b,
{
    if a.len() < b.len() {
        if a.len() + 1 < b.len() {
            lemma_utf8_len_mono(s, a.len() + 1int, b.len() as int);
        }
        assert(s.take(b.len() as int) == b);
    } else if b.len() < a.len() {
        if b.len() + 1 < a.len() {
            lemma_utf8_len_mono(s, b.len() + 1int, a.len() as int);
        }
        assert(s.take(a.len() as int) == a);
    }
}

/// `s` without trailing `/` (`trim_end_matches('/')`).
pub open spec fn without_trailing_slashes(s: Seq<char>) -> Seq<char>
    decreases s.len(),
{
    if s.len() > 0 && s.last() == '/' {
        without_trailing_slashes(s.drop_last())
    } else {
        s
    }
}

/// The address a service posts to: absolute under a configured base URL
/// (trimmed, without trailing slashes), otherwise relative.
pub open spec fn hook_url_spec(base_url: Option<Seq<char>>, token: Seq<char>) -> Seq<char> {
    match base_url {
        Some(b) => if trim(b).len() > 0 {
            without_trailing_slashes(trim(b)) + "/hook/"@ + token
        } else {
            "/hook/"@ + token
        },
        None => "/hook/"@ + token,
    }
}

fn append(out: &mut Vec<char>, s: &str)
    ensures
        final(out)@ == old(out)@ + s@,
{
    let cs = chars_of(s);
    let mut i: usize = 0;
    let ghost start = out@;
    while i < cs.len()
        invariant
            i <= cs@.len(),
            cs@ == s@,
            out@ == start + cs@.take(i as int),
        decreases cs@.len() - i,
    {
        out.push(cs[i]);
        assert(cs@.take(i + 1) =~= cs@.take(i as int).push(cs@[i as int]));
        i += 1;
    }
    assert(cs@.take(cs@.len() as int) =~= cs@);
}

/// The receiving URL of `token` (`build_hook_url`).
pub fn build_hook_url(base_url: Option<&str>, token: &str) -> (r: String)
    ensures
        r@ == hook_url_spec(
            match base_url {
                Some(b) => Some(b@),
                None => None,
            },
            token@,
        ),
{
    let mut out: Vec<char> = Vec::new();
    match base_url {
        Some(b) => {
            let cs = chars_of(b);
            let mut t = trim_chars(cs.as_slice());
            if t.len() > 0 {
                while t.len() > 0 && t[t.len() - 1] == '/'
                    invariant
                        without_trailing_slashes(t@) == without_trailing_slashes(trim(b@)),
                    decreases t@.len(),
                {
                    t.pop();
                }
                out = t;
            }
        },
        None => {},
    }
    append(&mut out, "/hook/");
    append(&mut out, token);
    string_of(out.as_slice())
}

/// What a client is shown of an endpoint: everything but the secret columns,
/// plus whether a secret is set and the receiving URL.
#[derive(Debug, Clone)]
pub struct EndpointView {
    pub id: i64,
    pub name: String,
    pub token: String,
    pub has_secret: bool,
    pub notify_target_type: String,
    pub notify_target_id: Option<String>,
    pub template: Option<String>,
    pub filter_keyword: Option<String>,
    pub create_todo: bool,
    pub create_reminder: bool,
    pub enabled: bool,
    pub created_at: String,
    pub url: String,
}

/// The safe view of `e` (`endpoint_view`).
pub fn endpoint_view(e: WebhookEndpoint, base_url: Option<&str>) -> (v: EndpointView)
    ensures
        v.id == e.id,
        v.name == e.name,
        v.token == e.token,
        v.has_secret == has_secret_spec(e),
        v.notify_target_type == e.notify_target_type,
        v.notify_target_id == e.notify_target_id,
        v.template == e.template,
        v.filter_keyword == e.filter_keyword,
        v.create_todo == e.create_todo,
        v.create_reminder == e.create_reminder,
        v.enabled == e.enabled,
        v.created_at == e.created_at,
        v.url@ == hook_url_spec(
            match base_url {
                Some(b) => Some(b@),
                None => None,
            },
            e.token@,
        ),
{
    let has_secret = e.has_secret();
    let url = build_hook_url(base_url, e.token.as_str());
    EndpointView {
        id: e.id,
        name: e.name,
        token: e.token,
        has_secret,
        notify_target_type: e.notify_target_type,
        notify_target_id: e.notify_target_id,
        template: e.template,
        filter_keyword: e.filter_keyword,
        create_todo: e.create_todo,
        create_reminder: e.create_reminder,
        enabled: e.enabled,
        created_at: e.created_at,
        url,
    }
}

/// What URL-safe base64 without padding makes of `bytes`.
pub open spec fn base64_url_no_pad(bytes: Seq<u8>) -> Seq<char> {
    crate::text::base64_encode(bytes, true, false)
}

/// `base64::engine::general_purpose::URL_SAFE_NO_PAD.encode`: the bytes in the
/// URL-safe alphabet, without padding.
#[verifier::external_body]
fn encode_url_safe_no_pad(bytes: &[u8]) -> (r: String)
    ensures
        r@ == base64_url_no_pad(bytes@),
{
    base64::engine::general_purpose::URL_SAFE_NO_PAD.encode(bytes)
}

/// The number of random bytes behind a token.
pub const TOKEN_BYTES: usize = 24;

/// A fresh URL token: 24 bytes from the system source in URL-safe base64.
/// When the source fails the bytes are zero.
pub fn generate_token() -> (t: String)
    ensures
        exists|b: Seq<u8>| b.len() == TOKEN_BYTES && t@ == base64_url_no_pad(b),
{
    let drawn = random_bytes(TOKEN_BYTES);
    let ghost snap = drawn;
    let ghost bytes = match snap {
        Some(b) => b@,
        None => Seq::new(TOKEN_BYTES as nat, |i: int| 0u8),
    };
    let t = token_from(drawn);
    assert(bytes.len() == TOKEN_BYTES && t@ == base64_url_no_pad(bytes));
    t
}

/// The token of what the random source gave: the bytes in URL-safe base64
/// without padding, or 24 zero bytes so encoded when it failed.
pub fn token_from(drawn: Option<Vec<u8>>) -> (t: String)
    ensures
        t@ == base64_url_no_pad(
            match drawn {
                Some(b) => b@,
                None => Seq::new(TOKEN_BYTES as nat, |i: int| 0u8),
            },
        ),
{
    let bytes = match drawn {
        Some(b) => b,
        None => {
            let z = vec![0u8; TOKEN_BYTES];
            proof {
                assert(z@ =~= Seq::new(TOKEN_BYTES as nat, |i: int| 0u8));
            }
            z
        },
    };
    encode_url_safe_no_pad(bytes.as_slice())
}

/// Every field a patch sends is what the updated endpoint carries, and every
/// field it leaves out keeps the stored value.
pub proof fn lemma_patch_overlays(c: WebhookEndpoint, p: EndpointPatch)
    ensures
        p.name matches Some(v) ==> patched(c, p).name == v,
        p.name is None ==> patched(c, p).name == c.name,
        p.notify_target_type matches Some(v) ==> patched(c, p).notify_target_type == v,
        p.notify_target_type is None ==> patched(c, p).notify_target_type == c.notify_target_type,
        p.notify_target_id matches Some(v) ==> patched(c, p).notify_target_id == v,
        p.notify_target_id is None ==> patched(c, p).notify_target_id == c.notify_target_id,
        p.template matches Some(v) ==> patched(c, p).template == v,
        p.template is None ==> patched(c, p).template == c.template,
        p.filter_keyword matches Some(v) ==> patched(c, p).filter_keyword == v,
        p.filter_keyword is None ==> patched(c, p).filter_keyword == c.filter_keyword,
        p.create_todo matches Some(v) ==> patched(c, p).create_todo == v,
        p.create_todo is None ==> patched(c, p).create_todo == c.create_todo,
        p.create_reminder matches Some(v) ==> patched(c, p).create_reminder == v,
        p.create_reminder is None ==> patched(c, p).create_reminder == c.create_reminder,
        p.enabled matches Some(v) ==> patched(c, p).enabled == v,
        p.enabled is None ==> patched(c, p).enabled == c.enabled,
        p.secret matches Some(Some(s)) ==> patched(c, p).secret_encrypted == Some(s.encrypted)
            && patched(c, p).secret_iv == Some(s.iv) && patched(c, p).secret_tag == Some(s.tag),
        p.secret is None ==> patched(c, p).secret_encrypted == c.secret_encrypted && patched(c, p).secret_iv
            == c.secret_iv && patched(c, p).secret_tag == c.secret_tag,
        p.secret == Some(None::<EncryptedSecret>) ==> patched(c, p).secret_encrypted is None
            && patched(c, p).secret_iv is None && patched(c, p).secret_tag is None,
{
}

} // verus!
