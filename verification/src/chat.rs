//! The desktop chat socket: which bot a connection is bound to, file
//! payloads, message ids, the frame size limit and the keep-alive.
use vstd::prelude::*;

use base64::Engine;

use crate::text::{chars_of, ends_with, string_of};

verus! {

/// The bot every user may talk to.
pub open spec fn default_bot_id() -> Seq<char> {
    "system_default"@
}

/// A bot as listed to the desktop client.
#[derive(Debug, Default)]
pub struct BotInfo {
    pub id: String,
    pub name: String,
    pub discord_avatar_url: Option<String>,
    /// The default bot.
    pub primary: bool,
}

pub open spec fn bot_view(b: BotInfo) -> (Seq<char>, Seq<char>, Option<Seq<char>>, bool) {
    (b.id@, b.name@, crate::json::opt_view(b.discord_avatar_url), b.primary)
}

/// The bot a connection asks for: the query's `botId`, or the default bot
/// when absent or empty.
pub fn requested_bot_id(bot_id: Option<String>) -> (r: String)
    ensures
        r@ == match bot_id {
            Some(b) => if b@.len() > 0 {
                b@
            } else {
                default_bot_id()
            },
            None => default_bot_id(),
        },
{
    match bot_id {
        Some(b) => {
            let cs = chars_of(b.as_str());
            if cs.len() > 0 {
                b
            } else {
                "system_default".to_owned()
            }
        },
        None => "system_default".to_owned(),
    }
}

/// A stand-in for a bound bot missing from the list: named by its id, no avatar.
pub fn synthetic_bot(bot_id: &str) -> (b: BotInfo)
    ensures
        bot_view(b) == (bot_id@, bot_id@, None::<Seq<char>>, bot_id@ == default_bot_id()),
{
    BotInfo {
        id: bot_id.to_owned(),
        name: bot_id.to_owned(),
        discord_avatar_url: None,
        primary: crate::text::str_eq(bot_id, "system_default"),
    }
}

/// A copy of `b`.
pub fn clone_bot(b: &BotInfo) -> (r: BotInfo)
    ensures
        bot_view(r) == bot_view(*b),
{
    BotInfo {
        id: b.id.clone(),
        name: b.name.clone(),
        discord_avatar_url: match &b.discord_avatar_url {
            Some(u) => Some(u.clone()),
            None => None,
        },
        primary: b.primary,
    }
}

/// Marks the default bot in a listing.
pub fn mark_primary(bots: Vec<BotInfo>) -> (r: Vec<BotInfo>)
    ensures
        r@.len() == bots@.len(),
        forall|i: int| 0 <= i < r@.len() ==> #[trigger] bot_view(r@[i]) == {
            let v = bot_view(bots@[i]);
            (v.0, v.1, v.2, v.0 == default_bot_id())
        },
{
    let mut rest = bots;
    let ghost orig = rest@;
    let mut out: Vec<BotInfo> = Vec::new();
    let mut i: usize = 0;
    let n = rest.len();
    while i < n
        invariant
            n == orig.len(),
            i <= n,
            rest@.len() == n,
            forall|k: int| i <= k < n ==> #[trigger] rest@[k] == orig[k],
            out@.len() == i,
            forall|k: int| 0 <= k < i ==> #[trigger] bot_view(out@[k]) == {
                let v = bot_view(orig[k]);
                (v.0, v.1, v.2, v.0 == default_bot_id())
            },
        decreases n - i,
    {
        let b = &rest[i];
        let primary = crate::text::str_eq(b.id.as_str(), "system_default");
        let mut c = clone_bot(b);
        c.primary = primary;
        out.push(c);
        i += 1;
    }
    out
}

/// The bot a connection is bound to: the first listed bot with that id, or a
/// stand-in named by the id.
pub open spec fn bound_view(bots: Seq<BotInfo>, bot_id: Seq<char>) -> (Seq<char>, Seq<char>, Option<Seq<char>>, bool) {
    if exists|i: int| 0 <= i < bots.len() && bots[i].id@ == bot_id {
        let k = choose|k: int| 0 <= k < bots.len() && bots[k].id@ == bot_id && forall|j: int|
            0 <= j < k ==> bots[j].id@ != bot_id;
        bot_view(bots[k])
    } else {
        (bot_id, bot_id, None::<Seq<char>>, bot_id == default_bot_id())
    }
}

/// The bot a connection is bound to (`bound_view`).
pub fn bound_bot(bots: &Vec<BotInfo>, bot_id: &str) -> (r: BotInfo)
    ensures
        bot_view(r) == bound_view(bots@, bot_id@),
{
    let mut i: usize = 0;
    while i < bots.len()
        invariant
            i <= bots@.len(),
            forall|j: int| 0 <= j < i ==> bots@[j].id@ != bot_id@,
        decreases bots@.len() - i,
    {
        if crate::text::str_eq(bots[i].id.as_str(), bot_id) {
            proof {
                let k = choose|k: int| 0 <= k < bots@.len() && bots@[k].id@ == bot_id@ && forall|j: int|
                    0 <= j < k ==> bots@[j].id@ != bot_id@;
                if k < i {
                } else if k > i {
                    assert(bots@[i as int].id@ == bot_id@);
                }
                assert(k == i);
            }
            return clone_bot(&bots[i]);
        }
        i += 1;
    }
    synthetic_bot(bot_id)
}

/// A file sent back to the client.
#[derive(Debug)]
pub struct FileAttachment {
    pub name: String,
    pub bytes: Vec<u8>,
}

/// A file as the `done` frame carries it.
#[derive(Debug)]
pub struct FilePayload {
    pub name: String,
    pub mime: String,
    /// The bytes in standard base64.
    pub data: String,
}

/// The media type of a returned file, by its name's extension.
pub open spec fn file_mime_spec(name: Seq<char>) -> Seq<char> {
    if crate::text::has_suffix(name, ".png"@) {
        "image/png"@
    } else if crate::text::has_suffix(name, ".jpg"@) || crate::text::has_suffix(name, ".jpeg"@) {
        "image/jpeg"@
    } else {
        "application/octet-stream"@
    }
}

pub fn file_mime(name: &str) -> (r: &'static str)
    ensures
        r@ == file_mime_spec(name@),
{
    let cs = chars_of(name);
    let png = chars_of(".png");
    let jpg = chars_of(".jpg");
    let jpeg = chars_of(".jpeg");
    if ends_with(cs.as_slice(), png.as_slice()) {
        "image/png"
    } else if ends_with(cs.as_slice(), jpg.as_slice()) || ends_with(cs.as_slice(), jpeg.as_slice()) {
        "image/jpeg"
    } else {
        "application/octet-stream"
    }
}

/// What standard base64 (with padding) makes of `bytes`.
pub open spec fn base64_standard(bytes: Seq<u8>) -> Seq<char> {
    crate::text::base64_encode(bytes, false, true)
}

/// `base64::engine::general_purpose::STANDARD.encode`: the bytes in the
/// standard alphabet with padding.
#[verifier::external_body]
pub(crate) fn encode_base64(bytes: &[u8]) -> (r: String)
    ensures
        r@ == base64_standard(bytes@),
{
    base64::engine::general_purpose::STANDARD.encode(bytes)
}

/// A returned file as sent: named, typed by extension, base64-encoded.
pub fn to_file_payload(f: FileAttachment) -> (p: FilePayload)
    ensures
        p.name@ == f.name@,
        p.mime@ == file_mime_spec(f.name@),
        p.data@ == base64_standard(f.bytes@),
{
    let mime = file_mime(f.name.as_str()).to_owned();
    let data = encode_base64(f.bytes.as_slice());
    FilePayload { name: f.name, mime, data }
}

/// `n` fresh random bytes from the system source, or `None` when it fails.
#[verifier::external_body]
pub(crate) fn random_bytes(n: usize) -> (r: Option<Vec<u8>>)
    ensures
        match r {
            Some(v) => v@.len() == n,
            None => true,
        },
{
    let mut v = vec![0u8; n];
    match getrandom::getrandom(&mut v) {
        Ok(()) => Some(v),
        Err(_) => None,
    }
}

pub open spec fn hex_digit(d: u8) -> char {
    if d < 10 {
        ((48 + d) as u8) as char
    } else {
        ((87 + d) as u8) as char
    }
}

/// Two lower-case hexadecimal digits per byte.
pub open spec fn hex_lower(bytes: Seq<u8>) -> Seq<char>
    decreases bytes.len(),
{
    if bytes.len() == 0 {
        seq![]
    } else {
        hex_lower(bytes.drop_last()) + seq![hex_digit(bytes.last() / 16), hex_digit(bytes.last() % 16)]
    }
}

/// The lower-case hexadecimal digit of `d < 16`.
pub(crate) fn hex_char(d: u8) -> (c: char)
    requires
        d < 16,
    ensures
        c == hex_digit(d),
{
    if d < 10 {
        ((48 + d) as u8) as char
    } else {
        ((87 + d) as u8) as char
    }
}

/// `bytes` in lower-case hexadecimal.
pub fn to_hex(bytes: &[u8]) -> (r: String)
    ensures
        r@ == hex_lower(bytes@),
{
    let mut out: Vec<char> = Vec::new();
    let mut i: usize = 0;
    while i < bytes.len()
        invariant
            i <= bytes@.len(),
            out@ == hex_lower(bytes@.take(i as int)),
        decreases bytes@.len() - i,
    {
        let b = bytes[i];
        out.push(hex_char(b / 16));
        out.push(hex_char(b % 16));
        proof {
            assert(bytes@.take(i + 1).drop_last() =~= bytes@.take(i as int));
            assert(out@ =~= hex_lower(bytes@.take(i + 1)));
        }
        i += 1;
    }
    proof {
        assert(bytes@.take(bytes@.len() as int) =~= bytes@);
    }
    string_of(out.as_slice())
}

/// A message id: 16 random bytes in hexadecimal, or 32 zeros (the text of
/// 16 zero bytes) when the random source fails.
pub fn random_message_id() -> (r: String)
    ensures
        r@.len() == 32,
        exists|b: Seq<u8>| b.len() == 16 && r@ == hex_lower(b),
{
    let drawn = random_bytes(16);
    let ghost snap = drawn;
    let r = message_id_from(drawn);
    proof {
        lemma_hex_zeros(16);
        match snap {
            Some(b) => {
                lemma_hex_len(b@);
                assert(b@.len() == 16 && r@ == hex_lower(b@));
            },
            None => {
                let zb = Seq::new(16, |i: int| 0u8);
                assert(r@ =~= Seq::new(32, |i: int| '0'));
                assert(zb.len() == 16 && r@ == hex_lower(zb));
            },
        }
    }
    r
}

/// The message id of what the random source gave: the bytes in
/// hexadecimal, or 32 zeros when it failed.
pub fn message_id_from(drawn: Option<Vec<u8>>) -> (r: String)
    ensures
        r@ == match drawn {
            Some(b) => hex_lower(b@),
            None => Seq::new(32, |i: int| '0'),
        },
{
    match drawn {
        Some(b) => to_hex(b.as_slice()),
        None => {
            let zeros: Vec<char> = vec!['0'; 32];
            proof {
                assert(zeros@ =~= Seq::new(32, |i: int| '0'));
            }
            string_of(zeros.as_slice())
        },
    }
}

/// `n` zero bytes in hexadecimal are `2 * n` zeros.
proof fn lemma_hex_zeros(n: nat)
    ensures
        hex_lower(Seq::new(n, |i: int| 0u8)) == Seq::new(2 * n, |i: int| '0'),
    decreases n,
{
    if n > 0 {
        let z = Seq::new(n, |i: int| 0u8);
        let zp = Seq::new((n - 1) as nat, |i: int| 0u8);
        assert(z.drop_last() =~= zp);
        lemma_hex_zeros((n - 1) as nat);
        assert(hex_digit(0u8) == '0');
        assert(hex_lower(z) =~= Seq::new(2 * n, |i: int| '0'));
    } else {
        assert(hex_lower(Seq::new(n, |i: int| 0u8)) =~= Seq::new(2 * n, |i: int| '0'));
    }
}

proof fn lemma_hex_len(b: Seq<u8>)
    ensures
        hex_lower(b).len() == 2 * b.len(),
    decreases b.len(),
{
    if b.len() > 0 {
        lemma_hex_len(b.drop_last());
    }
}

/// The largest frame, in bytes, that the socket takes (20 MB).
pub const MAX_FRAME_BYTES: usize = 20 * 1024 * 1024;

/// A frame longer than the upload limit is refused.
pub fn frame_too_large(len: usize) -> (r: bool)
    ensures
        r == (len > MAX_FRAME_BYTES),
{
    len > MAX_FRAME_BYTES
}

/// What arrived on the socket, or the keep-alive timer.
#[derive(Debug, Clone, Copy, PartialEq, Eq)]
pub enum SocketEvent {
    Text,
    Pong,
    Ping,
    /// A close frame, the end of the stream, or a read error.
    Closed,
    /// Binary and other frames.
    Other,
    /// The keep-alive interval elapsed.
    Tick,
}

/// What the connection does next.
#[derive(Debug, Clone, Copy, PartialEq, Eq)]
pub enum SocketAction {
    HandleText,
    SendPong,
    SendPing,
    Close,
    Nothing,
}

/// One step of the connection loop: the new liveness flag and the action. A
/// pong marks the peer alive; each tick closes a peer that stayed silent since
/// the last tick, or else pings it and waits for the pong.
pub open spec fn socket_step_spec(alive: bool, ev: SocketEvent) -> (bool, SocketAction) {
    match ev {
        SocketEvent::Text => (alive, SocketAction::HandleText),
        SocketEvent::Pong => (true, SocketAction::Nothing),
        SocketEvent::Ping => (alive, SocketAction::SendPong),
        SocketEvent::Closed => (alive, SocketAction::Close),
        SocketEvent::Other => (alive, SocketAction::Nothing),
        SocketEvent::Tick => if alive {
            (false, SocketAction::SendPing)
        } else {
            (alive, SocketAction::Close)
        },
    }
}

pub fn socket_step(alive: bool, ev: SocketEvent) -> (r: (bool, SocketAction))
    ensures
        r == socket_step_spec(alive, ev),
{
    match ev {
        SocketEvent::Text => (alive, SocketAction::HandleText),
        SocketEvent::Pong => (true, SocketAction::Nothing),
        SocketEvent::Ping => (alive, SocketAction::SendPong),
        SocketEvent::Closed => (alive, SocketAction::Close),
        SocketEvent::Other => (alive, SocketAction::Nothing),
        SocketEvent::Tick => if alive {
            (false, SocketAction::SendPing)
        } else {
            (alive, SocketAction::Close)
        },
    }
}

/// The state after the events `evs`, starting from `alive`, when none closed.
pub open spec fn run_events(alive: bool, evs: Seq<SocketEvent>) -> bool
    decreases evs.len(),
{
    if evs.len() == 0 {
        alive
    } else {
        run_events(socket_step_spec(alive, evs[0]).0, evs.drop_first())
    }
}

/// A peer that sends no pong between two ticks is closed at the second tick,
/// whatever else arrives in between.
pub proof fn lemma_silent_peer_closed(alive: bool, between: Seq<SocketEvent>)
    requires
        forall|i: int| 0 <= i < between.len() ==> between[i] != SocketEvent::Pong,
    ensures
        socket_step_spec(run_events(socket_step_spec(alive, SocketEvent::Tick).0, between), SocketEvent::Tick).1
            == SocketAction::Close,
{
    lemma_no_pong_keeps_silent(false, between);
}

proof fn lemma_no_pong_keeps_silent(alive: bool, evs: Seq<SocketEvent>)
    requires
        !alive,
        forall|i: int| 0 <= i < evs.len() ==> evs[i] != SocketEvent::Pong,
    ensures
        !run_events(alive, evs),
    decreases evs.len(),
{
    if evs.len() > 0 {
        assert forall|i: int| 0 <= i < evs.drop_first().len() implies evs.drop_first()[i] != SocketEvent::Pong by {
            assert(evs.drop_first()[i] == evs[i + 1]);
        }
        lemma_no_pong_keeps_silent(socket_step_spec(alive, evs[0]).0, evs.drop_first());
    }
}

} // verus!
