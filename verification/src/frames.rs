//! The frames a desktop client sends over its chat socket, and what the
//! connection does with each.
//!
//! A frame is a JSON object whose `type` names its kind; an unknown kind is
//! ignored. A `msg` frame may carry text, an image and an audio clip (each
//! `{mime, data}`) and the id of the message it answers.
use vstd::prelude::*;

use crate::chat::{
    bot_view, bound_bot, bound_view, BotInfo, base64_standard, file_mime_spec, frame_too_large, hex_lower, random_message_id, to_file_payload, FileAttachment,
    FilePayload, MAX_FRAME_BYTES,
};
use crate::json::{as_str, as_str_spec, get, get_spec, opt_view, JsonValue};
use crate::text::{copy_str, str_eq};
use crate::web::auth::SessionUser;

verus! {

/// An attached file of a `msg` frame, base64 in `data`.
#[derive(Debug, Clone, PartialEq, Eq)]
pub struct WsAttachment {
    pub mime: String,
    pub data: String,
}

/// A frame from the client.
#[derive(Debug, Clone, PartialEq, Eq)]
pub enum ClientFrame {
    Msg {
        text: String,
        image: Option<WsAttachment>,
        audio: Option<WsAttachment>,
        reply_to_id: Option<String>,
    },
    Reset,
    Ping,
    /// A button press; not acted on yet.
    Interaction,
    /// A kind this server does not know; ignored.
    Unknown,
}

/// An optional text field: absent or `null` is none, a string is read,
/// anything else makes the frame malformed (`Err`).
pub open spec fn opt_text_spec(v: Option<JsonValue>) -> Result<Option<Seq<char>>, ()> {
    match v {
        None => Ok(None),
        Some(JsonValue::Null) => Ok(None),
        Some(JsonValue::Str(s)) => Ok(Some(s@)),
        _ => Err(()),
    }
}

/// The text of a `msg` frame: empty when absent, a string otherwise.
pub open spec fn msg_text_spec(v: Option<JsonValue>) -> Result<Seq<char>, ()> {
    match v {
        None => Ok(Seq::empty()),
        Some(JsonValue::Str(s)) => Ok(s@),
        _ => Err(()),
    }
}

/// An optional attachment: absent or `null` is none; an object with string
/// `mime` and `data` is read; anything else is malformed.
pub open spec fn attachment_spec(v: Option<JsonValue>) -> Result<Option<(Seq<char>, Seq<char>)>, ()> {
    match v {
        None => Ok(None),
        Some(JsonValue::Null) => Ok(None),
        Some(JsonValue::Object(e)) => {
            let o = JsonValue::Object(e);
            match (as_str_spec(get_spec(o, "mime"@)), as_str_spec(get_spec(o, "data"@))) {
                (Some(m), Some(d)) => Ok(Some((m, d))),
                _ => Err(()),
            }
        },
        _ => Err(()),
    }
}

pub open spec fn attachment_view(a: Option<WsAttachment>) -> Option<(Seq<char>, Seq<char>)> {
    match a {
        Some(x) => Some((x.mime@, x.data@)),
        None => None,
    }
}

/// The kind a frame names: its `type`, when that is a string.
pub open spec fn frame_type(v: JsonValue) -> Option<Seq<char>> {
    match v {
        JsonValue::Object(_) => as_str_spec(get_spec(v, "type"@)),
        _ => None,
    }
}

/// Whether a `msg` frame's fields are all well formed.
pub open spec fn msg_ok(v: JsonValue) -> bool {
    &&& msg_text_spec(get_spec(v, "text"@)) is Ok
    &&& attachment_spec(get_spec(v, "image"@)) is Ok
    &&& attachment_spec(get_spec(v, "audio"@)) is Ok
    &&& opt_text_spec(get_spec(v, "replyToId"@)) is Ok
}

fn read_opt_text(v: Option<&JsonValue>) -> (r: Result<Option<String>, ()>)
    ensures
        match r {
            Ok(o) => opt_text_spec(
                match v {
                    Some(x) => Some(*x),
                    None => None,
                },
            ) == Ok::<Option<Seq<char>>, ()>(opt_view(o)),
            Err(()) => opt_text_spec(
                match v {
                    Some(x) => Some(*x),
                    None => None,
                },
            ) is Err,
        },
{
    match v {
        None => Ok(None),
        Some(JsonValue::Null) => Ok(None),
        Some(JsonValue::Str(s)) => Ok(Some(copy_str(s.as_str()))),
        _ => Err(()),
    }
}

fn read_attachment(v: Option<&JsonValue>) -> (r: Result<Option<WsAttachment>, ()>)
    ensures
        match r {
            Ok(o) => attachment_spec(
                match v {
                    Some(x) => Some(*x),
                    None => None,
                },
            ) == Ok::<Option<(Seq<char>, Seq<char>)>, ()>(attachment_view(o)),
            Err(()) => attachment_spec(
                match v {
                    Some(x) => Some(*x),
                    None => None,
                },
            ) is Err,
        },
{
    match v {
        None => Ok(None),
        Some(JsonValue::Null) => Ok(None),
        Some(o) => match o {
            JsonValue::Object(_) => match (as_str(get(o, "mime")), as_str(get(o, "data"))) {
                (Some(m), Some(d)) => Ok(Some(WsAttachment { mime: copy_str(m), data: copy_str(d) })),
                _ => Err(()),
            },
            _ => Err(()),
        },
    }
}

/// Reads a client frame (`ClientFrame`'s JSON form). `None` when the frame is
/// malformed: not an object, no string `type`, or a `msg` with a field of the
/// wrong kind.
pub fn parse_client_frame(v: &JsonValue) -> (r: Option<ClientFrame>)
    ensures
        frame_type(*v) is None ==> r is None,
        frame_type(*v) == Some("msg"@) ==> (r is Some <==> msg_ok(*v)),
        frame_type(*v) == Some("msg"@) ==> match r {
            Some(ClientFrame::Msg { text, image, audio, reply_to_id }) => {
                &&& msg_text_spec(get_spec(*v, "text"@)) == Ok::<Seq<char>, ()>(text@)
                &&& attachment_spec(get_spec(*v, "image"@)) == Ok::<
                    Option<(Seq<char>, Seq<char>)>,
                    (),
                >(attachment_view(image))
                &&& attachment_spec(get_spec(*v, "audio"@)) == Ok::<
                    Option<(Seq<char>, Seq<char>)>,
                    (),
                >(attachment_view(audio))
                &&& opt_text_spec(get_spec(*v, "replyToId"@)) == Ok::<Option<Seq<char>>, ()>(
                    opt_view(reply_to_id),
                )
            },
            Some(_) => false,
            None => true,
        },
        frame_type(*v) == Some("reset"@) ==> r == Some(ClientFrame::Reset),
        frame_type(*v) == Some("ping"@) ==> r == Some(ClientFrame::Ping),
        frame_type(*v) == Some("interaction"@) ==> r == Some(ClientFrame::Interaction),
        (frame_type(*v) matches Some(t) && t != "msg"@ && t != "reset"@ && t != "ping"@ && t
            != "interaction"@) ==> r == Some(ClientFrame::Unknown),
{
    proof {
        reveal_strlit("msg");
        reveal_strlit("reset");
        reveal_strlit("ping");
        reveal_strlit("interaction");
        assert("msg"@.len() == 3 && "reset"@.len() == 5 && "ping"@.len() == 4);
        assert("interaction"@.len() == 11);
    }
    let kind = match v {
        JsonValue::Object(_) => as_str(get(v, "type")),
        _ => None,
    };
    let kind = match kind {
        Some(k) => k,
        None => return None,
    };
    if str_eq(kind, "msg") {
        let text = match get(v, "text") {
            None => String::new(),
            Some(JsonValue::Str(s)) => copy_str(s.as_str()),
            Some(_) => return None,
        };
        let image = match read_attachment(get(v, "image")) {
            Ok(a) => a,
            Err(()) => return None,
        };
        let audio = match read_attachment(get(v, "audio")) {
            Ok(a) => a,
            Err(()) => return None,
        };
        let reply_to_id = match read_opt_text(get(v, "replyToId")) {
            Ok(r) => r,
            Err(()) => return None,
        };
        Some(ClientFrame::Msg { text, image, audio, reply_to_id })
    } else if str_eq(kind, "reset") {
        Some(ClientFrame::Reset)
    } else if str_eq(kind, "ping") {
        Some(ClientFrame::Ping)
    } else if str_eq(kind, "interaction") {
        Some(ClientFrame::Interaction)
    } else {
        Some(ClientFrame::Unknown)
    }
}

/// An `error` frame to the client.
#[derive(Debug, Clone, Copy, PartialEq, Eq)]
pub struct ErrorFrame {
    pub code: &'static str,
    pub message: &'static str,
}

/// What the connection does with a text frame.
#[derive(Debug, Clone, PartialEq, Eq)]
pub enum TextStep {
    /// Answer with an error frame.
    Refuse(ErrorFrame),
    /// Run a chat turn for the message.
    Turn,
    /// Clear the conversation context.
    ResetContext,
    /// Nothing to do.
    Ignore,
}

/// The refusal of a frame above the upload limit.
pub open spec fn too_large_spec() -> (Seq<char>, Seq<char>) {
    ("too_large"@, "メッセージが大きすぎます。"@)
}

/// The refusal of a malformed frame.
pub open spec fn malformed_spec() -> (Seq<char>, Seq<char>) {
    ("internal"@, "不正なメッセージ形式です。"@)
}

pub open spec fn error_view(e: ErrorFrame) -> (Seq<char>, Seq<char>) {
    (e.code@, e.message@)
}

/// What a text frame of `byte_len` bytes leads to (`handle_text`): a frame
/// over the limit is refused before it is read, a malformed one is refused,
/// a message runs a turn, a reset clears the context, the rest is ignored.
pub fn text_step(byte_len: usize, frame: Option<&ClientFrame>) -> (r: TextStep)
    ensures
        byte_len > MAX_FRAME_BYTES ==> (r matches TextStep::Refuse(e) && error_view(e) == too_large_spec()),
        byte_len <= MAX_FRAME_BYTES ==> match frame {
            None => (r matches TextStep::Refuse(e) && error_view(e) == malformed_spec()),
            Some(ClientFrame::Msg { .. }) => r == TextStep::Turn,
            Some(ClientFrame::Reset) => r == TextStep::ResetContext,
            Some(_) => r == TextStep::Ignore,
        },
{
    if frame_too_large(byte_len) {
        return TextStep::Refuse(ErrorFrame { code: "too_large", message: "メッセージが大きすぎます。" });
    }
    match frame {
        None => TextStep::Refuse(ErrorFrame { code: "internal", message: "不正なメッセージ形式です。" }),
        Some(ClientFrame::Msg { .. }) => TextStep::Turn,
        Some(ClientFrame::Reset) => TextStep::ResetContext,
        Some(_) => TextStep::Ignore,
    }
}

/// A turn needs the user's Gemini key: without one the message is refused.
pub fn turn_gate(has_gemini_key: bool) -> (r: Option<ErrorFrame>)
    ensures
        r is None <==> has_gemini_key,
        r matches Some(e) ==> error_view(e) == ("no_gemini_key"@, "Gemini APIキーが未設定です。管理画面から設定してください。"@),
{
    if has_gemini_key {
        None
    } else {
        Some(ErrorFrame { code: "no_gemini_key", message: "Gemini APIキーが未設定です。管理画面から設定してください。" })
    }
}

/// The error frame of a turn that failed.
pub fn turn_failed() -> (e: ErrorFrame)
    ensures
        error_view(e) == ("internal"@, "処理中にエラーが発生しました。"@),
{
    ErrorFrame { code: "internal", message: "処理中にエラーが発生しました。" }
}

/// The bot's activity during a turn.
#[derive(Debug, Clone, Copy, PartialEq, Eq)]
pub enum BotStatus {
    Thinking,
    Writing,
    Idle,
}

/// The `status` frame sent for an activity; idleness sends none.
pub fn status_state(s: BotStatus) -> (r: Option<&'static str>)
    ensures
        match s {
            BotStatus::Thinking => r matches Some(x) && x@ == "thinking"@,
            BotStatus::Writing => r matches Some(x) && x@ == "writing"@,
            BotStatus::Idle => r is None,
        },
{
    match s {
        BotStatus::Thinking => Some("thinking"),
        BotStatus::Writing => Some("writing"),
        BotStatus::Idle => None,
    }
}

/// The `done` frame that ends a turn: a fresh message id, the reply text and
/// the returned files; it carries no embeds or components and is never
/// deferred.
#[derive(Debug)]
pub struct DoneFrame {
    pub message_id: String,
    pub text: String,
    pub files: Vec<FilePayload>,
    pub deferred: bool,
}

/// The `done` frame of a reply: each file named, typed by extension and
/// base64-encoded, in order.
pub fn done_frame(text: String, files: Vec<FileAttachment>) -> (d: DoneFrame)
    ensures
        d.text@ == text@,
        !d.deferred,
        d.message_id@.len() == 32,
        exists|b: Seq<u8>| b.len() == 16 && d.message_id@ == hex_lower(b),
        d.files@.len() == files@.len(),
        forall|i: int| 0 <= i < files@.len() ==> {
            &&& (#[trigger] d.files@[i]).name@ == files@[i].name@
            &&& d.files@[i].mime@ == file_mime_spec(files@[i].name@)
            &&& d.files@[i].data@ == base64_standard(files@[i].bytes@)
        },
{
    let mut payloads: Vec<FilePayload> = Vec::new();
    let mut rest = files;
    let ghost all = rest@;
    while rest.len() > 0
        invariant
            payloads@.len() + rest@.len() == all.len(),
            rest@ == all.skip(payloads@.len() as int),
            forall|i: int| 0 <= i < payloads@.len() ==> {
                &&& (#[trigger] payloads@[i]).name@ == all[i].name@
                &&& payloads@[i].mime@ == file_mime_spec(all[i].name@)
                &&& payloads@[i].data@ == base64_standard(all[i].bytes@)
            },
        decreases rest@.len(),
    {
        let f = rest.remove(0);
        proof {
            assert(f == all[payloads@.len() as int]);
            assert(rest@ =~= all.skip(payloads@.len() as int + 1));
        }
        payloads.push(to_file_payload(f));
    }
    DoneFrame { message_id: random_message_id(), text, files: payloads, deferred: false }
}

/// The upload limit a client is told, in megabytes: the frame limit.
pub const MAX_UPLOAD_MB: u32 = 20;

/// The `ready` frame that opens a connection: the user, the bot the
/// connection is bound to, the bots the user may reach and the upload limit.
#[derive(Debug)]
pub struct ReadyFrame {
    pub user: SessionUser,
    pub bot: BotInfo,
    pub bots: Vec<BotInfo>,
    pub max_upload_mb: u32,
}

/// The `ready` frame for `user` on `bot_id`, given the bots the user may
/// reach: the bound bot is the first of them with that id, or a stand-in.
pub fn ready_frame(user: SessionUser, bots: Vec<BotInfo>, bot_id: &str) -> (r: ReadyFrame)
    ensures
        r.user == user,
        r.bots@ == bots@,
        bot_view(r.bot) == bound_view(bots@, bot_id@),
        r.max_upload_mb == MAX_UPLOAD_MB,
        r.max_upload_mb as int * 1024 * 1024 == MAX_FRAME_BYTES,
{
    let bot = bound_bot(&bots, bot_id);
    ReadyFrame { user, bot, bots, max_upload_mb: MAX_UPLOAD_MB }
}

} // verus!
