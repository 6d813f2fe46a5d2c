use yuuka::frames::{
    done_frame, parse_client_frame, ready_frame, MAX_UPLOAD_MB, status_state, text_step, turn_failed, turn_gate, BotStatus, ClientFrame,
    TextStep,
};
use yuuka::json::JsonValue;
use yuuka::web::auth::{Role, SessionUser};
use yuuka::chat::{
    bound_bot, file_mime, frame_too_large, mark_primary, random_message_id, requested_bot_id,
    socket_step, synthetic_bot, to_file_payload, to_hex, BotInfo, FileAttachment, SocketAction,
    SocketEvent, MAX_FRAME_BYTES,
};

fn bot(id: &str, name: &str) -> BotInfo {
    BotInfo { id: id.to_owned(), name: name.to_owned(), discord_avatar_url: None, primary: false }
}

#[test]
fn requested_bot_defaults_to_system_default() {
    assert_eq!(requested_bot_id(None), "system_default");
    assert_eq!(requested_bot_id(Some(String::new())), "system_default");
    assert_eq!(requested_bot_id(Some("b1".to_owned())), "b1");
}

#[test]
fn listing_marks_only_the_default_bot_primary() {
    let out = mark_primary(vec![bot("b1", "one"), bot("system_default", "Yuuka"), bot("b2", "two")]);
    let flags: Vec<bool> = out.iter().map(|b| b.primary).collect();
    assert_eq!(flags, vec![false, true, false]);
    assert_eq!(out[1].name, "Yuuka");
}

#[test]
fn bound_bot_is_the_first_match_or_a_stand_in() {
    let bots = vec![bot("b1", "first"), bot("b1", "second")];
    assert_eq!(bound_bot(&bots, "b1").name, "first");
    let s = bound_bot(&bots, "zz");
    assert_eq!(s.id, "zz");
    assert_eq!(s.name, "zz");
    assert!(s.discord_avatar_url.is_none());
    assert!(!s.primary);
    assert!(synthetic_bot("system_default").primary);
}

#[test]
fn file_payload_is_typed_by_extension_and_base64_encoded() {
    assert_eq!(file_mime("a.png"), "image/png");
    assert_eq!(file_mime("a.jpeg"), "image/jpeg");
    assert_eq!(file_mime("a.jpg"), "image/jpeg");
    assert_eq!(file_mime("a.PNG"), "application/octet-stream");
    let p = to_file_payload(FileAttachment { name: "x.png".to_owned(), bytes: b"hello".to_vec() });
    assert_eq!(p.name, "x.png");
    assert_eq!(p.mime, "image/png");
    assert_eq!(p.data, "aGVsbG8=");
}

#[test]
fn hex_is_lowercase_two_digits_per_byte() {
    assert_eq!(to_hex(&[0x00, 0x0f, 0xab, 0xff]), "000fabff");
}

#[test]
fn message_ids_are_32_hex_digits() {
    let a = random_message_id();
    assert_eq!(a.len(), 32);
    assert!(a.chars().all(|c| c.is_ascii_hexdigit() && !c.is_ascii_uppercase()));
}

#[test]
fn frames_over_twenty_megabytes_are_refused() {
    assert_eq!(MAX_FRAME_BYTES, 20 * 1024 * 1024);
    assert!(!frame_too_large(MAX_FRAME_BYTES));
    assert!(frame_too_large(MAX_FRAME_BYTES + 1));
}

#[test]
fn socket_steps() {
    assert_eq!(socket_step(true, SocketEvent::Text), (true, SocketAction::HandleText));
    assert_eq!(socket_step(false, SocketEvent::Pong), (true, SocketAction::Nothing));
    assert_eq!(socket_step(true, SocketEvent::Ping), (true, SocketAction::SendPong));
    assert_eq!(socket_step(true, SocketEvent::Closed), (true, SocketAction::Close));
    assert_eq!(socket_step(true, SocketEvent::Other), (true, SocketAction::Nothing));
    assert_eq!(socket_step(true, SocketEvent::Tick), (false, SocketAction::SendPing));
    assert_eq!(socket_step(false, SocketEvent::Tick), (false, SocketAction::Close));
}

#[test]
fn silent_peer_is_closed_at_the_second_tick() {
    let mut alive = true;
    let (a, act) = socket_step(alive, SocketEvent::Tick);
    assert_eq!(act, SocketAction::SendPing);
    alive = a;
    for ev in [SocketEvent::Text, SocketEvent::Ping, SocketEvent::Other] {
        alive = socket_step(alive, ev).0;
    }
    assert_eq!(socket_step(alive, SocketEvent::Tick).1, SocketAction::Close);
}

#[test]
fn answering_peer_stays_open() {
    let (a, _) = socket_step(true, SocketEvent::Tick);
    let (a, _) = socket_step(a, SocketEvent::Pong);
    assert_eq!(socket_step(a, SocketEvent::Tick).1, SocketAction::SendPing);
}

fn obj(pairs: Vec<(&str, JsonValue)>) -> JsonValue {
    JsonValue::Object(pairs.into_iter().map(|(k, v)| (k.to_owned(), v)).collect())
}

fn s(v: &str) -> JsonValue {
    JsonValue::Str(v.to_owned())
}

#[test]
fn client_frame_parses_msg_reset_ping_and_unknown() {
    assert!(matches!(
        parse_client_frame(&obj(vec![("type", s("msg")), ("text", s("hi"))])),
        Some(ClientFrame::Msg { .. })
    ));
    assert_eq!(parse_client_frame(&obj(vec![("type", s("reset"))])), Some(ClientFrame::Reset));
    assert_eq!(parse_client_frame(&obj(vec![("type", s("ping"))])), Some(ClientFrame::Ping));
    assert_eq!(parse_client_frame(&obj(vec![("type", s("whatever"))])), Some(ClientFrame::Unknown));
    let f = parse_client_frame(&obj(vec![
        ("type", s("msg")),
        ("text", s("x")),
        ("image", obj(vec![("mime", s("image/png")), ("data", s("QUJD"))])),
        ("replyToId", s("9")),
    ]))
    .unwrap();
    match f {
        ClientFrame::Msg { text, image, audio, reply_to_id } => {
            assert_eq!(text, "x");
            assert_eq!(image.unwrap().mime, "image/png");
            assert!(audio.is_none());
            assert_eq!(reply_to_id.as_deref(), Some("9"));
        }
        other => panic!("unexpected {other:?}"),
    }
}

#[test]
fn malformed_frames_are_rejected() {
    assert_eq!(parse_client_frame(&obj(vec![("text", s("hi"))])), None);
    assert_eq!(parse_client_frame(&obj(vec![("type", JsonValue::Bool(true))])), None);
    assert_eq!(parse_client_frame(&JsonValue::Array(vec![])), None);
    assert_eq!(parse_client_frame(&obj(vec![("type", s("msg")), ("text", JsonValue::Null)])), None);
    assert_eq!(
        parse_client_frame(&obj(vec![("type", s("msg")), ("image", obj(vec![("mime", s("image/png"))]))])),
        None
    );
    // A message without text has empty text; null attachments are none.
    assert_eq!(
        parse_client_frame(&obj(vec![("type", s("msg")), ("audio", JsonValue::Null)])),
        Some(ClientFrame::Msg { text: String::new(), image: None, audio: None, reply_to_id: None })
    );
}

#[test]
fn text_frames_lead_to_steps() {
    match text_step(MAX_FRAME_BYTES + 1, Some(&ClientFrame::Ping)) {
        TextStep::Refuse(e) => assert_eq!((e.code, e.message), ("too_large", "メッセージが大きすぎます。")),
        other => panic!("unexpected {other:?}"),
    }
    match text_step(10, None) {
        TextStep::Refuse(e) => assert_eq!((e.code, e.message), ("internal", "不正なメッセージ形式です。")),
        other => panic!("unexpected {other:?}"),
    }
    let msg = ClientFrame::Msg { text: "hi".to_owned(), image: None, audio: None, reply_to_id: None };
    assert_eq!(text_step(10, Some(&msg)), TextStep::Turn);
    assert_eq!(text_step(10, Some(&ClientFrame::Reset)), TextStep::ResetContext);
    assert_eq!(text_step(10, Some(&ClientFrame::Interaction)), TextStep::Ignore);
    assert_eq!(text_step(10, Some(&ClientFrame::Unknown)), TextStep::Ignore);
}

#[test]
fn turns_need_a_gemini_key() {
    assert!(turn_gate(true).is_none());
    let e = turn_gate(false).unwrap();
    assert_eq!(e.code, "no_gemini_key");
    assert_eq!(e.message, "Gemini APIキーが未設定です。管理画面から設定してください。");
    assert_eq!(turn_failed().code, "internal");
}

#[test]
fn status_frames() {
    assert_eq!(status_state(BotStatus::Thinking), Some("thinking"));
    assert_eq!(status_state(BotStatus::Writing), Some("writing"));
    assert_eq!(status_state(BotStatus::Idle), None);
}

#[test]
fn done_frame_encodes_files_in_order() {
    let files = vec![
        FileAttachment { name: "a.png".to_owned(), bytes: b"hi".to_vec() },
        FileAttachment { name: "b.bin".to_owned(), bytes: vec![] },
    ];
    let d = done_frame("はい。".to_owned(), files);
    assert_eq!(d.text, "はい。");
    assert!(!d.deferred);
    assert_eq!(d.message_id.len(), 32);
    assert!(d.message_id.chars().all(|c| c.is_ascii_hexdigit() && !c.is_ascii_uppercase()));
    assert_eq!(d.files.len(), 2);
    assert_eq!(d.files[0].name, "a.png");
    assert_eq!(d.files[0].mime, "image/png");
    assert_eq!(d.files[0].data, "aGk=");
    assert_eq!(d.files[1].mime, "application/octet-stream");
    assert_eq!(d.files[1].data, "");
}

#[test]
fn ready_frame_shape_matches_desktop_contract() {
    let user = SessionUser { discord_id: "u1".to_owned(), username: "yuu".to_owned(), role: Role::User };
    let listed = BotInfo { id: "system_default".to_owned(), name: "デフォルト".to_owned(), discord_avatar_url: None, primary: true };
    let ready = ready_frame(user, vec![listed], "system_default");
    assert_eq!(ready.user.discord_id, "u1");
    assert_eq!(ready.bot.id, "system_default");
    assert!(ready.bot.primary);
    assert!(ready.bot.discord_avatar_url.is_none());
    assert_eq!(ready.max_upload_mb, 20);
    assert_eq!(MAX_UPLOAD_MB as usize * 1024 * 1024, MAX_FRAME_BYTES);
    // A bot missing from the list is stood in for by its id.
    let user = SessionUser { discord_id: "u1".to_owned(), username: "yuu".to_owned(), role: Role::User };
    let other = ready_frame(user, vec![], "b9");
    assert_eq!(other.bot.id, "b9");
    assert_eq!(other.bot.name, "b9");
    assert!(!other.bot.primary);
}

#[test]
fn status_and_error_and_done_shapes() {
    assert_eq!(status_state(BotStatus::Thinking), Some("thinking"));
    let e = turn_gate(false).unwrap();
    assert_eq!(e.code, "no_gemini_key");
    let d = done_frame("はい。".to_owned(), vec![]);
    assert_eq!(d.message_id.len(), 32);
    assert_eq!(d.text, "はい。");
    assert!(!d.deferred);
    assert!(d.files.is_empty());
}

#[test]
fn message_id_of_the_drawn_bytes() {
    assert_eq!(yuuka::chat::message_id_from(Some(vec![0xab, 0x01])), "ab01");
    assert_eq!(yuuka::chat::message_id_from(None), "0".repeat(32));
}
