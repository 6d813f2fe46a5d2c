use yuuka::json::{JsonNumber, JsonValue};
use yuuka::webhook::endpoint::{
    apply_patch, build_hook_url, endpoint_view, generate_token, truncate_payload, EncryptedSecret,
    EndpointPatch, WebhookEndpoint, MAX_PAYLOAD_BYTES,
};
use yuuka::webhook::rate::{RateLimiter, RATE_LIMIT_PER_MINUTE, RATE_WINDOW_MS};
use yuuka::webhook::receive::{
    pick_signature, receive_outcome, NullWebhookProcessor, ReceiveOutcome, WebhookProcessor,
};
use yuuka::webhook::request::{
    bool_field, created_message, deleted_message, delivery_filter, int_field, opt_trimmed,
    plan_create, plan_delete, plan_update, present_string, str_field, string_or_null,
    target_type, updated_message, WebhookRequestError, DELIVERY_LIST_LIMIT,
};

fn s(v: &str) -> JsonValue {
    JsonValue::Str(v.to_owned())
}

fn obj(pairs: Vec<(&str, JsonValue)>) -> JsonValue {
    JsonValue::Object(pairs.into_iter().map(|(k, v)| (k.to_owned(), v)).collect())
}

fn secret(tag: &str) -> EncryptedSecret {
    EncryptedSecret { encrypted: format!("enc-{tag}"), iv: format!("iv-{tag}"), tag: format!("tag-{tag}") }
}

fn endpoint() -> WebhookEndpoint {
    WebhookEndpoint {
        id: 7,
        user_id: "u".to_owned(),
        name: "CI".to_owned(),
        token: "tok".to_owned(),
        secret_encrypted: Some("abcd".to_owned()),
        secret_iv: Some("iv".to_owned()),
        secret_tag: Some("tag".to_owned()),
        notify_target_type: "dm".to_owned(),
        notify_target_id: None,
        template: Some("t".to_owned()),
        filter_keyword: None,
        create_todo: true,
        create_reminder: false,
        enabled: true,
        created_at: "2026-07-06 10:00:00".to_owned(),
    }
}

#[test]
fn create_requires_name_then_long_secret() {
    assert_eq!(plan_create(&obj(vec![])).unwrap_err(), WebhookRequestError::NameRequired);
    assert_eq!(
        plan_create(&obj(vec![("name", s("CI")), ("secret", s("short"))])).unwrap_err(),
        WebhookRequestError::SecretTooShort
    );
    // Sixteen characters after trimming are enough; fifteen are not.
    assert_eq!(
        plan_create(&obj(vec![("name", s("CI")), ("secret", s("  0123456789abcde  "))])).unwrap_err(),
        WebhookRequestError::SecretTooShort
    );
    let p = plan_create(&obj(vec![
        ("name", s(" CI ")),
        ("secret", s("abcdef0123456789xyz")),
        ("createTodo", JsonValue::Bool(true)),
        ("notifyTargetType", s("channel")),
        ("notifyTargetId", s("  ")),
        ("template", s(" {{x}} ")),
    ]))
    .unwrap();
    assert_eq!(p.name, "CI");
    assert_eq!(p.secret, "abcdef0123456789xyz");
    assert!(p.create_todo);
    assert!(!p.create_reminder);
    assert_eq!(p.notify_target_type, "channel");
    assert_eq!(p.notify_target_id, None);
    assert_eq!(p.template.as_deref(), Some("{{x}}"));
    let c = p.into_create(secret("a"));
    assert_eq!(c.name, "CI");
    assert_eq!(c.secret.unwrap().encrypted, "enc-a");
}

#[test]
fn secrets_are_counted_in_characters() {
    // Sixteen multi-byte characters pass.
    let p = plan_create(&obj(vec![("name", s("x")), ("secret", s("あいうえおかきくけこさしすせそた"))]));
    assert!(p.is_ok());
}

#[test]
fn update_checks_id_and_secret() {
    assert_eq!(plan_update(&obj(vec![])).unwrap_err(), WebhookRequestError::IdRequired);
    assert_eq!(
        plan_update(&obj(vec![("id", s("3")), ("secret", s("x"))])).unwrap_err(),
        WebhookRequestError::SecretUpdateTooShort
    );
    // A secret that is not a string counts as empty.
    assert_eq!(
        plan_update(&obj(vec![("id", s("3")), ("secret", JsonValue::Null)])).unwrap_err(),
        WebhookRequestError::SecretUpdateTooShort
    );
    let p = plan_update(&obj(vec![
        ("id", JsonValue::Number(JsonNumber::of_int(3))),
        ("name", s(" CI2 ")),
        ("enabled", JsonValue::Bool(false)),
        ("template", JsonValue::Null),
    ]))
    .unwrap();
    assert_eq!(p.id, 3);
    assert_eq!(p.name.as_deref(), Some(" CI2 "));
    assert_eq!(p.enabled, Some(false));
    assert_eq!(p.template, Some(None));
    assert_eq!(p.secret, None);
    assert_eq!(p.create_todo, None);
    assert_eq!(p.notify_target_type, None);
    let blank = plan_update(&obj(vec![("id", s("3")), ("name", s("   "))])).unwrap();
    assert_eq!(blank.name, None);
}

#[test]
fn update_patch_carries_the_encrypted_secret() {
    let p = plan_update(&obj(vec![("id", s("3")), ("secret", s("0123456789abcdef"))])).unwrap();
    assert_eq!(p.secret.as_deref(), Some("0123456789abcdef"));
    let patch = p.into_patch(Some(secret("b")));
    assert!(matches!(patch.secret, Some(Some(ref e)) if e.encrypted == "enc-b"));
}

#[test]
fn patch_overlays_present_fields() {
    let patch = EndpointPatch {
        name: Some("CI2".to_owned()),
        enabled: Some(false),
        notify_target_id: Some(Some("chan".to_owned())),
        template: Some(None),
        ..EndpointPatch::default()
    };
    let e = apply_patch(endpoint(), patch);
    assert_eq!(e.name, "CI2");
    assert!(!e.enabled);
    assert_eq!(e.notify_target_id.as_deref(), Some("chan"));
    assert_eq!(e.template, None);
    assert!(e.create_todo);
    assert_eq!(e.id, 7);
    assert_eq!(e.token, "tok");
    assert!(e.has_secret());
}

#[test]
fn empty_patch_keeps_everything() {
    let e = apply_patch(endpoint(), EndpointPatch::default());
    let o = endpoint();
    assert_eq!(e.name, o.name);
    assert_eq!(e.secret_encrypted, o.secret_encrypted);
    assert_eq!(e.template, o.template);
    assert_eq!(e.enabled, o.enabled);
    assert_eq!(e.created_at, o.created_at);
}

#[test]
fn secrets_can_be_removed_or_replaced() {
    let removed = apply_patch(endpoint(), EndpointPatch { secret: Some(None), ..EndpointPatch::default() });
    assert!(!removed.has_secret());
    assert_eq!(removed.secret_iv, None);
    let replaced = apply_patch(endpoint(), EndpointPatch { secret: Some(Some(secret("n"))), ..EndpointPatch::default() });
    assert_eq!(replaced.secret_encrypted.as_deref(), Some("enc-n"));
    assert_eq!(replaced.secret_tag.as_deref(), Some("tag-n"));
}

#[test]
fn has_secret_needs_a_non_empty_ciphertext() {
    let mut e = endpoint();
    assert!(e.has_secret());
    e.secret_encrypted = Some(String::new());
    assert!(!e.has_secret());
    e.secret_encrypted = None;
    assert!(!e.has_secret());
}

#[test]
fn view_hides_secret_and_builds_url() {
    let v = endpoint_view(endpoint(), Some("https://x.test/"));
    assert!(v.has_secret);
    assert_eq!(v.url, "https://x.test/hook/tok");
    assert_eq!(v.name, "CI");
    assert!(v.create_todo);
    assert!(v.enabled);
}

#[test]
fn hook_urls() {
    assert_eq!(build_hook_url(Some("https://x.test//"), "abc"), "https://x.test/hook/abc");
    assert_eq!(build_hook_url(Some("  https://x.test  "), "abc"), "https://x.test/hook/abc");
    assert_eq!(build_hook_url(Some("   "), "abc"), "/hook/abc");
    assert_eq!(build_hook_url(None, "abc"), "/hook/abc");
}

#[test]
fn payloads_are_cut_on_character_boundaries() {
    assert_eq!(truncate_payload("{}"), "{}");
    let ascii = "a".repeat(9000);
    assert_eq!(truncate_payload(&ascii).len(), MAX_PAYLOAD_BYTES);
    // 8191 ASCII bytes then a three-byte character: the character does not fit.
    let mixed = format!("{}あ", "a".repeat(8191));
    let cut = truncate_payload(&mixed);
    assert_eq!(cut.len(), 8191);
    assert!(mixed.starts_with(&cut));
    let exact = format!("{}あ", "a".repeat(8189));
    assert_eq!(truncate_payload(&exact), exact);
}

#[test]
fn tokens_are_32_url_safe_characters() {
    let t = generate_token();
    assert_eq!(t.len(), 32);
    assert!(t.chars().all(|c| c.is_ascii_alphanumeric() || c == '-' || c == '_'));
    assert_ne!(generate_token(), t);
}

#[test]
fn rate_limit_allows_thirty_per_window() {
    let mut l = RateLimiter::new();
    let t0 = 1_000u64;
    for i in 0..RATE_LIMIT_PER_MINUTE as u64 {
        assert!(l.check_rate_limit("tok", t0 + i * 100), "post {i}");
    }
    assert!(!l.check_rate_limit("tok", t0 + 5_000));
    assert!(!l.check_rate_limit("tok", t0 + RATE_WINDOW_MS - 1));
    // Another token has a window of its own.
    assert!(l.check_rate_limit("other", t0 + 5_000));
    // When the window ends, the next post opens a new one.
    assert!(l.check_rate_limit("tok", t0 + RATE_WINDOW_MS));
    assert!(l.check_rate_limit("tok", t0 + RATE_WINDOW_MS + 1));
}

#[test]
fn receive_outcomes() {
    let mut e = endpoint();
    assert_eq!(receive_outcome(false, Some(&e)), ReceiveOutcome::RateLimited);
    assert_eq!(receive_outcome(true, None), ReceiveOutcome::NotFound);
    assert_eq!(receive_outcome(true, Some(&e)), ReceiveOutcome::Accepted);
    e.enabled = false;
    assert_eq!(receive_outcome(true, Some(&e)), ReceiveOutcome::Disabled);
    assert_eq!(ReceiveOutcome::RateLimited.status(), 429);
    assert_eq!(ReceiveOutcome::NotFound.status(), 404);
    assert_eq!(ReceiveOutcome::Disabled.status(), 410);
    assert_eq!(ReceiveOutcome::Accepted.status(), 200);
    assert_eq!(ReceiveOutcome::Accepted.message(), "accepted");
    assert_eq!(ReceiveOutcome::Disabled.message(), "endpoint disabled");
    assert!(ReceiveOutcome::Accepted.success());
    assert!(!ReceiveOutcome::NotFound.success());
}

#[test]
fn signature_header_precedence() {
    let sig = |v: &str| Some(Some(v.to_owned()));
    assert_eq!(pick_signature(sig("a"), sig("b"), sig("c")).as_deref(), Some("a"));
    assert_eq!(pick_signature(None, sig("b"), sig("c")).as_deref(), Some("b"));
    assert_eq!(pick_signature(None, None, sig("c")).as_deref(), Some("c"));
    assert_eq!(pick_signature(Some(None), sig("b"), sig("c")), None);
    assert_eq!(pick_signature(None, None, None), None);
}

#[test]
fn null_processor_does_nothing() {
    NullWebhookProcessor.process(endpoint(), b"{}".to_vec(), None);
}

#[test]
fn body_fields() {
    let b = obj(vec![
        ("a", s("  x  ")),
        ("b", JsonValue::Bool(true)),
        ("c", s("channel")),
        ("n", s(" 12 ")),
        ("f", JsonValue::Bool(false)),
    ]);
    assert_eq!(str_field(&b, "a"), "x");
    assert_eq!(str_field(&b, "b"), "");
    assert_eq!(present_string(&b, "a").as_deref(), Some("  x  "));
    assert_eq!(opt_trimmed(&b, "a").as_deref(), Some("x"));
    assert_eq!(string_or_null(&b, "zz"), None);
    assert!(bool_field(&b, "b"));
    assert!(!bool_field(&b, "f"));
    assert!(!bool_field(&b, "a"));
    assert_eq!(int_field(&b, "n"), Some(12));
    assert_eq!(target_type(&obj(vec![("notifyTargetType", s("channel"))])), "channel");
    assert_eq!(target_type(&obj(vec![("notifyTargetType", s("Channel"))])), "dm");
    assert_eq!(target_type(&b), "dm");
}

#[test]
fn delete_and_delivery_queries() {
    assert_eq!(plan_delete(&obj(vec![])), Err(WebhookRequestError::IdRequired));
    assert_eq!(plan_delete(&obj(vec![("id", s("4"))])), Ok(4));
    assert_eq!(delivery_filter(Some("12")), Some(12));
    assert_eq!(delivery_filter(Some(" 12")), None);
    assert_eq!(delivery_filter(Some("x")), None);
    assert_eq!(delivery_filter(None), None);
    assert_eq!(DELIVERY_LIST_LIMIT, 50);
}

#[test]
fn management_messages() {
    assert_eq!(
        created_message("CI"),
        "Webhookエンドポイント「CI」を作成しました。発行されたURLを外部サービスに登録してください。"
    );
    assert_eq!(updated_message(true), "Webhookエンドポイントを更新しました。");
    assert_eq!(updated_message(false), "エンドポイントが見つかりません。");
    assert_eq!(deleted_message(true), "Webhookエンドポイントを削除しました。");
    assert_eq!(WebhookRequestError::NameRequired.message(), "name は必須です。");
    assert_eq!(WebhookRequestError::SecretUpdateTooShort.status(), 400);
}

#[test]
fn applying_a_patch_twice_changes_nothing_more() {
    let patch = || EndpointPatch {
        name: Some("CI3".to_owned()),
        enabled: Some(false),
        template: Some(Some("{{body}}".to_owned())),
        secret: Some(None),
        ..EndpointPatch::default()
    };
    let once = apply_patch(endpoint(), patch());
    let twice = apply_patch(apply_patch(endpoint(), patch()), patch());
    assert_eq!(once.name, twice.name);
    assert_eq!(once.enabled, twice.enabled);
    assert_eq!(once.template, twice.template);
    assert_eq!(once.secret_encrypted, twice.secret_encrypted);
    assert_eq!(once.token, twice.token);
    assert_eq!(once.id, twice.id);
}

#[test]
fn token_of_the_drawn_bytes() {
    assert_eq!(yuuka::webhook::endpoint::token_from(Some(vec![0xfb, 0xff])), "-_8");
    assert_eq!(yuuka::webhook::endpoint::token_from(Some(b"hi".to_vec())), "aGk");
    assert_eq!(yuuka::webhook::endpoint::token_from(None), "A".repeat(32));
}
