use yuuka::json::JsonValue;
use yuuka::web::auth::{
    auth_after_session, auth_start, parse_role, request_bearer_token, session_token, AdminUser,
    AuthStep, AuthenticatedUser, BearerUser, Role, SessionUser, WebError,
};
use yuuka::web::csrf::{
    allowed_host_from_base_url, bearer_token, cookie_value, csrf_refused, has_session_cookie,
    is_allowed_host, url_host, Method, RequestHeaders,
};
use yuuka::web::envelope::{EmptyData, Envelope};
use yuuka::web::scope::{
    access_needs_lookup, bot_to_check, scope_for, scoped_bot_id, setting_or, ScopedJson,
};
use yuuka::web::site::{
    cache_policy, has_extension, is_hashed_asset, security_headers, static_fallback,
    StaticFallback, IMMUTABLE, MAX_BODY_BYTES, NO_CACHE,
};

fn headers(pairs: &[(&str, &str)]) -> RequestHeaders {
    let mut h = RequestHeaders::default();
    for (k, v) in pairs {
        let v = Some((*v).to_owned());
        match *k {
            "authorization" => h.authorization = v,
            "cookie" => h.cookie = v,
            "sec-fetch-site" => h.sec_fetch_site = v,
            "origin" => h.origin = v,
            "referer" => h.referer = v,
            "host" => h.host = v,
            _ => {}
        }
    }
    h
}

fn user(role: Role) -> SessionUser {
    SessionUser { discord_id: "u".to_owned(), username: "u".to_owned(), role }
}

#[test]
fn csrf_blocks_cross_site_cookie_post() {
    let h = headers(&[("cookie", "__Host-yuuka-session=t"), ("sec-fetch-site", "cross-site")]);
    assert!(csrf_refused(Method::Post, &h, Some("yuuka.example")));
}

#[test]
fn csrf_allows_same_origin_and_missing_and_bearer() {
    // No host configured, as the web layer is built without a base URL.
    let allowed = None;
    let same = headers(&[("cookie", "__Host-yuuka-session=t"), ("sec-fetch-site", "same-origin")]);
    assert!(!csrf_refused(Method::Post, &same, allowed));
    let missing = headers(&[("cookie", "__Host-yuuka-session=t")]);
    assert!(!csrf_refused(Method::Post, &missing, allowed));
    let evil = headers(&[
        ("cookie", "__Host-yuuka-session=t"),
        ("host", "yuuka.example"),
        ("origin", "https://evil.example"),
    ]);
    assert!(csrf_refused(Method::Post, &evil, allowed));
    let good = headers(&[
        ("cookie", "__Host-yuuka-session=t"),
        ("host", "yuuka.example"),
        ("origin", "https://yuuka.example"),
    ]);
    assert!(!csrf_refused(Method::Post, &good, allowed));
    let bearer = headers(&[("authorization", "Bearer tok"), ("sec-fetch-site", "cross-site")]);
    assert!(!csrf_refused(Method::Post, &bearer, allowed));
    let no_cookie = headers(&[("sec-fetch-site", "cross-site")]);
    assert!(!csrf_refused(Method::Post, &no_cookie, allowed));
}

#[test]
fn csrf_with_a_configured_host_ignores_the_request_host() {
    let allowed = Some("yuuka.example");
    let good = headers(&[("cookie", "__Host-yuuka-session=t"), ("origin", "https://YUUKA.example")]);
    assert!(!csrf_refused(Method::Post, &good, allowed));
    let injected = headers(&[
        ("cookie", "__Host-yuuka-session=t"),
        ("host", "evil.example"),
        ("origin", "https://evil.example"),
    ]);
    assert!(csrf_refused(Method::Post, &injected, allowed));
    let own_port = headers(&[
        ("cookie", "__Host-yuuka-session=t"),
        ("host", "Yuuka.Example:8443"),
        ("origin", "https://yuuka.example:8443"),
    ]);
    assert!(!csrf_refused(Method::Post, &own_port, None));
}

#[test]
fn csrf_ignores_reads_and_null_origin_falls_back_to_referer() {
    let h = headers(&[("cookie", "yuuka-session=t"), ("sec-fetch-site", "cross-site")]);
    assert!(!csrf_refused(Method::Get, &h, None));
    assert!(csrf_refused(Method::Delete, &h, None));
    let h = headers(&[("cookie", "yuuka-session=t"), ("origin", "null"), ("referer", "http://localhost:3000/x")]);
    assert!(!csrf_refused(Method::Put, &h, None));
    let h = headers(&[("cookie", "yuuka-session=t"), ("origin", "NULL"), ("referer", "http://evil.example/")]);
    assert!(csrf_refused(Method::Patch, &h, None));
}

#[test]
fn hosts_of_urls() {
    assert_eq!(url_host("https://user:pw@Yuuka.Example:8443/path?q#f"), "Yuuka.Example");
    assert_eq!(url_host("localhost:3000"), "localhost");
    assert_eq!(url_host("[::1]:80"), "[::1]");
    assert_eq!(allowed_host_from_base_url(Some("https://yuuka.example/")).as_deref(), Some("yuuka.example"));
    assert_eq!(allowed_host_from_base_url(None), None);
    assert!(is_allowed_host("YUUKA.example", Some("yuuka.example")));
    assert!(is_allowed_host("127.0.0.1", None));
    assert!(!is_allowed_host("evil.example", None));
}

#[test]
fn bearer_tokens() {
    assert_eq!(bearer_token("Bearer abc").as_deref(), Some("abc"));
    assert_eq!(bearer_token("bEaReR \t abc  ").as_deref(), Some("abc"));
    assert_eq!(bearer_token("Bearerabc"), None);
    assert_eq!(bearer_token("Bearer    "), None);
    assert_eq!(bearer_token("Basic abc"), None);
    assert_eq!(request_bearer_token(None), None);
}

#[test]
fn cookies() {
    assert_eq!(cookie_value("a=1; b = 2 ; a=3", "a").as_deref(), Some("3"));
    assert_eq!(cookie_value("a=1; b = 2 ", "b").as_deref(), Some("2"));
    assert_eq!(cookie_value("a=x=y", "a").as_deref(), Some("x=y"));
    assert_eq!(cookie_value("novalue; c=1", "novalue"), None);
    assert!(has_session_cookie(Some("x=1; __Host-yuuka-session=abc")));
    assert!(!has_session_cookie(Some("yuuka-session")));
    assert!(!has_session_cookie(None));
}

#[test]
fn https_prod_requires_host_prefixed_cookie() {
    assert_eq!(session_token(Some("yuuka-session=dev"), true), None);
    assert_eq!(session_token(Some("yuuka-session=dev"), false).as_deref(), Some("dev"));
    assert_eq!(session_token(Some("__Host-yuuka-session=h; yuuka-session=dev"), true).as_deref(), Some("h"));
}

#[test]
fn roles_and_extractors() {
    assert_eq!(parse_role("ADMIN"), Role::Admin);
    assert_eq!(parse_role("user"), Role::User);
    assert_eq!(parse_role("root"), Role::User);
    assert!(matches!(AuthenticatedUser::from_resolved(None), Err(WebError::Unauthorized)));
    assert!(AuthenticatedUser::from_resolved(Some(user(Role::User))).is_ok());
    assert!(matches!(AdminUser::from_resolved(Some(user(Role::User))), Err(WebError::Forbidden)));
    assert!(AdminUser::from_resolved(Some(user(Role::Admin))).is_ok());
    assert!(matches!(BearerUser::from_resolved(None), Err(WebError::Unauthorized)));
}

#[test]
fn error_statuses() {
    assert_eq!(WebError::Validation("x".to_owned()).status(), 400);
    assert_eq!(WebError::Unauthorized.status(), 401);
    assert_eq!(WebError::Forbidden.status(), 403);
    assert_eq!(WebError::NotFound.status(), 404);
    assert_eq!(WebError::Conflict.status(), 409);
    assert_eq!(WebError::Internal.status(), 500);
    assert_eq!(WebError::Upstream.status(), 503);
}

#[test]
fn envelopes() {
    let e = Envelope::bare(false);
    assert!(!e.success);
    assert!(e.message.is_none());
    assert_eq!(e.data, EmptyData {});
    let e = Envelope::ok_with_message(3, "done");
    assert!(e.success);
    assert_eq!(e.message.as_deref(), Some("done"));
    assert_eq!(e.data, 3);
    let e = Envelope::err((), "no");
    assert!(!e.success);
    assert_eq!(e.message.as_deref(), Some("no"));
}

#[test]
fn resolve_scope_falls_back_to_the_default_bot() {
    assert_eq!(bot_to_check(None), None);
    assert_eq!(bot_to_check(Some("")), None);
    assert_eq!(bot_to_check(Some("system_default")), None);
    assert_eq!(bot_to_check(Some("b1")).as_deref(), Some("b1"));
    let s = scope_for("u1", Some("b1"), Some("owner".to_owned()));
    assert_eq!(s.bot_id, "b1");
    assert_eq!(s.config_owner_id(), "owner");
    let s = scope_for("u1", Some("b1"), None);
    assert_eq!(s.bot_id, "system_default");
    assert_eq!(s.bot_owner_id, None);
    assert_eq!(s.config_owner_id(), "u1");
    assert!(!access_needs_lookup("system_default"));
    assert!(access_needs_lookup("b2"));
}

#[test]
fn body_botid_wins_over_query() {
    let body = JsonValue::Object(vec![("botId".to_owned(), JsonValue::Str("b-body".to_owned()))]);
    assert_eq!(scoped_bot_id(&body, Some("b-query".to_owned())).as_deref(), Some("b-body"));
    let sj = ScopedJson::new(&body, Some("b-query".to_owned()), 5u8);
    assert_eq!(sj.bot_id.as_deref(), Some("b-body"));
    assert_eq!(sj.value, 5);
}

#[test]
fn falls_back_to_query_when_body_absent() {
    let body = JsonValue::Object(vec![("title".to_owned(), JsonValue::Str("x".to_owned()))]);
    assert_eq!(scoped_bot_id(&body, Some("b-query".to_owned())).as_deref(), Some("b-query"));
}

#[test]
fn none_when_botid_absent_everywhere() {
    assert_eq!(scoped_bot_id(&JsonValue::Object(vec![]), None), None);
}

#[test]
fn db_override_beats_config() {
    assert_eq!(setting_or(Some("https://db".to_owned()), "https://cfg"), "https://db");
}

#[test]
fn empty_db_value_falls_back_to_config() {
    assert_eq!(setting_or(Some(String::new()), "https://cfg"), "https://cfg");
    assert_eq!(setting_or(None, "https://cfg"), "https://cfg");
}

#[test]
fn hashed_asset_gets_immutable_cache() {
    assert!(is_hashed_asset("/assets/app-BIDAdKj3.js"));
    assert_eq!(cache_policy(true, "/assets/app-BIDAdKj3.js"), IMMUTABLE);
}

#[test]
fn short_hash_asset_is_not_immutable() {
    assert!(!is_hashed_asset("/assets/app-abc123.js"));
    assert_eq!(cache_policy(true, "/assets/app-abc123.js"), NO_CACHE);
}

#[test]
fn missing_asset_is_404_not_immutable() {
    assert_eq!(cache_policy(false, "/assets/missing-BIDAdKj3.js"), NO_CACHE);
    assert_eq!(static_fallback("/assets/missing-BIDAdKj3.js"), StaticFallback::NotFoundPage);
}

#[test]
fn index_html_and_root_are_no_cache() {
    for uri in ["/index.html", "/site.json", "/"] {
        assert_eq!(cache_policy(true, uri), NO_CACHE, "uri={uri}");
    }
}

#[test]
fn extensionless_unknown_falls_back_to_index_html() {
    assert_eq!(static_fallback("/dashboard/tasks"), StaticFallback::AppShell);
    assert_eq!(static_fallback("/.hidden"), StaticFallback::AppShell);
    assert!(!has_extension("/"));
}

#[test]
fn extension_unknown_returns_404_not_index() {
    for uri in ["/old-removed.js", "/sw-missing.js", "/style.css"] {
        assert_eq!(static_fallback(uri), StaticFallback::NotFoundPage, "uri={uri}");
    }
}

#[test]
fn hashed_asset_rules() {
    assert!(is_hashed_asset("/assets/vendor-a-b_c-DEF12345.woff2"));
    assert!(!is_hashed_asset("/assets/app-BIDAdKj3.txt"));
    assert!(!is_hashed_asset("/other/app-BIDAdKj3.js"));
    assert!(!is_hashed_asset("/assets/appBIDAdKj3.js"));
    assert!(!is_hashed_asset("/assets/app-BIDA.dKj3.js"));
}

#[test]
fn security_headers_present_on_all_responses() {
    let h = security_headers(false);
    let names: Vec<&str> = h.iter().map(|(k, _)| *k).collect();
    assert_eq!(
        names,
        vec!["x-content-type-options", "x-frame-options", "referrer-policy", "content-security-policy"]
    );
    assert_eq!(h[0].1, "nosniff");
}

#[test]
fn hsts_only_on_https_deployment() {
    assert!(!security_headers(false).iter().any(|(k, _)| *k == "strict-transport-security"));
    let h = security_headers(true);
    assert_eq!(h.last().unwrap(), &("strict-transport-security", "max-age=63072000; includeSubDomains"));
    assert_eq!(MAX_BODY_BYTES, 10 * 1024 * 1024);
}

#[test]
fn user_resolution_tries_cookie_then_bearer() {
    assert!(matches!(
        auth_start(Some("__Host-yuuka-session=c"), Some("Bearer b"), true),
        AuthStep::AskSession(t) if t == "c"
    ));
    assert!(matches!(auth_start(Some("yuuka-session=c"), Some("Bearer b"), true), AuthStep::AskDesktop(t) if t == "b"));
    assert!(matches!(auth_start(None, None, false), AuthStep::Resolved(None)));
    assert!(matches!(auth_after_session(None, Some("Bearer b")), AuthStep::AskDesktop(t) if t == "b"));
    assert!(matches!(auth_after_session(None, None), AuthStep::Resolved(None)));
    assert!(matches!(
        auth_after_session(Some(user(Role::Admin)), Some("Bearer b")),
        AuthStep::Resolved(Some(u)) if u.role == Role::Admin
    ));
}
