use yuuka::json::{as_str, get, JsonNumber, JsonValue};
use yuuka::num::{format_i64, format_u64, parse_i64};
use yuuka::order::str_less;
use yuuka::text::{char_width, is_blank, trim_str};

fn chars(s: &str) -> Vec<char> {
    s.chars().collect()
}

#[test]
fn parse_i64_reads_signed_decimals() {
    assert_eq!(parse_i64(&chars("42")), Some(42));
    assert_eq!(parse_i64(&chars("+7")), Some(7));
    assert_eq!(parse_i64(&chars("-9223372036854775808")), Some(i64::MIN));
    assert_eq!(parse_i64(&chars("9223372036854775808")), None);
    assert_eq!(parse_i64(&chars("")), None);
    assert_eq!(parse_i64(&chars("-")), None);
    assert_eq!(parse_i64(&chars(" 1")), None);
    assert_eq!(parse_i64(&chars("1.0")), None);
}

#[test]
fn formatting_round_trips() {
    for n in [0i64, 7, -7, 1234567890, i64::MAX, i64::MIN] {
        let text = format_i64(n);
        assert_eq!(text, n.to_string());
        assert_eq!(parse_i64(&chars(&text)), Some(n));
    }
    assert_eq!(format_u64(u64::MAX), u64::MAX.to_string());
}

#[test]
fn string_order_is_code_point_order() {
    assert!(str_less("a", "b"));
    assert!(str_less("a", "ab"));
    assert!(!str_less("b", "a"));
    assert!(!str_less("x", "x"));
    assert!(str_less("Z", "a"));
    assert!(str_less("仕事", "未分類"));
}

#[test]
fn json_lookup_takes_the_first_entry() {
    let v = JsonValue::Object(vec![
        ("k".to_owned(), JsonValue::Str("first".to_owned())),
        ("k".to_owned(), JsonValue::Str("second".to_owned())),
        ("n".to_owned(), JsonValue::Number(JsonNumber::of_int(3))),
    ]);
    assert_eq!(as_str(get(&v, "k")), Some("first"));
    assert_eq!(as_str(get(&v, "n")), None);
    assert!(get(&v, "missing").is_none());
    assert!(get(&JsonValue::Null, "k").is_none());
}

#[test]
fn trimming_and_widths() {
    assert_eq!(trim_str(" \t a b \n"), "a b");
    assert_eq!(trim_str("\u{3000}全角\u{3000}"), "全角");
    assert!(is_blank(" \n "));
    assert!(!is_blank(" x "));
    assert_eq!(char_width('a'), 1);
    assert_eq!(char_width('é'), 2);
    assert_eq!(char_width('あ'), 3);
    assert_eq!(char_width('😀'), 4);
}
