//! Reading the arguments of the assistant's task tools.
//!
//! Tool arguments are snake_case JSON objects. Strings are trimmed; a string
//! argument that is empty after trimming counts as absent.
use vstd::prelude::*;

use super::dto::PriorityUpdate;
use crate::json::{
    as_str, as_str_spec, get, get_spec, opt_view, strs_view, JsonNumber, JsonValue,
};
use crate::num::{parse_i64, parse_i64_spec};
use crate::text::{chars_of, is_blank, is_ws, push_str, str_eq, trim, trim_str, char_is_ws};

verus! {

/// `asOptionalString`: the trimmed string under `key`, absent when empty.
pub open spec fn arg_str_spec(args: JsonValue, key: Seq<char>) -> Option<Seq<char>> {
    match as_str_spec(get_spec(args, key)) {
        Some(s) => if trim(s).len() == 0 {
            None
        } else {
            Some(trim(s))
        },
        None => None,
    }
}

/// The trimmed string under `key`, kept when empty.
pub open spec fn arg_raw_str_spec(args: JsonValue, key: Seq<char>) -> Option<Seq<char>> {
    match as_str_spec(get_spec(args, key)) {
        Some(s) => Some(trim(s)),
        None => None,
    }
}

/// `asTodoId`: an integer number, or a string that reads as an `i64` once trimmed.
pub open spec fn arg_i64_spec(args: JsonValue, key: Seq<char>) -> Option<i64> {
    match get_spec(args, key) {
        Some(JsonValue::Number(n)) => n.int,
        Some(JsonValue::Str(s)) => parse_i64_spec(trim(s@)),
        _ => None,
    }
}

pub fn arg_str(args: &JsonValue, key: &str) -> (r: Option<String>)
    ensures
        opt_view(r) == arg_str_spec(*args, key@),
{
    match as_str(get(args, key)) {
        Some(s) => if is_blank(s) {
            None
        } else {
            Some(trim_str(s))
        },
        None => None,
    }
}

pub fn arg_raw_str(args: &JsonValue, key: &str) -> (r: Option<String>)
    ensures
        opt_view(r) == arg_raw_str_spec(*args, key@),
{
    match as_str(get(args, key)) {
        Some(s) => Some(trim_str(s)),
        None => None,
    }
}

pub fn arg_i64(args: &JsonValue, key: &str) -> (r: Option<i64>)
    ensures
        r == arg_i64_spec(*args, key@),
{
    match get(args, key) {
        Some(JsonValue::Number(n)) => n.int,
        Some(JsonValue::Str(s)) => {
            let t = trim_str(s.as_str());
            let cs = chars_of(t.as_str());
            parse_i64(cs.as_slice())
        },
        _ => None,
    }
}


/// The canonical priority named by `s`: only the three known names.
pub open spec fn priority_of_str(s: Seq<char>) -> Option<Seq<char>> {
    if s == "high"@ {
        Some("high"@)
    } else if s == "medium"@ {
        Some("medium"@)
    } else if s == "low"@ {
        Some("low"@)
    } else {
        None
    }
}

/// The canonical priority of a numeric priority: 2, 1, 0 for high, medium, low.
pub open spec fn priority_of_num(n: i64) -> Option<Seq<char>> {
    if n == 2 {
        Some("high"@)
    } else if n == 1 {
        Some("medium"@)
    } else if n == 0 {
        Some("low"@)
    } else {
        None
    }
}

/// The canonical priority of a JSON value: a whole number 0 to 2 or a known name.
pub open spec fn priority_of_json(v: JsonValue) -> Option<Seq<char>> {
    match v {
        JsonValue::Number(n) => match n.whole {
            Some(w) => priority_of_num(w),
            None => None,
        },
        JsonValue::Str(s) => priority_of_str(s@),
        _ => None,
    }
}

/// Numeric priority to its name (`normalize_priority_num`).
pub fn normalize_priority_num(n: i64) -> (r: Option<String>)
    ensures
        opt_view(r) == priority_of_num(n),
{
    if n == 2 {
        Some("high".to_owned())
    } else if n == 1 {
        Some("medium".to_owned())
    } else if n == 0 {
        Some("low".to_owned())
    } else {
        None
    }
}

/// A priority name, kept only when it is one of the three (`normalize_priority_str`).
pub fn normalize_priority_str(s: &str) -> (r: Option<String>)
    ensures
        opt_view(r) == priority_of_str(s@),
{
    if str_eq(s, "high") {
        Some("high".to_owned())
    } else if str_eq(s, "medium") {
        Some("medium".to_owned())
    } else if str_eq(s, "low") {
        Some("low".to_owned())
    } else {
        None
    }
}

/// The canonical priority of a JSON value, unset for anything else.
pub fn normalize_priority(value: &JsonValue) -> (r: Option<String>)
    ensures
        opt_view(r) == priority_of_json(*value),
{
    match value {
        JsonValue::Number(n) => match n.whole {
            Some(w) => normalize_priority_num(w),
            None => None,
        },
        JsonValue::Str(s) => normalize_priority_str(s.as_str()),
        _ => None,
    }
}

impl View for PriorityUpdate {
    /// `None` keeps the priority; `Some(None)` clears it; `Some(Some(p))` sets it.
    type V = Option<Option<Seq<char>>>;

    open spec fn view(&self) -> Option<Option<Seq<char>>> {
        match self {
            PriorityUpdate::Unchanged => None,
            PriorityUpdate::Clear => Some(None),
            PriorityUpdate::SetTo(p) => Some(Some(p@)),
        }
    }
}

/// The priority update that the request field `v` asks for: `null` or `""`
/// clears, a known priority sets, anything else (absent too) keeps.
pub open spec fn priority_update_spec(v: Option<JsonValue>) -> Option<Option<Seq<char>>> {
    match v {
        None => None,
        Some(JsonValue::Null) => Some(None),
        Some(JsonValue::Str(s)) => if s@.len() == 0 {
            Some(None)
        } else {
            match priority_of_str(s@) {
                Some(p) => Some(Some(p)),
                None => None,
            }
        },
        Some(x) => match priority_of_json(x) {
            Some(p) => Some(Some(p)),
            None => None,
        },
    }
}

impl PriorityUpdate {
    /// Reads the `priority` field of an update request; `None` when absent.
    pub fn from_json(v: Option<&JsonValue>) -> (r: PriorityUpdate)
        ensures
            r@ == priority_update_spec(match v {
                Some(x) => Some(*x),
                None => None,
            }),
    {
        match v {
            None => PriorityUpdate::Unchanged,
            Some(JsonValue::Null) => PriorityUpdate::Clear,
            Some(JsonValue::Str(s)) => {
                let cs = chars_of(s.as_str());
                if cs.len() == 0 {
                    PriorityUpdate::Clear
                } else {
                    match normalize_priority_str(s.as_str()) {
                        Some(p) => PriorityUpdate::SetTo(p),
                        None => PriorityUpdate::Unchanged,
                    }
                }
            },
            Some(x) => match normalize_priority(x) {
                Some(p) => PriorityUpdate::SetTo(p),
                None => PriorityUpdate::Unchanged,
            },
        }
    }
}

/// The status field of an update request: kept only when `"open"` or `"done"`.
pub open spec fn status_of_json(v: Option<JsonValue>) -> Option<Seq<char>> {
    match v {
        Some(JsonValue::Str(s)) => if s@ == "open"@ || s@ == "done"@ {
            Some(s@)
        } else {
            None
        },
        _ => None,
    }
}

/// Reads the `status` field of an update request.
pub fn status_from_json(v: Option<&JsonValue>) -> (r: Option<String>)
    ensures
        opt_view(r) == status_of_json(match v {
            Some(x) => Some(*x),
            None => None,
        }),
{
    match v {
        Some(JsonValue::Str(s)) => if str_eq(s.as_str(), "open") || str_eq(s.as_str(), "done") {
            Some(s.clone())
        } else {
            None
        },
        _ => None,
    }
}

/// The display name of a priority.
pub open spec fn priority_label_spec(p: Option<Seq<char>>) -> Seq<char> {
    match p {
        Some(s) => if s == "high"@ {
            "高"@
        } else if s == "medium"@ {
            "中"@
        } else if s == "low"@ {
            "低"@
        } else {
            "なし"@
        },
        None => "なし"@,
    }
}

pub fn priority_label(priority: Option<&str>) -> (r: &'static str)
    ensures
        r@ == priority_label_spec(match priority {
            Some(s) => Some(s@),
            None => None,
        }),
{
    match priority {
        Some(s) => if str_eq(s, "high") {
            "高"
        } else if str_eq(s, "medium") {
            "中"
        } else if str_eq(s, "low") {
            "低"
        } else {
            "なし"
        },
        None => "なし",
    }
}

/// The due-date note appended to messages: empty without a (non-blank) date.
pub open spec fn due_label_spec(d: Option<Seq<char>>) -> Seq<char> {
    match d {
        Some(s) => if trim(s).len() == 0 {
            ""@
        } else {
            " (期限: "@ + trim(s) + ")"@
        },
        None => ""@,
    }
}

pub fn due_label(due_date: Option<&str>) -> (r: String)
    ensures
        r@ == due_label_spec(match due_date {
            Some(s) => Some(s@),
            None => None,
        }),
{
    match due_date {
        Some(d) => if is_blank(d) {
            "".to_owned()
        } else {
            let t = trim_str(d);
            let mut out = " (期限: ".to_owned();
            push_str(&mut out, t.as_str());
            push_str(&mut out, ")");
            out
        },
        None => "".to_owned(),
    }
}

/// The number of white-space separated fields among the first `n` characters.
pub open spec fn field_count(s: Seq<char>, n: nat) -> nat
    decreases n,
{
    if n == 0 {
        0
    } else {
        let i = n - 1;
        field_count(s, i as nat) + if !is_ws(s[i]) && (i == 0 || is_ws(s[i - 1])) {
            1nat
        } else {
            0nat
        }
    }
}

/// A routine rule has exactly five white-space separated fields.
pub open spec fn is_valid_cron_basic_spec(rule: Seq<char>) -> bool {
    field_count(rule, rule.len()) == 5
}

pub fn is_valid_cron_basic(rule: &str) -> (r: bool)
    ensures
        r == is_valid_cron_basic_spec(rule@),
{
    let cs = chars_of(rule);
    let mut count: usize = 0;
    let mut i: usize = 0;
    while i < cs.len()
        invariant
            i <= cs@.len(),
            cs@ == rule@,
            count == field_count(cs@, i as nat),
            count <= i,
        decreases cs@.len() - i,
    {
        let starts = !char_is_ws(cs[i]) && (i == 0 || char_is_ws(cs[i - 1]));
        if starts {
            count += 1;
        }
        i += 1;
    }
    count == 5
}

/// Exactly the three names `high`, `medium` and `low` are priorities, each
/// kept as it is; the numbers 2, 1 and 0 name them in that order, and a
/// normalized priority normalizes to itself.
pub proof fn lemma_priority_names(s: Seq<char>, n: i64)
    ensures
        seq!["high"@, "medium"@, "low"@].contains(s) ==> priority_of_str(s) == Some(s),
        !seq!["high"@, "medium"@, "low"@].contains(s) ==> priority_of_str(s) is None,
        (0 <= n <= 2) == priority_of_num(n) is Some,
        n == 2 ==> priority_of_num(n) == Some("high"@),
        n == 1 ==> priority_of_num(n) == Some("medium"@),
        n == 0 ==> priority_of_num(n) == Some("low"@),
        priority_of_num(n) matches Some(p) ==> priority_of_str(p) == Some(p),
{
    let names = seq!["high"@, "medium"@, "low"@];
    assert(names[0] == "high"@ && names[1] == "medium"@ && names[2] == "low"@);
    if names.contains(s) {
        let i = choose|i: int| 0 <= i < names.len() && names[i] == s;
        assert(s == names[i]);
    }
}

} // verus!
