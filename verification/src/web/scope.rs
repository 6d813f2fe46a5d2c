//! The data scope a request acts in, and where its bot id comes from.
use vstd::prelude::*;

use crate::json::{as_str, as_str_spec, get, get_spec, opt_view, JsonValue};
use crate::text::{chars_of, copy_str, str_eq};

verus! {

/// The default bot, which every user may use.
pub open spec fn system_default() -> Seq<char> {
    "system_default"@
}

/// Whose data a request reads and writes: the user, the bot, and, for a bot
/// of the user's own or shared with them, the bot's owner.
#[derive(Debug, Clone)]
pub struct UserScope {
    pub user_id: String,
    pub bot_id: String,
    pub bot_owner_id: Option<String>,
}

impl UserScope {
    /// The user whose configuration applies: the bot's owner, else the user.
    pub fn config_owner_id(&self) -> (r: &String)
        ensures
            r@ == match self.bot_owner_id {
                Some(o) => o@,
                None => self.user_id@,
            },
    {
        match &self.bot_owner_id {
            Some(o) => o,
            None => &self.user_id,
        }
    }
}

/// The bot whose access must be looked up: a requested bot other than the
/// default (an empty request counts as none).
pub open spec fn bot_to_check_spec(raw: Option<Seq<char>>) -> Option<Seq<char>> {
    match raw {
        Some(b) => if b.len() > 0 && b != system_default() {
            Some(b)
        } else {
            None
        },
        None => None,
    }
}

pub fn bot_to_check(raw_bot_id: Option<&str>) -> (r: Option<String>)
    ensures
        opt_view(r) == bot_to_check_spec(match raw_bot_id {
            Some(b) => Some(b@),
            None => None,
        }),
{
    match raw_bot_id {
        Some(b) => {
            let cs = chars_of(b);
            if cs.len() > 0 && !str_eq(b, "system_default") {
                Some(copy_str(b))
            } else {
                None
            }
        },
        None => None,
    }
}

/// The scope (`resolve_scope`): the requested bot with its owner when the
/// user may use it (`owner` is what the access lookup found), otherwise the
/// default bot with no owner.
pub fn scope_for(user_id: &str, raw_bot_id: Option<&str>, owner: Option<String>) -> (s: UserScope)
    ensures
        s.user_id@ == user_id@,
        match (bot_to_check_spec(match raw_bot_id {
            Some(b) => Some(b@),
            None => None,
        }), owner) {
            (Some(b), Some(o)) => s.bot_id@ == b && opt_view(s.bot_owner_id) == Some(o@),
            _ => s.bot_id@ == system_default() && s.bot_owner_id is None,
        },
{
    match (bot_to_check(raw_bot_id), owner) {
        (Some(b), Some(o)) => UserScope { user_id: copy_str(user_id), bot_id: b, bot_owner_id: Some(o) },
        _ => UserScope { user_id: copy_str(user_id), bot_id: "system_default".to_owned(), bot_owner_id: None },
    }
}

/// Access to the default bot needs no lookup.
pub fn access_needs_lookup(bot_id: &str) -> (r: bool)
    ensures
        r == (bot_id@ != system_default()),
{
    !str_eq(bot_id, "system_default")
}

/// The bot id of a JSON request: the body's `botId` string wins over the
/// query's `botId`.
pub fn scoped_bot_id(body: &JsonValue, query_bot_id: Option<String>) -> (r: Option<String>)
    ensures
        opt_view(r) == match as_str_spec(get_spec(*body, "botId"@)) {
            Some(b) => Some(b),
            None => opt_view(query_bot_id),
        },
{
    match as_str(get(body, "botId")) {
        Some(b) => Some(copy_str(b)),
        None => query_bot_id,
    }
}

/// A JSON request body read as `T`, with its bot id: the body's `botId`
/// string, else the query's.
#[derive(Debug)]
pub struct ScopedJson<T> {
    /// The bot id before the scope is resolved.
    pub bot_id: Option<String>,
    /// The request's payload.
    pub value: T,
}

impl<T> ScopedJson<T> {
    /// Pairs the payload read from `body` with the request's bot id.
    pub fn new(body: &JsonValue, query_bot_id: Option<String>, value: T) -> (r: ScopedJson<T>)
        ensures
            r.value == value,
            opt_view(r.bot_id) == match as_str_spec(get_spec(*body, "botId"@)) {
                Some(b) => Some(b),
                None => opt_view(query_bot_id),
            },
    {
        ScopedJson { bot_id: scoped_bot_id(body, query_bot_id), value }
    }
}

/// A stored setting wins over the configured default unless it is empty.
pub fn setting_or(setting: Option<String>, fallback: &str) -> (r: String)
    ensures
        r@ == match setting {
            Some(v) => if v@.len() > 0 {
                v@
            } else {
                fallback@
            },
            None => fallback@,
        },
{
    match setting {
        Some(v) => {
            let cs = chars_of(v.as_str());
            if cs.len() > 0 {
                v
            } else {
                copy_str(fallback)
            }
        },
        None => copy_str(fallback),
    }
}

} // verus!
