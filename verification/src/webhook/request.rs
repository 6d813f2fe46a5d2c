//! Reading the management requests: creating, updating, deleting endpoints
//! and listing deliveries.
//!
//! The body is a JSON object with camelCase keys. A refused request is
//! answered `400` with one of the messages of [`WebhookRequestError`].
use vstd::prelude::*;

use super::endpoint::{EncryptedSecret, EndpointCreate, EndpointPatch};
use crate::json::{as_str, as_str_spec, get, get_spec, opt_view, JsonValue};
use crate::num::{parse_i64, parse_i64_spec};
use crate::text::{chars_of, is_blank, push_str, str_eq, trim, trim_str};
use crate::todo::args::{arg_i64, arg_i64_spec, arg_str, arg_str_spec};

verus! {

/// The shortest secret accepted, in characters.
pub const MIN_SECRET_CHARS: usize = 16;

/// How many deliveries a listing returns at most.
pub const DELIVERY_LIST_LIMIT: i64 = 50;

/// `str_field`: the trimmed string under `key`, or empty.
pub open spec fn str_field_spec(body: JsonValue, key: Seq<char>) -> Seq<char> {
    match as_str_spec(get_spec(body, key)) {
        Some(s) => trim(s),
        None => Seq::empty(),
    }
}

/// `bool_field`: whether `key` holds `true`.
pub open spec fn bool_field_spec(body: JsonValue, key: Seq<char>) -> bool {
    get_spec(body, key) == Some(JsonValue::Bool(true))
}

/// `target_type`: `"channel"` when asked for, otherwise `"dm"`.
pub open spec fn target_type_spec(body: JsonValue) -> Seq<char> {
    if as_str_spec(get_spec(body, "notifyTargetType"@)) == Some("channel"@) {
        "channel"@
    } else {
        "dm"@
    }
}

/// The trimmed string under `key`, or empty.
pub fn str_field(body: &JsonValue, key: &str) -> (r: String)
    ensures
        r@ == str_field_spec(*body, key@),
{
    match as_str(get(body, key)) {
        Some(s) => trim_str(s),
        None => String::new(),
    }
}

/// The string under `key` as written.
pub fn present_string(body: &JsonValue, key: &str) -> (r: Option<String>)
    ensures
        opt_view(r) == as_str_spec(get_spec(*body, key@)),
{
    match as_str(get(body, key)) {
        Some(s) => Some(crate::text::copy_str(s)),
        None => None,
    }
}

/// The trimmed string under `key`, absent when it is empty.
pub fn opt_trimmed(body: &JsonValue, key: &str) -> (r: Option<String>)
    ensures
        opt_view(r) == arg_str_spec(*body, key@),
{
    arg_str(body, key)
}

/// The trimmed string under `key`, or null when it is empty (template and
/// filter keyword).
pub fn string_or_null(body: &JsonValue, key: &str) -> (r: Option<String>)
    ensures
        opt_view(r) == arg_str_spec(*body, key@),
{
    arg_str(body, key)
}

/// Whether `key` holds `true`.
pub fn bool_field(body: &JsonValue, key: &str) -> (r: bool)
    ensures
        r == bool_field_spec(*body, key@),
{
    match get(body, key) {
        Some(JsonValue::Bool(b)) => *b,
        _ => false,
    }
}

/// An integer under `key`: a number that is an integer, or a string that
/// reads as one once trimmed.
pub fn int_field(body: &JsonValue, key: &str) -> (r: Option<i64>)
    ensures
        r == arg_i64_spec(*body, key@),
{
    arg_i64(body, key)
}

/// Where notifications go: `"channel"` when asked for, otherwise `"dm"`.
pub fn target_type(body: &JsonValue) -> (r: String)
    ensures
        r@ == target_type_spec(*body),
{
    let channel = match as_str(get(body, "notifyTargetType")) {
        Some(s) => str_eq(s, "channel"),
        None => false,
    };
    if channel {
        "channel".to_owned()
    } else {
        "dm".to_owned()
    }
}

/// Why a management request is refused.
#[derive(Debug, Clone, Copy, PartialEq, Eq)]
pub enum WebhookRequestError {
    /// A new endpoint needs a name.
    NameRequired,
    /// A new endpoint needs a secret of at least sixteen characters.
    SecretTooShort,
    /// An update or delete needs an integer id.
    IdRequired,
    /// A secret given in an update must have at least sixteen characters.
    SecretUpdateTooShort,
}

impl WebhookRequestError {
    /// The message of the `400` answer.
    pub fn message(&self) -> (r: &'static str)
        ensures
            r@ == match *self {
                WebhookRequestError::NameRequired => "name は必須です。"@,
                WebhookRequestError::SecretTooShort => "Webhookシークレット（16文字以上）は必須です。受信は HMAC-SHA256 署名で検証されます。"@,
                WebhookRequestError::IdRequired => "id は必須です。"@,
                WebhookRequestError::SecretUpdateTooShort => "Webhookシークレットは16文字以上が必要です（署名検証のため空にはできません）。"@,
            },
    {
        match self {
            WebhookRequestError::NameRequired => "name は必須です。",
            WebhookRequestError::SecretTooShort => "Webhookシークレット（16文字以上）は必須です。受信は HMAC-SHA256 署名で検証されます。",
            WebhookRequestError::IdRequired => "id は必須です。",
            WebhookRequestError::SecretUpdateTooShort => "Webhookシークレットは16文字以上が必要です（署名検証のため空にはできません）。",
        }
    }

    /// The status of the answer: always `400`.
    pub fn status(&self) -> (r: u16)
        ensures
            r == 400,
    {
        400
    }
}

/// A create request that passed the checks; the secret is still plain text
/// (trimmed) and is encrypted before it is stored.
#[derive(Debug)]
pub struct CreatePlan {
    pub name: String,
    pub secret: String,
    pub notify_target_type: String,
    pub notify_target_id: Option<String>,
    pub template: Option<String>,
    pub filter_keyword: Option<String>,
    pub create_todo: bool,
    pub create_reminder: bool,
}

/// Reads a create request (`POST /api/webhooks/create`).
///
/// Refused without a name, then without a secret of sixteen characters.
pub fn plan_create(body: &JsonValue) -> (r: Result<CreatePlan, WebhookRequestError>)
    ensures
        str_field_spec(*body, "name"@).len() == 0 ==> r == Err::<CreatePlan, _>(
            WebhookRequestError::NameRequired,
        ),
        str_field_spec(*body, "name"@).len() > 0 && str_field_spec(*body, "secret"@).len()
            < MIN_SECRET_CHARS ==> r == Err::<CreatePlan, _>(WebhookRequestError::SecretTooShort),
        r is Ok <==> (str_field_spec(*body, "name"@).len() > 0 && str_field_spec(
            *body,
            "secret"@,
        ).len() >= MIN_SECRET_CHARS),
        r matches Ok(p) ==> {
            &&& p.name@ == str_field_spec(*body, "name"@)
            &&& p.secret@ == str_field_spec(*body, "secret"@)
            &&& p.notify_target_type@ == target_type_spec(*body)
            &&& opt_view(p.notify_target_id) == arg_str_spec(*body, "notifyTargetId"@)
            &&& opt_view(p.template) == arg_str_spec(*body, "template"@)
            &&& opt_view(p.filter_keyword) == arg_str_spec(*body, "filterKeyword"@)
            &&& p.create_todo == bool_field_spec(*body, "createTodo"@)
            &&& p.create_reminder == bool_field_spec(*body, "createReminder"@)
        },
{
    let name = str_field(body, "name");
    if chars_of(name.as_str()).len() == 0 {
        return Err(WebhookRequestError::NameRequired);
    }
    let secret = str_field(body, "secret");
    if chars_of(secret.as_str()).len() < MIN_SECRET_CHARS {
        return Err(WebhookRequestError::SecretTooShort);
    }
    Ok(
        CreatePlan {
            name,
            secret,
            notify_target_type: target_type(body),
            notify_target_id: opt_trimmed(body, "notifyTargetId"),
            template: string_or_null(body, "template"),
            filter_keyword: string_or_null(body, "filterKeyword"),
            create_todo: bool_field(body, "createTodo"),
            create_reminder: bool_field(body, "createReminder"),
        },
    )
}

impl CreatePlan {
    /// The endpoint to store, with the secret in its encrypted form.
    pub fn into_create(self, secret: EncryptedSecret) -> (c: EndpointCreate)
        ensures
            c.name == self.name,
            c.secret == Some(secret),
            c.notify_target_type == self.notify_target_type,
            c.notify_target_id == self.notify_target_id,
            c.template == self.template,
            c.filter_keyword == self.filter_keyword,
            c.create_todo == self.create_todo,
            c.create_reminder == self.create_reminder,
    {
        EndpointCreate {
            name: self.name,
            secret: Some(secret),
            notify_target_type: self.notify_target_type,
            notify_target_id: self.notify_target_id,
            template: self.template,
            filter_keyword: self.filter_keyword,
            create_todo: self.create_todo,
            create_reminder: self.create_reminder,
        }
    }
}

/// An update request that passed the checks. Each field is present when the
/// body has its key; `secret` is the plain text to encrypt.
#[derive(Debug)]
pub struct UpdatePlan {
    pub id: i64,
    pub secret: Option<String>,
    pub name: Option<String>,
    pub notify_target_type: Option<String>,
    pub notify_target_id: Option<Option<String>>,
    pub template: Option<Option<String>>,
    pub filter_keyword: Option<Option<String>>,
    pub create_todo: Option<bool>,
    pub create_reminder: Option<bool>,
    pub enabled: Option<bool>,
}

/// The view of an optional optional string.
pub open spec fn opt_opt_view(o: Option<Option<String>>) -> Option<Option<Seq<char>>> {
    match o {
        Some(x) => Some(opt_view(x)),
        None => None,
    }
}

/// A field read only when its key is present.
pub open spec fn when_present<T>(body: JsonValue, key: Seq<char>, v: T) -> Option<T> {
    if get_spec(body, key) is Some {
        Some(v)
    } else {
        None
    }
}

/// The name of an update: the string as written, unless it is blank.
pub open spec fn update_name_spec(body: JsonValue) -> Option<Seq<char>> {
    match as_str_spec(get_spec(body, "name"@)) {
        Some(s) => if trim(s).len() > 0 {
            Some(s)
        } else {
            None
        },
        None => None,
    }
}

/// Reads an update request (`POST /api/webhooks/update`).
///
/// Refused without an integer id, then when a secret is given (of any type)
/// that is under sixteen characters once trimmed.
pub fn plan_update(body: &JsonValue) -> (r: Result<UpdatePlan, WebhookRequestError>)
    ensures
        arg_i64_spec(*body, "id"@) is None ==> r == Err::<UpdatePlan, _>(
            WebhookRequestError::IdRequired,
        ),
        arg_i64_spec(*body, "id"@) is Some && get_spec(*body, "secret"@) is Some
            && str_field_spec(*body, "secret"@).len() < MIN_SECRET_CHARS ==> r == Err::<
            UpdatePlan,
            _,
        >(WebhookRequestError::SecretUpdateTooShort),
        r is Ok <==> (arg_i64_spec(*body, "id"@) is Some && !(get_spec(*body, "secret"@) is Some
            && str_field_spec(*body, "secret"@).len() < MIN_SECRET_CHARS)),
        r matches Ok(p) ==> {
            &&& Some(p.id) == arg_i64_spec(*body, "id"@)
            &&& opt_view(p.secret) == when_present(*body, "secret"@, str_field_spec(*body, "secret"@))
            &&& opt_view(p.name) == update_name_spec(*body)
            &&& opt_view(p.notify_target_type) == when_present(
                *body,
                "notifyTargetType"@,
                target_type_spec(*body),
            )
            &&& opt_opt_view(p.notify_target_id) == when_present(
                *body,
                "notifyTargetId"@,
                arg_str_spec(*body, "notifyTargetId"@),
            )
            &&& opt_opt_view(p.template) == when_present(
                *body,
                "template"@,
                arg_str_spec(*body, "template"@),
            )
            &&& opt_opt_view(p.filter_keyword) == when_present(
                *body,
                "filterKeyword"@,
                arg_str_spec(*body, "filterKeyword"@),
            )
            &&& p.create_todo == when_present(
                *body,
                "createTodo"@,
                bool_field_spec(*body, "createTodo"@),
            )
            &&& p.create_reminder == when_present(
                *body,
                "createReminder"@,
                bool_field_spec(*body, "createReminder"@),
            )
            &&& p.enabled == when_present(*body, "enabled"@, bool_field_spec(*body, "enabled"@))
        },
{
    let id = match int_field(body, "id") {
        Some(v) => v,
        None => {
            return Err(WebhookRequestError::IdRequired);
        },
    };
    let secret_present = get(body, "secret").is_some();
    let secret_value = str_field(body, "secret");
    if secret_present && chars_of(secret_value.as_str()).len() < MIN_SECRET_CHARS {
        return Err(WebhookRequestError::SecretUpdateTooShort);
    }
    let secret = if secret_present {
        Some(secret_value)
    } else {
        None
    };
    let name = match present_string(body, "name") {
        Some(s) => if is_blank(s.as_str()) {
            None
        } else {
            Some(s)
        },
        None => None,
    };
    let notify_target_type = if get(body, "notifyTargetType").is_some() {
        Some(target_type(body))
    } else {
        None
    };
    let notify_target_id = if get(body, "notifyTargetId").is_some() {
        Some(opt_trimmed(body, "notifyTargetId"))
    } else {
        None
    };
    let template = if get(body, "template").is_some() {
        Some(string_or_null(body, "template"))
    } else {
        None
    };
    let filter_keyword = if get(body, "filterKeyword").is_some() {
        Some(string_or_null(body, "filterKeyword"))
    } else {
        None
    };
    let create_todo = if get(body, "createTodo").is_some() {
        Some(bool_field(body, "createTodo"))
    } else {
        None
    };
    let create_reminder = if get(body, "createReminder").is_some() {
        Some(bool_field(body, "createReminder"))
    } else {
        None
    };
    let enabled = if get(body, "enabled").is_some() {
        Some(bool_field(body, "enabled"))
    } else {
        None
    };
    Ok(
        UpdatePlan {
            id,
            secret,
            name,
            notify_target_type,
            notify_target_id,
            template,
            filter_keyword,
            create_todo,
            create_reminder,
            enabled,
        },
    )
}

impl UpdatePlan {
    /// The patch to lay over the stored endpoint; `secret` is the encrypted
    /// form of the plan's secret, given when the plan has one.
    pub fn into_patch(self, secret: Option<EncryptedSecret>) -> (p: EndpointPatch)
        ensures
            p.name == self.name,
            p.secret == match secret {
                Some(s) => Some(Some(s)),
                None => None::<Option<EncryptedSecret>>,
            },
            p.notify_target_type == self.notify_target_type,
            p.notify_target_id == self.notify_target_id,
            p.template == self.template,
            p.filter_keyword == self.filter_keyword,
            p.create_todo == self.create_todo,
            p.create_reminder == self.create_reminder,
            p.enabled == self.enabled,
    {
        EndpointPatch {
            name: self.name,
            secret: match secret {
                Some(s) => Some(Some(s)),
                None => None,
            },
            notify_target_type: self.notify_target_type,
            notify_target_id: self.notify_target_id,
            template: self.template,
            filter_keyword: self.filter_keyword,
            create_todo: self.create_todo,
            create_reminder: self.create_reminder,
            enabled: self.enabled,
        }
    }
}

/// Reads a delete request (`POST /api/webhooks/delete`): the endpoint's id.
pub fn plan_delete(body: &JsonValue) -> (r: Result<i64, WebhookRequestError>)
    ensures
        r == match arg_i64_spec(*body, "id"@) {
            Some(id) => Ok::<i64, WebhookRequestError>(id),
            None => Err(WebhookRequestError::IdRequired),
        },
{
    match int_field(body, "id") {
        Some(id) => Ok(id),
        None => Err(WebhookRequestError::IdRequired),
    }
}

/// The endpoint filter of a delivery listing: the query value read as an
/// `i64`, as written (no trimming); anything else lists all endpoints.
pub fn delivery_filter(endpoint_id: Option<&str>) -> (r: Option<i64>)
    ensures
        r == match endpoint_id {
            Some(s) => parse_i64_spec(s@),
            None => None,
        },
{
    match endpoint_id {
        Some(s) => {
            let cs = chars_of(s);
            parse_i64(cs.as_slice())
        },
        None => None,
    }
}

/// The message after creating the endpoint `name`.
pub fn created_message(name: &str) -> (r: String)
    ensures
        r@ == "Webhookエンドポイント「"@ + name@ + "」を作成しました。発行されたURLを外部サービスに登録してください。"@,
{
    let mut r = "Webhookエンドポイント「".to_owned();
    push_str(&mut r, name);
    push_str(&mut r, "」を作成しました。発行されたURLを外部サービスに登録してください。");
    r
}

/// The message after an update, by whether a row was changed.
pub fn updated_message(ok: bool) -> (r: &'static str)
    ensures
        r@ == if ok {
            "Webhookエンドポイントを更新しました。"@
        } else {
            "エンドポイントが見つかりません。"@
        },
{
    if ok {
        "Webhookエンドポイントを更新しました。"
    } else {
        "エンドポイントが見つかりません。"
    }
}

/// The message after a delete, by whether a row was removed.
pub fn deleted_message(ok: bool) -> (r: &'static str)
    ensures
        r@ == if ok {
            "Webhookエンドポイントを削除しました。"@
        } else {
            "エンドポイントが見つかりません。"@
        },
{
    if ok {
        "Webhookエンドポイントを削除しました。"
    } else {
        "エンドポイントが見つかりません。"
    }
}

} // verus!
