//! Users, roles, and which credential a request is read with.
use vstd::prelude::*;

use super::csrf::{bearer_token, bearer_token_spec, cookie_dev, cookie_host, cookie_value, cookie_value_spec};
use crate::json::opt_view;
use crate::text::{chars_of, eq_ignore_ascii_case, lower_ascii};

verus! {

/// A user's role.
#[derive(Debug, Clone, Copy, PartialEq, Eq)]
pub enum Role {
    User,
    Admin,
}

/// The user a session belongs to.
#[derive(Debug, Clone)]
pub struct SessionUser {
    pub discord_id: String,
    pub username: String,
    pub role: Role,
}

/// A bot as listed to its owner (no secrets, only whether they are set).
#[derive(Debug, Clone, Default)]
pub struct BotSummary {
    pub id: String,
    pub user_id: String,
    pub name: String,
    pub has_token: bool,
    pub has_gemini_key: bool,
    pub running: bool,
    pub connected: bool,
}

/// A stored role name: `admin` in any ASCII case is an admin, anything else a user.
pub fn parse_role(raw: &str) -> (r: Role)
    ensures
        r == (if lower_ascii(raw@) == "admin"@ {
            Role::Admin
        } else {
            Role::User
        }),
{
    let a = chars_of(raw);
    let b = chars_of("admin");
    proof {
        reveal_strlit("admin");
        assert(lower_ascii("admin"@) =~= "admin"@);
    }
    if eq_ignore_ascii_case(a.as_slice(), b.as_slice()) {
        Role::Admin
    } else {
        Role::User
    }
}

/// The session token of a `Cookie` header: the host-prefixed cookie, or, when
/// not served over HTTPS, the development cookie as a fallback.
pub open spec fn session_token_spec(cookie: Seq<char>, https: bool) -> Option<Seq<char>> {
    match cookie_value_spec(cookie, cookie_host()) {
        Some(t) => Some(t),
        None => if https {
            None
        } else {
            cookie_value_spec(cookie, cookie_dev())
        },
    }
}

pub fn session_token(cookie: Option<&str>, https: bool) -> (r: Option<String>)
    ensures
        opt_view(r) == match cookie {
            Some(c) => session_token_spec(c@, https),
            None => None,
        },
{
    match cookie {
        Some(c) => match cookie_value(c, "__Host-yuuka-session") {
            Some(t) => Some(t),
            None => if https {
                None
            } else {
                cookie_value(c, "yuuka-session")
            },
        },
        None => None,
    }
}

/// The bearer token of an `Authorization` header, when present.
pub fn request_bearer_token(authorization: Option<&str>) -> (r: Option<String>)
    ensures
        opt_view(r) == match authorization {
            Some(a) => bearer_token_spec(a@),
            None => None,
        },
{
    match authorization {
        Some(a) => bearer_token(a),
        None => None,
    }
}

/// Where resolving a request's user stands: ask the session store about a
/// cookie token, ask the desktop-token store about a bearer token, or done.
#[derive(Debug, Clone)]
pub enum AuthStep {
    AskSession(String),
    AskDesktop(String),
    Resolved(Option<SessionUser>),
}

/// The first step of resolving a user (`resolve_user`): the session cookie
/// first, else the bearer token, else nobody.
pub fn auth_start(cookie: Option<&str>, authorization: Option<&str>, https: bool) -> (r: AuthStep)
    ensures
        match (match cookie {
            Some(c) => session_token_spec(c@, https),
            None => None,
        }) {
            Some(t) => r matches AuthStep::AskSession(x) && x@ == t,
            None => match (match authorization {
                Some(a) => bearer_token_spec(a@),
                None => None,
            }) {
                Some(t) => r matches AuthStep::AskDesktop(x) && x@ == t,
                None => r matches AuthStep::Resolved(None),
            },
        },
{
    match session_token(cookie, https) {
        Some(t) => AuthStep::AskSession(t),
        None => match request_bearer_token(authorization) {
            Some(t) => AuthStep::AskDesktop(t),
            None => AuthStep::Resolved(None),
        },
    }
}

/// After the session store answered (an unreachable store counts as no
/// user): a found user is the answer, otherwise the bearer token is tried.
pub fn auth_after_session(found: Option<SessionUser>, authorization: Option<&str>) -> (r: AuthStep)
    ensures
        match found {
            Some(u) => r matches AuthStep::Resolved(Some(x)) && x == u,
            None => match (match authorization {
                Some(a) => bearer_token_spec(a@),
                None => None,
            }) {
                Some(t) => r matches AuthStep::AskDesktop(x) && x@ == t,
                None => r matches AuthStep::Resolved(None),
            },
        },
{
    match found {
        Some(u) => AuthStep::Resolved(Some(u)),
        None => match request_bearer_token(authorization) {
            Some(t) => AuthStep::AskDesktop(t),
            None => AuthStep::Resolved(None),
        },
    }
}

/// Why a request is turned away.
#[derive(Debug, Clone, PartialEq, Eq)]
pub enum WebError {
    /// 400, with the reason.
    Validation(String),
    /// 401.
    Unauthorized,
    /// 403.
    Forbidden,
    /// 404.
    NotFound,
    /// 409.
    Conflict,
    /// 503: a dependency is busy or unreachable.
    Upstream,
    /// 500.
    Internal,
}

impl WebError {
    /// The HTTP status of the refusal.
    pub fn status(&self) -> (s: u16)
        ensures
            s == match self {
                WebError::Validation(_) => 400u16,
                WebError::Unauthorized => 401u16,
                WebError::Forbidden => 403u16,
                WebError::NotFound => 404u16,
                WebError::Conflict => 409u16,
                WebError::Upstream => 503u16,
                WebError::Internal => 500u16,
            },
    {
        match self {
            WebError::Validation(_) => 400,
            WebError::Unauthorized => 401,
            WebError::Forbidden => 403,
            WebError::NotFound => 404,
            WebError::Conflict => 409,
            WebError::Upstream => 503,
            WebError::Internal => 500,
        }
    }
}

/// A signed-in user (401 without one).
#[derive(Debug, Clone)]
pub struct AuthenticatedUser(pub SessionUser);

/// A signed-in administrator (401 without a user, 403 for a non-admin).
#[derive(Debug, Clone)]
pub struct AdminUser(pub SessionUser);

/// A user signed in with a desktop bearer token (401 without one).
#[derive(Debug, Clone)]
pub struct BearerUser(pub SessionUser);

/// The user, when one is signed in.
#[derive(Debug, Clone)]
pub struct OptionalUser(pub Option<SessionUser>);

impl AuthenticatedUser {
    /// Accepts any resolved user.
    pub fn from_resolved(user: Option<SessionUser>) -> (r: Result<AuthenticatedUser, WebError>)
        ensures
            match user {
                Some(u) => r matches Ok(a) && a.0 == u,
                None => r == Err::<AuthenticatedUser, WebError>(WebError::Unauthorized),
            },
    {
        match user {
            Some(u) => Ok(AuthenticatedUser(u)),
            None => Err(WebError::Unauthorized),
        }
    }
}

impl AdminUser {
    /// Accepts an administrator only.
    pub fn from_resolved(user: Option<SessionUser>) -> (r: Result<AdminUser, WebError>)
        ensures
            match user {
                Some(u) => if u.role == Role::Admin {
                    r matches Ok(a) && a.0 == u
                } else {
                    r == Err::<AdminUser, WebError>(WebError::Forbidden)
                },
                None => r == Err::<AdminUser, WebError>(WebError::Unauthorized),
            },
    {
        match user {
            Some(u) => match u.role {
                Role::Admin => Ok(AdminUser(u)),
                Role::User => Err(WebError::Forbidden),
            },
            None => Err(WebError::Unauthorized),
        }
    }
}

impl BearerUser {
    /// Accepts a user resolved from a bearer token.
    pub fn from_resolved(user: Option<SessionUser>) -> (r: Result<BearerUser, WebError>)
        ensures
            match user {
                Some(u) => r matches Ok(a) && a.0 == u,
                None => r == Err::<BearerUser, WebError>(WebError::Unauthorized),
            },
    {
        match user {
            Some(u) => Ok(BearerUser(u)),
            None => Err(WebError::Unauthorized),
        }
    }
}

} // verus!
