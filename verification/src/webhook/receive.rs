//! The receiving side: how a post to `/hook/{token}` is answered, which
//! signature header is read, and the seam that processes accepted posts.
use vstd::prelude::*;

use super::endpoint::WebhookEndpoint;

verus! {

/// How a received post is answered.
#[derive(Debug, Clone, Copy, PartialEq, Eq)]
pub enum ReceiveOutcome {
    /// The token's window is full: `429`.
    RateLimited,
    /// No endpoint has the token: `404`.
    NotFound,
    /// The endpoint is switched off: `410`.
    Disabled,
    /// Accepted for processing: `200`.
    Accepted,
}

impl ReceiveOutcome {
    /// The HTTP status of the answer.
    pub fn status(&self) -> (r: u16)
        ensures
            r == match *self {
                ReceiveOutcome::RateLimited => 429u16,
                ReceiveOutcome::NotFound => 404u16,
                ReceiveOutcome::Disabled => 410u16,
                ReceiveOutcome::Accepted => 200u16,
            },
    {
        match self {
            ReceiveOutcome::RateLimited => 429,
            ReceiveOutcome::NotFound => 404,
            ReceiveOutcome::Disabled => 410,
            ReceiveOutcome::Accepted => 200,
        }
    }

    /// The message of the answer.
    pub fn message(&self) -> (r: &'static str)
        ensures
            r@ == match *self {
                ReceiveOutcome::RateLimited => "rate limited"@,
                ReceiveOutcome::NotFound => "not found"@,
                ReceiveOutcome::Disabled => "endpoint disabled"@,
                ReceiveOutcome::Accepted => "accepted"@,
            },
    {
        match self {
            ReceiveOutcome::RateLimited => "rate limited",
            ReceiveOutcome::NotFound => "not found",
            ReceiveOutcome::Disabled => "endpoint disabled",
            ReceiveOutcome::Accepted => "accepted",
        }
    }

    /// Whether the answer reports success (only an accepted post).
    pub fn success(&self) -> (r: bool)
        ensures
            r == (*self == ReceiveOutcome::Accepted),
    {
        match self {
            ReceiveOutcome::Accepted => true,
            _ => false,
        }
    }
}

/// How a post is answered: the rate limit first, then the endpoint that the
/// token names, then whether it is switched on.
pub open spec fn receive_outcome_spec(rate_ok: bool, endpoint: Option<WebhookEndpoint>) -> ReceiveOutcome {
    if !rate_ok {
        ReceiveOutcome::RateLimited
    } else {
        match endpoint {
            None => ReceiveOutcome::NotFound,
            Some(e) => if e.enabled {
                ReceiveOutcome::Accepted
            } else {
                ReceiveOutcome::Disabled
            },
        }
    }
}

/// How a post is answered, given whether it passed the rate limit and the
/// endpoint its token names.
pub fn receive_outcome(rate_ok: bool, endpoint: Option<&WebhookEndpoint>) -> (r: ReceiveOutcome)
    ensures
        r == receive_outcome_spec(
            rate_ok,
            match endpoint {
                Some(e) => Some(*e),
                None => None,
            },
        ),
{
    if !rate_ok {
        return ReceiveOutcome::RateLimited;
    }
    match endpoint {
        None => ReceiveOutcome::NotFound,
        Some(e) => if e.enabled {
            ReceiveOutcome::Accepted
        } else {
            ReceiveOutcome::Disabled
        },
    }
}

/// The signature of a post. Each header is `None` when absent, `Some(None)`
/// when present but not readable as text. The first present header of
/// `x-hub-signature-256`, `x-signature-256`, `x-hub-signature` is read.
pub open spec fn signature_spec(
    hub_sha256: Option<Option<String>>,
    sha256: Option<Option<String>>,
    hub: Option<Option<String>>,
) -> Option<String> {
    match hub_sha256 {
        Some(v) => v,
        None => match sha256 {
            Some(v) => v,
            None => match hub {
                Some(v) => v,
                None => None,
            },
        },
    }
}

/// The signature header of a post (`x-hub-signature-256`, then
/// `x-signature-256`, then `x-hub-signature`).
pub fn pick_signature(
    hub_sha256: Option<Option<String>>,
    sha256: Option<Option<String>>,
    hub: Option<Option<String>>,
) -> (r: Option<String>)
    ensures
        r == signature_spec(hub_sha256, sha256, hub),
{
    match hub_sha256 {
        Some(v) => v,
        None => match sha256 {
            Some(v) => v,
            None => match hub {
                Some(v) => v,
                None => None,
            },
        },
    }
}

/// What processes an accepted post (signature check, notification, tasks).
/// The answer has already been sent; errors stay inside.
pub trait WebhookProcessor {
    fn process(&self, endpoint: WebhookEndpoint, raw_body: Vec<u8>, signature: Option<String>);
}

/// The processor used when none is wired in: it does nothing.
#[derive(Debug, Clone, Copy, Default)]
pub struct NullWebhookProcessor;

impl WebhookProcessor for NullWebhookProcessor {
    fn process(&self, endpoint: WebhookEndpoint, raw_body: Vec<u8>, signature: Option<String>) {
    }
}

} // verus!
