//! Restart decisions for supervised services and Discord tenants.
use vstd::prelude::*;

use crate::text::copy_str;

verus! {

/// A recoverable failure of a service loop.
#[derive(Debug)]
pub enum ServiceError {
    /// Passing trouble: the service is restarted after a back-off.
    Transient(String),
    /// Lasting trouble: the service is stopped and not restarted.
    Permanent(String),
}

/// How a failure is classified for restarting.
#[derive(Debug, Clone, Copy, PartialEq, Eq)]
pub enum Fatality {
    Transient,
    Permanent,
    Fatal,
}

impl ServiceError {
    /// A passing failure (restarted).
    pub fn transient(msg: &str) -> (r: ServiceError)
        ensures
            r matches ServiceError::Transient(m) && m@ == msg@,
    {
        ServiceError::Transient(copy_str(msg))
    }

    /// A lasting failure (not restarted).
    pub fn permanent(msg: &str) -> (r: ServiceError)
        ensures
            r matches ServiceError::Permanent(m) && m@ == msg@,
    {
        ServiceError::Permanent(copy_str(msg))
    }

    /// Only a transient failure is restarted.
    pub fn fatality(&self) -> (f: Fatality)
        ensures
            f == (match self {
                ServiceError::Transient(_) => Fatality::Transient,
                ServiceError::Permanent(_) => Fatality::Permanent,
            }),
    {
        match self {
            ServiceError::Transient(_) => Fatality::Transient,
            ServiceError::Permanent(_) => Fatality::Permanent,
        }
    }
}

/// How a supervised task ended.
#[derive(Debug)]
pub enum TaskEnd {
    /// `run` returned.
    Returned(Result<(), ServiceError>),
    /// The task panicked; the panic stayed inside it.
    Panicked,
    /// The task was aborted.
    Aborted,
}

/// A task is started again exactly when it panicked or failed transiently,
/// and the supervisor is not shutting down.
pub open spec fn restart_spec(end: TaskEnd, shutting_down: bool) -> bool {
    !shutting_down && match end {
        TaskEnd::Returned(Err(ServiceError::Transient(_))) => true,
        TaskEnd::Panicked => true,
        _ => false,
    }
}

/// Whether a finished task is started again (`Supervisor::handle_joined`).
pub fn should_restart(end: &TaskEnd, shutting_down: bool) -> (r: bool)
    ensures
        r == restart_spec(*end, shutting_down),
{
    let restart = match end {
        TaskEnd::Returned(Ok(())) => false,
        TaskEnd::Returned(Err(e)) => match e.fatality() {
            Fatality::Transient => true,
            _ => false,
        },
        TaskEnd::Panicked => true,
        TaskEnd::Aborted => false,
    };
    restart && !shutting_down
}

/// An error of a Discord tenant's gateway loop, as the supervisor sees it.
#[derive(Debug)]
pub struct DiscordFailure {
    /// The close cannot be recovered from by reconnecting (bad token,
    /// disallowed intents and the like).
    pub fatal: bool,
    /// The error's text.
    pub message: String,
}

/// A tenant's outcome for the supervisor: a stop stays a stop, a fatal close is
/// permanent, anything else is transient; the message is kept.
pub fn map_discord_result(result: Result<(), DiscordFailure>) -> (r: Result<(), ServiceError>)
    ensures
        match result {
            Ok(()) => r is Ok,
            Err(e) => if e.fatal {
                r matches Err(ServiceError::Permanent(m)) && m@ == e.message@
            } else {
                r matches Err(ServiceError::Transient(m)) && m@ == e.message@
            },
        },
{
    match result {
        Ok(()) => Ok(()),
        Err(e) => if e.fatal {
            Err(ServiceError::permanent(e.message.as_str()))
        } else {
            Err(ServiceError::transient(e.message.as_str()))
        },
    }
}

/// First delay, in seconds, before a tenant is started again.
pub const TENANT_BACKOFF_INITIAL_SECS: u64 = 1;

/// Longest delay, in seconds, between tenant restarts.
pub const TENANT_BACKOFF_MAX_SECS: u64 = 60;

/// The delay after `d`: doubled, capped at the maximum.
pub open spec fn next_tenant_delay_spec(d: int) -> int {
    if 2 * d < TENANT_BACKOFF_MAX_SECS {
        2 * d
    } else {
        TENANT_BACKOFF_MAX_SECS as int
    }
}

pub fn next_tenant_delay(d: u64) -> (r: u64)
    requires
        d <= TENANT_BACKOFF_MAX_SECS,
    ensures
        r == next_tenant_delay_spec(d as int),
{
    if 2 * d < TENANT_BACKOFF_MAX_SECS {
        2 * d
    } else {
        TENANT_BACKOFF_MAX_SECS
    }
}

/// The delay before the `k`-th restart of a tenant (the first is `k == 0`).
pub open spec fn tenant_delay(k: nat) -> int
    decreases k,
{
    if k == 0 {
        TENANT_BACKOFF_INITIAL_SECS as int
    } else {
        next_tenant_delay_spec(tenant_delay((k - 1) as nat))
    }
}

/// Tenant restart delays start at one second, double each time, and stay
/// within one to sixty seconds; once at sixty they stay there.
pub proof fn lemma_tenant_delay_bounds(k: nat)
    ensures
        1 <= tenant_delay(k) <= TENANT_BACKOFF_MAX_SECS,
        tenant_delay(k) == TENANT_BACKOFF_MAX_SECS ==> tenant_delay(k + 1) == TENANT_BACKOFF_MAX_SECS,
        tenant_delay(k) < TENANT_BACKOFF_MAX_SECS ==> tenant_delay(k) == vstd::arithmetic::power2::pow2(k),
    decreases k,
{
    vstd::arithmetic::power2::lemma_pow2_unfold(k + 1);
    if k > 0 {
        lemma_tenant_delay_bounds((k - 1) as nat);
        vstd::arithmetic::power2::lemma_pow2_unfold(k);
    } else {
        vstd::arithmetic::power2::lemma2_to64();
    }
}

/// How one run of a tenant ended.
#[derive(Debug)]
pub enum TenantEnd {
    /// Stopped on request, or the gateway stream ended normally.
    Stopped,
    /// A failure; `fatal` when reconnecting cannot help.
    Failed(DiscordFailure),
    /// The run panicked.
    Panicked,
}

/// Whether a tenant is run again: only after a non-fatal failure or a panic,
/// and only when no stop was asked for (`tenant_loop`).
pub fn tenant_runs_again(end: &TenantEnd, cancelled: bool) -> (r: bool)
    ensures
        r == (!cancelled && match end {
            TenantEnd::Stopped => false,
            TenantEnd::Failed(e) => !e.fatal,
            TenantEnd::Panicked => true,
        }),
{
    let again = match end {
        TenantEnd::Stopped => false,
        TenantEnd::Failed(e) => !e.fatal,
        TenantEnd::Panicked => true,
    };
    again && !cancelled
}

} // verus!
