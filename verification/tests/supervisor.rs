use std::time::Duration;

use yuuka::supervisor::desktop::{
    desktop_meta, download_refusal, ExeFacts, EXE_DISPOSITION, EXE_NAME, NOT_DEPLOYED_MESSAGE,
};
use yuuka::supervisor::policy::RestartPolicy;
use yuuka::supervisor::restart::{
    map_discord_result, next_tenant_delay, should_restart, tenant_runs_again, DiscordFailure,
    Fatality, ServiceError, TaskEnd, TenantEnd, TENANT_BACKOFF_INITIAL_SECS,
    TENANT_BACKOFF_MAX_SECS,
};
use yuuka::supervisor::startup::{
    check_secret_strength, rotation_plan, secret_problem, switch_on, OldKey, RotationPlan,
    SecretProblem, MIN_SECRET_LEN,
};

fn fatality_of(fatal: bool, message: &str) -> Fatality {
    match map_discord_result(Err(DiscordFailure { fatal, message: message.to_owned() })) {
        Err(se) => se.fatality(),
        Ok(()) => Fatality::Transient,
    }
}

#[test]
fn fatal_close_maps_to_permanent() {
    // A fatal close (invalid token, close code 4004) is not restarted.
    assert_eq!(fatality_of(true, "shard closed: 4004"), Fatality::Permanent);
}

#[test]
fn transient_errors_map_to_transient() {
    assert_eq!(fatality_of(false, "gateway closed"), Fatality::Transient);
    assert_eq!(fatality_of(false, "boom"), Fatality::Transient);
}

#[test]
fn intentional_stop_is_ok() {
    assert!(matches!(map_discord_result(Ok(())), Ok(())));
    let _ = ServiceError::transient("x");
}

#[test]
fn discord_failure_message_is_kept() {
    match map_discord_result(Err(DiscordFailure { fatal: true, message: "bad token".to_owned() })) {
        Err(ServiceError::Permanent(m)) => assert_eq!(m, "bad token"),
        other => panic!("unexpected {other:?}"),
    }
    match map_discord_result(Err(DiscordFailure { fatal: false, message: "reset".to_owned() })) {
        Err(ServiceError::Transient(m)) => assert_eq!(m, "reset"),
        other => panic!("unexpected {other:?}"),
    }
}

#[test]
fn both_absent_is_rejected() {
    assert!(check_secret_strength(None, None).is_err());
}

#[test]
fn weak_secret_is_rejected() {
    assert!(check_secret_strength(Some(31), None).is_err());
    assert!(check_secret_strength(None, Some(10)).is_err());
}

#[test]
fn strong_secret_is_accepted() {
    assert!(check_secret_strength(Some(32), None).is_ok());
    assert!(check_secret_strength(Some(48), None).is_ok());
    assert!(check_secret_strength(None, Some(48)).is_ok());
}

#[test]
fn secret_messages_name_the_variable_and_length() {
    let m = check_secret_strength(Some(31), None).unwrap_err();
    assert!(m.starts_with("YUUKA_ENCRYPTION_SECRET が短すぎます（31 文字）"));
    let m = check_secret_strength(Some(40), Some(5)).unwrap_err();
    assert!(m.starts_with("YUUKA_ENCRYPTION_SECRET_NEW が短すぎます（5 文字）"));
    let m = check_secret_strength(None, None).unwrap_err();
    assert!(m.starts_with("YUUKA_ENCRYPTION_SECRET が未設定です。"));
    assert_eq!(MIN_SECRET_LEN, 32);
}

#[test]
fn secret_problem_checks_the_current_secret_first() {
    assert_eq!(secret_problem(None, None), Err(SecretProblem::Missing));
    assert_eq!(secret_problem(Some(3), Some(4)), Err(SecretProblem::SecretTooShort(3)));
    assert_eq!(secret_problem(Some(32), Some(4)), Err(SecretProblem::NewSecretTooShort(4)));
    assert_eq!(secret_problem(Some(32), Some(32)), Ok(()));
}

#[test]
fn switches_read_one_true_yes_in_any_case() {
    assert!(switch_on(Some("1")));
    assert!(switch_on(Some(" TRUE ")));
    assert!(switch_on(Some("Yes")));
    assert!(!switch_on(Some("0")));
    assert!(!switch_on(Some("on")));
    assert!(!switch_on(None));
}

#[test]
fn only_transient_failures_and_panics_restart() {
    assert!(!should_restart(&TaskEnd::Returned(Ok(())), false));
    assert!(should_restart(&TaskEnd::Returned(Err(ServiceError::transient("t"))), false));
    assert!(!should_restart(&TaskEnd::Returned(Err(ServiceError::permanent("p"))), false));
    assert!(should_restart(&TaskEnd::Panicked, false));
    assert!(!should_restart(&TaskEnd::Aborted, false));
}

#[test]
fn nothing_restarts_while_shutting_down() {
    assert!(!should_restart(&TaskEnd::Panicked, true));
    assert!(!should_restart(&TaskEnd::Returned(Err(ServiceError::transient("t"))), true));
}

#[test]
fn tenant_delays_double_up_to_a_minute() {
    let mut d = TENANT_BACKOFF_INITIAL_SECS;
    let mut seen = vec![d];
    for _ in 0..8 {
        d = next_tenant_delay(d);
        seen.push(d);
    }
    assert_eq!(seen, vec![1, 2, 4, 8, 16, 32, 60, 60, 60]);
    assert_eq!(next_tenant_delay(TENANT_BACKOFF_MAX_SECS), TENANT_BACKOFF_MAX_SECS);
}

#[test]
fn tenants_run_again_after_recoverable_ends_only() {
    assert!(!tenant_runs_again(&TenantEnd::Stopped, false));
    assert!(tenant_runs_again(
        &TenantEnd::Failed(DiscordFailure { fatal: false, message: "x".to_owned() }),
        false
    ));
    assert!(!tenant_runs_again(
        &TenantEnd::Failed(DiscordFailure { fatal: true, message: "x".to_owned() }),
        false
    ));
    assert!(tenant_runs_again(&TenantEnd::Panicked, false));
    assert!(!tenant_runs_again(&TenantEnd::Panicked, true));
}

#[test]
fn default_policy_values() {
    let p = RestartPolicy::default();
    assert_eq!(p.min_delay, Duration::from_millis(200));
    assert_eq!(p.max_delay, Duration::from_secs(30));
    assert_eq!(p.stable_after, Duration::from_secs(60));
    assert_eq!(p.shutdown_grace, Duration::from_secs(20));
}

#[test]
fn stable_runs_reset_the_backoff() {
    let p = RestartPolicy::default();
    assert!(p.resets_backoff(Duration::from_secs(60)));
    assert!(p.resets_backoff(Duration::from_secs(61)));
    assert!(!p.resets_backoff(Duration::from_millis(59_999)));
}

#[test]
fn exhausted_backoff_uses_the_maximum() {
    let p = RestartPolicy::default();
    assert_eq!(p.delay_or_max(None), Duration::from_secs(30));
    assert_eq!(p.delay_or_max(Some(Duration::from_millis(300))), Duration::from_millis(300));
}

#[test]
fn backoff_delays_stay_within_the_policy() {
    let p = RestartPolicy::default();
    let mut b = p.new_backoff();
    for _ in 0..20 {
        let d = p.next_delay(&mut b);
        assert!(d <= Duration::from_secs(60), "delay {d:?}");
        assert!(d >= Duration::from_millis(200), "delay {d:?}");
    }
}

#[test]
fn backoff_delays_grow_from_the_minimum() {
    let p = RestartPolicy::default();
    let mut b = p.new_backoff();
    let first = p.next_delay(&mut b);
    assert!(first >= Duration::from_millis(200) && first <= Duration::from_nanos(400_000_192), "{first:?}");
    let second = p.next_delay(&mut b);
    assert!(second >= Duration::from_nanos(399_999_808) && second <= Duration::from_nanos(1_200_000_000), "{second:?}");
    for _ in 0..20 {
        p.next_delay(&mut b);
    }
    // Held at the 30 s maximum before jitter.
    let late = p.next_delay(&mut b);
    assert!(late >= Duration::from_secs(30) && late <= Duration::from_nanos(60_000_057_222), "{late:?}");
}

#[test]
fn rotation_runs_only_with_a_new_secret() {
    assert_eq!(rotation_plan(Some("cur".to_owned()), None), None);
    assert_eq!(
        rotation_plan(Some("cur".to_owned()), Some("new".to_owned())),
        Some(RotationPlan { old: OldKey::Current("cur".to_owned()), new: "new".to_owned() })
    );
    assert_eq!(
        rotation_plan(None, Some("new".to_owned())),
        Some(RotationPlan { old: OldKey::LegacyFallback, new: "new".to_owned() })
    );
}

#[test]
fn info_reports_unavailable_when_missing() {
    let m = desktop_meta(None);
    assert!(!m.available);
    assert_eq!(m.size, 0);
    assert_eq!(m.version, "unknown");
    assert_eq!(m.built_at, None);
    assert_eq!(EXE_NAME, "yuuka-desktop.exe");
    assert_eq!(download_refusal(&m), Some(NOT_DEPLOYED_MESSAGE));
}

#[test]
fn desktop_version_is_trimmed_or_unknown() {
    let m = desktop_meta(Some(ExeFacts { size: 5, version_text: Some(" 1.2.3\n".to_owned()), built_at: Some("t".to_owned()) }));
    assert!(m.available);
    assert_eq!(m.size, 5);
    assert_eq!(m.version, "1.2.3");
    assert_eq!(m.built_at.as_deref(), Some("t"));
    assert_eq!(download_refusal(&m), None);
    let m = desktop_meta(Some(ExeFacts { size: 5, version_text: Some("  ".to_owned()), built_at: None }));
    assert_eq!(m.version, "unknown");
    assert_eq!(EXE_NAME, "yuuka-desktop.exe");
    assert_eq!(EXE_DISPOSITION, "attachment; filename=\"yuuka-desktop.exe\"");
}
