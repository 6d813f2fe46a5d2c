//! Start-up checks: the encryption secret and the opt-in switches.
use vstd::prelude::*;

use crate::num::format_i64;
use crate::text::{chars_of, lower_ascii, push_str, trim, trim_chars};

verus! {

/// The shortest encryption secret accepted, in characters.
pub const MIN_SECRET_LEN: usize = 32;

/// Why start-up is refused.
#[derive(Debug, Clone, Copy, PartialEq, Eq)]
pub enum SecretProblem {
    /// Neither the secret nor its replacement is set.
    Missing,
    /// The secret is shorter than [`MIN_SECRET_LEN`].
    SecretTooShort(usize),
    /// The replacement secret is shorter than [`MIN_SECRET_LEN`].
    NewSecretTooShort(usize),
}

/// The verdict on the secret lengths (characters; `None` when unset): at
/// least one must be set and each that is set must be long enough, the current
/// secret checked first.
pub open spec fn secret_verdict(secret_len: Option<usize>, new_len: Option<usize>) -> Result<(), SecretProblem> {
    if secret_len is None && new_len is None {
        Err(SecretProblem::Missing)
    } else if secret_len is Some && secret_len->0 < MIN_SECRET_LEN {
        Err(SecretProblem::SecretTooShort(secret_len->0))
    } else if new_len is Some && new_len->0 < MIN_SECRET_LEN {
        Err(SecretProblem::NewSecretTooShort(new_len->0))
    } else {
        Ok(())
    }
}

/// The checks on the secret lengths, with the problem found.
pub fn secret_problem(secret_len: Option<usize>, new_len: Option<usize>) -> (r: Result<(), SecretProblem>)
    ensures
        r == secret_verdict(secret_len, new_len),
{
    if secret_len.is_none() && new_len.is_none() {
        return Err(SecretProblem::Missing);
    }
    match secret_len {
        Some(n) => if n < MIN_SECRET_LEN {
            return Err(SecretProblem::SecretTooShort(n));
        },
        None => {},
    }
    match new_len {
        Some(n) => if n < MIN_SECRET_LEN {
            return Err(SecretProblem::NewSecretTooShort(n));
        },
        None => {},
    }
    Ok(())
}

pub open spec fn msg_secret_missing() -> Seq<char> {
    "YUUKA_ENCRYPTION_SECRET が未設定です。十分に長いランダム文字列（例: openssl rand -base64 48）を 設定してください。プレリリース版からの移行は YUUKA_ENCRYPTION_SECRET_NEW に新鍵を設定して起動 （鍵ローテーション）します。"@
}

/// The message for a secret (named `name`) of `n` characters.
pub open spec fn msg_secret_short(name: Seq<char>, n: usize) -> Seq<char> {
    name + " が短すぎます（"@ + (if n <= i64::MAX {
        crate::num::decimal_of(n as int)
    } else {
        "many"@
    }) + " 文字）。推測困難な 32 文字以上のランダム値 （例: openssl rand -base64 48）を設定してください。"@
}

/// The message that explains a refused start.
pub open spec fn secret_message(p: SecretProblem) -> Seq<char> {
    match p {
        SecretProblem::Missing => msg_secret_missing(),
        SecretProblem::SecretTooShort(n) => msg_secret_short("YUUKA_ENCRYPTION_SECRET"@, n),
        SecretProblem::NewSecretTooShort(n) => msg_secret_short("YUUKA_ENCRYPTION_SECRET_NEW"@, n),
    }
}

/// The message that explains a refused start.
pub fn secret_problem_message(p: SecretProblem) -> (m: String)
    ensures
        m@ == secret_message(p),
{
    let (name, n) = match p {
        SecretProblem::Missing => {
            return "YUUKA_ENCRYPTION_SECRET が未設定です。十分に長いランダム文字列（例: openssl rand -base64 48）を 設定してください。プレリリース版からの移行は YUUKA_ENCRYPTION_SECRET_NEW に新鍵を設定して起動 （鍵ローテーション）します。".to_owned();
        },
        SecretProblem::SecretTooShort(n) => ("YUUKA_ENCRYPTION_SECRET", n),
        SecretProblem::NewSecretTooShort(n) => ("YUUKA_ENCRYPTION_SECRET_NEW", n),
    };
    let mut m = name.to_owned();
    push_str(&mut m, " が短すぎます（");
    let count = if (n as u64) <= 0x7FFF_FFFF_FFFF_FFFFu64 { format_i64(n as i64) } else { "many".to_owned() };
    push_str(&mut m, count.as_str());
    push_str(&mut m, " 文字）。推測困難な 32 文字以上のランダム値 （例: openssl rand -base64 48）を設定してください。");
    m
}

/// `check_secret_strength`: start-up is refused unless at least one secret is
/// set and every one that is set has at least 32 characters.
pub fn check_secret_strength(secret_len: Option<usize>, new_len: Option<usize>) -> (r: Result<(), String>)
    ensures
        match secret_verdict(secret_len, new_len) {
            Ok(()) => r is Ok,
            Err(p) => r matches Err(m) && m@ == secret_message(p),
        },
{
    match secret_problem(secret_len, new_len) {
        Ok(()) => Ok(()),
        Err(p) => Err(secret_problem_message(p)),
    }
}

/// An opt-in switch is on when its value, trimmed and lower-cased, is `1`,
/// `true` or `yes`.
pub open spec fn switch_on_spec(value: Option<Seq<char>>) -> bool {
    match value {
        Some(v) => {
            let w = lower_ascii(trim(v));
            w == "1"@ || w == "true"@ || w == "yes"@
        },
        None => false,
    }
}

/// Reads an opt-in switch (`YUUKA_RUST_CRON`, `YUUKA_RUST_DISCORD`).
pub fn switch_on(value: Option<&str>) -> (r: bool)
    ensures
        r == switch_on_spec(match value {
            Some(v) => Some(v@),
            None => None,
        }),
{
    match value {
        Some(v) => {
            let cs = chars_of(v);
            let t = trim_chars(cs.as_slice());
            let mut w: Vec<char> = Vec::new();
            let mut i: usize = 0;
            while i < t.len()
                invariant
                    i <= t@.len(),
                    w@ == lower_ascii(t@.take(i as int)),
                decreases t@.len() - i,
            {
                w.push(crate::text::char_lower(t[i]));
                proof {
                    assert(lower_ascii(t@.take(i + 1)) =~= lower_ascii(t@.take(i as int)).push(
                        crate::text::ascii_lower(t@[i as int]),
                    ));
                }
                i += 1;
            }
            proof {
                assert(t@.take(t@.len() as int) =~= t@);
            }
            let one: Vec<char> = chars_of("1");
            let tru: Vec<char> = chars_of("true");
            let yes: Vec<char> = chars_of("yes");
            crate::text::chars_eq(w.as_slice(), one.as_slice()) || crate::text::chars_eq(
                w.as_slice(),
                tru.as_slice(),
            ) || crate::text::chars_eq(w.as_slice(), yes.as_slice())
        },
        None => false,
    }
}

/// The key that stored secrets are decrypted with during a rotation.
#[derive(Debug, Clone, PartialEq, Eq)]
pub enum OldKey {
    /// The current secret.
    Current(String),
    /// The known fallback key of pre-release versions (treated as leaked).
    LegacyFallback,
}

/// A key rotation to run before the services start.
#[derive(Debug, Clone, PartialEq, Eq)]
pub struct RotationPlan {
    pub old: OldKey,
    pub new: String,
}

/// Whether, and from which key to which, stored secrets are re-encrypted at
/// start-up (`rotate_secret_if_requested`): only when a new secret is set; the
/// old key is the current secret, or the pre-release fallback when none is set.
pub fn rotation_plan(current: Option<String>, new: Option<String>) -> (r: Option<RotationPlan>)
    ensures
        match new {
            None => r is None,
            Some(n) => r == Some(RotationPlan {
                old: match current {
                    Some(c) => OldKey::Current(c),
                    None => OldKey::LegacyFallback,
                },
                new: n,
            }),
        },
{
    match new {
        None => None,
        Some(n) => Some(RotationPlan {
            old: match current {
                Some(c) => OldKey::Current(c),
                None => OldKey::LegacyFallback,
            },
            new: n,
        }),
    }
}

/// Start-up is allowed exactly when at least one secret is set and every
/// secret that is set has 32 characters or more.
pub proof fn lemma_secret_accepted(secret_len: Option<usize>, new_len: Option<usize>)
    ensures
        secret_verdict(secret_len, new_len) is Ok <==> ((secret_len is Some || new_len is Some)
            && (secret_len matches Some(n) ==> n >= MIN_SECRET_LEN)
            && (new_len matches Some(n) ==> n >= MIN_SECRET_LEN)),
{
}

} // verus!
