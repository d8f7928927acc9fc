//! Optional biometric gating for revealing stored SSH passwords.
//!
//! Strictly opt-in (`biometric_unlock`, off by default). When it is on, a
//! platform [`Verifier`] must confirm the user before a stored password is
//! released at connect time. A passwordless session is never blocked, and a
//! platform without a verifier proceeds (with a warning) rather than locking
//! the user out of their own hosts.

use vstd::prelude::*;

verus! {

/// A platform mechanism that can confirm the local user is present.
pub trait Verifier {
    /// Whether this verifier can be used on this machine right now.
    fn available(&self) -> bool;

    /// Prompt for verification; `reason` says why. `Ok(true)` on success,
    /// `Ok(false)` on a clean rejection, `Err` on an unexpected failure.
    fn verify(&self, reason: &str) -> Result<bool, String>;
}

/// A verifier that is never available — used on unsupported platforms.
pub struct NullVerifier;

impl Verifier for NullVerifier {
    fn available(&self) -> (r: bool)
        ensures
            !r,
    {
        false
    }

    fn verify(&self, _reason: &str) -> (r: Result<bool, String>)
        ensures
            r == Ok::<bool, String>(false),
    {
        Ok(false)
    }
}

/// macOS Touch ID. Not wired up yet: it needs LocalAuthentication and a
/// stably code-signed binary, so it reports itself unavailable and `reveal`
/// falls back to a plain keychain read with a warning.
pub struct TouchIdVerifier;

impl Verifier for TouchIdVerifier {
    fn available(&self) -> (r: bool)
        ensures
            !r,
    {
        false
    }

    fn verify(&self, _reason: &str) -> (r: Result<bool, String>)
        ensures
            r == Ok::<bool, String>(false),
    {
        Ok(false)
    }
}

/// The operating system the binary was built for.
#[derive(Debug, Clone, Copy, PartialEq, Eq)]
pub enum Platform {
    Linux,
    MacOs,
    Other,
}

/// Which verifier a platform uses.
#[derive(Debug, Clone, Copy, PartialEq, Eq)]
pub enum VerifierKind {
    /// `fprintd-verify` (a fingerprint presence gate).
    Fprintd,
    /// Touch ID (currently unavailable).
    TouchId,
    /// None.
    Null,
}

/// The verifier for platform `p`: fprintd on Linux, Touch ID on macOS, none
/// elsewhere.
pub fn default_verifier(p: Platform) -> (k: VerifierKind)
    ensures
        k == (match p {
            Platform::Linux => VerifierKind::Fprintd,
            Platform::MacOs => VerifierKind::TouchId,
            Platform::Other => VerifierKind::Null,
        }),
{
    match p {
        Platform::Linux => VerifierKind::Fprintd,
        Platform::MacOs => VerifierKind::TouchId,
        Platform::Other => VerifierKind::Null,
    }
}

/// What asking the verifier gave.
#[derive(Debug, Clone, PartialEq, Eq)]
pub enum GateOutcome {
    /// No verifier can be used here.
    Unavailable,
    /// The verifier answered: matched or not.
    Verified(bool),
    /// The verifier failed unexpectedly.
    Failed(String),
}

/// Why a stored password was not released.
#[derive(Debug, Clone, PartialEq, Eq)]
pub enum RevealError {
    /// The biometric check did not match.
    NotVerified,
    /// The verifier itself failed.
    VerifierFailed(String),
}

pub open spec fn stored_password(stored: Option<String>) -> Seq<char> {
    match stored {
        Some(p) => p@,
        None => Seq::empty(),
    }
}

/// `r` releases exactly `pw`.
pub open spec fn releases(r: Result<String, RevealError>, pw: Seq<char>) -> bool {
    match r {
        Ok(p) => p@ == pw,
        Err(_) => false,
    }
}

/// Whether verification is needed: a non-empty password was saved and the
/// biometric preference is on.
pub open spec fn needs_gate_spec(stored: Option<String>, biometric: bool) -> bool {
    stored_password(stored).len() > 0 && biometric
}

/// Whether the verifier has to be asked before releasing `stored`.
pub fn needs_gate(stored: &Option<String>, biometric: bool) -> (r: bool)
    ensures
        r == needs_gate_spec(*stored, biometric),
{
    match stored {
        Some(p) => biometric && !p.as_str().is_empty(),
        None => false,
    }
}

/// The password released for the stored value `stored`: empty when none is
/// stored; the password itself when no check applies, when no verifier is
/// available, or when verification matched; refused otherwise.
pub open spec fn reveal_spec(stored: Option<String>, biometric: bool, gate: GateOutcome) -> Result<Seq<char>, RevealError> {
    if !needs_gate_spec(stored, biometric) {
        Ok(stored_password(stored))
    } else {
        match gate {
            GateOutcome::Unavailable => Ok(stored_password(stored)),
            GateOutcome::Verified(true) => Ok(stored_password(stored)),
            GateOutcome::Verified(false) => Err(RevealError::NotVerified),
            GateOutcome::Failed(e) => Err(RevealError::VerifierFailed(e)),
        }
    }
}

/// A result's password as plain text.
pub open spec fn reveal_view(r: Result<String, RevealError>) -> Result<Seq<char>, RevealError> {
    match r {
        Ok(p) => Ok(p@),
        Err(e) => Err(e),
    }
}

/// What to release for `stored`, given what the verifier said (when it was
/// asked).
pub fn reveal_outcome(stored: Option<String>, biometric: bool, gate: GateOutcome) -> (r: Result<String, RevealError>)
    ensures
        reveal_view(r) == reveal_spec(stored, biometric, gate),
        releases(r, stored_password(stored)) <==> r is Ok,
{
    let gated = needs_gate(&stored, biometric);
    let password = match stored {
        Some(p) => p,
        None => String::new(),
    };
    if !gated {
        return Ok(password);
    }
    match gate {
        GateOutcome::Unavailable => Ok(password),
        GateOutcome::Verified(true) => Ok(password),
        GateOutcome::Verified(false) => Err(RevealError::NotVerified),
        GateOutcome::Failed(e) => Err(RevealError::VerifierFailed(e)),
    }
}

/// Biometric unlock never blocks a session without a stored password, and
/// with the preference off every stored password is released as it is:
/// whatever the verifier said.
pub proof fn lemma_gate_only_guards_passwords(stored: Option<String>, biometric: bool, gate: GateOutcome)
    requires
        stored_password(stored).len() == 0 || !biometric,
    ensures
        reveal_spec(stored, biometric, gate) == Ok::<Seq<char>, RevealError>(stored_password(stored)),
{
}

/// When a verifier is available it decides: a match releases the password,
/// anything else refuses it.
pub proof fn lemma_gate_decides(stored: Option<String>, verified: bool)
    requires
        stored_password(stored).len() > 0,
    ensures
        reveal_spec(stored, true, GateOutcome::Verified(verified)) is Ok <==> verified,
{
}

} // verus!
