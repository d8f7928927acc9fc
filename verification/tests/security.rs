use ssm::security::{
    default_verifier, needs_gate, reveal_outcome, GateOutcome, NullVerifier, Platform, RevealError,
    TouchIdVerifier, Verifier, VerifierKind,
};

#[test]
fn null_verifier_unavailable() {
    let v = NullVerifier;
    assert!(!v.available());
    assert!(!v.verify("x").unwrap());
}

#[test]
fn default_verifier_constructs() {
    // The platform selection returns something on every platform.
    let _ = default_verifier(Platform::Linux);
}

#[test]
fn default_verifier_per_platform() {
    assert_eq!(default_verifier(Platform::Linux), VerifierKind::Fprintd);
    assert_eq!(default_verifier(Platform::MacOs), VerifierKind::TouchId);
    assert_eq!(default_verifier(Platform::Other), VerifierKind::Null);
}

#[test]
fn touch_id_not_wired_up() {
    let v = TouchIdVerifier;
    assert!(!v.available());
    assert_eq!(v.verify("reveal"), Ok(false));
}

#[test]
fn gate_only_for_stored_password_with_biometric_on() {
    assert!(needs_gate(&Some("pw".to_string()), true));
    assert!(!needs_gate(&Some("pw".to_string()), false));
    assert!(!needs_gate(&Some(String::new()), true));
    assert!(!needs_gate(&None, true));
}

#[test]
fn reveal_without_gate_releases_password() {
    let r = reveal_outcome(Some("pw".to_string()), false, GateOutcome::Verified(false));
    assert_eq!(r, Ok("pw".to_string()));
    let r = reveal_outcome(None, true, GateOutcome::Verified(false));
    assert_eq!(r, Ok(String::new()));
}

#[test]
fn reveal_gated_outcomes() {
    let pw = || Some("s3cret".to_string());
    assert_eq!(reveal_outcome(pw(), true, GateOutcome::Verified(true)), Ok("s3cret".to_string()));
    assert_eq!(reveal_outcome(pw(), true, GateOutcome::Unavailable), Ok("s3cret".to_string()));
    assert_eq!(
        reveal_outcome(pw(), true, GateOutcome::Verified(false)),
        Err(RevealError::NotVerified)
    );
    assert_eq!(
        reveal_outcome(pw(), true, GateOutcome::Failed("boom".to_string())),
        Err(RevealError::VerifierFailed("boom".to_string()))
    );
}
