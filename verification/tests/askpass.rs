use ssm::askpass::{is_password_prompt, is_password_prompt_lowered, pick_socket_path, to_hex, AskpassGate};

#[test]
fn only_password_prompts_answered() {
    assert!(is_password_prompt("alice@host's password: "));
    assert!(is_password_prompt("Password:"));
    assert!(!is_password_prompt("Enter passphrase for key /home/a/.ssh/id_ed25519:"));
    assert!(!is_password_prompt(
        "Are you sure you want to continue connecting (yes/no/[fingerprint])?"
    ));
}

#[test]
fn serves_secret_once_then_empty() {
    let mut gate = AskpassGate::new();
    let nonce = "0123abcd";
    assert_eq!(gate.answer(nonce, nonce, "hunter2").as_deref(), Some("hunter2"));
    // A retry gets nothing so a wrong password fails fast instead of looping.
    assert_eq!(gate.answer(nonce, nonce, "hunter2").as_deref(), Some(""));
}

#[test]
fn wrong_nonce_gets_nothing() {
    let mut gate = AskpassGate::new();
    let nonce = "feedface";
    assert_eq!(gate.answer("not-the-nonce", nonce, "secret"), None);
    // The real nonce still works afterwards (the bad attempt did not consume it).
    assert_eq!(gate.answer(nonce, nonce, "secret").as_deref(), Some("secret"));
}

#[test]
fn lowered_prompt_rules() {
    assert!(is_password_prompt_lowered("password:"));
    assert!(!is_password_prompt_lowered("enter password or passphrase"));
    assert!(!is_password_prompt_lowered(""));
}

#[test]
fn passphrase_prompt_in_capitals_is_refused() {
    assert!(!is_password_prompt("PASSPHRASE FOR KEY"));
    assert!(is_password_prompt("PASSWORD FOR alice"));
}

#[test]
fn hex_is_two_lowercase_digits_per_byte() {
    assert_eq!(to_hex(&[]), "");
    assert_eq!(to_hex(&[0x00, 0x0f, 0xa5, 0xff]), "000fa5ff");
    assert_eq!(to_hex(&[1, 2, 3]), "010203");
}

#[test]
fn socket_path_takes_first_short_candidate() {
    let long = format!("/{}", "x".repeat(120));
    let cands = vec![long, "/run/user/1000".to_string(), "/var/tmp".to_string()];
    assert_eq!(pick_socket_path(&cands, "ssm-1.sock"), "/run/user/1000/ssm-1.sock");
}

#[test]
fn socket_path_falls_back_to_tmp() {
    let long = format!("/{}", "y".repeat(150));
    assert_eq!(pick_socket_path(&vec![long], "a.sock"), "/tmp/a.sock");
    assert_eq!(pick_socket_path(&Vec::new(), "b.sock"), "/tmp/b.sock");
}

#[test]
fn socket_path_joins_trailing_slash_once() {
    let cands = vec!["/tmp/".to_string()];
    assert_eq!(pick_socket_path(&cands, "c.sock"), "/tmp/c.sock");
}

#[test]
fn responds_to_password_prompt() {
    assert!(is_password_prompt("alice@host's password: "));
    let mut gate = AskpassGate::new();
    let nonce = "n0nce";
    assert_eq!(gate.answer(nonce, nonce, "s3cr3t").as_deref(), Some("s3cr3t"));
}

#[test]
fn refuses_host_key_prompt() {
    assert!(!is_password_prompt(
        "Are you sure you want to continue connecting (yes/no/[fingerprint])? "
    ));
}

#[test]
fn refuses_key_passphrase_prompt() {
    assert!(!is_password_prompt("Enter passphrase for key '/home/a/.ssh/id_ed25519': "));
}

#[test]
fn serves_password_only_once() {
    assert!(is_password_prompt("password: "));
    let mut gate = AskpassGate::new();
    let nonce = "abc123";
    assert_eq!(gate.answer(nonce, nonce, "once-only").as_deref(), Some("once-only"));
    assert_eq!(gate.answer(nonce, nonce, "once-only").as_deref(), Some(""));
}
