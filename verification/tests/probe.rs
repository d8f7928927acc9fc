use ssm::probe::probe_targets;
use ssm::storage::Session;
use ssm::probe::{key, ProbeState, ProbeStatus, HISTORY_CAP};

#[test]
fn history_is_capped() {
    let mut s: ProbeState<f64> = ProbeState::default();
    for i in 0..(HISTORY_CAP + 5) {
        s.record(Some(i as f64));
    }
    assert_eq!(s.history.len(), HISTORY_CAP);
    // Oldest samples dropped; newest retained.
    assert_eq!(*s.history.back().unwrap(), (HISTORY_CAP + 4) as f64);
}

#[test]
fn unreachable_does_not_grow_history() {
    let mut s: ProbeState<f64> = ProbeState::default();
    s.record(Some(20.0));
    s.record(None);
    assert_eq!(s.history.len(), 1);
    assert!(s.seen);
    assert!(s.last.is_none());
}

#[test]
fn status_follows_results() {
    let mut s: ProbeState<u32> = ProbeState::default();
    assert_eq!(s.status(), ProbeStatus::NotProbed);
    s.record(None);
    assert_eq!(s.status(), ProbeStatus::Unreachable);
    s.record(Some(10));
    assert_eq!(s.status(), ProbeStatus::Reachable);
}

#[test]
fn history_keeps_most_recent_in_order() {
    let mut s: ProbeState<u32> = ProbeState::default();
    for i in 0..20u32 {
        s.record(Some(i));
        s.record(None);
    }
    let expected: Vec<u32> = (8..20).collect();
    assert_eq!(s.history, expected);
}

#[test]
fn key_is_host_colon_port() {
    assert_eq!(key("h", 22), "h:22");
    assert_eq!(key("10.0.0.1", 65535), "10.0.0.1:65535");
    assert_eq!(key("", 0), ":0");
}

#[test]
fn targets_follow_sessions_when_enabled() {
    let s = vec![
        Session { host: "a".into(), port: 22, ..Session::default() },
        Session { host: "b".into(), port: 2222, ..Session::default() },
    ];
    assert_eq!(probe_targets(&s, true), vec![("a".to_string(), 22), ("b".to_string(), 2222)]);
    assert!(probe_targets(&s, false).is_empty());
}
