use access_gate::config::SecurityConfig;
use access_gate::errors::SecurityError;
use access_gate::security::{GateOutcome, SecurityService};

fn quiet_config(threshold: u32, block_minutes: u64) -> SecurityConfig {
    SecurityConfig {
        rate_limit_per_minute: threshold,
        block_duration_minutes: block_minutes,
        enable_logging: false,
        log_successful_attempts: false,
        retention_days: 30,
    }
}

// Scenario: threshold 3, block duration one minute.  Three calls pass and
// leave the count at 3; the fourth trips the block; the fifth inside the
// minute is rejected without a new block; after 61 simulated seconds the
// next call starts a fresh window with the count reset to 1.
#[test]
fn test_block_and_expiry_scenario() {
    let mut service = SecurityService::new(Some(quiet_config(3, 1))).unwrap();
    let ip = "10.0.0.5";
    let t0: u64 = 1_000_000;

    for i in 0..3u64 {
        let (allowed, newly_blocked) = service.check_rate_limit_at(ip, "code", t0 + i);
        assert!(allowed);
        assert!(!newly_blocked);
    }
    assert_eq!(service.rate_limit_entry(ip).unwrap().count, 3);

    let (allowed, newly_blocked) = service.check_rate_limit_at(ip, "code", t0 + 3);
    assert!(!allowed);
    assert!(newly_blocked);

    let (allowed, newly_blocked) = service.check_rate_limit_at(ip, "code", t0 + 30_000);
    assert!(!allowed);
    assert!(!newly_blocked);
    assert_eq!(service.rate_limit_entry(ip).unwrap().count, 4, "a blocked call counts nothing");

    let (allowed, newly_blocked) = service.check_rate_limit_at(ip, "code", t0 + 3 + 61_000);
    assert!(allowed);
    assert!(!newly_blocked);
    assert_eq!(service.rate_limit_entry(ip).unwrap().count, 1, "fresh window after the block");
}

// A request while blocked must not even touch the entry: the block end and
// window stay exactly as they were.
#[test]
fn test_blocked_entry_is_read_only() {
    let mut service = SecurityService::new(Some(quiet_config(1, 5))).unwrap();
    let ip = "10.9.9.9";
    service.check_rate_limit_at(ip, "k", 1000);
    service.check_rate_limit_at(ip, "k", 2000); // trips the block
    let before = service.rate_limit_entry(ip).unwrap();
    assert_eq!(before.blocked_until, Some(2000 + 5 * 60_000));

    service.check_rate_limit_at(ip, "k", 3000);
    let after = service.rate_limit_entry(ip).unwrap();
    assert_eq!(after.count, before.count);
    assert_eq!(after.last_seen, before.last_seen);
    assert_eq!(after.blocked_until, before.blocked_until);
}

// The window resets after ten minutes even without a block.
#[test]
fn test_window_reset_without_block() {
    let mut service = SecurityService::new(Some(quiet_config(5, 1))).unwrap();
    let ip = "172.16.0.1";
    service.check_rate_limit_at(ip, "k", 1000);
    service.check_rate_limit_at(ip, "k", 2000);
    assert_eq!(service.rate_limit_entry(ip).unwrap().count, 2);

    // 10 minutes and one millisecond past the window start
    let (allowed, _) = service.check_rate_limit_at(ip, "k", 1000 + 600_001);
    assert!(allowed);
    assert_eq!(service.rate_limit_entry(ip).unwrap().count, 1);
}

// First-ever record for an identity has no delta and count 1; the second,
// 1000 ms later, has delta exactly 1000 and count 2.
#[test]
fn test_first_and_second_record_delta() {
    let config = SecurityConfig {
        enable_logging: true,
        log_successful_attempts: true,
        ..Default::default()
    };
    let mut service = SecurityService::new(Some(config)).unwrap();
    let t0: u64 = 50_000;

    service
        .log_access_attempt_at(Some("10.0.0.7"), None, "c", "view", true, t0)
        .unwrap();
    service
        .log_access_attempt_at(Some("10.0.0.7"), None, "c", "view", true, t0 + 1000)
        .unwrap();

    let records = service.audit_records();
    assert_eq!(records.len(), 2);
    assert_eq!(records[0].last_delta_access, None);
    assert_eq!(records[0].count, 1);
    assert_eq!(records[1].last_delta_access, Some(1000));
    assert_eq!(records[1].count, 2);
    assert_eq!(records[0].id.len(), 36);
    assert_ne!(records[0].id, records[1].id);
}

// A record without an identity derives nothing and counts from 1.
#[test]
fn test_record_without_identity() {
    let mut service = SecurityService::new(None).unwrap();
    service.log_access_attempt_at(None, None, "c", "view", true, 1).unwrap();
    service.log_access_attempt_at(None, None, "c", "view", true, 2).unwrap();
    let records = service.audit_records();
    assert_eq!(records.len(), 2);
    assert_eq!(records[1].last_delta_access, None);
    assert_eq!(records[1].count, 1);
}

// Scenario: logging on, successful attempts suppressed.  A successful
// validation writes nothing; a failed one writes exactly one record with
// success false.
#[test]
fn test_success_suppressed_failure_logged() {
    let config = SecurityConfig {
        enable_logging: true,
        log_successful_attempts: false,
        ..Default::default()
    };
    let mut service = SecurityService::new(Some(config)).unwrap();

    let ok = service.log_access_attempt_at(Some("1.2.3.4"), None, "good-code", "view", true, 100);
    assert!(ok.is_ok());
    assert_eq!(service.audit_records().len(), 0, "successful attempt is not recorded");

    let err = service.log_access_attempt_at(Some("1.2.3.4"), None, "bad-code", "view", false, 200);
    assert!(err.is_ok());
    let records = service.audit_records();
    assert_eq!(records.len(), 1, "failed attempt is recorded");
    assert!(!records[0].success);
}

// The sweep deletes audit records strictly older than the retention window
// and keeps newer ones; in memory it keeps an entry seen within twice the
// block duration, and never evicts a still-blocked entry.
#[test]
fn test_sweep_retention_boundaries() {
    let config = SecurityConfig {
        rate_limit_per_minute: 1,
        block_duration_minutes: 10,
        enable_logging: true,
        log_successful_attempts: true,
        retention_days: 1,
    };
    let mut service = SecurityService::new(Some(config)).unwrap();
    let day: u64 = 86_400_000;
    let now: u64 = 10 * day;

    // Strictly older than one day: deleted.  Exactly one day old: kept.
    service.log_access_attempt_at(Some("a"), None, "c", "view", true, now - day - 1).unwrap();
    service.log_access_attempt_at(Some("b"), None, "c", "view", true, now - day).unwrap();
    service.log_access_attempt_at(Some("c"), None, "c", "view", true, now).unwrap();

    // A stale entry (last seen 21 minutes ago, past twice the block
    // duration) and a blocked one (blocked 5 minutes ago, block runs on).
    service.check_rate_limit_at("stale-ip", "k", now - 21 * 60_000);
    service.check_rate_limit_at("blocked-ip", "k", now - 6 * 60_000);
    service.check_rate_limit_at("blocked-ip", "k", now - 5 * 60_000); // trips the block
    let blocked = service.rate_limit_entry("blocked-ip").unwrap();
    assert!(blocked.blocked_until.unwrap() > now);

    service.cleanup_old_entries_at(now).unwrap();

    let records = service.audit_records();
    assert_eq!(records.len(), 2);
    assert_eq!(records[0].created_at, now - day);
    assert_eq!(records[1].created_at, now);

    assert!(service.rate_limit_entry("stale-ip").is_none(), "stale entry evicted");
    let kept = service.rate_limit_entry("blocked-ip").unwrap();
    assert_eq!(kept.blocked_until, blocked.blocked_until, "blocked entry survives the sweep");
}

// An entry exactly at the eviction boundary (last seen twice the block
// duration ago) is kept; one millisecond older goes.
#[test]
fn test_sweep_memory_boundary_exact() {
    let mut service = SecurityService::new(Some(quiet_config(5, 1))).unwrap();
    let now: u64 = 1_000_000;
    service.check_rate_limit_at("edge", "k", now - 120_000);
    service.check_rate_limit_at("gone", "k", now - 120_001);
    service.cleanup_old_entries_at(now).unwrap();
    assert!(service.rate_limit_entry("edge").is_some());
    assert!(service.rate_limit_entry("gone").is_none());
}

// Gating a request: under the threshold it proceeds; the transition into
// blocking is audited exactly once; later blocked requests write nothing.
#[test]
fn test_gate_request_audits_only_the_transition() {
    let config = SecurityConfig {
        rate_limit_per_minute: 2,
        block_duration_minutes: 1,
        enable_logging: true,
        log_successful_attempts: true,
        retention_days: 30,
    };
    let mut service = SecurityService::new(Some(config)).unwrap();
    let t0: u64 = 5_000;

    assert_eq!(service.gate_request("7.7.7.7", None, "7.7.7.7:/x", t0), GateOutcome::Proceed);
    assert_eq!(service.gate_request("7.7.7.7", None, "7.7.7.7:/x", t0 + 1), GateOutcome::Proceed);
    assert_eq!(service.audit_records().len(), 0);

    let g = service.gate_request("7.7.7.7", None, "7.7.7.7:/x", t0 + 2);
    assert_eq!(g, GateOutcome::TooManyRequests);
    let records = service.audit_records();
    assert_eq!(records.len(), 1, "only the transition into blocking is audited");
    assert_eq!(records[0].action, "rate_limited_blocked");
    assert!(!records[0].success);
    assert_eq!(records[0].access_code, "7.7.7.7:/x");

    let g = service.gate_request("7.7.7.7", None, "7.7.7.7:/x", t0 + 3);
    assert_eq!(g, GateOutcome::TooManyRequests);
    assert_eq!(service.audit_records().len(), 1, "already-blocked requests are not audited");
}

// Invalid configurations are rejected at startup with a configuration error.
#[test]
fn test_invalid_configuration_rejected() {
    let zero_threshold = SecurityConfig { rate_limit_per_minute: 0, ..Default::default() };
    match SecurityService::new(Some(zero_threshold)) {
        Err(SecurityError::Configuration { message }) => {
            assert!(!message.is_empty());
        }
        _ => panic!("a zero threshold must be rejected at startup"),
    }

    let zero_block = SecurityConfig { block_duration_minutes: 0, ..Default::default() };
    assert!(matches!(
        SecurityService::new(Some(zero_block)),
        Err(SecurityError::Configuration { .. })
    ));

    let zero_retention = SecurityConfig { retention_days: 0, ..Default::default() };
    assert!(matches!(
        SecurityService::new(Some(zero_retention)),
        Err(SecurityError::Configuration { .. })
    ));

    assert!(SecurityService::new(None).is_ok(), "the stock configuration is valid");
}

#[test]
fn test_error_message_accessor() {
    let e = SecurityError::Configuration { message: "bad threshold".to_string() };
    assert_eq!(e.message(), "bad threshold");
    let s = SecurityError::Storage { message: "connection lost".to_string() };
    assert_eq!(s.message(), "connection lost");
}
