use access_gate::config::SecurityConfig;
use access_gate::security::SecurityService;

#[test]
fn security_tests_test_rate_limiting_basic() {
    let config = SecurityConfig {
        rate_limit_per_minute: 3,
        block_duration_minutes: 1,
        enable_logging: false,
        log_successful_attempts: false,
        retention_days: 30,
    };

    let mut security = SecurityService::new(Some(config)).unwrap();
    let test_ip = "127.0.0.1";
    let test_code = "test-code";

    for i in 1..=3 {
        let (allowed, newly_blocked) = security.check_rate_limit(test_ip, test_code);
        assert!(allowed, "Request {} should be allowed", i);
        assert!(!newly_blocked, "Request {} should not trigger block", i);
    }

    let (allowed, newly_blocked) = security.check_rate_limit(test_ip, test_code);
    assert!(!allowed, "4th request should be blocked");
    assert!(newly_blocked, "4th request should trigger new block");
}

#[test]
fn security_tests_test_rate_limiting_different_ips() {
    let config = SecurityConfig {
        rate_limit_per_minute: 2,
        block_duration_minutes: 1,
        enable_logging: false,
        log_successful_attempts: false,
        retention_days: 30,
    };

    let mut security = SecurityService::new(Some(config)).unwrap();
    let ip1 = "127.0.0.1";
    let ip2 = "192.168.1.1";
    let test_code = "test-code";

    for _ in 1..=3 {
        let _ = security.check_rate_limit(ip1, test_code);
    }

    let (allowed, _) = security.check_rate_limit(ip1, test_code);
    assert!(!allowed, "IP1 should be blocked");

    let (allowed, _) = security.check_rate_limit(ip2, test_code);
    assert!(allowed, "IP2 should still be allowed");
}

#[test]
fn test_access_logging() {
    let config = SecurityConfig {
        enable_logging: true,
        log_successful_attempts: true,
        ..Default::default()
    };

    let mut security = SecurityService::new(Some(config)).unwrap();
    let test_ip = "127.0.0.1";

    let result = security.log_access_attempt(
        Some(test_ip),
        Some("test-user-agent".to_string()),
        "test-code",
        "view",
        true,
    );

    assert!(result.is_ok(), "Logging should succeed");
}

#[test]
fn test_cleanup_old_entries() {
    let config = SecurityConfig { enable_logging: true, ..Default::default() };

    let mut security = SecurityService::new(Some(config)).unwrap();

    let test_ip = "127.0.0.1";
    for i in 0..5 {
        let _ = security.log_access_attempt(
            Some(test_ip),
            Some("test-user-agent".to_string()),
            &format!("test-code-{}", i),
            "view",
            true,
        );
    }

    let result = security.cleanup_old_entries();
    assert!(result.is_ok(), "Cleanup should succeed");
}

#[test]
fn test_disabled_logging() {
    let config = SecurityConfig { enable_logging: false, ..Default::default() };

    let mut security = SecurityService::new(Some(config)).unwrap();
    let test_ip = "127.0.0.1";

    let result = security.log_access_attempt(
        Some(test_ip),
        Some("test-user-agent".to_string()),
        "test-code",
        "view",
        true,
    );

    assert!(result.is_ok(), "Logging should succeed (no-op when disabled)");
}
