use access_gate::config::SecurityConfig;
use access_gate::context::SecurityContext;
use access_gate::security::SecurityService;

#[test]
fn test_security_context_creation() {
    let ip = "192.168.1.1".to_string();
    let user_agent = Some("test-agent".to_string());

    let context = SecurityContext::new(ip.clone(), user_agent.clone());

    assert_eq!(context.ip_address, ip);
    assert_eq!(context.user_agent, user_agent);
}

#[test]
fn middleware_tests_test_rate_limiting_basic() {
    let config = SecurityConfig {
        rate_limit_per_minute: 2,
        block_duration_minutes: 1,
        enable_logging: false,
        log_successful_attempts: false,
        retention_days: 30,
    };

    let mut security = SecurityService::new(Some(config)).unwrap();
    let test_ip = "127.0.0.1";

    let (allowed, newly_blocked) = security.check_rate_limit(test_ip, "test-key");
    assert!(allowed);
    assert!(!newly_blocked);

    let (allowed, newly_blocked) = security.check_rate_limit(test_ip, "test-key");
    assert!(allowed);
    assert!(!newly_blocked);

    // Third request should be blocked (threshold is 2)
    let (allowed, newly_blocked) = security.check_rate_limit(test_ip, "test-key");
    assert!(!allowed);
    assert!(newly_blocked);
}

#[test]
fn middleware_tests_test_rate_limiting_different_ips() {
    let config = SecurityConfig {
        rate_limit_per_minute: 2,
        block_duration_minutes: 1,
        enable_logging: false,
        log_successful_attempts: false,
        retention_days: 30,
    };

    let mut security = SecurityService::new(Some(config)).unwrap();
    let ip1 = "127.0.0.1";
    let ip2 = "127.0.0.2";

    security.check_rate_limit(ip1, "test-key");
    security.check_rate_limit(ip1, "test-key");
    let (allowed, _newly_blocked) = security.check_rate_limit(ip1, "test-key");
    assert!(!allowed); // IP1 should be blocked

    let (allowed, _newly_blocked) = security.check_rate_limit(ip2, "test-key");
    assert!(allowed); // IP2 should still be allowed
}

#[test]
fn test_access_logging_disabled() {
    let config = SecurityConfig { enable_logging: false, ..Default::default() };

    let mut security = SecurityService::new(Some(config)).unwrap();
    let test_ip = "127.0.0.1";

    let result = security.log_access_attempt(
        Some(test_ip),
        Some("test-agent".to_string()),
        "test-code",
        "test-action",
        true,
    );

    assert!(result.is_ok());
}

#[test]
fn test_security_config_defaults() {
    let config = SecurityConfig::default();

    assert_eq!(config.rate_limit_per_minute, 30);
    assert_eq!(config.block_duration_minutes, 15);
    assert!(config.enable_logging);
    assert!(config.log_successful_attempts);
}
