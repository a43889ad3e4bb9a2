use collector::bridge::{afk_triggers_flush, app_name_or_unknown};
use collector::config::{plan_config_update, CollectorConfig, ConfigCache, ConfigUpdate};

#[test]
fn test_default_config_valid() {
    let config = CollectorConfig::default();
    assert!(!config.enabled);
    assert!(config.validate().is_ok());
}

#[test]
fn test_config_validation_requires_user_org_when_enabled() {
    let mut config = CollectorConfig::default();
    config.enabled = true;
    config.user_name = String::new();
    config.user_id = String::new();
    config.org_name = String::new();
    config.org_id = String::new();
    config.account_id = String::new();
    assert!(config.validate().is_err());

    config.user_name = "Test User".to_string();
    config.user_id = "test_user".to_string();
    config.org_name = "Test Org".to_string();
    config.org_id = "test_org".to_string();
    config.account_id = "test_account".to_string();
    assert!(config.validate().is_ok());
}

#[test]
fn test_config_validation_url_formats() {
    let mut config = CollectorConfig::default();
    config.enabled = true;
    config.user_name = "Test User".to_string();
    config.user_id = "test".to_string();
    config.org_name = "Test Org".to_string();
    config.org_id = "test".to_string();
    config.account_id = "test_account".to_string();

    config.server_url = "http://invalid".to_string();
    assert!(config.validate().is_err());

    config.server_url = "wss://valid.com/ws".to_string();
    assert!(config.validate().is_ok());

    config.auth_url = "ws://invalid".to_string();
    assert!(config.validate().is_err());

    config.auth_url = "https://valid.com/auth".to_string();
    assert!(config.validate().is_ok());
}

#[test]
fn test_config_validation_numeric_ranges() {
    let mut config = CollectorConfig::default();
    config.enabled = true;
    config.user_name = "Test User".to_string();
    config.user_id = "test".to_string();
    config.org_name = "Test Org".to_string();
    config.org_id = "test".to_string();
    config.account_id = "test_account".to_string();

    config.batch_max_size = 5;
    assert!(config.validate().is_err());
    config.batch_max_size = 100;
    assert!(config.validate().is_ok());

    config.batch_max_interval_seconds = 5;
    assert!(config.validate().is_err());
    config.batch_max_interval_seconds = 60;
    assert!(config.validate().is_ok());
}

#[test]
fn validation_error_messages() {
    let mut config = CollectorConfig::default();
    config.enabled = true;
    config.user_id = "x".repeat(65);
    assert_eq!(config.validate(), Err("user_id must be 64 characters or less".to_string()));
    config.user_id = "x".repeat(64);
    assert!(config.validate().is_ok());
    config.retry_max_attempts = 0;
    assert_eq!(config.validate(), Err("retry_max_attempts must be between 1 and 20".to_string()));
    config.retry_max_attempts = 20;
    config.retry_backoff_multiplier_milli = 10001;
    assert_eq!(config.validate(), Err("retry_backoff_multiplier must be between 1.0 and 10.0".to_string()));
    config.retry_backoff_multiplier_milli = 999;
    assert!(config.validate().is_err());
    config.retry_backoff_multiplier_milli = 1500;
    config.org_name = String::new();
    assert_eq!(config.validate(), Err("org_name is required when collector is enabled".to_string()));
}

#[test]
fn restart_only_for_connection_fields() {
    let a = CollectorConfig::default();
    let mut b = a.clone();
    b.batch_max_size = 500;
    b.retry_max_attempts = 9;
    assert!(!a.needs_restart(&b));
    b.app_jwt_token = Some("new".to_string());
    assert!(a.needs_restart(&b));
    let mut c = a.clone();
    c.server_url = "wss://elsewhere/ws".to_string();
    assert!(a.needs_restart(&c));
}

#[test]
fn config_cache_rules() {
    let mut cache = ConfigCache::new();
    assert!(!cache.is_enabled());
    assert!(!cache.should_flush_on_afk());
    cache.update_app_jwt_token(Some("t".to_string()));
    assert!(cache.get_cached_config().is_none());

    let mut config = CollectorConfig::default();
    config.enabled = true;
    config.user_name = "Someone".to_string();
    cache.init_cache(config);
    assert!(cache.is_enabled());
    assert!(cache.should_flush_on_afk());
    assert_eq!(cache.get_cached_config().unwrap().user_name, "Local");

    cache.update_app_jwt_token(Some("t".to_string()));
    assert_eq!(cache.get_cached_config().unwrap().app_jwt_token, Some("t".to_string()));

    let mut off = CollectorConfig::default();
    off.enabled = true;
    off.flush_on_afk = false;
    cache.update_cache(off);
    assert!(cache.is_enabled());
    assert!(!cache.should_flush_on_afk());

    cache.clear_cache();
    assert!(!cache.is_enabled());
}

#[test]
fn config_update_plans() {
    let current = CollectorConfig::default();
    let same = current.clone();
    assert_eq!(plan_config_update(Some(&current), &same, true), ConfigUpdate::Unchanged);
    let mut hot = current.clone();
    hot.batch_max_size = 200;
    assert_eq!(plan_config_update(Some(&current), &hot, true), ConfigUpdate::HotUpdate);
    assert_eq!(plan_config_update(Some(&current), &hot, false), ConfigUpdate::CacheAndMaybeStart);
    let mut cold = current.clone();
    cold.enabled = true;
    assert_eq!(plan_config_update(Some(&current), &cold, true), ConfigUpdate::Restart);
    assert_eq!(plan_config_update(None, &cold, false), ConfigUpdate::CacheAndMaybeStart);
    assert_eq!(plan_config_update(None, &cold, true), ConfigUpdate::Restart);
}

#[test]
fn afk_rules() {
    assert!(afk_triggers_flush("afk", true));
    assert!(afk_triggers_flush("idle", true));
    assert!(!afk_triggers_flush("active", true));
    assert!(!afk_triggers_flush("afk", false));
    assert_eq!(app_name_or_unknown(Some("Code")), "Code");
    assert_eq!(app_name_or_unknown(Some("")), "unknown");
    assert_eq!(app_name_or_unknown(None), "unknown");
}
