//! Configuration defaults, validation and the builder.

use offline_protocol::config::{
    DeduplicatorConfig, EncryptionConfig, GroupConfig, OverflowPolicy, PendingQueueConfig,
    ProtocolConfig, ReliabilityConfig, TransportConfig,
};

#[test]
fn test_config_creation() {
    let config = ProtocolConfig::new("test-app", "user123");
    assert_eq!(config.app_id, "test-app");
    assert_eq!(config.user_id, "user123");
    assert_eq!(config.initial_ttl, 8);
}

#[test]
fn test_config_validation_success() {
    let config = ProtocolConfig::new("test-app", "user123");
    assert!(config.validate().is_ok());
}

#[test]
fn test_config_validation_empty_app_id() {
    let config = ProtocolConfig::new("", "user123");
    assert!(config.validate().is_err());
}

#[test]
fn test_config_validation_empty_user_id() {
    let config = ProtocolConfig::new("test-app", "");
    assert!(config.validate().is_err());
}

#[test]
fn test_config_validation_zero_ttl() {
    let mut config = ProtocolConfig::new("test-app", "user123");
    config.initial_ttl = 0;
    assert!(config.validate().is_err());
}

#[test]
fn test_config_validation_no_transports() {
    let mut config = ProtocolConfig::new("test-app", "user123");
    config.transport.ble_enabled = false;
    config.transport.wifi_direct_enabled = false;
    config.transport.internet_enabled = false;
    assert!(config.validate().is_err());
}

#[test]
fn test_config_validation_retry_initial_delay_must_be_positive() {
    let mut config = ProtocolConfig::new("test-app", "user123");
    config.reliability.retry.initial_delay_ms = 0;
    assert!(config.validate().is_err());
}

#[test]
fn test_config_validation_retry_delay_bounds() {
    let mut config = ProtocolConfig::new("test-app", "user123");
    config.reliability.retry.initial_delay_ms = 2000;
    config.reliability.retry.max_delay_ms = 1000;
    assert!(config.validate().is_err());
}

#[test]
fn test_config_validation_retry_backoff_multiplier_bounds() {
    let mut config = ProtocolConfig::new("test-app", "user123");
    config.reliability.retry.backoff_multiplier_bits = 0.5f64.to_bits();
    assert!(config.validate().is_err());
}

#[test]
fn test_config_validation_rejects_zero_bloom_parameters() {
    let mutations: [fn(&mut DeduplicatorConfig); 4] = [
        |dedup: &mut DeduplicatorConfig| dedup.bloom_filter_bits = 0,
        |dedup: &mut DeduplicatorConfig| dedup.bloom_hash_count = 0,
        |dedup: &mut DeduplicatorConfig| dedup.bloom_filter_count = 0,
        |dedup: &mut DeduplicatorConfig| dedup.bloom_rotation_secs = 0,
    ];

    for mutate in mutations {
        let mut config = ProtocolConfig::new("test-app", "user123");
        config.reliability.dedup.use_bloom_filter = true;
        mutate(&mut config.reliability.dedup);
        assert!(config.validate().is_err());
    }
}

#[test]
fn test_config_builder() {
    let config = ProtocolConfig::builder("test-app", "user123")
        .ble_enabled(true)
        .wifi_direct_enabled(false)
        .online_first(true)
        .initial_ttl(10)
        .build()
        .unwrap();

    assert_eq!(config.app_id, "test-app");
    assert!(config.transport.ble_enabled);
    assert!(!config.transport.wifi_direct_enabled);
    assert!(config.dors.prefer_online);
    assert_eq!(config.initial_ttl, 10);
}

#[test]
fn test_transport_config_default() {
    let transport = TransportConfig::default();
    assert!(transport.ble_enabled);
    assert!(transport.wifi_direct_enabled);
    assert!(transport.internet_enabled);
}

#[test]
fn test_reliability_config_default() {
    let reliability = ReliabilityConfig::default();
    assert_eq!(reliability.ack.default_timeout_ms, 10000);
    assert_eq!(reliability.retry.max_retries, 10);
    // Seven days.
    assert_eq!(reliability.retry.outbox_max_lifetime_ms, 604_800_000);
    // Five minutes.
    assert_eq!(reliability.retry.max_delay_ms, 300_000);
    assert_eq!(reliability.dedup.max_tracked_messages, 1000);
}

#[test]
fn test_encryption_config_default() {
    let encryption = EncryptionConfig::default();
    assert!(encryption.enabled);
    assert!(encryption.auto_key_exchange);
    assert!(encryption.store_pending);
    // Plaintext is an explicit opt-out.
    assert!(encryption.require_encryption);
    assert_eq!(encryption.pending_queue.max_pending_per_peer, 64);
    assert_eq!(encryption.pending_queue.max_pending_global, 4096);
    assert_eq!(encryption.pending_queue.pending_ttl_ms, 1_800_000);
    assert_eq!(
        encryption.pending_queue.overflow_policy,
        OverflowPolicy::DropOldest
    );
}

#[test]
fn test_encryption_config_disabled() {
    let encryption = EncryptionConfig::disabled();
    assert!(!encryption.enabled);
    assert!(!encryption.auto_key_exchange);
    assert!(!encryption.store_pending);
    assert!(!encryption.require_encryption);
}

#[test]
fn test_config_builder_with_encryption() {
    let config = ProtocolConfig::builder("test-app", "user123")
        .encryption_enabled(true)
        .auto_key_exchange(true)
        .store_pending_messages(false)
        .require_encryption(true)
        .pending_queue(PendingQueueConfig {
            max_pending_per_peer: 32,
            max_pending_global: 512,
            pending_ttl_ms: 30_000,
            overflow_policy: OverflowPolicy::DropNewest,
            ..Default::default()
        })
        .build()
        .unwrap();

    assert!(config.encryption.enabled);
    assert!(config.encryption.auto_key_exchange);
    assert!(!config.encryption.store_pending);
    assert!(config.encryption.require_encryption);
    assert_eq!(config.encryption.pending_queue.max_pending_per_peer, 32);
    assert_eq!(config.encryption.pending_queue.max_pending_global, 512);
    assert_eq!(config.encryption.pending_queue.pending_ttl_ms, 30_000);
    assert_eq!(
        config.encryption.pending_queue.overflow_policy,
        OverflowPolicy::DropNewest
    );
}

#[test]
fn test_config_validation_require_encryption_requires_enabled() {
    let mut config = ProtocolConfig::new("test-app", "user123");
    config.encryption.enabled = false;
    config.encryption.require_encryption = true;
    assert!(config.validate().is_err());
}

#[test]
fn test_config_validation_pending_queue_requires_positive_limits() {
    let mut config = ProtocolConfig::new("test-app", "user123");
    config.encryption.pending_queue.max_pending_per_peer = 0;
    assert!(config.validate().is_err());

    let mut config = ProtocolConfig::new("test-app", "user123");
    config.encryption.pending_queue.max_pending_global = 0;
    assert!(config.validate().is_err());

    let mut config = ProtocolConfig::new("test-app", "user123");
    config.encryption.pending_queue.pending_ttl_ms = 0;
    assert!(config.validate().is_err());
}

#[test]
fn test_config_validation_pending_queue_global_must_cover_per_peer() {
    let mut config = ProtocolConfig::new("test-app", "user123");
    config.encryption.pending_queue.max_pending_per_peer = 100;
    config.encryption.pending_queue.max_pending_global = 99;
    assert!(config.validate().is_err());
}

#[test]
fn test_group_config_default() {
    let group = GroupConfig::default();
    assert_eq!(group.max_group_members, 256);
}

#[test]
fn test_config_has_default_group_config() {
    let config = ProtocolConfig::new("test-app", "user123");
    assert_eq!(config.group.max_group_members, 256);
}

#[test]
fn test_config_validation_zero_max_group_members() {
    let mut config = ProtocolConfig::new("test-app", "user123");
    config.group.max_group_members = 0;
    assert!(config.validate().is_err());
}

#[test]
fn test_config_validation_positive_max_group_members() {
    let mut config = ProtocolConfig::new("test-app", "user123");
    config.group.max_group_members = 1;
    assert!(config.validate().is_ok());
}

#[test]
fn test_config_builder_max_group_members() {
    let config = ProtocolConfig::builder("test-app", "user123")
        .max_group_members(50)
        .build()
        .unwrap();
    assert_eq!(config.group.max_group_members, 50);
}

#[test]
fn test_config_builder_group_config() {
    let config = ProtocolConfig::builder("test-app", "user123")
        .group(GroupConfig {
            max_group_members: 128,
            ..Default::default()
        })
        .build()
        .unwrap();
    assert_eq!(config.group.max_group_members, 128);
}

#[test]
fn test_config_builder_zero_max_group_members_rejected() {
    let result = ProtocolConfig::builder("test-app", "user123")
        .max_group_members(0)
        .build();
    assert!(result.is_err());
}
