//! Protocol configuration.

use vstd::prelude::*;

use crate::constants::DEFAULT_INITIAL_TTL;
use crate::error::Error;

verus! {

/// Overflow policy for bounded pending encrypted message queues.
#[derive(Debug, Clone, Copy, PartialEq, Eq, Structural)]
pub enum OverflowPolicy {
    /// Evict the oldest queued message to make room for the new message.
    DropOldest,
    /// Drop the newly received message when capacity is reached.
    DropNewest,
}

impl Default for OverflowPolicy {
    fn default() -> (r: Self)
        ensures
            r == OverflowPolicy::DropOldest,
    {
        OverflowPolicy::DropOldest
    }
}

/// Configuration for inbound encrypted messages received before session
/// readiness.
#[derive(Debug, Clone, Copy)]
pub struct PendingQueueConfig {
    /// Maximum number of pending encrypted messages per peer.
    pub max_pending_per_peer: usize,
    /// Maximum number of pending encrypted messages across all peers.
    pub max_pending_global: usize,
    /// Maximum total payload bytes queued per peer.
    pub max_pending_bytes_per_peer: usize,
    /// Maximum total payload bytes queued across all peers.
    pub max_pending_bytes_global: usize,
    /// Time-to-live for pending encrypted messages in milliseconds.
    pub pending_ttl_ms: u64,
    /// Overflow policy when queue limits are reached.
    pub overflow_policy: OverflowPolicy,
}

/// The default payload bytes queued for one peer (4 MiB).
pub fn default_max_pending_bytes_per_peer() -> (r: usize)
    ensures
        r == 4_194_304,
{
    4_194_304
}

/// The default payload bytes queued for all peers (32 MiB).
pub fn default_max_pending_bytes_global() -> (r: usize)
    ensures
        r == 33_554_432,
{
    33_554_432
}

/// The default bounds: 64 messages and 4 MiB for each peer, 4096 messages and 32
/// MiB overall, for half an hour, the oldest leaving first.
pub open spec fn default_pending_queue() -> PendingQueueConfig {
    PendingQueueConfig {
        max_pending_per_peer: 64,
        max_pending_global: 4096,
        max_pending_bytes_per_peer: 4_194_304,
        max_pending_bytes_global: 33_554_432,
        pending_ttl_ms: 1_800_000,
        overflow_policy: OverflowPolicy::DropOldest,
    }
}

impl Default for PendingQueueConfig {
    fn default() -> (r: Self)
        ensures
            r == default_pending_queue(),
    {
        PendingQueueConfig {
            max_pending_per_peer: 64,
            max_pending_global: 4096,
            max_pending_bytes_per_peer: default_max_pending_bytes_per_peer(),
            max_pending_bytes_global: default_max_pending_bytes_global(),
            pending_ttl_ms: 1_800_000,
            overflow_policy: OverflowPolicy::DropOldest,
        }
    }
}

/// Encryption configuration for automatic MLS handling.
#[derive(Debug, Clone, Copy)]
pub struct EncryptionConfig {
    /// Whether automatic encryption is enabled.
    pub enabled: bool,
    /// Auto-exchange key packages on peer discovery.
    pub auto_key_exchange: bool,
    /// Store pending messages when no session exists.
    pub store_pending: bool,
    /// Require encryption for messages: sends fail closed and inbound plaintext is
    /// rejected.
    pub require_encryption: bool,
    /// Bounds and eviction policy for pending inbound encrypted messages.
    pub pending_queue: PendingQueueConfig,
    /// Whether to negotiate and emit the compact envelope.
    pub compact_envelope_enabled: bool,
    /// Whether to negotiate and seal rich payloads.
    pub rich_payload_enabled: bool,
}

/// Encryption configuration with every switch at `on`.
pub open spec fn encryption_all(on: bool) -> EncryptionConfig {
    EncryptionConfig {
        enabled: on,
        auto_key_exchange: on,
        store_pending: on,
        require_encryption: on,
        pending_queue: default_pending_queue(),
        compact_envelope_enabled: on,
        rich_payload_enabled: on,
    }
}

impl Default for EncryptionConfig {
    fn default() -> (r: Self)
        ensures
            r == encryption_all(true),
    {
        EncryptionConfig {
            enabled: true,
            auto_key_exchange: true,
            store_pending: true,
            require_encryption: true,
            pending_queue: PendingQueueConfig::default(),
            compact_envelope_enabled: true,
            rich_payload_enabled: true,
        }
    }
}

impl EncryptionConfig {
    /// Creates a new encryption config with encryption disabled.
    pub fn disabled() -> (r: Self)
        ensures
            r == encryption_all(false),
    {
        EncryptionConfig {
            enabled: false,
            auto_key_exchange: false,
            store_pending: false,
            require_encryption: false,
            pending_queue: PendingQueueConfig::default(),
            compact_envelope_enabled: false,
            rich_payload_enabled: false,
        }
    }
}

/// Security configuration for transport and control-message hardening.
#[derive(Debug, Clone, Copy)]
pub struct SecurityConfig {
    /// When `true`, control messages with no transport-level peer identity are
    /// rejected.
    pub require_transport_identity: bool,
}

impl Default for SecurityConfig {
    fn default() -> (r: Self)
        ensures
            !r.require_transport_identity,
    {
        SecurityConfig { require_transport_identity: false }
    }
}

/// Transport-specific configuration.
#[derive(Debug, Clone, Copy)]
pub struct TransportConfig {
    /// Whether BLE transport is enabled.
    pub ble_enabled: bool,
    /// Whether Wi-Fi Direct transport is enabled.
    pub wifi_direct_enabled: bool,
    /// Whether Internet transport is enabled.
    pub internet_enabled: bool,
    /// Whether Reticulum mesh transport is enabled. It needs external
    /// infrastructure.
    pub reticulum_enabled: bool,
    /// Whether Nostr relay transport is enabled. It needs relays and a keypair.
    pub nostr_enabled: bool,
    /// Whether to negotiate and emit the compact binary wire codec.
    pub binary_wire_enabled: bool,
}

/// The default transports: BLE, Wi-Fi Direct and Internet.
pub open spec fn default_transports() -> TransportConfig {
    TransportConfig {
        ble_enabled: true,
        wifi_direct_enabled: true,
        internet_enabled: true,
        reticulum_enabled: false,
        nostr_enabled: false,
        binary_wire_enabled: true,
    }
}

impl Default for TransportConfig {
    fn default() -> (r: Self)
        ensures
            r == default_transports(),
    {
        TransportConfig {
            ble_enabled: true,
            wifi_direct_enabled: true,
            internet_enabled: true,
            reticulum_enabled: false,
            nostr_enabled: false,
            binary_wire_enabled: true,
        }
    }
}

/// Acknowledgement settings.
#[derive(Debug, Clone, Copy)]
pub struct AckConfig {
    /// How long an acknowledgement is awaited, in milliseconds.
    pub default_timeout_ms: u64,
}

impl Default for AckConfig {
    fn default() -> (r: Self)
        ensures
            r.default_timeout_ms == 10_000,
    {
        AckConfig { default_timeout_ms: 10_000 }
    }
}

/// Retry settings.
#[derive(Debug, Clone, Copy)]
pub struct RetryConfig {
    /// Most retries of one message.
    pub max_retries: u32,
    /// Delay before the first retry, in milliseconds.
    pub initial_delay_ms: u64,
    /// Ceiling of the delay, in milliseconds.
    pub max_delay_ms: u64,
    /// Growth of the delay from one retry to the next: a double-precision value, as
    /// its bit pattern.
    pub backoff_multiplier_bits: u64,
    /// Longest stay of a message in the outbox, in milliseconds.
    pub outbox_max_lifetime_ms: u64,
}

/// The default retries: ten, from one second doubling up to five minutes, for
/// seven days.
pub open spec fn default_retry() -> RetryConfig {
    RetryConfig {
        max_retries: 10,
        initial_delay_ms: 1_000,
        max_delay_ms: 300_000,
        backoff_multiplier_bits: 0x4000_0000_0000_0000,
        outbox_max_lifetime_ms: 604_800_000,
    }
}

impl Default for RetryConfig {
    fn default() -> (r: Self)
        ensures
            r == default_retry(),
    {
        RetryConfig {
            max_retries: 10,
            initial_delay_ms: 1_000,
            max_delay_ms: 300_000,
            backoff_multiplier_bits: 0x4000_0000_0000_0000,
            outbox_max_lifetime_ms: 604_800_000,
        }
    }
}

/// Deduplication settings.
#[derive(Debug, Clone, Copy)]
pub struct DeduplicatorConfig {
    /// Most messages remembered exactly.
    pub max_tracked_messages: usize,
    /// Whether older messages are remembered in Bloom filters.
    pub use_bloom_filter: bool,
    /// Bits of each filter.
    pub bloom_filter_bits: usize,
    /// Hash functions of each filter.
    pub bloom_hash_count: usize,
    /// Filters kept.
    pub bloom_filter_count: usize,
    /// Seconds between rotations of the filters.
    pub bloom_rotation_secs: u64,
}

/// The default deduplication: a thousand messages, remembered exactly.
pub open spec fn default_dedup() -> DeduplicatorConfig {
    DeduplicatorConfig {
        max_tracked_messages: 1_000,
        use_bloom_filter: false,
        bloom_filter_bits: 8_192,
        bloom_hash_count: 4,
        bloom_filter_count: 2,
        bloom_rotation_secs: 300,
    }
}

impl Default for DeduplicatorConfig {
    fn default() -> (r: Self)
        ensures
            r == default_dedup(),
    {
        DeduplicatorConfig {
            max_tracked_messages: 1_000,
            use_bloom_filter: false,
            bloom_filter_bits: 8_192,
            bloom_hash_count: 4,
            bloom_filter_count: 2,
            bloom_rotation_secs: 300,
        }
    }
}

/// Reliability configuration combining acknowledgement, retry, and deduplication
/// settings.
#[derive(Debug, Clone, Copy)]
pub struct ReliabilityConfig {
    /// Acknowledgement settings.
    pub ack: AckConfig,
    /// Retry settings.
    pub retry: RetryConfig,
    /// Deduplication settings.
    pub dedup: DeduplicatorConfig,
}

/// The default reliability settings.
pub open spec fn default_reliability() -> ReliabilityConfig {
    ReliabilityConfig {
        ack: AckConfig { default_timeout_ms: 10_000 },
        retry: default_retry(),
        dedup: default_dedup(),
    }
}

impl Default for ReliabilityConfig {
    fn default() -> (r: Self)
        ensures
            r == default_reliability(),
    {
        ReliabilityConfig {
            ack: AckConfig::default(),
            retry: RetryConfig::default(),
            dedup: DeduplicatorConfig::default(),
        }
    }
}

/// Transport selection settings. All but the preference for the internet belong to
/// the router and are carried in its own encoding; empty means its defaults.
#[derive(Debug, Clone)]
pub struct DorsConfig {
    /// Prefer the internet where it is available.
    pub prefer_online: bool,
    /// The router's further settings.
    pub encoded: String,
}

/// Relay settings, in the router's own encoding; empty means its defaults.
#[derive(Debug, Clone)]
pub struct RelayConfig {
    /// The router's settings.
    pub encoded: String,
}

/// Path selection settings, in the router's own encoding; empty means its
/// defaults.
#[derive(Debug, Clone)]
pub struct PathConfig {
    /// The router's settings.
    pub encoded: String,
}

impl Default for DorsConfig {
    fn default() -> (r: Self)
        ensures
            !r.prefer_online,
            r.encoded@.len() == 0,
    {
        DorsConfig { prefer_online: false, encoded: String::new() }
    }
}

impl Default for RelayConfig {
    fn default() -> (r: Self)
        ensures
            r.encoded@.len() == 0,
    {
        RelayConfig { encoded: String::new() }
    }
}

impl Default for PathConfig {
    fn default() -> (r: Self)
        ensures
            r.encoded@.len() == 0,
    {
        PathConfig { encoded: String::new() }
    }
}

/// Configuration for group messaging.
#[derive(Debug, Clone, Copy)]
pub struct GroupConfig {
    /// Maximum number of members allowed in a single group.
    pub max_group_members: usize,
    /// Whether to attempt relay server registration for groups.
    pub relay_enabled: bool,
}

/// The default group settings: 256 members, with relay registration.
pub open spec fn default_group() -> GroupConfig {
    GroupConfig { max_group_members: 256, relay_enabled: true }
}

impl Default for GroupConfig {
    fn default() -> (r: Self)
        ensures
            r == default_group(),
    {
        GroupConfig { max_group_members: 256, relay_enabled: true }
    }
}

/// Main configuration for the protocol.
#[derive(Debug, Clone)]
pub struct ProtocolConfig {
    /// Application identifier (required).
    pub app_id: String,
    /// User identifier (required).
    pub user_id: String,
    /// Transport configuration.
    pub transport: TransportConfig,
    /// Transport selection configuration.
    pub dors: DorsConfig,
    /// Relay management configuration.
    pub relay: RelayConfig,
    /// Path selection configuration.
    pub path: PathConfig,
    /// Reliability layer configuration.
    pub reliability: ReliabilityConfig,
    /// Encryption configuration for automatic MLS handling.
    pub encryption: EncryptionConfig,
    /// Initial time-to-live of messages.
    pub initial_ttl: u8,
    /// Mesh group messaging configuration.
    pub group: GroupConfig,
    /// Security configuration for transport and control-message hardening.
    pub security: SecurityConfig,
}

/// The bit pattern of a double-precision value that is finite and at least one:
/// from that of 1.0 up to the one before positive infinity.
pub open spec fn finite_and_at_least_one(bits: u64) -> bool {
    0x3ff0_0000_0000_0000 <= bits < 0x7ff0_0000_0000_0000
}

fn is_finite_and_at_least_one(bits: u64) -> (r: bool)
    ensures
        r == finite_and_at_least_one(bits),
{
    0x3ff0_0000_0000_0000 <= bits && bits < 0x7ff0_0000_0000_0000
}

impl ProtocolConfig {
    /// Every setting but the two identifiers has its default.
    pub open spec fn is_default(self) -> bool {
        &&& self.transport == default_transports()
        &&& !self.dors.prefer_online && self.dors.encoded@.len() == 0
        &&& self.relay.encoded@.len() == 0
        &&& self.path.encoded@.len() == 0
        &&& self.reliability == default_reliability()
        &&& self.encryption == encryption_all(true)
        &&& self.initial_ttl == DEFAULT_INITIAL_TTL
        &&& self.group == default_group()
        &&& !self.security.require_transport_identity
    }

    /// Creates a new protocol configuration.
    pub fn new(app_id: &str, user_id: &str) -> (r: Self)
        ensures
            r.app_id@ == app_id@,
            r.user_id@ == user_id@,
            r.is_default(),
    {
        ProtocolConfig {
            app_id: app_id.to_owned(),
            user_id: user_id.to_owned(),
            transport: TransportConfig::default(),
            dors: DorsConfig::default(),
            relay: RelayConfig::default(),
            path: PathConfig::default(),
            reliability: ReliabilityConfig::default(),
            encryption: EncryptionConfig::default(),
            initial_ttl: DEFAULT_INITIAL_TTL,
            group: GroupConfig::default(),
            security: SecurityConfig::default(),
        }
    }

    /// Creates a builder for more granular configuration.
    pub fn builder(app_id: &str, user_id: &str) -> (r: ProtocolConfigBuilder)
        ensures
            r.draft().app_id@ == app_id@,
            r.draft().user_id@ == user_id@,
            r.draft().is_default(),
    {
        ProtocolConfigBuilder::new(app_id, user_id)
    }

    /// The first thing wrong with the configuration, if anything is.
    pub open spec fn fault(self) -> Option<Seq<char>> {
        if self.app_id@.len() == 0 {
            Some("app_id cannot be empty"@)
        } else if self.user_id@.len() == 0 {
            Some("user_id cannot be empty"@)
        } else if self.initial_ttl == 0 {
            Some("initial_ttl must be greater than 0"@)
        } else if !self.transport.ble_enabled && !self.transport.wifi_direct_enabled && !self.transport.internet_enabled && !self.transport.reticulum_enabled && !self.transport.nostr_enabled {
            Some("At least one transport must be enabled"@)
        } else if self.reliability.retry.initial_delay_ms == 0 {
            Some("retry.initial_delay_ms must be greater than 0"@)
        } else if self.reliability.retry.max_delay_ms == 0 {
            Some("retry.max_delay_ms must be greater than 0"@)
        } else if self.reliability.retry.initial_delay_ms > self.reliability.retry.max_delay_ms {
            Some("retry.initial_delay_ms must be <= retry.max_delay_ms"@)
        } else if !finite_and_at_least_one(self.reliability.retry.backoff_multiplier_bits) {
            Some("retry.backoff_multiplier must be finite and >= 1.0"@)
        } else if self.reliability.dedup.use_bloom_filter && self.reliability.dedup.bloom_filter_bits == 0 {
            Some("reliability.dedup.bloom_filter_bits must be greater than 0"@)
        } else if self.reliability.dedup.use_bloom_filter && self.reliability.dedup.bloom_hash_count == 0 {
            Some("reliability.dedup.bloom_hash_count must be greater than 0"@)
        } else if self.reliability.dedup.use_bloom_filter && self.reliability.dedup.bloom_filter_count == 0 {
            Some("reliability.dedup.bloom_filter_count must be greater than 0"@)
        } else if self.reliability.dedup.use_bloom_filter && self.reliability.dedup.bloom_rotation_secs == 0 {
            Some("reliability.dedup.bloom_rotation_secs must be greater than 0"@)
        } else if self.encryption.require_encryption && !self.encryption.enabled {
            Some("encryption.require_encryption requires encryption.enabled=true"@)
        } else if self.encryption.pending_queue.max_pending_per_peer == 0 {
            Some("encryption.pending_queue.max_pending_per_peer must be greater than 0"@)
        } else if self.encryption.pending_queue.max_pending_global == 0 {
            Some("encryption.pending_queue.max_pending_global must be greater than 0"@)
        } else if self.encryption.pending_queue.max_pending_global < self.encryption.pending_queue.max_pending_per_peer {
            Some("encryption.pending_queue.max_pending_global must be >= max_pending_per_peer"@)
        } else if self.encryption.pending_queue.pending_ttl_ms == 0 {
            Some("encryption.pending_queue.pending_ttl_ms must be greater than 0"@)
        } else if self.group.max_group_members == 0 {
            Some("group.max_group_members must be greater than 0"@)
        } else {
            None
        }
    }

    /// Validates the configuration: `Ok` if nothing is wrong with it, else a
    /// description of the first problem.
    pub fn validate(&self) -> (r: Result<(), Error>)
        ensures
            match r {
                Ok(_) => self.fault() is None,
                Err(e) => e matches Error::InvalidConfiguration(text) && self.fault() == Some(
                    text@,
                ),
            },
    {
        if self.app_id.as_str().is_empty() {
            return Err(Error::InvalidConfiguration("app_id cannot be empty".to_owned()));
        }
        if self.user_id.as_str().is_empty() {
            return Err(Error::InvalidConfiguration("user_id cannot be empty".to_owned()));
        }
        if self.initial_ttl == 0 {
            return Err(Error::InvalidConfiguration("initial_ttl must be greater than 0".to_owned()));
        }
        if !self.transport.ble_enabled && !self.transport.wifi_direct_enabled && !self.transport.internet_enabled && !self.transport.reticulum_enabled && !self.transport.nostr_enabled {
            return Err(Error::InvalidConfiguration("At least one transport must be enabled".to_owned()));
        }
        if self.reliability.retry.initial_delay_ms == 0 {
            return Err(Error::InvalidConfiguration("retry.initial_delay_ms must be greater than 0".to_owned()));
        }
        if self.reliability.retry.max_delay_ms == 0 {
            return Err(Error::InvalidConfiguration("retry.max_delay_ms must be greater than 0".to_owned()));
        }
        if self.reliability.retry.initial_delay_ms > self.reliability.retry.max_delay_ms {
            return Err(Error::InvalidConfiguration("retry.initial_delay_ms must be <= retry.max_delay_ms".to_owned()));
        }
        if !is_finite_and_at_least_one(self.reliability.retry.backoff_multiplier_bits) {
            return Err(Error::InvalidConfiguration("retry.backoff_multiplier must be finite and >= 1.0".to_owned()));
        }
        if self.reliability.dedup.use_bloom_filter && self.reliability.dedup.bloom_filter_bits == 0 {
            return Err(Error::InvalidConfiguration("reliability.dedup.bloom_filter_bits must be greater than 0".to_owned()));
        }
        if self.reliability.dedup.use_bloom_filter && self.reliability.dedup.bloom_hash_count == 0 {
            return Err(Error::InvalidConfiguration("reliability.dedup.bloom_hash_count must be greater than 0".to_owned()));
        }
        if self.reliability.dedup.use_bloom_filter && self.reliability.dedup.bloom_filter_count == 0 {
            return Err(Error::InvalidConfiguration("reliability.dedup.bloom_filter_count must be greater than 0".to_owned()));
        }
        if self.reliability.dedup.use_bloom_filter && self.reliability.dedup.bloom_rotation_secs == 0 {
            return Err(Error::InvalidConfiguration("reliability.dedup.bloom_rotation_secs must be greater than 0".to_owned()));
        }
        if self.encryption.require_encryption && !self.encryption.enabled {
            return Err(Error::InvalidConfiguration("encryption.require_encryption requires encryption.enabled=true".to_owned()));
        }
        if self.encryption.pending_queue.max_pending_per_peer == 0 {
            return Err(Error::InvalidConfiguration("encryption.pending_queue.max_pending_per_peer must be greater than 0".to_owned()));
        }
        if self.encryption.pending_queue.max_pending_global == 0 {
            return Err(Error::InvalidConfiguration("encryption.pending_queue.max_pending_global must be greater than 0".to_owned()));
        }
        if self.encryption.pending_queue.max_pending_global < self.encryption.pending_queue.max_pending_per_peer {
            return Err(Error::InvalidConfiguration("encryption.pending_queue.max_pending_global must be >= max_pending_per_peer".to_owned()));
        }
        if self.encryption.pending_queue.pending_ttl_ms == 0 {
            return Err(Error::InvalidConfiguration("encryption.pending_queue.pending_ttl_ms must be greater than 0".to_owned()));
        }
        if self.group.max_group_members == 0 {
            return Err(Error::InvalidConfiguration("group.max_group_members must be greater than 0".to_owned()));
        }
        Ok(())
    }
}

/// A configuration with both identifiers given and everything else at its default
/// is valid.
pub proof fn defaults_are_valid(config: ProtocolConfig)
    requires
        config.is_default(),
        config.app_id@.len() > 0,
        config.user_id@.len() > 0,
    ensures
        config.fault() is None,
{
}

/// A valid configuration never requires encryption that is switched off, has a
/// transport to use, and has positive limits.
pub proof fn valid_configurations_can_work(config: ProtocolConfig)
    requires
        config.fault() is None,
    ensures
        config.encryption.require_encryption ==> config.encryption.enabled,
        config.transport.ble_enabled || config.transport.wifi_direct_enabled
            || config.transport.internet_enabled || config.transport.reticulum_enabled
            || config.transport.nostr_enabled,
        config.initial_ttl > 0,
        config.group.max_group_members > 0,
        0 < config.encryption.pending_queue.max_pending_per_peer
            <= config.encryption.pending_queue.max_pending_global,
        0 < config.reliability.retry.initial_delay_ms <= config.reliability.retry.max_delay_ms,
{
}

/// Nothing is wrong with a configuration exactly where both identifiers are given,
/// messages live, some transport is on, retries wait for some time that does not
/// shrink and is bounded, Bloom filters that are used have a size, encryption that
/// is required is on, and queues and groups hold something.
pub proof fn a_configuration_is_valid_where_it_can_work(config: ProtocolConfig)
    ensures
        config.fault() is None <==> {
            let retry = config.reliability.retry;
            let dedup = config.reliability.dedup;
            let queue = config.encryption.pending_queue;
            &&& config.app_id@.len() > 0 && config.user_id@.len() > 0
            &&& config.initial_ttl > 0
            &&& config.transport.ble_enabled || config.transport.wifi_direct_enabled
                || config.transport.internet_enabled || config.transport.reticulum_enabled
                || config.transport.nostr_enabled
            &&& 0 < retry.initial_delay_ms <= retry.max_delay_ms
            &&& 0x3ff0_0000_0000_0000 <= retry.backoff_multiplier_bits < 0x7ff0_0000_0000_0000
            &&& dedup.use_bloom_filter ==> dedup.bloom_filter_bits > 0 && dedup.bloom_hash_count > 0
                && dedup.bloom_filter_count > 0 && dedup.bloom_rotation_secs > 0
            &&& config.encryption.require_encryption ==> config.encryption.enabled
            &&& 0 < queue.max_pending_per_peer <= queue.max_pending_global
            &&& queue.pending_ttl_ms > 0
            &&& config.group.max_group_members > 0
        },
{
}

/// Builder for [`ProtocolConfig`] with a fluent API.
pub struct ProtocolConfigBuilder {
    config: ProtocolConfig,
}

impl ProtocolConfigBuilder {
    /// The configuration as set so far.
    pub closed spec fn draft(&self) -> ProtocolConfig {
        self.config
    }

    /// Creates a new builder.
    pub fn new(app_id: &str, user_id: &str) -> (r: Self)
        ensures
            r.draft().app_id@ == app_id@,
            r.draft().user_id@ == user_id@,
            r.draft().is_default(),
    {
        ProtocolConfigBuilder { config: ProtocolConfig::new(app_id, user_id) }
    }

    /// Configures transports.
    pub fn transport(self, config: TransportConfig) -> (r: Self)
        ensures
            r.draft() == (ProtocolConfig { transport: config, ..self.draft() }),
    {
        let mut draft = self.config;
        draft.transport = config;
        ProtocolConfigBuilder { config: draft }
    }

    /// Enables or disables BLE transport.
    pub fn ble_enabled(self, enabled: bool) -> (r: Self)
        ensures
            r.draft() == (ProtocolConfig { transport: TransportConfig { ble_enabled: enabled, ..self.draft().transport }, ..self.draft() }),
    {
        let mut draft = self.config;
        draft.transport.ble_enabled = enabled;
        ProtocolConfigBuilder { config: draft }
    }

    /// Enables or disables Wi-Fi Direct transport.
    pub fn wifi_direct_enabled(self, enabled: bool) -> (r: Self)
        ensures
            r.draft() == (ProtocolConfig { transport: TransportConfig { wifi_direct_enabled: enabled, ..self.draft().transport }, ..self.draft() }),
    {
        let mut draft = self.config;
        draft.transport.wifi_direct_enabled = enabled;
        ProtocolConfigBuilder { config: draft }
    }

    /// Enables or disables Internet transport.
    pub fn internet_enabled(self, enabled: bool) -> (r: Self)
        ensures
            r.draft() == (ProtocolConfig { transport: TransportConfig { internet_enabled: enabled, ..self.draft().transport }, ..self.draft() }),
    {
        let mut draft = self.config;
        draft.transport.internet_enabled = enabled;
        ProtocolConfigBuilder { config: draft }
    }

    /// Enables or disables Nostr relay transport.
    pub fn nostr_enabled(self, enabled: bool) -> (r: Self)
        ensures
            r.draft() == (ProtocolConfig { transport: TransportConfig { nostr_enabled: enabled, ..self.draft().transport }, ..self.draft() }),
    {
        let mut draft = self.config;
        draft.transport.nostr_enabled = enabled;
        ProtocolConfigBuilder { config: draft }
    }

    /// Configures transport selection.
    pub fn dors(self, config: DorsConfig) -> (r: Self)
        ensures
            r.draft() == (ProtocolConfig { dors: config, ..self.draft() }),
    {
        let mut draft = self.config;
        draft.dors = config;
        ProtocolConfigBuilder { config: draft }
    }

    /// Enables online-first mode (prefer Internet when available).
    pub fn online_first(self, enabled: bool) -> (r: Self)
        ensures
            r.draft() == (ProtocolConfig { dors: DorsConfig { prefer_online: enabled, ..self.draft().dors }, ..self.draft() }),
    {
        let mut draft = self.config;
        draft.dors.prefer_online = enabled;
        ProtocolConfigBuilder { config: draft }
    }

    /// Configures relay management.
    pub fn relay(self, config: RelayConfig) -> (r: Self)
        ensures
            r.draft() == (ProtocolConfig { relay: config, ..self.draft() }),
    {
        let mut draft = self.config;
        draft.relay = config;
        ProtocolConfigBuilder { config: draft }
    }

    /// Configures path selection.
    pub fn path(self, config: PathConfig) -> (r: Self)
        ensures
            r.draft() == (ProtocolConfig { path: config, ..self.draft() }),
    {
        let mut draft = self.config;
        draft.path = config;
        ProtocolConfigBuilder { config: draft }
    }

    /// Configures reliability layer.
    pub fn reliability(self, config: ReliabilityConfig) -> (r: Self)
        ensures
            r.draft() == (ProtocolConfig { reliability: config, ..self.draft() }),
    {
        let mut draft = self.config;
        draft.reliability = config;
        ProtocolConfigBuilder { config: draft }
    }

    /// Sets the initial time-to-live of messages.
    pub fn initial_ttl(self, ttl: u8) -> (r: Self)
        ensures
            r.draft() == (ProtocolConfig { initial_ttl: ttl, ..self.draft() }),
    {
        let mut draft = self.config;
        draft.initial_ttl = ttl;
        ProtocolConfigBuilder { config: draft }
    }

    /// Configures encryption settings.
    pub fn encryption(self, config: EncryptionConfig) -> (r: Self)
        ensures
            r.draft() == (ProtocolConfig { encryption: config, ..self.draft() }),
    {
        let mut draft = self.config;
        draft.encryption = config;
        ProtocolConfigBuilder { config: draft }
    }

    /// Enables or disables automatic encryption.
    pub fn encryption_enabled(self, enabled: bool) -> (r: Self)
        ensures
            r.draft() == (ProtocolConfig { encryption: EncryptionConfig { enabled: enabled, ..self.draft().encryption }, ..self.draft() }),
    {
        let mut draft = self.config;
        draft.encryption.enabled = enabled;
        ProtocolConfigBuilder { config: draft }
    }

    /// Enables or disables automatic key exchange on peer discovery.
    pub fn auto_key_exchange(self, enabled: bool) -> (r: Self)
        ensures
            r.draft() == (ProtocolConfig { encryption: EncryptionConfig { auto_key_exchange: enabled, ..self.draft().encryption }, ..self.draft() }),
    {
        let mut draft = self.config;
        draft.encryption.auto_key_exchange = enabled;
        ProtocolConfigBuilder { config: draft }
    }

    /// Enables or disables storing pending messages for later encryption.
    pub fn store_pending_messages(self, enabled: bool) -> (r: Self)
        ensures
            r.draft() == (ProtocolConfig { encryption: EncryptionConfig { store_pending: enabled, ..self.draft().encryption }, ..self.draft() }),
    {
        let mut draft = self.config;
        draft.encryption.store_pending = enabled;
        ProtocolConfigBuilder { config: draft }
    }

    /// Enables or disables strict encryption requirement.
    pub fn require_encryption(self, required: bool) -> (r: Self)
        ensures
            r.draft() == (ProtocolConfig { encryption: EncryptionConfig { require_encryption: required, ..self.draft().encryption }, ..self.draft() }),
    {
        let mut draft = self.config;
        draft.encryption.require_encryption = required;
        ProtocolConfigBuilder { config: draft }
    }

    /// Configures pending encrypted message queue bounds and overflow behavior.
    pub fn pending_queue(self, config: PendingQueueConfig) -> (r: Self)
        ensures
            r.draft() == (ProtocolConfig { encryption: EncryptionConfig { pending_queue: config, ..self.draft().encryption }, ..self.draft() }),
    {
        let mut draft = self.config;
        draft.encryption.pending_queue = config;
        ProtocolConfigBuilder { config: draft }
    }

    /// Configures group messaging settings.
    pub fn group(self, config: GroupConfig) -> (r: Self)
        ensures
            r.draft() == (ProtocolConfig { group: config, ..self.draft() }),
    {
        let mut draft = self.config;
        draft.group = config;
        ProtocolConfigBuilder { config: draft }
    }

    /// Sets the maximum number of members allowed in a single group.
    pub fn max_group_members(self, max: usize) -> (r: Self)
        ensures
            r.draft() == (ProtocolConfig { group: GroupConfig { max_group_members: max, ..self.draft().group }, ..self.draft() }),
    {
        let mut draft = self.config;
        draft.group.max_group_members = max;
        ProtocolConfigBuilder { config: draft }
    }

    /// Sets whether groups should attempt relay server registration.
    pub fn group_relay_enabled(self, enabled: bool) -> (r: Self)
        ensures
            r.draft() == (ProtocolConfig { group: GroupConfig { relay_enabled: enabled, ..self.draft().group }, ..self.draft() }),
    {
        let mut draft = self.config;
        draft.group.relay_enabled = enabled;
        ProtocolConfigBuilder { config: draft }
    }

    /// Configures security settings.
    pub fn security(self, config: SecurityConfig) -> (r: Self)
        ensures
            r.draft() == (ProtocolConfig { security: config, ..self.draft() }),
    {
        let mut draft = self.config;
        draft.security = config;
        ProtocolConfigBuilder { config: draft }
    }

    /// Sets whether transport identity is required for control messages.
    pub fn require_transport_identity(self, required: bool) -> (r: Self)
        ensures
            r.draft() == (ProtocolConfig { security: SecurityConfig { require_transport_identity: required, ..self.draft().security }, ..self.draft() }),
    {
        let mut draft = self.config;
        draft.security.require_transport_identity = required;
        ProtocolConfigBuilder { config: draft }
    }

    /// Builds and validates the configuration.
    pub fn build(self) -> (r: Result<ProtocolConfig, Error>)
        ensures
            match r {
                Ok(config) => config == self.draft() && self.draft().fault() is None,
                Err(e) => e matches Error::InvalidConfiguration(text) && self.draft().fault()
                    == Some(text@),
            },
    {
        match self.config.validate() {
            Ok(_) => Ok(self.config),
            Err(e) => Err(e),
        }
    }
}

} // verus!
