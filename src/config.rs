use vstd::prelude::*;
use crate::text::{chars_of, opt_string_view, same_opt_string, starts_with, str_eq};

verus! {

/// Everything that controls transmission.
#[derive(Debug, Clone)]
pub struct CollectorConfig {
    /// Master switch.
    pub enabled: bool,
    /// WebSocket endpoint, `ws://` or `wss://`.
    pub server_url: String,
    /// Authentication endpoint, `http://` or `https://`.
    pub auth_url: String,
    pub user_name: String,
    pub user_id: String,
    pub org_name: String,
    pub org_id: String,
    pub account_id: String,
    /// Events per batch that force a send.
    pub batch_max_size: usize,
    /// Seconds after which a non-empty batch is sent.
    pub batch_max_interval_seconds: u64,
    /// Consecutive failed reconnections before the long cooldown.
    pub retry_max_attempts: u32,
    /// First reconnection delay, in milliseconds.
    pub retry_backoff_base_ms: u64,
    /// Factor by which the reconnection delay grows per attempt, in
    /// thousandths (2000 is a factor of 2.0).
    pub retry_backoff_multiplier_milli: u32,
    /// Upper bound of the reconnection delay, in seconds.
    pub retry_max_delay_seconds: u64,
    /// Capacity of the offline queue, in batches.
    pub offline_queue_max_batches: usize,
    /// Seconds between keepalive pings.
    pub websocket_keepalive_seconds: u64,
    /// Seconds allowed for opening a connection.
    pub connection_timeout_seconds: u64,
    /// Flush the batch when the user goes away.
    pub flush_on_afk: bool,
    /// Reconnect on its own after a disconnect.
    pub auto_reconnect: bool,
    /// Credential of the host application, sent along when fetching a token.
    pub app_jwt_token: Option<String>,
}

/// The identity fields are present and at most 64 characters each.
pub open spec fn identity_ok(s: Seq<char>) -> bool {
    0 < s.len() <= 64
}

pub open spec fn has_prefix(s: Seq<char>, p: Seq<char>) -> bool {
    p.len() <= s.len() && s.take(p.len() as int) == p
}

impl CollectorConfig {
    /// The rules a configuration must meet.
    pub open spec fn valid(&self) -> bool {
        &&& self.enabled ==> {
            &&& identity_ok(self.user_name@)
            &&& identity_ok(self.user_id@)
            &&& identity_ok(self.org_name@)
            &&& identity_ok(self.org_id@)
            &&& identity_ok(self.account_id@)
        }
        &&& has_prefix(self.server_url@, "ws://"@) || has_prefix(self.server_url@, "wss://"@)
        &&& has_prefix(self.auth_url@, "http://"@) || has_prefix(self.auth_url@, "https://"@)
        &&& 10 <= self.batch_max_size <= 10000
        &&& 10 <= self.batch_max_interval_seconds <= 3600
        &&& 1 <= self.retry_max_attempts <= 20
        &&& 1000 <= self.retry_backoff_multiplier_milli <= 10000
    }

    /// Fields whose change needs a new connection.
    pub open spec fn same_connection(&self, other: &CollectorConfig) -> bool {
        &&& self.enabled == other.enabled
        &&& self.server_url@ == other.server_url@
        &&& self.auth_url@ == other.auth_url@
        &&& self.user_name@ == other.user_name@
        &&& self.user_id@ == other.user_id@
        &&& self.org_name@ == other.org_name@
        &&& self.org_id@ == other.org_id@
        &&& self.account_id@ == other.account_id@
        &&& opt_string_view(self.app_jwt_token) == opt_string_view(other.app_jwt_token)
    }

    /// Whether moving to `other` needs a restart: a connection or identity
    /// field differs. Batch, retry and keepalive settings apply in place.
    pub fn needs_restart(&self, other: &CollectorConfig) -> (r: bool)
        ensures
            r == !self.same_connection(other),
    {
        !(self.enabled == other.enabled
            && str_eq(&self.server_url, &other.server_url)
            && str_eq(&self.auth_url, &other.auth_url)
            && str_eq(&self.user_name, &other.user_name)
            && str_eq(&self.user_id, &other.user_id)
            && str_eq(&self.org_name, &other.org_name)
            && str_eq(&self.org_id, &other.org_id)
            && str_eq(&self.account_id, &other.account_id)
            && same_opt_string(&self.app_jwt_token, &other.app_jwt_token))
    }

    /// Check the configuration; the error names the first rule broken.
    pub fn validate(&self) -> (r: Result<(), String>)
        ensures
            r is Ok <==> self.valid(),
    {
        if self.enabled {
            if let Err(e) = check_identity(&self.user_name, "user_name is required when collector is enabled",
                "user_name must be 64 characters or less") {
                return Err(e);
            }
            if let Err(e) = check_identity(&self.user_id, "user_id is required when collector is enabled",
                "user_id must be 64 characters or less") {
                return Err(e);
            }
            if let Err(e) = check_identity(&self.org_name, "org_name is required when collector is enabled",
                "org_name must be 64 characters or less") {
                return Err(e);
            }
            if let Err(e) = check_identity(&self.org_id, "org_id is required when collector is enabled",
                "org_id must be 64 characters or less") {
                return Err(e);
            }
            if let Err(e) = check_identity(&self.account_id, "account_id is required when collector is enabled",
                "account_id must be 64 characters or less") {
                return Err(e);
            }
        }
        if !starts_with(self.server_url.as_str(), "ws://") && !starts_with(self.server_url.as_str(), "wss://") {
            return Err(String::from_str("server_url must start with ws:// or wss://"));
        }
        if !starts_with(self.auth_url.as_str(), "http://") && !starts_with(self.auth_url.as_str(), "https://") {
            return Err(String::from_str("auth_url must start with http:// or https://"));
        }
        if self.batch_max_size < 10 || self.batch_max_size > 10000 {
            return Err(String::from_str("batch_max_size must be between 10 and 10000"));
        }
        if self.batch_max_interval_seconds < 10 || self.batch_max_interval_seconds > 3600 {
            return Err(String::from_str("batch_max_interval_seconds must be between 10 and 3600"));
        }
        if self.retry_max_attempts < 1 || self.retry_max_attempts > 20 {
            return Err(String::from_str("retry_max_attempts must be between 1 and 20"));
        }
        if self.retry_backoff_multiplier_milli < 1000 || self.retry_backoff_multiplier_milli > 10000 {
            return Err(String::from_str("retry_backoff_multiplier must be between 1.0 and 10.0"));
        }
        Ok(())
    }

    /// Every field but the identity fields and the credential equal.
    pub open spec fn same_runtime(&self, other: &CollectorConfig) -> bool {
        &&& self.enabled == other.enabled
        &&& self.server_url == other.server_url
        &&& self.auth_url == other.auth_url
        &&& self.batch_max_size == other.batch_max_size
        &&& self.batch_max_interval_seconds == other.batch_max_interval_seconds
        &&& self.retry_max_attempts == other.retry_max_attempts
        &&& self.retry_backoff_base_ms == other.retry_backoff_base_ms
        &&& self.retry_backoff_multiplier_milli == other.retry_backoff_multiplier_milli
        &&& self.retry_max_delay_seconds == other.retry_max_delay_seconds
        &&& self.offline_queue_max_batches == other.offline_queue_max_batches
        &&& self.websocket_keepalive_seconds == other.websocket_keepalive_seconds
        &&& self.connection_timeout_seconds == other.connection_timeout_seconds
        &&& self.flush_on_afk == other.flush_on_afk
        &&& self.auto_reconnect == other.auto_reconnect
    }

    /// The identity fields set to the local defaults.
    pub open spec fn local_identity(&self) -> bool {
        &&& self.user_name@ == "Local"@
        &&& self.user_id@ == "0"@
        &&& self.org_name@ == "Local"@
        &&& self.org_id@ == "0"@
        &&& self.account_id@ == "0"@
    }

    /// Put the local defaults into the identity fields; the rest stays.
    pub fn enforce_local_identity(&mut self)
        ensures
            final(self).local_identity(),
            final(self).same_runtime(&*old(self)),
            final(self).app_jwt_token == old(self).app_jwt_token,
    {
        self.user_name = String::from_str("Local");
        self.user_id = String::from_str("0");
        self.org_name = String::from_str("Local");
        self.org_id = String::from_str("0");
        self.account_id = String::from_str("0");
    }
}

fn check_identity(value: &String, missing: &str, too_long: &str) -> (r: Result<(), String>)
    ensures
        r is Ok <==> identity_ok(value@),
{
    if value.as_str().is_empty() {
        return Err(String::from_str(missing));
    }
    if chars_of(value.as_str()).len() > 64 {
        return Err(String::from_str(too_long));
    }
    Ok(())
}

impl Default for CollectorConfig {
    /// Disabled, against a local server, with the local identity.
    fn default() -> (r: Self)
        ensures
            !r.enabled,
            r.server_url@ == "ws://localhost:8080/time-series"@,
            r.auth_url@ == "http://localhost:8080/mock-auth"@,
            r.local_identity(),
            r.batch_max_size == 100,
            r.batch_max_interval_seconds == 60,
            r.retry_max_attempts == 5,
            r.retry_backoff_base_ms == 1000,
            r.retry_backoff_multiplier_milli == 2000,
            r.retry_max_delay_seconds == 60,
            r.offline_queue_max_batches == 1000,
            r.websocket_keepalive_seconds == 30,
            r.connection_timeout_seconds == 10,
            r.flush_on_afk,
            r.auto_reconnect,
            r.app_jwt_token is None,
    {
        CollectorConfig {
            enabled: false,
            server_url: String::from_str("ws://localhost:8080/time-series"),
            auth_url: String::from_str("http://localhost:8080/mock-auth"),
            user_name: String::from_str("Local"),
            user_id: String::from_str("0"),
            org_name: String::from_str("Local"),
            org_id: String::from_str("0"),
            account_id: String::from_str("0"),
            batch_max_size: 100,
            batch_max_interval_seconds: 60,
            retry_max_attempts: 5,
            retry_backoff_base_ms: 1000,
            retry_backoff_multiplier_milli: 2000,
            retry_max_delay_seconds: 60,
            offline_queue_max_batches: 1000,
            websocket_keepalive_seconds: 30,
            connection_timeout_seconds: 10,
            flush_on_afk: true,
            auto_reconnect: true,
            app_jwt_token: None,
        }
    }
}

/// The configuration in effect while the collector runs, held in memory.
pub struct ConfigCache {
    pub cached: Option<CollectorConfig>,
}

impl ConfigCache {
    /// An empty cache.
    pub fn new() -> (r: Self)
        ensures
            r.cached is None,
    {
        ConfigCache { cached: None }
    }

    /// Cache `config` with the local identity enforced.
    pub fn init_cache(&mut self, config: CollectorConfig)
        ensures
            final(self).cached is Some,
            final(self).cached->Some_0.local_identity(),
            final(self).cached->Some_0.same_runtime(&config),
            final(self).cached->Some_0.app_jwt_token == config.app_jwt_token,
    {
        let mut c = config;
        c.enforce_local_identity();
        self.cached = Some(c);
    }

    /// Replace the cached configuration as it is (a hot update).
    pub fn update_cache(&mut self, config: CollectorConfig)
        ensures
            final(self).cached == Some(config),
    {
        self.cached = Some(config);
    }

    /// Replace the host application's credential without a restart; an
    /// empty cache stays empty.
    pub fn update_app_jwt_token(&mut self, token: Option<String>)
        ensures
            old(self).cached is None ==> final(self).cached is None,
            old(self).cached is Some ==> final(self).cached is Some
                && final(self).cached->Some_0.app_jwt_token == token
                && final(self).cached->Some_0.same_runtime(&old(self).cached->Some_0)
                && final(self).cached->Some_0.user_name == old(self).cached->Some_0.user_name
                && final(self).cached->Some_0.user_id == old(self).cached->Some_0.user_id
                && final(self).cached->Some_0.org_name == old(self).cached->Some_0.org_name
                && final(self).cached->Some_0.org_id == old(self).cached->Some_0.org_id
                && final(self).cached->Some_0.account_id == old(self).cached->Some_0.account_id,
    {
        match &mut self.cached {
            Some(c) => {
                c.app_jwt_token = token;
            },
            None => {},
        }
    }

    /// The cached configuration, if any.
    pub fn get_cached_config(&self) -> (r: Option<&CollectorConfig>)
        ensures
            match self.cached {
                Some(c) => r == Some(&c),
                None => r is None,
            },
    {
        match &self.cached {
            Some(c) => Some(c),
            None => None,
        }
    }

    /// Empty the cache.
    pub fn clear_cache(&mut self)
        ensures
            final(self).cached is None,
    {
        self.cached = None;
    }

    /// Whether a configuration is cached and enabled.
    pub fn is_enabled(&self) -> (r: bool)
        ensures
            r == (self.cached is Some && self.cached->Some_0.enabled),
    {
        match &self.cached {
            Some(c) => c.enabled,
            None => false,
        }
    }

    /// Whether a configuration is cached, enabled, and asks to flush when the user goes away.
    pub fn should_flush_on_afk(&self) -> (r: bool)
        ensures
            r == (self.cached is Some && self.cached->Some_0.enabled && self.cached->Some_0.flush_on_afk),
    {
        match &self.cached {
            Some(c) => c.enabled && c.flush_on_afk,
            None => false,
        }
    }
}

/// What applying a new configuration takes.
#[derive(Debug, Clone, Copy, PartialEq, Eq, Structural)]
pub enum ConfigUpdate {
    /// Nothing changed.
    Unchanged,
    /// Not running: cache the new configuration, and start if it is enabled.
    CacheAndMaybeStart,
    /// Running, and a connection field changed: stop, cache, start again if enabled.
    Restart,
    /// Running, and only runtime settings changed: cache it in place.
    HotUpdate,
}

impl CollectorConfig {
    /// Every field equal.
    pub open spec fn same_settings(&self, other: &CollectorConfig) -> bool {
        &&& self.same_connection(other)
        &&& self.batch_max_size == other.batch_max_size
        &&& self.batch_max_interval_seconds == other.batch_max_interval_seconds
        &&& self.retry_max_attempts == other.retry_max_attempts
        &&& self.retry_backoff_base_ms == other.retry_backoff_base_ms
        &&& self.retry_backoff_multiplier_milli == other.retry_backoff_multiplier_milli
        &&& self.retry_max_delay_seconds == other.retry_max_delay_seconds
        &&& self.offline_queue_max_batches == other.offline_queue_max_batches
        &&& self.websocket_keepalive_seconds == other.websocket_keepalive_seconds
        &&& self.connection_timeout_seconds == other.connection_timeout_seconds
        &&& self.flush_on_afk == other.flush_on_afk
        &&& self.auto_reconnect == other.auto_reconnect
    }

    /// Whether every field equals `other`'s.
    pub fn same_as(&self, other: &CollectorConfig) -> (r: bool)
        ensures
            r == self.same_settings(other),
    {
        !self.needs_restart(other)
            && self.batch_max_size == other.batch_max_size
            && self.batch_max_interval_seconds == other.batch_max_interval_seconds
            && self.retry_max_attempts == other.retry_max_attempts
            && self.retry_backoff_base_ms == other.retry_backoff_base_ms
            && self.retry_backoff_multiplier_milli == other.retry_backoff_multiplier_milli
            && self.retry_max_delay_seconds == other.retry_max_delay_seconds
            && self.offline_queue_max_batches == other.offline_queue_max_batches
            && self.websocket_keepalive_seconds == other.websocket_keepalive_seconds
            && self.connection_timeout_seconds == other.connection_timeout_seconds
            && self.flush_on_afk == other.flush_on_afk
            && self.auto_reconnect == other.auto_reconnect
    }
}

/// Decide how to apply `new` over the cached `current` configuration.
pub fn plan_config_update(current: Option<&CollectorConfig>, new: &CollectorConfig, running: bool) -> (r: ConfigUpdate)
    ensures
        match current {
            Some(c) => if c.same_settings(new) {
                r == ConfigUpdate::Unchanged
            } else if !running {
                r == ConfigUpdate::CacheAndMaybeStart
            } else if !c.same_connection(new) {
                r == ConfigUpdate::Restart
            } else {
                r == ConfigUpdate::HotUpdate
            },
            None => r == if running { ConfigUpdate::Restart } else { ConfigUpdate::CacheAndMaybeStart },
        },
{
    match current {
        Some(c) => {
            if c.same_as(new) {
                ConfigUpdate::Unchanged
            } else if !running {
                ConfigUpdate::CacheAndMaybeStart
            } else if c.needs_restart(new) {
                ConfigUpdate::Restart
            } else {
                ConfigUpdate::HotUpdate
            }
        },
        None => if running { ConfigUpdate::Restart } else { ConfigUpdate::CacheAndMaybeStart },
    }
}

} // verus!
