//! Configurable rate limiting for inbound traffic.
//!
//! The [`RateLimiter`] supports per-connection and per-IP limits on both message
//! frequency and cumulative byte volume within a fixed time window. When a
//! threshold is exceeded the limiter can ban the offender for a configurable
//! duration.
use crate::rate_history;
use crate::time;
use crate::time::{clock_reading, elapsed_since};
use dashmap::DashMap;
use std::time::{Duration, Instant};
use vstd::prelude::*;

verus! {

/// Per-dimension rate limit configuration.
///
/// At least one of `max_messages` / `max_bytes` must be set for the dimension to
/// have any effect.
#[derive(Debug, Clone, Copy)]
pub struct RateLimitConfig {
    /// The time window over which counters are accumulated. Once the window
    /// elapses, counters reset to zero.
    pub period: Duration,
    /// Maximum number of inbound messages allowed per window. `None` means no
    /// message-count limit.
    pub max_messages: Option<u64>,
    /// Maximum cumulative inbound bytes allowed per window. `None` means no
    /// byte-volume limit.
    pub max_bytes: Option<u64>,
}

impl RateLimitConfig {
    /// Creates a config with the given period and no limits.
    pub fn new(period: Duration) -> (config: Self)
        ensures
            config == (RateLimitConfig { period, max_messages: None, max_bytes: None }),
    {
        RateLimitConfig { period, max_messages: None, max_bytes: None }
    }

    /// Sets the maximum message count per window.
    pub fn max_messages(self, max: u64) -> (config: Self)
        ensures
            config == (RateLimitConfig { max_messages: Some(max), ..self }),
    {
        RateLimitConfig { max_messages: Some(max), ..self }
    }

    /// Sets the maximum cumulative byte volume per window.
    pub fn max_bytes(self, max: u64) -> (config: Self)
        ensures
            config == (RateLimitConfig { max_bytes: Some(max), ..self }),
    {
        RateLimitConfig { max_bytes: Some(max), ..self }
    }
}

/// Builder for configuring server-wide rate limiting.
#[derive(Debug, Clone, Copy)]
pub struct RateLimiter {
    /// Per-connection rate limit configuration.
    pub connection: Option<RateLimitConfig>,
    /// Per-IP rate limit configuration (aggregates all connections from the same
    /// IP address).
    pub ip: Option<RateLimitConfig>,
    /// Duration for which an offender is banned after exceeding a threshold.
    /// `None` means rate limiting is enforced only within the window.
    pub ban_duration: Option<Duration>,
}

impl Default for RateLimiter {
    fn default() -> (limiter: Self)
        ensures
            limiter == (RateLimiter { connection: None, ip: None, ban_duration: None }),
    {
        Self::new()
    }
}

impl RateLimiter {
    /// Creates an empty rate limiter with no limits configured.
    pub fn new() -> (limiter: Self)
        ensures
            limiter == (RateLimiter { connection: None, ip: None, ban_duration: None }),
    {
        RateLimiter { connection: None, ip: None, ban_duration: None }
    }

    /// Enables per-connection rate limiting.
    pub fn connection(self, config: RateLimitConfig) -> (limiter: Self)
        ensures
            limiter == (RateLimiter { connection: Some(config), ..self }),
    {
        RateLimiter { connection: Some(config), ..self }
    }

    /// Enables per-IP rate limiting.
    pub fn ip(self, config: RateLimitConfig) -> (limiter: Self)
        ensures
            limiter == (RateLimiter { ip: Some(config), ..self }),
    {
        RateLimiter { ip: Some(config), ..self }
    }

    /// Sets the ban duration applied when a threshold is exceeded.
    pub fn ban_duration(self, duration: Duration) -> (limiter: Self)
        ensures
            limiter == (RateLimiter { ban_duration: Some(duration), ..self }),
    {
        RateLimiter { ban_duration: Some(duration), ..self }
    }

    /// Builds the state that the server checks inbound frames with.
    pub fn build(self) -> (state: RateLimiterState)
        ensures
            state@ == rate_history::unused(self),
            state.latest() == 0,
    {
        RateLimiterState {
            config: self,
            connections: Tables { counters: new_counters(), bans: new_bans() },
            ips: Tables { counters: new_counters(), bans: new_bans() },
            origin: clock_reading(),
            latest: Duration::from_secs(0),
        }
    }
}

/// The verdict returned by a rate limit check.
#[derive(Debug, Clone, Copy, PartialEq, Eq, Structural)]
pub enum Verdict {
    /// The message is within limits and may be processed.
    Allowed,
    /// A threshold was exceeded; the message should be rejected.
    Limited,
    /// The source is currently banned; the message should be rejected.
    Banned,
}

/// `dashmap::DashMap`, a hash map with interior locking.
#[verifier::external_type_specification]
#[verifier::external_body]
#[verifier::reject_recursive_types(K)]
#[verifier::reject_recursive_types(V)]
#[verifier::reject_recursive_types(S)]
pub struct ExDashMap<K, V, S>(dashmap::DashMap<K, V, S>);

/// The window counters that a map holds: of each source the start of its window,
/// the messages and the bytes in it.
pub uninterp spec fn counters_in(map: DashMap<String, (u128, u64, u64)>) -> Map<
    Seq<char>,
    (u128, u64, u64),
>;

/// The ban expiries that a map holds.
pub uninterp spec fn bans_in(map: DashMap<String, u128>) -> Map<Seq<char>, u128>;

/// No counter at all.
pub open spec fn no_counters() -> Map<Seq<char>, (u128, u64, u64)> {
    Map::empty()
}

/// No ban at all.
pub open spec fn no_bans() -> Map<Seq<char>, u128> {
    Map::empty()
}

/// `DashMap::new`: a map without entries.
#[verifier::external_body]
fn new_counters() -> (map: DashMap<String, (u128, u64, u64)>)
    ensures
        counters_in(map) == no_counters(),
{
    DashMap::new()
}

/// `DashMap::get`: the value at a key, copied out of the guard.
#[verifier::external_body]
fn get_counter(map: &DashMap<String, (u128, u64, u64)>, key: &str) -> (r: Option<(u128, u64, u64)>)
    ensures
        r == if counters_in(*map).dom().contains(key@) {
            Some(counters_in(*map)[key@])
        } else {
            None
        },
{
    map.get(key).map(|entry| *entry)
}

/// `DashMap::insert`: sets the value at a key. The exclusive borrow rules out other
/// handles on the map.
#[verifier::external_body]
fn set_counter(map: &mut DashMap<String, (u128, u64, u64)>, key: String, value: (u128, u64, u64))
    ensures
        counters_in(*final(map)) == counters_in(*old(map)).insert(key@, value),
{
    map.insert(key, value);
}

/// `DashMap::retain`: keeps the entries of which the predicate holds.
#[verifier::external_body]
fn retain_counters(map: &mut DashMap<String, (u128, u64, u64)>, now: u128, threshold: u128)
    ensures
        counters_in(*final(map)) == fresh_counters(counters_in(*old(map)), now, threshold),
{
    map.retain(|_, counter| counter_is_fresh(counter, now, threshold))
}

/// `DashMap::new`: a map without entries.
#[verifier::external_body]
fn new_bans() -> (map: DashMap<String, u128>)
    ensures
        bans_in(map) == no_bans(),
{
    DashMap::new()
}

/// `DashMap::get`: the value at a key, copied out of the guard.
#[verifier::external_body]
fn get_ban(map: &DashMap<String, u128>, key: &str) -> (r: Option<u128>)
    ensures
        r == if bans_in(*map).dom().contains(key@) {
            Some(bans_in(*map)[key@])
        } else {
            None
        },
{
    map.get(key).map(|entry| *entry)
}

/// `DashMap::insert`: sets the value at a key. The exclusive borrow rules out other
/// handles on the map.
#[verifier::external_body]
fn set_ban(map: &mut DashMap<String, u128>, key: String, expiry: u128)
    ensures
        bans_in(*final(map)) == bans_in(*old(map)).insert(key@, expiry),
{
    map.insert(key, expiry);
}

/// `DashMap::remove`: takes the entry at a key out, where there is one.
#[verifier::external_body]
fn remove_ban(map: &mut DashMap<String, u128>, key: &str)
    ensures
        bans_in(*final(map)) == bans_in(*old(map)).remove(key@),
{
    map.remove(key);
}

/// `DashMap::retain`: keeps the entries of which the predicate holds.
#[verifier::external_body]
fn retain_bans(map: &mut DashMap<String, u128>, now: u128)
    ensures
        bans_in(*final(map)) == active_bans(bans_in(*old(map)), now),
{
    map.retain(|_, expiry| ban_is_active(expiry, now))
}

/// Time from `start` to `now`, zero where `now` is not later.
pub open spec fn since(start: u128, now: u128) -> nat {
    if now < start {
        0
    } else {
        (now - start) as nat
    }
}

/// A counter that is younger than the threshold.
pub open spec fn is_fresh(counter: (u128, u64, u64), now: u128, threshold: u128) -> bool {
    since(counter.0, now) < threshold
}

/// The counters that are younger than the threshold.
pub open spec fn fresh_counters(
    counters: Map<Seq<char>, (u128, u64, u64)>,
    now: u128,
    threshold: u128,
) -> Map<Seq<char>, (u128, u64, u64)> {
    counters.restrict(
        Set::new(
            |key: Seq<char>| counters.dom().contains(key) && is_fresh(counters[key], now, threshold),
        ),
    )
}

/// The bans that have not expired.
pub open spec fn active_bans(bans: Map<Seq<char>, u128>, now: u128) -> Map<Seq<char>, u128> {
    bans.restrict(Set::new(|key: Seq<char>| bans.dom().contains(key) && now < bans[key]))
}

fn counter_is_fresh(counter: &(u128, u64, u64), now: u128, threshold: u128) -> (r: bool)
    ensures
        r == is_fresh(*counter, now, threshold),
{
    now.saturating_sub(counter.0) < threshold
}

fn ban_is_active(expiry: &u128, now: u128) -> (r: bool)
    ensures
        r == (now < *expiry),
{
    now < *expiry
}

/// What one dimension (connections or IPs) has recorded.
pub struct Dimension {
    pub counters: Map<Seq<char>, (u128, u64, u64)>,
    pub bans: Map<Seq<char>, u128>,
}

/// What a [`RateLimiterState`] holds.
pub struct Limits {
    pub config: RateLimiter,
    pub connections: Dimension,
    pub ips: Dimension,
}

/// Sum of two counts, at most `u64::MAX`.
pub open spec fn saturating_sum(a: u64, b: u64) -> u64 {
    if a + b > u64::MAX {
        u64::MAX
    } else {
        (a + b) as u64
    }
}

/// The counter after a frame of `len` bytes: one that starts a new window where
/// there was none or its window has elapsed.
pub open spec fn recorded(
    counter: Option<(u128, u64, u64)>,
    config: RateLimitConfig,
    now: u128,
    len: u64,
) -> (u128, u64, u64) {
    match counter {
        Some(counter) => if since(counter.0, now) >= time::nanos(config.period) {
            (now, 1, len)
        } else {
            (counter.0, saturating_sum(counter.1, 1), saturating_sum(counter.2, len))
        },
        None => (now, 1, len),
    }
}

/// The counter is over one of the configured maxima.
pub open spec fn exceeds(counter: (u128, u64, u64), config: RateLimitConfig) -> bool {
    ||| config.max_messages matches Some(max) && counter.1 > max
    ||| config.max_bytes matches Some(max) && counter.2 > max
}

/// A frame is over a limit: the counter is over a maximum, or the frame is the
/// first of its source and no bytes are allowed.
pub open spec fn trips(
    counter: Option<(u128, u64, u64)>,
    config: RateLimitConfig,
    now: u128,
    len: u64,
) -> bool {
    ||| exceeds(recorded(counter, config, now, len), config)
    ||| counter is None && config.max_bytes == Some(0u64)
}

impl Dimension {
    /// The counter of a source.
    pub open spec fn counter(self, key: Seq<char>) -> Option<(u128, u64, u64)> {
        if self.counters.dom().contains(key) {
            Some(self.counters[key])
        } else {
            None
        }
    }

    /// The source is banned at `now`.
    pub open spec fn banned(self, key: Seq<char>, now: u128) -> bool {
        self.bans.dom().contains(key) && now < self.bans[key]
    }

    /// The dimension without the source's ban, where that has expired.
    pub open spec fn without_expired(self, key: Seq<char>, now: u128) -> Dimension {
        if self.banned(key, now) {
            self
        } else {
            Dimension { bans: self.bans.remove(key), ..self }
        }
    }

    /// The dimension after a frame of a source, where the dimension is limited.
    pub open spec fn after_frame(
        self,
        config: Option<RateLimitConfig>,
        ban: Option<Duration>,
        key: Seq<char>,
        now: u128,
        len: u64,
    ) -> Dimension {
        match config {
            None => self,
            Some(config) => Dimension {
                counters: self.counters.insert(
                    key,
                    recorded(self.counter(key), config, now, len),
                ),
                bans: match ban {
                    Some(ban) => if trips(self.counter(key), config, now, len) {
                        self.bans.insert(key, (now + time::nanos(ban)) as u128)
                    } else {
                        self.bans
                    },
                    None => self.bans,
                },
            },
        }
    }

    /// A frame of a source is over a limit of the dimension.
    pub open spec fn limits(
        self,
        config: Option<RateLimitConfig>,
        key: Seq<char>,
        now: u128,
        len: u64,
    ) -> bool {
        config matches Some(config) && trips(self.counter(key), config, now, len)
    }
}

impl Limits {
    /// The verdict on a frame, and the state after it.
    pub open spec fn check(
        self,
        connection: Seq<char>,
        ip: Seq<char>,
        now: u128,
        len: u64,
    ) -> (Limits, Verdict) {
        let connections = self.connections.without_expired(connection, now);
        let ips = self.ips.without_expired(ip, now);
        if self.connections.banned(connection, now) {
            (self, Verdict::Banned)
        } else if self.ips.banned(ip, now) {
            (Limits { connections, ..self }, Verdict::Banned)
        } else {
            let after = Limits {
                config: self.config,
                connections: connections.after_frame(
                    self.config.connection,
                    self.config.ban_duration,
                    connection,
                    now,
                    len,
                ),
                ips: ips.after_frame(
                    self.config.ip,
                    self.config.ban_duration,
                    ip,
                    now,
                    len,
                ),
            };
            let limited = connections.limits(self.config.connection, connection, now, len)
                || ips.limits(self.config.ip, ip, now, len);
            (after, if limited {
                Verdict::Limited
            } else {
                Verdict::Allowed
            })
        }
    }

    /// The age from which on a counter is stale: twice the longest period.
    pub open spec fn stale_after(self) -> nat {
        2 * match (self.config.connection, self.config.ip) {
            (Some(a), Some(b)) => if time::nanos(a.period) < time::nanos(b.period) {
                time::nanos(b.period)
            } else {
                time::nanos(a.period)
            },
            (Some(a), None) => time::nanos(a.period),
            (None, Some(b)) => time::nanos(b.period),
            (None, None) => 60 * time::NANOS_PER_SEC as nat,
        }
    }

    /// The state without stale counters and expired bans.
    pub open spec fn cleaned(self, now: u128) -> Limits {
        let threshold = self.stale_after() as u128;
        Limits {
            config: self.config,
            connections: Dimension {
                counters: fresh_counters(self.connections.counters, now, threshold),
                bans: active_bans(self.connections.bans, now),
            },
            ips: Dimension {
                counters: fresh_counters(self.ips.counters, now, threshold),
                bans: active_bans(self.ips.bans, now),
            },
        }
    }
}

/// The maps of one dimension.
struct Tables {
    /// Source to window counter.
    counters: DashMap<String, (u128, u64, u64)>,
    /// Source to ban expiry.
    bans: DashMap<String, u128>,
}

impl View for Tables {
    type V = Dimension;

    closed spec fn view(&self) -> Dimension {
        Dimension { counters: counters_in(self.counters), bans: bans_in(self.bans) }
    }
}

fn counter_exceeds(counter: &(u128, u64, u64), config: &RateLimitConfig) -> (r: bool)
    ensures
        r == exceeds(*counter, *config),
{
    if let Some(max) = config.max_messages {
        if counter.1 > max {
            return true;
        }
    }
    if let Some(max) = config.max_bytes {
        if counter.2 > max {
            return true;
        }
    }
    false
}

impl Tables {
    /// Whether the source is banned; an expired ban is taken out.
    fn is_banned(&mut self, key: &str, now: u128) -> (r: bool)
        ensures
            r == old(self)@.banned(key@, now),
            final(self)@ == old(self)@.without_expired(key@, now),
    {
        match get_ban(&self.bans, key) {
            Some(expiry) => {
                if now < expiry {
                    return true;
                }
                remove_ban(&mut self.bans, key);
            },
            None => {
                proof {
                    assert(bans_in(self.bans).remove(key@) =~= bans_in(self.bans));
                }
            },
        }
        false
    }

    /// Records a frame of the source and tells whether it is over a limit.
    fn record(
        &mut self,
        config: &Option<RateLimitConfig>,
        ban: &Option<Duration>,
        key: &str,
        now: u128,
        len: u64,
    ) -> (limited: bool)
        requires
            now <= time::MAX_NANOS,
        ensures
            limited == old(self)@.limits(*config, key@, now, len),
            final(self)@ == old(self)@.after_frame(*config, *ban, key@, now, len),
    {
        let config = match config {
            Some(config) => config,
            None => return false,
        };
        let mut limited = false;
        let counter = match get_counter(&self.counters, key) {
            Some(counter) => {
                if now.saturating_sub(counter.0) >= config.period.as_nanos() {
                    (now, 1u64, len)
                } else {
                    (counter.0, counter.1.saturating_add(1), counter.2.saturating_add(len))
                }
            },
            None => {
                if let Some(max) = config.max_bytes {
                    limited = max == 0;
                }
                (now, 1u64, len)
            },
        };
        if counter_exceeds(&counter, config) {
            limited = true;
        }
        set_counter(&mut self.counters, key.to_owned(), counter);
        if limited {
            if let Some(ban) = ban {
                set_ban(&mut self.bans, key.to_owned(), now + ban.as_nanos());
            }
        }
        limited
    }

    fn cleanup(&mut self, now: u128, threshold: u128)
        ensures
            final(self)@ == (Dimension {
                counters: fresh_counters(old(self)@.counters, now, threshold),
                bans: active_bans(old(self)@.bans, now),
            }),
    {
        retain_counters(&mut self.counters, now, threshold);
        retain_bans(&mut self.bans, now);
    }
}

/// Rate limiter state of a server.
///
/// Times are nanoseconds since the state was built. Sources are named by the
/// connection's id and by the text of the peer's IP address.
pub struct RateLimiterState {
    config: RateLimiter,
    connections: Tables,
    ips: Tables,
    origin: Instant,
    /// What the clock last showed: the time never goes back behind it.
    latest: Duration,
}

impl View for RateLimiterState {
    type V = Limits;

    closed spec fn view(&self) -> Limits {
        Limits { config: self.config, connections: self.connections@, ips: self.ips@ }
    }
}

impl RateLimiterState {
    /// The reading of the clock at which the state was built.
    pub closed spec fn origin(self) -> Instant {
        self.origin
    }

    /// The latest time that was read from the clock.
    pub closed spec fn latest(self) -> nat {
        time::nanos(self.latest)
    }

    /// The clock was read between two states, and the latter's latest time is what it
    /// showed: how much had elapsed since the state was built, but no less than what was
    /// read before.
    pub closed spec fn reads_clock(self, after: RateLimiterState) -> bool {
        exists|elapsed: Duration| #[trigger]
            time::has_elapsed(self.origin, elapsed) && after.latest() == if time::nanos(elapsed)
                < self.latest() {
                self.latest()
            } else {
                time::nanos(elapsed)
            }
    }

    /// The time since the state was built. Of two readings the later is no smaller.
    pub fn now(&mut self) -> (now: u128)
        ensures
            now <= time::MAX_NANOS,
            old(self).reads_clock(*final(self)),
            old(self).latest() <= now,
            now == final(self).latest(),
            final(self).origin() == old(self).origin(),
            final(self)@ == old(self)@,
    {
        let elapsed = elapsed_since(&self.origin);
        if self.latest.as_nanos() <= elapsed.as_nanos() {
            self.latest = elapsed;
        }
        self.latest.as_nanos()
    }

    /// Returns `true` if the given IP is currently banned.
    ///
    /// Called before the WebSocket handshake to reject banned clients early.
    pub fn is_ip_banned(&mut self, ip: &str) -> (r: bool)
        ensures
            exists|now: u128|
                {
                    &&& now <= time::MAX_NANOS
                    &&& r == #[trigger] old(self)@.ips.banned(ip@, now)
                    &&& final(self)@ == (Limits {
                        ips: old(self)@.ips.without_expired(ip@, now),
                        ..old(self)@
                    })
                },
            r == old(self)@.ips.banned(ip@, final(self).latest() as u128),
            final(self)@ == (Limits {
                ips: old(self)@.ips.without_expired(ip@, final(self).latest() as u128),
                ..old(self)@
            }),
            old(self).reads_clock(*final(self)),
            old(self).latest() <= final(self).latest() <= time::MAX_NANOS,
            final(self).origin() == old(self).origin(),
    {
        let now: u128 = self.now();
        self.is_ip_banned_at(ip, now)
    }

    /// Returns `true` if the given IP is banned at `now`. An expired ban is taken
    /// out.
    pub fn is_ip_banned_at(&mut self, ip: &str, now: u128) -> (r: bool)
        ensures
            r == old(self)@.ips.banned(ip@, now),
            final(self)@ == (Limits {
                ips: old(self)@.ips.without_expired(ip@, now),
                ..old(self)@
            }),
            final(self).latest() == old(self).latest(),
            final(self).origin() == old(self).origin(),
    {
        self.ips.is_banned(ip, now)
    }

    /// Checks rate limits and records the inbound frame.
    ///
    /// Returns the verdict indicating whether the frame may be processed.
    pub fn check_and_record(&mut self, connection_id: &str, ip: &str, frame_len: usize) -> (verdict:
        Verdict)
        ensures
            exists|now: u128|
                now <= time::MAX_NANOS && (final(self)@, verdict) == #[trigger] old(self)@.check(
                    connection_id@,
                    ip@,
                    now,
                    frame_len as u64,
                ),
            (final(self)@, verdict) == old(self)@.check(
                connection_id@,
                ip@,
                final(self).latest() as u128,
                frame_len as u64,
            ),
            old(self).reads_clock(*final(self)),
            old(self).latest() <= final(self).latest() <= time::MAX_NANOS,
            final(self).origin() == old(self).origin(),
    {
        let now: u128 = self.now();
        self.check_and_record_at(connection_id, ip, frame_len, now)
    }

    /// Checks rate limits and records an inbound frame that came at `now`.
    pub fn check_and_record_at(
        &mut self,
        connection_id: &str,
        ip: &str,
        frame_len: usize,
        now: u128,
    ) -> (verdict: Verdict)
        requires
            now <= time::MAX_NANOS,
        ensures
            (final(self)@, verdict) == old(self)@.check(
                connection_id@,
                ip@,
                now,
                frame_len as u64,
            ),
            final(self).latest() == old(self).latest(),
            final(self).origin() == old(self).origin(),
    {
        if self.connections.is_banned(connection_id, now) {
            return Verdict::Banned;
        }
        if self.ips.is_banned(ip, now) {
            return Verdict::Banned;
        }
        let config = self.config;
        let len: u64 = frame_len as u64;
        let by_connection = self.connections.record(
            &config.connection,
            &config.ban_duration,
            connection_id,
            now,
            len,
        );
        let by_ip = self.ips.record(&config.ip, &config.ban_duration, ip, now, len);
        if by_connection || by_ip {
            Verdict::Limited
        } else {
            Verdict::Allowed
        }
    }

    /// Removes stale counters and expired bans.
    pub fn cleanup(&mut self)
        ensures
            exists|now: u128|
                now <= time::MAX_NANOS && final(self)@ == #[trigger] old(self)@.cleaned(now),
            final(self)@ == old(self)@.cleaned(final(self).latest() as u128),
            old(self).reads_clock(*final(self)),
            old(self).latest() <= final(self).latest() <= time::MAX_NANOS,
            final(self).origin() == old(self).origin(),
    {
        let now: u128 = self.now();
        self.cleanup_at(now)
    }

    /// Removes the counters that are stale and the bans that have expired at `now`.
    pub fn cleanup_at(&mut self, now: u128)
        ensures
            final(self)@ == old(self)@.cleaned(now),
            final(self).latest() == old(self).latest(),
            final(self).origin() == old(self).origin(),
    {
        let longest: u128 = match (self.config.connection, self.config.ip) {
            (Some(a), Some(b)) => {
                if a.period.as_nanos() < b.period.as_nanos() {
                    b.period.as_nanos()
                } else {
                    a.period.as_nanos()
                }
            },
            (Some(a), None) => a.period.as_nanos(),
            (None, Some(b)) => b.period.as_nanos(),
            (None, None) => Duration::from_secs(60).as_nanos(),
        };
        let threshold: u128 = longest * 2;
        self.connections.cleanup(now, threshold);
        self.ips.cleanup(now, threshold);
    }

    /// Returns the cleanup interval: the shortest configured period, 5 s where
    /// there is none, and at least 1 s.
    pub fn cleanup_interval(&self) -> (interval: Duration)
        ensures
            time::nanos(interval) == self@.cleanup_nanos(),
    {
        let shortest = match (self.config.connection, self.config.ip) {
            (Some(a), Some(b)) => {
                if b.period.as_nanos() < a.period.as_nanos() {
                    b.period
                } else {
                    a.period
                }
            },
            (Some(a), None) => a.period,
            (None, Some(b)) => b.period,
            (None, None) => Duration::from_secs(5),
        };
        let least = Duration::from_secs(1);
        if shortest.as_nanos() < least.as_nanos() {
            least
        } else {
            shortest
        }
    }
}

impl Limits {
    /// The cleanup interval in nanoseconds: the shortest configured period, 5 s
    /// where there is none, and at least 1 s.
    pub open spec fn cleanup_nanos(self) -> nat {
        let shortest = match (self.config.connection, self.config.ip) {
            (Some(a), Some(b)) => if time::nanos(b.period) < time::nanos(a.period) {
                time::nanos(b.period)
            } else {
                time::nanos(a.period)
            },
            (Some(a), None) => time::nanos(a.period),
            (None, Some(b)) => time::nanos(b.period),
            (None, None) => 5 * time::NANOS_PER_SEC as nat,
        };
        if shortest < time::NANOS_PER_SEC {
            time::NANOS_PER_SEC as nat
        } else {
            shortest
        }
    }
}

/// A frame that is allowed leaves the counters of its source within the configured
/// maxima.
pub proof fn lemma_allowed_within_limits(
    limits: Limits,
    connection: Seq<char>,
    ip: Seq<char>,
    now: u128,
    len: u64,
)
    requires
        limits.check(connection, ip, now, len).1 == Verdict::Allowed,
    ensures
        ({
            let after = limits.check(connection, ip, now, len).0;
            &&& limits.config.connection matches Some(config) ==> {
                &&& after.connections.counters.dom().contains(connection)
                &&& !exceeds(after.connections.counters[connection], config)
            }
            &&& limits.config.ip matches Some(config) ==> {
                &&& after.ips.counters.dom().contains(ip)
                &&& !exceeds(after.ips.counters[ip], config)
            }
        }),
{
}

/// A frame of a banned source is rejected as such and is not counted.
pub proof fn lemma_banned_is_not_counted(
    limits: Limits,
    connection: Seq<char>,
    ip: Seq<char>,
    now: u128,
    len: u64,
)
    requires
        limits.connections.banned(connection, now) || limits.ips.banned(ip, now),
    ensures
        limits.check(connection, ip, now, len).1 == Verdict::Banned,
        limits.check(connection, ip, now, len).0.connections.counters
            == limits.connections.counters,
        limits.check(connection, ip, now, len).0.ips.counters == limits.ips.counters,
{
}

/// A frame is rejected as banned only where its connection or its IP is banned.
pub proof fn lemma_banned_only_by_ban(
    limits: Limits,
    connection: Seq<char>,
    ip: Seq<char>,
    now: u128,
    len: u64,
)
    requires
        limits.check(connection, ip, now, len).1 == Verdict::Banned,
    ensures
        limits.connections.banned(connection, now) || limits.ips.banned(ip, now),
{
}

/// Where bans are configured, a source that has gone over a limit is banned until
/// the ban's duration has passed.
pub proof fn lemma_limited_then_banned(
    limits: Limits,
    connection: Seq<char>,
    ip: Seq<char>,
    now: u128,
    len: u64,
    later: u128,
    next_len: u64,
)
    requires
        now <= time::MAX_NANOS,
        limits.check(connection, ip, now, len).1 == Verdict::Limited,
        limits.config.ban_duration matches Some(ban) && time::nanos(ban) <= time::MAX_NANOS && later
            < now + time::nanos(ban),
    ensures
        limits.check(connection, ip, now, len).0.check(connection, ip, later, next_len).1
            == Verdict::Banned,
{
}

/// A frame changes nothing that is recorded of other sources.
pub proof fn lemma_other_sources_untouched(
    limits: Limits,
    connection: Seq<char>,
    ip: Seq<char>,
    now: u128,
    len: u64,
    other: Seq<char>,
)
    ensures
        ({
            let after = limits.check(connection, ip, now, len).0;
            &&& other != connection ==> {
                &&& after.connections.counter(other) == limits.connections.counter(other)
                &&& forall|at: u128|
                    after.connections.banned(other, at) == limits.connections.banned(other, at)
            }
            &&& other != ip ==> {
                &&& after.ips.counter(other) == limits.ips.counter(other)
                &&& forall|at: u128| after.ips.banned(other, at) == limits.ips.banned(other, at)
            }
        }),
{
}

/// A cleanup changes no verdict on a frame that comes at that moment: a stale
/// counter would have been reset, and an expired ban does not count. (An empty
/// frame where no bytes are allowed is left out: there the first frame of a source
/// is told from a later one.)
pub proof fn lemma_cleanup_changes_no_verdict(
    limits: Limits,
    connection: Seq<char>,
    ip: Seq<char>,
    now: u128,
    len: u64,
)
    requires
        len > 0,
        limits.config.connection matches Some(config) ==> time::nanos(config.period)
            <= time::MAX_NANOS,
        limits.config.ip matches Some(config) ==> time::nanos(config.period) <= time::MAX_NANOS,
    ensures
        limits.cleaned(now).check(connection, ip, now, len).1 == limits.check(
            connection,
            ip,
            now,
            len,
        ).1,
{
    let cleaned = limits.cleaned(now);
    assert(cleaned.connections.banned(connection, now) == limits.connections.banned(
        connection,
        now,
    ));
    assert(cleaned.ips.banned(ip, now) == limits.ips.banned(ip, now));
    if let Some(config) = limits.config.connection {
        lemma_stale_counter_is_reset(
            limits.connections.counters,
            limits.stale_after() as u128,
            config,
            connection,
            now,
            len,
        );
    }
    if let Some(config) = limits.config.ip {
        lemma_stale_counter_is_reset(
            limits.ips.counters,
            limits.stale_after() as u128,
            config,
            ip,
            now,
            len,
        );
    }
}

proof fn lemma_stale_counter_is_reset(
    counters: Map<Seq<char>, (u128, u64, u64)>,
    threshold: u128,
    config: RateLimitConfig,
    key: Seq<char>,
    now: u128,
    len: u64,
)
    requires
        len > 0,
        time::nanos(config.period) <= threshold,
    ensures
        ({
            let before = Dimension { counters, bans: no_bans() };
            let after = Dimension {
                counters: fresh_counters(counters, now, threshold),
                bans: no_bans(),
            };
            trips(after.counter(key), config, now, len) == trips(
                before.counter(key),
                config,
                now,
                len,
            )
        }),
{
}

/// The state after frames of one source that came at the given times.
pub open spec fn after_frames(
    limits: Limits,
    connection: Seq<char>,
    ip: Seq<char>,
    times: Seq<u128>,
    len: u64,
) -> Limits
    decreases times.len(),
{
    if times.len() == 0 {
        limits
    } else {
        after_frames(limits, connection, ip, times.drop_last(), len).check(
            connection,
            ip,
            times.last(),
            len,
        ).0
    }
}

/// Within one window a connection is allowed exactly as many frames as its limit
/// says: of the frames of a new connection, each that comes within the window of
/// the first is allowed if and only if no more than `max_messages` frames have
/// come with it.
pub proof fn lemma_window_admits_max_messages(
    period: Duration,
    max: u64,
    connection: Seq<char>,
    ip: Seq<char>,
    times: Seq<u128>,
    len: u64,
)
    requires
        0 < times.len() < u64::MAX,
        forall|i: int|
            0 <= i < times.len() ==> times[0] <= #[trigger] times[i] && times[i] - times[0]
                < time::nanos(period),
    ensures
        ({
            let start = message_limited(period, max);
            let verdict = after_frames(start, connection, ip, times.drop_last(), len).check(
                connection,
                ip,
                times.last(),
                len,
            ).1;
            verdict == if times.len() <= max {
                Verdict::Allowed
            } else {
                Verdict::Limited
            }
        }),
{
    lemma_window_counts(period, max, connection, ip, times, len);
    lemma_window_counts(period, max, connection, ip, times.drop_last(), len);
}

/// The state of a new limiter that allows a connection `max` messages per period.
pub open spec fn message_limited(period: Duration, max: u64) -> Limits {
    rate_history::unused(
        RateLimiter {
            connection: Some(
                RateLimitConfig { period, max_messages: Some(max), max_bytes: None },
            ),
            ip: None,
            ban_duration: None,
        },
    )
}

proof fn lemma_window_counts(
    period: Duration,
    max: u64,
    connection: Seq<char>,
    ip: Seq<char>,
    times: Seq<u128>,
    len: u64,
)
    requires
        times.len() < u64::MAX,
        forall|i: int|
            0 <= i < times.len() ==> times[0] <= #[trigger] times[i] && times[i] - times[0]
                < time::nanos(period),
    ensures
        ({
            let after = after_frames(message_limited(period, max), connection, ip, times, len);
            &&& after.config == message_limited(period, max).config
            &&& after.connections.bans =~= no_bans()
            &&& after.ips.bans =~= no_bans()
            &&& if times.len() == 0 {
                after.connections.counter(connection) is None
            } else {
                after.connections.counter(connection) matches Some(counter) && counter.0 == times[0]
                    && counter.1 == times.len()
            }
        }),
    decreases times.len(),
{
    if times.len() > 0 {
        let first = times.drop_last();
        assert(times[times.len() - 1] == times.last());
        assert(times[0] <= times.last());
        assert forall|i: int| 0 <= i < first.len() implies first[0] <= #[trigger] first[i]
            && first[i] - first[0] < time::nanos(period) by {
            assert(first[i] == times[i]);
        }
        lemma_window_counts(period, max, connection, ip, first, len);
    }
}

/// A reading of the clock shows how much time has elapsed since the state was built.
/// It never goes back behind an earlier one: only where the clock did is the earlier
/// one given again.
pub proof fn lemma_reading_is_the_elapsed_time(before: RateLimiterState, after: RateLimiterState)
    requires
        before.reads_clock(after),
    ensures
        before.latest() <= after.latest(),
        exists|elapsed: Duration| #[trigger]
            time::has_elapsed(before.origin(), elapsed) && {
                &&& time::nanos(elapsed) >= before.latest() ==> after.latest() == time::nanos(
                    elapsed,
                )
                &&& time::nanos(elapsed) < before.latest() ==> after.latest() == before.latest()
            },
{
    let elapsed = choose|elapsed: Duration| #[trigger]
        time::has_elapsed(before.origin, elapsed) && after.latest() == if time::nanos(elapsed)
            < before.latest() {
            before.latest()
        } else {
            time::nanos(elapsed)
        };
    assert(time::has_elapsed(before.origin(), elapsed));
}

/// The moment at which a frame is judged lies between what the clock shows before the
/// check and what it shows after it. So two frames with two readings between their
/// checks are judged at least as far apart as the readings are.
///
/// `read` is the state after a reading, `checked` after the check that follows, `read_again`
/// after the next reading; then the same for the later check.
pub proof fn lemma_checks_lie_between_readings(
    read: RateLimiterState,
    checked: RateLimiterState,
    read_again: RateLimiterState,
    later_read: RateLimiterState,
    later_checked: RateLimiterState,
    apart: nat,
)
    requires
        read.reads_clock(checked),
        checked.reads_clock(read_again),
        read_again.latest() + apart <= later_read.latest(),
        later_read.reads_clock(later_checked),
    ensures
        read.latest() <= checked.latest() <= read_again.latest(),
        later_read.latest() <= later_checked.latest(),
        checked.latest() + apart <= later_checked.latest(),
{
}

/// A frame that is judged a full period after another of its connection starts a new
/// window: it alone is counted, whatever came before.
pub proof fn lemma_period_apart_starts_new_window(
    limits: Limits,
    connection: Seq<char>,
    ip: Seq<char>,
    first: u128,
    first_len: u64,
    second: u128,
    second_len: u64,
)
    requires
        limits.config.connection matches Some(config) && first + time::nanos(config.period)
            <= second,
        limits.connections.counter(connection) matches Some(counter) ==> counter.0 <= first,
        limits.check(connection, ip, first, first_len).1 != Verdict::Banned,
        limits.check(connection, ip, first, first_len).0.check(
            connection,
            ip,
            second,
            second_len,
        ).1 != Verdict::Banned,
    ensures
        limits.check(connection, ip, first, first_len).0.check(
            connection,
            ip,
            second,
            second_len,
        ).0.connections.counter(connection) == Some((second, 1u64, second_len)),
{
}

/// A cleanup leaves the counters that began less than twice the longest period ago and
/// the bans that have not ended, and nothing else. With no limit the period is 60 s.
pub proof fn lemma_cleanup_keeps_the_current(
    limits: Limits,
    now: u128,
    source: Seq<char>,
    longest: nat,
)
    requires
        longest <= time::MAX_NANOS,
        match (limits.config.connection, limits.config.ip) {
            (None, None) => longest == 60_000_000_000,
            (a, b) => {
                &&& a matches Some(a) ==> time::nanos(a.period) <= longest
                &&& b matches Some(b) ==> time::nanos(b.period) <= longest
                &&& {
                    ||| a matches Some(a) && time::nanos(a.period) == longest
                    ||| b matches Some(b) && time::nanos(b.period) == longest
                }
            },
        },
    ensures
        limits.cleaned(now).config == limits.config,
        limits.cleaned(now).connections.counter(source) == match limits.connections.counter(source) {
            Some(counter) => if longest > 0 && now < counter.0 + 2 * longest {
                Some(counter)
            } else {
                None
            },
            None => None,
        },
        limits.cleaned(now).ips.counter(source) == match limits.ips.counter(source) {
            Some(counter) => if longest > 0 && now < counter.0 + 2 * longest {
                Some(counter)
            } else {
                None
            },
            None => None,
        },
        limits.cleaned(now).connections.bans.dom().contains(source) <==> (
        limits.connections.bans.dom().contains(source) && now < limits.connections.bans[source]),
        limits.connections.banned(source, now) ==> limits.cleaned(now).connections.bans[source]
            == limits.connections.bans[source],
        limits.cleaned(now).ips.bans.dom().contains(source) <==> (limits.ips.bans.dom().contains(
            source,
        ) && now < limits.ips.bans[source]),
        limits.ips.banned(source, now) ==> limits.cleaned(now).ips.bans[source]
            == limits.ips.bans[source],
{
}

/// The cleanup interval is the shortest of the configured periods, but never under one
/// second; with no limit it is five seconds.
pub proof fn lemma_cleanup_interval(limits: Limits)
    ensures
        limits.cleanup_nanos() >= 1_000_000_000,
        limits.config.connection is None && limits.config.ip is None ==> limits.cleanup_nanos()
            == 5_000_000_000,
        limits.config.connection matches Some(a) ==> limits.cleanup_nanos() <= time::nanos(a.period)
            || limits.cleanup_nanos() == 1_000_000_000,
        limits.config.ip matches Some(b) ==> limits.cleanup_nanos() <= time::nanos(b.period)
            || limits.cleanup_nanos() == 1_000_000_000,
        limits.cleanup_nanos() > 1_000_000_000 && !(limits.config.connection is None
            && limits.config.ip is None) ==> {
            ||| limits.config.connection matches Some(a) && limits.cleanup_nanos() == time::nanos(
                a.period,
            )
            ||| limits.config.ip matches Some(b) && limits.cleanup_nanos() == time::nanos(b.period)
        },
        limits.cleanup_nanos() == 1_000_000_000 ==> {
            ||| limits.config.connection matches Some(a) && time::nanos(a.period) <= 1_000_000_000
            ||| limits.config.ip matches Some(b) && time::nanos(b.period) <= 1_000_000_000
        },
{
}

} // verus!
