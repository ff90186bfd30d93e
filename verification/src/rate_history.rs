//! What the rate limiter answers, over the calls that were made on one state.
//!
//! The counters of [`Limits`] are the frames and bytes of each source's current
//! window, its bans follow the calls that went over a limit, and a cleanup shows in
//! no later answer.
use crate::rate_limiter;
use crate::rate_limiter::{Dimension, Limits, RateLimitConfig, RateLimiter, Verdict};
use crate::time;
use std::time::Duration;
use vstd::prelude::*;

verus! {

/// What a limit counts by.
pub enum Scope {
    Connection,
    Ip,
}

/// A call on a limiter: a frame to check and record, or the question whether an IP
/// is banned.
pub enum Call {
    Check { connection: Seq<char>, ip: Seq<char>, now: u128, len: u64 },
    Ask { ip: Seq<char>, now: u128 },
}

/// What a call returns.
pub enum Answer {
    Checked(Verdict),
    Asked(bool),
}

impl Call {
    /// The moment of the call.
    pub open spec fn time(self) -> u128 {
        match self {
            Call::Check { now, .. } => now,
            Call::Ask { now, .. } => now,
        }
    }

    /// The source that the call's frame counts for.
    pub open spec fn source(self, scope: Scope) -> Option<Seq<char>> {
        match self {
            Call::Check { connection, ip, .. } => Some(
                match scope {
                    Scope::Connection => connection,
                    Scope::Ip => ip,
                },
            ),
            Call::Ask { .. } => None,
        }
    }

    /// The bytes of the call's frame.
    pub open spec fn frame_len(self) -> u64 {
        match self {
            Call::Check { len, .. } => len,
            Call::Ask { .. } => 0,
        }
    }
}

impl RateLimiter {
    /// The limit of a scope.
    pub open spec fn limit(self, scope: Scope) -> Option<RateLimitConfig> {
        match scope {
            Scope::Connection => self.connection,
            Scope::Ip => self.ip,
        }
    }
}

impl Limits {
    /// What is recorded of a scope.
    pub open spec fn dimension(self, scope: Scope) -> Dimension {
        match scope {
            Scope::Connection => self.connections,
            Scope::Ip => self.ips,
        }
    }

    /// What a call returns.
    pub open spec fn answer(self, call: Call) -> Answer {
        match call {
            Call::Check { connection, ip, now, len } => Answer::Checked(
                self.check(connection, ip, now, len).1,
            ),
            Call::Ask { ip, now } => Answer::Asked(self.ips.banned(ip, now)),
        }
    }

    /// The state after a call.
    pub open spec fn after_call(self, call: Call) -> Limits {
        match call {
            Call::Check { connection, ip, now, len } => self.check(connection, ip, now, len).0,
            Call::Ask { ip, now } => Limits { ips: self.ips.without_expired(ip, now), ..self },
        }
    }
}

/// The state that [`RateLimiter::build`] gives, on which no call was made.
pub open spec fn unused(config: RateLimiter) -> Limits {
    Limits {
        config,
        connections: Dimension {
            counters: rate_limiter::no_counters(),
            bans: rate_limiter::no_bans(),
        },
        ips: Dimension { counters: rate_limiter::no_counters(), bans: rate_limiter::no_bans() },
    }
}

/// The state after calls that were made one after another.
pub open spec fn after(start: Limits, calls: Seq<Call>) -> Limits
    decreases calls.len(),
{
    if calls.len() == 0 {
        start
    } else {
        after(start, calls.drop_last()).after_call(calls.last())
    }
}

/// The answer to the call at `i`.
pub open spec fn answer_at(start: Limits, calls: Seq<Call>, i: int) -> Answer {
    after(start, calls.take(i)).answer(calls[i])
}

/// The call at `i` recorded a frame of the source: one that was not rejected as
/// banned.
pub open spec fn records(
    config: RateLimiter,
    calls: Seq<Call>,
    scope: Scope,
    key: Seq<char>,
    i: int,
) -> bool {
    &&& 0 <= i < calls.len()
    &&& calls[i].source(scope) == Some(key)
    &&& answer_at(unused(config), calls, i) != Answer::Checked(Verdict::Banned)
}

/// The number of frames recorded of the source since the call at `from`.
pub open spec fn messages(
    config: RateLimiter,
    calls: Seq<Call>,
    scope: Scope,
    key: Seq<char>,
    from: int,
) -> nat
    decreases calls.len(),
{
    if calls.len() == 0 || calls.len() <= from {
        0
    } else {
        messages(config, calls.drop_last(), scope, key, from) + if records(
            config,
            calls,
            scope,
            key,
            calls.len() - 1,
        ) {
            1nat
        } else {
            0
        }
    }
}

/// The bytes of the frames recorded of the source since the call at `from`.
pub open spec fn bytes(
    config: RateLimiter,
    calls: Seq<Call>,
    scope: Scope,
    key: Seq<char>,
    from: int,
) -> nat
    decreases calls.len(),
{
    if calls.len() == 0 || calls.len() <= from {
        0
    } else {
        bytes(config, calls.drop_last(), scope, key, from) + if records(
            config,
            calls,
            scope,
            key,
            calls.len() - 1,
        ) {
            calls.last().frame_len() as nat
        } else {
            0
        }
    }
}

/// The call that began the source's current window: the first frame recorded of it,
/// and then each that came a period or more after the window before it began.
pub open spec fn opening(
    config: RateLimiter,
    calls: Seq<Call>,
    scope: Scope,
    key: Seq<char>,
    period: nat,
) -> Option<int>
    decreases calls.len(),
{
    if calls.len() == 0 {
        None
    } else {
        let last: int = calls.len() - 1;
        let earlier = opening(config, calls.drop_last(), scope, key, period);
        if !records(config, calls, scope, key, last) {
            earlier
        } else {
            match earlier {
                Some(first) => if rate_limiter::since(calls[first].time(), calls[last].time())
                    >= period {
                    Some(last)
                } else {
                    Some(first)
                },
                None => Some(last),
            }
        }
    }
}

/// A count as a counter holds it: at most `u64::MAX`.
pub open spec fn capped(n: nat) -> u64 {
    if n > u64::MAX {
        u64::MAX
    } else {
        n as u64
    }
}

/// A count is over a maximum. One of `u64::MAX` limits nothing.
pub open spec fn over(n: nat, max: Option<u64>) -> bool {
    max matches Some(max) && max < u64::MAX && n > max
}

/// With the last call its source is over the scope's limit: the frames or the bytes
/// of its current window are over a maximum, or the frame is the first recorded of
/// the source and no bytes are allowed.
pub open spec fn last_is_over(config: RateLimiter, calls: Seq<Call>, scope: Scope) -> bool {
    &&& calls.len() > 0
    &&& config.limit(scope) matches Some(limit)
    &&& calls.last().source(scope) matches Some(key)
    &&& opening(config, calls, scope, key, time::nanos(limit.period)) matches Some(first)
    &&& {
        ||| over(messages(config, calls, scope, key, first), limit.max_messages)
        ||| over(bytes(config, calls, scope, key, first), limit.max_bytes)
        ||| limit.max_bytes == Some(0u64) && forall|i: int|
            0 <= i < calls.len() - 1 ==> !#[trigger] records(config, calls, scope, key, i)
    }
}

/// The call at `i` recorded a frame of the source and put it over the scope's limit.
pub open spec fn trips_at(
    config: RateLimiter,
    calls: Seq<Call>,
    scope: Scope,
    key: Seq<char>,
    i: int,
) -> bool {
    records(config, calls, scope, key, i) && last_is_over(config, calls.take(i + 1), scope)
}

/// A ban of the source lasts at `now`: one of the calls put it over the scope's limit,
/// and less than the ban's duration has passed since.
pub open spec fn ban_lasts(
    config: RateLimiter,
    calls: Seq<Call>,
    scope: Scope,
    key: Seq<char>,
    now: u128,
) -> bool {
    config.ban_duration matches Some(ban) && exists|i: int| #[trigger]
        trips_at(config, calls, scope, key, i) && now < calls[i].time() + time::nanos(ban)
}

/// The calls were made in the order of their times, none after `now`.
pub open spec fn in_order(calls: Seq<Call>, now: u128) -> bool {
    &&& forall|i: int, j: int|
        0 <= i <= j < calls.len() ==> (#[trigger] calls[i]).time() <= (#[trigger] calls[j]).time()
    &&& forall|i: int| 0 <= i < calls.len() ==> (#[trigger] calls[i]).time() <= now
}

/// The calls were made in the order of their times, none before `at`.
pub open spec fn in_order_from(calls: Seq<Call>, at: u128) -> bool {
    &&& forall|i: int, j: int|
        0 <= i <= j < calls.len() ==> (#[trigger] calls[i]).time() <= (#[trigger] calls[j]).time()
    &&& forall|i: int| 0 <= i < calls.len() ==> at <= (#[trigger] calls[i]).time()
}

proof fn lemma_prefix(
    config: RateLimiter,
    calls: Seq<Call>,
    scope: Scope,
    key: Seq<char>,
    i: int,
)
    requires
        0 <= i < calls.len() - 1,
    ensures
        records(config, calls.drop_last(), scope, key, i) == records(config, calls, scope, key, i),
        trips_at(config, calls.drop_last(), scope, key, i) == trips_at(
            config,
            calls,
            scope,
            key,
            i,
        ),
{
    assert(calls.drop_last().take(i) =~= calls.take(i));
    assert(calls.drop_last().take(i + 1) =~= calls.take(i + 1));
}

proof fn lemma_config_kept(start: Limits, calls: Seq<Call>)
    ensures
        after(start, calls).config == start.config,
    decreases calls.len(),
{
    if calls.len() > 0 {
        lemma_config_kept(start, calls.drop_last());
    }
}

proof fn lemma_counter_step(limits: Limits, call: Call, scope: Scope, key: Seq<char>)
    ensures
        ({
            let counter = limits.dimension(scope).counter(key);
            limits.after_call(call).dimension(scope).counter(key) == if call.source(scope) == Some(
                key,
            ) && limits.answer(call) != Answer::Checked(Verdict::Banned) && limits.config.limit(
                scope,
            ) is Some {
                Some(
                    rate_limiter::recorded(
                        counter,
                        limits.config.limit(scope)->Some_0,
                        call.time(),
                        call.frame_len(),
                    ),
                )
            } else {
                counter
            }
        }),
{
}

/// The counter of a source is that of its current window: when the window began, and
/// the frames and bytes recorded of the source since, held at `u64::MAX` where there
/// are more. There is no counter exactly where no frame of the source was recorded.
pub proof fn lemma_counter_is_current_window(
    config: RateLimiter,
    calls: Seq<Call>,
    scope: Scope,
    key: Seq<char>,
)
    requires
        config.limit(scope) is Some,
    ensures
        ({
            let period: nat = time::nanos(config.limit(scope)->Some_0.period);
            after(unused(config), calls).dimension(scope).counter(key) == match opening(
                config,
                calls,
                scope,
                key,
                period,
            ) {
                Some(first) => Some(
                    (
                        calls[first].time(),
                        capped(messages(config, calls, scope, key, first)),
                        capped(bytes(config, calls, scope, key, first)),
                    ),
                ),
                None => None,
            }
        }),
        opening(
            config,
            calls,
            scope,
            key,
            time::nanos(config.limit(scope)->Some_0.period),
        ) matches Some(first) ==> records(config, calls, scope, key, first),
        opening(config, calls, scope, key, time::nanos(config.limit(scope)->Some_0.period)) is None
            <==> forall|i: int|
            0 <= i < calls.len() ==> !#[trigger] records(config, calls, scope, key, i),
    decreases calls.len(),
{
    if calls.len() > 0 {
        let period: nat = time::nanos(config.limit(scope)->Some_0.period);
        let last: int = calls.len() - 1;
        let earlier = calls.drop_last();
        lemma_counter_is_current_window(config, earlier, scope, key);
        lemma_config_kept(unused(config), earlier);
        lemma_counter_step(after(unused(config), earlier), calls.last(), scope, key);
        assert(calls.take(last) =~= earlier);
        assert forall|i: int| 0 <= i < last implies #[trigger] records(
            config,
            earlier,
            scope,
            key,
            i,
        ) == records(config, calls, scope, key, i) by {
            lemma_prefix(config, calls, scope, key, i);
        }
        assert(messages(config, earlier, scope, key, last) == 0);
        assert(bytes(config, earlier, scope, key, last) == 0);
        match opening(config, earlier, scope, key, period) {
            Some(first) => {
                assert(records(config, earlier, scope, key, first));
                assert(records(config, calls, scope, key, first));
                assert(earlier[first] == calls[first]);
            },
            None => {
                if !records(config, calls, scope, key, last) {
                    assert forall|i: int| 0 <= i < calls.len() implies !#[trigger] records(
                        config,
                        calls,
                        scope,
                        key,
                        i,
                    ) by {
                        if i < last {
                            assert(records(config, earlier, scope, key, i) == records(
                                config,
                                calls,
                                scope,
                                key,
                                i,
                            ));
                        }
                    }
                }
            },
        }
    }
}

proof fn lemma_over_is_limited(config: RateLimiter, calls: Seq<Call>, scope: Scope)
    requires
        calls.len() > 0,
        calls.last() is Check,
        answer_at(unused(config), calls, calls.len() - 1) != Answer::Checked(Verdict::Banned),
    ensures
        last_is_over(config, calls, scope) == after(
            unused(config),
            calls.drop_last(),
        ).dimension(scope).limits(
            config.limit(scope),
            calls.last().source(scope)->Some_0,
            calls.last().time(),
            calls.last().frame_len(),
        ),
{
    if config.limit(scope) is Some {
        let key = calls.last().source(scope)->Some_0;
        let earlier = calls.drop_last();
        lemma_counter_is_current_window(config, calls, scope, key);
        lemma_counter_is_current_window(config, earlier, scope, key);
        lemma_config_kept(unused(config), earlier);
        assert(calls.take(calls.len() - 1) =~= earlier);
        lemma_counter_step(after(unused(config), earlier), calls.last(), scope, key);
        assert forall|i: int| 0 <= i < calls.len() - 1 implies #[trigger] records(
            config,
            earlier,
            scope,
            key,
            i,
        ) == records(config, calls, scope, key, i) by {
            lemma_prefix(config, calls, scope, key, i);
        }
        assert forall|i: int| 0 <= i < calls.len() - 1 implies #[trigger] records(
            config,
            calls,
            scope,
            key,
            i,
        ) == records(config, earlier, scope, key, i) by {
            lemma_prefix(config, calls, scope, key, i);
        }
    }
}

/// A frame that is not rejected as banned is limited if and only if with it its
/// connection or its IP is over the limit of that scope, and allowed otherwise.
pub proof fn lemma_limited_iff_over(config: RateLimiter, calls: Seq<Call>)
    requires
        calls.len() > 0,
        calls.last() is Check,
        answer_at(unused(config), calls, calls.len() - 1) != Answer::Checked(Verdict::Banned),
    ensures
        answer_at(unused(config), calls, calls.len() - 1) == Answer::Checked(
            if last_is_over(config, calls, Scope::Connection) || last_is_over(
                config,
                calls,
                Scope::Ip,
            ) {
                Verdict::Limited
            } else {
                Verdict::Allowed
            },
        ),
{
    lemma_over_is_limited(config, calls, Scope::Connection);
    lemma_over_is_limited(config, calls, Scope::Ip);
    lemma_config_kept(unused(config), calls.drop_last());
    assert(calls.take(calls.len() - 1) =~= calls.drop_last());
}

/// A source is banned exactly while the ban of an earlier call lasts that put it over
/// the limit: from that call on until the ban's duration has passed. Calls that were
/// rejected as banned record nothing and so put nothing over a limit: they do not
/// lengthen the ban. Without a ban duration nothing is ever banned.
pub proof fn lemma_banned_iff_tripped(
    config: RateLimiter,
    calls: Seq<Call>,
    scope: Scope,
    key: Seq<char>,
    now: u128,
)
    requires
        in_order(calls, now),
        now <= time::MAX_NANOS,
        config.ban_duration matches Some(ban) ==> time::nanos(ban) <= time::MAX_NANOS,
    ensures
        after(unused(config), calls).dimension(scope).banned(key, now) == ban_lasts(
            config,
            calls,
            scope,
            key,
            now,
        ),
    decreases calls.len(),
{
    if calls.len() > 0 {
        let last: int = calls.len() - 1;
        let earlier = calls.drop_last();
        let before = after(unused(config), earlier);
        let call = calls.last();
        assert(earlier =~= calls.take(last));
        assert(calls =~= calls.take(last + 1));
        assert(calls[last] == call);
        assert(in_order(earlier, now) && in_order(earlier, call.time())) by {
            assert forall|i: int| 0 <= i < earlier.len() implies (#[trigger] earlier[i]).time()
                <= call.time() && earlier[i] == calls[i] by {
                assert(calls[i].time() <= calls[last].time());
            }
        }
        lemma_banned_iff_tripped(config, earlier, scope, key, now);
        lemma_banned_iff_tripped(config, earlier, scope, key, call.time());
        lemma_config_kept(unused(config), earlier);
        if records(config, calls, scope, key, last) {
            lemma_over_is_limited(config, calls, scope);
        }
        lemma_ban_step(before, call, scope, key, now);
        if let Some(ban) = config.ban_duration {
            assert forall|i: int| #[trigger] trips_at(config, earlier, scope, key, i) implies
                trips_at(config, calls, scope, key, i) && calls[i] == earlier[i] by {
                lemma_prefix(config, calls, scope, key, i);
            }
            assert forall|i: int| i != last && #[trigger] trips_at(
                config,
                calls,
                scope,
                key,
                i,
            ) implies trips_at(config, earlier, scope, key, i) && calls[i] == earlier[i] by {
                lemma_prefix(config, calls, scope, key, i);
            }
            assert(trips_at(config, calls, scope, key, last) == (records(
                config,
                calls,
                scope,
                key,
                last,
            ) && last_is_over(config, calls, scope)));
        }
    }
}

proof fn lemma_ban_step(limits: Limits, call: Call, scope: Scope, key: Seq<char>, now: u128)
    requires
        call.time() <= now <= time::MAX_NANOS,
        limits.config.ban_duration matches Some(ban) ==> time::nanos(ban) <= time::MAX_NANOS,
    ensures
        ({
            let counted = call.source(scope) == Some(key) && limits.answer(call)
                != Answer::Checked(Verdict::Banned);
            let trips = counted && limits.dimension(scope).limits(
                limits.config.limit(scope),
                key,
                call.time(),
                call.frame_len(),
            );
            &&& counted ==> !limits.dimension(scope).banned(key, call.time())
            &&& limits.after_call(call).dimension(scope).banned(key, now)
                == match limits.config.ban_duration {
                Some(ban) if trips => now < call.time() + time::nanos(ban),
                _ => limits.dimension(scope).banned(key, now),
            }
        }),
{
}

/// A frame is rejected as banned if and only if the ban of its connection or of its
/// IP lasts, and an IP is said to be banned if and only if its ban lasts.
pub proof fn lemma_banned_answer(config: RateLimiter, calls: Seq<Call>)
    requires
        calls.len() > 0,
        in_order(calls, calls.last().time()),
        calls.last().time() <= time::MAX_NANOS,
        config.ban_duration matches Some(ban) ==> time::nanos(ban) <= time::MAX_NANOS,
    ensures
        ({
            let answer = answer_at(unused(config), calls, calls.len() - 1);
            let earlier = calls.drop_last();
            let now: u128 = calls.last().time();
            match calls.last() {
                Call::Check { connection, ip, .. } => answer == Answer::Checked(Verdict::Banned)
                    <==> ban_lasts(config, earlier, Scope::Connection, connection, now)
                    || ban_lasts(config, earlier, Scope::Ip, ip, now),
                Call::Ask { ip, .. } => answer == Answer::Asked(
                    ban_lasts(config, earlier, Scope::Ip, ip, now),
                ),
            }
        }),
{
    let earlier = calls.drop_last();
    let now: u128 = calls.last().time();
    assert(calls.take(calls.len() - 1) =~= earlier);
    assert(in_order(earlier, now)) by {
        assert forall|i: int| 0 <= i < earlier.len() implies (#[trigger] earlier[i]).time() <= now
            && earlier[i] == calls[i] by {
            assert(calls[i].time() <= now);
        }
    }
    match calls.last() {
        Call::Check { connection, ip, .. } => {
            lemma_banned_iff_tripped(config, earlier, Scope::Connection, connection, now);
            lemma_banned_iff_tripped(config, earlier, Scope::Ip, ip, now);
        },
        Call::Ask { ip, .. } => {
            lemma_banned_iff_tripped(config, earlier, Scope::Ip, ip, now);
        },
    }
}

/// From `at` on the second dimension is as good as the first: the same sources are
/// banned, and its counters are the same but for some that are missing and whose
/// window has elapsed.
pub open spec fn as_good_from(
    dimension: Dimension,
    other: Dimension,
    limit: Option<RateLimitConfig>,
    at: u128,
) -> bool {
    &&& forall|key: Seq<char>, now: u128|
        at <= now ==> #[trigger] dimension.banned(key, now) == other.banned(key, now)
    &&& limit matches Some(limit) ==> forall|key: Seq<char>|
        {
            ||| #[trigger] dimension.counter(key) == other.counter(key)
            ||| other.counter(key) is None && (dimension.counter(key) matches Some(counter)
                && rate_limiter::since(counter.0, at) >= time::nanos(limit.period))
        }
}

/// The limiter tells the first frame of a source from others only where it allows no
/// bytes at all.
pub open spec fn allows_bytes(config: RateLimiter) -> bool {
    &&& config.connection matches Some(limit) ==> limit.max_bytes != Some(0u64)
    &&& config.ip matches Some(limit) ==> limit.max_bytes != Some(0u64)
}

proof fn lemma_frame_keeps_as_good(
    dimension: Dimension,
    other: Dimension,
    limit: Option<RateLimitConfig>,
    ban: Option<Duration>,
    key: Seq<char>,
    at: u128,
    now: u128,
    len: u64,
)
    requires
        at <= now,
        as_good_from(dimension, other, limit, at),
        limit matches Some(limit) ==> limit.max_bytes != Some(0u64),
    ensures
        as_good_from(
            dimension.without_expired(key, now),
            other.without_expired(key, now),
            limit,
            now,
        ),
        dimension.without_expired(key, now).limits(limit, key, now, len)
            == other.without_expired(key, now).limits(limit, key, now, len),
        as_good_from(
            dimension.without_expired(key, now).after_frame(limit, ban, key, now, len),
            other.without_expired(key, now).after_frame(limit, ban, key, now, len),
            limit,
            now,
        ),
{
    let before = dimension.without_expired(key, now);
    let other_before = other.without_expired(key, now);
    assert(dimension.banned(key, now) == other.banned(key, now));
    assert forall|k: Seq<char>, t: u128| now <= t implies #[trigger] before.banned(k, t)
        == other_before.banned(k, t) by {
        assert(dimension.banned(k, t) == other.banned(k, t));
    }
    if let Some(limit) = limit {
        assert forall|k: Seq<char>|
            {
                ||| #[trigger] before.counter(k) == other_before.counter(k)
                ||| other_before.counter(k) is None && (before.counter(k) matches Some(counter)
                    && rate_limiter::since(counter.0, now) >= time::nanos(limit.period))
            } by {
            assert(before.counter(k) == dimension.counter(k));
            assert(other_before.counter(k) == other.counter(k));
        }
        let after = before.after_frame(Some(limit), ban, key, now, len);
        let other_after = other_before.after_frame(Some(limit), ban, key, now, len);
        assert(rate_limiter::recorded(before.counter(key), limit, now, len)
            == rate_limiter::recorded(other_before.counter(key), limit, now, len));
        assert forall|k: Seq<char>, t: u128| now <= t implies #[trigger] after.banned(k, t)
            == other_after.banned(k, t) by {
            assert(before.banned(k, t) == other_before.banned(k, t));
        }
        assert forall|k: Seq<char>|
            {
                ||| #[trigger] after.counter(k) == other_after.counter(k)
                ||| other_after.counter(k) is None && (after.counter(k) matches Some(counter)
                    && rate_limiter::since(counter.0, now) >= time::nanos(limit.period))
            } by {
            if k != key {
                assert(after.counter(k) == before.counter(k));
                assert(other_after.counter(k) == other_before.counter(k));
            }
        }
    }
}

proof fn lemma_call_keeps_as_good(limits: Limits, other: Limits, call: Call, at: u128)
    requires
        at <= call.time(),
        other.config == limits.config,
        allows_bytes(limits.config),
        as_good_from(limits.connections, other.connections, limits.config.connection, at),
        as_good_from(limits.ips, other.ips, limits.config.ip, at),
    ensures
        other.answer(call) == limits.answer(call),
        ({
            let after = limits.after_call(call);
            let other_after = other.after_call(call);
            &&& after.config == limits.config
            &&& other_after.config == limits.config
            &&& as_good_from(
                after.connections,
                other_after.connections,
                limits.config.connection,
                call.time(),
            )
            &&& as_good_from(after.ips, other_after.ips, limits.config.ip, call.time())
        }),
{
    let now: u128 = call.time();
    let config = limits.config;
    match call {
        Call::Check { connection, ip, len, .. } => {
            lemma_frame_keeps_as_good(
                limits.connections,
                other.connections,
                config.connection,
                config.ban_duration,
                connection,
                at,
                now,
                len,
            );
            lemma_frame_keeps_as_good(
                limits.ips,
                other.ips,
                config.ip,
                config.ban_duration,
                ip,
                at,
                now,
                len,
            );
            lemma_as_good_later(limits.connections, other.connections, config.connection, at, now);
            lemma_as_good_later(limits.ips, other.ips, config.ip, at, now);
            assert(limits.connections.banned(connection, now) == other.connections.banned(
                connection,
                now,
            ));
            assert(limits.ips.banned(ip, now) == other.ips.banned(ip, now));
        },
        Call::Ask { ip, .. } => {
            lemma_frame_keeps_as_good(
                limits.ips,
                other.ips,
                config.ip,
                config.ban_duration,
                ip,
                at,
                now,
                0,
            );
            lemma_as_good_later(limits.connections, other.connections, config.connection, at, now);
            assert(limits.ips.banned(ip, now) == other.ips.banned(ip, now));
        },
    }
}

proof fn lemma_as_good_later(
    dimension: Dimension,
    other: Dimension,
    limit: Option<RateLimitConfig>,
    at: u128,
    now: u128,
)
    requires
        at <= now,
        as_good_from(dimension, other, limit, at),
    ensures
        as_good_from(dimension, other, limit, now),
{
}

proof fn lemma_cleaned_is_as_good(limits: Limits, at: u128)
    requires
        limits.config.connection matches Some(limit) ==> time::nanos(limit.period)
            <= time::MAX_NANOS,
        limits.config.ip matches Some(limit) ==> time::nanos(limit.period) <= time::MAX_NANOS,
    ensures
        as_good_from(
            limits.connections,
            limits.cleaned(at).connections,
            limits.config.connection,
            at,
        ),
        as_good_from(limits.ips, limits.cleaned(at).ips, limits.config.ip, at),
{
}

proof fn lemma_calls_keep_as_good(limits: Limits, other: Limits, calls: Seq<Call>, at: u128)
    requires
        other.config == limits.config,
        allows_bytes(limits.config),
        as_good_from(limits.connections, other.connections, limits.config.connection, at),
        as_good_from(limits.ips, other.ips, limits.config.ip, at),
        in_order_from(calls, at),
    ensures
        ({
            let until: u128 = if calls.len() == 0 {
                at
            } else {
                calls.last().time()
            };
            let end = after(limits, calls);
            let other_end = after(other, calls);
            &&& end.config == limits.config
            &&& other_end.config == limits.config
            &&& as_good_from(
                end.connections,
                other_end.connections,
                limits.config.connection,
                until,
            )
            &&& as_good_from(end.ips, other_end.ips, limits.config.ip, until)
        }),
    decreases calls.len(),
{
    if calls.len() > 0 {
        let earlier = calls.drop_last();
        let last: int = calls.len() - 1;
        assert(calls[last] == calls.last());
        assert(in_order_from(earlier, at)) by {
            assert forall|i: int| 0 <= i < earlier.len() implies #[trigger] earlier[i]
                == calls[i] by {}
        }
        lemma_calls_keep_as_good(limits, other, earlier, at);
        let until: u128 = if earlier.len() == 0 {
            at
        } else {
            earlier.last().time()
        };
        if earlier.len() > 0 {
            assert(earlier.last() == calls[last - 1]);
            assert(calls[last - 1].time() <= calls[last].time());
        }
        lemma_call_keeps_as_good(
            after(limits, earlier),
            after(other, earlier),
            calls.last(),
            until,
        );
    }
}

/// A cleanup does not show: each later call, a frame or the question whether an IP is
/// banned, is answered as it would have been without it. This holds where a limit on
/// bytes allows some; where it allows none the first frame of a source is told from
/// a later one.
pub proof fn lemma_cleanup_is_unobservable(limits: Limits, at: u128, calls: Seq<Call>, i: int)
    requires
        allows_bytes(limits.config),
        limits.config.connection matches Some(limit) ==> time::nanos(limit.period)
            <= time::MAX_NANOS,
        limits.config.ip matches Some(limit) ==> time::nanos(limit.period) <= time::MAX_NANOS,
        in_order_from(calls, at),
        0 <= i < calls.len(),
    ensures
        answer_at(limits.cleaned(at), calls, i) == answer_at(limits, calls, i),
{
    let earlier = calls.take(i);
    lemma_cleaned_is_as_good(limits, at);
    assert(in_order_from(earlier, at)) by {
        assert forall|j: int| 0 <= j < earlier.len() implies #[trigger] earlier[j] == calls[j] by {}
    }
    lemma_calls_keep_as_good(limits, limits.cleaned(at), earlier, at);
    let until: u128 = if i == 0 {
        at
    } else {
        earlier.last().time()
    };
    if i > 0 {
        assert(earlier.last() == calls[i - 1]);
        assert(calls[i - 1].time() <= calls[i].time());
    }
    lemma_call_keeps_as_good(
        after(limits, earlier),
        after(limits.cleaned(at), earlier),
        calls[i],
        until,
    );
}

} // verus!
