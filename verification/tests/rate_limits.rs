use std::time::Duration;
use wscall::rate_limiter::{RateLimitConfig, RateLimiter, Verdict};

const SECOND: u128 = 1_000_000_000;

fn minute() -> RateLimitConfig {
    RateLimitConfig::new(Duration::from_secs(60))
}

#[test]
fn a_window_admits_the_configured_messages() {
    let mut state = RateLimiter::new().connection(minute().max_messages(3)).build();
    for i in 0..3 {
        assert_eq!(
            state.check_and_record_at("c1", "10.0.0.1", 10, i * SECOND),
            Verdict::Allowed
        );
    }
    for i in 3..6 {
        assert_eq!(
            state.check_and_record_at("c1", "10.0.0.1", 10, i * SECOND),
            Verdict::Limited
        );
    }
    assert_eq!(
        state.check_and_record_at("c2", "10.0.0.1", 10, 6 * SECOND),
        Verdict::Allowed
    );
    assert_eq!(
        state.check_and_record_at("c1", "10.0.0.1", 10, 60 * SECOND - 1),
        Verdict::Limited
    );
    assert_eq!(
        state.check_and_record_at("c1", "10.0.0.1", 10, 60 * SECOND),
        Verdict::Allowed
    );
}

#[test]
fn an_ip_is_limited_over_all_its_connections() {
    let mut state = RateLimiter::new().ip(minute().max_bytes(512)).build();
    assert_eq!(state.check_and_record_at("c1", "ip", 300, 0), Verdict::Allowed);
    assert_eq!(state.check_and_record_at("c2", "ip", 212, 1), Verdict::Allowed);
    assert_eq!(state.check_and_record_at("c3", "ip", 1, 2), Verdict::Limited);
    assert_eq!(state.check_and_record_at("c3", "other", 1, 2), Verdict::Allowed);
}

#[test]
fn a_first_frame_can_be_over_the_byte_limit() {
    let mut state = RateLimiter::new().connection(minute().max_bytes(100)).build();
    assert_eq!(state.check_and_record_at("c", "ip", 101, 0), Verdict::Limited);
    let mut none = RateLimiter::new().connection(minute().max_bytes(0)).build();
    assert_eq!(none.check_and_record_at("c", "ip", 0, 0), Verdict::Limited);
}

#[test]
fn offenders_are_banned_until_the_ban_expires() {
    let mut state = RateLimiter::new()
        .ip(minute().max_messages(1))
        .ban_duration(Duration::from_secs(30))
        .build();
    assert_eq!(state.check_and_record_at("c", "ip", 1, 0), Verdict::Allowed);
    assert!(!state.is_ip_banned_at("ip", 0));
    assert_eq!(state.check_and_record_at("c", "ip", 1, SECOND), Verdict::Limited);
    assert!(state.is_ip_banned_at("ip", 2 * SECOND));
    assert!(!state.is_ip_banned_at("other", 2 * SECOND));
    assert_eq!(
        state.check_and_record_at("c", "ip", 1, 31 * SECOND - 1),
        Verdict::Banned
    );
    assert!(!state.is_ip_banned_at("ip", 31 * SECOND));
    assert_eq!(
        state.check_and_record_at("c", "ip", 1, 61 * SECOND),
        Verdict::Allowed
    );
}

#[test]
fn a_banned_connection_does_not_ban_its_ip() {
    let mut state = RateLimiter::new()
        .connection(minute().max_messages(0))
        .ban_duration(Duration::from_secs(30))
        .build();
    assert_eq!(state.check_and_record_at("c", "ip", 1, 0), Verdict::Limited);
    assert_eq!(state.check_and_record_at("c", "ip", 1, 1), Verdict::Banned);
    assert!(!state.is_ip_banned_at("ip", 1));
}

#[test]
fn banned_frames_are_not_counted() {
    let mut state = RateLimiter::new()
        .connection(minute().max_messages(1))
        .ban_duration(Duration::from_secs(10))
        .build();
    assert_eq!(state.check_and_record_at("c", "ip", 1, 0), Verdict::Allowed);
    assert_eq!(state.check_and_record_at("c", "ip", 1, SECOND), Verdict::Limited);
    for i in 2..11 {
        assert_eq!(
            state.check_and_record_at("c", "ip", 1, i * SECOND),
            Verdict::Banned
        );
    }
    assert_eq!(
        state.check_and_record_at("c", "ip", 1, 60 * SECOND),
        Verdict::Allowed
    );
}

#[test]
fn cleanup_changes_no_verdict() {
    let limiter = RateLimiter::new()
        .connection(RateLimitConfig::new(Duration::from_secs(2)).max_messages(2))
        .ban_duration(Duration::from_secs(10));
    let mut cleaned = limiter.build();
    let mut plain = limiter.build();
    for i in 0..40 {
        let now = i * SECOND / 2;
        cleaned.cleanup_at(now);
        assert_eq!(
            cleaned.check_and_record_at("c", "ip", 5, now),
            plain.check_and_record_at("c", "ip", 5, now)
        );
    }
}

#[test]
fn cleanup_interval_is_the_shortest_period() {
    let secs = |s: u64| RateLimitConfig::new(Duration::from_secs(s));
    let interval = |limiter: RateLimiter| limiter.build().cleanup_interval();
    assert_eq!(interval(RateLimiter::new()), Duration::from_secs(5));
    assert_eq!(
        interval(RateLimiter::new().connection(secs(10)).ip(secs(7))),
        Duration::from_secs(7)
    );
    assert_eq!(
        interval(RateLimiter::new().connection(secs(3))),
        Duration::from_secs(3)
    );
    assert_eq!(
        interval(
            RateLimiter::new().ip(RateLimitConfig::new(Duration::from_millis(10)))
        ),
        Duration::from_secs(1)
    );
}

#[test]
fn the_clock_drives_the_untimed_checks() {
    let mut state = RateLimiter::default()
        .connection(RateLimitConfig::new(Duration::from_secs(3600)).max_messages(1))
        .ip(RateLimitConfig::new(Duration::from_secs(3600)).max_messages(1))
        .ban_duration(Duration::from_secs(3600))
        .build();
    assert_eq!(state.check_and_record("c", "ip", 1), Verdict::Allowed);
    assert!(!state.is_ip_banned("ip"));
    assert_eq!(state.check_and_record("c", "ip", 1), Verdict::Limited);
    state.cleanup();
    assert_eq!(state.check_and_record("c", "ip", 1), Verdict::Banned);
    assert!(state.is_ip_banned("ip"));
}

#[test]
fn without_limits_everything_is_allowed() {
    let mut state = RateLimiter::new().build();
    for i in 0..100 {
        assert_eq!(
            state.check_and_record_at("c", "ip", usize::MAX, i),
            Verdict::Allowed
        );
    }
}

#[test]
fn bytes_are_counted_anew_in_each_window() {
    let mut state = RateLimiter::new().connection(minute().max_bytes(100)).build();
    assert_eq!(state.check_and_record_at("c", "ip", 60, 5 * SECOND), Verdict::Allowed);
    assert_eq!(state.check_and_record_at("c", "ip", 40, 6 * SECOND), Verdict::Allowed);
    assert_eq!(state.check_and_record_at("c", "ip", 1, 7 * SECOND), Verdict::Limited);
    assert_eq!(state.check_and_record_at("c", "ip", 0, 65 * SECOND - 1), Verdict::Limited);
    assert_eq!(state.check_and_record_at("c", "ip", 100, 65 * SECOND), Verdict::Allowed);
    assert_eq!(state.check_and_record_at("c", "ip", 1, 125 * SECOND - 1), Verdict::Limited);
    assert_eq!(state.check_and_record_at("c", "ip", 101, 125 * SECOND), Verdict::Limited);
}

#[test]
fn one_frame_counts_for_its_connection_and_its_ip() {
    let mut state = RateLimiter::new()
        .connection(minute().max_messages(2))
        .ip(minute().max_messages(3))
        .build();
    assert_eq!(state.check_and_record_at("c1", "ip", 1, 0), Verdict::Allowed);
    assert_eq!(state.check_and_record_at("c1", "ip", 1, 1), Verdict::Allowed);
    assert_eq!(state.check_and_record_at("c1", "ip", 1, 2), Verdict::Limited);
    assert_eq!(state.check_and_record_at("c2", "ip", 1, 3), Verdict::Limited);
    assert_eq!(state.check_and_record_at("c2", "other", 1, 4), Verdict::Allowed);
    assert_eq!(state.check_and_record_at("c2", "other", 1, 5), Verdict::Limited);
}

#[test]
fn a_ban_lasts_exactly_its_duration() {
    let mut state = RateLimiter::new()
        .connection(minute().max_messages(1))
        .ban_duration(Duration::from_secs(10))
        .build();
    assert_eq!(state.check_and_record_at("c", "ip", 1, 0), Verdict::Allowed);
    assert_eq!(state.check_and_record_at("c", "ip", 1, SECOND), Verdict::Limited);
    assert_eq!(state.check_and_record_at("c", "ip", 1, SECOND), Verdict::Banned);
    assert_eq!(state.check_and_record_at("c", "ip", 1, 11 * SECOND - 1), Verdict::Banned);
    assert_eq!(state.check_and_record_at("c", "ip", 1, 11 * SECOND), Verdict::Limited);
    assert_eq!(state.check_and_record_at("c", "ip", 1, 21 * SECOND - 1), Verdict::Banned);
    let mut unbanned = RateLimiter::new().connection(minute().max_messages(0)).build();
    for i in 0..5 {
        assert_eq!(unbanned.check_and_record_at("c", "ip", 1, i), Verdict::Limited);
        assert!(!unbanned.is_ip_banned_at("ip", i));
    }
}

#[test]
fn one_cleanup_shows_in_no_later_answer() {
    let limiter = RateLimiter::new()
        .connection(RateLimitConfig::new(Duration::from_secs(2)).max_messages(2))
        .ip(RateLimitConfig::new(Duration::from_secs(3)).max_bytes(40))
        .ban_duration(Duration::from_secs(4));
    for moment in 0..30 {
        let mut cleaned = limiter.build();
        let mut plain = limiter.build();
        for i in 0..60 {
            let now = i * SECOND / 2;
            if i == moment {
                cleaned.cleanup_at(now);
            }
            let connection = if i % 7 < 4 { "a" } else { "b" };
            assert_eq!(
                cleaned.check_and_record_at(connection, "ip", 5, now),
                plain.check_and_record_at(connection, "ip", 5, now)
            );
            assert_eq!(
                cleaned.is_ip_banned_at("ip", now),
                plain.is_ip_banned_at("ip", now)
            );
        }
    }
}
