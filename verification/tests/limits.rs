use remote_open_power::clock::SECOND;
use remote_open_power::limits::{
    accept_line, ConnectionLimiter, KeyedConnectionLimiter, ListeningGuard, LogThrottle, RateKey,
    RateLimiter,
    ServerMetrics, MAX_CONCURRENT_HANDSHAKES, MAX_CONNECTIONS, MAX_PENDING_HANDSHAKES_PER_IP,
    RATE_WINDOW,
};
use remote_open_power::net::{ip_text, normalize_ip, parse_ip, IpAddress};

fn ip(text: &str) -> IpAddress {
    parse_ip(text).expect("an address")
}

#[test]
fn keyed_connection_quota_releases_on_drop() {
    let mut limiter = KeyedConnectionLimiter::new(2);
    let first = limiter.acquire([1u8; 32]).expect("first slot");
    let _second = limiter.acquire([1; 32]).expect("second slot");
    assert!(limiter.acquire([1; 32]).is_none());
    assert!(limiter.acquire([2; 32]).is_some());
    limiter.release(first);
    assert!(limiter.acquire([1; 32]).is_some());
}

#[test]
fn server_metrics_track_live_connection_permits() {
    let mut metrics = ServerMetrics::with_limit(2);
    assert_eq!(metrics.active_connections(), 0);
    let first = metrics.connections.acquire().expect("first connection");
    assert_eq!(metrics.active_connections(), 1);
    let second = metrics.connections.acquire().expect("second connection");
    assert_eq!(metrics.active_connections(), 2);
    assert!(metrics.connections.acquire().is_none());
    metrics.connections.release(first);
    assert_eq!(metrics.active_connections(), 1);
    metrics.connections.release(second);
    assert_eq!(metrics.active_connections(), 0);
}

#[test]
fn server_metrics_only_report_listening_inside_bound_lifetime() {
    let mut metrics = ServerMetrics::default();
    assert!(!metrics.is_listening());
    metrics.set_listening(true);
    {
        let guard: ListeningGuard = metrics.begin_listening();
        assert!(metrics.is_listening());
        metrics.end_listening(guard);
    }
    assert!(!metrics.is_listening());
}

#[test]
fn one_source_cannot_exhaust_global_handshake_capacity() {
    let mut global = ConnectionLimiter::new(MAX_CONCURRENT_HANDSHAKES);
    let mut per_ip = KeyedConnectionLimiter::new(MAX_PENDING_HANDSHAKES_PER_IP);
    let attacker = ip("192.0.2.10");
    let legitimate = ip("192.0.2.20");
    let mut attacker_ip_permits = Vec::new();
    let mut attacker_global_permits = Vec::new();

    for _ in 0..MAX_CONCURRENT_HANDSHAKES {
        let Some(ip_permit) = per_ip.acquire(attacker) else {
            break;
        };
        attacker_ip_permits.push(ip_permit);
        attacker_global_permits.push(global.acquire().expect("global handshake slot"));
    }

    assert_eq!(attacker_ip_permits.len(), MAX_PENDING_HANDSHAKES_PER_IP);
    assert!(per_ip.acquire(attacker).is_none());
    let _legitimate_ip_permit = per_ip
        .acquire(legitimate)
        .expect("another source retains a pending-handshake slot");
    let _legitimate_global_permit = global
        .acquire()
        .expect("one source cannot consume every global handshake slot");
}

#[test]
fn ipv4_mapped_addresses_share_the_ipv4_quota_key() {
    let mapped = ip("::ffff:127.0.0.1");
    assert_eq!(normalize_ip(mapped), ip("127.0.0.1"));
}

#[test]
fn ipv6_rate_keys_are_aggregated_to_prefix_64() {
    let first = ip("2001:db8:1:2::1");
    let second = ip("2001:db8:1:2:ffff::9");
    assert_eq!(normalize_ip(first), normalize_ip(second));
    assert_ne!(normalize_ip(first), normalize_ip(ip("2001:db8:1:3::1")));
}

#[test]
fn a_rate_window_admits_its_limit_and_starts_anew() {
    let mut limiter = RateLimiter::new();
    let now = 100 * SECOND;
    let key = RateKey::Client([3; 32]);
    for _ in 0..3 {
        assert!(limiter.allow(key, 3, RATE_WINDOW, now));
    }
    assert!(!limiter.allow(key, 3, RATE_WINDOW, now + RATE_WINDOW - 1));
    assert!(limiter.allow(RateKey::Client([4; 32]), 3, RATE_WINDOW, now));
    assert!(limiter.allow(RateKey::Ip(ip("192.0.2.1")), 3, RATE_WINDOW, now));
    assert!(limiter.allow(key, 3, RATE_WINDOW, now + RATE_WINDOW));
}

#[test]
fn the_default_server_takes_sixty_four_connections() {
    let mut metrics = ServerMetrics::default();
    for _ in 0..MAX_CONNECTIONS {
        assert!(metrics.connections.acquire().is_some());
    }
    assert!(metrics.connections.acquire().is_none());
    assert_eq!(metrics.active_connections(), 64);
}

#[test]
fn repeated_log_lines_are_held_back_and_counted() {
    let mut throttle = LogThrottle::new();
    assert_eq!(throttle.pass(10_000), Some(0));
    assert_eq!(throttle.pass(10_500), None);
    assert_eq!(throttle.pass(10_999), None);
    assert_eq!(throttle.pass(11_000), Some(2));
    assert_eq!(accept_line("192.0.2.1:9", 0), "accepted peer=192.0.2.1:9");
    assert_eq!(
        accept_line("192.0.2.1:9", 2),
        "accepted peer=192.0.2.1:9 suppressed_accepts=2"
    );
}

#[test]
fn addresses_are_read_and_written() {
    for text in [
        "0.0.0.0",
        "192.168.1.10",
        "::",
        "::1",
        "fe80::1234",
        "2001:db8::1:0:0:1",
        "1:2:3:4:5:6:7:8",
        "::ffff:192.0.2.1",
    ] {
        assert_eq!(ip_text(&ip(text)), text);
    }
    assert_eq!(ip_text(&ip("2001:DB8:0:0:0:0:0:1")), "2001:db8::1");
    for bad in ["", "1.2.3", "1.2.3.256", "01.2.3.4", "1:2", ":::", "1::2::3", "g::"] {
        assert!(parse_ip(bad).is_none(), "{bad}");
    }
}
