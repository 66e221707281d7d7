use tari_indexer::rate_limit::eviction_due;
use tari_indexer::rate_limit::{ClientIp, SseConnectionLimiter, client_ip, first_forwarded_entry_span};

fn ip(a: u8, b: u8, c: u8, d: u8) -> ClientIp {
    ClientIp::v4(a, b, c, d)
}

/// Parses a dotted IPv4 address, as the API layer's address parser does for these inputs.
fn parse_v4(s: &str) -> Option<ClientIp> {
    let parts: Vec<&str> = s.split('.').collect();
    if parts.len() != 4 {
        return None;
    }
    let mut octets = [0u8; 4];
    for (i, p) in parts.iter().enumerate() {
        octets[i] = p.parse::<u8>().ok()?;
    }
    Some(ClientIp::v4(octets[0], octets[1], octets[2], octets[3]))
}

/// What the API layer does with a request's headers: the first `X-Forwarded-For` entry and the
/// `X-Real-IP` value, each parsed, and the connection's peer address.
fn extract(xff: Option<&str>, xri: Option<&str>, peer: Option<&str>, trust: bool) -> ClientIp {
    let forwarded_for = xff.and_then(|v| {
        let (start, end) = first_forwarded_entry_span(v.as_bytes());
        parse_v4(&v[start..end])
    });
    let real_ip = xri.and_then(|v| parse_v4(v.trim()));
    let peer = peer.map(|p| parse_v4(p.split(':').next().unwrap()).unwrap());
    client_ip(trust, forwarded_for, real_ip, peer)
}

#[test]
fn sse_acquires_up_to_max_then_rejects() {
    let mut limiter = SseConnectionLimiter::new(3);
    let target = ip(10, 0, 0, 1);
    assert!(limiter.try_acquire(target));
    assert!(limiter.try_acquire(target));
    assert!(limiter.try_acquire(target));
    assert!(!limiter.try_acquire(target));
    limiter.release(target);
    assert!(limiter.try_acquire(target));
    limiter.release(target);
    limiter.release(target);
}

#[test]
fn sse_drop_decrements_and_removes_when_last() {
    let mut limiter = SseConnectionLimiter::new(2);
    let target = ip(10, 0, 0, 1);
    assert!(limiter.try_acquire(target));
    assert!(limiter.try_acquire(target));
    assert_eq!(limiter.tracked_ips(), 1);
    limiter.release(target);
    assert_eq!(limiter.tracked_ips(), 1);
    limiter.release(target);
    assert_eq!(limiter.tracked_ips(), 0);
}

#[test]
fn sse_isolates_per_ip() {
    let mut limiter = SseConnectionLimiter::new(1);
    let a = ip(10, 0, 0, 1);
    let b = ip(10, 0, 0, 2);
    assert!(limiter.try_acquire(a));
    assert!(!limiter.try_acquire(a));
    assert!(limiter.try_acquire(b));
    assert!(!limiter.try_acquire(b));
}

#[test]
fn a_zero_maximum_refuses_every_connection() {
    let mut limiter = SseConnectionLimiter::new(0);
    let target = ip(10, 0, 0, 1);
    assert!(!limiter.try_acquire(target));
    assert_eq!(limiter.connection_count(target), 0);
}

#[test]
fn ipv4_and_ipv6_addresses_are_counted_apart() {
    let mut limiter = SseConnectionLimiter::new(1);
    let v4 = ip(1, 2, 3, 4);
    let mapped = ClientIp::V6(0xffff_0102_0304);
    assert!(limiter.try_acquire(v4));
    assert!(limiter.try_acquire(mapped));
    assert_eq!(limiter.connection_count(v4), 1);
    assert_eq!(limiter.connection_count(mapped), 1);
}

#[test]
fn extract_ip_falls_back_to_localhost_when_no_info() {
    assert_eq!(extract(None, None, None, false), ip(127, 0, 0, 1));
    assert_eq!(extract(None, None, None, true), ip(127, 0, 0, 1));
}

#[test]
fn extract_ip_uses_connect_info() {
    assert_eq!(extract(None, None, Some("203.0.113.7:55512"), false), ip(203, 0, 113, 7));
}

#[test]
fn extract_ip_ignores_proxy_headers_when_untrusted() {
    assert_eq!(
        extract(Some("1.2.3.4"), Some("9.9.9.9"), Some("203.0.113.7:55512"), false),
        ip(203, 0, 113, 7)
    );
}

#[test]
fn extract_ip_takes_xff_first_entry_when_trusted() {
    assert_eq!(
        extract(Some("1.2.3.4, 5.6.7.8"), None, Some("203.0.113.7:55512"), true),
        ip(1, 2, 3, 4)
    );
}

#[test]
fn extract_ip_falls_back_to_xri_when_xff_missing_and_trusted() {
    assert_eq!(extract(None, Some("9.9.9.9"), None, true), ip(9, 9, 9, 9));
}

#[test]
fn extract_ip_falls_through_invalid_proxy_headers_to_connect_info() {
    assert_eq!(
        extract(Some("not-an-ip"), Some("also-garbage"), Some("203.0.113.7:55512"), true),
        ip(203, 0, 113, 7)
    );
}

#[test]
fn the_first_forwarded_entry_is_trimmed() {
    assert_eq!(first_forwarded_entry_span(b"  1.2.3.4 , 5.6.7.8"), (2, 9));
    assert_eq!(first_forwarded_entry_span(b"1.2.3.4"), (0, 7));
    let (s, e) = first_forwarded_entry_span(b"   ,x");
    assert_eq!(s, e);
    assert_eq!(first_forwarded_entry_span(b""), (0, 0));
}

#[test]
fn eviction_waits_for_enough_clients_and_the_interval() {
    assert!(!eviction_due(127, 1000, 0));
    assert!(eviction_due(128, 60, 0));
    assert!(!eviction_due(128, 59, 0));
    assert!(!eviction_due(500, 10, 20));
}
