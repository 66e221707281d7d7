//! Per-client limits on the REST API: which address a request is counted against, and how many
//! streaming connections one address may hold open at once.
//!
//! A streaming connection holds its slot for the whole life of the response and gives it back when
//! the client goes away. The count per address never passes the configured maximum, and an address
//! whose last connection closed leaves no entry behind.

use dashmap::DashMap;
use vstd::prelude::*;

verus! {

/// The key a client address is counted under: its family (`4` or `6`) and its number.
pub type IpKey = (u8, u128);

/// A client address: an IPv4 address as its 32-bit number, or an IPv6 address as its 128-bit
/// number. The two families never compare equal, even for an IPv4-mapped IPv6 address.
#[derive(Debug, Clone, Copy, PartialEq, Eq, Structural, Hash)]
pub enum ClientIp {
    V4(u32),
    V6(u128),
}

/// The address family and number of a client address, the key it is counted under.
pub open spec fn spec_ip_key(ip: ClientIp) -> IpKey {
    match ip {
        ClientIp::V4(n) => (4u8, n as u128),
        ClientIp::V6(n) => (6u8, n),
    }
}

impl ClientIp {
    /// The IPv4 address `a.b.c.d`.
    pub fn v4(a: u8, b: u8, c: u8, d: u8) -> (ip: ClientIp)
        ensures
            ip == ClientIp::V4(
                (a as int * 0x100_0000 + b as int * 0x1_0000 + c as int * 0x100 + d as int) as u32,
            ),
    {
        ClientIp::V4((a as u32) * 0x100_0000 + (b as u32) * 0x1_0000 + (c as u32) * 0x100 + d as u32)
    }

    /// The loopback address `127.0.0.1`, what a request is counted against when nothing says
    /// where it came from.
    pub fn localhost() -> (ip: ClientIp)
        ensures
            ip == ClientIp::V4(0x7f00_0001),
    {
        ClientIp::V4(0x7f00_0001)
    }

    pub fn key(&self) -> (k: IpKey)
        ensures
            k == spec_ip_key(*self),
    {
        match self {
            ClientIp::V4(n) => (4u8, *n as u128),
            ClientIp::V6(n) => (6u8, *n),
        }
    }
}

/// The address a request is counted against. Where proxy headers are trusted, the first entry of
/// `X-Forwarded-For` and then `X-Real-IP` are consulted first, each only if it held a valid address;
/// then the connection's peer address; and `127.0.0.1` when nothing is known.
pub open spec fn spec_client_ip(
    trust_proxy_headers: bool,
    forwarded_for: Option<ClientIp>,
    real_ip: Option<ClientIp>,
    peer: Option<ClientIp>,
) -> ClientIp {
    if trust_proxy_headers && forwarded_for.is_some() {
        forwarded_for.unwrap()
    } else if trust_proxy_headers && real_ip.is_some() {
        real_ip.unwrap()
    } else if peer.is_some() {
        peer.unwrap()
    } else {
        ClientIp::V4(0x7f00_0001)
    }
}

/// Picks the address a request is counted against from the addresses parsed out of the first entry
/// of its `X-Forwarded-For` header, its `X-Real-IP` header and its connection, each `None` where
/// absent or not a valid address. Proxy headers count only when `trust_proxy_headers` is set, so
/// that a client talking to the indexer directly cannot choose the address it is limited under.
pub fn client_ip(
    trust_proxy_headers: bool,
    forwarded_for: Option<ClientIp>,
    real_ip: Option<ClientIp>,
    peer: Option<ClientIp>,
) -> (ip: ClientIp)
    ensures
        ip == spec_client_ip(trust_proxy_headers, forwarded_for, real_ip, peer),
{
    if trust_proxy_headers {
        if let Some(ip) = forwarded_for {
            return ip;
        }
        if let Some(ip) = real_ip {
            return ip;
        }
    }
    if let Some(ip) = peer {
        return ip;
    }
    ClientIp::localhost()
}

/// Where proxy headers are trusted, a valid `X-Forwarded-For` address decides, and failing that a
/// valid `X-Real-IP` address, whatever the connection's peer; where they are not trusted, the
/// headers never decide and the peer address is used, or `127.0.0.1` when there is none.
pub proof fn lemma_trusted_headers_name_the_client(
    forwarded_for: Option<ClientIp>,
    real_ip: Option<ClientIp>,
    peer: Option<ClientIp>,
    other_forwarded_for: Option<ClientIp>,
    other_real_ip: Option<ClientIp>,
)
    ensures
        forwarded_for matches Some(f) ==> spec_client_ip(true, forwarded_for, real_ip, peer) == f,
        real_ip matches Some(r) ==> (forwarded_for is None ==> spec_client_ip(true, forwarded_for, real_ip, peer)
            == r),
        peer matches Some(p) ==> (forwarded_for is None && real_ip is None ==> spec_client_ip(
            true,
            forwarded_for,
            real_ip,
            peer,
        ) == p),
        spec_client_ip(false, forwarded_for, real_ip, peer) == spec_client_ip(
            false,
            other_forwarded_for,
            other_real_ip,
            peer,
        ),
        peer matches Some(p) ==> spec_client_ip(false, forwarded_for, real_ip, peer) == p,
        (peer is None && !(forwarded_for is Some || real_ip is Some)) ==> spec_client_ip(
            true,
            forwarded_for,
            real_ip,
            peer,
        ) == ClientIp::V4(0x7f00_0001),
        peer is None ==> spec_client_ip(false, forwarded_for, real_ip, peer) == ClientIp::V4(0x7f00_0001),
{
}

/// Whitespace as `str::trim` sees it in a header value, which holds only visible ASCII, spaces and
/// tabs.
pub open spec fn is_ascii_ws(c: u8) -> bool {
    c == 0x20 || c == 0x09 || c == 0x0a || c == 0x0b || c == 0x0c || c == 0x0d
}

fn is_ascii_ws_exec(c: u8) -> (r: bool)
    ensures
        r == is_ascii_ws(c),
{
    c == 0x20 || c == 0x09 || c == 0x0a || c == 0x0b || c == 0x0c || c == 0x0d
}

/// The index of the first `,` in `b`, or its length if it holds none.
pub open spec fn first_comma(b: Seq<u8>) -> int
    decreases b.len(),
{
    if b.len() == 0 {
        0
    } else if b[0] == 0x2c {
        0
    } else {
        1 + first_comma(b.drop_first())
    }
}

proof fn lemma_first_comma(b: Seq<u8>)
    ensures
        0 <= first_comma(b) <= b.len(),
        forall|i: int| 0 <= i < first_comma(b) ==> b[i] != 0x2c,
        first_comma(b) < b.len() ==> b[first_comma(b)] == 0x2c,
    decreases b.len(),
{
    if b.len() > 0 && b[0] != 0x2c {
        lemma_first_comma(b.drop_first());
        assert forall|i: int| 0 <= i < first_comma(b) implies b[i] != 0x2c by {
            if i > 0 {
                assert(b[i] == b.drop_first()[i - 1]);
            }
        }
    }
}

/// `(start, end)` delimit the first comma-separated entry of `b` with the surrounding whitespace
/// trimmed off: nothing but whitespace lies between the entry's bounds and its own, and where the
/// trimmed entry is not empty it starts and ends on something else.
pub open spec fn is_first_entry_span(b: Seq<u8>, start: int, end: int) -> bool {
    let comma = first_comma(b);
    &&& 0 <= start <= end <= comma
    &&& forall|i: int| 0 <= i < start ==> is_ascii_ws(#[trigger] b[i])
    &&& forall|i: int| end <= i < comma ==> is_ascii_ws(#[trigger] b[i])
    &&& start < end ==> !is_ascii_ws(b[start]) && !is_ascii_ws(b[end - 1])
}

/// The byte span of the first entry of an `X-Forwarded-For` value, `value.split(',').next()`
/// trimmed, as `(start, end)`.
pub fn first_forwarded_entry_span(value: &[u8]) -> (span: (usize, usize))
    ensures
        is_first_entry_span(value@, span.0 as int, span.1 as int),
{
    let ghost b = value@;
    proof {
        lemma_first_comma(b);
    }
    let mut comma: usize = 0;
    while comma < value.len() && value[comma] != 0x2c
        invariant
            comma <= value@.len(),
            b == value@,
            forall|i: int| 0 <= i < comma ==> b[i] != 0x2c,
            0 <= first_comma(b) <= b.len(),
            forall|i: int| 0 <= i < first_comma(b) ==> b[i] != 0x2c,
            first_comma(b) < b.len() ==> b[first_comma(b)] == 0x2c,
        decreases value@.len() - comma,
    {
        comma = comma + 1;
    }
    assert(comma == first_comma(b));
    let mut start: usize = 0;
    while start < comma && is_ascii_ws_exec(value[start])
        invariant
            start <= comma,
            comma == first_comma(b),
            comma <= value@.len(),
            b == value@,
            forall|i: int| 0 <= i < start ==> is_ascii_ws(#[trigger] b[i]),
        decreases comma - start,
    {
        start = start + 1;
    }
    let mut end: usize = comma;
    while end > start && is_ascii_ws_exec(value[end - 1])
        invariant
            start <= end <= comma,
            comma == first_comma(b),
            comma <= value@.len(),
            b == value@,
            forall|i: int| end <= i < comma ==> is_ascii_ws(#[trigger] b[i]),
            start < comma ==> !is_ascii_ws(b[start as int]),
        decreases end - start,
    {
        end = end - 1;
    }
    (start, end)
}

/// How many clients a token-bucket limiter tracks before it looks for idle ones to drop.
pub const EVICTION_THRESHOLD: usize = 128;

/// The least time, in seconds, between two scans for idle clients.
pub const EVICTION_INTERVAL_SECS: u64 = 60;

/// Whether a token-bucket limiter holding buckets for `clients` clients scans for idle ones `now_secs` after it
/// started, having last scanned at `last_eviction_secs`: only once it tracks at least
/// [`EVICTION_THRESHOLD`] clients, and at most once per [`EVICTION_INTERVAL_SECS`].
pub fn eviction_due(clients: usize, now_secs: u64, last_eviction_secs: u64) -> (due: bool)
    ensures
        due == (clients >= EVICTION_THRESHOLD && (if now_secs >= last_eviction_secs {
            now_secs - last_eviction_secs
        } else {
            0
        }) >= EVICTION_INTERVAL_SECS),
{
    if clients < EVICTION_THRESHOLD {
        return false;
    }
    let since = if now_secs >= last_eviction_secs {
        now_secs - last_eviction_secs
    } else {
        0
    };
    since >= EVICTION_INTERVAL_SECS
}

#[verifier::external_type_specification]
#[verifier::external_body]
#[verifier::reject_recursive_types(K)]
#[verifier::reject_recursive_types(V)]
#[verifier::reject_recursive_types(S)]
pub struct ExDashMap<K, V, S>(dashmap::DashMap<K, V, S>);

/// What a map of connection counts holds: the open connections per address key.
pub uninterp spec fn connection_counts(m: DashMap<IpKey, usize>) -> Map<IpKey, usize>;

/// `DashMap::new`: an empty map.
#[verifier::external_body]
fn counts_new() -> (fresh: DashMap<IpKey, usize>)
    ensures
        connection_counts(fresh) =~= Map::empty(),
{
    DashMap::new()
}

/// `DashMap::get`, copying the count out of the guard it returns: the count held for `key`, if
/// any.
#[verifier::external_body]
fn counts_get(m: &DashMap<IpKey, usize>, key: IpKey) -> (count: Option<usize>)
    ensures
        count == (if connection_counts(*m).contains_key(key) {
            Some(connection_counts(*m)[key])
        } else {
            None
        }),
{
    m.get(&key).map(|r| *r)
}

/// `DashMap::insert`: `key` now maps to `count`, and every other entry is unchanged.
#[verifier::external_body]
fn counts_insert(m: &mut DashMap<IpKey, usize>, key: IpKey, count: usize)
    ensures
        connection_counts(*final(m)) == connection_counts(*old(m)).insert(key, count),
{
    m.insert(key, count);
}

/// `DashMap::remove`: `key` no longer has an entry, and every other entry is unchanged.
#[verifier::external_body]
fn counts_remove(m: &mut DashMap<IpKey, usize>, key: IpKey)
    ensures
        connection_counts(*final(m)) == connection_counts(*old(m)).remove(key),
{
    m.remove(&key);
}

/// `DashMap::len`: the number of entries.
#[verifier::external_body]
fn counts_len(m: &DashMap<IpKey, usize>) -> (n: usize)
    ensures
        n == connection_counts(*m).dom().len(),
{
    m.len()
}

/// The counts after an attempt to open a connection for `key` under a maximum of `max_per_ip`, and
/// whether it was admitted. A refused attempt for an address with no entry leaves an entry of zero,
/// which only a maximum of zero can refuse.
pub open spec fn spec_try_acquire(m: Map<IpKey, usize>, key: IpKey, max_per_ip: usize) -> (
    Map<IpKey, usize>,
    bool,
) {
    let current = if m.contains_key(key) {
        m[key]
    } else {
        0
    };
    if current >= max_per_ip {
        (
            if m.contains_key(key) {
                m
            } else {
                m.insert(key, 0)
            },
            false,
        )
    } else {
        (m.insert(key, (current + 1) as usize), true)
    }
}

/// The counts after a connection for `key` closes: one fewer, and no entry once the last one does.
pub open spec fn spec_release(m: Map<IpKey, usize>, key: IpKey) -> Map<IpKey, usize> {
    if m[key] <= 1 {
        m.remove(key)
    } else {
        m.insert(key, (m[key] - 1) as usize)
    }
}

/// The counts a limiter may hold: never above the maximum, and zero only under a maximum of zero.
pub open spec fn counts_wf(m: Map<IpKey, usize>, max_per_ip: usize) -> bool {
    forall|k: IpKey| #[trigger]
        m.contains_key(k) ==> m[k] <= max_per_ip && (m[k] >= 1 || max_per_ip == 0)
}

/// No address ever holds more connections than the maximum: every admitted and every refused
/// attempt, and every release, keeps the counts within it.
pub proof fn lemma_counts_never_exceed_the_maximum(
    m: Map<IpKey, usize>,
    key: IpKey,
    max_per_ip: usize,
)
    requires
        counts_wf(m, max_per_ip),
    ensures
        counts_wf(spec_try_acquire(m, key, max_per_ip).0, max_per_ip),
        m.contains_key(key) && m[key] >= 1 ==> counts_wf(spec_release(m, key), max_per_ip),
{
}

/// Releasing a connection undoes opening it: the counts return to what they were, so the entry of
/// an address whose last connection closes is gone.
pub proof fn lemma_release_undoes_acquire(
    m: Map<IpKey, usize>,
    key: IpKey,
    max_per_ip: usize,
)
    requires
        counts_wf(m, max_per_ip),
        spec_try_acquire(m, key, max_per_ip).1,
    ensures
        spec_release(spec_try_acquire(m, key, max_per_ip).0, key) == m,
{
    let next = spec_try_acquire(m, key, max_per_ip).0;
    if m.contains_key(key) {
        assert(spec_release(next, key) =~= m);
    } else {
        assert(spec_release(next, key) =~= m);
    }
}

/// Addresses are counted apart: opening or closing a connection for one address leaves every other
/// address's count as it was.
pub proof fn lemma_addresses_are_counted_apart(
    m: Map<IpKey, usize>,
    key: IpKey,
    other: IpKey,
    max_per_ip: usize,
)
    requires
        key != other,
    ensures
        spec_try_acquire(m, key, max_per_ip).0.contains_key(other) == m.contains_key(other),
        m.contains_key(other) ==> spec_try_acquire(m, key, max_per_ip).0[other] == m[other],
        spec_release(m, key).contains_key(other) == m.contains_key(other),
        m.contains_key(other) ==> spec_release(m, key)[other] == m[other],
{
}

/// Limits the number of concurrent streaming connections per client address.
pub struct SseConnectionLimiter {
    connections: DashMap<IpKey, usize>,
    max_per_ip: usize,
}

impl SseConnectionLimiter {
    /// The open connections, per address key.
    pub closed spec fn counts(&self) -> Map<IpKey, usize> {
        connection_counts(self.connections)
    }

    pub closed spec fn spec_max_per_ip(&self) -> usize {
        self.max_per_ip
    }

    pub open spec fn wf(&self) -> bool {
        counts_wf(self.counts(), self.spec_max_per_ip())
    }

    pub fn new(max_per_ip: usize) -> (l: SseConnectionLimiter)
        ensures
            l.counts() == Map::<IpKey, usize>::empty(),
            l.spec_max_per_ip() == max_per_ip,
            l.wf(),
    {
        SseConnectionLimiter { connections: counts_new(), max_per_ip }
    }

    /// Takes a connection slot for `ip`, or returns `false` when it already holds the maximum. The
    /// slot is held until [`SseConnectionLimiter::release`] gives it back.
    pub fn try_acquire(&mut self, ip: ClientIp) -> (acquired: bool)
        requires
            old(self).wf(),
        ensures
            final(self).wf(),
            final(self).spec_max_per_ip() == old(self).spec_max_per_ip(),
            (final(self).counts(), acquired) == spec_try_acquire(
                old(self).counts(),
                spec_ip_key(ip),
                old(self).spec_max_per_ip(),
            ),
    {
        let key = ip.key();
        let current = match counts_get(&self.connections, key) {
            Some(c) => c,
            None => {
                counts_insert(&mut self.connections, key, 0);
                0
            },
        };
        proof {
            lemma_counts_never_exceed_the_maximum(old(self).counts(), key, self.max_per_ip);
        }
        if current >= self.max_per_ip {
            proof {
                if old(self).counts().contains_key(key) {
                    assert(self.counts() == old(self).counts());
                }
            }
            return false;
        }
        counts_insert(&mut self.connections, key, current + 1);
        proof {
            if !old(self).counts().contains_key(key) {
                assert(self.counts() =~= old(self).counts().insert(key, 1));
            }
        }
        true
    }

    /// Gives back a slot `ip` holds: one fewer connection, and no entry once the last one closes.
    pub fn release(&mut self, ip: ClientIp)
        requires
            old(self).wf(),
            old(self).counts().contains_key(spec_ip_key(ip)),
            old(self).counts()[spec_ip_key(ip)] >= 1,
        ensures
            final(self).wf(),
            final(self).spec_max_per_ip() == old(self).spec_max_per_ip(),
            final(self).counts() == spec_release(old(self).counts(), spec_ip_key(ip)),
    {
        let key = ip.key();
        proof {
            lemma_counts_never_exceed_the_maximum(old(self).counts(), key, self.max_per_ip);
        }
        let current = match counts_get(&self.connections, key) {
            Some(c) => c,
            None => 0,
        };
        if current <= 1 {
            counts_remove(&mut self.connections, key);
        } else {
            counts_insert(&mut self.connections, key, current - 1);
        }
    }

    /// The connections `ip` holds open.
    pub fn connection_count(&self, ip: ClientIp) -> (n: usize)
        ensures
            n == (if self.counts().contains_key(spec_ip_key(ip)) {
                self.counts()[spec_ip_key(ip)]
            } else {
                0
            }),
    {
        match counts_get(&self.connections, ip.key()) {
            Some(c) => c,
            None => 0,
        }
    }

    /// The number of addresses with an entry.
    pub fn tracked_ips(&self) -> (n: usize)
        ensures
            n == self.counts().dom().len(),
    {
        counts_len(&self.connections)
    }
}

} // verus!
