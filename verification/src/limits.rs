//! Quotas of the server: rates, counts of connections, pauses between wakes.

use crate::clock::{elapsed, SECOND};
use crate::net::IpAddress;
use crate::octets::same_key;
use crate::table::{kept, Key, Table};
use crate::text::{decimal, decimal_text, texts};
use vstd::prelude::*;

verus! {

pub const MAX_CONNECTIONS: usize = 64;

pub const MAX_CONCURRENT_HANDSHAKES: usize = 16;

pub const MAX_PENDING_HANDSHAKES_PER_IP: usize = 2;

pub const MAX_CONNECTIONS_PER_IP: usize = 8;

pub const MAX_CONNECTIONS_PER_CLIENT: usize = 4;

pub const MAX_CONCURRENT_PROBES: usize = 8;

pub const MAX_RATE_KEYS: usize = 2048;

pub const HANDSHAKE_RATE_PER_MINUTE: u32 = 12;

pub const RATE_WINDOW: u64 = 60 * SECOND;

pub const WAKE_COOLDOWN: u64 = 10 * SECOND;

/// What a rate is counted for.
#[derive(Clone, Copy, Debug, PartialEq, Eq, Hash)]
pub enum RateKey {
    HandshakeIp(IpAddress),
    Ip(IpAddress),
    Client([u8; 32]),
}

impl Key for RateKey {
    type Model = RateKey;

    open spec fn model(&self) -> RateKey {
        *self
    }

    fn same(&self, other: &Self) -> (r: bool) {
        match (self, other) {
            (RateKey::HandshakeIp(a), RateKey::HandshakeIp(b)) => a.same(b),
            (RateKey::Ip(a), RateKey::Ip(b)) => a.same(b),
            (RateKey::Client(a), RateKey::Client(b)) => same_key(a, b),
            _ => false,
        }
    }
}

/// The requests that were counted since a window began.
#[derive(Clone, Copy, Debug)]
pub struct RateBucket {
    pub started: u64,
    pub count: u32,
}

pub struct RateLimiter {
    pub buckets: Table<RateKey, RateBucket>,
}

impl View for RateLimiter {
    type V = Map<RateKey, RateBucket>;

    open spec fn view(&self) -> Map<RateKey, RateBucket> {
        self.buckets@
    }
}

/// The buckets whose window is still open.
pub open spec fn open_buckets(
    buckets: Map<RateKey, RateBucket>,
    window: u64,
    now: u64,
) -> Map<RateKey, RateBucket> {
    kept(buckets, |k: RateKey, b: RateBucket| elapsed(b.started, now) < window)
}

/// The bucket that a request is counted in.
pub open spec fn bucket_for(
    buckets: Map<RateKey, RateBucket>,
    key: RateKey,
    now: u64,
) -> RateBucket {
    if buckets.contains_key(key) {
        buckets[key]
    } else {
        RateBucket { started: now, count: 0 }
    }
}

/// There is a bucket for the key, or room for one.
pub open spec fn countable(buckets: Map<RateKey, RateBucket>, key: RateKey) -> bool {
    buckets.len() < MAX_RATE_KEYS || buckets.contains_key(key)
}

/// Whether a request is within its rate.
pub open spec fn admits(
    buckets: Map<RateKey, RateBucket>,
    key: RateKey,
    limit: u32,
    window: u64,
    now: u64,
) -> bool {
    let open = open_buckets(buckets, window, now);
    countable(open, key) && bucket_for(open, key, now).count < limit
}

/// The buckets after a request.
pub open spec fn after_allow(
    buckets: Map<RateKey, RateBucket>,
    key: RateKey,
    limit: u32,
    window: u64,
    now: u64,
) -> Map<RateKey, RateBucket> {
    let open = open_buckets(buckets, window, now);
    let bucket = bucket_for(open, key, now);
    if !countable(open, key) {
        open
    } else if bucket.count < limit {
        open.insert(key, RateBucket { count: (bucket.count + 1) as u32, ..bucket })
    } else {
        open.insert(key, bucket)
    }
}

impl RateLimiter {
    /// The number of keys is bounded, also where peers change their address.
    pub open spec fn wf(self) -> bool {
        &&& self.buckets.wf()
        &&& self@.dom().finite()
        &&& self@.len() <= MAX_RATE_KEYS
    }

    pub fn new() -> (r: RateLimiter)
        ensures
            r.wf(),
            r@ == Map::<RateKey, RateBucket>::empty(),
    {
        RateLimiter { buckets: Table::new() }
    }

    /// Counts a request and says whether it is within its rate.
    pub fn allow(&mut self, key: RateKey, limit: u32, window: u64, now: u64) -> (r: bool)
        requires
            old(self).wf(),
        ensures
            final(self).wf(),
            r == admits(old(self)@, key, limit, window, now),
            final(self)@ == after_allow(old(self)@, key, limit, window, now),
    {
        let ghost all = self@;
        let is_open = |k: &RateKey, b: &RateBucket| -> (keep: bool)
            ensures
                keep == (elapsed(b.started, now) < window),
            {
                if now >= b.started {
                    now - b.started < window
                } else {
                    0 < window
                }
            };
        self.buckets.retain(
            is_open,
            Ghost(|k: RateKey, b: RateBucket| elapsed(b.started, now) < window),
        );
        assert(self@ == open_buckets(all, window, now));
        proof {
            vstd::set_lib::lemma_len_subset(self@.dom(), all.dom());
        }
        let bucket: RateBucket = match self.buckets.get(&key) {
            Some(bucket) => *bucket,
            None => {
                if self.buckets.len() >= MAX_RATE_KEYS {
                    return false;
                }
                RateBucket { started: now, count: 0 }
            },
        };
        if bucket.count >= limit {
            self.buckets.insert(key, bucket);
            return false;
        }
        self.buckets.insert(key, RateBucket { started: bucket.started, count: bucket.count + 1 });
        true
    }
}

/// In one window no more requests are admitted than the limit says: the count
/// never passes the limit, each admitted request adds one to it, and the window
/// keeps its start until it is over.
pub proof fn a_window_admits_no_more_than_its_limit(
    buckets: Map<RateKey, RateBucket>,
    key: RateKey,
    limit: u32,
    window: u64,
    now: u64,
)
    requires
        buckets.contains_key(key),
        buckets[key].count <= limit,
        elapsed(buckets[key].started, now) < window,
    ensures
        ({
            let after = after_allow(buckets, key, limit, window, now);
            &&& after.contains_key(key)
            &&& after[key].started == buckets[key].started
            &&& after[key].count <= limit
            &&& after[key].count == buckets[key].count + if admits(buckets, key, limit, window, now) {
                1int
            } else {
                0
            }
        }),
{
}

/// What is counted for one key leaves the open windows of the others as they
/// are.
pub proof fn rates_do_not_interfere(
    buckets: Map<RateKey, RateBucket>,
    key: RateKey,
    other: RateKey,
    limit: u32,
    window: u64,
    now: u64,
)
    requires
        key != other,
    ensures
        ({
            let open = open_buckets(buckets, window, now);
            let after = after_allow(buckets, key, limit, window, now);
            &&& after.contains_key(other) == open.contains_key(other)
            &&& open.contains_key(other) ==> after[other] == open[other]
        }),
{
}

/// A place in a count of connections, to be given back.
pub struct ConnectionPermit {
    counted: bool,
}

/// A bounded count of connections.
pub struct ConnectionLimiter {
    pub current: usize,
    pub limit: usize,
}

impl ConnectionLimiter {
    pub open spec fn wf(self) -> bool {
        self.current <= self.limit
    }

    pub fn new(limit: usize) -> (r: ConnectionLimiter)
        ensures
            r.wf(),
            r.current == 0,
            r.limit == limit,
    {
        ConnectionLimiter { current: 0, limit }
    }

    /// Takes a place, if one is left.
    pub fn acquire(&mut self) -> (r: Option<ConnectionPermit>)
        requires
            old(self).wf(),
        ensures
            final(self).wf(),
            final(self).limit == old(self).limit,
            r is Some == (old(self).current < old(self).limit),
            final(self).current == old(self).current + if r is Some {
                1int
            } else {
                0
            },
    {
        if self.current >= self.limit {
            return None;
        }
        self.current = self.current + 1;
        Some(ConnectionPermit { counted: true })
    }

    /// Gives a place back. The result is false if none was taken.
    pub fn release(&mut self, permit: ConnectionPermit) -> (r: bool)
        requires
            old(self).wf(),
        ensures
            final(self).wf(),
            final(self).limit == old(self).limit,
            r == (old(self).current > 0),
            final(self).current == if old(self).current > 0 {
                old(self).current - 1
            } else {
                0
            },
    {
        if self.current == 0 {
            return false;
        }
        self.current = self.current - 1;
        true
    }
}

/// Stands for listeners that are bound. Only `ServerMetrics::begin_listening`
/// makes one.
#[must_use]
pub struct ListeningGuard {
    bound: (),
}

/// What the server reports of itself.
pub struct ServerMetrics {
    pub connections: ConnectionLimiter,
    pub listening: bool,
}

impl Default for ServerMetrics {
    fn default() -> (r: ServerMetrics)
        ensures
            r.connections.wf(),
            r.connections.current == 0,
            r.connections.limit == MAX_CONNECTIONS,
            !r.listening,
    {
        ServerMetrics::with_limit(MAX_CONNECTIONS)
    }
}

impl ServerMetrics {
    pub fn with_limit(limit: usize) -> (r: ServerMetrics)
        ensures
            r.connections.wf(),
            r.connections.current == 0,
            r.connections.limit == limit,
            !r.listening,
    {
        ServerMetrics { connections: ConnectionLimiter::new(limit), listening: false }
    }

    /// The number of connections that hold a permit now.
    pub fn active_connections(&self) -> (r: usize)
        ensures
            r == self.connections.current,
    {
        self.connections.current
    }

    pub fn is_listening(&self) -> (r: bool)
        ensures
            r == self.listening,
    {
        self.listening
    }

    pub fn set_listening(&mut self, listening: bool)
        ensures
            final(self).listening == listening,
            final(self).connections == old(self).connections,
    {
        self.listening = listening;
    }

    /// Notes that the listeners are bound. The guard is for `end_listening`, once
    /// they are closed.
    pub fn begin_listening(&mut self) -> (r: ListeningGuard)
        ensures
            final(self).listening,
            final(self).connections == old(self).connections,
    {
        self.listening = true;
        ListeningGuard { bound: () }
    }

    /// Notes that the listeners are closed, and takes the guard back.
    pub fn end_listening(&mut self, guard: ListeningGuard)
        ensures
            !final(self).listening,
            final(self).connections == old(self).connections,
    {
        self.listening = false;
    }
}

/// A place in the count of one key, to be given back.
pub struct KeyedConnectionPermit<K> {
    pub key: K,
}

/// A bounded count of connections for each key.
pub struct KeyedConnectionLimiter<K> {
    pub maximum: usize,
    pub active: Table<K, usize>,
}

/// The number of connections that a key has.
pub open spec fn held<M>(active: Map<M, usize>, key: M) -> usize {
    if active.contains_key(key) {
        active[key]
    } else {
        0
    }
}

impl<K: Key + Copy> KeyedConnectionLimiter<K> {
    pub open spec fn wf(self) -> bool {
        &&& self.active.wf()
        &&& forall|k: K::Model| #[trigger]
            self.active@.contains_key(k) ==> self.active@[k] <= self.maximum
    }

    pub fn new(maximum: usize) -> (r: KeyedConnectionLimiter<K>)
        ensures
            r.wf(),
            r.maximum == maximum,
            forall|k: K::Model| held(r.active@, k) == 0,
    {
        KeyedConnectionLimiter { maximum, active: Table::new() }
    }

    /// Takes a place for the key, if it has one left.
    pub fn acquire(&mut self, key: K) -> (r: Option<KeyedConnectionPermit<K>>)
        requires
            old(self).wf(),
        ensures
            final(self).wf(),
            final(self).maximum == old(self).maximum,
            r is Some == (held(old(self).active@, key.model()) < old(self).maximum),
            r is Some ==> r->0.key == key,
            final(self).active@ == old(self).active@.insert(
                key.model(),
                (held(old(self).active@, key.model()) + if r is Some {
                    1int
                } else {
                    0
                }) as usize,
            ),
    {
        let count: usize = match self.active.get(&key) {
            Some(count) => *count,
            None => 0,
        };
        if count >= self.maximum {
            self.active.insert(key, count);
            return None;
        }
        self.active.insert(key, count + 1);
        Some(KeyedConnectionPermit { key })
    }

    /// Gives a place back. A key without connections is forgotten.
    pub fn release(&mut self, permit: KeyedConnectionPermit<K>)
        requires
            old(self).wf(),
        ensures
            final(self).wf(),
            final(self).maximum == old(self).maximum,
            ({
                let key = permit.key.model();
                final(self).active@ == if held(old(self).active@, key) <= 1 {
                    old(self).active@.remove(key)
                } else {
                    old(self).active@.insert(key, (old(self).active@[key] - 1) as usize)
                }
            }),
    {
        let count: usize = match self.active.get(&permit.key) {
            Some(count) => *count,
            None => 0,
        };
        if count <= 1 {
            let gone: Option<usize> = self.active.take(&permit.key);
        } else {
            self.active.insert(permit.key, count - 1);
        }
    }
}

/// What one key holds does not count for another, and a place that was given
/// back can be taken again: giving it back undoes taking it.
pub proof fn a_released_place_is_free_again<M>(active: Map<M, usize>, maximum: usize, key: M)
    requires
        held(active, key) < maximum,
    ensures
        ({
            let taken = active.insert(key, (held(active, key) + 1) as usize);
            let back = if held(taken, key) <= 1 {
                taken.remove(key)
            } else {
                taken.insert(key, (taken[key] - 1) as usize)
            };
            &&& held(back, key) == held(active, key)
            &&& forall|other: M|
                other != key ==> #[trigger] held(taken, other) == held(active, other) && held(
                    back,
                    other,
                ) == held(active, other)
        }),
{
}

/// A host as one client wakes it.
pub struct WakeTarget {
    pub client_key: [u8; 32],
    pub host_id: String,
}

pub struct TargetModel {
    pub client_key: [u8; 32],
    pub host_id: Seq<char>,
}

impl Key for WakeTarget {
    type Model = TargetModel;

    open spec fn model(&self) -> TargetModel {
        TargetModel { client_key: self.client_key, host_id: self.host_id@ }
    }

    fn same(&self, other: &Self) -> (r: bool) {
        same_key(&self.client_key, &other.client_key) && self.host_id == other.host_id
    }
}

/// When each client last woke each host.
pub struct WakeCooldowns {
    pub last_wake: Table<WakeTarget, u64>,
}

/// The wakes that a client must still wait after.
pub open spec fn cooling(last_wake: Map<TargetModel, u64>, now: u64) -> Map<TargetModel, u64> {
    kept(last_wake, |t: TargetModel, at: u64| elapsed(at, now) < WAKE_COOLDOWN)
}

/// No host of the list is still cooling for the client.
pub open spec fn none_cooling(
    last_wake: Map<TargetModel, u64>,
    client_key: [u8; 32],
    host_ids: Seq<Seq<char>>,
) -> bool {
    forall|i: int|
        0 <= i < host_ids.len() ==> !last_wake.contains_key(
            (TargetModel { client_key, host_id: #[trigger] host_ids[i] }),
        )
}

/// The record after the client has woken the hosts at `now`.
pub open spec fn woken(
    last_wake: Map<TargetModel, u64>,
    client_key: [u8; 32],
    host_ids: Seq<Seq<char>>,
    now: u64,
) -> Map<TargetModel, u64>
    decreases host_ids.len(),
{
    if host_ids.len() == 0 {
        last_wake
    } else {
        woken(last_wake, client_key, host_ids.drop_last(), now).insert(
            TargetModel { client_key, host_id: host_ids.last() },
            now,
        )
    }
}

impl WakeCooldowns {
    pub open spec fn wf(self) -> bool {
        self.last_wake.wf()
    }

    pub fn new() -> (r: WakeCooldowns)
        ensures
            r.wf(),
            r.last_wake@ == Map::<TargetModel, u64>::empty(),
    {
        WakeCooldowns { last_wake: Table::new() }
    }
}

/// Starts the pause of every host of the list for the client, unless one of
/// them is still in its pause.
#[verifier::loop_isolation(false)]
pub fn reserve_wake_targets_for_client(
    cooldowns: &mut WakeCooldowns,
    client_key: [u8; 32],
    host_ids: &Vec<String>,
    now: u64,
) -> (r: bool)
    requires
        old(cooldowns).wf(),
    ensures
        final(cooldowns).wf(),
        ({
            let left = cooling(old(cooldowns).last_wake@, now);
            &&& r == none_cooling(left, client_key, texts(host_ids@))
            &&& final(cooldowns).last_wake@ == if r {
                woken(left, client_key, texts(host_ids@), now)
            } else {
                left
            }
        }),
{
    let is_cooling = |t: &WakeTarget, at: &u64| -> (keep: bool)
        ensures
            keep == (elapsed(*at, now) < WAKE_COOLDOWN),
        {
            if now >= *at {
                now - *at < WAKE_COOLDOWN
            } else {
                true
            }
        };
    cooldowns.last_wake.retain(
        is_cooling,
        Ghost(|t: TargetModel, at: u64| elapsed(at, now) < WAKE_COOLDOWN),
    );
    let ghost left = cooldowns.last_wake@;
    let ghost ids = texts(host_ids@);
    let mut i: usize = 0;
    while i < host_ids.len()
        invariant
            i <= host_ids@.len(),
            forall|k: int|
                0 <= k < i ==> !left.contains_key(
                    (TargetModel { client_key, host_id: #[trigger] ids[k] }),
                ),
        decreases host_ids@.len() - i,
    {
        let target = WakeTarget { client_key, host_id: host_ids[i].clone() };
        if cooldowns.last_wake.contains(&target) {
            assert(left.contains_key(TargetModel { client_key, host_id: ids[i as int] }));
            return false;
        }
        i += 1;
    }
    let mut k: usize = 0;
    assert(ids.take(0) =~= Seq::<Seq<char>>::empty());
    while k < host_ids.len()
        invariant
            k <= host_ids@.len(),
            cooldowns.wf(),
            cooldowns.last_wake@ == woken(left, client_key, ids.take(k as int), now),
        decreases host_ids@.len() - k,
    {
        cooldowns.last_wake.insert(
            WakeTarget { client_key, host_id: host_ids[k].clone() },
            now,
        );
        assert(ids.take(k + 1).drop_last() =~= ids.take(k as int));
        k += 1;
    }
    assert(ids.take(k as int) =~= ids);
    true
}

proof fn woken_holds(
    last_wake: Map<TargetModel, u64>,
    client_key: [u8; 32],
    host_ids: Seq<Seq<char>>,
    now: u64,
    target: TargetModel,
)
    ensures
        ({
            let after = woken(last_wake, client_key, host_ids, now);
            let named = target.client_key == client_key && host_ids.contains(target.host_id);
            &&& after.contains_key(target) == (named || last_wake.contains_key(target))
            &&& named ==> after[target] == now
            &&& !named && last_wake.contains_key(target) ==> after[target] == last_wake[target]
        }),
    decreases host_ids.len(),
{
    if host_ids.len() > 0 {
        let front = host_ids.drop_last();
        woken_holds(last_wake, client_key, front, now, target);
        assert(host_ids =~= front.push(host_ids.last()));
        if front.contains(target.host_id) {
            let i = choose|i: int| 0 <= i < front.len() && front[i] == target.host_id;
            assert(host_ids[i] == target.host_id);
        }
        if host_ids.last() == target.host_id {
            assert(host_ids[host_ids.len() - 1] == target.host_id);
        }
    }
}

/// A client that woke a host cannot wake it again before the pause is over; it
/// can when the pause is over, and another client's wakes never stand in its way.
pub proof fn wakes_of_one_host_keep_their_distance(
    last_wake: Map<TargetModel, u64>,
    client_key: [u8; 32],
    host_ids: Seq<Seq<char>>,
    now: u64,
    again: [u8; 32],
    ids: Seq<Seq<char>>,
    later: u64,
)
    requires
        now <= later,
        none_cooling(cooling(last_wake, now), client_key, host_ids),
    ensures
        ({
            let left = cooling(last_wake, now);
            let after = woken(left, client_key, host_ids, now);
            &&& again == client_key && later - now < WAKE_COOLDOWN && (exists|i: int|
                0 <= i < ids.len() && host_ids.contains(#[trigger] ids[i])) ==> !none_cooling(
                cooling(after, later),
                again,
                ids,
            )
            &&& again != client_key ==> none_cooling(cooling(after, later), again, ids)
                == none_cooling(cooling(left, later), again, ids)
            &&& later - now >= WAKE_COOLDOWN && (forall|i: int|
                0 <= i < ids.len() ==> host_ids.contains(#[trigger] ids[i])) && again == client_key
                ==> none_cooling(cooling(after, later), again, ids)
        }),
{
    let left = cooling(last_wake, now);
    let after = woken(left, client_key, host_ids, now);
    assert forall|t: TargetModel| #![trigger after.contains_key(t)] true implies ({
        let named = t.client_key == client_key && host_ids.contains(t.host_id);
        &&& after.contains_key(t) == (named || left.contains_key(t))
        &&& named ==> after[t] == now
        &&& !named && left.contains_key(t) ==> after[t] == left[t]
    }) by {
        woken_holds(left, client_key, host_ids, now, t);
    }
    let then = cooling(after, later);
    if again == client_key && later - now < WAKE_COOLDOWN && (exists|i: int|
        0 <= i < ids.len() && host_ids.contains(#[trigger] ids[i])) {
        let i = choose|i: int| 0 <= i < ids.len() && host_ids.contains(#[trigger] ids[i]);
        let t = TargetModel { client_key: again, host_id: ids[i] };
        assert(after.contains_key(t));
        assert(then.contains_key(t));
    }
    if again != client_key {
        let before = cooling(left, later);
        assert forall|i: int| 0 <= i < ids.len() implies then.contains_key(
            (TargetModel { client_key: again, host_id: #[trigger] ids[i] }),
        ) == before.contains_key((TargetModel { client_key: again, host_id: ids[i] })) by {
            let t = TargetModel { client_key: again, host_id: ids[i] };
            assert(after.contains_key(t) == left.contains_key(t));
        }
    }
    if later - now >= WAKE_COOLDOWN && again == client_key && (forall|i: int|
        0 <= i < ids.len() ==> host_ids.contains(#[trigger] ids[i])) {
        assert forall|i: int| 0 <= i < ids.len() implies !then.contains_key(
            (TargetModel { client_key: again, host_id: #[trigger] ids[i] }),
        ) by {
            let t = TargetModel { client_key: again, host_id: ids[i] };
            assert(after.contains_key(t));
        }
    }
}

/// Lets at most one line a second into the log, and counts the others.
pub struct LogThrottle {
    pub last_ms: u64,
    pub suppressed: u64,
}

impl LogThrottle {
    pub fn new() -> (r: LogThrottle)
        ensures
            r.last_ms == 0,
            r.suppressed == 0,
    {
        LogThrottle { last_ms: 0, suppressed: 0 }
    }

    /// The number of lines that were held back, if a line may be written now.
    pub fn pass(&mut self, now_ms: u64) -> (r: Option<u64>)
        ensures
            if elapsed(old(self).last_ms, now_ms) < 1000 {
                &&& r is None
                &&& final(self).last_ms == old(self).last_ms
                &&& final(self).suppressed == if old(self).suppressed < u64::MAX {
                    (old(self).suppressed + 1) as u64
                } else {
                    u64::MAX
                }
            } else {
                &&& r == Some(old(self).suppressed)
                &&& final(self).last_ms == now_ms
                &&& final(self).suppressed == 0
            },
    {
        if now_ms.saturating_sub(self.last_ms) < 1000 {
            self.suppressed = self.suppressed.saturating_add(1);
            return None;
        }
        let suppressed: u64 = self.suppressed;
        self.last_ms = now_ms;
        self.suppressed = 0;
        Some(suppressed)
    }
}

/// The log line for an accepted connection.
pub fn accept_line(peer: &str, suppressed: u64) -> (r: String)
    ensures
        r@ == if suppressed == 0 {
            "accepted peer="@ + peer@
        } else {
            "accepted peer="@ + peer@ + " suppressed_accepts="@ + decimal(suppressed as nat)
        },
{
    let mut line: String = "accepted peer=".to_owned();
    line.append(peer);
    if suppressed != 0 {
        line.append(" suppressed_accepts=");
        line.append(&decimal_text(suppressed));
    }
    line
}

} // verus!
