//! A small, bounded cache of handshake nonces.
//!
//! It keeps a captured first message from being used again. A full cache
//! refuses; it never drops a live nonce.

use crate::clock::{CLOCK_END, SECOND};
use crate::octets::same_key;
use crate::table::{kept, Key, Table};
use vstd::prelude::*;

verus! {

pub const MAX_REPLAY_ENTRIES: usize = 8192;

pub const MAX_REPLAY_ENTRIES_PER_CLIENT: usize = 64;

pub const MAX_PENDING_REPLAYS_PER_CLIENT: usize = 4;

pub const REPLAY_TTL: u64 = 180 * SECOND;

pub const PENDING_REPLAY_TTL: u64 = 6 * SECOND;

/// A nonce as one client used it.
#[derive(Clone, Copy, Debug, PartialEq, Eq, Hash)]
pub struct ReplayKey {
    pub client_key: [u8; 32],
    pub nonce: [u8; 32],
}

impl Key for ReplayKey {
    type Model = ReplayKey;

    open spec fn model(&self) -> ReplayKey {
        *self
    }

    fn same(&self, other: &Self) -> (r: bool) {
        same_key(&self.client_key, &other.client_key) && same_key(&self.nonce, &other.nonce)
    }
}

#[derive(Clone, Copy, Debug)]
pub struct ReplayEntry {
    pub expires: u64,
    pub confirmed: bool,
}

pub type Nonces = Map<ReplayKey, ReplayEntry>;

/// The nonces that have not expired.
pub open spec fn live(entries: Nonces, now: u64) -> Nonces {
    kept(entries, |k: ReplayKey, e: ReplayEntry| e.expires > now)
}

/// The nonces of one client.
pub open spec fn of_client(entries: Nonces, client_key: [u8; 32]) -> Nonces {
    kept(entries, |k: ReplayKey, e: ReplayEntry| k.client_key == client_key)
}

/// The nonces of one client whose handshakes are not complete.
pub open spec fn pending_of(entries: Nonces, client_key: [u8; 32]) -> Nonces {
    kept(entries, |k: ReplayKey, e: ReplayEntry| k.client_key == client_key && !e.confirmed)
}

/// The nonce is new, and there is room for it.
pub open spec fn reservable(entries: Nonces, key: ReplayKey) -> bool {
    &&& !entries.contains_key(key)
    &&& of_client(entries, key.client_key).len() < MAX_REPLAY_ENTRIES_PER_CLIENT
    &&& pending_of(entries, key.client_key).len() < MAX_PENDING_REPLAYS_PER_CLIENT
    &&& entries.len() < MAX_REPLAY_ENTRIES
}

/// The cache after a reservation was asked for.
pub open spec fn after_reserve(entries: Nonces, key: ReplayKey, now: u64) -> Nonces {
    if reservable(live(entries, now), key) {
        live(entries, now).insert(
            key,
            ReplayEntry { expires: (now + PENDING_REPLAY_TTL) as u64, confirmed: false },
        )
    } else {
        live(entries, now)
    }
}

/// The cache after a confirmation was asked for.
pub open spec fn after_confirm(entries: Nonces, key: ReplayKey, now: u64) -> Nonces {
    if live(entries, now).contains_key(key) {
        live(entries, now).insert(
            key,
            ReplayEntry { expires: (now + REPLAY_TTL) as u64, confirmed: true },
        )
    } else {
        live(entries, now)
    }
}

/// The bounds of the cache.
pub open spec fn bounded(entries: Nonces) -> bool {
    &&& entries.dom().finite()
    &&& entries.len() <= MAX_REPLAY_ENTRIES
    &&& forall|client_key: [u8; 32]|
        (#[trigger] of_client(entries, client_key)).len() <= MAX_REPLAY_ENTRIES_PER_CLIENT
    &&& forall|client_key: [u8; 32]|
        (#[trigger] pending_of(entries, client_key)).len() <= MAX_PENDING_REPLAYS_PER_CLIENT
}

proof fn fewer_entries(more: Nonces, less: Nonces)
    requires
        bounded(more),
        less.submap_of(more),
    ensures
        bounded(less),
{
    vstd::set_lib::lemma_len_subset(less.dom(), more.dom());
    assert forall|client_key: [u8; 32]| (#[trigger] of_client(less, client_key)).len()
        <= MAX_REPLAY_ENTRIES_PER_CLIENT by {
        let a = of_client(less, client_key).dom();
        let b = of_client(more, client_key).dom();
        vstd::set_lib::lemma_len_subset(b, more.dom());
        assert(a.subset_of(b));
        vstd::set_lib::lemma_len_subset(a, b);
    }
    assert forall|client_key: [u8; 32]| (#[trigger] pending_of(less, client_key)).len()
        <= MAX_PENDING_REPLAYS_PER_CLIENT by {
        let a = pending_of(less, client_key).dom();
        let b = pending_of(more, client_key).dom();
        vstd::set_lib::lemma_len_subset(b, more.dom());
        assert forall|k: ReplayKey| a.contains(k) implies b.contains(k) by {
            assert(less.contains_key(k) && more.contains_key(k) && less[k] == more[k]);
        }
        vstd::set_lib::lemma_len_subset(a, b);
    }
}

proof fn reserved_is_bounded(entries: Nonces, key: ReplayKey, entry: ReplayEntry)
    requires
        bounded(entries),
        reservable(entries, key),
    ensures
        bounded(entries.insert(key, entry)),
{
    let more = entries.insert(key, entry);
    assert(more.dom() =~= entries.dom().insert(key));
    assert forall|client_key: [u8; 32]| (#[trigger] of_client(more, client_key)).len()
        <= MAX_REPLAY_ENTRIES_PER_CLIENT by {
        let a = of_client(entries, client_key).dom();
        vstd::set_lib::lemma_len_subset(a, entries.dom());
        if client_key == key.client_key {
            assert(of_client(more, client_key).dom() =~= a.insert(key));
        } else {
            assert(of_client(more, client_key).dom() =~= a);
        }
    }
    assert forall|client_key: [u8; 32]| (#[trigger] pending_of(more, client_key)).len()
        <= MAX_PENDING_REPLAYS_PER_CLIENT by {
        let a = pending_of(entries, client_key).dom();
        vstd::set_lib::lemma_len_subset(a, entries.dom());
        if client_key == key.client_key && !entry.confirmed {
            assert(pending_of(more, client_key).dom() =~= a.insert(key));
        } else {
            assert(pending_of(more, client_key).dom() =~= a);
        }
    }
}

proof fn confirmed_is_bounded(entries: Nonces, key: ReplayKey, entry: ReplayEntry)
    requires
        bounded(entries),
        entries.contains_key(key),
        entry.confirmed,
    ensures
        bounded(entries.insert(key, entry)),
{
    let more = entries.insert(key, entry);
    assert(more.dom() =~= entries.dom());
    assert forall|client_key: [u8; 32]| (#[trigger] of_client(more, client_key)).len()
        <= MAX_REPLAY_ENTRIES_PER_CLIENT by {
        assert(of_client(more, client_key).dom() =~= of_client(entries, client_key).dom());
    }
    assert forall|client_key: [u8; 32]| (#[trigger] pending_of(more, client_key)).len()
        <= MAX_PENDING_REPLAYS_PER_CLIENT by {
        let a = pending_of(more, client_key).dom();
        let b = pending_of(entries, client_key).dom();
        vstd::set_lib::lemma_len_subset(b, entries.dom());
        assert(a.subset_of(b));
        vstd::set_lib::lemma_len_subset(a, b);
    }
}

pub struct ReplayCache {
    pub entries: Table<ReplayKey, ReplayEntry>,
}

impl View for ReplayCache {
    type V = Nonces;

    open spec fn view(&self) -> Nonces {
        self.entries@
    }
}

impl Default for ReplayCache {
    fn default() -> (r: ReplayCache)
        ensures
            r.wf(),
            r@ == Map::<ReplayKey, ReplayEntry>::empty(),
    {
        let r = ReplayCache { entries: Table::new() };
        assert forall|client_key: [u8; 32]| (#[trigger] of_client(r@, client_key)).len()
            <= MAX_REPLAY_ENTRIES_PER_CLIENT by {
            assert(of_client(r@, client_key).dom() =~= Set::<ReplayKey>::empty());
        }
        assert forall|client_key: [u8; 32]| (#[trigger] pending_of(r@, client_key)).len()
            <= MAX_PENDING_REPLAYS_PER_CLIENT by {
            assert(pending_of(r@, client_key).dom() =~= Set::<ReplayKey>::empty());
        }
        r
    }
}

impl ReplayCache {
    pub open spec fn wf(self) -> bool {
        self.entries.wf() && bounded(self@)
    }

    fn prune(&mut self, now: u64)
        requires
            old(self).wf(),
        ensures
            final(self).wf(),
            final(self)@ == live(old(self)@, now),
    {
        let ghost before = self@;
        let alive = |k: &ReplayKey, e: &ReplayEntry| -> (b: bool)
            ensures
                b == (now < e.expires),
            { now < e.expires };
        self.entries.retain(alive, Ghost(|k: ReplayKey, e: ReplayEntry| e.expires > now));
        assert(self@ =~= live(before, now));
        proof {
            fewer_entries(before, self@);
        }
    }

    /// Reserves and confirms a nonce at once.
    pub fn check_and_insert(&mut self, client_key: [u8; 32], nonce: [u8; 32], now: u64) -> (r: bool)
        requires
            old(self).wf(),
            now <= CLOCK_END,
        ensures
            final(self).wf(),
            ({
                let key = ReplayKey { client_key, nonce };
                &&& r == reservable(live(old(self)@, now), key)
                &&& final(self)@ == if r {
                    after_confirm(after_reserve(old(self)@, key, now), key, now)
                } else {
                    live(old(self)@, now)
                }
            }),
    {
        if !self.reserve(client_key, nonce, now) {
            return false;
        }
        self.confirm(client_key, nonce, now)
    }

    /// Takes a place for a nonce that has not been seen.
    pub fn reserve(&mut self, client_key: [u8; 32], nonce: [u8; 32], now: u64) -> (r: bool)
        requires
            old(self).wf(),
            now <= CLOCK_END,
        ensures
            final(self).wf(),
            r == reservable(live(old(self)@, now), (ReplayKey { client_key, nonce })),
            final(self)@ == after_reserve(old(self)@, (ReplayKey { client_key, nonce }), now),
    {
        self.prune(now);
        let key = ReplayKey { client_key, nonce };
        if self.entries.contains(&key) {
            return false;
        }
        let of_key = |k: &ReplayKey, e: &ReplayEntry| -> (b: bool)
            ensures
                b == (k.client_key == client_key),
            { same_key(&k.client_key, &client_key) };
        let of_one: usize = self.entries.count(
            of_key,
            Ghost(|k: ReplayKey, e: ReplayEntry| k.client_key == client_key),
        );
        if of_one >= MAX_REPLAY_ENTRIES_PER_CLIENT {
            return false;
        }
        let is_pending = |k: &ReplayKey, e: &ReplayEntry| -> (b: bool)
            ensures
                b == (k.client_key == client_key && !e.confirmed),
            { same_key(&k.client_key, &client_key) && !e.confirmed };
        let pending: usize = self.entries.count(
            is_pending,
            Ghost(|k: ReplayKey, e: ReplayEntry| k.client_key == client_key && !e.confirmed),
        );
        if pending >= MAX_PENDING_REPLAYS_PER_CLIENT {
            return false;
        }
        if self.entries.len() >= MAX_REPLAY_ENTRIES {
            return false;
        }
        let entry = ReplayEntry { expires: now + PENDING_REPLAY_TTL, confirmed: false };
        proof {
            reserved_is_bounded(self@, key, entry);
        }
        self.entries.insert(key, entry);
        true
    }

    /// Keeps a reserved nonce for the full time.
    pub fn confirm(&mut self, client_key: [u8; 32], nonce: [u8; 32], now: u64) -> (r: bool)
        requires
            old(self).wf(),
            now <= CLOCK_END,
        ensures
            final(self).wf(),
            r == live(old(self)@, now).contains_key((ReplayKey { client_key, nonce })),
            final(self)@ == after_confirm(old(self)@, (ReplayKey { client_key, nonce }), now),
    {
        self.prune(now);
        let key = ReplayKey { client_key, nonce };
        if !self.entries.contains(&key) {
            return false;
        }
        let entry = ReplayEntry { expires: now + REPLAY_TTL, confirmed: true };
        proof {
            confirmed_is_bounded(self@, key, entry);
        }
        self.entries.insert(key, entry);
        true
    }
}

/// A nonce that was reserved is not reserved again while it lives, whatever is
/// reserved or confirmed meanwhile: no use of the cache drops a live nonce or
/// shortens its life.
pub proof fn a_live_nonce_is_never_taken_again(
    entries: Nonces,
    key: ReplayKey,
    other: ReplayKey,
    now: u64,
    later: u64,
)
    requires
        entries.contains_key(key),
        now <= later < entries[key].expires,
        now <= CLOCK_END,
    ensures
        ({
            let reserved = after_reserve(entries, other, now);
            let confirmed = after_confirm(entries, other, now);
            &&& reserved.contains_key(key)
            &&& reserved[key] == entries[key]
            &&& !reservable(live(reserved, later), key)
            &&& confirmed.contains_key(key)
            &&& other != key ==> confirmed[key] == entries[key]
            &&& other == key && later < now + REPLAY_TTL ==> !reservable(live(confirmed, later), key)
            &&& other != key ==> !reservable(live(confirmed, later), key)
        }),
{
}

/// A confirmed nonce is refused for the full time after its confirmation.
pub proof fn a_confirmed_nonce_is_refused(entries: Nonces, key: ReplayKey, now: u64, later: u64)
    requires
        now <= CLOCK_END,
        live(entries, now).contains_key(key),
        later < now + REPLAY_TTL,
    ensures
        !reservable(live(after_confirm(entries, key, now), later), key),
{
}

/// What one client reserves does not count for another.
pub proof fn clients_have_nonces_of_their_own(
    entries: Nonces,
    key: ReplayKey,
    other: [u8; 32],
    now: u64,
)
    requires
        key.client_key != other,
    ensures
        of_client(after_reserve(entries, key, now), other) == of_client(live(entries, now), other),
        pending_of(after_reserve(entries, key, now), other) == pending_of(
            live(entries, now),
            other,
        ),
        of_client(after_confirm(entries, key, now), other) == of_client(live(entries, now), other),
        pending_of(after_confirm(entries, key, now), other) == pending_of(
            live(entries, now),
            other,
        ),
{
    let at = live(entries, now);
    let reserved = after_reserve(entries, key, now);
    let confirmed = after_confirm(entries, key, now);
    assert(of_client(reserved, other) =~= of_client(at, other));
    assert(pending_of(reserved, other) =~= pending_of(at, other));
    assert(of_client(confirmed, other) =~= of_client(at, other));
    assert(pending_of(confirmed, other) =~= pending_of(at, other));
}

} // verus!
