//! The server's record of requests: what has been answered, what is under way,
//! and which wake may be tried again.
//!
//! An operation is dispatched at most once per attempt while its entry lives. A
//! repeated request gets the response that was recorded for it.

use crate::clock::{CLOCK_END, SECOND};
use crate::octets::{same_id, same_key};
use crate::protocol::{ReplyModel, ServerEnvelope};
use crate::table::{kept, Key, Table};
use crate::text::{same_texts, texts};
use vstd::prelude::*;

verus! {

/// How long a recorded response is kept.
pub const LEDGER_TTL: u64 = 900 * SECOND;

/// How long work that does not finish keeps its place.
pub const PENDING_LEDGER_TTL: u64 = 120 * SECOND;

/// How long after a receipt its retry ticket is good.
pub const RETRY_TTL: u64 = 90 * SECOND;

pub const MAX_LEDGER_ENTRIES: usize = 4096;

pub const MAX_LEDGER_ENTRIES_PER_CLIENT: usize = 256;

#[derive(Clone, Copy, Debug, PartialEq, Eq, Hash)]
pub struct OperationKey {
    pub client_key: [u8; 32],
    pub operation_id: [u8; 16],
}

impl Key for OperationKey {
    type Model = OperationKey;

    open spec fn model(&self) -> OperationKey {
        *self
    }

    fn same(&self, other: &Self) -> (r: bool) {
        same_key(&self.client_key, &other.client_key) && same_id(
            &self.operation_id,
            &other.operation_id,
        )
    }
}

/// What the ledger remembers of a wake.
pub struct WakeMeta {
    pub catalog_version: u64,
    pub host_ids: Vec<String>,
    pub boot_nonce: [u8; 16],
    pub ticket: [u8; 32],
    pub ticket_expires: u64,
    pub ticket_used: bool,
    pub attempt: u8,
}

/// A request for the second attempt of a wake.
pub struct WakeRetry<'a> {
    pub digest: [u8; 32],
    pub catalog_version: u64,
    pub host_ids: &'a Vec<String>,
    pub boot_nonce: [u8; 16],
    pub ticket: [u8; 32],
    pub now: u64,
}

pub struct LedgerEntry {
    pub digest: [u8; 32],
    pub wake: Option<WakeMeta>,
    pub response: Option<ServerEnvelope>,
    pub pending: bool,
    pub expires: u64,
}

pub enum BeginResult {
    New,
    Cached(ServerEnvelope),
    Busy,
    Conflict,
}

pub enum WakeBeginResult {
    New([u8; 32]),
    Cached(ServerEnvelope),
    Busy,
    Conflict,
    Replay,
}

pub struct WakeModel {
    pub catalog_version: u64,
    pub host_ids: Seq<Seq<char>>,
    pub boot_nonce: [u8; 16],
    pub ticket: [u8; 32],
    pub ticket_expires: u64,
    pub ticket_used: bool,
    pub attempt: u8,
}

pub struct EntryModel {
    pub digest: [u8; 32],
    pub wake: Option<WakeModel>,
    pub response: Option<ReplyModel>,
    pub pending: bool,
    pub expires: u64,
}

pub enum BeginModel {
    New,
    Cached(ReplyModel),
    Busy,
    Conflict,
    Replay,
}

impl View for WakeMeta {
    type V = WakeModel;

    open spec fn view(&self) -> WakeModel {
        WakeModel {
            catalog_version: self.catalog_version,
            host_ids: texts(self.host_ids@),
            boot_nonce: self.boot_nonce,
            ticket: self.ticket,
            ticket_expires: self.ticket_expires,
            ticket_used: self.ticket_used,
            attempt: self.attempt,
        }
    }
}

impl View for LedgerEntry {
    type V = EntryModel;

    open spec fn view(&self) -> EntryModel {
        EntryModel {
            digest: self.digest,
            wake: match self.wake {
                Some(wake) => Some(wake@),
                None => None,
            },
            response: match self.response {
                Some(response) => Some(response@),
                None => None,
            },
            pending: self.pending,
            expires: self.expires,
        }
    }
}

impl View for BeginResult {
    type V = BeginModel;

    open spec fn view(&self) -> BeginModel {
        match *self {
            BeginResult::New => BeginModel::New,
            BeginResult::Cached(response) => BeginModel::Cached(response@),
            BeginResult::Busy => BeginModel::Busy,
            BeginResult::Conflict => BeginModel::Conflict,
        }
    }
}

impl WakeBeginResult {
    /// The verdict, apart from the ticket of a new attempt.
    pub open spec fn verdict(self) -> BeginModel {
        match self {
            WakeBeginResult::New(_) => BeginModel::New,
            WakeBeginResult::Cached(response) => BeginModel::Cached(response@),
            WakeBeginResult::Busy => BeginModel::Busy,
            WakeBeginResult::Conflict => BeginModel::Conflict,
            WakeBeginResult::Replay => BeginModel::Replay,
        }
    }
}

/// The entries that have not expired.
pub open spec fn live(entries: Map<OperationKey, EntryModel>, now: u64) -> Map<
    OperationKey,
    EntryModel,
> {
    kept(entries, |k: OperationKey, e: EntryModel| e.expires > now)
}

/// The operations of one client.
pub open spec fn of_client(
    entries: Map<OperationKey, EntryModel>,
    client_key: [u8; 32],
) -> Set<OperationKey> {
    entries.dom().filter(|k: OperationKey| k.client_key == client_key)
}

/// There is room for one more operation of the client.
pub open spec fn has_room(entries: Map<OperationKey, EntryModel>, client_key: [u8; 32]) -> bool {
    entries.len() < MAX_LEDGER_ENTRIES && of_client(entries, client_key).len()
        < MAX_LEDGER_ENTRIES_PER_CLIENT
}

/// What is answered to a request that is not a wake.
pub open spec fn request_verdict(
    entries: Map<OperationKey, EntryModel>,
    key: OperationKey,
    digest: [u8; 32],
) -> BeginModel {
    if entries.contains_key(key) {
        let entry = entries[key];
        if entry.digest != digest {
            BeginModel::Conflict
        } else if !entry.pending && entry.response is Some {
            BeginModel::Cached(entry.response->0)
        } else {
            BeginModel::Busy
        }
    } else if has_room(entries, key.client_key) {
        BeginModel::New
    } else {
        BeginModel::Busy
    }
}

/// The entry of an operation that has just been admitted.
pub open spec fn reserved(digest: [u8; 32], wake: Option<WakeModel>, now: u64) -> EntryModel {
    EntryModel {
        digest,
        wake,
        response: None,
        pending: true,
        expires: (now + PENDING_LEDGER_TTL) as u64,
    }
}

/// The ticket that an operation was given.
pub open spec fn ticket_of(entries: Map<OperationKey, EntryModel>, key: OperationKey) -> Option<
    [u8; 32],
> {
    if entries.contains_key(key) && entries[key].wake is Some {
        Some(entries[key].wake->0.ticket)
    } else {
        None
    }
}

/// An operation was given this ticket.
pub open spec fn in_use(entries: Map<OperationKey, EntryModel>, ticket: [u8; 32]) -> bool {
    exists|key: OperationKey| #[trigger] ticket_of(entries, key) == Some(ticket)
}

/// No two operations have one ticket.
pub open spec fn distinct_tickets(entries: Map<OperationKey, EntryModel>) -> bool {
    forall|a: OperationKey, b: OperationKey|
        (#[trigger] ticket_of(entries, a)) is Some && ticket_of(entries, a) == #[trigger] ticket_of(
            entries,
            b,
        ) ==> a == b
}

/// What is answered to the first attempt of a wake, which gets `ticket` if it is
/// new. A ticket that another operation has is not given again.
pub open spec fn first_verdict(
    entries: Map<OperationKey, EntryModel>,
    key: OperationKey,
    digest: [u8; 32],
    ticket: [u8; 32],
) -> BeginModel {
    if entries.contains_key(key) {
        let entry = entries[key];
        if entry.digest != digest {
            BeginModel::Conflict
        } else if entry.pending {
            BeginModel::Busy
        } else if entry.wake is Some && entry.wake->0.attempt != 1 {
            BeginModel::Replay
        } else if entry.response is Some {
            BeginModel::Cached(entry.response->0)
        } else {
            BeginModel::Busy
        }
    } else if has_room(entries, key.client_key) && !in_use(entries, ticket) {
        BeginModel::New
    } else {
        BeginModel::Busy
    }
}

/// The entry after its receipt was handed out again at `now`: the retry ticket
/// is good for another full window, the entry lives no longer than before.
pub open spec fn renewed(entry: EntryModel, now: u64) -> EntryModel {
    match entry.wake {
        Some(wake) if wake.attempt == 1 && !wake.ticket_used => EntryModel {
            wake: Some(WakeModel { ticket_expires: (now + RETRY_TTL) as u64, ..wake }),
            ..entry
        },
        _ => entry,
    }
}

/// The ticket is one that the operation's wake was given, and is still good.
pub open spec fn ticket_good(
    entries: Map<OperationKey, EntryModel>,
    key: OperationKey,
    ticket: [u8; 32],
    now: u64,
) -> bool {
    &&& entries.contains_key(key)
    &&& entries[key].wake is Some
    &&& entries[key].wake->0.ticket == ticket
    &&& entries[key].wake->0.ticket_expires > now
}

/// What is answered to the second attempt of a wake.
pub open spec fn second_verdict(
    entries: Map<OperationKey, EntryModel>,
    key: OperationKey,
    retry: WakeRetry,
) -> BeginModel {
    if !ticket_good(entries, key, retry.ticket, retry.now) {
        BeginModel::Replay
    } else {
        let entry = entries[key];
        let wake = entry.wake->0;
        if entry.digest != retry.digest {
            BeginModel::Conflict
        } else if entry.pending {
            BeginModel::Busy
        } else if entry.response is Some && wake.attempt >= 2 {
            BeginModel::Cached(entry.response->0)
        } else if wake.catalog_version == retry.catalog_version && wake.host_ids == texts(
            retry.host_ids@,
        ) && wake.boot_nonce == retry.boot_nonce && wake.attempt == 1 && !wake.ticket_used {
            BeginModel::New
        } else {
            BeginModel::Replay
        }
    }
}

/// The entry of a wake whose second attempt was admitted at `now`.
pub open spec fn retried(entry: EntryModel, now: u64) -> EntryModel {
    EntryModel {
        wake: Some(WakeModel { ticket_used: true, attempt: 2, ..entry.wake->0 }),
        response: None,
        pending: true,
        expires: (now + PENDING_LEDGER_TTL) as u64,
        ..entry
    }
}

/// The entry of an operation whose response was recorded at `now`.
pub open spec fn completed(entry: EntryModel, response: ReplyModel, now: u64) -> EntryModel {
    EntryModel {
        response: Some(response),
        pending: false,
        expires: (now + LEDGER_TTL) as u64,
        ..renewed(entry, now)
    }
}

/// The record of a wake whose first attempt was admitted at `now`.
pub open spec fn first_wake(
    catalog_version: u64,
    host_ids: Seq<Seq<char>>,
    boot_nonce: [u8; 16],
    ticket: [u8; 32],
    now: u64,
) -> WakeModel {
    WakeModel {
        catalog_version,
        host_ids,
        boot_nonce,
        ticket,
        ticket_expires: (now + RETRY_TTL) as u64,
        ticket_used: false,
        attempt: 1,
    }
}

/// The entries after a request that is not a wake.
pub open spec fn after_request(
    entries: Map<OperationKey, EntryModel>,
    key: OperationKey,
    digest: [u8; 32],
    now: u64,
) -> Map<OperationKey, EntryModel> {
    if request_verdict(live(entries, now), key, digest) is New {
        live(entries, now).insert(key, reserved(digest, None, now))
    } else {
        live(entries, now)
    }
}

/// The entries after a request for the first attempt of a wake.
pub open spec fn after_first(
    entries: Map<OperationKey, EntryModel>,
    key: OperationKey,
    digest: [u8; 32],
    wake: WakeModel,
    now: u64,
) -> Map<OperationKey, EntryModel> {
    match first_verdict(live(entries, now), key, digest, wake.ticket) {
        BeginModel::New => live(entries, now).insert(key, reserved(digest, Some(wake), now)),
        BeginModel::Cached(_) => live(entries, now).insert(
            key,
            renewed(live(entries, now)[key], now),
        ),
        _ => live(entries, now),
    }
}

/// The entries after a request for the second attempt of a wake.
pub open spec fn after_second(
    entries: Map<OperationKey, EntryModel>,
    key: OperationKey,
    retry: WakeRetry,
) -> Map<OperationKey, EntryModel> {
    if second_verdict(live(entries, retry.now), key, retry) is New {
        live(entries, retry.now).insert(
            key,
            retried(live(entries, retry.now)[key], retry.now),
        )
    } else {
        live(entries, retry.now)
    }
}

/// The entries after a response was recorded.
pub open spec fn after_complete(
    entries: Map<OperationKey, EntryModel>,
    key: OperationKey,
    response: ReplyModel,
    now: u64,
) -> Map<OperationKey, EntryModel> {
    if entries.contains_key(key) {
        entries.insert(key, completed(entries[key], response, now))
    } else {
        entries
    }
}

/// The bounds on the number of entries.
pub open spec fn bounded(entries: Map<OperationKey, EntryModel>) -> bool {
    &&& entries.dom().finite()
    &&& entries.len() <= MAX_LEDGER_ENTRIES
    &&& forall|client_key: [u8; 32]|
        (#[trigger] of_client(entries, client_key)).len() <= MAX_LEDGER_ENTRIES_PER_CLIENT
}

pub struct Ledger {
    pub entries: Table<OperationKey, LedgerEntry>,
}

impl View for Ledger {
    type V = Map<OperationKey, EntryModel>;

    open spec fn view(&self) -> Map<OperationKey, EntryModel> {
        self.entries@.map_values(|e: LedgerEntry| e@)
    }
}

proof fn fewer_entries(
    more: Map<OperationKey, EntryModel>,
    less: Map<OperationKey, EntryModel>,
)
    requires
        bounded(more),
        less.dom().subset_of(more.dom()),
    ensures
        bounded(less),
{
    vstd::set_lib::lemma_len_subset(less.dom(), more.dom());
    assert forall|client_key: [u8; 32]| (#[trigger] of_client(less, client_key)).len()
        <= MAX_LEDGER_ENTRIES_PER_CLIENT by {
        let a = of_client(less, client_key);
        let b = of_client(more, client_key);
        assert(a.subset_of(b));
        assert(b.subset_of(more.dom()));
        vstd::set_lib::lemma_len_subset(b, more.dom());
        vstd::set_lib::lemma_len_subset(a, b);
    }
}

proof fn one_more_entry(
    entries: Map<OperationKey, EntryModel>,
    key: OperationKey,
    entry: EntryModel,
)
    requires
        bounded(entries),
        entries.contains_key(key) || has_room(entries, key.client_key),
    ensures
        bounded(entries.insert(key, entry)),
{
    let more = entries.insert(key, entry);
    if entries.contains_key(key) {
        assert(more.dom() =~= entries.dom());
        fewer_entries(entries, more);
    } else {
        assert(more.dom() =~= entries.dom().insert(key));
        assert forall|client_key: [u8; 32]| (#[trigger] of_client(more, client_key)).len()
            <= MAX_LEDGER_ENTRIES_PER_CLIENT by {
            let a = of_client(entries, client_key);
            let b = of_client(more, client_key);
            assert(a.subset_of(entries.dom()));
            vstd::set_lib::lemma_len_subset(a, entries.dom());
            if client_key == key.client_key {
                assert(b =~= a.insert(key));
            } else {
                assert(b =~= a);
            }
        }
    }
}

proof fn fewer_tickets(entries: Map<OperationKey, EntryModel>, now: u64)
    requires
        distinct_tickets(entries),
    ensures
        distinct_tickets(live(entries, now)),
{
    let less = live(entries, now);
    assert forall|a: OperationKey, b: OperationKey|
        (#[trigger] ticket_of(less, a)) is Some && ticket_of(less, a) == #[trigger] ticket_of(
            less,
            b,
        ) implies a == b by {
        assert(ticket_of(entries, a) == ticket_of(less, a));
        assert(ticket_of(entries, b) == ticket_of(less, b));
    }
}

proof fn one_more_ticket(
    entries: Map<OperationKey, EntryModel>,
    key: OperationKey,
    entry: EntryModel,
)
    requires
        distinct_tickets(entries),
        entry.wake is Some ==> {
            ||| ticket_of(entries, key) == Some(entry.wake->0.ticket)
            ||| !in_use(entries, entry.wake->0.ticket)
        },
    ensures
        distinct_tickets(entries.insert(key, entry)),
{
    let more = entries.insert(key, entry);
    assert forall|a: OperationKey, b: OperationKey|
        (#[trigger] ticket_of(more, a)) is Some && ticket_of(more, a) == #[trigger] ticket_of(
            more,
            b,
        ) implies a == b by {
        if a != key {
            assert(ticket_of(entries, a) == ticket_of(more, a));
        }
        if b != key {
            assert(ticket_of(entries, b) == ticket_of(more, b));
        }
    }
}

impl Ledger {
    pub open spec fn wf(self) -> bool {
        self.entries.wf() && bounded(self@) && distinct_tickets(self@)
    }

    pub fn new() -> (r: Ledger)
        ensures
            r.wf(),
            r@ == Map::<OperationKey, EntryModel>::empty(),
    {
        let r = Ledger { entries: Table::new() };
        assert(r@ =~= Map::<OperationKey, EntryModel>::empty());
        assert forall|client_key: [u8; 32]| (#[trigger] of_client(r@, client_key)).len()
            <= MAX_LEDGER_ENTRIES_PER_CLIENT by {
            assert(of_client(r@, client_key) =~= Set::<OperationKey>::empty());
        }
        r
    }

    /// Forgets what has expired. Work that does not finish has a shorter
    /// deadline than a recorded response.
    pub fn prune(&mut self, now: u64)
        requires
            old(self).wf(),
        ensures
            final(self).wf(),
            final(self)@ == live(old(self)@, now),
    {
        let ghost before = *self;
        let alive = |k: &OperationKey, e: &LedgerEntry| -> (b: bool)
            ensures
                b == (now < e.expires),
            { now < e.expires };
        self.entries.retain(alive, Ghost(|k: OperationKey, e: LedgerEntry| e.expires > now));
        assert(self@ =~= live(before@, now));
        proof {
            fewer_entries(before@, self@);
            fewer_tickets(before@, now);
        }
    }

    /// Whether an operation was given this ticket.
    fn ticket_in_use(&self, ticket: &[u8; 32]) -> (r: bool)
        requires
            self.wf(),
        ensures
            r == in_use(self@, *ticket),
    {
        let wanted: [u8; 32] = *ticket;
        let has = |k: &OperationKey, e: &LedgerEntry| -> (b: bool)
            ensures
                b == (e.wake is Some && e.wake->0.ticket == wanted),
            {
                match &e.wake {
                    Some(wake) => same_key(&wake.ticket, &wanted),
                    None => false,
                }
            };
        let ghost holds = |k: OperationKey, e: LedgerEntry|
            e.wake is Some && e.wake->0.ticket == wanted;
        let n: usize = self.entries.count(has, Ghost(holds));
        proof {
            let found = kept(self.entries@, holds);
            assert(found.dom().subset_of(self.entries@.dom()));
            vstd::set_lib::lemma_len_subset(found.dom(), self.entries@.dom());
            if n > 0 {
                let key = found.dom().choose();
                assert(found.contains_key(key));
                assert(ticket_of(self@, key) == Some(wanted));
            } else {
                assert forall|key: OperationKey| #[trigger]
                    ticket_of(self@, key) != Some(wanted) by {
                    if ticket_of(self@, key) == Some(wanted) {
                        assert(found.contains_key(key));
                        assert(found.dom() =~= Set::<OperationKey>::empty());
                    }
                }
            }
        }
        n > 0
    }

    fn has_capacity_for(&self, client_key: &[u8; 32]) -> (r: bool)
        requires
            self.wf(),
        ensures
            r == has_room(self@, *client_key),
    {
        assert(self@.dom() =~= self.entries@.dom());
        let key: [u8; 32] = *client_key;
        let all: usize = self.entries.len();
        let of_key = |k: &OperationKey, e: &LedgerEntry| -> (b: bool)
            ensures
                b == (k.client_key == key),
            { same_key(&k.client_key, &key) };
        let ghost named = |k: OperationKey, e: LedgerEntry| k.client_key == key;
        let of_one: usize = self.entries.count(of_key, Ghost(named));
        assert(kept(self.entries@, named).dom() =~= of_client(self@, key));
        all < MAX_LEDGER_ENTRIES && of_one < MAX_LEDGER_ENTRIES_PER_CLIENT
    }

    /// Admits a request that is not a wake, or says what became of it.
    pub fn begin_request(&mut self, key: OperationKey, digest: [u8; 32], now: u64) -> (r:
        BeginResult)
        requires
            old(self).wf(),
            now <= CLOCK_END,
        ensures
            final(self).wf(),
            r@ == request_verdict(live(old(self)@, now), key, digest),
            final(self)@ == after_request(old(self)@, key, digest, now),
    {
        self.prune(now);
        if let Some(entry) = self.entries.get(&key) {
            if !same_key(&entry.digest, &digest) {
                return BeginResult::Conflict;
            }
            if entry.pending {
                return BeginResult::Busy;
            }
            if let Some(response) = &entry.response {
                return BeginResult::Cached(response.clone());
            }
            return BeginResult::Busy;
        }
        if !self.has_capacity_for(&key.client_key) {
            return BeginResult::Busy;
        }
        let ghost entries = self@;
        proof {
            one_more_entry(entries, key, reserved(digest, None, now));
        }
        self.entries.insert(
            key,
            LedgerEntry {
                digest,
                wake: None,
                response: None,
                pending: true,
                expires: now + PENDING_LEDGER_TTL,
            },
        );
        assert(self@ =~= entries.insert(key, reserved(digest, None, now)));
        proof {
            one_more_ticket(entries, key, reserved(digest, None, now));
        }
        BeginResult::New
    }

    /// Admits the first attempt of a wake under `ticket`, or says what became of
    /// it. A receipt that is handed out again renews the retry ticket.
    pub fn begin_wake_attempt1(
        &mut self,
        key: OperationKey,
        digest: [u8; 32],
        catalog_version: u64,
        host_ids: Vec<String>,
        boot_nonce: [u8; 16],
        ticket: [u8; 32],
        now: u64,
    ) -> (r: WakeBeginResult)
        requires
            old(self).wf(),
            now <= CLOCK_END,
        ensures
            final(self).wf(),
            r.verdict() == first_verdict(live(old(self)@, now), key, digest, ticket),
            r is New ==> r->New_0 == ticket,
            final(self)@ == after_first(
                old(self)@,
                key,
                digest,
                first_wake(catalog_version, texts(host_ids@), boot_nonce, ticket, now),
                now,
            ),
    {
        self.prune(now);
        let ghost entries = self@;
        if let Some(entry) = self.entries.get(&key) {
            if !same_key(&entry.digest, &digest) {
                return WakeBeginResult::Conflict;
            }
            if entry.pending {
                return WakeBeginResult::Busy;
            }
            if let Some(wake) = &entry.wake {
                if wake.attempt != 1 {
                    return WakeBeginResult::Replay;
                }
            }
            let response: ServerEnvelope = match &entry.response {
                Some(response) => response.clone(),
                None => {
                    return WakeBeginResult::Busy;
                },
            };
            self.renew(&key, now);
            return WakeBeginResult::Cached(response);
        }
        if !self.has_capacity_for(&key.client_key) || self.ticket_in_use(&ticket) {
            return WakeBeginResult::Busy;
        }
        let wake = WakeMeta {
            catalog_version,
            host_ids,
            boot_nonce,
            ticket,
            ticket_expires: now + RETRY_TTL,
            ticket_used: false,
            attempt: 1,
        };
        let ghost entry = reserved(digest, Some(wake@), now);
        proof {
            one_more_entry(entries, key, entry);
        }
        self.entries.insert(
            key,
            LedgerEntry {
                digest,
                wake: Some(wake),
                response: None,
                pending: true,
                expires: now + PENDING_LEDGER_TTL,
            },
        );
        assert(self@ =~= entries.insert(key, entry));
        proof {
            one_more_ticket(entries, key, entry);
        }
        WakeBeginResult::New(ticket)
    }

    /// Starts the window of a wake's unused retry ticket anew.
    fn renew(&mut self, key: &OperationKey, now: u64)
        requires
            old(self).wf(),
            old(self)@.contains_key(*key),
            now <= CLOCK_END,
        ensures
            final(self).wf(),
            final(self)@ == old(self)@.insert(*key, renewed(old(self)@[*key], now)),
    {
        let ghost entries = self@;
        if let Some(mut entry) = self.entries.take(key) {
            let ghost was = entry@;
            if let Some(mut wake) = entry.wake.take() {
                if wake.attempt == 1 && !wake.ticket_used {
                    wake.ticket_expires = now + RETRY_TTL;
                }
                entry.wake = Some(wake);
            }
            assert(entry@ == renewed(was, now));
            self.entries.insert(*key, entry);
        }
        assert(self@ =~= entries.insert(*key, renewed(entries[*key], now)));
        proof {
            one_more_entry(entries, *key, renewed(entries[*key], now));
            one_more_ticket(entries, *key, renewed(entries[*key], now));
        }
    }

    /// Admits the second attempt of a wake, or says what became of it.
    pub fn begin_wake_attempt2(&mut self, key: OperationKey, retry: WakeRetry<'_>) -> (r:
        WakeBeginResult)
        requires
            old(self).wf(),
            retry.now <= CLOCK_END,
        ensures
            final(self).wf(),
            r.verdict() == second_verdict(live(old(self)@, retry.now), key, retry),
            r is New ==> r->New_0 == retry.ticket,
            final(self)@ == after_second(old(self)@, key, retry),
    {
        let now: u64 = retry.now;
        self.prune(now);
        let ghost entries = self@;
        {
            let entry: &LedgerEntry = match self.entries.get(&key) {
                Some(entry) => entry,
                None => {
                    return WakeBeginResult::Replay;
                },
            };
            let wake: &WakeMeta = match &entry.wake {
                Some(wake) => wake,
                None => {
                    return WakeBeginResult::Replay;
                },
            };
            if !same_key(&wake.ticket, &retry.ticket) || wake.ticket_expires <= now {
                return WakeBeginResult::Replay;
            }
            if !same_key(&entry.digest, &retry.digest) {
                return WakeBeginResult::Conflict;
            }
            if entry.pending {
                return WakeBeginResult::Busy;
            }
            if wake.attempt >= 2 {
                if let Some(response) = &entry.response {
                    return WakeBeginResult::Cached(response.clone());
                }
            }
            if wake.catalog_version != retry.catalog_version || !same_texts(
                &wake.host_ids,
                retry.host_ids,
            ) || !same_id(&wake.boot_nonce, &retry.boot_nonce) || wake.attempt != 1
                || wake.ticket_used {
                return WakeBeginResult::Replay;
            }
        }
        let ghost entry_model = retried(entries[key], now);
        if let Some(mut entry) = self.entries.take(&key) {
            if let Some(mut wake) = entry.wake.take() {
                wake.ticket_used = true;
                wake.attempt = 2;
                entry.wake = Some(wake);
            }
            entry.pending = true;
            entry.response = None;
            entry.expires = now + PENDING_LEDGER_TTL;
            assert(entry@ == entry_model);
            self.entries.insert(key, entry);
        }
        assert(self@ =~= entries.insert(key, entry_model));
        proof {
            one_more_entry(entries, key, entry_model);
            one_more_ticket(entries, key, entry_model);
        }
        WakeBeginResult::New(retry.ticket)
    }

    /// Records the response of an operation. The retry window of a first attempt
    /// starts here, when its receipt is ready.
    pub fn complete(&mut self, key: OperationKey, response: ServerEnvelope, now: u64)
        requires
            old(self).wf(),
            now <= CLOCK_END,
        ensures
            final(self).wf(),
            final(self)@ == after_complete(old(self)@, key, response@, now),
    {
        let ghost entries = self@;
        if !self.entries.contains(&key) {
            return;
        }
        assert(entries.contains_key(key));
        self.renew(&key, now);
        let ghost between = self@;
        assert(between.contains_key(key) && between[key] == renewed(entries[key], now));
        let ghost entry_model = completed(entries[key], response@, now);
        if let Some(mut entry) = self.entries.take(&key) {
            entry.pending = false;
            entry.response = Some(response);
            entry.expires = now + LEDGER_TTL;
            assert(entry@ == entry_model);
            self.entries.insert(key, entry);
        }
        assert(self@ =~= between.insert(key, entry_model));
        assert(self@ =~= entries.insert(key, entry_model));
        proof {
            one_more_entry(entries, key, entry_model);
            one_more_ticket(entries, key, entry_model);
        }
    }

    /// The attempt that a wake is at.
    pub fn wake_attempt(&self, key: &OperationKey) -> (r: Option<u8>)
        requires
            self.wf(),
        ensures
            r == if self@.contains_key(*key) && self@[*key].wake is Some {
                Some(self@[*key].wake->0.attempt)
            } else {
                None
            },
    {
        match self.entries.get(key) {
            Some(entry) => match &entry.wake {
                Some(wake) => Some(wake.attempt),
                None => None,
            },
            None => None,
        }
    }
}

/// One use of the ledger.
pub enum Step<'a> {
    Request { key: OperationKey, digest: [u8; 32], now: u64 },
    First { key: OperationKey, digest: [u8; 32], wake: WakeModel, now: u64 },
    Second { key: OperationKey, retry: WakeRetry<'a> },
    Complete { key: OperationKey, response: ReplyModel, now: u64 },
}

impl<'a> Step<'a> {
    pub open spec fn key(self) -> OperationKey {
        match self {
            Step::Request { key, .. } => key,
            Step::First { key, .. } => key,
            Step::Second { key, .. } => key,
            Step::Complete { key, .. } => key,
        }
    }

    pub open spec fn now(self) -> u64 {
        match self {
            Step::Request { now, .. } => now,
            Step::First { now, .. } => now,
            Step::Second { retry, .. } => retry.now,
            Step::Complete { now, .. } => now,
        }
    }

    /// The entries after the step.
    pub open spec fn after(self, entries: Map<OperationKey, EntryModel>) -> Map<
        OperationKey,
        EntryModel,
    > {
        match self {
            Step::Request { key, digest, now } => after_request(entries, key, digest, now),
            Step::First { key, digest, wake, now } => after_first(entries, key, digest, wake, now),
            Step::Second { key, retry } => after_second(entries, key, retry),
            Step::Complete { key, response, now } => after_complete(entries, key, response, now),
        }
    }

    /// The step admits its operation: it is dispatched now.
    pub open spec fn dispatches(self, entries: Map<OperationKey, EntryModel>) -> bool {
        match self {
            Step::Request { key, digest, now } => request_verdict(
                live(entries, now),
                key,
                digest,
            ) is New,
            Step::First { key, digest, wake, now } => first_verdict(
                live(entries, now),
                key,
                digest,
                wake.ticket,
            ) is New,
            Step::Second { key, retry } => second_verdict(
                live(entries, retry.now),
                key,
                retry,
            ) is New,
            Step::Complete { .. } => false,
        }
    }
}

/// The wake is at its second attempt.
pub open spec fn at_second(entries: Map<OperationKey, EntryModel>, key: OperationKey) -> bool {
    entries.contains_key(key) && entries[key].wake is Some && entries[key].wake->0.attempt == 2
}

/// While the record of an operation lives, nothing but the second attempt of
/// its wake is dispatched under its key.
pub proof fn a_recorded_operation_is_not_dispatched_again(
    entries: Map<OperationKey, EntryModel>,
    step: Step,
)
    requires
        entries.contains_key(step.key()),
        entries[step.key()].expires > step.now(),
    ensures
        step.dispatches(entries) ==> step is Second && !at_second(entries, step.key()),
{
}

/// A retry ticket is good once: when the second attempt has been dispatched the
/// wake stays at its second attempt for as long as its record lives, whatever is
/// asked meanwhile, and no second attempt is dispatched again.
pub proof fn a_second_attempt_is_dispatched_once(
    entries: Map<OperationKey, EntryModel>,
    key: OperationKey,
    step: Step,
)
    requires
        at_second(entries, key),
        entries[key].expires > step.now(),
    ensures
        at_second(step.after(entries), key),
        step.key() == key ==> !step.dispatches(entries),
{
}

/// A second attempt is dispatched only for a first attempt whose receipt is
/// recorded, with the same contents, targets and boot nonce, and with the
/// ticket that the first attempt was given.
pub proof fn a_retry_repeats_its_first_attempt(
    entries: Map<OperationKey, EntryModel>,
    key: OperationKey,
    retry: WakeRetry,
)
    requires
        (Step::Second { key, retry }).dispatches(entries),
    ensures
        entries.contains_key(key),
        !entries[key].pending,
        entries[key].digest == retry.digest,
        entries[key].wake is Some,
        ({
            let wake = entries[key].wake->0;
            &&& wake.attempt == 1
            &&& wake.ticket == retry.ticket
            &&& wake.catalog_version == retry.catalog_version
            &&& wake.host_ids == texts(retry.host_ids@)
            &&& wake.boot_nonce == retry.boot_nonce
        }),
        at_second((Step::Second { key, retry }).after(entries), key),
{
}

/// Until the record expires, a repeated request gets the response that was
/// recorded for it, also after the ledger was used under another key.
pub proof fn a_recorded_response_is_given_back(
    entries: Map<OperationKey, EntryModel>,
    key: OperationKey,
    response: ReplyModel,
    now: u64,
    step: Step,
    fresh: [u8; 32],
    later: u64,
)
    requires
        now <= CLOCK_END,
        entries.contains_key(key),
        step.key() != key,
        step.now() < now + LEDGER_TTL,
        later < now + LEDGER_TTL,
    ensures
        ({
            let recorded = after_complete(entries, key, response, now);
            let digest = entries[key].digest;
            &&& step.after(recorded).contains_key(key)
            &&& step.after(recorded)[key] == recorded[key]
            &&& request_verdict(live(step.after(recorded), later), key, digest)
                == BeginModel::Cached(response)
            &&& entries[key].wake is None || entries[key].wake->0.attempt == 1 ==> first_verdict(
                live(step.after(recorded), later),
                key,
                digest,
                fresh,
            ) == BeginModel::Cached(response)
        }),
{
}

/// Handing a receipt out again renews the retry ticket and nothing else: the
/// record lives no longer for it, and nothing is dispatched.
pub proof fn a_recovered_receipt_keeps_its_record(
    entries: Map<OperationKey, EntryModel>,
    key: OperationKey,
    digest: [u8; 32],
    wake: WakeModel,
    now: u64,
)
    requires
        first_verdict(live(entries, now), key, digest, wake.ticket) is Cached,
    ensures
        ({
            let after = after_first(entries, key, digest, wake, now);
            &&& after.contains_key(key)
            &&& after[key].expires == entries[key].expires
            &&& after[key].response == entries[key].response
            &&& !after[key].pending
            &&& after[key].wake is Some == entries[key].wake is Some
            &&& after[key].wake is Some ==> {
                &&& after[key].wake->0.attempt == 1
                &&& after[key].wake->0.ticket == entries[key].wake->0.ticket
                &&& after[key].wake->0.ticket_used == entries[key].wake->0.ticket_used
            }
        }),
{
}

/// What one client does leaves the live records of every other client, and of
/// every other operation, as they were.
pub proof fn operations_do_not_interfere(
    entries: Map<OperationKey, EntryModel>,
    key: OperationKey,
    step: Step,
)
    requires
        step.key() != key,
        entries.contains_key(key),
        entries[key].expires > step.now(),
    ensures
        step.after(entries).contains_key(key),
        step.after(entries)[key] == entries[key],
{
}

/// The record of the operation lives at each of the steps.
pub open spec fn outlives(
    entries: Map<OperationKey, EntryModel>,
    key: OperationKey,
    steps: Seq<Step>,
) -> bool
    decreases steps.len(),
{
    steps.len() > 0 ==> {
        &&& entries.contains_key(key)
        &&& entries[key].expires > steps[0].now()
        &&& outlives(steps[0].after(entries), key, steps.drop_first())
    }
}

/// How often the steps dispatch the operation.
pub open spec fn dispatches_of(
    entries: Map<OperationKey, EntryModel>,
    key: OperationKey,
    steps: Seq<Step>,
) -> nat
    decreases steps.len(),
{
    if steps.len() == 0 {
        0
    } else {
        let rest = dispatches_of(steps[0].after(entries), key, steps.drop_first());
        if steps[0].key() == key && steps[0].dispatches(entries) {
            1 + rest
        } else {
            rest
        }
    }
}

/// Whatever is asked in whatever order, a recorded operation is dispatched at most
/// once more while its record lives, and that is the second attempt of its wake;
/// one at its second attempt is not dispatched at all.
pub proof fn an_operation_is_dispatched_at_most_once_more(
    entries: Map<OperationKey, EntryModel>,
    key: OperationKey,
    steps: Seq<Step>,
)
    requires
        outlives(entries, key, steps),
    ensures
        dispatches_of(entries, key, steps) <= 1,
        at_second(entries, key) ==> dispatches_of(entries, key, steps) == 0,
    decreases steps.len(),
{
    if steps.len() > 0 {
        let step = steps[0];
        an_operation_is_dispatched_at_most_once_more(step.after(entries), key, steps.drop_first());
        if at_second(entries, key) {
            a_second_attempt_is_dispatched_once(entries, key, step);
        }
        if step.key() == key && step.dispatches(entries) {
            a_recorded_operation_is_not_dispatched_again(entries, step);
            match step {
                Step::Second { key, retry } => {
                    a_retry_repeats_its_first_attempt(entries, key, retry);
                },
                _ => {},
            }
        }
    }
}

proof fn tickets_stay_distinct(entries: Map<OperationKey, EntryModel>, step: Step)
    requires
        distinct_tickets(entries),
    ensures
        distinct_tickets(step.after(entries)),
{
    let left = live(entries, step.now());
    fewer_tickets(entries, step.now());
    match step {
        Step::Request { key, digest, now } => {
            one_more_ticket(left, key, reserved(digest, None, now));
        },
        Step::First { key, digest, wake, now } => {
            match first_verdict(left, key, digest, wake.ticket) {
                BeginModel::New => {
                    one_more_ticket(left, key, reserved(digest, Some(wake), now));
                },
                BeginModel::Cached(_) => {
                    one_more_ticket(left, key, renewed(left[key], now));
                },
                _ => {},
            }
        },
        Step::Second { key, retry } => {
            if second_verdict(left, key, retry) is New {
                one_more_ticket(left, key, retried(left[key], retry.now));
            }
        },
        Step::Complete { key, response, now } => {
            if entries.contains_key(key) {
                one_more_ticket(entries, key, completed(entries[key], response, now));
            }
        },
    }
}

/// What is answered to a second attempt with a ticket that has bought its resend:
/// under another operation, or when it has lapsed, it is a replay; with other
/// contents a conflict; and the same request waits for its receipt, or gets it.
pub proof fn a_used_ticket_is_answered(
    entries: Map<OperationKey, EntryModel>,
    key: OperationKey,
    other: OperationKey,
    retry: WakeRetry,
)
    requires
        distinct_tickets(entries),
        at_second(entries, key),
        entries[key].expires > retry.now,
        entries[key].wake->0.ticket == retry.ticket,
    ensures
        ({
            let verdict = second_verdict(live(entries, retry.now), other, retry);
            let entry = entries[key];
            &&& !(verdict is New)
            &&& other != key ==> verdict is Replay
            &&& other == key ==> verdict == if entry.wake->0.ticket_expires <= retry.now {
                BeginModel::Replay
            } else if entry.digest != retry.digest {
                BeginModel::Conflict
            } else if entry.pending {
                BeginModel::Busy
            } else {
                match entry.response {
                    Some(response) => BeginModel::Cached(response),
                    None => BeginModel::Replay,
                }
            }
        }),
{
    assert(ticket_of(entries, key) == Some(retry.ticket));
    if other != key {
        assert(ticket_of(entries, other) != Some(retry.ticket));
        assert(ticket_of(live(entries, retry.now), other) != Some(retry.ticket));
    }
}

/// How often the steps dispatch a second attempt with this ticket, under whatever
/// operation.
pub open spec fn resends_with(
    entries: Map<OperationKey, EntryModel>,
    ticket: [u8; 32],
    steps: Seq<Step>,
) -> nat
    decreases steps.len(),
{
    if steps.len() == 0 {
        0
    } else {
        let rest = resends_with(steps[0].after(entries), ticket, steps.drop_first());
        if (steps[0] matches Step::Second { retry, .. } && retry.ticket == ticket)
            && steps[0].dispatches(entries) {
            1 + rest
        } else {
            rest
        }
    }
}

/// A ticket buys at most one resend. Once a second attempt was dispatched with it,
/// none is dispatched with it again while the record lives, whatever is asked
/// under whatever operation.
pub proof fn a_ticket_buys_one_resend(
    entries: Map<OperationKey, EntryModel>,
    key: OperationKey,
    steps: Seq<Step>,
)
    requires
        distinct_tickets(entries),
        at_second(entries, key),
        outlives(entries, key, steps),
    ensures
        resends_with(entries, entries[key].wake->0.ticket, steps) == 0,
    decreases steps.len(),
{
    if steps.len() > 0 {
        let step = steps[0];
        let ticket = entries[key].wake->0.ticket;
        tickets_stay_distinct(entries, step);
        a_second_attempt_is_dispatched_once(entries, key, step);
        match step {
            Step::Second { key: other, retry } => {
                if retry.ticket == ticket {
                    a_used_ticket_is_answered(entries, key, other, retry);
                }
            },
            _ => {},
        }
        assert(step.after(entries)[key].wake->0.ticket == ticket);
        a_ticket_buys_one_resend(step.after(entries), key, steps.drop_first());
    }
}

} // verus!
