//! Connections and sessions of a server: who gets a place, how long a session
//! lasts, which messages are let through, and the watch over woken hosts.

use crate::clock::{elapsed, CLOCK_END, MILLISECOND, SECOND};
use crate::ledger::OperationKey;
use crate::limits::{
    admits, after_allow, held, ConnectionPermit, KeyedConnectionPermit, RateKey,
    HANDSHAKE_RATE_PER_MINUTE, RATE_WINDOW,
};
use crate::net::{normalize_ip, quota_address, IpAddress};
use crate::octets::same_id;
use crate::policy::{access_of, id_set};
use crate::protocol::{
    header_models, ClientEnvelope, ClientOperation, ErrorCode, EventModel, MessageModel,
    ProtocolError, ServerEnvelope, ServerEvent,
};
use crate::replay::{after_confirm, live, ReplayKey};
use crate::request::{
    answer, make_response, Monitor, MonitorModel, MAX_MONITORS_PER_CONNECTION, MONITOR_INTERVAL,
};
use crate::server::{ServerRuntime, MAX_APP_PAYLOAD};
use crate::snapshot::HostEntry;
use crate::table::Key;
use crate::text::{listed, texts};
use crate::wire::{decode_client, message_in};
use vstd::prelude::*;

verus! {

/// How long a session may stay idle.
pub const OPERATION_IDLE_TIMEOUT: u64 = 300 * SECOND;

/// How long a session lasts at most.
pub const MAX_SESSION_LIFETIME: u64 = 3600 * SECOND;

/// How long a part of a record may wait for the rest.
pub const FRAME_IDLE_TIMEOUT: u64 = 5 * SECOND;

/// How long the first message of a session may take.
pub const KEY_CONFIRM_TIMEOUT: u64 = 5 * SECOND;

pub const REQUEST_SKEW_MS: u64 = 60_000;

/// The places that a new connection holds.
pub struct PeerPermits {
    pub connection: ConnectionPermit,
    pub ip: KeyedConnectionPermit<IpAddress>,
    pub pending: KeyedConnectionPermit<IpAddress>,
    pub handshake: ConnectionPermit,
}

/// Whether a new connection gets a place.
pub enum PeerVerdict {
    RateLimited,
    ConnectionLimit,
    IpLimit,
    PendingLimit,
    HandshakeLimit,
    Admitted(PeerPermits),
}

/// The counts of connections are the same.
pub open spec fn same_counts(a: ServerRuntime, b: ServerRuntime) -> bool {
    &&& a.metrics.connections.current == b.metrics.connections.current
    &&& a.handshakes.current == b.handshakes.current
    &&& forall|ip: IpAddress| #[trigger]
        held(a.ip_connections.active@, ip) == held(b.ip_connections.active@, ip)
    &&& forall|ip: IpAddress| #[trigger]
        held(a.pending_handshakes.active@, ip) == held(b.pending_handshakes.active@, ip)
}

/// The peer holds one connection and one handshake more, nobody else does.
pub open spec fn one_more(a: ServerRuntime, b: ServerRuntime, peer: IpAddress) -> bool {
    &&& a.metrics.connections.current == b.metrics.connections.current + 1
    &&& a.handshakes.current == b.handshakes.current + 1
    &&& forall|ip: IpAddress| #[trigger]
        held(a.ip_connections.active@, ip) == held(b.ip_connections.active@, ip) + if ip == peer {
            1int
        } else {
            0
        }
    &&& forall|ip: IpAddress| #[trigger]
        held(a.pending_handshakes.active@, ip) == held(b.pending_handshakes.active@, ip) + if ip
            == peer {
            1int
        } else {
            0
        }
}

/// The limits are the same.
pub open spec fn same_limits(a: ServerRuntime, b: ServerRuntime) -> bool {
    &&& a.metrics.connections.limit == b.metrics.connections.limit
    &&& a.metrics.listening == b.metrics.listening
    &&& a.handshakes.limit == b.handshakes.limit
    &&& a.ip_connections.maximum == b.ip_connections.maximum
    &&& a.pending_handshakes.maximum == b.pending_handshakes.maximum
}

/// Only the counts of connections and handshakes, and the rate of handshakes,
/// may differ.
pub open spec fn same_but_peers(a: ServerRuntime, b: ServerRuntime) -> bool {
    &&& a.snapshot == b.snapshot
    &&& a.handshake == b.handshake
    &&& a.replay_cache == b.replay_cache
    &&& a.probe_slots == b.probe_slots
    &&& a.client_connections == b.client_connections
    &&& a.request_rates == b.request_rates
    &&& a.books == b.books
    &&& a.policy == b.policy
    &&& a.overrides == b.overrides
    &&& a.restart_required == b.restart_required
}

impl ServerRuntime {
    /// Gives a place to a new connection. The quotas of the other side are kept
    /// under its `quota_address`: a mapped address counts as the IPv4 address that
    /// it stands for, and an IPv6 network of 64 bits as one.
    pub fn admit_peer(&mut self, peer: IpAddress, now: u64) -> (r: PeerVerdict)
        requires
            old(self).wf(),
        ensures
            final(self).wf(),
            same_but_peers(*final(self), *old(self)),
            same_limits(*final(self), *old(self)),
            final(self).handshake_rates@ == after_allow(
                old(self).handshake_rates@,
                RateKey::HandshakeIp(quota_address(peer)),
                HANDSHAKE_RATE_PER_MINUTE,
                RATE_WINDOW,
                now,
            ),
            ({
                let was = *old(self);
                let key = quota_address(peer);
                if !admits(
                    was.handshake_rates@,
                    RateKey::HandshakeIp(quota_address(peer)),
                    HANDSHAKE_RATE_PER_MINUTE,
                    RATE_WINDOW,
                    now,
                ) {
                    r is RateLimited
                } else if was.metrics.connections.current >= was.metrics.connections.limit {
                    r is ConnectionLimit
                } else if held(was.ip_connections.active@, key) >= was.ip_connections.maximum {
                    r is IpLimit
                } else if held(was.pending_handshakes.active@, key)
                    >= was.pending_handshakes.maximum {
                    r is PendingLimit
                } else if was.handshakes.current >= was.handshakes.limit {
                    r is HandshakeLimit
                } else {
                    r is Admitted && r->Admitted_0.ip.key == key && r->Admitted_0.pending.key
                        == key
                }
            }),
            if r is Admitted {
                one_more(*final(self), *old(self), quota_address(peer))
            } else {
                same_counts(*final(self), *old(self))
            },
    {
        let key: IpAddress = normalize_ip(peer);
        if !self.handshake_rates.allow(
            RateKey::HandshakeIp(key),
            HANDSHAKE_RATE_PER_MINUTE,
            RATE_WINDOW,
            now,
        ) {
            return PeerVerdict::RateLimited;
        }
        let connection: ConnectionPermit = match self.metrics.connections.acquire() {
            Some(permit) => permit,
            None => {
                return PeerVerdict::ConnectionLimit;
            },
        };
        let ip: KeyedConnectionPermit<IpAddress> = match self.ip_connections.acquire(key) {
            Some(permit) => permit,
            None => {
                let released: bool = self.metrics.connections.release(connection);
                return PeerVerdict::IpLimit;
            },
        };
        let pending: KeyedConnectionPermit<IpAddress> = match self.pending_handshakes.acquire(
            key,
        ) {
            Some(permit) => permit,
            None => {
                self.ip_connections.release(ip);
                let released: bool = self.metrics.connections.release(connection);
                return PeerVerdict::PendingLimit;
            },
        };
        let handshake: ConnectionPermit = match self.handshakes.acquire() {
            Some(permit) => permit,
            None => {
                self.pending_handshakes.release(pending);
                self.ip_connections.release(ip);
                let released: bool = self.metrics.connections.release(connection);
                return PeerVerdict::HandshakeLimit;
            },
        };
        PeerVerdict::Admitted(PeerPermits { connection, ip, pending, handshake })
    }

    /// Gives back the places of a handshake that is over.
    pub fn end_handshake(
        &mut self,
        handshake: ConnectionPermit,
        pending: KeyedConnectionPermit<IpAddress>,
    )
        requires
            old(self).wf(),
        ensures
            final(self).wf(),
            same_but_peers(*final(self), *old(self)),
            same_limits(*final(self), *old(self)),
            final(self).handshake_rates == old(self).handshake_rates,
            final(self).metrics == old(self).metrics,
            final(self).ip_connections == old(self).ip_connections,
            final(self).handshakes.current == if old(self).handshakes.current > 0 {
                old(self).handshakes.current - 1
            } else {
                0
            },
            forall|ip: IpAddress| #[trigger]
                held(final(self).pending_handshakes.active@, ip) == if ip == pending.key && held(
                    old(self).pending_handshakes.active@,
                    ip,
                ) > 0 {
                    held(old(self).pending_handshakes.active@, ip) - 1
                } else {
                    held(old(self).pending_handshakes.active@, ip) as int
                },
    {
        let released: bool = self.handshakes.release(handshake);
        self.pending_handshakes.release(pending);
    }

    /// Gives back the places of a connection that is over.
    pub fn end_connection(
        &mut self,
        connection: ConnectionPermit,
        ip: KeyedConnectionPermit<IpAddress>,
    )
        requires
            old(self).wf(),
        ensures
            final(self).wf(),
            same_but_peers(*final(self), *old(self)),
            same_limits(*final(self), *old(self)),
            final(self).handshake_rates == old(self).handshake_rates,
            final(self).handshakes == old(self).handshakes,
            final(self).pending_handshakes == old(self).pending_handshakes,
            final(self).metrics.connections.current == if old(self).metrics.connections.current
                > 0 {
                old(self).metrics.connections.current - 1
            } else {
                0
            },
            forall|key: IpAddress| #[trigger]
                held(final(self).ip_connections.active@, key) == if key == ip.key && held(
                    old(self).ip_connections.active@,
                    key,
                ) > 0 {
                    held(old(self).ip_connections.active@, key) - 1
                } else {
                    held(old(self).ip_connections.active@, key) as int
                },
    {
        let released: bool = self.metrics.connections.release(connection);
        self.ip_connections.release(ip);
    }
}

/// A session of an authenticated client.
pub struct Session {
    pub client_key: [u8; 32],
    pub replay_nonce: [u8; 32],
    /// The policy that the session began under.
    pub generation: u64,
    pub started: u64,
    pub last_activity: u64,
    /// Whether the client has shown, by a first message, that it has the keys.
    pub key_confirmed: bool,
    /// Since when a part of a record waits for the rest.
    pub partial_since: Option<u64>,
    pub monitors: Vec<Monitor>,
}

pub struct SessionModel {
    pub client_key: [u8; 32],
    pub replay_nonce: [u8; 32],
    pub generation: u64,
    pub started: u64,
    pub last_activity: u64,
    pub key_confirmed: bool,
    pub partial_since: Option<u64>,
    pub monitors: Seq<MonitorModel>,
}

pub open spec fn monitor_models(monitors: Seq<Monitor>) -> Seq<MonitorModel> {
    monitors.map_values(|m: Monitor| m@)
}

impl View for Session {
    type V = SessionModel;

    open spec fn view(&self) -> SessionModel {
        SessionModel {
            client_key: self.client_key,
            replay_nonce: self.replay_nonce,
            generation: self.generation,
            started: self.started,
            last_activity: self.last_activity,
            key_confirmed: self.key_confirmed,
            partial_since: self.partial_since,
            monitors: monitor_models(self.monitors@),
        }
    }
}

/// Why a session does not begin.
#[derive(Clone, Copy, Debug, PartialEq, Eq, Structural)]
pub enum SessionRefusal {
    ClientLimit,
    Revoked,
}

/// Whether a session goes on.
#[derive(Clone, Copy, Debug, PartialEq, Eq, Structural)]
pub enum SessionCheck {
    Live,
    Expired,
    Revoked,
}

impl SessionModel {
    /// The session has lasted or idled too long, or its first message is overdue.
    pub open spec fn is_over(self, now: u64) -> bool {
        ||| !self.key_confirmed && elapsed(self.started, now) >= KEY_CONFIRM_TIMEOUT
        ||| elapsed(self.started, now) >= MAX_SESSION_LIFETIME
        ||| elapsed(self.last_activity, now) >= OPERATION_IDLE_TIMEOUT
    }
}

/// Only the places of clients may differ.
pub open spec fn same_but_clients(a: ServerRuntime, b: ServerRuntime) -> bool {
    a == (ServerRuntime { client_connections: a.client_connections, ..b })
}

impl ServerRuntime {
    /// Begins the session of a client whose handshake is complete.
    pub fn open_session(&mut self, client_key: [u8; 32], replay_nonce: [u8; 32], now: u64) -> (r:
        Result<(Session, KeyedConnectionPermit<[u8; 32]>), SessionRefusal>)
        requires
            old(self).wf(),
        ensures
            final(self).wf(),
            same_but_clients(*final(self), *old(self)),
            final(self).client_connections.maximum == old(self).client_connections.maximum,
            ({
                let places = old(self).client_connections;
                match r {
                    Ok((session, permit)) => {
                        &&& held(places.active@, client_key) < places.maximum
                        &&& access_of(old(self).policy.clients@, client_key) is Some
                        &&& permit.key == client_key
                        &&& session@ == (SessionModel {
                            client_key,
                            replay_nonce,
                            generation: old(self).policy.generation,
                            started: now,
                            last_activity: now,
                            key_confirmed: false,
                            partial_since: None,
                            monitors: Seq::empty(),
                        })
                        &&& held(final(self).client_connections.active@, client_key) == held(
                            places.active@,
                            client_key,
                        ) + 1
                    },
                    Err(refusal) => {
                        &&& refusal == if held(places.active@, client_key) >= places.maximum {
                            SessionRefusal::ClientLimit
                        } else {
                            SessionRefusal::Revoked
                        }
                        &&& held(places.active@, client_key) >= places.maximum || access_of(
                            old(self).policy.clients@,
                            client_key,
                        ) is None
                        &&& held(final(self).client_connections.active@, client_key) == held(
                            places.active@,
                            client_key,
                        )
                    },
                }
            }),
            forall|key: [u8; 32]|
                key != client_key ==> #[trigger] held(final(self).client_connections.active@, key)
                    == held(old(self).client_connections.active@, key),
    {
        let permit: KeyedConnectionPermit<[u8; 32]> = match self.client_connections.acquire(
            client_key,
        ) {
            Some(permit) => permit,
            None => {
                return Err(SessionRefusal::ClientLimit);
            },
        };
        if !self.policy.client_is_authorized(&client_key) {
            self.client_connections.release(permit);
            return Err(SessionRefusal::Revoked);
        }
        let monitors: Vec<Monitor> = Vec::new();
        assert(monitor_models(monitors@) =~= Seq::<MonitorModel>::empty());
        Ok(
            (
                Session {
                    client_key,
                    replay_nonce,
                    generation: self.policy.generation,
                    started: now,
                    last_activity: now,
                    key_confirmed: false,
                    partial_since: None,
                    monitors,
                },
                permit,
            ),
        )
    }

    /// Gives back the place of a client whose session is over.
    pub fn end_session(&mut self, permit: KeyedConnectionPermit<[u8; 32]>)
        requires
            old(self).wf(),
        ensures
            final(self).wf(),
            same_but_clients(*final(self), *old(self)),
            final(self).client_connections.maximum == old(self).client_connections.maximum,
            forall|key: [u8; 32]| #[trigger]
                held(final(self).client_connections.active@, key) == if key == permit.key && held(
                    old(self).client_connections.active@,
                    key,
                ) > 0 {
                    held(old(self).client_connections.active@, key) - 1
                } else {
                    held(old(self).client_connections.active@, key) as int
                },
    {
        self.client_connections.release(permit);
    }

    /// Whether a session goes on: in time, and under the policy in force.
    pub fn check_session(&self, session: &Session, now: u64) -> (r: SessionCheck)
        ensures
            r == if session@.is_over(now) {
                SessionCheck::Expired
            } else if session.generation != self.policy.generation || access_of(
                self.policy.clients@,
                session.client_key,
            ) is None {
                SessionCheck::Revoked
            } else {
                SessionCheck::Live
            },
    {
        let age: u64 = now.saturating_sub(session.started);
        let idle: u64 = now.saturating_sub(session.last_activity);
        if (!session.key_confirmed && age >= KEY_CONFIRM_TIMEOUT) || age >= MAX_SESSION_LIFETIME
            || idle >= OPERATION_IDLE_TIMEOUT {
            return SessionCheck::Expired;
        }
        if session.generation != self.policy.generation || !self.policy.client_is_authorized(
            &session.client_key,
        ) {
            return SessionCheck::Revoked;
        }
        SessionCheck::Live
    }
}

/// The time of a request is near enough.
pub open spec fn is_timely(issued_at_ms: u64, now_ms: u64, skew: u64) -> bool {
    let apart = if issued_at_ms >= now_ms {
        issued_at_ms - now_ms
    } else {
        now_ms - issued_at_ms
    };
    issued_at_ms != 0 && apart <= skew / MILLISECOND && apart <= REQUEST_SKEW_MS
}

pub fn request_time_valid(issued_at_ms: u64, now_ms: u64, skew: u64) -> (r: bool)
    ensures
        r == is_timely(issued_at_ms, now_ms, skew),
{
    let apart: u64 = if issued_at_ms >= now_ms {
        issued_at_ms - now_ms
    } else {
        now_ms - issued_at_ms
    };
    issued_at_ms != 0 && apart <= skew / MILLISECOND && apart <= REQUEST_SKEW_MS
}

/// What is done with a message of a client.
pub enum MessageVerdict {
    /// Close without an answer.
    Close,
    /// Answer that the message could not be read, and close.
    RefuseUnread,
    /// Answer the request with an error, and close.
    Refuse(ErrorCode, bool),
    /// Go on with the request; these hosts may be used.
    Proceed(Vec<String>),
}

/// Only the nonces and the rates of requests may differ.
pub open spec fn same_but_requests(a: ServerRuntime, b: ServerRuntime) -> bool {
    a == (ServerRuntime { replay_cache: a.replay_cache, request_rates: a.request_rates, ..b })
}

/// The rates after a request of a client was counted, for its address and for
/// its key.
pub open spec fn counted(
    runtime: ServerRuntime,
    peer: IpAddress,
    client_key: [u8; 32],
    now: u64,
) -> Map<RateKey, crate::limits::RateBucket> {
    let limit = runtime.snapshot.max_requests_per_minute;
    after_allow(
        after_allow(runtime.request_rates@, RateKey::Ip(peer), limit, RATE_WINDOW, now),
        RateKey::Client(client_key),
        limit,
        RATE_WINDOW,
        now,
    )
}

/// Both rates admit the request.
pub open spec fn in_rate(
    runtime: ServerRuntime,
    peer: IpAddress,
    client_key: [u8; 32],
    now: u64,
) -> bool {
    let limit = runtime.snapshot.max_requests_per_minute;
    &&& admits(runtime.request_rates@, RateKey::Ip(peer), limit, RATE_WINDOW, now)
    &&& admits(
        after_allow(runtime.request_rates@, RateKey::Ip(peer), limit, RATE_WINDOW, now),
        RateKey::Client(client_key),
        limit,
        RATE_WINDOW,
        now,
    )
}

/// The message can be read, is valid and timely.
pub open spec fn is_acceptable(
    runtime: ServerRuntime,
    payload_len: usize,
    parsed: Option<ClientEnvelope>,
    now_ms: u64,
) -> bool {
    &&& 0 < payload_len <= MAX_APP_PAYLOAD
    &&& parsed is Some
    &&& parsed->0.fault() is None
    &&& is_timely(parsed->0.issued_at_ms, now_ms, runtime.snapshot.clock_skew)
}

/// The outcome of a message of a client: what the runtime and the session are
/// after it, and the verdict. `parsed` is what the message was read as.
pub open spec fn is_judgement(
    was: ServerRuntime,
    is: ServerRuntime,
    before: SessionModel,
    after: SessionModel,
    peer: IpAddress,
    payload_len: usize,
    parsed: Option<ClientEnvelope>,
    now: u64,
    now_ms: u64,
    r: MessageVerdict,
) -> bool {
    let heard = SessionModel {
        last_activity: now,
        partial_since: None,
        ..before
    };
    let nonce = ReplayKey {
        client_key: heard.client_key,
        nonce: heard.replay_nonce,
    };
    let confirms = heard.key_confirmed || live(was.replay_cache@, now).contains_key(
        nonce,
    );
    if !is_acceptable(was, payload_len, parsed, now_ms) {
        &&& is.replay_cache@ == was.replay_cache@
        &&& is.request_rates@ == was.request_rates@
        &&& after == heard
        &&& if payload_len == 0 || payload_len > MAX_APP_PAYLOAD {
            r is Close
        } else if parsed is None {
            r is RefuseUnread
        } else {
            r == MessageVerdict::Refuse(ErrorCode::BadRequest, false)
        }
    } else {
        &&& is.replay_cache@ == if heard.key_confirmed {
            was.replay_cache@
        } else {
            after_confirm(was.replay_cache@, nonce, now)
        }
        &&& after == if confirms {
            SessionModel { key_confirmed: true, ..heard }
        } else {
            heard
        }
        &&& if !confirms {
            r is Close && is.request_rates@ == was.request_rates@
        } else {
            &&& is.request_rates@ == counted(
                was,
                quota_address(peer),
                heard.client_key,
                now,
            )
            &&& if !in_rate(was, quota_address(peer), heard.client_key, now) {
                r == MessageVerdict::Refuse(ErrorCode::RateLimited, true)
            } else if parsed->0.operation is Wake && heard.monitors.len()
                >= MAX_MONITORS_PER_CONNECTION {
                r == MessageVerdict::Refuse(ErrorCode::Busy, true)
            } else {
                match access_of(was.policy.clients@, heard.client_key) {
                    None => r is Close,
                    Some(hosts) => r is Proceed && id_set(texts(r->Proceed_0@)) == hosts,
                }
            }
        }
    }
}

impl ServerRuntime {
    /// Judges a message of a client: `payload_len` is its size, `parsed` what it
    /// was read as. The rate of the peer is kept under its `quota_address`.
    pub fn judge_message(
        &mut self,
        session: &mut Session,
        peer: IpAddress,
        payload_len: usize,
        parsed: &Option<ClientEnvelope>,
        now: u64,
        now_ms: u64,
    ) -> (r: MessageVerdict)
        requires
            old(self).wf(),
            now <= CLOCK_END,
        ensures
            final(self).wf(),
            same_but_requests(*final(self), *old(self)),
            is_judgement(
                *old(self),
                *final(self),
                old(session)@,
                final(session)@,
                peer,
                payload_len,
                *parsed,
                now,
                now_ms,
                r,
            ),
    {
        session.last_activity = now;
        session.partial_since = None;
        if payload_len == 0 || payload_len > MAX_APP_PAYLOAD {
            return MessageVerdict::Close;
        }
        let envelope: &ClientEnvelope = match parsed {
            Some(envelope) => envelope,
            None => {
                return MessageVerdict::RefuseUnread;
            },
        };
        if envelope.validate().is_err() || !request_time_valid(
            envelope.issued_at_ms,
            now_ms,
            self.snapshot.clock_skew,
        ) {
            return MessageVerdict::Refuse(ErrorCode::BadRequest, false);
        }
        if !session.key_confirmed {
            if !self.replay_cache.confirm(session.client_key, session.replay_nonce, now) {
                return MessageVerdict::Close;
            }
            session.key_confirmed = true;
        }
        let limit: u32 = self.snapshot.max_requests_per_minute;
        let ip_allowed: bool = self.request_rates.allow(
            RateKey::Ip(normalize_ip(peer)),
            limit,
            RATE_WINDOW,
            now,
        );
        let client_allowed: bool = self.request_rates.allow(
            RateKey::Client(session.client_key),
            limit,
            RATE_WINDOW,
            now,
        );
        if !ip_allowed || !client_allowed {
            return MessageVerdict::Refuse(ErrorCode::RateLimited, true);
        }
        let is_wake: bool = match &envelope.operation {
            ClientOperation::Wake { .. } => true,
            _ => false,
        };
        if is_wake && session.monitors.len() >= MAX_MONITORS_PER_CONNECTION {
            return MessageVerdict::Refuse(ErrorCode::Busy, true);
        }
        match self.policy.current_allowed_hosts(&session.client_key) {
            Some(hosts) => MessageVerdict::Proceed(hosts),
            None => MessageVerdict::Close,
        }
    }

    /// Reads a message of a client and judges it; the message is given back where
    /// it could be read.
    pub fn judge_payload(
        &mut self,
        session: &mut Session,
        peer: IpAddress,
        payload: &[u8],
        now: u64,
        now_ms: u64,
    ) -> (r: (MessageVerdict, Option<ClientEnvelope>))
        requires
            old(self).wf(),
            now <= CLOCK_END,
        ensures
            final(self).wf(),
            same_but_requests(*final(self), *old(self)),
            match r.1 {
                Some(envelope) => message_in(payload@) == Ok::<MessageModel, ProtocolError>(
                    envelope@,
                ),
                None => message_in(payload@) is Err,
            },
            is_judgement(
                *old(self),
                *final(self),
                old(session)@,
                final(session)@,
                peer,
                payload@.len() as usize,
                r.1,
                now,
                now_ms,
                r.0,
            ),
    {
        let parsed: Option<ClientEnvelope> = match decode_client(payload) {
            Ok(envelope) => Some(envelope),
            Err(_) => None,
        };
        let verdict: MessageVerdict = self.judge_message(
            session,
            peer,
            payload.len(),
            &parsed,
            now,
            now_ms,
        );
        (verdict, parsed)
    }
}

/// The monitors that are not superseded: those of other operations, and those of
/// no earlier attempt.
pub open spec fn unsuperseded(
    monitors: Seq<MonitorModel>,
    operation_id: [u8; 16],
    attempt: u8,
) -> Seq<MonitorModel>
    decreases monitors.len(),
{
    if monitors.len() == 0 {
        monitors
    } else {
        let front = unsuperseded(monitors.drop_last(), operation_id, attempt);
        let last = monitors.last();
        if last.operation_id != operation_id || last.attempt >= attempt {
            front.push(last)
        } else {
            front
        }
    }
}

/// The request is the second attempt of a wake.
pub open spec fn is_retry(operation: ClientOperation) -> bool {
    operation matches ClientOperation::Wake { attempt, .. } && attempt == 2
}

impl SessionModel {
    /// The session with a new watch in the place of those of earlier attempts.
    pub open spec fn watching(self, monitor: MonitorModel) -> SessionModel {
        SessionModel {
            monitors: unsuperseded(self.monitors, monitor.operation_id, monitor.attempt).push(
                monitor,
            ),
            ..self
        }
    }

    /// The session without the watches of a first attempt.
    pub open spec fn without_first(self, operation_id: [u8; 16]) -> SessionModel {
        SessionModel { monitors: unsuperseded(self.monitors, operation_id, 2), ..self }
    }
}

/// The monitors that still have something to watch.
pub open spec fn unfinished(monitors: Seq<MonitorModel>, now: u64) -> Seq<MonitorModel>
    decreases monitors.len(),
{
    if monitors.len() == 0 {
        monitors
    } else {
        let front = unfinished(monitors.drop_last(), now);
        let last = monitors.last();
        if now < last.deadline && last.online.len() < last.targets.len() {
            front.push(last)
        } else {
            front
        }
    }
}

#[verifier::loop_isolation(false)]
fn drop_superseded(monitors: &mut Vec<Monitor>, operation_id: &[u8; 16], attempt: u8)
    ensures
        monitor_models(final(monitors)@) == unsuperseded(
            monitor_models(old(monitors)@),
            *operation_id,
            attempt,
        ),
{
    let ghost all = monitor_models(monitors@);
    let ghost mut seen: int = 0;
    let mut i: usize = 0;
    assert(all.take(0) =~= Seq::<MonitorModel>::empty());
    assert(monitor_models(monitors@).take(0) =~= Seq::<MonitorModel>::empty());
    assert(monitor_models(monitors@).skip(0) =~= all.skip(0));
    while i < monitors.len()
        invariant
            0 <= i <= monitors@.len(),
            0 <= seen <= all.len(),
            monitors@.len() - i == all.len() - seen,
            monitor_models(monitors@).take(i as int) == unsuperseded(
                all.take(seen),
                *operation_id,
                attempt,
            ),
            monitor_models(monitors@).skip(i as int) == all.skip(seen),
        decreases monitors@.len() - i,
    {
        let ghost was = monitor_models(monitors@);
        assert(was.skip(i as int)[0] == was[i as int]);
        assert(all.skip(seen)[0] == all[seen]);
        assert(was[i as int] == monitors@[i as int]@);
        assert(all.take(seen + 1).drop_last() =~= all.take(seen));
        assert(all.take(seen + 1).last() == all[seen]);
        assert(all.skip(seen + 1) =~= all.skip(seen).drop_first());
        if !same_id(&monitors[i].operation_id, operation_id) || monitors[i].attempt >= attempt {
            assert(was.take(i + 1) =~= was.take(i as int).push(was[i as int]));
            assert(was.skip(i + 1) =~= was.skip(i as int).drop_first());
            i += 1;
        } else {
            let dropped: Monitor = monitors.remove(i);
            let ghost is = monitor_models(monitors@);
            assert(is =~= was.remove(i as int));
            assert(is.take(i as int) =~= was.take(i as int));
            assert(is.skip(i as int) =~= was.skip(i as int).drop_first());
        }
        proof {
            seen = seen + 1;
        }
    }
    assert(all.take(seen) =~= all);
    assert(monitor_models(monitors@).take(i as int) =~= monitor_models(monitors@));
}

#[verifier::loop_isolation(false)]
fn drop_finished(monitors: &mut Vec<Monitor>, now: u64)
    ensures
        monitor_models(final(monitors)@) == unfinished(monitor_models(old(monitors)@), now),
{
    let ghost all = monitor_models(monitors@);
    let ghost mut seen: int = 0;
    let mut i: usize = 0;
    assert(all.take(0) =~= Seq::<MonitorModel>::empty());
    assert(monitor_models(monitors@).take(0) =~= Seq::<MonitorModel>::empty());
    assert(monitor_models(monitors@).skip(0) =~= all.skip(0));
    while i < monitors.len()
        invariant
            0 <= i <= monitors@.len(),
            0 <= seen <= all.len(),
            monitors@.len() - i == all.len() - seen,
            monitor_models(monitors@).take(i as int) == unfinished(all.take(seen), now),
            monitor_models(monitors@).skip(i as int) == all.skip(seen),
        decreases monitors@.len() - i,
    {
        let ghost was = monitor_models(monitors@);
        assert(was.skip(i as int)[0] == was[i as int]);
        assert(all.skip(seen)[0] == all[seen]);
        assert(was[i as int] == monitors@[i as int]@);
        assert(all.take(seen + 1).drop_last() =~= all.take(seen));
        assert(all.take(seen + 1).last() == all[seen]);
        assert(all.skip(seen + 1) =~= all.skip(seen).drop_first());
        if now < monitors[i].deadline && monitors[i].online.len() < monitors[i].targets.len() {
            assert(was.take(i + 1) =~= was.take(i as int).push(was[i as int]));
            assert(was.skip(i + 1) =~= was.skip(i as int).drop_first());
            i += 1;
        } else {
            let dropped: Monitor = monitors.remove(i);
            let ghost is = monitor_models(monitors@);
            assert(is =~= was.remove(i as int));
            assert(is.take(i as int) =~= was.take(i as int));
            assert(is.skip(i as int) =~= was.skip(i as int).drop_first());
        }
        proof {
            seen = seen + 1;
        }
    }
    assert(all.take(seen) =~= all);
    assert(monitor_models(monitors@).take(i as int) =~= monitor_models(monitors@));
}

/// The hosts of a list that have not been seen.
pub open spec fn unseen(targets: Seq<HostEntry>, online: Seq<Seq<char>>) -> Seq<HostEntry>
    decreases targets.len(),
{
    if targets.len() == 0 {
        targets
    } else {
        let front = unseen(targets.drop_last(), online);
        if online.contains(targets.last().id@) {
            front
        } else {
            front.push(targets.last())
        }
    }
}

impl MonitorModel {
    /// The monitor after a look at the clock: one whose attempt is no longer the
    /// current one ends now; one that is due is probed and due again later.
    pub open spec fn ticked(self, current: Option<u8>, now: u64) -> MonitorModel {
        if current != Some(self.attempt) {
            MonitorModel { deadline: now, ..self }
        } else if now < self.next_probe {
            self
        } else {
            MonitorModel { next_probe: (now + MONITOR_INTERVAL) as u64, ..self }
        }
    }

    /// The hosts that are probed now.
    pub open spec fn due(self, current: Option<u8>, now: u64) -> Seq<HostEntry> {
        if current != Some(self.attempt) || now < self.next_probe {
            Seq::empty()
        } else {
            unseen(self.targets, self.online)
        }
    }
}

impl Monitor {
    /// The hosts that are to be probed now, and when to look again. `current` is
    /// the attempt that the ledger has for the operation.
    #[verifier::loop_isolation(false)]
    pub fn tick(&mut self, current: Option<u8>, now: u64) -> (r: Vec<HostEntry>)
        requires
            now <= CLOCK_END,
        ensures
            final(self)@ == old(self)@.ticked(current, now),
            r@ == old(self)@.due(current, now),
    {
        let mut due: Vec<HostEntry> = Vec::new();
        let is_current: bool = match current {
            Some(attempt) => attempt == self.attempt,
            None => false,
        };
        if !is_current {
            self.deadline = now;
            return due;
        }
        if now < self.next_probe {
            return due;
        }
        self.next_probe = now + MONITOR_INTERVAL;
        let ghost all = self.targets@;
        let ghost online = texts(self.online@);
        let mut i: usize = 0;
        assert(all.take(0) =~= Seq::<HostEntry>::empty());
        while i < self.targets.len()
            invariant
                i <= self.targets@.len(),
                self.targets@ == all,
                texts(self.online@) == online,
                due@ == unseen(all.take(i as int), online),
            decreases self.targets@.len() - i,
        {
            assert(all.take(i + 1).drop_last() =~= all.take(i as int));
            if !listed(&self.online, &self.targets[i].id) {
                due.push(self.targets[i].clone());
            }
            i += 1;
        }
        assert(all.take(i as int) =~= all);
        due
    }

    /// Notes that a host was seen, if the watch is not over. The result says
    /// whether this is news.
    pub fn seen(&mut self, host_id: &str, now: u64) -> (r: bool)
        ensures
            r == (now < old(self).deadline && !old(self)@.online.contains(host_id@)),
            final(self)@ == if r {
                MonitorModel { online: old(self)@.online.push(host_id@), ..old(self)@ }
            } else {
                old(self)@
            },
    {
        if now >= self.deadline || listed(&self.online, host_id) {
            return false;
        }
        let ghost before = texts(self.online@);
        self.online.push(host_id.to_owned());
        assert(texts(self.online@) =~= before.push(host_id@));
        true
    }
}

/// What is done about a host that was seen.
pub enum OnlineStep {
    /// Close: the client has no access any more, or no valid message can be made.
    Stop,
    /// Nothing: the watch is over, or another attempt has taken its place.
    Skip,
    Send(ServerEnvelope),
}

/// The attempt that the ledger has for an operation.
pub open spec fn current_attempt(runtime: ServerRuntime, key: OperationKey) -> Option<u8> {
    let entries = runtime.books@.entries;
    if entries.contains_key(key) && entries[key].wake is Some {
        Some(entries[key].wake->0.attempt)
    } else {
        None
    }
}

impl ServerRuntime {
    pub fn wake_attempt(&self, key: &OperationKey) -> (r: Option<u8>)
        requires
            self.wf(),
        ensures
            r == current_attempt(*self, *key),
    {
        self.books.ledger.wake_attempt(key)
    }

    /// The message that a host was seen.
    pub fn announce(
        &self,
        client_key: &[u8; 32],
        operation_id: &[u8; 16],
        attempt: u8,
        host_id: &str,
        deadline: u64,
        now: u64,
        now_ms: u64,
    ) -> (r: OnlineStep)
        requires
            self.wf(),
        ensures
            ({
                let key = OperationKey { client_key: *client_key, operation_id: *operation_id };
                let message = answer(
                    *operation_id,
                    header_models(self.snapshot.headers@),
                    EventModel::TargetOnline {
                        operation_id: *operation_id,
                        attempt,
                        host_id: host_id@,
                        observed_at_ms: now_ms,
                    },
                    now_ms,
                );
                if access_of(self.policy.clients@, *client_key) is None {
                    r is Stop
                } else if now >= deadline || current_attempt(*self, key) != Some(attempt) {
                    r is Skip
                } else if message.fault() is Some {
                    r is Stop
                } else {
                    r is Send && r->Send_0@ == message
                }
            }),
    {
        if !self.policy.client_is_authorized(client_key) {
            return OnlineStep::Stop;
        }
        if now >= deadline {
            return OnlineStep::Skip;
        }
        let current: Option<u8> = self.wake_attempt(
            &OperationKey { client_key: *client_key, operation_id: *operation_id },
        );
        let is_current: bool = match current {
            Some(value) => value == attempt,
            None => false,
        };
        if !is_current {
            return OnlineStep::Skip;
        }
        let made: Result<ServerEnvelope, ProtocolError> = make_response(
            *operation_id,
            &self.snapshot.headers,
            ServerEvent::TargetOnline {
                operation_id: *operation_id,
                attempt,
                host_id: host_id.to_owned(),
                observed_at_ms: now_ms,
            },
            now_ms,
        );
        match made {
            Ok(message) => OnlineStep::Send(message),
            Err(_) => OnlineStep::Stop,
        }
    }
}

impl Session {
    /// Notes that nothing whole has come. The result says whether a part of a
    /// record has waited too long.
    pub fn wait(&mut self, buffered: usize, now: u64) -> (r: bool)
        ensures
            ({
                let since = match old(self)@.partial_since {
                    Some(since) => since,
                    None => now,
                };
                if buffered == 0 {
                    !r && final(self)@ == (SessionModel { partial_since: None, ..old(self)@ })
                } else {
                    &&& final(self)@ == (SessionModel { partial_since: Some(since), ..old(self)@ })
                    &&& r == (elapsed(since, now) >= FRAME_IDLE_TIMEOUT)
                }
            }),
    {
        if buffered == 0 {
            self.partial_since = None;
            return false;
        }
        let since: u64 = match self.partial_since {
            Some(since) => since,
            None => now,
        };
        self.partial_since = Some(since);
        now.saturating_sub(since) >= FRAME_IDLE_TIMEOUT
    }

    /// Takes up the watches after a request was answered. `current` is the attempt
    /// that the ledger has for the operation: a second attempt without a watch of
    /// its own ends those of the first only where it was dispatched.
    pub fn answered(
        &mut self,
        envelope: &ClientEnvelope,
        monitor: Option<Monitor>,
        current: Option<u8>,
    )
        ensures
            final(self)@ == match monitor {
                Some(monitor) => old(self)@.watching(monitor@),
                None => if is_retry(envelope.operation) && current == Some(2u8) {
                    old(self)@.without_first(envelope.request_id)
                } else {
                    old(self)@
                },
            },
    {
        match monitor {
            Some(monitor) => {
                self.watch(monitor);
            },
            None => {
                let retry: bool = match &envelope.operation {
                    ClientOperation::Wake { attempt, .. } => *attempt == 2,
                    _ => false,
                };
                let at_second: bool = match current {
                    Some(attempt) => attempt == 2,
                    None => false,
                };
                if retry && at_second {
                    self.retried(&envelope.request_id);
                }
            },
        }
    }

    /// Takes up a new watch. It takes the place of those of earlier attempts of
    /// its operation, so that no late sighting of an earlier attempt is reported.
    pub fn watch(&mut self, monitor: Monitor)
        ensures
            final(self)@ == old(self)@.watching(monitor@),
    {
        drop_superseded(&mut self.monitors, &monitor.operation_id, monitor.attempt);
        let ghost before = monitor_models(self.monitors@);
        self.monitors.push(monitor);
        assert(monitor_models(self.monitors@) =~= before.push(monitor@));
    }

    /// Ends the watches of the first attempt of an operation whose second attempt
    /// has none.
    pub fn retried(&mut self, operation_id: &[u8; 16])
        ensures
            final(self)@ == old(self)@.without_first(*operation_id),
    {
        drop_superseded(&mut self.monitors, operation_id, 2);
    }

    /// Ends the watches that are over.
    pub fn sweep(&mut self, now: u64)
        ensures
            final(self)@ == (SessionModel {
                monitors: unfinished(old(self)@.monitors, now),
                ..old(self)@
            }),
    {
        drop_finished(&mut self.monitors, now);
    }
}

/// The time until the next probe that is due.
pub open spec fn next_due(monitors: Seq<MonitorModel>, now: u64) -> int
    decreases monitors.len(),
{
    if monitors.len() == 0 {
        20 * MILLISECOND
    } else {
        let last = elapsed(now, monitors.last().next_probe);
        if monitors.len() == 1 || last < next_due(monitors.drop_last(), now) {
            last
        } else {
            next_due(monitors.drop_last(), now)
        }
    }
}

/// How long a session sleeps before it looks again: until the next probe, but
/// between 2 and 50 milliseconds.
#[verifier::loop_isolation(false)]
pub fn monitor_sleep(monitors: &Vec<Monitor>, now: u64) -> (r: u64)
    ensures
        ({
            let due = next_due(monitor_models(monitors@), now);
            r == if due < 2 * MILLISECOND {
                2 * MILLISECOND
            } else if due > 50 * MILLISECOND {
                50 * MILLISECOND
            } else {
                due
            }
        }),
{
    let ghost all = monitor_models(monitors@);
    let mut next: u64 = 20 * MILLISECOND;
    let mut i: usize = 0;
    assert(all.take(0) =~= Seq::<MonitorModel>::empty());
    while i < monitors.len()
        invariant
            i <= monitors@.len(),
            next == next_due(all.take(i as int), now),
        decreases monitors@.len() - i,
    {
        assert(all.take(i + 1).drop_last() =~= all.take(i as int));
        assert(all.take(i + 1).last() == monitors@[i as int]@);
        let left: u64 = monitors[i].next_probe.saturating_sub(now);
        if i == 0 || left < next {
            next = left;
        }
        i += 1;
    }
    assert(all.take(i as int) =~= all);
    if next < 2 * MILLISECOND {
        2 * MILLISECOND
    } else if next > 50 * MILLISECOND {
        50 * MILLISECOND
    } else {
        next
    }
}

/// Once a second attempt is watched, no watch of a first attempt of the same
/// operation is left.
pub proof fn no_earlier_attempt_is_watched(
    monitors: Seq<MonitorModel>,
    operation_id: [u8; 16],
    attempt: u8,
    i: int,
)
    requires
        0 <= i < unsuperseded(monitors, operation_id, attempt).len(),
    ensures
        ({
            let left = unsuperseded(monitors, operation_id, attempt)[i];
            left.operation_id == operation_id ==> left.attempt >= attempt
        }),
    decreases monitors.len(),
{
    if monitors.len() > 0 {
        let front = unsuperseded(monitors.drop_last(), operation_id, attempt);
        if i < front.len() {
            no_earlier_attempt_is_watched(monitors.drop_last(), operation_id, attempt, i);
        }
    }
}

/// Peers of one IPv6 network of 64 bits, and a mapped address and the IPv4 address
/// that it stands for, share their quotas: what one of them is granted or refused
/// counts for the other.
pub proof fn one_network_has_one_quota(a: IpAddress, b: IpAddress)
    requires
        ({
            ||| a@ is V6 && b@ is V6 && !a@.is_mapped() && !b@.is_mapped() && forall|i: int|
                0 <= i < 4 ==> #[trigger] a@->V6_0[i] == b@->V6_0[i]
            ||| a@.is_mapped() && b@ == a@.unmapped()
        }),
    ensures
        quota_address(a) == quota_address(b),
{
    if a@.is_mapped() {
        crate::net::a_mapped_address_shares_the_v4_quota_key(a);
    } else {
        crate::net::one_network_shares_a_quota_key(a, b);
    }
}

} // verus!
