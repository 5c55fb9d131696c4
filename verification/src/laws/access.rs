//! Who is let in: the access list, the greetings, and the nonces.

use crate::config::{key_read, normal_ids, AllowedClient};
use crate::handshake::{
    admission_fault, client_fault, client_hello_in, client_verdict, in_skew, is_answered, is_judged,
    server_fault, server_hello_in, HelloModel, ServerHandshakeResult,
};
use crate::octets::is_zero;
use crate::policy::{access_of, granted, ClientAccess};
use crate::protocol::{header_models, headers_fault, is_id, PROTOCOL_VERSION};
use crate::replay::{
    after_confirm, after_reserve, live, of_client, pending_of, reservable, Nonces, ReplayEntry,
    ReplayKey,
};
use crate::security::{
    clamped_skew, enrolment_fault, find_client, fingerprint_of, is_authorized, weak_key,
    AllowedClientAuth, ClientHandshakeConfig, SecurityError, ServerHandshakeConfig,
};
use crate::text::texts;
use vstd::prelude::*;

verus! {

proof fn the_first_with_a_key_is_found(
    clients: Seq<AllowedClientAuth>,
    key: [u8; 32],
    from: int,
    at: int,
)
    requires
        0 <= from <= at < clients.len(),
        clients[at].static_public_key == key,
        forall|j: int| from <= j < at ==> (#[trigger] clients[j]).static_public_key != key,
    ensures
        find_client(clients, key, from) == Some(at),
    decreases at - from,
{
    if from < at {
        the_first_with_a_key_is_found(clients, key, from + 1, at);
    }
}

proof fn no_one_with_a_key_is_found(clients: Seq<AllowedClientAuth>, key: [u8; 32], from: int)
    requires
        0 <= from,
        forall|j: int| from <= j < clients.len() ==> (#[trigger] clients[j]).static_public_key != key,
    ensures
        find_client(clients, key, from) is None,
    decreases clients.len() - from,
{
    if from < clients.len() {
        no_one_with_a_key_is_found(clients, key, from + 1);
    }
}

/// Wherever a client stands in the access list, it is let in under the identifier
/// that it is listed with if that is the digest of its key, and under no other.
/// An earlier entry with the same key would decide in its place.
pub proof fn a_listed_client_is_let_in(clients: Seq<AllowedClientAuth>, i: int, id: Seq<char>)
    requires
        0 <= i < clients.len(),
        forall|j: int|
            0 <= j < i ==> (#[trigger] clients[j]).static_public_key
                != clients[i].static_public_key,
    ensures
        is_authorized(clients, id, clients[i].static_public_key) <==> id == clients[i].client_id@
            && id == fingerprint_of(clients[i].static_public_key@),
{
    the_first_with_a_key_is_found(clients, clients[i].static_public_key, 0, i);
}

/// In a list with distinct keys a client is let in exactly if some entry has its
/// key and its identifier, and the identifier is the digest of the key.
pub proof fn the_access_list_decides(
    clients: Seq<AllowedClientAuth>,
    id: Seq<char>,
    key: [u8; 32],
)
    requires
        forall|i: int, j: int|
            0 <= i < j < clients.len() ==> (#[trigger] clients[i]).static_public_key != (
            #[trigger] clients[j]).static_public_key,
    ensures
        is_authorized(clients, id, key) <==> id == fingerprint_of(key@) && exists|i: int|
            0 <= i < clients.len() && (#[trigger] clients[i]).static_public_key == key
                && clients[i].client_id@ == id,
{
    if exists|i: int| 0 <= i < clients.len() && (#[trigger] clients[i]).static_public_key == key {
        let i = choose|i: int|
            0 <= i < clients.len() && (#[trigger] clients[i]).static_public_key == key;
        a_listed_client_is_let_in(clients, i, id);
    } else {
        no_one_with_a_key_is_found(clients, key, 0);
    }
}

/// A key that is not listed is let in under no identifier.
pub proof fn an_unlisted_key_is_kept_out(
    clients: Seq<AllowedClientAuth>,
    id: Seq<char>,
    key: [u8; 32],
)
    requires
        forall|i: int| 0 <= i < clients.len() ==> (#[trigger] clients[i]).static_public_key != key,
    ensures
        !is_authorized(clients, id, key),
{
    no_one_with_a_key_is_found(clients, key, 0);
}

/// A client's identifier gives the digest of its key back.
pub proof fn a_fingerprint_is_the_digest(key: Seq<u8>)
    ensures
        crate::crypto::hex_bytes(fingerprint_of(key)) == Some(crate::crypto::sha256(key)),
        fingerprint_of(key).len() == 2 * crate::crypto::sha256(key).len(),
{
    crate::crypto::hex_text_reads_back(crate::crypto::sha256(key));
}

/// What a client may use is what its entry of the policy says, wherever that
/// stands; the last entry with its key decides.
pub proof fn the_policy_grants_what_an_entry_says(
    clients: Seq<ClientAccess>,
    i: int,
    host: Seq<char>,
)
    requires
        0 <= i < clients.len(),
        forall|j: int|
            i < j < clients.len() ==> (#[trigger] clients[j]).client_key != clients[i].client_key,
    ensures
        access_of(clients, clients[i].client_key) is Some,
        access_of(clients, clients[i].client_key)->0.contains(host) <==> texts(
            clients[i].allowed_hosts@,
        ).contains(host),
    decreases clients.len(),
{
    if i < clients.len() - 1 {
        assert(clients.last() == clients[clients.len() - 1]);
        assert(clients.drop_last()[i] == clients[i]);
        assert forall|j: int| i < j < clients.drop_last().len() implies (
        #[trigger] clients.drop_last()[j]).client_key != clients[i].client_key by {
            assert(clients.drop_last()[j] == clients[j]);
        }
        the_policy_grants_what_an_entry_says(clients.drop_last(), i, host);
    }
}

/// Without an entry a client has no access.
pub proof fn no_entry_no_access(clients: Seq<ClientAccess>, key: [u8; 32])
    ensures
        access_of(clients, key) is Some <==> exists|i: int|
            0 <= i < clients.len() && (#[trigger] clients[i]).client_key == key,
    decreases clients.len(),
{
    if clients.len() > 0 {
        let front = clients.drop_last();
        no_entry_no_access(front, key);
        if clients.last().client_key == key {
            assert(clients[clients.len() - 1].client_key == key);
        } else if exists|i: int| 0 <= i < front.len() && (#[trigger] front[i]).client_key == key {
            let i = choose|i: int| 0 <= i < front.len() && (#[trigger] front[i]).client_key == key;
            assert(clients[i].client_key == key);
        } else {
            assert forall|i: int| 0 <= i < clients.len() implies (#[trigger] clients[i]).client_key
                != key by {
                if i < clients.len() - 1 {
                    assert(front[i].client_key != key);
                }
            }
        }
    }
}

/// The settings grant a client the hosts of its entry, by their identifiers,
/// wherever the entry stands; the last one with its key decides.
pub proof fn the_settings_grant_what_an_entry_says(
    clients: Seq<AllowedClient>,
    i: int,
    key: [u8; 32],
    host: Seq<char>,
)
    requires
        0 <= i < clients.len(),
        key_read(clients[i].static_public_key@) == Ok::<Seq<u8>, Seq<char>>(key@),
        forall|j: int|
            i < j < clients.len() ==> key_read((#[trigger] clients[j]).static_public_key@) != Ok::<
                Seq<u8>,
                Seq<char>,
            >(key@),
    ensures
        granted(clients, key) is Some,
        granted(clients, key)->0.contains(host) <==> exists|h: int|
            0 <= h < clients[i].allowed_hosts@.len() && crate::text::lowered(
                crate::text::trimmed((#[trigger] clients[i].allowed_hosts@[h])@),
            ) == host,
    decreases clients.len(),
{
    if i < clients.len() - 1 {
        let front = clients.drop_last();
        assert(clients.last() == clients[clients.len() - 1]);
        assert(front[i] == clients[i]);
        assert forall|j: int| i < j < front.len() implies key_read(
            (#[trigger] front[j]).static_public_key@,
        ) != Ok::<Seq<u8>, Seq<char>>(key@) by {
            assert(front[j] == clients[j]);
        }
        the_settings_grant_what_an_entry_says(front, i, key, host);
    } else {
        let ids = normal_ids(texts(clients[i].allowed_hosts@));
        if ids.contains(host) {
            let h = choose|h: int| 0 <= h < ids.len() && ids[h] == host;
            assert(crate::text::lowered(
                crate::text::trimmed(clients[i].allowed_hosts@[h]@),
            ) == host);
        }
        if exists|h: int|
            0 <= h < clients[i].allowed_hosts@.len() && crate::text::lowered(
                crate::text::trimmed((#[trigger] clients[i].allowed_hosts@[h])@),
            ) == host {
            let h = choose|h: int|
                0 <= h < clients[i].allowed_hosts@.len() && crate::text::lowered(
                    crate::text::trimmed((#[trigger] clients[i].allowed_hosts@[h])@),
                ) == host;
            assert(ids[h] == host);
        }
    }
}


/// The entry of the settings can be enrolled beside those before it.
spec fn is_enrollable(
    clients: Seq<AllowedClient>,
    host_ids: Seq<Seq<char>>,
    i: int,
) -> bool {
    let id = crate::config::host_id_of(clients[i].client_id@);
    let key = key_read(clients[i].static_public_key@);
    &&& is_id(id)
    &&& key is Ok
    &&& !weak_key(key->Ok_0)
    &&& forall|j: int|
        0 <= j < i ==> crate::config::host_id_of((#[trigger] clients[j]).client_id@) != id
            && key_read(clients[j].static_public_key@)->Ok_0 != key->Ok_0
    &&& forall|h: int|
        0 <= h < clients[i].allowed_hosts@.len() ==> host_ids.contains(
            crate::config::host_id_of(#[trigger] clients[i].allowed_hosts@[h]@),
        )
}

#[verifier::spinoff_prover]
proof fn enrolment_goes_on(clients: Seq<AllowedClient>, host_ids: Seq<Seq<char>>, k: int)
    requires
        0 <= k <= clients.len(),
    ensures
        enrolment_fault(clients, host_ids, k) is None <==> forall|i: int|
            k <= i < clients.len() ==> #[trigger] is_enrollable(clients, host_ids, i),
    decreases clients.len() - k,
{
    if k < clients.len() {
        enrolment_goes_on(clients, host_ids, k + 1);
        let names = crate::security::names_of(clients.take(k));
        let keys = crate::security::keys_of(clients.take(k));
        let id = crate::config::host_id_of(clients[k].client_id@);
        let key = key_read(clients[k].static_public_key@);
        assert forall|j: int| 0 <= j < k implies names[j] == crate::config::host_id_of(
            (#[trigger] clients[j]).client_id@,
        ) && keys[j] == key_read(clients[j].static_public_key@)->Ok_0 by {
            assert(clients.take(k)[j] == clients[j]);
        }
        if names.contains(id) {
            let j = choose|j: int| 0 <= j < names.len() && names[j] == id;
            assert(crate::config::host_id_of(clients[j].client_id@) == id);
            assert(!is_enrollable(clients, host_ids, k));
        }
        if keys.contains(key->Ok_0) {
            let j = choose|j: int| 0 <= j < keys.len() && keys[j] == key->Ok_0;
            assert(key_read(clients[j].static_public_key@)->Ok_0 == key->Ok_0);
            assert(!is_enrollable(clients, host_ids, k));
        }
        if !names.contains(id) && !keys.contains(key->Ok_0) {
            assert forall|j: int| 0 <= j < k implies crate::config::host_id_of(
                (#[trigger] clients[j]).client_id@,
            ) != id && key_read(clients[j].static_public_key@)->Ok_0 != key->Ok_0 by {
                assert(names[j] != id);
                assert(keys[j] != key->Ok_0);
            }
        }
        assert(enrolment_fault(clients, host_ids, k) is None ==> is_enrollable(
            clients,
            host_ids,
            k,
        ));
        assert(is_enrollable(clients, host_ids, k) ==> enrolment_fault(clients, host_ids, k)
            == enrolment_fault(clients, host_ids, k + 1));
        if enrolment_fault(clients, host_ids, k) is None {
            assert forall|i: int| k <= i < clients.len() implies #[trigger] is_enrollable(
                clients,
                host_ids,
                i,
            ) by {
                if i > k {
                    assert(enrolment_fault(clients, host_ids, k + 1) is None);
                }
            }
        }
    }
}

/// The clients of the settings are enrolled exactly if each has an identifier, a
/// key that is not weak, and hosts that are known, and no two share an identifier
/// or a key.
pub proof fn clients_are_enrolled_exactly_if_sound(
    clients: Seq<AllowedClient>,
    host_ids: Seq<Seq<char>>,
)
    ensures
        enrolment_fault(clients, host_ids, 0) is None <==> {
            &&& forall|i: int|
                0 <= i < clients.len() ==> is_id(
                    crate::config::host_id_of((#[trigger] clients[i]).client_id@),
                ) && key_read(clients[i].static_public_key@) is Ok && !weak_key(
                    key_read(clients[i].static_public_key@)->Ok_0,
                )
            &&& forall|i: int, j: int|
                0 <= j < i < clients.len() ==> crate::config::host_id_of(
                    (#[trigger] clients[i]).client_id@,
                ) != crate::config::host_id_of((#[trigger] clients[j]).client_id@) && key_read(
                    clients[i].static_public_key@,
                )->Ok_0 != key_read(clients[j].static_public_key@)->Ok_0
            &&& forall|i: int, h: int|
                0 <= i < clients.len() && 0 <= h < clients[i].allowed_hosts@.len()
                    ==> host_ids.contains(
                    crate::config::host_id_of(#[trigger] clients[i].allowed_hosts@[h]@),
                )
        },
{
    enrolment_goes_on(clients, host_ids, 0);
    if enrolment_fault(clients, host_ids, 0) is None {
        assert forall|i: int| 0 <= i < clients.len() implies is_id(
            crate::config::host_id_of((#[trigger] clients[i]).client_id@),
        ) && key_read(clients[i].static_public_key@) is Ok && !weak_key(
            key_read(clients[i].static_public_key@)->Ok_0,
        ) by {
            assert(is_enrollable(clients, host_ids, i));
        }
        assert forall|i: int, j: int| 0 <= j < i < clients.len() implies crate::config::host_id_of(
            (#[trigger] clients[i]).client_id@,
        ) != crate::config::host_id_of((#[trigger] clients[j]).client_id@) && key_read(
            clients[i].static_public_key@,
        )->Ok_0 != key_read(clients[j].static_public_key@)->Ok_0 by {
            assert(is_enrollable(clients, host_ids, i));
        }
        assert forall|i: int, h: int|
            0 <= i < clients.len() && 0 <= h < clients[i].allowed_hosts@.len() implies host_ids.contains(
            crate::config::host_id_of(#[trigger] clients[i].allowed_hosts@[h]@),
        ) by {
            assert(is_enrollable(clients, host_ids, i));
        }
    }
}

/// A time is near enough exactly if it differs by no more than the skew, in whole
/// milliseconds, to either side.
pub proof fn a_time_is_near_to_either_side(timestamp_ms: u64, now_ms: u64, skew: u64)
    ensures
        in_skew(timestamp_ms, now_ms, skew) <==> timestamp_ms <= now_ms + skew / 1_000_000
            && now_ms <= timestamp_ms + skew / 1_000_000,
{
}

/// The skew that is allowed for lies between a second and a minute, and is the one
/// that was set wherever that does.
pub proof fn the_skew_is_bounded(skew: u64)
    ensures
        1_000_000_000 <= clamped_skew(skew) <= 60_000_000_000,
        1_000_000_000 <= skew <= 60_000_000_000 ==> clamped_skew(skew) == skew,
        skew < 1_000_000_000 ==> clamped_skew(skew) == 1_000_000_000,
        skew > 60_000_000_000 ==> clamped_skew(skew) == 60_000_000_000,
{
}

/// A client that greets in time, with a nonce, under an identifier and a key that
/// are listed, is let in and its nonce kept; with anything else it is told why not.
pub proof fn a_greeting_is_judged(
    config: ServerHandshakeConfig,
    before: Nonces,
    after: Nonces,
    plain: Option<Seq<u8>>,
    now_ms: u64,
    now: u64,
    outcome: Result<(Seq<char>, [u8; 32], [u8; 32]), SecurityError>,
    hello: HelloModel,
    key: [u8; 32],
    nonce: [u8; 32],
)
    requires
        is_judged(config, before, after, plain, Some(key@), now_ms, now, outcome),
        client_hello_in(plain) == Some(hello),
        nonce@ == hello.client_nonce,
    ensures
        ({
            let timely = hello.version == PROTOCOL_VERSION && !is_zero(nonce@) && is_id(
                hello.client_id,
            ) && in_skew(hello.issued_at_ms, now_ms, clamped_skew(config.clock_skew));
            let listed = is_authorized(config.allowed_clients@, hello.client_id, key);
            let free = reservable(live(before, now), ReplayKey { client_key: key, nonce });
            &&& outcome is Ok <==> timely && !weak_key(key@) && listed && free
            &&& outcome is Ok ==> outcome == Ok::<(Seq<char>, [u8; 32], [u8; 32]), SecurityError>(
                (hello.client_id, key, nonce),
            )
            &&& !timely ==> outcome == Err::<(Seq<char>, [u8; 32], [u8; 32]), SecurityError>(
                SecurityError::Expired,
            ) && after == before
            &&& timely && weak_key(key@) ==> outcome == Err::<
                (Seq<char>, [u8; 32], [u8; 32]),
                SecurityError,
            >(SecurityError::Identity) && after == before
            &&& timely && !weak_key(key@) && !listed ==> outcome == Err::<
                (Seq<char>, [u8; 32], [u8; 32]),
                SecurityError,
            >(SecurityError::Unauthorized) && after == before
            &&& timely && !weak_key(key@) && listed && !free ==> outcome == Err::<
                (Seq<char>, [u8; 32], [u8; 32]),
                SecurityError,
            >(SecurityError::Replay)
            &&& outcome is Ok ==> {
                let entry = ReplayKey { client_key: key, nonce };
                &&& after.contains_key(entry)
                &&& !after[entry].confirmed
                &&& after[entry].expires > now || now > crate::clock::CLOCK_END
            }
        }),
{
    assert(key@.len() == 32);
    if admission_fault(config, plain, Some(key@), now_ms) is None {
        let (k, n) = choose|k: [u8; 32], n: [u8; 32]|
            {
                &&& #[trigger] k@ == key@
                &&& #[trigger] n@ == hello.client_nonce
                &&& if !is_authorized(config.allowed_clients@, hello.client_id, k) {
                    outcome == Err::<(Seq<char>, [u8; 32], [u8; 32]), SecurityError>(
                        SecurityError::Unauthorized,
                    ) && after == before
                } else {
                    let entry = ReplayKey { client_key: k, nonce: n };
                    &&& after == after_reserve(before, entry, now)
                    &&& if reservable(live(before, now), entry) {
                        outcome == Ok::<(Seq<char>, [u8; 32], [u8; 32]), SecurityError>(
                            (hello.client_id, k, n),
                        )
                    } else {
                        outcome == Err::<(Seq<char>, [u8; 32], [u8; 32]), SecurityError>(
                            SecurityError::Replay,
                        )
                    }
                }
            };
        crate::octets::key_ext(k, key);
        crate::octets::key_ext(n, nonce);
    }
}

/// A greeting that cannot be read, or without a key, is refused and leaves no
/// trace.
pub proof fn an_unreadable_greeting_is_refused(
    config: ServerHandshakeConfig,
    before: Nonces,
    after: Nonces,
    plain: Option<Seq<u8>>,
    remote: Option<Seq<u8>>,
    now_ms: u64,
    now: u64,
    outcome: Result<(Seq<char>, [u8; 32], [u8; 32]), SecurityError>,
)
    requires
        is_judged(config, before, after, plain, remote, now_ms, now, outcome),
        client_hello_in(plain) is None || remote is None,
    ensures
        outcome is Err,
        after == before,
        client_hello_in(plain) is None ==> outcome == Err::<
            (Seq<char>, [u8; 32], [u8; 32]),
            SecurityError,
        >(SecurityError::Handshake),
{
}

/// A client goes on exactly if the server echoes its nonce in time, with a session
/// and a nonce of its own, the handshake is finished, and the key is the pinned
/// one.
pub proof fn a_client_trusts_only_the_pinned_server(
    plain: Option<Seq<u8>>,
    finished: bool,
    remote: Option<Seq<u8>>,
    nonce: Seq<u8>,
    expected: Seq<u8>,
    now_ms: u64,
    skew: u64,
)
    requires
        expected.len() == 32,
    ensures
        ({
            let verdict = client_verdict(plain, finished, remote, nonce, expected, now_ms, skew);
            let hello = server_hello_in(plain)->0;
            let good = server_hello_in(plain) is Some && hello.version == PROTOCOL_VERSION
                && hello.client_nonce == nonce && !is_zero(hello.server_nonce) && !is_zero(
                hello.session_id,
            ) && in_skew(hello.issued_at_ms, now_ms, skew) && finished;
            &&& verdict is Ok <==> good && remote == Some(expected)
            &&& verdict is Ok ==> verdict->Ok_0 == hello.session_id
            &&& good && remote is Some && remote->0.len() == 32 && remote->0 != expected
                ==> verdict == Err::<Seq<u8>, SecurityError>(SecurityError::Unauthorized)
            &&& !good ==> verdict == Err::<Seq<u8>, SecurityError>(SecurityError::Handshake)
        }),
{
}

/// A client begins a handshake exactly if it has an identifier, headers that can
/// be sent, a pin that is not weak, a secret, and a key pair that belongs together
/// and is not weak.
pub proof fn a_client_begins_exactly_if_equipped(config: ClientHandshakeConfig)
    ensures
        client_fault(config) is None <==> is_id(config.client_id@) && headers_fault(
            header_models(config.headers@),
        ) is None && config.pinned_server_key is Some && !weak_key(config.pinned_server_key->0@)
            && !is_zero(config.psk@) && !weak_key(config.identity.public@)
            && config.identity.public@ == crate::crypto::x25519_public(config.identity.private@),
        is_id(config.client_id@) && headers_fault(header_models(config.headers@)) is None
            && config.pinned_server_key is None ==> client_fault(config) == Some(
            SecurityError::PinRequired,
        ),
{
}

/// A server listens to a greeting exactly if its own settings are sound and the
/// greeting begins with a key that is not weak.
pub proof fn a_server_listens_exactly_if_equipped(config: ServerHandshakeConfig, incoming: Seq<u8>)
    ensures
        server_fault(config, incoming) is None <==> headers_fault(header_models(config.headers@)) is
            None && !is_zero(config.psk@) && !weak_key(config.identity.public@)
            && config.identity.public@ == crate::crypto::x25519_public(config.identity.private@)
            && incoming.len() >= 32 && !weak_key(incoming.take(32)),
{
}

/// Whoever a server answers was on its list, in time and with a fresh nonce, and
/// the nonce is in the cache from then on.
pub proof fn an_answered_client_was_let_in(
    config: ServerHandshakeConfig,
    before: Nonces,
    after: Nonces,
    incoming: Seq<u8>,
    server_nonce: Seq<u8>,
    session_id: [u8; 16],
    now_ms: u64,
    now: u64,
    r: Result<(ServerHandshakeResult, Vec<u8>), SecurityError>,
)
    requires
        is_answered(config, before, after, incoming, server_nonce, session_id, now_ms, now, r),
        now <= crate::clock::CLOCK_END,
    ensures
        r is Ok ==> {
            let result = r->Ok_0.0;
            let entry = ReplayKey {
                client_key: result.client_static_public,
                nonce: result.replay_nonce,
            };
            &&& is_authorized(
                config.allowed_clients@,
                result.client_id@,
                result.client_static_public,
            )
            &&& !weak_key(result.client_static_public@)
            &&& !is_zero(result.replay_nonce@)
            &&& !(before.contains_key(entry) && before[entry].expires > now)
            &&& after.contains_key(entry)
            &&& after[entry].expires > now
        },
{
    if r is Ok {
        let plain = crate::handshake::heard_plain(config.psk@, config.identity.private@, incoming);
        let remote = crate::handshake::heard_remote(
            config.psk@,
            config.identity.private@,
            incoming,
        );
        let outcome = choose|outcome: Result<(Seq<char>, [u8; 32], [u8; 32]), SecurityError>|
            {
                &&& #[trigger] is_judged(config, before, after, plain, remote, now_ms, now, outcome)
                &&& match outcome {
                    Err(error) => r == Err::<(ServerHandshakeResult, Vec<u8>), SecurityError>(
                        error,
                    ),
                    Ok((client_id, key, nonce)) => {
                        &&& r->Ok_0.0.client_id@ == client_id
                        &&& r->Ok_0.0.client_static_public == key
                        &&& r->Ok_0.0.replay_nonce == nonce
                    },
                }
            };
        let (client_id, key, nonce) = outcome->Ok_0;
        let hello = client_hello_in(plain)->0;
        assert(key@ == remote->0 && nonce@ == hello.client_nonce);
        assert(remote == Some(key@));
        a_greeting_is_judged(
            config,
            before,
            after,
            plain,
            now_ms,
            now,
            outcome,
            hello,
            key,
            nonce,
        );
    }
}

/// A nonce is taken exactly if it is not known any more and the client and the
/// cache have room for one more.
pub proof fn a_nonce_is_taken_exactly_if_free(entries: Nonces, key: ReplayKey, now: u64)
    ensures
        reservable(live(entries, now), key) <==> {
            let alive = |k: ReplayKey| entries[k].expires > now;
            &&& !(entries.contains_key(key) && alive(key))
            &&& entries.dom().filter(alive).filter(
                |k: ReplayKey| k.client_key == key.client_key,
            ).len() < 64
            &&& entries.dom().filter(alive).filter(
                |k: ReplayKey| k.client_key == key.client_key && !entries[k].confirmed,
            ).len() < 4
            &&& entries.dom().filter(alive).len() < 8192
        },
{
    let alive = |k: ReplayKey| entries[k].expires > now;
    let left = live(entries, now);
    assert(left.dom() =~= entries.dom().filter(alive));
    assert(of_client(left, key.client_key).dom() =~= entries.dom().filter(alive).filter(
        |k: ReplayKey| k.client_key == key.client_key,
    ));
    assert(pending_of(left, key.client_key).dom() =~= entries.dom().filter(alive).filter(
        |k: ReplayKey| k.client_key == key.client_key && !entries[k].confirmed,
    ));
}

/// After a nonce was offered the cache holds what had not expired, unchanged, and
/// the nonce, if it was taken, for six seconds and not confirmed.
pub proof fn the_cache_after_an_offer(entries: Nonces, key: ReplayKey, other: ReplayKey, now: u64)
    requires
        now <= crate::clock::CLOCK_END,
    ensures
        ({
            let after = after_reserve(entries, key, now);
            let taken = reservable(live(entries, now), key);
            &&& after.contains_key(other) <==> (entries.contains_key(other)
                && entries[other].expires > now) || (taken && other == key)
            &&& entries.contains_key(other) && entries[other].expires > now ==> after[other]
                == entries[other]
            &&& taken ==> after[key] == (ReplayEntry {
                expires: (now + 6_000_000_000) as u64,
                confirmed: false,
            })
        }),
{
}

/// After a confirmation the cache holds what had not expired, and the nonce, if
/// it was still there, confirmed and for three minutes.
pub proof fn the_cache_after_a_confirmation(
    entries: Nonces,
    key: ReplayKey,
    other: ReplayKey,
    now: u64,
)
    requires
        now <= crate::clock::CLOCK_END,
    ensures
        ({
            let after = after_confirm(entries, key, now);
            &&& after.contains_key(other) <==> entries.contains_key(other) && entries[other].expires
                > now
            &&& other != key && after.contains_key(other) ==> after[other] == entries[other]
            &&& after.contains_key(key) ==> after[key] == (ReplayEntry {
                expires: (now + 180_000_000_000) as u64,
                confirmed: true,
            })
        }),
{
}

} // verus!
