use remote_open_power::channel::{frame_record, length_prefix, read_length, SecureConnection};
use remote_open_power::clock::SECOND;
use remote_open_power::handshake::{
    client_begin, client_begin_with, client_finish, client_greeting, decode_client_hello,
    decode_server_hello, derive_noise_psk, handshake_body, handshake_frame, handshake_length,
    server_accept, server_accept_with, server_greeting, within_skew, ClientHandshakeResult, ServerHandshakeResult,
};
use remote_open_power::protocol::{
    ClientEnvelope, ClientOperation, ProtocolError, ServerEnvelope, ServerEvent, PROTOCOL_VERSION,
};
use remote_open_power::replay::{
    ReplayCache, MAX_PENDING_REPLAYS_PER_CLIENT, PENDING_REPLAY_TTL, REPLAY_TTL,
};
use remote_open_power::security::{
    authorize_client, clamp_clock_skew, client_id_from_public_key, fingerprint, is_weak_key,
    AllowedClientAuth, ClientHandshakeConfig, Identity, IoFault, SecurityError,
    ServerHandshakeConfig, MAX_PAYLOAD_BYTES, MAX_RECORD_BYTES,
};

use remote_open_power::wire::{decode_client, encode_server};

const NOW: u64 = 5_000 * SECOND;
const NOW_MS: u64 = 1_700_000_000_000;

fn identity() -> Identity {
    Identity::generate().ok().expect("identity")
}

fn configs(psk: [u8; 32], acl_id: Option<&str>) -> (ServerHandshakeConfig, ClientHandshakeConfig) {
    let server_identity = identity();
    let client_identity = identity();
    let server_public = server_identity.public;
    let client_public = client_identity.public;
    let client_id = client_id_from_public_key(&client_public);
    let server = ServerHandshakeConfig {
        psk,
        identity: server_identity,
        clock_skew: 30 * SECOND,
        headers: Vec::new(),
        allowed_clients: vec![AllowedClientAuth {
            client_id: match acl_id {
                Some(id) => id.to_owned(),
                None => client_id.clone(),
            },
            static_public_key: client_public,
            allowed_hosts: Vec::new(),
        }],
    };
    let client = ClientHandshakeConfig {
        psk,
        identity: client_identity,
        client_id,
        pinned_server_key: Some(server_public),
        clock_skew: 30 * SECOND,
        headers: Vec::new(),
    };
    (server, client)
}

fn body(frame: &[u8], phase: u8) -> Vec<u8> {
    let prefix: [u8; 4] = [frame[0], frame[1], frame[2], frame[3]];
    let length = handshake_length(&prefix).expect("length");
    assert_eq!(frame.len(), 4 + length);
    handshake_body(&frame[4..], phase).expect("body")
}

fn shake(
    server: &ServerHandshakeConfig,
    client: &ClientHandshakeConfig,
    replay: &mut ReplayCache,
) -> (
    Result<ClientHandshakeResult, SecurityError>,
    Result<ServerHandshakeResult, SecurityError>,
) {
    let (started, hello) = client_begin(client, NOW_MS).ok().expect("begin");
    match server_accept(server, replay, &body(&hello, 1), NOW_MS, NOW) {
        Ok((accepted, answer)) => (
            client_finish(started, &body(&answer, 2), NOW_MS),
            Ok(accepted),
        ),
        Err(error) => (Err(SecurityError::Handshake), Err(error)),
    }
}

fn pair(psk: [u8; 32]) -> (SecureConnection, SecureConnection) {
    let (server_config, client_config) = configs(psk, None);
    let mut replay = ReplayCache::default();
    let (client, server) = shake(&server_config, &client_config, &mut replay);
    (
        client.ok().expect("client handshake").connection,
        server.ok().expect("server handshake").connection,
    )
}

fn poll_payload_until(connection: &mut SecureConnection) -> Vec<u8> {
    connection
        .poll_payload()
        .expect("payload")
        .expect("a whole record")
}

#[test]
fn identity_round_trip_and_pin_fingerprint() {
    let identity = identity();
    let restored = Identity::from_hex(&identity.private_hex(), &identity.public_hex())
        .ok()
        .unwrap();
    assert!(identity.private == restored.private && identity.public == restored.public);
    assert_eq!(fingerprint(&identity.public).len(), 64);
}

#[test]
fn replay_cache_rejects_nonce_reuse() {
    let mut cache = ReplayCache::default();
    assert!(cache.check_and_insert([8; 32], [9; 32], NOW));
    assert!(!cache.check_and_insert([8; 32], [9; 32], NOW));
}

#[test]
fn unconfirmed_replay_reservations_are_per_client_and_bounded() {
    let mut cache = ReplayCache::default();
    for nonce in 1..=MAX_PENDING_REPLAYS_PER_CLIENT as u8 {
        assert!(cache.reserve([1; 32], [nonce; 32], NOW));
    }
    assert!(!cache.reserve([1; 32], [9; 32], NOW));
    assert!(cache.reserve([2; 32], [9; 32], NOW));
    assert!(cache.confirm([1; 32], [1; 32], NOW));
    assert!(cache.reserve([1; 32], [9; 32], NOW));
}

#[test]
fn ik_handshake_round_trip() {
    let psk = [42u8; 32];
    let (server_config, client_config) = configs(psk, None);
    let server_public = server_config.identity.public;
    let client_public = client_config.identity.public;
    let mut replay = ReplayCache::default();
    let (client, server) = shake(&server_config, &client_config, &mut replay);
    let client = client.ok().expect("client handshake");
    let server = server.ok().expect("server handshake");
    assert_eq!(client.server_static_public, server_public);
    assert_eq!(server.client_static_public, client_public);
    assert_eq!(server.client_id, client_config.client_id);
    assert_eq!(
        client.connection.channel.session_id,
        server.connection.channel.session_id
    );
}

#[test]
fn portable_key_id_rejects_a_mismatched_acl_identity() {
    let psk = [44u8; 32];
    let (server_config, client_config) = configs(psk, Some("school-laptop"));
    let mut replay = ReplayCache::default();
    let (client, server) = shake(&server_config, &client_config, &mut replay);
    assert!(client.is_err());
    assert!(server.is_err());
}

#[test]
fn coalesced_payloads_are_independent_and_bad_typed_payload_closes() {
    let (mut client, mut server) = pair([43u8; 32]);

    // Both records are there before the first one is taken.
    let mut wire = client.send_payload(b"one").expect("first payload");
    wire.extend(client.send_payload(b"two").expect("second payload"));
    server.channel.received(&wire).expect("read");

    let first = poll_payload_until(&mut server);
    let second = poll_payload_until(&mut server);
    assert_eq!(first, b"one");
    assert_eq!(second, b"two");

    // The channel is authenticated, but this is no message.
    let wire = client.send_payload(&[0xff]).expect("malformed payload");
    server.channel.received(&wire).expect("read");
    let payload = poll_payload_until(&mut server);
    assert!(matches!(
        server.accept_server_envelope(&payload),
        Err(SecurityError::Protocol(_))
    ));
    assert!(server.channel.closed);
    assert!(matches!(
        server.poll_payload(),
        Err(SecurityError::Transport)
    ));
}

#[test]
fn payloads_cross_in_both_directions_byte_by_byte() {
    let (mut client, mut server) = pair([1u8; 32]);
    let request = client.send_payload(b"ping").expect("request");
    assert_ne!(request, b"ping".to_vec());
    for byte in &request[..request.len() - 1] {
        server.channel.received(&[*byte]).expect("read");
        assert!(matches!(server.poll_payload(), Ok(None)));
    }
    server.channel.received(&request[request.len() - 1..]).expect("read");
    assert_eq!(poll_payload_until(&mut server), b"ping");
    assert_eq!(server.buffered_len(), 0);
    let answer = server.send_payload(b"pong").expect("answer");
    client.channel.received(&answer).expect("read");
    assert_eq!(poll_payload_until(&mut client), b"pong");
}

#[test]
fn a_changed_or_repeated_record_closes_the_connection() {
    let (mut client, mut server) = pair([2u8; 32]);
    let mut wire = client.send_payload(b"ping").expect("request");
    let last = wire.len() - 1;
    wire[last] ^= 1;
    server.channel.received(&wire).expect("read");
    assert!(server.poll_payload().is_err());
    assert!(server.channel.closed);

    let (mut client, mut server) = pair([3u8; 32]);
    let wire = client.send_payload(b"ping").expect("request");
    server.channel.received(&wire).expect("read");
    assert_eq!(poll_payload_until(&mut server), b"ping");
    server.channel.received(&wire).expect("read");
    assert!(server.poll_payload().is_err());
}

#[test]
fn a_replayed_first_message_is_refused() {
    let (server_config, client_config) = configs([4u8; 32], None);
    let mut replay = ReplayCache::default();
    let (_, hello) = client_begin(&client_config, NOW_MS).ok().expect("begin");
    let message = body(&hello, 1);
    assert!(server_accept(&server_config, &mut replay, &message, NOW_MS, NOW).is_ok());
    assert!(matches!(
        server_accept(&server_config, &mut replay, &message, NOW_MS, NOW),
        Err(SecurityError::Replay)
    ));
}

#[test]
fn a_late_first_message_is_refused() {
    let (server_config, client_config) = configs([5u8; 32], None);
    let mut replay = ReplayCache::default();
    let (_, hello) = client_begin(&client_config, NOW_MS).ok().expect("begin");
    let late = NOW_MS + 31_000;
    assert!(matches!(
        server_accept(&server_config, &mut replay, &body(&hello, 1), late, NOW),
        Err(SecurityError::Expired)
    ));
}

#[test]
fn another_secret_or_pin_fails() {
    let (server_config, mut client_config) = configs([6u8; 32], None);
    client_config.psk = [7; 32];
    let mut replay = ReplayCache::default();
    let (client, server) = shake(&server_config, &client_config, &mut replay);
    assert!(client.is_err() && server.is_err());
    let (server_config, mut client_config) = configs([6u8; 32], None);
    client_config.pinned_server_key = Some(identity().public);
    let (client, server) = shake(&server_config, &client_config, &mut replay);
    assert!(client.is_err() && server.is_err());
    client_config.pinned_server_key = None;
    assert!(matches!(
        client_begin(&client_config, NOW_MS),
        Err(SecurityError::PinRequired)
    ));
}

#[test]
fn replay_records_expire() {
    let mut cache = ReplayCache::default();
    assert!(cache.reserve([1; 32], [1; 32], NOW));
    assert!(!cache.reserve([1; 32], [1; 32], NOW + PENDING_REPLAY_TTL - 1));
    assert!(cache.reserve([1; 32], [1; 32], NOW + PENDING_REPLAY_TTL));
    assert!(cache.confirm([1; 32], [1; 32], NOW + PENDING_REPLAY_TTL));
    let later = NOW + PENDING_REPLAY_TTL;
    assert!(!cache.reserve([1; 32], [1; 32], later + REPLAY_TTL - 1));
    assert!(cache.reserve([1; 32], [1; 32], later + REPLAY_TTL));
    assert!(!cache.confirm([3; 32], [3; 32], later));
}

#[test]
fn frames_carry_their_length() {
    assert_eq!(length_prefix(258), vec![0, 0, 1, 2]);
    assert_eq!(read_length(&[0, 0, 1, 2]), 258);
    assert_eq!(frame_record(&[7, 8], 2).unwrap(), vec![0, 0, 0, 2, 7, 8]);
    assert!(matches!(
        frame_record(&[7, 8, 9], 2),
        Err(SecurityError::FrameTooLarge)
    ));
    assert_eq!(handshake_frame(1, &[9]).unwrap(), vec![0, 0, 0, 2, 1, 9]);
    assert!(handshake_length(&[0, 0, 0, 1]).is_err());
    assert!(handshake_length(&[0, 1, 0, 0]).is_err());
    assert!(handshake_body(&[2, 9], 1).is_err());
}

#[test]
fn oversized_records_and_payloads_are_refused() {
    let (mut client, mut server) = pair([8u8; 32]);
    assert!(matches!(
        client.send_payload(&vec![0; MAX_PAYLOAD_BYTES + 1]),
        Err(SecurityError::FrameTooLarge)
    ));
    server
        .channel
        .received(&length_prefix(MAX_RECORD_BYTES + 1))
        .expect("read");
    assert!(matches!(
        server.poll_payload(),
        Err(SecurityError::FrameTooLarge)
    ));
    assert!(server.channel.closed);
    assert!(matches!(
        client.channel.received(&[]),
        Err(SecurityError::Io(IoFault::UnexpectedEof))
    ));
}

#[test]
fn messages_are_checked_before_they_leave_and_when_they_come() {
    let (mut client, mut server) = pair([9u8; 32]);
    let mut envelope = ClientEnvelope {
        version: PROTOCOL_VERSION,
        request_id: [1; 16],
        issued_at_ms: NOW_MS,
        headers: Vec::new(),
        operation: ClientOperation::ListHosts,
    };
    let wire = client.send_client_envelope(&envelope).expect("request");
    server.channel.received(&wire).expect("read");
    let payload = poll_payload_until(&mut server);
    assert!(decode_client(&payload).is_ok_and(|read| read == envelope));
    envelope.version = 9;
    assert!(matches!(
        client.send_client_envelope(&envelope),
        Err(SecurityError::Protocol(ProtocolError::Version))
    ));
    let reply = ServerEnvelope {
        version: PROTOCOL_VERSION,
        request_id: [1; 16],
        issued_at_ms: NOW_MS,
        headers: Vec::new(),
        event: ServerEvent::Hosts {
            catalog_version: 1,
            hosts: Vec::new(),
        },
    };
    let mut bytes = encode_server(&reply).expect("reply");
    assert!(client.accept_server_envelope(&bytes).is_ok_and(|read| read == reply));
    assert!(!client.channel.closed);
    bytes.push(0);
    assert!(matches!(
        client.accept_server_envelope(&bytes),
        Err(SecurityError::Protocol(ProtocolError::Operation))
    ));
    assert!(client.channel.closed);
}

#[test]
fn weak_keys_and_strangers_are_refused() {
    assert!(is_weak_key(&[0; 32]));
    assert!(!is_weak_key(&identity().public));
    let id = client_id_from_public_key(&[5; 32]);
    let known = AllowedClientAuth {
        client_id: id.clone(),
        static_public_key: [5; 32],
        allowed_hosts: Vec::new(),
    };
    let clients = vec![known];
    assert_eq!(authorize_client(&id, &[5; 32], &clients).unwrap(), id);
    assert!(matches!(
        authorize_client(&id, &[6; 32], &clients),
        Err(SecurityError::Unauthorized)
    ));
    assert!(matches!(
        authorize_client("other", &[5; 32], &clients),
        Err(SecurityError::Unauthorized)
    ));
}

#[test]
fn clocks_may_differ_by_the_skew() {
    assert!(within_skew(1_000, 31_000, 30 * SECOND));
    assert!(!within_skew(1_000, 31_001, 30 * SECOND));
    assert!(within_skew(31_000, 1_000, 30 * SECOND));
    assert_eq!(clamp_clock_skew(0), SECOND);
    assert_eq!(clamp_clock_skew(100 * SECOND), 60 * SECOND);
}

#[test]
fn secrets_of_the_two_stages_differ() {
    let first = derive_noise_psk(&[1; 32], "a");
    let second = derive_noise_psk(&[1; 32], "b");
    assert_ne!(first, second);
    assert_ne!(first, [1; 32]);
    assert_eq!(first, derive_noise_psk(&[1; 32], "a"));
}

#[test]
fn an_erased_identity_holds_nothing() {
    let mut gone = identity();
    gone.erase();
    assert_eq!(gone.private, [0; 32]);
}

#[test]
fn the_digest_of_a_key_is_its_name() {
    assert_eq!(
        fingerprint(&[0; 32]),
        "66687aadf862bd776c8fc18b8e9f8e20089714856ee233b3902a591d0d5f2925"
    );
    assert_eq!(client_id_from_public_key(&[0; 32]), fingerprint(&[0; 32]));
}

#[test]
fn a_greeting_is_its_fields_in_order() {
    let (_, client) = configs([10u8; 32], None);
    let mut expected = vec![PROTOCOL_VERSION as u8];
    expected.extend([7; 32]);
    expected.extend([0xac, 0x02]);
    expected.push(64);
    expected.extend(client.client_id.as_bytes());
    let greeting = client_greeting(&client, &[7; 32], 300).ok().expect("greeting");
    assert_eq!(greeting, expected);
    let read = decode_client_hello(&Some(greeting.clone())).expect("client greeting");
    assert_eq!(read.version, PROTOCOL_VERSION);
    assert_eq!(read.client_nonce, [7; 32]);
    assert_eq!(read.issued_at_ms, 300);
    assert_eq!(read.client_id, client.client_id);

    // A byte behind it, or one that is missing, makes it no greeting.
    let mut longer = greeting.clone();
    longer.push(0);
    assert!(decode_client_hello(&Some(longer)).is_none());
    assert!(decode_client_hello(&Some(greeting[..greeting.len() - 1].to_vec())).is_none());
    assert!(decode_client_hello(&None).is_none());

    let mut expected = vec![PROTOCOL_VERSION as u8];
    expected.extend([1; 32]);
    expected.extend([2; 32]);
    expected.extend([3; 16]);
    expected.extend([0x80, 0x80, 0x01]);
    let reply = server_greeting(&[1; 32], &[2; 32], &[3; 16], 16_384).ok().expect("reply");
    assert_eq!(reply, expected);
    let read = decode_server_hello(&Some(reply)).expect("server greeting");
    assert_eq!(read.client_nonce, [1; 32]);
    assert_eq!(read.server_nonce, [2; 32]);
    assert_eq!(read.session_id, [3; 16]);
    assert_eq!(read.issued_at_ms, 16_384);
}

#[test]
fn numbers_of_a_greeting_may_be_long_but_not_too_long() {
    let fields = |time: &[u8]| {
        let mut bytes = vec![1u8];
        bytes.extend([1; 32]);
        bytes.extend([2; 32]);
        bytes.extend([3; 16]);
        bytes.extend(time);
        Some(bytes)
    };
    let time = |bytes: &[u8]| decode_server_hello(&fields(bytes)).map(|hello| hello.issued_at_ms);
    assert_eq!(time(&[5]), Some(5));
    assert_eq!(time(&[0x85, 0x00]), Some(5));
    let mut largest = [0xff; 10];
    largest[9] = 0x01;
    assert_eq!(time(&largest), Some(u64::MAX));
    largest[9] = 0x02;
    assert_eq!(time(&largest), None);
    assert_eq!(time(&[0x80; 11]), None);
    assert_eq!(time(&[0x80]), None);
}

#[test]
fn a_greeting_needs_sound_settings_and_a_nonce() {
    let (_, client) = configs([11u8; 32], None);
    assert!(matches!(
        client_greeting(&client, &[0; 32], NOW_MS),
        Err(SecurityError::Expired)
    ));
    assert!(matches!(
        client_begin_with(&client, [0; 32], NOW_MS),
        Err(SecurityError::Expired)
    ));
    let (_, mut unpinned) = configs([11u8; 32], None);
    unpinned.pinned_server_key = None;
    assert!(matches!(
        client_greeting(&unpinned, &[7; 32], NOW_MS),
        Err(SecurityError::PinRequired)
    ));
    unpinned.pinned_server_key = Some([0; 32]);
    assert!(matches!(
        client_greeting(&unpinned, &[7; 32], NOW_MS),
        Err(SecurityError::Identity)
    ));
    unpinned.client_id = String::new();
    assert!(matches!(
        client_greeting(&unpinned, &[7; 32], NOW_MS),
        Err(SecurityError::Handshake)
    ));
}

#[test]
fn a_drawn_pair_has_two_keys_of_their_size() {
    let made = Identity::from_pair(Some((vec![1; 32], vec![2; 32]))).ok().expect("pair");
    assert_eq!(made.private, [1; 32]);
    assert_eq!(made.public, [2; 32]);
    assert!(matches!(Identity::from_pair(None), Err(SecurityError::Identity)));
    assert!(matches!(
        Identity::from_pair(Some((vec![1; 31], vec![2; 32]))),
        Err(SecurityError::Identity)
    ));
    assert!(matches!(
        Identity::from_pair(Some((vec![1; 32], vec![2; 33]))),
        Err(SecurityError::Identity)
    ));
}

#[test]
fn a_split_behind_the_first_payload_keeps_the_order() {
    let (mut client, mut server) = pair([12u8; 32]);
    let mut wire = client.send_payload(b"first").expect("first payload");
    let length = wire.len();
    wire.extend(client.send_payload(b"second").expect("second payload"));
    server.channel.received(&wire[..length + 3]).expect("read");
    assert_eq!(poll_payload_until(&mut server), b"first");
    assert!(matches!(server.poll_payload(), Ok(None)));
    assert_eq!(server.buffered_len(), 3);
    server.channel.received(&wire[length + 3..]).expect("read");
    assert_eq!(poll_payload_until(&mut server), b"second");
    assert_eq!(server.buffered_len(), 0);
}

#[test]
fn a_server_answers_with_the_session_that_it_is_given() {
    let (server_config, client_config) = configs([13u8; 32], None);
    let mut replay = ReplayCache::default();
    let (started, hello) = client_begin_with(&client_config, [5; 32], NOW_MS).ok().expect("begin");
    let (accepted, answer) = server_accept_with(
        &server_config,
        &mut replay,
        &body(&hello, 1),
        [6; 32],
        [7; 16],
        NOW_MS,
        NOW,
    )
    .ok()
    .expect("accepted");
    assert_eq!(accepted.connection.channel.session_id, [7; 16]);
    assert_eq!(accepted.replay_nonce, [5; 32]);
    assert_eq!(accepted.client_static_public, client_config.identity.public);
    let finished = client_finish(started, &body(&answer, 2), NOW_MS).ok().expect("finished");
    assert_eq!(finished.connection.channel.session_id, [7; 16]);
}

#[test]
fn a_client_is_known_by_the_key_that_it_has_and_not_by_its_name() {
    let (server_config, mut client_config) = configs([14u8; 32], None);
    client_config.identity = identity();
    let mut replay = ReplayCache::default();
    let (client, server) = shake(&server_config, &client_config, &mut replay);
    assert!(client.is_err());
    assert!(matches!(server, Err(SecurityError::Unauthorized)));
}

#[test]
fn a_connection_is_described_by_its_session() {
    let (mut client, _) = pair([15u8; 32]);
    client.channel.session_id = [0xab; 16];
    client.send_payload(b"one").expect("payload");
    assert_eq!(
        client.describe("192.0.2.1:45123"),
        format!(
            "SecureConnection {{ session_id: \"{}\", send_seq: 1, recv_seq: 0, \
             peer_addr: 192.0.2.1:45123 }}",
            "ab".repeat(16)
        )
    );
}

#[test]
fn a_fault_is_told_by_its_kind_alone() {
    assert_eq!(SecurityError::Handshake.as_str(), "Noise handshake failed");
    assert_eq!(SecurityError::Io(IoFault::TimedOut).as_str(), "I/O error");
    assert_eq!(
        SecurityError::Expired.as_str(),
        "handshake timestamp is outside the allowed window"
    );
    assert_eq!(
        SecurityError::Protocol(ProtocolError::Header).as_str(),
        "protocol error"
    );
    assert_eq!(ProtocolError::Header.as_str(), "invalid or duplicate header");
    assert_eq!(ProtocolError::Version.as_str(), "unsupported protocol version");
}
