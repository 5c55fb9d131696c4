use remote_open_power::clock::SECOND;
use remote_open_power::config::{write_key, AllowedClient, AppConfig, HostConfig};
use remote_open_power::handshake::{client_begin, handshake_body, server_accept};
use remote_open_power::limits::{
    MAX_CONCURRENT_HANDSHAKES, MAX_CONCURRENT_PROBES, MAX_CONNECTIONS, MAX_CONNECTIONS_PER_CLIENT,
};
use remote_open_power::net::{parse_ip, IpAddress};
use remote_open_power::policy::{client_access_from_config, find_access, AccessPolicy, ServerError};
use remote_open_power::probe::{
    magic_packet, may_ping, ping_seconds, probe_plan, scope_of, scoped_ip_argument,
};
use remote_open_power::protocol::{
    ClientEnvelope, ClientOperation, ErrorCode, HostState, ServerEvent, WakeErrorCode,
    PROTOCOL_VERSION,
};
use remote_open_power::request::{
    draw_ticket, finish_statuses, finish_wake, operation_name, process_envelope, short_key,
    short_request, Monitor, RequestStep, WakeOutcome, MONITOR_INTERVAL, MONITOR_TIMEOUT,
};
use remote_open_power::security::{
    client_id_from_public_key, ClientHandshakeConfig, Identity, SecurityError,
};
use remote_open_power::server::{
    configured_handshake, start_server, Overrides, PolicyChange, ServerRuntime,
};
use remote_open_power::session::{
    monitor_sleep, request_time_valid, MessageVerdict, OnlineStep, PeerVerdict, SessionCheck,
    SessionRefusal, MAX_SESSION_LIFETIME,
};
use remote_open_power::snapshot::{catalog_version, directory_summary, request_digest_context};

use remote_open_power::wire::encode_client;

const NOW: u64 = 5_000 * SECOND;
const NOW_MS: u64 = 1_700_000_000_000;

fn host(name: &str, ip: &str) -> HostConfig {
    HostConfig {
        hostname: name.to_owned(),
        display_name: String::new(),
        mac: "02:11:22:33:44:55".to_owned(),
        ip: ip.to_owned(),
        wol_port: 9,
        probe_timeout_ms: 1_000,
        probe_port: 0,
        wol_ipv6_interface: 0,
    }
}

fn enroll_test_client(config: &mut AppConfig) -> ClientHandshakeConfig {
    let identity = Identity::generate().ok().unwrap();
    let client_id = client_id_from_public_key(&identity.public);
    config.security.allowed_clients.push(AllowedClient {
        client_id: client_id.clone(),
        static_public_key: write_key(&identity.public),
        allowed_hosts: vec!["lab-pc".into()],
    });
    ClientHandshakeConfig {
        psk: config.secret_key().unwrap(),
        identity,
        client_id,
        pinned_server_key: Some(
            remote_open_power::config::decode_key(&config.security.server_static_public_key)
                .unwrap(),
        ),
        clock_skew: config.security.clock_skew_seconds * SECOND,
        headers: Vec::new(),
    }
}

fn test_config() -> (AppConfig, ClientHandshakeConfig) {
    let mut config = AppConfig::default();
    config.ensure_secret();
    config.ensure_server_identity_material().unwrap();
    config.server.bind_address = "127.0.0.1".into();
    config.server.dual_stack = false;
    config.server.port = 45_123;
    config.hosts.push(host("lab-pc", "192.168.1.10"));
    let client = enroll_test_client(&mut config);
    (config, client)
}

fn no_overrides() -> Overrides {
    Overrides {
        bind: None,
        port: None,
    }
}

fn runtime_of(config: &AppConfig) -> ServerRuntime {
    let handshake = configured_handshake(config).ok().expect("handshake settings");
    ServerRuntime::new_with_components(config, handshake, no_overrides())
        .ok()
        .expect("server runtime")
}

fn envelope(request_id: [u8; 16], operation: ClientOperation) -> ClientEnvelope {
    ClientEnvelope {
        version: PROTOCOL_VERSION,
        request_id,
        issued_at_ms: NOW_MS,
        headers: Vec::new(),
        operation,
    }
}

fn wake(runtime: &ServerRuntime, attempt: u8, retry_ticket: Option<[u8; 32]>) -> ClientOperation {
    ClientOperation::Wake {
        catalog_version: runtime.snapshot.catalog_version,
        host_ids: vec!["lab-pc".into()],
        attempt,
        boot_nonce: [2; 16],
        retry_ticket,
    }
}

fn allowed() -> Vec<String> {
    vec!["lab-pc".to_owned()]
}

fn ask(
    runtime: &mut ServerRuntime,
    key: [u8; 32],
    request: &ClientEnvelope,
    now: u64,
) -> RequestStep {
    process_envelope(
        &runtime.snapshot,
        &mut runtime.books,
        key,
        &allowed(),
        request,
        [77; 32],
        now,
        NOW_MS,
    )
}

fn connects(runtime: &mut ServerRuntime, client: &ClientHandshakeConfig) -> bool {
    let (_, hello) = client_begin(client, NOW_MS).ok().expect("first message");
    let message = handshake_body(&hello[4..], 1).expect("body");
    server_accept(
        &runtime.handshake,
        &mut runtime.replay_cache,
        &message,
        NOW_MS,
        NOW,
    )
    .is_ok()
}

#[test]
fn runtime_access_policy_drops_a_revoked_client_key() {
    let key = Identity::generate()
        .ok()
        .expect("generate client identity")
        .public;
    let mut config = AppConfig::default();
    config.security.allowed_clients = vec![AllowedClient {
        client_id: client_id_from_public_key(&key),
        static_public_key: format!("hex:{}", hex::encode(key)),
        allowed_hosts: vec!["lab-pc".to_owned()],
    }];
    let mut policy = AccessPolicy::new(
        client_access_from_config(&config.security.allowed_clients)
            .ok()
            .expect("build initial access policy"),
    );
    assert_eq!(
        find_access(&policy.clients, &key),
        Some(&vec!["lab-pc".to_owned()])
    );

    config.security.allowed_clients.clear();
    policy.clients = client_access_from_config(&config.security.allowed_clients)
        .ok()
        .expect("reload revoked access policy");
    assert!(find_access(&policy.clients, &key).is_none());
}

#[test]
fn saved_credential_revocation_updates_the_live_access_policy() {
    let (mut config, client) = test_config();
    let client_key = client.identity.public;
    let mut runtime = runtime_of(&config);
    assert!(runtime.policy.client_is_authorized(&client_key));

    config.security.allowed_clients.clear();
    assert!(matches!(
        runtime.refresh_access_policy(Some(config)),
        PolicyChange::Reloaded(0)
    ));
    assert!(!runtime.policy.client_is_authorized(&client_key));
}

#[test]
fn directory_summary_never_contains_network_coordinates() {
    let host = HostConfig {
        hostname: "lab-desktop".to_owned(),
        display_name: "Lab desktop".to_owned(),
        mac: "02:11:22:33:44:55".to_owned(),
        ip: "192.168.1.10".to_owned(),
        wol_port: 9,
        probe_timeout_ms: 1_000,
        probe_port: 0,
        wol_ipv6_interface: 0,
    };
    let summary = directory_summary(&host);
    let wire = postcard::to_stdvec(&(summary.host_id.clone(),)).expect("summary encodes");

    let remote_open_power::protocol::HostSummary { host_id } = summary;
    let mut shown = serde_json::Map::new();
    shown.insert("host_id".to_owned(), serde_json::Value::String(host_id));
    assert_eq!(
        serde_json::Value::Object(shown).to_string(),
        "{\"host_id\":\"lab-desktop\"}"
    );
    assert!(!wire
        .windows(host.mac.len())
        .any(|part| part == host.mac.as_bytes()));
    assert!(!wire
        .windows(host.ip.len())
        .any(|part| part == host.ip.as_bytes()));
}

#[test]
fn listener_overrides_survive_reload_and_unoverridden_changes_stop_service() {
    let (mut config, _) = test_config();
    let port = config.server.port;
    let (mut runtime, _) = start_server(
        config.clone(),
        Overrides {
            bind: Some("127.0.0.1".into()),
            port: Some(port),
        },
    )
    .ok()
    .expect("server starts");
    config.server.bind_address = "0.0.0.0".into();
    config.server.port = 45_999;
    let before = runtime.snapshot.bind_addrs.clone();
    runtime.refresh_access_policy(Some(config.clone()));
    assert!(runtime.snapshot.bind_addrs == before);
    assert!(runtime.policy.source_healthy);
    assert!(!runtime.restart_required);

    config.server.bind_address = "127.0.0.1".into();
    let (mut runtime, _) = start_server(config.clone(), no_overrides())
        .ok()
        .expect("server starts");
    config.server.port = port;
    assert!(matches!(
        runtime.refresh_access_policy(Some(config)),
        PolicyChange::RestartRequired
    ));
    assert!(runtime.restart_required);
}

#[test]
fn reconnect_recovers_receipt_without_another_wake_packet() {
    let (config, client) = test_config();
    let key = client.identity.public;
    let mut runtime = runtime_of(&config);
    let operation_id = [6; 16];
    let request = envelope(operation_id, wake(&runtime, 1, None));
    let mut packets = 0;

    let original = match ask(&mut runtime, key, &request, NOW) {
        RequestStep::Dispatch(operation, attempt, ticket, hosts) => {
            packets += hosts.len();
            finish_wake(
                &runtime.snapshot,
                &mut runtime.books,
                operation,
                attempt,
                ticket,
                &hosts,
                &vec![WakeOutcome::Sent],
                NOW,
                NOW_MS,
            )
        }
        _ => panic!("initial receipt"),
    };
    let RequestStep::Reply(original, _) = original else {
        panic!("initial receipt")
    };
    let resumed = match ask(&mut runtime, key, &request, NOW + SECOND) {
        RequestStep::Reply(resumed, _) => resumed,
        _ => panic!("recovered receipt"),
    };
    let ServerEvent::CommandExecuted {
        retry_ticket,
        results,
        ..
    } = original.event
    else {
        panic!("initial receipt")
    };
    assert!(
        matches!(resumed.event, ServerEvent::CommandExecuted { retry_ticket: resumed_ticket, results: resumed_results, .. } if resumed_ticket == retry_ticket && resumed_results == results)
    );
    assert_eq!(packets, 1);
}

#[test]
fn stopped_server_joins_authenticated_connections_and_cannot_wake() {
    let (config, client) = test_config();
    let key = client.identity.public;
    let peer = parse_ip("192.168.1.50").unwrap();
    let mut runtime = runtime_of(&config);
    runtime.metrics.set_listening(true);
    let PeerVerdict::Admitted(permits) = runtime.admit_peer(peer, NOW) else {
        panic!("the peer is admitted")
    };
    assert_eq!(runtime.metrics.active_connections(), 1);
    assert!(connects(&mut runtime, &client));
    runtime.end_handshake(permits.handshake, permits.pending);
    let (session, permit) = runtime.open_session(key, [1; 32], NOW).ok().expect("session");
    assert!(matches!(
        ask(
            &mut runtime,
            key,
            &envelope([5; 16], ClientOperation::ListHosts),
            NOW
        ),
        RequestStep::Reply(reply, None) if matches!(reply.event, ServerEvent::Hosts { .. })
    ));
    runtime.metrics.set_listening(false);
    runtime.end_session(permit);
    runtime.end_connection(permits.connection, permits.ip);
    drop(session);
    assert!(!runtime.metrics.is_listening());
    assert_eq!(runtime.metrics.active_connections(), 0);
}

#[test]
fn reloaded_policy_updates_handshake_catalog_target_and_revokes_open_session() {
    let (mut config, old_client) = test_config();
    let mut runtime = runtime_of(&config);
    let old_catalog = runtime.snapshot.catalog_version;
    assert!(connects(&mut runtime, &old_client));
    let (old_session, _) = runtime
        .open_session(old_client.identity.public, [1; 32], NOW)
        .ok()
        .expect("session");
    assert!(matches!(runtime.check_session(&old_session, NOW), SessionCheck::Live));

    let new_client = enroll_test_client(&mut config);
    config.hosts[0].ip = "192.168.1.99".into();
    assert!(!connects(&mut runtime, &new_client));
    runtime.refresh_access_policy(Some(config.clone()));
    assert_ne!(runtime.snapshot.catalog_version, old_catalog);
    assert_eq!(
        runtime.snapshot.find("lab-pc").unwrap().config.ip,
        "192.168.1.99"
    );
    assert!(!matches!(runtime.check_session(&old_session, NOW), SessionCheck::Live));

    assert!(connects(&mut runtime, &new_client));
    let key = new_client.identity.public;
    let (session, _) = runtime.open_session(key, [2; 32], NOW).ok().expect("session");
    assert!(
        matches!(ask(&mut runtime, key, &envelope([5; 16], ClientOperation::ListHosts), NOW),
            RequestStep::Reply(reply, None)
                if matches!(reply.event, ServerEvent::Hosts { catalog_version, .. } if catalog_version != old_catalog))
    );
    config.security.allowed_clients.clear();
    runtime.refresh_access_policy(Some(config));
    assert!(!matches!(runtime.check_session(&session, NOW), SessionCheck::Live));
}

#[test]
fn slow_status_probe_does_not_block_wake_receipt() {
    let (config, client) = test_config();
    let key = client.identity.public;
    let mut runtime = runtime_of(&config);
    let statuses = envelope(
        [8; 16],
        ClientOperation::GetStatuses {
            catalog_version: runtime.snapshot.catalog_version,
            host_ids: vec!["lab-pc".into()],
        },
    );
    let RequestStep::Probe(probing, probed) = ask(&mut runtime, key, &statuses, NOW) else {
        panic!("the host is probed")
    };
    let request = envelope([9; 16], wake(&runtime, 1, None));
    let RequestStep::Dispatch(operation, attempt, ticket, hosts) =
        ask(&mut runtime, key, &request, NOW)
    else {
        panic!("the host is woken")
    };
    let receipt = finish_wake(
        &runtime.snapshot,
        &mut runtime.books,
        operation,
        attempt,
        ticket,
        &hosts,
        &vec![WakeOutcome::Sent],
        NOW,
        NOW_MS,
    );
    assert!(matches!(receipt, RequestStep::Reply(reply, Some(_))
        if matches!(&reply.event, ServerEvent::CommandExecuted { results, .. } if results[0].accepted)));
    let late = finish_statuses(
        &runtime.snapshot,
        &mut runtime.books,
        probing,
        &probed,
        &vec![(Some(false), NOW_MS + 4_000)],
        NOW + 4 * SECOND,
        NOW_MS + 4_000,
    );
    assert!(matches!(late, RequestStep::Reply(reply, None)
        if matches!(&reply.event, ServerEvent::Statuses { statuses, .. }
            if statuses[0].state == HostState::Offline)));
}

#[test]
fn link_local_probe_coordinates_preserve_the_interface_scope() {
    let ip = parse_ip("fe80::1234").unwrap();
    let Some(scope) = scope_of(&ip, 17) else {
        panic!("link-local destination must remain IPv6");
    };
    assert_eq!(scope, 17);
    assert_eq!(scoped_ip_argument(&ip, 17), "fe80::1234%17");
}

#[test]
fn a_retry_is_sent_once_and_watched_under_its_own_number() {
    let (config, client) = test_config();
    let key = client.identity.public;
    let mut runtime = runtime_of(&config);
    let first = envelope([6; 16], wake(&runtime, 1, None));
    let RequestStep::Dispatch(operation, 1, ticket, hosts) = ask(&mut runtime, key, &first, NOW)
    else {
        panic!("first attempt")
    };
    finish_wake(
        &runtime.snapshot,
        &mut runtime.books,
        operation,
        1,
        ticket,
        &hosts,
        &vec![WakeOutcome::Sent],
        NOW,
        NOW_MS,
    );
    let second = envelope([6; 16], wake(&runtime, 2, Some(ticket)));
    let later = NOW + 61 * SECOND;
    let RequestStep::Dispatch(operation, 2, ticket, hosts) = ask(&mut runtime, key, &second, later)
    else {
        panic!("second attempt")
    };
    finish_wake(
        &runtime.snapshot,
        &mut runtime.books,
        operation,
        2,
        ticket,
        &hosts,
        &vec![WakeOutcome::Sent],
        later,
        NOW_MS,
    );
    assert!(matches!(
        ask(&mut runtime, key, &second, later + SECOND),
        RequestStep::Reply(_, _)
    ));
    assert_eq!(runtime.wake_attempt(&operation), Some(2));
    assert!(matches!(
        runtime.announce(&key, &[6; 16], 1, "lab-pc", later + SECOND, later, NOW_MS),
        OnlineStep::Skip
    ));
    assert!(matches!(
        runtime.announce(&key, &[6; 16], 2, "lab-pc", later + SECOND, later, NOW_MS),
        OnlineStep::Send(_)
    ));
}

#[test]
fn strangers_hosts_and_old_catalogues_are_refused() {
    let (config, client) = test_config();
    let key = client.identity.public;
    let mut runtime = runtime_of(&config);
    let code = |step: RequestStep| match step {
        RequestStep::Reply(reply, None) => match reply.event {
            ServerEvent::Error { code, .. } => Some(code),
            _ => None,
        },
        _ => None,
    };
    let stale = envelope(
        [1; 16],
        ClientOperation::Wake {
            catalog_version: runtime.snapshot.catalog_version.wrapping_add(1),
            host_ids: vec!["lab-pc".into()],
            attempt: 1,
            boot_nonce: [2; 16],
            retry_ticket: None,
        },
    );
    assert_eq!(code(ask(&mut runtime, key, &stale, NOW)), Some(ErrorCode::StaleCatalog));
    let foreign = envelope(
        [2; 16],
        ClientOperation::Wake {
            catalog_version: runtime.snapshot.catalog_version,
            host_ids: vec!["secret-pc".into()],
            attempt: 1,
            boot_nonce: [2; 16],
            retry_ticket: None,
        },
    );
    assert_eq!(code(ask(&mut runtime, key, &foreign, NOW)), Some(ErrorCode::Unauthorized));
    let mut other = envelope([3; 16], ClientOperation::ListHosts);
    other.headers.push(remote_open_power::protocol::Header {
        name: "x".into(),
        value: "y".into(),
    });
    assert!(matches!(ask(&mut runtime, key, &other, NOW), RequestStep::Refuse));
}

#[test]
fn a_failed_wake_says_why() {
    let (config, client) = test_config();
    let key = client.identity.public;
    let mut runtime = runtime_of(&config);
    let request = envelope([6; 16], wake(&runtime, 1, None));
    let RequestStep::Dispatch(operation, attempt, ticket, hosts) =
        ask(&mut runtime, key, &request, NOW)
    else {
        panic!("dispatch")
    };
    assert_eq!(ticket, [77; 32]);
    let step = finish_wake(
        &runtime.snapshot,
        &mut runtime.books,
        operation,
        attempt,
        ticket,
        &hosts,
        &vec![WakeOutcome::Unavailable],
        NOW,
        NOW_MS,
    );
    assert!(matches!(step, RequestStep::Reply(reply, None)
        if matches!(&reply.event, ServerEvent::CommandExecuted { results, .. }
            if !results[0].accepted
                && results[0].error_code == Some(WakeErrorCode::SenderUnavailable))));
}

#[test]
fn unreadable_settings_take_all_access() {
    let (config, client) = test_config();
    let mut runtime = runtime_of(&config);
    assert!(matches!(runtime.refresh_access_policy(None), PolicyChange::Revoked));
    assert!(!runtime.policy.client_is_authorized(&client.identity.public));
    assert!(matches!(runtime.refresh_access_policy(None), PolicyChange::StillRevoked));
    assert!(matches!(
        runtime.refresh_access_policy(Some(config)),
        PolicyChange::Reloaded(1)
    ));
    assert!(runtime.policy.client_is_authorized(&client.identity.public));
}

#[test]
fn an_unchanged_file_changes_nothing() {
    let (config, client) = test_config();
    let mut runtime = runtime_of(&config);
    let (session, _) = runtime
        .open_session(client.identity.public, [1; 32], NOW)
        .ok()
        .expect("session");
    assert!(matches!(
        runtime.refresh_access_policy(Some(config)),
        PolicyChange::Unchanged
    ));
    assert!(matches!(runtime.check_session(&session, NOW), SessionCheck::Live));
    assert!(matches!(
        runtime.check_session(&session, NOW + MAX_SESSION_LIFETIME),
        SessionCheck::Expired
    ));
}

#[test]
fn a_server_needs_hosts_keys_and_clients() {
    let (config, _) = test_config();
    assert!(start_server(config.clone(), no_overrides()).is_ok());
    let mut keyless = config.clone();
    keyless.security.server_static_private_key = String::new();
    assert!(start_server(keyless, no_overrides()).is_err());
    let mut wrong = config;
    wrong.server.port = 1;
    assert!(matches!(
        start_server(wrong, no_overrides()),
        Err(ServerError::Config(_))
    ));
}

#[test]
fn a_started_server_is_idle_and_bounded() {
    let (config, _) = test_config();
    let ids: Vec<String> = config.hosts.iter().map(|host| host.hostname.clone()).collect();
    let (mut runtime, out) = start_server(config, no_overrides()).ok().expect("server");
    assert_eq!(out.hosts.len(), ids.len());
    assert!(runtime.policy.source_healthy);
    assert_eq!(runtime.policy.generation, 0);
    assert_ne!(runtime.snapshot.catalog_version, 0);
    assert_eq!(runtime.metrics.connections.limit, MAX_CONNECTIONS);
    assert_eq!(runtime.handshakes.limit, MAX_CONCURRENT_HANDSHAKES);
    assert_eq!(runtime.probe_slots.limit, MAX_CONCURRENT_PROBES);
    assert_eq!(runtime.metrics.active_connections(), 0);
    assert!(!runtime.restart_required);
    for place in 0..MAX_CONNECTIONS_PER_CLIENT + 1 {
        assert_eq!(
            runtime.client_connections.acquire([7; 32]).is_some(),
            place < MAX_CONNECTIONS_PER_CLIENT
        );
    }
}

#[test]
fn a_client_has_four_places() {
    let (config, client) = test_config();
    let mut runtime = runtime_of(&config);
    for nonce in 0..4u8 {
        assert!(runtime
            .open_session(client.identity.public, [nonce; 32], NOW)
            .is_ok());
    }
    assert!(matches!(
        runtime.open_session(client.identity.public, [9; 32], NOW),
        Err(SessionRefusal::ClientLimit)
    ));
    assert!(matches!(
        runtime.open_session([9; 32], [9; 32], NOW),
        Err(SessionRefusal::Revoked)
    ));
}

#[test]
fn a_message_is_judged_before_it_is_obeyed() {
    let (config, client) = test_config();
    let key = client.identity.public;
    let peer = parse_ip("192.168.1.50").unwrap();
    let mut runtime = runtime_of(&config);
    assert!(runtime.replay_cache.reserve(key, [1; 32], NOW));
    let (mut session, _) = runtime.open_session(key, [1; 32], NOW).ok().expect("session");
    let good = Some(envelope([4; 16], ClientOperation::ListHosts));
    assert!(matches!(
        runtime.judge_message(&mut session, peer, 40, &good, NOW, NOW_MS),
        MessageVerdict::Proceed(hosts) if hosts == allowed()
    ));
    assert!(session.key_confirmed);
    assert!(matches!(
        runtime.judge_message(&mut session, peer, 40, &None, NOW, NOW_MS),
        MessageVerdict::RefuseUnread
    ));
    let payload = encode_client(&envelope([4; 16], ClientOperation::ListHosts)).unwrap();
    let (verdict, read) = runtime.judge_payload(&mut session, peer, &payload, NOW, NOW_MS);
    assert!(matches!(verdict, MessageVerdict::Proceed(hosts) if hosts == allowed()));
    assert!(read.is_some_and(|read| read.request_id == [4; 16]));
    let (verdict, read) = runtime.judge_payload(&mut session, peer, &payload[..20], NOW, NOW_MS);
    assert!(matches!(verdict, MessageVerdict::RefuseUnread) && read.is_none());
    let (verdict, _) = runtime.judge_payload(&mut session, peer, &[], NOW, NOW_MS);
    assert!(matches!(verdict, MessageVerdict::Close));
    let old = Some(ClientEnvelope {
        issued_at_ms: NOW_MS - 120_000,
        ..envelope([4; 16], ClientOperation::ListHosts)
    });
    assert!(!matches!(
        runtime.judge_message(&mut session, peer, 40, &old, NOW, NOW_MS),
        MessageVerdict::Proceed(_)
    ));
    assert!(request_time_valid(NOW_MS, NOW_MS + 30_000, 30 * SECOND));
    assert!(!request_time_valid(NOW_MS, NOW_MS + 61_000, 30 * SECOND));
}

#[test]
fn a_watch_ends_with_its_time_or_its_hosts() {
    let (config, client) = test_config();
    let key = client.identity.public;
    let mut runtime = runtime_of(&config);
    let request = envelope([6; 16], wake(&runtime, 1, None));
    let RequestStep::Dispatch(operation, attempt, ticket, hosts) =
        ask(&mut runtime, key, &request, NOW)
    else {
        panic!("dispatch")
    };
    let RequestStep::Reply(_, Some(mut monitor)) = finish_wake(
        &runtime.snapshot,
        &mut runtime.books,
        operation,
        attempt,
        ticket,
        &hosts,
        &vec![WakeOutcome::Sent],
        NOW,
        NOW_MS,
    ) else {
        panic!("watched")
    };
    assert_eq!(monitor.deadline, NOW + MONITOR_TIMEOUT);
    assert!(monitor_sleep(&vec![], NOW) > 0);
    let due = monitor.tick(Some(1), NOW + MONITOR_INTERVAL);
    assert_eq!(due.len(), 1);
    let (mut session, _) = runtime.open_session(key, [3; 32], NOW).ok().expect("session");
    let watched = Monitor {
        operation_id: [6; 16],
        attempt: 1,
        targets: Vec::new(),
        online: Vec::new(),
        next_probe: NOW,
        deadline: NOW + MONITOR_TIMEOUT,
    };
    session.answered(&request, Some(watched), Some(1));
    assert_eq!(session.monitors.len(), 1);
    let second = envelope([6; 16], wake(&runtime, 2, Some(ticket)));
    session.answered(&second, None, Some(1));
    assert_eq!(session.monitors.len(), 1);
    session.answered(&second, None, Some(2));
    assert!(session.monitors.is_empty());
    assert!(monitor.seen("lab-pc", NOW + MONITOR_INTERVAL));
    assert!(monitor.tick(Some(1), NOW + 3 * MONITOR_INTERVAL).is_empty());
}

#[test]
fn wake_packets_repeat_the_address() {
    let packet = magic_packet("02:11:22:33:44:55").expect("packet");
    assert_eq!(packet.len(), 102);
    assert_eq!(&packet[..6], &[0xff; 6]);
    assert_eq!(&packet[96..], &[0x02, 0x11, 0x22, 0x33, 0x44, 0x55]);
    assert!(magic_packet("bad").is_none());
}

#[test]
fn a_probe_tries_ports_and_then_a_ping() {
    let plan = probe_plan(&host("lab-pc", "192.168.1.10")).expect("plan");
    assert_eq!(plan.ip, IpAddress::V4([192, 168, 1, 10]));
    assert!(!plan.ports.is_empty());
    let mut named = host("lab-pc", "192.168.1.10");
    named.probe_port = 3389;
    assert_eq!(probe_plan(&named).expect("plan").ports, vec![3389]);
    assert!(may_ping(NOW, NOW).is_none());
    assert!(may_ping(NOW + SECOND, NOW).is_some());
    assert_eq!(ping_seconds(SECOND), 1);
    assert_eq!(ping_seconds(3 * SECOND + 1), 3);
    assert_eq!(ping_seconds(1), 1);
    assert_eq!(scoped_ip_argument(&plan.ip, 17), "192.168.1.10");
}

#[test]
fn catalogues_and_requests_are_told_apart_by_their_digests() {
    let (config, _) = test_config();
    let runtime = runtime_of(&config);
    let one = catalog_version(&runtime.snapshot.summaries);
    let none = catalog_version(&Vec::new());
    assert_ne!(one, none);
    let hosts = vec!["lab-pc".to_owned()];
    let a = request_digest_context(&Vec::new(), "wake", 1, &hosts, Some(&[1; 16]));
    let b = request_digest_context(&Vec::new(), "wake", 1, &hosts, Some(&[2; 16]));
    let c = request_digest_context(&Vec::new(), "status", 1, &hosts, Some(&[1; 16]));
    assert_ne!(a, b);
    assert_ne!(a, c);
    assert_eq!(a, request_digest_context(&Vec::new(), "wake", 1, &hosts, Some(&[1; 16])));
}

#[test]
fn tickets_are_drawn_and_keys_shortened() {
    let first = draw_ticket();
    let second = draw_ticket();
    assert_ne!(first, second);
    assert_ne!(first, [0; 32]);
    assert_eq!(short_key(&[0; 32]), "66687aadf862bd77");
    assert_eq!(short_request(&[0xcd; 16]), "cdcdcdcdcdcd");
    assert_eq!(operation_name(&ClientOperation::ListHosts), "list-hosts");
}

#[test]
fn peers_are_limited_by_address() {
    let (config, _) = test_config();
    let mut runtime = runtime_of(&config);
    let peer = parse_ip("192.168.1.50").unwrap();
    let first = runtime.admit_peer(peer, NOW);
    let second = runtime.admit_peer(peer, NOW);
    assert!(matches!(first, PeerVerdict::Admitted(_)));
    assert!(matches!(second, PeerVerdict::Admitted(_)));
    assert!(matches!(runtime.admit_peer(peer, NOW), PeerVerdict::PendingLimit));
    let other = parse_ip("192.168.1.51").unwrap();
    assert!(matches!(runtime.admit_peer(other, NOW), PeerVerdict::Admitted(_)));
}

#[test]
fn a_handshake_without_enrolment_is_refused() {
    let (mut config, client) = test_config();
    config.security.allowed_clients.clear();
    let mut runtime = runtime_of(&config);
    let (_, hello) = client_begin(&client, NOW_MS).ok().expect("first message");
    let message = handshake_body(&hello[4..], 1).expect("body");
    assert!(matches!(
        server_accept(&runtime.handshake, &mut runtime.replay_cache, &message, NOW_MS, NOW),
        Err(SecurityError::Unauthorized)
    ));
}

#[test]
fn the_ports_of_a_probe_take_half_of_its_time() {
    let plan = probe_plan(&host("lab-pc", "192.168.1.10")).expect("plan");
    assert_eq!(plan.budget, SECOND);
    assert!(plan.per_port * plan.ports.len() as u64 <= plan.budget / 2);
}

#[test]
fn settings_that_say_the_same_are_judged_alike() {
    let (config, _) = test_config();
    let copy = config.clone();
    assert!(config.validate().is_ok() && copy.validate().is_ok());
    let mut changed = copy;
    changed.hosts[0].mac = "bad".to_owned();
    assert!(changed.validate().is_err());
}

#[test]
fn a_file_that_asks_for_a_restart_takes_access_at_once() {
    let (mut config, client) = test_config();
    let key = client.identity.public;
    let mut runtime = runtime_of(&config);
    assert!(runtime.policy.client_is_authorized(&key));
    let before = runtime.snapshot.bind_addrs.clone();
    config.security.allowed_clients.clear();
    config.server.port = 45_999;
    assert!(matches!(
        runtime.refresh_access_policy(Some(config)),
        PolicyChange::RestartRequired
    ));
    assert!(runtime.restart_required);
    assert!(!runtime.policy.client_is_authorized(&key));
    assert!(runtime.snapshot.bind_addrs == before);
    assert!(!connects(&mut runtime, &client));
}

#[test]
fn one_network_shares_a_quota() {
    let (config, _) = test_config();
    let mut runtime = runtime_of(&config);
    let admitted = |runtime: &mut ServerRuntime, text: &str| {
        runtime.admit_peer(parse_ip(text).unwrap(), NOW)
    };
    assert!(matches!(admitted(&mut runtime, "2001:db8:1:2::1"), PeerVerdict::Admitted(_)));
    assert!(matches!(admitted(&mut runtime, "2001:db8:1:2:ffff::9"), PeerVerdict::Admitted(_)));
    assert!(matches!(admitted(&mut runtime, "2001:db8:1:2::3"), PeerVerdict::PendingLimit));
    assert!(matches!(admitted(&mut runtime, "2001:db8:1:3::1"), PeerVerdict::Admitted(_)));
    assert!(matches!(admitted(&mut runtime, "192.0.2.7"), PeerVerdict::Admitted(_)));
    assert!(matches!(admitted(&mut runtime, "::ffff:192.0.2.7"), PeerVerdict::Admitted(_)));
    assert!(matches!(admitted(&mut runtime, "192.0.2.7"), PeerVerdict::PendingLimit));
}
