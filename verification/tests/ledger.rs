use remote_open_power::clock::{MILLISECOND, SECOND};
use remote_open_power::ledger::{
    BeginResult, Ledger, OperationKey, WakeBeginResult, WakeRetry, LEDGER_TTL,
    MAX_LEDGER_ENTRIES_PER_CLIENT, PENDING_LEDGER_TTL, RETRY_TTL,
};
use remote_open_power::limits::{reserve_wake_targets_for_client, WakeCooldowns, WAKE_COOLDOWN};
use remote_open_power::protocol::{
    ErrorCode, ServerEnvelope, ServerEvent, WakeResult, PROTOCOL_VERSION,
};

const NOW: u64 = 5_000 * SECOND;

fn operation_key(client: u8, operation: u16) -> OperationKey {
    let mut operation_id = [0u8; 16];
    operation_id[..2].copy_from_slice(&operation.to_be_bytes());
    OperationKey {
        client_key: [client; 32],
        operation_id,
    }
}

fn cached_error(request_id: [u8; 16]) -> ServerEnvelope {
    ServerEnvelope {
        version: PROTOCOL_VERSION,
        request_id,
        issued_at_ms: 1,
        headers: Vec::new(),
        event: ServerEvent::Error {
            code: ErrorCode::Busy,
            retryable: true,
        },
    }
}

#[test]
fn pending_ledger_entries_expire() {
    let now = NOW;
    let key = operation_key(1, 1);
    let mut ledger = Ledger::new();
    assert!(matches!(
        ledger.begin_request(key, [7; 32], now),
        BeginResult::New
    ));
    assert!(matches!(
        ledger.begin_request(key, [7; 32], now + PENDING_LEDGER_TTL + SECOND),
        BeginResult::New
    ));
}

#[test]
fn ledger_quota_is_per_authenticated_client() {
    let now = NOW;
    let mut ledger = Ledger::new();
    for operation in 1..=MAX_LEDGER_ENTRIES_PER_CLIENT as u16 {
        assert!(matches!(
            ledger.begin_request(operation_key(1, operation), [operation as u8; 32], now),
            BeginResult::New
        ));
    }
    assert!(matches!(
        ledger.begin_request(operation_key(1, 300), [3; 32], now),
        BeginResult::Busy
    ));
    assert!(matches!(
        ledger.begin_request(operation_key(2, 1), [4; 32], now),
        BeginResult::New
    ));
}

#[test]
fn wake_retry_advances_only_on_explicit_attempt_two() {
    let now = NOW;
    let key = operation_key(1, 7);
    let digest = [8; 32];
    let host_ids = vec!["workstation".to_owned()];
    let boot_nonce = [9; 16];
    let mut ledger = Ledger::new();
    let ticket = match ledger.begin_wake_attempt1(
        key,
        digest,
        1,
        host_ids.clone(),
        boot_nonce,
        [21; 32],
        now,
    ) {
        WakeBeginResult::New(ticket) => ticket,
        _ => panic!("attempt one was not reserved"),
    };
    let first_receipt = cached_error(key.operation_id);
    ledger.complete(key, first_receipt.clone(), now);
    assert_eq!(
        ledger
            .entries
            .get(&key)
            .and_then(|entry| entry.wake.as_ref())
            .map(|wake| wake.attempt),
        Some(1)
    );
    assert!(matches!(
        ledger.begin_wake_attempt1(
            key,
            digest,
            1,
            host_ids.clone(),
            boot_nonce,
            [22; 32],
            now + 500 * MILLISECOND,
        ),
        WakeBeginResult::Cached(response) if response == first_receipt
    ));
    assert!(matches!(
        ledger.begin_wake_attempt2(
            key,
            WakeRetry {
                digest,
                catalog_version: 1,
                host_ids: &host_ids,
                boot_nonce,
                ticket,
                now: now + SECOND,
            },
        ),
        WakeBeginResult::New(_)
    ));
    ledger.complete(key, cached_error(key.operation_id), now + SECOND);
    assert!(matches!(
        ledger.begin_wake_attempt1(
            key,
            digest,
            1,
            host_ids,
            boot_nonce,
            [23; 32],
            now + 2 * SECOND,
        ),
        WakeBeginResult::Replay
    ));
}

#[test]
fn retry_ticket_window_starts_when_execution_receipt_is_completed() {
    let now = NOW;
    let completed_at = now + 30 * SECOND;
    let key = operation_key(1, 8);
    let digest = [10; 32];
    let host_ids = vec!["workstation".to_owned()];
    let boot_nonce = [11; 16];
    let mut ledger = Ledger::new();
    let ticket = match ledger.begin_wake_attempt1(
        key,
        digest,
        1,
        host_ids.clone(),
        boot_nonce,
        [21; 32],
        now,
    ) {
        WakeBeginResult::New(ticket) => ticket,
        _ => panic!("attempt one was not reserved"),
    };

    ledger.complete(key, cached_error(key.operation_id), completed_at);

    assert!(matches!(
        ledger.begin_wake_attempt2(
            key,
            WakeRetry {
                digest,
                catalog_version: 1,
                host_ids: &host_ids,
                boot_nonce,
                ticket,
                now: completed_at + RETRY_TTL - MILLISECOND,
            },
        ),
        WakeBeginResult::New(_)
    ));
}

#[test]
fn recovered_receipt_renews_retry_lease_but_never_redispatches_or_extends_tombstone() {
    let mut ledger = Ledger::new();
    let now = NOW;
    let key = operation_key(5, 5);
    let targets: Vec<String> = vec!["lab-pc".into()];
    let WakeBeginResult::New(ticket) =
        ledger.begin_wake_attempt1(key, [1; 32], 1, targets.clone(), [2; 16], [33; 32], now)
    else {
        panic!("new operation");
    };
    let receipt = ServerEnvelope {
        version: PROTOCOL_VERSION,
        request_id: key.operation_id,
        issued_at_ms: 1_000,
        headers: vec![],
        event: ServerEvent::CommandExecuted {
            operation_id: key.operation_id,
            attempt: 1,
            retry_ticket: ticket,
            deadline_ms: 1_000 + 60_000,
            results: vec![WakeResult {
                host_id: "lab-pc".into(),
                accepted: true,
                error_code: None,
            }],
        },
    };
    ledger.complete(key, receipt, now);
    for seconds in [40, 100, 200] {
        assert!(matches!(
            ledger.begin_wake_attempt1(
                key,
                [1; 32],
                1,
                targets.clone(),
                [2; 16],
                [34; 32],
                now + seconds * SECOND
            ),
            WakeBeginResult::Cached(_)
        ));
        assert_eq!(ledger.entries.get(&key).unwrap().expires, now + LEDGER_TTL);
    }
    assert!(matches!(
        ledger.begin_wake_attempt2(
            key,
            WakeRetry {
                digest: [1; 32],
                catalog_version: 1,
                host_ids: &targets,
                boot_nonce: [2; 16],
                ticket,
                now: now + 260 * SECOND
            }
        ),
        WakeBeginResult::New(_)
    ));
    let wake = ledger.entries.get(&key).unwrap().wake.as_ref().unwrap();
    assert_eq!(wake.attempt, 2);
    assert!(wake.ticket_used);
}

#[test]
fn wake_cooldown_is_isolated_by_authenticated_client() {
    let now = NOW;
    let targets = vec!["workstation".to_owned()];
    let mut last_wake = WakeCooldowns::new();

    assert!(reserve_wake_targets_for_client(
        &mut last_wake,
        [1; 32],
        &targets,
        now,
    ));
    assert!(reserve_wake_targets_for_client(
        &mut last_wake,
        [2; 32],
        &targets,
        now + SECOND,
    ));
    assert!(!reserve_wake_targets_for_client(
        &mut last_wake,
        [1; 32],
        &targets,
        now + SECOND,
    ));
    assert!(reserve_wake_targets_for_client(
        &mut last_wake,
        [1; 32],
        &targets,
        now + WAKE_COOLDOWN,
    ));
}

#[test]
fn a_retry_needs_its_own_ticket_and_the_same_targets() {
    let key = operation_key(1, 9);
    let hosts = vec!["workstation".to_owned()];
    let others = vec!["laptop".to_owned()];
    let mut ledger = Ledger::new();
    let WakeBeginResult::New(ticket) =
        ledger.begin_wake_attempt1(key, [1; 32], 1, hosts.clone(), [2; 16], [33; 32], NOW)
    else {
        panic!("new operation");
    };
    assert_eq!(ticket, [33; 32]);
    assert_eq!(ledger.wake_attempt(&key), Some(1));
    ledger.complete(key, cached_error(key.operation_id), NOW);
    let retry = |hosts, ticket, now| WakeRetry {
        digest: [1; 32],
        catalog_version: 1,
        host_ids: hosts,
        boot_nonce: [2; 16],
        ticket,
        now,
    };
    assert!(!matches!(
        ledger.begin_wake_attempt2(key, retry(&others, ticket, NOW + SECOND)),
        WakeBeginResult::New(_)
    ));
    assert!(!matches!(
        ledger.begin_wake_attempt2(key, retry(&hosts, [1; 32], NOW + SECOND)),
        WakeBeginResult::New(_)
    ));
    assert!(!matches!(
        ledger.begin_wake_attempt2(key, retry(&hosts, ticket, NOW + RETRY_TTL + SECOND)),
        WakeBeginResult::New(_)
    ));
    assert_eq!(ledger.wake_attempt(&key), Some(1));
}

#[test]
fn another_request_under_the_same_number_is_a_conflict() {
    let key = operation_key(1, 10);
    let mut ledger = Ledger::new();
    assert!(matches!(ledger.begin_request(key, [1; 32], NOW), BeginResult::New));
    assert!(matches!(ledger.begin_request(key, [1; 32], NOW), BeginResult::Busy));
    assert!(matches!(ledger.begin_request(key, [2; 32], NOW), BeginResult::Conflict));
    ledger.complete(key, cached_error(key.operation_id), NOW);
    assert!(matches!(
        ledger.begin_request(key, [1; 32], NOW + SECOND),
        BeginResult::Cached(response) if response == cached_error(key.operation_id)
    ));
    let other = operation_key(1, 11);
    assert!(matches!(ledger.begin_request(other, [1; 32], NOW), BeginResult::New));
    ledger.prune(NOW + LEDGER_TTL);
    assert_eq!(ledger.entries.len(), 0);
}

#[test]
fn a_ticket_belongs_to_one_operation() {
    let hosts = vec!["workstation".to_owned()];
    let first = operation_key(1, 20);
    let second = operation_key(2, 21);
    let mut ledger = Ledger::new();
    assert!(matches!(
        ledger.begin_wake_attempt1(first, [1; 32], 1, hosts.clone(), [2; 16], [40; 32], NOW),
        WakeBeginResult::New(ticket) if ticket == [40; 32]
    ));
    assert!(matches!(
        ledger.begin_wake_attempt1(second, [3; 32], 1, hosts.clone(), [2; 16], [40; 32], NOW),
        WakeBeginResult::Busy
    ));
    assert_eq!(ledger.wake_attempt(&second), None);
    assert!(matches!(
        ledger.begin_wake_attempt1(second, [3; 32], 1, hosts.clone(), [2; 16], [41; 32], NOW),
        WakeBeginResult::New(ticket) if ticket == [41; 32]
    ));
    ledger.complete(first, cached_error(first.operation_id), NOW);
    ledger.complete(second, cached_error(second.operation_id), NOW);
    let retry = |digest, ticket| WakeRetry {
        digest,
        catalog_version: 1,
        host_ids: &hosts,
        boot_nonce: [2; 16],
        ticket,
        now: NOW + SECOND,
    };
    assert!(!matches!(
        ledger.begin_wake_attempt2(second, retry([3; 32], [40; 32])),
        WakeBeginResult::New(_)
    ));
    assert!(matches!(
        ledger.begin_wake_attempt2(first, retry([1; 32], [40; 32])),
        WakeBeginResult::New(_)
    ));
    assert!(!matches!(
        ledger.begin_wake_attempt2(first, retry([1; 32], [40; 32])),
        WakeBeginResult::New(_)
    ));
}
