use remote_open_power::clock::{MILLISECOND, SECOND};
use remote_open_power::client::{
    actor_next, choose_endpoints, command_while_waiting, connect_budget, endpoint_literal, idle_exit,
    observation_time_valid, random_id, reconnect_delay, rejected_exit, transport_exit,
    ActorOutcome, ActorStep,
    ClientCommand, ClientConnectionErrorCode, ClientEvent, ClientState, CommandStep, ListStep,
    Reaction, WaitStep, CLIENT_IDLE_TIMEOUT, CONNECT_TIMEOUT, PENDING_OPERATION_TTL,
};
use remote_open_power::net::parse_ip;
use remote_open_power::protocol::{
    ClientOperation, ErrorCode, HostState, HostStatus, HostSummary, ServerEnvelope, ServerEvent,
    WakeResult, PROTOCOL_VERSION,
};
use remote_open_power::security::SecurityError;
use remote_open_power::snapshot::BindAddress;
use remote_open_power::transfer::{Attempt, Next, Transfer};
use remote_open_power::wake::{Outcome, Progress, RECOVERY_TIMEOUT};

const NOW: u64 = 5_000 * SECOND;
const NOW_MS: u64 = 1_700_000_000_000;

fn reply(request_id: [u8; 16], event: ServerEvent) -> ServerEnvelope {
    ServerEnvelope {
        version: PROTOCOL_VERSION,
        request_id,
        issued_at_ms: NOW_MS,
        headers: Vec::new(),
        event,
    }
}

fn state() -> ClientState {
    ClientState::new(Vec::new(), 30 * SECOND, NOW)
}

fn wake_command() -> ClientCommand {
    ClientCommand::Wake {
        host_ids: vec!["lab-pc".into()],
        catalog_version: 3,
        operation_id: [4; 16],
        boot_nonce: [5; 16],
        attempt: 1,
        retry_ticket: None,
    }
}

fn receipt(accepted: bool) -> ServerEvent {
    ServerEvent::CommandExecuted {
        operation_id: [4; 16],
        attempt: 1,
        retry_ticket: [6; 32],
        deadline_ms: NOW_MS + 60_000,
        results: vec![WakeResult {
            host_id: "lab-pc".into(),
            accepted,
            error_code: if accepted {
                None
            } else {
                Some(remote_open_power::protocol::WakeErrorCode::RateLimited)
            },
        }],
    }
}

fn sighting() -> ServerEvent {
    ServerEvent::TargetOnline {
        operation_id: [4; 16],
        attempt: 1,
        host_id: "lab-pc".into(),
        observed_at_ms: NOW_MS + 1_000,
    }
}

#[test]
fn online_observation_respects_configured_clock_skew() {
    let now = 1_000_000;
    for seconds in [1, 5, 30, 60] {
        let skew = seconds * SECOND;
        let ms = seconds * 1000;
        assert!(observation_time_valid(
            now + ms,
            Some(now + ms + 60_000),
            now,
            skew
        ));
        assert!(!observation_time_valid(
            now + ms + 1,
            Some(now + ms + 60_000),
            now,
            skew
        ));
        assert!(observation_time_valid(now - ms, Some(now - ms), now, skew));
        assert!(!observation_time_valid(
            now - ms - 1,
            Some(now - ms - 1),
            now,
            skew
        ));
        assert!(!observation_time_valid(now + 1, Some(now), now, skew));
    }
}

#[test]
fn reconnect_backoff_is_bounded() {
    assert_eq!(reconnect_delay(1), 2 * SECOND);
    assert_eq!(reconnect_delay(2), 5 * SECOND);
    assert_eq!(reconnect_delay(5), 30 * SECOND);
    assert_eq!(reconnect_delay(u32::MAX), 30 * SECOND);
}

#[test]
fn unreachable_server_reports_failure_then_retries() {
    let ActorStep::Retry {
        event,
        delay,
        attempt,
    } = actor_next(1, ActorOutcome::ConnectFailed("refused".to_owned()))
    else {
        panic!("unreachable endpoint connected");
    };
    assert!(matches!(
        event,
        ClientEvent::ConnectionFailed { attempt: 1, code: ClientConnectionErrorCode::Connect, message, retry_after }
            if message == "无法连接服务端: refused" && retry_after == delay
    ));
    assert_eq!(delay, reconnect_delay(1));
    assert_eq!(attempt, 2);
    assert!(matches!(
        actor_next(2, ActorOutcome::Shutdown),
        ActorStep::Stop
    ));
}

#[test]
fn endpoint_fallback_reaches_second_address_and_honors_shutdown() {
    // The first address takes no more than its share of the time.
    let share = connect_budget(NOW + CONNECT_TIMEOUT, NOW, 2).expect("first address");
    assert_eq!(share, CONNECT_TIMEOUT / 2);
    let rest = connect_budget(NOW + CONNECT_TIMEOUT, NOW + share, 1).expect("second address");
    assert_eq!(rest, CONNECT_TIMEOUT - share);
    assert!(connect_budget(NOW, NOW, 1).is_none());
    assert!(matches!(
        command_while_waiting(&ClientCommand::Shutdown),
        WaitStep::Stop
    ));
}

#[test]
fn commands_while_waiting_are_answered() {
    assert!(matches!(command_while_waiting(&ClientCommand::Refresh), WaitStep::Ignore));
    assert!(matches!(
        command_while_waiting(&wake_command()),
        WaitStep::Report(ClientEvent::Error(text)) if text == "安全连接尚未建立，未发送唤醒请求"
    ));
}

#[test]
fn the_catalogue_is_asked_for_and_then_the_states() {
    let mut state = state();
    let ListStep::Send(ask) = state.ask_list([1; 16], NOW, NOW_MS) else {
        panic!("the catalogue is asked for")
    };
    assert!(matches!(ask.operation, ClientOperation::ListHosts));
    assert!(matches!(state.ask_list([2; 16], NOW, NOW_MS), ListStep::Quiet));
    let hosts = reply(
        [1; 16],
        ServerEvent::Hosts {
            catalog_version: 3,
            hosts: vec![HostSummary {
                host_id: "lab-pc".into(),
            }],
        },
    );
    let Reaction::Go(events, Some(next)) = state.handle_server_event(hosts, [2; 16], NOW_MS) else {
        panic!("the states are asked for")
    };
    assert!(matches!(&events[0], ClientEvent::Hosts { catalog_version: 3, hosts } if hosts.len() == 1));
    assert!(matches!(
        &next.operation,
        ClientOperation::GetStatuses { catalog_version: 3, host_ids } if host_ids.len() == 1
    ));
    let statuses = reply(
        [2; 16],
        ServerEvent::Statuses {
            catalog_version: 3,
            statuses: vec![HostStatus {
                host_id: "lab-pc".into(),
                state: HostState::Online,
                observed_at_ms: NOW_MS,
            }],
        },
    );
    assert!(matches!(
        state.handle_server_event(statuses, [3; 16], NOW_MS),
        Reaction::Go(events, None) if matches!(&events[0], ClientEvent::Statuses { .. })
    ));
}

#[test]
fn what_was_not_asked_for_is_not_believed() {
    let mut state = state();
    let hosts = reply(
        [9; 16],
        ServerEvent::Hosts {
            catalog_version: 3,
            hosts: Vec::new(),
        },
    );
    assert!(matches!(
        state.handle_server_event(hosts, [2; 16], NOW_MS),
        Reaction::Reject(
            ClientEvent::Error(text),
            ActorOutcome::Lost(ClientConnectionErrorCode::Protocol, message),
        ) if text == "invalid or unsolicited server response"
            && message == "服务端响应未通过协议状态校验"
    ));
    assert!(matches!(
        state.handle_server_event(reply([4; 16], sighting()), [2; 16], NOW_MS),
        Reaction::Reject(_, _)
    ));
}

#[test]
fn a_rejected_answer_closes_its_question() {
    let mut state = state();
    assert!(matches!(state.ask_list([1; 16], NOW, NOW_MS), ListStep::Send(_)));
    assert_eq!(state.requests.len(), 1);
    let statuses = reply(
        [1; 16],
        ServerEvent::Statuses {
            catalog_version: 3,
            statuses: Vec::new(),
        },
    );
    assert!(matches!(
        state.handle_server_event(statuses, [2; 16], NOW_MS),
        Reaction::Reject(_, _)
    ));
    assert_eq!(state.requests.len(), 0);
}

#[test]
fn a_receipt_and_a_sighting_are_told_once() {
    let mut state = state();
    assert!(matches!(
        state.command(wake_command(), NOW, NOW_MS),
        CommandStep::Send(envelope) if envelope.request_id == [4; 16]
    ));
    assert!(matches!(
        state.handle_server_event(reply([4; 16], receipt(true)), [2; 16], NOW_MS),
        Reaction::Go(events, None) if matches!(&events[0], ClientEvent::CommandExecuted { .. })
    ));
    assert!(matches!(
        state.handle_server_event(reply([4; 16], sighting()), [2; 16], NOW_MS),
        Reaction::Go(events, None) if events.len() == 1
    ));
    assert!(!matches!(
        state.handle_server_event(reply([4; 16], sighting()), [2; 16], NOW_MS),
        Reaction::Go(events, None) if events.len() == 1
    ));
}

#[test]
fn errors_of_the_server_are_reported() {
    let mut state = state();
    state.command(wake_command(), NOW, NOW_MS);
    let refusal = reply(
        [4; 16],
        ServerEvent::Error {
            code: ErrorCode::Busy,
            retryable: true,
        },
    );
    assert!(matches!(
        state.handle_server_event(refusal, [2; 16], NOW_MS),
        Reaction::Go(events, None) if matches!(&events[0], ClientEvent::Error(_))
    ));
}

#[test]
fn open_operations_expire_and_idle_connections_end() {
    let mut state = state();
    state.command(wake_command(), NOW, NOW_MS);
    assert_eq!(state.pending.len(), 1);
    state.expire(NOW + PENDING_OPERATION_TTL);
    assert_eq!(state.pending.len(), 0);
    assert!(!state.is_idle(NOW + CLIENT_IDLE_TIMEOUT - 1));
    assert!(state.is_idle(NOW + CLIENT_IDLE_TIMEOUT));
    state.heard(NOW + SECOND);
    assert!(!state.is_idle(NOW + CLIENT_IDLE_TIMEOUT));
}

#[test]
fn endpoints_are_literals_or_names() {
    assert!(matches!(endpoint_literal("192.0.2.1", 45890), Ok(Some(ip)) if Some(ip) == parse_ip("192.0.2.1")));
    assert!(matches!(endpoint_literal("server.local", 45890), Ok(None)));
    assert!(endpoint_literal("", 45890).is_err());
    let address = BindAddress {
        ip: parse_ip("192.0.2.1").unwrap(),
        port: 45890,
    };
    assert_eq!(choose_endpoints(&vec![address, address]).ok().map(|v| v.len()), Some(1));
    assert!(choose_endpoints(&Vec::new()).is_err());
}

#[test]
fn an_idle_connection_ends_with_its_own_words() {
    assert!(matches!(
        idle_exit(),
        ActorOutcome::Lost(ClientConnectionErrorCode::Transport, text)
            if text == "安全连接空闲超时"
    ));
    assert!(matches!(
        rejected_exit(),
        ActorOutcome::Lost(ClientConnectionErrorCode::Protocol, _)
    ));
}

#[test]
fn lost_connections_have_a_code() {
    assert!(matches!(
        transport_exit(SecurityError::Transport, "gone"),
        ActorOutcome::Lost(ClientConnectionErrorCode::Transport, text) if text == "安全连接中断: gone"
    ));
    let codes = [
        (ClientConnectionErrorCode::Resolve, "NET-RESOLVE"),
        (ClientConnectionErrorCode::Connect, "NET-CONNECT"),
        (ClientConnectionErrorCode::Transport, "NET-TRANSPORT"),
    ];
    for (code, text) in codes {
        assert_eq!(code.as_str(), text);
    }
}

#[test]
fn identifiers_are_random() {
    assert_ne!(random_id(), random_id());
    assert_ne!(random_id(), [0; 16]);
}

#[test]
fn progress_counts_what_was_accepted_and_seen() {
    let result = |id: &str, accepted| WakeResult {
        host_id: id.to_owned(),
        accepted,
        error_code: None,
    };
    let targets = vec!["a".to_owned(), "b".to_owned()];
    let mut progress = Progress::new(NOW);
    assert_eq!(progress.outcome(&targets), Outcome::Waiting);
    progress.receive(&vec![result("a", true), result("b", false)], NOW);
    assert_eq!(progress.outcome(&targets), Outcome::Waiting);
    progress.observe("a");
    assert_eq!(progress.outcome(&targets), Outcome::Partial);
    let mut progress = Progress::new(NOW);
    progress.receive(&vec![result("a", true), result("b", true)], NOW);
    progress.observe("a");
    progress.observe("b");
    assert_eq!(progress.outcome(&targets), Outcome::Complete);
    assert!(progress.recoverable(NOW + RECOVERY_TIMEOUT - 1));
    assert!(!progress.recoverable(NOW + RECOVERY_TIMEOUT));
}

#[test]
fn bytes_are_moved_until_the_deadline() {
    let mut transfer = Transfer::new(5, NOW + SECOND);
    assert_eq!(transfer.next(NOW), Next::Move(0));
    assert_eq!(transfer.step(Attempt::Moved(3), NOW), Next::Move(3));
    assert_eq!(transfer.step(Attempt::Blocked, NOW + MILLISECOND), Next::Pause(3));
    assert_eq!(transfer.step(Attempt::Blocked, NOW + SECOND), Next::TimedOut);
    assert_eq!(transfer.step(Attempt::Moved(2), NOW + SECOND), Next::Done);
    let mut transfer = Transfer::new(5, NOW + SECOND);
    assert_eq!(transfer.step(Attempt::Moved(0), NOW), Next::Closed);
    assert_eq!(transfer.step(Attempt::Failed, NOW), Next::Failed);
    assert_eq!(Transfer::new(0, NOW).next(NOW), Next::Done);
}

#[test]
fn recovery_ends_before_the_server_forgets() {
    assert!(RECOVERY_TIMEOUT <= remote_open_power::ledger::LEDGER_TTL);
    let mut progress = Progress::new(NOW);
    let results = vec![WakeResult {
        host_id: "a".to_owned(),
        accepted: true,
        error_code: None,
    }];
    progress.receive(&results, NOW + SECOND);
    let deadline = progress.deadline;
    progress.receive(&results, NOW + 20 * SECOND);
    assert_eq!(progress.deadline, deadline);
    assert_eq!(progress.started_at, Some(NOW + SECOND));
}
