use remote_open_power::cli::{
    all_in_catalogue, wanted_targets, CatalogStep, CatalogWait, RowState, WakeNews, WakeSession,
    WakeTick, CATALOG_TIMEOUT,
};
use remote_open_power::client::{
    ClientCommand, ClientConnectionErrorCode, ClientEvent, RECEIPT_TIMEOUT, WAKE_WAIT_TIMEOUT,
};
use remote_open_power::clock::SECOND;
use remote_open_power::panel::{
    cell, format_operation_state, format_state, host_table_rows, paint, wake_panel_rows, Style,
};
use remote_open_power::protocol::{
    HostState, HostStatus, HostSummary, WakeErrorCode, WakeResult, MAX_WAKE_TARGETS,
};

const NOW: u64 = 5_000 * SECOND;

fn session() -> WakeSession {
    let targets = vec!["alpha".to_owned(), "beta".to_owned()];
    let (session, command) = WakeSession::start(&targets, 1, [1; 16], [2; 16], NOW);
    assert!(matches!(
        command,
        ClientCommand::Wake { attempt: 1, retry_ticket: None, .. }
    ));
    session
}

fn receipt(alpha: bool, beta: bool, attempt: u8) -> ClientEvent {
    let result = |id: &str, accepted: bool| WakeResult {
        host_id: id.to_owned(),
        accepted,
        error_code: if accepted {
            None
        } else {
            Some(WakeErrorCode::RateLimited)
        },
    };
    ClientEvent::CommandExecuted {
        operation_id: [1; 16],
        attempt,
        retry_ticket: [1; 32],
        deadline_ms: 60_000,
        results: vec![result("alpha", alpha), result("beta", beta)],
    }
}

fn online(id: &str, attempt: u8) -> ClientEvent {
    ClientEvent::TargetOnline {
        operation_id: [1; 16],
        attempt,
        host_id: id.to_owned(),
    }
}

#[test]
fn wake_process_exit_status_and_redirected_output_match_outcome() {
    for (scenario, success, message) in [
        ("rejected", false, "服务端拒绝了全部目标"),
        ("partial", false, "部分目标被拒绝"),
        ("disconnected", false, "服务端已断开"),
        ("timeout", false, "等待服务端执行回执超时"),
        ("complete", true, ""),
    ] {
        let mut session = session();
        let mut failure = None;
        let mut hear = |session: &mut WakeSession, event: ClientEvent| {
            if let WakeNews::Fail(text) = session.hear(&event, NOW) {
                failure = Some(text);
            }
        };
        match scenario {
            "disconnected" => hear(&mut session, ClientEvent::Disconnected),
            "timeout" => {}
            _ => {
                let alpha = scenario != "rejected";
                let beta = scenario == "complete";
                hear(&mut session, receipt(alpha, beta, 1));
                if alpha {
                    hear(&mut session, online("alpha", 1));
                }
                if beta {
                    hear(&mut session, online("beta", 1));
                }
            }
        }
        let outcome = match failure {
            Some(text) => Err(text),
            None => match session.tick(NOW + RECEIPT_TIMEOUT) {
                WakeTick::Done => Ok(()),
                WakeTick::Fail(text) => Err(text),
                _ => panic!("{scenario} is not decided"),
            },
        };
        assert_eq!(outcome.is_ok(), success, "{scenario}");
        if let Err(text) = outcome {
            assert!(text.contains(message), "{scenario}: {text}");
        }
        let shown = wake_panel_rows(&session.targets, &session.rows, false).join("\n");
        assert!(!shown.contains('\x1b'), "{scenario}: {shown}");
    }
}

#[test]
fn a_second_attempt_is_sent_after_a_minute_and_no_third() {
    let mut session = session();
    session.hear(&receipt(true, true, 1), NOW);
    assert!(matches!(session.tick(NOW + WAKE_WAIT_TIMEOUT - 1), WakeTick::Wait(_)));
    let WakeTick::Retry(ClientCommand::Wake {
        attempt: 2,
        retry_ticket: Some(ticket),
        ..
    }) = session.tick(NOW + WAKE_WAIT_TIMEOUT)
    else {
        panic!("second attempt")
    };
    assert_eq!(ticket, [1; 32]);
    assert!(session.rows.iter().all(|row| *row == RowState::Retrying));
    let later = NOW + WAKE_WAIT_TIMEOUT;
    session.hear(&receipt(true, true, 2), later);
    assert!(matches!(
        session.tick(later + WAKE_WAIT_TIMEOUT),
        WakeTick::Fail(_)
    ));
}

#[test]
fn what_is_asked_for_is_checked() {
    let names: Vec<String> = vec![" LAB-PC ".to_owned(), "lab-pc".to_owned()];
    assert_eq!(wanted_targets(&names).unwrap(), vec!["lab-pc"]);
    let many: Vec<String> = (0..MAX_WAKE_TARGETS + 1).map(|i| format!("h{i}")).collect();
    assert!(wanted_targets(&many).is_err());
    let hosts = vec![HostSummary {
        host_id: "lab-pc".to_owned(),
    }];
    assert!(all_in_catalogue(&vec!["lab-pc".to_owned()], &hosts));
    assert!(!all_in_catalogue(&vec!["other".to_owned()], &hosts));
}

#[test]
fn the_catalogue_is_awaited_with_its_states() {
    let mut wait = CatalogWait::new(NOW);
    assert!(matches!(wait.tick(NOW), CatalogStep::Wait));
    wait.hear(&ClientEvent::Hosts {
        catalog_version: 3,
        hosts: vec![HostSummary {
            host_id: "lab-pc".to_owned(),
        }],
    });
    assert!(matches!(wait.tick(NOW), CatalogStep::Wait));
    wait.hear(&ClientEvent::Statuses {
        catalog_version: 3,
        statuses: vec![HostStatus {
            host_id: "lab-pc".to_owned(),
            state: HostState::Online,
            observed_at_ms: 1,
        }],
    });
    assert!(matches!(wait.tick(NOW), CatalogStep::Ready(None)));
    let mut late = CatalogWait::new(NOW);
    late.hear(&ClientEvent::ConnectionFailed {
        attempt: 1,
        code: ClientConnectionErrorCode::Connect,
        message: "refused".to_owned(),
        retry_after: SECOND,
    });
    assert!(matches!(
        late.tick(NOW + CATALOG_TIMEOUT),
        CatalogStep::Fail(text) if text == "连接失败: [NET-CONNECT] refused"
    ));
}

#[test]
fn tables_are_aligned() {
    assert_eq!(cell("abc", 5), "abc  ");
    assert_eq!(cell("abcdefgh", 6), "abc...");
    assert_eq!(cell("abc", 2), "ab");
    assert_eq!(format_state(HostState::Succeeded, false), "ONLINE");
    assert_eq!(format_state(HostState::Offline, true), "\x1b[31mOFFLINE\x1b[0m");
    assert_eq!(format_operation_state(RowState::Sent, true), "\x1b[36mSENT\x1b[0m");
    assert_eq!(paint("x", Style::Dim, false), "x");
    let hosts = vec![HostSummary {
        host_id: "lab-pc".to_owned(),
    }];
    assert_eq!(
        host_table_rows(&hosts, &Vec::new(), false, false),
        vec![format!("    1  {:<26}  UNKNOWN", "lab-pc")]
    );
    assert_eq!(
        host_table_rows(&hosts, &Vec::new(), false, true),
        vec![format!("    1  {:<26}  UNKNOWN", "lab-pc")]
    );
    assert_eq!(
        host_table_rows(&hosts, &Vec::new(), true, true),
        vec![format!("    1  {:<26}  \x1b[2mUNKNOWN\x1b[0m", "lab-pc")]
    );
    let statuses = vec![HostStatus {
        host_id: "lab-pc".to_owned(),
        state: HostState::Unknown,
        observed_at_ms: 1,
    }];
    assert_eq!(
        host_table_rows(&hosts, &statuses, false, true),
        vec![format!("    1  {:<26}  \x1b[2mUNKNOWN\x1b[0m", "lab-pc")]
    );
    assert_eq!(
        wake_panel_rows(&vec!["lab-pc".to_owned()], &vec![RowState::Online], false),
        vec![format!("    1  {:<25}  ONLINE", "lab-pc")]
    );
}
