use remote_open_power::actions::{Action, Key, Page, Press};
use remote_open_power::client::{
    ClientCommand, ClientConnectionErrorCode, ClientEvent, RECEIPT_TIMEOUT, WAKE_WAIT_TIMEOUT,
};
use remote_open_power::client_view::{
    connect_settings, wake_gauge_presentation, ActualWake, ClientConnectionPhase, ClientView,
    GaugeColor, HostRow, RowHostState, Screen, WakePhase,
};
use remote_open_power::clock::SECOND;
use remote_open_power::config::{write_key, AllowedClient, AppConfig, DEFAULT_PORT};
use remote_open_power::desk::{Modal, SaveOutcome, ServerDesk, ServerPhase, LOG_LIMIT};
use remote_open_power::issue::{Issue, IssueOutcome, OutputPlace};
use remote_open_power::logging::Level;
use remote_open_power::net::parse_ip;
use remote_open_power::protocol::{HostState, HostStatus, HostSummary, WakeErrorCode, WakeResult};
use remote_open_power::security::{client_id_from_public_key, Identity};
use remote_open_power::server_view::{
    ClientRow, Draft, ListenMode, DEFAULT_CLIENT_ADDRESS, DEFAULT_CLIENT_PORT, DEFAULT_CLOCK_SKEW,
    DEFAULT_SERVER_PORT, DEFAULT_V4_BIND, DEFAULT_V6_BIND,
};
use remote_open_power::wake::{Progress, RECOVERY_TIMEOUT};

const NOW: u64 = 5_000 * SECOND;

fn row(id: &str, state: RowHostState) -> HostRow {
    HostRow {
        id: id.to_owned(),
        name: id.to_owned(),
        mac: String::new(),
        ip: String::new(),
        wol_ipv6_interface: 0,
        state,
        selected: true,
    }
}

fn server_row(id: &str) -> HostRow {
    HostRow {
        name: "Current PC".to_owned(),
        mac: "02:11:22:33:44:55".to_owned(),
        ip: "192.168.1.10".to_owned(),
        selected: false,
        ..row(id, RowHostState::Unknown)
    }
}

fn view() -> ClientView {
    ClientView::new("未发现凭据文件".to_owned(), NOW)
}

fn desk() -> ServerDesk {
    ServerDesk::new(AppConfig::default(), false, "config.toml")
}

fn pressed(key: Key) -> Press {
    Press {
        key,
        plain: true,
        control: false,
    }
}

fn page(screen: Screen) -> Page {
    Page {
        screen,
        modal: None,
        editing: false,
        issue_field: 0,
        has_clients: true,
    }
}

fn wake(targets: &[&str], progress: Progress) -> ActualWake {
    ActualWake {
        operation_id: [4; 16],
        boot_nonce: [5; 16],
        catalog_version: 9,
        targets: targets.iter().map(|id| (*id).to_owned()).collect(),
        progress,
        attempt: 1,
        ticket: Some([6; 32]),
        receipt: true,
        finished: false,
        receipt_deadline: NOW + RECEIPT_TIMEOUT,
    }
}

fn connected() -> ClientEvent {
    ClientEvent::Connected {
        peer: "127.0.0.1:45890".to_owned(),
        server_fingerprint: "test".to_owned(),
    }
}

fn saved(desk: &ServerDesk) -> Draft {
    desk.view
        .sync_server_from_view(&desk.config, &desk.client_acl)
        .ok()
        .expect("settings")
}

#[test]
fn production_view_uses_real_config_defaults_without_fake_rows() {
    let desk = desk();
    let client = view();
    assert!(desk.view.hosts.is_empty());
    assert!(desk.view.clients.is_empty());
    assert!(desk.logs.is_empty());
    assert_eq!(client.credential_status, "未发现凭据文件");
    assert_eq!(desk.config_status, "未初始化");
    assert_eq!(desk.view.listen.mode, ListenMode::DualStack);
    assert_eq!(desk.view.listen.v4, DEFAULT_V4_BIND);
    assert_eq!(desk.view.listen.v6, DEFAULT_V6_BIND);
    assert_eq!(desk.view.server_port, DEFAULT_SERVER_PORT);
    assert_eq!(desk.view.clock_skew, DEFAULT_CLOCK_SKEW);
    assert_eq!(desk.view.address, DEFAULT_CLIENT_ADDRESS);
    assert_eq!(desk.view.port, DEFAULT_CLIENT_PORT);
    assert_eq!(desk.view.address, "");
    assert_eq!(desk.view.port, DEFAULT_PORT.to_string());
}

#[test]
fn revoke_confirmation_enter_does_not_open_the_credential_editor() {
    let mut desk = desk();
    desk.screen = Screen::Credentials;
    desk.view.clients.push(ClientRow {
        label: "portable-client".to_owned(),
        access: "全部主机".to_owned(),
    });
    desk.modal = Some(Modal::RevokeCredential);
    let asked = Page {
        modal: desk.modal,
        ..page(Screen::Credentials)
    };
    assert_eq!(asked.handle_real_action(pressed(Key::Enter)), Action::Pass);
    desk.modal = None;
    desk.view.clients.clear();
    assert!(desk.persist_after_ui_change(Screen::Credentials, Some(Modal::RevokeCredential), false));
    assert_eq!(desk.screen, Screen::Credentials);
    assert!(desk.client_acl.is_empty());
    assert_eq!(desk.issue.edit, None);
}

#[test]
fn server_save_prunes_unknown_host_permissions_instead_of_failing() {
    let mut desk = desk();
    desk.view.hosts.push(server_row("current-pc"));
    let client_identity = Identity::generate().ok().expect("client identity");
    desk.client_acl.push(AllowedClient {
        client_id: "portable-client".to_owned(),
        static_public_key: write_key(&client_identity.public),
        allowed_hosts: vec!["removed-pc".to_owned()],
    });
    desk.view.clients.push(ClientRow {
        label: "portable-client".to_owned(),
        access: "1 台主机".to_owned(),
    });

    let draft = desk
        .view
        .sync_server_from_view(&desk.config, &desk.client_acl)
        .ok()
        .expect("stale ACL is repaired before validation");
    assert_eq!(draft.removed, 1);
    desk.finish_server_save(draft, SaveOutcome::Saved, "config.toml").unwrap();

    assert!(desk.config.security.allowed_clients[0].allowed_hosts.is_empty());
    assert_eq!(desk.view.clients[0].access, "0 台主机");
    assert_eq!(
        desk.notice.as_deref(),
        Some("配置已保存，已移除 1 条失效的主机授权")
    );
}

#[test]
fn client_session_does_not_claim_connected_before_event() {
    let mut view = view();
    view.connect_client();
    assert_eq!(view.connection.phase, ClientConnectionPhase::Connecting);
    assert_eq!(view.connection.display, "第 1 次尝试");
    assert!(view.apply_client_event(connected(), NOW).is_none());
    assert_eq!(view.connection.phase, ClientConnectionPhase::Connected);
}

#[test]
fn client_connection_failure_is_persistent_and_coded() {
    let mut view = view();
    view.connect_client();
    view.apply_client_event(
        ClientEvent::ConnectionFailed {
            attempt: 1,
            code: ClientConnectionErrorCode::Connect,
            message: "连接被拒绝".to_owned(),
            retry_after: 2 * SECOND,
        },
        NOW,
    );
    assert_eq!(view.connection.phase, ClientConnectionPhase::RetryWaiting);
    assert_eq!(view.connection.display, "第 1 次失败");
    assert_eq!(view.connection.error_code.as_deref(), Some("NET-CONNECT"));
    assert_eq!(view.connection.error_message.as_deref(), Some("连接被拒绝"));
    assert_eq!(view.connection.retry_at, Some(NOW + 2 * SECOND));
}

#[test]
fn completed_wake_gauge_is_full_green_and_shows_ok() {
    let (sixtieths, label, color) = wake_gauge_presentation(WakePhase::Complete, 0, 60);
    assert_eq!(sixtieths as f64 / 60.0, 1.0);
    assert_eq!(label, "OK");
    assert_eq!(color, GaugeColor::Green);
}

#[test]
fn partial_wake_is_not_rendered_as_green_ok() {
    let (sixtieths, label, color) = wake_gauge_presentation(WakePhase::Partial, 40, 20);
    assert_eq!(sixtieths as f64 / 60.0, 1.0);
    assert_ne!(label, "OK");
    assert_ne!(color, GaugeColor::Green);
}

#[test]
fn a_waiting_gauge_counts_down() {
    let (sixtieths, label, color) = wake_gauge_presentation(WakePhase::Waiting, 15, 45);
    assert_eq!((sixtieths, label.as_str(), color), (15, "45s", GaugeColor::Cyan));
    assert_eq!(wake_gauge_presentation(WakePhase::Retrying, 90, 0).0, 60);
}

#[test]
fn interrupted_wake_is_preserved_and_resubmitted_after_reconnect() {
    let mut view = view();
    let operation_id = [4; 16];
    view.screen = Screen::Wake;
    view.connection.phase = ClientConnectionPhase::Connected;
    view.hosts.push(row("lab-pc", RowHostState::Waking));
    let mut progress = Progress::new(NOW);
    progress.accepted.push("lab-pc".to_owned());
    view.wake = Some(wake(&["lab-pc"], progress));

    view.apply_client_event(
        ClientEvent::ConnectionFailed {
            attempt: 1,
            code: ClientConnectionErrorCode::Transport,
            message: "connection reset".into(),
            retry_after: 2 * SECOND,
        },
        NOW,
    );
    view.apply_client_event(ClientEvent::Connecting { attempt: 2 }, NOW);
    assert!(view.wake.is_some());
    assert_eq!(view.hosts.len(), 1);
    let command = view
        .apply_client_event(connected(), NOW)
        .expect("wake recovery request");

    let ClientCommand::Wake {
        operation_id: recovered_id,
        attempt,
        retry_ticket,
        host_ids,
        ..
    } = command
    else {
        panic!("expected wake recovery request");
    };
    assert_eq!(recovered_id, operation_id);
    assert_eq!(attempt, 1);
    assert_eq!(retry_ticket, None);
    assert_eq!(host_ids, ["lab-pc"]);
    view.resume_sent(true, NOW);
    assert!(!view.wake.as_ref().unwrap().receipt);
}

#[test]
fn an_unsent_command_shows_nothing_as_sent() {
    let mut fresh = view();
    fresh.screen = Screen::ClientHosts;
    fresh.connection.phase = ClientConnectionPhase::Connected;
    fresh.catalog_version = 1;
    fresh.hosts.push(row("lab-pc", RowHostState::Offline));
    assert!(fresh.start_wake(true, [1; 16], [2; 16], NOW).is_some());
    assert!(fresh.wake.is_none());
    fresh.wake_sent(false, [1; 16], [2; 16], NOW);
    assert!(fresh.wake.is_none());
    assert_eq!(fresh.screen, Screen::ClientHosts);
    assert_eq!(fresh.notice.as_deref(), Some("客户端 actor 已退出"));
    fresh.wake_sent(true, [1; 16], [2; 16], NOW);
    assert_eq!(fresh.screen, Screen::Wake);
    assert_eq!(fresh.wake.as_ref().unwrap().operation_id, [1; 16]);

    let mut late = view();
    late.screen = Screen::Wake;
    late.connection.phase = ClientConnectionPhase::Connected;
    let mut progress = Progress::new(NOW);
    progress.accepted.push("lab-pc".to_owned());
    progress.deadline = NOW;
    late.wake = Some(wake(&["lab-pc"], progress));
    assert!(late.tick_wake(true, NOW).is_some());
    late.retry_sent(false, NOW);
    assert!(late.wake.is_none());
    assert_eq!(late.notice.as_deref(), Some("客户端 actor 已退出"));
    assert_eq!(late.screen, Screen::ClientHosts);

    let mut alone = view();
    alone.screen = Screen::Wake;
    alone.connection.phase = ClientConnectionPhase::Connected;
    let mut progress = Progress::new(NOW);
    progress.accepted.push("lab-pc".to_owned());
    progress.deadline = NOW;
    alone.wake = Some(wake(&["lab-pc"], progress));
    assert!(alone.tick_wake(false, NOW).is_none());
    assert!(alone.wake.is_none());
    assert_eq!(alone.notice.as_deref(), Some("客户端连接已断开，无法申请重发"));

    let mut back = view();
    back.screen = Screen::Wake;
    back.wake = Some(wake(&["lab-pc"], Progress::new(NOW)));
    assert!(back.apply_client_event(connected(), NOW).is_some());
    back.resume_sent(false, NOW);
    assert!(back.wake.as_ref().unwrap().receipt);
    assert_eq!(back.notice.as_deref(), Some("安全重连后无法恢复唤醒操作"));
}

#[test]
fn disconnected_wake_does_not_advance_to_attempt_two() {
    let mut view = view();
    view.screen = Screen::Wake;
    view.connection.phase = ClientConnectionPhase::RetryWaiting;
    let mut progress = Progress::new(NOW);
    progress.accepted.push("lab-pc".to_owned());
    progress.deadline = NOW;
    view.wake = Some(wake(&["lab-pc"], progress));

    assert!(view.tick_wake(true, NOW).is_none());

    assert_eq!(view.wake.as_ref().unwrap().attempt, 1);
    assert_eq!(view.screen, Screen::Wake);
}

#[test]
fn a_connected_wake_advances_once() {
    let mut view = view();
    view.screen = Screen::Wake;
    view.connection.phase = ClientConnectionPhase::Connected;
    let mut progress = Progress::new(NOW);
    progress.accepted.push("lab-pc".to_owned());
    progress.deadline = NOW;
    view.wake = Some(wake(&["lab-pc"], progress));
    assert!(matches!(
        view.tick_wake(true, NOW),
        Some(ClientCommand::Wake { attempt: 2, retry_ticket: Some(ticket), .. }) if ticket == [6; 32]
    ));
    view.retry_sent(true, NOW);
    assert_eq!(view.display.phase, WakePhase::Retrying);
    assert!(view.tick_wake(true, NOW).is_none());
    assert!(view.tick_wake(true, NOW + RECEIPT_TIMEOUT).is_none());
    assert!(view.wake.is_none());
    assert_eq!(view.notice.as_deref(), Some("等待服务端执行回执超时"));
}

#[test]
fn reconnect_discards_the_previous_authenticated_catalog() {
    let mut view = view();
    view.catalog_version = 42;
    view.hosts.push(row("stale", RowHostState::Online));

    view.apply_client_event(ClientEvent::Connecting { attempt: 2 }, NOW);

    assert_eq!(view.catalog_version, 0);
    assert!(view.hosts.is_empty());
    assert_eq!(view.connection.phase, ClientConnectionPhase::Connecting);
}

#[test]
fn rejected_wake_receipt_does_not_invent_offline_state() {
    let mut view = view();
    view.hosts.push(row("lab-pc", RowHostState::Online));
    view.wake = Some(ActualWake {
        ticket: None,
        receipt: false,
        ..wake(&["lab-pc"], Progress::new(NOW))
    });

    view.apply_client_event(
        ClientEvent::CommandExecuted {
            operation_id: [4; 16],
            attempt: 1,
            retry_ticket: [3; 32],
            deadline_ms: 1,
            results: vec![WakeResult {
                host_id: "lab-pc".into(),
                accepted: false,
                error_code: Some(WakeErrorCode::RateLimited),
            }],
        },
        NOW,
    );

    assert_eq!(view.hosts[0].state, RowHostState::Online);
    assert!(view.wake.is_none());
    assert_eq!(view.notice.as_deref(), Some("服务端拒绝了全部目标"));
}

#[test]
fn wake_ui_never_invents_online_state() {
    let mut view = view();
    view.screen = Screen::ClientHosts;
    view.connection.phase = ClientConnectionPhase::Connected;
    view.catalog_version = 1;
    view.hosts.push(row("lab-pc", RowHostState::Offline));
    assert!(view.start_wake(true, [1; 16], [2; 16], NOW).is_some());
    view.wake_sent(true, [1; 16], [2; 16], NOW);
    assert_eq!(view.hosts[0].state, RowHostState::Offline);
    view.screen = Screen::Wake;
    view.display.phase = WakePhase::Complete;
    view.finish_wake();
    assert_eq!(view.hosts[0].state, RowHostState::Offline);
    assert!(!view.hosts[0].selected);
}

#[test]
fn a_wake_needs_a_connection_hosts_and_a_catalogue() {
    let mut view = view();
    assert!(view.start_wake(true, [1; 16], [2; 16], NOW).is_none());
    assert_eq!(view.notice.as_deref(), Some("安全连接尚未建立，未发送唤醒请求"));
    view.connection.phase = ClientConnectionPhase::Connected;
    assert!(view.start_wake(false, [1; 16], [2; 16], NOW).is_none());
    assert_eq!(view.notice.as_deref(), Some("尚未建立安全连接"));
    assert!(view.start_wake(true, [1; 16], [2; 16], NOW).is_none());
    assert_eq!(view.notice.as_deref(), Some("请先用 Space 选择至少一台主机"));
    view.hosts.push(row("lab-pc", RowHostState::Unknown));
    assert!(view.start_wake(true, [1; 16], [2; 16], NOW).is_none());
    assert_eq!(view.notice.as_deref(), Some("主机目录尚未就绪，请稍候"));
}

#[test]
fn server_starting_is_not_rendered_as_running() {
    let mut desk = desk();
    assert!(desk.may_start());
    desk.start_server();
    assert_eq!(desk.phase, ServerPhase::Starting);
    assert_eq!(desk.screen, Screen::ServerRunning);
    desk.refresh_server_state(false, false);
    assert_eq!(desk.phase, ServerPhase::Starting);
    desk.refresh_server_state(true, false);
    assert_eq!(desk.phase, ServerPhase::Running);
    assert!(!desk.may_start());
    desk.refresh_server_state(false, true);
    assert_eq!(desk.phase, ServerPhase::Failed);
}

#[test]
fn failed_revocation_save_restores_view_and_authorization() {
    let mut desk = desk();
    desk.view.hosts.push(server_row("lab-pc"));
    let draft = saved(&desk);
    desk.finish_server_save(draft, SaveOutcome::Saved, "config.toml").unwrap();
    let identity = Identity::generate().ok().unwrap();
    let mut config = desk.config.clone();
    config.security.allowed_clients.push(AllowedClient {
        client_id: client_id_from_public_key(&identity.public),
        static_public_key: write_key(&identity.public),
        allowed_hosts: Vec::new(),
    });
    let mut desk = ServerDesk::new(config, true, "config.toml");
    desk.screen = Screen::Credentials;
    desk.view.clients.clear();
    assert!(desk.persist_after_ui_change(Screen::Credentials, Some(Modal::RevokeCredential), false));
    assert!(desk.client_acl.is_empty());
    let draft = saved(&desk);
    assert!(draft.config.security.allowed_clients.is_empty());
    assert!(desk
        .finish_server_save(draft, SaveOutcome::Failed("busy".to_owned()), "config.toml")
        .is_err());
    assert_eq!(desk.view.clients.len(), 1);
    assert_eq!(desk.client_acl.len(), 1);
    assert_eq!(desk.config.security.allowed_clients.len(), 1);
    assert_eq!(desk.config_status, "保存失败");
    assert_eq!(desk.issue.edit, None);
}

#[test]
fn number_four_starts_from_every_top_level_server_page() {
    for screen in [
        Screen::ServerHome,
        Screen::ServerSettings,
        Screen::Credentials,
        Screen::SaveExit,
    ] {
        assert_eq!(
            page(screen).handle_real_action(pressed(Key::Char('4'))),
            Action::StartServer
        );
        let mut desk = desk();
        desk.view.listen.mode = ListenMode::V4Only;
        desk.view.listen.v4 = "127.0.0.1".to_owned();
        desk.screen = screen;
        assert!(desk.may_start());
        let draft = saved(&desk);
        desk.finish_server_save(draft, SaveOutcome::Saved, "config.toml").unwrap();
        desk.start_server();
        assert!(desk.started);
        assert_eq!(desk.screen, Screen::ServerRunning);
        desk.stop_server();
        assert!(!desk.started);
        assert_eq!(desk.phase, ServerPhase::Stopped);
    }
}

#[test]
fn closed_client_event_channel_reports_disconnect() {
    let mut view = view();
    view.connection.phase = ClientConnectionPhase::Connected;
    view.channel_closed();
    assert_eq!(view.connection.phase, ClientConnectionPhase::Disconnected);
    assert!(view.connection.error_code.is_some());
}

#[test]
fn post_replace_sync_failure_retains_committed_config_and_reports_error() {
    let mut desk = desk();
    let draft = saved(&desk);
    desk.finish_server_save(draft, SaveOutcome::Saved, "config.toml").unwrap();
    let mut candidate = desk.config.clone();
    candidate.security.clock_skew_seconds = 17;
    let on_disk = candidate.clone();
    let draft = Draft {
        config: candidate,
        removed: 0,
    };
    assert!(desk
        .finish_server_save(
            draft,
            SaveOutcome::NotDurable("injected directory sync failure".to_owned()),
            "config.toml"
        )
        .is_err());
    assert!(desk.config == on_disk);
    assert_eq!(desk.view.clock_skew, "17");
    assert_eq!(desk.config_status, "保存失败");
}

#[test]
fn recovered_receipt_preserves_online_rows_and_matches_rejections_by_id() {
    let mut view = view();
    let first_receipt = NOW - 40 * SECOND;
    let deadline = first_receipt + WAKE_WAIT_TIMEOUT;
    view.screen = Screen::Wake;
    view.display.online = vec![false, true, false];
    view.hosts = ["rejected", "online", "waiting"]
        .into_iter()
        .map(|id| {
            row(
                id,
                if id == "online" {
                    RowHostState::Online
                } else {
                    RowHostState::Unknown
                },
            )
        })
        .collect();
    let progress = Progress {
        created_at: first_receipt,
        accepted: vec!["online".into(), "waiting".into()],
        online: vec!["online".into()],
        started_at: Some(first_receipt),
        deadline,
    };
    view.wake = Some(ActualWake {
        ticket: None,
        receipt: false,
        ..wake(&["rejected", "online", "waiting"], progress)
    });
    let receipt = || ClientEvent::CommandExecuted {
        operation_id: [4; 16],
        attempt: 1,
        retry_ticket: [3; 32],
        deadline_ms: 0,
        results: ["waiting", "rejected", "online"]
            .into_iter()
            .map(|id| WakeResult {
                host_id: id.into(),
                accepted: id != "rejected",
                error_code: if id == "rejected" {
                    Some(WakeErrorCode::RateLimited)
                } else {
                    None
                },
            })
            .collect(),
    };
    view.apply_client_event(receipt(), NOW);
    assert_eq!(view.display.rejected, [true, false, false]);
    assert_eq!(view.hosts[1].state, RowHostState::Online);
    assert_eq!(view.display.deadline, deadline);
    assert_eq!(view.display.started_at, first_receipt);
    view.apply_client_event(
        ClientEvent::TargetOnline {
            operation_id: [4; 16],
            attempt: 1,
            host_id: "waiting".into(),
        },
        NOW,
    );
    assert_eq!(view.display.phase, WakePhase::Partial);
    view.apply_client_event(receipt(), NOW);
    assert_eq!(view.display.phase, WakePhase::Partial);
    assert_eq!(view.hosts[2].state, RowHostState::Online);
}

#[test]
fn expired_wake_cannot_resubmit_after_reconnect() {
    let mut view = view();
    view.wake = Some(ActualWake {
        ticket: None,
        receipt: false,
        ..wake(&["lab-pc"], Progress::new(NOW - RECOVERY_TIMEOUT))
    });
    assert!(view.apply_client_event(connected(), NOW).is_none());
    assert_eq!(view.display.phase, WakePhase::Failed);
    assert!(view.wake.as_ref().unwrap().finished);
}

#[test]
fn the_catalogue_and_states_are_shown_as_told() {
    let mut view = view();
    view.apply_client_event(
        ClientEvent::Hosts {
            catalog_version: 7,
            hosts: vec![HostSummary {
                host_id: "lab-pc".into(),
            }],
        },
        NOW,
    );
    assert_eq!(view.catalog_version, 7);
    assert_eq!(view.hosts[0].state, RowHostState::Unknown);
    assert_eq!(view.notice.as_deref(), Some("已载入 1 台主机"));
    view.apply_client_event(
        ClientEvent::Statuses {
            catalog_version: 7,
            statuses: vec![HostStatus {
                host_id: "lab-pc".into(),
                state: HostState::Succeeded,
                observed_at_ms: 1,
            }],
        },
        NOW,
    );
    assert_eq!(view.hosts[0].state, RowHostState::Online);
    view.apply_client_event(ClientEvent::Disconnected, NOW);
    assert_eq!(view.connection.display, "连接已断开");
    view.shutdown_client();
    assert_eq!(view.connection.display, "未连接");
    assert!(view.refresh(true).is_none());
    assert_eq!(view.notice.as_deref(), Some("安全连接尚未建立，客户端会自动重试"));
    view.connection.phase = ClientConnectionPhase::Connected;
    assert!(view.refresh(false).is_none());
    assert_eq!(view.notice.as_deref(), Some("尚未建立安全连接"));
    assert!(matches!(view.refresh(true), Some(ClientCommand::Refresh)));
    assert_eq!(view.notice.as_deref(), Some("正在刷新主机目录"));
    view.leave_wake();
    assert_eq!(view.notice.as_deref(), Some("已停止等待显示；服务端操作不会自动重发"));
}

#[test]
fn server_and_client_settings_stay_apart() {
    let mut config = AppConfig::default();
    let settings = connect_settings(&config, " 192.0.2.1 ", "").ok().expect("settings");
    assert_eq!(settings.client.address, "192.0.2.1");
    assert_eq!(settings.client.port, DEFAULT_PORT);
    assert_eq!(
        connect_settings(&config, "", "").err().as_deref(),
        Some("服务端地址不能为空")
    );
    config.ensure_server_identity_material().unwrap();
    assert_eq!(
        connect_settings(&config, "192.0.2.1", "").err().as_deref(),
        Some("当前配置包含服务端密钥或主机目录，请使用独立的终端配置文件")
    );
    let desk = desk();
    assert_eq!(
        desk.view
            .sync_server_from_view(&settings, &desk.client_acl)
            .err()
            .as_deref(),
        Some("当前配置包含终端模式设置，请使用独立的服务端配置文件")
    );
}

#[test]
fn what_is_typed_is_checked_before_it_is_saved() {
    let mut desk = desk();
    desk.view.server_port = "80".to_owned();
    let text = desk
        .view
        .sync_server_from_view(&desk.config, &desk.client_acl)
        .err()
        .expect("a complaint");
    assert_eq!(text, "端口必须在 1024 到 65535 之间");
    desk.refuse_save(&text);
    assert_eq!(desk.notice.as_deref(), Some("保存失败: 端口必须在 1024 到 65535 之间"));
    assert_eq!(desk.view.server_port, "80");
    assert_eq!(desk.config_status, "保存失败");
}

#[test]
fn an_issued_credential_is_valid_and_enrolled() {
    let mut desk = desk();
    desk.view.hosts.push(server_row("lab-pc"));
    let draft = saved(&desk);
    desk.finish_server_save(draft, SaveOutcome::Saved, "config.toml").unwrap();
    desk.open_credential_issue();
    assert_eq!(desk.issue.label, "portable-client-1");
    assert_eq!(desk.issue.output, "portable-client-1.credential.toml");
    let Issue::New { config, bundle } = desk.issue_credential(OutputPlace::Free) else {
        panic!("a credential")
    };
    assert!(bundle.validate().is_ok());
    assert!(config.validate().is_ok());
    assert_eq!(config.security.allowed_clients[0].client_id, bundle.client_id);
    assert_eq!(config.security.allowed_clients[0].allowed_hosts, ["lab-pc"]);
    desk.finish_issue(config, IssueOutcome::Issued, "x.credential.toml", "config.toml");
    assert_eq!(desk.view.clients[0].access, "全部 1 台主机");
    assert_eq!(desk.notice.as_deref(), Some("凭据已签发: x.credential.toml"));

    desk.open_credential_edit();
    assert_eq!(desk.issue.selected, [true]);
    assert_eq!(desk.issue.edit, Some(0));
    desk.issue.label = "desk".to_owned();
    desk.issue.output = "desk.credential.toml".to_owned();
    let Issue::Update { config, index } = desk.issue_credential(OutputPlace::Free) else {
        panic!("an update")
    };
    desk.finish_update(config, index, Ok(()), "config.toml");
    assert_eq!(desk.notice.as_deref(), Some("客户端主机权限已更新，便携私钥保持不变"));
}

#[test]
fn a_credential_is_refused_where_it_cannot_be_written() {
    let mut desk = desk();
    desk.view.hosts.push(server_row("lab-pc"));
    desk.open_credential_issue();
    assert!(matches!(desk.issue_credential(OutputPlace::Taken), Issue::Refused));
    assert_eq!(desk.notice.as_deref(), Some("凭据输出文件已存在，请更换文件名"));
    assert!(matches!(desk.issue_credential(OutputPlace::Config), Issue::Refused));
    assert_eq!(desk.notice.as_deref(), Some("凭据文件不能覆盖服务端配置"));
    desk.issue.selected = vec![false];
    assert!(matches!(desk.issue_credential(OutputPlace::Free), Issue::Refused));
    assert_eq!(desk.notice.as_deref(), Some("至少允许一台主机"));
    desk.issue.selected = vec![true];
    desk.issue.edit = Some(3);
    assert!(matches!(desk.issue_credential(OutputPlace::Free), Issue::Refused));
    assert_eq!(desk.notice.as_deref(), Some("凭据选择已失效，请返回后重试"));
}

#[test]
fn keys_lead_where_they_should() {
    assert_eq!(
        page(Screen::ServerSettings).handle_real_action(pressed(Key::Char('5'))),
        Action::Move {
            to: Screen::SaveExit,
            saves: true
        }
    );
    assert_eq!(
        page(Screen::ServerRunning).handle_real_action(pressed(Key::Char('1'))),
        Action::Move {
            to: Screen::ServerHome,
            saves: false
        }
    );
    let typing = Page {
        editing: true,
        ..page(Screen::ServerSettings)
    };
    assert_eq!(typing.handle_real_action(pressed(Key::Char('4'))), Action::Pass);
    let control_s = Press {
        key: Key::Char('s'),
        plain: false,
        control: true,
    };
    assert_eq!(typing.handle_real_action(control_s), Action::AskConfirm);
    assert_eq!(page(Screen::ServerHome).handle_real_action(control_s), Action::Save);
    let stopping = Page {
        modal: Some(Modal::StopServer),
        ..page(Screen::ServerRunning)
    };
    assert_eq!(stopping.handle_real_action(pressed(Key::Char('y'))), Action::StopServer);
    assert_eq!(stopping.handle_real_action(pressed(Key::Esc)), Action::Dismiss);
    assert_eq!(stopping.handle_real_action(pressed(Key::Char('4'))), Action::Ignore);
    assert_eq!(page(Screen::Wake).handle_real_action(pressed(Key::Esc)), Action::LeaveWake);
    assert_eq!(
        page(Screen::ClientHosts).handle_real_action(pressed(Key::Enter)),
        Action::StartWake
    );
}

#[test]
fn server_logs_are_kept_short_and_read() {
    let mut desk = desk();
    desk.start_server();
    for i in 0..LOG_LIMIT + 20 {
        desk.log_line(&format!("WARN line {i}"), "12:00");
    }
    assert_eq!(desk.logs.len(), LOG_LIMIT);
    assert_eq!(desk.logs[0].message, "line 20");
    assert_eq!(desk.logs[0].level, Level::Warn);
    assert_eq!(desk.phase, ServerPhase::Starting);
    desk.log_line("ERROR listener bind failed: busy", "12:00");
    assert_eq!(desk.phase, ServerPhase::Failed);
    desk.log_line("word", "12:00");
    assert_eq!(desk.logs[LOG_LIMIT - 1].level, Level::Info);
    assert_eq!(desk.logs[LOG_LIMIT - 1].message, "word");
}

#[test]
fn saved_settings_are_shown_again() {
    let mut desk = desk();
    desk.view.hosts.push(server_row("LAB-PC"));
    desk.view.listen.mode = ListenMode::V6Only;
    desk.view.listen.v6 = "2001:DB8::1".to_owned();
    let draft = saved(&desk);
    assert_eq!(draft.config.hosts[0].hostname, "LAB-PC");
    assert_eq!(draft.config.hosts[0].display_name, "Current PC");
    let again = ServerDesk::new(draft.config, true, "config.toml");
    assert_eq!(again.view.listen.mode, ListenMode::V6Only);
    assert_eq!(again.view.listen.v6, "2001:db8::1");
    assert_eq!(again.view.hosts[0].id, "lab-pc");
    assert_eq!(again.view.hosts[0].name, "Current PC");
    assert_eq!(again.config_status, "已载入");
    assert_eq!(again.view.deployment_summary, "配置文件  config.toml");
    assert!(parse_ip(&again.view.listen.v6).is_some());
}

#[test]
fn a_failed_save_before_a_start_is_told() {
    let mut desk = desk();
    desk.refuse_start("disk full");
    assert_eq!(desk.notice.as_deref(), Some("启动前保存失败: disk full"));
    assert!(!desk.started);
}
