use remote_open_power::client::{ClientCommand, ClientConnectionErrorCode, ClientEvent};
use remote_open_power::config::{AllowedClient, AppConfig, HostConfig};
use remote_open_power::credential::CredentialBundle;
use remote_open_power::protocol::{
    ClientEnvelope, ClientOperation, ErrorCode, Header, ServerEnvelope, ServerEvent, WakeResult,
    PROTOCOL_VERSION,
};
use remote_open_power::security::{
    ClientHandshakeConfig, Identity, ServerHandshakeConfig,
};

fn identity() -> Identity {
    Identity {
        private: [7; 32],
        public: [0; 32],
    }
}

#[test]
fn settings_are_described_without_their_secrets() {
    let mut config = AppConfig::default();
    config.ensure_server_identity_material().unwrap();
    config.client.static_private_key = "FAKE_PRIVATE_MARKER".to_owned();
    let secret = config.security.shared_secret.clone();
    let text = config.describe();
    assert!(text.contains("shared_secret: \"<redacted>\""));
    assert!(text.contains("allowed_clients: [], "));
    assert!(text.contains("hosts: [], "));
    assert!(text.contains("clock_skew_seconds: 30"));
    assert!(!text.contains(&secret));
    assert!(!text.contains(&config.security.server_static_private_key));
    assert!(!text.contains("FAKE_PRIVATE_MARKER"));
    config.security.shared_secret = "FAKE_PSK_MARKER".to_owned();
    assert_eq!(config.describe(), text);
}

#[test]
fn credentials_are_described_without_their_secrets() {
    let bundle = CredentialBundle {
        version: 1,
        client_id: "desk".to_owned(),
        device_label: "De\"sk".to_owned(),
        shared_secret: "FAKE_PSK_MARKER".to_owned(),
        static_private_key: "FAKE_PRIVATE_MARKER".to_owned(),
        static_public_key: "hex:aa".to_owned(),
        pinned_server_static_key: "hex:bb".to_owned(),
        custom_headers: vec![
            Header {
                name: "a".to_owned(),
                value: "FAKE_VALUE_MARKER".to_owned(),
            },
            Header {
                name: "b".to_owned(),
                value: "x".to_owned(),
            },
        ],
    };
    assert_eq!(
        bundle.describe(),
        "CredentialBundle { version: 1, client_id: \"desk\", device_label: \"De\\\"sk\", \
         shared_secret: \"<redacted>\", static_private_key: \"<redacted>\", \
         static_public_key: \"hex:aa\", pinned_server_static_key: \"hex:bb\", \
         custom_headers: [\"a\", \"b\"] }"
    );
    assert_eq!(bundle.custom_headers[0].describe(), "Header { name: \"a\", value: \"<redacted>\" }");
}

#[test]
fn messages_are_described_without_their_tickets() {
    let envelope = ClientEnvelope {
        version: PROTOCOL_VERSION,
        request_id: [0xab; 16],
        issued_at_ms: 5,
        headers: Vec::new(),
        operation: ClientOperation::Wake {
            catalog_version: 3,
            host_ids: vec!["desk".to_owned()],
            attempt: 2,
            boot_nonce: [1; 16],
            retry_ticket: Some([2; 32]),
        },
    };
    assert_eq!(
        envelope.describe(),
        format!(
            "ClientEnvelope {{ version: 1, request_id: \"{}\", issued_at_ms: 5, header_count: 0, \
             operation: Wake {{ catalog_version: 3, host_count: 1, attempt: 2, \
             boot_nonce: \"<redacted>\", retry_ticket: \"<redacted>\" }} }}",
            "ab".repeat(16)
        )
    );
    let reply = ServerEnvelope {
        version: PROTOCOL_VERSION,
        request_id: [0xab; 16],
        issued_at_ms: 5,
        headers: Vec::new(),
        event: ServerEvent::CommandExecuted {
            operation_id: [0xcd; 16],
            attempt: 1,
            retry_ticket: [2; 32],
            deadline_ms: 9,
            results: vec![WakeResult {
                host_id: "desk".to_owned(),
                accepted: true,
                error_code: None,
            }],
        },
    };
    let text = reply.describe();
    assert!(text.starts_with("ServerEnvelope { version: 1, request_id: \"abab"));
    assert!(text.contains("retry_ticket: \"<redacted>\""));
    assert!(!text.contains(&"02".repeat(32)));
    assert_eq!(
        ServerEvent::Error {
            code: ErrorCode::Busy,
            retryable: true
        }
        .describe(),
        "Error { code: Busy, retryable: true }"
    );
}

#[test]
fn commands_and_events_are_described() {
    assert_eq!(ClientCommand::Refresh.describe(), "Refresh");
    assert_eq!(ClientEvent::Disconnected.describe(), "Disconnected");
    assert_eq!(ClientEvent::Error("lost".to_owned()).describe(), "Error(\"lost\")");
    assert_eq!(
        ClientEvent::ConnectionFailed {
            attempt: 2,
            code: ClientConnectionErrorCode::Connect,
            message: "refused".to_owned(),
            retry_after: 1_500_000_000,
        }
        .describe(),
        "ConnectionFailed { attempt: 2, code: Connect, retry_after: 1.5s }"
    );
}

#[test]
fn handshake_settings_are_described_without_their_keys() {
    let client = ClientHandshakeConfig {
        psk: [9; 32],
        identity: identity(),
        client_id: "desk".to_owned(),
        pinned_server_key: None,
        clock_skew: 1,
        headers: Vec::new(),
    };
    let text = client.describe();
    assert!(text.contains("psk: \"<redacted>\""));
    assert!(text.contains("private: \"<redacted>\""));
    assert!(text.contains("pinned_server_key: None, clock_skew: 1ns"));
    assert!(!text.contains(&"07".repeat(32)));
    let server = ServerHandshakeConfig {
        psk: [9; 32],
        identity: identity(),
        clock_skew: 1,
        headers: Vec::new(),
        allowed_clients: Vec::new(),
    };
    assert!(server.describe().ends_with("allowed_client_count: 0 }"));
    assert!(!server.describe().contains(&"09".repeat(32)));
}

#[test]
fn hosts_and_clients_of_settings_are_listed() {
    let mut config = AppConfig::default();
    config.hosts.push(HostConfig {
        hostname: "desk".to_owned(),
        display_name: String::new(),
        mac: "02:11:22:33:44:55".to_owned(),
        ip: "192.168.1.10".to_owned(),
        wol_port: 9,
        probe_timeout_ms: 1_000,
        probe_port: 0,
        wol_ipv6_interface: 0,
    });
    config.security.allowed_clients.push(AllowedClient {
        client_id: "laptop".to_owned(),
        static_public_key: "hex:aa".to_owned(),
        allowed_hosts: vec!["desk".to_owned(), "lab".to_owned()],
    });
    let text = config.describe();
    assert!(text.contains(
        "hosts: [HostConfig { hostname: \"desk\", display_name: \"\", \
         mac: \"02:11:22:33:44:55\", ip: \"192.168.1.10\", wol_port: 9, \
         probe_timeout_ms: 1000, probe_port: 0, wol_ipv6_interface: 0 }], "
    ));
    assert!(text.contains(
        "allowed_clients: [AllowedClient { client_id: \"laptop\", \
         static_public_key: \"hex:aa\", allowed_hosts: [\"desk\", \"lab\"] }], "
    ));
}
