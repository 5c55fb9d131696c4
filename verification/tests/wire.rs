use remote_open_power::protocol::{
    ClientEnvelope, ClientOperation, ErrorCode, Header, HostState, HostStatus, HostSummary,
    ProtocolError, ServerEnvelope, ServerEvent, WakeErrorCode, WakeResult, MAX_FRAME_BYTES,
    MAX_HEADERS, MAX_HOSTS, MAX_REQUEST_TARGETS, PROTOCOL_VERSION,
};
use remote_open_power::wire::{decode_client, decode_server, encode_client, encode_server};

fn headers() -> Vec<Header> {
    vec![Header {
        name: "a".to_owned(),
        value: "bc".to_owned(),
    }]
}

fn request(operation: ClientOperation) -> ClientEnvelope {
    ClientEnvelope {
        version: PROTOCOL_VERSION,
        request_id: [9; 16],
        issued_at_ms: 300,
        headers: headers(),
        operation,
    }
}

fn reply(event: ServerEvent) -> ServerEnvelope {
    ServerEnvelope {
        version: PROTOCOL_VERSION,
        request_id: [9; 16],
        issued_at_ms: 300,
        headers: headers(),
        event,
    }
}

fn head(kind: u8) -> Vec<u8> {
    let mut bytes = vec![1];
    bytes.extend([9; 16]);
    bytes.extend([0xac, 0x02]);
    bytes.extend([1, 1, b'a', 2, b'b', b'c']);
    bytes.push(kind);
    bytes
}

fn operations() -> Vec<ClientOperation> {
    vec![
        ClientOperation::ListHosts,
        ClientOperation::GetStatuses {
            catalog_version: 7,
            host_ids: vec!["desk".to_owned(), "lab".to_owned()],
        },
        ClientOperation::Wake {
            catalog_version: 7,
            host_ids: vec!["desk".to_owned()],
            attempt: 1,
            boot_nonce: [3; 16],
            retry_ticket: None,
        },
        ClientOperation::Wake {
            catalog_version: 7,
            host_ids: vec!["desk".to_owned()],
            attempt: 2,
            boot_nonce: [3; 16],
            retry_ticket: Some([4; 32]),
        },
    ]
}

fn events() -> Vec<ServerEvent> {
    let states = [
        HostState::Online,
        HostState::Offline,
        HostState::Unknown,
        HostState::Waking,
        HostState::Succeeded,
        HostState::Failed,
    ];
    let faults = [
        None,
        Some(WakeErrorCode::InvalidTarget),
        Some(WakeErrorCode::RateLimited),
        Some(WakeErrorCode::SenderUnavailable),
        Some(WakeErrorCode::Internal),
    ];
    let codes = [
        ErrorCode::BadRequest,
        ErrorCode::Unauthorized,
        ErrorCode::Replay,
        ErrorCode::RateLimited,
        ErrorCode::StaleCatalog,
        ErrorCode::Busy,
        ErrorCode::Internal,
    ];
    let mut events = vec![
        ServerEvent::Hosts {
            catalog_version: 7,
            hosts: vec![HostSummary {
                host_id: "desk".to_owned(),
            }],
        },
        ServerEvent::Statuses {
            catalog_version: 7,
            statuses: states
                .iter()
                .enumerate()
                .map(|(index, state)| HostStatus {
                    host_id: format!("host-{index}"),
                    state: *state,
                    observed_at_ms: 5,
                })
                .collect(),
        },
        ServerEvent::CommandExecuted {
            operation_id: [9; 16],
            attempt: 1,
            retry_ticket: [6; 32],
            deadline_ms: 1_000,
            results: faults
                .iter()
                .enumerate()
                .map(|(index, fault)| WakeResult {
                    host_id: format!("host-{index}"),
                    accepted: fault.is_none(),
                    error_code: *fault,
                })
                .collect(),
        },
        ServerEvent::TargetOnline {
            operation_id: [9; 16],
            attempt: 2,
            host_id: "desk".to_owned(),
            observed_at_ms: u64::MAX,
        },
    ];
    for code in codes {
        events.push(ServerEvent::Error {
            code,
            retryable: code == ErrorCode::Busy,
        });
    }
    events
}

#[test]
fn messages_of_a_client_are_read_back() {
    for operation in operations() {
        let message = request(operation);
        assert!(message.validate().is_ok());
        let mut bytes = encode_client(&message).expect("bytes");
        assert!(decode_client(&bytes).is_ok_and(|read| read == message));
        bytes.push(0);
        assert!(decode_client(&bytes).is_err_and(|fault| fault == ProtocolError::Operation));
        bytes.truncate(bytes.len() - 2);
        assert!(decode_client(&bytes).is_err_and(|fault| fault == ProtocolError::Operation));
    }
}

#[test]
fn messages_of_a_server_are_read_back() {
    for event in events() {
        let message = reply(event);
        assert!(message.validate().is_ok());
        let mut bytes = encode_server(&message).expect("bytes");
        assert!(decode_server(&bytes).is_ok_and(|read| read == message));
        bytes.push(0);
        assert!(decode_server(&bytes).is_err_and(|fault| fault == ProtocolError::Operation));
        bytes.truncate(bytes.len() - 2);
        assert!(decode_server(&bytes).is_err_and(|fault| fault == ProtocolError::Operation));
    }
}

#[test]
fn a_message_is_its_head_and_its_body() {
    assert_eq!(encode_client(&request(ClientOperation::ListHosts)), Ok(head(0)));
    let mut expected = head(2);
    expected.extend([7, 1, 4]);
    expected.extend(b"desk");
    expected.push(2);
    expected.extend([3; 16]);
    expected.push(1);
    expected.extend([4; 32]);
    let wake = operations().pop().expect("a wake");
    assert_eq!(encode_client(&request(wake)), Ok(expected));
    let mut expected = head(4);
    expected.extend([5, 1]);
    let busy = ServerEvent::Error {
        code: ErrorCode::Busy,
        retryable: true,
    };
    assert_eq!(encode_server(&reply(busy)), Ok(expected));
    let mut expected = head(1);
    expected.extend([7, 1, 4]);
    expected.extend(b"desk");
    expected.extend([5, 0x80, 0x01]);
    let failed = ServerEvent::Statuses {
        catalog_version: 7,
        statuses: vec![HostStatus {
            host_id: "desk".to_owned(),
            state: HostState::Failed,
            observed_at_ms: 128,
        }],
    };
    assert_eq!(encode_server(&reply(failed)), Ok(expected));
}

#[test]
fn unknown_numbers_are_refused() {
    assert!(decode_client(&head(0)).is_ok());
    assert!(decode_client(&head(3)).is_err_and(|fault| fault == ProtocolError::Operation));
    assert!(decode_server(&head(5)).is_err_and(|fault| fault == ProtocolError::Operation));
    let failure = |code: u8, retryable: u8| {
        let mut bytes = head(4);
        bytes.extend([code, retryable]);
        decode_server(&bytes)
    };
    assert!(failure(6, 1).is_ok());
    assert!(failure(7, 1).is_err());
    assert!(failure(6, 2).is_err());
    let status = |state: u8| {
        let mut bytes = head(1);
        bytes.extend([7, 1, 1, b'a', state, 9]);
        decode_server(&bytes)
    };
    assert!(status(5).is_ok());
    assert!(status(6).is_err());
    let result = |tag: u8, code: u8| {
        let mut bytes = head(2);
        bytes.extend([9; 16]);
        bytes.push(1);
        bytes.extend([6; 32]);
        bytes.extend([9, 1, 1, b'a', 0, tag, code]);
        decode_server(&bytes)
    };
    assert!(result(1, 3).is_ok());
    assert!(result(1, 4).is_err());
    assert!(result(2, 3).is_err());
}

#[test]
fn lists_are_bounded_when_they_are_read() {
    let listing = |kind: u8, count: usize| {
        let mut bytes = head(kind);
        bytes.push(7);
        if count >= 128 {
            bytes.extend([count as u8 | 0x80, (count >> 7) as u8]);
        } else {
            bytes.push(count as u8);
        }
        for _ in 0..count {
            bytes.extend([1, b'a']);
        }
        bytes
    };
    assert!(decode_server(&listing(0, MAX_HOSTS)).is_ok());
    assert!(decode_server(&listing(0, MAX_HOSTS + 1))
        .is_err_and(|fault| fault == ProtocolError::Operation));
    assert!(decode_client(&listing(1, MAX_REQUEST_TARGETS)).is_ok());
    assert!(decode_client(&listing(1, MAX_REQUEST_TARGETS + 1))
        .is_err_and(|fault| fault == ProtocolError::Operation));
    let headed = |count: usize| {
        let mut message = request(ClientOperation::ListHosts);
        message.headers = (0..count)
            .map(|index| Header {
                name: format!("h{index}"),
                value: "x".to_owned(),
            })
            .collect();
        encode_client(&message).expect("bytes")
    };
    assert!(decode_client(&headed(MAX_HEADERS)).is_ok());
    assert!(decode_client(&headed(MAX_HEADERS + 1))
        .is_err_and(|fault| fault == ProtocolError::Operation));
}

#[test]
fn a_message_fits_in_a_frame() {
    assert!(decode_client(&[]).is_err_and(|fault| fault == ProtocolError::Limit));
    assert!(decode_server(&vec![0; MAX_FRAME_BYTES + 1])
        .is_err_and(|fault| fault == ProtocolError::Limit));
    let long = request(ClientOperation::GetStatuses {
        catalog_version: 1,
        host_ids: vec!["a".repeat(MAX_FRAME_BYTES)],
    });
    assert_eq!(encode_client(&long), Err(ProtocolError::Limit));
}
