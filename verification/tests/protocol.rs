use remote_open_power::protocol::{
    canonical_headers, decode, encode, validate_id, ClientEnvelope, ClientOperation, ErrorCode,
    Header, HostState, HostStatus, HostSummary, ProtocolError, ServerEnvelope, ServerEvent,
    WakeErrorCode, WakeResult, MAX_FRAME_BYTES, MAX_HOSTS, MAX_ID_BYTES, MAX_REQUEST_TARGETS,
    PROTOCOL_VERSION,
};
use remote_open_power::server::{fit_response, MAX_APP_PAYLOAD};
use remote_open_power::wire::encode_server;

fn header(name: &str, value: &str) -> Header {
    Header {
        name: name.to_owned(),
        value: value.to_owned(),
    }
}

fn request(operation: ClientOperation) -> ClientEnvelope {
    ClientEnvelope {
        version: PROTOCOL_VERSION,
        request_id: [1; 16],
        issued_at_ms: 1,
        headers: Vec::new(),
        operation,
    }
}

fn reply(event: ServerEvent) -> ServerEnvelope {
    ServerEnvelope {
        version: PROTOCOL_VERSION,
        request_id: [1; 16],
        issued_at_ms: 1,
        headers: Vec::new(),
        event,
    }
}

fn wake(attempt: u8, hosts: Vec<String>, retry_ticket: Option<[u8; 32]>) -> ClientOperation {
    ClientOperation::Wake {
        catalog_version: 1,
        host_ids: hosts,
        attempt,
        boot_nonce: [1; 16],
        retry_ticket,
    }
}

#[test]
fn headers_are_canonical_and_bounded() {
    let headers = canonical_headers(vec![Header {
        name: "trace-id".into(),
        value: "abc".into(),
    }])
    .unwrap();
    assert_eq!(headers[0].name, "trace-id");
    assert!(canonical_headers(vec![Header {
        name: "Trace-Id".into(),
        value: "abc".into(),
    }])
    .is_err());
}

#[test]
fn operation_cannot_carry_network_targets() {
    let operation = ClientOperation::Wake {
        catalog_version: 1,
        host_ids: vec!["desk".into()],
        attempt: 1,
        boot_nonce: [1; 16],
        retry_ticket: None,
    };
    let envelope = ClientEnvelope {
        version: PROTOCOL_VERSION,
        request_id: [1; 16],
        issued_at_ms: 1,
        headers: Vec::new(),
        operation,
    };
    assert!(envelope.validate().is_ok());
}

#[test]
fn overlong_host_id_is_rejected_at_the_wire_boundary() {
    let envelope = ServerEnvelope {
        version: PROTOCOL_VERSION,
        request_id: [1; 16],
        issued_at_ms: 1,
        headers: Vec::new(),
        event: ServerEvent::Hosts {
            catalog_version: 1,
            hosts: vec![HostSummary {
                host_id: "a".repeat(MAX_ID_BYTES + 1),
            }],
        },
    };

    assert_eq!(envelope.validate(), Err(ProtocolError::Identifier));
}

#[test]
fn maximum_catalog_fits_the_secure_payload_budget() {
    let ids: Vec<String> = (0..MAX_HOSTS)
        .map(|index| format!("host-{index:02}-{}", "a".repeat(50)))
        .collect();
    let response = ServerEnvelope {
        version: PROTOCOL_VERSION,
        request_id: [1; 16],
        issued_at_ms: 1,
        headers: Vec::new(),
        event: ServerEvent::Hosts {
            catalog_version: 1,
            hosts: ids
                .iter()
                .map(|id| HostSummary {
                    host_id: id.clone(),
                })
                .collect(),
        },
    };
    response.validate().expect("maximum catalog is valid");
    let encoded = encode_server(&response).expect("catalog encodes");
    assert!(encoded.len() <= MAX_APP_PAYLOAD);
    assert!(fit_response(&response, 1).is_ok_and(|bytes| bytes == encoded));
    assert!(fit_response(&response, 0).is_err());
}

#[test]
fn headers_are_sorted_and_stay_so() {
    let once = canonical_headers(vec![header("b", "2"), header("a", "1")]).unwrap();
    assert_eq!(once[0].name, "a");
    assert_eq!(once[1].value, "2");
    let twice = canonical_headers(vec![header("a", "1"), header("b", "2")]).unwrap();
    assert_eq!(twice[0].name, "a");
    assert_eq!(twice[1].name, "b");
}

#[test]
fn duplicate_and_oversized_headers_are_refused() {
    assert_eq!(
        canonical_headers(vec![header("a", "1"), header("a", "2")]).err(),
        Some(ProtocolError::Header)
    );
    let many: Vec<Header> = (0..33).map(|i| header(&format!("h{i}"), "x")).collect();
    assert!(canonical_headers(many).is_err());
    let wide: Vec<Header> = (0..20)
        .map(|i| header(&format!("h{i}"), &"x".repeat(250)))
        .collect();
    assert!(canonical_headers(wide).is_err());
}

#[test]
fn identifiers_are_small_letters_and_digits() {
    assert!(validate_id("lab-pc_1.local").is_ok());
    assert!(validate_id(&"a".repeat(64)).is_ok());
    for bad in ["", "-a", "a-", "Lab", "a b", ".", "ä"] {
        assert_eq!(validate_id(bad), Err(ProtocolError::Identifier));
    }
}

#[test]
fn a_request_of_another_version_is_refused() {
    let mut envelope = request(ClientOperation::ListHosts);
    assert!(envelope.validate().is_ok());
    envelope.version = 2;
    assert_eq!(envelope.validate(), Err(ProtocolError::Version));
}

#[test]
fn attempts_and_tickets_go_together() {
    let hosts = vec!["desk".to_owned()];
    assert!(request(wake(2, hosts.clone(), Some([7; 32]))).validate().is_ok());
    assert!(request(wake(2, hosts.clone(), None)).validate().is_err());
    assert!(request(wake(1, hosts.clone(), Some([7; 32]))).validate().is_err());
    assert!(request(wake(3, hosts, None)).validate().is_err());
}

#[test]
fn requests_name_each_host_once_and_not_too_many() {
    let twice = vec!["desk".to_owned(), "desk".to_owned()];
    assert!(request(wake(1, twice, None)).validate().is_err());
    let many: Vec<String> = (0..MAX_REQUEST_TARGETS + 1).map(|i| format!("h{i}")).collect();
    assert!(request(wake(1, many, None)).validate().is_err());
    let statuses: Vec<String> = (0..MAX_REQUEST_TARGETS + 1).map(|i| format!("h{i}")).collect();
    assert!(request(ClientOperation::GetStatuses {
        catalog_version: 1,
        host_ids: statuses,
    })
    .validate()
    .is_err());
}

#[test]
fn a_receipt_explains_exactly_its_refusals() {
    let result = |accepted, error_code| WakeResult {
        host_id: "desk".to_owned(),
        accepted,
        error_code,
    };
    let receipt = |result| {
        reply(ServerEvent::CommandExecuted {
            operation_id: [1; 16],
            attempt: 1,
            retry_ticket: [3; 32],
            deadline_ms: 9,
            results: vec![result],
        })
    };
    assert!(receipt(result(true, None)).validate().is_ok());
    assert!(receipt(result(false, Some(WakeErrorCode::RateLimited))).validate().is_ok());
    assert!(receipt(result(true, Some(WakeErrorCode::Internal))).validate().is_err());
    assert!(receipt(result(false, None)).validate().is_err());
}

#[test]
fn errors_and_statuses_are_valid_replies() {
    assert!(reply(ServerEvent::Error {
        code: ErrorCode::Busy,
        retryable: true,
    })
    .validate()
    .is_ok());
    assert!(reply(ServerEvent::Statuses {
        catalog_version: 1,
        statuses: vec![HostStatus {
            host_id: "desk".to_owned(),
            state: HostState::Online,
            observed_at_ms: 5,
        }],
    })
    .validate()
    .is_ok());
}

#[test]
fn bytes_are_bounded_and_used_up() {
    assert_eq!(encode(None).unwrap_err(), ProtocolError::Limit);
    assert_eq!(
        encode(Some(vec![0; MAX_FRAME_BYTES + 1])).unwrap_err(),
        ProtocolError::Limit
    );
    assert_eq!(encode(Some(vec![1, 2])).unwrap(), vec![1, 2]);
    assert_eq!(decode(&[1, 2], Some((7u8, 0))).unwrap(), 7);
    assert_eq!(decode(&[1, 2], Some((7u8, 1))).unwrap_err(), ProtocolError::Operation);
    assert_eq!(decode::<u8>(&[1], None).unwrap_err(), ProtocolError::Operation);
    assert_eq!(decode(&[], Some((7u8, 0))).unwrap_err(), ProtocolError::Limit);
}

#[test]
fn an_encoded_value_is_decoded_and_nothing_may_follow_it() {
    let value = (3u16, [9u8; 16], "lab-pc".to_owned());
    let bytes = encode(postcard::to_allocvec(&value).ok()).unwrap();
    let parse = |bytes: &[u8]| {
        let (value, rest): ((u16, [u8; 16], String), &[u8]) = postcard::take_from_bytes(bytes).ok()?;
        Some((value, rest.len()))
    };
    assert_eq!(decode(&bytes, parse(&bytes)).unwrap(), value);
    let mut longer = bytes.clone();
    longer.push(0);
    assert_eq!(decode(&longer, parse(&longer)).unwrap_err(), ProtocolError::Operation);
    longer.resize(MAX_FRAME_BYTES + 1, 0);
    assert_eq!(decode(&longer, parse(&longer)).unwrap_err(), ProtocolError::Limit);
}

#[test]
fn canonical_headers_are_accepted_on_the_wire() {
    let headers = canonical_headers(vec![header("b", "2"), header("a", "1")]).unwrap();
    let mut envelope = request(ClientOperation::ListHosts);
    envelope.headers = headers;
    assert!(envelope.validate().is_ok());
    envelope.headers.swap(0, 1);
    assert_eq!(envelope.validate(), Err(ProtocolError::Operation));
}
