use remote_open_power::config::{
    decode_key, finish_document, generate_identity_pair, identity_pair, parse_mac,
    validate_client_id, validate_header, write_key, AllowedClient, AppConfig, ConfigError, Document,
    HostConfig, DEFAULT_PORT,
};
use remote_open_power::credential::{
    apply_credential_bundle, bundle_belongs, choose_credential, credential_name,
    finish_credential, load_runtime, refuse_server_settings, ClientError, ClientRuntimeConfig, CredentialBundle,
    CredentialChoice, CREDENTIAL_VERSION,
};
use remote_open_power::private_file::{
    check_acl, check_config_directory, check_private_file, trusted_directory, AclEntry, AclFacts,
    AclFault, DirectoryFacts, DirectoryFault, FileFacts, Principal, PrivateFault,
};
use remote_open_power::protocol::{Header, MAX_ID_BYTES};
use remote_open_power::security::client_id_from_public_key;
use remote_open_power::text::place_in;

fn host(name: &str, ip: &str) -> HostConfig {
    HostConfig {
        hostname: name.to_owned(),
        display_name: String::new(),
        mac: "02:11:22:33:44:55".to_owned(),
        ip: ip.to_owned(),
        wol_port: 9,
        probe_timeout_ms: 1_000,
        probe_port: 0,
        wol_ipv6_interface: 0,
    }
}

fn complaint(config: &AppConfig) -> String {
    match config.validate() {
        Ok(()) => String::new(),
        Err(ConfigError::Invalid(text)) => text,
    }
}

fn bundle(client_id: Option<&str>, secret: &str) -> CredentialBundle {
    let (static_private_key, static_public_key) = generate_identity_pair();
    let (_, server_public_key) = generate_identity_pair();
    let public = decode_key(&static_public_key).expect("public key");
    CredentialBundle {
        version: CREDENTIAL_VERSION,
        client_id: match client_id {
            Some(id) => id.to_owned(),
            None => client_id_from_public_key(&public),
        },
        device_label: "issued-at-school".to_owned(),
        shared_secret: format!("hex:{}", secret.repeat(32)),
        static_private_key,
        static_public_key,
        pinned_server_static_key: server_public_key,
        custom_headers: Vec::new(),
    }
}

#[test]
fn generated_secret_is_usable() {
    let config = AppConfig::default();
    assert_eq!(config.secret_key().expect("key").len(), 32);
}

#[test]
fn mac_parser_accepts_common_forms() {
    assert_eq!(parse_mac("AA:bb:cc:dd:ee:ff").unwrap()[0], 0xaa);
    assert_eq!(parse_mac("aabb.ccdd.eeff").unwrap()[5], 0xff);
    assert!(parse_mac("bad").is_err());
}

#[test]
fn mapped_loopback_is_not_a_valid_target() {
    let host = HostConfig {
        hostname: "mapped-loopback".to_owned(),
        display_name: String::new(),
        mac: "02:11:22:33:44:55".to_owned(),
        ip: "::ffff:127.0.0.1".to_owned(),
        wol_port: 9,
        probe_timeout_ms: 1_000,
        probe_port: 0,
        wol_ipv6_interface: 0,
    };
    assert!(host.validate(true).is_err());
}

#[test]
fn link_local_ipv6_requires_an_explicit_interface() {
    let mut host = HostConfig {
        hostname: "link-local".to_owned(),
        display_name: String::new(),
        mac: "02:11:22:33:44:55".to_owned(),
        ip: "fe80::1234".to_owned(),
        wol_port: 9,
        probe_timeout_ms: 1_000,
        probe_port: 0,
        wol_ipv6_interface: 0,
    };
    assert!(host.validate(false).is_err());
    host.wol_ipv6_interface = 7;
    assert!(host.validate(false).is_ok());
}

#[test]
fn host_id_longer_than_wire_limit_is_rejected_during_config_validation() {
    let host = HostConfig {
        hostname: "a".repeat(MAX_ID_BYTES + 1),
        display_name: String::new(),
        mac: "02:11:22:33:44:55".to_owned(),
        ip: "192.168.1.10".to_owned(),
        wol_port: 9,
        probe_timeout_ms: 1_000,
        probe_port: 0,
        wol_ipv6_interface: 0,
    };

    assert!(matches!(host.validate(false), Err(ConfigError::Invalid(_))));
}

#[test]
fn config_and_wire_reject_the_same_reserved_client_ids() {
    for client_id in [".", "..", "_client", "client_"] {
        assert!(validate_client_id(client_id).is_err());
    }
    assert!(validate_client_id("Portable-Client_01").is_ok());
}

#[test]
fn portable_bundle_rejects_an_id_that_does_not_match_its_key() {
    let bundle = bundle(Some("old-school-laptop"), "11");
    assert!(matches!(bundle.validate(), Err(ClientError::Credential)));
}

#[test]
fn runtime_derives_identity_id_and_keeps_label_as_metadata() {
    let mut issued = bundle(None, "22");
    issued.device_label = "original-windows-name".to_owned();
    let expected_id = issued.client_id.clone();
    let mut config = AppConfig::default();
    config.client.address = "127.0.0.1".to_owned();
    let label = apply_credential_bundle(&mut config, issued)
        .ok()
        .expect("apply bundle");
    let runtime = ClientRuntimeConfig::from_config_with_label(&config, label)
        .ok()
        .expect("runtime config");
    assert_eq!(runtime.client_id, expected_id);
    assert_eq!(
        runtime.device_label.as_deref(),
        Some("original-windows-name")
    );
}

#[test]
fn keys_are_written_and_read_back() {
    let key: [u8; 32] = [0xab; 32];
    let text = write_key(&key);
    assert_eq!(text, format!("hex:{}", "ab".repeat(32)));
    assert_eq!(decode_key(&text).unwrap(), key);
    for bad in [
        "ab".repeat(32),
        format!("hex:{}", "ab".repeat(31)),
        format!("hex:{}", "zz".repeat(32)),
        format!("hex:{}", "00".repeat(32)),
    ] {
        assert!(decode_key(&bad).is_err());
    }
}

#[test]
fn a_known_private_key_has_its_known_public_key() {
    let (private, public) = identity_pair(&[
        0x77, 0x07, 0x6d, 0x0a, 0x73, 0x18, 0xa5, 0x7d, 0x3c, 0x16, 0xc1, 0x72, 0x51, 0xb2, 0x66,
        0x45, 0xdf, 0x4c, 0x2f, 0x87, 0xeb, 0xc0, 0x99, 0x2a, 0xb1, 0x77, 0xfb, 0xa5, 0x1d, 0xb9,
        0x2c, 0x2a,
    ]);
    assert_eq!(
        private,
        "hex:77076d0a7318a57d3c16c17251b26645df4c2f87ebc0992ab177fba51db92c2a"
    );
    assert_eq!(
        public,
        "hex:8520f0098930a754748b7ddcb43ef75a0dbf3a0d26381af4eba4a98eaa9b4e6a"
    );
}

#[test]
fn fresh_settings_are_accepted() {
    assert_eq!(complaint(&AppConfig::default()), "");
    let loaded = AppConfig::load(None).ok().expect("fresh settings");
    assert_eq!(loaded.server.port, DEFAULT_PORT);
    assert!(loaded.hosts.is_empty());
}

#[test]
fn faults_of_settings_are_named() {
    let mut config = AppConfig::default();
    config.config_version = 2;
    assert_eq!(complaint(&config), "unsupported config version 2");
    let mut config = AppConfig::default();
    config.server.port = 80;
    assert_eq!(complaint(&config), "server port must be 1024 or higher");
    let mut config = AppConfig::default();
    config.server.bind_address = "0.0.0.0".to_owned();
    assert_eq!(complaint(&config), "dual_stack requires an IPv6 bind address");
    let mut config = AppConfig::default();
    config.security.clock_skew_seconds = 61;
    assert_eq!(complaint(&config), "clock_skew_seconds must be between 1 and 60");
    let mut config = AppConfig::default();
    config.security.max_requests_per_minute = 0;
    assert_eq!(complaint(&config), "max_requests_per_minute must be between 1 and 600");
    let mut config = AppConfig::default();
    config.security.shared_secret = format!("hex:{}", "00".repeat(32));
    assert_eq!(complaint(&config), "shared secret cannot be all zero");
    let mut config = AppConfig::default();
    config.hosts.push(host("lab-pc", "192.168.1.10"));
    config.hosts.push(host("LAB-PC", "192.168.1.11"));
    assert_eq!(complaint(&config), "duplicate host name: LAB-PC");
    let mut config = AppConfig::default();
    config.server.dual_stack = true;
    config.client.port = 1;
    assert_eq!(complaint(&config), "client port must be 1024 or higher");
}

#[test]
fn clients_may_only_name_known_hosts_once() {
    let (_, key) = generate_identity_pair();
    let client = |hosts: Vec<String>| AllowedClient {
        client_id: "portable".to_owned(),
        static_public_key: key.clone(),
        allowed_hosts: hosts,
    };
    let mut config = AppConfig::default();
    config.hosts.push(host("lab-pc", "192.168.1.10"));
    config.security.allowed_clients = vec![client(vec!["LAB-PC".to_owned()])];
    assert_eq!(complaint(&config), "");
    config.security.allowed_clients = vec![client(vec!["other".to_owned()])];
    assert_eq!(
        complaint(&config),
        "client portable references an unknown or duplicate host"
    );
    config.security.allowed_clients = vec![client(Vec::new()), client(Vec::new())];
    assert_eq!(complaint(&config), "duplicate client id: portable");
    let mut second = client(Vec::new());
    second.client_id = "other".to_owned();
    config.security.allowed_clients = vec![client(Vec::new()), second];
    assert_eq!(
        complaint(&config),
        "multiple clients may not share a static public key"
    );
}

#[test]
fn public_hosts_need_permission() {
    let host = host("far", "8.8.8.8");
    assert!(host.validate(false).is_err());
    assert!(host.validate(true).is_ok());
    assert_eq!(host.host_id(), "far");
}

#[test]
fn reserved_headers_are_refused() {
    assert!(validate_header("trace-id", "abc").is_ok());
    assert!(validate_header("Trace", "abc").is_err());
    assert!(validate_header("trace", "a\nb").is_err());
    assert!(validate_header("trace", &"x".repeat(257)).is_err());
}

#[test]
fn a_server_gets_its_key_pair_once() {
    let mut config = AppConfig::default();
    config.ensure_server_identity_material().unwrap();
    let private = config.security.server_static_private_key.clone();
    let public = config.security.server_static_public_key.clone();
    assert_ne!(private, public);
    config.security.server_static_public_key = String::new();
    config.ensure_server_identity_material().unwrap();
    assert_eq!(config.security.server_static_public_key, public);
    assert_eq!(config.security.server_static_private_key, private);
    assert_eq!(complaint(&config), "");
    config.security.server_static_private_key = String::new();
    assert!(matches!(
        config.ensure_server_identity_material(),
        Err(ConfigError::Invalid(text)) if text == "server public key requires its private key"
    ));
    assert_eq!(config.security.server_static_public_key, public);
    assert_eq!(config.security.server_static_private_key, "");
    config.security.server_static_private_key = "hex:00".to_owned();
    config.security.server_static_public_key = String::new();
    assert!(config.ensure_server_identity_material().is_err());
    assert_eq!(config.security.server_static_private_key, "hex:00");
    assert_eq!(config.security.server_static_public_key, "");
}

#[test]
fn client_settings_keep_no_secret() {
    let mut config = AppConfig::default();
    config.ensure_server_identity_material().unwrap();
    config.hosts.push(host("lab-pc", "192.168.1.10"));
    config.client.address = "192.0.2.5".to_owned();
    config.client.client_id = "Portable".to_owned();
    let kept = config.client_settings().ok().expect("client settings");
    assert_eq!(kept.client.address, "192.0.2.5");
    assert_eq!(kept.client.client_id, "portable");
    assert_eq!(kept.security.shared_secret, "");
    assert_eq!(kept.security.server_static_private_key, "");
    assert!(kept.hosts.is_empty());
    config.client.port = 1;
    assert!(config.client_settings().is_err());
}

#[test]
fn a_bundle_belongs_to_its_key_only() {
    let issued = bundle(None, "33");
    let (_, unrelated) = generate_identity_pair();
    assert!(bundle_belongs(&issued, &issued.static_public_key).is_ok());
    assert!(matches!(
        bundle_belongs(&issued, &unrelated),
        Err(ClientError::Credential)
    ));
}

#[test]
fn one_credential_is_chosen_or_none() {
    let names = |list: &[&str]| -> Vec<String> { list.iter().map(|s| (*s).to_owned()).collect() };
    assert!(credential_name("portable.credential.toml"));
    assert!(!credential_name("portable.toml"));
    assert!(matches!(
        choose_credential(true, &names(&["a.credential.toml"])),
        CredentialChoice::Primary
    ));
    assert!(matches!(
        choose_credential(false, &names(&["notes.txt", "a.credential.toml"])),
        CredentialChoice::Other(1)
    ));
    assert!(matches!(
        choose_credential(false, &names(&["a.credential.toml", "b.credential.toml"])),
        CredentialChoice::Ambiguous
    ));
    assert!(matches!(choose_credential(false, &names(&[])), CredentialChoice::Missing));
}

#[test]
fn a_runtime_needs_an_address() {
    let mut config = AppConfig::default();
    config.client.address = String::new();
    assert!(load_runtime(config, bundle(None, "44"), None, None).is_err());
    let runtime = load_runtime(
        AppConfig::default(),
        bundle(None, "44"),
        Some("192.0.2.1".to_owned()),
        Some(5000),
    )
    .ok()
    .expect("runtime");
    assert_eq!(runtime.address, "192.0.2.1");
    assert_eq!(runtime.port, 5000);
    assert_eq!(runtime.psk, [0x44; 32]);
    assert_eq!(client_id_from_public_key(&runtime.identity.public), runtime.client_id);
}

#[test]
fn documents_end_with_a_line_and_are_bounded() {
    assert!(matches!(
        finish_document("a = 1", Document::Config),
        Ok(text) if text == "a = 1\n"
    ));
    assert!(finish_document(&"x".repeat(1_048_575), Document::Config).is_ok());
    assert!(matches!(
        finish_document(&"x".repeat(1_048_576), Document::Config),
        Err(ConfigError::Invalid(text)) if text == "serialized config exceeds 1048576 bytes"
    ));
    assert!(matches!(
        finish_document(&"x".repeat(1_048_576), Document::ClientSettings),
        Err(ConfigError::Invalid(text)) if text == "serialized client settings exceed 1048576 bytes"
    ));
    assert!(finish_credential("a = 1").is_ok());
    assert!(finish_credential(&"x".repeat(20_000)).is_err());
}

#[test]
fn private_files_are_regular_short_and_closed_to_others() {
    let file = FileFacts {
        is_file: true,
        length: 10,
        links: 1,
        mode: 0o600,
        owner: 1000,
    };
    assert!(check_private_file(&file, 10, 1000).is_ok());
    assert_eq!(
        check_private_file(&FileFacts { length: 11, ..file }, 10, 1000),
        Err(PrivateFault::Shape)
    );
    assert_eq!(
        check_private_file(&FileFacts { mode: 0o644, ..file }, 10, 1000),
        Err(PrivateFault::Access)
    );
    assert_eq!(
        check_private_file(&FileFacts { links: 2, ..file }, 10, 1000),
        Err(PrivateFault::Access)
    );
    let directory = DirectoryFacts {
        is_directory: true,
        is_symlink: false,
        mode: 0o755,
        owner: 0,
    };
    assert!(trusted_directory(&directory, 1000));
    assert!(!trusted_directory(&DirectoryFacts { mode: 0o777, ..directory }, 1000));
    assert!(!trusted_directory(&DirectoryFacts { owner: 7, ..directory }, 1000));
    assert!(check_config_directory(&DirectoryFacts { owner: 7, ..directory }).is_ok());
    assert_eq!(
        check_config_directory(&DirectoryFacts { mode: 0o770, ..directory }),
        Err(DirectoryFault::Writable)
    );
    assert_eq!(
        check_config_directory(&DirectoryFacts { is_symlink: true, ..directory }),
        Err(DirectoryFault::Shape)
    );
}

fn grants(principal: Principal) -> AclEntry {
    AclEntry {
        inherit_only: false,
        kind: 0,
        size: 20,
        principal,
    }
}

fn listed(entries: Vec<AclEntry>) -> AclFacts {
    AclFacts {
        links: 1,
        owner: Some(Principal::CurrentUser),
        entries: Some(entries),
    }
}

#[test]
fn private_read_rejects_world_readable_dacl() {
    let private = vec![grants(Principal::System), grants(Principal::OwnerRights)];
    assert!(check_acl(&listed(private.clone())).is_ok());
    let mut shared = private;
    shared.push(grants(Principal::Other));
    assert_eq!(check_acl(&listed(shared)), Err(AclFault::Shared));
}

#[test]
fn access_lists_are_read_strictly() {
    let denied = AclEntry { kind: 1, ..grants(Principal::Other) };
    let inherited = AclEntry { inherit_only: true, ..grants(Principal::Other) };
    assert!(check_acl(&listed(vec![denied, inherited])).is_ok());
    let odd = AclEntry { kind: 9, ..grants(Principal::Owner) };
    assert_eq!(check_acl(&listed(vec![odd])), Err(AclFault::Unsupported));
    let short = AclEntry { size: 8, ..grants(Principal::Owner) };
    assert_eq!(check_acl(&listed(vec![short])), Err(AclFault::Unsupported));
    let mut facts = listed(Vec::new());
    facts.links = 2;
    assert_eq!(check_acl(&facts), Err(AclFault::HardLinks));
    let mut facts = listed(Vec::new());
    facts.entries = None;
    assert_eq!(check_acl(&facts), Err(AclFault::Unrestricted));
    let mut facts = listed(Vec::new());
    facts.owner = Some(Principal::Other);
    assert_eq!(check_acl(&facts), Err(AclFault::Owner));
}

#[test]
fn headers_of_a_bundle_reach_the_runtime() {
    let mut issued = bundle(None, "55");
    issued.custom_headers = vec![Header {
        name: "trace-id".to_owned(),
        value: "abc".to_owned(),
    }];
    let runtime = load_runtime(
        AppConfig::default(),
        issued,
        Some("192.0.2.1".to_owned()),
        None,
    )
    .ok()
    .expect("runtime");
    assert_eq!(runtime.headers.len(), 1);
    assert_eq!(runtime.headers[0].value, "abc");
}

#[test]
fn a_byte_has_its_line_and_column() {
    assert_eq!(place_in("", 0), (1, 1));
    assert_eq!(place_in("ab\ncd", 0), (1, 1));
    assert_eq!(place_in("ab\ncd", 2), (1, 3));
    assert_eq!(place_in("ab\ncd", 3), (2, 1));
    assert_eq!(place_in("ab\ncd", 4), (2, 2));
    assert_eq!(place_in("ab\n\n", 99), (3, 1));
    assert_eq!(place_in("\u{e9}x", 2), (1, 3));
}

#[test]
fn saved_settings_have_a_secret() {
    let mut config = AppConfig::default();
    config.security.shared_secret = "  ".to_owned();
    assert!(config.prepare_save_with(&[0x11; 32]).is_ok());
    assert_eq!(config.security.shared_secret, format!("hex:{}", "11".repeat(32)));
    assert!(config.prepare_save().is_ok());
    assert_eq!(config.security.shared_secret, format!("hex:{}", "11".repeat(32)));
    config.security.shared_secret = String::new();
    assert!(config.prepare_save().is_ok());
    assert_eq!(config.security.shared_secret.len(), 68);
    assert!(decode_key(&config.security.shared_secret).is_ok());
    config.security.shared_secret = String::new();
    assert!(matches!(
        config.prepare_save_with(&[0; 32]),
        Err(ConfigError::Invalid(text)) if text == "shared secret cannot be all zero"
    ));
    config.security.shared_secret = String::new();
    config.server.port = 1;
    assert!(config.prepare_save_with(&[0x11; 32]).is_err());
    assert_eq!(config.security.shared_secret, format!("hex:{}", "11".repeat(32)));
}

#[test]
fn a_client_refuses_the_settings_of_a_server() {
    let mut config = AppConfig::default();
    assert!(refuse_server_settings(&config).is_ok());
    config.security.server_static_private_key = " ".to_owned();
    assert!(refuse_server_settings(&config).is_ok());
    config.security.server_static_private_key = "11".repeat(32);
    assert!(matches!(
        refuse_server_settings(&config),
        Err(ClientError::Credential)
    ));
}
