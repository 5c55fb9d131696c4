use remote_open_power::config::AllowedClient;
use remote_open_power::deployment::{deployment_lines, powershell_quote, Platform};
use remote_open_power::forms::{
    normalize_defaulted, parse_port, parse_skew, parse_unsigned,
    reconcile_client_host_permissions, single_line_error, valid_endpoint_host, valid_mac,
    validate_client_endpoint, validate_credential_form, validate_host_form,
    validate_listen_address,
};
use remote_open_power::header_map::collect_headers;
use remote_open_power::protocol::Header;

#[test]
fn stale_and_duplicate_host_permissions_are_removed_before_save() {
    let mut clients = vec![AllowedClient {
        client_id: "portable-client".to_owned(),
        static_public_key: String::new(),
        allowed_hosts: vec![
            "LAB-PC".to_owned(),
            "lab-pc".to_owned(),
            "removed-pc".to_owned(),
            "  ".to_owned(),
        ],
    }];
    let valid = vec!["lab-pc".to_owned()];

    let removed = reconcile_client_host_permissions(&mut clients, &valid);

    assert_eq!(removed, 3);
    assert_eq!(clients[0].allowed_hosts, ["lab-pc"]);
}

#[test]
fn host_form_validates_ipv6_interface_index() {
    let mut values: Vec<String> = vec![
        "lab-pc".into(),
        "Lab PC".into(),
        "02:11:22:33:44:55".into(),
        "fd00::10".into(),
        "7".into(),
    ];
    assert!(validate_host_form(&values).is_ok());
    values[3] = "fe80::1234".into();
    assert!(validate_host_form(&values).is_ok());
    values[4] = "0".into();
    assert!(validate_host_form(&values).is_err());
    values[3] = "fd00::10".into();
    values[4] = "4294967296".into();
    assert!(validate_host_form(&values).is_err());
    values[4] = "adapter".into();
    assert!(validate_host_form(&values).is_err());
}

#[test]
fn deployment_output_contains_runtime_config_path() {
    let path = "C:/ProgramData/RemoteOpenPower/remote-open-power.toml";
    for platform in [Platform::Windows, Platform::Linux, Platform::Unix] {
        let lines = deployment_lines(platform, "RemoteOpenPower", path);
        let joined = lines.join("\n");
        assert!(joined.contains(path));
        assert!(!joined.contains("shared_secret"));
        assert!(!joined.contains("static_private_key"));
    }
    assert_eq!(deployment_lines(Platform::Linux, "x", path).len(), 35);
    assert_eq!(deployment_lines(Platform::Other, "x", path).len(), 1);
}

#[test]
fn powershell_deployment_quotes_literal_arguments() {
    let value = "C:\\a b\\c'd $value `name.toml";
    assert_eq!(powershell_quote(value), "'C:\\a b\\c''d $value `name.toml'");
    assert!(deployment_lines(Platform::Windows, "RemoteOpenPower.exe", value)
        .iter()
        .any(|line| line.trim_start().starts_with("& '")));
}

#[test]
fn numbers_are_read_as_typed() {
    assert_eq!(parse_unsigned("42", 100), Some(42));
    assert_eq!(parse_unsigned("+42", 100), Some(42));
    assert_eq!(parse_unsigned("101", 100), None);
    assert_eq!(parse_unsigned("", 100), None);
    assert_eq!(parse_port("45890"), Ok(45890));
    assert_eq!(parse_port("80").unwrap_err(), "端口必须在 1024 到 65535 之间");
    assert_eq!(parse_port("x").unwrap_err(), "端口必须是 1024 到 65535 的整数");
    assert_eq!(parse_skew("60"), Ok(60));
    assert_eq!(parse_skew("61").unwrap_err(), "时钟容差必须在 1 到 60 秒之间");
    assert_eq!(parse_skew("-1").unwrap_err(), "时钟容差必须是 1 到 60 的整数");
}

#[test]
fn listen_addresses_are_of_their_family() {
    assert!(validate_listen_address("::", Some(true)).is_ok());
    assert!(validate_listen_address("0.0.0.0", None).is_ok());
    assert_eq!(
        validate_listen_address("0.0.0.0", Some(true)).unwrap_err(),
        "该字段只能填写 IPv6 地址"
    );
    assert_eq!(
        validate_listen_address("::", Some(false)).unwrap_err(),
        "该字段只能填写 IPv4 地址"
    );
    assert_eq!(validate_listen_address(" ", None).unwrap_err(), "监听地址不能为空");
    assert!(validate_listen_address("localhost", None).is_err());
}

#[test]
fn credentials_need_a_label_hosts_and_a_file() {
    assert!(validate_credential_form("desk", "desk.credential.toml", 1).is_ok());
    assert_eq!(
        validate_credential_form(" ", "desk.credential.toml", 1).unwrap_err(),
        "凭据标签不能为空"
    );
    assert_eq!(
        validate_credential_form("desk", "desk.credential.toml", 0).unwrap_err(),
        "至少允许一台主机"
    );
    assert_eq!(
        validate_credential_form("desk", "desk.toml", 1).unwrap_err(),
        "输出文件必须以 .credential.toml 结尾"
    );
}

#[test]
fn endpoints_are_hosts_without_a_scheme() {
    assert!(valid_endpoint_host("server.local"));
    assert!(valid_endpoint_host("::1"));
    assert!(!valid_endpoint_host("http://server"));
    assert!(!valid_endpoint_host("-server"));
    assert!(validate_client_endpoint("192.0.2.1", "45890").is_ok());
    assert_eq!(
        validate_client_endpoint("", "45890").unwrap_err(),
        "服务端地址不能为空"
    );
    assert!(valid_mac("02-11-22-33-44-55"));
    assert!(!valid_mac("02-11"));
}

#[test]
fn empty_fields_take_their_default() {
    assert_eq!(normalize_defaulted("  ", "45890"), "45890");
    assert_eq!(normalize_defaulted(" 1 ", "45890"), "1");
}

#[test]
fn errors_are_shown_on_one_short_line() {
    assert_eq!(single_line_error("a\n  b\tc "), "a b c");
    let long = single_line_error(&"x".repeat(300));
    assert_eq!(long.chars().count(), 243);
    assert!(long.ends_with("..."));
}

#[test]
fn headers_become_a_map() {
    let header = |name: &str, value: &str| Header {
        name: name.to_owned(),
        value: value.to_owned(),
    };
    let map = collect_headers(&vec![header("b", "1"), header("a", "2"), header("b", "3")]);
    assert_eq!(map.len(), 2);
    assert_eq!((map[0].name.as_str(), map[0].value.as_str()), ("a", "2"));
    assert_eq!((map[1].name.as_str(), map[1].value.as_str()), ("b", "3"));
}
