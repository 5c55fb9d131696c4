//! What operators type in, and what is made of it.

use crate::config::{
    has_control, any_control, host_id_of, is_label, mac_read, normal_ids, parse_mac, AllowedClient,
};
use crate::credential::{credential_name, is_credential_name};
use crate::net::{hex_value, ip_literal, number, parse_ip, split, split_chars, IpAddress, IpModel};
use crate::policy::push_contains;
use crate::text::{
    alnum, byte_count, byte_len, chars_of, is_alnum, is_white_space, listed, lower_text, text_of,
    texts, trim, trimmed, white_space,
};
use vstd::prelude::*;

verus! {

pub const MAX_HOST_ID_BYTES: usize = 64;

pub const MAX_HOST_NAME_BYTES: usize = 128;

pub const MAX_MAC_BYTES: usize = 20;

pub const MAX_CREDENTIAL_LABEL_BYTES: usize = 128;

pub const MAX_OUTPUT_PATH_BYTES: usize = 240;

pub const MAX_ENDPOINT_BYTES: usize = 253;

/// A check succeeds exactly if there is no complaint, and else makes it.
pub open spec fn complains(result: Result<(), String>, stated: Option<Seq<char>>) -> bool {
    match result {
        Ok(()) => stated is None,
        Err(text) => stated == Some(text@),
    }
}

/// The text behind a plus sign, where there is one.
pub open spec fn unsigned_part(text: Seq<char>) -> Seq<char> {
    if text.len() > 0 && text[0] == '+' {
        text.drop_first()
    } else {
        text
    }
}

/// The number that a text spells: decimal digits, a plus sign before them at
/// most, no more than `max`.
pub open spec fn unsigned(text: Seq<char>, max: nat) -> Option<nat> {
    let digits = unsigned_part(text);
    if digits.len() == 0 {
        None
    } else {
        match number(digits, 10) {
            Some(n) if n <= max => Some(n),
            _ => None,
        }
    }
}

proof fn number_grows(text: Seq<char>, i: int)
    requires
        0 <= i <= text.len(),
    ensures
        number(text, 10) is Some ==> number(text.take(i), 10) is Some && number(
            text.take(i),
            10,
        )->0 <= number(text, 10)->0,
    decreases text.len() - i,
{
    if i < text.len() {
        assert(text.take(i + 1).drop_last() =~= text.take(i));
        number_grows(text, i + 1);
    } else {
        assert(text.take(i) =~= text);
    }
}

/// Reads a number.
#[verifier::loop_isolation(false)]
pub fn parse_unsigned(text: &str, max: u64) -> (r: Option<u64>)
    ensures
        match r {
            Some(n) => unsigned(text@, max as nat) == Some(n as nat),
            None => unsigned(text@, max as nat) is None,
        },
{
    let mut digits: Vec<char> = chars_of(text);
    if digits.len() > 0 && digits[0] == '+' {
        let sign: char = digits.remove(0);
    }
    assert(digits@ =~= unsigned_part(text@));
    if digits.len() == 0 {
        return None;
    }
    let mut n: u128 = 0;
    let mut i: usize = 0;
    assert(digits@.take(0) =~= Seq::<char>::empty());
    while i < digits.len()
        invariant
            i <= digits@.len(),
            n <= max,
            number(digits@.take(i as int), 10) == Some(n as nat),
        decreases digits@.len() - i,
    {
        assert(digits@.take(i + 1).drop_last() =~= digits@.take(i as int));
        match hex_value(digits[i]) {
            Some(v) if v < 10 => {
                n = n * 10 + v as u128;
            },
            _ => {
                proof {
                    number_grows(digits@, i + 1);
                }
                return None;
            },
        }
        i += 1;
        if n > max as u128 {
            proof {
                number_grows(digits@, i as int);
            }
            return None;
        }
    }
    assert(digits@.take(i as int) =~= digits@);
    Some(n as u64)
}

/// What is made of a port.
pub open spec fn port_read(text: Seq<char>) -> Result<u16, Seq<char>> {
    match unsigned(text, 65535) {
        None => Err("端口必须是 1024 到 65535 的整数"@),
        Some(n) => if n < 1024 {
            Err("端口必须在 1024 到 65535 之间"@)
        } else {
            Ok(n as u16)
        },
    }
}

pub fn parse_port(value: &str) -> (r: Result<u16, String>)
    ensures
        match r {
            Ok(port) => port_read(value@) == Ok::<u16, Seq<char>>(port),
            Err(text) => port_read(value@) == Err::<u16, Seq<char>>(text@),
        },
{
    match parse_unsigned(value, 65535) {
        None => Err("端口必须是 1024 到 65535 的整数".to_owned()),
        Some(n) => if n < 1024 {
            Err("端口必须在 1024 到 65535 之间".to_owned())
        } else {
            Ok(n as u16)
        },
    }
}

/// What is made of a clock skew.
pub open spec fn skew_read(text: Seq<char>) -> Result<u64, Seq<char>> {
    match unsigned(text, u64::MAX as nat) {
        None => Err("时钟容差必须是 1 到 60 的整数"@),
        Some(n) => if n < 1 || n > 60 {
            Err("时钟容差必须在 1 到 60 秒之间"@)
        } else {
            Ok(n as u64)
        },
    }
}

pub fn parse_skew(value: &str) -> (r: Result<u64, String>)
    ensures
        match r {
            Ok(skew) => skew_read(value@) == Ok::<u64, Seq<char>>(skew),
            Err(text) => skew_read(value@) == Err::<u64, Seq<char>>(text@),
        },
{
    match parse_unsigned(value, u64::MAX) {
        None => Err("时钟容差必须是 1 到 60 的整数".to_owned()),
        Some(n) => if n < 1 || n > 60 {
            Err("时钟容差必须在 1 到 60 秒之间".to_owned())
        } else {
            Ok(n)
        },
    }
}

/// The characters of a host identifier that is typed in.
pub open spec fn is_form_char(c: char) -> bool {
    is_alnum(c) || c == '-' || c == '_'
}

pub open spec fn is_form_id(id: Seq<char>) -> bool {
    &&& 0 < id.len() <= MAX_HOST_ID_BYTES
    &&& is_alnum(id[0])
    &&& is_alnum(id.last())
    &&& forall|i: int| 0 <= i < id.len() ==> #[trigger] is_form_char(id[i])
}

#[verifier::loop_isolation(false)]
fn form_id(id: &str) -> (r: bool)
    ensures
        r == is_form_id(id@),
{
    let chars: Vec<char> = chars_of(id);
    let n: usize = chars.len();
    if n == 0 || n > MAX_HOST_ID_BYTES || !alnum(chars[0]) || !alnum(chars[n - 1]) {
        return false;
    }
    let mut i: usize = 0;
    while i < n
        invariant
            i <= n,
            forall|k: int| 0 <= k < i ==> #[trigger] is_form_char(id@[k]),
        decreases n - i,
    {
        if !(alnum(chars[i]) || chars[i] == '-' || chars[i] == '_') {
            assert(!is_form_char(id@[i as int]));
            return false;
        }
        i += 1;
    }
    true
}

/// A hardware address that is typed in: one that can be read, of bounded length.
pub fn valid_mac(value: &str) -> (r: bool)
    ensures
        r == (byte_count(value@) <= MAX_MAC_BYTES && mac_read(value@) is Some),
{
    byte_len(value) <= MAX_MAC_BYTES && parse_mac(value).is_ok()
}

/// An address that is typed in for a host: in the local network, and where it is
/// link-local, with an interface.
pub open spec fn is_form_target(ip: IpModel, interface: u32) -> bool {
    crate::config::is_target(ip, interface, false)
}

/// The complaint about the five fields of a host.
pub open spec fn host_form_fault(values: Seq<Seq<char>>) -> Option<Seq<char>> {
    if values.len() != 5 || trimmed(values[0]).len() == 0 || trimmed(values[1]).len() == 0
        || trimmed(values[2]).len() == 0 || trimmed(values[3]).len() == 0 {
        Some("Host ID、名称、MAC 和 IP 都不能为空"@)
    } else if !is_form_id(values[0]) {
        Some("Host ID 只能使用字母、数字、-、_，且首尾必须是字母或数字"@)
    } else if byte_count(values[1]) > MAX_HOST_NAME_BYTES || has_control(values[1]) {
        Some("显示名称过长或包含控制字符"@)
    } else if !(byte_count(values[2]) <= MAX_MAC_BYTES && mac_read(values[2]) is Some) {
        Some("MAC 地址格式无效，应包含 12 个十六进制数字"@)
    } else if ip_literal(values[3]) is None {
        Some("IP 地址格式无效"@)
    } else if unsigned(values[4], 4294967295) is None {
        Some("IPv6 网卡索引必须是 0 到 4294967295 的整数"@)
    } else if !is_form_target(
        ip_literal(values[3])->0,
        unsigned(values[4], 4294967295)->0 as u32,
    ) {
        Some("目标 IP 必须是局域网地址；链路本地 IPv6 还必须填写网卡索引"@)
    } else {
        None
    }
}

/// Checks the fields of a host: identifier, name, hardware address, address and
/// interface.
pub fn validate_host_form(values: &Vec<String>) -> (r: Result<(), String>)
    ensures
        complains(r, host_form_fault(texts(values@))),
{
    assert(texts(values@).len() == values@.len());
    assert(forall|i: int| 0 <= i < values@.len() ==> #[trigger] texts(values@)[i] == values@[i]@);
    if values.len() != 5 || trim(&values[0]).as_str().is_empty() || trim(
        &values[1],
    ).as_str().is_empty() || trim(&values[2]).as_str().is_empty() || trim(
        &values[3],
    ).as_str().is_empty() {
        return Err("Host ID、名称、MAC 和 IP 都不能为空".to_owned());
    }
    if !form_id(&values[0]) {
        return Err(
            "Host ID 只能使用字母、数字、-、_，且首尾必须是字母或数字".to_owned(),
        );
    }
    if byte_len(&values[1]) > MAX_HOST_NAME_BYTES || any_control(&values[1]) {
        return Err("显示名称过长或包含控制字符".to_owned());
    }
    if !valid_mac(&values[2]) {
        return Err("MAC 地址格式无效，应包含 12 个十六进制数字".to_owned());
    }
    let ip: IpAddress = match parse_ip(&values[3]) {
        Some(ip) => ip,
        None => {
            return Err("IP 地址格式无效".to_owned());
        },
    };
    let interface: u32 = match parse_unsigned(&values[4], 4294967295) {
        Some(n) => n as u32,
        None => {
            return Err("IPv6 网卡索引必须是 0 到 4294967295 的整数".to_owned());
        },
    };
    if !crate::config::target_address(&ip, interface, false) {
        return Err(
            "目标 IP 必须是局域网地址；链路本地 IPv6 还必须填写网卡索引".to_owned(),
        );
    }
    Ok(())
}

/// The complaint about an address to listen on, which must be of one family where
/// that is asked for.
pub open spec fn listen_fault(value: Seq<char>, ipv6: Option<bool>) -> Option<Seq<char>> {
    let ip = ip_literal(trimmed(value));
    if trimmed(value).len() == 0 {
        Some("监听地址不能为空"@)
    } else if ip is None {
        Some("监听地址必须是有效的 IPv4 或 IPv6 地址"@)
    } else if ipv6 == Some(true) && !(ip->0 is V6) {
        Some("该字段只能填写 IPv6 地址"@)
    } else if ipv6 == Some(false) && !(ip->0 is V4) {
        Some("该字段只能填写 IPv4 地址"@)
    } else {
        None
    }
}

pub fn validate_listen_address(value: &str, ipv6: Option<bool>) -> (r: Result<(), String>)
    ensures
        complains(r, listen_fault(value@, ipv6)),
{
    let value: String = trim(value);
    if value.as_str().is_empty() {
        return Err("监听地址不能为空".to_owned());
    }
    let is_v6: bool = match parse_ip(&value) {
        Some(IpAddress::V6(_)) => true,
        Some(IpAddress::V4(_)) => false,
        None => {
            return Err("监听地址必须是有效的 IPv4 或 IPv6 地址".to_owned());
        },
    };
    match ipv6 {
        Some(true) => if !is_v6 {
            Err("该字段只能填写 IPv6 地址".to_owned())
        } else {
            Ok(())
        },
        Some(false) => if is_v6 {
            Err("该字段只能填写 IPv4 地址".to_owned())
        } else {
            Ok(())
        },
        None => Ok(()),
    }
}

/// The complaint about a credential that is to be issued.
pub open spec fn credential_form_fault(label: Seq<char>, output: Seq<char>, allowed: nat) -> Option<
    Seq<char>,
> {
    let label = trimmed(label);
    let output = trimmed(output);
    if label.len() == 0 {
        Some("凭据标签不能为空"@)
    } else if byte_count(label) > MAX_CREDENTIAL_LABEL_BYTES || has_control(label) {
        Some("凭据标签过长或包含控制字符"@)
    } else if allowed == 0 {
        Some("至少允许一台主机"@)
    } else if output.len() == 0 {
        Some("输出文件不能为空"@)
    } else if byte_count(output) > MAX_OUTPUT_PATH_BYTES || has_control(output) {
        Some("输出路径过长或包含控制字符"@)
    } else if !is_credential_name(output) {
        Some("输出文件必须以 .credential.toml 结尾"@)
    } else {
        None
    }
}

pub fn validate_credential_form(label: &str, output: &str, allowed: usize) -> (r: Result<
    (),
    String,
>)
    ensures
        complains(r, credential_form_fault(label@, output@, allowed as nat)),
{
    let label: String = trim(label);
    let output: String = trim(output);
    if label.as_str().is_empty() {
        return Err("凭据标签不能为空".to_owned());
    }
    if byte_len(&label) > MAX_CREDENTIAL_LABEL_BYTES || any_control(&label) {
        return Err("凭据标签过长或包含控制字符".to_owned());
    }
    if allowed == 0 {
        return Err("至少允许一台主机".to_owned());
    }
    if output.as_str().is_empty() {
        return Err("输出文件不能为空".to_owned());
    }
    if byte_len(&output) > MAX_OUTPUT_PATH_BYTES || any_control(&output) {
        return Err("输出路径过长或包含控制字符".to_owned());
    }
    if !credential_name(&output) {
        return Err("输出文件必须以 .credential.toml 结尾".to_owned());
    }
    Ok(())
}

/// The name without a dot at its end.
pub open spec fn without_root(name: Seq<char>) -> Seq<char> {
    if name.len() > 0 && name.last() == '.' {
        name.drop_last()
    } else {
        name
    }
}

/// The name of a server: an address, or labels between dots.
pub open spec fn is_endpoint_host(value: Seq<char>) -> bool {
    let name = without_root(value);
    ip_literal(value) is Some || (name.len() > 0 && forall|i: int|
        0 <= i < split(name, '.').len() ==> is_label(#[trigger] split(name, '.')[i]))
}

#[verifier::loop_isolation(false)]
pub fn valid_endpoint_host(value: &str) -> (r: bool)
    ensures
        r == is_endpoint_host(value@),
{
    if parse_ip(value).is_some() {
        return true;
    }
    let chars: Vec<char> = chars_of(value);
    let mut to: usize = chars.len();
    if to > 0 && chars[to - 1] == '.' {
        to -= 1;
    }
    let ghost name = without_root(value@);
    assert(chars@.subrange(0, to as int) =~= name);
    if to == 0 {
        return false;
    }
    let labels: Vec<Vec<char>> = split_chars(&chars, 0, to, '.');
    let ghost all = split(name, '.');
    assert(all.len() == labels@.len());
    let mut i: usize = 0;
    while i < labels.len()
        invariant
            i <= labels@.len(),
            forall|k: int| 0 <= k < i ==> is_label(#[trigger] all[k]),
        decreases labels@.len() - i,
    {
        assert(all[i as int] == labels@[i as int]@);
        if !crate::config::host_label(&labels[i]) {
            return false;
        }
        i += 1;
    }
    true
}

/// The complaint about the server that a client is to connect to.
pub open spec fn client_endpoint_fault(address: Seq<char>, port: Seq<char>) -> Option<Seq<char>> {
    if address.len() == 0 {
        Some("服务端地址不能为空"@)
    } else if byte_count(address) > MAX_ENDPOINT_BYTES || !is_endpoint_host(address) {
        Some("服务端地址必须是有效的 IP 或 DNS 主机名，不能包含协议或路径"@)
    } else {
        match port_read(port) {
            Ok(_) => None,
            Err(text) => Some(text),
        }
    }
}

pub fn validate_client_endpoint(address: &str, port: &str) -> (r: Result<(), String>)
    ensures
        complains(r, client_endpoint_fault(address@, port@)),
{
    if address.is_empty() {
        return Err("服务端地址不能为空".to_owned());
    }
    if byte_len(address) > MAX_ENDPOINT_BYTES || !valid_endpoint_host(address) {
        return Err(
            "服务端地址必须是有效的 IP 或 DNS 主机名，不能包含协议或路径".to_owned(),
        );
    }
    match parse_port(port) {
        Ok(_) => Ok(()),
        Err(text) => Err(text),
    }
}

/// A field with a default: what was typed without white space around it, the
/// default where that is nothing.
pub fn normalize_defaulted(value: &str, default: &str) -> (r: String)
    ensures
        r@ == if trimmed(value@).len() == 0 {
            default@
        } else {
            trimmed(value@)
        },
{
    let value: String = trim(value);
    if value.as_str().is_empty() {
        default.to_owned()
    } else {
        value
    }
}

/// The permissions that stay: those for known hosts, each once, by identifier.
pub open spec fn kept_hosts(names: Seq<Seq<char>>, valid: Seq<Seq<char>>) -> Seq<Seq<char>>
    decreases names.len(),
{
    if names.len() == 0 {
        names
    } else {
        let front = kept_hosts(names.drop_last(), valid);
        let id = host_id_of(names.last());
        if valid.contains(id) && !front.contains(id) {
            front.push(id)
        } else {
            front
        }
    }
}

#[verifier::loop_isolation(false)]
fn keep_hosts(names: &Vec<String>, valid: &Vec<String>) -> (r: Vec<String>)
    ensures
        texts(r@) == kept_hosts(texts(names@), texts(valid@)),
        r@.len() <= names@.len(),
{
    let ghost all = texts(names@);
    let mut out: Vec<String> = Vec::new();
    let mut i: usize = 0;
    assert(all.take(0) =~= Seq::<Seq<char>>::empty());
    assert(texts(out@) =~= Seq::<Seq<char>>::empty());
    while i < names.len()
        invariant
            i <= names@.len(),
            out@.len() <= i,
            texts(out@) == kept_hosts(all.take(i as int), texts(valid@)),
        decreases names@.len() - i,
    {
        assert(all.take(i + 1).drop_last() =~= all.take(i as int));
        assert(all.take(i + 1).last() == names@[i as int]@);
        let id: String = lower_text(&trim(&names[i]));
        if listed(valid, &id) && !listed(&out, &id) {
            let ghost before = texts(out@);
            out.push(id);
            assert(texts(out@) =~= before.push(id@));
        }
        i += 1;
    }
    assert(all.take(i as int) =~= all);
    out
}

/// The client with its permissions put right.
pub open spec fn is_reconciled(
    after: AllowedClient,
    before: AllowedClient,
    valid: Seq<Seq<char>>,
) -> bool {
    &&& after.client_id == before.client_id
    &&& after.static_public_key == before.static_public_key
    &&& texts(after.allowed_hosts@) == kept_hosts(texts(before.allowed_hosts@), valid)
}

/// The number of permissions that are taken from the clients.
pub open spec fn removed_count(clients: Seq<AllowedClient>, valid: Seq<Seq<char>>) -> int
    decreases clients.len(),
{
    if clients.len() == 0 {
        0
    } else {
        let names = texts(clients.last().allowed_hosts@);
        removed_count(clients.drop_last(), valid) + names.len() - kept_hosts(names, valid).len()
    }
}

/// The number of permissions of all clients.
pub open spec fn permission_count(clients: Seq<AllowedClient>) -> nat
    decreases clients.len(),
{
    if clients.len() == 0 {
        0
    } else {
        permission_count(clients.drop_last()) + clients.last().allowed_hosts@.len()
    }
}

proof fn permission_count_grows(clients: Seq<AllowedClient>, i: int)
    requires
        0 <= i <= clients.len(),
    ensures
        permission_count(clients.take(i)) <= permission_count(clients),
    decreases clients.len() - i,
{
    if i < clients.len() {
        assert(clients.take(i + 1).drop_last() =~= clients.take(i));
        permission_count_grows(clients, i + 1);
    } else {
        assert(clients.take(i) =~= clients);
    }
}

/// Takes from the clients the permissions for hosts that are not there, and those
/// that stand twice; the result is their number.
#[verifier::loop_isolation(false)]
pub fn reconcile_client_host_permissions(
    clients: &mut Vec<AllowedClient>,
    valid_host_ids: &Vec<String>,
) -> (r: usize)
    requires
        permission_count(old(clients)@) <= usize::MAX,
    ensures
        r == removed_count(old(clients)@, texts(valid_host_ids@)),
        final(clients)@.len() == old(clients)@.len(),
        forall|i: int|
            0 <= i < old(clients)@.len() ==> is_reconciled(
                #[trigger] final(clients)@[i],
                old(clients)@[i],
                texts(valid_host_ids@),
            ),
{
    let ghost all = clients@;
    let ghost valid = texts(valid_host_ids@);
    let mut out: Vec<AllowedClient> = Vec::new();
    let mut removed: usize = 0;
    let mut i: usize = 0;
    assert(all.take(0) =~= Seq::<AllowedClient>::empty());
    while i < clients.len()
        invariant
            clients@ == all,
            i == out@.len() <= all.len(),
            removed == removed_count(all.take(i as int), valid),
            removed <= permission_count(all.take(i as int)),
            forall|k: int| 0 <= k < i ==> is_reconciled(#[trigger] out@[k], all[k], valid),
        decreases all.len() - i,
    {
        assert(all.take(i + 1).drop_last() =~= all.take(i as int));
        assert(all.take(i + 1).last() == all[i as int]);
        proof {
            permission_count_grows(all, i + 1);
        }
        let kept: Vec<String> = keep_hosts(&clients[i].allowed_hosts, valid_host_ids);
        assert(texts(kept@).len() == kept@.len());
        assert(texts(all[i as int].allowed_hosts@).len() == all[i as int].allowed_hosts@.len());
        removed = removed + (clients[i].allowed_hosts.len() - kept.len());
        out.push(
            AllowedClient {
                client_id: clients[i].client_id.clone(),
                static_public_key: clients[i].static_public_key.clone(),
                allowed_hosts: kept,
            },
        );
        i += 1;
    }
    assert(all.take(i as int) =~= all);
    *clients = out;
    removed
}

proof fn kept_hosts_are_sound(names: Seq<Seq<char>>, valid: Seq<Seq<char>>)
    ensures
        kept_hosts(names, valid).no_duplicates(),
        forall|id: Seq<char>| #[trigger]
            kept_hosts(names, valid).contains(id) <==> valid.contains(id) && normal_ids(
                names,
            ).contains(id),
    decreases names.len(),
{
    if names.len() > 0 {
        let front = kept_hosts(names.drop_last(), valid);
        let id = host_id_of(names.last());
        kept_hosts_are_sound(names.drop_last(), valid);
        push_contains(front, id);
        push_contains(normal_ids(names.drop_last()), id);
        assert(normal_ids(names) =~= normal_ids(names.drop_last()).push(id));
    }
}

/// After the permissions are put right each client may use exactly the known
/// hosts among those that it was given, none of them twice.
pub proof fn reconciled_permissions_are_valid(
    names: Seq<Seq<char>>,
    valid: Seq<Seq<char>>,
    id: Seq<char>,
)
    ensures
        kept_hosts(names, valid).no_duplicates(),
        kept_hosts(names, valid).contains(id) <==> valid.contains(id) && normal_ids(names).contains(
            id,
        ),
{
    kept_hosts_are_sound(names, valid);
}

/// The words of a text.
pub open spec fn words(text: Seq<char>) -> Seq<Seq<char>>
    decreases text.len(),
{
    if text.len() == 0 {
        Seq::empty()
    } else {
        let front = words(text.drop_last());
        if is_white_space(text.last()) {
            front
        } else if text.len() >= 2 && !is_white_space(text[text.len() - 2]) {
            front.update(front.len() - 1, front.last().push(text.last()))
        } else {
            front.push(seq![text.last()])
        }
    }
}

/// The words with one blank between them.
pub open spec fn spaced(words: Seq<Seq<char>>) -> Seq<char>
    decreases words.len(),
{
    if words.len() == 0 {
        Seq::empty()
    } else if words.len() == 1 {
        words[0]
    } else {
        spaced(words.drop_last()) + seq![' '] + words.last()
    }
}

/// A message on one line of at most 240 characters.
pub open spec fn one_line(message: Seq<char>) -> Seq<char> {
    let line = spaced(words(message));
    if line.len() > 240 {
        line.take(240) + "..."@
    } else {
        line
    }
}

proof fn spaced_push(list: Seq<Seq<char>>, c: char)
    requires
        list.len() > 0,
    ensures
        spaced(list.update(list.len() - 1, list.last().push(c))) == spaced(list).push(c),
{
    let more = list.update(list.len() - 1, list.last().push(c));
    if list.len() == 1 {
        assert(more[0] =~= list[0].push(c));
    } else {
        assert(more.drop_last() =~= list.drop_last());
        assert(spaced(more) =~= spaced(list).push(c));
    }
}

proof fn words_not_empty(text: Seq<char>)
    ensures
        text.len() > 0 && !is_white_space(text.last()) ==> words(text).len() > 0,
    decreases text.len(),
{
    if text.len() > 0 {
        words_not_empty(text.drop_last());
    }
}

/// A message on one line.
#[verifier::loop_isolation(false)]
pub fn single_line_error(message: &str) -> (r: String)
    ensures
        r@ == one_line(message@),
{
    let chars: Vec<char> = chars_of(message);
    let mut line: Vec<char> = Vec::new();
    let mut any: bool = false;
    let mut i: usize = 0;
    assert(chars@.take(0) =~= Seq::<char>::empty());
    while i < chars.len()
        invariant
            i <= chars@.len(),
            line@ == spaced(words(chars@.take(i as int))),
            any == (words(chars@.take(i as int)).len() > 0),
        decreases chars@.len() - i,
    {
        let ghost text = chars@.take(i + 1);
        let ghost front = words(chars@.take(i as int));
        assert(text.drop_last() =~= chars@.take(i as int));
        assert(text.last() == chars@[i as int]);
        let c: char = chars[i];
        if !white_space(c) {
            if i >= 1 && !white_space(chars[i - 1]) {
                assert(text[text.len() - 2] == chars@[i - 1]);
                proof {
                    words_not_empty(chars@.take(i as int));
                    spaced_push(front, c);
                }
                line.push(c);
            } else {
                if i >= 1 {
                    assert(text[text.len() - 2] == chars@[i - 1]);
                }
                let ghost more = front.push(seq![c]);
                assert(more.drop_last() =~= front);
                if any {
                    line.push(' ');
                    line.push(c);
                    assert(line@ =~= spaced(front) + seq![' '] + seq![c]);
                } else {
                    line.push(c);
                    assert(spaced(front).len() == 0);
                    assert(more =~= seq![seq![c]]);
                    assert(line@ =~= seq![c]);
                }
                any = true;
            }
        }
        i += 1;
    }
    assert(chars@.take(i as int) =~= chars@);
    if line.len() > 240 {
        let mut out: String = text_of(&line, 0, 240);
        assert(out@ =~= line@.take(240));
        out.append("...");
        out
    } else {
        let out: String = text_of(&line, 0, line.len());
        assert(out@ =~= line@);
        out
    }
}

} // verus!
