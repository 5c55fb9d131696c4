//! How a host is woken and how it is looked for.
//!
//! Looking is observation only: it grants nothing.

use crate::clock::{MILLISECOND, SECOND};
use crate::config::{mac_read, parse_mac, HostConfig};
use crate::net::{ip_literal, ip_text, parse_ip, IpAddress};
use crate::text::{decimal, decimal_text, joined};
use vstd::prelude::*;

verus! {

/// How a host is looked for: some ports first, then an echo request.
pub struct ProbePlan {
    pub ip: IpAddress,
    pub interface: u32,
    pub ports: Vec<u16>,
    /// The time for all of it.
    pub budget: u64,
    /// The time for each port; all ports together take half of the budget.
    pub per_port: u64,
}

/// The ports that are tried: the configured one, or a few common ones. A client
/// has no say in them.
pub open spec fn ports_for(probe_port: u16) -> Seq<u16> {
    if probe_port != 0 {
        seq![probe_port]
    } else {
        seq![22u16, 80, 443, 445, 3389, 5900]
    }
}

/// The time for looking at a host, between a tenth of a second and five seconds.
pub open spec fn probe_budget(timeout_ms: u64) -> int {
    if timeout_ms < 100 {
        100 * MILLISECOND
    } else if timeout_ms > 5000 {
        5000 * MILLISECOND
    } else {
        timeout_ms * MILLISECOND
    }
}

/// How the host is looked for, where it has an address.
pub fn probe_plan(host: &HostConfig) -> (r: Option<ProbePlan>)
    ensures
        match ip_literal(host.ip@) {
            None => r is None,
            Some(ip) => {
                &&& r is Some
                &&& r->0.ip@ == ip
                &&& r->0.interface == host.wol_ipv6_interface
                &&& r->0.ports@ == ports_for(host.probe_port)
                &&& r->0.budget == probe_budget(host.probe_timeout_ms)
                &&& r->0.per_port == (r->0.budget as int / 2) / ports_for(
                    host.probe_port,
                ).len() as int
            },
        },
{
    let ip: IpAddress = match parse_ip(&host.ip) {
        Some(ip) => ip,
        None => {
            return None;
        },
    };
    let ports: Vec<u16> = if host.probe_port != 0 {
        vec![host.probe_port]
    } else {
        vec![22u16, 80, 443, 445, 3389, 5900]
    };
    assert(ports@ =~= ports_for(host.probe_port));
    let budget: u64 = if host.probe_timeout_ms < 100 {
        100 * MILLISECOND
    } else if host.probe_timeout_ms > 5000 {
        5000 * MILLISECOND
    } else {
        host.probe_timeout_ms * MILLISECOND
    };
    let per_port: u64 = (budget / 2) / ports.len() as u64;
    Some(ProbePlan { ip, interface: host.wol_ipv6_interface, ports, budget, per_port })
}

/// Looking at a host never takes longer than its budget: the ports take at most
/// half of it.
pub proof fn ports_take_half_of_the_budget(timeout_ms: u64, probe_port: u16)
    ensures
        ({
            let n = ports_for(probe_port).len() as int;
            let per_port = (probe_budget(timeout_ms) / 2) / n;
            0 < per_port && per_port * n <= probe_budget(timeout_ms) / 2
        }),
{
    let n = ports_for(probe_port).len() as int;
    let half = probe_budget(timeout_ms) / 2;
    assert(n == 1 || n == 6);
    assert((half / n) * n <= half) by (nonlinear_arith)
        requires
            n > 0,
            half >= 0,
    ;
}

/// Whether enough time is left for an echo request.
pub fn may_ping(deadline: u64, now: u64) -> (r: Option<u64>)
    ensures
        r == if now < deadline && deadline - now >= 50 * MILLISECOND {
            Some((deadline - now) as u64)
        } else {
            None
        },
{
    let left: u64 = deadline.saturating_sub(now);
    if left >= 50 * MILLISECOND {
        Some(left)
    } else {
        None
    }
}

/// The seconds that an echo request is given, one at least.
pub fn ping_seconds(timeout: u64) -> (r: u64)
    ensures
        r == if timeout < SECOND {
            1
        } else {
            timeout as int / SECOND as int
        },
{
    if timeout < SECOND {
        1
    } else {
        timeout / SECOND
    }
}

/// The interface that an address needs: a link-local one is good on its link
/// only.
pub fn scope_of(ip: &IpAddress, interface: u32) -> (r: Option<u32>)
    ensures
        r == if ip@.is_v6_link_local() {
            Some(interface)
        } else {
            None
        },
{
    if ip.is_v6_link_local() {
        Some(interface)
    } else {
        None
    }
}

/// The address with its interface, as a command takes it.
pub fn scoped_ip_argument(ip: &IpAddress, interface: u32) -> (r: String)
    ensures
        r@ == if ip@.is_v6_link_local() {
            ip@.text() + "%"@ + decimal(interface as nat)
        } else {
            ip@.text()
        },
{
    let text: String = ip_text(ip);
    if ip.is_v6_link_local() {
        joined(&joined(&text, "%"), &decimal_text(interface as u64))
    } else {
        text
    }
}

/// The packet that wakes a host: six bytes of ones, then its hardware address
/// sixteen times.
pub open spec fn magic_bytes(mac: Seq<u8>) -> Seq<u8> {
    Seq::new(
        102,
        |i: int|
            if i < 6 {
                0xffu8
            } else {
                mac[(i - 6) % 6]
            },
    )
}

/// The packet that wakes a host, nothing if its hardware address cannot be read.
#[verifier::loop_isolation(false)]
pub fn magic_packet(mac: &str) -> (r: Option<Vec<u8>>)
    ensures
        match mac_read(mac@) {
            Some(bytes) => r is Some && r->0@ == magic_bytes(bytes),
            None => r is None,
        },
{
    let address: [u8; 6] = match parse_mac(mac) {
        Ok(address) => address,
        Err(_) => {
            return None;
        },
    };
    let mut out: Vec<u8> = Vec::new();
    let mut i: usize = 0;
    while i < 102
        invariant
            i == out@.len() <= 102,
            forall|k: int| 0 <= k < i ==> #[trigger] out@[k] == magic_bytes(address@)[k],
        decreases 102 - i,
    {
        if i < 6 {
            out.push(0xff);
        } else {
            out.push(address[(i - 6) % 6]);
        }
        i += 1;
    }
    assert(out@ =~= magic_bytes(address@));
    Some(out)
}

} // verus!
