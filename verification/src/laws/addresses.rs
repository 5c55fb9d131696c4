//! Addresses and what they are good for.

use crate::net::{
    double_colon, group, groups, groups_text, ip_literal, is_longest_run, octet, side, v4_octets,
    v6_groups, v6_text, zero_run, IpAddress, IpModel,
};
use vstd::prelude::*;

verus! {

/// An address of IPv4: four numbers under 256.
pub open spec fn is_v4(o: Seq<nat>) -> bool {
    o.len() == 4 && forall|i: int| 0 <= i < 4 ==> #[trigger] o[i] < 256
}

/// The private networks, and no others, are local.
pub proof fn the_private_networks_are_local(a: nat, b: nat, c: nat, d: nat)
    ensures
        IpModel::V4(seq![a, b, c, d]).is_lan() <==> a == 10 || (a == 172 && 16 <= b <= 31) || (a
            == 192 && b == 168),
        IpModel::V4(seq![a, b, c, d]).is_loopback() <==> a == 127,
        IpModel::V4(seq![a, b, c, d]).is_multicast() <==> 224 <= a <= 239,
        IpModel::V4(seq![a, b, c, d]).is_unspecified() <==> a == 0 && b == 0 && c == 0 && d == 0,
        IpModel::V4(seq![a, b, c, d]).is_v4_special() <==> a == 0 || (a == 169 && b == 254) || (a
            == 255 && b == 255 && c == 255 && d == 255),
        !IpModel::V4(seq![a, b, c, d]).is_v6_link_local(),
{
    let o = seq![a, b, c, d];
    if a == 0 && b == 0 && c == 0 && d == 0 {
        assert(o =~= seq![0nat, 0, 0, 0]);
    }
    if a == 255 && b == 255 && c == 255 && d == 255 {
        assert(o =~= seq![255nat, 255, 255, 255]);
    }
    assert(o[0] == a && o[1] == b && o[2] == c && o[3] == d);
    assert(seq![0nat, 0, 0, 0][0] == 0 && seq![0nat, 0, 0, 0][1] == 0 && seq![0nat, 0, 0, 0][2] == 0
        && seq![0nat, 0, 0, 0][3] == 0);
    assert(seq![255nat, 255, 255, 255][0] == 255 && seq![255nat, 255, 255, 255][1] == 255 && seq![
        255nat,
        255,
        255,
        255,
    ][2] == 255 && seq![255nat, 255, 255, 255][3] == 255);
}

/// Of the addresses of IPv6 those under fc00::/7 are local, those under fe80::/10
/// belong to a link, those under ff00::/8 to a group.
pub proof fn the_networks_of_v6(groups: Seq<nat>)
    requires
        groups.len() == 8,
        forall|i: int| 0 <= i < 8 ==> #[trigger] groups[i] < 65536,
    ensures
        IpModel::V6(groups).is_lan() <==> 0xfc00 <= groups[0] <= 0xfdff,
        IpModel::V6(groups).is_v6_link_local() <==> 0xfe80 <= groups[0] <= 0xfebf,
        IpModel::V6(groups).is_multicast() <==> groups[0] >= 0xff00,
        IpModel::V6(groups).is_unspecified() <==> forall|i: int| 0 <= i < 8 ==> #[trigger] groups[i]
            == 0,
        IpModel::V6(groups).is_loopback() <==> groups[7] == 1 && forall|i: int|
            0 <= i < 7 ==> #[trigger] groups[i] == 0,
        !IpModel::V6(groups).is_v4_special(),
{
    let zero = seq![0nat, 0, 0, 0, 0, 0, 0, 0];
    let one = seq![0nat, 0, 0, 0, 0, 0, 0, 1];
    if forall|i: int| 0 <= i < 8 ==> #[trigger] groups[i] == 0 {
        assert(groups =~= zero);
    }
    if groups == zero {
        assert forall|i: int| 0 <= i < 8 implies #[trigger] groups[i] == 0 by {}
    }
    if groups[7] == 1 && forall|i: int| 0 <= i < 7 ==> #[trigger] groups[i] == 0 {
        assert(groups =~= one);
    }
    if groups == one {
        assert(groups[7] == 1);
        assert forall|i: int| 0 <= i < 7 implies #[trigger] groups[i] == 0 by {}
    }
}

/// A mapped address stands for the IPv4 address in its last two groups; any other
/// stands for itself.
pub proof fn a_mapped_address_stands_for_its_last_groups(groups: Seq<nat>)
    requires
        groups.len() == 8,
        forall|i: int| 0 <= i < 8 ==> #[trigger] groups[i] < 65536,
    ensures
        ({
            let ip = IpModel::V6(groups);
            let mapped = groups[5] == 0xffff && forall|i: int|
                0 <= i < 5 ==> #[trigger] groups[i] == 0;
            &&& ip.is_mapped() <==> mapped
            &&& !mapped ==> ip.unmapped() == ip
            &&& mapped ==> ip.unmapped() is V4 && {
                let o = ip.unmapped()->V4_0;
                &&& is_v4(o)
                &&& o[0] * 256 + o[1] == groups[6]
                &&& o[2] * 256 + o[3] == groups[7]
            }
        }),
{
    assert(groups[6] < 65536 && groups[7] < 65536);
    assert(groups[6] / 256 < 256 && groups[7] / 256 < 256);
    if groups[5] == 0xffff && forall|i: int| 0 <= i < 5 ==> #[trigger] groups[i] == 0 {
        assert(groups[0] == 0 && groups[1] == 0 && groups[2] == 0 && groups[3] == 0 && groups[4]
            == 0);
    }
    let ip = IpModel::V6(groups);
    if ip.is_mapped() {
        let o = ip.unmapped()->V4_0;
        assert forall|i: int| 0 <= i < 4 implies #[trigger] o[i] < 256 by {}
        assert forall|i: int| 0 <= i < 5 implies #[trigger] groups[i] == 0 by {}
    }
}

/// A quota is kept for an IPv4 address, and for the first half of an IPv6 address:
/// two peers share one exactly if they agree in that.
pub proof fn a_quota_is_kept_for_a_network(a: IpAddress, b: IpAddress)
    ensures
        a@.unmapped() is V4 ==> a@.quota_key() == a@.unmapped(),
        a@.unmapped() is V6 && b@.unmapped() is V6 ==> (a@.quota_key() == b@.quota_key()
            <==> forall|i: int|
            0 <= i < 4 ==> #[trigger] a@.unmapped()->V6_0[i] == b@.unmapped()->V6_0[i]),
        a@.unmapped() is V4 && b@.unmapped() is V6 ==> a@.quota_key() != b@.quota_key(),
{
    if a@.unmapped() is V6 && b@.unmapped() is V6 {
        let g = a@.unmapped()->V6_0;
        let h = b@.unmapped()->V6_0;
        let x = seq![g[0], g[1], g[2], g[3], 0nat, 0, 0, 0];
        let y = seq![h[0], h[1], h[2], h[3], 0nat, 0, 0, 0];
        assert(a@.quota_key() == IpModel::V6(x) && b@.quota_key() == IpModel::V6(y));
        if forall|i: int| 0 <= i < 4 ==> #[trigger] g[i] == h[i] {
            assert(g[0] == h[0] && g[1] == h[1] && g[2] == h[2] && g[3] == h[3]);
            assert(x =~= y);
        }
        if x == y {
            assert forall|i: int| 0 <= i < 4 implies #[trigger] g[i] == h[i] by {
                assert(x[i] == g[i] && y[i] == h[i]);
            }
        }
    }
}

/// Four decimal numbers under 256 without leading zeros, with dots between them,
/// are an IPv4 address; a group of IPv6 is a hexadecimal number of up to four
/// digits.
pub proof fn the_parts_of_an_address_are_numbers(text: Seq<char>)
    ensures
        octet(text) is Some <==> 1 <= text.len() <= 3 && (text.len() > 1 ==> text[0] != '0')
            && crate::net::number(text, 10) is Some && crate::net::number(text, 10)->0 < 256,
        octet(text) is Some ==> octet(text) == crate::net::number(text, 10),
        group(text) is Some <==> 1 <= text.len() <= 4 && crate::net::number(text, 16) is Some,
        group(text) is Some ==> group(text) == crate::net::number(text, 16),
        v4_octets(text) is Some <==> {
            let parts = crate::net::split(text, '.');
            parts.len() == 4 && forall|i: int|
                0 <= i < 4 ==> octet(#[trigger] parts[i]) is Some
        },
        v4_octets(text) is Some ==> {
            let parts = crate::net::split(text, '.');
            v4_octets(text)->0.len() == 4 && forall|i: int|
                0 <= i < 4 ==> v4_octets(text)->0[i] == octet(#[trigger] parts[i])->0
        },
        ip_literal(text) is Some && ip_literal(text)->0 is V4 <==> v4_octets(text) is Some,
{
    let parts = crate::net::split(text, '.');
    if parts.len() == 4 {
        if forall|i: int| 0 <= i < 4 ==> octet(#[trigger] parts[i]) is Some {
            assert(octet(parts[0]) is Some && octet(parts[1]) is Some && octet(parts[2]) is Some
                && octet(parts[3]) is Some);
        }
    }
}

/// A run of zero groups reaches from its place to the next group that is not zero.
pub proof fn a_run_of_zeros_reaches_as_far_as_it_can(all: Seq<nat>, from: int, i: int)
    requires
        0 <= from <= all.len(),
    ensures
        from + zero_run(all, from) <= all.len(),
        from <= i < from + zero_run(all, from) ==> all[i] == 0,
        from + zero_run(all, from) < all.len() ==> all[from + zero_run(all, from)] != 0,
    decreases all.len() - from,
{
    if from < all.len() && all[from] == 0 {
        a_run_of_zeros_reaches_as_far_as_it_can(all, from + 1, i);
    }
}

/// An address is written with its longest run of two or more zero groups left out, the
/// first of them where two are as long, and with every group where there is none.
pub proof fn the_longest_run_of_zeros_is_left_out(all: Seq<nat>, at: int)
    requires
        is_longest_run(all, at),
    ensures
        zero_run(all, at) < 2 ==> v6_text(all) == groups_text(all),
        zero_run(all, at) >= 2 ==> v6_text(all) == groups_text(all.take(at)) + "::"@ + groups_text(
            all.skip(at + zero_run(all, at)),
        ),
{
    let other = choose|other: int| is_longest_run(all, other);
    assert(zero_run(all, other) == zero_run(all, at));
    if other < at {
        assert(zero_run(all, other) < zero_run(all, at));
    } else if at < other {
        assert(zero_run(all, at) < zero_run(all, other));
    }
}

proof fn the_first_two_colons_are_found(text: Seq<char>, from: int, at: int)
    requires
        0 <= from,
        forall|i: int| from <= i < at ==> !(#[trigger] text[i] == ':' && text[i + 1] == ':'),
        from <= at,
        at + 1 < text.len() ==> text[at] == ':' && text[at + 1] == ':',
    ensures
        at + 1 < text.len() ==> double_colon(text, from) == Some(at),
        at + 1 >= text.len() ==> double_colon(text, from) is None,
    decreases at - from,
{
    if from < at && from + 1 < text.len() {
        assert(!(text[from] == ':' && text[from + 1] == ':'));
        the_first_two_colons_are_found(text, from + 1, at);
    }
}

/// An address without two colons is its eight groups; with two colons, zeros stand for
/// the groups that are missing between what stands before and behind them.
pub proof fn two_colons_stand_for_zeros(head: Seq<char>, tail: Seq<char>)
    requires
        forall|i: int|
            0 <= i < head.len() - 1 ==> !(#[trigger] head[i] == ':' && head[i + 1] == ':'),
    ensures
        v6_groups(head) is Some <==> side(head, true) is Some && side(head, true)->0.len() == 8,
        v6_groups(head) is Some ==> v6_groups(head) == side(head, true),
        head.len() == 0 || head.last() != ':' ==> {
            let text = head + seq![':', ':'] + tail;
            let before = side(head, false);
            let behind = side(tail, true);
            &&& v6_groups(text) is Some <==> before is Some && behind is Some && before->0.len()
                + behind->0.len() <= 7
            &&& v6_groups(text) is Some ==> {
                let all = v6_groups(text)->0;
                &&& all.len() == 8
                &&& all.take(before->0.len() as int) == before->0
                &&& all.skip(8 - behind->0.len()) == behind->0
                &&& forall|i: int|
                    before->0.len() <= i < 8 - behind->0.len() ==> #[trigger] all[i] == 0
            }
        },
{
    the_first_two_colons_are_found(
        head,
        0,
        if head.len() == 0 {
            0
        } else {
            head.len() - 1
        },
    );
    if head.len() == 0 || head.last() != ':' {
        let text = head + seq![':', ':'] + tail;
        let n: int = head.len() as int;
        assert(text[n] == ':' && text[n + 1] == ':');
        assert forall|i: int| 0 <= i < n implies !(#[trigger] text[i] == ':' && text[i + 1]
            == ':') by {
            assert(text[i] == head[i]);
            if i < n - 1 {
                assert(text[i + 1] == head[i + 1]);
            }
        }
        the_first_two_colons_are_found(text, 0, n);
        assert(text.take(n) =~= head);
        assert(text.skip(n + 2) =~= tail);
        if v6_groups(text) is Some {
            let all = v6_groups(text)->0;
            let before = side(head, false)->0;
            let behind = side(tail, true)->0;
            assert(all.take(before.len() as int) =~= before);
            assert(all.skip(8 - behind.len()) =~= behind);
        }
    }
}

/// Each part between colons is a group, and the last may be an address of IPv4, which
/// stands for two.
pub proof fn parts_are_read_one_by_one(parts: Seq<Seq<char>>, part: Seq<char>)
    ensures
        groups(Seq::empty(), false) == Some(Seq::<nat>::empty()),
        groups(parts.push(part), false) is Some <==> groups(parts, false) is Some && group(part) is
            Some,
        groups(parts.push(part), false) is Some ==> groups(parts.push(part), false)->0 == groups(
            parts,
            false,
        )->0.push(group(part)->0),
        v4_octets(part) is None ==> groups(parts.push(part), true) == groups(
            parts.push(part),
            false,
        ),
        v4_octets(part) is Some && groups(parts, false) is Some ==> {
            let o = v4_octets(part)->0;
            groups(parts.push(part), true) == Some(
                groups(parts, false)->0 + seq![o[0] * 256 + o[1], o[2] * 256 + o[3]],
            )
        },
{
    assert(parts.push(part).drop_last() =~= parts);
    if v4_octets(part) is Some && groups(parts, false) is Some {
        let o = v4_octets(part)->0;
        let front = groups(parts, false)->0;
        assert(front.push(o[0] * 256 + o[1]).push(o[2] * 256 + o[3]) =~= front + seq![
            o[0] * 256 + o[1],
            o[2] * 256 + o[3],
        ]);
    }
}

} // verus!
