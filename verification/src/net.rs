//! Internet addresses: their literals and their classes.

use crate::table::Key;
use crate::text::{chars_of, decimal, decimal_text, digit, is_digit, joined};
use vstd::prelude::*;

verus! {

/// An address, by its octets or by its groups of 16 bits.
#[derive(Clone, Copy, Debug, PartialEq, Eq, Hash)]
pub enum IpAddress {
    V4([u8; 4]),
    V6([u16; 8]),
}

impl Key for IpAddress {
    type Model = IpAddress;

    open spec fn model(&self) -> IpAddress {
        *self
    }

    fn same(&self, other: &Self) -> (r: bool) {
        let r: bool = match (self, other) {
            (IpAddress::V4(a), IpAddress::V4(b)) => a[0] == b[0] && a[1] == b[1] && a[2] == b[2]
                && a[3] == b[3],
            (IpAddress::V6(a), IpAddress::V6(b)) => a[0] == b[0] && a[1] == b[1] && a[2] == b[2]
                && a[3] == b[3] && a[4] == b[4] && a[5] == b[5] && a[6] == b[6] && a[7] == b[7],
            _ => false,
        };
        proof {
            match (*self, *other) {
                (IpAddress::V4(a), IpAddress::V4(b)) => {
                    assert(r == (a =~= b));
                },
                (IpAddress::V6(a), IpAddress::V6(b)) => {
                    assert(r == (a =~= b));
                },
                _ => {},
            }
            assert(self.model() == *self);
            assert(other.model() == *other);
            assert(r == (*self == *other));
        }
        r
    }
}

/// What an address says: four octets or eight groups.
pub enum IpModel {
    V4(Seq<nat>),
    V6(Seq<nat>),
}

impl View for IpAddress {
    type V = IpModel;

    open spec fn view(&self) -> IpModel {
        match *self {
            IpAddress::V4(v) => IpModel::V4(v@.map_values(|o: u8| o as nat)),
            IpAddress::V6(v) => IpModel::V6(v@.map_values(|g: u16| g as nat)),
        }
    }
}

/// Two addresses that say the same are the same.
pub proof fn ip_ext(a: IpAddress, b: IpAddress)
    ensures
        (a@ == b@) == (a == b),
{
    if a@ == b@ {
        match (a, b) {
            (IpAddress::V4(x), IpAddress::V4(y)) => {
                let p = x@.map_values(|o: u8| o as nat);
                let q = y@.map_values(|o: u8| o as nat);
                assert forall|i: int| 0 <= i < 4 implies x[i] == y[i] by {
                    assert(p[i] == q[i]);
                }
                assert(x =~= y);
            },
            (IpAddress::V6(x), IpAddress::V6(y)) => {
                let p = x@.map_values(|g: u16| g as nat);
                let q = y@.map_values(|g: u16| g as nat);
                assert forall|i: int| 0 <= i < 8 implies x[i] == y[i] by {
                    assert(p[i] == q[i]);
                }
                assert(x =~= y);
            },
            _ => {},
        }
    }
}

/// The parts of a text between the separators.
pub open spec fn split(text: Seq<char>, separator: char) -> Seq<Seq<char>>
    decreases text.len(),
{
    if text.len() == 0 {
        seq![Seq::empty()]
    } else {
        let parts = split(text.drop_last(), separator);
        if text.last() == separator {
            parts.push(Seq::empty())
        } else {
            parts.update(parts.len() - 1, parts.last().push(text.last()))
        }
    }
}

pub proof fn split_is_never_empty(text: Seq<char>, separator: char)
    ensures
        split(text, separator).len() > 0,
    decreases text.len(),
{
    if text.len() > 0 {
        split_is_never_empty(text.drop_last(), separator);
    }
}

pub open spec fn parts_of(parts: Seq<Vec<char>>) -> Seq<Seq<char>> {
    parts.map_values(|part: Vec<char>| part@)
}

/// Splits the characters `from..to` at each separator.
pub fn split_chars(chars: &Vec<char>, from: usize, to: usize, separator: char) -> (r: Vec<
    Vec<char>,
>)
    requires
        from <= to <= chars@.len(),
    ensures
        parts_of(r@) == split(chars@.subrange(from as int, to as int), separator),
{
    let mut done: Vec<Vec<char>> = Vec::new();
    let mut part: Vec<char> = Vec::new();
    let mut i: usize = from;
    assert(parts_of(done@.push(part)) =~= split(chars@.subrange(from as int, i as int), separator));
    while i < to
        invariant
            from <= i <= to <= chars@.len(),
            parts_of(done@).push(part@) == split(
                chars@.subrange(from as int, i as int),
                separator,
            ),
        decreases to - i,
    {
        let c: char = chars[i];
        let ghost text = chars@.subrange(from as int, i + 1);
        assert(text.drop_last() =~= chars@.subrange(from as int, i as int));
        if c == separator {
            let ghost was = parts_of(done@).push(part@);
            done.push(part);
            part = Vec::new();
            assert(parts_of(done@) =~= was);
            assert(parts_of(done@).push(part@) =~= split(text, separator));
        } else {
            part.push(c);
            assert(parts_of(done@).push(part@) =~= split(text, separator));
        }
        i += 1;
    }
    done.push(part);
    assert(parts_of(done@) =~= split(chars@.subrange(from as int, to as int), separator));
    done
}

/// The value of a digit in base 16.
pub open spec fn hex_digit(c: char) -> Option<nat> {
    if is_digit(c) {
        Some((c as nat - '0' as nat) as nat)
    } else if 'a' <= c <= 'f' {
        Some((c as nat - 'a' as nat + 10) as nat)
    } else if 'A' <= c <= 'F' {
        Some((c as nat - 'A' as nat + 10) as nat)
    } else {
        None
    }
}

pub fn hex_value(c: char) -> (r: Option<u8>)
    ensures
        match r {
            Some(v) => hex_digit(c) == Some(v as nat) && v < 16,
            None => hex_digit(c) is None,
        },
{
    if digit(c) {
        Some((c as u8) - 48)
    } else if 'a' <= c && c <= 'f' {
        Some((c as u8) - 87)
    } else if 'A' <= c && c <= 'F' {
        Some((c as u8) - 55)
    } else {
        None
    }
}

/// The number that a text of digits spells in a base, if each is a digit of it.
pub open spec fn number(text: Seq<char>, base: nat) -> Option<nat>
    decreases text.len(),
{
    if text.len() == 0 {
        Some(0)
    } else {
        match (number(text.drop_last(), base), hex_digit(text.last())) {
            (Some(front), Some(last)) if last < base => Some(front * base + last),
            _ => None,
        }
    }
}

/// One of the four numbers of an IPv4 literal: at most three digits, no leading
/// zero, below 256.
pub open spec fn octet(text: Seq<char>) -> Option<nat> {
    match number(text, 10) {
        Some(n) if 0 < text.len() <= 3 && (text[0] == '0' ==> text.len() == 1) && n < 256 => Some(n),
        _ => None,
    }
}

/// One group of an IPv6 literal: one to four hexadecimal digits.
pub open spec fn group(text: Seq<char>) -> Option<nat> {
    match number(text, 16) {
        Some(n) if 0 < text.len() <= 4 => Some(n),
        _ => None,
    }
}

/// The four octets of an IPv4 literal.
pub open spec fn v4_octets(text: Seq<char>) -> Option<Seq<nat>> {
    let parts = split(text, '.');
    if parts.len() == 4 && octet(parts[0]) is Some && octet(parts[1]) is Some && octet(
        parts[2],
    ) is Some && octet(parts[3]) is Some {
        Some(seq![octet(parts[0])->0, octet(parts[1])->0, octet(parts[2])->0, octet(parts[3])->0])
    } else {
        None
    }
}

/// The groups that the parts of an IPv6 literal stand for. Where `tail` holds,
/// the last part may be an IPv4 literal, which stands for two groups.
pub open spec fn groups(parts: Seq<Seq<char>>, tail: bool) -> Option<Seq<nat>>
    decreases parts.len(),
{
    if parts.len() == 0 {
        Some(Seq::empty())
    } else {
        match groups(parts.drop_last(), false) {
            None => None,
            Some(front) => {
                let last = parts.last();
                if tail && v4_octets(last) is Some {
                    let o = v4_octets(last)->0;
                    Some(front.push(o[0] * 256 + o[1]).push(o[2] * 256 + o[3]))
                } else if group(last) is Some {
                    Some(front.push(group(last)->0))
                } else {
                    None
                }
            },
        }
    }
}

/// The groups of one side of the double colon, or of a whole literal.
pub open spec fn side(text: Seq<char>, tail: bool) -> Option<Seq<nat>> {
    if text.len() == 0 {
        Some(Seq::empty())
    } else {
        groups(split(text, ':'), tail)
    }
}

/// The place of the first double colon from `from` on.
pub open spec fn double_colon(text: Seq<char>, from: int) -> Option<int>
    decreases text.len() - from,
{
    if from < 0 || from + 1 >= text.len() {
        None
    } else if text[from] == ':' && text[from + 1] == ':' {
        Some(from)
    } else {
        double_colon(text, from + 1)
    }
}

/// The eight groups of an IPv6 literal. A double colon stands for one or more
/// groups of zero.
pub open spec fn v6_groups(text: Seq<char>) -> Option<Seq<nat>> {
    match double_colon(text, 0) {
        None => match side(text, true) {
            Some(all) if all.len() == 8 => Some(all),
            _ => None,
        },
        Some(at) => match (side(text.take(at), false), side(text.skip(at + 2), true)) {
            (Some(head), Some(tail)) if head.len() + tail.len() <= 7 => Some(
                head + Seq::new((8 - head.len() - tail.len()) as nat, |i: int| 0) + tail,
            ),
            _ => None,
        },
    }
}

/// The address that a literal spells.
pub open spec fn ip_literal(text: Seq<char>) -> Option<IpModel> {
    match v4_octets(text) {
        Some(octets) => Some(IpModel::V4(octets)),
        None => match v6_groups(text) {
            Some(all) => Some(IpModel::V6(all)),
            None => None,
        },
    }
}

/// The value of a text of at most four digits in a base.
fn read_number(text: &Vec<char>, base: u32) -> (r: Option<u32>)
    requires
        text@.len() <= 4,
        base == 10 || base == 16,
    ensures
        match r {
            Some(n) => number(text@, base as nat) == Some(n as nat) && n < 65536,
            None => number(text@, base as nat) is None,
        },
{
    let mut n: u32 = 0;
    let mut i: usize = 0;
    assert(text@.take(0) =~= Seq::<char>::empty());
    while i < text.len()
        invariant
            i <= text@.len() <= 4,
            base == 10 || base == 16,
            number(text@.take(i as int), base as nat) == Some(n as nat),
            i == 0 ==> n == 0,
            i == 1 ==> n < 16,
            i == 2 ==> n < 256,
            i == 3 ==> n < 4096,
            i == 4 ==> n < 65536,
        decreases text@.len() - i,
    {
        assert(text@.take(i + 1).drop_last() =~= text@.take(i as int));
        match hex_value(text[i]) {
            Some(v) if (v as u32) < base => {
                assert(n * base <= n * 16) by (nonlinear_arith)
                    requires
                        base <= 16,
                ;
                n = n * base + v as u32;
            },
            _ => {
                proof {
                    number_fails_after(text@, i + 1, base as nat);
                }
                return None;
            },
        }
        i += 1;
    }
    assert(text@.take(i as int) =~= text@);
    Some(n)
}

proof fn number_fails_after(text: Seq<char>, i: int, base: nat)
    requires
        0 <= i <= text.len(),
        number(text.take(i), base) is None,
    ensures
        number(text, base) is None,
    decreases text.len() - i,
{
    if i < text.len() {
        assert(text.take(i + 1).drop_last() =~= text.take(i));
        number_fails_after(text, i + 1, base);
    } else {
        assert(text.take(i) =~= text);
    }
}

fn read_octet(text: &Vec<char>) -> (r: Option<u8>)
    ensures
        match r {
            Some(n) => octet(text@) == Some(n as nat),
            None => octet(text@) is None,
        },
{
    if text.len() == 0 || text.len() > 3 || (text[0] == '0' && text.len() != 1) {
        return None;
    }
    match read_number(text, 10) {
        Some(n) if n < 256 => Some(n as u8),
        _ => None,
    }
}

fn read_group(text: &Vec<char>) -> (r: Option<u16>)
    ensures
        match r {
            Some(n) => group(text@) == Some(n as nat),
            None => group(text@) is None,
        },
{
    if text.len() == 0 || text.len() > 4 {
        return None;
    }
    match read_number(text, 16) {
        Some(n) => Some(n as u16),
        None => None,
    }
}

fn read_v4(chars: &Vec<char>) -> (r: Option<[u8; 4]>)
    ensures
        match r {
            Some(v) => v4_octets(chars@) == Some(v@.map_values(|o: u8| o as nat)),
            None => v4_octets(chars@) is None,
        },
{
    assert(chars@.subrange(0, chars@.len() as int) =~= chars@);
    let parts: Vec<Vec<char>> = split_chars(chars, 0, chars.len(), '.');
    assert(parts_of(parts@).len() == parts@.len());
    if parts.len() != 4 {
        return None;
    }
    assert(forall|k: int| 0 <= k < 4 ==> #[trigger] parts_of(parts@)[k] == parts@[k]@);
    match (
        read_octet(&parts[0]),
        read_octet(&parts[1]),
        read_octet(&parts[2]),
        read_octet(&parts[3]),
    ) {
        (Some(a), Some(b), Some(c), Some(d)) => {
            let v: [u8; 4] = [a, b, c, d];
            assert(v@.map_values(|o: u8| o as nat) =~= seq![
                a as nat,
                b as nat,
                c as nat,
                d as nat,
            ]);
            Some(v)
        },
        _ => None,
    }
}

pub open spec fn nats(list: Seq<u16>) -> Seq<nat> {
    list.map_values(|g: u16| g as nat)
}

proof fn groups_fail_after(parts: Seq<Seq<char>>, i: int, tail: bool)
    requires
        0 <= i < parts.len(),
        groups(parts.take(i), false) is None,
    ensures
        groups(parts, tail) is None,
    decreases parts.len() - i,
{
    if i + 1 < parts.len() {
        assert(parts.take(i + 1).drop_last() =~= parts.take(i));
        groups_fail_after(parts, i + 1, tail);
    } else {
        assert(parts.drop_last() =~= parts.take(i));
    }
}

/// The groups of the characters `from..to`.
#[verifier::loop_isolation(false)]
fn read_side(chars: &Vec<char>, from: usize, to: usize, tail: bool) -> (r: Option<Vec<u16>>)
    requires
        from <= to <= chars@.len(),
    ensures
        match r {
            Some(list) => side(chars@.subrange(from as int, to as int), tail) == Some(nats(list@)),
            None => side(chars@.subrange(from as int, to as int), tail) is None,
        },
{
    let ghost text = chars@.subrange(from as int, to as int);
    let mut list: Vec<u16> = Vec::new();
    assert(nats(list@) =~= Seq::<nat>::empty());
    if from == to {
        return Some(list);
    }
    let parts: Vec<Vec<char>> = split_chars(chars, from, to, ':');
    let ghost all = parts_of(parts@);
    proof {
        split_is_never_empty(text, ':');
    }
    assert(all.len() == parts@.len());
    let last: usize = parts.len() - 1;
    let mut i: usize = 0;
    assert(all.take(0) =~= Seq::<Seq<char>>::empty());
    while i < last
        invariant
            i <= last,
            groups(all.take(i as int), false) == Some(nats(list@)),
        decreases last - i,
    {
        assert(all[i as int] == parts@[i as int]@);
        assert(all.take(i + 1).drop_last() =~= all.take(i as int));
        match read_group(&parts[i]) {
            Some(g) => {
                let ghost was = nats(list@);
                list.push(g);
                assert(nats(list@) =~= was.push(g as nat));
            },
            None => {
                proof {
                    groups_fail_after(all, i + 1, tail);
                }
                return None;
            },
        }
        i += 1;
    }
    assert(all.drop_last() =~= all.take(last as int));
    assert(all.last() == parts@[last as int]@);
    let ghost front = nats(list@);
    if tail {
        if let Some(v) = read_v4(&parts[last]) {
            let high: u16 = (v[0] as u16) * 256 + v[1] as u16;
            let low: u16 = (v[2] as u16) * 256 + v[3] as u16;
            list.push(high);
            list.push(low);
            let ghost o = v@.map_values(|o: u8| o as nat);
            assert(o[0] == v[0] && o[1] == v[1] && o[2] == v[2] && o[3] == v[3]);
            assert(nats(list@) =~= front.push(high as nat).push(low as nat));
            return Some(list);
        }
    }
    match read_group(&parts[last]) {
        Some(g) => {
            list.push(g);
            assert(nats(list@) =~= front.push(g as nat));
            Some(list)
        },
        None => None,
    }
}

fn find_double_colon(chars: &Vec<char>) -> (r: Option<usize>)
    ensures
        match r {
            Some(at) => double_colon(chars@, 0) == Some(at as int) && at + 2 <= chars@.len(),
            None => double_colon(chars@, 0) is None,
        },
{
    let mut i: usize = 0;
    while i < chars.len() && i + 1 < chars.len()
        invariant
            i <= chars@.len(),
            double_colon(chars@, 0) == double_colon(chars@, i as int),
        decreases chars@.len() - i,
    {
        if chars[i] == ':' && chars[i + 1] == ':' {
            return Some(i);
        }
        i += 1;
    }
    None
}

fn read_v6(chars: &Vec<char>) -> (r: Option<[u16; 8]>)
    ensures
        match r {
            Some(v) => v6_groups(chars@) == Some(nats(v@)),
            None => v6_groups(chars@) is None,
        },
{
    let n: usize = chars.len();
    let mut v: [u16; 8] = [0, 0, 0, 0, 0, 0, 0, 0];
    match find_double_colon(chars) {
        None => {
            assert(chars@.subrange(0, n as int) =~= chars@);
            match read_side(chars, 0, n, true) {
                Some(list) if list.len() == 8 => {
                    v = [list[0], list[1], list[2], list[3], list[4], list[5], list[6], list[7]];
                    assert(nats(v@) =~= nats(list@));
                    Some(v)
                },
                _ => None,
            }
        },
        Some(at) => {
            assert(chars@.subrange(0, at as int) =~= chars@.take(at as int));
            assert(chars@.subrange(at + 2, n as int) =~= chars@.skip(at + 2));
            let head: Vec<u16> = match read_side(chars, 0, at, false) {
                Some(list) => list,
                None => {
                    return None;
                },
            };
            let tail: Vec<u16> = match read_side(chars, at + 2, n, true) {
                Some(list) => list,
                None => {
                    return None;
                },
            };
            if head.len() > 7 || tail.len() > 7 || head.len() + tail.len() > 7 {
                return None;
            }
            let zeros: usize = 8 - head.len() - tail.len();
            let mut i: usize = 0;
            while i < 8
                invariant
                    i <= 8,
                    zeros == 8 - head@.len() - tail@.len(),
                    head@.len() + tail@.len() <= 7,
                    forall|k: int|
                        0 <= k < i ==> #[trigger] v@[k] == if k < head@.len() {
                            head@[k]
                        } else if k < head@.len() + zeros {
                            0
                        } else {
                            tail@[k - head@.len() - zeros]
                        },
                decreases 8 - i,
            {
                if i < head.len() {
                    v[i] = head[i];
                } else if i < head.len() + zeros {
                    v[i] = 0;
                } else {
                    v[i] = tail[i - head.len() - zeros];
                }
                i += 1;
            }
            assert(nats(v@) =~= nats(head@) + Seq::new(zeros as nat, |i: int| 0nat) + nats(tail@));
            Some(v)
        },
    }
}

/// Reads an address literal. There are no zones and no prefixes.
pub fn parse_ip(text: &str) -> (r: Option<IpAddress>)
    ensures
        match r {
            Some(ip) => ip_literal(text@) == Some(ip@),
            None => ip_literal(text@) is None,
        },
{
    let chars: Vec<char> = chars_of(text);
    if let Some(v) = read_v4(&chars) {
        return Some(IpAddress::V4(v));
    }
    match read_v6(&chars) {
        Some(v) => Some(IpAddress::V6(v)),
        None => None,
    }
}

/// Whether the text is an IPv4 literal.
pub fn is_v4_literal(text: &str) -> (r: bool)
    ensures
        r == (v4_octets(text@) is Some),
{
    read_v4(&chars_of(text)).is_some()
}

impl IpModel {
    /// An IPv6 address that stands for an IPv4 address.
    pub open spec fn is_mapped(self) -> bool {
        self matches IpModel::V6(g) && g[0] == 0 && g[1] == 0 && g[2] == 0 && g[3] == 0 && g[4] == 0
            && g[5] == 0xffff
    }

    /// The IPv4 address that a mapped address stands for; any other address as
    /// it is.
    pub open spec fn unmapped(self) -> IpModel {
        match self {
            IpModel::V6(g) if self.is_mapped() => IpModel::V4(
                seq![g[6] / 256, g[6] % 256, g[7] / 256, g[7] % 256],
            ),
            _ => self,
        }
    }

    pub open spec fn is_unspecified(self) -> bool {
        match self {
            IpModel::V4(o) => o == seq![0nat, 0, 0, 0],
            IpModel::V6(g) => g == seq![0nat, 0, 0, 0, 0, 0, 0, 0],
        }
    }

    pub open spec fn is_multicast(self) -> bool {
        match self {
            IpModel::V4(o) => 224 <= o[0] <= 239,
            IpModel::V6(g) => g[0] >= 0xff00,
        }
    }

    pub open spec fn is_loopback(self) -> bool {
        match self {
            IpModel::V4(o) => o[0] == 127,
            IpModel::V6(g) => g == seq![0nat, 0, 0, 0, 0, 0, 0, 1],
        }
    }

    /// The IPv4 addresses that are no target of their own: the broadcast
    /// address, link-local addresses and network zero.
    pub open spec fn is_v4_special(self) -> bool {
        self matches IpModel::V4(o) && (o == seq![255nat, 255, 255, 255] || (o[0] == 169 && o[1]
            == 254) || o[0] == 0)
    }

    /// An IPv6 unicast address that is good on one link only.
    pub open spec fn is_v6_link_local(self) -> bool {
        self matches IpModel::V6(g) && 0xfe80 <= g[0] <= 0xfebf
    }

    /// A private IPv4 address or a unique local IPv6 address.
    pub open spec fn is_lan(self) -> bool {
        match self {
            IpModel::V4(o) => o[0] == 10 || (o[0] == 172 && 16 <= o[1] <= 31) || (o[0] == 192
                && o[1] == 168),
            IpModel::V6(g) => 0xfc00 <= g[0] <= 0xfdff,
        }
    }

    /// The address under which quotas are kept: IPv4 addresses one by one,
    /// IPv6 addresses by their first 64 bits.
    pub open spec fn quota_key(self) -> IpModel {
        match self.unmapped() {
            IpModel::V6(g) => IpModel::V6(seq![g[0], g[1], g[2], g[3], 0, 0, 0, 0]),
            v4 => v4,
        }
    }
}

impl IpAddress {
    pub fn unmapped(&self) -> (r: IpAddress)
        ensures
            r@ == self@.unmapped(),
    {
        match self {
            IpAddress::V6(g) => {
                let ghost m = g@.map_values(|g: u16| g as nat);
                assert(forall|i: int| 0 <= i < 8 ==> #[trigger] m[i] == g[i] as nat);
                if g[0] == 0 && g[1] == 0 && g[2] == 0 && g[3] == 0 && g[4] == 0 && g[5] == 0xffff {
                    let v: [u8; 4] = [
                        (g[6] / 256) as u8,
                        (g[6] % 256) as u8,
                        (g[7] / 256) as u8,
                        (g[7] % 256) as u8,
                    ];
                    let r = IpAddress::V4(v);
                    assert(v@.map_values(|o: u8| o as nat) =~= seq![
                        m[6] / 256,
                        m[6] % 256,
                        m[7] / 256,
                        m[7] % 256,
                    ]);
                    r
                } else {
                    *self
                }
            },
            IpAddress::V4(_) => *self,
        }
    }

    pub fn is_unspecified(&self) -> (r: bool)
        ensures
            r == self@.is_unspecified(),
    {
        let zero = match self {
            IpAddress::V4(_) => IpAddress::V4([0, 0, 0, 0]),
            IpAddress::V6(_) => IpAddress::V6([0, 0, 0, 0, 0, 0, 0, 0]),
        };
        proof {
            ip_ext(*self, zero);
            match zero {
                IpAddress::V4(v) => assert(v@.map_values(|o: u8| o as nat) =~= seq![0nat, 0, 0, 0]),
                IpAddress::V6(v) => assert(v@.map_values(|g: u16| g as nat) =~= seq![
                    0nat,
                    0,
                    0,
                    0,
                    0,
                    0,
                    0,
                    0,
                ]),
            }
        }
        self.same(&zero)
    }

    pub fn is_multicast(&self) -> (r: bool)
        ensures
            r == self@.is_multicast(),
    {
        match self {
            IpAddress::V4(o) => 224 <= o[0] && o[0] <= 239,
            IpAddress::V6(g) => g[0] >= 0xff00,
        }
    }

    pub fn is_loopback(&self) -> (r: bool)
        ensures
            r == self@.is_loopback(),
    {
        match self {
            IpAddress::V4(o) => o[0] == 127,
            IpAddress::V6(_) => {
                let one = IpAddress::V6([0, 0, 0, 0, 0, 0, 0, 1]);
                proof {
                    ip_ext(*self, one);
                    assert(one@->V6_0 =~= seq![0nat, 0, 0, 0, 0, 0, 0, 1]);
                }
                self.same(&one)
            },
        }
    }

    pub fn is_v4_special(&self) -> (r: bool)
        ensures
            r == self@.is_v4_special(),
    {
        match self {
            IpAddress::V4(o) => {
                let all = IpAddress::V4([255, 255, 255, 255]);
                proof {
                    ip_ext(*self, all);
                    assert(all@->V4_0 =~= seq![255nat, 255, 255, 255]);
                }
                self.same(&all) || (o[0] == 169 && o[1] == 254) || o[0] == 0
            },
            IpAddress::V6(_) => false,
        }
    }

    pub fn is_v6_link_local(&self) -> (r: bool)
        ensures
            r == self@.is_v6_link_local(),
    {
        match self {
            IpAddress::V4(_) => false,
            IpAddress::V6(g) => 0xfe80 <= g[0] && g[0] <= 0xfebf,
        }
    }
}

pub fn is_lan_ip(ip: &IpAddress) -> (r: bool)
    ensures
        r == ip@.is_lan(),
{
    match ip {
        IpAddress::V4(o) => o[0] == 10 || (o[0] == 172 && 16 <= o[1] && o[1] <= 31) || (o[0] == 192
            && o[1] == 168),
        IpAddress::V6(g) => 0xfc00 <= g[0] && g[0] <= 0xfdff,
    }
}

/// The address under which the quotas of a peer are kept.
pub open spec fn quota_address(ip: IpAddress) -> IpAddress {
    choose|key: IpAddress| key@ == ip@.quota_key()
}

/// There is no other address that says the same.
pub proof fn quota_address_is(ip: IpAddress, key: IpAddress)
    requires
        key@ == ip@.quota_key(),
    ensures
        quota_address(ip) == key,
{
    ip_ext(quota_address(ip), key);
}

/// The address under which a peer's quotas are kept.
pub fn normalize_ip(ip: IpAddress) -> (r: IpAddress)
    ensures
        r@ == ip@.quota_key(),
        r == quota_address(ip),
{
    let key: IpAddress = quota_form(ip);
    proof {
        quota_address_is(ip, key);
    }
    key
}

fn quota_form(ip: IpAddress) -> (r: IpAddress)
    ensures
        r@ == ip@.quota_key(),
{
    let plain: IpAddress = ip.unmapped();
    match plain {
        IpAddress::V6(g) => {
            let v: [u16; 8] = [g[0], g[1], g[2], g[3], 0, 0, 0, 0];
            let ghost m = plain@->V6_0;
            assert(v@.map_values(|g: u16| g as nat) =~= seq![m[0], m[1], m[2], m[3], 0, 0, 0, 0]);
            IpAddress::V6(v)
        },
        IpAddress::V4(_) => plain,
    }
}

/// A quota key is its own quota key.
pub proof fn quota_keys_are_stable(ip: IpAddress)
    ensures
        ip@.quota_key().quota_key() == ip@.quota_key(),
{
    match ip@.unmapped() {
        IpModel::V6(g) => {
            let k = seq![g[0], g[1], g[2], g[3], 0, 0, 0, 0];
            assert(seq![k[0], k[1], k[2], k[3], 0, 0, 0, 0] =~= k);
        },
        IpModel::V4(_) => {},
    }
}

/// All addresses of one IPv6 network of 64 bits share one quota key.
pub proof fn one_network_shares_a_quota_key(a: IpAddress, b: IpAddress)
    requires
        a@ is V6,
        b@ is V6,
        !a@.is_mapped(),
        !b@.is_mapped(),
        forall|i: int| 0 <= i < 4 ==> #[trigger] a@->V6_0[i] == b@->V6_0[i],
    ensures
        a@.quota_key() == b@.quota_key(),
{
}

/// A mapped address shares the quota key of the IPv4 address that it stands for.
pub proof fn a_mapped_address_shares_the_v4_quota_key(ip: IpAddress)
    requires
        ip@.is_mapped(),
    ensures
        ip@.unmapped() is V4,
        ip@.quota_key() == ip@.unmapped().quota_key(),
{
}

/// The small hexadecimal digits of a number, without leading zeros.
pub open spec fn hex_number(n: nat) -> Seq<char>
    decreases n,
{
    let last = crate::crypto::hex_char(n % 16);
    if n < 16 {
        seq![last]
    } else {
        hex_number(n / 16).push(last)
    }
}

fn hex_group(n: u16) -> (r: String)
    ensures
        r@ == hex_number(n as nat),
    decreases n,
{
    let v: u8 = (n % 16) as u8;
    let last: char = if v < 10 {
        (48 + v) as char
    } else {
        (87 + v) as char
    };
    let mut out: String = if n < 16 {
        String::new()
    } else {
        hex_group(n / 16)
    };
    out.push(last);
    assert(out@ =~= hex_number(n as nat));
    out
}

/// The text of an IPv4 address.
pub open spec fn v4_text(octets: Seq<nat>) -> Seq<char> {
    decimal(octets[0]) + "."@ + decimal(octets[1]) + "."@ + decimal(octets[2]) + "."@ + decimal(
        octets[3],
    )
}

/// Groups with colons between them.
pub open spec fn groups_text(groups: Seq<nat>) -> Seq<char>
    decreases groups.len(),
{
    if groups.len() == 0 {
        Seq::empty()
    } else if groups.len() == 1 {
        hex_number(groups[0])
    } else {
        groups_text(groups.drop_last()) + ":"@ + hex_number(groups.last())
    }
}

/// The number of groups of zero from a place on.
pub open spec fn zero_run(groups: Seq<nat>, from: int) -> nat
    decreases groups.len() - from,
{
    if from < 0 || from >= groups.len() || groups[from] != 0 {
        0
    } else {
        1 + zero_run(groups, from + 1)
    }
}

/// The place is the first of the longest runs of groups of zero.
pub open spec fn is_longest_run(groups: Seq<nat>, at: int) -> bool {
    &&& 0 <= at < groups.len()
    &&& forall|i: int| 0 <= i < groups.len() ==> #[trigger] zero_run(groups, i) <= zero_run(groups, at)
    &&& forall|i: int| 0 <= i < at ==> #[trigger] zero_run(groups, i) < zero_run(groups, at)
}

/// The text of an IPv6 address: the first longest run of two or more groups of
/// zero is left out.
pub open spec fn v6_text(groups: Seq<nat>) -> Seq<char> {
    let at = choose|at: int| is_longest_run(groups, at);
    let n = zero_run(groups, at);
    if n < 2 {
        groups_text(groups)
    } else {
        groups_text(groups.take(at)) + "::"@ + groups_text(groups.skip(at + n))
    }
}

impl IpModel {
    /// The text of an address. A mapped address shows the IPv4 address that it
    /// stands for.
    pub open spec fn text(self) -> Seq<char> {
        match self {
            IpModel::V4(octets) => v4_text(octets),
            IpModel::V6(groups) => if self.is_mapped() {
                "::ffff:"@ + v4_text(self.unmapped()->V4_0)
            } else {
                v6_text(groups)
            },
        }
    }
}

fn write_v4(o: &[u8; 4]) -> (r: String)
    ensures
        r@ == v4_text(o@.map_values(|o: u8| o as nat)),
{
    let ghost m = o@.map_values(|o: u8| o as nat);
    assert(m[0] == o[0] && m[1] == o[1] && m[2] == o[2] && m[3] == o[3]);
    let mut out: String = decimal_text(o[0] as u64);
    out.append(".");
    out.append(&decimal_text(o[1] as u64));
    out.append(".");
    out.append(&decimal_text(o[2] as u64));
    out.append(".");
    out.append(&decimal_text(o[3] as u64));
    out
}

#[verifier::loop_isolation(false)]
fn write_groups(g: &[u16; 8], from: usize, to: usize) -> (r: String)
    requires
        from <= to <= 8,
    ensures
        r@ == groups_text(nats(g@).subrange(from as int, to as int)),
{
    let ghost all = nats(g@);
    let mut out: String = String::new();
    let mut i: usize = from;
    assert(all.subrange(from as int, from as int) =~= Seq::<nat>::empty());
    while i < to
        invariant
            from <= i <= to,
            out@ == groups_text(all.subrange(from as int, i as int)),
        decreases to - i,
    {
        let ghost more = all.subrange(from as int, i + 1);
        assert(more.drop_last() =~= all.subrange(from as int, i as int));
        assert(more.last() == g[i as int] as nat);
        if i > from {
            out.append(":");
        }
        out.append(&hex_group(g[i]));
        assert(out@ =~= groups_text(more));
        i += 1;
    }
    out
}

fn run_from(g: &[u16; 8], from: usize) -> (r: usize)
    requires
        from <= 8,
    ensures
        r == zero_run(nats(g@), from as int),
        from + r <= 8,
    decreases 8 - from,
{
    assert(nats(g@).len() == 8);
    if from >= 8 {
        return 0;
    }
    assert(nats(g@)[from as int] == g[from as int] as nat);
    if g[from] != 0 {
        0
    } else {
        1 + run_from(g, from + 1)
    }
}

proof fn longest_run_is_one(groups: Seq<nat>, a: int, b: int)
    requires
        is_longest_run(groups, a),
        is_longest_run(groups, b),
    ensures
        a == b,
{
    assert(zero_run(groups, a) <= zero_run(groups, b));
    assert(zero_run(groups, b) <= zero_run(groups, a));
    if a < b {
        assert(zero_run(groups, a) < zero_run(groups, b));
    }
    if b < a {
        assert(zero_run(groups, b) < zero_run(groups, a));
    }
}

#[verifier::loop_isolation(false)]
fn write_v6(g: &[u16; 8]) -> (r: String)
    ensures
        r@ == v6_text(nats(g@)),
{
    let ghost all = nats(g@);
    let mut at: usize = 0;
    let mut best: usize = run_from(g, 0);
    let mut i: usize = 1;
    while i < 8
        invariant
            1 <= i <= 8,
            at < i,
            best == zero_run(all, at as int),
            at + best <= 8,
            forall|k: int| 0 <= k < i ==> #[trigger] zero_run(all, k) <= best,
            forall|k: int| 0 <= k < at ==> #[trigger] zero_run(all, k) < best,
        decreases 8 - i,
    {
        let n: usize = run_from(g, i);
        if n > best {
            at = i;
            best = n;
        }
        i += 1;
    }
    assert(is_longest_run(all, at as int));
    proof {
        let chosen = choose|at: int| is_longest_run(all, at);
        longest_run_is_one(all, chosen, at as int);
    }
    if best < 2 {
        assert(all.subrange(0, 8) =~= all);
        return write_groups(g, 0, 8);
    }
    assert(all.subrange(0, at as int) =~= all.take(at as int));
    assert(all.subrange(at + best, 8) =~= all.skip(at + best));
    let mut out: String = write_groups(g, 0, at);
    out.append("::");
    out.append(&write_groups(g, at + best, 8));
    out
}

/// The text of an address.
pub fn ip_text(ip: &IpAddress) -> (r: String)
    ensures
        r@ == ip@.text(),
{
    match ip {
        IpAddress::V4(o) => write_v4(o),
        IpAddress::V6(g) => {
            let plain: IpAddress = ip.unmapped();
            match &plain {
                IpAddress::V4(o) => joined("::ffff:", &write_v4(o)),
                IpAddress::V6(_) => {
                    write_v6(g)
                },
            }
        },
    }
}

} // verus!
