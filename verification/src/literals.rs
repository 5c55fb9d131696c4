//! Addresses and numbers read back from their texts.

use crate::crypto::hex_char;
use crate::net::{
    double_colon, group, groups, groups_text, hex_digit, hex_number, ip_literal, is_longest_run,
    number, octet, side, split, v4_octets, v4_text, v6_groups, v6_text, zero_run, IpModel,
};
use crate::text::{decimal, is_digit, is_white_space, trimmed};
use vstd::prelude::*;

verus! {

proof fn split_plain(text: Seq<char>, separator: char)
    requires
        forall|i: int| 0 <= i < text.len() ==> #[trigger] text[i] != separator,
    ensures
        split(text, separator) == seq![text],
    decreases text.len(),
{
    if text.len() > 0 {
        let front = text.drop_last();
        assert forall|i: int| 0 <= i < front.len() implies #[trigger] front[i] != separator by {
            assert(front[i] == text[i]);
        }
        split_plain(front, separator);
        assert(front.push(text.last()) =~= text);
        assert(split(text, separator) =~= seq![text]);
    } else {
        assert(text =~= Seq::<char>::empty());
    }
}

proof fn split_joined(first: Seq<char>, second: Seq<char>, separator: char)
    requires
        forall|i: int| 0 <= i < second.len() ==> #[trigger] second[i] != separator,
    ensures
        split(first.push(separator) + second, separator) == split(first, separator).push(second),
    decreases second.len(),
{
    let whole = first.push(separator) + second;
    if second.len() == 0 {
        assert(whole.drop_last() =~= first);
        assert(second =~= Seq::<char>::empty());
    } else {
        let front = second.drop_last();
        assert forall|i: int| 0 <= i < front.len() implies #[trigger] front[i] != separator by {
            assert(front[i] == second[i]);
        }
        split_joined(first, front, separator);
        assert(whole.drop_last() =~= first.push(separator) + front);
        assert(whole.last() == second.last());
        assert(second[second.len() - 1] != separator);
        assert(front.push(second.last()) =~= second);
        assert(split(whole, separator) =~= split(first, separator).push(second));
    }
}

/// The decimal digits of a number spell it.
pub proof fn decimal_reads_back(n: nat)
    ensures
        number(decimal(n), 10) == Some(n),
        decimal(n).len() > 0,
        forall|i: int| 0 <= i < decimal(n).len() ==> is_digit(#[trigger] decimal(n)[i]),
        decimal(n)[0] == '0' ==> n == 0,
        n < 10 ==> decimal(n).len() == 1,
        n < 100 ==> decimal(n).len() <= 2,
        n < 1000 ==> decimal(n).len() <= 3,
    decreases n,
{
    let text = decimal(n);
    if n >= 10 {
        decimal_reads_back(n / 10);
        assert(text.drop_last() =~= decimal(n / 10));
        assert(n == n / 10 * 10 + n % 10);
        assert(text[0] == decimal(n / 10)[0]);
    } else {
        assert(text.drop_last() =~= Seq::<char>::empty());
        assert(number(text.drop_last(), 10) == Some(0nat));
    }
    assert(hex_digit(text.last()) == Some(n % 10));
}

/// The hexadecimal digits of a number spell it.
proof fn hexadecimal_reads_back(n: nat)
    ensures
        number(hex_number(n), 16) == Some(n),
        hex_number(n).len() > 0,
        forall|i: int|
            0 <= i < hex_number(n).len() ==> #[trigger] hex_number(n)[i] != ':' && hex_number(n)[i]
                != '.' && !is_white_space(hex_number(n)[i]),
        n < 16 ==> hex_number(n).len() == 1,
        n < 256 ==> hex_number(n).len() <= 2,
        n < 4096 ==> hex_number(n).len() <= 3,
        n < 65536 ==> hex_number(n).len() <= 4,
    decreases n,
{
    let text = hex_number(n);
    let last = hex_char(n % 16);
    assert(hex_digit(last) == Some(n % 16) && last != ':' && last != '.' && !is_white_space(last));
    if n >= 16 {
        hexadecimal_reads_back(n / 16);
        assert(text.drop_last() =~= hex_number(n / 16));
        assert(n == n / 16 * 16 + n % 16);
    } else {
        assert(text.drop_last() =~= Seq::<char>::empty());
        assert(number(text.drop_last(), 16) == Some(0nat));
    }
}

proof fn octet_reads_back(n: nat)
    requires
        n < 256,
    ensures
        octet(decimal(n)) == Some(n),
{
    decimal_reads_back(n);
}

proof fn group_reads_back(n: nat)
    requires
        n < 65536,
    ensures
        group(hex_number(n)) == Some(n),
        v4_octets(hex_number(n)) is None,
{
    hexadecimal_reads_back(n);
    split_plain(hex_number(n), '.');
}

/// The text of an IPv4 address spells it, and holds no colon.
proof fn v4_reads_back(o: Seq<nat>)
    requires
        o.len() == 4,
        forall|i: int| 0 <= i < 4 ==> #[trigger] o[i] < 256,
    ensures
        v4_octets(v4_text(o)) == Some(o),
        forall|i: int| 0 <= i < v4_text(o).len() ==> #[trigger] v4_text(o)[i] != ':',
{
    reveal_strlit(".");
    assert(o[0] < 256 && o[1] < 256 && o[2] < 256 && o[3] < 256);
    octet_reads_back(o[0]);
    octet_reads_back(o[1]);
    octet_reads_back(o[2]);
    octet_reads_back(o[3]);
    let a = decimal(o[0]);
    let b = decimal(o[1]);
    let c = decimal(o[2]);
    let d = decimal(o[3]);
    decimal_reads_back(o[0]);
    decimal_reads_back(o[1]);
    decimal_reads_back(o[2]);
    decimal_reads_back(o[3]);
    split_plain(a, '.');
    split_joined(a, b, '.');
    let ab = a.push('.') + b;
    split_joined(ab, c, '.');
    let abc = ab.push('.') + c;
    split_joined(abc, d, '.');
    let abcd = abc.push('.') + d;
    assert(a + "."@ =~= a.push('.'));
    assert(ab + "."@ =~= ab.push('.'));
    assert(abc + "."@ =~= abc.push('.'));
    assert(v4_text(o) =~= abcd);
    let parts = split(abcd, '.');
    assert(parts =~= seq![a, b, c, d]);
    assert(v4_octets(abcd)->0 =~= o);
    assert forall|i: int| 0 <= i < abcd.len() implies #[trigger] abcd[i] != ':' by {
        if i < a.len() {
            assert(abcd[i] == a[i]);
        } else if i < ab.len() {
            if i > a.len() {
                assert(abcd[i] == b[i - a.len() - 1]);
            }
        } else if i < abc.len() {
            if i > ab.len() {
                assert(abcd[i] == c[i - ab.len() - 1]);
            }
        } else if i > abc.len() {
            assert(abcd[i] == d[i - abc.len() - 1]);
        }
    }
}

/// The texts of groups.
spec fn group_texts(gs: Seq<nat>) -> Seq<Seq<char>> {
    gs.map_values(|g: nat| hex_number(g))
}

spec fn are_groups(gs: Seq<nat>) -> bool {
    forall|i: int| 0 <= i < gs.len() ==> #[trigger] gs[i] < 65536
}

/// No two colons stand side by side, none at either end, and there is no point.
spec fn is_plain(text: Seq<char>) -> bool {
    &&& text.len() > 0
    &&& text[0] != ':'
    &&& text.last() != ':'
    &&& !is_white_space(text[0])
    &&& !is_white_space(text.last())
    &&& forall|i: int| 0 <= i < text.len() ==> #[trigger] text[i] != '.'
    &&& forall|i: int|
        0 <= i < text.len() - 1 ==> !(#[trigger] text[i] == ':' && text[i + 1] == ':')
}

proof fn groups_text_reads_back(gs: Seq<nat>, tail: bool)
    requires
        gs.len() > 0,
        are_groups(gs),
    ensures
        is_plain(groups_text(gs)),
        split(groups_text(gs), ':') == group_texts(gs),
        groups(group_texts(gs), tail) == Some(gs),
    decreases gs.len(),
{
    reveal_strlit(":");
    let last = gs.last();
    let front = gs.drop_last();
    let text = groups_text(gs);
    let end = hex_number(last);
    assert(gs[gs.len() - 1] < 65536);
    group_reads_back(last);
    hexadecimal_reads_back(last);
    assert(group_texts(gs).drop_last() =~= group_texts(front));
    assert(group_texts(gs).last() == end);
    if gs.len() == 1 {
        split_plain(end, ':');
        assert(group_texts(gs) =~= seq![end]);
        assert(front =~= Seq::<nat>::empty());
        assert(group_texts(front) =~= Seq::<Seq<char>>::empty());
        assert(Seq::<nat>::empty().push(last) =~= gs);
    } else {
        assert(are_groups(front)) by {
            assert forall|i: int| 0 <= i < front.len() implies #[trigger] front[i] < 65536 by {
                assert(gs[i] < 65536);
            }
        }
        groups_text_reads_back(front, false);
        let head = groups_text(front);
        split_joined(head, end, ':');
        assert(head + ":"@ =~= head.push(':'));
        assert(text =~= head.push(':') + end);
        assert(group_texts(front).push(end) =~= group_texts(gs));
        assert(front.push(last) =~= gs);
        assert(text[0] == head[0]);
        assert(text.last() == end[end.len() - 1]);
        assert forall|i: int| 0 <= i < text.len() implies #[trigger] text[i] != '.' by {
            if i < head.len() {
                assert(text[i] == head[i]);
            } else if i > head.len() {
                assert(text[i] == end[i - head.len() - 1]);
            }
        }
        assert forall|i: int| 0 <= i < text.len() - 1 implies !(#[trigger] text[i] == ':' && text[i
            + 1] == ':') by {
            if i + 1 < head.len() {
                assert(text[i] == head[i] && text[i + 1] == head[i + 1]);
            } else if i < head.len() {
                assert(text[i] == head.last());
            } else {
                assert(text[i + 1] == end[i - head.len()]);
            }
        }
    }
}

proof fn no_double_colon(text: Seq<char>, from: int)
    requires
        0 <= from,
        forall|i: int|
            0 <= i < text.len() - 1 ==> !(#[trigger] text[i] == ':' && text[i + 1] == ':'),
    ensures
        double_colon(text, from) is None,
    decreases text.len() - from,
{
    if from + 1 < text.len() {
        assert(!(text[from] == ':' && text[from + 1] == ':'));
        no_double_colon(text, from + 1);
    }
}

proof fn first_double_colon(text: Seq<char>, from: int, at: int)
    requires
        0 <= from <= at,
        at + 1 < text.len(),
        text[at] == ':',
        text[at + 1] == ':',
        forall|i: int| 0 <= i < at ==> !(#[trigger] text[i] == ':' && text[i + 1] == ':'),
    ensures
        double_colon(text, from) == Some(at),
    decreases at - from,
{
    if from < at {
        assert(!(text[from] == ':' && text[from + 1] == ':'));
        first_double_colon(text, from + 1, at);
    }
}

proof fn run_is_zero(gs: Seq<nat>, from: int)
    requires
        0 <= from <= gs.len(),
    ensures
        from + zero_run(gs, from) <= gs.len(),
        forall|i: int| from <= i < from + zero_run(gs, from) ==> #[trigger] gs[i] == 0,
    decreases gs.len() - from,
{
    if from < gs.len() && gs[from] == 0 {
        run_is_zero(gs, from + 1);
    }
}

/// Among the first `k` places one has the first longest run.
proof fn longest_so_far(gs: Seq<nat>, k: int) -> (at: int)
    requires
        0 < k <= gs.len(),
    ensures
        0 <= at < k,
        forall|i: int| 0 <= i < k ==> #[trigger] zero_run(gs, i) <= zero_run(gs, at),
        forall|i: int| 0 <= i < at ==> #[trigger] zero_run(gs, i) < zero_run(gs, at),
    decreases k,
{
    if k == 1 {
        0
    } else {
        let before = longest_so_far(gs, k - 1);
        if zero_run(gs, k - 1) > zero_run(gs, before) {
            k - 1
        } else {
            before
        }
    }
}

/// The text of an IPv6 address that is not a mapped one spells it.
proof fn v6_reads_back(gs: Seq<nat>)
    requires
        gs.len() == 8,
        are_groups(gs),
    ensures
        v6_groups(v6_text(gs)) == Some(gs),
        v4_octets(v6_text(gs)) is None,
{
    reveal_strlit("::");
    let witness = longest_so_far(gs, 8);
    assert(is_longest_run(gs, witness));
    let at = choose|at: int| is_longest_run(gs, at);
    let n = zero_run(gs, at);
    let text = v6_text(gs);
    if n < 2 {
        groups_text_reads_back(gs, true);
        no_double_colon(text, 0);
        split_plain(text, '.');
    } else {
        run_is_zero(gs, at);
        let head = gs.take(at);
        let rest = gs.skip(at + n);
        let h = groups_text(head);
        let t = groups_text(rest);
        assert(text == h + "::"@ + t);
        assert(are_groups(head)) by {
            assert forall|i: int| 0 <= i < head.len() implies #[trigger] head[i] < 65536 by {
                assert(gs[i] < 65536);
            }
        }
        assert(are_groups(rest)) by {
            assert forall|i: int| 0 <= i < rest.len() implies #[trigger] rest[i] < 65536 by {
                assert(gs[i + at + n] < 65536);
            }
        }
        if head.len() > 0 {
            groups_text_reads_back(head, false);
        }
        if rest.len() > 0 {
            groups_text_reads_back(rest, true);
        }
        assert forall|i: int| 0 <= i < h.len() implies !(#[trigger] text[i] == ':' && text[i + 1]
            == ':') by {
            if i + 1 < h.len() {
                assert(text[i] == h[i] && text[i + 1] == h[i + 1]);
            } else {
                assert(text[i] == h.last());
            }
        }
        assert(text[h.len() as int] == ':' && text[h.len() as int + 1] == ':');
        first_double_colon(text, 0, h.len() as int);
        assert(text.take(h.len() as int) =~= h);
        assert(text.skip(h.len() as int + 2) =~= t);
        assert(side(h, false) == Some(head)) by {
            if head.len() == 0 {
                assert(head =~= Seq::<nat>::empty());
            }
        }
        assert(side(t, true) == Some(rest)) by {
            if rest.len() == 0 {
                assert(rest =~= Seq::<nat>::empty());
            }
        }
        let zeros = Seq::new((8 - head.len() - rest.len()) as nat, |i: int| 0nat);
        assert(head + zeros + rest =~= gs);
        assert forall|i: int| 0 <= i < text.len() implies #[trigger] text[i] != '.' by {
            if i < h.len() {
                assert(text[i] == h[i]);
            } else if i >= h.len() + 2 {
                assert(text[i] == t[i - h.len() - 2]);
            }
        }
        split_plain(text, '.');
    }
}

/// With colons before it, the text of an IPv4 address is none.
proof fn mapped_is_no_v4(o: Seq<nat>)
    requires
        o.len() == 4,
    ensures
        v4_octets("::ffff:"@ + v4_text(o)) is None,
{
    reveal_strlit("::ffff:");
    reveal_strlit(".");
    let text = "::ffff:"@ + v4_text(o);
    decimal_reads_back(o[0]);
    decimal_reads_back(o[1]);
    decimal_reads_back(o[2]);
    decimal_reads_back(o[3]);
    let a = "::ffff:"@ + decimal(o[0]);
    assert forall|i: int| 0 <= i < a.len() implies #[trigger] a[i] != '.' by {
        if i >= 7 {
            assert(a[i] == decimal(o[0])[i - 7]);
        }
    }
    split_plain(a, '.');
    split_joined(a, decimal(o[1]), '.');
    let ab = a.push('.') + decimal(o[1]);
    split_joined(ab, decimal(o[2]), '.');
    let abc = ab.push('.') + decimal(o[2]);
    split_joined(abc, decimal(o[3]), '.');
    assert(text =~= abc.push('.') + decimal(o[3]));
    assert(split(text, '.')[0] == a);
    assert(a[0] == ':');
    number_needs_digits(a, 0);
}

proof fn four_fs()
    ensures
        group(seq!['f', 'f', 'f', 'f']) == Some(0xffffnat),
{
    let word = seq!['f', 'f', 'f', 'f'];
    let three = seq!['f', 'f', 'f'];
    let two = seq!['f', 'f'];
    let one = seq!['f'];
    assert(word.drop_last() =~= three);
    assert(three.drop_last() =~= two);
    assert(two.drop_last() =~= one);
    assert(one.drop_last() =~= Seq::<char>::empty());
    assert(number(Seq::<char>::empty(), 16) == Some(0nat));
    assert(number(one, 16) == Some(15nat));
    assert(number(two, 16) == Some(255nat));
    assert(number(three, 16) == Some(4095nat));
    assert(number(word, 16) == Some(65535nat));
}

/// What stands behind the double colon of a mapped address.
proof fn mapped_tail(o: Seq<nat>)
    requires
        o.len() == 4,
        forall|i: int| 0 <= i < 4 ==> #[trigger] o[i] < 256,
    ensures
        side(seq!['f', 'f', 'f', 'f', ':'] + v4_text(o), true) == Some(
            seq![0xffffnat, o[0] * 256 + o[1], o[2] * 256 + o[3]],
        ),
{
    let word = seq!['f', 'f', 'f', 'f'];
    let v4 = v4_text(o);
    let rest = seq!['f', 'f', 'f', 'f', ':'] + v4;
    v4_reads_back(o);
    four_fs();
    assert(rest =~= word.push(':') + v4);
    split_joined(word, v4, ':');
    split_plain(word, ':');
    let parts = split(rest, ':');
    assert(parts =~= seq![word, v4]);
    assert(parts.drop_last() =~= seq![word]);
    assert(seq![word].drop_last() =~= Seq::<Seq<char>>::empty());
    assert(groups(Seq::<Seq<char>>::empty(), false) == Some(Seq::<nat>::empty()));
    assert(Seq::<nat>::empty().push(0xffffnat) =~= seq![0xffffnat]);
    assert(groups(seq![word], false) == Some(seq![0xffffnat]));
    assert(parts.last() == v4);
    assert(groups(parts, true) == Some(
        seq![0xffffnat].push(o[0] * 256 + o[1]).push(o[2] * 256 + o[3]),
    ));
    assert(seq![0xffffnat].push(o[0] * 256 + o[1]).push(o[2] * 256 + o[3]) =~= seq![
        0xffffnat,
        o[0] * 256 + o[1],
        o[2] * 256 + o[3],
    ]);
}

/// The groups of a text with five groups of zero before a tail.
proof fn five_zeros(end: Seq<char>, tail: Seq<nat>)
    requires
        side(seq!['f', 'f', 'f', 'f', ':'] + end, true) == Some(tail),
        tail.len() == 3,
    ensures
        v6_groups("::ffff:"@ + end) == Some(seq![0nat, 0, 0, 0, 0] + tail),
{
    reveal_strlit("::ffff:");
    let text = "::ffff:"@ + end;
    first_double_colon(text, 0, 0);
    assert(text.take(0) =~= Seq::<char>::empty());
    assert(text.skip(2) =~= seq!['f', 'f', 'f', 'f', ':'] + end);
    assert(side(text.take(0), false) == Some(Seq::<nat>::empty()));
    assert(Seq::<nat>::empty() + Seq::new((8 - 0 - tail.len()) as nat, |i: int| 0nat) + tail
        =~= seq![0nat, 0, 0, 0, 0] + tail);
}

/// The text of a mapped address, out of the octets in it.
proof fn mapped_octets_read_back(o: Seq<nat>)
    requires
        o.len() == 4,
        forall|i: int| 0 <= i < 4 ==> #[trigger] o[i] < 256,
    ensures
        v4_octets("::ffff:"@ + v4_text(o)) is None,
        v6_groups("::ffff:"@ + v4_text(o)) == Some(
            seq![0nat, 0, 0, 0, 0] + seq![0xffffnat, o[0] * 256 + o[1], o[2] * 256 + o[3]],
        ),
{
    mapped_is_no_v4(o);
    mapped_tail(o);
    five_zeros(v4_text(o), seq![0xffffnat, o[0] * 256 + o[1], o[2] * 256 + o[3]]);
}

/// A mapped address out of the octets in it.
proof fn mapped_groups(gs: Seq<nat>, o: Seq<nat>)
    requires
        gs.len() == 8,
        are_groups(gs),
        IpModel::V6(gs).is_mapped(),
        o == seq![gs[6] / 256, gs[6] % 256, gs[7] / 256, gs[7] % 256],
    ensures
        forall|i: int| 0 <= i < 4 ==> #[trigger] o[i] < 256,
        seq![0nat, 0, 0, 0, 0] + seq![0xffffnat, o[0] * 256 + o[1], o[2] * 256 + o[3]] == gs,
        IpModel::V6(gs).unmapped() == IpModel::V4(o),
{
    assert(gs[6] < 65536 && gs[7] < 65536);
    assert(o[0] * 256 + o[1] == gs[6] && o[2] * 256 + o[3] == gs[7]);
    assert(seq![0nat, 0, 0, 0, 0] + seq![0xffffnat, o[0] * 256 + o[1], o[2] * 256 + o[3]] =~= gs);
    assert(IpModel::V6(gs).unmapped()->V4_0 =~= o);
}

/// The text of a mapped address spells it.
proof fn mapped_reads_back(gs: Seq<nat>)
    requires
        gs.len() == 8,
        are_groups(gs),
        IpModel::V6(gs).is_mapped(),
    ensures
        ip_literal(IpModel::V6(gs).text()) == Some(IpModel::V6(gs)),
{
    let o = seq![gs[6] / 256, gs[6] % 256, gs[7] / 256, gs[7] % 256];
    mapped_groups(gs, o);
    mapped_octets_read_back(o);
}

proof fn number_needs_digits(text: Seq<char>, i: int)
    requires
        0 <= i < text.len(),
        hex_digit(text[i]) is None,
    ensures
        number(text, 10) is None,
    decreases text.len(),
{
    if i < text.len() - 1 {
        assert(text.drop_last()[i] == text[i]);
        number_needs_digits(text.drop_last(), i);
    }
}

impl IpModel {
    /// The numbers are those of an address: four below 256, or eight below 65536.
    pub open spec fn wf(self) -> bool {
        match self {
            IpModel::V4(octets) => octets.len() == 4 && forall|i: int|
                0 <= i < 4 ==> #[trigger] octets[i] < 256,
            IpModel::V6(all) => all.len() == 8 && forall|i: int|
                0 <= i < 8 ==> #[trigger] all[i] < 65536,
        }
    }
}

/// The text of an address spells the address.
pub proof fn an_address_reads_back(ip: IpModel)
    requires
        ip.wf(),
    ensures
        ip_literal(ip.text()) == Some(ip),
{
    match ip {
        IpModel::V4(o) => {
            v4_reads_back(o);
        },
        IpModel::V6(gs) => {
            assert(are_groups(gs));
            if ip.is_mapped() {
                mapped_reads_back(gs);
            } else {
                v6_reads_back(gs);
            }
        },
    }
}

proof fn four_digits_are_small(text: Seq<char>)
    ensures
        number(text, 16) is Some && text.len() <= 1 ==> number(text, 16)->0 < 16,
        number(text, 16) is Some && text.len() <= 2 ==> number(text, 16)->0 < 256,
        number(text, 16) is Some && text.len() <= 3 ==> number(text, 16)->0 < 4096,
        number(text, 16) is Some && text.len() <= 4 ==> number(text, 16)->0 < 65536,
    decreases text.len(),
{
    if text.len() > 0 {
        four_digits_are_small(text.drop_last());
        if text.len() == 1 {
            assert(text.drop_last() =~= Seq::<char>::empty());
        }
    }
}

proof fn parts_are_groups(parts: Seq<Seq<char>>, tail: bool)
    ensures
        groups(parts, tail) is Some ==> are_groups(groups(parts, tail)->0),
    decreases parts.len(),
{
    if parts.len() > 0 {
        parts_are_groups(parts.drop_last(), false);
        four_digits_are_small(parts.last());
    }
}

/// What a literal spells is an address.
pub proof fn a_literal_is_an_address(text: Seq<char>)
    ensures
        ip_literal(text) is Some ==> ip_literal(text)->0.wf(),
{
    match double_colon(text, 0) {
        None => {
            parts_are_groups(split(text, ':'), true);
        },
        Some(at) => {
            parts_are_groups(split(text.take(at), ':'), false);
            parts_are_groups(split(text.skip(at + 2), ':'), true);
        },
    }
}

/// A text with no white space at either end is not shortened.
pub proof fn ends_stay(text: Seq<char>)
    requires
        text.len() > 0,
        !is_white_space(text[0]),
        !is_white_space(text.last()),
    ensures
        trimmed(text) == text,
{
}

pub proof fn a_number_has_no_white_space(n: nat)
    ensures
        trimmed(decimal(n)) == decimal(n),
        decimal(n)[0] != '+',
{
    decimal_reads_back(n);
    let text = decimal(n);
    assert(is_digit(text[0]) && is_digit(text[text.len() - 1]));
    ends_stay(text);
}

proof fn v4_text_has_ends(o: Seq<nat>)
    requires
        o.len() == 4,
    ensures
        v4_text(o).len() > 0,
        !is_white_space(v4_text(o)[0]),
        !is_white_space(v4_text(o).last()),
{
    decimal_reads_back(o[0]);
    decimal_reads_back(o[3]);
    let text = v4_text(o);
    let end = decimal(o[3]);
    assert(text[0] == decimal(o[0])[0]);
    assert(text.last() == end[end.len() - 1]);
    assert(is_digit(decimal(o[0])[0]) && is_digit(end[end.len() - 1]));
}

/// The text of an address has no white space at either end.
pub proof fn an_address_has_no_white_space(ip: IpModel)
    requires
        ip.wf(),
    ensures
        trimmed(ip.text()) == ip.text(),
        ip.text().len() > 0,
{
    let text = ip.text();
    match ip {
        IpModel::V4(o) => {
            v4_text_has_ends(o);
        },
        IpModel::V6(gs) => {
            assert(are_groups(gs));
            if ip.is_mapped() {
                reveal_strlit("::ffff:");
                let v4 = v4_text(ip.unmapped()->V4_0);
                v4_text_has_ends(ip.unmapped()->V4_0);
                assert(text[0] == ':');
                assert(text.last() == v4.last());
            } else {
                reveal_strlit("::");
                let witness = longest_so_far(gs, 8);
                assert(is_longest_run(gs, witness));
                let at = choose|at: int| is_longest_run(gs, at);
                let n = zero_run(gs, at);
                run_is_zero(gs, at);
                if n < 2 {
                    groups_text_reads_back(gs, true);
                } else {
                    let head = gs.take(at);
                    let rest = gs.skip(at + n);
                    let h = groups_text(head);
                    let t = groups_text(rest);
                    assert(are_groups(head)) by {
                        assert forall|i: int| 0 <= i < head.len() implies #[trigger] head[i]
                            < 65536 by {
                            assert(gs[i] < 65536);
                        }
                    }
                    assert(are_groups(rest)) by {
                        assert forall|i: int| 0 <= i < rest.len() implies #[trigger] rest[i]
                            < 65536 by {
                            assert(gs[i + at + n] < 65536);
                        }
                    }
                    if head.len() > 0 {
                        groups_text_reads_back(head, false);
                        assert(text[0] == h[0]);
                    } else {
                        assert(text[0] == ':');
                    }
                    if rest.len() > 0 {
                        groups_text_reads_back(rest, true);
                        assert(text.last() == t.last());
                    } else {
                        assert(text.last() == ':');
                    }
                }
            }
        },
    }
    ends_stay(text);
}

} // verus!
