//! Texts, identifiers, numbers and headers.

use crate::net::{hex_digit, number, split};
use crate::protocol::{header_bytes, is_header, is_id, HeaderModel};
use crate::text::{
    before, line_feeds, lowered, on_last_line, sorted_texts, trim_end, trim_start, trimmed,
};
use vstd::prelude::*;

verus! {

/// An identifier has 1 to 64 characters, all of them small letters, digits, dots,
/// underscores or hyphens, and begins and ends with a letter or a digit.
pub proof fn an_identifier_is_plain(id: Seq<char>)
    ensures
        is_id(id) <==> {
            let edge = |c: char| ('a' <= c <= 'z') || ('0' <= c <= '9');
            &&& 1 <= id.len() <= 64
            &&& edge(id[0])
            &&& edge(id[id.len() - 1])
            &&& forall|i: int|
                0 <= i < id.len() ==> {
                    let c = #[trigger] id[i];
                    edge(c) || c == '.' || c == '_' || c == '-'
                }
        },
{
    let edge = |c: char| ('a' <= c <= 'z') || ('0' <= c <= '9');
    if is_id(id) {
        assert forall|i: int| 0 <= i < id.len() implies {
            let c = #[trigger] id[i];
            edge(c) || c == '.' || c == '_' || c == '-'
        } by {
            assert(crate::protocol::is_id_char(id[i]));
        }
        assert(crate::protocol::is_id_char(id[0]));
        assert(crate::protocol::is_id_char(id[id.len() - 1]));
    } else if 1 <= id.len() <= 64 && edge(id[0]) && edge(id[id.len() - 1]) {
        if forall|i: int|
            0 <= i < id.len() ==> {
                let c = #[trigger] id[i];
                edge(c) || c == '.' || c == '_' || c == '-'
            } {
            assert forall|i: int| 0 <= i < id.len() implies #[trigger] crate::protocol::is_id_char(
                id[i],
            ) by {
                let c = id[i];
            }
        }
    }
}

/// A header's name has 1 to 32 characters, all of them small letters, digits or
/// hyphens, and no hyphen at either end; its value has 1 to 256 printable ASCII
/// characters and no blank at either end; and its name is not reserved.
pub proof fn a_header_is_plain(header: HeaderModel)
    ensures
        is_header(header) <==> {
            let name = header.name;
            let value = header.value;
            let edge = |c: char| ('a' <= c <= 'z') || ('0' <= c <= '9');
            &&& 1 <= name.len() <= 32
            &&& edge(name[0])
            &&& edge(name[name.len() - 1])
            &&& forall|i: int|
                0 <= i < name.len() ==> {
                    let c = #[trigger] name[i];
                    edge(c) || c == '-'
                }
            &&& 1 <= value.len() <= 256
            &&& value[0] != ' '
            &&& value[value.len() - 1] != ' '
            &&& forall|i: int| 0 <= i < value.len() ==> ' ' <= #[trigger] value[i] <= '~'
            &&& !"rop-"@.is_prefix_of(name)
            &&& !"x-rop-"@.is_prefix_of(name)
        },
{
    let name = header.name;
    let value = header.value;
    let edge = |c: char| ('a' <= c <= 'z') || ('0' <= c <= '9');
    if is_header(header) {
        assert forall|i: int| 0 <= i < name.len() implies {
            let c = #[trigger] name[i];
            edge(c) || c == '-'
        } by {
            assert(crate::protocol::is_name_char(name[i]));
        }
        assert(crate::protocol::is_name_char(name[0]));
        assert(crate::protocol::is_name_char(name[name.len() - 1]));
        assert forall|i: int| 0 <= i < value.len() implies ' ' <= #[trigger] value[i] <= '~' by {
            assert(crate::text::is_printable(value[i]));
        }
    } else {
        if forall|i: int|
            0 <= i < name.len() ==> {
                let c = #[trigger] name[i];
                edge(c) || c == '-'
            } {
            assert forall|i: int| 0 <= i < name.len() implies #[trigger] crate::protocol::is_name_char(
                name[i],
            ) by {
                let c = name[i];
            }
        }
        if forall|i: int| 0 <= i < value.len() ==> ' ' <= #[trigger] value[i] <= '~' {
            assert forall|i: int| 0 <= i < value.len() implies #[trigger] crate::text::is_printable(
                value[i],
            ) by {
                let c = value[i];
            }
        }
    }
}

/// The bytes of headers are those of their names and values together: one more
/// header adds its own.
pub proof fn headers_add_up(headers: Seq<HeaderModel>, more: Seq<HeaderModel>)
    ensures
        header_bytes(Seq::empty()) == 0,
        header_bytes(headers + more) == header_bytes(headers) + header_bytes(more),
        headers.len() == 1 ==> header_bytes(headers) == headers[0].name.len()
            + headers[0].value.len(),
    decreases more.len(),
{
    if more.len() > 0 {
        headers_add_up(headers, more.drop_last());
        assert((headers + more).drop_last() =~= headers + more.drop_last());
    } else {
        assert(headers + more =~= headers);
    }
    if headers.len() == 1 {
        reveal_with_fuel(header_bytes, 2);
        assert(headers.drop_last() =~= Seq::empty());
    }
}

proof fn trim_start_is_a_suffix(text: Seq<char>)
    ensures
        exists|k: int|
            0 <= k <= text.len() && trim_start(text) == #[trigger] text.skip(k) && forall|i: int|
                0 <= i < k ==> crate::text::is_white_space(#[trigger] text[i]),
        trim_start(text).len() > 0 ==> !crate::text::is_white_space(trim_start(text)[0]),
    decreases text.len(),
{
    if text.len() > 0 && crate::text::is_white_space(text[0]) {
        let rest = text.drop_first();
        trim_start_is_a_suffix(rest);
        let k = choose|k: int|
            0 <= k <= rest.len() && trim_start(rest) == #[trigger] rest.skip(k) && forall|i: int|
                0 <= i < k ==> crate::text::is_white_space(#[trigger] rest[i]);
        assert(rest.skip(k) =~= text.skip(k + 1));
        assert forall|i: int| 0 <= i < k + 1 implies crate::text::is_white_space(
            #[trigger] text[i],
        ) by {
            if i > 0 {
                assert(rest[i - 1] == text[i]);
            }
        }
    } else {
        assert(text.skip(0) =~= text);
    }
}

proof fn trim_end_is_a_prefix(text: Seq<char>)
    ensures
        exists|k: int|
            0 <= k <= text.len() && trim_end(text) == #[trigger] text.take(k) && forall|i: int|
                k <= i < text.len() ==> crate::text::is_white_space(#[trigger] text[i]),
        trim_end(text).len() > 0 ==> !crate::text::is_white_space(trim_end(text).last()),
    decreases text.len(),
{
    if text.len() > 0 && crate::text::is_white_space(text.last()) {
        let rest = text.drop_last();
        trim_end_is_a_prefix(rest);
        let k = choose|k: int|
            0 <= k <= rest.len() && trim_end(rest) == #[trigger] rest.take(k) && forall|i: int|
                k <= i < rest.len() ==> crate::text::is_white_space(#[trigger] rest[i]);
        assert(rest.take(k) =~= text.take(k));
        assert forall|i: int| k <= i < text.len() implies crate::text::is_white_space(
            #[trigger] text[i],
        ) by {
            if i < rest.len() {
                assert(rest[i] == text[i]);
            }
        }
    } else {
        assert(text.take(text.len() as int) =~= text);
    }
}

/// A trimmed text is the text without the white space at its ends: what is left
/// begins and ends with something else, and nothing else was taken away.
pub proof fn trimming_takes_white_space_from_the_ends(text: Seq<char>)
    ensures
        exists|from: int, to: int|
            #![trigger text.subrange(from, to)]
            0 <= from <= to <= text.len() && trimmed(text) == text.subrange(from, to) && (forall|
                i: int,
            |
                (0 <= i < from || to <= i < text.len()) ==> crate::text::is_white_space(
                    #[trigger] text[i],
                )),
        trimmed(text).len() > 0 ==> !crate::text::is_white_space(trimmed(text)[0])
            && !crate::text::is_white_space(trimmed(text).last()),
{
    trim_start_is_a_suffix(text);
    let from = choose|k: int|
        0 <= k <= text.len() && trim_start(text) == #[trigger] text.skip(k) && forall|i: int|
            0 <= i < k ==> crate::text::is_white_space(#[trigger] text[i]);
    let left = trim_start(text);
    trim_end_is_a_prefix(left);
    let k = choose|k: int|
        0 <= k <= left.len() && trim_end(left) == #[trigger] left.take(k) && forall|i: int|
            k <= i < left.len() ==> crate::text::is_white_space(#[trigger] left[i]);
    let to = from + k;
    assert(left.take(k) =~= text.subrange(from, to));
    assert forall|i: int| (0 <= i < from || to <= i < text.len()) implies crate::text::is_white_space(
        #[trigger] text[i],
    ) by {
        if to <= i {
            assert(left[i - from] == text[i]);
        }
    }
    assert(trimmed(text) == text.subrange(from, to));
    if trimmed(text).len() > 0 {
        assert(trimmed(text)[0] == left[0]);
    }
}

/// Small letters: a text keeps its length, capital ASCII letters become small, and
/// everything else stays.
pub proof fn lowering_changes_capitals_only(text: Seq<char>, i: int)
    requires
        0 <= i < text.len(),
    ensures
        lowered(text).len() == text.len(),
        !('A' <= text[i] <= 'Z') ==> lowered(text)[i] == text[i],
        'A' <= text[i] <= 'Z' ==> lowered(text)[i] as u32 == text[i] as u32 + 32,
{
}

/// Sorting keeps every text as often as it was there, and puts none before one that
/// comes earlier in the order of their characters.
pub proof fn sorting_orders_and_keeps(list: Seq<Seq<char>>, i: int, j: int)
    ensures
        sorted_texts(list).to_multiset() == list.to_multiset(),
        0 <= i < j < list.len() ==> !before(sorted_texts(list)[j], sorted_texts(list)[i]),
        sorted_texts(list).len() == list.len(),
{
    let leq = |a: Seq<char>, b: Seq<char>| crate::text::not_after(a, b);
    assert(vstd::relations::total_ordering(leq)) by {
        assert forall|x: Seq<char>, y: Seq<char>| #[trigger] leq(x, y) && #[trigger] leq(y, x) implies x
            == y by {
            crate::text::before_is_strict(x, y);
        }
        assert forall|x: Seq<char>, y: Seq<char>, z: Seq<char>| #[trigger] leq(x, y)
            && #[trigger] leq(y, z) implies leq(x, z) by {
            if before(z, x) {
                crate::text::before_is_strict(x, y);
                crate::text::before_is_strict(y, z);
                if y != x {
                    if x != y && !before(y, x) {
                        assert(before(x, y));
                        crate::text::before_is_transitive(z, x, y);
                    }
                }
            }
        }
        assert forall|x: Seq<char>, y: Seq<char>| #[trigger] leq(x, y) || #[trigger] leq(y, x) by {
            crate::text::before_is_strict(x, y);
        }
        assert forall|x: Seq<char>| #[trigger] leq(x, x) by {
            crate::text::before_is_strict(x, x);
        }
    }
    list.lemma_sort_by_ensures(leq);
    crate::text::sorted_texts_hold_the_same(list);
    if 0 <= i < j < list.len() {
        assert(leq(sorted_texts(list)[i], sorted_texts(list)[j]));
    }
}

/// A text comes before another exactly if it is a shorter beginning of it, or is
/// smaller in the first character in which they differ.
pub proof fn the_first_difference_decides(a: Seq<char>, b: Seq<char>, i: int)
    requires
        0 <= i <= a.len(),
        i <= b.len(),
        forall|j: int| 0 <= j < i ==> a[j] == b[j],
    ensures
        i == a.len() && i < b.len() ==> before(a, b),
        i == b.len() ==> !before(a, b),
        i < a.len() && i < b.len() && a[i] != b[i] ==> (before(a, b) <==> a[i] < b[i]),
    decreases i,
{
    if i > 0 {
        assert(a[0] == b[0]);
        let x = a.drop_first();
        let y = b.drop_first();
        assert forall|j: int| 0 <= j < i - 1 implies x[j] == y[j] by {
            assert(a[j + 1] == b[j + 1]);
        }
        the_first_difference_decides(x, y, i - 1);
        if i < a.len() {
            assert(x[i - 1] == a[i]);
        }
        if i < b.len() {
            assert(y[i - 1] == b[i]);
        }
    }
}

/// A number is read digit by digit: each further digit multiplies by the base and
/// adds its value, and a text is no number exactly if one of its characters is no
/// digit of the base.
pub proof fn a_number_is_read_digit_by_digit(text: Seq<char>, base: nat, digit: char)
    ensures
        number(Seq::empty(), base) == Some(0nat),
        number(text.push(digit), base) is Some <==> number(text, base) is Some && hex_digit(
            digit,
        ) is Some && hex_digit(digit)->0 < base,
        number(text.push(digit), base) is Some ==> number(text.push(digit), base)->0 == number(
            text,
            base,
        )->0 * base + hex_digit(digit)->0,
{
    assert(text.push(digit).drop_last() =~= text);
}

/// The ten digits and the six letters, small or capital, have their values; no
/// other character is a digit.
pub proof fn digits_have_their_values(c: char)
    ensures
        hex_digit(c) is Some <==> ('0' <= c <= '9') || ('a' <= c <= 'f') || ('A' <= c <= 'F'),
        '0' <= c <= '9' ==> hex_digit(c)->0 == c as nat - 48,
        'a' <= c <= 'f' ==> hex_digit(c)->0 == c as nat - 87,
        'A' <= c <= 'F' ==> hex_digit(c)->0 == c as nat - 55,
{
}

proof fn split_of_a_push(text: Seq<char>, separator: char, c: char)
    ensures
        split(text.push(c), separator) == if c == separator {
            split(text, separator).push(Seq::empty())
        } else {
            split(text, separator).update(
                split(text, separator).len() - 1,
                split(text, separator).last().push(c),
            )
        },
{
    assert(text.push(c).drop_last() =~= text);
}

/// A text is cut exactly at its separators: no part holds one, and the parts of two
/// texts with a separator between them are those of the one and then those of the
/// other.
pub proof fn a_text_is_cut_at_its_separators(
    first: Seq<char>,
    second: Seq<char>,
    separator: char,
    i: int,
)
    ensures
        split(first.push(separator) + second, separator) == split(first, separator) + split(
            second,
            separator,
        ),
        0 <= i < split(first, separator).len() ==> !split(first, separator)[i].contains(separator),
        !first.contains(separator) ==> split(first, separator) == seq![first],
    decreases first.len(), second.len(),
{
    crate::net::split_is_never_empty(first, separator);
    crate::net::split_is_never_empty(second, separator);
    parts_hold_no_separator(first, separator, i);
    cut_behind_a_separator(first, second, separator);
}

proof fn parts_hold_no_separator(text: Seq<char>, separator: char, i: int)
    ensures
        0 <= i < split(text, separator).len() ==> !split(text, separator)[i].contains(separator),
        !text.contains(separator) ==> split(text, separator) == seq![text],
    decreases text.len(),
{
    if text.len() > 0 {
        let front = text.drop_last();
        let parts = split(front, separator);
        crate::net::split_is_never_empty(front, separator);
        parts_hold_no_separator(front, separator, i);
        parts_hold_no_separator(front, separator, parts.len() - 1);
        if text.last() != separator {
            let longer = parts.last().push(text.last());
            if longer.contains(separator) {
                let k = choose|k: int| 0 <= k < longer.len() && longer[k] == separator;
                assert(parts.last()[k] == separator);
                assert(parts.last().contains(separator));
            }
        }
        if !text.contains(separator) {
            if front.contains(separator) {
                let k = choose|k: int| 0 <= k < front.len() && front[k] == separator;
                assert(text[k] == separator);
            }
            assert(text[text.len() - 1] != separator);
            assert(front.push(text.last()) =~= text);
            assert(split(text, separator) =~= seq![text]);
        }
    } else {
        assert(text =~= Seq::<char>::empty());
        assert(split(text, separator) =~= seq![text]);
    }
}

proof fn cut_behind_a_separator(first: Seq<char>, second: Seq<char>, separator: char)
    ensures
        split(first.push(separator) + second, separator) == split(first, separator) + split(
            second,
            separator,
        ),
    decreases second.len(),
{
    crate::net::split_is_never_empty(second, separator);
    let all = first.push(separator) + second;
    if second.len() == 0 {
        assert(all =~= first.push(separator));
        split_of_a_push(first, separator, separator);
        assert(split(second, separator) =~= seq![Seq::<char>::empty()]);
        assert(split(all, separator) =~= split(first, separator) + split(second, separator));
    } else {
        let front = second.drop_last();
        let c = second.last();
        crate::net::split_is_never_empty(front, separator);
        cut_behind_a_separator(first, front, separator);
        assert(all =~= (first.push(separator) + front).push(c));
        assert(second =~= front.push(c));
        split_of_a_push(first.push(separator) + front, separator, c);
        split_of_a_push(front, separator, c);
        assert(split(all, separator) =~= split(first, separator) + split(second, separator));
    }
}

/// The line feeds of two texts add up, and the last line begins anew behind each of
/// them.
pub proof fn lines_are_counted(first: Seq<u8>, second: Seq<u8>)
    ensures
        line_feeds(first + second) == line_feeds(first) + line_feeds(second),
        on_last_line(first.push(10)) == 0,
        !second.contains(10) ==> on_last_line(first + second) == on_last_line(first)
            + second.len() && line_feeds(second) == 0,
        line_feeds(first.push(10)) == line_feeds(first) + 1,
    decreases second.len(),
{
    assert(first.push(10).drop_last() =~= first);
    if second.len() > 0 {
        let front = second.drop_last();
        lines_are_counted(first, front);
        assert((first + second).drop_last() =~= first + front);
        if !second.contains(10) {
            assert(second[second.len() - 1] != 10);
            if front.contains(10) {
                let k = choose|k: int| 0 <= k < front.len() && front[k] == 10;
                assert(second[k] == 10);
            }
        }
    } else {
        assert(first + second =~= first);
    }
}

} // verus!
