//! Characters, texts and lists of texts.
//!
//! A text is modelled by its sequence of characters. The functions here state
//! their results over such sequences.

use vstd::prelude::*;

verus! {

pub open spec fn is_digit(c: char) -> bool {
    '0' <= c <= '9'
}

pub open spec fn is_lower(c: char) -> bool {
    'a' <= c <= 'z'
}

pub open spec fn is_upper(c: char) -> bool {
    'A' <= c <= 'Z'
}

/// An ASCII letter or digit.
pub open spec fn is_alnum(c: char) -> bool {
    is_digit(c) || is_lower(c) || is_upper(c)
}

/// The characters with the Unicode property White_Space.
pub open spec fn is_white_space(c: char) -> bool {
    ||| '\u{9}' <= c <= '\u{d}'
    ||| c == ' '
    ||| c == '\u{85}'
    ||| c == '\u{a0}'
    ||| c == '\u{1680}'
    ||| '\u{2000}' <= c <= '\u{200a}'
    ||| c == '\u{2028}'
    ||| c == '\u{2029}'
    ||| c == '\u{202f}'
    ||| c == '\u{205f}'
    ||| c == '\u{3000}'
}

/// The characters of the Unicode category Cc.
pub open spec fn is_control(c: char) -> bool {
    c <= '\u{1f}' || '\u{7f}' <= c <= '\u{9f}'
}

/// The printable ASCII characters, the space among them.
pub open spec fn is_printable(c: char) -> bool {
    ' ' <= c <= '~'
}

pub fn digit(c: char) -> (r: bool)
    ensures
        r == is_digit(c),
{
    '0' <= c && c <= '9'
}

pub fn lower(c: char) -> (r: bool)
    ensures
        r == is_lower(c),
{
    'a' <= c && c <= 'z'
}

pub fn upper(c: char) -> (r: bool)
    ensures
        r == is_upper(c),
{
    'A' <= c && c <= 'Z'
}

pub fn alnum(c: char) -> (r: bool)
    ensures
        r == is_alnum(c),
{
    digit(c) || lower(c) || upper(c)
}

pub fn white_space(c: char) -> (r: bool)
    ensures
        r == is_white_space(c),
{
    ('\u{9}' <= c && c <= '\u{d}') || c == ' ' || c == '\u{85}' || c == '\u{a0}'
        || c == '\u{1680}' || ('\u{2000}' <= c && c <= '\u{200a}') || c == '\u{2028}'
        || c == '\u{2029}' || c == '\u{202f}' || c == '\u{205f}' || c == '\u{3000}'
}

pub fn control(c: char) -> (r: bool)
    ensures
        r == is_control(c),
{
    c <= '\u{1f}' || ('\u{7f}' <= c && c <= '\u{9f}')
}

pub fn printable(c: char) -> (r: bool)
    ensures
        r == is_printable(c),
{
    ' ' <= c && c <= '~'
}

/// The characters of a text, in order.
pub fn chars_of(text: &str) -> (r: Vec<char>)
    ensures
        r@ == text@,
{
    let mut out: Vec<char> = Vec::new();
    for c in it: text.chars()
        invariant
            out@ == text@.take(it.index() as int),
            it.seq() == text@,
    {
        out.push(c);
        assert(text@.take(it.index() + 1) =~= text@.take(it.index() as int).push(c));
    }
    assert(text@.take(text@.len() as int) =~= text@);
    out
}

/// `String::push` appends one character to the end of the text.
pub assume_specification[ String::push ](text: &mut String, c: char)
    ensures
        final(text)@ == old(text)@.push(c),
;

/// The text made of the characters `from..to`.
pub fn text_of(chars: &Vec<char>, from: usize, to: usize) -> (r: String)
    requires
        from <= to <= chars@.len(),
    ensures
        r@ == chars@.subrange(from as int, to as int),
{
    let mut out: String = String::new();
    let mut i: usize = from;
    while i < to
        invariant
            from <= i <= to <= chars@.len(),
            out@ == chars@.subrange(from as int, i as int),
        decreases to - i,
    {
        out.push(chars[i]);
        i += 1;
        assert(chars@.subrange(from as int, i as int) =~= chars@.subrange(
            from as int,
            i - 1,
        ).push(chars@[i - 1]));
    }
    out
}

#[verifier::loop_isolation(false)]
pub fn same_text(a: &str, b: &str) -> (r: bool)
    ensures
        r == (a@ == b@),
{
    let a: Vec<char> = chars_of(a);
    let b: Vec<char> = chars_of(b);
    if a.len() != b.len() {
        return false;
    }
    let mut i: usize = 0;
    while i < a.len()
        invariant
            a@.len() == b@.len(),
            i <= a@.len(),
            forall|k: int| 0 <= k < i ==> a@[k] == b@[k],
        decreases a@.len() - i,
    {
        if a[i] != b[i] {
            return false;
        }
        i += 1;
    }
    assert(a@ =~= b@);
    true
}

/// The text with another behind it.
pub fn joined(first: &str, second: &str) -> (r: String)
    ensures
        r@ == first@ + second@,
{
    let mut out: String = first.to_owned();
    out.append(second);
    out
}

/// The number of bytes of a text in UTF-8.
pub open spec fn byte_count(text: Seq<char>) -> nat {
    vstd::utf8::encode_utf8(text).len()
}

pub fn byte_len(text: &str) -> (r: usize)
    ensures
        r == byte_count(text@),
{
    text.as_bytes().len()
}

/// The number of line feeds among the bytes.
pub open spec fn line_feeds(bytes: Seq<u8>) -> nat
    decreases bytes.len(),
{
    if bytes.len() == 0 {
        0
    } else {
        line_feeds(bytes.drop_last()) + if bytes.last() == 10 {
            1nat
        } else {
            0nat
        }
    }
}

/// The number of bytes behind the last line feed, or of all where there is none.
pub open spec fn on_last_line(bytes: Seq<u8>) -> nat
    decreases bytes.len(),
{
    if bytes.len() == 0 || bytes.last() == 10 {
        0
    } else {
        on_last_line(bytes.drop_last()) + 1
    }
}

/// What stands before a place in a text; all of it where the text ends sooner.
pub open spec fn bytes_before(text: Seq<char>, at: nat) -> Seq<u8> {
    let bytes = vstd::utf8::encode_utf8(text);
    if at < bytes.len() {
        bytes.take(at as int)
    } else {
        bytes
    }
}

/// The line of a byte of a text and the byte's place in it, both counted from
/// one.
#[verifier::loop_isolation(false)]
pub fn place_in(text: &str, at: usize) -> (r: (usize, usize))
    requires
        byte_count(text@) < usize::MAX,
    ensures
        r.0 == 1 + line_feeds(bytes_before(text@, at as nat)),
        r.1 == 1 + on_last_line(bytes_before(text@, at as nat)),
{
    let bytes: &[u8] = text.as_bytes();
    let end: usize = if at < bytes.len() {
        at
    } else {
        bytes.len()
    };
    let mut line: usize = 1;
    let mut column: usize = 1;
    let mut i: usize = 0;
    assert(bytes@.take(0) =~= Seq::<u8>::empty());
    while i < end
        invariant
            i <= end,
            line == 1 + line_feeds(bytes@.take(i as int)),
            column == 1 + on_last_line(bytes@.take(i as int)),
            line <= 1 + i,
            column <= 1 + i,
        decreases end - i,
    {
        assert(bytes@.take(i + 1).drop_last() =~= bytes@.take(i as int));
        if bytes[i] == 10 {
            line += 1;
            column = 1;
        } else {
            column += 1;
        }
        i += 1;
    }
    assert(bytes@.take(end as int) =~= bytes_before(text@, at as nat));
    (line, column)
}

/// The text from the character at `from` on.
pub fn text_from(text: &str, from: usize) -> (r: String)
    requires
        from <= text@.len(),
    ensures
        r@ == text@.skip(from as int),
{
    let chars: Vec<char> = chars_of(text);
    let r: String = text_of(&chars, from, chars.len());
    assert(r@ =~= text@.skip(from as int));
    r
}

/// Whether `prefix` stands at the start of `text`.
#[verifier::loop_isolation(false)]
pub fn starts_with(text: &str, prefix: &str) -> (r: bool)
    ensures
        r == prefix@.is_prefix_of(text@),
{
    let text: Vec<char> = chars_of(text);
    let prefix: Vec<char> = chars_of(prefix);
    if prefix.len() > text.len() {
        return false;
    }
    let mut i: usize = 0;
    while i < prefix.len()
        invariant
            prefix@.len() <= text@.len(),
            i <= prefix@.len(),
            forall|k: int| 0 <= k < i ==> text@[k] == prefix@[k],
        decreases prefix@.len() - i,
    {
        if text[i] != prefix[i] {
            assert(prefix@[i as int] != text@.subrange(0, prefix@.len() as int)[i as int]);
            return false;
        }
        i += 1;
    }
    assert(prefix@ =~= text@.subrange(0, prefix@.len() as int));
    true
}

/// `text` without the white space at its start.
pub open spec fn trim_start(text: Seq<char>) -> Seq<char>
    decreases text.len(),
{
    if text.len() > 0 && is_white_space(text[0]) {
        trim_start(text.drop_first())
    } else {
        text
    }
}

/// `text` without the white space at its end.
pub open spec fn trim_end(text: Seq<char>) -> Seq<char>
    decreases text.len(),
{
    if text.len() > 0 && is_white_space(text.last()) {
        trim_end(text.drop_last())
    } else {
        text
    }
}

pub open spec fn trimmed(text: Seq<char>) -> Seq<char> {
    trim_end(trim_start(text))
}

proof fn trim_start_stops(text: Seq<char>)
    ensures
        trim_start(text).len() > 0 ==> !is_white_space(trim_start(text)[0]),
    decreases text.len(),
{
    if text.len() > 0 && is_white_space(text[0]) {
        trim_start_stops(text.drop_first());
    }
}

proof fn trim_end_stops(text: Seq<char>)
    ensures
        trim_end(text).len() <= text.len(),
        trim_end(text).len() > 0 ==> !is_white_space(trim_end(text).last()) && trim_end(text)[0]
            == text[0],
    decreases text.len(),
{
    if text.len() > 0 && is_white_space(text.last()) {
        trim_end_stops(text.drop_last());
    }
}

/// A text without white space at either end stays as it is.
pub proof fn trimmed_is_stable(text: Seq<char>)
    ensures
        trimmed(trimmed(text)) == trimmed(text),
{
    trim_start_stops(text);
    trim_end_stops(trim_start(text));
}

/// The text without white space at either end.
pub fn trim(text: &str) -> (r: String)
    ensures
        r@ == trimmed(text@),
{
    let chars: Vec<char> = chars_of(text);
    let n: usize = chars.len();
    let mut from: usize = 0;
    assert(chars@.skip(0) =~= chars@);
    while from < n && white_space(chars[from])
        invariant
            n == chars@.len(),
            from <= n,
            trim_start(chars@) == trim_start(chars@.skip(from as int)),
        decreases n - from,
    {
        assert(chars@.skip(from as int).drop_first() =~= chars@.skip(from + 1));
        from += 1;
    }
    let mut to: usize = n;
    assert(chars@.skip(from as int) =~= chars@.subrange(from as int, n as int));
    while to > from && white_space(chars[to - 1])
        invariant
            n == chars@.len(),
            from <= to <= n,
            trimmed(chars@) == trim_end(chars@.subrange(from as int, to as int)),
        decreases to,
    {
        assert(chars@.subrange(from as int, to as int).drop_last() =~= chars@.subrange(
            from as int,
            to - 1,
        ));
        to -= 1;
    }
    text_of(&chars, from, to)
}

/// The ASCII lower-case form of a character.
pub open spec fn lower_char(c: char) -> char {
    if is_upper(c) {
        ((c as u32) + 32) as char
    } else {
        c
    }
}

pub open spec fn lowered(text: Seq<char>) -> Seq<char> {
    text.map_values(|c: char| lower_char(c))
}

/// A text in small letters stays as it is.
pub proof fn lowered_is_stable(text: Seq<char>)
    ensures
        lowered(lowered(text)) == lowered(text),
{
    assert forall|c: char| lower_char(#[trigger] lower_char(c)) == lower_char(c) by {}
    assert(lowered(lowered(text)) =~= lowered(text));
}

/// The text with each ASCII capital replaced by its small letter.
pub fn lower_text(text: &str) -> (r: String)
    ensures
        r@ == lowered(text@),
{
    let chars: Vec<char> = chars_of(text);
    let mut out: String = String::new();
    let mut i: usize = 0;
    while i < chars.len()
        invariant
            i <= chars@.len(),
            out@ == lowered(chars@.take(i as int)),
        decreases chars@.len() - i,
    {
        let c: char = chars[i];
        if upper(c) {
            out.push(((c as u8) + 32) as char);
        } else {
            out.push(c);
        }
        assert(chars@.take(i + 1) =~= chars@.take(i as int).push(c));
        assert(lowered(chars@.take(i + 1)) =~= lowered(chars@.take(i as int)).push(lower_char(c)));
        i += 1;
    }
    assert(chars@.take(i as int) =~= chars@);
    out
}

/// Whether `a` stands before `b` when texts are ordered character by character.
pub open spec fn before(a: Seq<char>, b: Seq<char>) -> bool
    decreases a.len(),
{
    if b.len() == 0 {
        false
    } else if a.len() == 0 {
        true
    } else if a[0] != b[0] {
        a[0] < b[0]
    } else {
        before(a.drop_first(), b.drop_first())
    }
}

pub proof fn before_is_strict(a: Seq<char>, b: Seq<char>)
    ensures
        before(a, b) ==> !before(b, a) && a != b,
        a != b ==> before(a, b) || before(b, a),
    decreases a.len(),
{
    if a.len() > 0 && b.len() > 0 && a[0] == b[0] {
        before_is_strict(a.drop_first(), b.drop_first());
        assert(a =~= seq![a[0]] + a.drop_first());
        assert(b =~= seq![b[0]] + b.drop_first());
    } else if a.len() == 0 && b.len() == 0 {
        assert(a =~= b);
    }
}

pub proof fn before_is_transitive(a: Seq<char>, b: Seq<char>, c: Seq<char>)
    requires
        before(a, b),
        before(b, c),
    ensures
        before(a, c),
    decreases a.len(),
{
    if a.len() > 0 && a[0] == b[0] && b[0] == c[0] {
        before_is_transitive(a.drop_first(), b.drop_first(), c.drop_first());
    }
}

pub fn text_before(a: &str, b: &str) -> (r: bool)
    ensures
        r == before(a@, b@),
{
    let a: Vec<char> = chars_of(a);
    let b: Vec<char> = chars_of(b);
    let mut i: usize = 0;
    assert(a@.skip(0) =~= a@ && b@.skip(0) =~= b@);
    while i < a.len() && i < b.len() && a[i] == b[i]
        invariant
            i <= a@.len(),
            i <= b@.len(),
            before(a@, b@) == before(a@.skip(i as int), b@.skip(i as int)),
        decreases a@.len() - i,
    {
        assert(a@.skip(i as int).drop_first() =~= a@.skip(i + 1));
        assert(b@.skip(i as int).drop_first() =~= b@.skip(i + 1));
        i += 1;
    }
    if i >= b.len() {
        false
    } else if i >= a.len() {
        true
    } else {
        a[i] < b[i]
    }
}

/// The texts of a list, in order.
pub open spec fn texts(list: Seq<String>) -> Seq<Seq<char>> {
    list.map_values(|text: String| text@)
}

/// Whether `text` is one of the list.
pub fn listed(list: &Vec<String>, text: &str) -> (r: bool)
    ensures
        r == texts(list@).contains(text@),
{
    let mut i: usize = 0;
    while i < list.len()
        invariant
            i <= list@.len(),
            forall|k: int| 0 <= k < i ==> texts(list@)[k] != text@,
        decreases list@.len() - i,
    {
        if same_text(&list[i], text) {
            assert(texts(list@)[i as int] == text@);
            return true;
        }
        i += 1;
    }
    false
}

/// Whether two lists hold the same texts in the same order.
#[verifier::loop_isolation(false)]
pub fn same_texts(a: &Vec<String>, b: &Vec<String>) -> (r: bool)
    ensures
        r == (texts(a@) == texts(b@)),
{
    if a.len() != b.len() {
        assert(texts(a@).len() != texts(b@).len());
        return false;
    }
    let mut i: usize = 0;
    while i < a.len()
        invariant
            i <= a@.len(),
            forall|k: int| 0 <= k < i ==> texts(a@)[k] == texts(b@)[k],
        decreases a@.len() - i,
    {
        if a[i] != b[i] {
            assert(texts(a@)[i as int] != texts(b@)[i as int]);
            return false;
        }
        i += 1;
    }
    assert(texts(a@) =~= texts(b@));
    true
}

/// A copy of the list.
pub fn copy_texts(list: &Vec<String>) -> (r: Vec<String>)
    ensures
        texts(r@) == texts(list@),
        r@ == list@,
{
    let r: Vec<String> = list.clone();
    assert(r@ =~= list@);
    r
}

/// `a` stands before `b` or is the same.
pub open spec fn not_after(a: Seq<char>, b: Seq<char>) -> bool {
    !before(b, a)
}

/// The texts in their order.
pub open spec fn sorted_texts(list: Seq<Seq<char>>) -> Seq<Seq<char>> {
    list.sort_by(|a: Seq<char>, b: Seq<char>| not_after(a, b))
}

proof fn not_after_is_total()
    ensures
        vstd::relations::total_ordering(|a: Seq<char>, b: Seq<char>| not_after(a, b)),
{
    let leq = |a: Seq<char>, b: Seq<char>| not_after(a, b);
    assert forall|a: Seq<char>| #[trigger] leq(a, a) by {
        before_is_strict(a, a);
    }
    assert forall|a: Seq<char>, b: Seq<char>| #[trigger] leq(a, b) && #[trigger] leq(
        b,
        a,
    ) implies a == b by {
        before_is_strict(a, b);
    }
    assert forall|a: Seq<char>, b: Seq<char>, c: Seq<char>| #[trigger] leq(a, b) && #[trigger] leq(
        b,
        c,
    ) implies leq(a, c) by {
        before_is_strict(a, b);
        before_is_strict(b, c);
        before_is_strict(a, c);
        if before(c, a) {
            if a != b {
                before_is_transitive(c, a, b);
            }
        }
    }
    assert forall|a: Seq<char>, b: Seq<char>| #[trigger] leq(a, b) || #[trigger] leq(b, a) by {
        before_is_strict(a, b);
    }
}

/// Sorting keeps the texts, and none of them twice where none was.
pub proof fn sorted_texts_hold_the_same(list: Seq<Seq<char>>)
    ensures
        sorted_texts(list).len() == list.len(),
        forall|text: Seq<char>| #[trigger] sorted_texts(list).contains(text) <==> list.contains(text),
        list.no_duplicates() ==> sorted_texts(list).no_duplicates(),
{
    broadcast use vstd::seq_lib::group_to_multiset_ensures;

    let leq = |a: Seq<char>, b: Seq<char>| not_after(a, b);
    let sorted = sorted_texts(list);
    not_after_is_total();
    list.lemma_sort_by_ensures(leq);
    assert(sorted.len() == sorted.to_multiset().len() && list.len() == list.to_multiset().len());
    assert forall|text: Seq<char>| #[trigger] sorted.contains(text) <==> list.contains(text) by {
        assert(sorted.to_multiset().count(text) == list.to_multiset().count(text));
    }
    if list.no_duplicates() {
        list.lemma_multiset_has_no_duplicates();
        assert forall|x: Seq<char>| sorted.to_multiset().contains(x) implies sorted.to_multiset().count(
            x,
        ) == 1 by {
            assert(list.to_multiset().contains(x));
        }
        sorted.lemma_multiset_has_no_duplicates_conv();
    }
}

/// The list in the order of its texts.
#[verifier::loop_isolation(false)]
pub fn sort_texts(list: &Vec<String>) -> (r: Vec<String>)
    ensures
        texts(r@) == sorted_texts(texts(list@)),
{
    broadcast use vstd::seq_lib::group_to_multiset_ensures;

    let ghost all = texts(list@);
    let ghost leq = |a: Seq<char>, b: Seq<char>| not_after(a, b);
    let mut out: Vec<String> = Vec::new();
    let mut n: usize = 0;
    assert(texts(out@) =~= Seq::<Seq<char>>::empty());
    assert(all.take(0) =~= Seq::<Seq<char>>::empty());
    while n < list.len()
        invariant
            n <= list@.len(),
            texts(out@).to_multiset() == all.take(n as int).to_multiset(),
            vstd::relations::sorted_by(texts(out@), leq),
        decreases list@.len() - n,
    {
        let text: String = list[n].clone();
        let ghost sorted = texts(out@);
        let mut i: usize = 0;
        while i < out.len() && !text_before(&text, &out[i])
            invariant
                i <= out@.len(),
                forall|k: int| 0 <= k < i ==> not_after(#[trigger] sorted[k], text@),
            decreases out@.len() - i,
        {
            i += 1;
        }
        assert forall|k: int| i <= k < sorted.len() implies not_after(
            text@,
            #[trigger] sorted[k],
        ) by {
            before_is_strict(text@, sorted[i as int]);
            if k > i {
                assert(leq(sorted[i as int], sorted[k]));
                before_is_strict(sorted[i as int], sorted[k]);
                if before(sorted[k], text@) {
                    before_is_transitive(sorted[k], text@, sorted[i as int]);
                }
            }
        }
        out.insert(i, text);
        let ghost more = sorted.insert(i as int, text@);
        assert(texts(out@) =~= more);
        assert(vstd::relations::sorted_by(more, leq)) by {
            assert forall|a: int, b: int| 0 <= a < b < more.len() implies #[trigger] leq(
                more[a],
                more[b],
            ) by {
                if a < i && b > i {
                    assert(leq(sorted[a], sorted[b - 1]));
                } else if a < i && b < i {
                    assert(leq(sorted[a], sorted[b]));
                } else if a > i {
                    assert(leq(sorted[a - 1], sorted[b - 1]));
                } else if a == i {
                    assert(more[b] == sorted[b - 1]);
                }
            }
        }
        proof {
            vstd::seq_lib::to_multiset_insert(sorted, i as int, text@);
        }
        assert(all.take(n + 1) =~= all.take(n as int).push(text@));
        n += 1;
    }
    assert(all.take(n as int) =~= all);
    proof {
        not_after_is_total();
        all.lemma_sort_by_ensures(leq);
        vstd::seq_lib::lemma_sorted_unique(texts(out@), sorted_texts(all), leq);
    }
    out
}

/// The decimal digits of a number, without leading zeros.
pub open spec fn decimal(n: nat) -> Seq<char>
    decreases n,
{
    let last: char = (48 + (n % 10)) as u8 as char;
    if n < 10 {
        seq![last]
    } else {
        decimal(n / 10).push(last)
    }
}

pub fn decimal_text(n: u64) -> (r: String)
    ensures
        r@ == decimal(n as nat),
    decreases n,
{
    let last: char = (48 + (n % 10) as u8) as char;
    let mut out: String = if n < 10 {
        String::new()
    } else {
        decimal_text(n / 10)
    };
    out.push(last);
    assert(out@ =~= decimal(n as nat));
    out
}

} // verus!
