//! What is read from a form, and when it is complained of.

use crate::config::{has_control, is_target, mac_read, AllowedClient};
use crate::forms::{
    client_endpoint_fault, credential_form_fault, host_form_fault, is_endpoint_host, is_form_id,
    listen_fault, one_line, permission_count, port_read, removed_count, skew_read, spaced, unsigned,
    words,
};
use crate::net::{ip_literal, number, split};
use crate::text::{byte_count, is_alnum, is_control, is_white_space, texts, trimmed};
use vstd::prelude::*;

verus! {

/// The characters of a kind are those of ASCII, blanks and controls those of Unicode.
pub proof fn characters_are_of_their_kind(c: char)
    ensures
        is_alnum(c) <==> ('0' <= c <= '9') || ('a' <= c <= 'z') || ('A' <= c <= 'Z'),
        is_control(c) <==> (c as u32) < 32 || 127 <= c as u32 <= 159,
        is_white_space(c) <==> (9 <= c as u32 <= 13) || c as u32 == 32 || c as u32 == 0x85 || c as u32
            == 0xa0 || c as u32 == 0x1680 || (0x2000 <= c as u32 <= 0x200a) || c as u32 == 0x2028
            || c as u32 == 0x2029 || c as u32 == 0x202f || c as u32 == 0x205f || c as u32 == 0x3000,
{
}

/// A number without a sign is read from its digits, with or without a plus before
/// them, exactly if it is no larger than the limit.
pub proof fn a_number_of_a_form_is_its_digits(text: Seq<char>, max: nat)
    ensures
        text.len() > 0 && text[0] != '+' ==> (unsigned(text, max) is Some <==> number(text, 10) is Some
            && number(text, 10)->0 <= max),
        text.len() > 0 && text[0] != '+' && unsigned(text, max) is Some ==> unsigned(text, max)
            == number(text, 10),
        text.len() > 0 && text[0] != '+' ==> unsigned(seq!['+'] + text, max) == unsigned(text, max),
        text.len() == 0 ==> unsigned(text, max) is None && unsigned(seq!['+'], max) is None,
        unsigned(seq!['+', '+'] + text, max) is None,
{
    let signed = seq!['+'] + text;
    assert(signed.drop_first() =~= text);
    let twice = seq!['+', '+'] + text;
    assert(twice.drop_first() =~= signed);
    plus_is_no_digit(text);
    if text.len() == 0 {
        assert(seq!['+'].drop_first() =~= Seq::<char>::empty());
    }
}

proof fn plus_is_no_digit(text: Seq<char>)
    ensures
        number(seq!['+'] + text, 10) is None,
    decreases text.len(),
{
    let signed = seq!['+'] + text;
    if text.len() > 0 {
        plus_is_no_digit(text.drop_last());
        assert(signed.drop_last() =~= seq!['+'] + text.drop_last());
    } else {
        assert(signed.last() == '+');
    }
}

/// A port is a number from 1024 to 65535, a tolerance of the clock one from 1 to 60.
pub proof fn a_port_and_a_tolerance_are_in_range(text: Seq<char>)
    ensures
        port_read(text) is Ok <==> unsigned(text, 65535) is Some && 1024 <= unsigned(
            text,
            65535,
        )->0,
        port_read(text) is Ok ==> port_read(text)->Ok_0 == unsigned(text, 65535)->0,
        skew_read(text) is Ok <==> unsigned(text, u64::MAX as nat) is Some && 1 <= unsigned(
            text,
            u64::MAX as nat,
        )->0 <= 60,
        skew_read(text) is Ok ==> skew_read(text)->Ok_0 == unsigned(text, u64::MAX as nat)->0,
{
}

/// The identifier of a form is plain: letters and digits, with dashes and underscores
/// between them, 64 of them at most.
pub proof fn an_identifier_of_a_form_is_plain(id: Seq<char>)
    ensures
        is_form_id(id) <==> {
            let edge = |c: char|
                ('a' <= c <= 'z') || ('A' <= c <= 'Z') || ('0' <= c <= '9');
            &&& 1 <= id.len() <= 64
            &&& edge(id[0])
            &&& edge(id[id.len() - 1])
            &&& forall|i: int|
                0 <= i < id.len() ==> {
                    let c = #[trigger] id[i];
                    edge(c) || c == '_' || c == '-'
                }
        },
{
    if is_form_id(id) {
        assert forall|i: int| 0 <= i < id.len() implies ({
            let c = #[trigger] id[i];
            ('a' <= c <= 'z') || ('A' <= c <= 'Z') || ('0' <= c <= '9') || c == '_' || c == '-'
        }) by {
            assert(crate::forms::is_form_char(id[i]));
        }
    }
}

/// The form of a host is accepted exactly if each of its five fields is.
pub proof fn a_host_form_is_accepted_exactly_if_its_fields_are(values: Seq<Seq<char>>)
    ensures
        host_form_fault(values) is None <==> {
            let interface = unsigned(values[4], 4294967295);
            &&& values.len() == 5
            &&& is_form_id(values[0])
            &&& trimmed(values[0]).len() > 0
            &&& trimmed(values[1]).len() > 0
            &&& byte_count(values[1]) <= 128
            &&& !has_control(values[1])
            &&& trimmed(values[2]).len() > 0
            &&& byte_count(values[2]) <= 20
            &&& mac_read(values[2]) is Some
            &&& trimmed(values[3]).len() > 0
            &&& ip_literal(values[3]) is Some
            &&& interface is Some
            &&& is_target(ip_literal(values[3])->0, interface->0 as u32, false)
        },
{
}

/// An address to listen at is accepted exactly if it is one of the wanted kind.
pub proof fn a_listening_address_is_of_its_kind(value: Seq<char>)
    ensures
        listen_fault(value, None) is None <==> trimmed(value).len() > 0 && ip_literal(
            trimmed(value),
        ) is Some,
        listen_fault(value, Some(true)) is None <==> trimmed(value).len() > 0 && ip_literal(
            trimmed(value),
        ) is Some && ip_literal(trimmed(value))->0 is V6,
        listen_fault(value, Some(false)) is None <==> trimmed(value).len() > 0 && ip_literal(
            trimmed(value),
        ) is Some && ip_literal(trimmed(value))->0 is V4,
{
}

/// The form of a credential is accepted exactly if it has a label and a file of the
/// right name, neither too long nor with controls, and allows some host.
pub proof fn a_credential_form_is_accepted_exactly_if_its_fields_are(
    label: Seq<char>,
    output: Seq<char>,
    allowed: nat,
)
    ensures
        credential_form_fault(label, output, allowed) is None <==> {
            &&& trimmed(label).len() > 0
            &&& byte_count(trimmed(label)) <= 128
            &&& !has_control(trimmed(label))
            &&& allowed > 0
            &&& trimmed(output).len() > 0
            &&& byte_count(trimmed(output)) <= 240
            &&& !has_control(trimmed(output))
            &&& ".credential.toml"@.is_suffix_of(trimmed(output))
        },
{
}

/// An endpoint is accepted exactly if its host is an address or a name of labels, with
/// or without the dot of the root, and its port is one.
pub proof fn an_endpoint_is_accepted_exactly_if_its_parts_are(
    address: Seq<char>,
    port: Seq<char>,
    name: Seq<char>,
)
    ensures
        client_endpoint_fault(address, port) is None <==> address.len() > 0 && byte_count(address)
            <= 253 && is_endpoint_host(address) && port_read(port) is Ok,
        ip_literal(name) is Some ==> is_endpoint_host(name),
        name.len() > 0 && name.last() != '.' && ip_literal(name) is None ==> (is_endpoint_host(name)
            <==> forall|i: int|
            0 <= i < split(name, '.').len() ==> crate::config::is_label(
                #[trigger] split(name, '.')[i],
            )),
        name.len() > 0 && name.last() != '.' && ip_literal(name) is None && ip_literal(
            name.push('.'),
        ) is None ==> (is_endpoint_host(name.push('.')) <==> is_endpoint_host(name)),
{
    assert(name.push('.').drop_last() =~= name);
}

/// The hosts that all clients may wake add up, and so do those that they lose.
pub proof fn permissions_add_up(
    clients: Seq<AllowedClient>,
    more: Seq<AllowedClient>,
    valid: Seq<Seq<char>>,
)
    ensures
        permission_count(clients + more) == permission_count(clients) + permission_count(more),
        removed_count(clients + more, valid) == removed_count(clients, valid) + removed_count(
            more,
            valid,
        ),
        clients.len() == 0 ==> permission_count(clients) == 0 && removed_count(clients, valid) == 0,
        clients.len() == 1 ==> permission_count(clients) == clients[0].allowed_hosts@.len(),
        clients.len() == 1 ==> removed_count(clients, valid) == clients[0].allowed_hosts@.len()
            - crate::forms::kept_hosts(texts(clients[0].allowed_hosts@), valid).len(),
    decreases more.len(),
{
    reveal_with_fuel(permission_count, 2);
    reveal_with_fuel(removed_count, 2);
    if more.len() > 0 {
        permissions_add_up(clients, more.drop_last(), valid);
        assert((clients + more).drop_last() =~= clients + more.drop_last());
    } else {
        assert(clients + more =~= clients);
    }
}

/// The text holds no white space.
pub open spec fn is_solid(text: Seq<char>) -> bool {
    forall|i: int| 0 <= i < text.len() ==> !is_white_space(#[trigger] text[i])
}

proof fn there_is_a_last_word(text: Seq<char>)
    ensures
        text.len() > 0 && !is_white_space(text.last()) ==> words(text).len() > 0,
    decreases text.len(),
{
    if text.len() >= 2 && !is_white_space(text.last()) && !is_white_space(text[text.len() - 2]) {
        assert(text.drop_last().last() == text[text.len() - 2]);
        there_is_a_last_word(text.drop_last());
    }
}

/// White space cuts a text into words, however much there is of it, and nothing else
/// does.
pub proof fn white_space_cuts_words(first: Seq<char>, blank: char, second: Seq<char>)
    requires
        is_white_space(blank),
    ensures
        words(first.push(blank) + second) == words(first) + words(second),
        first.len() > 0 && is_solid(first) ==> words(first) == seq![first],
        first.len() == 0 ==> words(first) == Seq::<Seq<char>>::empty(),
{
    blanks_part(first, blank, second);
    a_solid_text_is_one_word(first);
}

proof fn a_solid_text_is_one_word(text: Seq<char>)
    ensures
        text.len() > 0 && is_solid(text) ==> words(text) == seq![text],
    decreases text.len(),
{
    if text.len() > 0 && is_solid(text) {
        let front = text.drop_last();
        assert(!is_white_space(text[text.len() - 1]));
        if text.len() >= 2 {
            assert(!is_white_space(text[text.len() - 2]));
            assert forall|i: int| 0 <= i < front.len() implies !is_white_space(
                #[trigger] front[i],
            ) by {
                assert(!is_white_space(text[i]));
            }
            a_solid_text_is_one_word(front);
            assert(seq![front].update(0, front.push(text.last())) =~= seq![text]) by {
                assert(front.push(text.last()) =~= text);
            }
        } else {
            assert(words(front) =~= Seq::empty());
            assert(seq![text.last()] =~= text);
            assert(words(text) =~= seq![text]);
        }
    }
}

proof fn blanks_part(first: Seq<char>, blank: char, second: Seq<char>)
    requires
        is_white_space(blank),
    ensures
        words(first.push(blank) + second) == words(first) + words(second),
    decreases second.len(),
{
    let start = first.push(blank);
    let whole = start + second;
    if second.len() == 0 {
        assert(whole =~= start);
        assert(start.drop_last() =~= first);
        assert(words(first) + words(second) =~= words(first));
    } else {
        let front = second.drop_last();
        blanks_part(first, blank, front);
        assert(whole.drop_last() =~= start + front);
        assert(whole.last() == second.last());
        if is_white_space(second.last()) {
        } else if second.len() >= 2 && !is_white_space(second[second.len() - 2]) {
            assert(whole[whole.len() - 2] == second[second.len() - 2]);
            assert(front.last() == second[second.len() - 2]);
            there_is_a_last_word(front);
            let a = words(first);
            let b = words(front);
            let last = b.last().push(second.last());
            assert((a + b).last() == b.last());
            assert((a + b).update((a + b).len() - 1, last) =~= a + b.update(b.len() - 1, last));
        } else {
            if second.len() == 1 {
                assert(whole[whole.len() - 2] == blank);
            } else {
                assert(whole[whole.len() - 2] == second[second.len() - 2]);
            }
            assert((words(first) + words(front)).push(seq![second.last()]) =~= words(first)
                + words(front).push(seq![second.last()]));
        }
    }
}

/// Words that are put on a line can be told apart again, and only single blanks stand
/// between them.
pub proof fn spaced_words_are_told_apart(list: Seq<Seq<char>>, i: int)
    requires
        forall|k: int| 0 <= k < list.len() ==> (#[trigger] list[k]).len() > 0 && is_solid(list[k]),
    ensures
        words(spaced(list)) == list,
        0 <= i < spaced(list).len() && is_white_space(spaced(list)[i]) ==> spaced(list)[i] == ' ',
    decreases list.len(),
{
    if list.len() == 0 {
        assert(words(spaced(list)) =~= list);
    } else if list.len() == 1 {
        a_solid_text_is_one_word(list[0]);
        assert(seq![list[0]] =~= list);
    } else {
        let front = list.drop_last();
        let last = list.last();
        assert forall|k: int| 0 <= k < front.len() implies (#[trigger] front[k]).len() > 0
            && is_solid(front[k]) by {
            assert(front[k] == list[k]);
        }
        assert(last == list[list.len() - 1]);
        spaced_words_are_told_apart(front, i);
        let line = spaced(front);
        blanks_part(line, ' ', last);
        a_solid_text_is_one_word(last);
        assert(line + seq![' '] + last =~= line.push(' ') + last);
        assert(front + seq![last] =~= list);
        let whole = spaced(list);
        if 0 <= i < whole.len() && i > line.len() {
            assert(whole[i] == last[i - line.len() - 1]);
        }
    }
}

proof fn words_are_solid(text: Seq<char>, i: int)
    ensures
        0 <= i < words(text).len() ==> words(text)[i].len() > 0 && is_solid(words(text)[i]),
    decreases text.len(),
{
    if text.len() > 0 {
        let front = words(text.drop_last());
        words_are_solid(text.drop_last(), i);
        words_are_solid(text.drop_last(), front.len() - 1);
        if 0 <= i < words(text).len() && !is_white_space(text.last()) {
            let word = words(text)[i];
            if text.len() >= 2 && !is_white_space(text[text.len() - 2]) {
                assert(text.drop_last().last() == text[text.len() - 2]);
                there_is_a_last_word(text.drop_last());
                if i == front.len() - 1 {
                    assert(word == front.last().push(text.last()));
                    assert forall|k: int| 0 <= k < word.len() implies !is_white_space(
                        #[trigger] word[k],
                    ) by {
                        if k < front.last().len() {
                            assert(word[k] == front.last()[k]);
                        }
                    }
                }
            } else if i == front.len() {
                assert(word =~= seq![text.last()]);
            }
        }
    }
}

/// A message on one line has the words of the message, with single blanks between them;
/// one of more than 240 characters is cut there, which three dots show.
pub proof fn a_message_fits_on_a_line(message: Seq<char>, i: int)
    ensures
        one_line(message).len() <= 243,
        spaced(words(message)).len() <= 240 ==> words(one_line(message)) == words(message),
        spaced(words(message)).len() <= 240 ==> one_line(message) == spaced(words(message)),
        spaced(words(message)).len() > 240 ==> one_line(message).len() == 243 && one_line(
            message,
        ).take(240) == spaced(words(message)).take(240) && one_line(message).skip(240) == "..."@,
        0 <= i < one_line(message).len() && is_white_space(one_line(message)[i]) ==> one_line(
            message,
        )[i] == ' ',
{
    let list = words(message);
    let line = spaced(list);
    assert forall|k: int| 0 <= k < list.len() implies (#[trigger] list[k]).len() > 0 && is_solid(
        list[k],
    ) by {
        words_are_solid(message, k);
    }
    spaced_words_are_told_apart(list, i);
    reveal_strlit("...");
    if line.len() > 240 {
        let cut = line.take(240) + "..."@;
        assert(cut.take(240) =~= line.take(240));
        assert(cut.skip(240) =~= "..."@);
        if 240 <= i < cut.len() {
            assert(cut[i] == '.');
        }
    }
}

} // verus!
