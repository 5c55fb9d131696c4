//! The compact form of plain values: what `postcard` writes of them.
//!
//! The fields of a value stand one after the other. A byte and an array of bytes
//! stand as they are; a longer number is a varint; a run of bytes and a text
//! stand behind their length, which is a varint too.

use vstd::prelude::*;

verus! {

/// A number in groups of seven bits, the lowest first. Every byte but the last
/// has its high bit set.
pub open spec fn varint(n: nat) -> Seq<u8>
    decreases n,
{
    if n < 128 {
        seq![n as u8]
    } else {
        seq![(n % 128 + 128) as u8] + varint(n / 128)
    }
}

/// The number at the start of the bytes, with the bytes behind it. It ends within
/// so many places, and in the last place of all it is at most `last`.
pub open spec fn varint_at(bytes: Seq<u8>, places: nat, last: nat) -> Option<(nat, Seq<u8>)>
    decreases places,
{
    if places == 0 || bytes.len() == 0 {
        None
    } else if bytes[0] < 128 {
        if places == 1 && bytes[0] > last {
            None
        } else {
            Some((bytes[0] as nat, bytes.skip(1)))
        }
    } else {
        match varint_at(bytes.skip(1), (places - 1) as nat, last) {
            Some((high, rest)) => Some(((bytes[0] - 128 + 128 * high) as nat, rest)),
            None => None,
        }
    }
}

/// The 16-bit number at the start of the bytes.
pub open spec fn u16_at(bytes: Seq<u8>) -> Option<(u16, Seq<u8>)> {
    match varint_at(bytes, 3, 3) {
        Some((n, rest)) => Some((n as u16, rest)),
        None => None,
    }
}

/// The 64-bit number at the start of the bytes.
pub open spec fn u64_at(bytes: Seq<u8>) -> Option<(u64, Seq<u8>)> {
    match varint_at(bytes, 10, 1) {
        Some((n, rest)) => Some((n as u64, rest)),
        None => None,
    }
}

/// The length at the start of the bytes: a number as wide as the machine's.
pub open spec fn length_at(bytes: Seq<u8>) -> Option<(nat, Seq<u8>)> {
    if usize::MAX == 0xffff_ffff {
        varint_at(bytes, 5, 15)
    } else {
        varint_at(bytes, 10, 1)
    }
}

/// A run of bytes behind its length.
pub open spec fn counted(bytes: Seq<u8>) -> Seq<u8> {
    varint(bytes.len()) + bytes
}

/// The run of bytes at the start, with the bytes behind it.
pub open spec fn counted_at(bytes: Seq<u8>) -> Option<(Seq<u8>, Seq<u8>)> {
    match length_at(bytes) {
        Some((n, rest)) if n <= rest.len() => Some((rest.take(n as int), rest.skip(n as int))),
        _ => None,
    }
}

/// The 32-bit number at the start of the bytes.
pub open spec fn u32_at(bytes: Seq<u8>) -> Option<(u32, Seq<u8>)> {
    match varint_at(bytes, 5, 15) {
        Some((n, rest)) => Some((n as u32, rest)),
        None => None,
    }
}

/// The one byte at the start.
pub open spec fn u8_at(bytes: Seq<u8>) -> Option<(u8, Seq<u8>)> {
    if bytes.len() == 0 {
        None
    } else {
        Some((bytes[0], bytes.skip(1)))
    }
}

/// So many bytes at the start, with the bytes behind them.
pub open spec fn array_at(bytes: Seq<u8>, n: nat) -> Option<(Seq<u8>, Seq<u8>)> {
    if bytes.len() < n {
        None
    } else {
        Some((bytes.take(n as int), bytes.skip(n as int)))
    }
}

/// A truth value is the byte 0 or 1.
pub open spec fn truth_bytes(b: bool) -> Seq<u8> {
    seq![
        if b {
            1u8
        } else {
            0u8
        },
    ]
}

pub open spec fn truth_at(bytes: Seq<u8>) -> Option<(bool, Seq<u8>)> {
    if bytes.len() == 0 || bytes[0] > 1 {
        None
    } else {
        Some((bytes[0] == 1, bytes.skip(1)))
    }
}

/// A text is the run of its UTF-8 bytes.
pub open spec fn text_bytes(text: Seq<char>) -> Seq<u8> {
    counted(vstd::utf8::encode_utf8(text))
}

pub open spec fn text_at(bytes: Seq<u8>) -> Option<(Seq<char>, Seq<u8>)> {
    match counted_at(bytes) {
        Some((text, rest)) if vstd::utf8::valid_utf8(text) => Some(
            (vstd::utf8::decode_utf8(text), rest),
        ),
        _ => None,
    }
}

/// A value that may be missing stands behind the byte 1; the byte 0 stands for a
/// missing one.
pub open spec fn maybe_bytes<T>(value: Option<T>, write: spec_fn(T) -> Seq<u8>) -> Seq<u8> {
    match value {
        Some(value) => seq![1u8] + write(value),
        None => seq![0u8],
    }
}

pub open spec fn maybe_at<T>(
    bytes: Seq<u8>,
    read: spec_fn(Seq<u8>) -> Option<(T, Seq<u8>)>,
) -> Option<(Option<T>, Seq<u8>)> {
    if bytes.len() == 0 || bytes[0] > 1 {
        None
    } else if bytes[0] == 0 {
        Some((None, bytes.skip(1)))
    } else {
        match read(bytes.skip(1)) {
            Some((value, rest)) => Some((Some(value), rest)),
            None => None,
        }
    }
}

/// Items one after the other.
pub open spec fn items_bytes<T>(items: Seq<T>, write: spec_fn(T) -> Seq<u8>) -> Seq<u8>
    decreases items.len(),
{
    if items.len() == 0 {
        Seq::empty()
    } else {
        write(items[0]) + items_bytes(items.drop_first(), write)
    }
}

pub open spec fn items_at<T>(
    bytes: Seq<u8>,
    n: nat,
    read: spec_fn(Seq<u8>) -> Option<(T, Seq<u8>)>,
) -> Option<(Seq<T>, Seq<u8>)>
    decreases n,
{
    if n == 0 {
        Some((Seq::empty(), bytes))
    } else {
        match read(bytes) {
            None => None,
            Some((first, rest)) => match items_at(rest, (n - 1) as nat, read) {
                None => None,
                Some((others, behind)) => Some((seq![first] + others, behind)),
            },
        }
    }
}

/// A list is its items behind their number.
pub open spec fn list_bytes<T>(items: Seq<T>, write: spec_fn(T) -> Seq<u8>) -> Seq<u8> {
    varint(items.len()) + items_bytes(items, write)
}

pub open spec fn list_at<T>(
    bytes: Seq<u8>,
    read: spec_fn(Seq<u8>) -> Option<(T, Seq<u8>)>,
) -> Option<(Seq<T>, Seq<u8>)> {
    match length_at(bytes) {
        Some((n, rest)) => items_at(rest, n, read),
        None => None,
    }
}

/// The fields of a record.
pub open spec fn record_bytes(
    version: u8,
    direction: u8,
    session_id: Seq<u8>,
    seq: u64,
    payload: Seq<u8>,
) -> Seq<u8> {
    seq![version, direction] + session_id + varint(seq as nat) + counted(payload)
}

/// The record at the start of the bytes, with the number of bytes behind it.
pub open spec fn record_at(bytes: Seq<u8>) -> Option<(u8, u8, Seq<u8>, u64, Seq<u8>, nat)> {
    if bytes.len() < 18 {
        None
    } else {
        match u64_at(bytes.skip(18)) {
            None => None,
            Some((seq, behind)) => match counted_at(behind) {
                None => None,
                Some((payload, rest)) => Some(
                    (bytes[0], bytes[1], bytes.subrange(2, 18), seq, payload, rest.len()),
                ),
            },
        }
    }
}

/// The fields of a client's greeting.
pub open spec fn client_hello_bytes(
    version: u16,
    nonce: Seq<u8>,
    issued_at_ms: u64,
    client_id: Seq<char>,
) -> Seq<u8> {
    varint(version as nat) + nonce + varint(issued_at_ms as nat) + counted(
        vstd::utf8::encode_utf8(client_id),
    )
}

/// The client's greeting at the start of the bytes, with the number of bytes
/// behind it.
pub open spec fn client_hello_at(bytes: Seq<u8>) -> Option<(u16, Seq<u8>, u64, Seq<char>, nat)> {
    match u16_at(bytes) {
        Some((version, behind)) if behind.len() >= 32 => match u64_at(behind.skip(32)) {
            Some((issued_at_ms, tail)) => match counted_at(tail) {
                Some((text, rest)) if vstd::utf8::valid_utf8(text) => Some(
                    (
                        version,
                        behind.take(32),
                        issued_at_ms,
                        vstd::utf8::decode_utf8(text),
                        rest.len(),
                    ),
                ),
                _ => None,
            },
            None => None,
        },
        _ => None,
    }
}

/// The fields of a server's greeting.
pub open spec fn server_hello_bytes(
    version: u16,
    client_nonce: Seq<u8>,
    server_nonce: Seq<u8>,
    session_id: Seq<u8>,
    issued_at_ms: u64,
) -> Seq<u8> {
    varint(version as nat) + client_nonce + server_nonce + session_id + varint(issued_at_ms as nat)
}

/// The server's greeting at the start of the bytes, with the number of bytes
/// behind it.
pub open spec fn server_hello_at(bytes: Seq<u8>) -> Option<
    (u16, Seq<u8>, Seq<u8>, Seq<u8>, u64, nat),
> {
    match u16_at(bytes) {
        Some((version, behind)) if behind.len() >= 80 => match u64_at(behind.skip(80)) {
            Some((issued_at_ms, rest)) => Some(
                (
                    version,
                    behind.take(32),
                    behind.subrange(32, 64),
                    behind.subrange(64, 80),
                    issued_at_ms,
                    rest.len(),
                ),
            ),
            None => None,
        },
        _ => None,
    }
}

/// The number has its last group within so many places.
pub open spec fn fits(n: nat, places: nat, last: nat) -> bool
    decreases places,
{
    if places <= 1 {
        places == 1 && n <= last
    } else {
        fits(n / 128, (places - 1) as nat, last)
    }
}

/// A number that was written is read back, and the bytes behind it stay.
pub proof fn a_varint_reads_back(n: nat, places: nat, last: nat, behind: Seq<u8>)
    requires
        fits(n, places, last),
        last < 128,
    ensures
        varint_at(varint(n) + behind, places, last) == Some((n, behind)),
        0 < varint(n).len() <= places,
    decreases places,
{
    let bytes = varint(n) + behind;
    if n < 128 {
        assert(bytes.skip(1) =~= behind);
    } else {
        let high = n / 128;
        a_varint_reads_back(high, (places - 1) as nat, last, behind);
        assert(bytes.skip(1) =~= varint(high) + behind);
        assert(bytes[0] == n % 128 + 128);
    }
}

/// Numbers of each width have room.
pub proof fn numbers_fit(small: u16, large: u64, length: nat)
    requires
        length <= usize::MAX,
    ensures
        fits(small as nat, 3, 3),
        fits(large as nat, 10, 1),
        usize::MAX == 0xffff_ffff ==> fits(length, 5, 15),
        usize::MAX != 0xffff_ffff ==> fits(length, 10, 1),
{
    reveal_with_fuel(fits, 11);
}

/// A run of bytes that was written is read back, and the bytes behind it stay.
pub proof fn a_run_reads_back(bytes: Seq<u8>, behind: Seq<u8>)
    requires
        bytes.len() <= usize::MAX,
    ensures
        counted_at(counted(bytes) + behind) == Some((bytes, behind)),
        bytes.len() < counted(bytes).len() <= bytes.len() + 10,
{
    numbers_fit(0, 0, bytes.len());
    let places: nat = if usize::MAX == 0xffff_ffff {
        5
    } else {
        10
    };
    let last: nat = if usize::MAX == 0xffff_ffff {
        15
    } else {
        1
    };
    a_varint_reads_back(bytes.len(), places, last, bytes + behind);
    assert(counted(bytes) + behind =~= varint(bytes.len()) + (bytes + behind));
    assert((bytes + behind).take(bytes.len() as int) =~= bytes);
    assert((bytes + behind).skip(bytes.len() as int) =~= behind);
}

/// Where a value is written and read back, so is one that may be missing.
pub proof fn a_maybe_reads_back<T>(
    value: Option<T>,
    write: spec_fn(T) -> Seq<u8>,
    read: spec_fn(Seq<u8>) -> Option<(T, Seq<u8>)>,
    behind: Seq<u8>,
)
    requires
        value matches Some(v) ==> read(write(v) + behind) == Some((v, behind)),
    ensures
        maybe_at(maybe_bytes(value, write) + behind, read) == Some((value, behind)),
        maybe_bytes(value, write).len() > 0,
{
    let bytes = maybe_bytes(value, write) + behind;
    match value {
        Some(v) => {
            assert(bytes.skip(1) =~= write(v) + behind);
        },
        None => {
            assert(bytes.skip(1) =~= behind);
        },
    }
}

/// An item is read back, whatever stands behind it.
pub open spec fn reads_back<T>(
    item: T,
    write: spec_fn(T) -> Seq<u8>,
    read: spec_fn(Seq<u8>) -> Option<(T, Seq<u8>)>,
) -> bool {
    forall|behind: Seq<u8>| read(#[trigger] (write(item) + behind)) == Some((item, behind))
}

pub proof fn items_read_back<T>(
    items: Seq<T>,
    write: spec_fn(T) -> Seq<u8>,
    read: spec_fn(Seq<u8>) -> Option<(T, Seq<u8>)>,
    behind: Seq<u8>,
)
    requires
        forall|i: int| 0 <= i < items.len() ==> reads_back(#[trigger] items[i], write, read),
    ensures
        items_at(items_bytes(items, write) + behind, items.len(), read) == Some((items, behind)),
    decreases items.len(),
{
    if items.len() == 0 {
        assert(items_bytes(items, write) + behind =~= behind);
        assert(items =~= Seq::<T>::empty());
    } else {
        let others = items.drop_first();
        let tail = items_bytes(others, write) + behind;
        assert forall|i: int| 0 <= i < others.len() implies reads_back(
            #[trigger] others[i],
            write,
            read,
        ) by {
            assert(reads_back(items[i + 1], write, read));
        }
        items_read_back(others, write, read, behind);
        assert(items_bytes(items, write) + behind =~= write(items[0]) + tail);
        assert(reads_back(items[0], write, read));
        assert(seq![items[0]] + others =~= items);
    }
}

/// Where each item is written and read back, so is their list.
pub proof fn a_list_reads_back<T>(
    items: Seq<T>,
    write: spec_fn(T) -> Seq<u8>,
    read: spec_fn(Seq<u8>) -> Option<(T, Seq<u8>)>,
    behind: Seq<u8>,
)
    requires
        items.len() <= usize::MAX,
        forall|i: int| 0 <= i < items.len() ==> reads_back(#[trigger] items[i], write, read),
    ensures
        list_at(list_bytes(items, write) + behind, read) == Some((items, behind)),
{
    items_read_back(items, write, read, behind);
    a_length_reads_back(items.len(), items_bytes(items, write) + behind);
    assert(list_bytes(items, write) + behind =~= varint(items.len()) + (items_bytes(items, write)
        + behind));
}

pub proof fn a_length_reads_back(n: nat, behind: Seq<u8>)
    requires
        n <= usize::MAX,
    ensures
        length_at(varint(n) + behind) == Some((n, behind)),
{
    numbers_fit(0, 0, n);
    if usize::MAX == 0xffff_ffff {
        a_varint_reads_back(n, 5, 15, behind);
    } else {
        a_varint_reads_back(n, 10, 1, behind);
    }
}

/// A text of a size that memory can hold is read back.
pub proof fn a_text_reads_back(text: Seq<char>, behind: Seq<u8>)
    requires
        vstd::utf8::encode_utf8(text).len() <= usize::MAX,
    ensures
        text_at(text_bytes(text) + behind) == Some((text, behind)),
{
    a_run_reads_back(vstd::utf8::encode_utf8(text), behind);
    vstd::utf8::encode_utf8_valid_utf8(text);
    vstd::utf8::encode_utf8_decode_utf8(text);
}

/// Numbers are read back.
pub proof fn numbers_read_back(small: u16, middle: u32, large: u64, behind: Seq<u8>)
    ensures
        u16_at(varint(small as nat) + behind) == Some((small, behind)),
        u32_at(varint(middle as nat) + behind) == Some((middle, behind)),
        u64_at(varint(large as nat) + behind) == Some((large, behind)),
{
    numbers_fit(small, large, 0);
    assert(fits(middle as nat, 5, 15)) by {
        reveal_with_fuel(fits, 6);
    }
    a_varint_reads_back(small as nat, 3, 3, behind);
    a_varint_reads_back(middle as nat, 5, 15, behind);
    a_varint_reads_back(large as nat, 10, 1, behind);
}

/// A byte, a truth value and an array are read back.
pub proof fn bytes_read_back(byte: u8, truth: bool, array: Seq<u8>, behind: Seq<u8>)
    ensures
        u8_at(seq![byte] + behind) == Some((byte, behind)),
        truth_at(truth_bytes(truth) + behind) == Some((truth, behind)),
        array_at(array + behind, array.len()) == Some((array, behind)),
{
    assert((seq![byte] + behind).skip(1) =~= behind);
    assert((truth_bytes(truth) + behind).skip(1) =~= behind);
    assert((array + behind).take(array.len() as int) =~= array);
    assert((array + behind).skip(array.len() as int) =~= behind);
}

/// A character takes at most four bytes.
pub proof fn a_text_is_bounded(text: Seq<char>)
    ensures
        vstd::utf8::encode_utf8(text).len() <= 4 * text.len(),
    decreases text.len(),
{
    if text.len() > 0 {
        a_text_is_bounded(text.drop_first());
    }
}

/// A record that was written is read back whole.
pub proof fn a_record_reads_back(
    version: u8,
    direction: u8,
    session_id: Seq<u8>,
    seq: u64,
    payload: Seq<u8>,
)
    requires
        session_id.len() == 16,
        payload.len() <= usize::MAX,
    ensures
        record_at(record_bytes(version, direction, session_id, seq, payload)) == Some(
            (version, direction, session_id, seq, payload, 0nat),
        ),
        0 < record_bytes(version, direction, session_id, seq, payload).len() <= payload.len() + 38,
{
    let bytes = record_bytes(version, direction, session_id, seq, payload);
    numbers_fit(0, seq, payload.len());
    a_varint_reads_back(seq as nat, 10, 1, counted(payload));
    a_run_reads_back(payload, Seq::empty());
    assert(bytes.skip(18) =~= varint(seq as nat) + counted(payload));
    assert(counted(payload) =~= counted(payload) + Seq::<u8>::empty());
    assert(bytes.subrange(2, 18) =~= session_id);
}

/// A client's greeting that was written is read back whole.
pub proof fn a_client_hello_reads_back(
    version: u16,
    nonce: Seq<u8>,
    issued_at_ms: u64,
    client_id: Seq<char>,
)
    requires
        nonce.len() == 32,
        vstd::utf8::encode_utf8(client_id).len() <= usize::MAX,
    ensures
        client_hello_at(client_hello_bytes(version, nonce, issued_at_ms, client_id)) == Some(
            (version, nonce, issued_at_ms, client_id, 0nat),
        ),
        0 < client_hello_bytes(version, nonce, issued_at_ms, client_id).len()
            <= vstd::utf8::encode_utf8(client_id).len() + 55,
{
    let text = vstd::utf8::encode_utf8(client_id);
    let tail = varint(issued_at_ms as nat) + counted(text);
    numbers_fit(version, issued_at_ms, text.len());
    a_varint_reads_back(version as nat, 3, 3, nonce + tail);
    a_varint_reads_back(issued_at_ms as nat, 10, 1, counted(text));
    a_run_reads_back(text, Seq::empty());
    vstd::utf8::encode_utf8_valid_utf8(client_id);
    vstd::utf8::encode_utf8_decode_utf8(client_id);
    assert(client_hello_bytes(version, nonce, issued_at_ms, client_id) =~= varint(version as nat) + (
    nonce + tail));
    assert((nonce + tail).skip(32) =~= tail);
    assert((nonce + tail).take(32) =~= nonce);
    assert(counted(text) =~= counted(text) + Seq::<u8>::empty());
}

/// A server's greeting that was written is read back whole.
pub proof fn a_server_hello_reads_back(
    version: u16,
    client_nonce: Seq<u8>,
    server_nonce: Seq<u8>,
    session_id: Seq<u8>,
    issued_at_ms: u64,
)
    requires
        client_nonce.len() == 32,
        server_nonce.len() == 32,
        session_id.len() == 16,
    ensures
        server_hello_at(
            server_hello_bytes(version, client_nonce, server_nonce, session_id, issued_at_ms),
        ) == Some((version, client_nonce, server_nonce, session_id, issued_at_ms, 0nat)),
        0 < server_hello_bytes(
            version,
            client_nonce,
            server_nonce,
            session_id,
            issued_at_ms,
        ).len() <= 93,
{
    let behind = client_nonce + server_nonce + session_id + varint(issued_at_ms as nat);
    numbers_fit(version, issued_at_ms, 0);
    a_varint_reads_back(version as nat, 3, 3, behind);
    a_varint_reads_back(issued_at_ms as nat, 10, 1, Seq::empty());
    assert(server_hello_bytes(version, client_nonce, server_nonce, session_id, issued_at_ms)
        =~= varint(version as nat) + behind);
    assert(behind.skip(80) =~= varint(issued_at_ms as nat) + Seq::<u8>::empty());
    assert(behind.take(32) =~= client_nonce);
    assert(behind.subrange(32, 64) =~= server_nonce);
    assert(behind.subrange(64, 80) =~= session_id);
}

} // verus!
