//! What goes through a secure channel, and what it rests on.

use crate::channel::{
    be_bytes, be_value, buffered, framed, record_in, Buffered, ChannelModel, ConnectionModel,
    RecordModel,
};
use crate::protocol::HeaderModel;
use crate::security::SecurityError;
use crate::snapshot::{all_prefixed, be_long, digest_input, headers_prefixed, prefixed};
use vstd::prelude::*;
use vstd::utf8::encode_utf8;

verus! {

/// A number of four bytes has its highest byte first.
pub proof fn the_highest_byte_comes_first(a: u8, b: u8, c: u8, d: u8)
    ensures
        be_value(seq![a, b, c, d]) == ((a * 256 + b) * 256 + c) * 256 + d,
        be_bytes((((a * 256 + b) * 256 + c) * 256 + d) as nat) == seq![a, b, c, d],
{
    let n: nat = (((a * 256 + b) * 256 + c) * 256 + d) as nat;
    assert(n / 16777216 == a && (n / 65536) % 256 == b && (n / 256) % 256 == c && n % 256 == d)
        by (nonlinear_arith)
        requires
            n == ((a * 256 + b) * 256 + c) * 256 + d,
            0 <= a < 256,
            0 <= b < 256,
            0 <= c < 256,
            0 <= d < 256,
    ;
    assert(be_bytes(n) =~= seq![a, b, c, d]);
}

/// A record is whole exactly if all the bytes that its length names are there; a length
/// of zero, or of more than 65536, is that of no record.
pub proof fn a_record_is_whole_exactly_if_all_its_bytes_are_there(bytes: Seq<u8>)
    ensures
        buffered(bytes) is Short <==> bytes.len() < 4,
        buffered(bytes) is Bad <==> bytes.len() >= 4 && (be_value(bytes) == 0 || be_value(bytes)
            > 65536),
        buffered(bytes) is Whole <==> bytes.len() >= 4 && 0 < be_value(bytes) <= 65536
            && bytes.len() - 4 >= be_value(bytes),
        buffered(bytes) is Whole ==> buffered(bytes) == Buffered::Whole(4 + be_value(bytes)),
        buffered(bytes) is Part <==> bytes.len() >= 4 && 0 < be_value(bytes) <= 65536 && bytes.len()
            - 4 < be_value(bytes),
{
}

/// The two ends of a new channel face each other, in both directions, and nothing has
/// gone through it.
pub proof fn two_ends_face_each_other(session_id: [u8; 16])
    ensures
        ({
            let client = ChannelModel::started(session_id, true);
            let server = ChannelModel::started(session_id, false);
            &&& client.faces(server)
            &&& server.faces(client)
            &&& client.outbound_direction != server.outbound_direction
            &&& client.outbound_direction == 0
            &&& client.send_seq == 0 && client.recv_seq == 0 && server.send_seq == 0
                && server.recv_seq == 0
            &&& client.read_buffer.len() == 0 && server.read_buffer.len() == 0
        }),
{
}

/// A payload can be sent exactly if the channel is open, the payload has from 1 to
/// 32768 bytes, and numbers are left for its record.
pub proof fn a_payload_can_be_sent_exactly_if_it_fits(channel: ChannelModel, payload: Seq<u8>)
    ensures
        channel.send_fault(payload) is None <==> !channel.closed && 1 <= payload.len() <= 32768
            && channel.send_seq < u64::MAX,
        channel.closed ==> channel.send_fault(payload) == Some(SecurityError::Transport),
        !channel.closed && !(1 <= payload.len() <= 32768) ==> channel.send_fault(payload) == Some(
            SecurityError::FrameTooLarge,
        ),
        !channel.closed && 1 <= payload.len() <= 32768 && channel.send_seq == u64::MAX
            ==> channel.send_fault(payload) == Some(SecurityError::Sequence),
        channel.next_record(payload) == (RecordModel {
            version: 1,
            direction: channel.outbound_direction,
            session_id: channel.session_id@,
            seq: channel.send_seq,
            payload,
        }),
        channel.send_seq < u64::MAX ==> channel.after_send() == (ChannelModel {
            send_seq: (channel.send_seq + 1) as u64,
            ..channel
        }),
{
}

/// A payload is taken exactly out of a record that could be decrypted, of the right
/// version, direction, session and number, and not empty. Anything else shuts the
/// channel.
pub proof fn a_payload_is_taken_exactly_if_its_record_is_expected(
    channel: ChannelModel,
    plain: Option<Seq<u8>>,
)
    ensures
        ({
            let record = record_in(plain->0)->Ok_0;
            let expected = plain is Some && record_in(plain->0) is Ok && record.version == 1
                && record.direction == channel.inbound_direction && record.session_id
                == channel.session_id@ && record.seq == channel.recv_seq && record.payload.len() > 0
                && channel.recv_seq < u64::MAX;
            &&& channel.opened(plain) is Ok <==> expected
            &&& expected ==> channel.opened(plain)->Ok_0 == record.payload
            &&& expected ==> channel.after_open(plain) == (ChannelModel {
                recv_seq: (channel.recv_seq + 1) as u64,
                ..channel
            })
            &&& !expected ==> channel.after_open(plain).closed
            &&& !expected ==> channel.after_open(plain) == (ChannelModel { closed: true, ..channel })
        }),
        plain is Some && record_in(plain->0) is Ok ==> 1 <= plain->0.len() <= 65536 && record_in(
            plain->0,
        )->Ok_0.payload.len() <= 32768,
{
}

/// What is sent is the encrypted record of the payload behind its length, and the next
/// one gets the next number; where it cannot be encrypted the channel is shut.
pub proof fn a_sent_payload_is_encrypted(
    before: ConnectionModel,
    payload: Seq<u8>,
    outcome: Result<Vec<u8>, SecurityError>,
    after: ConnectionModel,
)
    requires
        before.is_sent(payload, outcome, after),
    ensures
        ({
            let sendable = !before.channel.closed && 1 <= payload.len() <= 32768
                && before.channel.send_seq < u64::MAX;
            let record = RecordModel {
                version: 1,
                direction: before.channel.outbound_direction,
                session_id: before.channel.session_id@,
                seq: before.channel.send_seq,
                payload,
            };
            &&& outcome is Ok ==> sendable
            &&& !sendable ==> after.steps == before.steps
            &&& sendable ==> after.steps.len() == before.steps.len() + 1 && after.steps.drop_last()
                == before.steps && after.steps.last() is Wrote && after.steps.last()->payload
                == record.bytes()
            &&& sendable && outcome is Ok ==> {
                &&& after.steps.last()->made is Some
                &&& outcome->Ok_0@.len() == 4 + record.bytes().len() + 16
                &&& outcome->Ok_0@.skip(4) == after.steps.last()->made->0
                &&& after.channel.send_seq == before.channel.send_seq + 1
                &&& !after.channel.closed
            }
            &&& sendable && outcome is Err ==> after.channel.closed
            &&& after.channel.recv_seq == before.channel.recv_seq
            &&& after.channel.session_id == before.channel.session_id
            &&& before.channel.closed ==> after == before
        }),
{
    let fault = before.channel.send_fault(payload);
    if fault is None {
        let made = after.steps.last()->made;
        let plain = before.channel.next_record(payload).bytes();
        assert(after.steps.drop_last() =~= before.steps);
        if made is Some {
            assert(framed(made->0).skip(4) =~= made->0);
        }
    }
}

/// What arrives is taken record by record: the message is the bytes behind the length,
/// what stands behind it stays, and a record that is not whole waits for more.
pub proof fn an_arrived_record_is_taken(
    before: ConnectionModel,
    outcome: Result<Option<Vec<u8>>, SecurityError>,
    after: ConnectionModel,
)
    requires
        before.is_polled(outcome, after),
    ensures
        ({
            let bytes = before.channel.read_buffer;
            let size = be_value(bytes);
            let whole = bytes.len() >= 4 && 0 < size <= 65536 && bytes.len() - 4 >= size;
            let bad = bytes.len() >= 4 && (size == 0 || size > 65536);
            &&& before.channel.closed ==> outcome is Err && after == before
            &&& !before.channel.closed && bad ==> outcome is Err && after.channel.closed
            &&& !before.channel.closed && !bad && !whole ==> outcome is Ok && outcome->Ok_0 is None
                && after == before
            &&& !before.channel.closed && whole ==> {
                &&& after.channel.read_buffer == bytes.skip(4 + size as int)
                &&& after.steps.len() == before.steps.len() + 1
                &&& after.steps.drop_last() == before.steps
                &&& after.steps.last() is Read
                &&& after.steps.last()->message == bytes.subrange(4, 4 + size as int)
                &&& outcome is Ok ==> outcome->Ok_0 is Some && !after.channel.closed
                    && after.channel.recv_seq == before.channel.recv_seq + 1
                    && after.steps.last()->found is Some && record_in(
                    after.steps.last()->found->0,
                ) is Ok && outcome->Ok_0->0@ == record_in(
                    after.steps.last()->found->0,
                )->Ok_0.payload
                &&& outcome is Err ==> after.channel.closed && after.channel.recv_seq
                    == before.channel.recv_seq
            }
            &&& after.channel.send_seq == before.channel.send_seq
        }),
{
    if !before.channel.closed && buffered(before.channel.read_buffer) is Whole {
        assert(after.steps.drop_last() =~= before.steps);
    }
}

/// The keys of a handshake are made from the shared secret, each under its own label,
/// and never used for anything but this version of the protocol.
pub proof fn the_keys_of_a_handshake_have_their_labels(
    psk: Seq<u8>,
    private: Seq<u8>,
    remote: Seq<u8>,
    message: Seq<u8>,
)
    ensures
        ({
            let prologue = encode_utf8("RemoteOpenPower/tcp/v1/noise-ikpsk0+psk2"@);
            let pattern = "Noise_IKpsk0+psk2_25519_ChaChaPoly_BLAKE2s"@;
            let first = crate::crypto::sha256(prologue + encode_utf8("psk0"@) + psk);
            let last = crate::crypto::sha256(prologue + encode_utf8("psk2"@) + psk);
            &&& crate::handshake::opens_to(psk, private, remote)
                == crate::noise::initiator_builds(
                pattern,
                private,
                (0u8, first),
                (2u8, last),
                prologue,
                remote,
            )
            &&& crate::handshake::answers_with(psk, private) == crate::noise::responder_builds(
                pattern,
                private,
                (0u8, first),
                (2u8, last),
                prologue,
            )
            &&& crate::handshake::heard_plain(psk, private, message) == crate::noise::first_plain(
                pattern,
                private,
                (0u8, first),
                (2u8, last),
                prologue,
                message,
                8192,
            )
            &&& crate::handshake::heard_remote(psk, private, message)
                == crate::noise::first_remote(
                pattern,
                private,
                (0u8, first),
                (2u8, last),
                prologue,
                message,
                8192,
            )
        }),
{
}

proof fn long_numbers_differ(a: u64, b: u64)
    ensures
        be_long(a) == be_long(b) ==> a == b,
        be_long(a).len() == 8,
{
    let (high_a, low_a) = ((a / 0x1_0000_0000) as nat, (a % 0x1_0000_0000) as nat);
    let (high_b, low_b) = ((b / 0x1_0000_0000) as nat, (b % 0x1_0000_0000) as nat);
    crate::channel::be_bytes_read_back(high_a);
    crate::channel::be_bytes_read_back(low_a);
    crate::channel::be_bytes_read_back(high_b);
    crate::channel::be_bytes_read_back(low_b);
    if be_long(a) == be_long(b) {
        assert(be_long(a).take(4) =~= be_bytes(high_a));
        assert(be_long(b).take(4) =~= be_bytes(high_b));
        assert(be_long(a).skip(4) =~= be_bytes(low_a));
        assert(be_long(b).skip(4) =~= be_bytes(low_b));
    }
}

proof fn the_first_is_prefixed_first(list: Seq<Seq<char>>)
    requires
        list.len() > 0,
    ensures
        all_prefixed(list) == prefixed(list[0]) + all_prefixed(list.drop_first()),
    decreases list.len(),
{
    if list.len() == 1 {
        assert(list.drop_last() =~= list.drop_first());
        assert(all_prefixed(list) =~= prefixed(list[0]) + all_prefixed(list.drop_first()));
    } else {
        the_first_is_prefixed_first(list.drop_last());
        assert(list.drop_last().drop_first() =~= list.drop_first().drop_last());
        assert(list.drop_first().last() == list.last());
        assert(all_prefixed(list) =~= prefixed(list[0]) + all_prefixed(list.drop_first()));
    }
}

/// The text takes less than four gigabytes, so that its length can be written down.
pub open spec fn has_a_length(text: Seq<char>) -> bool {
    encode_utf8(text).len() < 0x1_0000_0000
}

proof fn a_prefixed_text_is_told_apart(a: Seq<char>, x: Seq<u8>, b: Seq<char>, y: Seq<u8>)
    requires
        has_a_length(a),
        has_a_length(b),
        prefixed(a) + x == prefixed(b) + y,
    ensures
        a == b,
        x == y,
{
    let m = encode_utf8(a).len();
    let n = encode_utf8(b).len();
    crate::channel::be_bytes_read_back(m);
    crate::channel::be_bytes_read_back(n);
    let whole = prefixed(a) + x;
    assert(whole.take(4) =~= be_bytes(m));
    assert((prefixed(b) + y).take(4) =~= be_bytes(n));
    assert(m == n);
    assert(whole.subrange(4, 4 + m as int) =~= encode_utf8(a));
    assert((prefixed(b) + y).subrange(4, 4 + m as int) =~= encode_utf8(b));
    vstd::utf8::encode_utf8_decode_utf8(a);
    vstd::utf8::encode_utf8_decode_utf8(b);
    assert(whole.skip(4 + m as int) =~= x);
    assert((prefixed(b) + y).skip(4 + m as int) =~= y);
}

proof fn prefixed_lists_are_told_apart(a: Seq<Seq<char>>, b: Seq<Seq<char>>)
    requires
        forall|i: int| 0 <= i < a.len() ==> has_a_length(#[trigger] a[i]),
        forall|i: int| 0 <= i < b.len() ==> has_a_length(#[trigger] b[i]),
        all_prefixed(a) == all_prefixed(b),
    ensures
        a == b,
    decreases a.len(),
{
    if a.len() > 0 {
        the_first_is_prefixed_first(a);
        assert(all_prefixed(a).len() >= 4);
    }
    if b.len() > 0 {
        the_first_is_prefixed_first(b);
        assert(all_prefixed(b).len() >= 4);
    }
    if a.len() > 0 && b.len() > 0 {
        assert(has_a_length(a[0]) && has_a_length(b[0]));
        a_prefixed_text_is_told_apart(
            a[0],
            all_prefixed(a.drop_first()),
            b[0],
            all_prefixed(b.drop_first()),
        );
        let (rest_a, rest_b) = (a.drop_first(), b.drop_first());
        assert forall|i: int| 0 <= i < rest_a.len() implies has_a_length(#[trigger] rest_a[i]) by {
            assert(rest_a[i] == a[i + 1]);
        }
        assert forall|i: int| 0 <= i < rest_b.len() implies has_a_length(#[trigger] rest_b[i]) by {
            assert(rest_b[i] == b[i + 1]);
        }
        prefixed_lists_are_told_apart(rest_a, rest_b);
        assert(a =~= seq![a[0]] + rest_a);
        assert(b =~= seq![b[0]] + rest_b);
    } else {
        assert(a =~= b);
    }
}

/// The digest of a request is made of everything that it asks for: requests of a kind,
/// under the same headers, that differ in their catalogue, their hosts or their nonce
/// are digested differently.
pub proof fn different_requests_are_digested_differently(
    headers: Seq<HeaderModel>,
    tag: Seq<char>,
    first_version: u64,
    first_ids: Seq<Seq<char>>,
    first_nonce: Option<Seq<u8>>,
    second_version: u64,
    second_ids: Seq<Seq<char>>,
    second_nonce: Option<Seq<u8>>,
)
    requires
        forall|i: int| 0 <= i < first_ids.len() ==> has_a_length(#[trigger] first_ids[i]),
        forall|i: int| 0 <= i < second_ids.len() ==> has_a_length(#[trigger] second_ids[i]),
        first_nonce is Some ==> first_nonce->0.len() == 16,
        second_nonce is Some ==> second_nonce->0.len() == 16,
    ensures
        digest_input(headers, tag, first_version, first_ids, first_nonce) == digest_input(
            headers,
            tag,
            second_version,
            second_ids,
            second_nonce,
        ) <==> first_version == second_version && first_ids == second_ids && first_nonce
            == second_nonce,
{
    let a = digest_input(headers, tag, first_version, first_ids, first_nonce);
    let b = digest_input(headers, tag, second_version, second_ids, second_nonce);
    let start = encode_utf8("RemoteOpenPower/request-digest/v1\0"@) + encode_utf8(tag) + seq![0u8];
    let s: int = start.len() as int;
    let h: int = headers_prefixed(headers).len() as int;
    long_numbers_differ(first_version, second_version);
    long_numbers_differ(second_version, first_version);
    if a == b {
        assert(a.subrange(s, s + 8) =~= be_long(first_version));
        assert(b.subrange(s, s + 8) =~= be_long(second_version));
        let n: int = if first_nonce is Some {
            17
        } else {
            1
        };
        assert(a[s + 8] == if first_nonce is Some {
            1u8
        } else {
            0u8
        });
        assert(b[s + 8] == if second_nonce is Some {
            1u8
        } else {
            0u8
        });
        assert(first_nonce is Some <==> second_nonce is Some);
        if first_nonce is Some {
            assert(a.subrange(s + 9, s + 25) =~= first_nonce->0);
            assert(b.subrange(s + 9, s + 25) =~= second_nonce->0);
        }
        assert(a.skip(s + 8 + n + h) =~= all_prefixed(first_ids));
        assert(b.skip(s + 8 + n + h) =~= all_prefixed(second_ids));
        prefixed_lists_are_told_apart(first_ids, second_ids);
    }
}

/// The digest of a request is the SHA-256 of its kind and everything that it asks for.
pub proof fn a_request_is_digested_whole(
    headers: Seq<HeaderModel>,
    tag: Seq<char>,
    catalog_version: u64,
    host_ids: Seq<Seq<char>>,
    boot_nonce: Option<Seq<u8>>,
    bytes: [u8; 32],
)
    requires
        bytes@ == crate::crypto::sha256(
            digest_input(headers, tag, catalog_version, host_ids, boot_nonce),
        ),
    ensures
        crate::request::digest_of(headers, tag, catalog_version, host_ids, boot_nonce)@ == bytes@,
{
}

/// The version of a catalogue is made from its hosts in their order, and never zero.
pub proof fn a_catalogue_has_a_version(ids: Seq<Seq<char>>)
    ensures
        crate::snapshot::catalog_version_of(ids) != 0,
        ({
            let digest = crate::crypto::sha256(
                encode_utf8("RemoteOpenPower/catalog/v1\0"@) + all_prefixed(ids),
            );
            let value = be_value(digest.take(4)) * 0x1_0000_0000 + be_value(digest.subrange(4, 8));
            digest.len() == 32 && value != 0 ==> crate::snapshot::catalog_version_of(ids) == value
        }),
{
    let digest = crate::crypto::sha256(
        encode_utf8("RemoteOpenPower/catalog/v1\0"@) + all_prefixed(ids),
    );
    assert(be_value(digest.skip(4)) < 0x1_0000_0000 && be_value(digest) < 0x1_0000_0000);
    assert(crate::snapshot::be_long_value(digest) < 0x1_0000_0000 * 0x1_0000_0000);
}

} // verus!
