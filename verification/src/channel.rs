//! The records of an established connection.
//!
//! A record is one encrypted message behind its length. Inside it carries the
//! direction, the session and a running number, so that no record can be
//! replayed, reordered or reflected. A connection on which anything went wrong
//! is closed and stays closed.

use crate::compact::{a_record_reads_back, record_at, record_bytes};
use crate::noise::{
    read_record, transport_read, transport_write, write_record, NoiseStep, NoiseTransport,
};
use crate::octets::{bytes_of, extend, same_id};
use crate::protocol::{
    decode, encode, encoded, ClientEnvelope, ProtocolError, ReplyModel, ServerEnvelope,
    MAX_FRAME_BYTES,
};
use crate::security::{
    IoFault, SecurityError, MAX_PAYLOAD_BYTES, MAX_RECORD_BYTES, READ_CHUNK_BYTES,
};
use crate::wire::{decode_server, encode_client, reply_in};
use vstd::prelude::*;

verus! {

/// Four bytes, the highest first.
pub open spec fn be_bytes(n: nat) -> Seq<u8> {
    seq![
        ((n / 16777216) % 256) as u8,
        ((n / 65536) % 256) as u8,
        ((n / 256) % 256) as u8,
        (n % 256) as u8,
    ]
}

/// The number in the first four bytes.
pub open spec fn be_value(bytes: Seq<u8>) -> nat {
    (bytes[0] as nat) * 16777216 + (bytes[1] as nat) * 65536 + (bytes[2] as nat) * 256 + (
    bytes[3] as nat)
}

pub proof fn be_bytes_read_back(n: nat)
    requires
        n < 0x1_0000_0000,
    ensures
        be_value(be_bytes(n)) == n,
        be_bytes(n).len() == 4,
{
}

pub fn length_prefix(n: usize) -> (r: Vec<u8>)
    ensures
        r@ == be_bytes(n as nat),
{
    let mut r: Vec<u8> = Vec::new();
    r.push(((n / 16777216) % 256) as u8);
    r.push(((n / 65536) % 256) as u8);
    r.push(((n / 256) % 256) as u8);
    r.push((n % 256) as u8);
    assert(r@ =~= be_bytes(n as nat));
    r
}

pub fn read_length(bytes: &[u8]) -> (r: usize)
    requires
        bytes@.len() >= 4,
    ensures
        r == be_value(bytes@),
        r < 0x1_0000_0000,
{
    let high: u64 = (bytes[0] as u64) * 16777216 + (bytes[1] as u64) * 65536;
    let all: u64 = high + (bytes[2] as u64) * 256 + bytes[3] as u64;
    assert(all < 0x1_0000_0000);
    all as usize
}

/// A message behind its length.
pub open spec fn framed(message: Seq<u8>) -> Seq<u8> {
    be_bytes(message.len()) + message
}

/// Puts the length before a message, if it is not empty and not too long.
pub fn frame_record(message: &[u8], max: usize) -> (r: Result<Vec<u8>, SecurityError>)
    requires
        max < 0x1_0000_0000,
    ensures
        if 0 < message@.len() <= max {
            r is Ok && r->Ok_0@ == framed(message@)
        } else {
            r == Err::<Vec<u8>, SecurityError>(SecurityError::FrameTooLarge)
        },
{
    if message.len() == 0 || message.len() > max {
        return Err(SecurityError::FrameTooLarge);
    }
    let mut frame: Vec<u8> = length_prefix(message.len());
    extend(&mut frame, message);
    Ok(frame)
}

/// What a buffer of received bytes begins with.
pub enum Buffered {
    /// Fewer bytes than a length.
    Short,
    /// A length that no record has.
    Bad,
    /// A part of a record.
    Part,
    /// A record of that many bytes, its length included.
    Whole(nat),
}

pub open spec fn buffered(bytes: Seq<u8>) -> Buffered {
    if bytes.len() < 4 {
        Buffered::Short
    } else if be_value(bytes) == 0 || be_value(bytes) > MAX_RECORD_BYTES {
        Buffered::Bad
    } else if bytes.len() < 4 + be_value(bytes) {
        Buffered::Part
    } else {
        Buffered::Whole(4 + be_value(bytes))
    }
}

/// What has to be done before a record can be taken from the buffer.
#[derive(Clone, Copy, Debug, PartialEq, Eq, Structural)]
pub enum PollStep {
    /// Read at most that many bytes.
    Read(usize),
    /// Nothing: a whole record is there.
    Ready,
}

/// The state of a connection, apart from its ciphers.
pub struct SecureChannel {
    pub session_id: [u8; 16],
    pub outbound_direction: u8,
    pub inbound_direction: u8,
    pub send_seq: u64,
    pub recv_seq: u64,
    pub read_buffer: Vec<u8>,
    pub closed: bool,
}

/// What the state says.
pub struct ChannelModel {
    pub session_id: [u8; 16],
    pub outbound_direction: u8,
    pub inbound_direction: u8,
    pub send_seq: u64,
    pub recv_seq: u64,
    pub read_buffer: Seq<u8>,
    pub closed: bool,
}

impl View for SecureChannel {
    type V = ChannelModel;

    open spec fn view(&self) -> ChannelModel {
        ChannelModel {
            session_id: self.session_id,
            outbound_direction: self.outbound_direction,
            inbound_direction: self.inbound_direction,
            send_seq: self.send_seq,
            recv_seq: self.recv_seq,
            read_buffer: self.read_buffer@,
            closed: self.closed,
        }
    }
}

/// The contents of a record.
pub struct RecordModel {
    pub version: u8,
    pub direction: u8,
    pub session_id: Seq<u8>,
    pub seq: u64,
    pub payload: Seq<u8>,
}

impl RecordModel {
    /// The bytes of the record before encryption.
    pub open spec fn bytes(self) -> Seq<u8> {
        record_bytes(self.version, self.direction, self.session_id, self.seq, self.payload)
    }
}

/// The record that decrypted bytes hold. Like every message they must fit in a
/// frame and hold nothing else, and the payload is bounded.
pub open spec fn record_in(plain: Seq<u8>) -> Result<RecordModel, ProtocolError> {
    if plain.len() == 0 || plain.len() > MAX_FRAME_BYTES {
        Err(ProtocolError::Limit)
    } else {
        match record_at(plain) {
            Some((version, direction, session_id, seq, payload, rest)) if rest == 0
                && payload.len() <= MAX_PAYLOAD_BYTES => Ok(
                RecordModel { version, direction, session_id, seq, payload },
            ),
            _ => Err(ProtocolError::Operation),
        }
    }
}

impl ChannelModel {
    /// A session that has just begun. The initiator sends in direction 0.
    pub open spec fn started(session_id: [u8; 16], initiator: bool) -> ChannelModel {
        ChannelModel {
            session_id,
            outbound_direction: if initiator {
                0
            } else {
                1
            },
            inbound_direction: if initiator {
                1
            } else {
                0
            },
            send_seq: 0,
            recv_seq: 0,
            read_buffer: Seq::empty(),
            closed: false,
        }
    }

    pub open spec fn shut(self) -> ChannelModel {
        ChannelModel { closed: true, ..self }
    }

    /// Why nothing is sent.
    pub open spec fn send_fault(self, payload: Seq<u8>) -> Option<SecurityError> {
        if self.closed {
            Some(SecurityError::Transport)
        } else if payload.len() == 0 || payload.len() > MAX_PAYLOAD_BYTES {
            Some(SecurityError::FrameTooLarge)
        } else if self.send_seq == u64::MAX {
            Some(SecurityError::Sequence)
        } else {
            None
        }
    }

    /// The record that carries a payload next.
    pub open spec fn next_record(self, payload: Seq<u8>) -> RecordModel {
        RecordModel {
            version: 1,
            direction: self.outbound_direction,
            session_id: self.session_id@,
            seq: self.send_seq,
            payload,
        }
    }

    /// The state after a record was sent.
    pub open spec fn after_send(self) -> ChannelModel {
        ChannelModel { send_seq: (self.send_seq + 1) as u64, ..self }
    }

    /// The state with these bytes received and not taken yet.
    pub open spec fn holding(self, bytes: Seq<u8>) -> ChannelModel {
        ChannelModel { read_buffer: bytes, ..self }
    }

    /// The record is the next one of the other side.
    pub open spec fn expects(self, record: RecordModel) -> bool {
        &&& record.version == 1
        &&& record.direction == self.inbound_direction
        &&& record.session_id == self.session_id@
        &&& record.seq == self.recv_seq
        &&& record.payload.len() != 0
    }

    /// What is made of decrypted bytes.
    pub open spec fn opened(self, plain: Option<Seq<u8>>) -> Result<Seq<u8>, SecurityError> {
        match plain {
            None => Err(SecurityError::Transport),
            Some(bytes) => match record_in(bytes) {
                Err(fault) => Err(SecurityError::Protocol(fault)),
                Ok(record) => {
                    if self.expects(record) && self.recv_seq < u64::MAX {
                        Ok(record.payload)
                    } else {
                        Err(SecurityError::Sequence)
                    }
                },
            },
        }
    }

    /// The state after decrypted bytes were looked at.
    pub open spec fn after_open(self, plain: Option<Seq<u8>>) -> ChannelModel {
        if self.opened(plain) is Ok {
            ChannelModel { recv_seq: (self.recv_seq + 1) as u64, ..self }
        } else {
            self.shut()
        }
    }

    /// The two ends of one session: what one sends the other expects next.
    pub open spec fn faces(self, other: ChannelModel) -> bool {
        &&& self.session_id == other.session_id
        &&& self.outbound_direction == other.inbound_direction
        &&& self.send_seq == other.recv_seq
        &&& !self.closed
        &&& !other.closed
    }
}

impl SecureChannel {
    /// The state at the start of a session.
    pub fn new(session_id: [u8; 16], initiator: bool) -> (r: SecureChannel)
        ensures
            r@ == ChannelModel::started(session_id, initiator),
    {
        SecureChannel {
            session_id,
            outbound_direction: if initiator {
                0
            } else {
                1
            },
            inbound_direction: if initiator {
                1
            } else {
                0
            },
            send_seq: 0,
            recv_seq: 0,
            read_buffer: Vec::new(),
            closed: false,
        }
    }

    /// Closes the connection for good.
    pub fn close(&mut self)
        ensures
            final(self)@ == old(self)@.shut(),
    {
        self.closed = true;
    }

    /// The bytes of the record that carries a payload, to be encrypted.
    pub fn begin_send(&mut self, payload: &[u8]) -> (r: Result<Vec<u8>, SecurityError>)
        ensures
            match old(self)@.send_fault(payload@) {
                None => {
                    &&& r is Ok
                    &&& r->Ok_0@ == old(self)@.next_record(payload@).bytes()
                    &&& 0 < r->Ok_0@.len() <= payload@.len() + 38
                    &&& final(self)@ == old(self)@
                },
                Some(error) => {
                    &&& r == Err::<Vec<u8>, SecurityError>(error)
                    &&& final(self)@ == if error == SecurityError::Sequence {
                        old(self)@.shut()
                    } else {
                        old(self)@
                    }
                },
            },
    {
        if self.closed {
            return Err(SecurityError::Transport);
        }
        if payload.len() == 0 || payload.len() > MAX_PAYLOAD_BYTES {
            return Err(SecurityError::FrameTooLarge);
        }
        if self.send_seq == u64::MAX {
            self.closed = true;
            return Err(SecurityError::Sequence);
        }
        let written: Option<Vec<u8>> = write_record(
            1,
            self.outbound_direction,
            &self.session_id,
            self.send_seq,
            payload,
        );
        proof {
            a_sent_record_reads_back(self@, payload@);
        }
        match encode(written) {
            Ok(plain) => Ok(plain),
            Err(fault) => Err(SecurityError::Protocol(fault)),
        }
    }

    /// The frame for an encrypted record. The cipher has moved on, so a record
    /// that cannot be sent closes the connection.
    pub fn finish_send(&mut self, encrypted: Option<Vec<u8>>) -> (r: Result<Vec<u8>, SecurityError>)
        requires
            !old(self).closed,
            old(self).send_seq < u64::MAX,
        ensures
            match encrypted {
                Some(message) if 0 < message@.len() <= MAX_RECORD_BYTES => {
                    &&& r is Ok
                    &&& r->Ok_0@ == framed(message@)
                    &&& final(self)@ == old(self)@.after_send()
                },
                Some(_) => {
                    &&& r == Err::<Vec<u8>, SecurityError>(SecurityError::FrameTooLarge)
                    &&& final(self)@ == old(self)@.shut()
                },
                None => {
                    &&& r == Err::<Vec<u8>, SecurityError>(SecurityError::Transport)
                    &&& final(self)@ == old(self)@.shut()
                },
            },
    {
        let message: Vec<u8> = match encrypted {
            Some(message) => message,
            None => {
                self.closed = true;
                return Err(SecurityError::Transport);
            },
        };
        match frame_record(&message, MAX_RECORD_BYTES) {
            Ok(frame) => {
                self.send_seq = self.send_seq + 1;
                Ok(frame)
            },
            Err(error) => {
                self.closed = true;
                Err(error)
            },
        }
    }

    /// What is needed before the next record can be taken. Reading stops at the
    /// first whole record, so that the records behind it stay where they are.
    pub fn poll_step(&mut self) -> (r: Result<PollStep, SecurityError>)
        ensures
            if old(self).closed {
                &&& r == Err::<PollStep, SecurityError>(SecurityError::Transport)
                &&& final(self)@ == old(self)@
            } else {
                let bytes = old(self).read_buffer@;
                match buffered(bytes) {
                    Buffered::Bad => {
                        &&& r == Err::<PollStep, SecurityError>(SecurityError::FrameTooLarge)
                        &&& final(self)@ == old(self)@.shut()
                    },
                    Buffered::Whole(_) => {
                        &&& r == Ok::<PollStep, SecurityError>(PollStep::Ready)
                        &&& final(self)@ == old(self)@
                    },
                    _ => {
                        &&& r == Ok::<PollStep, SecurityError>(
                            PollStep::Read(
                                if MAX_RECORD_BYTES + 4 - bytes.len() < READ_CHUNK_BYTES {
                                    (MAX_RECORD_BYTES + 4 - bytes.len()) as usize
                                } else {
                                    READ_CHUNK_BYTES
                                },
                            ),
                        )
                        &&& r->Ok_0->Read_0 > 0
                        &&& final(self)@ == old(self)@
                    },
                }
            },
    {
        if self.closed {
            return Err(SecurityError::Transport);
        }
        let have: usize = self.read_buffer.len();
        if have >= 4 {
            let length: usize = read_length(&self.read_buffer);
            if length == 0 || length > MAX_RECORD_BYTES {
                self.closed = true;
                return Err(SecurityError::FrameTooLarge);
            }
            if have >= 4 + length {
                return Ok(PollStep::Ready);
            }
        }
        let remaining: usize = MAX_RECORD_BYTES + 4 - have;
        if remaining < READ_CHUNK_BYTES {
            Ok(PollStep::Read(remaining))
        } else {
            Ok(PollStep::Read(READ_CHUNK_BYTES))
        }
    }

    /// Takes in what was read. No bytes means that the other side has closed.
    pub fn received(&mut self, bytes: &[u8]) -> (r: Result<(), SecurityError>)
        ensures
            if bytes@.len() == 0 {
                &&& r == Err::<(), SecurityError>(SecurityError::Io(IoFault::UnexpectedEof))
                &&& final(self)@ == old(self)@.shut()
            } else {
                &&& r == Ok::<(), SecurityError>(())
                &&& final(self)@ == old(self)@.holding(old(self).read_buffer@ + bytes@)
            },
    {
        if bytes.len() == 0 {
            self.closed = true;
            return Err(SecurityError::Io(IoFault::UnexpectedEof));
        }
        extend(&mut self.read_buffer, bytes);
        Ok(())
    }

    /// Takes the first record out of the buffer, if it is whole.
    pub fn take_frame(&mut self) -> (r: Result<Option<Vec<u8>>, SecurityError>)
        ensures
            if old(self).closed {
                &&& r == Err::<Option<Vec<u8>>, SecurityError>(SecurityError::Transport)
                &&& final(self)@ == old(self)@
            } else {
                let bytes = old(self).read_buffer@;
                match buffered(bytes) {
                    Buffered::Bad => {
                        &&& r == Err::<Option<Vec<u8>>, SecurityError>(SecurityError::FrameTooLarge)
                        &&& final(self)@ == old(self)@.shut()
                    },
                    Buffered::Whole(total) => {
                        &&& r is Ok && r->Ok_0 is Some
                        &&& r->Ok_0->0@ == bytes.subrange(4, total as int)
                        &&& final(self)@ == old(self)@.holding(bytes.skip(total as int))
                    },
                    _ => {
                        &&& r is Ok && r->Ok_0 is None
                        &&& final(self)@ == old(self)@
                    },
                }
            },
    {
        if self.closed {
            return Err(SecurityError::Transport);
        }
        let have: usize = self.read_buffer.len();
        if have < 4 {
            return Ok(None);
        }
        let length: usize = read_length(&self.read_buffer);
        if length == 0 || length > MAX_RECORD_BYTES {
            self.closed = true;
            return Err(SecurityError::FrameTooLarge);
        }
        let total: usize = 4 + length;
        if have < total {
            return Ok(None);
        }
        let ghost bytes = self.read_buffer@;
        let rest: Vec<u8> = self.read_buffer.split_off(total);
        let message: Vec<u8> = self.read_buffer.split_off(4);
        self.read_buffer = rest;
        assert(message@ =~= bytes.subrange(4, total as int));
        assert(self.read_buffer@ =~= bytes.skip(total as int));
        Ok(Some(message))
    }

    /// Takes the payload out of decrypted bytes, which must be the next record
    /// of the other side. `plain` is nothing where decryption failed.
    ///
    /// The record that the other side wrote of a payload gives that payload.
    pub fn open_record(&mut self, plain: Option<Vec<u8>>) -> (r: Result<Vec<u8>, SecurityError>)
        ensures
            match old(self)@.opened(bytes_of(plain)) {
                Ok(payload) => r is Ok && r->Ok_0@ == payload,
                Err(error) => r == Err::<Vec<u8>, SecurityError>(error),
            },
            final(self)@ == old(self)@.after_open(bytes_of(plain)),
            forall|other: ChannelModel, payload: Seq<u8>|
                plain is Some && other.faces(old(self)@) && other.send_fault(payload) is None
                    && plain->0@ == #[trigger] other.next_record(payload).bytes() ==> r is Ok
                    && r->Ok_0@ == payload,
    {
        proof {
            assert forall|other: ChannelModel, payload: Seq<u8>|
                plain is Some && other.faces(self@) && other.send_fault(payload) is None
                    && plain->0@ == #[trigger] other.next_record(payload).bytes() implies self@.opened(
                bytes_of(plain),
            ) == Ok::<Seq<u8>, SecurityError>(payload) by {
                a_sent_record_reads_back(other, payload);
            }
        }
        let bytes: Vec<u8> = match plain {
            Some(bytes) => bytes,
            None => {
                self.closed = true;
                return Err(SecurityError::Transport);
            },
        };
        let parsed: Option<(u8, u8, [u8; 16], u64, Vec<u8>, usize)> = read_record(&bytes);
        let bounded: Option<((u8, u8, [u8; 16], u64, Vec<u8>), usize)> = match parsed {
            Some((version, direction, session_id, seq, payload, rest)) => {
                if payload.len() > MAX_PAYLOAD_BYTES {
                    None
                } else {
                    Some(((version, direction, session_id, seq, payload), rest))
                }
            },
            None => None,
        };
        let record: (u8, u8, [u8; 16], u64, Vec<u8>) = match decode(&bytes, bounded) {
            Ok(record) => record,
            Err(fault) => {
                self.closed = true;
                return Err(SecurityError::Protocol(fault));
            },
        };
        proof {
            crate::octets::id_ext(record.2, self.session_id);
        }
        if record.0 != 1 || record.1 != self.inbound_direction || !same_id(
            &record.2,
            &self.session_id,
        ) || record.3 != self.recv_seq || record.4.len() == 0 || self.recv_seq == u64::MAX {
            self.closed = true;
            return Err(SecurityError::Sequence);
        }
        self.recv_seq = self.recv_seq + 1;
        Ok(record.4)
    }
}

/// A frame that was received whole is taken out as the message that was framed,
/// and the bytes behind it stay.
pub proof fn a_frame_gives_its_message_back(message: Seq<u8>, behind: Seq<u8>)
    requires
        0 < message.len() <= MAX_RECORD_BYTES,
    ensures
        ({
            let bytes = framed(message) + behind;
            &&& buffered(bytes) == Buffered::Whole(framed(message).len())
            &&& bytes.subrange(4, framed(message).len() as int) == message
            &&& bytes.skip(framed(message).len() as int) == behind
        }),
{
    let n = message.len();
    be_bytes_read_back(n);
    let bytes = framed(message) + behind;
    assert(bytes[0] == be_bytes(n)[0] && bytes[1] == be_bytes(n)[1] && bytes[2] == be_bytes(n)[2]
        && bytes[3] == be_bytes(n)[3]);
    assert(be_value(bytes) == n);
    assert(bytes.subrange(4, 4 + n as int) =~= message);
    assert(bytes.skip(4 + n as int) =~= behind);
}

/// A part of a frame is never taken for a record: nothing is interpreted before
/// the whole of it is there.
pub proof fn a_part_of_a_frame_is_not_a_record(message: Seq<u8>, have: int)
    requires
        0 < message.len() <= MAX_RECORD_BYTES,
        0 <= have < framed(message).len(),
    ensures
        buffered(framed(message).take(have)) is Short || buffered(framed(message).take(have)) is Part,
{
    be_bytes_read_back(message.len());
    let bytes = framed(message).take(have);
    if have >= 4 {
        let n = message.len();
        assert(bytes[0] == be_bytes(n)[0] && bytes[1] == be_bytes(n)[1] && bytes[2] == be_bytes(
            n,
        )[2] && bytes[3] == be_bytes(n)[3]);
        assert(be_value(bytes) == n);
    }
}

/// The bytes of a record that was sent hold that record.
pub proof fn a_sent_record_reads_back(sender: ChannelModel, payload: Seq<u8>)
    requires
        sender.send_fault(payload) is None,
    ensures
        record_in(sender.next_record(payload).bytes()) == Ok::<RecordModel, ProtocolError>(
            sender.next_record(payload),
        ),
        0 < sender.next_record(payload).bytes().len() <= payload.len() + 38,
{
    a_record_reads_back(
        1,
        sender.outbound_direction,
        sender.session_id@,
        sender.send_seq,
        payload,
    );
}

/// Two ends that face each other still do after a payload went from one to the
/// other, so that running numbers never part.
pub proof fn the_ends_stay_in_step(
    sender: ChannelModel,
    receiver: ChannelModel,
    payload: Seq<u8>,
)
    requires
        sender.faces(receiver),
        sender.send_fault(payload) is None,
    ensures
        ({
            let plain = sender.next_record(payload).bytes();
            &&& receiver.opened(Some(plain)) == Ok::<Seq<u8>, SecurityError>(payload)
            &&& sender.after_send().faces(receiver.after_open(Some(plain)))
        }),
{
    a_sent_record_reads_back(sender, payload);
}

/// Payloads arrive in the order in which they were sent. The frames may come in
/// one piece or in several: while a frame is not whole nothing is taken of it and
/// no byte is lost, and what came in behind a frame is kept for the next. The
/// messages are what the cipher made of the records, and `have` is how much of
/// both frames has come in.
pub proof fn payloads_arrive_in_the_order_sent(
    sender: ChannelModel,
    receiver: ChannelModel,
    first: Seq<u8>,
    second: Seq<u8>,
    first_message: Seq<u8>,
    second_message: Seq<u8>,
    have: int,
)
    requires
        sender.faces(receiver),
        sender.send_fault(first) is None,
        sender.after_send().send_fault(second) is None,
        0 < first_message.len() <= MAX_RECORD_BYTES,
        0 < second_message.len() <= MAX_RECORD_BYTES,
        0 <= have < framed(first_message).len() + framed(second_message).len(),
    ensures
        ({
            let stream = framed(first_message) + framed(second_message);
            let one = receiver.holding(stream);
            let two = one.holding(framed(second_message)).after_open(
                Some(sender.next_record(first).bytes()),
            );
            let end = two.holding(Seq::empty()).after_open(
                Some(sender.after_send().next_record(second).bytes()),
            );
            let length = framed(first_message).len() as int;
            // A part of the first frame is not taken; a part of the second stays.
            &&& have < length ==> (buffered(stream.take(have)) is Short || buffered(
                stream.take(have),
            ) is Part)
            &&& have >= length ==> ({
                let rest = stream.take(have).skip(length);
                &&& buffered(stream.take(have)) == Buffered::Whole(length as nat)
                &&& stream.take(have).subrange(4, length) == first_message
                &&& rest == framed(second_message).take(have - length)
                &&& buffered(rest) is Short || buffered(rest) is Part
            })
            // The first frame is taken, and the second stays.
            &&& buffered(one.read_buffer) == Buffered::Whole(framed(first_message).len())
            &&& one.read_buffer.subrange(4, framed(first_message).len() as int) == first_message
            &&& one.read_buffer.skip(framed(first_message).len() as int) == two.read_buffer
            &&& one.holding(two.read_buffer).opened(Some(sender.next_record(first).bytes())) == Ok::<
                Seq<u8>,
                SecurityError,
            >(first)
            // Then the second, and nothing is left.
            &&& buffered(two.read_buffer) == Buffered::Whole(framed(second_message).len())
            &&& two.read_buffer.subrange(4, framed(second_message).len() as int) == second_message
            &&& two.read_buffer.skip(framed(second_message).len() as int) == end.read_buffer
            &&& two.holding(end.read_buffer).opened(
                Some(sender.after_send().next_record(second).bytes()),
            ) == Ok::<Seq<u8>, SecurityError>(second)
            &&& end.read_buffer == Seq::<u8>::empty()
            &&& sender.after_send().after_send().faces(end)
        }),
{
    let stream = framed(first_message) + framed(second_message);
    let one = receiver.holding(stream);
    let left = one.holding(framed(second_message));
    let two = left.after_open(Some(sender.next_record(first).bytes()));
    let length = framed(first_message).len() as int;
    if have < length {
        assert(stream.take(have) =~= framed(first_message).take(have));
        a_part_of_a_frame_is_not_a_record(first_message, have);
    } else {
        let rest = framed(second_message).take(have - length);
        assert(stream.take(have) =~= framed(first_message) + rest);
        a_frame_gives_its_message_back(first_message, rest);
        a_part_of_a_frame_is_not_a_record(second_message, have - length);
    }
    a_frame_gives_its_message_back(first_message, framed(second_message));
    the_ends_stay_in_step(sender, left, first);
    a_frame_gives_its_message_back(second_message, Seq::empty());
    assert(framed(second_message) + Seq::<u8>::empty() =~= framed(second_message));
    the_ends_stay_in_step(sender.after_send(), two.holding(Seq::empty()), second);
}

/// A record that was accepted once is refused when it comes again, as is one of
/// another session and one that comes back to its sender.
pub proof fn a_record_is_accepted_once(channel: ChannelModel, plain: Seq<u8>)
    requires
        channel.opened(Some(plain)) is Ok,
    ensures
        channel.after_open(Some(plain)).opened(Some(plain)) is Err,
        forall|other: ChannelModel|
            #![trigger other.opened(Some(plain))]
            other.session_id@ != channel.session_id@ || other.inbound_direction
                != channel.inbound_direction ==> other.opened(Some(plain)) is Err,
{
}

/// A closed connection stays closed: nothing is sent, read or taken any more.
pub proof fn a_closed_connection_stays_closed(
    channel: ChannelModel,
    payload: Seq<u8>,
    plain: Option<Seq<u8>>,
)
    requires
        channel.closed,
    ensures
        channel.send_fault(payload) == Some(SecurityError::Transport),
        channel.shut().closed,
        channel.after_open(plain).closed,
{
}

/// An established connection: its state and its ciphers.
pub struct SecureConnection {
    pub channel: SecureChannel,
    pub transport: NoiseTransport,
}

/// What a connection is: its state, and the calls that its ciphers have served.
pub struct ConnectionModel {
    pub channel: ChannelModel,
    pub steps: Seq<NoiseStep>,
}

impl View for SecureConnection {
    type V = ConnectionModel;

    open spec fn view(&self) -> ConnectionModel {
        ConnectionModel { channel: self.channel@, steps: self.transport.steps() }
    }
}

impl ConnectionModel {
    /// The connection with another state, its ciphers left alone.
    pub open spec fn with(self, channel: ChannelModel) -> ConnectionModel {
        ConnectionModel { channel, ..self }
    }

    /// The outcome of sending a payload: the cipher is given the record that takes
    /// the next place, and what it makes of it is framed; or the fault. A
    /// connection that could not encrypt is closed, as is one whose places are
    /// used up.
    pub open spec fn is_sent(
        self,
        payload: Seq<u8>,
        outcome: Result<Vec<u8>, SecurityError>,
        after: ConnectionModel,
    ) -> bool {
        match self.channel.send_fault(payload) {
            Some(error) => {
                &&& outcome == Err::<Vec<u8>, SecurityError>(error)
                &&& after == if error == SecurityError::Sequence {
                    self.with(self.channel.shut())
                } else {
                    self
                }
            },
            None => {
                let plain = self.channel.next_record(payload).bytes();
                let made = after.steps.last()->made;
                &&& after.steps == self.steps.push(
                    NoiseStep::Wrote { payload: plain, made },
                )
                &&& match made {
                    Some(message) => {
                        &&& message.len() == plain.len() + 16
                        &&& outcome is Ok
                        &&& outcome->Ok_0@ == framed(message)
                        &&& after.channel == self.channel.after_send()
                    },
                    None => {
                        &&& outcome == Err::<Vec<u8>, SecurityError>(SecurityError::Transport)
                        &&& after.channel == self.channel.shut()
                    },
                }
            },
        }
    }

    /// The outcome of looking for a payload: the cipher is given the first whole
    /// record of the buffer, and what it makes of it is opened.
    pub open spec fn is_polled(
        self,
        outcome: Result<Option<Vec<u8>>, SecurityError>,
        after: ConnectionModel,
    ) -> bool {
        let bytes = self.channel.read_buffer;
        if self.channel.closed {
            &&& outcome == Err::<Option<Vec<u8>>, SecurityError>(SecurityError::Transport)
            &&& after == self
        } else {
            match buffered(bytes) {
                Buffered::Bad => {
                    &&& outcome == Err::<Option<Vec<u8>>, SecurityError>(
                        SecurityError::FrameTooLarge,
                    )
                    &&& after == self.with(self.channel.shut())
                },
                Buffered::Whole(total) => {
                    let left = self.channel.holding(bytes.skip(total as int));
                    let plain = after.steps.last()->found;
                    &&& after.steps == self.steps.push(
                        NoiseStep::Read {
                            message: bytes.subrange(4, total as int),
                            found: plain,
                        },
                    )
                    &&& plain is Some ==> plain->0.len() + 16 == total - 4
                    &&& after.channel == left.after_open(plain)
                    &&& match left.opened(plain) {
                        Ok(payload) => {
                            &&& outcome is Ok
                            &&& outcome->Ok_0 is Some
                            &&& outcome->Ok_0->0@ == payload
                        },
                        Err(error) => outcome == Err::<Option<Vec<u8>>, SecurityError>(error),
                    }
                },
                _ => outcome is Ok && outcome->Ok_0 is None && after == self,
            }
        }
    }
}

impl SecureConnection {
    /// The number of bytes that wait for the rest of their record.
    pub fn buffered_len(&self) -> (r: usize)
        ensures
            r == self.channel@.read_buffer.len(),
    {
        self.channel.read_buffer.len()
    }

    pub fn close(&mut self)
        ensures
            final(self)@ == old(self)@.with(old(self)@.channel.shut()),
    {
        self.channel.close();
    }

    /// The frame that carries a payload, to be written to the socket. The
    /// cipher decides whether it can encrypt, and what the bytes are.
    pub fn send_payload(&mut self, payload: &[u8]) -> (r: Result<Vec<u8>, SecurityError>)
        ensures
            old(self)@.is_sent(payload@, r, final(self)@),
    {
        let plain: Vec<u8> = match self.channel.begin_send(payload) {
            Ok(plain) => plain,
            Err(error) => {
                return Err(error);
            },
        };
        let encrypted: Option<Vec<u8>> = transport_write(
            &mut self.transport,
            &plain,
            plain.len() + 64,
        );
        self.channel.finish_send(encrypted)
    }

    /// Notes how the writing of a frame ended. A frame that was not written
    /// whole closes the connection, as its place in the sequence is lost.
    pub fn sent(&mut self, outcome: Result<(), IoFault>) -> (r: Result<(), SecurityError>)
        ensures
            match outcome {
                Ok(()) => r == Ok::<(), SecurityError>(()) && final(self)@ == old(self)@,
                Err(fault) => {
                    &&& r == Err::<(), SecurityError>(SecurityError::Io(fault))
                    &&& final(self)@ == old(self)@.with(old(self)@.channel.shut())
                },
            },
    {
        match outcome {
            Ok(()) => Ok(()),
            Err(fault) => {
                self.channel.close();
                Err(SecurityError::Io(fault))
            },
        }
    }

    /// The frame that carries a client's message.
    pub fn send_client_envelope(&mut self, envelope: &ClientEnvelope) -> (r: Result<
        Vec<u8>,
        SecurityError,
    >)
        ensures
            match envelope.fault() {
                Some(fault) => {
                    &&& r == Err::<Vec<u8>, SecurityError>(SecurityError::Protocol(fault))
                    &&& final(self)@ == old(self)@
                },
                None => match encoded(Some(envelope@.bytes())) {
                    Ok(bytes) => old(self)@.is_sent(bytes, r, final(self)@),
                    Err(fault) => {
                        &&& r == Err::<Vec<u8>, SecurityError>(SecurityError::Protocol(fault))
                        &&& final(self)@ == old(self)@
                    },
                },
            },
    {
        if let Err(fault) = envelope.validate() {
            return Err(SecurityError::Protocol(fault));
        }
        match encode_client(envelope) {
            Ok(bytes) => self.send_payload(&bytes),
            Err(fault) => Err(SecurityError::Protocol(fault)),
        }
    }

    /// The payload of the first whole record in the buffer. The cipher decides
    /// whether the bytes are the other side's; what was decrypted is then taken
    /// as `SecureChannel::open_record` says.
    pub fn poll_payload(&mut self) -> (r: Result<Option<Vec<u8>>, SecurityError>)
        ensures
            old(self)@.is_polled(r, final(self)@),
    {
        let message: Vec<u8> = match self.channel.take_frame() {
            Ok(Some(message)) => message,
            Ok(None) => {
                return Ok(None);
            },
            Err(error) => {
                return Err(error);
            },
        };
        let plain: Option<Vec<u8>> = transport_read(
            &mut self.transport,
            &message,
            MAX_RECORD_BYTES,
        );
        match self.channel.open_record(plain) {
            Ok(payload) => Ok(Some(payload)),
            Err(error) => Err(error),
        }
    }

    /// Reads a server's message. A payload that is none, or an invalid one, closes
    /// the connection.
    pub fn accept_server_envelope(&mut self, payload: &[u8]) -> (r: Result<
        ServerEnvelope,
        SecurityError,
    >)
        ensures
            ({
                let fault = match reply_in(payload@) {
                    Ok(reply) => reply.fault(),
                    Err(fault) => Some(fault),
                };
                match fault {
                    None => {
                        &&& r is Ok
                        &&& reply_in(payload@) == Ok::<ReplyModel, ProtocolError>(r->Ok_0@)
                        &&& final(self)@ == old(self)@
                    },
                    Some(fault) => {
                        &&& r == Err::<ServerEnvelope, SecurityError>(
                            SecurityError::Protocol(fault),
                        )
                        &&& final(self)@ == old(self)@.with(old(self)@.channel.shut())
                    },
                }
            }),
    {
        let envelope: ServerEnvelope = match decode_server(payload) {
            Ok(envelope) => envelope,
            Err(fault) => {
                self.channel.close();
                return Err(SecurityError::Protocol(fault));
            },
        };
        if let Err(fault) = envelope.validate() {
            self.channel.close();
            return Err(SecurityError::Protocol(fault));
        }
        Ok(envelope)
    }
}

} // verus!
