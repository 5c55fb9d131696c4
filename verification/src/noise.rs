//! Outside protocols: the Noise states of `snow` and the wire form of `postcard`.
//!
//! The greetings and the records of a connection are written and read here. What
//! is encrypted, and what becomes of what was decrypted, is decided by the callers.

use crate::compact::{
    client_hello_at, client_hello_bytes, record_at, record_bytes, server_hello_at,
    server_hello_bytes,
};
use crate::crypto::x25519_public;
use crate::octets::bytes_of;
use vstd::prelude::*;

verus! {

/// `snow::HandshakeState`: a handshake under way.
#[verifier::external_type_specification]
#[verifier::external_body]
pub struct ExHandshakeState(snow::HandshakeState);

/// `snow::TransportState`: the ciphers of a finished handshake.
#[verifier::external_type_specification]
#[verifier::external_body]
pub struct ExTransportState(snow::TransportState);

/// Whether `snow` builds the state of the side that speaks first out of these: the
/// pattern, its private key, two preshared keys with their positions, the prologue
/// and the key that the other side must have.
pub uninterp spec fn initiator_builds(
    pattern: Seq<char>,
    private: Seq<u8>,
    psk_a: (u8, Seq<u8>),
    psk_b: (u8, Seq<u8>),
    prologue: Seq<u8>,
    remote: Seq<u8>,
) -> bool;

/// `snow::Builder::build_initiator`: the state of the side that speaks first,
/// with its private key, two preshared keys at their positions, a prologue and
/// the key that the other side must have. Whether it is built depends on these
/// alone. The state itself is opaque, and nothing is claimed of it.
#[verifier::external_body]
pub(crate) fn noise_initiator(
    pattern: &str,
    private: &[u8; 32],
    psk_a: (u8, &[u8; 32]),
    psk_b: (u8, &[u8; 32]),
    prologue: &[u8],
    remote: &[u8; 32],
) -> (r: Option<snow::HandshakeState>)
    ensures
        r is Some == initiator_builds(
            pattern@,
            private@,
            (psk_a.0, psk_a.1@),
            (psk_b.0, psk_b.1@),
            prologue@,
            remote@,
        ),
{
    let builder = snow::Builder::new(pattern.parse().ok()?);
    let builder = builder.local_private_key(private).ok()?;
    let builder = builder.psk(psk_a.0, psk_a.1).ok()?.psk(psk_b.0, psk_b.1).ok()?;
    let builder = builder.prologue(prologue).ok()?.remote_public_key(remote).ok()?;
    builder.build_initiator().ok()
}

/// Whether `snow` builds the state of the side that answers out of these.
pub uninterp spec fn responder_builds(
    pattern: Seq<char>,
    private: Seq<u8>,
    psk_a: (u8, Seq<u8>),
    psk_b: (u8, Seq<u8>),
    prologue: Seq<u8>,
) -> bool;

/// What the side that answers decrypts out of the first message, in a buffer of
/// that capacity.
pub uninterp spec fn first_plain(
    pattern: Seq<char>,
    private: Seq<u8>,
    psk_a: (u8, Seq<u8>),
    psk_b: (u8, Seq<u8>),
    prologue: Seq<u8>,
    message: Seq<u8>,
    capacity: nat,
) -> Option<Seq<u8>>;

/// The static key that the side that answers knows of the other after the first
/// message.
pub uninterp spec fn first_remote(
    pattern: Seq<char>,
    private: Seq<u8>,
    psk_a: (u8, Seq<u8>),
    psk_b: (u8, Seq<u8>),
    prologue: Seq<u8>,
    message: Seq<u8>,
    capacity: nat,
) -> Option<Seq<u8>>;

/// `snow::Builder::build_responder`, and on the state that it built
/// `read_message` and `get_remote_static`: the side that answers, what the first
/// message holds, and the key of the side that sent it. Random numbers are drawn
/// for writing alone, so all three depend on the arguments. What was decrypted is
/// shorter than the message. The state itself is opaque.
#[verifier::external_body]
pub(crate) fn respond_to(
    pattern: &str,
    private: &[u8; 32],
    psk_a: (u8, &[u8; 32]),
    psk_b: (u8, &[u8; 32]),
    prologue: &[u8],
    message: &[u8],
    capacity: usize,
) -> (r: Option<(snow::HandshakeState, Option<Vec<u8>>, Option<Vec<u8>>)>)
    ensures
        r is Some == responder_builds(
            pattern@,
            private@,
            (psk_a.0, psk_a.1@),
            (psk_b.0, psk_b.1@),
            prologue@,
        ),
        r matches Some(read) ==> {
            &&& bytes_of(read.1) == first_plain(
                pattern@,
                private@,
                (psk_a.0, psk_a.1@),
                (psk_b.0, psk_b.1@),
                prologue@,
                message@,
                capacity as nat,
            )
            &&& bytes_of(read.2) == first_remote(
                pattern@,
                private@,
                (psk_a.0, psk_a.1@),
                (psk_b.0, psk_b.1@),
                prologue@,
                message@,
                capacity as nat,
            )
            &&& read.1 is Some ==> (read.1->0)@.len() <= message@.len() <= 65535
        },
{
    let builder = snow::Builder::new(pattern.parse().ok()?);
    let builder = builder.local_private_key(private).ok()?;
    let builder = builder.psk(psk_a.0, psk_a.1).ok()?.psk(psk_b.0, psk_b.1).ok()?;
    let mut state = builder.prologue(prologue).ok()?.build_responder().ok()?;
    let mut buffer = vec![0u8; capacity];
    let length = state.read_message(message, &mut buffer).ok();
    let plain = length.map(|length| buffer[..length].to_vec());
    let remote = state.get_remote_static().map(|key| key.to_vec());
    Some((state, plain, remote))
}

/// `snow::Builder::generate_keypair`: a random private key of 32 bytes and its
/// public key of as many, for the one curve that is built in; nothing where the
/// pattern is unknown or the system has no random numbers.
#[verifier::external_body]
pub(crate) fn noise_keypair(pattern: &str) -> (r: Option<(Vec<u8>, Vec<u8>)>)
    ensures
        r matches Some(pair) ==> pair.0@.len() == 32 && pair.1@.len() == 32 && pair.1@
            == x25519_public(pair.0@),
{
    let pair = snow::Builder::new(pattern.parse().ok()?).generate_keypair().ok()?;
    Some((pair.private, pair.public))
}

/// A call that a Noise state has served, with what came back of it.
pub enum NoiseStep {
    /// The payload was to be encrypted.
    Wrote { payload: Seq<u8>, made: Option<Seq<u8>> },
    /// The message was to be decrypted.
    Read { message: Seq<u8>, found: Option<Seq<u8>> },
    /// The handshake was asked whether it is complete.
    Finished(bool),
    /// The handshake was asked for the static key of the other side.
    Remote(Option<Seq<u8>>),
}

/// A handshake under way, with the calls that it has served.
pub struct NoiseHandshake {
    state: snow::HandshakeState,
    steps: Ghost<Seq<NoiseStep>>,
}

impl NoiseHandshake {
    pub closed spec fn steps(self) -> Seq<NoiseStep> {
        self.steps@
    }

    /// A handshake that has served no call yet.
    pub(crate) fn new(state: snow::HandshakeState) -> (r: NoiseHandshake)
        ensures
            r.steps() == Seq::<NoiseStep>::empty(),
    {
        NoiseHandshake { state, steps: Ghost(Seq::empty()) }
    }

    /// The ciphers of the handshake, if it is complete.
    pub(crate) fn into_transport(self) -> (r: Option<NoiseTransport>)
        ensures
            r matches Some(transport) ==> transport.steps() == self.steps(),
    {
        let steps: Ghost<Seq<NoiseStep>> = self.steps;
        match into_transport(self.state) {
            Some(state) => Some(NoiseTransport { state, steps }),
            None => None,
        }
    }
}

/// The ciphers of a finished handshake, with the calls that they and the
/// handshake have served.
pub struct NoiseTransport {
    state: snow::TransportState,
    steps: Ghost<Seq<NoiseStep>>,
}

impl NoiseTransport {
    pub closed spec fn steps(self) -> Seq<NoiseStep> {
        self.steps@
    }
}

/// `snow::HandshakeState::write_message`: the next handshake message, which
/// carries the payload encrypted. It holds a random key, so only its size is
/// known. The call is added to those that were served. A buffer too small for the
/// keys of the message makes the call panic.
#[verifier::external_body]
pub(crate) fn handshake_write(
    noise: &mut NoiseHandshake,
    payload: &[u8],
    capacity: usize,
) -> (r: Option<Vec<u8>>)
    requires
        capacity >= 80,
    ensures
        r matches Some(message) ==> message@.len() <= capacity && message@.len() <= 65535,
        final(noise).steps() == old(noise).steps().push(
            (NoiseStep::Wrote { payload: payload@, made: bytes_of(r) }),
        ),
{
    let mut message = vec![0u8; capacity];
    let length = noise.state.write_message(payload, &mut message).ok()?;
    message.truncate(length);
    Some(message)
}

/// `snow::HandshakeState::read_message`: the payload of a handshake message, if
/// the message is the other side's and whole. The call is added to those that
/// were served.
#[verifier::external_body]
pub(crate) fn handshake_read(
    noise: &mut NoiseHandshake,
    message: &[u8],
    capacity: usize,
) -> (r: Option<Vec<u8>>)
    ensures
        r matches Some(payload) ==> payload@.len() <= message@.len() <= 65535,
        final(noise).steps() == old(noise).steps().push(
            (NoiseStep::Read { message: message@, found: bytes_of(r) }),
        ),
{
    let mut payload = vec![0u8; capacity];
    let length = noise.state.read_message(message, &mut payload).ok()?;
    payload.truncate(length);
    Some(payload)
}

/// `snow::HandshakeState::is_handshake_finished`. The call is added to those that
/// were served.
#[verifier::external_body]
pub(crate) fn handshake_finished(noise: &mut NoiseHandshake) -> (r: bool)
    ensures
        final(noise).steps() == old(noise).steps().push(NoiseStep::Finished(r)),
{
    noise.state.is_handshake_finished()
}

/// `snow::HandshakeState::get_remote_static`: the other side's static key, once
/// it is known. The call is added to those that were served.
#[verifier::external_body]
pub(crate) fn remote_static(noise: &mut NoiseHandshake) -> (r: Option<Vec<u8>>)
    ensures
        final(noise).steps() == old(noise).steps().push(NoiseStep::Remote(bytes_of(r))),
{
    noise.state.get_remote_static().map(|key| key.to_vec())
}

/// `snow::HandshakeState::into_transport_mode`: the ciphers of a finished
/// handshake.
#[verifier::external_body]
fn into_transport(state: snow::HandshakeState) -> (r: Option<snow::TransportState>) {
    state.into_transport_mode().ok()
}

/// `snow::TransportState::write_message`: the payload encrypted, with a tag of
/// 16 bytes behind it; nothing if that is more than a message can hold or the
/// cipher is used up. What the bytes are rests on the random keys of the
/// handshake. The call is added to those that were served.
#[verifier::external_body]
pub(crate) fn transport_write(noise: &mut NoiseTransport, payload: &[u8], capacity: usize) -> (r:
    Option<Vec<u8>>)
    ensures
        r matches Some(message) ==> message@.len() == payload@.len() + 16,
        payload@.len() + 16 > 65535 || payload@.len() + 16 > capacity ==> r is None,
        final(noise).steps() == old(noise).steps().push(
            (NoiseStep::Wrote { payload: payload@, made: bytes_of(r) }),
        ),
{
    let mut message = vec![0u8; capacity];
    let length = noise.state.write_message(payload, &mut message).ok()?;
    message.truncate(length);
    Some(message)
}

/// `snow::TransportState::read_message`: the payload of an encrypted message, if
/// the other side made it as its next one; it is 16 bytes shorter. The call is
/// added to those that were served. That it is the payload which the other side
/// wrote holds of two states that came out of one handshake; a state is opaque,
/// and so this is left unsaid.
#[verifier::external_body]
pub(crate) fn transport_read(noise: &mut NoiseTransport, message: &[u8], capacity: usize) -> (r:
    Option<Vec<u8>>)
    ensures
        r matches Some(payload) ==> payload@.len() + 16 == message@.len(),
        message@.len() > 65535 || message@.len() > capacity + 16 ==> r is None,
        final(noise).steps() == old(noise).steps().push(
            (NoiseStep::Read { message: message@, found: bytes_of(r) }),
        ),
{
    let mut payload = vec![0u8; capacity];
    let length = noise.state.read_message(message, &mut payload).ok()?;
    payload.truncate(length);
    Some(payload)
}

/// `postcard::to_allocvec` on the fields of a record: the fields one after the
/// other, the running number as a varint, the payload behind its length. It
/// cannot fail on such fields.
#[verifier::external_body]
pub(crate) fn write_record(
    version: u8,
    direction: u8,
    session_id: &[u8; 16],
    seq: u64,
    payload: &[u8],
) -> (r: Option<Vec<u8>>)
    ensures
        r is Some,
        r->0@ == record_bytes(version, direction, session_id@, seq, payload@),
{
    postcard::to_allocvec(&(version, direction, *session_id, seq, payload)).ok()
}

/// `postcard::take_from_bytes` for the fields of a record: they are read in their
/// order, and the bytes behind them are counted. A varint may be longer than it
/// need be, but not longer than its type allows.
#[verifier::external_body]
pub(crate) fn read_record(bytes: &[u8]) -> (r: Option<(u8, u8, [u8; 16], u64, Vec<u8>, usize)>)
    ensures
        match r {
            Some(f) => record_at(bytes@) == Some((f.0, f.1, f.2@, f.3, f.4@, f.5 as nat)),
            None => record_at(bytes@) is None,
        },
{
    let (fields, rest): ((u8, u8, [u8; 16], u64, &[u8]), &[u8]) =
        postcard::take_from_bytes(bytes).ok()?;
    Some((fields.0, fields.1, fields.2, fields.3, fields.4.to_vec(), rest.len()))
}

/// `postcard::to_allocvec` on the fields of a client's greeting: the version and
/// the time as varints, the nonce as it is, and the identifier behind its length.
#[verifier::external_body]
pub(crate) fn write_client_hello(
    version: u16,
    nonce: &[u8; 32],
    issued_at_ms: u64,
    client_id: &str,
) -> (r: Option<Vec<u8>>)
    ensures
        r is Some,
        r->0@ == client_hello_bytes(version, nonce@, issued_at_ms, client_id@),
{
    postcard::to_allocvec(&(version, *nonce, issued_at_ms, client_id)).ok()
}

/// `postcard::take_from_bytes` for the fields of a client's greeting, of which the
/// identifier must be UTF-8.
#[verifier::external_body]
pub(crate) fn read_client_hello(bytes: &[u8]) -> (r: Option<(u16, [u8; 32], u64, String, usize)>)
    ensures
        match r {
            Some(f) => client_hello_at(bytes@) == Some((f.0, f.1@, f.2, f.3@, f.4 as nat)),
            None => client_hello_at(bytes@) is None,
        },
{
    let (fields, rest): ((u16, [u8; 32], u64, String), &[u8]) =
        postcard::take_from_bytes(bytes).ok()?;
    Some((fields.0, fields.1, fields.2, fields.3, rest.len()))
}

/// `postcard::to_allocvec` on the fields of a server's greeting: the version and
/// the time as varints, the nonces and the session as they are.
#[verifier::external_body]
pub(crate) fn write_server_hello(
    version: u16,
    client_nonce: &[u8; 32],
    server_nonce: &[u8; 32],
    session_id: &[u8; 16],
    issued_at_ms: u64,
) -> (r: Option<Vec<u8>>)
    ensures
        r is Some,
        r->0@ == server_hello_bytes(
            version,
            client_nonce@,
            server_nonce@,
            session_id@,
            issued_at_ms,
        ),
{
    postcard::to_allocvec(&(version, *client_nonce, *server_nonce, *session_id, issued_at_ms)).ok()
}

/// `postcard::take_from_bytes` for the fields of a server's greeting.
#[verifier::external_body]
pub(crate) fn read_server_hello(bytes: &[u8]) -> (r: Option<
    (u16, [u8; 32], [u8; 32], [u8; 16], u64, usize),
>)
    ensures
        match r {
            Some(f) => server_hello_at(bytes@) == Some((f.0, f.1@, f.2@, f.3@, f.4, f.5 as nat)),
            None => server_hello_at(bytes@) is None,
        },
{
    let (f, rest): ((u16, [u8; 32], [u8; 32], [u8; 16], u64), &[u8]) =
        postcard::take_from_bytes(bytes).ok()?;
    Some((f.0, f.1, f.2, f.3, f.4, rest.len()))
}

} // verus!
