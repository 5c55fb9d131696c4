//! The handshake of either side.
//!
//! The client speaks first: its greeting names it and is encrypted to the server
//! key that it has pinned. The server answers only a client on its access list
//! whose nonce it has not seen.

use crate::channel::{
    be_value, frame_record, framed, read_length, ChannelModel, SecureChannel, SecureConnection,
};
use crate::clock::{CLOCK_END, MILLISECOND};
use crate::compact::{
    a_client_hello_reads_back, a_server_hello_reads_back, client_hello_at, client_hello_bytes,
    server_hello_at, server_hello_bytes,
};
use crate::crypto::{digest, public_key, random_16, random_32, sha256, wipe};
use crate::noise::{
    first_plain, first_remote, handshake_finished, handshake_read, handshake_write,
    initiator_builds, noise_initiator, read_client_hello, read_server_hello, remote_static,
    respond_to, responder_builds, write_client_hello, write_server_hello, NoiseHandshake, NoiseStep,
};
use crate::octets::{all_zero, bytes_of, extend, is_zero, same_key};
use crate::protocol::{
    canonical_headers, decode, encode, header_models, headers_fault, is_id, validate_id, Header,
    MAX_FRAME_BYTES, MAX_ID_BYTES, PROTOCOL_VERSION,
};
use crate::replay::{after_reserve, live, reservable, Nonces, ReplayCache, ReplayKey};
use crate::security::{
    authorize_client, clamp_clock_skew, clamped_skew, is_authorized, is_weak_key, weak_key,
    ClientHandshakeConfig, Identity, SecurityError, ServerHandshakeConfig,
    MAX_HANDSHAKE_RECORD_BYTES, NOISE_PATTERN, PROLOGUE,
};
use crate::text::{byte_count, byte_len};
use vstd::prelude::*;

verus! {

/// A handshake message behind the number of its phase.
pub open spec fn phased(phase: u8, payload: Seq<u8>) -> Seq<u8> {
    seq![phase] + payload
}

/// The frame of a handshake message.
pub fn handshake_frame(phase: u8, payload: &[u8]) -> (r: Result<Vec<u8>, SecurityError>)
    ensures
        if 0 < payload@.len() <= MAX_HANDSHAKE_RECORD_BYTES {
            r is Ok && r->Ok_0@ == framed(phased(phase, payload@))
        } else {
            r == Err::<Vec<u8>, SecurityError>(SecurityError::FrameTooLarge)
        },
{
    if payload.len() == 0 || payload.len() > MAX_HANDSHAKE_RECORD_BYTES {
        return Err(SecurityError::FrameTooLarge);
    }
    let mut body: Vec<u8> = Vec::new();
    body.push(phase);
    extend(&mut body, payload);
    assert(body@ =~= phased(phase, payload@));
    frame_record(&body, MAX_HANDSHAKE_RECORD_BYTES + 1)
}

/// The number of bytes that follow the length of a handshake message.
pub fn handshake_length(prefix: &[u8; 4]) -> (r: Result<usize, SecurityError>)
    ensures
        if 2 <= be_value(prefix@) <= MAX_HANDSHAKE_RECORD_BYTES + 1 {
            r == Ok::<usize, SecurityError>(be_value(prefix@) as usize)
        } else {
            r == Err::<usize, SecurityError>(SecurityError::FrameTooLarge)
        },
{
    let length: usize = read_length(prefix);
    if length < 2 || length > MAX_HANDSHAKE_RECORD_BYTES + 1 {
        return Err(SecurityError::FrameTooLarge);
    }
    Ok(length)
}

/// Takes a handshake message of the expected phase out of its frame.
pub fn handshake_body(frame: &[u8], expected_phase: u8) -> (r: Result<Vec<u8>, SecurityError>)
    ensures
        if frame@.len() >= 2 && frame@[0] == expected_phase {
            r is Ok && r->Ok_0@ == frame@.skip(1)
        } else {
            r == Err::<Vec<u8>, SecurityError>(SecurityError::Handshake)
        },
{
    if frame.len() < 2 || frame[0] != expected_phase {
        return Err(SecurityError::Handshake);
    }
    let mut body: Vec<u8> = Vec::new();
    let mut i: usize = 1;
    while i < frame.len()
        invariant
            1 <= i <= frame@.len(),
            body@ == frame@.subrange(1, i as int),
        decreases frame@.len() - i,
    {
        body.push(frame[i]);
        i += 1;
        assert(frame@.subrange(1, i as int) =~= frame@.subrange(1, i - 1).push(frame@[i - 1]));
    }
    assert(body@ =~= frame@.skip(1));
    Ok(body)
}

/// A handshake message that was framed is accepted in its phase and taken out as
/// it was; in no other phase is it accepted.
pub proof fn a_handshake_frame_gives_its_message_back(phase: u8, payload: Seq<u8>)
    requires
        0 < payload.len() <= MAX_HANDSHAKE_RECORD_BYTES,
    ensures
        ({
            let frame = framed(phased(phase, payload));
            &&& be_value(frame.take(4)) == frame.skip(4).len()
            &&& 2 <= be_value(frame.take(4)) <= MAX_HANDSHAKE_RECORD_BYTES + 1
            &&& frame.skip(4)[0] == phase
            &&& frame.skip(4).skip(1) == payload
        }),
{
    let body = phased(phase, payload);
    crate::channel::be_bytes_read_back(body.len());
    let frame = framed(body);
    assert(frame.take(4) =~= crate::channel::be_bytes(body.len()));
    assert(frame.skip(4) =~= body);
    assert(body.skip(1) =~= payload);
}

/// The time is no further from `now_ms` than the skew.
pub open spec fn in_skew(timestamp_ms: u64, now_ms: u64, skew: u64) -> bool {
    let apart = if timestamp_ms >= now_ms {
        timestamp_ms - now_ms
    } else {
        now_ms - timestamp_ms
    };
    apart <= skew / MILLISECOND
}

pub fn within_skew(timestamp_ms: u64, now_ms: u64, skew: u64) -> (r: bool)
    ensures
        r == in_skew(timestamp_ms, now_ms, skew),
{
    let apart: u64 = if timestamp_ms >= now_ms {
        timestamp_ms - now_ms
    } else {
        now_ms - timestamp_ms
    };
    apart <= skew / MILLISECOND
}

/// The greeting of a client.
pub struct ClientHello {
    pub version: u16,
    pub client_nonce: [u8; 32],
    pub issued_at_ms: u64,
    pub client_id: String,
}

/// The greeting of a server.
pub struct ServerHello {
    pub version: u16,
    pub client_nonce: [u8; 32],
    pub server_nonce: [u8; 32],
    pub session_id: [u8; 16],
    pub issued_at_ms: u64,
}

/// What a client's greeting says.
pub struct HelloModel {
    pub version: u16,
    pub client_nonce: Seq<u8>,
    pub issued_at_ms: u64,
    pub client_id: Seq<char>,
}

/// What a server's greeting says.
pub struct ReplyHelloModel {
    pub version: u16,
    pub client_nonce: Seq<u8>,
    pub server_nonce: Seq<u8>,
    pub session_id: Seq<u8>,
    pub issued_at_ms: u64,
}

impl View for ClientHello {
    type V = HelloModel;

    open spec fn view(&self) -> HelloModel {
        HelloModel {
            version: self.version,
            client_nonce: self.client_nonce@,
            issued_at_ms: self.issued_at_ms,
            client_id: self.client_id@,
        }
    }
}

impl View for ServerHello {
    type V = ReplyHelloModel;

    open spec fn view(&self) -> ReplyHelloModel {
        ReplyHelloModel {
            version: self.version,
            client_nonce: self.client_nonce@,
            server_nonce: self.server_nonce@,
            session_id: self.session_id@,
            issued_at_ms: self.issued_at_ms,
        }
    }
}

impl HelloModel {
    pub open spec fn bytes(self) -> Seq<u8> {
        client_hello_bytes(self.version, self.client_nonce, self.issued_at_ms, self.client_id)
    }

    /// The greeting is of this protocol, names its client, and is fresh.
    pub open spec fn is_fresh(self, now_ms: u64, skew: u64) -> bool {
        &&& self.version == PROTOCOL_VERSION
        &&& !is_zero(self.client_nonce)
        &&& is_id(self.client_id)
        &&& in_skew(self.issued_at_ms, now_ms, skew)
    }
}

impl ReplyHelloModel {
    pub open spec fn bytes(self) -> Seq<u8> {
        server_hello_bytes(
            self.version,
            self.client_nonce,
            self.server_nonce,
            self.session_id,
            self.issued_at_ms,
        )
    }

    /// The greeting is of this protocol, answers the client's nonce, and is
    /// fresh.
    pub open spec fn answers(self, client_nonce: Seq<u8>, now_ms: u64, skew: u64) -> bool {
        &&& self.version == PROTOCOL_VERSION
        &&& self.client_nonce == client_nonce
        &&& !is_zero(self.server_nonce)
        &&& !is_zero(self.session_id)
        &&& in_skew(self.issued_at_ms, now_ms, skew)
    }
}

/// The client's greeting that decrypted bytes hold.
pub open spec fn client_hello_in(plain: Option<Seq<u8>>) -> Option<HelloModel> {
    match plain {
        Some(bytes) if 0 < bytes.len() <= MAX_FRAME_BYTES => match client_hello_at(bytes) {
            Some((version, client_nonce, issued_at_ms, client_id, rest)) if rest == 0 && 0
                < byte_count(client_id) <= MAX_ID_BYTES => Some(
                HelloModel { version, client_nonce, issued_at_ms, client_id },
            ),
            _ => None,
        },
        _ => None,
    }
}

/// The server's greeting that decrypted bytes hold.
pub open spec fn server_hello_in(plain: Option<Seq<u8>>) -> Option<ReplyHelloModel> {
    match plain {
        Some(bytes) if 0 < bytes.len() <= MAX_FRAME_BYTES => match server_hello_at(bytes) {
            Some((version, client_nonce, server_nonce, session_id, issued_at_ms, rest)) if rest
                == 0 => Some(
                ReplyHelloModel { version, client_nonce, server_nonce, session_id, issued_at_ms },
            ),
            _ => None,
        },
        _ => None,
    }
}

/// Reads a client's greeting. One that was written is read back.
pub fn decode_client_hello(plain: &Option<Vec<u8>>) -> (r: Option<ClientHello>)
    ensures
        match r {
            Some(hello) => client_hello_in(bytes_of(*plain)) == Some(hello@),
            None => client_hello_in(bytes_of(*plain)) is None,
        },
        forall|hello: ClientHello|
            plain is Some && plain->0@ == #[trigger] hello@.bytes() && 0 < byte_count(
                hello.client_id@,
            ) <= MAX_ID_BYTES ==> r is Some && r->0@ == hello@,
{
    proof {
        assert forall|hello: ClientHello|
            plain is Some && plain->0@ == #[trigger] hello@.bytes() && 0 < byte_count(
                hello.client_id@,
            ) <= MAX_ID_BYTES implies client_hello_in(bytes_of(*plain)) == Some(hello@) by {
            a_client_hello_reads_back(
                hello.version,
                hello.client_nonce@,
                hello.issued_at_ms,
                hello.client_id@,
            );
        }
    }
    let bytes: &Vec<u8> = match plain {
        Some(bytes) => bytes,
        None => {
            return None;
        },
    };
    let parsed: Option<(ClientHello, usize)> = match read_client_hello(bytes) {
        Some((version, client_nonce, issued_at_ms, client_id, rest)) => {
            let length: usize = byte_len(&client_id);
            if length == 0 || length > MAX_ID_BYTES {
                None
            } else {
                Some((ClientHello { version, client_nonce, issued_at_ms, client_id }, rest))
            }
        },
        None => None,
    };
    match decode(bytes, parsed) {
        Ok(hello) => Some(hello),
        Err(_) => None,
    }
}

/// Reads a server's greeting. One that was written is read back.
pub fn decode_server_hello(plain: &Option<Vec<u8>>) -> (r: Option<ServerHello>)
    ensures
        match r {
            Some(hello) => server_hello_in(bytes_of(*plain)) == Some(hello@),
            None => server_hello_in(bytes_of(*plain)) is None,
        },
        forall|hello: ServerHello|
            plain is Some && plain->0@ == #[trigger] hello@.bytes() ==> r is Some && r->0@
                == hello@,
{
    proof {
        assert forall|hello: ServerHello|
            plain is Some && plain->0@ == #[trigger] hello@.bytes() implies server_hello_in(
            bytes_of(*plain),
        ) == Some(hello@) by {
            a_server_hello_reads_back(
                hello.version,
                hello.client_nonce@,
                hello.server_nonce@,
                hello.session_id@,
                hello.issued_at_ms,
            );
        }
    }
    let bytes: &Vec<u8> = match plain {
        Some(bytes) => bytes,
        None => {
            return None;
        },
    };
    let parsed: Option<(ServerHello, usize)> = match read_server_hello(bytes) {
        Some((version, client_nonce, server_nonce, session_id, issued_at_ms, rest)) => Some(
            (ServerHello { version, client_nonce, server_nonce, session_id, issued_at_ms }, rest),
        ),
        None => None,
    };
    match decode(bytes, parsed) {
        Ok(hello) => Some(hello),
        Err(_) => None,
    }
}

/// Checks a client's greeting.
pub fn validate_client_hello(hello: &ClientHello, now_ms: u64, skew: u64) -> (r: Result<
    (),
    SecurityError,
>)
    ensures
        r == if hello@.is_fresh(now_ms, skew) {
            Ok(())
        } else {
            Err::<(), SecurityError>(SecurityError::Expired)
        },
{
    if hello.version != PROTOCOL_VERSION || all_zero(&hello.client_nonce) || validate_id(
        &hello.client_id,
    ).is_err() || !within_skew(hello.issued_at_ms, now_ms, skew) {
        return Err(SecurityError::Expired);
    }
    Ok(())
}

/// Checks a server's greeting.
pub fn validate_server_hello(
    hello: &ServerHello,
    client_nonce: &[u8; 32],
    now_ms: u64,
    skew: u64,
) -> (r: Result<(), SecurityError>)
    ensures
        r == if hello@.answers(client_nonce@, now_ms, skew) {
            Ok(())
        } else {
            Err::<(), SecurityError>(SecurityError::Handshake)
        },
{
    proof {
        crate::octets::key_ext(hello.client_nonce, *client_nonce);
    }
    if hello.version != PROTOCOL_VERSION || !same_key(&hello.client_nonce, client_nonce)
        || all_zero(&hello.server_nonce) || all_zero(&hello.session_id) || !within_skew(
        hello.issued_at_ms,
        now_ms,
        skew,
    ) {
        return Err(SecurityError::Handshake);
    }
    Ok(())
}

/// Why a handshake message is refused before it is decrypted: it begins with the
/// sender's ephemeral key, which must not be weak.
pub open spec fn prefix_fault(message: Seq<u8>) -> Option<SecurityError> {
    if message.len() < 32 {
        Some(SecurityError::Handshake)
    } else if weak_key(message.take(32)) {
        Some(SecurityError::Identity)
    } else {
        None
    }
}

pub fn validate_ephemeral_prefix(message: &[u8]) -> (r: Result<(), SecurityError>)
    ensures
        match prefix_fault(message@) {
            None => r == Ok::<(), SecurityError>(()),
            Some(error) => r == Err::<(), SecurityError>(error),
        },
{
    if message.len() < 32 {
        return Err(SecurityError::Handshake);
    }
    let mut key: [u8; 32] = [0; 32];
    let mut i: usize = 0;
    while i < 32
        invariant
            i <= 32 <= message@.len(),
            forall|k: int| 0 <= k < i ==> key@[k] == message@[k],
        decreases 32 - i,
    {
        key[i] = message[i];
        i += 1;
    }
    assert(key@ =~= message@.take(32));
    if is_weak_key(&key) {
        return Err(SecurityError::Identity);
    }
    Ok(())
}

/// The preshared key for one position, derived from the secret.
pub open spec fn noise_psk(psk: Seq<u8>, label: Seq<char>) -> Seq<u8> {
    sha256(
        vstd::utf8::encode_utf8(PROLOGUE@) + vstd::utf8::encode_utf8(label) + psk,
    )
}

pub fn derive_noise_psk(psk: &[u8; 32], label: &str) -> (r: [u8; 32])
    ensures
        r@ == noise_psk(psk@, label@),
{
    let mut input: Vec<u8> = Vec::new();
    extend(&mut input, PROLOGUE.as_bytes());
    extend(&mut input, label.as_bytes());
    extend(&mut input, psk);
    assert(input@ =~= vstd::utf8::encode_utf8(PROLOGUE@) + vstd::utf8::encode_utf8(label@) + psk@);
    digest(&input)
}

/// Why no handshake is begun with these keys.
pub open spec fn keys_fault(psk: Seq<u8>, identity: Identity) -> Option<SecurityError> {
    if is_zero(psk) || weak_key(identity.public@) || !identity.sound() {
        Some(SecurityError::Identity)
    } else {
        None
    }
}

fn check_keys(psk: &[u8; 32], identity: &Identity) -> (r: Result<(), SecurityError>)
    ensures
        match keys_fault(psk@, *identity) {
            Some(error) => r == Err::<(), SecurityError>(error),
            None => r == Ok::<(), SecurityError>(()),
        },
{
    if all_zero(psk) || is_weak_key(&identity.public) {
        return Err(SecurityError::Identity);
    }
    let derived: [u8; 32] = public_key(&identity.private);
    proof {
        crate::octets::key_ext(derived, identity.public);
    }
    if !same_key(&derived, &identity.public) {
        return Err(SecurityError::Identity);
    }
    Ok(())
}

/// The channel of the side that speaks first can be built: it is bound to the
/// pattern, its own key, the secret at both positions, the prologue of the
/// protocol and the key of the other side.
pub open spec fn opens_to(psk: Seq<u8>, private: Seq<u8>, remote: Seq<u8>) -> bool {
    initiator_builds(
        NOISE_PATTERN@,
        private,
        (0u8, noise_psk(psk, "psk0"@)),
        (2u8, noise_psk(psk, "psk2"@)),
        vstd::utf8::encode_utf8(PROLOGUE@),
        remote,
    )
}

/// The channel of the side that answers can be built, bound as the other one is.
pub open spec fn answers_with(psk: Seq<u8>, private: Seq<u8>) -> bool {
    responder_builds(
        NOISE_PATTERN@,
        private,
        (0u8, noise_psk(psk, "psk0"@)),
        (2u8, noise_psk(psk, "psk2"@)),
        vstd::utf8::encode_utf8(PROLOGUE@),
    )
}

/// What a server decrypts out of a client's first message.
pub open spec fn heard_plain(psk: Seq<u8>, private: Seq<u8>, incoming: Seq<u8>) -> Option<Seq<u8>> {
    first_plain(
        NOISE_PATTERN@,
        private,
        (0u8, noise_psk(psk, "psk0"@)),
        (2u8, noise_psk(psk, "psk2"@)),
        vstd::utf8::encode_utf8(PROLOGUE@),
        incoming,
        MAX_HANDSHAKE_RECORD_BYTES as nat,
    )
}

/// The key whose owner has sent the first message.
pub open spec fn heard_remote(psk: Seq<u8>, private: Seq<u8>, incoming: Seq<u8>) -> Option<Seq<u8>> {
    first_remote(
        NOISE_PATTERN@,
        private,
        (0u8, noise_psk(psk, "psk0"@)),
        (2u8, noise_psk(psk, "psk2"@)),
        vstd::utf8::encode_utf8(PROLOGUE@),
        incoming,
        MAX_HANDSHAKE_RECORD_BYTES as nat,
    )
}

/// The Noise state of the side that speaks first.
fn open_noise(psk: &[u8; 32], identity: &Identity, remote: &[u8; 32]) -> (r: Option<NoiseHandshake>)
    ensures
        r is Some == opens_to(psk@, identity.private@, remote@),
        r matches Some(noise) ==> noise.steps() == Seq::<NoiseStep>::empty(),
{
    let mut psk0: [u8; 32] = derive_noise_psk(psk, "psk0");
    let mut psk2: [u8; 32] = derive_noise_psk(psk, "psk2");
    let state: Option<snow::HandshakeState> = noise_initiator(
        NOISE_PATTERN,
        &identity.private,
        (0, &psk0),
        (2, &psk2),
        PROLOGUE.as_bytes(),
        remote,
    );
    wipe(&mut psk0);
    wipe(&mut psk2);
    match state {
        Some(state) => Some(NoiseHandshake::new(state)),
        None => None,
    }
}

/// The first message as the side that answers has read it.
struct Heard {
    noise: NoiseHandshake,
    plain: Option<Vec<u8>>,
    remote: Option<Vec<u8>>,
}

/// The Noise state of the side that answers, with what it reads of the first
/// message.
fn answer_noise(psk: &[u8; 32], identity: &Identity, incoming: &[u8]) -> (r: Option<Heard>)
    ensures
        r is Some == answers_with(psk@, identity.private@),
        r matches Some(heard) ==> {
            &&& heard.noise.steps() == Seq::<NoiseStep>::empty()
            &&& bytes_of(heard.plain) == heard_plain(psk@, identity.private@, incoming@)
            &&& bytes_of(heard.remote) == heard_remote(psk@, identity.private@, incoming@)
        },
{
    let mut psk0: [u8; 32] = derive_noise_psk(psk, "psk0");
    let mut psk2: [u8; 32] = derive_noise_psk(psk, "psk2");
    let read: Option<(snow::HandshakeState, Option<Vec<u8>>, Option<Vec<u8>>)> = respond_to(
        NOISE_PATTERN,
        &identity.private,
        (0, &psk0),
        (2, &psk2),
        PROLOGUE.as_bytes(),
        incoming,
        MAX_HANDSHAKE_RECORD_BYTES,
    );
    wipe(&mut psk0);
    wipe(&mut psk2);
    match read {
        Some((state, plain, remote)) => Some(
            Heard { noise: NoiseHandshake::new(state), plain, remote },
        ),
        None => None,
    }
}

/// Why a client does not begin a handshake.
pub open spec fn client_fault(config: ClientHandshakeConfig) -> Option<SecurityError> {
    if !is_id(config.client_id@) {
        Some(SecurityError::Handshake)
    } else if headers_fault(header_models(config.headers@)) is Some {
        Some(SecurityError::Protocol(headers_fault(header_models(config.headers@))->0))
    } else if config.pinned_server_key is None {
        Some(SecurityError::PinRequired)
    } else if weak_key(config.pinned_server_key->0@) {
        Some(SecurityError::Identity)
    } else {
        keys_fault(config.psk@, config.identity)
    }
}

/// A client's handshake that waits for the server's answer.
pub struct ClientHandshake {
    pub noise: NoiseHandshake,
    pub nonce: [u8; 32],
    pub expected: [u8; 32],
    pub skew: u64,
}

/// The greeting of a client that begins now.
pub open spec fn first_hello(config: ClientHandshakeConfig, nonce: Seq<u8>, now_ms: u64) -> HelloModel {
    HelloModel {
        version: PROTOCOL_VERSION,
        client_nonce: nonce,
        issued_at_ms: now_ms,
        client_id: config.client_id@,
    }
}

/// The bytes of a greeting, to be encrypted.
pub fn write_hello(hello: &ClientHello) -> (r: Result<Vec<u8>, SecurityError>)
    requires
        is_id(hello.client_id@),
    ensures
        r is Ok,
        r->Ok_0@ == hello@.bytes(),
{
    proof {
        id_bytes(hello.client_id@);
        a_client_hello_reads_back(
            hello.version,
            hello.client_nonce@,
            hello.issued_at_ms,
            hello.client_id@,
        );
    }
    match encode(
        write_client_hello(
            hello.version,
            &hello.client_nonce,
            hello.issued_at_ms,
            &hello.client_id,
        ),
    ) {
        Ok(bytes) => Ok(bytes),
        Err(fault) => Err(SecurityError::Protocol(fault)),
    }
}

/// An identifier has a byte for each of its characters.
pub proof fn id_bytes(id: Seq<char>)
    requires
        is_id(id),
    ensures
        byte_count(id) == id.len(),
{
    assert(vstd::utf8::is_ascii_chars(id)) by {
        assert forall|i: int| 0 <= i < id.len() implies '\0' <= #[trigger] id[i] <= '\u{7f}' by {
            assert(crate::protocol::is_id_char(id[i]));
        }
    }
    vstd::utf8::is_ascii_chars_encode_utf8(id);
}

/// Checks the settings of a client; the result is the key of its server.
fn check_client(config: &ClientHandshakeConfig) -> (r: Result<[u8; 32], SecurityError>)
    ensures
        match client_fault(*config) {
            Some(error) => r == Err::<[u8; 32], SecurityError>(error),
            None => r is Ok && Some(r->Ok_0) == config.pinned_server_key,
        },
{
    if validate_id(&config.client_id).is_err() {
        return Err(SecurityError::Handshake);
    }
    let headers: Vec<Header> = config.headers.clone();
    assert(headers@ =~= config.headers@);
    if let Err(fault) = canonical_headers(headers) {
        return Err(SecurityError::Protocol(fault));
    }
    let expected: [u8; 32] = match config.pinned_server_key {
        Some(key) => key,
        None => {
            return Err(SecurityError::PinRequired);
        },
    };
    if is_weak_key(&expected) {
        return Err(SecurityError::Identity);
    }
    match check_keys(&config.psk, &config.identity) {
        Ok(()) => Ok(expected),
        Err(error) => Err(error),
    }
}

/// The bytes that a client encrypts in its first message: its greeting with this
/// nonce.
pub fn client_greeting(config: &ClientHandshakeConfig, nonce: &[u8; 32], now_ms: u64) -> (r: Result<
    Vec<u8>,
    SecurityError,
>)
    ensures
        match client_fault(*config) {
            Some(error) => r == Err::<Vec<u8>, SecurityError>(error),
            None => {
                let hello = first_hello(*config, nonce@, now_ms);
                if hello.is_fresh(now_ms, clamped_skew(config.clock_skew)) {
                    r is Ok && r->Ok_0@ == hello.bytes()
                } else {
                    r == Err::<Vec<u8>, SecurityError>(SecurityError::Expired)
                }
            },
        },
{
    if let Err(error) = check_client(config) {
        return Err(error);
    }
    let hello = ClientHello {
        version: PROTOCOL_VERSION,
        client_nonce: *nonce,
        issued_at_ms: now_ms,
        client_id: config.client_id.clone(),
    };
    if let Err(error) = validate_client_hello(&hello, now_ms, clamp_clock_skew(config.clock_skew)) {
        return Err(error);
    }
    write_hello(&hello)
}

/// The first frame of a handshake, from the encrypted greeting.
pub fn first_frame(encrypted: Option<Vec<u8>>, phase: u8) -> (r: Result<Vec<u8>, SecurityError>)
    ensures
        match encrypted {
            None => r == Err::<Vec<u8>, SecurityError>(SecurityError::Handshake),
            Some(message) => if 0 < message@.len() <= MAX_HANDSHAKE_RECORD_BYTES {
                r is Ok && r->Ok_0@ == framed(phased(phase, message@))
            } else {
                r == Err::<Vec<u8>, SecurityError>(SecurityError::FrameTooLarge)
            },
        },
{
    match encrypted {
        Some(message) => handshake_frame(phase, &message),
        None => Err(SecurityError::Handshake),
    }
}

/// A client's handshake has begun: it waits for an answer to its nonce by the
/// server that it insists on, its greeting was encrypted, and what came of that is
/// framed.
pub open spec fn is_begun(
    config: ClientHandshakeConfig,
    handshake: ClientHandshake,
    frame: Seq<u8>,
    now_ms: u64,
) -> bool {
    &&& opens_to(config.psk@, config.identity.private@, config.pinned_server_key->0@)
    &&& Some(handshake.expected) == config.pinned_server_key
    &&& handshake.skew == clamped_skew(config.clock_skew)
    &&& first_hello(config, handshake.nonce@, now_ms).is_fresh(now_ms, handshake.skew)
    &&& exists|message: Seq<u8>|
        {
            &&& frame == framed(#[trigger] phased(1, message))
            &&& 0 < message.len() <= MAX_HANDSHAKE_RECORD_BYTES
            &&& handshake.noise.steps() == seq![
                NoiseStep::Wrote {
                    payload: first_hello(config, handshake.nonce@, now_ms).bytes(),
                    made: Some(message),
                },
            ]
        }
}

/// Begins a client's handshake with a given nonce: the state and the frame to
/// send, which holds the greeting encrypted. Where the settings are good only the
/// Noise state and the nonce can stop it.
pub fn client_begin_with(config: &ClientHandshakeConfig, nonce: [u8; 32], now_ms: u64) -> (r: Result<
    (ClientHandshake, Vec<u8>),
    SecurityError,
>)
    ensures
        match client_fault(*config) {
            Some(error) => r == Err::<(ClientHandshake, Vec<u8>), SecurityError>(error),
            None => {
                let hello = first_hello(*config, nonce@, now_ms);
                if !opens_to(
                    config.psk@,
                    config.identity.private@,
                    config.pinned_server_key->0@,
                ) {
                    r == Err::<(ClientHandshake, Vec<u8>), SecurityError>(SecurityError::Handshake)
                } else if !hello.is_fresh(now_ms, clamped_skew(config.clock_skew)) {
                    r == Err::<(ClientHandshake, Vec<u8>), SecurityError>(SecurityError::Expired)
                } else {
                    match r {
                        Ok((handshake, frame)) => {
                            &&& handshake.nonce == nonce
                            &&& is_begun(*config, handshake, frame@, now_ms)
                        },
                        Err(error) => error == SecurityError::Handshake || error
                            == SecurityError::FrameTooLarge,
                    }
                }
            },
        },
{
    let expected: [u8; 32] = match check_client(config) {
        Ok(expected) => expected,
        Err(error) => {
            return Err(error);
        },
    };
    let mut noise: NoiseHandshake = match open_noise(&config.psk, &config.identity, &expected) {
        Some(noise) => noise,
        None => {
            return Err(SecurityError::Handshake);
        },
    };
    let plain: Vec<u8> = match client_greeting(config, &nonce, now_ms) {
        Ok(plain) => plain,
        Err(error) => {
            return Err(error);
        },
    };
    let encrypted: Option<Vec<u8>> = handshake_write(
        &mut noise,
        &plain,
        MAX_HANDSHAKE_RECORD_BYTES,
    );
    proof {
        assert(noise.steps() =~= seq![
            NoiseStep::Wrote { payload: plain@, made: bytes_of(encrypted) },
        ]);
    }
    let skew: u64 = clamp_clock_skew(config.clock_skew);
    match first_frame(encrypted, 1) {
        Ok(frame) => Ok((ClientHandshake { noise, nonce, expected, skew }, frame)),
        Err(error) => Err(error),
    }
}

/// Begins a client's handshake with a random nonce.
pub fn client_begin(config: &ClientHandshakeConfig, now_ms: u64) -> (r: Result<
    (ClientHandshake, Vec<u8>),
    SecurityError,
>)
    ensures
        match client_fault(*config) {
            Some(error) => r == Err::<(ClientHandshake, Vec<u8>), SecurityError>(error),
            None => if !opens_to(
                config.psk@,
                config.identity.private@,
                config.pinned_server_key->0@,
            ) {
                r == Err::<(ClientHandshake, Vec<u8>), SecurityError>(SecurityError::Handshake)
            } else {
                match r {
                    Ok((handshake, frame)) => is_begun(*config, handshake, frame@, now_ms),
                    Err(error) => {
                        ||| error == SecurityError::Handshake
                        ||| error == SecurityError::FrameTooLarge
                        ||| error == SecurityError::Expired
                    },
                }
            },
        },
{
    let nonce: [u8; 32] = random_32();
    client_begin_with(config, nonce, now_ms)
}

/// What a client makes of the server's answer: the session, if the greeting
/// answers its nonce, the handshake is complete and the server is the pinned
/// one.
pub open spec fn client_verdict(
    plain: Option<Seq<u8>>,
    finished: bool,
    remote: Option<Seq<u8>>,
    nonce: Seq<u8>,
    expected: Seq<u8>,
    now_ms: u64,
    skew: u64,
) -> Result<Seq<u8>, SecurityError> {
    match server_hello_in(plain) {
        Some(hello) if hello.answers(nonce, now_ms, skew) && finished && remote is Some
            && remote->0.len() == 32 => if remote->0 == expected {
            Ok(hello.session_id)
        } else {
            Err(SecurityError::Unauthorized)
        },
        _ => Err(SecurityError::Handshake),
    }
}

/// Judges the server's answer.
pub fn judge_server(
    plain: &Option<Vec<u8>>,
    finished: bool,
    remote: &Option<Vec<u8>>,
    nonce: &[u8; 32],
    expected: &[u8; 32],
    now_ms: u64,
    skew: u64,
) -> (r: Result<[u8; 16], SecurityError>)
    ensures
        match client_verdict(
            bytes_of(*plain),
            finished,
            bytes_of(*remote),
            nonce@,
            expected@,
            now_ms,
            skew,
        ) {
            Ok(session_id) => r is Ok && r->Ok_0@ == session_id,
            Err(error) => r == Err::<[u8; 16], SecurityError>(error),
        },
{
    let hello: ServerHello = match decode_server_hello(plain) {
        Some(hello) => hello,
        None => {
            return Err(SecurityError::Handshake);
        },
    };
    if let Err(error) = validate_server_hello(&hello, nonce, now_ms, skew) {
        return Err(error);
    }
    if !finished {
        return Err(SecurityError::Handshake);
    }
    match remote {
        Some(key) => {
            if key.len() != 32 {
                return Err(SecurityError::Handshake);
            }
            if !crate::octets::same_bytes(key, expected) {
                return Err(SecurityError::Unauthorized);
            }
            Ok(hello.session_id)
        },
        None => Err(SecurityError::Handshake),
    }
}

/// What a client has after its handshake.
pub struct ClientHandshakeResult {
    pub connection: SecureConnection,
    pub server_static_public: [u8; 32],
}

/// Completes a client's handshake with the server's message. The Noise state
/// decrypts; the verdict on what it gives is `judge_server`'s.
pub fn client_finish(handshake: ClientHandshake, incoming: &[u8], now_ms: u64) -> (r: Result<
    ClientHandshakeResult,
    SecurityError,
>)
    ensures
        match prefix_fault(incoming@) {
            Some(error) => r == Err::<ClientHandshakeResult, SecurityError>(error),
            None => exists|plain: Option<Seq<u8>>, finished: bool, remote: Option<Seq<u8>>|
                {
                    &&& plain is Some ==> plain->0.len() <= incoming@.len()
                    &&& match #[trigger] client_verdict(
                        plain,
                        finished,
                        remote,
                        handshake.nonce@,
                        handshake.expected@,
                        now_ms,
                        handshake.skew,
                    ) {
                        Err(error) => r == Err::<ClientHandshakeResult, SecurityError>(error),
                        Ok(session_id) => match r {
                            Ok(result) => {
                                &&& result.connection@.channel.session_id@ == session_id
                                &&& !is_zero(session_id)
                                &&& result.connection@.steps == handshake.noise.steps() + seq![
                                    NoiseStep::Read { message: incoming@, found: plain },
                                    NoiseStep::Finished(finished),
                                    NoiseStep::Remote(remote),
                                ]
                            },
                            Err(error) => error == SecurityError::Handshake,
                        },
                    }
                },
        },
        r matches Ok(result) ==> {
            &&& result.server_static_public == handshake.expected
            &&& result.connection@.channel == ChannelModel::started(
                result.connection@.channel.session_id,
                true,
            )
        },
{
    if let Err(error) = validate_ephemeral_prefix(incoming) {
        return Err(error);
    }
    let mut noise: NoiseHandshake = handshake.noise;
    let plain: Option<Vec<u8>> = handshake_read(&mut noise, incoming, MAX_HANDSHAKE_RECORD_BYTES);
    let finished: bool = handshake_finished(&mut noise);
    let remote: Option<Vec<u8>> = remote_static(&mut noise);
    let ghost verdict = client_verdict(
        bytes_of(plain),
        finished,
        bytes_of(remote),
        handshake.nonce@,
        handshake.expected@,
        now_ms,
        handshake.skew,
    );
    assert(noise.steps() =~= handshake.noise.steps() + seq![
        NoiseStep::Read { message: incoming@, found: bytes_of(plain) },
        NoiseStep::Finished(finished),
        NoiseStep::Remote(bytes_of(remote)),
    ]);
    let session_id: [u8; 16] = match judge_server(
        &plain,
        finished,
        &remote,
        &handshake.nonce,
        &handshake.expected,
        now_ms,
        handshake.skew,
    ) {
        Ok(session_id) => session_id,
        Err(error) => {
            return Err(error);
        },
    };
    match noise.into_transport() {
        Some(transport) => Ok(
            ClientHandshakeResult {
                connection: SecureConnection {
                    channel: SecureChannel::new(session_id, true),
                    transport,
                },
                server_static_public: handshake.expected,
            },
        ),
        None => Err(SecurityError::Handshake),
    }
}

/// A client that a server has let in.
pub struct AcceptedClient {
    pub client_id: String,
    pub static_public: [u8; 32],
    pub nonce: [u8; 32],
}

/// Why a server refuses a client, before its nonce is looked at.
pub open spec fn admission_fault(
    config: ServerHandshakeConfig,
    plain: Option<Seq<u8>>,
    remote: Option<Seq<u8>>,
    now_ms: u64,
) -> Option<SecurityError> {
    let hello = client_hello_in(plain);
    if hello is None {
        Some(SecurityError::Handshake)
    } else if !hello->0.is_fresh(now_ms, clamped_skew(config.clock_skew)) {
        Some(SecurityError::Expired)
    } else if remote is None || remote->0.len() != 32 {
        Some(SecurityError::Handshake)
    } else if weak_key(remote->0) {
        Some(SecurityError::Identity)
    } else {
        None
    }
}

/// Who was admitted: the identifier, the key and the nonce of a client.
pub open spec fn admitted(r: Result<AcceptedClient, SecurityError>) -> Result<
    (Seq<char>, [u8; 32], [u8; 32]),
    SecurityError,
> {
    match r {
        Ok(client) => Ok((client.client_id@, client.static_public, client.nonce)),
        Err(error) => Err(error),
    }
}

/// What a server makes of a client's greeting, and of its cache of nonces.
pub open spec fn is_judged(
    config: ServerHandshakeConfig,
    before: Nonces,
    after: Nonces,
    plain: Option<Seq<u8>>,
    remote: Option<Seq<u8>>,
    now_ms: u64,
    now: u64,
    outcome: Result<(Seq<char>, [u8; 32], [u8; 32]), SecurityError>,
) -> bool {
    let refused = |error: SecurityError|
        outcome == Err::<(Seq<char>, [u8; 32], [u8; 32]), SecurityError>(error);
    match admission_fault(config, plain, remote, now_ms) {
        Some(error) => refused(error) && after == before,
        None => {
            let hello = client_hello_in(plain)->0;
            exists|key: [u8; 32], nonce: [u8; 32]|
                {
                    &&& #[trigger] key@ == remote->0
                    &&& #[trigger] nonce@ == hello.client_nonce
                    &&& if !is_authorized(config.allowed_clients@, hello.client_id, key) {
                        refused(SecurityError::Unauthorized) && after == before
                    } else {
                        let entry = ReplayKey { client_key: key, nonce };
                        &&& after == after_reserve(before, entry, now)
                        &&& if reservable(live(before, now), entry) {
                            outcome == Ok::<(Seq<char>, [u8; 32], [u8; 32]), SecurityError>(
                                (hello.client_id, key, nonce),
                            )
                        } else {
                            refused(SecurityError::Replay)
                        }
                    }
                }
        },
    }
}

/// Judges a client's greeting: `plain` is what was decrypted, `remote` the key
/// that the handshake has authenticated. The nonce is reserved only for a client
/// on the access list, so that no other can fill the cache.
pub fn judge_client(
    config: &ServerHandshakeConfig,
    replay_cache: &mut ReplayCache,
    plain: &Option<Vec<u8>>,
    remote: &Option<Vec<u8>>,
    now_ms: u64,
    now: u64,
) -> (r: Result<AcceptedClient, SecurityError>)
    requires
        old(replay_cache).wf(),
        now <= CLOCK_END,
    ensures
        final(replay_cache).wf(),
        is_judged(
            *config,
            old(replay_cache)@,
            final(replay_cache)@,
            bytes_of(*plain),
            bytes_of(*remote),
            now_ms,
            now,
            admitted(r),
        ),
{
    let skew: u64 = clamp_clock_skew(config.clock_skew);
    let hello: ClientHello = match decode_client_hello(plain) {
        Some(hello) => hello,
        None => {
            return Err(SecurityError::Handshake);
        },
    };
    if let Err(error) = validate_client_hello(&hello, now_ms, skew) {
        return Err(error);
    }
    let key: [u8; 32] = match remote {
        Some(bytes) => {
            if bytes.len() != 32 {
                return Err(SecurityError::Handshake);
            }
            crate::config::array_32(bytes)
        },
        None => {
            return Err(SecurityError::Handshake);
        },
    };
    if is_weak_key(&key) {
        return Err(SecurityError::Identity);
    }
    let ghost nonce = hello.client_nonce;
    assert(key@ == remote->0@ && nonce@ == hello@.client_nonce);
    let client_id: String = match authorize_client(
        &hello.client_id,
        &key,
        &config.allowed_clients,
    ) {
        Ok(id) => id,
        Err(error) => {
            return Err(error);
        },
    };
    if !replay_cache.reserve(key, hello.client_nonce, now) {
        return Err(SecurityError::Replay);
    }
    Ok(AcceptedClient { client_id, static_public: key, nonce: hello.client_nonce })
}

/// The bytes of the server's greeting, to be encrypted.
pub fn write_reply(hello: &ServerHello) -> (r: Result<Vec<u8>, SecurityError>)
    ensures
        r is Ok,
        r->Ok_0@ == hello@.bytes(),
{
    proof {
        a_server_hello_reads_back(
            hello.version,
            hello.client_nonce@,
            hello.server_nonce@,
            hello.session_id@,
            hello.issued_at_ms,
        );
    }
    match encode(
        write_server_hello(
            hello.version,
            &hello.client_nonce,
            &hello.server_nonce,
            &hello.session_id,
            hello.issued_at_ms,
        ),
    ) {
        Ok(bytes) => Ok(bytes),
        Err(fault) => Err(SecurityError::Protocol(fault)),
    }
}

/// The greeting that answers a client's nonce.
pub open spec fn reply_hello(
    client_nonce: Seq<u8>,
    server_nonce: Seq<u8>,
    session_id: Seq<u8>,
    now_ms: u64,
) -> ReplyHelloModel {
    ReplyHelloModel {
        version: PROTOCOL_VERSION,
        client_nonce,
        server_nonce,
        session_id,
        issued_at_ms: now_ms,
    }
}

/// The bytes that a server encrypts in its answer: its greeting for a session.
pub fn server_greeting(
    client_nonce: &[u8; 32],
    server_nonce: &[u8; 32],
    session_id: &[u8; 16],
    now_ms: u64,
) -> (r: Result<Vec<u8>, SecurityError>)
    ensures
        r is Ok,
        r->Ok_0@ == reply_hello(client_nonce@, server_nonce@, session_id@, now_ms).bytes(),
{
    let reply = ServerHello {
        version: PROTOCOL_VERSION,
        client_nonce: *client_nonce,
        server_nonce: *server_nonce,
        session_id: *session_id,
        issued_at_ms: now_ms,
    };
    write_reply(&reply)
}

/// What a server has when its answer is ready.
pub struct ServerHandshakeResult {
    pub connection: SecureConnection,
    pub client_id: String,
    pub client_static_public: [u8; 32],
    pub replay_nonce: [u8; 32],
}

/// Why a server does not take part in a handshake.
pub open spec fn server_fault(config: ServerHandshakeConfig, incoming: Seq<u8>) -> Option<
    SecurityError,
> {
    if headers_fault(header_models(config.headers@)) is Some {
        Some(SecurityError::Protocol(headers_fault(header_models(config.headers@))->0))
    } else if keys_fault(config.psk@, config.identity) is Some {
        keys_fault(config.psk@, config.identity)
    } else {
        prefix_fault(incoming)
    }
}

/// The outcome of a client's first message. Who has sent it, and what it holds,
/// is what the Noise state reads of it; they are judged, and the answer is the
/// server's greeting for this session, encrypted.
pub open spec fn is_answered(
    config: ServerHandshakeConfig,
    before: Nonces,
    after: Nonces,
    incoming: Seq<u8>,
    server_nonce: Seq<u8>,
    session_id: [u8; 16],
    now_ms: u64,
    now: u64,
    r: Result<(ServerHandshakeResult, Vec<u8>), SecurityError>,
) -> bool {
    let refused = |error: SecurityError|
        r == Err::<(ServerHandshakeResult, Vec<u8>), SecurityError>(error);
    if server_fault(config, incoming) is Some {
        refused(server_fault(config, incoming)->0) && after == before
    } else if !answers_with(config.psk@, config.identity.private@) {
        refused(SecurityError::Handshake) && after == before
    } else {
        let plain = heard_plain(config.psk@, config.identity.private@, incoming);
        let remote = heard_remote(config.psk@, config.identity.private@, incoming);
        exists|outcome: Result<(Seq<char>, [u8; 32], [u8; 32]), SecurityError>|
            {
                &&& #[trigger] is_judged(config, before, after, plain, remote, now_ms, now, outcome)
                &&& match outcome {
                    Err(error) => refused(error),
                    Ok((client_id, key, nonce)) => match r {
                        Ok((result, frame)) => {
                            &&& result.client_id@ == client_id
                            &&& result.client_static_public == key
                            &&& result.replay_nonce == nonce
                            &&& result.connection@.channel == ChannelModel::started(
                                session_id,
                                false,
                            )
                            &&& is_reply(
                                reply_hello(nonce@, server_nonce, session_id@, now_ms),
                                result.connection@.steps,
                                frame@,
                            )
                        },
                        Err(error) => error == SecurityError::Handshake || error
                            == SecurityError::FrameTooLarge,
                    },
                }
            }
    }
}

/// The greeting was encrypted, the handshake was complete with it, and what came
/// of it is framed.
pub open spec fn is_reply(hello: ReplyHelloModel, steps: Seq<NoiseStep>, frame: Seq<u8>) -> bool {
    exists|message: Seq<u8>|
        {
            &&& frame == framed(#[trigger] phased(2, message))
            &&& 0 < message.len() <= MAX_HANDSHAKE_RECORD_BYTES
            &&& steps == seq![
                NoiseStep::Wrote { payload: hello.bytes(), made: Some(message) },
                NoiseStep::Finished(true),
            ]
        }
}

/// Answers a client's first message, with a given nonce and session: the
/// connection, and the frame to send. Who is let in is `judge_client`'s to say.
pub fn server_accept_with(
    config: &ServerHandshakeConfig,
    replay_cache: &mut ReplayCache,
    incoming: &[u8],
    server_nonce: [u8; 32],
    session_id: [u8; 16],
    now_ms: u64,
    now: u64,
) -> (r: Result<(ServerHandshakeResult, Vec<u8>), SecurityError>)
    requires
        old(replay_cache).wf(),
        now <= CLOCK_END,
    ensures
        final(replay_cache).wf(),
        is_answered(
            *config,
            old(replay_cache)@,
            final(replay_cache)@,
            incoming@,
            server_nonce@,
            session_id,
            now_ms,
            now,
            r,
        ),
{
    let headers: Vec<Header> = config.headers.clone();
    assert(headers@ =~= config.headers@);
    if let Err(fault) = canonical_headers(headers) {
        return Err(SecurityError::Protocol(fault));
    }
    if let Err(error) = check_keys(&config.psk, &config.identity) {
        return Err(error);
    }
    if let Err(error) = validate_ephemeral_prefix(incoming) {
        return Err(error);
    }
    let heard: Heard = match answer_noise(&config.psk, &config.identity, incoming) {
        Some(heard) => heard,
        None => {
            return Err(SecurityError::Handshake);
        },
    };
    let judged: Result<AcceptedClient, SecurityError> = judge_client(
        config,
        replay_cache,
        &heard.plain,
        &heard.remote,
        now_ms,
        now,
    );
    assert(is_judged(
        *config,
        old(replay_cache)@,
        replay_cache@,
        heard_plain(config.psk@, config.identity.private@, incoming@),
        heard_remote(config.psk@, config.identity.private@, incoming@),
        now_ms,
        now,
        admitted(judged),
    ));
    let client: AcceptedClient = match judged {
        Ok(client) => client,
        Err(error) => {
            return Err(error);
        },
    };
    let reply: Vec<u8> = match server_greeting(&client.nonce, &server_nonce, &session_id, now_ms) {
        Ok(bytes) => bytes,
        Err(error) => {
            return Err(error);
        },
    };
    let mut noise: NoiseHandshake = heard.noise;
    let encrypted: Option<Vec<u8>> = handshake_write(
        &mut noise,
        &reply,
        MAX_HANDSHAKE_RECORD_BYTES,
    );
    let ghost made = bytes_of(encrypted);
    let frame: Vec<u8> = match first_frame(encrypted, 2) {
        Ok(frame) => frame,
        Err(error) => {
            return Err(error);
        },
    };
    if !handshake_finished(&mut noise) {
        return Err(SecurityError::Handshake);
    }
    proof {
        assert(noise.steps() =~= seq![
            NoiseStep::Wrote { payload: reply@, made },
            NoiseStep::Finished(true),
        ]);
        assert(frame@ == framed(phased(2, made->0)));
    }
    match noise.into_transport() {
        Some(transport) => Ok(
            (
                ServerHandshakeResult {
                    connection: SecureConnection {
                        channel: SecureChannel::new(session_id, false),
                        transport,
                    },
                    client_id: client.client_id,
                    client_static_public: client.static_public,
                    replay_nonce: client.nonce,
                },
                frame,
            ),
        ),
        None => Err(SecurityError::Handshake),
    }
}

/// Answers a client's first message, with a random nonce and session.
pub fn server_accept(
    config: &ServerHandshakeConfig,
    replay_cache: &mut ReplayCache,
    incoming: &[u8],
    now_ms: u64,
    now: u64,
) -> (r: Result<(ServerHandshakeResult, Vec<u8>), SecurityError>)
    requires
        old(replay_cache).wf(),
        now <= CLOCK_END,
    ensures
        final(replay_cache).wf(),
        exists|server_nonce: [u8; 32], session_id: [u8; 16]|
            #[trigger] is_answered(
                *config,
                old(replay_cache)@,
                final(replay_cache)@,
                incoming@,
                server_nonce@,
                session_id,
                now_ms,
                now,
                r,
            ),
{
    let server_nonce: [u8; 32] = random_32();
    let session_id: [u8; 16] = random_16();
    server_accept_with(config, replay_cache, incoming, server_nonce, session_id, now_ms, now)
}

/// Whoever is let in is on the access list, under a key that is not weak and with
/// a nonce that was free. Whoever is not let in, only a client on the list can
/// have taken a place in the cache.
pub proof fn only_listed_clients_are_let_in(
    config: ServerHandshakeConfig,
    before: Nonces,
    after: Nonces,
    plain: Option<Seq<u8>>,
    remote: Option<Seq<u8>>,
    now_ms: u64,
    now: u64,
    outcome: Result<(Seq<char>, [u8; 32], [u8; 32]), SecurityError>,
)
    requires
        is_judged(config, before, after, plain, remote, now_ms, now, outcome),
    ensures
        outcome matches Ok((client_id, key, nonce)) ==> {
            let entry = ReplayKey { client_key: key, nonce };
            &&& is_authorized(config.allowed_clients@, client_id, key)
            &&& !weak_key(key@)
            &&& reservable(live(before, now), entry)
            &&& after == after_reserve(before, entry, now)
        },
        outcome is Err ==> after == before || exists|entry: ReplayKey, client_id: Seq<char>|
            after == #[trigger] after_reserve(before, entry, now) && #[trigger] is_authorized(
                config.allowed_clients@,
                client_id,
                entry.client_key,
            ),
{
    if admission_fault(config, plain, remote, now_ms) is None && after != before {
        let hello = client_hello_in(plain)->0;
        let (key, nonce) = choose|key: [u8; 32], nonce: [u8; 32]|
            {
                &&& #[trigger] key@ == remote->0
                &&& #[trigger] nonce@ == hello.client_nonce
                &&& is_authorized(config.allowed_clients@, hello.client_id, key)
                &&& after == after_reserve(before, ReplayKey { client_key: key, nonce }, now)
            };
        let entry = ReplayKey { client_key: key, nonce };
        assert(is_authorized(config.allowed_clients@, hello.client_id, entry.client_key));
    }
}

/// The two ends of a session that a handshake leaves face each other, in both
/// directions.
pub proof fn a_handshake_leaves_two_facing_ends(session_id: [u8; 16])
    ensures
        ChannelModel::started(session_id, true).faces(ChannelModel::started(session_id, false)),
        ChannelModel::started(session_id, false).faces(ChannelModel::started(session_id, true)),
{
}

} // verus!
