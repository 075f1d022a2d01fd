//! Shared data structures and protocol definitions.

use crate::hex::{hex_text, hex_text_is_injective};
use crate::keys::{SigningKey, VerifyingKey};
use crate::outside::{
    ed25519_public_key, hex_encode, key_from_der, public_key_der, random_seed, spki_head,
    spki_public_key,
};
use crate::text::{decimal, decimal_round_trip, decimal_text, decimal_value};
use vstd::prelude::*;
use vstd::string::*;

pub use crate::delimited::Delimited;

verus! {

/// Maximum byte length for a JSON frame in the stream.
pub const MAX_FRAME_LENGTH: usize = 512;

/// Timeout for network connections and initial protocol messages, in seconds.
pub const NETWORK_TIMEOUT: u64 = 3;

/// Wrapper for the DER-encoded bytes of a Ed25519 public key.
#[derive(Copy, Clone, Debug, PartialEq, Eq, Hash)]
pub struct PeerKey(pub [u8; 44]);

impl View for PeerKey {
    type V = Seq<u8>;

    open spec fn view(&self) -> Seq<u8> {
        self.0@
    }
}

/// Why bytes are no peer key, or a peer key is no public key.
#[derive(Debug, PartialEq, Eq)]
pub enum KeyError {
    /// The number of bytes is not that of an encoded key.
    Length(usize),
    /// The bytes are no encoding of a key, with the decoder's own words.
    Encoding(String),
}

/// A `KeyError` as a value.
pub enum KeyFault {
    Length(nat),
    Encoding(Seq<char>),
}

impl View for KeyError {
    type V = KeyFault;

    open spec fn view(&self) -> KeyFault {
        match self {
            KeyError::Length(length) => KeyFault::Length(*length as nat),
            KeyError::Encoding(text) => KeyFault::Encoding(text@),
        }
    }
}

impl KeyFault {
    /// The words in which a fault is reported.
    pub open spec fn text(self) -> Seq<char> {
        match self {
            KeyFault::Length(length) => "expected a 44-byte public key, got "@ + decimal_text(length)
                + " bytes"@,
            KeyFault::Encoding(text) => text,
        }
    }
}

impl KeyError {
    /// The words in which the error is reported.
    pub fn message(&self) -> (text: String)
        ensures
            text@ == self@.text(),
    {
        match self {
            KeyError::Length(length) => {
                let mut text = "expected a 44-byte public key, got ".to_owned();
                text.append(decimal(*length).as_str());
                text.append(" bytes");
                text
            },
            KeyError::Encoding(text) => text.clone(),
        }
    }
}

/// The verifying key that an encoded key stands for.
pub open spec fn decoded_key(key: Seq<u8>) -> Result<Seq<u8>, KeyFault> {
    match spki_public_key(key) {
        Ok(found) => Ok(found),
        Err(text) => Err(KeyFault::Encoding(text)),
    }
}

/// The encoded key of a secret seed.
pub open spec fn encoded_key(seed: Seq<u8>) -> Seq<u8> {
    spki_head() + ed25519_public_key(seed)
}

/// Fills a key from the first bytes of a sequence.
fn first_44(bytes: &[u8]) -> (array: [u8; 44])
    requires
        bytes@.len() >= 44,
    ensures
        array@ == bytes@.take(44),
{
    let mut array: [u8; 44] = [0u8;44];
    let mut i: usize = 0;
    while i < 44
        invariant
            i <= 44,
            bytes@.len() >= 44,
            forall|j: int| 0 <= j < i ==> array@[j] == bytes@[j],
        decreases 44 - i,
    {
        array[i] = bytes[i];
        i = i + 1;
    }
    assert(array@ =~= bytes@.take(44));
    array
}

impl PeerKey {
    /// Create a new instance from a unknown-length Vec of bytes.
    pub fn from_bytes(bytes: Vec<u8>) -> (key: Result<PeerKey, KeyError>)
        ensures
            match key {
                Ok(key) => bytes@.len() == 44 && key@ == bytes@,
                Err(error) => bytes@.len() != 44 && error@ == KeyFault::Length(bytes@.len()),
            },
    {
        if bytes.len() == 44 {
            let array = first_44(bytes.as_slice());
            assert(array@ =~= bytes@);
            Ok(PeerKey(array))
        } else {
            Err(KeyError::Length(bytes.len()))
        }
    }

    /// Create a new instance from a `SigningKey`.
    pub fn from_signing_key(value: &SigningKey) -> (key: Result<PeerKey, KeyError>)
        ensures
            key matches Ok(key) && key@ == encoded_key(value@) && decoded_key(key@) == Ok::<
                Seq<u8>,
                KeyFault,
            >(ed25519_public_key(value@)),
    {
        match public_key_der(&value.to_bytes()) {
            Ok(der) => PeerKey::from_bytes(der),
            Err(text) => Err(KeyError::Encoding(text)),
        }
    }

    /// Build a `VerifyingKey` instance from this instance.
    pub fn to_verifying_key(&self) -> (key: Result<VerifyingKey, KeyError>)
        ensures
            match key {
                Ok(key) => decoded_key(self@) == Ok::<Seq<u8>, KeyFault>(key@) && self@
                    == spki_head() + key@,
                Err(error) => decoded_key(self@) == Err::<Seq<u8>, KeyFault>(error@),
            },
    {
        match key_from_der(self.0.as_slice()) {
            Ok(bytes) => Ok(VerifyingKey::from_bytes(&bytes)),
            Err(text) => Err(KeyError::Encoding(text)),
        }
    }

    /// Create a new instance from the elements of a serialized sequence, read in order. Where the
    /// sequence ends early, the error is the number of elements that it had.
    pub fn from_elements(elements: &[u8]) -> (key: Result<PeerKey, usize>)
        ensures
            match key {
                Ok(key) => key_of_elements(elements@) == Ok::<Seq<u8>, nat>(key@),
                Err(count) => key_of_elements(elements@) == Err::<Seq<u8>, nat>(count as nat),
            },
    {
        if elements.len() < 44 {
            Err(elements.len())
        } else {
            Ok(PeerKey(first_44(elements)))
        }
    }

    /// Small hexadecimal digits, two for each byte.
    pub fn to_hex(&self) -> (text: String)
        ensures
            text@ == hex_text(self@, false),
    {
        hex_encode(self.0.as_slice())
    }
}

/// The key that a serialized sequence of bytes holds, or how many bytes it has where they are too
/// few.
pub open spec fn key_of_elements(elements: Seq<u8>) -> Result<Seq<u8>, nat> {
    if elements.len() < 44 {
        Err(elements.len())
    } else {
        Ok(elements.take(44))
    }
}

/// A key is read back from the sequence of its own bytes.
pub proof fn peer_key_elements_round_trip(key: PeerKey)
    ensures
        key_of_elements(key@) == Ok::<Seq<u8>, nat>(key@),
{
    assert(key@.take(44) =~= key@);
}

/// Two keys that are shown with the same text are the same.
pub proof fn peer_key_text_is_unique(a: PeerKey, b: PeerKey)
    requires
        hex_text(a@, false) == hex_text(b@, false),
    ensures
        a@ == b@,
{
    hex_text_is_injective(a@, b@, false);
}

/// Fields needed to route incoming requests to a unique peer.
pub type PeerInfo = (PeerKey, u16);

/// A message from the client on the control connection.
#[derive(Debug, PartialEq, Eq)]
pub enum ClientMessage {
    /// Response to an authentication challenge from the server.
    Authenticate {
        /// The client's public key; known by the server
        public_key: PeerKey,
        /// The server's challenge, signed by the client's signing key
        signature: String,
    },
    /// Initial client message specifying a port to forward.
    Hello(PeerKey, u16),
    /// Accepts an incoming TCP connection, using this stream as a proxy.
    Accept(PeerKey),
}

/// A `ClientMessage` as a value.
pub enum ClientMessageView {
    Authenticate { public_key: Seq<u8>, signature: Seq<char> },
    Hello(Seq<u8>, u16),
    Accept(Seq<u8>),
}

impl View for ClientMessage {
    type V = ClientMessageView;

    open spec fn view(&self) -> ClientMessageView {
        match self {
            ClientMessage::Authenticate { public_key, signature } =>
                ClientMessageView::Authenticate {
                public_key: public_key@,
                signature: signature@,
            },
            ClientMessage::Hello(key, port) => ClientMessageView::Hello(key@, *port),
            ClientMessage::Accept(key) => ClientMessageView::Accept(key@),
        }
    }
}

/// A message from the server on the control connection.
#[derive(Debug, PartialEq, Eq)]
pub enum ServerMessage {
    /// Authentication challenge, sent as the first message, if enabled.
    Challenge(Vec<u8>),
    /// Response to a client's initial message, with actual public port.
    Hello(u16),
    /// No-op used to test if the client is still reachable.
    Heartbeat,
    /// Asks the client to accept a forwarded TCP connection.
    Connection(PeerKey),
    /// Indicates a server error that terminates the connection.
    Error(String),
}

/// A `ServerMessage` as a value.
pub enum ServerMessageView {
    Challenge(Seq<u8>),
    Hello(u16),
    Heartbeat,
    Connection(Seq<u8>),
    Error(Seq<char>),
}

impl View for ServerMessage {
    type V = ServerMessageView;

    open spec fn view(&self) -> ServerMessageView {
        match self {
            ServerMessage::Challenge(challenge) => ServerMessageView::Challenge(challenge@),
            ServerMessage::Hello(port) => ServerMessageView::Hello(*port),
            ServerMessage::Heartbeat => ServerMessageView::Heartbeat,
            ServerMessage::Connection(key) => ServerMessageView::Connection(key@),
            ServerMessage::Error(text) => ServerMessageView::Error(text@),
        }
    }
}

/// What arrived where a client's message was due: `None` at the end of the stream.
pub open spec fn client_view(message: Option<ClientMessage>) -> Option<ClientMessageView> {
    match message {
        Some(message) => Some(message@),
        None => None,
    }
}

/// What arrived where a server's message was due: `None` at the end of the stream.
pub open spec fn server_view(message: Option<ServerMessage>) -> Option<ServerMessageView> {
    match message {
        Some(message) => Some(message@),
        None => None,
    }
}

/// Why no message could be received.
#[derive(Copy, Clone, Debug, PartialEq, Eq)]
pub enum ReceiveError {
    /// The stream could not be read, or a frame is too long.
    Frame,
    /// A frame is no message.
    Parse,
    /// Nothing came in time.
    TimedOut,
}

impl ReceiveError {
    /// The words in which the error is reported.
    pub open spec fn text(self) -> Seq<char> {
        match self {
            ReceiveError::Frame => "frame error, invalid byte length"@,
            ReceiveError::Parse => "unable to parse message"@,
            ReceiveError::TimedOut => "timed out waiting for initial message"@,
        }
    }

    /// The words in which the error is reported.
    pub fn message(&self) -> (text: String)
        ensures
            text@ == self.text(),
    {
        match self {
            ReceiveError::Frame => "frame error, invalid byte length".to_owned(),
            ReceiveError::Parse => "unable to parse message".to_owned(),
            ReceiveError::TimedOut => "timed out waiting for initial message".to_owned(),
        }
    }
}

/// Whether the system's random source can give the seed of a key.
pub closed spec fn is_drawn_key(key: SigningKey) -> bool {
    exists|seed: [u8; 32]| #[trigger] call_ensures(random_seed, (), seed) && key@ == seed@
}

/// Generate a new signing key from the system's random source. Any key may come back.
pub fn generate_signing_key() -> (key: SigningKey)
    ensures
        is_drawn_key(key),
{
    SigningKey::from_bytes(&random_seed())
}

/// A generated key is one that the random source gave, all of it.
pub(crate) proof fn drawn_key_is_what_was_drawn(key: SigningKey)
    requires
        is_drawn_key(key),
    ensures
        exists|seed: [u8; 32]| #[trigger] call_ensures(random_seed, (), seed) && key@ == seed@,
{
}

/// A key is read from the first 44 bytes of a sequence, which may be longer; of a shorter one the
/// number of bytes is reported.
pub proof fn keys_are_read_from_enough_bytes(elements: Seq<u8>)
    ensures
        elements.len() >= 44 ==> (key_of_elements(elements) matches Ok(key) && key.len() == 44
            && forall|i: int| 0 <= i < 44 ==> #[trigger] key[i] == elements[i]),
        elements.len() < 44 ==> key_of_elements(elements) == Err::<Seq<u8>, nat>(elements.len()),
{
}

/// An encoded key stands for what its decoder finds in it, and the decoder's words are passed on.
/// The encoded key of a seed ends in the seed's public key.
pub proof fn encoded_keys_stand_for_what_is_decoded(key: Seq<u8>, seed: Seq<u8>)
    ensures
        match spki_public_key(key) {
            Ok(found) => decoded_key(key) == Ok::<Seq<u8>, KeyFault>(found),
            Err(text) => decoded_key(key) == Err::<Seq<u8>, KeyFault>(KeyFault::Encoding(text)),
        },
        encoded_key(seed) == spki_head() + ed25519_public_key(seed),
        encoded_key(seed).skip(12) == ed25519_public_key(seed),
{
    assert(encoded_key(seed).skip(12) =~= ed25519_public_key(seed));
}

/// A key of the wrong length is reported with its length, and a decoder's words are passed on.
pub proof fn key_faults_tell_what_is_wrong(length: nat, words: Seq<char>)
    ensures
        ({
            let head = "expected a 44-byte public key, got "@;
            let tail = " bytes"@;
            let text = KeyFault::Length(length).text();
            let digits = text.subrange(head.len() as int, text.len() - tail.len());
            &&& text.len() >= head.len() + tail.len()
            &&& text.take(head.len() as int) == head
            &&& text.skip(text.len() - tail.len()) == tail
            &&& decimal_value(digits) == length
        }),
        KeyFault::Encoding(words).text() == words,
{
    let head = "expected a 44-byte public key, got "@;
    let tail = " bytes"@;
    let text = KeyFault::Length(length).text();
    decimal_round_trip(length);
    assert(text.take(head.len() as int) =~= head);
    assert(text.skip(text.len() - tail.len()) =~= tail);
    assert(text.subrange(head.len() as int, text.len() - tail.len()) =~= decimal_text(length));
}

/// Messages and errors are seen as what they are, with everything that they carry.
pub proof fn messages_are_seen_as_they_are(
    key: PeerKey,
    port: u16,
    text: String,
    bytes: Vec<u8>,
    length: usize,
    from_client: ClientMessage,
    from_server: ServerMessage,
)
    ensures
        key@ == key.0@,
        KeyError::Length(length)@ == KeyFault::Length(length as nat),
        KeyError::Encoding(text)@ == KeyFault::Encoding(text@),
        (ClientMessage::Authenticate { public_key: key, signature: text })@ == (
        ClientMessageView::Authenticate { public_key: key@, signature: text@ }),
        ClientMessage::Hello(key, port)@ == ClientMessageView::Hello(key@, port),
        ClientMessage::Accept(key)@ == ClientMessageView::Accept(key@),
        ServerMessage::Challenge(bytes)@ == ServerMessageView::Challenge(bytes@),
        ServerMessage::Hello(port)@ == ServerMessageView::Hello(port),
        ServerMessage::Heartbeat@ == ServerMessageView::Heartbeat,
        ServerMessage::Connection(key)@ == ServerMessageView::Connection(key@),
        ServerMessage::Error(text)@ == ServerMessageView::Error(text@),
        client_view(Some(from_client)) == Some(from_client@),
        client_view(None) is None,
        server_view(Some(from_server)) == Some(from_server@),
        server_view(None) is None,
{
}

} // verus!
