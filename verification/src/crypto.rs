//! The oblivious transfer engine: the state of one exchange with one peer,
//! key derivation and the AES-256-CBC envelopes.
//!
//! The initiator holds two messages and a secret scalar `a`, and sends
//! `A = G·a`. The responder picks a bit `c` and a secret scalar `b`, answers
//! `B = G·b` (for `c = 0`) or `B = A + G·b` (for `c = 1`) and keeps the key
//! `H(A·b)`. The initiator seals the first message under `H(B·a)` and the
//! second under `H((B − A)·a)`; the responder's key opens the one that `c`
//! chose.

use crate::connection::UserMessage;
use crate::message::MessageView;
use crate::curve::{
    curve_add, curve_mul, curve_sub, generator_sec1, random_bit, sec1_uncompressed, CurvePoint,
    Scalar, SCALAR_LEN,
};
use crate::text::string_from_utf8;
use sha2::Digest;
use vstd::pervasive::unreached;
use vstd::prelude::*;
use vstd::string::*;
use vstd::utf8::*;

verus! {

/// The length of a key, in bytes.
pub const KEY_LEN: usize = 32;

/// The length of a cipher block, in bytes.
pub const BLOCK_LEN: usize = 16;

/// What can go wrong in an exchange.
#[derive(Clone, Copy, Debug, PartialEq, Eq, Structural)]
pub enum CryptoError {
    /// A packet does not fit the state of the exchange, or what was opened is
    /// no text.
    InvalidMessage,
    /// Bytes that should encode a point of the curve do not.
    InvalidPoint,
}

/// The SHA-256 digest of `data`.
pub uninterp spec fn sha256(data: Seq<u8>) -> Seq<u8>;

/// What AES-256 in CBC mode with PKCS7 padding makes of `data` under `key`,
/// chaining from the first 16 bytes of `iv`.
pub uninterp spec fn aes256_cbc_encrypt(key: Seq<u8>, iv: Seq<u8>, data: Seq<u8>) -> Seq<u8>;

/// What AES-256 in CBC mode recovers from the ciphertext `data` under `key`,
/// chaining from the first 16 bytes of `iv`, with the padding taken off; empty
/// where `data` is not a whole number of blocks.
pub uninterp spec fn aes256_cbc_decrypt(key: Seq<u8>, iv: Seq<u8>, data: Seq<u8>) -> Seq<u8>;

/// Calls `Sha256::digest` of `sha2`.
///
/// Assumed: the digest is a function of the data alone.
#[verifier::external_body]
fn sha256_digest(data: &[u8]) -> (r: [u8; 32])
    ensures
        r@ == sha256(data@),
{
    sha2::Sha256::digest(data).into()
}

/// Calls `Cipher::new_256` and `Cipher::cbc_encrypt` of `libaes`.
///
/// Assumed: the ciphertext is a function of the arguments alone; it is the
/// data padded to the next whole number of 16-byte blocks; and
/// `Cipher::cbc_decrypt` under the same key and initialisation vector gives
/// the data back.
#[verifier::external_body]
fn cbc_encrypt(key: &[u8; 32], iv: &[u8], data: &[u8]) -> (r: Vec<u8>)
    requires
        iv@.len() >= BLOCK_LEN,
    ensures
        r@ == aes256_cbc_encrypt(key@, iv@, data@),
        r@.len() == data@.len() + BLOCK_LEN - data@.len() % (BLOCK_LEN as nat),
        aes256_cbc_decrypt(key@, iv@, r@) == data@,
{
    libaes::Cipher::new_256(key).cbc_encrypt(iv, data)
}

/// Calls `Cipher::new_256` and `Cipher::cbc_decrypt` of `libaes`.
///
/// Assumed: the result is a function of the arguments alone.
#[verifier::external_body]
fn cbc_decrypt(key: &[u8; 32], iv: &[u8], data: &[u8]) -> (r: Vec<u8>)
    requires
        iv@.len() >= BLOCK_LEN,
    ensures
        r@ == aes256_cbc_decrypt(key@, iv@, data@),
{
    libaes::Cipher::new_256(key).cbc_decrypt(iv, data)
}

/// The key that a shared point gives: the digest of its uncompressed
/// encoding.
pub open spec fn derive_key(point: Seq<u8>) -> Seq<u8> {
    sha256(sec1_uncompressed(point))
}

/// The envelope of `data` under `key`, which serves as initialisation vector
/// too.
pub open spec fn seal(key: Seq<u8>, data: Seq<u8>) -> Seq<u8> {
    aes256_cbc_encrypt(key, key, data)
}

/// What `key` recovers from the envelope `data`.
pub open spec fn unseal(key: Seq<u8>, data: Seq<u8>) -> Seq<u8> {
    aes256_cbc_decrypt(key, key, data)
}

/// The length of the envelope around `len` bytes.
pub open spec fn sealed_len(len: nat) -> nat {
    (len + BLOCK_LEN - len % (BLOCK_LEN as nat)) as nat
}

/// The point `A = G·a` that opens an exchange.
pub open spec fn greeting_point(a: Seq<u8>) -> Seq<u8> {
    curve_mul(generator_sec1(), a)
}

/// The responder's answer to the point `a_point`, for its scalar `b` and its
/// choice `c`: `G·b`, or `A + G·b`.
pub open spec fn greeting_response(a_point: Seq<u8>, b: Seq<u8>, c: bool) -> Seq<u8> {
    if c {
        curve_add(a_point, curve_mul(generator_sec1(), b))
    } else {
        curve_mul(generator_sec1(), b)
    }
}

/// The responder's key: `H(A·b)`.
pub open spec fn greeting_key(a_point: Seq<u8>, b: Seq<u8>) -> Seq<u8> {
    derive_key(curve_mul(a_point, b))
}

/// The initiator's key for the first message: `H(B·a)`.
pub open spec fn response_key0(a: Seq<u8>, b_point: Seq<u8>) -> Seq<u8> {
    derive_key(curve_mul(b_point, a))
}

/// The initiator's key for the second message: `H((B − A)·a)`.
pub open spec fn response_key1(a: Seq<u8>, a_point: Seq<u8>, b_point: Seq<u8>) -> Seq<u8> {
    derive_key(curve_mul(curve_sub(b_point, a_point), a))
}

/// Both hosts reach the same point: for the initiator's scalar `a` and every
/// scalar `b` of a responder, `(G·a)·b` is `(G·b)·a`.
pub open spec fn key_agreement(a: Seq<u8>) -> bool {
    forall|b: Seq<u8>|
        b.len() == SCALAR_LEN ==> #[trigger] curve_mul(greeting_point(a), b) == curve_mul(
            greeting_point(b),
            a,
        )
}

/// What the responder opens: the plaintext of the ciphertext that `c`
/// chooses, provided it is text.
pub open spec fn opened_text(key: Seq<u8>, c: bool, c0: Seq<u8>, c1: Seq<u8>) -> Option<
    Seq<char>,
> {
    let plain = unseal(
        key,
        if c {
            c1
        } else {
            c0
        },
    );
    if valid_utf8(plain) {
        Some(decode_utf8(plain))
    } else {
        None
    }
}

/// The key that `point` gives.
fn into_key(point: &CurvePoint) -> (r: [u8; 32])
    ensures
        r@ == derive_key(point@),
{
    let encoded = point.to_uncompressed();
    sha256_digest(encoded.as_slice())
}

/// The state of the exchange with one peer.
#[derive(Debug)]
pub enum MessageState {
    /// This host sent `Greet`: it holds its secret scalar, its point and the
    /// two messages on offer.
    GreetSent(Scalar, CurvePoint, UserMessage, UserMessage),
    /// This host answered `Greet`: it holds its key and its choice.
    GreetReceived([u8; 32], bool),
}

/// The state of an exchange as a mathematical value.
pub enum MessageStateView {
    GreetSent(Seq<u8>, Seq<u8>, Seq<char>, Seq<char>),
    GreetReceived(Seq<u8>, bool),
}

impl View for MessageState {
    type V = MessageStateView;

    open spec fn view(&self) -> MessageStateView {
        match self {
            MessageState::GreetSent(a, point, m0, m1) => MessageStateView::GreetSent(
                a@,
                point@,
                m0@,
                m1@,
            ),
            MessageState::GreetReceived(key, c) => MessageStateView::GreetReceived(key@, *c),
        }
    }
}

impl MessageStateView {
    /// The two ciphertexts with which an initiator in this state answers the
    /// point `other`; `None` for a responder.
    pub open spec fn response(self, other: Seq<u8>) -> Option<(Seq<u8>, Seq<u8>)> {
        match self {
            MessageStateView::GreetSent(a, point, m0, m1) => Some(
                (
                    seal(response_key0(a, other), encode_utf8(m0)),
                    seal(response_key1(a, point, other), encode_utf8(m1)),
                ),
            ),
            MessageStateView::GreetReceived(_, _) => None,
        }
    }

    /// The text that a responder in this state opens from the two
    /// ciphertexts; `None` for an initiator, and where what is opened is no
    /// text.
    pub open spec fn opened(self, c0: Seq<u8>, c1: Seq<u8>) -> Option<Seq<char>> {
        match self {
            MessageStateView::GreetSent(_, _, _, _) => None,
            MessageStateView::GreetReceived(key, c) => opened_text(key, c, c0, c1),
        }
    }
}

impl MessageState {
    /// Opens an exchange over the two messages: the point to send and the
    /// state to keep. The secret scalar is `a` where one is given, else drawn
    /// at random.
    pub fn send_message(m0: UserMessage, m1: UserMessage, a: Option<Scalar>) -> (r: (
        CurvePoint,
        Self,
    ))
        ensures
            r.0.wf(),
            r.1@ matches MessageStateView::GreetSent(secret, point, s0, s1) && {
                &&& secret.len() == SCALAR_LEN
                &&& a matches Some(given) ==> secret == given@
                &&& point == greeting_point(secret)
                &&& r.0@ == point
                &&& s0 == m0@
                &&& s1 == m1@
                &&& key_agreement(secret)
            },
    {
        let a = match a {
            Some(a) => a,
            None => Scalar::random(),
        };
        proof {
            a.lemma_len();
        }
        let point = CurvePoint::generator().mul(&a);
        (point.clone(), MessageState::GreetSent(a, point, m0, m1))
    }

    /// Answers the point of a `Greet` with a scalar and a choice drawn at
    /// random: the point to send and the state to keep.
    pub fn on_greeting(point: CurvePoint) -> (r: (CurvePoint, Self))
        ensures
            r.0.wf(),
            exists|b: Seq<u8>, c: bool|
                {
                    &&& b.len() == SCALAR_LEN
                    &&& r.0@ == #[trigger] greeting_response(point@, b, c)
                    &&& r.1@ == MessageStateView::GreetReceived(greeting_key(point@, b), c)
                },
    {
        let b = Scalar::random();
        let c = random_bit();
        proof {
            b.lemma_len();
        }
        Self::on_greeting_with(point, b, c)
    }

    /// Answers the point of a `Greet` with the scalar `b` and the choice `c`:
    /// the point to send and the state to keep.
    pub fn on_greeting_with(point: CurvePoint, b: Scalar, c: bool) -> (r: (CurvePoint, Self))
        ensures
            r.0.wf(),
            r.0@ == greeting_response(point@, b@, c),
            r.1@ == MessageStateView::GreetReceived(greeting_key(point@, b@), c),
            c ==> curve_sub(r.0@, point@) == greeting_point(b@),
    {
        let own = CurvePoint::generator().mul(&b);
        let response = if c {
            point.add(&own)
        } else {
            own
        };
        let key = into_key(&point.mul(&b));
        (response, MessageState::GreetReceived(key, c))
    }

    /// Answers the point of a `Response`: the two ciphertexts, the first under
    /// the key of `other`, the second under the key of `other` less this
    /// host's own point. A responder's state fits no `Response`.
    pub fn on_response(self, other: CurvePoint) -> (r: Result<(Vec<u8>, Vec<u8>), CryptoError>)
        ensures
            match self@.response(other@) {
                Some((c0, c1)) => r matches Ok(pair) && pair.0@ == c0 && pair.1@ == c1,
                None => r == Err::<(Vec<u8>, Vec<u8>), CryptoError>(CryptoError::InvalidMessage),
            },
            r matches Ok(pair) ==> self@ matches MessageStateView::GreetSent(a, point, m0, m1) && {
                &&& pair.0@.len() == sealed_len(encode_utf8(m0).len())
                &&& pair.1@.len() == sealed_len(encode_utf8(m1).len())
                &&& unseal(response_key0(a, other@), pair.0@) == encode_utf8(m0)
                &&& unseal(response_key1(a, point, other@), pair.1@) == encode_utf8(m1)
                &&& MessageView::Data(pair.0@, pair.1@).conforming()
            },
    {
        match self {
            MessageState::GreetSent(a, point, m0, m1) => {
                let key0 = into_key(&other.mul(&a));
                let key1 = into_key(&other.sub(&point).mul(&a));
                Ok(
                    (
                        cbc_encrypt(&key0, key0.as_slice(), m0.as_str().as_bytes()),
                        cbc_encrypt(&key1, key1.as_slice(), m1.as_str().as_bytes()),
                    ),
                )
            },
            MessageState::GreetReceived(_, _) => Err(CryptoError::InvalidMessage),
        }
    }

    /// Opens the ciphertext that this host chose: `m0` for the choice 0, `m1`
    /// for the choice 1. An initiator's state fits no `Data`, and what is
    /// opened must be UTF-8.
    pub fn on_messages(self, m0: Vec<u8>, m1: Vec<u8>) -> (r: Result<String, CryptoError>)
        ensures
            match self@.opened(m0@, m1@) {
                Some(text) => r matches Ok(opened) && opened@ == text,
                None => r == Err::<String, CryptoError>(CryptoError::InvalidMessage),
            },
    {
        match self {
            MessageState::GreetSent(_, _, _, _) => Err(CryptoError::InvalidMessage),
            MessageState::GreetReceived(key, c) => {
                let ciphertext = if c {
                    m1
                } else {
                    m0
                };
                let decoded = cbc_decrypt(&key, key.as_slice(), ciphertext.as_slice());
                match string_from_utf8(decoded) {
                    Some(text) => Ok(text),
                    None => Err(CryptoError::InvalidMessage),
                }
            },
        }
    }
}

/// The responder opens the message that it chose.
///
/// This follows from what the steps of an exchange guarantee: the two hosts
/// agree on a key ([`MessageState::send_message`]), the response less the
/// initiator's point is the responder's own point
/// ([`MessageState::on_greeting_with`]), and each ciphertext opens under its
/// key ([`MessageState::on_response`]).
pub proof fn lemma_chosen_message_opens(
    a: Seq<u8>,
    b: Seq<u8>,
    c: bool,
    m0: Seq<char>,
    m1: Seq<char>,
    e0: Seq<u8>,
    e1: Seq<u8>,
)
    requires
        b.len() == SCALAR_LEN,
        key_agreement(a),
        c ==> curve_sub(greeting_response(greeting_point(a), b, c), greeting_point(a))
            == greeting_point(b),
        unseal(response_key0(a, greeting_response(greeting_point(a), b, c)), e0) == encode_utf8(
            m0,
        ),
        unseal(
            response_key1(a, greeting_point(a), greeting_response(greeting_point(a), b, c)),
            e1,
        ) == encode_utf8(m1),
    ensures
        greeting_key(greeting_point(a), b) == (if c {
            response_key1(a, greeting_point(a), greeting_response(greeting_point(a), b, c))
        } else {
            response_key0(a, greeting_response(greeting_point(a), b, c))
        }),
        opened_text(greeting_key(greeting_point(a), b), c, e0, e1) == Some(
            if c {
                m1
            } else {
                m0
            },
        ),
{
    let chosen = if c {
        m1
    } else {
        m0
    };
    assert(curve_mul(greeting_point(a), b) == curve_mul(greeting_point(b), a));
    encode_utf8_valid_utf8(chosen);
    encode_utf8_decode_utf8(chosen);
}

/// What the two hosts of one exchange send and what the responder opens.
#[derive(Debug)]
pub struct Transcript {
    /// The initiator's point, sent in `Greet`.
    pub a_point: CurvePoint,
    /// The responder's point, sent in `Response`.
    pub b_point: CurvePoint,
    /// The first ciphertext of `Data`.
    pub e0: Vec<u8>,
    /// The second ciphertext of `Data`.
    pub e1: Vec<u8>,
    /// The text that the responder opens.
    pub opened: String,
}

/// Runs one exchange from end to end between an initiator with the scalar
/// `a`, who offers `m0` and `m1`, and a responder with the scalar `b` and the
/// choice `c`.
///
/// The responder opens the message that it chose, whatever the messages, the
/// scalars and the choice are: `m0` for the choice 0, `m1` for the choice 1.
pub fn exchange(m0: UserMessage, m1: UserMessage, a: Scalar, b: Scalar, c: bool) -> (t: Transcript)
    ensures
        t.a_point@ == greeting_point(a@),
        t.b_point@ == greeting_response(t.a_point@, b@, c),
        MessageStateView::GreetSent(a@, t.a_point@, m0@, m1@).response(t.b_point@) == Some(
            (t.e0@, t.e1@),
        ),
        MessageStateView::GreetReceived(greeting_key(t.a_point@, b@), c).opened(t.e0@, t.e1@)
            == Some(t.opened@),
        t.opened@ == (if c {
            m1@
        } else {
            m0@
        }),
{
    let ghost first = m0@;
    let ghost second = m1@;
    let (a_point, initiator) = MessageState::send_message(m0, m1, Some(a));
    let (b_point, responder) = MessageState::on_greeting_with(a_point.clone(), b, c);
    match initiator.on_response(b_point.clone()) {
        Ok((e0, e1)) => {
            proof {
                b.lemma_len();
                lemma_chosen_message_opens(a@, b@, c, first, second, e0@, e1@);
            }
            let e0_kept = e0.clone();
            let e1_kept = e1.clone();
            match responder.on_messages(e0, e1) {
                Ok(opened) => Transcript { a_point, b_point, e0: e0_kept, e1: e1_kept, opened },
                Err(_) => unreached(),
            }
        },
        Err(_) => unreached(),
    }
}

} // verus!
