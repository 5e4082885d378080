//! Keys of the relay protocol, and the box that two of them make.
use crate::codec::decode::{Decode, DecodeError, ReadBuffer};
use crate::codec::encode::{Encode, WriteBuffer};
use crypto_box::aead::generic_array::GenericArray;
use crypto_box::aead::{Aead, AeadCore};
use crypto_box::SalsaBox;
use rand_core::OsRng;
use vstd::prelude::*;

verus! {

/// Whether two byte strings hold the same bytes.
pub fn same_bytes(a: &[u8], b: &[u8]) -> (same: bool)
    ensures
        same == (a@ == b@),
{
    if a.len() != b.len() {
        return false;
    }
    let mut at: usize = 0;
    while at < a.len()
        invariant
            at <= a@.len(),
            a@.len() == b@.len(),
            forall|i: int| 0 <= i < at ==> a@[i] == b@[i],
        decreases a@.len() - at,
    {
        if a[at] != b[at] {
            return false;
        }
        at = at + 1;
    }
    assert(a@ =~= b@);
    true
}

/// The identity of a client or of a relay: 32 opaque bytes.
#[derive(Clone, Copy, Debug, Hash)]
pub struct PublicKey {
    bytes: [u8; 32],
}

impl View for PublicKey {
    type V = Seq<u8>;

    /// The 32 bytes of the key.
    closed spec fn view(&self) -> Seq<u8> {
        self.bytes@
    }
}

impl DeepView for PublicKey {
    type V = Seq<u8>;

    open spec fn deep_view(&self) -> Seq<u8> {
        self@
    }
}

impl PartialEq for PublicKey {
    fn eq(&self, other: &Self) -> (same: bool) {
        same_bytes(self.bytes.as_slice(), other.bytes.as_slice())
    }
}

impl Eq for PublicKey {

}

impl vstd::std_specs::cmp::PartialEqSpecImpl for PublicKey {
    open spec fn obeys_eq_spec() -> bool {
        true
    }

    open spec fn eq_spec(&self, other: &Self) -> bool {
        self@ == other@
    }
}

impl Default for PublicKey {
    fn default() -> (key: Self)
        ensures
            key@ == Seq::new(32, |i: int| 0u8),
    {
        let key = PublicKey { bytes: [0u8; 32] };
        key
    }
}

impl PublicKey {
    /// The key made of `bytes`.
    pub fn new(bytes: [u8; 32]) -> (key: Self)
        ensures
            key@ == bytes@,
    {
        PublicKey { bytes }
    }

    /// The bytes of the key.
    pub fn as_bytes(&self) -> (bytes: &[u8; 32])
        ensures
            bytes@ == self@,
    {
        &self.bytes
    }

    /// A key has 32 bytes.
    pub proof fn lemma_len(&self)
        ensures
            self@.len() == 32,
    {
    }

    /// The key in lower-case hexadecimal digits, two for each byte, as ASCII.
    pub fn to_hex(&self) -> (digits: Vec<u8>)
        ensures
            digits@ == hex_of(self@),
    {
        let mut digits: Vec<u8> = Vec::new();
        let mut at: usize = 0;
        while at < 32
            invariant
                at <= 32,
                self.bytes@.len() == 32,
                digits@ == hex_of(self.bytes@.take(at as int)),
            decreases 32 - at,
        {
            let byte = self.bytes[at];
            digits.push(hex_digit(byte / 16));
            digits.push(hex_digit(byte % 16));
            proof {
                let next = self.bytes@.take(at + 1);
                assert(next.drop_last() =~= self.bytes@.take(at as int));
            }
            at = at + 1;
        }
        assert(self.bytes@.take(32) =~= self.bytes@);
        digits
    }
}

/// The ASCII digit for a value below 16.
pub open spec fn spec_hex_digit(value: u8) -> u8 {
    if value < 10 {
        (0x30 + value) as u8
    } else {
        (0x61 + (value - 10)) as u8
    }
}

/// Two lower-case hexadecimal digits for each of `bytes`, high digit first.
pub open spec fn hex_of(bytes: Seq<u8>) -> Seq<u8>
    decreases bytes.len(),
{
    if bytes.len() == 0 {
        Seq::empty()
    } else {
        hex_of(bytes.drop_last()).push(spec_hex_digit(bytes.last() / 16)).push(
            spec_hex_digit(bytes.last() % 16),
        )
    }
}

fn hex_digit(value: u8) -> (digit: u8)
    requires
        value < 16,
    ensures
        digit == spec_hex_digit(value),
{
    if value < 10 {
        0x30 + value
    } else {
        0x61 + (value - 10)
    }
}

impl Encode for PublicKey {
    open spec fn wire(&self) -> Seq<u8> {
        self@
    }

    open spec fn encodable(&self) -> bool {
        true
    }

    fn encode<W: WriteBuffer>(&self, write_buffer: &mut W) -> (r: Result<usize, W::Error>) {
        self.bytes.encode(write_buffer)
    }
}

impl Decode for PublicKey {
    open spec fn parse(input: Seq<u8>) -> Option<(Seq<u8>, nat)> {
        if input.len() < 32 {
            None
        } else {
            Some((input.take(32), 32))
        }
    }

    proof fn lemma_parse_in_bounds(input: Seq<u8>) {
    }

    fn decode<R: ReadBuffer>(read_buffer: &mut R) -> (r: Result<Self, DecodeError>) {
        match <[u8; 32]>::decode(read_buffer) {
            Ok(bytes) => {
                assert(bytes.deep_view() =~= bytes@);
                Ok(PublicKey { bytes })
            },
            Err(e) => Err(e),
        }
    }
}

/// The public key that belongs to a secret key, which both sides compute alike.
pub uninterp spec fn x25519_public(secret: Seq<u8>) -> Seq<u8>;

/// What sealing `plaintext` gives, for the box of a peer's public key and one's own secret
/// key under a nonce; `None` where the box refuses.
pub uninterp spec fn salsa_box_seal(
    peer: Seq<u8>,
    secret: Seq<u8>,
    nonce: Seq<u8>,
    plaintext: Seq<u8>,
) -> Option<Seq<u8>>;

/// What opening `ciphertext` gives, for the box of a peer's public key and one's own secret
/// key under a nonce; `None` where the ciphertext was not sealed for that box.
pub uninterp spec fn salsa_box_open(
    peer: Seq<u8>,
    secret: Seq<u8>,
    nonce: Seq<u8>,
    ciphertext: Seq<u8>,
) -> Option<Seq<u8>>;

/// The error of a box that does not seal or open.
#[verifier::external_type_specification]
#[verifier::external_body]
pub struct ExAeadError(crypto_box::aead::Error);

/// `crypto_box::SecretKey::public_key`, on a key made by `SecretKey::from_bytes`: the X25519
/// public key of `secret`. The contract only names the result: it depends on the bytes of
/// the secret key alone.
#[verifier::external_body]
fn box_public_key(secret: &[u8; 32]) -> (public: [u8; 32])
    ensures
        public@ == x25519_public(secret@),
{
    crypto_box::SecretKey::from_bytes(*secret).public_key().to_bytes()
}

/// `Aead::encrypt` of `crypto_box::SalsaBox`, on the box that `SalsaBox::new` makes of the two
/// keys, without associated data. The contract only names the result: it depends on the
/// keys, the nonce and the plaintext alone.
#[verifier::external_body]
fn box_seal(peer: &[u8; 32], secret: &[u8; 32], nonce: &[u8; 24], plaintext: &[u8]) -> (r: Result<
    Vec<u8>,
    crypto_box::aead::Error,
>)
    ensures
        match r {
            Ok(sealed) => salsa_box_seal(peer@, secret@, nonce@, plaintext@) == Some(sealed@),
            Err(_) => salsa_box_seal(peer@, secret@, nonce@, plaintext@) is None,
        },
{
    let peer_key = crypto_box::PublicKey::from_bytes(*peer);
    let secret_key = crypto_box::SecretKey::from_bytes(*secret);
    SalsaBox::new(&peer_key, &secret_key).encrypt(GenericArray::from_slice(nonce), plaintext)
}

/// `Aead::decrypt` of `crypto_box::SalsaBox`, on the box that `SalsaBox::new` makes of the two
/// keys, without associated data. The contract only names the result: it depends on the
/// keys, the nonce and the ciphertext alone.
#[verifier::external_body]
fn box_open(peer: &[u8; 32], secret: &[u8; 32], nonce: &[u8; 24], ciphertext: &[u8]) -> (r: Result<
    Vec<u8>,
    crypto_box::aead::Error,
>)
    ensures
        match r {
            Ok(opened) => salsa_box_open(peer@, secret@, nonce@, ciphertext@) == Some(opened@),
            Err(_) => salsa_box_open(peer@, secret@, nonce@, ciphertext@) is None,
        },
{
    let peer_key = crypto_box::PublicKey::from_bytes(*peer);
    let secret_key = crypto_box::SecretKey::from_bytes(*secret);
    SalsaBox::new(&peer_key, &secret_key).decrypt(GenericArray::from_slice(nonce), ciphertext)
}

/// `crypto_box::SecretKey::generate` with the operating system's random number generator:
/// the bytes of a fresh secret key. Nothing is promised of them.
#[verifier::external_body]
fn random_secret() -> [u8; 32] {
    crypto_box::SecretKey::generate(&mut OsRng).to_bytes()
}

/// `AeadCore::generate_nonce` of `crypto_box::SalsaBox` with the operating system's random
/// number generator: a fresh nonce. Nothing is promised of it.
#[verifier::external_body]
fn random_nonce() -> [u8; 24] {
    SalsaBox::generate_nonce(&mut OsRng).into()
}

/// Why a box gave nothing.
#[derive(Debug, PartialEq, Eq, Clone, Copy, Structural)]
pub enum BoxError {
    /// The box did not seal the plaintext.
    Seal,
    /// The ciphertext was not sealed for this box under this nonce.
    Open,
}

/// The private counterpart of a `PublicKey`: one side of a box.
#[derive(Clone, Copy)]
pub struct SecretKey {
    bytes: [u8; 32],
}

impl View for SecretKey {
    type V = Seq<u8>;

    /// The 32 bytes of the key.
    closed spec fn view(&self) -> Seq<u8> {
        self.bytes@
    }
}

impl SecretKey {
    /// The secret key made of `bytes`.
    pub fn new(bytes: [u8; 32]) -> (key: Self)
        ensures
            key@ == bytes@,
    {
        SecretKey { bytes }
    }

    /// A fresh secret key, from the operating system's random numbers.
    pub fn gen() -> (key: Self) {
        SecretKey { bytes: random_secret() }
    }

    /// The public key that belongs to this secret key.
    pub fn public(&self) -> (key: PublicKey)
        ensures
            key@ == x25519_public(self@),
    {
        PublicKey { bytes: box_public_key(&self.bytes) }
    }

    /// Seal `plaintext` for the owner of `peer`, under `nonce`.
    pub fn seal(&self, peer: &PublicKey, nonce: &[u8; 24], plaintext: &[u8]) -> (r: Result<
        Vec<u8>,
        BoxError,
    >)
        ensures
            match salsa_box_seal(peer@, self@, nonce@, plaintext@) {
                Some(sealed) => r matches Ok(bytes) && bytes@ == sealed,
                None => r == Err::<Vec<u8>, BoxError>(BoxError::Seal),
            },
    {
        match box_seal(&peer.bytes, &self.bytes, nonce, plaintext) {
            Ok(sealed) => Ok(sealed),
            Err(_) => Err(BoxError::Seal),
        }
    }

    /// Open what the owner of `peer` sealed for this key under `nonce`.
    pub fn open(&self, peer: &PublicKey, nonce: &[u8; 24], ciphertext: &[u8]) -> (r: Result<
        Vec<u8>,
        BoxError,
    >)
        ensures
            match salsa_box_open(peer@, self@, nonce@, ciphertext@) {
                Some(opened) => r matches Ok(bytes) && bytes@ == opened,
                None => r == Err::<Vec<u8>, BoxError>(BoxError::Open),
            },
    {
        match box_open(&peer.bytes, &self.bytes, nonce, ciphertext) {
            Ok(opened) => Ok(opened),
            Err(_) => Err(BoxError::Open),
        }
    }
}

/// A fresh nonce for a box, from the operating system's random numbers.
pub fn fresh_nonce() -> (nonce: [u8; 24]) {
    random_nonce()
}

} // verus!
