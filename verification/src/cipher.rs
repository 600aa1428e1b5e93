//! The cipher context: ChaCha20-Poly1305 under one pre-shared secret.
use vstd::prelude::*;

use chacha20poly1305::aead::Aead;
use chacha20poly1305::{ChaCha20Poly1305, Key, KeyInit};

use crate::nonce::Nonce;
use crate::{KEY_SIZE, NOUNCE_SIZE};

verus! {

/// Length of the authentication tag behind every ciphertext.
pub const TAG_SIZE: usize = 16;

/// Number of 64-byte blocks of keystream that the cipher counts under one
/// nonce. The first is spent on the key of the tag, and the count stops one
/// short of the last.
pub const MAX_BLOCKS: u64 = 0xffff_ffff;

/// The error of the `aead` crate. It says nothing of the cause, on purpose.
#[verifier::external_type_specification]
#[verifier::external_body]
pub struct ExAeadError(chacha20poly1305::Error);

/// Why the cipher context gives no bytes.
#[derive(Debug, Clone, Copy, PartialEq, Eq, Structural)]
pub enum CipherError {
    /// The bytes are more than the keystream of one nonce covers. The cipher
    /// is not asked.
    TooLong,
    /// The cipher refused the bytes: the tag does not verify.
    Refused,
}

/// The ciphertext and tag that ChaCha20-Poly1305 makes of `plaintext` under
/// `key` and `nonce`, with no associated data.
pub uninterp spec fn sealed(key: Seq<u8>, nonce: Seq<u8>, plaintext: Seq<u8>) -> Seq<u8>;

/// The plaintext that ChaCha20-Poly1305 recovers from `ciphertext` under
/// `key` and `nonce`, with no associated data; `None` where it refuses the
/// ciphertext.
pub uninterp spec fn opened(key: Seq<u8>, nonce: Seq<u8>, ciphertext: Seq<u8>) -> Option<Seq<u8>>;

/// A message of this length can be sealed: the keystream that is left under
/// one nonce covers it.
pub open spec fn sealable(len: nat) -> bool {
    len <= 64 * (MAX_BLOCKS - 1)
}

/// A ciphertext of this length can be handed to the cipher: it is no longer
/// than a sealable message and its tag.
pub open spec fn openable(len: nat) -> bool {
    len <= 64 * (MAX_BLOCKS - 1) + TAG_SIZE
}

/// What the cipher context recovers from `ciphertext`: what the cipher
/// recovers, where the ciphertext can be handed to it, and else nothing.
pub open spec fn unsealed(key: Seq<u8>, nonce: Seq<u8>, ciphertext: Seq<u8>) -> Option<Seq<u8>> {
    if openable(ciphertext.len()) {
        opened(key, nonce, ciphertext)
    } else {
        None
    }
}

/// `ciphertext` is what the cipher makes of `message`: a tag longer, and
/// opened again to `message` under the same key and nonce.
pub open spec fn seals(key: Seq<u8>, nonce: Seq<u8>, message: Seq<u8>, ciphertext: Seq<u8>) -> bool {
    &&& ciphertext == sealed(key, nonce, message)
    &&& ciphertext.len() == message.len() + TAG_SIZE
    &&& opened(key, nonce, ciphertext) == Some(message)
}

/// `Aead::encrypt` of `chacha20poly1305::ChaCha20Poly1305`, on a cipher made
/// by `KeyInit::new` from `key`.
///
/// Taken on trust, of a message that the keystream covers: the call
/// succeeds; what it returns is a function of key, nonce and message, named
/// `sealed`; it is a tag longer than the message; and `Aead::decrypt` under
/// the same key and nonce recovers the message from it. On a longer message
/// the call fails or panics, by its length: such a message is left out.
#[verifier::external_body]
fn seal(key: &[u8; KEY_SIZE], nonce: &[u8; NOUNCE_SIZE], plaintext: &[u8]) -> (ciphertext: Result<
    Vec<u8>,
    chacha20poly1305::Error,
>)
    requires
        plaintext@.len() <= 64 * (MAX_BLOCKS - 1),
    ensures
        ciphertext is Ok,
        ciphertext matches Ok(bytes) ==> {
            &&& bytes@ == sealed(key@, nonce@, plaintext@)
            &&& bytes@.len() == plaintext@.len() + TAG_SIZE
            &&& opened(key@, nonce@, bytes@) == Some(plaintext@)
        },
{
    ChaCha20Poly1305::new(Key::from_slice(key)).encrypt(
        chacha20poly1305::Nonce::from_slice(nonce),
        plaintext,
    )
}

/// `Aead::decrypt` of `chacha20poly1305::ChaCha20Poly1305`, on a cipher made
/// by `KeyInit::new` from `key`.
///
/// Taken on trust, of a ciphertext no longer than a sealable message and its
/// tag: whether the call succeeds, and with what, is a function of key, nonce
/// and ciphertext, named `opened`; a ciphertext shorter than a tag is
/// refused; a plaintext is a tag shorter than its ciphertext. A longer
/// ciphertext makes the call fail or panic, by its length, and is left out.
#[verifier::external_body]
fn unseal(key: &[u8; KEY_SIZE], nonce: &[u8; NOUNCE_SIZE], ciphertext: &[u8]) -> (plaintext: Result<
    Vec<u8>,
    chacha20poly1305::Error,
>)
    requires
        ciphertext@.len() <= 64 * (MAX_BLOCKS - 1) + TAG_SIZE,
    ensures
        match plaintext {
            Ok(bytes) => opened(key@, nonce@, ciphertext@) == Some(bytes@),
            Err(_) => opened(key@, nonce@, ciphertext@) is None,
        },
        ciphertext@.len() < TAG_SIZE ==> plaintext is Err,
        plaintext matches Ok(bytes) ==> bytes@.len() + TAG_SIZE == ciphertext@.len(),
{
    ChaCha20Poly1305::new(Key::from_slice(key)).decrypt(
        chacha20poly1305::Nonce::from_slice(nonce),
        ciphertext,
    )
}

/// Authenticated encryption bound to one secret of `KEY_SIZE` bytes. It keeps
/// nothing between calls but the key.
pub struct Cipher {
    key: [u8; KEY_SIZE],
}

impl View for Cipher {
    type V = Seq<u8>;

    /// The key.
    closed spec fn view(&self) -> Seq<u8> {
        self.key@
    }
}

impl Clone for Cipher {
    /// The same cipher context once more, for another connection.
    fn clone(&self) -> (cipher: Cipher)
        ensures
            cipher@ == self@,
    {
        Cipher { key: self.key }
    }
}

impl Cipher {
    /// Every key has `KEY_SIZE` bytes.
    pub broadcast proof fn lemma_len(self)
        ensures
            #[trigger] self@.len() == KEY_SIZE,
    {
    }

    /// The cipher context of a secret.
    pub fn new(key: &[u8]) -> (cipher: Cipher)
        requires
            key@.len() == KEY_SIZE,
        ensures
            cipher@ == key@,
    {
        let mut bytes = [0u8; KEY_SIZE];
        let mut i: usize = 0;
        while i < KEY_SIZE
            invariant
                i <= KEY_SIZE,
                key@.len() == KEY_SIZE,
                forall|j: int| 0 <= j < i ==> #[trigger] bytes@[j] == key@[j],
            decreases KEY_SIZE - i,
        {
            bytes[i] = key[i];
            i += 1;
        }
        assert(bytes@ =~= key@);
        Cipher { key: bytes }
    }

    /// Seals `plaintext` under the key and `nonce`. A message that the
    /// keystream of one nonce does not cover is refused for its length, and
    /// nothing else is. What is returned, `decrypt` opens again under the
    /// same nonce.
    pub fn encrypt(&self, nonce: &Nonce, plaintext: &[u8]) -> (ciphertext: Result<
        Vec<u8>,
        CipherError,
    >)
        ensures
            sealable(plaintext@.len()) ==> (ciphertext matches Ok(bytes) && seals(
                self@,
                nonce@,
                plaintext@,
                bytes@,
            )),
            !sealable(plaintext@.len()) ==> ciphertext == Err::<Vec<u8>, CipherError>(
                CipherError::TooLong,
            ),
    {
        if plaintext.len() as u64 > 64 * (MAX_BLOCKS - 1) {
            return Err(CipherError::TooLong);
        }
        match seal(&self.key, nonce.cipher_nonce(), plaintext) {
            Ok(bytes) => Ok(bytes),
            Err(_) => Err(CipherError::Refused),
        }
    }

    /// Opens `ciphertext` under the key and `nonce`. The cipher refuses it
    /// where the tag does not verify: the bytes were changed, or sealed under
    /// another key or nonce. A ciphertext longer than a sealable message and
    /// its tag is refused for its length, without asking the cipher.
    pub fn decrypt(&self, nonce: &Nonce, ciphertext: &[u8]) -> (plaintext: Result<
        Vec<u8>,
        CipherError,
    >)
        ensures
            match unsealed(self@, nonce@, ciphertext@) {
                Some(message) => plaintext matches Ok(bytes) && bytes@ == message,
                None => plaintext == Err::<Vec<u8>, CipherError>(
                    if openable(ciphertext@.len()) {
                        CipherError::Refused
                    } else {
                        CipherError::TooLong
                    },
                ),
            },
            ciphertext@.len() < TAG_SIZE ==> plaintext == Err::<Vec<u8>, CipherError>(
                CipherError::Refused,
            ),
            plaintext matches Ok(bytes) ==> bytes@.len() + TAG_SIZE == ciphertext@.len(),
    {
        if ciphertext.len() as u64 > 64 * (MAX_BLOCKS - 1) + TAG_SIZE as u64 {
            return Err(CipherError::TooLong);
        }
        match unseal(&self.key, nonce.cipher_nonce(), ciphertext) {
            Ok(bytes) => Ok(bytes),
            Err(_) => Err(CipherError::Refused),
        }
    }
}

} // verus!
