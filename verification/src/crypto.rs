//! Authenticated encryption, by XSalsa20Poly1305.
//!
//! The scheme takes a 32-byte symmetric key and a 24-byte nonce, prepends a
//! 16-byte Poly1305 tag to the ciphertext, and fails closed on decryption:
//! either the whole authenticated plaintext comes back, or nothing does.
//! What the cipher computes is named, not restated: `encrypt_of` and
//! `decrypt_of` stand for its results, which depend on the arguments alone.

use vstd::prelude::*;

use xsalsa20poly1305::aead::Aead;
use xsalsa20poly1305::aead::KeyInit;

use crate::KEY_LEN;
use crate::NONCE_LEN;
use crate::TAG_LEN;

verus! {

/// The ciphertext XSalsa20Poly1305 produces for this key, nonce and
/// plaintext: a function of the arguments alone.
pub uninterp spec fn encrypt_of(key: Seq<u8>, nonce: Seq<u8>, plain_text: Seq<u8>) -> Seq<u8>;

/// What authenticated decryption of this ciphertext under this key and nonce
/// yields: the plaintext when the tag verifies, nothing otherwise.  A
/// function of the arguments alone.
pub uninterp spec fn decrypt_of(key: Seq<u8>, nonce: Seq<u8>, cipher_text: Seq<u8>) -> Option<
    Seq<u8>,
>;

/// Relies on `xsalsa20poly1305::XSalsa20Poly1305` with `aead::Aead::encrypt`:
/// with a 32-byte key, a 24-byte nonce and no associated data the call cannot
/// fail; it prepends a 16-byte tag to the encrypted plaintext, and decrypting
/// its result under the same key and nonce yields the plaintext back.
#[verifier::external_body]
pub(crate) fn aead_encrypt(key: &[u8], nonce: &[u8], plain_text: &[u8]) -> (r: Vec<u8>)
    requires
        key@.len() == KEY_LEN,
        nonce@.len() == NONCE_LEN,
    ensures
        r@ == encrypt_of(key@, nonce@, plain_text@),
        r@.len() == plain_text@.len() + TAG_LEN,
        decrypt_of(key@, nonce@, r@) == Some(plain_text@),
{
    let cipher = xsalsa20poly1305::XSalsa20Poly1305::new(
        xsalsa20poly1305::Key::from_slice(key),
    );
    cipher
        .encrypt(xsalsa20poly1305::Nonce::from_slice(nonce), plain_text)
        .expect("encryption without associated data cannot fail")
}

/// Relies on `xsalsa20poly1305::XSalsa20Poly1305` with `aead::Aead::decrypt`:
/// with a 32-byte key and a 24-byte nonce the call authenticates the
/// ciphertext and either yields the whole plaintext — 16 bytes shorter than
/// the ciphertext — or fails; a ciphertext shorter than the tag always fails.
#[verifier::external_body]
pub(crate) fn aead_decrypt(key: &[u8], nonce: &[u8], cipher_text: &[u8]) -> (r: Option<Vec<u8>>)
    requires
        key@.len() == KEY_LEN,
        nonce@.len() == NONCE_LEN,
    ensures
        r is Some <==> decrypt_of(key@, nonce@, cipher_text@) is Some,
        r matches Some(p) ==> Some(p@) == decrypt_of(key@, nonce@, cipher_text@),
        r matches Some(p) ==> cipher_text@.len() >= TAG_LEN && p@.len() + TAG_LEN
            == cipher_text@.len(),
        cipher_text@.len() < TAG_LEN ==> r is None,
{
    let cipher = xsalsa20poly1305::XSalsa20Poly1305::new(
        xsalsa20poly1305::Key::from_slice(key),
    );
    cipher.decrypt(xsalsa20poly1305::Nonce::from_slice(nonce), cipher_text).ok()
}

/// Encrypt a secret value for committing: the ciphertext that
/// `reveal_value` will later decrypt under the same key and nonce.
///
/// Succeeds exactly when the key and nonce have the widths the AEAD scheme
/// requires; the result then decrypts back to `plain_text`.
pub fn encrypt_value(key: &Vec<u8>, nonce: &Vec<u8>, plain_text: &Vec<u8>) -> (r: Option<Vec<u8>>)
    ensures
        r is Some <==> key@.len() == KEY_LEN && nonce@.len() == NONCE_LEN,
        r matches Some(c) ==> c@ == encrypt_of(key@, nonce@, plain_text@),
        r matches Some(c) ==> c@.len() == plain_text@.len() + TAG_LEN,
        r matches Some(c) ==> decrypt_of(key@, nonce@, c@) == Some(plain_text@),
{
    if key.len() != KEY_LEN || nonce.len() != NONCE_LEN {
        return None;
    }
    Some(aead_encrypt(key.as_slice(), nonce.as_slice(), plain_text.as_slice()))
}

} // verus!
