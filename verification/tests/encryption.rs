//! The library's encryption helper against the raw AEAD, and the
//! deterministic address derivation.

use ae::derive_address;
use ae::encrypt_value;

use xsalsa20poly1305::aead::Aead;
use xsalsa20poly1305::aead::KeyInit;
use xsalsa20poly1305::XSalsa20Poly1305;

#[test]
fn encrypt_value_matches_the_raw_cipher() {
    let key = vec![3u8; 32];
    let nonce = vec![4u8; 24];
    let plain = b"12345678".to_vec();
    let ct = encrypt_value(&key, &nonce, &plain).expect("widths are right");
    assert_eq!(ct.len(), plain.len() + 16);
    assert_ne!(&ct[16..], plain.as_slice());

    let cipher = XSalsa20Poly1305::new(xsalsa20poly1305::Key::from_slice(&key));
    let expected = cipher
        .encrypt(xsalsa20poly1305::Nonce::from_slice(&nonce), plain.as_slice())
        .expect("encryption cannot fail");
    assert_eq!(ct, expected);

    let decrypted = cipher
        .decrypt(xsalsa20poly1305::Nonce::from_slice(&nonce), ct.as_slice())
        .expect("round trip");
    assert_eq!(decrypted, plain);
}

#[test]
fn encrypt_value_rejects_wrong_widths() {
    let plain = b"12345678".to_vec();
    assert!(encrypt_value(&vec![3u8; 31], &vec![4u8; 24], &plain).is_none());
    assert!(encrypt_value(&vec![3u8; 32], &vec![4u8; 23], &plain).is_none());
    assert!(encrypt_value(&vec![3u8; 33], &vec![4u8; 25], &plain).is_none());
}

#[test]
fn derive_address_prepends_the_namespace_tag() {
    let pk = vec![10u8, 20, 30];
    let address = derive_address(&pk);
    let mut expected = b"commitv1".to_vec();
    expected.extend_from_slice(&pk);
    assert_eq!(address, expected);
}

#[test]
fn derive_address_is_deterministic_and_collision_free_on_distinct_keys() {
    let a1 = derive_address(&vec![1u8, 2]);
    let a2 = derive_address(&vec![1u8, 2]);
    let a3 = derive_address(&vec![1u8, 3]);
    assert_eq!(a1, a2);
    assert_ne!(a1, a3);
}
