//! End-to-end exercises of the commit/reveal protocol against the real
//! AEAD implementation.

use ae::CommitError;
use ae::CommitValue;
use ae::CommitmentStore;
use ae::RevealError;
use ae::RevealValue;

use xsalsa20poly1305::aead::Aead;
use xsalsa20poly1305::aead::KeyInit;
use xsalsa20poly1305::XSalsa20Poly1305;

const NAMESPACE_TAG: [u8; 8] = [99, 111, 109, 109, 105, 116, 118, 49];

fn tagged(pk: &[u8]) -> Vec<u8> {
    let mut v = NAMESPACE_TAG.to_vec();
    v.extend_from_slice(pk);
    v
}

fn raw_encrypt(key: &[u8; 32], nonce: &[u8; 24], plain: &[u8]) -> Vec<u8> {
    let cipher = XSalsa20Poly1305::new(xsalsa20poly1305::Key::from_slice(key));
    cipher
        .encrypt(xsalsa20poly1305::Nonce::from_slice(nonce), plain)
        .expect("encryption cannot fail")
}

#[test]
fn commit_fresh_creates_record_with_empty_plaintext() {
    let mut store = CommitmentStore::new();
    let pk = vec![1u8, 2, 3];
    let nonce = [9u8; 24].to_vec();
    let ct = vec![0xAAu8; 40];
    let address = store
        .commit_value(CommitValue {
            public_key: pk.clone(),
            nonce: nonce.clone(),
            cipher_text: ct.clone(),
        })
        .expect("fresh commit succeeds");
    assert_eq!(address, tagged(&pk));
    let record = store.load_record(&address).expect("record exists");
    assert_eq!(record.public_key, pk);
    assert_eq!(record.nonce, nonce);
    assert_eq!(record.cipher_text, ct);
    assert!(record.plain_text.is_empty());
}

#[test]
fn second_commit_with_same_public_key_fails_and_changes_nothing() {
    let mut store = CommitmentStore::new();
    let pk = vec![5u8; 32];
    let nonce = [1u8; 24].to_vec();
    let ct = vec![2u8; 24];
    let address = store
        .commit_value(CommitValue {
            public_key: pk.clone(),
            nonce: nonce.clone(),
            cipher_text: ct.clone(),
        })
        .expect("fresh commit succeeds");
    let first = store.load_record(&address).expect("record exists").clone();

    let r = store.commit_value(CommitValue {
        public_key: pk.clone(),
        nonce: [3u8; 24].to_vec(),
        cipher_text: vec![4u8; 64],
    });
    assert_eq!(r, Err(CommitError::AlreadyCommitted));
    let after = store.load_record(&address).expect("record still exists");
    assert_eq!(*after, first);
}

#[test]
fn reveal_with_correct_key_round_trips_the_plaintext() {
    let key = [7u8; 32];
    let nonce = [9u8; 24];
    let plain = b"12345678";
    let ct = raw_encrypt(&key, &nonce, plain);
    assert_eq!(ct.len(), plain.len() + 16);
    assert_ne!(&ct[16..], plain.as_slice());

    let mut store = CommitmentStore::new();
    let pk = vec![0xA1u8; 32];
    let address = store
        .commit_value(CommitValue {
            public_key: pk,
            nonce: nonce.to_vec(),
            cipher_text: ct,
        })
        .expect("fresh commit succeeds");

    let r = store.reveal_value(RevealValue {
        address: address.clone(),
        secret_key: key.to_vec(),
    });
    assert_eq!(r, Ok(()));
    let record = store.load_record(&address).expect("record exists");
    assert_eq!(record.plain_text, plain.to_vec());
}

#[test]
fn reveal_with_wrong_key_fails_and_leaves_plaintext_empty() {
    let key = [7u8; 32];
    let wrong_key = [8u8; 32];
    let nonce = [9u8; 24];
    let plain = b"12345678";
    let ct = raw_encrypt(&key, &nonce, plain);

    let mut store = CommitmentStore::new();
    let pk = vec![0xB2u8; 32];
    let address = store
        .commit_value(CommitValue {
            public_key: pk,
            nonce: nonce.to_vec(),
            cipher_text: ct,
        })
        .expect("fresh commit succeeds");

    let r = store.reveal_value(RevealValue {
        address: address.clone(),
        secret_key: wrong_key.to_vec(),
    });
    assert_eq!(r, Err(RevealError::RevealFailed));
    let record = store.load_record(&address).expect("record exists");
    assert!(record.plain_text.is_empty());

    let r2 = store.reveal_value(RevealValue {
        address: address.clone(),
        secret_key: key.to_vec(),
    });
    assert_eq!(r2, Ok(()));
    let record = store.load_record(&address).expect("record exists");
    assert_eq!(record.plain_text, plain.to_vec());
}

#[test]
fn reveal_twice_with_correct_key_is_idempotent() {
    let key = [42u8; 32];
    let nonce = [6u8; 24];
    let plain = b"a secret";
    let ct = raw_encrypt(&key, &nonce, plain);

    let mut store = CommitmentStore::new();
    let address = store
        .commit_value(CommitValue {
            public_key: vec![0xC3u8; 16],
            nonce: nonce.to_vec(),
            cipher_text: ct,
        })
        .expect("fresh commit succeeds");

    let r1 = store.reveal_value(RevealValue {
        address: address.clone(),
        secret_key: key.to_vec(),
    });
    assert_eq!(r1, Ok(()));
    let once = store.load_record(&address).expect("record exists").clone();

    let r2 = store.reveal_value(RevealValue {
        address: address.clone(),
        secret_key: key.to_vec(),
    });
    assert_eq!(r2, Ok(()));
    let twice = store.load_record(&address).expect("record exists");
    assert_eq!(*twice, once);
    assert_eq!(twice.plain_text, plain.to_vec());
}

#[test]
fn reveal_with_wrong_key_length_is_rejected() {
    let mut store = CommitmentStore::new();
    let address = store
        .commit_value(CommitValue {
            public_key: vec![0xD4u8; 8],
            nonce: [1u8; 24].to_vec(),
            cipher_text: vec![0u8; 24],
        })
        .expect("fresh commit succeeds");

    let r = store.reveal_value(RevealValue {
        address: address.clone(),
        secret_key: vec![7u8; 31],
    });
    assert_eq!(r, Err(RevealError::InvalidKeyLength));
    let record = store.load_record(&address).expect("record exists");
    assert!(record.plain_text.is_empty());
}

#[test]
fn record_with_wrong_nonce_width_fails_reveal_without_crashing() {
    let mut store = CommitmentStore::new();
    let address = store
        .commit_value(CommitValue {
            public_key: vec![0xE5u8; 8],
            nonce: vec![1u8; 12],
            cipher_text: vec![0u8; 24],
        })
        .expect("commit is blind to the nonce width");

    let r = store.reveal_value(RevealValue {
        address: address.clone(),
        secret_key: vec![7u8; 32],
    });
    assert_eq!(r, Err(RevealError::RevealFailed));
    let record = store.load_record(&address).expect("record exists");
    assert!(record.plain_text.is_empty());
}

#[test]
fn ciphertext_shorter_than_the_tag_fails_reveal() {
    let mut store = CommitmentStore::new();
    let address = store
        .commit_value(CommitValue {
            public_key: vec![0xF6u8; 8],
            nonce: [1u8; 24].to_vec(),
            cipher_text: vec![0u8; 15],
        })
        .expect("commit is blind to the ciphertext");

    let r = store.reveal_value(RevealValue {
        address,
        secret_key: vec![7u8; 32],
    });
    assert_eq!(r, Err(RevealError::RevealFailed));
}

#[test]
fn reveal_at_unknown_address_reports_no_such_commitment() {
    let mut store = CommitmentStore::new();
    let r = store.reveal_value(RevealValue {
        address: tagged(&[1, 2, 3]),
        secret_key: vec![7u8; 32],
    });
    assert_eq!(r, Err(RevealError::NoSuchCommitment));
}

#[test]
fn oversized_payload_is_rejected_at_commit() {
    let mut store = CommitmentStore::new();
    let r = store.commit_value(CommitValue {
        public_key: vec![0u8; 5000],
        nonce: [1u8; 24].to_vec(),
        cipher_text: vec![0u8; 24],
    });
    assert_eq!(r, Err(CommitError::PayloadTooLarge));

    let r2 = store.commit_value(CommitValue {
        public_key: vec![0u8; 32],
        nonce: [1u8; 24].to_vec(),
        cipher_text: vec![0u8; 4000],
    });
    assert_eq!(r2, Err(CommitError::PayloadTooLarge));
}

#[test]
fn commit_accounts_for_the_revealed_plaintext_in_the_envelope() {
    // 16 + 32 + 24 + 2020 + (2020 - 16) = 4096: exactly at the envelope.
    let mut store = CommitmentStore::new();
    let r = store.commit_value(CommitValue {
        public_key: vec![0u8; 32],
        nonce: [1u8; 24].to_vec(),
        cipher_text: vec![0u8; 2020],
    });
    assert!(r.is_ok());

    let mut store2 = CommitmentStore::new();
    let r2 = store2.commit_value(CommitValue {
        public_key: vec![0u8; 32],
        nonce: [1u8; 24].to_vec(),
        cipher_text: vec![0u8; 2021],
    });
    assert_eq!(r2, Err(CommitError::PayloadTooLarge));
}
