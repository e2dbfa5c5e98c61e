//! The persisted record layout: length-prefixed fields in fixed order.

use ae::serialize_record;
use ae::CommitValue;
use ae::CommitmentStore;
use ae::EncryptedAccount;

#[test]
fn serialized_record_is_four_length_prefixed_fields() {
    let account = EncryptedAccount::new(vec![1u8, 2], vec![3u8], vec![4u8, 5, 6])
        .expect("small fields fit the envelope");
    let bytes = serialize_record(&account);
    let expected: Vec<u8> = vec![
        2, 0, 0, 0, 1, 2, // public_key
        1, 0, 0, 0, 3, // nonce
        3, 0, 0, 0, 4, 5, 6, // cipher_text
        0, 0, 0, 0, // plain_text, still empty
    ];
    assert_eq!(bytes, expected);
}

#[test]
fn length_prefixes_keep_field_boundaries_unambiguous() {
    // Without the prefixes these two records would serialize to the same
    // single byte.
    let a = EncryptedAccount::new(vec![1u8], vec![], vec![]).expect("fits");
    let b = EncryptedAccount::new(vec![], vec![1u8], vec![]).expect("fits");
    assert_ne!(serialize_record(&a), serialize_record(&b));
}

#[test]
fn serialized_committed_record_fits_the_envelope() {
    let mut store = CommitmentStore::new();
    let address = store
        .commit_value(CommitValue {
            public_key: vec![9u8; 64],
            nonce: vec![8u8; 24],
            cipher_text: vec![7u8; 2000],
        })
        .expect("fits");
    let record = store.load_record(&address).expect("record exists");
    let bytes = serialize_record(record);
    assert_eq!(bytes.len(), 16 + 64 + 24 + 2000);
    assert!(bytes.len() <= 4096);
}

#[test]
fn payload_too_large_reports_before_any_record_is_created() {
    let mut store = CommitmentStore::new();
    let pk = vec![0u8; 32];
    let r = store.commit_value(CommitValue {
        public_key: pk.clone(),
        nonce: vec![1u8; 24],
        cipher_text: vec![0u8; 4096],
    });
    assert!(r.is_err());
    let address = ae::derive_address(&pk);
    assert!(store.load_record(&address).is_none());
}
