//! The protocol's guarantees, stated and proved over the mathematical
//! transitions `spec_commit`, `spec_reveal` and `spec_reveal_record`.

use vstd::prelude::*;

use crate::crypto::decrypt_of;
use crate::errors::CommitError;
use crate::errors::RevealError;
use crate::record::spec_commit_fits;
use crate::record::spec_reveal_record;
use crate::record::RecordModel;
use crate::store::spec_commit;
use crate::store::spec_derive_address;
use crate::store::spec_reveal;
use crate::KEY_LEN;
use crate::NONCE_LEN;

verus! {

/// A commit with a public key no record yet uses, and inputs that fit the
/// storage envelope, succeeds: it returns the derived address, and the
/// record created there holds the inputs verbatim with an empty plaintext.
pub proof fn lemma_commit_fresh(
    m: Map<Seq<u8>, RecordModel>,
    public_key: Seq<u8>,
    nonce: Seq<u8>,
    cipher_text: Seq<u8>,
)
    requires
        !m.contains_key(spec_derive_address(public_key)),
        spec_commit_fits(public_key, nonce, cipher_text),
    ensures
        spec_commit(m, public_key, nonce, cipher_text).1 == Ok::<Seq<u8>, CommitError>(
            spec_derive_address(public_key),
        ),
        spec_commit(m, public_key, nonce, cipher_text).0 == m.insert(
            spec_derive_address(public_key),
            RecordModel { public_key, nonce, cipher_text, plain_text: Seq::empty() },
        ),
        spec_commit(m, public_key, nonce, cipher_text).0[spec_derive_address(
            public_key,
        )].plain_text.len() == 0,
{
}

/// A second commit with the same public key fails with `AlreadyCommitted`
/// and leaves the store — the original record byte-for-byte included —
/// unchanged, whatever nonce and ciphertext the second attempt carries.
pub proof fn lemma_second_commit_fails(
    m: Map<Seq<u8>, RecordModel>,
    public_key: Seq<u8>,
    nonce: Seq<u8>,
    cipher_text: Seq<u8>,
    nonce2: Seq<u8>,
    cipher_text2: Seq<u8>,
)
    requires
        spec_commit(m, public_key, nonce, cipher_text).1 is Ok,
    ensures
        ({
            let m1 = spec_commit(m, public_key, nonce, cipher_text).0;
            &&& spec_commit(m1, public_key, nonce2, cipher_text2).0 == m1
            &&& spec_commit(m1, public_key, nonce2, cipher_text2).1 == Err::<
                Seq<u8>,
                CommitError,
            >(CommitError::AlreadyCommitted)
            &&& m1[spec_derive_address(public_key)] == (RecordModel {
                public_key,
                nonce,
                cipher_text,
                plain_text: Seq::empty(),
            })
        }),
{
}

/// A commit never touches an existing record, whether it succeeds or fails.
pub proof fn lemma_commit_preserves_existing(
    m: Map<Seq<u8>, RecordModel>,
    public_key: Seq<u8>,
    nonce: Seq<u8>,
    cipher_text: Seq<u8>,
    address: Seq<u8>,
)
    requires
        m.contains_key(address),
    ensures
        spec_commit(m, public_key, nonce, cipher_text).0.contains_key(address),
        spec_commit(m, public_key, nonce, cipher_text).0[address] == m[address],
{
}

/// Round trip: once a record is committed whose ciphertext authenticates
/// and decrypts to `plain_text` under `secret_key` and the stored nonce —
/// as the ciphertext built by `encrypt_value` with that key and nonce does,
/// by its contract — revealing with that key succeeds and writes exactly
/// `plain_text` into the record.
pub proof fn lemma_reveal_round_trip(
    m: Map<Seq<u8>, RecordModel>,
    address: Seq<u8>,
    secret_key: Seq<u8>,
    plain_text: Seq<u8>,
)
    requires
        m.contains_key(address),
        m[address].plain_text.len() == 0,
        secret_key.len() == KEY_LEN,
        m[address].nonce.len() == NONCE_LEN,
        decrypt_of(secret_key, m[address].nonce, m[address].cipher_text) == Some(plain_text),
    ensures
        spec_reveal(m, address, secret_key).1 == Ok::<(), RevealError>(()),
        spec_reveal(m, address, secret_key).0 == m.insert(
            address,
            RecordModel { plain_text, ..m[address] },
        ),
        spec_reveal(m, address, secret_key).0[address].plain_text == plain_text,
{
}

/// A key under which the stored ciphertext does not authenticate — as any
/// key other than the committed one is, with overwhelming probability for a
/// secure AEAD — reveals nothing: the result is `RevealFailed` and the
/// store, the record's empty plaintext included, is byte-for-byte
/// unchanged.
pub proof fn lemma_reveal_wrong_key(
    m: Map<Seq<u8>, RecordModel>,
    address: Seq<u8>,
    secret_key: Seq<u8>,
)
    requires
        m.contains_key(address),
        m[address].plain_text.len() == 0,
        secret_key.len() == KEY_LEN,
        decrypt_of(secret_key, m[address].nonce, m[address].cipher_text) is None,
    ensures
        spec_reveal(m, address, secret_key).0 == m,
        spec_reveal(m, address, secret_key).1 == Err::<(), RevealError>(RevealError::RevealFailed),
{
    assert(spec_reveal_record(m[address], secret_key).0 == m[address]);
    assert(m.insert(address, m[address]) =~= m);
}

/// A record whose stored nonce does not have the width the AEAD scheme
/// requires is rejected deterministically at reveal time: `RevealFailed`,
/// with the store unchanged.
pub proof fn lemma_reveal_bad_nonce(
    m: Map<Seq<u8>, RecordModel>,
    address: Seq<u8>,
    secret_key: Seq<u8>,
)
    requires
        m.contains_key(address),
        m[address].plain_text.len() == 0,
        secret_key.len() == KEY_LEN,
        m[address].nonce.len() != NONCE_LEN,
    ensures
        spec_reveal(m, address, secret_key).0 == m,
        spec_reveal(m, address, secret_key).1 == Err::<(), RevealError>(RevealError::RevealFailed),
{
    assert(m.insert(address, m[address]) =~= m);
}

/// One reveal of a record is as good as two: a second reveal with the same
/// key — indeed, with any key — leaves the state the first one left.
pub proof fn lemma_reveal_record_idempotent(r: RecordModel, secret_key: Seq<u8>)
    ensures
        spec_reveal_record(spec_reveal_record(r, secret_key).0, secret_key).0 == spec_reveal_record(
            r,
            secret_key,
        ).0,
{
    let r1 = spec_reveal_record(r, secret_key).0;
    if secret_key.len() == KEY_LEN && r.plain_text.len() == 0 && r.nonce.len() == NONCE_LEN
        && decrypt_of(secret_key, r.nonce, r.cipher_text) is Some {
        let p = decrypt_of(secret_key, r.nonce, r.cipher_text)->0;
        if p.len() == 0 {
            assert(p =~= r.plain_text);
            assert(r1 == r);
        }
    }
}

/// Calling `reveal_value` twice with the same key produces the same final
/// store as calling it once: the second call changes nothing, whatever the
/// first returned.
pub proof fn lemma_reveal_idempotent(
    m: Map<Seq<u8>, RecordModel>,
    address: Seq<u8>,
    secret_key: Seq<u8>,
)
    ensures
        ({
            let once = spec_reveal(m, address, secret_key).0;
            spec_reveal(once, address, secret_key).0 == once
        }),
{
    if m.contains_key(address) {
        let stepped = spec_reveal_record(m[address], secret_key).0;
        let once = m.insert(address, stepped);
        lemma_reveal_record_idempotent(m[address], secret_key);
        assert(once.insert(address, stepped) =~= once);
    }
}

/// Once revealed, permanently readable and immutable: a record whose
/// plaintext is non-empty is never changed by any further reveal, with any
/// key.
pub proof fn lemma_revealed_record_immutable(
    m: Map<Seq<u8>, RecordModel>,
    address: Seq<u8>,
    secret_key: Seq<u8>,
)
    requires
        m.contains_key(address),
        m[address].plain_text.len() > 0,
    ensures
        spec_reveal(m, address, secret_key).0 == m,
{
    assert(m.insert(address, m[address]) =~= m);
}

} // verus!
