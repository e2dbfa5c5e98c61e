//! The commitment record: the sole entity of the protocol.
//!
//! A record is created by a commit with `public_key`, `nonce` and
//! `cipher_text` taken verbatim from the input and an empty `plain_text`;
//! a reveal later populates `plain_text` exactly once.  The record's
//! serialized footprint is bounded by a fixed storage envelope, and a commit
//! is rejected whenever the fields — including the largest plaintext the
//! stored ciphertext could ever decrypt to — would not fit.

use vstd::prelude::*;

use crate::crypto::aead_decrypt;
use crate::crypto::decrypt_of;
use crate::errors::CommitError;
use crate::errors::RevealError;
use crate::KEY_LEN;
use crate::NONCE_LEN;
use crate::RECORD_SPACE;
use crate::TAG_LEN;

verus! {

/// Mathematical model of a commitment record: the four byte fields.
pub struct RecordModel {
    pub public_key: Seq<u8>,
    pub nonce: Seq<u8>,
    pub cipher_text: Seq<u8>,
    pub plain_text: Seq<u8>,
}

/// A commitment record, as stored by the platform.
#[derive(Clone, Debug, PartialEq, Eq)]
pub struct EncryptedAccount {
    /// Committer-chosen identity bytes; the record's address derives from
    /// them.  Immutable after commit.
    pub public_key: Vec<u8>,
    /// Nonce the ciphertext was produced under.  Immutable after commit.
    pub nonce: Vec<u8>,
    /// Authenticated ciphertext of the secret value.  Immutable after
    /// commit.
    pub cipher_text: Vec<u8>,
    /// Empty until a reveal succeeds; populated exactly once, with the
    /// decrypted secret value, and immutable from then on.
    pub plain_text: Vec<u8>,
}

impl View for EncryptedAccount {
    type V = RecordModel;

    open spec fn view(&self) -> RecordModel {
        RecordModel {
            public_key: self.public_key@,
            nonce: self.nonce@,
            cipher_text: self.cipher_text@,
            plain_text: self.plain_text@,
        }
    }
}

/// Serialized size of a record: four length-prefixed byte fields, each
/// prefix four bytes wide.
pub open spec fn spec_serialized_len(r: RecordModel) -> int {
    16 + r.public_key.len() + r.nonce.len() + r.cipher_text.len() + r.plain_text.len() as int
}

/// The longest plaintext an authenticated decryption of a ciphertext of
/// `ct_len` bytes can yield: the ciphertext minus its authentication tag.
pub open spec fn spec_max_plain_len(ct_len: int) -> int {
    if ct_len >= TAG_LEN { ct_len - TAG_LEN } else { 0 }
}

/// A commit with these inputs fits the storage envelope: the serialized
/// record stays within bounds even once the largest possible plaintext has
/// been revealed into it.
pub open spec fn spec_commit_fits(public_key: Seq<u8>, nonce: Seq<u8>, cipher_text: Seq<u8>) -> bool {
    16 + public_key.len() + nonce.len() + cipher_text.len()
        + spec_max_plain_len(cipher_text.len() as int) <= RECORD_SPACE
}

/// Well-formedness of a stored record: its fields fit the envelope with room
/// for the largest plaintext its ciphertext can decrypt to, and `plain_text`
/// is either still empty or exactly the width of a successful decryption.
pub open spec fn spec_record_wf(r: RecordModel) -> bool {
    &&& spec_commit_fits(r.public_key, r.nonce, r.cipher_text)
    &&& (r.plain_text.len() == 0 || r.plain_text.len() + TAG_LEN == r.cipher_text.len())
}

/// A well-formed record never outgrows the storage envelope.
pub proof fn lemma_record_wf_fits_envelope(r: RecordModel)
    requires
        spec_record_wf(r),
    ensures
        spec_serialized_len(r) <= RECORD_SPACE,
{
}

/// The one permitted state transition of a record, as a mathematical
/// function: what a reveal with this key does to the record, and what it
/// returns.
///
/// A key of the wrong width is rejected.  A record already revealed is left
/// untouched, successfully.  Otherwise the stored ciphertext is decrypted
/// under the stored nonce: on authentication success the plaintext is
/// written into the record; on any failure — wrong key, tampered data, a
/// nonce of the wrong width — the record is left completely unmodified.
pub open spec fn spec_reveal_record(r: RecordModel, secret_key: Seq<u8>) -> (
    RecordModel,
    Result<(), RevealError>,
) {
    if secret_key.len() != KEY_LEN {
        (r, Err(RevealError::InvalidKeyLength))
    } else if r.plain_text.len() > 0 {
        (r, Ok(()))
    } else if r.nonce.len() == NONCE_LEN && decrypt_of(secret_key, r.nonce, r.cipher_text)
        is Some {
        (
            RecordModel {
                plain_text: decrypt_of(secret_key, r.nonce, r.cipher_text)->0,
                ..r
            },
            Ok(()),
        )
    } else {
        (r, Err(RevealError::RevealFailed))
    }
}

impl EncryptedAccount {
    /// Build the record a commit stores: inputs taken verbatim, empty
    /// `plain_text`.  Rejects exactly those inputs whose serialized record
    /// could outgrow the storage envelope once revealed.
    pub fn new(public_key: Vec<u8>, nonce: Vec<u8>, cipher_text: Vec<u8>) -> (r: Result<
        EncryptedAccount,
        CommitError,
    >)
        ensures
            r is Ok <==> spec_commit_fits(public_key@, nonce@, cipher_text@),
            r is Err ==> r->Err_0 == CommitError::PayloadTooLarge,
            r is Ok ==> r->Ok_0@ == (RecordModel {
                public_key: public_key@,
                nonce: nonce@,
                cipher_text: cipher_text@,
                plain_text: Seq::<u8>::empty(),
            }),
            r is Ok ==> spec_record_wf(r->Ok_0@),
    {
        let pk_len = public_key.len();
        let n_len = nonce.len();
        let ct_len = cipher_text.len();
        if pk_len > RECORD_SPACE || n_len > RECORD_SPACE || ct_len > RECORD_SPACE {
            return Err(CommitError::PayloadTooLarge);
        }
        let max_plain = if ct_len >= TAG_LEN {
            ct_len - TAG_LEN
        } else {
            0
        };
        if 16 + pk_len + n_len + ct_len + max_plain > RECORD_SPACE {
            return Err(CommitError::PayloadTooLarge);
        }
        let plain_text: Vec<u8> = Vec::new();
        Ok(EncryptedAccount { public_key, nonce, cipher_text, plain_text })
    }

    /// Reveal this record with a candidate secret key: run authenticated
    /// decryption of the stored ciphertext against the stored nonce and, on
    /// success, write the plaintext into the record.  All-or-nothing: on any
    /// failure the record is left unmodified and a typed error comes back.
    pub fn reveal_record(&mut self, secret_key: &Vec<u8>) -> (r: Result<(), RevealError>)
        requires
            spec_record_wf(old(self)@),
        ensures
            spec_record_wf(final(self)@),
            (final(self)@, r) == spec_reveal_record(old(self)@, secret_key@),
            final(self)@.public_key == old(self)@.public_key,
            final(self)@.nonce == old(self)@.nonce,
            final(self)@.cipher_text == old(self)@.cipher_text,
            old(self)@.plain_text.len() > 0 ==> final(self)@ == old(self)@,
            r is Err ==> final(self)@ == old(self)@,
    {
        if secret_key.len() != KEY_LEN {
            return Err(RevealError::InvalidKeyLength);
        }
        if self.plain_text.len() > 0 {
            return Ok(());
        }
        if self.nonce.len() != NONCE_LEN {
            return Err(RevealError::RevealFailed);
        }
        match aead_decrypt(
            secret_key.as_slice(),
            self.nonce.as_slice(),
            self.cipher_text.as_slice(),
        ) {
            Some(p) => {
                self.plain_text = p;
                Ok(())
            },
            None => Err(RevealError::RevealFailed),
        }
    }
}

} // verus!
