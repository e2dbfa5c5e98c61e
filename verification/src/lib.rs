//! A two-phase commit/reveal protocol for secret values, kept in
//! deterministically-addressed encrypted records.
//!
//! A committer stores an authenticated ciphertext under an address derived
//! from a public key; later, any holder of the matching secret key can
//! trigger decryption, after which the plaintext is written back into the
//! record and is publicly readable from that point on.

use vstd::prelude::*;

mod codec;
mod crypto;
mod errors;
mod laws;
mod record;
mod store;

pub use codec::lemma_serialize_record_injective;
pub use codec::serialize_record;
pub use codec::spec_len_prefix;
pub use codec::spec_serialize_field;
pub use codec::spec_serialize_record;
pub use crypto::decrypt_of;
pub use crypto::encrypt_of;
pub use crypto::encrypt_value;
pub use errors::CommitError;
pub use errors::RevealError;
pub use laws::lemma_commit_fresh;
pub use laws::lemma_commit_preserves_existing;
pub use laws::lemma_reveal_bad_nonce;
pub use laws::lemma_reveal_idempotent;
pub use laws::lemma_reveal_record_idempotent;
pub use laws::lemma_reveal_round_trip;
pub use laws::lemma_reveal_wrong_key;
pub use laws::lemma_revealed_record_immutable;
pub use laws::lemma_second_commit_fails;
pub use record::lemma_record_wf_fits_envelope;
pub use record::spec_commit_fits;
pub use record::spec_max_plain_len;
pub use record::spec_record_wf;
pub use record::spec_reveal_record;
pub use record::spec_serialized_len;
pub use record::EncryptedAccount;
pub use record::RecordModel;
pub use store::derive_address;
pub use store::lemma_derive_address_injective;
pub use store::records_map;
pub use store::spec_commit;
pub use store::spec_derive_address;
pub use store::spec_namespace_tag;
pub use store::spec_reveal;
pub use store::spec_unique_addresses;
pub use store::CommitValue;
pub use store::CommitmentStore;
pub use store::RevealValue;
pub use store::StoredRecord;

verus! {

/// Width in bytes of the symmetric key the AEAD scheme requires.
pub const KEY_LEN: usize = 32;

/// Width in bytes of the nonce the AEAD scheme requires.
pub const NONCE_LEN: usize = 24;

/// Width in bytes of the authentication tag the AEAD scheme prepends to the
/// ciphertext.
pub const TAG_LEN: usize = 16;

/// The fixed storage envelope: the serialized record must always fit in this
/// many bytes.
pub const RECORD_SPACE: usize = 4096;

} // verus!
