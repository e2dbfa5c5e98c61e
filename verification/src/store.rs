//! The commitment store: deterministic addressing and the two
//! state-transition operations, commit and reveal.
//!
//! The store owns every record, keyed by an address that is a pure,
//! collision-free function of the committer's public key and a fixed
//! protocol-namespace tag.  `commit_value` is the only way a record comes
//! into existence — at most one per address, ever — and `reveal_value` is
//! the only permitted mutation, populating `plain_text` at most once.

use vstd::prelude::*;
use vstd::std_specs::cmp::PartialEqSpec;

use crate::errors::CommitError;
use crate::errors::RevealError;
use crate::record::spec_commit_fits;
use crate::record::spec_record_wf;
use crate::record::spec_reveal_record;
use crate::record::EncryptedAccount;
use crate::record::RecordModel;

verus! {

/// The fixed protocol-namespace tag prepended to every derived address:
/// the bytes of `"commitv1"`.
pub open spec fn spec_namespace_tag() -> Seq<u8> {
    seq![99u8, 111u8, 109u8, 109u8, 105u8, 116u8, 118u8, 49u8]
}

/// Address derivation: a pure, deterministic function of the public key
/// under a fixed namespace tag, independent of any storage backend.  The
/// namespaced concatenation is injective, so two commitments collide
/// exactly when their `public_key` bytes are equal.
pub open spec fn spec_derive_address(public_key: Seq<u8>) -> Seq<u8> {
    spec_namespace_tag() + public_key
}

/// Address derivation is collision-free: distinct public keys never derive
/// the same address.
pub proof fn lemma_derive_address_injective(pk1: Seq<u8>, pk2: Seq<u8>)
    ensures
        spec_derive_address(pk1) == spec_derive_address(pk2) ==> pk1 == pk2,
{
    if spec_derive_address(pk1) == spec_derive_address(pk2) {
        let a1 = spec_derive_address(pk1);
        let a2 = spec_derive_address(pk2);
        assert(spec_namespace_tag().len() == 8);
        assert(a1 == a2);
        assert(a1.len() == spec_namespace_tag().len() + pk1.len());
        assert(a2.len() == spec_namespace_tag().len() + pk2.len());
        assert(pk1.len() == pk2.len());
        assert forall|i: int| 0 <= i < pk1.len() implies pk1[i] == pk2[i] by {
            assert(a1[i + 8] == pk1[i]);
            assert(a2[i + 8] == pk2[i]);
        }
        assert(pk1 =~= pk2);
    }
}

/// Derive the storage address for a public key.
pub fn derive_address(public_key: &Vec<u8>) -> (r: Vec<u8>)
    ensures
        r@ == spec_derive_address(public_key@),
{
    let mut out: Vec<u8> = Vec::new();
    out.push(99);
    out.push(111);
    out.push(109);
    out.push(109);
    out.push(105);
    out.push(116);
    out.push(118);
    out.push(49);
    let mut i: usize = 0;
    while i < public_key.len()
        invariant
            i <= public_key@.len(),
            out@ == spec_namespace_tag() + public_key@.subrange(0, i as int),
        decreases public_key@.len() - i,
    {
        out.push(public_key[i]);
        proof {
            assert(public_key@.subrange(0, i + 1) =~= public_key@.subrange(0, i as int).push(
                public_key@[i as int],
            ));
        }
        i += 1;
    }
    proof {
        assert(public_key@.subrange(0, public_key@.len() as int) =~= public_key@);
        assert(out@ =~= spec_derive_address(public_key@));
    }
    out
}

/// Inputs of the commit operation: the three fields the new record stores
/// verbatim.
pub struct CommitValue {
    /// Committer-chosen identity bytes; the record's address derives from
    /// them.
    pub public_key: Vec<u8>,
    /// Nonce the ciphertext was produced under.
    pub nonce: Vec<u8>,
    /// Authenticated ciphertext of the secret value.
    pub cipher_text: Vec<u8>,
}

/// Inputs of the reveal operation: the record's address and a candidate
/// secret key.
pub struct RevealValue {
    /// Address of the record to reveal.
    pub address: Vec<u8>,
    /// Candidate symmetric key; whoever holds the matching key may
    /// disclose the value.
    pub secret_key: Vec<u8>,
}

/// One storage slot: a record and the address it lives at.
pub struct StoredRecord {
    /// The derived address of the record.
    pub address: Vec<u8>,
    /// The record itself.
    pub account: EncryptedAccount,
}

/// The commitment store: every record in existence, addressed
/// deterministically, at most one per address.
pub struct CommitmentStore {
    /// The storage slots, one per committed record.
    pub records: Vec<StoredRecord>,
}

/// The map an association list of stored records denotes: later entries
/// win, though a well-formed store never holds an address twice.
pub open spec fn records_map(s: Seq<StoredRecord>) -> Map<Seq<u8>, RecordModel>
    decreases s.len(),
{
    if s.len() == 0 {
        Map::empty()
    } else {
        records_map(s.drop_last()).insert(s.last().address@, s.last().account@)
    }
}

/// No two slots share an address.
pub open spec fn spec_unique_addresses(s: Seq<StoredRecord>) -> bool {
    forall|i: int, j: int|
        0 <= i < j < s.len() ==> #[trigger] s[i].address@ != #[trigger] s[j].address@
}

impl View for CommitmentStore {
    type V = Map<Seq<u8>, RecordModel>;

    open spec fn view(&self) -> Map<Seq<u8>, RecordModel> {
        records_map(self.records@)
    }
}

impl CommitmentStore {
    /// Store invariant: each slot sits at the address its record's public
    /// key derives, each record fits the storage envelope, and no address
    /// repeats.
    pub open spec fn wf(&self) -> bool {
        &&& forall|i: int|
            0 <= i < self.records@.len() ==> (#[trigger] self.records@[i]).address@
                == spec_derive_address(self.records@[i].account@.public_key)
        &&& forall|i: int|
            0 <= i < self.records@.len() ==> spec_record_wf((#[trigger] self.records@[i]).account@)
        &&& spec_unique_addresses(self.records@)
    }

    /// An empty store: no commitments yet.
    pub fn new() -> (r: CommitmentStore)
        ensures
            r.wf(),
            r@ == Map::<Seq<u8>, RecordModel>::empty(),
    {
        CommitmentStore { records: Vec::new() }
    }
}

/// What a commit does, as a mathematical function from the store's map and
/// the inputs to the new map and the result.
///
/// The address derives from the public key alone, so an occupied address
/// means an earlier commit with the same `public_key`: the second attempt
/// fails with `AlreadyCommitted` and the store — the original record
/// included — is left byte-for-byte unchanged.  An input combination whose
/// serialized record could outgrow the storage envelope is rejected with
/// `PayloadTooLarge`.  Otherwise a new record is created at the derived
/// address, its fields taken verbatim from the input and its `plain_text`
/// empty.
pub open spec fn spec_commit(
    m: Map<Seq<u8>, RecordModel>,
    public_key: Seq<u8>,
    nonce: Seq<u8>,
    cipher_text: Seq<u8>,
) -> (Map<Seq<u8>, RecordModel>, Result<Seq<u8>, CommitError>) {
    let address = spec_derive_address(public_key);
    if m.contains_key(address) {
        (m, Err(CommitError::AlreadyCommitted))
    } else if !spec_commit_fits(public_key, nonce, cipher_text) {
        (m, Err(CommitError::PayloadTooLarge))
    } else {
        (
            m.insert(
                address,
                RecordModel { public_key, nonce, cipher_text, plain_text: Seq::empty() },
            ),
            Ok(address),
        )
    }
}

/// What a reveal does, as a mathematical function from the store's map and
/// the inputs to the new map and the result.
///
/// An absent address fails with `NoSuchCommitment` and changes nothing;
/// otherwise the record at the address undergoes its one permitted
/// transition, `spec_reveal_record`.
pub open spec fn spec_reveal(
    m: Map<Seq<u8>, RecordModel>,
    address: Seq<u8>,
    secret_key: Seq<u8>,
) -> (Map<Seq<u8>, RecordModel>, Result<(), RevealError>) {
    if !m.contains_key(address) {
        (m, Err(RevealError::NoSuchCommitment))
    } else {
        let stepped = spec_reveal_record(m[address], secret_key);
        (m.insert(address, stepped.0), stepped.1)
    }
}

/// Byte-vector equality, reflected to the views.
fn bytes_eq(a: &Vec<u8>, b: &Vec<u8>) -> (r: bool)
    ensures
        r <==> a@ == b@,
{
    let r = a == b;
    proof {
        if r {
            assert(a@ =~= b@) by {
                assert(a.eq_spec(b));
            }
        } else {
            if a@ == b@ {
                assert(a.eq_spec(b));
                assert(false);
            }
        }
    }
    r
}

/// A slot's address is in the denoted map, and in a store without repeated
/// addresses it is mapped to that slot's record.
proof fn lemma_records_map_index(s: Seq<StoredRecord>, i: int)
    requires
        0 <= i < s.len(),
    ensures
        records_map(s).contains_key(s[i].address@),
        spec_unique_addresses(s) ==> records_map(s)[s[i].address@] == s[i].account@,
    decreases s.len(),
{
    if i == s.len() - 1 {
        assert(s.last() == s[i]);
    } else {
        lemma_records_map_index(s.drop_last(), i);
        assert(s.drop_last()[i] == s[i]);
        if spec_unique_addresses(s) {
            assert forall|x: int, y: int| 0 <= x < y < s.drop_last().len() implies (
            s.drop_last()[x]).address@ != (s.drop_last()[y]).address@ by {
                assert(s.drop_last()[x] == s[x]);
                assert(s.drop_last()[y] == s[y]);
                assert(s[x].address@ != s[y].address@);
            }
            assert(spec_unique_addresses(s.drop_last()));
            assert(s.last() == s[s.len() - 1]);
            assert(s.last().address@ != s[i].address@);
        }
    }
}

/// An address no slot carries is absent from the denoted map.
proof fn lemma_records_map_absent(s: Seq<StoredRecord>, a: Seq<u8>)
    requires
        forall|i: int| 0 <= i < s.len() ==> (#[trigger] s[i]).address@ != a,
    ensures
        !records_map(s).contains_key(a),
    decreases s.len(),
{
    if s.len() > 0 {
        assert(forall|i: int| 0 <= i < s.drop_last().len() ==> s.drop_last()[i] == s[i]);
        lemma_records_map_absent(s.drop_last(), a);
        assert(s.last() == s[s.len() - 1]);
    }
}

/// Appending a slot inserts its record into the denoted map.
proof fn lemma_records_map_push(s: Seq<StoredRecord>, e: StoredRecord)
    ensures
        records_map(s.push(e)) == records_map(s).insert(e.address@, e.account@),
{
    assert(s.push(e).drop_last() =~= s);
    assert(s.push(e).last() == e);
}

/// Replacing a slot by one at the same address overwrites that address in
/// the denoted map, provided no other slot shares it.
proof fn lemma_records_map_update(s: Seq<StoredRecord>, i: int, e: StoredRecord)
    requires
        0 <= i < s.len(),
        spec_unique_addresses(s),
        e.address@ == s[i].address@,
    ensures
        records_map(s.update(i, e)) == records_map(s).insert(e.address@, e.account@),
    decreases s.len(),
{
    let t = s.update(i, e);
    if i == s.len() - 1 {
        assert(t.drop_last() =~= s.drop_last());
        assert(t.last() == e);
        assert(records_map(s).insert(e.address@, e.account@) =~= records_map(
            s.drop_last(),
        ).insert(e.address@, e.account@));
    } else {
        assert forall|x: int, y: int| 0 <= x < y < s.drop_last().len() implies (
        s.drop_last()[x]).address@ != (s.drop_last()[y]).address@ by {
            assert(s.drop_last()[x] == s[x]);
            assert(s.drop_last()[y] == s[y]);
            assert(s[x].address@ != s[y].address@);
        }
        assert(spec_unique_addresses(s.drop_last()));
        assert(s.drop_last()[i] == s[i]);
        lemma_records_map_update(s.drop_last(), i, e);
        assert(t.drop_last() =~= s.drop_last().update(i, e));
        assert(t.last() == s.last());
        assert(s.last().address@ != e.address@);
        assert(records_map(t) == records_map(s.drop_last()).insert(e.address@, e.account@).insert(
            s.last().address@,
            s.last().account@,
        ));
        assert(records_map(s.drop_last()).insert(e.address@, e.account@).insert(
            s.last().address@,
            s.last().account@,
        ) =~= records_map(s.drop_last()).insert(s.last().address@, s.last().account@).insert(
            e.address@,
            e.account@,
        ));
    }
}

impl CommitmentStore {
    /// Locate the slot holding the record at an address, if any.
    fn find_index(&self, address: &Vec<u8>) -> (r: Option<usize>)
        requires
            self.wf(),
        ensures
            r matches Some(i) ==> i < self.records@.len() && self.records@[i as int].address@
                == address@ && self@.contains_key(address@) && self@[address@]
                == self.records@[i as int].account@,
            r is None ==> !self@.contains_key(address@) && forall|j: int|
                0 <= j < self.records@.len() ==> (#[trigger] self.records@[j]).address@
                    != address@,
    {
        let n = self.records.len();
        let mut i: usize = 0;
        while i < n
            invariant
                self.wf(),
                n == self.records@.len(),
                i <= n,
                forall|j: int| 0 <= j < i ==> (#[trigger] self.records@[j]).address@ != address@,
            decreases n - i,
        {
            if bytes_eq(&self.records[i].address, address) {
                proof {
                    lemma_records_map_index(self.records@, i as int);
                }
                return Some(i);
            }
            i += 1;
        }
        proof {
            lemma_records_map_absent(self.records@, address@);
        }
        None
    }

    /// Look a committed record up by its address: every field of it is
    /// publicly readable.
    pub fn load_record(&self, address: &Vec<u8>) -> (r: Option<&EncryptedAccount>)
        requires
            self.wf(),
        ensures
            r is Some <==> self@.contains_key(address@),
            r matches Some(acc) ==> acc@ == self@[address@],
    {
        match self.find_index(address) {
            Some(i) => Some(&self.records[i].account),
            None => None,
        }
    }

    /// Commit a secret value: create the record holding the public key,
    /// nonce and ciphertext verbatim, with empty plaintext, at the address
    /// the public key derives, and return that address.
    ///
    /// Fails with `AlreadyCommitted` — leaving every record byte-for-byte
    /// unchanged — if a record already exists at the derived address, and
    /// with `PayloadTooLarge` if the serialized fields could outgrow the
    /// storage envelope.  No decryption and no validation of the
    /// ciphertext's decryptability happens here: commitment is deliberately
    /// blind.
    pub fn commit_value(&mut self, input: CommitValue) -> (r: Result<Vec<u8>, CommitError>)
        requires
            old(self).wf(),
        ensures
            final(self).wf(),
            final(self)@ == spec_commit(
                old(self)@,
                input.public_key@,
                input.nonce@,
                input.cipher_text@,
            ).0,
            r matches Ok(address) ==> Ok::<Seq<u8>, CommitError>(address@) == spec_commit(
                old(self)@,
                input.public_key@,
                input.nonce@,
                input.cipher_text@,
            ).1,
            r matches Err(e) ==> Err::<Seq<u8>, CommitError>(e) == spec_commit(
                old(self)@,
                input.public_key@,
                input.nonce@,
                input.cipher_text@,
            ).1,
    {
        let address = derive_address(&input.public_key);
        match self.find_index(&address) {
            Some(_) => Err(CommitError::AlreadyCommitted),
            None => {
                match EncryptedAccount::new(input.public_key, input.nonce, input.cipher_text) {
                    Err(e) => Err(e),
                    Ok(account) => {
                        let ghost s0 = self.records@;
                        let entry_address = address.clone();
                        proof {
                            assert(entry_address@ =~= address@);
                        }
                        let entry = StoredRecord { address: entry_address, account };
                        self.records.push(entry);
                        proof {
                            lemma_records_map_push(s0, entry);
                            assert forall|x: int, y: int|
                                0 <= x < y < self.records@.len() implies (
                            self.records@[x]).address@ != (self.records@[y]).address@ by {
                                if y == s0.len() {
                                    assert(self.records@[x] == s0[x]);
                                } else {
                                    assert(self.records@[x] == s0[x]);
                                    assert(self.records@[y] == s0[y]);
                                }
                            }
                        }
                        Ok(address)
                    },
                }
            },
        }
    }

    /// Reveal a committed value: run authenticated decryption of the record
    /// at the given address with the candidate key and, on success, write
    /// the plaintext into the record, permanently and publicly.
    ///
    /// No authorization beyond a key that authenticates is required, and
    /// failure is an expected, recoverable outcome: a wrong key leaves the
    /// record completely unmodified and reports `RevealFailed`.
    pub fn reveal_value(&mut self, input: RevealValue) -> (r: Result<(), RevealError>)
        requires
            old(self).wf(),
        ensures
            final(self).wf(),
            final(self)@ == spec_reveal(old(self)@, input.address@, input.secret_key@).0,
            r == spec_reveal(old(self)@, input.address@, input.secret_key@).1,
    {
        match self.find_index(&input.address) {
            None => {
                proof {
                    assert(old(self)@ =~= self@);
                }
                Err(RevealError::NoSuchCommitment)
            },
            Some(i) => {
                let ghost s0 = self.records@;
                let mut entry = self.records.remove(i);
                let res = entry.account.reveal_record(&input.secret_key);
                self.records.insert(i, entry);
                proof {
                    assert(self.records@ =~= s0.update(i as int, entry));
                    lemma_records_map_update(s0, i as int, entry);
                    assert forall|x: int, y: int|
                        0 <= x < y < self.records@.len() implies (self.records@[x]).address@ != (
                    self.records@[y]).address@ by {
                        assert(s0[x].address@ != s0[y].address@);
                    }
                    assert(self@ =~= spec_reveal(
                        records_map(s0),
                        input.address@,
                        input.secret_key@,
                    ).0);
                }
                res
            },
        }
    }
}

} // verus!
