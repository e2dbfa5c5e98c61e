//! The persisted record layout: four length-prefixed byte fields in fixed
//! order — `public_key`, `nonce`, `cipher_text`, `plain_text` — inside the
//! fixed storage envelope.
//!
//! Variable-length byte strings never rely on fixed widths: each field
//! carries an explicit four-byte little-endian length prefix.

use vstd::arithmetic::div_mod::lemma_div_denominator;
use vstd::arithmetic::div_mod::lemma_div_pos_is_pos;
use vstd::arithmetic::div_mod::lemma_fundamental_div_mod;
use vstd::arithmetic::div_mod::lemma_small_mod;
use vstd::prelude::*;

use crate::record::spec_record_wf;
use crate::record::spec_serialized_len;
use crate::record::EncryptedAccount;
use crate::record::RecordModel;
use crate::RECORD_SPACE;

verus! {

/// The four-byte little-endian length prefix written before a field of
/// `n` bytes.
pub open spec fn spec_len_prefix(n: int) -> Seq<u8> {
    seq![
        (n % 256) as u8,
        ((n / 256) % 256) as u8,
        ((n / 65536) % 256) as u8,
        ((n / 16777216) % 256) as u8,
    ]
}

/// One serialized field: its length prefix, then its bytes.
pub open spec fn spec_serialize_field(b: Seq<u8>) -> Seq<u8> {
    spec_len_prefix(b.len() as int) + b
}

/// The serialized record: the four fields in fixed order.
pub open spec fn spec_serialize_record(r: RecordModel) -> Seq<u8> {
    spec_serialize_field(r.public_key) + spec_serialize_field(r.nonce) + spec_serialize_field(
        r.cipher_text,
    ) + spec_serialize_field(r.plain_text)
}

/// The serialized width is the fields' widths plus four prefixes of four
/// bytes each.
pub proof fn lemma_serialized_record_len(r: RecordModel)
    ensures
        spec_serialize_record(r).len() == spec_serialized_len(r),
{
}

/// The length prefix decodes to the width it was written from: the four
/// bytes are the base-256 digits of the width, little-endian.
proof fn lemma_len_prefix_decodes(n: int)
    requires
        0 <= n < 4294967296,
    ensures
        ({
            let p = spec_len_prefix(n);
            n == p[0] + 256 * (p[1] as int) + 65536 * (p[2] as int) + 16777216 * (p[3] as int)
        }),
{
    let q1 = n / 256;
    let q2 = q1 / 256;
    let q3 = q2 / 256;
    lemma_fundamental_div_mod(n, 256);
    lemma_fundamental_div_mod(q1, 256);
    lemma_fundamental_div_mod(q2, 256);
    lemma_div_pos_is_pos(n, 256);
    lemma_div_pos_is_pos(q1, 256);
    lemma_div_pos_is_pos(q2, 256);
    lemma_div_denominator(n, 256, 256);
    lemma_div_denominator(n, 65536, 256);
    assert(q2 == n / 65536);
    assert(q3 == n / 16777216);
    assert(q3 < 256) by {
        if q3 >= 256 {
            lemma_fundamental_div_mod(n, 16777216);
            assert(n == 16777216 * (n / 16777216) + n % 16777216);
            assert(16777216 * (n / 16777216) >= 16777216 * 256);
        }
    }
    lemma_small_mod(q3 as nat, 256);
    assert(q3 % 256 == q3);
}

/// Two widths with the same prefix are the same width.
proof fn lemma_len_prefix_injective(n1: int, n2: int)
    requires
        0 <= n1 < 4294967296,
        0 <= n2 < 4294967296,
        spec_len_prefix(n1) == spec_len_prefix(n2),
    ensures
        n1 == n2,
{
    lemma_len_prefix_decodes(n1);
    lemma_len_prefix_decodes(n2);
}

/// Peeling one length-prefixed field off a serialized tail is unambiguous:
/// equal byte strings part into equal fields and equal tails.
proof fn lemma_field_parse_unambiguous(x1: Seq<u8>, t1: Seq<u8>, x2: Seq<u8>, t2: Seq<u8>)
    requires
        x1.len() < 4294967296,
        x2.len() < 4294967296,
        spec_serialize_field(x1) + t1 == spec_serialize_field(x2) + t2,
    ensures
        x1 == x2,
        t1 == t2,
{
    let s1 = spec_serialize_field(x1) + t1;
    let s2 = spec_serialize_field(x2) + t2;
    let p1 = spec_len_prefix(x1.len() as int);
    let p2 = spec_len_prefix(x2.len() as int);
    assert forall|i: int| 0 <= i < 4 implies p1[i] == p2[i] by {
        assert(s1[i] == p1[i]);
        assert(s2[i] == p2[i]);
    }
    assert(p1 =~= p2);
    lemma_len_prefix_injective(x1.len() as int, x2.len() as int);
    let l = x1.len() as int;
    assert forall|i: int| 0 <= i < l implies x1[i] == x2[i] by {
        assert(s1[4 + i] == x1[i]);
        assert(s2[4 + i] == x2[i]);
    }
    assert(x1 =~= x2);
    assert(p1.len() == 4);
    assert(s1.len() == 4 + l + t1.len());
    assert(s2.len() == 4 + l + t2.len());
    assert(t1.len() == t2.len());
    assert forall|i: int| 0 <= i < t1.len() implies t1[i] == t2[i] by {
        assert(s1[4 + l + i] == t1[i]);
        assert(s2[4 + l + i] == t2[i]);
    }
    assert(t1 =~= t2);
}

/// The layout is unambiguous: two well-formed records with the same
/// serialization are the same record.  The explicit length prefixes, not
/// any fixed field widths, make this hold.
pub proof fn lemma_serialize_record_injective(r1: RecordModel, r2: RecordModel)
    requires
        spec_record_wf(r1),
        spec_record_wf(r2),
        spec_serialize_record(r1) == spec_serialize_record(r2),
    ensures
        r1 == r2,
{
    let rest1 = spec_serialize_field(r1.nonce) + (spec_serialize_field(r1.cipher_text)
        + spec_serialize_field(r1.plain_text));
    let rest2 = spec_serialize_field(r2.nonce) + (spec_serialize_field(r2.cipher_text)
        + spec_serialize_field(r2.plain_text));
    assert(spec_serialize_record(r1) =~= spec_serialize_field(r1.public_key) + rest1);
    assert(spec_serialize_record(r2) =~= spec_serialize_field(r2.public_key) + rest2);
    lemma_field_parse_unambiguous(r1.public_key, rest1, r2.public_key, rest2);
    let rest1b = spec_serialize_field(r1.cipher_text) + spec_serialize_field(r1.plain_text);
    let rest2b = spec_serialize_field(r2.cipher_text) + spec_serialize_field(r2.plain_text);
    lemma_field_parse_unambiguous(r1.nonce, rest1b, r2.nonce, rest2b);
    lemma_field_parse_unambiguous(
        r1.cipher_text,
        spec_serialize_field(r1.plain_text),
        r2.cipher_text,
        spec_serialize_field(r2.plain_text),
    );
    assert(spec_serialize_field(r1.plain_text) =~= spec_serialize_field(r1.plain_text)
        + Seq::<u8>::empty());
    assert(spec_serialize_field(r2.plain_text) =~= spec_serialize_field(r2.plain_text)
        + Seq::<u8>::empty());
    lemma_field_parse_unambiguous(
        r1.plain_text,
        Seq::<u8>::empty(),
        r2.plain_text,
        Seq::<u8>::empty(),
    );
}

/// Append one length-prefixed field.
fn push_field(out: &mut Vec<u8>, field: &Vec<u8>)
    requires
        field@.len() < 4294967296,
    ensures
        final(out)@ == old(out)@ + spec_serialize_field(field@),
{
    let len = field.len();
    out.push((len % 256) as u8);
    out.push(((len / 256) % 256) as u8);
    out.push(((len / 65536) % 256) as u8);
    out.push(((len / 16777216) % 256) as u8);
    proof {
        assert(out@ =~= old(out)@ + spec_len_prefix(field@.len() as int));
    }
    let ghost prefixed = out@;
    let mut i: usize = 0;
    while i < field.len()
        invariant
            i <= field@.len(),
            out@ == prefixed + field@.subrange(0, i as int),
        decreases field@.len() - i,
    {
        out.push(field[i]);
        proof {
            assert(field@.subrange(0, i + 1) =~= field@.subrange(0, i as int).push(
                field@[i as int],
            ));
        }
        i += 1;
    }
    proof {
        assert(field@.subrange(0, field@.len() as int) =~= field@);
        assert(out@ =~= old(out)@ + spec_serialize_field(field@));
    }
}

/// Serialize a well-formed record for the platform's storage: the result is
/// the four length-prefixed fields in order, and always fits the envelope.
pub fn serialize_record(account: &EncryptedAccount) -> (r: Vec<u8>)
    requires
        spec_record_wf(account@),
    ensures
        r@ == spec_serialize_record(account@),
        r@.len() == spec_serialized_len(account@),
        r@.len() <= RECORD_SPACE,
{
    let mut out: Vec<u8> = Vec::new();
    push_field(&mut out, &account.public_key);
    push_field(&mut out, &account.nonce);
    push_field(&mut out, &account.cipher_text);
    push_field(&mut out, &account.plain_text);
    proof {
        assert(out@ =~= spec_serialize_record(account@));
        lemma_serialized_record_len(account@);
    }
    out
}

} // verus!
