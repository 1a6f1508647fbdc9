//! Pallas group operations on encoded points, keys, additive value
//! commitments, and the encryption of payloads to a public key.

use crate::field::{fe_bytes, fields_bytes, hash_to_point, hash_to_point_of, Fe};
use pasta_curves::group::ff::PrimeField;
use pasta_curves::group::GroupEncoding;
use pasta_curves::pallas;
use vstd::prelude::*;

verus! {

/// What the Pallas scalar multiplication gives for an encoded point and a
/// scalar, encoded; `None` when `p` encodes no point.
pub uninterp spec fn point_mul_of(p: Fe, s: Fe) -> Option<Fe>;

/// What the Pallas point addition gives for two encoded points, encoded;
/// `None` when either encodes no point.
pub uninterp spec fn point_add_of(a: Fe, b: Fe) -> Option<Fe>;

/// Relies on pasta_curves: `GroupEncoding::from_bytes` for Pallas points (no
/// point when the bytes encode none), `Fq::from_raw` for the scalar, the
/// point-by-scalar product, and `GroupEncoding::to_bytes`.
#[verifier::external_body]
pub(crate) fn point_mul(p: Fe, s: Fe) -> (r: Option<Fe>)
    ensures
        r == point_mul_of(p, s),
{
    let v: Vec<u8> = [p.l0, p.l1, p.l2, p.l3].into_iter().flat_map(u64::to_le_bytes).collect();
    let pt: Option<pallas::Point> = pallas::Point::from_bytes(&v.try_into().unwrap()).into();
    let l: Vec<u64> = (pt? * pallas::Scalar::from_raw([s.l0, s.l1, s.l2, s.l3])).to_bytes().chunks(8).map(|c| u64::from_le_bytes(c.try_into().unwrap())).collect();
    Some(Fe { l0: l[0], l1: l[1], l2: l[2], l3: l[3] })
}

/// Relies on pasta_curves: `GroupEncoding::from_bytes` for Pallas points (no
/// point when the bytes encode none), point addition, and
/// `GroupEncoding::to_bytes`.
#[verifier::external_body]
pub(crate) fn point_add(a: Fe, b: Fe) -> (r: Option<Fe>)
    ensures
        r == point_add_of(a, b),
{
    let v: Vec<u8> = [a.l0, a.l1, a.l2, a.l3, b.l0, b.l1, b.l2, b.l3].into_iter().flat_map(u64::to_le_bytes).collect();
    let p: Vec<Option<pallas::Point>> = v.chunks(32).map(|c| pallas::Point::from_bytes(c.try_into().unwrap()).into()).collect();
    let l: Vec<u64> = (p[0]? + p[1]?).to_bytes().chunks(8).map(|c| u64::from_le_bytes(c.try_into().unwrap())).collect();
    Some(Fe { l0: l[0], l1: l[1], l2: l[2], l3: l[3] })
}

/// The order of the Pallas group: the modulus of its scalar field.
pub open spec fn scalar_modulus() -> int {
    0x224698fc0994a8dd8c46eb2100000001 + 0x4000000000000000 * limb_base() * limb_base() * limb_base()
}

/// 2^64, the weight of one limb.
pub open spec fn limb_base() -> int {
    0x1_0000_0000_0000_0000
}

/// The integer that four little-endian limbs spell.
pub open spec fn limbs_value(x: Fe) -> int {
    x.l0 + x.l1 * limb_base() + x.l2 * limb_base() * limb_base() + x.l3 * limb_base() * limb_base()
        * limb_base()
}

/// The sum of two scalars, each read as a 256-bit integer, reduced modulo
/// the group order, as limbs (the only limbs that spell that integer).
#[verifier::opaque]
pub open spec fn scalar_add_of(a: Fe, b: Fe) -> Fe {
    choose|r: Fe| limbs_value(r) == (limbs_value(a) + limbs_value(b)) % scalar_modulus()
}

/// The difference of two scalars, each read as a 256-bit integer, reduced
/// modulo the group order, as limbs (the only limbs that spell that integer).
#[verifier::opaque]
pub open spec fn scalar_sub_of(a: Fe, b: Fe) -> Fe {
    choose|r: Fe| limbs_value(r) == (limbs_value(a) - limbs_value(b)) % scalar_modulus()
}

/// Relies on pasta_curves: `Fq::from_raw` reduces any four limbs modulo the
/// group order, `Fq` adds, and `PrimeField::to_repr` gives the canonical
/// little-endian bytes of the sum.
#[verifier::external_body]
pub(crate) fn scalar_add(a: Fe, b: Fe) -> (r: Fe)
    ensures
        limbs_value(r) == (limbs_value(a) + limbs_value(b)) % scalar_modulus(),
        r == scalar_add_of(a, b),
{
    let x = pallas::Scalar::from_raw([a.l0, a.l1, a.l2, a.l3]);
    let y = pallas::Scalar::from_raw([b.l0, b.l1, b.l2, b.l3]);
    let o = (x + y).to_repr();
    Fe {
        l0: u64::from_le_bytes(o[0..8].try_into().unwrap()),
        l1: u64::from_le_bytes(o[8..16].try_into().unwrap()),
        l2: u64::from_le_bytes(o[16..24].try_into().unwrap()),
        l3: u64::from_le_bytes(o[24..32].try_into().unwrap()),
    }
}

/// Relies on pasta_curves: `Fq::from_raw` reduces any four limbs modulo the
/// group order, `Fq` subtracts, and `PrimeField::to_repr` gives the
/// canonical little-endian bytes of the difference.
#[verifier::external_body]
pub(crate) fn scalar_sub(a: Fe, b: Fe) -> (r: Fe)
    ensures
        limbs_value(r) == (limbs_value(a) - limbs_value(b)) % scalar_modulus(),
        r == scalar_sub_of(a, b),
{
    let x = pallas::Scalar::from_raw([a.l0, a.l1, a.l2, a.l3]);
    let y = pallas::Scalar::from_raw([b.l0, b.l1, b.l2, b.l3]);
    let l: Vec<u64> = (x - y).to_repr().chunks(8).map(|c| u64::from_le_bytes(c.try_into().unwrap())).collect();
    Fe { l0: l[0], l1: l[1], l2: l[2], l3: l[3] }
}

/// A one-byte message.
fn byte_msg(b: u8) -> (r: Vec<u8>)
    ensures
        r@ == seq![b],
{
    let mut m: Vec<u8> = Vec::new();
    m.push(b);
    assert(m@ =~= seq![b]);
    m
}

/// Generator of the value part of a value commitment.
pub open spec fn value_generator() -> Fe {
    hash_to_point_of("z.cash:Orchard-cv"@, seq![118u8])
}

/// Generator of the blinding part of a value commitment.
pub open spec fn blind_generator() -> Fe {
    hash_to_point_of("z.cash:Orchard-cv"@, seq![114u8])
}

/// Generator from which public keys are derived.
pub open spec fn key_generator() -> Fe {
    hash_to_point_of("daod-keys"@, seq![71u8])
}

/// The public key of a secret key.
pub open spec fn public_of(secret: Fe) -> Option<Fe> {
    point_mul_of(key_generator(), secret)
}

/// Sum of two optional points.
pub open spec fn add_opt(a: Option<Fe>, b: Option<Fe>) -> Option<Fe> {
    match (a, b) {
        (Some(x), Some(y)) => point_add_of(x, y),
        _ => None,
    }
}

/// The commitment `value * V + blind * R`.
pub open spec fn value_commit_of(value: u64, blind: Fe) -> Option<Fe> {
    add_opt(
        point_mul_of(value_generator(), Fe::spec_from_u64(value)),
        point_mul_of(blind_generator(), blind),
    )
}

/// The sum of a sequence of commitments, starting from the identity (whose
/// encoding is zero).
pub open spec fn commit_sum_of(s: Seq<Fe>) -> Option<Fe>
    decreases s.len(),
{
    if s.len() == 0 {
        Some(Fe::spec_zero())
    } else {
        add_opt(commit_sum_of(s.drop_last()), Some(s.last()))
    }
}

/// The public key of a secret key; `None` only if the group arithmetic fails.
pub fn public_key(secret: Fe) -> (r: Option<Fe>)
    ensures
        r == public_of(secret),
{
    proof {
        reveal_strlit("daod-keys");
    }
    let g = hash_to_point("daod-keys", &byte_msg(71u8));
    point_mul(g, secret)
}

/// Commits to a value under a blind.
pub fn value_commit(value: u64, blind: Fe) -> (r: Option<Fe>)
    ensures
        r == value_commit_of(value, blind),
{
    proof {
        reveal_strlit("z.cash:Orchard-cv");
    }
    let v = hash_to_point("z.cash:Orchard-cv", &byte_msg(118u8));
    proof {
        reveal_strlit("z.cash:Orchard-cv");
    }
    let h = hash_to_point("z.cash:Orchard-cv", &byte_msg(114u8));
    let a = point_mul(v, Fe::from_u64(value));
    let b = point_mul(h, blind);
    match (a, b) {
        (Some(x), Some(y)) => point_add(x, y),
        _ => None,
    }
}

/// Adds two commitments: the result commits to the sum of the values under
/// the sum of the blinds.
pub fn commit_add(a: Fe, b: Fe) -> (r: Option<Fe>)
    ensures
        r == point_add_of(a, b),
{
    point_add(a, b)
}

/// Sums a sequence of commitments.
pub fn commit_sum(s: &Vec<Fe>) -> (r: Option<Fe>)
    ensures
        r == commit_sum_of(s@),
{
    let mut acc: Option<Fe> = Some(Fe::zero());
    let mut i: usize = 0;
    while i < s.len()
        invariant
            i <= s.len(),
            acc == commit_sum_of(s@.take(i as int)),
        decreases s.len() - i,
    {
        assert(s@.take(i + 1).drop_last() =~= s@.take(i as int));
        acc = match acc {
            Some(x) => point_add(x, s[i]),
            None => None,
        };
        i = i + 1;
    }
    assert(s@.take(s.len() as int) =~= s@);
    acc
}

/// Whether `c` opens to `value` under `blind`.
pub fn opens_to(c: Fe, value: u64, blind: Fe) -> (r: bool)
    ensures
        r == (value_commit_of(value, blind) == Some(c)),
{
    match value_commit(value, blind) {
        Some(x) => x == c,
        None => false,
    }
}

// ---- encryption of payloads ----

/// Failure to decrypt a payload.
#[derive(Clone, Copy, Debug, PartialEq, Eq, Structural)]
pub enum DecryptionError {
    /// The payload was not encrypted to the key tried, or was altered.
    DecryptionError,
}

/// A payload of field elements encrypted to a public key.
#[derive(Clone, Debug)]
pub struct EncryptedPayload {
    /// The sender's ephemeral public key.
    pub ephem_public: Fe,
    pub ciphertext: Vec<Fe>,
    /// Authenticates the plaintext under the shared key.
    pub tag: Fe,
}

pub open spec fn xor_fe(a: Fe, b: Fe) -> Fe {
    Fe { l0: a.l0 ^ b.l0, l1: a.l1 ^ b.l1, l2: a.l2 ^ b.l2, l3: a.l3 ^ b.l3 }
}

/// The pad for element `i` under a shared key.
pub open spec fn pad_of(shared: Fe, i: int) -> Fe {
    hash_to_point_of("daod-note-pad"@, fields_bytes(seq![shared, Fe::spec_from_u64(i as u64)]))
}

/// The element-wise encryption (and decryption) of `p` under a shared key.
pub open spec fn masked(shared: Fe, p: Seq<Fe>) -> Seq<Fe> {
    Seq::new(p.len(), |i: int| xor_fe(p[i], pad_of(shared, i)))
}

/// The tag of a plaintext under a shared key.
pub open spec fn tag_of(shared: Fe, p: Seq<Fe>) -> Fe {
    hash_to_point_of("daod-note-tag"@, fields_bytes(seq![shared] + p))
}

/// The encryption of `p` to `recipient` under the ephemeral secret
/// `ephem_secret`: ephemeral public key, masked plaintext and tag.
pub open spec fn encrypt_of(recipient: Fe, ephem_secret: Fe, p: Seq<Fe>) -> Option<
    (Fe, Seq<Fe>, Fe),
> {
    match (public_of(ephem_secret), point_mul_of(recipient, ephem_secret)) {
        (Some(e), Some(shared)) => Some((e, masked(shared, p), tag_of(shared, p))),
        _ => None,
    }
}

/// The plaintext that `secret` recovers from an encryption, if any.
pub open spec fn decrypt_of(secret: Fe, ephem_public: Fe, c: Seq<Fe>, tag: Fe) -> Option<Seq<Fe>> {
    match point_mul_of(ephem_public, secret) {
        Some(shared) => if tag_of(shared, masked(shared, c)) == tag {
            Some(masked(shared, c))
        } else {
            None
        },
        None => None,
    }
}

fn xor_exec(a: Fe, b: Fe) -> (r: Fe)
    ensures
        r == xor_fe(a, b),
{
    Fe { l0: a.l0 ^ b.l0, l1: a.l1 ^ b.l1, l2: a.l2 ^ b.l2, l3: a.l3 ^ b.l3 }
}

fn mask_exec(shared: Fe, p: &Vec<Fe>) -> (r: Vec<Fe>)
    ensures
        r@ == masked(shared, p@),
{
    let mut out: Vec<Fe> = Vec::new();
    let mut i: usize = 0;
    while i < p.len()
        invariant
            i <= p.len(),
            out@ == masked(shared, p@).take(i as int),
        decreases p.len() - i,
    {
        let mut pv: Vec<Fe> = Vec::new();
        pv.push(shared);
        pv.push(Fe::from_u64(i as u64));
        assert(pv@ =~= seq![shared, Fe::spec_from_u64(i as u64)]);
        proof {
            reveal_strlit("daod-note-pad");
        }
        let pad = hash_to_point("daod-note-pad", &crate::field::encode_fields(&pv));
        out.push(xor_exec(p[i], pad));
        i = i + 1;
        assert(out@ =~= masked(shared, p@).take(i as int));
    }
    assert(out@ =~= masked(shared, p@));
    out
}

fn tag_exec(shared: Fe, p: &Vec<Fe>) -> (r: Fe)
    ensures
        r == tag_of(shared, p@),
{
    let mut all: Vec<Fe> = Vec::new();
    all.push(shared);
    let mut i: usize = 0;
    while i < p.len()
        invariant
            i <= p.len(),
            all@ == seq![shared] + p@.take(i as int),
        decreases p.len() - i,
    {
        all.push(p[i]);
        i = i + 1;
        assert(all@ =~= seq![shared] + p@.take(i as int));
    }
    assert(p@.take(p.len() as int) =~= p@);
    proof {
        reveal_strlit("daod-note-tag");
    }
    hash_to_point("daod-note-tag", &crate::field::encode_fields(&all))
}

/// Encrypts a payload to `recipient` with a fresh ephemeral secret.
pub fn encrypt_payload(recipient: Fe, ephem_secret: Fe, p: &Vec<Fe>) -> (r: Option<
    EncryptedPayload,
>)
    ensures
        match (r, encrypt_of(recipient, ephem_secret, p@)) {
            (Some(e), Some(x)) => x == (e.ephem_public, e.ciphertext@, e.tag),
            (None, None) => true,
            _ => false,
        },
{
    let e = public_key(ephem_secret);
    let sh = point_mul(recipient, ephem_secret);
    match (e, sh) {
        (Some(e), Some(shared)) => {
            let ciphertext = mask_exec(shared, p);
            let tag = tag_exec(shared, p);
            Some(EncryptedPayload { ephem_public: e, ciphertext, tag })
        },
        _ => None,
    }
}

/// Decrypts a payload with a secret key; fails unless the payload was
/// encrypted to the matching public key.
pub fn decrypt_payload(secret: Fe, enc: &EncryptedPayload) -> (r: Result<Vec<Fe>, DecryptionError>)
    ensures
        match r {
            Ok(p) => decrypt_of(secret, enc.ephem_public, enc.ciphertext@, enc.tag) == Some(p@),
            Err(_) => decrypt_of(secret, enc.ephem_public, enc.ciphertext@, enc.tag).is_none(),
        },
{
    match point_mul(enc.ephem_public, secret) {
        None => Err(DecryptionError::DecryptionError),
        Some(shared) => {
            let p = mask_exec(shared, &enc.ciphertext);
            if tag_exec(shared, &p) == enc.tag {
                Ok(p)
            } else {
                Err(DecryptionError::DecryptionError)
            }
        },
    }
}

proof fn lemma_xor_twice(x: u64, y: u64)
    ensures
        (x ^ y) ^ y == x,
{
    assert((x ^ y) ^ y == x) by (bit_vector);
}

proof fn lemma_masked_involution(shared: Fe, p: Seq<Fe>)
    ensures
        masked(shared, masked(shared, p)) == p,
{
    assert forall|i: int| 0 <= i < p.len() implies #[trigger] masked(shared, masked(shared, p))[i]
        == p[i] by {
        let k = pad_of(shared, i);
        let a = p[i];
        lemma_xor_twice(a.l0, k.l0);
        lemma_xor_twice(a.l1, k.l1);
        lemma_xor_twice(a.l2, k.l2);
        lemma_xor_twice(a.l3, k.l3);
    }
    assert(masked(shared, masked(shared, p)) =~= p);
}

/// Decrypting with a secret key what was encrypted to its public key gives
/// the plaintext back, whenever the two sides of the key agreement meet on
/// the same shared point (as Diffie-Hellman on a group does).
pub proof fn lemma_payload_round_trip(secret: Fe, ephem_secret: Fe, p: Seq<Fe>)
    requires
        public_of(secret).is_some(),
        public_of(ephem_secret).is_some(),
        point_mul_of(public_of(secret).unwrap(), ephem_secret) == point_mul_of(
            public_of(ephem_secret).unwrap(),
            secret,
        ),
    ensures
        match encrypt_of(public_of(secret).unwrap(), ephem_secret, p) {
            Some((e, c, t)) => decrypt_of(secret, e, c, t) == Some(p),
            None => true,
        },
{
    match point_mul_of(public_of(secret).unwrap(), ephem_secret) {
        Some(shared) => lemma_masked_involution(shared, p),
        None => {},
    }
}

} // verus!
