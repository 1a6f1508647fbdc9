//! Field elements and curve points as plain limbs, and the hash that maps
//! byte strings onto them.

use pasta_curves::arithmetic::CurveExt;
use pasta_curves::group::GroupEncoding;
use vstd::prelude::*;

verus! {

/// An element of the Pallas base field (or an encoded Pallas point), held as
/// four little-endian 64-bit limbs.
#[derive(Clone, Copy, Debug, PartialEq, Eq, Structural)]
pub struct Fe {
    pub l0: u64,
    pub l1: u64,
    pub l2: u64,
    pub l3: u64,
}

impl Fe {
    pub open spec fn spec_zero() -> Fe {
        Fe { l0: 0, l1: 0, l2: 0, l3: 0 }
    }

    pub open spec fn spec_from_u64(v: u64) -> Fe {
        Fe { l0: v, l1: 0, l2: 0, l3: 0 }
    }

    /// The zero element.
    pub fn zero() -> (r: Fe)
        ensures
            r == Fe::spec_zero(),
    {
        Fe { l0: 0, l1: 0, l2: 0, l3: 0 }
    }

    /// The element that a small integer stands for.
    pub fn from_u64(v: u64) -> (r: Fe)
        ensures
            r == Fe::spec_from_u64(v),
    {
        Fe { l0: v, l1: 0, l2: 0, l3: 0 }
    }

    pub fn is_zero(&self) -> (r: bool)
        ensures
            r == (*self == Fe::spec_zero()),
    {
        self.l0 == 0 && self.l1 == 0 && self.l2 == 0 && self.l3 == 0
    }
}

/// The eight little-endian bytes of a limb.
pub open spec fn u64_le(x: u64) -> Seq<u8> {
    seq![
        x as u8,
        (x >> 8u64) as u8,
        (x >> 16u64) as u8,
        (x >> 24u64) as u8,
        (x >> 32u64) as u8,
        (x >> 40u64) as u8,
        (x >> 48u64) as u8,
        (x >> 56u64) as u8,
    ]
}

/// The 32 little-endian bytes of an element.
pub open spec fn fe_bytes(x: Fe) -> Seq<u8> {
    u64_le(x.l0) + u64_le(x.l1) + u64_le(x.l2) + u64_le(x.l3)
}

/// The bytes of a sequence of elements, one after the other.
pub open spec fn fields_bytes(s: Seq<Fe>) -> Seq<u8>
    decreases s.len(),
{
    if s.len() == 0 {
        Seq::empty()
    } else {
        fields_bytes(s.drop_last()) + fe_bytes(s.last())
    }
}

fn push_u64_le(out: &mut Vec<u8>, x: u64)
    ensures
        final(out)@ == old(out)@ + u64_le(x),
{
    out.push(x as u8);
    out.push((x >> 8u64) as u8);
    out.push((x >> 16u64) as u8);
    out.push((x >> 24u64) as u8);
    out.push((x >> 32u64) as u8);
    out.push((x >> 40u64) as u8);
    out.push((x >> 48u64) as u8);
    out.push((x >> 56u64) as u8);
    assert(final(out)@ =~= old(out)@ + u64_le(x));
}

/// Serialises a sequence of elements into bytes.
pub fn encode_fields(s: &Vec<Fe>) -> (r: Vec<u8>)
    ensures
        r@ == fields_bytes(s@),
{
    let mut out: Vec<u8> = Vec::new();
    let mut i: usize = 0;
    while i < s.len()
        invariant
            i <= s.len(),
            out@ == fields_bytes(s@.take(i as int)),
        decreases s.len() - i,
    {
        let x = s[i];
        push_u64_le(&mut out, x.l0);
        push_u64_le(&mut out, x.l1);
        push_u64_le(&mut out, x.l2);
        push_u64_le(&mut out, x.l3);
        assert(s@.take(i + 1).drop_last() =~= s@.take(i as int));
        assert(out@ =~= fields_bytes(s@.take(i as int)) + fe_bytes(x));
        i = i + 1;
    }
    assert(s@.take(s.len() as int) =~= s@);
    out
}

/// What the Pallas hash-to-curve gives for a domain and a message, as the
/// point's compressed encoding.
pub uninterp spec fn hash_to_point_of(domain: Seq<char>, msg: Seq<u8>) -> Fe;

/// Relies on pasta_curves' `CurveExt::hash_to_curve` for Pallas, then
/// `GroupEncoding::to_bytes`: the result is a function of domain and message.
/// `hash_to_field` asserts that the domain and its prefix stay under 256
/// bytes; under 57 characters, any UTF-8 domain does.
#[verifier::external_body]
pub(crate) fn hash_to_point(domain: &str, msg: &Vec<u8>) -> (r: Fe)
    requires
        domain@.len() < 57,
    ensures
        r == hash_to_point_of(domain@, msg@),
{
    let p = pasta_curves::pallas::Point::hash_to_curve(domain)(msg.as_slice());
    let b: [u8; 32] = p.to_bytes();
    Fe {
        l0: u64::from_le_bytes(b[0..8].try_into().unwrap()),
        l1: u64::from_le_bytes(b[8..16].try_into().unwrap()),
        l2: u64::from_le_bytes(b[16..24].try_into().unwrap()),
        l3: u64::from_le_bytes(b[24..32].try_into().unwrap()),
    }
}

/// The hash of a sequence of elements under a domain.
pub open spec fn hash_fields_of(domain: Seq<char>, fields: Seq<Fe>) -> Fe {
    hash_to_point_of(domain, fields_bytes(fields))
}

/// Hashes a sequence of elements under a domain.
pub fn hash_fields(domain: &str, fields: &Vec<Fe>) -> (r: Fe)
    requires
        domain@.len() < 57,
    ensures
        r == hash_fields_of(domain@, fields@),
{
    hash_to_point(domain, &encode_fields(fields))
}

/// Whether `x` occurs in `v`.
pub fn contains_fe(v: &Vec<Fe>, x: Fe) -> (r: bool)
    ensures
        r == v@.contains(x),
{
    let mut i: usize = 0;
    while i < v.len()
        invariant
            i <= v.len(),
            forall|j: int| 0 <= j < i ==> v@[j] != x,
        decreases v.len() - i,
    {
        if v[i] == x {
            assert(v@[i as int] == x);
            return true;
        }
        i = i + 1;
    }
    false
}

/// No element of `ns` is in `spent`, and no two elements of `ns` are equal.
pub open spec fn all_fresh(spent: Seq<Fe>, ns: Seq<Fe>) -> bool {
    &&& forall|a: int| 0 <= a < ns.len() ==> !spent.contains(#[trigger] ns[a])
    &&& forall|a: int, b: int| 0 <= b < a < ns.len() ==> #[trigger] ns[b] != #[trigger] ns[a]
}

/// Whether `ns` holds new, distinct elements only.
pub fn check_fresh(spent: &Vec<Fe>, ns: &Vec<Fe>) -> (r: bool)
    ensures
        r == all_fresh(spent@, ns@),
{
    let mut i: usize = 0;
    while i < ns.len()
        invariant
            i <= ns.len(),
            forall|a: int| 0 <= a < i ==> !spent@.contains(#[trigger] ns@[a]),
            forall|a: int, b: int| 0 <= b < a < i ==> #[trigger] ns@[b] != #[trigger] ns@[a],
        decreases ns.len() - i,
    {
        let n = ns[i];
        if contains_fe(spent, n) {
            return false;
        }
        let mut j: usize = 0;
        while j < i
            invariant
                j <= i,
                i < ns.len(),
                n == ns@[i as int],
                forall|k: int| 0 <= k < j ==> #[trigger] ns@[k] != n,
            decreases i - j,
        {
            if ns[j] == n {
                assert(ns@[j as int] == ns@[i as int]);
                return false;
            }
            j = j + 1;
        }
        i = i + 1;
    }
    true
}

} // verus!
