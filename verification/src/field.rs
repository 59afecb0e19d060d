//! The two prime fields of the Pallas curve: the base field, which holds point
//! coordinates, messages and public inputs, and the scalar field, which holds
//! secret keys and encryption randomness.
//!
//! Elements are kept as canonical little-endian limbs. The arithmetic itself is
//! done by `pasta_curves`.

use crate::limbs::{
    le_value, limbs_eq, limbs_from_le_bytes, limbs_lt, limbs_to_le_bytes, limbs_value,
};
use ff::{Field, PrimeField};
use pasta_curves::{Fp, Fq};
use rand::rngs::OsRng;
use vstd::prelude::*;

verus! {

pub const BASE_MODULUS_0: u64 = 0x992d30ed00000001;

pub const BASE_MODULUS_1: u64 = 0x224698fc094cf91b;

pub const BASE_MODULUS_2: u64 = 0;

pub const BASE_MODULUS_3: u64 = 0x4000000000000000;

pub const SCALAR_MODULUS_0: u64 = 0x8c46eb2100000001;

pub const SCALAR_MODULUS_1: u64 = 0x224698fc0994a8dd;

pub const SCALAR_MODULUS_2: u64 = 0;

pub const SCALAR_MODULUS_3: u64 = 0x4000000000000000;

/// The order of the base field.
pub open spec fn base_modulus() -> nat {
    0x40000000000000000000000000000000224698fc094cf91b992d30ed00000001nat
}

/// The order of the scalar field, which is the order of the curve group.
pub open spec fn scalar_modulus() -> nat {
    0x40000000000000000000000000000000224698fc0994a8dd8c46eb2100000001nat
}

/// Sum in the base field.
pub open spec fn field_add(a: nat, b: nat) -> nat {
    (a + b) % base_modulus()
}

/// Difference in the base field.
pub open spec fn field_sub(a: nat, b: nat) -> nat {
    ((a - b) % (base_modulus() as int)) as nat
}

/// Product in the base field.
pub open spec fn field_mul(a: nat, b: nat) -> nat {
    (a * b) % base_modulus()
}

/// Whether `x` is the square of some element of the base field.
pub open spec fn is_square(x: nat) -> bool {
    exists|z: nat| z < base_modulus() && #[trigger] field_mul(z, z) == x
}

/// The square root that the base field's `sqrt` returns for `x`. Which of the
/// two roots of a nonzero square it is, is left open.
pub uninterp spec fn base_sqrt(x: nat) -> Option<nat>;

/// `Fp + Fp` of `pasta_curves`: the sum modulo the base field's order, as the
/// canonical 32-byte encoding.
#[verifier::external_body]
fn fp_add(a: &[u64; 4], b: &[u64; 4]) -> (r: [u8; 32])
    requires
        limbs_value(*a) < base_modulus(),
        limbs_value(*b) < base_modulus(),
    ensures
        le_value(r@) == field_add(limbs_value(*a), limbs_value(*b)),
{
    (Fp::from_raw(*a) + Fp::from_raw(*b)).to_repr()
}

/// `Fp - Fp` of `pasta_curves`: the difference modulo the base field's order,
/// as the canonical 32-byte encoding.
#[verifier::external_body]
fn fp_sub(a: &[u64; 4], b: &[u64; 4]) -> (r: [u8; 32])
    requires
        limbs_value(*a) < base_modulus(),
        limbs_value(*b) < base_modulus(),
    ensures
        le_value(r@) == field_sub(limbs_value(*a), limbs_value(*b)),
{
    (Fp::from_raw(*a) - Fp::from_raw(*b)).to_repr()
}

/// `Fp * Fp` of `pasta_curves`: the product modulo the base field's order, as
/// the canonical 32-byte encoding.
#[verifier::external_body]
fn fp_mul(a: &[u64; 4], b: &[u64; 4]) -> (r: [u8; 32])
    requires
        limbs_value(*a) < base_modulus(),
        limbs_value(*b) < base_modulus(),
    ensures
        le_value(r@) == field_mul(limbs_value(*a), limbs_value(*b)),
{
    (Fp::from_raw(*a) * Fp::from_raw(*b)).to_repr()
}

/// `Fp::sqrt` of `pasta_curves`: a canonical root whose square is the
/// argument, or nothing when the argument has no root in the field. The root
/// of zero is zero.
#[verifier::external_body]
fn fp_sqrt(a: &[u64; 4]) -> (r: Option<[u8; 32]>)
    requires
        limbs_value(*a) < base_modulus(),
    ensures
        match r {
            Some(y) => {
                &&& base_sqrt(limbs_value(*a)) == Some(le_value(y@))
                &&& le_value(y@) < base_modulus()
                &&& field_mul(le_value(y@), le_value(y@)) == limbs_value(*a)
                &&& limbs_value(*a) == 0 ==> le_value(y@) == 0
            },
            None => {
                &&& base_sqrt(limbs_value(*a)) is None
                &&& !is_square(limbs_value(*a))
            },
        },
{
    let root: Option<Fp> = Fp::from_raw(*a).sqrt().into();
    match root {
        Some(y) => Some(y.to_repr()),
        None => None,
    }
}

/// `Fp::random` of `pasta_curves` on the operating system's generator: the
/// canonical 32-byte encoding of some element of the base field.
#[verifier::external_body]
fn fp_random() -> (r: [u8; 32])
    ensures
        le_value(r@) < base_modulus(),
{
    Fp::random(OsRng).to_repr()
}

/// `Fq::random` of `pasta_curves` on the operating system's generator: the
/// canonical 32-byte encoding of some element of the scalar field.
#[verifier::external_body]
fn fq_random() -> (r: [u8; 32])
    ensures
        le_value(r@) < scalar_modulus(),
{
    Fq::random(OsRng).to_repr()
}

/// An element of the base field.
#[derive(Clone, Copy, Debug, PartialEq, Eq)]
pub struct Base {
    pub(crate) limbs: [u64; 4],
}

impl View for Base {
    type V = nat;

    closed spec fn view(&self) -> nat {
        limbs_value(self.limbs)
    }
}

impl Base {
    /// Every element is below the field's order.
    #[verifier::type_invariant]
    pub open spec fn wf(self) -> bool {
        self@ < base_modulus()
    }

    /// The element's canonical limbs.
    pub fn limbs(&self) -> (l: [u64; 4])
        ensures
            limbs_value(l) == self@,
            self.wf(),
    {
        proof {
            use_type_invariant(self);
        }
        self.limbs
    }

    /// The element with the given canonical limbs, if they are canonical.
    pub fn from_limbs(limbs: [u64; 4]) -> (r: Option<Base>)
        ensures
            r is Some <==> limbs_value(limbs) < base_modulus(),
            r matches Some(b) ==> b@ == limbs_value(limbs) && b.wf(),
    {
        let modulus: [u64; 4] = [BASE_MODULUS_0, BASE_MODULUS_1, BASE_MODULUS_2, BASE_MODULUS_3];
        if limbs_lt(&limbs, &modulus) {
            Some(Base { limbs })
        } else {
            None
        }
    }

    /// The element that at most 32 little-endian bytes denote, if that number
    /// is below the field's order. More than 32 bytes denote no element.
    pub fn from_le_bytes(bytes: &[u8]) -> (r: Option<Base>)
        ensures
            r is Some <==> bytes.len() <= 32 && le_value(bytes@) < base_modulus(),
            r matches Some(b) ==> b@ == le_value(bytes@) && b.wf(),
    {
        if bytes.len() > 32 {
            None
        } else {
            Base::from_limbs(limbs_from_le_bytes(bytes))
        }
    }

    /// The element with the given canonical 32-byte encoding.
    pub(crate) fn from_repr(repr: &[u8; 32]) -> (r: Base)
        requires
            le_value(repr@) < base_modulus(),
        ensures
            r@ == le_value(repr@),
            r.wf(),
    {
        Base { limbs: limbs_from_le_bytes(repr) }
    }

    /// The element's canonical encoding: 32 bytes, least significant first.
    pub fn to_repr(&self) -> (repr: [u8; 32])
        ensures
            le_value(repr@) == self@,
    {
        limbs_to_le_bytes(&self.limbs)
    }

    /// The element that a small integer denotes.
    pub fn from_u64(v: u64) -> (r: Base)
        ensures
            r@ == v,
            r.wf(),
    {
        Base { limbs: [v, 0, 0, 0] }
    }

    /// A fresh element from the operating system's generator.
    pub fn random() -> (r: Base)
        ensures
            r.wf(),
    {
        let repr: [u8; 32] = fp_random();
        Base::from_repr(&repr)
    }

    /// Zero.
    pub fn zero() -> (r: Base)
        ensures
            r@ == 0,
            r.wf(),
    {
        Base::from_u64(0)
    }

    /// Whether the element is zero.
    pub fn is_zero(&self) -> (r: bool)
        ensures
            r == (self@ == 0),
    {
        self.limbs[0] == 0 && self.limbs[1] == 0 && self.limbs[2] == 0 && self.limbs[3] == 0
    }

    /// Whether two elements are equal.
    pub fn equals(&self, other: &Base) -> (r: bool)
        ensures
            r == (self@ == other@),
            r == (*self == *other),
    {
        limbs_eq(&self.limbs, &other.limbs)
    }

    /// The sum of two elements.
    pub fn add(&self, other: &Base) -> (r: Base)
        ensures
            r@ == field_add(self@, other@),
            r.wf(),
    {
        proof {
            use_type_invariant(self);
            use_type_invariant(other);
        }
        let repr: [u8; 32] = fp_add(&self.limbs, &other.limbs);
        Base::from_repr(&repr)
    }

    /// The difference of two elements.
    pub fn sub(&self, other: &Base) -> (r: Base)
        ensures
            r@ == field_sub(self@, other@),
            r.wf(),
    {
        proof {
            use_type_invariant(self);
            use_type_invariant(other);
        }
        let repr: [u8; 32] = fp_sub(&self.limbs, &other.limbs);
        Base::from_repr(&repr)
    }

    /// The product of two elements.
    pub fn mul(&self, other: &Base) -> (r: Base)
        ensures
            r@ == field_mul(self@, other@),
            r.wf(),
    {
        proof {
            use_type_invariant(self);
            use_type_invariant(other);
        }
        let repr: [u8; 32] = fp_mul(&self.limbs, &other.limbs);
        Base::from_repr(&repr)
    }

    /// A square root of the element, if it has one. The root of zero is zero.
    pub fn sqrt(&self) -> (r: Option<Base>)
        ensures
            r is Some <==> is_square(self@),
            r matches Some(y) ==> {
                &&& field_mul(y@, y@) == self@
                &&& base_sqrt(self@) == Some(y@)
                &&& y@ == 0 <==> self@ == 0
                &&& y.wf()
            },
            r is None ==> base_sqrt(self@) is None,
    {
        proof {
            use_type_invariant(self);
        }
        match fp_sqrt(&self.limbs) {
            Some(repr) => {
                let y = Base::from_repr(&repr);
                assert(is_square(self@)) by {
                    assert(y@ < base_modulus() && field_mul(y@, y@) == self@);
                }
                Some(y)
            },
            None => None,
        }
    }
}

/// An element of the scalar field: a multiplier of curve points.
#[derive(Clone, Copy, Debug, PartialEq, Eq)]
pub struct Scalar {
    pub(crate) limbs: [u64; 4],
}

impl View for Scalar {
    type V = nat;

    closed spec fn view(&self) -> nat {
        limbs_value(self.limbs)
    }
}

impl Scalar {
    /// Every element is below the field's order.
    #[verifier::type_invariant]
    pub open spec fn wf(self) -> bool {
        self@ < scalar_modulus()
    }

    /// The element's canonical limbs.
    pub fn limbs(&self) -> (l: [u64; 4])
        ensures
            limbs_value(l) == self@,
            self.wf(),
    {
        proof {
            use_type_invariant(self);
        }
        self.limbs
    }

    /// The element with the given canonical limbs, if they are canonical.
    pub fn from_limbs(limbs: [u64; 4]) -> (r: Option<Scalar>)
        ensures
            r is Some <==> limbs_value(limbs) < scalar_modulus(),
            r matches Some(k) ==> k@ == limbs_value(limbs) && k.wf(),
    {
        let modulus: [u64; 4] = [
            SCALAR_MODULUS_0,
            SCALAR_MODULUS_1,
            SCALAR_MODULUS_2,
            SCALAR_MODULUS_3,
        ];
        if limbs_lt(&limbs, &modulus) {
            Some(Scalar { limbs })
        } else {
            None
        }
    }

    /// The element that a small integer denotes.
    pub fn from_u64(v: u64) -> (r: Scalar)
        ensures
            r@ == v,
            r.wf(),
    {
        Scalar { limbs: [v, 0, 0, 0] }
    }

    /// A fresh element from the operating system's generator.
    pub fn random() -> (r: Scalar)
        ensures
            r.wf(),
    {
        let repr: [u8; 32] = fq_random();
        Scalar { limbs: limbs_from_le_bytes(&repr) }
    }

    /// The base field element of the same value. Every base field element is
    /// also a scalar, since the base field's order is the smaller one.
    pub fn from_base(b: &Base) -> (r: Scalar)
        ensures
            r@ == b@,
            r.wf(),
    {
        Scalar { limbs: b.limbs() }
    }

    /// The base field element of the same value, if the value is below the
    /// base field's order.
    pub fn to_base(&self) -> (r: Option<Base>)
        ensures
            r is Some <==> self@ < base_modulus(),
            r matches Some(b) ==> b@ == self@ && b.wf(),
    {
        Base::from_limbs(self.limbs)
    }

    /// Whether two elements are equal.
    pub fn equals(&self, other: &Scalar) -> (r: bool)
        ensures
            r == (self@ == other@),
            r == (*self == *other),
    {
        limbs_eq(&self.limbs, &other.limbs)
    }
}

} // verus!
