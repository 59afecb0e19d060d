//! The Pallas curve group `y^2 = x^3 + 5` over the base field.
//!
//! A point is kept by its affine coordinates; the identity is the pair
//! `(0, 0)`, which is not on the curve. The group law itself is computed by
//! `pasta_curves`.

use crate::field::{base_modulus, field_add, field_mul, scalar_modulus, Base, Scalar};
use crate::limbs::{le_value, limbs_value};
use ff::PrimeField;
use group::prime::PrimeCurveAffine;
use group::Curve;
use pasta_curves::arithmetic::{Coordinates, CurveAffine};
use pasta_curves::{EpAffine, Fp, Fq};
use vstd::prelude::*;

verus! {

/// A pair of coordinates, as numbers.
pub struct AffinePoint {
    pub x: nat,
    pub y: nat,
}

/// The pair that stands for the identity of the group.
pub open spec fn identity_point() -> AffinePoint {
    AffinePoint { x: 0, y: 0 }
}

/// The fixed generator of the group, `(-1, 2)`.
pub open spec fn generator_point() -> AffinePoint {
    AffinePoint { x: (base_modulus() - 1) as nat, y: 2 }
}

/// The right-hand side of the curve equation, `x^3 + 5`.
pub open spec fn curve_rhs(x: nat) -> nat {
    field_add(field_mul(field_mul(x, x), x), 5)
}

/// Whether the pair satisfies the curve equation.
pub open spec fn on_curve(p: AffinePoint) -> bool {
    &&& p.x < base_modulus()
    &&& p.y < base_modulus()
    &&& field_mul(p.y, p.y) == curve_rhs(p.x)
}

/// Whether the pair is an element of the group.
pub open spec fn valid_point(p: AffinePoint) -> bool {
    p == identity_point() || on_curve(p)
}

/// The sum of two group elements.
pub uninterp spec fn curve_add(a: AffinePoint, b: AffinePoint) -> AffinePoint;

/// The difference of two group elements.
pub uninterp spec fn curve_sub(a: AffinePoint, b: AffinePoint) -> AffinePoint;

/// The multiple `[k] p` of a group element.
pub uninterp spec fn curve_mul(k: nat, p: AffinePoint) -> AffinePoint;

/// The pair that two canonical 32-byte encodings denote.
pub open spec fn repr_point(r: ([u8; 32], [u8; 32])) -> AffinePoint {
    AffinePoint { x: le_value(r.0@), y: le_value(r.1@) }
}

/// The pair that two limb arrays denote.
pub open spec fn limbs_point(x: [u64; 4], y: [u64; 4]) -> AffinePoint {
    AffinePoint { x: limbs_value(x), y: limbs_value(y) }
}

/// `EpAffine::generator` of `pasta_curves`: the point `(-1, 2)`.
#[verifier::external_body]
fn ep_generator() -> (r: ([u8; 32], [u8; 32]))
    ensures
        repr_point(r) == generator_point(),
{
    let c = EpAffine::generator().coordinates().unwrap_or(Coordinates::default());
    (c.x().to_repr(), c.y().to_repr())
}

/// `EpAffine + EpAffine` of `pasta_curves`, brought back to affine
/// coordinates: the sum in the group, which is again a group element.
#[verifier::external_body]
fn ep_add(ax: &[u64; 4], ay: &[u64; 4], bx: &[u64; 4], by: &[u64; 4]) -> (r: ([u8; 32], [u8; 32]))
    requires
        valid_point(limbs_point(*ax, *ay)),
        valid_point(limbs_point(*bx, *by)),
    ensures
        repr_point(r) == curve_add(limbs_point(*ax, *ay), limbs_point(*bx, *by)),
        valid_point(repr_point(r)),
{
    let a = EpAffine::from_xy(Fp::from_raw(*ax), Fp::from_raw(*ay)).unwrap();
    let b = EpAffine::from_xy(Fp::from_raw(*bx), Fp::from_raw(*by)).unwrap();
    let c = (a + b).to_affine().coordinates().unwrap_or(Coordinates::default());
    (c.x().to_repr(), c.y().to_repr())
}

/// `EpAffine - EpAffine` of `pasta_curves`, brought back to affine
/// coordinates: the difference in the group, which is again a group element.
/// Subtraction undoes addition: if the first argument is `c + b`, the result
/// is `c`.
#[verifier::external_body]
fn ep_sub(ax: &[u64; 4], ay: &[u64; 4], bx: &[u64; 4], by: &[u64; 4]) -> (r: ([u8; 32], [u8; 32]))
    requires
        valid_point(limbs_point(*ax, *ay)),
        valid_point(limbs_point(*bx, *by)),
    ensures
        repr_point(r) == curve_sub(limbs_point(*ax, *ay), limbs_point(*bx, *by)),
        valid_point(repr_point(r)),
        forall|c: AffinePoint|
            valid_point(c) && limbs_point(*ax, *ay) == #[trigger] curve_add(
                c,
                limbs_point(*bx, *by),
            ) ==> repr_point(r) == c,
{
    let a = EpAffine::from_xy(Fp::from_raw(*ax), Fp::from_raw(*ay)).unwrap();
    let b = EpAffine::from_xy(Fp::from_raw(*bx), Fp::from_raw(*by)).unwrap();
    let c = (a - b).to_affine().coordinates().unwrap_or(Coordinates::default());
    (c.x().to_repr(), c.y().to_repr())
}

/// `EpAffine * Fq` of `pasta_curves`, brought back to affine coordinates: the
/// multiple in the group, which is again a group element. Multiples commute:
/// if the point is itself `[j] b`, the result is `[j] ([k] b)`.
#[verifier::external_body]
fn ep_mul(k: &[u64; 4], px: &[u64; 4], py: &[u64; 4]) -> (r: ([u8; 32], [u8; 32]))
    requires
        limbs_value(*k) < scalar_modulus(),
        valid_point(limbs_point(*px, *py)),
    ensures
        repr_point(r) == curve_mul(limbs_value(*k), limbs_point(*px, *py)),
        valid_point(repr_point(r)),
        forall|j: nat, b: AffinePoint|
            j < scalar_modulus() && valid_point(b) && limbs_point(*px, *py) == #[trigger] curve_mul(
                j,
                b,
            ) ==> repr_point(r) == curve_mul(j, curve_mul(limbs_value(*k), b)),
{
    let p = EpAffine::from_xy(Fp::from_raw(*px), Fp::from_raw(*py)).unwrap();
    let c = (p * Fq::from_raw(*k)).to_affine().coordinates().unwrap_or(Coordinates::default());
    (c.x().to_repr(), c.y().to_repr())
}

/// The generator satisfies the curve equation.
pub proof fn lemma_generator_on_curve()
    ensures
        on_curve(generator_point()),
        generator_point() != identity_point(),
{
    let p = base_modulus();
    let x = (p - 1) as nat;
    assert(field_mul(x, x) == 1) by {
        assert(x * x == (p - 2) * p + 1) by (nonlinear_arith)
            requires
                x == p - 1,
                p >= 2,
        ;
        assert(((p - 2) * p + 1) % (p as int) == 1) by (nonlinear_arith)
            requires
                p >= 2,
        ;
    }
    assert(field_mul(1, x) == x);
    assert(field_add(x, 5) == 4);
    assert(field_mul(2, 2) == 4);
}

/// An element of the curve group.
#[derive(Clone, Copy, Debug, PartialEq, Eq)]
pub struct Point {
    pub(crate) x: Base,
    pub(crate) y: Base,
}

impl View for Point {
    type V = AffinePoint;

    closed spec fn view(&self) -> AffinePoint {
        AffinePoint { x: self.x@, y: self.y@ }
    }
}

impl Point {
    /// Every point is the identity or satisfies the curve equation.
    #[verifier::type_invariant]
    pub open spec fn wf(self) -> bool {
        valid_point(self@)
    }

    /// Whether the point is the identity.
    pub open spec fn spec_is_identity(&self) -> bool {
        self@ == identity_point()
    }

    /// The identity of the group.
    pub fn identity() -> (r: Point)
        ensures
            r@ == identity_point(),
            r.wf(),
    {
        Point { x: Base::zero(), y: Base::zero() }
    }

    /// The fixed generator of the group.
    pub fn generator() -> (r: Point)
        ensures
            r@ == generator_point(),
            r.wf(),
    {
        let c = ep_generator();
        proof {
            lemma_generator_on_curve();
        }
        Point { x: Base::from_repr(&c.0), y: Base::from_repr(&c.1) }
    }

    /// The point with the given coordinates, if there is one: the pair must
    /// satisfy the curve equation or be `(0, 0)`, which gives the identity.
    pub fn from_xy(x: Base, y: Base) -> (r: Option<Point>)
        ensures
            r is Some <==> valid_point(AffinePoint { x: x@, y: y@ }),
            r matches Some(p) ==> p@ == (AffinePoint { x: x@, y: y@ }) && p.wf(),
    {
        proof {
            use_type_invariant(&x);
            use_type_invariant(&y);
        }
        if x.is_zero() && y.is_zero() {
            return Some(Point { x, y });
        }
        let lhs = y.mul(&y);
        let rhs = x.mul(&x).mul(&x).add(&Base::from_u64(5));
        if lhs.equals(&rhs) {
            Some(Point { x, y })
        } else {
            None
        }
    }

    /// Whether the point is the identity.
    #[verifier::when_used_as_spec(spec_is_identity)]
    pub fn is_identity(&self) -> (r: bool)
        ensures
            r == self.spec_is_identity(),
    {
        self.x.is_zero() && self.y.is_zero()
    }

    /// The first coordinate; zero for the identity.
    pub fn x(&self) -> (r: Base)
        ensures
            r@ == self@.x,
            r.wf(),
    {
        proof {
            use_type_invariant(&self.x);
        }
        self.x
    }

    /// The second coordinate; zero for the identity.
    pub fn y(&self) -> (r: Base)
        ensures
            r@ == self@.y,
            r.wf(),
    {
        proof {
            use_type_invariant(&self.y);
        }
        self.y
    }

    /// Whether two points are equal.
    pub fn equals(&self, other: &Point) -> (r: bool)
        ensures
            r == (self@ == other@),
            r == (*self == *other),
    {
        self.x.equals(&other.x) && self.y.equals(&other.y)
    }

    /// The sum of two points.
    pub fn add(&self, other: &Point) -> (r: Point)
        ensures
            r@ == curve_add(self@, other@),
            r.wf(),
    {
        proof {
            use_type_invariant(self);
            use_type_invariant(other);
        }
        let c = ep_add(&self.x.limbs(), &self.y.limbs(), &other.x.limbs(), &other.y.limbs());
        Point { x: Base::from_repr(&c.0), y: Base::from_repr(&c.1) }
    }

    /// The difference of two points. Subtracting `other` from `c + other`
    /// gives `c` back.
    pub fn sub(&self, other: &Point) -> (r: Point)
        ensures
            r@ == curve_sub(self@, other@),
            r.wf(),
            forall|c: AffinePoint|
                valid_point(c) && self@ == #[trigger] curve_add(c, other@) ==> r@ == c,
    {
        proof {
            use_type_invariant(self);
            use_type_invariant(other);
        }
        let c = ep_sub(&self.x.limbs(), &self.y.limbs(), &other.x.limbs(), &other.y.limbs());
        Point { x: Base::from_repr(&c.0), y: Base::from_repr(&c.1) }
    }

    /// The multiple `[k] self`. Where the point is itself a multiple `[j] b`,
    /// the result is `[j] ([k] b)`.
    pub fn mul(&self, k: &Scalar) -> (r: Point)
        ensures
            r@ == curve_mul(k@, self@),
            r.wf(),
            forall|j: nat, b: AffinePoint|
                j < scalar_modulus() && valid_point(b) && self@ == #[trigger] curve_mul(j, b)
                    ==> r@ == curve_mul(j, curve_mul(k@, b)),
    {
        proof {
            use_type_invariant(self);
        }
        let c = ep_mul(&k.limbs(), &self.x.limbs(), &self.y.limbs());
        Point { x: Base::from_repr(&c.0), y: Base::from_repr(&c.1) }
    }
}

} // verus!
