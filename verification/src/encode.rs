//! The map from a message and a public randomness onto a curve point.
//!
//! The point's first coordinate is `r_encode + m`; its second coordinate is a
//! square root of `x^3 + 5`. Not every `x` has one: the caller then samples
//! another `r_encode`.

use crate::curve::{curve_rhs, on_curve, AffinePoint, Point};
use crate::field::{base_sqrt, field_add, field_mul, is_square, Base};
use vstd::prelude::*;

verus! {

/// Why a message could not be encoded.
#[derive(Clone, Copy, Debug, PartialEq, Eq)]
pub enum EncodingError {
    /// No point of the curve has the first coordinate `r_encode + m`, or the
    /// only one has the second coordinate zero.
    NotOnCurve,
}

/// The encoding, given what the square root of `x^3 + 5` turned out to be.
pub open spec fn spec_encode(m: nat, r_encode: nat, root: Option<nat>) -> Option<AffinePoint> {
    match root {
        Some(y) => if y != 0 {
            Some(AffinePoint { x: field_add(r_encode, m), y })
        } else {
            None
        },
        None => None,
    }
}

/// Whether `m` can be encoded with `r_encode`.
pub open spec fn encodable(m: nat, r_encode: nat) -> bool {
    let rhs = curve_rhs(field_add(r_encode, m));
    is_square(rhs) && rhs != 0
}

/// The point with first coordinate `x` and second coordinate `root`, where
/// `root` is a nonzero square root of `x^3 + 5`.
pub fn point_from_root(x: Base, root: Option<Base>) -> (r: Result<Point, EncodingError>)
    ensures
        r is Ok <==> (root matches Some(y) && y@ != 0 && on_curve(AffinePoint { x: x@, y: y@ })),
        r matches Ok(p) ==> root matches Some(y) && p@ == (AffinePoint { x: x@, y: y@ }) && p.wf(),
        r matches Err(e) ==> e == EncodingError::NotOnCurve,
{
    match root {
        Some(y) => {
            if y.is_zero() {
                Err(EncodingError::NotOnCurve)
            } else {
                match Point::from_xy(x, y) {
                    Some(p) => Ok(p),
                    None => Err(EncodingError::NotOnCurve),
                }
            }
        },
        None => Err(EncodingError::NotOnCurve),
    }
}

/// Encodes the message `m` with the randomness `r_encode`.
///
/// Succeeds exactly when `x^3 + 5` is a nonzero square for `x = r_encode + m`.
/// The point is then on the curve, is not the identity, and has the first
/// coordinate `x`.
pub fn encode(m: &Base, r_encode: &Base) -> (r: Result<Point, EncodingError>)
    ensures
        r is Ok <==> encodable(m@, r_encode@),
        r matches Ok(p) ==> {
            &&& Some(p@) == spec_encode(
                m@,
                r_encode@,
                base_sqrt(curve_rhs(field_add(r_encode@, m@))),
            )
            &&& p@.x == field_add(r_encode@, m@)
            &&& p@.y != 0
            &&& on_curve(p@)
            &&& p.wf()
        },
        r matches Err(e) ==> e == EncodingError::NotOnCurve,
{
    let x = r_encode.add(m);
    let rhs = x.mul(&x).mul(&x).add(&Base::from_u64(5));
    let root = rhs.sqrt();
    point_from_root(x, root)
}

} // verus!
