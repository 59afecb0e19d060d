//! ElGamal encryption of curve points.
//!
//! A ciphertext of the point `m` under the public key `pk = [sk] G` is the
//! pair `c1 = [r] G`, `c2 = m + [r] pk`. Decryption computes `c2 - [sk] c1`.

use crate::curve::{
    curve_add, curve_mul, curve_sub, generator_point, identity_point, lemma_generator_on_curve,
    valid_point, AffinePoint, Point,
};
use crate::field::{scalar_modulus, Scalar};
use vstd::prelude::*;

verus! {

/// A ciphertext, as a pair of coordinate pairs.
pub struct CiphertextModel {
    pub c1: AffinePoint,
    pub c2: AffinePoint,
}

/// The public key that belongs to a secret key.
pub open spec fn public_key_of(sk: nat) -> AffinePoint {
    curve_mul(sk, generator_point())
}

/// The ciphertext of `m` under `pk` with the randomness `r`.
pub open spec fn spec_encrypt(pk: AffinePoint, m: AffinePoint, r: nat) -> CiphertextModel {
    CiphertextModel { c1: curve_mul(r, generator_point()), c2: curve_add(m, curve_mul(r, pk)) }
}

/// What decryption with `sk` makes of a ciphertext.
pub open spec fn spec_decrypt(sk: nat, ct: CiphertextModel) -> AffinePoint {
    curve_sub(ct.c2, curve_mul(sk, ct.c1))
}

/// Whether neither component of the ciphertext is the identity.
pub open spec fn well_formed(ct: CiphertextModel) -> bool {
    ct.c1 != identity_point() && ct.c2 != identity_point()
}

/// A ciphertext.
#[derive(Clone, Copy, Debug, PartialEq, Eq)]
pub struct Ciphertext {
    pub c1: Point,
    pub c2: Point,
}

impl View for Ciphertext {
    type V = CiphertextModel;

    open spec fn view(&self) -> CiphertextModel {
        CiphertextModel { c1: self.c1@, c2: self.c2@ }
    }
}

/// Why a ciphertext could not be decrypted.
#[derive(Clone, Copy, Debug, PartialEq, Eq)]
pub enum DecryptionError {
    /// A component of the ciphertext is the identity.
    InvalidCiphertext,
}

/// A secret key with its public key.
#[derive(Clone, Copy, Debug, PartialEq, Eq)]
pub struct ElGamalKeypair {
    private_key: Scalar,
    public_key: Point,
}

impl ElGamalKeypair {
    /// The public key is the generator times the secret key.
    #[verifier::type_invariant]
    pub closed spec fn wf(self) -> bool {
        self.public_key@ == public_key_of(self.private_key@)
    }

    /// The secret key, as a number.
    pub closed spec fn spec_private_key(self) -> nat {
        self.private_key@
    }

    /// The public key, as a coordinate pair.
    pub closed spec fn spec_public_key(self) -> AffinePoint {
        self.public_key@
    }

    /// A fresh keypair, its secret key taken from the operating system's
    /// generator.
    pub fn new() -> (r: ElGamalKeypair)
        ensures
            r.spec_public_key() == public_key_of(r.spec_private_key()),
    {
        ElGamalKeypair::from_private_key(Scalar::random())
    }

    /// The keypair of a given secret key.
    pub fn from_private_key(private_key: Scalar) -> (r: ElGamalKeypair)
        ensures
            r.spec_private_key() == private_key@,
            r.spec_public_key() == public_key_of(private_key@),
    {
        let public_key = Point::generator().mul(&private_key);
        ElGamalKeypair { private_key, public_key }
    }

    /// The secret key.
    pub fn private_key(&self) -> (r: Scalar)
        ensures
            r@ == self.spec_private_key(),
            r.wf(),
    {
        proof {
            use_type_invariant(&self.private_key);
        }
        self.private_key
    }

    /// The public key.
    pub fn public_key(&self) -> (r: Point)
        ensures
            r@ == self.spec_public_key(),
            r@ == public_key_of(self.spec_private_key()),
            r.wf(),
    {
        proof {
            use_type_invariant(self);
            use_type_invariant(&self.public_key);
        }
        self.public_key
    }
}

/// Encrypts the point `m` under `pk` with the randomness `r`.
pub fn encrypt_with(pk: &Point, m: &Point, r: &Scalar) -> (ct: Ciphertext)
    ensures
        ct@ == spec_encrypt(pk@, m@, r@),
{
    let c1 = Point::generator().mul(r);
    let c2 = m.add(&pk.mul(r));
    Ciphertext { c1, c2 }
}

/// Encrypts the point `m` under `pk` with fresh randomness, and hands the
/// randomness back.
pub fn encrypt(pk: &Point, m: &Point) -> (out: (Ciphertext, Scalar))
    ensures
        out.0@ == spec_encrypt(pk@, m@, out.1@),
        out.1.wf(),
{
    let r = Scalar::random();
    (encrypt_with(pk, m, &r), r)
}

/// Decrypts a ciphertext with the secret key `sk`.
///
/// Fails exactly when a component of the ciphertext is the identity. Of a
/// ciphertext that was made by encrypting a point `m` under the public key of
/// `sk`, the result is `m`.
pub fn decrypt(sk: &Scalar, ct: &Ciphertext) -> (r: Result<Point, DecryptionError>)
    ensures
        r is Ok <==> well_formed(ct@),
        r matches Ok(p) ==> p@ == spec_decrypt(sk@, ct@) && p.wf(),
        r matches Err(e) ==> e == DecryptionError::InvalidCiphertext,
        forall|m: AffinePoint, k: nat|
            valid_point(m) && k < scalar_modulus() && ct@ == #[trigger] spec_encrypt(
                public_key_of(sk@),
                m,
                k,
            ) ==> (r matches Ok(p) ==> p@ == m),
{
    if ct.c1.is_identity() || ct.c2.is_identity() {
        return Err(DecryptionError::InvalidCiphertext);
    }
    let shared = ct.c1.mul(sk);
    let p = ct.c2.sub(&shared);
    proof {
        lemma_generator_on_curve();
        assert forall|m: AffinePoint, k: nat|
            valid_point(m) && k < scalar_modulus() && ct@ == #[trigger] spec_encrypt(
                public_key_of(sk@),
                m,
                k,
            ) implies p@ == m by {
            let g = generator_point();
            assert(ct.c1@ == curve_mul(k, g));
            assert(shared@ == curve_mul(k, curve_mul(sk@, g)));
            assert(ct.c2@ == curve_add(m, shared@));
        }
    }
    Ok(p)
}

} // verus!
