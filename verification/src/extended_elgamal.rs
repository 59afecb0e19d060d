//! Encryption of a message block: the block is first encoded onto the curve,
//! and the point is then encrypted.

use crate::curve::{curve_rhs, valid_point, AffinePoint, Point};
use crate::elgamal::{
    decrypt, encrypt_with, public_key_of, spec_decrypt, spec_encrypt, well_formed, Ciphertext,
    CiphertextModel, DecryptionError,
};
use crate::encode::{encodable, encode, spec_encode, EncodingError};
use crate::field::{base_modulus, base_sqrt, field_add, field_sub, scalar_modulus, Base, Scalar};
use vstd::prelude::*;

verus! {

/// How often `extended_elgamal_encrypt` samples the encoding randomness
/// before it gives up. About every second sample encodes.
pub const MAX_ENCODE_ATTEMPTS: usize = 256;

/// What the sender publishes: the ciphertext and the encoding randomness.
#[derive(Clone, Copy, Debug, PartialEq, Eq)]
pub struct DataInTransmit {
    pub ct: Ciphertext,
    pub r_encode: Base,
}

/// What the sender keeps: the encryption randomness and the encoded point.
#[derive(Clone, Copy, Debug, PartialEq, Eq)]
pub struct ElGamalSecret {
    pub r_enc: Scalar,
    pub p_m: Point,
}

/// The point that encodes `m` with `r_encode`.
pub open spec fn encoded_point(m: nat, r_encode: nat) -> Option<AffinePoint> {
    spec_encode(m, r_encode, base_sqrt(curve_rhs(field_add(r_encode, m))))
}

/// Whether `ct` is what encrypting the message `m` under `pk` gives, with the
/// encoding randomness `r_encode`, the encoded point `p_m` and the encryption
/// randomness `r_enc`.
pub open spec fn encrypts(
    pk: AffinePoint,
    m: nat,
    r_encode: nat,
    p_m: AffinePoint,
    r_enc: nat,
    ct: CiphertextModel,
) -> bool {
    &&& valid_point(p_m)
    &&& r_enc < scalar_modulus()
    &&& encodable(m, r_encode)
    &&& Some(p_m) == encoded_point(m, r_encode)
    &&& ct == spec_encrypt(pk, p_m, r_enc)
}

/// Encrypts the message under `pk` with the given encoding and encryption
/// randomness. Fails exactly when the message does not encode with
/// `r_encode`.
pub fn extended_elgamal_encrypt_with(
    pk: &Point,
    message: &Base,
    r_encode: &Base,
    r_enc: &Scalar,
) -> (r: Result<(DataInTransmit, ElGamalSecret), EncodingError>)
    ensures
        r is Ok <==> encodable(message@, r_encode@),
        r matches Ok(out) ==> {
            &&& out.0.r_encode == *r_encode
            &&& out.1.r_enc == *r_enc
            &&& encrypts(pk@, message@, r_encode@, out.1.p_m@, r_enc@, out.0.ct@)
        },
        r matches Err(e) ==> e == EncodingError::NotOnCurve,
{
    match encode(message, r_encode) {
        Ok(p_m) => {
            proof {
                use_type_invariant(r_enc);
            }
            let ct = encrypt_with(pk, &p_m, r_enc);
            Ok((DataInTransmit { ct, r_encode: *r_encode }, ElGamalSecret { r_enc: *r_enc, p_m }))
        },
        Err(e) => Err(e),
    }
}

/// Whether `tried` is a full run of encoding randomness, none of which
/// encodes the message `m`.
pub open spec fn failed_attempts(m: nat, tried: Seq<nat>) -> bool {
    &&& tried.len() == MAX_ENCODE_ATTEMPTS
    &&& forall|i: int|
        0 <= i < tried.len() ==> tried[i] < base_modulus() && !encodable(m, #[trigger] tried[i])
}

/// Whether the message `m` encodes with every encoding randomness.
pub open spec fn always_encodable(m: nat) -> bool {
    forall|r_encode: nat| r_encode < base_modulus() ==> #[trigger] encodable(m, r_encode)
}

/// Encrypts the message under `pk` with fresh randomness. The encoding
/// randomness is sampled again until the message encodes, at most
/// `MAX_ENCODE_ATTEMPTS` times.
///
/// It gives up only after `MAX_ENCODE_ATTEMPTS` samples that did not encode
/// the message; a message that encodes with every randomness is encrypted.
pub fn extended_elgamal_encrypt(pk: &Point, message: &Base) -> (r: Result<
    (DataInTransmit, ElGamalSecret),
    EncodingError,
>)
    ensures
        r matches Ok(out) ==> encrypts(
            pk@,
            message@,
            out.0.r_encode@,
            out.1.p_m@,
            out.1.r_enc@,
            out.0.ct@,
        ),
        r matches Err(e) ==> e == EncodingError::NotOnCurve,
        r is Err ==> exists|tried: Seq<nat>| #[trigger] failed_attempts(message@, tried),
        always_encodable(message@) ==> r is Ok,
{
    let r_enc = Scalar::random();
    let mut attempt: usize = 0;
    let ghost mut tried: Seq<nat> = Seq::empty();
    while attempt < MAX_ENCODE_ATTEMPTS
        invariant
            attempt <= MAX_ENCODE_ATTEMPTS,
            tried.len() == attempt,
            forall|i: int|
                0 <= i < tried.len() ==> tried[i] < base_modulus() && !encodable(
                    message@,
                    #[trigger] tried[i],
                ),
        decreases MAX_ENCODE_ATTEMPTS - attempt,
    {
        let r_encode = Base::random();
        match extended_elgamal_encrypt_with(pk, message, &r_encode, &r_enc) {
            Ok(out) => {
                return Ok(out);
            },
            Err(_) => {},
        }
        proof {
            use_type_invariant(&r_encode);
            tried = tried.push(r_encode@);
        }
        attempt = attempt + 1;
    }
    proof {
        assert(failed_attempts(message@, tried));
        assert(!encodable(message@, tried[0]));
    }
    Err(EncodingError::NotOnCurve)
}

/// Decrypts a message block with the secret key `sk`: the first coordinate
/// of the decrypted point, less the encoding randomness.
///
/// Fails exactly when a component of the ciphertext is the identity. Of data
/// that was made by encrypting a message `m` under the public key of `sk`,
/// the result is `m`.
pub fn extended_elgamal_decrypt(sk: &Scalar, data: &DataInTransmit) -> (r: Result<
    Base,
    DecryptionError,
>)
    ensures
        r is Ok <==> well_formed(data.ct@),
        r matches Ok(m) ==> m@ == field_sub(spec_decrypt(sk@, data.ct@).x, data.r_encode@) && m.wf(),
        r matches Err(e) ==> e == DecryptionError::InvalidCiphertext,
        forall|m: nat, p_m: AffinePoint, r_enc: nat|
            m < base_modulus() && #[trigger] encrypts(
                public_key_of(sk@),
                m,
                data.r_encode@,
                p_m,
                r_enc,
                data.ct@,
            ) ==> (r matches Ok(out) ==> out@ == m),
{
    match decrypt(sk, &data.ct) {
        Ok(p) => {
            let m = p.x().sub(&data.r_encode);
            proof {
                use_type_invariant(&data.r_encode);
                assert forall|m0: nat, p_m: AffinePoint, r_enc: nat|
                    m0 < base_modulus() && #[trigger] encrypts(
                        public_key_of(sk@),
                        m0,
                        data.r_encode@,
                        p_m,
                        r_enc,
                        data.ct@,
                    ) implies m@ == m0 by {
                    assert(p@ == p_m);
                    assert(p_m.x == field_add(data.r_encode@, m0));
                }
            }
            Ok(m)
        },
        Err(e) => Err(e),
    }
}

} // verus!
