//! What a proof states, and the honest prover's side of it: the circuit of a
//! message block, built so that the relation holds.

use crate::circuit::MyCircuit;
use crate::curve::{identity_point, on_curve, AffinePoint};
use crate::elgamal::{spec_encrypt, well_formed, CiphertextModel, ElGamalKeypair};
use crate::encode::encodable;
use crate::extended_elgamal::{
    encoded_point, encrypts, extended_elgamal_decrypt, extended_elgamal_encrypt,
    extended_elgamal_encrypt_with, DataInTransmit, ElGamalSecret,
};
use crate::field::{base_modulus, field_add, Base, Scalar};
use crate::instance::spec_instance;
use crate::relation::{
    accepts, lemma_program_is_relation, relation_holds, relation_program, Assignment,
};
use vstd::prelude::*;

verus! {

/// What a proof for the ciphertext `ct` under the key `pk` states of the
/// secret values: `p_m` is a point of the curve whose first coordinate is
/// `r_encode + m`, and `ct` is the encryption of `p_m` under `pk` with the
/// randomness `r_enc`.
pub open spec fn statement(a: Assignment, ct: CiphertextModel) -> bool {
    &&& on_curve(a.pk)
    &&& on_curve(a.p_m)
    &&& a.p_m.x == field_add(a.r_encode, a.m)
    &&& ct == spec_encrypt(a.pk, a.p_m, a.r_enc)
}

/// Against the public inputs of a ciphertext and a key, the relation of the
/// circuit holds exactly when the statement is true.
pub proof fn lemma_relation_is_statement(a: Assignment, ct: CiphertextModel)
    requires
        a.m < base_modulus(),
        a.r_encode < base_modulus(),
    ensures
        relation_holds(a, spec_instance(ct, a.pk)) <==> statement(a, ct),
{
    let instance = spec_instance(ct, a.pk);
    assert(instance.len() == 7);
    assert(a.pk == AffinePoint { x: instance[5], y: instance[6] });
    assert(ct.c1 == AffinePoint { x: instance[1], y: instance[2] });
    assert(ct.c2 == AffinePoint { x: instance[3], y: instance[4] });
}

/// The values of an honest sender satisfy the circuit against the public
/// inputs of their ciphertext: whatever the message, the randomness and the
/// key, every gate is satisfied, so that a proof can be made.
pub proof fn lemma_honest_values_satisfy(
    column: usize,
    pk: AffinePoint,
    m: nat,
    r_encode: nat,
    p_m: AffinePoint,
    r_enc: nat,
    ct: CiphertextModel,
)
    requires
        m < base_modulus(),
        r_encode < base_modulus(),
        on_curve(pk),
        encrypts(pk, m, r_encode, p_m, r_enc, ct),
    ensures
        relation_holds(Assignment { m, r_encode, r_enc, p_m, pk }, spec_instance(ct, pk)),
        accepts(
            relation_program(column),
            Assignment { m, r_encode, r_enc, p_m, pk },
            spec_instance(ct, pk),
        ),
{
    let a = Assignment { m, r_encode, r_enc, p_m, pk };
    lemma_relation_is_statement(a, ct);
    lemma_program_is_relation(column, a, spec_instance(ct, pk));
}

/// Why the circuit of a message could not be built.
#[derive(Clone, Copy, Debug, PartialEq, Eq)]
pub enum CircuitBuildError {
    /// The public key is the identity.
    InvalidPublicKey,
    /// The message did not encode with the randomness tried.
    NotOnCurve,
    /// A component of the ciphertext is the identity.
    InvalidCiphertext,
    /// The encryption randomness is not below the base field's order, so the
    /// circuit cannot hold it.
    RandomnessOutOfRange,
}

/// Whether the circuit is that of an honest sender of the message `m` under
/// the key `pk`.
pub open spec fn honest_circuit(circuit: MyCircuit, pk: AffinePoint, m: nat) -> bool {
    let a = circuit.assignment();
    &&& circuit.has_witness()
    &&& a.m == m
    &&& a.pk == pk
    &&& on_curve(pk)
    &&& well_formed(circuit.ct.ct@)
    &&& encrypts(pk, m, a.r_encode, a.p_m, a.r_enc, circuit.ct.ct@)
    &&& relation_holds(a, spec_instance(circuit.ct.ct@, pk))
}

/// Why building the circuit fails, if it does: the first of the four reasons
/// that applies.
pub open spec fn build_failure(pk: AffinePoint, m: nat, r_encode: nat, r_enc: nat) -> Option<
    CircuitBuildError,
> {
    if pk == identity_point() {
        Some(CircuitBuildError::InvalidPublicKey)
    } else if !encodable(m, r_encode) {
        Some(CircuitBuildError::NotOnCurve)
    } else if !well_formed(spec_encrypt(pk, encoded_point(m, r_encode)->0, r_enc)) {
        Some(CircuitBuildError::InvalidCiphertext)
    } else if r_enc >= base_modulus() {
        Some(CircuitBuildError::RandomnessOutOfRange)
    } else {
        None
    }
}

/// Builds the circuit of a message under the keypair's public key, with the
/// given encoding and encryption randomness. The circuit's values satisfy the
/// relation against the public inputs of its ciphertext.
pub fn create_circuit_with(
    message: &Base,
    keypair: &ElGamalKeypair,
    r_encode: &Base,
    r_enc: &Scalar,
) -> (r: Result<MyCircuit, CircuitBuildError>)
    ensures
        match r {
            Ok(circuit) => {
                &&& build_failure(keypair.spec_public_key(), message@, r_encode@, r_enc@) is None
                &&& honest_circuit(circuit, keypair.spec_public_key(), message@)
                &&& circuit.ct.r_encode == *r_encode
                &&& circuit.r_enc->0@ == r_enc@
            },
            Err(e) => build_failure(keypair.spec_public_key(), message@, r_encode@, r_enc@)
                == Some(e),
        },
{
    let pk = keypair.public_key();
    if pk.is_identity() {
        return Err(CircuitBuildError::InvalidPublicKey);
    }
    let (data_in_transmit, elgamal_secret) = match extended_elgamal_encrypt_with(
        &pk,
        message,
        r_encode,
        r_enc,
    ) {
        Ok(out) => out,
        Err(_) => {
            return Err(CircuitBuildError::NotOnCurve);
        },
    };
    finish_circuit(message, keypair, data_in_transmit, elgamal_secret)
}

/// Builds the circuit of a message under the keypair's public key, with
/// fresh randomness. The circuit's values satisfy the relation against the
/// public inputs of its ciphertext.
pub fn create_circuit(message: &Base, keypair: &ElGamalKeypair) -> (r: Result<
    MyCircuit,
    CircuitBuildError,
>)
    ensures
        r matches Ok(circuit) ==> honest_circuit(circuit, keypair.spec_public_key(), message@),
        r == Err::<MyCircuit, CircuitBuildError>(CircuitBuildError::InvalidPublicKey)
            <==> keypair.spec_public_key() == identity_point(),
{
    let pk = keypair.public_key();
    if pk.is_identity() {
        return Err(CircuitBuildError::InvalidPublicKey);
    }
    let (data_in_transmit, elgamal_secret) = match extended_elgamal_encrypt(&pk, message) {
        Ok(out) => out,
        Err(_) => {
            return Err(CircuitBuildError::NotOnCurve);
        },
    };
    finish_circuit(message, keypair, data_in_transmit, elgamal_secret)
}

/// Checks what was encrypted and puts the circuit together.
fn finish_circuit(
    message: &Base,
    keypair: &ElGamalKeypair,
    data_in_transmit: DataInTransmit,
    elgamal_secret: ElGamalSecret,
) -> (r: Result<MyCircuit, CircuitBuildError>)
    requires
        keypair.spec_public_key() != identity_point(),
        encrypts(
            keypair.spec_public_key(),
            message@,
            data_in_transmit.r_encode@,
            elgamal_secret.p_m@,
            elgamal_secret.r_enc@,
            data_in_transmit.ct@,
        ),
    ensures
        r matches Ok(circuit) ==> {
            &&& honest_circuit(circuit, keypair.spec_public_key(), message@)
            &&& circuit.ct == data_in_transmit
            &&& circuit.r_enc->0@ == elgamal_secret.r_enc@
        },
        r == Err::<MyCircuit, CircuitBuildError>(CircuitBuildError::InvalidCiphertext)
            <==> !well_formed(data_in_transmit.ct@),
        r == Err::<MyCircuit, CircuitBuildError>(CircuitBuildError::RandomnessOutOfRange) <==> {
            &&& well_formed(data_in_transmit.ct@)
            &&& elgamal_secret.r_enc@ >= base_modulus()
        },
        r matches Err(e) ==> e == CircuitBuildError::InvalidCiphertext || e
            == CircuitBuildError::RandomnessOutOfRange,
{
    let pk = keypair.public_key();
    let sk = keypair.private_key();
    proof {
        use_type_invariant(message);
        use_type_invariant(&data_in_transmit.r_encode);
        use_type_invariant(&pk);
    }
    // Decryption gives the message back, or refuses the ciphertext.
    let decrypted_message = match extended_elgamal_decrypt(&sk, &data_in_transmit) {
        Ok(m) => m,
        Err(_) => {
            return Err(CircuitBuildError::InvalidCiphertext);
        },
    };
    assert(decrypted_message@ == message@);
    let r_enc = match elgamal_secret.r_enc.to_base() {
        Some(r) => r,
        None => {
            return Err(CircuitBuildError::RandomnessOutOfRange);
        },
    };
    let circuit = MyCircuit {
        ct: data_in_transmit,
        elgamal_public_key: pk,
        m: Some(*message),
        p_m: Some(elgamal_secret.p_m),
        r_enc: Some(r_enc),
    };
    proof {
        lemma_honest_values_satisfy(
            0,
            pk@,
            message@,
            data_in_transmit.r_encode@,
            elgamal_secret.p_m@,
            elgamal_secret.r_enc@,
            data_in_transmit.ct@,
        );
    }
    Ok(circuit)
}

} // verus!
