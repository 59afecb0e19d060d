use verifiable_encryption::circuit::{CircuitError, Config, MyCircuit, K};
use verifiable_encryption::curve::Point;
use verifiable_encryption::elgamal::ElGamalKeypair;
use verifiable_encryption::field::{Base, Scalar};
use verifiable_encryption::instance::{InstanceSlot, MyInstance, INSTANCE_LEN};
use verifiable_encryption::relation::{Instruction, PointInput, ScalarInput};
use verifiable_encryption::statement::{create_circuit, create_circuit_with, CircuitBuildError};

fn honest_circuit() -> MyCircuit {
    let keypair = ElGamalKeypair::from_private_key(Scalar::from_u64(1001));
    create_circuit_with(
        &Base::from_u64(42),
        &keypair,
        &Base::from_u64(2),
        &Scalar::from_u64(77),
    )
    .unwrap()
}

fn instance_of(circuit: &MyCircuit) -> [Base; 7] {
    let instance = MyInstance {
        ct: circuit.ct,
        elgamal_public_key: circuit.elgamal_public_key,
    };
    assert!(instance.check_coordinates());
    instance.to_halo2_instance()[0]
}

#[test]
fn instance_slots_are_in_their_order() {
    let slots = [
        InstanceSlot::Zero,
        InstanceSlot::Ct1X,
        InstanceSlot::Ct1Y,
        InstanceSlot::Ct2X,
        InstanceSlot::Ct2Y,
        InstanceSlot::PkX,
        InstanceSlot::PkY,
    ];
    assert_eq!(INSTANCE_LEN, 7);
    for (i, slot) in slots.iter().enumerate() {
        assert_eq!(slot.index(), i);
        assert_eq!(InstanceSlot::from_index(i), Some(*slot));
    }
    assert_eq!(InstanceSlot::from_index(7), None);
}

#[test]
fn instance_holds_zero_then_the_coordinates() {
    let circuit = honest_circuit();
    let instance = instance_of(&circuit);
    assert_eq!(instance[0], Base::zero());
    assert_eq!(instance[1], circuit.ct.ct.c1.x());
    assert_eq!(instance[2], circuit.ct.ct.c1.y());
    assert_eq!(instance[3], circuit.ct.ct.c2.x());
    assert_eq!(instance[4], circuit.ct.ct.c2.y());
    assert_eq!(instance[5], circuit.elgamal_public_key.x());
    assert_eq!(instance[6], circuit.elgamal_public_key.y());
    assert_eq!(circuit.ct.ct.c1, Point::generator().mul(&Scalar::from_u64(77)));
    assert_eq!(
        circuit.elgamal_public_key,
        Point::generator().mul(&Scalar::from_u64(1001))
    );
}

#[test]
fn instance_matches_only_its_own_values() {
    let circuit = honest_circuit();
    let public = MyInstance {
        ct: circuit.ct,
        elgamal_public_key: circuit.elgamal_public_key,
    };
    let instance = instance_of(&circuit);
    assert!(public.matches(&instance));
    for slot in 0..INSTANCE_LEN {
        let mut tampered = instance;
        tampered[slot] = tampered[slot].add(&Base::from_u64(1));
        assert!(!public.matches(&tampered));
    }
    assert!(!public.matches(&instance[..6]));
    let mut longer = instance.to_vec();
    longer.push(Base::zero());
    assert!(!public.matches(&longer));
}

#[test]
fn identity_has_no_coordinates_for_the_instance() {
    let circuit = honest_circuit();
    let mut public = MyInstance {
        ct: circuit.ct,
        elgamal_public_key: circuit.elgamal_public_key,
    };
    assert!(public.check_coordinates());
    public.elgamal_public_key = Point::identity();
    assert!(!public.check_coordinates());
    public.elgamal_public_key = circuit.elgamal_public_key;
    public.ct.ct.c1 = Point::identity();
    assert!(!public.check_coordinates());
    public.ct.ct.c1 = circuit.ct.ct.c1;
    public.ct.ct.c2 = Point::identity();
    assert!(!public.check_coordinates());
}

#[test]
fn layout_has_the_fixed_columns() {
    let config: Config = MyCircuit::configure();
    assert_eq!(K, 11);
    assert_eq!(config.instance, 0);
    assert_eq!(config.ecc_config.advices, [0, 1, 2, 3, 4, 5, 6, 7, 8, 9]);
    assert_eq!(config.ecc_config.lagrange_coeffs, [0, 1, 2, 3, 4, 5, 6, 7]);
    assert_eq!(config.add_sub_mul_config.advice, [8, 9]);
    assert_eq!(config.add_sub_mul_config.instance, 0);
    assert_eq!(config.add_sub_mul_config.constant, 0);
    assert_eq!(config.ecc_config.range_check.running_sum, 9);
    assert_eq!(config.ecc_config.range_check.table_idx, 0);
    assert_eq!(config.ecc_config.range_check.table_range_check_tag, 1);
    assert_eq!(config.sinsemilla_config.advices, [0, 1, 2, 3, 4]);
    assert_eq!(config.sinsemilla_config.witness_pieces, 6);
    assert_eq!(config.sinsemilla_config.fixed_y_q, 0);
    assert_eq!(config.sinsemilla_config.lookup, [0, 2, 3, 1]);
    assert_eq!(config.sinsemilla_config.range_check, config.ecc_config.range_check);
}

#[test]
fn synthesis_wires_the_four_equations() {
    let circuit = honest_circuit();
    let program = circuit.synthesize(&MyCircuit::configure());
    assert_eq!(program.len(), 33);
    assert_eq!(
        program[0],
        Instruction::WitnessPoint { source: PointInput::EncodedPoint }
    );
    assert_eq!(
        program[2],
        Instruction::LoadPrivate { input: ScalarInput::Message }
    );
    assert_eq!(program[3], Instruction::Add { lhs: 1, rhs: 0 });
    assert_eq!(
        program[6],
        Instruction::ConstrainInstance { cell: 4, slot: InstanceSlot::Zero }
    );
    assert_eq!(program[9], Instruction::LoadConstant { value: 5 });
    assert_eq!(
        program[14],
        Instruction::ConstrainInstance { cell: 11, slot: InstanceSlot::Zero }
    );
    assert_eq!(
        program[15],
        Instruction::LoadScalar { input: ScalarInput::EncryptionRandomness, column: 0 }
    );
    assert_eq!(program[17], Instruction::ScalarMul { scalar: 12, point: 1 });
    assert_eq!(program[28], Instruction::PointAdd { lhs: 0, rhs: 4 });
    assert_eq!(
        program[32],
        Instruction::ConstrainInstance { cell: 18, slot: InstanceSlot::Ct2Y }
    );
    // The gates do not depend on the values.
    assert_eq!(
        MyCircuit::default().synthesize(&MyCircuit::configure()),
        program
    );
}

#[test]
fn honest_values_satisfy_the_circuit() {
    let circuit = honest_circuit();
    let instance = instance_of(&circuit);
    assert_eq!(circuit.is_satisfied_by(&instance), Ok(true));
    let fresh = create_circuit(&Base::from_u64(123456), &ElGamalKeypair::new()).unwrap();
    assert_eq!(fresh.is_satisfied_by(&instance_of(&fresh)), Ok(true));
    assert_eq!(fresh.is_satisfied_by(&instance), Ok(false));
}

#[test]
fn any_tampered_slot_is_rejected() {
    let circuit = honest_circuit();
    let instance = instance_of(&circuit);
    for slot in 0..INSTANCE_LEN {
        let mut tampered = instance;
        let mut limbs = tampered[slot].limbs();
        limbs[0] ^= 1;
        tampered[slot] = Base::from_limbs(limbs).unwrap();
        assert_eq!(circuit.is_satisfied_by(&tampered), Ok(false));
    }
}

#[test]
fn another_public_key_in_the_instance_is_rejected() {
    let circuit = honest_circuit();
    let other = ElGamalKeypair::from_private_key(Scalar::from_u64(1002));
    let public = MyInstance {
        ct: circuit.ct,
        elgamal_public_key: other.public_key(),
    };
    let instance = public.to_halo2_instance()[0];
    assert_eq!(circuit.is_satisfied_by(&instance), Ok(false));
}

#[test]
fn wrong_secret_values_are_rejected() {
    let circuit = honest_circuit();
    let instance = instance_of(&circuit);
    let mut wrong_message = circuit;
    wrong_message.m = Some(Base::from_u64(43));
    assert_eq!(wrong_message.is_satisfied_by(&instance), Ok(false));
    let mut wrong_randomness = circuit;
    wrong_randomness.r_enc = Some(Base::from_u64(78));
    assert_eq!(wrong_randomness.is_satisfied_by(&instance), Ok(false));
    let mut wrong_point = circuit;
    wrong_point.p_m = Some(Point::generator());
    assert_eq!(wrong_point.is_satisfied_by(&instance), Ok(false));
    let mut no_point = circuit;
    no_point.p_m = Some(Point::identity());
    assert_eq!(no_point.is_satisfied_by(&instance), Ok(false));
}

#[test]
fn missing_witness_and_wrong_length_are_errors() {
    let circuit = honest_circuit();
    let instance = instance_of(&circuit);
    assert_eq!(
        circuit.is_satisfied_by(&instance[..6]),
        Err(CircuitError::InstanceLength)
    );
    let empty = circuit.without_witnesses();
    assert_eq!(empty, MyCircuit::default());
    assert_eq!(
        empty.is_satisfied_by(&instance),
        Err(CircuitError::WitnessMissing)
    );
    assert_eq!(
        empty.is_satisfied_by(&instance[..6]),
        Err(CircuitError::WitnessMissing)
    );
    let mut partial = circuit;
    partial.r_enc = None;
    assert_eq!(
        partial.is_satisfied_by(&instance),
        Err(CircuitError::WitnessMissing)
    );
}

#[test]
fn run_refuses_instructions_that_name_nothing() {
    let circuit = honest_circuit();
    let instance = instance_of(&circuit);
    assert!(circuit.run(&[], &instance));
    assert!(!circuit.run(&[Instruction::PointX { point: 0 }], &instance));
    assert!(!circuit.run(&[Instruction::Add { lhs: 0, rhs: 0 }], &instance));
    assert!(circuit.run(
        &[
            Instruction::LoadConstant { value: 0 },
            Instruction::ConstrainInstance { cell: 0, slot: InstanceSlot::Zero },
        ],
        &instance
    ));
    assert!(!circuit.run(
        &[
            Instruction::LoadConstant { value: 1 },
            Instruction::ConstrainInstance { cell: 0, slot: InstanceSlot::Zero },
        ],
        &instance
    ));
    assert!(!circuit.run(
        &[
            Instruction::LoadConstant { value: 0 },
            Instruction::ConstrainInstance { cell: 0, slot: InstanceSlot::Zero },
        ],
        &[]
    ));
}

#[test]
fn circuit_building_names_its_failures() {
    let message = Base::from_u64(42);
    let keypair = ElGamalKeypair::from_private_key(Scalar::from_u64(1001));
    let no_key = ElGamalKeypair::from_private_key(Scalar::from_u64(0));
    assert_eq!(
        create_circuit_with(&message, &no_key, &Base::from_u64(2), &Scalar::from_u64(77)),
        Err(CircuitBuildError::InvalidPublicKey)
    );
    assert_eq!(
        create_circuit(&message, &no_key),
        Err(CircuitBuildError::InvalidPublicKey)
    );
    assert_eq!(
        create_circuit_with(&message, &keypair, &Base::from_u64(1), &Scalar::from_u64(77)),
        Err(CircuitBuildError::NotOnCurve)
    );
    assert_eq!(
        create_circuit_with(&message, &keypair, &Base::from_u64(2), &Scalar::from_u64(0)),
        Err(CircuitBuildError::InvalidCiphertext)
    );
    let base_order = Scalar::from_limbs([
        0x992d30ed00000001,
        0x224698fc094cf91b,
        0,
        0x4000000000000000,
    ])
    .unwrap();
    assert_eq!(
        create_circuit_with(&message, &keypair, &Base::from_u64(2), &base_order),
        Err(CircuitBuildError::RandomnessOutOfRange)
    );
    let circuit =
        create_circuit_with(&message, &keypair, &Base::from_u64(2), &Scalar::from_u64(77)).unwrap();
    assert_eq!(circuit.m, Some(message));
    assert_eq!(circuit.r_enc, Some(Base::from_u64(77)));
    assert_eq!(circuit.ct.r_encode, Base::from_u64(2));
    assert_eq!(circuit.p_m.map(|p| p.x()), Some(Base::from_u64(44)));
}
