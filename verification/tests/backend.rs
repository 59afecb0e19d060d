use group::prime::PrimeCurveAffine;
use halo2_gadgets::ecc::chip::{
    BaseFieldElem, CircuitVersion, EccChip, EccConfig, FixedPoint, FullScalar, ShortScalar, H,
};
use halo2_gadgets::ecc::{FixedPoints, NonIdentityPoint, Point as CircuitPoint, ScalarVar};
use halo2_gadgets::sinsemilla::chip::{SinsemillaChip, SinsemillaConfig};
use halo2_gadgets::sinsemilla::{CommitDomains, HashDomains};
use halo2_gadgets::utilities::lookup_range_check::PallasLookupRangeCheck4_5BConfig;
use halo2_gadgets::utilities::UtilitiesInstructions;
use halo2_proofs::circuit::{AssignedCell, Layouter, SimpleFloorPlanner, Value};
use halo2_proofs::dev::{CircuitCost, MockProver};
use halo2_proofs::plonk::{
    Advice, Circuit, Column, ConstraintSystem, Error, Fixed, Instance as InstanceColumn, Selector,
};
use halo2_proofs::poly::Rotation;
use pasta_curves::arithmetic::CurveAffine;
use pasta_curves::{pallas, vesta};
use verifiable_encryption::circuit::{
    MyCircuit, ADVICE_COLUMNS, FIXED_COLUMNS, K, TABLE_COLUMNS,
};
use verifiable_encryption::codec::{pack, split};
use verifiable_encryption::curve::Point;
use verifiable_encryption::elgamal::ElGamalKeypair;
use verifiable_encryption::field::{Base, Scalar};
use verifiable_encryption::instance::{InstanceSlot, MyInstance};
use verifiable_encryption::protocol::{Action, Event, ProofError, ProofState};
use verifiable_encryption::relation::{Instruction, PointInput, ScalarInput};
use verifiable_encryption::statement::{create_circuit, create_circuit_with};

type Cell = AssignedCell<pallas::Base, pallas::Base>;
type Lookup = PallasLookupRangeCheck4_5BConfig;
type Ecc = EccChip<NoFixedBases, Lookup>;

fn field_element(b: &Base) -> pallas::Base {
    pallas::Base::from_raw(b.limbs())
}

fn affine_point(p: &Point) -> pallas::Affine {
    pallas::Affine::from_xy(field_element(&p.x()), field_element(&p.y())).unwrap()
}

// The circuit multiplies no fixed base, so each kind of fixed base is empty.

#[derive(Clone, Debug, PartialEq, Eq)]
enum NoFullWidthBase {}

#[derive(Clone, Debug, PartialEq, Eq)]
enum NoShortBase {}

#[derive(Clone, Debug, PartialEq, Eq)]
enum NoBaseFieldBase {}

#[derive(Clone, Debug, PartialEq, Eq)]
struct NoFixedBases;

impl FixedPoint<pallas::Affine> for NoFullWidthBase {
    type FixedScalarKind = FullScalar;

    fn generator(&self) -> pallas::Affine {
        match *self {}
    }

    fn u(&self) -> Vec<[[u8; 32]; H]> {
        match *self {}
    }

    fn z(&self) -> Vec<u64> {
        match *self {}
    }
}

impl FixedPoint<pallas::Affine> for NoShortBase {
    type FixedScalarKind = ShortScalar;

    fn generator(&self) -> pallas::Affine {
        match *self {}
    }

    fn u(&self) -> Vec<[[u8; 32]; H]> {
        match *self {}
    }

    fn z(&self) -> Vec<u64> {
        match *self {}
    }
}

impl FixedPoint<pallas::Affine> for NoBaseFieldBase {
    type FixedScalarKind = BaseFieldElem;

    fn generator(&self) -> pallas::Affine {
        match *self {}
    }

    fn u(&self) -> Vec<[[u8; 32]; H]> {
        match *self {}
    }

    fn z(&self) -> Vec<u64> {
        match *self {}
    }
}

impl FixedPoints<pallas::Affine> for NoFixedBases {
    type FullScalar = NoFullWidthBase;
    type ShortScalar = NoShortBase;
    type Base = NoBaseFieldBase;
}

// Nothing is hashed either: the hash gates are configured for their lookup table.

#[derive(Clone, Debug, PartialEq, Eq)]
enum NoHashDomain {}

#[derive(Clone, Debug, PartialEq, Eq)]
enum NoCommitDomain {}

impl HashDomains<pallas::Affine> for NoHashDomain {
    #[allow(non_snake_case)]
    fn Q(&self) -> pallas::Affine {
        match *self {}
    }
}

impl CommitDomains<pallas::Affine, NoFixedBases, NoHashDomain> for NoCommitDomain {
    fn r(&self) -> NoFullWidthBase {
        match *self {}
    }

    fn hash_domain(&self) -> NoHashDomain {
        match *self {}
    }
}

/// Gates for sums, differences and products of cells.
#[derive(Clone, Debug)]
struct AddSubMulConfig {
    advice: [Column<Advice>; 2],
    instance: Column<InstanceColumn>,
    s_add: Selector,
    s_sub: Selector,
    s_mul: Selector,
}

struct AddSubMulChip {
    config: AddSubMulConfig,
}

impl AddSubMulChip {
    fn new(config: AddSubMulConfig) -> Self {
        AddSubMulChip { config }
    }

    fn configure(
        meta: &mut ConstraintSystem<pallas::Base>,
        advice: [Column<Advice>; 2],
        instance: Column<InstanceColumn>,
        constant: Column<Fixed>,
    ) -> AddSubMulConfig {
        meta.enable_equality(instance);
        meta.enable_constant(constant);
        for column in &advice {
            meta.enable_equality(*column);
        }
        let s_add = meta.selector();
        let s_sub = meta.selector();
        let s_mul = meta.selector();
        meta.create_gate("add", |meta| {
            let lhs = meta.query_advice(advice[0], Rotation::cur());
            let rhs = meta.query_advice(advice[1], Rotation::cur());
            let out = meta.query_advice(advice[0], Rotation::next());
            let s = meta.query_selector(s_add);
            vec![s * (lhs + rhs - out)]
        });
        meta.create_gate("sub", |meta| {
            let lhs = meta.query_advice(advice[0], Rotation::cur());
            let rhs = meta.query_advice(advice[1], Rotation::cur());
            let out = meta.query_advice(advice[0], Rotation::next());
            let s = meta.query_selector(s_sub);
            vec![s * (lhs - rhs - out)]
        });
        meta.create_gate("mul", |meta| {
            let lhs = meta.query_advice(advice[0], Rotation::cur());
            let rhs = meta.query_advice(advice[1], Rotation::cur());
            let out = meta.query_advice(advice[0], Rotation::next());
            let s = meta.query_selector(s_mul);
            vec![s * (lhs * rhs - out)]
        });
        AddSubMulConfig { advice, instance, s_add, s_sub, s_mul }
    }

    fn load_private(
        &self,
        mut layouter: impl Layouter<pallas::Base>,
        value: Value<pallas::Base>,
    ) -> Result<Cell, Error> {
        let column = self.config.advice[0];
        layouter.assign_region(
            || "load private",
            |mut region| region.assign_advice(|| "private input", column, 0, || value),
        )
    }

    fn load_constant(
        &self,
        mut layouter: impl Layouter<pallas::Base>,
        constant: pallas::Base,
    ) -> Result<Cell, Error> {
        let column = self.config.advice[0];
        layouter.assign_region(
            || "load constant",
            |mut region| region.assign_advice_from_constant(|| "constant", column, 0, constant),
        )
    }

    fn combine(
        &self,
        mut layouter: impl Layouter<pallas::Base>,
        selector: Selector,
        lhs: &Cell,
        rhs: &Cell,
        value: Value<pallas::Base>,
    ) -> Result<Cell, Error> {
        let advice = self.config.advice;
        layouter.assign_region(
            || "combine",
            |mut region| {
                selector.enable(&mut region, 0)?;
                lhs.copy_advice(|| "lhs", &mut region, advice[0], 0)?;
                rhs.copy_advice(|| "rhs", &mut region, advice[1], 0)?;
                region.assign_advice(|| "out", advice[0], 1, || value)
            },
        )
    }

    fn add(
        &self,
        layouter: impl Layouter<pallas::Base>,
        lhs: &Cell,
        rhs: &Cell,
    ) -> Result<Cell, Error> {
        let value = lhs.value().copied() + rhs.value();
        self.combine(layouter, self.config.s_add, lhs, rhs, value)
    }

    fn sub(
        &self,
        layouter: impl Layouter<pallas::Base>,
        lhs: &Cell,
        rhs: &Cell,
    ) -> Result<Cell, Error> {
        let value = lhs.value().copied() - rhs.value();
        self.combine(layouter, self.config.s_sub, lhs, rhs, value)
    }

    fn mul(
        &self,
        layouter: impl Layouter<pallas::Base>,
        lhs: &Cell,
        rhs: &Cell,
    ) -> Result<Cell, Error> {
        let value = lhs.value().copied() * rhs.value();
        self.combine(layouter, self.config.s_mul, lhs, rhs, value)
    }

    fn check_result(
        &self,
        mut layouter: impl Layouter<pallas::Base>,
        cell: &Cell,
        row: usize,
    ) -> Result<(), Error> {
        layouter.constrain_instance(cell.cell(), self.config.instance, row)
    }
}

#[derive(Clone)]
struct BackendConfig {
    instance: Column<InstanceColumn>,
    ecc_config: EccConfig<NoFixedBases, Lookup>,
    add_sub_mul_config: AddSubMulConfig,
    sinsemilla_config: SinsemillaConfig<NoHashDomain, NoCommitDomain, NoFixedBases, Lookup>,
}

enum CurveRegister {
    Witnessed(NonIdentityPoint<pallas::Affine, Ecc>),
    Computed(CircuitPoint<pallas::Affine, Ecc>),
}

struct BlockCircuit {
    circuit: MyCircuit,
}

impl BlockCircuit {
    fn scalar(&self, input: ScalarInput) -> Value<pallas::Base> {
        let known = match input {
            ScalarInput::Message => self.circuit.m,
            ScalarInput::EncodeRandomness => Some(self.circuit.ct.r_encode),
            ScalarInput::EncryptionRandomness => self.circuit.r_enc,
        };
        match known {
            Some(b) => Value::known(field_element(&b)),
            None => Value::unknown(),
        }
    }

    fn point(&self, source: PointInput) -> Value<pallas::Affine> {
        match source {
            PointInput::EncodedPoint => match self.circuit.p_m {
                Some(p) => Value::known(affine_point(&p)),
                None => Value::unknown(),
            },
            PointInput::Generator => Value::known(pallas::Affine::generator()),
            PointInput::PublicKey => Value::known(affine_point(&self.circuit.elgamal_public_key)),
        }
    }
}

impl Circuit<pallas::Base> for BlockCircuit {
    type Config = BackendConfig;
    type FloorPlanner = SimpleFloorPlanner;

    fn without_witnesses(&self) -> Self {
        BlockCircuit { circuit: self.circuit.without_witnesses() }
    }

    fn configure(meta: &mut ConstraintSystem<pallas::Base>) -> Self::Config {
        let layout = MyCircuit::configure();
        let advices: Vec<Column<Advice>> =
            (0..ADVICE_COLUMNS).map(|_| meta.advice_column()).collect();
        let tables: Vec<_> = (0..TABLE_COLUMNS).map(|_| meta.lookup_table_column()).collect();
        let instance = meta.instance_column();
        meta.enable_equality(instance);
        for advice in advices.iter() {
            meta.enable_equality(*advice);
        }
        let fixed: Vec<Column<Fixed>> = (0..FIXED_COLUMNS).map(|_| meta.fixed_column()).collect();

        let arithmetic = layout.add_sub_mul_config;
        let add_sub_mul_config = AddSubMulChip::configure(
            meta,
            arithmetic.advice.map(|i| advices[i]),
            instance,
            fixed[arithmetic.constant],
        );

        let range = layout.ecc_config.range_check;
        let range_check = Lookup::configure_with_tag(
            meta,
            advices[range.running_sum],
            tables[range.table_idx],
            tables[range.table_range_check_tag],
        );

        let hash = layout.sinsemilla_config;
        let sinsemilla_config = SinsemillaChip::configure(
            meta,
            hash.advices.map(|i| advices[i]),
            advices[hash.witness_pieces],
            fixed[hash.fixed_y_q],
            (tables[hash.lookup[0]], tables[hash.lookup[1]], tables[hash.lookup[2]]),
            range_check,
            false,
        );

        let ecc_config = Ecc::configure(
            meta,
            layout.ecc_config.advices.map(|i| advices[i]),
            layout.ecc_config.lagrange_coeffs.map(|i| fixed[i]),
            range_check,
        );

        BackendConfig { instance, ecc_config, add_sub_mul_config, sinsemilla_config }
    }

    fn synthesize(
        &self,
        config: Self::Config,
        mut layouter: impl Layouter<pallas::Base>,
    ) -> Result<(), Error> {
        let arithmetic = AddSubMulChip::new(config.add_sub_mul_config.clone());
        let ecc = Ecc::construct(config.ecc_config.clone(), CircuitVersion::AnchoredBase);
        SinsemillaChip::load(config.sinsemilla_config.clone(), &mut layouter)?;

        let program = self.circuit.synthesize(&MyCircuit::configure());
        let mut cells: Vec<Cell> = Vec::new();
        let mut points: Vec<CurveRegister> = Vec::new();
        for instruction in program {
            match instruction {
                Instruction::WitnessPoint { source } => {
                    let p = NonIdentityPoint::new(
                        ecc.clone(),
                        layouter.namespace(|| "witness point"),
                        self.point(source),
                    )?;
                    points.push(CurveRegister::Witnessed(p));
                }
                Instruction::LoadPrivate { input } => {
                    let cell = arithmetic
                        .load_private(layouter.namespace(|| "load private"), self.scalar(input))?;
                    cells.push(cell);
                }
                Instruction::LoadScalar { input, column } => {
                    let cell = ecc.load_private(
                        layouter.namespace(|| "load scalar"),
                        config.ecc_config.advices[column],
                        self.scalar(input),
                    )?;
                    cells.push(cell);
                }
                Instruction::LoadConstant { value } => {
                    let cell = arithmetic.load_constant(
                        layouter.namespace(|| "load constant"),
                        pallas::Base::from(value),
                    )?;
                    cells.push(cell);
                }
                Instruction::PointX { point } => {
                    let cell = match points.get(point).ok_or(Error::Synthesis)? {
                        CurveRegister::Witnessed(p) => p.inner().x(),
                        CurveRegister::Computed(p) => p.inner().x(),
                    };
                    cells.push(cell);
                }
                Instruction::PointY { point } => {
                    let cell = match points.get(point).ok_or(Error::Synthesis)? {
                        CurveRegister::Witnessed(p) => p.inner().y(),
                        CurveRegister::Computed(p) => p.inner().y(),
                    };
                    cells.push(cell);
                }
                Instruction::Add { lhs, rhs } => {
                    let a = cells.get(lhs).ok_or(Error::Synthesis)?;
                    let b = cells.get(rhs).ok_or(Error::Synthesis)?;
                    let cell = arithmetic.add(layouter.namespace(|| "add"), a, b)?;
                    cells.push(cell);
                }
                Instruction::Sub { lhs, rhs } => {
                    let a = cells.get(lhs).ok_or(Error::Synthesis)?;
                    let b = cells.get(rhs).ok_or(Error::Synthesis)?;
                    let cell = arithmetic.sub(layouter.namespace(|| "sub"), a, b)?;
                    cells.push(cell);
                }
                Instruction::Mul { lhs, rhs } => {
                    let a = cells.get(lhs).ok_or(Error::Synthesis)?;
                    let b = cells.get(rhs).ok_or(Error::Synthesis)?;
                    let cell = arithmetic.mul(layouter.namespace(|| "mul"), a, b)?;
                    cells.push(cell);
                }
                Instruction::ScalarMul { scalar, point } => {
                    let k = ScalarVar::from_base(
                        ecc.clone(),
                        layouter.namespace(|| "scalar"),
                        cells.get(scalar).ok_or(Error::Synthesis)?,
                    )?;
                    let product = match points.get(point).ok_or(Error::Synthesis)? {
                        CurveRegister::Witnessed(p) => {
                            p.mul(layouter.namespace(|| "scalar mul"), k)?.0
                        }
                        CurveRegister::Computed(_) => return Err(Error::Synthesis),
                    };
                    points.push(CurveRegister::Computed(product));
                }
                Instruction::PointAdd { lhs, rhs } => {
                    let a = points.get(lhs).ok_or(Error::Synthesis)?;
                    let b = points.get(rhs).ok_or(Error::Synthesis)?;
                    let namespace = layouter.namespace(|| "point add");
                    let sum = match (a, b) {
                        (CurveRegister::Witnessed(a), CurveRegister::Witnessed(b)) => {
                            a.add(namespace, b)?
                        }
                        (CurveRegister::Witnessed(a), CurveRegister::Computed(b)) => {
                            a.add(namespace, b)?
                        }
                        (CurveRegister::Computed(a), CurveRegister::Witnessed(b)) => {
                            a.add(namespace, b)?
                        }
                        (CurveRegister::Computed(a), CurveRegister::Computed(b)) => {
                            a.add(namespace, b)?
                        }
                    };
                    points.push(CurveRegister::Computed(sum));
                }
                Instruction::ConstrainInstance { cell, slot } => {
                    let cell = cells.get(cell).ok_or(Error::Synthesis)?;
                    match slot {
                        InstanceSlot::Zero => arithmetic.check_result(
                            layouter.namespace(|| "check result"),
                            cell,
                            slot.index(),
                        )?,
                        _ => layouter.constrain_instance(
                            cell.cell(),
                            config.instance,
                            slot.index(),
                        )?,
                    }
                }
            }
        }
        Ok(())
    }
}

fn backend_instance(circuit: &MyCircuit) -> Vec<vesta::Scalar> {
    let instance = MyInstance {
        ct: circuit.ct,
        elgamal_public_key: circuit.elgamal_public_key,
    };
    assert!(instance.check_coordinates());
    instance.to_halo2_instance()[0].iter().map(field_element).collect()
}

fn fixed_circuit() -> MyCircuit {
    let keypair = ElGamalKeypair::from_private_key(Scalar::from_u64(1001));
    create_circuit_with(
        &Base::from_u64(42),
        &keypair,
        &Base::from_u64(2),
        &Scalar::from_u64(77),
    )
    .unwrap()
}

#[test]
fn blocks_of_a_message_satisfy_the_backend_gates() {
    // Split the message into blocks
    let test_message = "This is a short message.";

    // Specify the block size as 31 bytes
    let block_size = 31;
    let blocks = split(test_message.as_bytes(), block_size);
    assert_eq!(blocks.len(), 1);

    // Elgamal keygen
    let keypair = ElGamalKeypair::new();

    // Create a circuit for each block
    for block in blocks.iter() {
        // convert message block to a field element
        let m = pack(block).unwrap();

        let mut state = ProofState::Unconfigured;
        assert_eq!(state.next_action(), Action::GenerateKeys);

        // Step 1. create a circuit
        let circuit = BlockCircuit { circuit: create_circuit(&m, &keypair).unwrap() };

        // Step 2. arrange the public instance.
        let instance = backend_instance(&circuit.circuit);
        state = state.step(Event::KeysGenerated).step(Event::WitnessAssigned);
        assert_eq!(state.next_action(), Action::CreateProof);

        // Steps 3 to 5, without the commitments: every gate, lookup and
        // copy constraint of the backend is checked on the assigned cells.
        let prover = MockProver::run(K, &circuit, vec![instance.clone()]).unwrap();
        assert_eq!(prover.verify(), Ok(()));
        state = state.step(Event::ProofCreated).step(Event::ProofAccepted);
        assert_eq!(state, ProofState::Verified);

        // A public key in the instance other than the one encrypted under is rejected.
        let other = ElGamalKeypair::new();
        let forged = MyInstance {
            ct: circuit.circuit.ct,
            elgamal_public_key: other.public_key(),
        };
        let forged: Vec<vesta::Scalar> =
            forged.to_halo2_instance()[0].iter().map(field_element).collect();
        let prover = MockProver::run(K, &circuit, vec![forged]).unwrap();
        assert!(prover.verify().is_err());
        assert_eq!(
            ProofState::Proven.step(Event::ProofRejected),
            ProofState::Failed(ProofError::VerificationError)
        );
    }
}

#[test]
fn predicted_proof_size_does_not_depend_on_the_message() {
    let first = BlockCircuit { circuit: fixed_circuit() };
    let second = BlockCircuit {
        circuit: create_circuit(&Base::from_u64(7), &ElGamalKeypair::new()).unwrap(),
    };
    let size = |circuit: &BlockCircuit| {
        usize::from(CircuitCost::<vesta::Point, _>::measure(K, circuit).proof_size(1))
    };
    println!("Proof length: {}B", size(&first));
    assert_eq!(size(&first), 4384);
    assert_eq!(size(&second), 4384);
}

#[test]
fn backend_gates_accept_honest_values() {
    let circuit = BlockCircuit { circuit: fixed_circuit() };
    let instance = backend_instance(&circuit.circuit);
    let prover = MockProver::run(K, &circuit, vec![instance]).unwrap();
    assert_eq!(prover.verify(), Ok(()));
}

#[test]
fn backend_gates_reject_any_tampered_slot() {
    let circuit = BlockCircuit { circuit: fixed_circuit() };
    let instance = backend_instance(&circuit.circuit);
    for slot in 0..instance.len() {
        let mut tampered = instance.clone();
        let mut bytes: [u8; 32] = tampered[slot].into();
        bytes[0] ^= 1;
        tampered[slot] = pallas::Base::from_raw([
            u64::from_le_bytes(bytes[0..8].try_into().unwrap()),
            u64::from_le_bytes(bytes[8..16].try_into().unwrap()),
            u64::from_le_bytes(bytes[16..24].try_into().unwrap()),
            u64::from_le_bytes(bytes[24..32].try_into().unwrap()),
        ]);
        let prover = MockProver::run(K, &circuit, vec![tampered.clone()]).unwrap();
        assert!(prover.verify().is_err());
        // The library's own run of the gates agrees.
        let plain: Vec<Base> = tampered
            .iter()
            .map(|v| {
                let repr: [u8; 32] = (*v).into();
                Base::from_le_bytes(&repr).unwrap()
            })
            .collect();
        assert_eq!(circuit.circuit.is_satisfied_by(&plain), Ok(false));
    }
}

#[test]
fn backend_gates_reject_a_wrong_message() {
    let mut circuit = BlockCircuit { circuit: fixed_circuit() };
    let instance = backend_instance(&circuit.circuit);
    circuit.circuit.m = Some(Base::from_u64(43));
    let prover = MockProver::run(K, &circuit, vec![instance]).unwrap();
    assert!(prover.verify().is_err());
}

#[test]
fn library_and_backend_agree_on_values() {
    let circuit = fixed_circuit();
    let instance = backend_instance(&circuit);
    let plain = MyInstance {
        ct: circuit.ct,
        elgamal_public_key: circuit.elgamal_public_key,
    }
    .to_halo2_instance()[0];
    for (backend, library) in instance.iter().zip(plain.iter()) {
        let repr: [u8; 32] = (*backend).into();
        assert_eq!(repr, library.to_repr());
    }
    let sum = field_element(&plain[1]) + field_element(&plain[2]);
    assert_eq!(field_element(&plain[1].add(&plain[2])), sum);
    let product = field_element(&plain[3]) * field_element(&plain[4]);
    assert_eq!(field_element(&plain[3].mul(&plain[4])), product);
    let k = pallas::Scalar::from_raw(Scalar::from_u64(77).limbs());
    let c1: pallas::Affine = (pallas::Affine::generator() * k).into();
    assert_eq!(affine_point(&circuit.ct.ct.c1), c1);
}
