//! The circuit of one message block: its column layout, its values, and the
//! gates that its synthesis wires.

use crate::curve::{on_curve, AffinePoint, Point};
use crate::elgamal::Ciphertext;
use crate::extended_elgamal::DataInTransmit;
use crate::field::{Base, Scalar};
use crate::instance::{instance_values, InstanceSlot, INSTANCE_LEN};
use crate::relation::{
    accepts, empty_registers, lemma_program_is_relation, point_input, relation_holds,
    relation_program, run_from, scalar_input, step, with_cell, with_point, Assignment,
    Instruction, PointInput, Registers, ScalarInput,
};
use vstd::prelude::*;

verus! {

/// The size of the circuit: it has `2^K` rows.
pub const K: u32 = 11;

/// The number of advice columns.
pub const ADVICE_COLUMNS: usize = 10;

/// The number of fixed columns.
pub const FIXED_COLUMNS: usize = 8;

/// The number of lookup table columns.
pub const TABLE_COLUMNS: usize = 4;

/// The columns of the lookup range check. Each column is named by its place
/// among the columns of its kind, in the order in which they are allocated.
#[derive(Clone, Copy, Debug, PartialEq, Eq)]
pub struct RangeCheckColumns {
    pub running_sum: usize,
    pub table_idx: usize,
    pub table_range_check_tag: usize,
}

/// The columns of the curve gates.
#[derive(Clone, Copy, Debug, PartialEq, Eq)]
pub struct EccColumns {
    pub advices: [usize; 10],
    pub lagrange_coeffs: [usize; 8],
    pub range_check: RangeCheckColumns,
}

/// The columns of the arithmetic gates.
#[derive(Clone, Copy, Debug, PartialEq, Eq)]
pub struct AddSubMulColumns {
    pub advice: [usize; 2],
    pub instance: usize,
    pub constant: usize,
}

/// The columns of the generator lookup table and its gates.
#[derive(Clone, Copy, Debug, PartialEq, Eq)]
pub struct SinsemillaColumns {
    pub advices: [usize; 5],
    pub witness_pieces: usize,
    pub fixed_y_q: usize,
    pub lookup: [usize; 4],
    pub range_check: RangeCheckColumns,
}

/// The column layout of the circuit.
#[derive(Clone, Copy, Debug, PartialEq, Eq)]
pub struct Config {
    pub instance: usize,
    pub ecc_config: EccColumns,
    pub add_sub_mul_config: AddSubMulColumns,
    pub sinsemilla_config: SinsemillaColumns,
}

impl Config {
    /// The layout that `MyCircuit::configure` fixes.
    pub open spec fn is_layout(&self) -> bool {
        let range_check = RangeCheckColumns {
            running_sum: 9,
            table_idx: 0,
            table_range_check_tag: 1,
        };
        &&& self.instance == 0
        &&& self.ecc_config.advices@ == seq![0usize, 1, 2, 3, 4, 5, 6, 7, 8, 9]
        &&& self.ecc_config.lagrange_coeffs@ == seq![0usize, 1, 2, 3, 4, 5, 6, 7]
        &&& self.ecc_config.range_check == range_check
        &&& self.add_sub_mul_config.advice@ == seq![8usize, 9]
        &&& self.add_sub_mul_config.instance == 0
        &&& self.add_sub_mul_config.constant == 0
        &&& self.sinsemilla_config.advices@ == seq![0usize, 1, 2, 3, 4]
        &&& self.sinsemilla_config.witness_pieces == 6
        &&& self.sinsemilla_config.fixed_y_q == 0
        &&& self.sinsemilla_config.lookup@ == seq![0usize, 2, 3, 1]
        &&& self.sinsemilla_config.range_check == range_check
    }
}

/// The circuit of one message block: the public data, and the secret values
/// where they are known.
#[derive(Clone, Copy, Debug, PartialEq, Eq)]
pub struct MyCircuit {
    pub ct: DataInTransmit,
    pub elgamal_public_key: Point,
    pub m: Option<Base>,
    pub p_m: Option<Point>,
    pub r_enc: Option<Base>,
}

/// Why a circuit could not be checked against public inputs.
#[derive(Clone, Copy, Debug, PartialEq, Eq)]
pub enum CircuitError {
    /// A secret value of the circuit is not known.
    WitnessMissing,
    /// The number of public inputs is not `INSTANCE_LEN`.
    InstanceLength,
}

impl Default for MyCircuit {
    fn default() -> (r: MyCircuit)
        ensures
            r.ct.ct.c1.spec_is_identity(),
            r.ct.ct.c2.spec_is_identity(),
            r.ct.r_encode@ == 0,
            r.elgamal_public_key.spec_is_identity(),
            r.m is None,
            r.p_m is None,
            r.r_enc is None,
    {
        MyCircuit {
            ct: DataInTransmit {
                ct: Ciphertext { c1: Point::identity(), c2: Point::identity() },
                r_encode: Base::zero(),
            },
            elgamal_public_key: Point::identity(),
            m: None,
            p_m: None,
            r_enc: None,
        }
    }
}

/// What the cells and points of a run hold.
pub open spec fn registers_view(cells: Seq<Base>, points: Seq<Point>) -> Registers {
    Registers {
        cells: Seq::new(cells.len(), |i: int| cells[i]@),
        points: Seq::new(points.len(), |i: int| points[i]@),
    }
}

impl MyCircuit {
    /// Whether every secret value is known.
    pub open spec fn has_witness(&self) -> bool {
        self.m is Some && self.p_m is Some && self.r_enc is Some
    }

    /// The values of the circuit, where every secret value is known.
    pub open spec fn assignment(&self) -> Assignment {
        Assignment {
            m: self.m->0@,
            r_encode: self.ct.r_encode@,
            r_enc: self.r_enc->0@,
            p_m: self.p_m->0@,
            pk: self.elgamal_public_key@,
        }
    }

    /// The circuit with no public data and no secret value.
    pub fn without_witnesses(&self) -> (r: MyCircuit)
        ensures
            r.m is None,
            r.p_m is None,
            r.r_enc is None,
            r.ct.ct.c1.spec_is_identity(),
            r.ct.ct.c2.spec_is_identity(),
            r.ct.r_encode@ == 0,
            r.elgamal_public_key.spec_is_identity(),
    {
        MyCircuit::default()
    }

    /// The column layout: ten advice columns, all used by the curve gates, the
    /// last two shared with the arithmetic gates; eight fixed columns, the
    /// first of which also holds constants; four lookup table columns; one
    /// instance column.
    pub fn configure() -> (config: Config)
        ensures
            config.is_layout(),
    {
        let advices: [usize; 10] = [0, 1, 2, 3, 4, 5, 6, 7, 8, 9];
        let table_idx: usize = 0;
        let table_range_check_tag: usize = 1;
        let lookup: [usize; 4] = [table_idx, 2, 3, table_range_check_tag];
        let instance: usize = 0;
        let lagrange_coeffs: [usize; 8] = [0, 1, 2, 3, 4, 5, 6, 7];
        let constant: usize = lagrange_coeffs[0];
        let advice: [usize; 2] = [advices[8], advices[9]];
        let add_sub_mul_config = AddSubMulColumns { advice, instance, constant };
        let range_check = RangeCheckColumns {
            running_sum: advices[9],
            table_idx,
            table_range_check_tag,
        };
        let sinsemilla_config = SinsemillaColumns {
            advices: [advices[0], advices[1], advices[2], advices[3], advices[4]],
            witness_pieces: advices[6],
            fixed_y_q: lagrange_coeffs[0],
            lookup,
            range_check,
        };
        let ecc_config = EccColumns { advices, lagrange_coeffs, range_check };
        let config = Config { instance, ecc_config, add_sub_mul_config, sinsemilla_config };
        proof {
            assert(config.ecc_config.advices@ =~= seq![0usize, 1, 2, 3, 4, 5, 6, 7, 8, 9]);
            assert(config.ecc_config.lagrange_coeffs@ =~= seq![0usize, 1, 2, 3, 4, 5, 6, 7]);
            assert(config.add_sub_mul_config.advice@ =~= seq![8usize, 9]);
            assert(config.sinsemilla_config.advices@ =~= seq![0usize, 1, 2, 3, 4]);
            assert(config.sinsemilla_config.lookup@ =~= seq![0usize, 2, 3, 1]);
        }
        config
    }

    /// The gates of the circuit, in the order in which they are wired. The
    /// encryption randomness is loaded into the first advice column of the
    /// curve gates.
    pub fn synthesize(&self, config: &Config) -> (program: Vec<Instruction>)
        ensures
            program@ == relation_program(config.ecc_config.advices[0]),
    {
        let column: usize = config.ecc_config.advices[0];
        let mut program: Vec<Instruction> = Vec::new();

        // (1.1) m + r_encode - p_m.x = 0
        program.push(Instruction::WitnessPoint { source: PointInput::EncodedPoint });
        program.push(Instruction::LoadPrivate { input: ScalarInput::EncodeRandomness });
        program.push(Instruction::LoadPrivate { input: ScalarInput::Message });
        program.push(Instruction::Add { lhs: 1, rhs: 0 });
        program.push(Instruction::PointX { point: 0 });
        program.push(Instruction::Sub { lhs: 2, rhs: 3 });
        program.push(Instruction::ConstrainInstance { cell: 4, slot: InstanceSlot::Zero });

        // (1.2) p_m.x^3 + 5 - p_m.y^2 = 0
        program.push(Instruction::Mul { lhs: 3, rhs: 3 });
        program.push(Instruction::Mul { lhs: 3, rhs: 5 });
        program.push(Instruction::LoadConstant { value: 5 });
        program.push(Instruction::Add { lhs: 6, rhs: 7 });
        program.push(Instruction::PointY { point: 0 });
        program.push(Instruction::Mul { lhs: 9, rhs: 9 });
        program.push(Instruction::Sub { lhs: 8, rhs: 10 });
        program.push(Instruction::ConstrainInstance { cell: 11, slot: InstanceSlot::Zero });

        // (2.1) [r_enc] G = c1
        program.push(
            Instruction::LoadScalar { input: ScalarInput::EncryptionRandomness, column },
        );
        program.push(Instruction::WitnessPoint { source: PointInput::Generator });
        program.push(Instruction::ScalarMul { scalar: 12, point: 1 });
        program.push(Instruction::PointX { point: 2 });
        program.push(Instruction::ConstrainInstance { cell: 13, slot: InstanceSlot::Ct1X });
        program.push(Instruction::PointY { point: 2 });
        program.push(Instruction::ConstrainInstance { cell: 14, slot: InstanceSlot::Ct1Y });

        // (2.2) p_m + [r_enc] pk = c2
        program.push(Instruction::WitnessPoint { source: PointInput::PublicKey });
        program.push(Instruction::PointX { point: 3 });
        program.push(Instruction::ConstrainInstance { cell: 15, slot: InstanceSlot::PkX });
        program.push(Instruction::PointY { point: 3 });
        program.push(Instruction::ConstrainInstance { cell: 16, slot: InstanceSlot::PkY });
        program.push(Instruction::ScalarMul { scalar: 12, point: 3 });
        program.push(Instruction::PointAdd { lhs: 0, rhs: 4 });
        program.push(Instruction::PointX { point: 5 });
        program.push(Instruction::ConstrainInstance { cell: 17, slot: InstanceSlot::Ct2X });
        program.push(Instruction::PointY { point: 5 });
        program.push(Instruction::ConstrainInstance { cell: 18, slot: InstanceSlot::Ct2Y });

        proof {
            assert(program@ =~= relation_program(column));
        }
        program
    }

    /// The value of a scalar input.
    fn scalar_value(&self, input: ScalarInput) -> (r: Base)
        requires
            self.has_witness(),
        ensures
            r@ == scalar_input(self.assignment(), input),
    {
        match input {
            ScalarInput::Message => self.m.unwrap(),
            ScalarInput::EncodeRandomness => self.ct.r_encode,
            ScalarInput::EncryptionRandomness => self.r_enc.unwrap(),
        }
    }

    /// The value of a point input.
    fn point_value(&self, source: PointInput) -> (r: Point)
        requires
            self.has_witness(),
        ensures
            r@ == point_input(self.assignment(), source),
    {
        match source {
            PointInput::EncodedPoint => self.p_m.unwrap(),
            PointInput::Generator => Point::generator(),
            PointInput::PublicKey => self.elgamal_public_key,
        }
    }

    /// Carries out a list of gate instructions on the circuit's values, and
    /// says whether every gate is satisfied with the given public inputs.
    pub fn run(&self, program: &[Instruction], instance: &[Base]) -> (ok: bool)
        requires
            self.has_witness(),
        ensures
            ok == accepts(program@, self.assignment(), instance_values(instance@)),
    {
        let ghost a = self.assignment();
        let ghost inst = instance_values(instance@);
        let mut cells: Vec<Base> = Vec::new();
        let mut points: Vec<Point> = Vec::new();
        let mut i: usize = 0;
        proof {
            assert(program@.skip(0) =~= program@);
            assert(registers_view(cells@, points@).cells =~= empty_registers().cells);
            assert(registers_view(cells@, points@).points =~= empty_registers().points);
        }
        while i < program.len()
            invariant
                0 <= i <= program.len(),
                self.has_witness(),
                a == self.assignment(),
                inst == instance_values(instance@),
                run_from(program@, empty_registers(), a, inst) == run_from(
                    program@.skip(i as int),
                    registers_view(cells@, points@),
                    a,
                    inst,
                ),
            decreases program.len() - i,
        {
            let ghost regs = registers_view(cells@, points@);
            let ghost old_cells = cells@;
            let ghost old_points = points@;
            proof {
                lemma_run_step(program@, i as int, regs, a, inst);
            }
            let ins = program[i];
            let mut new_cell: Option<Base> = None;
            let mut new_point: Option<Point> = None;
            match ins {
                Instruction::WitnessPoint { source } => {
                    let p = self.point_value(source);
                    proof {
                        use_type_invariant(&p);
                    }
                    if p.is_identity() {
                        return false;
                    }
                    new_point = Some(p);
                },
                Instruction::LoadPrivate { input } => {
                    new_cell = Some(self.scalar_value(input));
                },
                Instruction::LoadScalar { input, column } => {
                    new_cell = Some(self.scalar_value(input));
                },
                Instruction::LoadConstant { value } => {
                    new_cell = Some(Base::from_u64(value));
                },
                Instruction::PointX { point } => {
                    if point >= points.len() {
                        return false;
                    }
                    new_cell = Some(points[point].x());
                },
                Instruction::PointY { point } => {
                    if point >= points.len() {
                        return false;
                    }
                    new_cell = Some(points[point].y());
                },
                Instruction::Add { lhs, rhs } => {
                    if lhs >= cells.len() || rhs >= cells.len() {
                        return false;
                    }
                    new_cell = Some(cells[lhs].add(&cells[rhs]));
                },
                Instruction::Sub { lhs, rhs } => {
                    if lhs >= cells.len() || rhs >= cells.len() {
                        return false;
                    }
                    new_cell = Some(cells[lhs].sub(&cells[rhs]));
                },
                Instruction::Mul { lhs, rhs } => {
                    if lhs >= cells.len() || rhs >= cells.len() {
                        return false;
                    }
                    new_cell = Some(cells[lhs].mul(&cells[rhs]));
                },
                Instruction::ScalarMul { scalar, point } => {
                    if scalar >= cells.len() || point >= points.len() {
                        return false;
                    }
                    let k = Scalar::from_base(&cells[scalar]);
                    new_point = Some(points[point].mul(&k));
                },
                Instruction::PointAdd { lhs, rhs } => {
                    if lhs >= points.len() || rhs >= points.len() {
                        return false;
                    }
                    new_point = Some(points[lhs].add(&points[rhs]));
                },
                Instruction::ConstrainInstance { cell, slot } => {
                    let at: usize = slot.index();
                    if cell >= cells.len() || at >= instance.len() {
                        return false;
                    }
                    if !cells[cell].equals(&instance[at]) {
                        return false;
                    }
                },
            }
            match new_cell {
                Some(v) => {
                    cells.push(v);
                },
                None => {},
            }
            match new_point {
                Some(p) => {
                    points.push(p);
                },
                None => {},
            }
            proof {
                let next = registers_view(cells@, points@);
                match new_cell {
                    Some(v) => {
                        assert(next.cells =~= regs.cells.push(v@));
                        assert(next.points =~= regs.points);
                        assert(next == with_cell(regs, v@));
                    },
                    None => {},
                }
                match new_point {
                    Some(p) => {
                        assert(next.points =~= regs.points.push(p@));
                        assert(next.cells =~= regs.cells);
                        assert(next == with_point(regs, p@));
                    },
                    None => {},
                }
                assert(step(ins, regs, a, inst) == Some(next));
            }
            i = i + 1;
        }
        proof {
            assert(program@.skip(i as int).len() == 0);
        }
        true
    }

    /// Whether the circuit's gates are satisfied with the given public
    /// inputs, that is, whether the relation holds between the circuit's
    /// values and the public inputs.
    ///
    /// It is an error, and no verdict, where a secret value is not known or
    /// where the number of public inputs is wrong.
    pub fn is_satisfied_by(&self, instance: &[Base]) -> (r: Result<bool, CircuitError>)
        ensures
            r == Err::<bool, CircuitError>(CircuitError::WitnessMissing) <==> !self.has_witness(),
            r == Err::<bool, CircuitError>(CircuitError::InstanceLength) <==> self.has_witness()
                && instance.len() != INSTANCE_LEN,
            r matches Ok(ok) ==> ok == relation_holds(
                self.assignment(),
                instance_values(instance@),
            ),
    {
        if self.m.is_none() || self.p_m.is_none() || self.r_enc.is_none() {
            return Err(CircuitError::WitnessMissing);
        }
        if instance.len() != INSTANCE_LEN {
            return Err(CircuitError::InstanceLength);
        }
        let config = MyCircuit::configure();
        let program = self.synthesize(&config);
        let ok = self.run(program.as_slice(), instance);
        proof {
            lemma_program_is_relation(
                config.ecc_config.advices[0],
                self.assignment(),
                instance_values(instance@),
            );
        }
        Ok(ok)
    }
}

/// A run from the `i`-th instruction on does that instruction and then runs
/// from the next one on.
proof fn lemma_run_step(
    program: Seq<Instruction>,
    i: int,
    regs: Registers,
    a: Assignment,
    instance: Seq<nat>,
)
    requires
        0 <= i < program.len(),
    ensures
        run_from(program.skip(i), regs, a, instance) == match step(program[i], regs, a, instance) {
            Some(next) => run_from(program.skip(i + 1), next, a, instance),
            None => None,
        },
{
    assert(program.skip(i)[0] == program[i]);
    assert(program.skip(i).skip(1) =~= program.skip(i + 1));
}

} // verus!
