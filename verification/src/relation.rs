//! The relation that a proof shows, as a list of gate instructions.
//!
//! One proof shows, of a secret message `m`, a secret point `p_m` and a secret
//! randomness `r_enc`, that
//!
//! - (1.1) `m + r_encode - p_m.x = 0`,
//! - (1.2) `p_m.x^3 + 5 - p_m.y^2 = 0`,
//! - (2.1) `[r_enc] G = c1`,
//! - (2.2) `p_m + [r_enc] pk = c2`,
//!
//! where `r_encode`, `c1`, `c2` and `pk` are public. The instructions say which
//! gates are wired and which cells are bound to which public input; a proving
//! backend carries them out one by one.

use crate::curve::{
    curve_add, curve_mul, curve_rhs, generator_point, lemma_generator_on_curve, on_curve,
    AffinePoint,
};
use crate::field::{field_add, field_mul, field_sub};
use crate::instance::{InstanceSlot, INSTANCE_LEN};
use crate::limbs::{le_value, lemma_le_value_injective};
use vstd::prelude::*;

verus! {

/// A scalar that the circuit is given.
#[derive(Clone, Copy, Debug, PartialEq, Eq)]
pub enum ScalarInput {
    /// The secret message `m`.
    Message,
    /// The public encoding randomness `r_encode`.
    EncodeRandomness,
    /// The secret encryption randomness `r_enc`.
    EncryptionRandomness,
}

/// A point that the circuit is given.
#[derive(Clone, Copy, Debug, PartialEq, Eq)]
pub enum PointInput {
    /// The secret encoded point `p_m`.
    EncodedPoint,
    /// The generator `G`.
    Generator,
    /// The public key `pk`.
    PublicKey,
}

/// One gate of the circuit. Cells and points are numbered in the order in
/// which instructions make them, each kind from zero.
#[derive(Clone, Copy, Debug, PartialEq, Eq)]
pub enum Instruction {
    /// A new point that holds an input and is constrained to lie on the
    /// curve, so it is not the identity.
    WitnessPoint { source: PointInput },
    /// A new cell of the arithmetic gates that holds an input.
    LoadPrivate { input: ScalarInput },
    /// A new cell in an advice column of the curve gates that holds an input,
    /// to multiply a point with.
    LoadScalar { input: ScalarInput, column: usize },
    /// A new cell that holds a constant.
    LoadConstant { value: u64 },
    /// A new cell: the first coordinate of a point.
    PointX { point: usize },
    /// A new cell: the second coordinate of a point.
    PointY { point: usize },
    /// A new cell: the sum of two cells.
    Add { lhs: usize, rhs: usize },
    /// A new cell: the difference of two cells.
    Sub { lhs: usize, rhs: usize },
    /// A new cell: the product of two cells.
    Mul { lhs: usize, rhs: usize },
    /// A new point: a point times a cell.
    ScalarMul { scalar: usize, point: usize },
    /// A new point: the sum of two points.
    PointAdd { lhs: usize, rhs: usize },
    /// Binds a cell to a public input: the two must be equal.
    ConstrainInstance { cell: usize, slot: InstanceSlot },
}

/// The values that the circuit is given.
pub struct Assignment {
    pub m: nat,
    pub r_encode: nat,
    pub r_enc: nat,
    pub p_m: AffinePoint,
    pub pk: AffinePoint,
}

/// What the gates have computed so far.
pub struct Registers {
    pub cells: Seq<nat>,
    pub points: Seq<AffinePoint>,
}

/// The value of a scalar input.
pub open spec fn scalar_input(a: Assignment, input: ScalarInput) -> nat {
    match input {
        ScalarInput::Message => a.m,
        ScalarInput::EncodeRandomness => a.r_encode,
        ScalarInput::EncryptionRandomness => a.r_enc,
    }
}

/// The value of a point input.
pub open spec fn point_input(a: Assignment, input: PointInput) -> AffinePoint {
    match input {
        PointInput::EncodedPoint => a.p_m,
        PointInput::Generator => generator_point(),
        PointInput::PublicKey => a.pk,
    }
}

/// The registers with one more cell.
pub open spec fn with_cell(regs: Registers, v: nat) -> Registers {
    Registers { cells: regs.cells.push(v), points: regs.points }
}

/// The registers with one more point.
pub open spec fn with_point(regs: Registers, p: AffinePoint) -> Registers {
    Registers { cells: regs.cells, points: regs.points.push(p) }
}

/// What one instruction makes of the registers, or nothing where its gate
/// cannot be satisfied or it names a cell, a point or a public input that is
/// not there.
pub open spec fn step(
    ins: Instruction,
    regs: Registers,
    a: Assignment,
    instance: Seq<nat>,
) -> Option<Registers> {
    match ins {
        Instruction::WitnessPoint { source } => if on_curve(point_input(a, source)) {
            Some(with_point(regs, point_input(a, source)))
        } else {
            None
        },
        Instruction::LoadPrivate { input } => Some(with_cell(regs, scalar_input(a, input))),
        Instruction::LoadScalar { input, column } => Some(
            with_cell(regs, scalar_input(a, input)),
        ),
        Instruction::LoadConstant { value } => Some(with_cell(regs, value as nat)),
        Instruction::PointX { point } => if point < regs.points.len() {
            Some(with_cell(regs, regs.points[point as int].x))
        } else {
            None
        },
        Instruction::PointY { point } => if point < regs.points.len() {
            Some(with_cell(regs, regs.points[point as int].y))
        } else {
            None
        },
        Instruction::Add { lhs, rhs } => if lhs < regs.cells.len() && rhs < regs.cells.len() {
            Some(with_cell(regs, field_add(regs.cells[lhs as int], regs.cells[rhs as int])))
        } else {
            None
        },
        Instruction::Sub { lhs, rhs } => if lhs < regs.cells.len() && rhs < regs.cells.len() {
            Some(with_cell(regs, field_sub(regs.cells[lhs as int], regs.cells[rhs as int])))
        } else {
            None
        },
        Instruction::Mul { lhs, rhs } => if lhs < regs.cells.len() && rhs < regs.cells.len() {
            Some(with_cell(regs, field_mul(regs.cells[lhs as int], regs.cells[rhs as int])))
        } else {
            None
        },
        Instruction::ScalarMul { scalar, point } => if scalar < regs.cells.len() && point
            < regs.points.len() {
            Some(with_point(regs, curve_mul(regs.cells[scalar as int], regs.points[point as int])))
        } else {
            None
        },
        Instruction::PointAdd { lhs, rhs } => if lhs < regs.points.len() && rhs
            < regs.points.len() {
            Some(with_point(regs, curve_add(regs.points[lhs as int], regs.points[rhs as int])))
        } else {
            None
        },
        Instruction::ConstrainInstance { cell, slot } => if cell < regs.cells.len()
            && slot.position() < instance.len() && regs.cells[cell as int]
            == instance[slot.position() as int] {
            Some(regs)
        } else {
            None
        },
    }
}

/// What a list of instructions makes of the registers, or nothing where one
/// of them fails.
pub open spec fn run_from(
    program: Seq<Instruction>,
    regs: Registers,
    a: Assignment,
    instance: Seq<nat>,
) -> Option<Registers>
    decreases program.len(),
{
    if program.len() == 0 {
        Some(regs)
    } else {
        match step(program[0], regs, a, instance) {
            Some(next) => run_from(program.skip(1), next, a, instance),
            None => None,
        }
    }
}

/// No cells and no points.
pub open spec fn empty_registers() -> Registers {
    Registers { cells: Seq::empty(), points: Seq::empty() }
}

/// Whether every gate of the program can be satisfied with the given values
/// and public inputs.
pub open spec fn accepts(program: Seq<Instruction>, a: Assignment, instance: Seq<nat>) -> bool {
    run_from(program, empty_registers(), a, instance) is Some
}

/// A program runs as its first part followed by its second.
pub proof fn lemma_run_concat(
    first: Seq<Instruction>,
    second: Seq<Instruction>,
    regs: Registers,
    a: Assignment,
    instance: Seq<nat>,
)
    ensures
        run_from(first + second, regs, a, instance) == match run_from(first, regs, a, instance) {
            Some(mid) => run_from(second, mid, a, instance),
            None => None,
        },
    decreases first.len(),
{
    if first.len() == 0 {
        assert(first + second =~= second);
    } else {
        assert((first + second)[0] == first[0]);
        assert((first + second).skip(1) =~= first.skip(1) + second);
        match step(first[0], regs, a, instance) {
            Some(next) => {
                lemma_run_concat(first.skip(1), second, next, a, instance);
            },
            None => {},
        }
    }
}

/// The gates of (1.1): `m + r_encode - p_m.x` is bound to the zero slot.
pub open spec fn encode_sum_gates() -> Seq<Instruction> {
    seq![
        Instruction::WitnessPoint { source: PointInput::EncodedPoint },
        Instruction::LoadPrivate { input: ScalarInput::EncodeRandomness },
        Instruction::LoadPrivate { input: ScalarInput::Message },
        Instruction::Add { lhs: 1, rhs: 0 },
        Instruction::PointX { point: 0 },
        Instruction::Sub { lhs: 2, rhs: 3 },
        Instruction::ConstrainInstance { cell: 4, slot: InstanceSlot::Zero },
    ]
}

/// The gates of (1.2): `p_m.x^3 + 5 - p_m.y^2` is bound to the zero slot.
pub open spec fn curve_equation_gates() -> Seq<Instruction> {
    seq![
        Instruction::Mul { lhs: 3, rhs: 3 },
        Instruction::Mul { lhs: 3, rhs: 5 },
        Instruction::LoadConstant { value: 5 },
        Instruction::Add { lhs: 6, rhs: 7 },
        Instruction::PointY { point: 0 },
        Instruction::Mul { lhs: 9, rhs: 9 },
        Instruction::Sub { lhs: 8, rhs: 10 },
        Instruction::ConstrainInstance { cell: 11, slot: InstanceSlot::Zero },
    ]
}

/// The gates of (2.1): the coordinates of `[r_enc] G` are bound to the slots
/// of `c1`.
pub open spec fn first_component_gates(column: usize) -> Seq<Instruction> {
    seq![
        Instruction::LoadScalar { input: ScalarInput::EncryptionRandomness, column },
        Instruction::WitnessPoint { source: PointInput::Generator },
        Instruction::ScalarMul { scalar: 12, point: 1 },
        Instruction::PointX { point: 2 },
        Instruction::ConstrainInstance { cell: 13, slot: InstanceSlot::Ct1X },
        Instruction::PointY { point: 2 },
        Instruction::ConstrainInstance { cell: 14, slot: InstanceSlot::Ct1Y },
    ]
}

/// The gates of (2.2): the coordinates of `pk` are bound to the slots of the
/// key, and those of `p_m + [r_enc] pk` to the slots of `c2`.
pub open spec fn second_component_gates() -> Seq<Instruction> {
    seq![
        Instruction::WitnessPoint { source: PointInput::PublicKey },
        Instruction::PointX { point: 3 },
        Instruction::ConstrainInstance { cell: 15, slot: InstanceSlot::PkX },
        Instruction::PointY { point: 3 },
        Instruction::ConstrainInstance { cell: 16, slot: InstanceSlot::PkY },
        Instruction::ScalarMul { scalar: 12, point: 3 },
        Instruction::PointAdd { lhs: 0, rhs: 4 },
        Instruction::PointX { point: 5 },
        Instruction::ConstrainInstance { cell: 17, slot: InstanceSlot::Ct2X },
        Instruction::PointY { point: 5 },
        Instruction::ConstrainInstance { cell: 18, slot: InstanceSlot::Ct2Y },
    ]
}

/// The whole circuit: the gates of the encoding, then those of the
/// encryption. The encryption randomness is loaded into the given advice
/// column.
pub open spec fn relation_program(column: usize) -> Seq<Instruction> {
    encode_sum_gates() + curve_equation_gates() + first_component_gates(column)
        + second_component_gates()
}

/// (1.1), against the zero slot.
pub open spec fn encode_sum_holds(a: Assignment, instance: Seq<nat>) -> bool {
    &&& on_curve(a.p_m)
    &&& instance.len() > 0
    &&& field_sub(field_add(a.m, a.r_encode), a.p_m.x) == instance[0]
}

/// (1.2), against the zero slot.
pub open spec fn curve_equation_holds(a: Assignment, instance: Seq<nat>) -> bool {
    &&& instance.len() > 0
    &&& field_sub(
        field_add(field_mul(a.p_m.x, field_mul(a.p_m.x, a.p_m.x)), 5),
        field_mul(a.p_m.y, a.p_m.y),
    ) == instance[0]
}

/// (2.1), against the slots of `c1`.
pub open spec fn first_component_holds(a: Assignment, instance: Seq<nat>) -> bool {
    &&& instance.len() > 2
    &&& curve_mul(a.r_enc, generator_point()) == (AffinePoint { x: instance[1], y: instance[2] })
}

/// (2.2), against the slots of the key and of `c2`.
pub open spec fn second_component_holds(a: Assignment, instance: Seq<nat>) -> bool {
    &&& instance.len() > 6
    &&& on_curve(a.pk)
    &&& a.pk == (AffinePoint { x: instance[5], y: instance[6] })
    &&& curve_add(a.p_m, curve_mul(a.r_enc, a.pk)) == (AffinePoint {
        x: instance[3],
        y: instance[4],
    })
}

/// The relation between the circuit's values and the public inputs.
pub open spec fn relation_holds(a: Assignment, instance: Seq<nat>) -> bool {
    &&& encode_sum_holds(a, instance)
    &&& curve_equation_holds(a, instance)
    &&& first_component_holds(a, instance)
    &&& second_component_holds(a, instance)
}

/// The gates of (1.1) can be satisfied exactly when (1.1) holds.
proof fn lemma_encode_sum_gates(a: Assignment, instance: Seq<nat>)
    ensures
        run_from(encode_sum_gates(), empty_registers(), a, instance) is Some <==> encode_sum_holds(
            a,
            instance,
        ),
        run_from(encode_sum_gates(), empty_registers(), a, instance) matches Some(out) ==> {
            &&& out.cells.len() == 5
            &&& out.cells[3] == a.p_m.x
            &&& out.points.len() == 1
            &&& out.points[0] == a.p_m
        },
{
    reveal_with_fuel(run_from, 8);
}

/// The gates of (1.2) can be satisfied exactly when (1.2) holds.
proof fn lemma_curve_equation_gates(regs: Registers, a: Assignment, instance: Seq<nat>)
    requires
        regs.cells.len() == 5,
        regs.cells[3] == a.p_m.x,
        regs.points.len() == 1,
        regs.points[0] == a.p_m,
    ensures
        run_from(curve_equation_gates(), regs, a, instance) is Some <==> curve_equation_holds(
            a,
            instance,
        ),
        run_from(curve_equation_gates(), regs, a, instance) matches Some(out) ==> {
            &&& out.cells.len() == 12
            &&& out.points.len() == 1
            &&& out.points[0] == a.p_m
        },
{
    reveal_with_fuel(run_from, 9);
}

/// The gates of (2.1) can be satisfied exactly when (2.1) holds.
proof fn lemma_first_component_gates(
    column: usize,
    regs: Registers,
    a: Assignment,
    instance: Seq<nat>,
)
    requires
        regs.cells.len() == 12,
        regs.points.len() == 1,
        regs.points[0] == a.p_m,
    ensures
        run_from(first_component_gates(column), regs, a, instance) is Some
            <==> first_component_holds(a, instance),
        run_from(first_component_gates(column), regs, a, instance) matches Some(out) ==> {
            &&& out.cells.len() == 15
            &&& out.cells[12] == a.r_enc
            &&& out.points.len() == 3
            &&& out.points[0] == a.p_m
        },
{
    reveal_with_fuel(run_from, 8);
    lemma_generator_on_curve();
}

/// The gates of (2.2) can be satisfied exactly when (2.2) holds.
proof fn lemma_second_component_gates(regs: Registers, a: Assignment, instance: Seq<nat>)
    requires
        regs.cells.len() == 15,
        regs.cells[12] == a.r_enc,
        regs.points.len() == 3,
        regs.points[0] == a.p_m,
    ensures
        run_from(second_component_gates(), regs, a, instance) is Some <==> second_component_holds(
            a,
            instance,
        ),
{
    reveal_with_fuel(run_from, 12);
}

/// The circuit can be satisfied exactly when the relation holds: the gates
/// enforce (1.1), (1.2), (2.1) and (2.2), with each public value bound to its
/// slot, and nothing else.
pub proof fn lemma_program_is_relation(column: usize, a: Assignment, instance: Seq<nat>)
    ensures
        accepts(relation_program(column), a, instance) <==> relation_holds(a, instance),
{
    let s1 = encode_sum_gates();
    let s2 = curve_equation_gates();
    let s3 = first_component_gates(column);
    let s4 = second_component_gates();
    let start = empty_registers();
    lemma_run_concat(s1 + s2 + s3, s4, start, a, instance);
    lemma_run_concat(s1 + s2, s3, start, a, instance);
    lemma_run_concat(s1, s2, start, a, instance);
    lemma_encode_sum_gates(a, instance);
    match run_from(s1, start, a, instance) {
        Some(r1) => {
            lemma_curve_equation_gates(r1, a, instance);
            match run_from(s2, r1, a, instance) {
                Some(r2) => {
                    lemma_first_component_gates(column, r2, a, instance);
                    match run_from(s3, r2, a, instance) {
                        Some(r3) => {
                            lemma_second_component_gates(r3, a, instance);
                        },
                        None => {},
                    }
                },
                None => {},
            }
        },
        None => {},
    }
}

/// With the same values, at most one list of seven public inputs is
/// accepted: changing any slot of an accepted list makes the circuit reject.
pub proof fn lemma_instance_determined(
    column: usize,
    a: Assignment,
    first: Seq<nat>,
    second: Seq<nat>,
)
    requires
        first.len() == INSTANCE_LEN,
        second.len() == INSTANCE_LEN,
        accepts(relation_program(column), a, first),
        accepts(relation_program(column), a, second),
    ensures
        first == second,
{
    lemma_program_is_relation(column, a, first);
    lemma_program_is_relation(column, a, second);
    assert(first =~= second);
}

/// Changing any byte of the canonical encoding of any one public input makes
/// the circuit reject: with the values that an accepted list of public inputs
/// was accepted with, the tampered list is not accepted.
pub proof fn lemma_tampered_slot_rejected(
    column: usize,
    a: Assignment,
    instance: Seq<nat>,
    slot: int,
    encoding: Seq<u8>,
    tampered: Seq<u8>,
)
    requires
        instance.len() == INSTANCE_LEN,
        accepts(relation_program(column), a, instance),
        0 <= slot < INSTANCE_LEN,
        encoding.len() == 32,
        tampered.len() == 32,
        le_value(encoding) == instance[slot],
        tampered != encoding,
    ensures
        !accepts(relation_program(column), a, instance.update(slot, le_value(tampered))),
{
    let changed = instance.update(slot, le_value(tampered));
    if le_value(tampered) == le_value(encoding) {
        lemma_le_value_injective(tampered, encoding);
    }
    assert(changed[slot] != instance[slot]);
    if accepts(relation_program(column), a, changed) {
        lemma_instance_determined(column, a, instance, changed);
    }
}

} // verus!
