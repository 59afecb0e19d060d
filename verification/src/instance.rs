//! The public inputs of one proof: seven base field elements in a fixed order.

use crate::curve::{AffinePoint, Point};
use crate::elgamal::CiphertextModel;
use crate::extended_elgamal::DataInTransmit;
use crate::field::Base;
use vstd::prelude::*;

verus! {

/// The number of public inputs.
pub const INSTANCE_LEN: usize = 7;

/// The place of a public input.
#[derive(Clone, Copy, Debug, PartialEq, Eq)]
pub enum InstanceSlot {
    /// The constant zero, against which every scalar equation is checked.
    Zero,
    /// The first coordinate of the ciphertext's first component.
    Ct1X,
    /// The second coordinate of the ciphertext's first component.
    Ct1Y,
    /// The first coordinate of the ciphertext's second component.
    Ct2X,
    /// The second coordinate of the ciphertext's second component.
    Ct2Y,
    /// The first coordinate of the public key.
    PkX,
    /// The second coordinate of the public key.
    PkY,
}

impl InstanceSlot {
    /// The slot's position among the public inputs.
    pub open spec fn position(&self) -> nat {
        match self {
            InstanceSlot::Zero => 0,
            InstanceSlot::Ct1X => 1,
            InstanceSlot::Ct1Y => 2,
            InstanceSlot::Ct2X => 3,
            InstanceSlot::Ct2Y => 4,
            InstanceSlot::PkX => 5,
            InstanceSlot::PkY => 6,
        }
    }

    /// The slot's position among the public inputs.
    pub fn index(&self) -> (i: usize)
        ensures
            i == self.position(),
            i < INSTANCE_LEN,
    {
        match self {
            InstanceSlot::Zero => 0,
            InstanceSlot::Ct1X => 1,
            InstanceSlot::Ct1Y => 2,
            InstanceSlot::Ct2X => 3,
            InstanceSlot::Ct2Y => 4,
            InstanceSlot::PkX => 5,
            InstanceSlot::PkY => 6,
        }
    }

    /// The slot at a position, if there is one.
    pub fn from_index(i: usize) -> (r: Option<InstanceSlot>)
        ensures
            r is Some <==> i < INSTANCE_LEN,
            r matches Some(s) ==> s.position() == i,
    {
        if i == 0 {
            Some(InstanceSlot::Zero)
        } else if i == 1 {
            Some(InstanceSlot::Ct1X)
        } else if i == 2 {
            Some(InstanceSlot::Ct1Y)
        } else if i == 3 {
            Some(InstanceSlot::Ct2X)
        } else if i == 4 {
            Some(InstanceSlot::Ct2Y)
        } else if i == 5 {
            Some(InstanceSlot::PkX)
        } else if i == 6 {
            Some(InstanceSlot::PkY)
        } else {
            None
        }
    }
}

/// The public inputs that belong to a ciphertext and a public key: zero, then
/// the coordinates of `c1`, of `c2` and of the key.
pub open spec fn spec_instance(ct: CiphertextModel, pk: AffinePoint) -> Seq<nat> {
    seq![0nat, ct.c1.x, ct.c1.y, ct.c2.x, ct.c2.y, pk.x, pk.y]
}

/// The numbers that a sequence of field elements holds.
pub open spec fn instance_values(inst: Seq<Base>) -> Seq<nat> {
    Seq::new(inst.len(), |i: int| inst[i]@)
}

/// The public side of one proof.
#[derive(Clone, Copy, Debug, PartialEq, Eq)]
pub struct MyInstance {
    pub ct: DataInTransmit,
    pub elgamal_public_key: Point,
}

impl MyInstance {
    /// Whether the ciphertext's components and the key have coordinates: none
    /// of them is the identity.
    pub open spec fn has_coordinates(&self) -> bool {
        &&& !self.ct.ct.c1.spec_is_identity()
        &&& !self.ct.ct.c2.spec_is_identity()
        &&& !self.elgamal_public_key.spec_is_identity()
    }

    /// Whether the ciphertext's components and the key have coordinates.
    pub fn check_coordinates(&self) -> (r: bool)
        ensures
            r == self.has_coordinates(),
    {
        !self.ct.ct.c1.is_identity() && !self.ct.ct.c2.is_identity()
            && !self.elgamal_public_key.is_identity()
    }

    /// The public inputs in their order, as the one instance column of the
    /// proof.
    pub fn to_halo2_instance(&self) -> (r: [[Base; 7]; 1])
        requires
            self.has_coordinates(),
        ensures
            instance_values(r[0]@) == spec_instance(self.ct.ct@, self.elgamal_public_key@),
    {
        let instance: [Base; 7] = [
            Base::zero(),
            self.ct.ct.c1.x(),
            self.ct.ct.c1.y(),
            self.ct.ct.c2.x(),
            self.ct.ct.c2.y(),
            self.elgamal_public_key.x(),
            self.elgamal_public_key.y(),
        ];
        proof {
            assert(instance_values(instance@) =~= spec_instance(
                self.ct.ct@,
                self.elgamal_public_key@,
            ));
        }
        [instance]
    }

    /// Whether `instance` holds exactly the public inputs of this ciphertext
    /// and key. A wrong length or a single differing slot makes it false.
    pub fn matches(&self, instance: &[Base]) -> (r: bool)
        ensures
            r == (instance_values(instance@) == spec_instance(
                self.ct.ct@,
                self.elgamal_public_key@,
            )),
    {
        if instance.len() != INSTANCE_LEN {
            proof {
                assert(instance_values(instance@).len() == instance@.len());
                assert(spec_instance(self.ct.ct@, self.elgamal_public_key@).len() == 7);
            }
            return false;
        }
        let r = instance[0].is_zero() && instance[1].equals(&self.ct.ct.c1.x())
            && instance[2].equals(&self.ct.ct.c1.y()) && instance[3].equals(&self.ct.ct.c2.x())
            && instance[4].equals(&self.ct.ct.c2.y()) && instance[5].equals(
            &self.elgamal_public_key.x(),
        ) && instance[6].equals(&self.elgamal_public_key.y());
        proof {
            let got = instance_values(instance@);
            let want = spec_instance(self.ct.ct@, self.elgamal_public_key@);
            if r {
                assert(got =~= want);
            } else {
                assert(got[0] == instance@[0]@);
                assert(got[1] == instance@[1]@);
                assert(got[2] == instance@[2]@);
                assert(got[3] == instance@[3]@);
                assert(got[4] == instance@[4]@);
                assert(got[5] == instance@[5]@);
                assert(got[6] == instance@[6]@);
            }
        }
        r
    }
}

} // verus!
