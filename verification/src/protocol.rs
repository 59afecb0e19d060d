//! The life of one block's proof: from an unconfigured circuit to an accepted
//! proof. The proving backend does the work of each stage; this module decides
//! which stage comes next and what a failure means.

use vstd::prelude::*;

verus! {

/// Why a block's proof did not come to be accepted.
#[derive(Clone, Copy, Debug, PartialEq, Eq)]
pub enum ProofError {
    /// The values of the circuit do not satisfy its gates.
    ProvingError,
    /// The proof does not fit the public inputs.
    VerificationError,
    /// The verifying key does not belong to the circuit that made the proof.
    KeyMismatchError,
    /// The public inputs are not of the right shape.
    MalformedInstance,
    /// The backend reported something that cannot happen at this stage.
    UnexpectedEvent,
}

/// The stage that a block's proof is in.
#[derive(Clone, Copy, Debug, PartialEq, Eq)]
pub enum ProofState {
    /// Nothing is fixed yet.
    Unconfigured,
    /// The constraint system is fixed and the keys are derived.
    Configured,
    /// The secret values are assigned.
    Witnessed,
    /// The proof bytes are made.
    Proven,
    /// The proof is accepted.
    Verified,
    /// The block has failed; its siblings go on.
    Failed(ProofError),
}

/// What the backend reports.
#[derive(Clone, Copy, Debug, PartialEq, Eq)]
pub enum Event {
    /// The keys were derived from the constraint system.
    KeysGenerated,
    /// The secret values were assigned.
    WitnessAssigned,
    /// A proof was made.
    ProofCreated,
    /// No proof can be made: the keys could not be derived, a secret value
    /// is missing, or a gate is not satisfied.
    ProvingFailed,
    /// The verifier accepted the proof.
    ProofAccepted,
    /// The verifier rejected the proof.
    ProofRejected,
    /// The verifying key does not belong to the proof's circuit.
    KeyMismatch,
    /// The public inputs were refused before any checking: they are not of
    /// the right shape.
    InstanceMalformed,
}

/// What the backend is to do next.
#[derive(Clone, Copy, Debug, PartialEq, Eq)]
pub enum Action {
    /// Fix the constraint system and derive the keys.
    GenerateKeys,
    /// Assign the secret values.
    AssignWitness,
    /// Make the proof.
    CreateProof,
    /// Check the proof against the public inputs.
    VerifyProof,
    /// Nothing: the block is done.
    Stop,
}

/// The stage after an event.
pub open spec fn spec_step(state: ProofState, event: Event) -> ProofState {
    match (state, event) {
        (ProofState::Verified, _) => ProofState::Verified,
        (ProofState::Failed(e), _) => ProofState::Failed(e),
        (ProofState::Unconfigured, Event::KeysGenerated) => ProofState::Configured,
        (ProofState::Configured, Event::WitnessAssigned) => ProofState::Witnessed,
        (ProofState::Configured, Event::InstanceMalformed) => ProofState::Failed(
            ProofError::MalformedInstance,
        ),
        (ProofState::Witnessed, Event::ProofCreated) => ProofState::Proven,
        (ProofState::Proven, Event::ProvingFailed) => ProofState::Failed(
            ProofError::UnexpectedEvent,
        ),
        (_, Event::ProvingFailed) => ProofState::Failed(ProofError::ProvingError),
        (ProofState::Proven, Event::ProofAccepted) => ProofState::Verified,
        (ProofState::Proven, Event::ProofRejected) => ProofState::Failed(
            ProofError::VerificationError,
        ),
        (ProofState::Proven, Event::KeyMismatch) => ProofState::Failed(
            ProofError::KeyMismatchError,
        ),
        (ProofState::Proven, Event::InstanceMalformed) => ProofState::Failed(
            ProofError::MalformedInstance,
        ),
        _ => ProofState::Failed(ProofError::UnexpectedEvent),
    }
}

/// The stage after a run of events.
pub open spec fn spec_run(state: ProofState, events: Seq<Event>) -> ProofState
    decreases events.len(),
{
    if events.len() == 0 {
        state
    } else {
        spec_run(spec_step(state, events[0]), events.skip(1))
    }
}

impl ProofState {
    /// Whether the block is done, accepted or failed.
    pub open spec fn is_final(&self) -> bool {
        *self is Verified || *self is Failed
    }

    /// What the backend is to do in this stage.
    pub fn next_action(&self) -> (action: Action)
        ensures
            action == Action::Stop <==> self.is_final(),
            *self == ProofState::Unconfigured ==> action == Action::GenerateKeys,
            *self == ProofState::Configured ==> action == Action::AssignWitness,
            *self == ProofState::Witnessed ==> action == Action::CreateProof,
            *self == ProofState::Proven ==> action == Action::VerifyProof,
    {
        match self {
            ProofState::Unconfigured => Action::GenerateKeys,
            ProofState::Configured => Action::AssignWitness,
            ProofState::Witnessed => Action::CreateProof,
            ProofState::Proven => Action::VerifyProof,
            ProofState::Verified => Action::Stop,
            ProofState::Failed(_) => Action::Stop,
        }
    }

    /// The stage after an event. A stage moves on only by the event that its
    /// action can end in; a failure stays a failure, and an accepted proof
    /// stays accepted. Proving can fail at any stage before the proof is
    /// made, and the public inputs can be refused when the secret values are
    /// assigned or when the proof is checked.
    pub fn step(&self, event: Event) -> (next: ProofState)
        ensures
            next == spec_step(*self, event),
    {
        match (*self, event) {
            (ProofState::Verified, _) => ProofState::Verified,
            (ProofState::Failed(e), _) => ProofState::Failed(e),
            (ProofState::Unconfigured, Event::KeysGenerated) => ProofState::Configured,
            (ProofState::Configured, Event::WitnessAssigned) => ProofState::Witnessed,
            (ProofState::Configured, Event::InstanceMalformed) => ProofState::Failed(
                ProofError::MalformedInstance,
            ),
            (ProofState::Witnessed, Event::ProofCreated) => ProofState::Proven,
            (ProofState::Proven, Event::ProvingFailed) => ProofState::Failed(
                ProofError::UnexpectedEvent,
            ),
            (_, Event::ProvingFailed) => ProofState::Failed(ProofError::ProvingError),
            (ProofState::Proven, Event::ProofAccepted) => ProofState::Verified,
            (ProofState::Proven, Event::ProofRejected) => ProofState::Failed(
                ProofError::VerificationError,
            ),
            (ProofState::Proven, Event::KeyMismatch) => ProofState::Failed(
                ProofError::KeyMismatchError,
            ),
            (ProofState::Proven, Event::InstanceMalformed) => ProofState::Failed(
                ProofError::MalformedInstance,
            ),
            _ => ProofState::Failed(ProofError::UnexpectedEvent),
        }
    }
}

/// The four events of an accepted proof, in their order.
pub open spec fn accepting_events() -> Seq<Event> {
    seq![Event::KeysGenerated, Event::WitnessAssigned, Event::ProofCreated, Event::ProofAccepted]
}

/// A final stage never changes.
pub proof fn lemma_final_is_absorbing(state: ProofState, events: Seq<Event>)
    requires
        state.is_final(),
    ensures
        spec_run(state, events) == state,
    decreases events.len(),
{
    if events.len() > 0 {
        lemma_final_is_absorbing(state, events.skip(1));
    }
}

/// A block's proof is accepted exactly when the backend went through key
/// generation, witness assignment, proving and an accepting verification, in
/// this order and with nothing between them.
pub proof fn lemma_verified_only_by_accepting_run(events: Seq<Event>)
    ensures
        spec_run(ProofState::Unconfigured, events) == ProofState::Verified <==> (events.len() >= 4
            && events.take(4) == accepting_events()),
{
    reveal_with_fuel(spec_run, 5);
    let s0 = ProofState::Unconfigured;
    if events.len() >= 1 {
        let s1 = spec_step(s0, events[0]);
        if s1.is_final() {
            lemma_final_is_absorbing(s1, events.skip(1));
            if events.len() >= 4 {
                assert(events.take(4)[0] == events[0]);
            }
        } else if events.len() >= 2 {
            let s2 = spec_step(s1, events[1]);
            assert(events.skip(1)[0] == events[1]);
            if s2.is_final() {
                lemma_final_is_absorbing(s2, events.skip(1).skip(1));
                if events.len() >= 4 {
                    assert(events.take(4)[1] == events[1]);
                }
            } else if events.len() >= 3 {
                let s3 = spec_step(s2, events[2]);
                assert(events.skip(1).skip(1)[0] == events[2]);
                if s3.is_final() {
                    lemma_final_is_absorbing(s3, events.skip(1).skip(1).skip(1));
                    if events.len() >= 4 {
                        assert(events.take(4)[2] == events[2]);
                    }
                } else if events.len() >= 4 {
                    let s4 = spec_step(s3, events[3]);
                    assert(events.skip(1).skip(1).skip(1)[0] == events[3]);
                    assert(s4.is_final());
                    lemma_final_is_absorbing(s4, events.skip(1).skip(1).skip(1).skip(1));
                    assert(events.take(4)[0] == events[0]);
                    assert(events.take(4)[1] == events[1]);
                    assert(events.take(4)[2] == events[2]);
                    assert(events.take(4)[3] == events[3]);
                    if s4 == ProofState::Verified {
                        assert(events.take(4) =~= accepting_events());
                    }
                }
            }
        }
    }
}

} // verus!
