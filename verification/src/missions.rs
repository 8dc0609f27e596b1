//! Mission objective scaffolding.
//!
//! The surrounding host keeps mission objectives for its players; the
//! engine only carries their shape.  Evaluating an objective needs the
//! host's own bookkeeping, which is outside this crate, so checking an
//! objective's status reports that the evaluation is unavailable.

use vstd::prelude::*;

use crate::units::Pos;

verus! {

/// The kinds of objective a mission can carry.
#[derive(Clone, Copy, Debug, PartialEq, Eq, Structural)]
pub enum ObjectiveType {
    CombatAirPatrol,
    DeliverCrate,
    TransportTroops,
    DestroyVehicles,
    DestroyAircraft,
    ProtectVehicles,
    ProtectAircraft,
}

/// A mission's identity; the host assigns its meaning.
#[derive(Clone, Copy, Debug, PartialEq, Eq, Structural)]
pub struct MissionID {}

/// Why an objective's status could not be produced.
#[derive(Clone, Copy, Debug, PartialEq, Eq, Structural)]
pub enum ObjectiveError {
    /// Status evaluation needs the host's bookkeeping, which is not
    /// available to the engine.
    EvaluationUnavailable,
}

/// One objective of a mission.
#[derive(Clone, Debug, PartialEq)]
pub struct Objective {
    pub name: String,
    pub objective_type: ObjectiveType,
    pub units_to_kill: Vec<String>,
    pub units_to_protect: Vec<String>,
    pub target_points_radius: Vec<(Pos, i64)>,
    pub cargo_to_deliver: Option<Vec<String>>,
}

impl Objective {
    /// Ask for the objective's completion status.  No objective kind
    /// can be evaluated without the host's bookkeeping, so every kind
    /// reports the evaluation as unavailable.
    pub fn check_status(&self) -> (r: Result<bool, ObjectiveError>)
        ensures
            r == Err::<bool, ObjectiveError>(ObjectiveError::EvaluationUnavailable),
    {
        match self.objective_type {
            ObjectiveType::CombatAirPatrol => Err(ObjectiveError::EvaluationUnavailable),
            ObjectiveType::DeliverCrate => Err(ObjectiveError::EvaluationUnavailable),
            ObjectiveType::TransportTroops => Err(ObjectiveError::EvaluationUnavailable),
            ObjectiveType::DestroyVehicles => Err(ObjectiveError::EvaluationUnavailable),
            ObjectiveType::DestroyAircraft => Err(ObjectiveError::EvaluationUnavailable),
            ObjectiveType::ProtectVehicles => Err(ObjectiveError::EvaluationUnavailable),
            ObjectiveType::ProtectAircraft => Err(ObjectiveError::EvaluationUnavailable),
        }
    }
}

} // verus!
