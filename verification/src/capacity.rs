use vstd::prelude::*;
use crate::statuses::MissionStatuses;

verus! {

/// What the crew capacity evaluator concludes about a mission snapshot.
#[derive(Clone, Copy, Debug, PartialEq, Eq, Structural)]
pub enum CapacityAssessment {
    /// Recruiting and a slot is free.
    Joinable,
    /// Recruiting but every slot is taken.
    Full,
    /// Concluded, so crew may still leave but nobody may join.
    Leavable,
    /// Running; neither joining nor leaving is possible.
    Neither,
}

/// What `evaluate` returns, as a function of the snapshot.
///
/// The assessment does not depend on the deadline: a deadline only matters
/// when the chief restarts a failed mission, which the lifecycle coordinator
/// checks separately.
pub open spec fn spec_evaluate(
    status: MissionStatuses,
    crew_count: nat,
    max_crew: u32,
) -> CapacityAssessment {
    if status is Open || status is Failed {
        if crew_count >= max_crew {
            CapacityAssessment::Full
        } else {
            CapacityAssessment::Joinable
        }
    } else if status is Completed {
        CapacityAssessment::Leavable
    } else {
        CapacityAssessment::Neither
    }
}

/// Pure capacity evaluation shared by the membership and lifecycle
/// coordinators and by the read-only projections, so that the mutating and
/// the read paths cannot diverge on what "full" means.
pub fn evaluate(
    status: MissionStatuses,
    crew_count: usize,
    max_crew: u32,
    deadline: Option<i64>,
) -> (r: CapacityAssessment)
    ensures
        r == spec_evaluate(status, crew_count as nat, max_crew),
{
    let _ = deadline;
    if status.accepts_join() {
        if crew_count >= max_crew as usize {
            CapacityAssessment::Full
        } else {
            CapacityAssessment::Joinable
        }
    } else if status == MissionStatuses::Completed {
        CapacityAssessment::Leavable
    } else {
        CapacityAssessment::Neither
    }
}

} // verus!
