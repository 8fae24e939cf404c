use vstd::prelude::*;
use crate::capacity::{evaluate, CapacityAssessment};
use crate::errors::MissionError;
use crate::missions::MissionEntity;
use crate::statuses::MissionStatuses;

verus! {

/// The verdict of a start request.
///
/// Authorization comes first: a caller other than the chief is turned away
/// whatever the status. A completed mission can never be restarted; neither
/// can a failed mission that carries a deadline, because such a mission
/// concluded a real run rather than merely filling up. Starting further
/// needs at least one crew member and a free slot.
pub open spec fn start_verdict(
    m: MissionEntity,
    crew_count: nat,
    requester_id: i32,
) -> Result<(), MissionError> {
    if m.chief_id != requester_id {
        Err(MissionError::Forbidden)
    } else if m.status is Completed {
        Err(MissionError::InvalidStateTransition)
    } else if !(m.status is Open || m.status is Failed) {
        Err(MissionError::InvalidStateTransition)
    } else if m.status is Failed && m.deadline is Some {
        Err(MissionError::InvalidStateTransition)
    } else if crew_count >= m.max_crew {
        Err(MissionError::MissionFull)
    } else if crew_count < 1 {
        Err(MissionError::InvalidStateTransition)
    } else {
        Ok(())
    }
}

/// The verdict of a complete request: chief only, and only from `InProgress`.
pub open spec fn complete_verdict(m: MissionEntity, requester_id: i32) -> Result<
    (),
    MissionError,
> {
    if m.chief_id != requester_id {
        Err(MissionError::Forbidden)
    } else if !(m.status is InProgress) {
        Err(MissionError::InvalidStateTransition)
    } else {
        Ok(())
    }
}

/// The verdict of a fail request: chief only, and only from `InProgress`.
pub open spec fn fail_verdict(m: MissionEntity, requester_id: i32) -> Result<(), MissionError> {
    if m.chief_id != requester_id {
        Err(MissionError::Forbidden)
    } else if !(m.status is InProgress) {
        Err(MissionError::InvalidStateTransition)
    } else {
        Ok(())
    }
}

/// The deadline a start at `now` gives a mission, in seconds since the
/// epoch: `now` plus the duration in minutes, saturating at the largest
/// representable instant. A mission with no duration never acquires a
/// deadline.
pub open spec fn spec_deadline_after_start(now_ts: i64, duration: Option<u32>) -> Option<i64> {
    match duration {
        Some(minutes) => {
            if now_ts + minutes * 60 <= i64::MAX {
                Some((now_ts + minutes * 60) as i64)
            } else {
                Some(i64::MAX)
            }
        },
        None => None,
    }
}

/// Decides a start request against a loaded snapshot. On `Ok` the caller
/// records the transition to `InProgress` together with the new deadline.
pub fn start_decision(m: &MissionEntity, crew_count: usize, requester_id: i32) -> (r: Result<
    (),
    MissionError,
>)
    ensures
        r == start_verdict(*m, crew_count as nat, requester_id),
{
    if m.chief_id != requester_id {
        return Err(MissionError::Forbidden);
    }
    if m.status == MissionStatuses::Completed {
        return Err(MissionError::InvalidStateTransition);
    }
    match evaluate(m.status, crew_count, m.max_crew, m.deadline) {
        CapacityAssessment::Joinable => {
            if m.status == MissionStatuses::Failed && m.deadline.is_some() {
                Err(MissionError::InvalidStateTransition)
            } else if crew_count < 1 {
                Err(MissionError::InvalidStateTransition)
            } else {
                Ok(())
            }
        },
        CapacityAssessment::Full => {
            if m.status == MissionStatuses::Failed && m.deadline.is_some() {
                Err(MissionError::InvalidStateTransition)
            } else {
                Err(MissionError::MissionFull)
            }
        },
        _ => Err(MissionError::InvalidStateTransition),
    }
}

/// Decides a complete request against a loaded snapshot.
pub fn complete_decision(m: &MissionEntity, requester_id: i32) -> (r: Result<(), MissionError>)
    ensures
        r == complete_verdict(*m, requester_id),
{
    if m.chief_id != requester_id {
        Err(MissionError::Forbidden)
    } else if m.status != MissionStatuses::InProgress {
        Err(MissionError::InvalidStateTransition)
    } else {
        Ok(())
    }
}

/// Decides a fail request against a loaded snapshot.
pub fn fail_decision(m: &MissionEntity, requester_id: i32) -> (r: Result<(), MissionError>)
    ensures
        r == fail_verdict(*m, requester_id),
{
    if m.chief_id != requester_id {
        Err(MissionError::Forbidden)
    } else if m.status != MissionStatuses::InProgress {
        Err(MissionError::InvalidStateTransition)
    } else {
        Ok(())
    }
}

/// Computes the deadline a start at `now_ts` assigns, per
/// `spec_deadline_after_start`.
pub fn deadline_after_start(now_ts: i64, duration: Option<u32>) -> (r: Option<i64>)
    ensures
        r == spec_deadline_after_start(now_ts, duration),
{
    match duration {
        Some(minutes) => {
            let extent: i64 = (minutes as i64) * 60;
            if now_ts <= i64::MAX - extent {
                Some(now_ts + extent)
            } else {
                Some(i64::MAX)
            }
        },
        None => None,
    }
}

} // verus!
