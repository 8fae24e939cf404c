use vstd::prelude::*;
use crate::capacity::{evaluate, CapacityAssessment};
use crate::errors::MissionError;
use crate::missions::MissionEntity;
use crate::statuses::MissionStatuses;

verus! {

/// The verdict of a join attempt, as a function of the mission snapshot, the
/// current crew count, whether the pair already exists, and the caller.
///
/// The checks are ordered: self-join is rejected first, then a status that
/// does not admit crew, then a full roster, then a duplicate membership.
pub open spec fn join_verdict(
    m: MissionEntity,
    crew_count: nat,
    already_joined: bool,
    brawler_id: i32,
) -> Result<(), MissionError> {
    if m.chief_id == brawler_id {
        Err(MissionError::SelfJoinRejected)
    } else if !m.status.spec_accepts_join() {
        Err(MissionError::NotJoinable)
    } else if crew_count >= m.max_crew {
        Err(MissionError::MissionFull)
    } else if already_joined {
        Err(MissionError::AlreadyJoined)
    } else {
        Ok(())
    }
}

/// The verdict of a leave attempt: only the mission's status matters, and a
/// missing membership is reported as absent.
pub open spec fn leave_verdict(
    m: MissionEntity,
    is_member: bool,
) -> Result<(), MissionError> {
    if !m.status.spec_accepts_leave() {
        Err(MissionError::NotLeavable)
    } else if !is_member {
        Err(MissionError::NotFound)
    } else {
        Ok(())
    }
}

/// The verdict of a kick attempt: only the chief may kick, never themselves,
/// and only while the mission is recruiting.
pub open spec fn kick_verdict(
    m: MissionEntity,
    target_brawler_id: i32,
    requester_id: i32,
    is_member: bool,
) -> Result<(), MissionError> {
    if m.chief_id != requester_id {
        Err(MissionError::Forbidden)
    } else if target_brawler_id == requester_id {
        Err(MissionError::SelfKickRejected)
    } else if !m.status.spec_accepts_kick() {
        Err(MissionError::NotKickable)
    } else if !is_member {
        Err(MissionError::NotFound)
    } else {
        Ok(())
    }
}

/// After a departure, a mission reopens exactly when its `Failed` status was
/// caused by fullness: the roster stood at capacity just before the member
/// left. A mission the chief failed explicitly while it had free slots stays
/// failed.
pub open spec fn spec_reopens_after_departure(
    m: MissionEntity,
    crew_count_before: nat,
) -> bool {
    m.status is Failed && crew_count_before >= m.max_crew
}

/// Decides a join request against a loaded snapshot. The caller applies the
/// decision: on `Ok` it inserts the membership, and on `MissionFull` it also
/// records the implicit transition to `Failed`.
pub fn join_decision(
    m: &MissionEntity,
    crew_count: usize,
    already_joined: bool,
    brawler_id: i32,
) -> (r: Result<(), MissionError>)
    ensures
        r == join_verdict(*m, crew_count as nat, already_joined, brawler_id),
{
    if m.chief_id == brawler_id {
        return Err(MissionError::SelfJoinRejected);
    }
    match evaluate(m.status, crew_count, m.max_crew, m.deadline) {
        CapacityAssessment::Joinable => {
            if already_joined {
                Err(MissionError::AlreadyJoined)
            } else {
                Ok(())
            }
        },
        CapacityAssessment::Full => Err(MissionError::MissionFull),
        _ => Err(MissionError::NotJoinable),
    }
}

/// Decides a leave request against a loaded snapshot.
pub fn leave_decision(m: &MissionEntity, is_member: bool) -> (r: Result<(), MissionError>)
    ensures
        r == leave_verdict(*m, is_member),
{
    if !m.status.accepts_leave() {
        Err(MissionError::NotLeavable)
    } else if !is_member {
        Err(MissionError::NotFound)
    } else {
        Ok(())
    }
}

/// Decides a kick request against a loaded snapshot.
pub fn kick_decision(
    m: &MissionEntity,
    target_brawler_id: i32,
    requester_id: i32,
    is_member: bool,
) -> (r: Result<(), MissionError>)
    ensures
        r == kick_verdict(*m, target_brawler_id, requester_id, is_member),
{
    if m.chief_id != requester_id {
        return Err(MissionError::Forbidden);
    }
    if target_brawler_id == requester_id {
        return Err(MissionError::SelfKickRejected);
    }
    if !m.status.accepts_kick() {
        return Err(MissionError::NotKickable);
    }
    if !is_member {
        return Err(MissionError::NotFound);
    }
    Ok(())
}

/// Whether the implicit `Failed` to `Open` transition fires after a member
/// departs, given the crew count as it stood before the departure.
pub fn reopens_after_departure(m: &MissionEntity, crew_count_before: usize) -> (r: bool)
    ensures
        r == spec_reopens_after_departure(*m, crew_count_before as nat),
{
    m.status == MissionStatuses::Failed && crew_count_before >= m.max_crew as usize
}

} // verus!
