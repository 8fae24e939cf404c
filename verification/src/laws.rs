use vstd::prelude::*;
use crate::crew::{join_verdict, kick_verdict};
use crate::errors::MissionError;
use crate::lifecycle::{complete_verdict, fail_verdict, start_verdict};
use crate::missions::MissionEntity;

verus! {

/// Capacity is never exceeded by a join: whenever the join verdict admits a
/// brawler, the crew count after the insertion still fits under the
/// mission's cap.
pub proof fn lemma_join_respects_capacity(
    m: MissionEntity,
    crew_count: nat,
    already_joined: bool,
    brawler_id: i32,
)
    requires
        join_verdict(m, crew_count, already_joined, brawler_id) is Ok,
    ensures
        crew_count + 1 <= m.max_crew,
{
}

/// A chief can never join their own mission: whatever the status, the crew
/// count or the membership table say, the verdict is `SelfJoinRejected`.
pub proof fn lemma_chief_cannot_join(m: MissionEntity, crew_count: nat, already_joined: bool)
    ensures
        join_verdict(m, crew_count, already_joined, m.chief_id) == Err::<(), MissionError>(
            MissionError::SelfJoinRejected,
        ),
{
}

/// A chief can never be kicked from their own mission by themselves:
/// whatever the status or the membership table say, the verdict is
/// `SelfKickRejected`.
pub proof fn lemma_chief_cannot_kick_self(m: MissionEntity, is_member: bool)
    ensures
        kick_verdict(m, m.chief_id, m.chief_id, is_member) == Err::<(), MissionError>(
            MissionError::SelfKickRejected,
        ),
{
}

/// Rejection of a duplicate join is idempotent: after a join was admitted,
/// a second attempt by the same pair is answered with `AlreadyJoined` - and
/// with nothing applied, the crew count stands. This holds whenever the
/// first join left a slot free; a first join that filled the roster makes
/// the capacity rule answer `MissionFull` before uniqueness is consulted.
pub proof fn lemma_rejoin_rejected(m: MissionEntity, crew_count: nat, brawler_id: i32)
    requires
        join_verdict(m, crew_count, false, brawler_id) is Ok,
        crew_count + 1 < m.max_crew,
    ensures
        join_verdict(m, (crew_count + 1) as nat, true, brawler_id) == Err::<(), MissionError>(
            MissionError::AlreadyJoined,
        ),
{
}

/// A completed mission is terminal for everything but leaving: no join,
/// kick, start, complete or fail is ever accepted on it.
pub proof fn lemma_completed_is_terminal(
    m: MissionEntity,
    crew_count: nat,
    already_joined: bool,
    is_member: bool,
    brawler_id: i32,
    requester_id: i32,
)
    requires
        m.status is Completed,
    ensures
        join_verdict(m, crew_count, already_joined, brawler_id) is Err,
        kick_verdict(m, brawler_id, requester_id, is_member) is Err,
        start_verdict(m, crew_count, requester_id) is Err,
        complete_verdict(m, requester_id) is Err,
        fail_verdict(m, requester_id) is Err,
{
}

/// Only the chief drives the lifecycle: a start, complete or fail request
/// from anyone else is answered with `Forbidden`, whatever the mission's
/// status, crew or deadline.
pub proof fn lemma_non_chief_forbidden(m: MissionEntity, crew_count: nat, requester_id: i32)
    requires
        requester_id != m.chief_id,
    ensures
        start_verdict(m, crew_count, requester_id) == Err::<(), MissionError>(
            MissionError::Forbidden,
        ),
        complete_verdict(m, requester_id) == Err::<(), MissionError>(MissionError::Forbidden),
        fail_verdict(m, requester_id) == Err::<(), MissionError>(MissionError::Forbidden),
{
}

} // verus!
