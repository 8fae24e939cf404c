use vstd::prelude::*;
use vstd::string::StringExecFns;

verus! {

/// The structured rejections that the coordinators hand back.
///
/// Every business-rule rejection is terminal for the current call: a rejected
/// mutation is never partially applied. `StoreUnavailable` stands apart as an
/// infrastructure failure that propagates to the caller unchanged.
#[derive(Clone, Copy, Debug, PartialEq, Eq, Structural)]
pub enum MissionError {
    /// The mission, or the membership being removed, does not exist
    /// (a soft-deleted mission is invisible and reported the same way).
    NotFound,
    /// A caller other than the chief attempted a chief-only action.
    Forbidden,
    /// The chief tried to join their own mission as crew.
    SelfJoinRejected,
    /// The chief tried to kick themselves.
    SelfKickRejected,
    /// The mission's status does not admit new crew.
    NotJoinable,
    /// The mission's status does not admit leaving.
    NotLeavable,
    /// The mission's status does not admit kicking.
    NotKickable,
    /// The crew already occupies every slot.
    MissionFull,
    /// The same brawler already holds a membership in this mission.
    AlreadyJoined,
    /// The current status does not admit the requested start, complete or
    /// fail transition.
    InvalidStateTransition,
    /// The store failed; fatal to the request, never retried.
    StoreUnavailable,
}

impl MissionError {
    /// The caller-facing description of each rejection.
    pub open spec fn text(self) -> Seq<char> {
        match self {
            MissionError::NotFound => "Mission or membership not found"@,
            MissionError::Forbidden => "Only the chief may perform this action"@,
            MissionError::SelfJoinRejected => "The chief cannot join their own mission as a crew member"@,
            MissionError::SelfKickRejected => "The chief cannot kick themselves"@,
            MissionError::NotJoinable => "Mission is not joinable"@,
            MissionError::NotLeavable => "Mission is not leavable"@,
            MissionError::NotKickable => "Cannot kick a member in the current mission status"@,
            MissionError::MissionFull => "Mission is full"@,
            MissionError::AlreadyJoined => "You have already joined this mission"@,
            MissionError::InvalidStateTransition => "The current mission status does not allow this transition"@,
            MissionError::StoreUnavailable => "The mission store is unavailable"@,
        }
    }

    pub fn message(&self) -> (r: String)
        ensures
            r@ == self.text(),
    {
        match self {
            MissionError::NotFound => String::from_str("Mission or membership not found"),
            MissionError::Forbidden => String::from_str("Only the chief may perform this action"),
            MissionError::SelfJoinRejected => {
                String::from_str("The chief cannot join their own mission as a crew member")
            },
            MissionError::SelfKickRejected => String::from_str("The chief cannot kick themselves"),
            MissionError::NotJoinable => String::from_str("Mission is not joinable"),
            MissionError::NotLeavable => String::from_str("Mission is not leavable"),
            MissionError::NotKickable => {
                String::from_str("Cannot kick a member in the current mission status")
            },
            MissionError::MissionFull => String::from_str("Mission is full"),
            MissionError::AlreadyJoined => String::from_str("You have already joined this mission"),
            MissionError::InvalidStateTransition => {
                String::from_str("The current mission status does not allow this transition")
            },
            MissionError::StoreUnavailable => String::from_str("The mission store is unavailable"),
        }
    }
}

} // verus!
