use vstd::prelude::*;
use vstd::string::StringExecFns;

verus! {

/// The lifecycle states of a mission.
///
/// `Open` is the initial state. `Failed` is reached either by the chief
/// explicitly failing a running mission, or implicitly when the crew reaches
/// the mission's capacity while it is still recruiting.
#[derive(Clone, Copy, Debug, PartialEq, Eq, Structural)]
pub enum MissionStatuses {
    Open,
    InProgress,
    Completed,
    Failed,
}

impl MissionStatuses {
    /// The textual form under which a status is persisted and presented.
    pub open spec fn text(self) -> Seq<char> {
        match self {
            MissionStatuses::Open => "Open"@,
            MissionStatuses::InProgress => "InProgress"@,
            MissionStatuses::Completed => "Completed"@,
            MissionStatuses::Failed => "Failed"@,
        }
    }

    pub fn as_text(&self) -> (r: String)
        ensures
            r@ == self.text(),
    {
        match self {
            MissionStatuses::Open => String::from_str("Open"),
            MissionStatuses::InProgress => String::from_str("InProgress"),
            MissionStatuses::Completed => String::from_str("Completed"),
            MissionStatuses::Failed => String::from_str("Failed"),
        }
    }

    /// A mission accepts new crew only while it is recruiting: either still
    /// open, or marked failed (which covers the full-by-capacity case).
    pub open spec fn spec_accepts_join(self) -> bool {
        self is Open || self is Failed
    }

    /// Crew may walk away from a mission that is not currently running.
    pub open spec fn spec_accepts_leave(self) -> bool {
        self is Open || self is Failed || self is Completed
    }

    /// The chief may kick crew only while the mission is recruiting.
    pub open spec fn spec_accepts_kick(self) -> bool {
        self is Open || self is Failed
    }

    pub fn accepts_join(&self) -> (r: bool)
        ensures
            r == self.spec_accepts_join(),
    {
        matches!(self, MissionStatuses::Open | MissionStatuses::Failed)
    }

    pub fn accepts_leave(&self) -> (r: bool)
        ensures
            r == self.spec_accepts_leave(),
    {
        matches!(
            self,
            MissionStatuses::Open | MissionStatuses::Failed | MissionStatuses::Completed
        )
    }

    pub fn accepts_kick(&self) -> (r: bool)
        ensures
            r == self.spec_accepts_kick(),
    {
        matches!(self, MissionStatuses::Open | MissionStatuses::Failed)
    }
}

impl Default for MissionStatuses {
    /// A freshly created mission starts out open.
    fn default() -> (r: Self)
        ensures
            r is Open,
    {
        MissionStatuses::Open
    }
}

} // verus!
