use vstd::prelude::*;
use crate::statuses::MissionStatuses;

verus! {

/// A mission row as the store holds it.
///
/// Timestamps are seconds since the Unix epoch (UTC); `duration` is in
/// minutes and is consulted only when the mission is started. A mission with
/// `deleted_at` set is soft-deleted and invisible to every operation.
#[derive(Debug)]
pub struct MissionEntity {
    pub id: i32,
    pub chief_id: i32,
    pub name: String,
    pub status: MissionStatuses,
    pub description: Option<String>,
    pub created_at: i64,
    pub updated_at: i64,
    pub deleted_at: Option<i64>,
    pub max_crew: u32,
    pub duration: Option<u32>,
    pub deadline: Option<i64>,
}

impl MissionEntity {
    /// The capacity cap is a positive integer, fixed at creation.
    pub open spec fn well_formed(self) -> bool {
        self.max_crew >= 1
    }
}

/// The fields a caller supplies when creating a mission; the store assigns
/// the identity and the server-set timestamps.
#[derive(Debug)]
pub struct AddMissionEntity {
    pub chief_id: i32,
    pub name: String,
    pub status: MissionStatuses,
    pub description: Option<String>,
    pub max_crew: u32,
}

/// A partial update of a mission. A field left `None` is not touched.
///
/// `chief_id` identifies the requester: ownership itself is immutable after
/// creation, and the store only applies an edit requested by the chief.
#[derive(Debug)]
pub struct EditMissionEntity {
    pub chief_id: i32,
    pub name: Option<String>,
    pub status: Option<MissionStatuses>,
    pub description: Option<String>,
    pub max_crew: Option<u32>,
    pub duration: Option<u32>,
    pub deadline: Option<i64>,
}

/// One brawler's participation in one mission. The pair is the whole
/// identity; the store enforces its uniqueness.
#[derive(Clone, Copy, Debug, PartialEq, Eq, Structural)]
pub struct CrewMemberShips {
    pub mission_id: i32,
    pub brawler_id: i32,
}

} // verus!
