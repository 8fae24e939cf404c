use vstd::prelude::*;
use crate::missions::{AddMissionEntity, CrewMemberShips, EditMissionEntity, MissionEntity};
use crate::statuses::MissionStatuses;
use crate::store::spec_has_pair;
use crate::text::{spec_ascii_lower, spec_contains_sub};

verus! {

/// A mission as the presentation layer sees it: the stored fields joined
/// with the chief's display name and the live crew count.
#[derive(Debug)]
pub struct MissionModel {
    pub id: i32,
    pub name: String,
    pub description: Option<String>,
    pub status: MissionStatuses,
    pub chief_id: i32,
    pub chief_display_name: String,
    pub crew_count: u64,
    pub max_crew: u32,
    pub created_at: i64,
    pub updated_at: i64,
}

/// Whether `r` is the projection of the stored mission `m` with the given
/// chief name and crew count.
pub open spec fn spec_is_model_of(
    r: MissionModel,
    m: MissionEntity,
    chief_name: Seq<char>,
    crew_count: int,
) -> bool {
    &&& r.id == m.id
    &&& r.name@ == m.name@
    &&& match (r.description, m.description) {
        (Some(a), Some(b)) => a@ == b@,
        (None, None) => true,
        _ => false,
    }
    &&& r.status == m.status
    &&& r.chief_id == m.chief_id
    &&& r.chief_display_name@ == chief_name
    &&& r.crew_count == crew_count
    &&& r.max_crew == m.max_crew
    &&& r.created_at == m.created_at
    &&& r.updated_at == m.updated_at
}

/// A creation request: the name, the optional description, and the crew
/// cap the mission is created with.
#[derive(Debug)]
pub struct AddMissionModel {
    pub name: String,
    pub description: Option<String>,
    pub max_crew: u32,
}

impl AddMissionModel {
    /// The entity a creation request stores, owned by the requesting
    /// chief and starting out open.
    pub fn to_entity(&self, chief_id: i32) -> (r: AddMissionEntity)
        ensures
            r.chief_id == chief_id,
            r.name@ == self.name@,
            r.status is Open,
            match (r.description, self.description) {
                (Some(a), Some(b)) => a@ == b@,
                (None, None) => true,
                _ => false,
            },
            r.max_crew == self.max_crew,
    {
        AddMissionEntity {
            chief_id,
            name: self.name.clone(),
            status: MissionStatuses::Open,
            description: match &self.description {
                Some(d) => Some(d.clone()),
                None => None,
            },
            max_crew: self.max_crew,
        }
    }
}

/// An edit request: a new name or description, or both.
#[derive(Debug)]
pub struct EditMissionModel {
    pub name: Option<String>,
    pub description: Option<String>,
}

impl EditMissionModel {
    /// The partial update an edit request stores; it never touches the
    /// status, capacity, duration or deadline.
    pub fn to_entity(&self, chief_id: i32) -> (r: EditMissionEntity)
        ensures
            r.chief_id == chief_id,
            match (r.name, self.name) {
                (Some(a), Some(b)) => a@ == b@,
                (None, None) => true,
                _ => false,
            },
            match (r.description, self.description) {
                (Some(a), Some(b)) => a@ == b@,
                (None, None) => true,
                _ => false,
            },
            r.status is None,
            r.max_crew is None,
            r.duration is None,
            r.deadline is None,
    {
        EditMissionEntity {
            chief_id,
            name: match &self.name {
                Some(n) => Some(n.clone()),
                None => None,
            },
            status: None,
            description: match &self.description {
                Some(d) => Some(d.clone()),
                None => None,
            },
            max_crew: None,
            duration: None,
            deadline: None,
        }
    }
}

/// What a mission listing is narrowed by; a field left `None` does not
/// narrow.
#[derive(Debug)]
pub struct MissionFilter {
    pub name: Option<String>,
    pub status: Option<MissionStatuses>,
    pub exclude_owned_by: Option<i32>,
    pub exclude_joined_by: Option<i32>,
    pub owned_by: Option<i32>,
    pub joined_by: Option<i32>,
}

impl Default for MissionFilter {
    /// The filter that lets every mission through.
    fn default() -> (r: Self)
        ensures
            r.name is None,
            r.status is None,
            r.exclude_owned_by is None,
            r.exclude_joined_by is None,
            r.owned_by is None,
            r.joined_by is None,
    {
        MissionFilter {
            name: None,
            status: None,
            exclude_owned_by: None,
            exclude_joined_by: None,
            owned_by: None,
            joined_by: None,
        }
    }
}

/// Whether a mission passes the filter, given the membership table: the
/// status must match exactly, the name match is a case-folded substring
/// search, and the ownership and membership conditions compare against the
/// given brawler.
pub open spec fn spec_matches_filter(
    m: MissionEntity,
    f: MissionFilter,
    members: Seq<CrewMemberShips>,
) -> bool {
    &&& (f.status matches Some(st) ==> m.status == st)
    &&& (f.name matches Some(n) ==> spec_contains_sub(
        spec_ascii_lower(m.name@),
        spec_ascii_lower(n@),
    ))
    &&& (f.exclude_owned_by matches Some(x) ==> m.chief_id != x)
    &&& (f.exclude_joined_by matches Some(x) ==> !spec_has_pair(members, m.id, x))
    &&& (f.owned_by matches Some(x) ==> m.chief_id == x)
    &&& (f.joined_by matches Some(x) ==> spec_has_pair(members, m.id, x))
}

} // verus!
