use vstd::prelude::*;
use crate::crew::{
    join_decision, join_verdict, kick_decision, kick_verdict, leave_decision, leave_verdict,
    reopens_after_departure, spec_reopens_after_departure,
};
use crate::errors::MissionError;
use crate::lifecycle::{
    complete_decision, complete_verdict, deadline_after_start, fail_decision, fail_verdict,
    spec_deadline_after_start, start_decision, start_verdict,
};
use crate::missions::{AddMissionEntity, CrewMemberShips, EditMissionEntity, MissionEntity};
use crate::statuses::MissionStatuses;

verus! {

// ---------------------------------------------------------------------------
// Sequence-level views of the two tables
// ---------------------------------------------------------------------------

/// The first mission in `s` carrying `id`, if any. Since the store keeps ids
/// distinct, the first occurrence is the only one.
pub open spec fn spec_find_mission(s: Seq<MissionEntity>, id: i32) -> Option<MissionEntity>
    decreases s.len(),
{
    if s.len() == 0 {
        None
    } else if s[0].id == id {
        Some(s[0])
    } else {
        spec_find_mission(s.drop_first(), id)
    }
}

/// How many memberships in `s` belong to the given mission.
pub open spec fn count_members(s: Seq<CrewMemberShips>, mission_id: i32) -> nat
    decreases s.len(),
{
    if s.len() == 0 {
        0
    } else {
        count_members(s.drop_last(), mission_id) + (if s.last().mission_id == mission_id {
            1nat
        } else {
            0nat
        })
    }
}

/// Whether the membership pair occurs in `s`.
pub open spec fn spec_has_pair(s: Seq<CrewMemberShips>, mission_id: i32, brawler_id: i32) -> bool {
    exists|i: int|
        0 <= i < s.len() && s[i].mission_id == mission_id && s[i].brawler_id == brawler_id
}

/// `s` with the first occurrence of the pair removed, and `s` itself when the
/// pair is absent.
pub open spec fn remove_pair(s: Seq<CrewMemberShips>, mission_id: i32, brawler_id: i32) -> Seq<
    CrewMemberShips,
>
    decreases s.len(),
{
    if s.len() == 0 {
        s
    } else if s[0].mission_id == mission_id && s[0].brawler_id == brawler_id {
        s.drop_first()
    } else {
        seq![s[0]] + remove_pair(s.drop_first(), mission_id, brawler_id)
    }
}

/// No two missions share an id.
pub open spec fn mission_ids_distinct(s: Seq<MissionEntity>) -> bool {
    forall|i: int, j: int| 0 <= i < j < s.len() ==> s[i].id != s[j].id
}

/// No membership pair occurs twice: the store-enforced uniqueness of
/// `(mission_id, brawler_id)`.
pub open spec fn pairs_distinct(s: Seq<CrewMemberShips>) -> bool {
    forall|i: int, j: int|
        0 <= i < j < s.len() ==> !(s[i].mission_id == s[j].mission_id && s[i].brawler_id
            == s[j].brawler_id)
}

// ---------------------------------------------------------------------------
// Lemmas about the sequence-level views
// ---------------------------------------------------------------------------

proof fn lemma_distinct_drop_first(s: Seq<MissionEntity>)
    requires
        mission_ids_distinct(s),
        s.len() >= 1,
    ensures
        mission_ids_distinct(s.drop_first()),
{
    assert forall|a: int, b: int|
        0 <= a < b < s.drop_first().len() implies s.drop_first()[a].id != s.drop_first()[b].id by {
        assert(s.drop_first()[a] == s[a + 1]);
        assert(s.drop_first()[b] == s[b + 1]);
    }
}

/// Looking a mission up after updating the slot that holds the same id: the
/// updated entity is found under its id, every other id resolves as before.
proof fn lemma_find_update(s: Seq<MissionEntity>, i: int, m2: MissionEntity, id: i32)
    requires
        0 <= i < s.len(),
        mission_ids_distinct(s),
        s[i].id == m2.id,
    ensures
        spec_find_mission(s.update(i, m2), id) == (if id == m2.id {
            Some(m2)
        } else {
            spec_find_mission(s, id)
        }),
    decreases s.len(),
{
    let t = s.update(i, m2);
    if i == 0 {
        assert(t[0] == m2);
        if id != m2.id {
            assert(t.drop_first() =~= s.drop_first());
        }
    } else {
        assert(t[0] == s[0]);
        assert(s[0].id != s[i].id);
        if id != s[0].id {
            assert(t.drop_first() =~= s.drop_first().update(i - 1, m2));
            lemma_distinct_drop_first(s);
            assert(s.drop_first()[i - 1] == s[i]);
            lemma_find_update(s.drop_first(), i - 1, m2, id);
        }
    }
}

/// Looking a mission up after appending one with a fresh id: the new entity
/// is found under its id, every other id resolves as before.
proof fn lemma_find_push(s: Seq<MissionEntity>, m: MissionEntity, id: i32)
    requires
        spec_find_mission(s, m.id) is None,
    ensures
        spec_find_mission(s.push(m), id) == (if id == m.id {
            Some(m)
        } else {
            spec_find_mission(s, id)
        }),
    decreases s.len(),
{
    let t = s.push(m);
    assert(t.len() == s.len() + 1);
    if s.len() == 0 {
        assert(t[0] == m);
        if id == m.id {
            assert(spec_find_mission(t, id) == Some(m));
        } else {
            assert(t.drop_first() =~= Seq::<MissionEntity>::empty());
            assert(spec_find_mission(t, id) is None);
        }
    } else {
        assert(t[0] == s[0]);
        assert(s[0].id != m.id);
        if id == s[0].id {
            assert(spec_find_mission(t, id) == Some(s[0]));
            assert(spec_find_mission(s, id) == Some(s[0]));
        } else {
            assert(t.drop_first() =~= s.drop_first().push(m));
            lemma_find_push(s.drop_first(), m, id);
            assert(spec_find_mission(t, id) == spec_find_mission(t.drop_first(), id));
            assert(spec_find_mission(s, id) == spec_find_mission(s.drop_first(), id));
        }
    }
}

/// Appending a membership raises the count of its mission by one and leaves
/// every other count alone.
proof fn lemma_count_push(s: Seq<CrewMemberShips>, p: CrewMemberShips, mission_id: i32)
    ensures
        count_members(s.push(p), mission_id) == count_members(s, mission_id) + (
        if p.mission_id == mission_id {
            1int
        } else {
            0int
        }),
{
    assert(s.push(p).drop_last() =~= s);
    assert(s.push(p).last() == p);
}

/// Removing the membership at index `i` lowers the count of its mission by
/// one and leaves every other count alone.
proof fn lemma_count_remove(s: Seq<CrewMemberShips>, i: int, mission_id: i32)
    requires
        0 <= i < s.len(),
    ensures
        count_members(s.remove(i), mission_id) == count_members(s, mission_id) - (
        if s[i].mission_id == mission_id {
            1int
        } else {
            0int
        }),
    decreases s.len(),
{
    if i == s.len() - 1 {
        assert(s.remove(i) =~= s.drop_last());
    } else {
        assert(s.remove(i).last() == s[s.len() - 1]);
        assert(s.remove(i).drop_last() =~= s.drop_last().remove(i));
        assert(s.drop_last()[i] == s[i]);
        lemma_count_remove(s.drop_last(), i, mission_id);
    }
}

/// When the pair first occurs at index `i`, removing the pair is removing
/// that index.
proof fn lemma_remove_pair_at(s: Seq<CrewMemberShips>, mission_id: i32, brawler_id: i32, i: int)
    requires
        0 <= i < s.len(),
        s[i].mission_id == mission_id && s[i].brawler_id == brawler_id,
        forall|k: int|
            0 <= k < i ==> !(s[k].mission_id == mission_id && s[k].brawler_id == brawler_id),
    ensures
        remove_pair(s, mission_id, brawler_id) == s.remove(i),
    decreases s.len(),
{
    if i == 0 {
        assert(remove_pair(s, mission_id, brawler_id) =~= s.remove(0));
    } else {
        assert forall|k: int|
            0 <= k < i - 1 implies !(s.drop_first()[k].mission_id == mission_id
            && s.drop_first()[k].brawler_id == brawler_id) by {
            assert(s.drop_first()[k] == s[k + 1]);
        }
        assert(s.drop_first()[i - 1] == s[i]);
        lemma_remove_pair_at(s.drop_first(), mission_id, brawler_id, i - 1);
        assert(remove_pair(s, mission_id, brawler_id) == seq![s[0]] + s.drop_first().remove(i - 1));
        assert(seq![s[0]] + s.drop_first().remove(i - 1) =~= s.remove(i));
    }
}

/// A found mission always carries the id it was looked up under.
pub proof fn lemma_find_id(s: Seq<MissionEntity>, id: i32)
    ensures
        spec_find_mission(s, id) matches Some(m) ==> m.id == id,
    decreases s.len(),
{
    if s.len() > 0 && s[0].id != id {
        lemma_find_id(s.drop_first(), id);
    }
}

/// Looking a mission up when no entry carries the id.
proof fn lemma_find_none(s: Seq<MissionEntity>, id: i32)
    requires
        forall|k: int| 0 <= k < s.len() ==> s[k].id != id,
    ensures
        spec_find_mission(s, id) is None,
    decreases s.len(),
{
    if s.len() > 0 {
        assert forall|k: int| 0 <= k < s.drop_first().len() implies s.drop_first()[k].id != id by {
            assert(s.drop_first()[k] == s[k + 1]);
        }
        lemma_find_none(s.drop_first(), id);
    }
}

/// When the pair does not occur, removing it changes nothing.
proof fn lemma_remove_pair_absent(s: Seq<CrewMemberShips>, mission_id: i32, brawler_id: i32)
    requires
        !spec_has_pair(s, mission_id, brawler_id),
    ensures
        remove_pair(s, mission_id, brawler_id) == s,
    decreases s.len(),
{
    if s.len() > 0 {
        assert(!(s[0].mission_id == mission_id && s[0].brawler_id == brawler_id));
        assert forall|k: int|
            0 <= k < s.drop_first().len() implies !(s.drop_first()[k].mission_id == mission_id
            && s.drop_first()[k].brawler_id == brawler_id) by {
            assert(s.drop_first()[k] == s[k + 1]);
        }
        lemma_remove_pair_absent(s.drop_first(), mission_id, brawler_id);
        assert(seq![s[0]] + s.drop_first() =~= s);
    }
}

/// Replacing a row by one carrying the same id keeps ids distinct and keeps
/// every id in place.
proof fn lemma_update_preserves_wf(s: Seq<MissionEntity>, i: int, m2: MissionEntity)
    requires
        0 <= i < s.len(),
        mission_ids_distinct(s),
        m2.id == s[i].id,
    ensures
        mission_ids_distinct(s.update(i, m2)),
        forall|k: int| 0 <= k < s.len() ==> (#[trigger] s.update(i, m2)[k]).id == s[k].id,
{
    let t = s.update(i, m2);
    assert forall|k: int| 0 <= k < s.len() implies (#[trigger] t[k]).id == s[k].id by {
        if k != i {
            assert(t[k] == s[k]);
        }
    }
    assert forall|a: int, b: int| 0 <= a < b < t.len() implies t[a].id != t[b].id by {
        assert(t[a].id == s[a].id);
        assert(t[b].id == s[b].id);
    }
}

// ---------------------------------------------------------------------------
// What the mission write primitives do to a row
// ---------------------------------------------------------------------------

/// A partial update of status and deadline; an outer `None` leaves the
/// field untouched.
pub open spec fn spec_apply_update(
    m: MissionEntity,
    status: Option<MissionStatuses>,
    deadline: Option<Option<i64>>,
) -> MissionEntity {
    MissionEntity {
        status: match status {
            Some(st) => st,
            None => m.status,
        },
        deadline: match deadline {
            Some(d) => d,
            None => m.deadline,
        },
        ..m
    }
}

/// The row a creation stores: the assigned id, the caller's fields, both
/// timestamps stamped with the creation instant, and no duration, deadline
/// or soft-delete marker yet.
pub open spec fn spec_new_mission(e: AddMissionEntity, id: i32, now_ts: i64) -> MissionEntity {
    MissionEntity {
        id,
        chief_id: e.chief_id,
        name: e.name,
        status: e.status,
        description: e.description,
        created_at: now_ts,
        updated_at: now_ts,
        deleted_at: None,
        max_crew: e.max_crew,
        duration: None,
        deadline: None,
    }
}

/// The row an edit stores: each supplied field replaces the stored one;
/// identity, ownership, timestamps and the soft-delete marker are kept.
pub open spec fn spec_apply_edit(m: MissionEntity, e: EditMissionEntity) -> MissionEntity {
    MissionEntity {
        name: match e.name {
            Some(n) => n,
            None => m.name,
        },
        status: match e.status {
            Some(st) => st,
            None => m.status,
        },
        description: match e.description {
            Some(d) => Some(d),
            None => m.description,
        },
        max_crew: match e.max_crew {
            Some(c) => c,
            None => m.max_crew,
        },
        duration: match e.duration {
            Some(d) => Some(d),
            None => m.duration,
        },
        deadline: match e.deadline {
            Some(d) => Some(d),
            None => m.deadline,
        },
        ..m
    }
}

/// The row a soft delete stores: unchanged but for the deletion stamp.
pub open spec fn spec_soft_delete(m: MissionEntity, now_ts: i64) -> MissionEntity {
    MissionEntity { deleted_at: Some(now_ts), ..m }
}

// ---------------------------------------------------------------------------
// The store
// ---------------------------------------------------------------------------

/// The in-memory mission store: the missions table, the crew membership
/// table, and the next identity to hand out.
///
/// Every coordinator operation on it is a single atomic read-modify-write,
/// which closes the check-then-act window that separate store round-trips
/// would leave open; the uniqueness of `(mission_id, brawler_id)` is enforced
/// on insertion as the final backstop against duplicate joins.
pub struct MissionStore {
    missions: Vec<MissionEntity>,
    memberships: Vec<CrewMemberShips>,
    next_id: i32,
}

impl MissionStore {
    /// The missions table, in insertion order.
    pub closed spec fn spec_missions(self) -> Seq<MissionEntity> {
        self.missions@
    }

    /// The membership table, in insertion order.
    pub closed spec fn spec_memberships(self) -> Seq<CrewMemberShips> {
        self.memberships@
    }

    /// The store's invariant: mission ids are distinct and below the next
    /// identity to hand out, membership pairs are unique, and every mission
    /// row is well formed.
    pub closed spec fn wf(self) -> bool {
        &&& mission_ids_distinct(self.missions@)
        &&& pairs_distinct(self.memberships@)
        &&& forall|i: int|
            0 <= i < self.missions@.len() ==> (#[trigger] self.missions@[i]).well_formed()
        &&& 1 <= self.next_id
        &&& forall|i: int|
            0 <= i < self.missions@.len() ==> 1 <= (#[trigger] self.missions@[i]).id
                < self.next_id
    }

    /// The mission carrying `id`, soft-deleted or not.
    pub open spec fn spec_mission(self, id: i32) -> Option<MissionEntity> {
        spec_find_mission(self.spec_missions(), id)
    }

    /// The mission carrying `id` as the operations see it: a soft-deleted
    /// row is invisible.
    pub open spec fn spec_visible_mission(self, id: i32) -> Option<MissionEntity> {
        match self.spec_mission(id) {
            Some(m) => if m.deleted_at is None {
                Some(m)
            } else {
                None
            },
            None => None,
        }
    }

    pub open spec fn spec_crew_count(self, mission_id: i32) -> nat {
        count_members(self.spec_memberships(), mission_id)
    }

    pub open spec fn spec_is_member(self, mission_id: i32, brawler_id: i32) -> bool {
        spec_has_pair(self.spec_memberships(), mission_id, brawler_id)
    }

    pub fn new() -> (s: Self)
        ensures
            s.wf(),
            s.spec_missions() == Seq::<MissionEntity>::empty(),
            s.spec_memberships() == Seq::<CrewMemberShips>::empty(),
    {
        MissionStore { missions: Vec::new(), memberships: Vec::new(), next_id: 1 }
    }

    /// The index of the row carrying `mission_id`, deleted or not.
    fn find_mission_index(&self, mission_id: i32) -> (r: Option<usize>)
        ensures
            match r {
                Some(i) => i < self.missions@.len() && self.missions@[i as int].id == mission_id
                    && self.spec_mission(mission_id) == Some(self.missions@[i as int]),
                None => self.spec_mission(mission_id) is None,
            },
    {
        let n = self.missions.len();
        let mut i: usize = 0;
        proof {
            assert(self.missions@.skip(0) =~= self.missions@);
        }
        while i < n
            invariant
                n == self.missions@.len(),
                i <= n,
                spec_find_mission(self.missions@.skip(i as int), mission_id) == spec_find_mission(
                    self.missions@,
                    mission_id,
                ),
            decreases n - i,
        {
            if self.missions[i].id == mission_id {
                proof {
                    assert(self.missions@.skip(i as int)[0] == self.missions@[i as int]);
                }
                return Some(i);
            }
            proof {
                assert(self.missions@.skip(i as int)[0] == self.missions@[i as int]);
                assert(self.missions@.skip(i as int).drop_first() =~= self.missions@.skip(
                    i as int + 1,
                ));
            }
            i = i + 1;
        }
        proof {
            assert(self.missions@.skip(n as int) =~= Seq::<MissionEntity>::empty());
        }
        None
    }

    /// How many mission rows the store holds, soft-deleted ones included.
    pub fn missions_len(&self) -> (n: usize)
        ensures
            n == self.spec_missions().len(),
    {
        self.missions.len()
    }

    /// The mission row at a position, for the read-only projections that
    /// walk the table.
    pub fn mission_at(&self, i: usize) -> (m: &MissionEntity)
        requires
            i < self.spec_missions().len(),
        ensures
            *m == self.spec_missions()[i as int],
    {
        &self.missions[i]
    }

    /// How many membership rows the store holds.
    pub fn memberships_len(&self) -> (n: usize)
        ensures
            n == self.spec_memberships().len(),
    {
        self.memberships.len()
    }

    /// The membership row at a position, for the read-only projections
    /// that walk the table.
    pub fn membership_at(&self, i: usize) -> (p: CrewMemberShips)
        requires
            i < self.spec_memberships().len(),
        ensures
            p == self.spec_memberships()[i as int],
    {
        self.memberships[i]
    }

    /// The status of a mission row, soft-deleted or not; the success
    /// statistics count concluded missions whether or not they were later
    /// removed.
    pub fn mission_status(&self, mission_id: i32) -> (r: Option<MissionStatuses>)
        ensures
            match self.spec_mission(mission_id) {
                Some(m) => r == Some(m.status),
                None => r is None,
            },
    {
        match self.find_mission_index(mission_id) {
            Some(i) => Some(self.missions[i].status),
            None => None,
        }
    }

    /// The store read primitive for one mission; a soft-deleted row is
    /// reported as absent.
    pub fn get_mission(&self, mission_id: i32) -> (r: Result<&MissionEntity, MissionError>)
        ensures
            match r {
                Ok(m) => self.spec_visible_mission(mission_id) == Some(*m),
                Err(e) => e == MissionError::NotFound && self.spec_visible_mission(mission_id)
                    is None,
            },
    {
        match self.find_mission_index(mission_id) {
            Some(i) => {
                let m = &self.missions[i];
                if m.deleted_at.is_none() {
                    Ok(m)
                } else {
                    Err(MissionError::NotFound)
                }
            },
            None => Err(MissionError::NotFound),
        }
    }

    /// The store read primitive for a mission's live crew count.
    pub fn count_crew(&self, mission_id: i32) -> (c: usize)
        ensures
            c == self.spec_crew_count(mission_id),
            c <= self.spec_memberships().len(),
    {
        let n = self.memberships.len();
        let mut c: usize = 0;
        let mut i: usize = 0;
        proof {
            assert(self.memberships@.take(0) =~= Seq::<CrewMemberShips>::empty());
        }
        while i < n
            invariant
                n == self.memberships@.len(),
                i <= n,
                c <= i,
                c == count_members(self.memberships@.take(i as int), mission_id),
            decreases n - i,
        {
            proof {
                assert(self.memberships@.take(i as int + 1).drop_last() =~= self.memberships@.take(
                    i as int,
                ));
                assert(self.memberships@.take(i as int + 1).last() == self.memberships@[i as int]);
            }
            if self.memberships[i].mission_id == mission_id {
                c = c + 1;
            }
            i = i + 1;
        }
        proof {
            assert(self.memberships@.take(n as int) =~= self.memberships@);
        }
        c
    }

    /// Whether the pair currently holds a membership.
    pub fn is_member(&self, mission_id: i32, brawler_id: i32) -> (r: bool)
        ensures
            r == self.spec_is_member(mission_id, brawler_id),
    {
        let n = self.memberships.len();
        let mut i: usize = 0;
        while i < n
            invariant
                n == self.memberships@.len(),
                i <= n,
                forall|k: int|
                    0 <= k < i ==> !((#[trigger] self.memberships@[k]).mission_id == mission_id
                        && self.memberships@[k].brawler_id == brawler_id),
            decreases n - i,
        {
            if self.memberships[i].mission_id == mission_id && self.memberships[i].brawler_id
                == brawler_id {
                return true;
            }
            i = i + 1;
        }
        false
    }

    /// The store write primitive that inserts a membership; a duplicate pair
    /// is refused, surfacing the uniqueness constraint as `AlreadyJoined`.
    pub fn insert_membership(&mut self, mission_id: i32, brawler_id: i32) -> (r: Result<
        (),
        MissionError,
    >)
        requires
            old(self).wf(),
        ensures
            final(self).wf(),
            final(self).spec_missions() == old(self).spec_missions(),
            match r {
                Ok(_) => !old(self).spec_is_member(mission_id, brawler_id)
                    && final(self).spec_memberships() == old(self).spec_memberships().push(
                    (CrewMemberShips { mission_id, brawler_id }),
                ),
                Err(e) => e == MissionError::AlreadyJoined
                    && old(self).spec_is_member(mission_id, brawler_id)
                    && final(self).spec_memberships() == old(self).spec_memberships(),
            },
    {
        if self.is_member(mission_id, brawler_id) {
            return Err(MissionError::AlreadyJoined);
        }
        let p = CrewMemberShips { mission_id, brawler_id };
        proof {
            let s = self.memberships@;
            assert forall|a: int, b: int|
                0 <= a < b < s.push(p).len() implies !(s.push(p)[a].mission_id == s.push(
                p,
            )[b].mission_id && s.push(p)[a].brawler_id == s.push(p)[b].brawler_id) by {
                if b < s.len() {
                    assert(s.push(p)[a] == s[a]);
                    assert(s.push(p)[b] == s[b]);
                } else {
                    assert(s.push(p)[b] == p);
                    assert(s.push(p)[a] == s[a]);
                }
            }
        }
        self.memberships.push(p);
        Ok(())
    }

    /// The store write primitive for a mission row: a partial update of the
    /// status and the deadline, refused with `NotFound` when the mission is
    /// absent or soft-deleted. An outer `None` leaves the field untouched.
    pub fn update_mission(
        &mut self,
        mission_id: i32,
        status: Option<MissionStatuses>,
        deadline: Option<Option<i64>>,
    ) -> (r: Result<i32, MissionError>)
        requires
            old(self).wf(),
        ensures
            final(self).wf(),
            final(self).spec_memberships() == old(self).spec_memberships(),
            match old(self).spec_visible_mission(mission_id) {
                Some(m) => r == Ok::<i32, MissionError>(mission_id)
                    && final(self).spec_mission(mission_id) == Some(
                    spec_apply_update(m, status, deadline),
                ) && final(self).spec_missions().len() == old(self).spec_missions().len() && (
                forall|id: i32|
                    id != mission_id ==> final(self).spec_mission(id) == old(self).spec_mission(
                        id,
                    )),
                None => r == Err::<i32, MissionError>(MissionError::NotFound)
                    && final(self).spec_missions() == old(self).spec_missions(),
            },
    {
        match self.find_mission_index(mission_id) {
            Some(i) => {
                if self.missions[i].deleted_at.is_some() {
                    return Err(MissionError::NotFound);
                }
                let ghost s = self.missions@;
                let m = self.missions.remove(i);
                let m2 = MissionEntity {
                    status: match status {
                        Some(st) => st,
                        None => m.status,
                    },
                    deadline: match deadline {
                        Some(d) => d,
                        None => m.deadline,
                    },
                    ..m
                };
                self.missions.insert(i, m2);
                proof {
                    assert(self.missions@ =~= s.update(i as int, m2));
                    lemma_update_preserves_wf(s, i as int, m2);
                    assert forall|id: i32| #![auto]
                        spec_find_mission(s.update(i as int, m2), id) == (if id == mission_id {
                            Some(m2)
                        } else {
                            spec_find_mission(s, id)
                        }) by {
                        lemma_find_update(s, i as int, m2, id);
                    }
                }
                Ok(mission_id)
            },
            None => Err(MissionError::NotFound),
        }
    }

    /// Creates a mission: assigns the next identity, stamps both timestamps
    /// with `now_ts`, and stores the row as `Open` with no duration, no
    /// deadline and no soft-delete marker. Fails with `StoreUnavailable`
    /// only when the identity space is exhausted.
    pub fn add_mission(&mut self, entity: AddMissionEntity, now_ts: i64) -> (r: Result<
        i32,
        MissionError,
    >)
        requires
            old(self).wf(),
            entity.max_crew >= 1,
            entity.status is Open,
        ensures
            final(self).wf(),
            final(self).spec_memberships() == old(self).spec_memberships(),
            match r {
                Ok(id) => old(self).spec_mission(id) is None && final(self).spec_missions() == old(self).spec_missions().push(spec_new_mission(entity, id, now_ts)) && final(self).spec_mission(id) == Some(spec_new_mission(entity, id, now_ts)) && (forall|
                    other: i32,
                |
                    other != id ==> final(self).spec_mission(other) == old(self).spec_mission(
                        other,
                    )),
                Err(e) => e == MissionError::StoreUnavailable && final(self).spec_missions() == old(self).spec_missions(),
            },
    {
        if self.next_id == i32::MAX {
            return Err(MissionError::StoreUnavailable);
        }
        let id = self.next_id;
        self.next_id = self.next_id + 1;
        let m = MissionEntity {
            id,
            chief_id: entity.chief_id,
            name: entity.name,
            status: entity.status,
            description: entity.description,
            created_at: now_ts,
            updated_at: now_ts,
            deleted_at: None,
            max_crew: entity.max_crew,
            duration: None,
            deadline: None,
        };
        proof {
            let s = self.missions@;
            assert forall|k: int| 0 <= k < s.len() implies (#[trigger] s[k]).id != id by {}
            lemma_find_none(s, id);
            assert forall|other: i32| #![auto]
                spec_find_mission(s.push(m), other) == (if other == id {
                    Some(m)
                } else {
                    spec_find_mission(s, other)
                }) by {
                lemma_find_push(s, m, other);
            }
            assert forall|a: int, b: int|
                0 <= a < b < s.push(m).len() implies s.push(m)[a].id != s.push(m)[b].id by {
                if b < s.len() {
                    assert(s.push(m)[a] == s[a]);
                    assert(s.push(m)[b] == s[b]);
                } else {
                    assert(s.push(m)[b] == m);
                    assert(s.push(m)[a] == s[a]);
                }
            }
        }
        self.missions.push(m);
        Ok(id)
    }

    /// Applies a chief-requested edit to a mission row: each supplied field
    /// replaces the stored one, ownership and identity never change, and a
    /// caller other than the chief is refused.
    pub fn edit_mission(&mut self, mission_id: i32, entity: EditMissionEntity) -> (r: Result<
        i32,
        MissionError,
    >)
        requires
            old(self).wf(),
            entity.max_crew matches Some(v) ==> v >= 1,
        ensures
            final(self).wf(),
            final(self).spec_memberships() == old(self).spec_memberships(),
            match old(self).spec_visible_mission(mission_id) {
                Some(m) => if m.chief_id == entity.chief_id {
                    r == Ok::<i32, MissionError>(mission_id) && final(self).spec_mission(mission_id)
                        == Some(spec_apply_edit(m, entity)) && final(self).spec_missions().len()
                        == old(self).spec_missions().len() && (forall|id: i32|
                        id != mission_id ==> final(self).spec_mission(id) == old(self).spec_mission(
                            id,
                        ))
                } else {
                    r == Err::<i32, MissionError>(MissionError::Forbidden) && final(self).spec_missions() == old(self).spec_missions()
                },
                None => r == Err::<i32, MissionError>(MissionError::NotFound) && final(self).spec_missions() == old(self).spec_missions(),
            },
    {
        match self.find_mission_index(mission_id) {
            Some(i) => {
                if self.missions[i].deleted_at.is_some() {
                    return Err(MissionError::NotFound);
                }
                if self.missions[i].chief_id != entity.chief_id {
                    return Err(MissionError::Forbidden);
                }
                let ghost s = self.missions@;
                let m = self.missions.remove(i);
                let m2 = MissionEntity {
                    id: m.id,
                    chief_id: m.chief_id,
                    name: match entity.name {
                        Some(n) => n,
                        None => m.name,
                    },
                    status: match entity.status {
                        Some(st) => st,
                        None => m.status,
                    },
                    description: match entity.description {
                        Some(d) => Some(d),
                        None => m.description,
                    },
                    created_at: m.created_at,
                    updated_at: m.updated_at,
                    deleted_at: m.deleted_at,
                    max_crew: match entity.max_crew {
                        Some(c) => c,
                        None => m.max_crew,
                    },
                    duration: match entity.duration {
                        Some(d) => Some(d),
                        None => m.duration,
                    },
                    deadline: match entity.deadline {
                        Some(d) => Some(d),
                        None => m.deadline,
                    },
                };
                self.missions.insert(i, m2);
                proof {
                    assert(self.missions@ =~= s.update(i as int, m2));
                    lemma_update_preserves_wf(s, i as int, m2);
                    assert forall|id: i32| #![auto]
                        spec_find_mission(s.update(i as int, m2), id) == (if id == mission_id {
                            Some(m2)
                        } else {
                            spec_find_mission(s, id)
                        }) by {
                        lemma_find_update(s, i as int, m2, id);
                    }
                }
                Ok(mission_id)
            },
            None => Err(MissionError::NotFound),
        }
    }

    /// Soft-deletes a mission: chief only, and only while it is not
    /// running. The row keeps its data but becomes invisible to every
    /// operation.
    pub fn remove_mission(&mut self, mission_id: i32, chief_id: i32, now_ts: i64) -> (r: Result<
        (),
        MissionError,
    >)
        requires
            old(self).wf(),
        ensures
            final(self).wf(),
            final(self).spec_memberships() == old(self).spec_memberships(),
            match old(self).spec_visible_mission(mission_id) {
                Some(m) => if m.chief_id != chief_id {
                    r == Err::<(), MissionError>(MissionError::Forbidden) && final(self).spec_missions() == old(self).spec_missions()
                } else if m.status is InProgress {
                    r == Err::<(), MissionError>(MissionError::InvalidStateTransition) && final(self).spec_missions() == old(self).spec_missions()
                } else {
                    r == Ok::<(), MissionError>(()) && final(self).spec_mission(mission_id) == Some(
                        spec_soft_delete(m, now_ts),
                    ) && final(self).spec_visible_mission(mission_id) is None && final(self).spec_missions().len() == old(self).spec_missions().len() && (forall|id: i32|
                        id != mission_id ==> final(self).spec_mission(id) == old(self).spec_mission(
                            id,
                        ))
                },
                None => r == Err::<(), MissionError>(MissionError::NotFound) && final(self).spec_missions() == old(self).spec_missions(),
            },
    {
        match self.find_mission_index(mission_id) {
            Some(i) => {
                if self.missions[i].deleted_at.is_some() {
                    return Err(MissionError::NotFound);
                }
                if self.missions[i].chief_id != chief_id {
                    return Err(MissionError::Forbidden);
                }
                if self.missions[i].status == MissionStatuses::InProgress {
                    return Err(MissionError::InvalidStateTransition);
                }
                let ghost s = self.missions@;
                let m = self.missions.remove(i);
                let m2 = MissionEntity { deleted_at: Some(now_ts), ..m };
                self.missions.insert(i, m2);
                proof {
                    assert(self.missions@ =~= s.update(i as int, m2));
                    lemma_update_preserves_wf(s, i as int, m2);
                    assert forall|id: i32| #![auto]
                        spec_find_mission(s.update(i as int, m2), id) == (if id == mission_id {
                            Some(m2)
                        } else {
                            spec_find_mission(s, id)
                        }) by {
                        lemma_find_update(s, i as int, m2, id);
                    }
                }
                Ok(())
            },
            None => Err(MissionError::NotFound),
        }
    }

    /// The store write primitive that deletes a membership; deleting an
    /// absent pair is a no-op.
    pub fn delete_membership(&mut self, mission_id: i32, brawler_id: i32) -> (r: Result<
        (),
        MissionError,
    >)
        requires
            old(self).wf(),
        ensures
            final(self).wf(),
            r is Ok,
            final(self).spec_missions() == old(self).spec_missions(),
            final(self).spec_memberships() == remove_pair(
                old(self).spec_memberships(),
                mission_id,
                brawler_id,
            ),
            !final(self).spec_is_member(mission_id, brawler_id),
            final(self).spec_crew_count(mission_id) == old(self).spec_crew_count(mission_id) - (
            if old(self).spec_is_member(mission_id, brawler_id) {
                1int
            } else {
                0int
            }),
            forall|mid: i32|
                mid != mission_id ==> final(self).spec_crew_count(mid) == old(self).spec_crew_count(
                    mid,
                ),
            forall|mid: i32, bid: i32|
                !(mid == mission_id && bid == brawler_id) ==> final(self).spec_is_member(mid, bid)
                    == old(self).spec_is_member(mid, bid),
    {
        let n = self.memberships.len();
        let mut i: usize = 0;
        while i < n
            invariant
                old(self) == self,
                old(self).wf(),
                n == self.memberships@.len(),
                i <= n,
                forall|k: int|
                    0 <= k < i ==> !((#[trigger] self.memberships@[k]).mission_id == mission_id
                        && self.memberships@[k].brawler_id == brawler_id),
            decreases n - i,
        {
            if self.memberships[i].mission_id == mission_id && self.memberships[i].brawler_id
                == brawler_id {
                proof {
                    let s = self.memberships@;
                    let iv = i as int;
                    lemma_remove_pair_at(s, mission_id, brawler_id, iv);
                    let r = s.remove(iv);
                    // the pair is gone
                    assert forall|k: int|
                        0 <= k < r.len() implies !((#[trigger] r[k]).mission_id == mission_id
                        && r[k].brawler_id == brawler_id) by {
                        if k < iv {
                            assert(r[k] == s[k]);
                        } else {
                            assert(r[k] == s[k + 1]);
                        }
                    }
                    // uniqueness is preserved
                    assert forall|a: int, b: int|
                        0 <= a < b < r.len() implies !((#[trigger] r[a]).mission_id
                        == (#[trigger] r[b]).mission_id && r[a].brawler_id == r[b].brawler_id) by {
                        let a0 = if a < iv { a } else { a + 1 };
                        let b0 = if b < iv { b } else { b + 1 };
                        assert(r[a] == s[a0]);
                        assert(r[b] == s[b0]);
                    }
                    // every count changes as stated
                    assert forall|mid: i32| #![auto]
                        count_members(r, mid) == count_members(s, mid) - (
                        if mid == mission_id {
                            1int
                        } else {
                            0int
                        }) by {
                        lemma_count_remove(s, iv, mid);
                    }
                    // every other pair's membership is untouched
                    assert forall|mid: i32, bid: i32|
                        !(mid == mission_id && bid == brawler_id) implies #[trigger] spec_has_pair(
                        r,
                        mid,
                        bid,
                    ) == spec_has_pair(s, mid, bid) by {
                        if spec_has_pair(s, mid, bid) {
                            let j = choose|j: int|
                                0 <= j < s.len() && s[j].mission_id == mid && s[j].brawler_id
                                    == bid;
                            if j < iv {
                                assert(r[j] == s[j]);
                            } else {
                                assert(r[j - 1] == s[j]);
                            }
                            assert(spec_has_pair(r, mid, bid));
                        }
                        if spec_has_pair(r, mid, bid) {
                            let k = choose|k: int|
                                0 <= k < r.len() && r[k].mission_id == mid && r[k].brawler_id
                                    == bid;
                            if k < iv {
                                assert(s[k] == r[k]);
                            } else {
                                assert(s[k + 1] == r[k]);
                            }
                            assert(spec_has_pair(s, mid, bid));
                        }
                    }
                }
                self.memberships.remove(i);
                return Ok(());
            }
            i = i + 1;
        }
        proof {
            lemma_remove_pair_absent(self.memberships@, mission_id, brawler_id);
        }
        Ok(())
    }

    // -----------------------------------------------------------------------
    // Crew membership coordinator
    // -----------------------------------------------------------------------

    /// One brawler joins a mission, atomically: the snapshot is read, the
    /// join verdict decided and the mutation applied with no interleaving
    /// window.
    ///
    /// On success the membership is inserted and the crew count afterwards
    /// never exceeds the capacity cap. When the roster is already at
    /// capacity, the implicit transition to `Failed` is recorded and the
    /// call fails with `MissionFull`. Every other rejection leaves the store
    /// untouched.
    pub fn join(&mut self, mission_id: i32, brawler_id: i32) -> (r: Result<(), MissionError>)
        requires
            old(self).wf(),
        ensures
            final(self).wf(),
            match old(self).spec_visible_mission(mission_id) {
                None => r == Err::<(), MissionError>(MissionError::NotFound)
                    && final(self).spec_missions() == old(self).spec_missions()
                    && final(self).spec_memberships() == old(self).spec_memberships(),
                Some(m) => {
                    let verdict = join_verdict(
                        m,
                        old(self).spec_crew_count(mission_id),
                        old(self).spec_is_member(mission_id, brawler_id),
                        brawler_id,
                    );
                    &&& r == verdict
                    &&& (verdict is Ok ==> final(self).spec_memberships() == old(self).spec_memberships().push((CrewMemberShips { mission_id, brawler_id })) && final(self).spec_crew_count(mission_id) == old(self).spec_crew_count(mission_id) + 1
                        && final(self).spec_crew_count(mission_id) <= m.max_crew && (
                    if old(self).spec_crew_count(mission_id) + 1 == m.max_crew {
                        final(self).spec_mission(mission_id) == Some(
                            spec_apply_update(m, Some(MissionStatuses::Failed), None),
                        ) && final(self).spec_missions().len() == old(self).spec_missions().len()
                            && (forall|id: i32|
                            id != mission_id ==> final(self).spec_mission(id) == old(self).spec_mission(id))
                    } else {
                        final(self).spec_missions() == old(self).spec_missions()
                    }))
                    &&& (verdict == Err::<(), MissionError>(MissionError::MissionFull) ==> final(self).spec_memberships() == old(self).spec_memberships() && final(self).spec_mission(mission_id) == Some(
                        spec_apply_update(m, Some(MissionStatuses::Failed), None),
                    ) && final(self).spec_missions().len() == old(self).spec_missions().len() && (
                    forall|id: i32|
                        id != mission_id ==> final(self).spec_mission(id) == old(self).spec_mission(id)))
                    &&& (verdict is Err && verdict != Err::<(), MissionError>(
                        MissionError::MissionFull,
                    ) ==> final(self).spec_missions() == old(self).spec_missions() && final(self).spec_memberships() == old(self).spec_memberships())
                },
            },
    {
        let crew_count = self.count_crew(mission_id);
        let already = self.is_member(mission_id, brawler_id);
        let (verdict, max_crew) = match self.get_mission(mission_id) {
            Ok(m) => (join_decision(m, crew_count, already, brawler_id), m.max_crew),
            Err(e) => {
                return Err(e);
            },
        };
        match verdict {
            Ok(_) => {
                let inserted = self.insert_membership(mission_id, brawler_id);
                proof {
                    lemma_count_push(
                        old(self).spec_memberships(),
                        (CrewMemberShips { mission_id, brawler_id }),
                        mission_id,
                    );
                }
                assert(inserted is Ok);
                if crew_count + 1 == max_crew as usize {
                    let updated = self.update_mission(
                        mission_id,
                        Some(MissionStatuses::Failed),
                        None,
                    );
                    assert(updated is Ok);
                }
                Ok(())
            },
            Err(e) => {
                if e == MissionError::MissionFull {
                    let updated = self.update_mission(
                        mission_id,
                        Some(MissionStatuses::Failed),
                        None,
                    );
                    assert(updated is Ok);
                }
                Err(e)
            },
        }
    }

    /// One brawler leaves a mission, atomically.
    ///
    /// On success the membership is removed; if the mission was `Failed`
    /// because its roster stood at capacity, it silently reopens. Every
    /// rejection leaves the store untouched.
    pub fn leave(&mut self, mission_id: i32, brawler_id: i32) -> (r: Result<(), MissionError>)
        requires
            old(self).wf(),
        ensures
            final(self).wf(),
            match old(self).spec_visible_mission(mission_id) {
                None => r == Err::<(), MissionError>(MissionError::NotFound)
                    && final(self).spec_missions() == old(self).spec_missions()
                    && final(self).spec_memberships() == old(self).spec_memberships(),
                Some(m) => {
                    let verdict = leave_verdict(
                        m,
                        old(self).spec_is_member(mission_id, brawler_id),
                    );
                    &&& r == verdict
                    &&& (verdict is Ok ==> final(self).spec_memberships() == remove_pair(
                        old(self).spec_memberships(),
                        mission_id,
                        brawler_id,
                    ) && final(self).spec_crew_count(mission_id) == old(self).spec_crew_count(
                        mission_id,
                    ) - 1 && !final(self).spec_is_member(mission_id, brawler_id) && (
                    if spec_reopens_after_departure(m, old(self).spec_crew_count(mission_id)) {
                        final(self).spec_mission(mission_id) == Some(
                            spec_apply_update(m, Some(MissionStatuses::Open), None),
                        ) && final(self).spec_missions().len() == old(self).spec_missions().len()
                            && (forall|id: i32|
                            id != mission_id ==> final(self).spec_mission(id) == old(self).spec_mission(id))
                    } else {
                        final(self).spec_missions() == old(self).spec_missions()
                    }))
                    &&& (verdict is Err ==> final(self).spec_missions() == old(self).spec_missions() && final(self).spec_memberships() == old(self).spec_memberships())
                },
            },
    {
        let crew_count_before = self.count_crew(mission_id);
        let already = self.is_member(mission_id, brawler_id);
        let (verdict, reopen) = match self.get_mission(mission_id) {
            Ok(m) => (leave_decision(m, already), reopens_after_departure(m, crew_count_before)),
            Err(e) => {
                return Err(e);
            },
        };
        if let Err(e) = verdict {
            return Err(e);
        }
        let deleted = self.delete_membership(mission_id, brawler_id);
        assert(deleted is Ok);
        if reopen {
            let updated = self.update_mission(mission_id, Some(MissionStatuses::Open), None);
            assert(updated is Ok);
        }
        Ok(())
    }

    /// The chief kicks a crew member, atomically: only the chief may kick,
    /// never themselves, and only while the mission is recruiting. The
    /// removal and the implicit reopening follow the same rule as `leave`.
    pub fn kick_member(
        &mut self,
        mission_id: i32,
        target_brawler_id: i32,
        requester_id: i32,
    ) -> (r: Result<(), MissionError>)
        requires
            old(self).wf(),
        ensures
            final(self).wf(),
            match old(self).spec_visible_mission(mission_id) {
                None => r == Err::<(), MissionError>(MissionError::NotFound)
                    && final(self).spec_missions() == old(self).spec_missions()
                    && final(self).spec_memberships() == old(self).spec_memberships(),
                Some(m) => {
                    let verdict = kick_verdict(
                        m,
                        target_brawler_id,
                        requester_id,
                        old(self).spec_is_member(mission_id, target_brawler_id),
                    );
                    &&& r == verdict
                    &&& (verdict is Ok ==> final(self).spec_memberships() == remove_pair(
                        old(self).spec_memberships(),
                        mission_id,
                        target_brawler_id,
                    ) && final(self).spec_crew_count(mission_id) == old(self).spec_crew_count(
                        mission_id,
                    ) - 1 && !final(self).spec_is_member(mission_id, target_brawler_id) && (
                    if spec_reopens_after_departure(m, old(self).spec_crew_count(mission_id)) {
                        final(self).spec_mission(mission_id) == Some(
                            spec_apply_update(m, Some(MissionStatuses::Open), None),
                        ) && final(self).spec_missions().len() == old(self).spec_missions().len()
                            && (forall|id: i32|
                            id != mission_id ==> final(self).spec_mission(id) == old(self).spec_mission(id))
                    } else {
                        final(self).spec_missions() == old(self).spec_missions()
                    }))
                    &&& (verdict is Err ==> final(self).spec_missions() == old(self).spec_missions() && final(self).spec_memberships() == old(self).spec_memberships())
                },
            },
    {
        let crew_count_before = self.count_crew(mission_id);
        let already = self.is_member(mission_id, target_brawler_id);
        let (verdict, reopen) = match self.get_mission(mission_id) {
            Ok(m) => (
                kick_decision(m, target_brawler_id, requester_id, already),
                reopens_after_departure(m, crew_count_before),
            ),
            Err(e) => {
                return Err(e);
            },
        };
        if let Err(e) = verdict {
            return Err(e);
        }
        let deleted = self.delete_membership(mission_id, target_brawler_id);
        assert(deleted is Ok);
        if reopen {
            let updated = self.update_mission(mission_id, Some(MissionStatuses::Open), None);
            assert(updated is Ok);
        }
        Ok(())
    }

    // -----------------------------------------------------------------------
    // Mission lifecycle coordinator
    // -----------------------------------------------------------------------

    /// The chief starts a mission at instant `now_ts`, atomically. On
    /// success the status becomes `InProgress` and, when the mission has a
    /// duration, the deadline becomes `now_ts` plus that many minutes; a
    /// mission with no duration never acquires a deadline.
    pub fn in_progress(&mut self, mission_id: i32, chief_id: i32, now_ts: i64) -> (r: Result<
        i32,
        MissionError,
    >)
        requires
            old(self).wf(),
        ensures
            final(self).wf(),
            final(self).spec_memberships() == old(self).spec_memberships(),
            match old(self).spec_visible_mission(mission_id) {
                None => r == Err::<i32, MissionError>(MissionError::NotFound)
                    && final(self).spec_missions() == old(self).spec_missions(),
                Some(m) => match start_verdict(m, old(self).spec_crew_count(mission_id), chief_id) {
                    Ok(_) => r == Ok::<i32, MissionError>(mission_id) && final(self).spec_mission(
                        mission_id,
                    ) == Some(
                        spec_apply_update(
                            m,
                            Some(MissionStatuses::InProgress),
                            Some(spec_deadline_after_start(now_ts, m.duration)),
                        ),
                    ) && final(self).spec_missions().len() == old(self).spec_missions().len() && (
                    forall|id: i32|
                        id != mission_id ==> final(self).spec_mission(id) == old(self).spec_mission(id)),
                    Err(e) => r == Err::<i32, MissionError>(e) && final(self).spec_missions()
                        == old(self).spec_missions(),
                },
            },
    {
        let crew_count = self.count_crew(mission_id);
        let (verdict, duration) = match self.get_mission(mission_id) {
            Ok(m) => (start_decision(m, crew_count, chief_id), m.duration),
            Err(e) => {
                return Err(e);
            },
        };
        if let Err(e) = verdict {
            return Err(e);
        }
        let deadline = deadline_after_start(now_ts, duration);
        let updated = self.update_mission(
            mission_id,
            Some(MissionStatuses::InProgress),
            Some(deadline),
        );
        assert(updated is Ok);
        Ok(mission_id)
    }

    /// The chief concludes a running mission as completed, atomically.
    pub fn to_completed(&mut self, mission_id: i32, chief_id: i32) -> (r: Result<
        i32,
        MissionError,
    >)
        requires
            old(self).wf(),
        ensures
            final(self).wf(),
            final(self).spec_memberships() == old(self).spec_memberships(),
            match old(self).spec_visible_mission(mission_id) {
                None => r == Err::<i32, MissionError>(MissionError::NotFound)
                    && final(self).spec_missions() == old(self).spec_missions(),
                Some(m) => match complete_verdict(m, chief_id) {
                    Ok(_) => r == Ok::<i32, MissionError>(mission_id) && final(self).spec_mission(
                        mission_id,
                    ) == Some(spec_apply_update(m, Some(MissionStatuses::Completed), None))
                        && final(self).spec_missions().len() == old(self).spec_missions().len()
                        && (forall|id: i32|
                        id != mission_id ==> final(self).spec_mission(id) == old(self).spec_mission(id)),
                    Err(e) => r == Err::<i32, MissionError>(e) && final(self).spec_missions()
                        == old(self).spec_missions(),
                },
            },
    {
        let verdict = match self.get_mission(mission_id) {
            Ok(m) => complete_decision(m, chief_id),
            Err(e) => {
                return Err(e);
            },
        };
        if let Err(e) = verdict {
            return Err(e);
        }
        let updated = self.update_mission(mission_id, Some(MissionStatuses::Completed), None);
        assert(updated is Ok);
        Ok(mission_id)
    }

    /// The chief concludes a running mission as failed, atomically. The
    /// deadline it may have acquired on start is kept, which is what later
    /// distinguishes a concluded run from a mission that merely filled up.
    pub fn to_failed(&mut self, mission_id: i32, chief_id: i32) -> (r: Result<i32, MissionError>)
        requires
            old(self).wf(),
        ensures
            final(self).wf(),
            final(self).spec_memberships() == old(self).spec_memberships(),
            match old(self).spec_visible_mission(mission_id) {
                None => r == Err::<i32, MissionError>(MissionError::NotFound)
                    && final(self).spec_missions() == old(self).spec_missions(),
                Some(m) => match fail_verdict(m, chief_id) {
                    Ok(_) => r == Ok::<i32, MissionError>(mission_id) && final(self).spec_mission(
                        mission_id,
                    ) == Some(spec_apply_update(m, Some(MissionStatuses::Failed), None)) && final(self).spec_missions().len() == old(self).spec_missions().len() && (forall|id: i32|
                        id != mission_id ==> final(self).spec_mission(id) == old(self).spec_mission(id)),
                    Err(e) => r == Err::<i32, MissionError>(e) && final(self).spec_missions()
                        == old(self).spec_missions(),
                },
            },
    {
        let verdict = match self.get_mission(mission_id) {
            Ok(m) => fail_decision(m, chief_id),
            Err(e) => {
                return Err(e);
            },
        };
        if let Err(e) = verdict {
            return Err(e);
        }
        let updated = self.update_mission(mission_id, Some(MissionStatuses::Failed), None);
        assert(updated is Ok);
        Ok(mission_id)
    }
}

} // verus!
