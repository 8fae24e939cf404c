use vstd::prelude::*;
use crate::brawlers::{BrawlerDirectory, BrawlerEntity, BrawlerModel};
use crate::errors::MissionError;
use crate::mission_model::{spec_is_model_of, spec_matches_filter, MissionFilter, MissionModel};
use crate::missions::{CrewMemberShips, MissionEntity};
use crate::statuses::MissionStatuses;
use crate::store::{spec_has_pair, MissionStore};
use crate::text::{ascii_lower, chars_of, contains_sub};

verus! {

// ---------------------------------------------------------------------------
// What a listing selects
// ---------------------------------------------------------------------------

/// The missions a listing selects, newest first: walking the table from
/// its newest row down, those that satisfy the predicate.
pub open spec fn spec_selected(
    s: Seq<MissionEntity>,
    pred: spec_fn(MissionEntity) -> bool,
) -> Seq<MissionEntity>
    decreases s.len(),
{
    if s.len() == 0 {
        Seq::empty()
    } else {
        (if pred(s.last()) {
            seq![s.last()]
        } else {
            Seq::empty()
        }) + spec_selected(s.drop_last(), pred)
    }
}

/// Peeling the selection from the front instead: the oldest row decides
/// the tail of the listing.
proof fn lemma_selected_unsnoc(t: Seq<MissionEntity>, pred: spec_fn(MissionEntity) -> bool)
    requires
        t.len() >= 1,
    ensures
        spec_selected(t, pred) == spec_selected(t.drop_first(), pred) + (if pred(t.first()) {
            seq![t.first()]
        } else {
            Seq::<MissionEntity>::empty()
        }),
    decreases t.len(),
{
    if t.len() == 1 {
        assert(t.drop_last() =~= Seq::<MissionEntity>::empty());
        assert(t.drop_first() =~= Seq::<MissionEntity>::empty());
        assert(t.last() == t.first());
        assert(spec_selected(t, pred) =~= spec_selected(t.drop_first(), pred) + (if pred(
            t.first(),
        ) {
            seq![t.first()]
        } else {
            Seq::<MissionEntity>::empty()
        }));
    } else {
        lemma_selected_unsnoc(t.drop_last(), pred);
        assert(t.drop_last().first() == t.first());
        assert(t.drop_last().drop_first() =~= t.drop_first().drop_last());
        assert(t.drop_first().last() == t.last());
        assert(spec_selected(t, pred) =~= spec_selected(t.drop_first(), pred) + (if pred(
            t.first(),
        ) {
            seq![t.first()]
        } else {
            Seq::<MissionEntity>::empty()
        }));
    }
}

/// The name under which the chief of `m` appears in the directory.
pub open spec fn spec_chief_name(dir: BrawlerDirectory, m: MissionEntity) -> Seq<char> {
    match dir.spec_brawler(m.chief_id) {
        Some(b) => b.display_name@,
        None => Seq::empty(),
    }
}

/// What the filtered listing selects: a visible mission whose chief is
/// registered and that passes the filter.
pub open spec fn spec_listing_pred(
    store: MissionStore,
    dir: BrawlerDirectory,
    f: MissionFilter,
) -> spec_fn(MissionEntity) -> bool {
    |m: MissionEntity|
        m.deleted_at is None && dir.spec_brawler(m.chief_id) is Some && spec_matches_filter(
            m,
            f,
            store.spec_memberships(),
        )
}

/// What the recent-missions listing selects: every visible mission whose
/// chief is registered.
pub open spec fn spec_recent_pred(dir: BrawlerDirectory) -> spec_fn(MissionEntity) -> bool {
    |m: MissionEntity| m.deleted_at is None && dir.spec_brawler(m.chief_id) is Some
}

/// What a brawler's active listing selects: a visible mission they own or
/// crew on, still open or running.
pub open spec fn spec_active_pred(
    store: MissionStore,
    dir: BrawlerDirectory,
    brawler_id: i32,
) -> spec_fn(MissionEntity) -> bool {
    |m: MissionEntity|
        m.deleted_at is None && dir.spec_brawler(m.chief_id) is Some && (m.chief_id == brawler_id
            || spec_has_pair(store.spec_memberships(), m.id, brawler_id)) && (m.status is Open
            || m.status is InProgress)
}

/// What the browse listing selects for a brawler: a visible open mission
/// of someone else, not yet joined and with a free slot.
pub open spec fn spec_open_for_user_pred(
    store: MissionStore,
    dir: BrawlerDirectory,
    brawler_id: i32,
) -> spec_fn(MissionEntity) -> bool {
    |m: MissionEntity|
        m.deleted_at is None && dir.spec_brawler(m.chief_id) is Some && m.status is Open
            && m.chief_id != brawler_id && !spec_has_pair(store.spec_memberships(), m.id, brawler_id)
            && store.spec_crew_count(m.id) < m.max_crew
}

/// Whether `r` lists exactly the models of the selected missions, in
/// order, each with its chief's name and its live crew count.
pub open spec fn spec_models_selection(
    r: Seq<MissionModel>,
    sel: Seq<MissionEntity>,
    store: MissionStore,
    dir: BrawlerDirectory,
) -> bool {
    &&& r.len() == sel.len()
    &&& forall|i: int|
        0 <= i < sel.len() ==> spec_is_model_of(
            #[trigger] r[i],
            sel[i],
            spec_chief_name(dir, sel[i]),
            store.spec_crew_count(sel[i].id) as int,
        )
}

impl MissionStore {
    /// Whether a mission passes the filter, against the live membership
    /// table.
    pub fn matches_filter(&self, m: &MissionEntity, f: &MissionFilter) -> (r: bool)
        ensures
            r == spec_matches_filter(*m, *f, self.spec_memberships()),
    {
        if let Some(st) = &f.status {
            if m.status != *st {
                return false;
            }
        }
        if let Some(n) = &f.name {
            let hay = ascii_lower(&chars_of(m.name.as_str()));
            let needle = ascii_lower(&chars_of(n.as_str()));
            if !contains_sub(&hay, &needle) {
                return false;
            }
        }
        if let Some(x) = f.exclude_owned_by {
            if m.chief_id == x {
                return false;
            }
        }
        if let Some(x) = f.exclude_joined_by {
            if self.is_member(m.id, x) {
                return false;
            }
        }
        if let Some(x) = f.owned_by {
            if m.chief_id != x {
                return false;
            }
        }
        if let Some(x) = f.joined_by {
            if !self.is_member(m.id, x) {
                return false;
            }
        }
        true
    }

    /// The projection of one mission row.
    fn to_model(&self, m: &MissionEntity, chief: &BrawlerEntity) -> (r: MissionModel)
        ensures
            spec_is_model_of(r, *m, chief.display_name@, self.spec_crew_count(m.id) as int),
    {
        let count = self.count_crew(m.id);
        MissionModel {
            id: m.id,
            name: m.name.clone(),
            description: match &m.description {
                Some(d) => Some(d.clone()),
                None => None,
            },
            status: m.status,
            chief_id: m.chief_id,
            chief_display_name: chief.display_name.clone(),
            crew_count: count as u64,
            max_crew: m.max_crew,
            created_at: m.created_at,
            updated_at: m.updated_at,
        }
    }

    /// The detail projection of one mission: the visible row joined with
    /// its chief's display name and the live crew count.
    pub fn view_detail(&self, dir: &BrawlerDirectory, mission_id: i32) -> (r: Result<
        MissionModel,
        MissionError,
    >)
        ensures
            match r {
                Ok(model) => self.spec_visible_mission(mission_id) matches Some(m)
                    && dir.spec_brawler(m.chief_id) is Some && spec_is_model_of(
                    model,
                    m,
                    spec_chief_name(*dir, m),
                    self.spec_crew_count(mission_id) as int,
                ),
                Err(e) => e == MissionError::NotFound && (self.spec_visible_mission(mission_id)
                    is None || (self.spec_visible_mission(mission_id) matches Some(m)
                    && dir.spec_brawler(m.chief_id) is None)),
            },
    {
        let m = match self.get_mission(mission_id) {
            Ok(m) => m,
            Err(e) => {
                return Err(e);
            },
        };
        proof {
            crate::store::lemma_find_id(self.spec_missions(), mission_id);
        }
        match dir.get_brawler(m.chief_id) {
            Some(chief) => Ok(self.to_model(m, chief)),
            None => Err(MissionError::NotFound),
        }
    }

    /// The filtered listing: every visible mission that passes the filter,
    /// newest first.
    pub fn get_all(&self, dir: &BrawlerDirectory, filter: &MissionFilter) -> (r: Vec<MissionModel>)
        ensures
            spec_models_selection(
                r@,
                spec_selected(self.spec_missions(), spec_listing_pred(*self, *dir, *filter)),
                *self,
                *dir,
            ),
    {
        let ghost pred = spec_listing_pred(*self, *dir, *filter);
        let n = self.missions_len();
        let mut r: Vec<MissionModel> = Vec::new();
        let mut i = n;
        proof {
            assert(self.spec_missions().skip(n as int) =~= Seq::<MissionEntity>::empty());
        }
        while i > 0
            invariant
                n == self.spec_missions().len(),
                i <= n,
                pred == spec_listing_pred(*self, *dir, *filter),
                spec_models_selection(
                    r@,
                    spec_selected(self.spec_missions().skip(i as int), pred),
                    *self,
                    *dir,
                ),
            decreases i,
        {
            i = i - 1;
            let ghost t = self.spec_missions().skip(i as int);
            proof {
                lemma_selected_unsnoc(t, pred);
                assert(t.first() == self.spec_missions()[i as int]);
                assert(t.drop_first() =~= self.spec_missions().skip(i as int + 1));
            }
            let m = self.mission_at(i);
            if m.deleted_at.is_none() {
                if let Some(chief) = dir.get_brawler(m.chief_id) {
                    if self.matches_filter(m, filter) {
                        let model = self.to_model(m, chief);
                        r.push(model);
                        proof {
                            assert(spec_selected(t, pred) =~= spec_selected(
                                t.drop_first(),
                                pred,
                            ).push(t.first()));
                        }
                    }
                }
            }
        }
        proof {
            assert(self.spec_missions().skip(0) =~= self.spec_missions());
        }
        r
    }

    /// The recent-missions listing: the newest visible missions, at most
    /// `limit` of them.
    pub fn get_recent_missions(&self, dir: &BrawlerDirectory, limit: usize) -> (r: Vec<
        MissionModel,
    >)
        ensures
            ({
                let sel = spec_selected(self.spec_missions(), spec_recent_pred(*dir));
                &&& r@.len() == (if limit <= sel.len() {
                    limit as int
                } else {
                    sel.len() as int
                })
                &&& forall|i: int|
                    0 <= i < r@.len() ==> spec_is_model_of(
                        #[trigger] r@[i],
                        sel[i],
                        spec_chief_name(*dir, sel[i]),
                        self.spec_crew_count(sel[i].id) as int,
                    )
            }),
    {
        let ghost pred = spec_recent_pred(*dir);
        let n = self.missions_len();
        let mut r: Vec<MissionModel> = Vec::new();
        let mut i = n;
        proof {
            assert(self.spec_missions().skip(n as int) =~= Seq::<MissionEntity>::empty());
        }
        while i > 0
            invariant
                n == self.spec_missions().len(),
                i <= n,
                pred == spec_recent_pred(*dir),
                spec_models_selection(
                    r@,
                    spec_selected(self.spec_missions().skip(i as int), pred),
                    *self,
                    *dir,
                ),
            decreases i,
        {
            i = i - 1;
            let ghost t = self.spec_missions().skip(i as int);
            proof {
                lemma_selected_unsnoc(t, pred);
                assert(t.first() == self.spec_missions()[i as int]);
                assert(t.drop_first() =~= self.spec_missions().skip(i as int + 1));
            }
            let m = self.mission_at(i);
            if m.deleted_at.is_none() {
                if let Some(chief) = dir.get_brawler(m.chief_id) {
                    let model = self.to_model(m, chief);
                    r.push(model);
                    proof {
                        assert(spec_selected(t, pred) =~= spec_selected(
                            t.drop_first(),
                            pred,
                        ).push(t.first()));
                    }
                }
            }
        }
        proof {
            assert(self.spec_missions().skip(0) =~= self.spec_missions());
        }
        r.truncate(limit);
        r
    }

    /// A brawler's active listing: the visible missions they own or crew
    /// on that are still open or running, newest first, at most `limit`.
    pub fn get_user_active_missions(
        &self,
        dir: &BrawlerDirectory,
        brawler_id: i32,
        limit: usize,
    ) -> (r: Vec<MissionModel>)
        ensures
            ({
                let sel = spec_selected(
                    self.spec_missions(),
                    spec_active_pred(*self, *dir, brawler_id),
                );
                &&& r@.len() == (if limit <= sel.len() {
                    limit as int
                } else {
                    sel.len() as int
                })
                &&& forall|i: int|
                    0 <= i < r@.len() ==> spec_is_model_of(
                        #[trigger] r@[i],
                        sel[i],
                        spec_chief_name(*dir, sel[i]),
                        self.spec_crew_count(sel[i].id) as int,
                    )
            }),
    {
        let ghost pred = spec_active_pred(*self, *dir, brawler_id);
        let n = self.missions_len();
        let mut r: Vec<MissionModel> = Vec::new();
        let mut i = n;
        proof {
            assert(self.spec_missions().skip(n as int) =~= Seq::<MissionEntity>::empty());
        }
        while i > 0
            invariant
                n == self.spec_missions().len(),
                i <= n,
                pred == spec_active_pred(*self, *dir, brawler_id),
                spec_models_selection(
                    r@,
                    spec_selected(self.spec_missions().skip(i as int), pred),
                    *self,
                    *dir,
                ),
            decreases i,
        {
            i = i - 1;
            let ghost t = self.spec_missions().skip(i as int);
            proof {
                lemma_selected_unsnoc(t, pred);
                assert(t.first() == self.spec_missions()[i as int]);
                assert(t.drop_first() =~= self.spec_missions().skip(i as int + 1));
            }
            let m = self.mission_at(i);
            if m.deleted_at.is_none() {
                if let Some(chief) = dir.get_brawler(m.chief_id) {
                    let involved = m.chief_id == brawler_id || self.is_member(m.id, brawler_id);
                    let live = m.status == crate::statuses::MissionStatuses::Open || m.status
                        == crate::statuses::MissionStatuses::InProgress;
                    if involved && live {
                        let model = self.to_model(m, chief);
                        r.push(model);
                        proof {
                            assert(spec_selected(t, pred) =~= spec_selected(
                                t.drop_first(),
                                pred,
                            ).push(t.first()));
                        }
                    }
                }
            }
        }
        proof {
            assert(self.spec_missions().skip(0) =~= self.spec_missions());
        }
        r.truncate(limit);
        r
    }

    /// The browse listing for a brawler: visible open missions of others,
    /// not yet joined and with a free slot, newest first, at most `limit`.
    pub fn get_open_missions_for_user(
        &self,
        dir: &BrawlerDirectory,
        brawler_id: i32,
        limit: usize,
    ) -> (r: Vec<MissionModel>)
        ensures
            ({
                let sel = spec_selected(
                    self.spec_missions(),
                    spec_open_for_user_pred(*self, *dir, brawler_id),
                );
                &&& r@.len() == (if limit <= sel.len() {
                    limit as int
                } else {
                    sel.len() as int
                })
                &&& forall|i: int|
                    0 <= i < r@.len() ==> spec_is_model_of(
                        #[trigger] r@[i],
                        sel[i],
                        spec_chief_name(*dir, sel[i]),
                        self.spec_crew_count(sel[i].id) as int,
                    )
            }),
    {
        let ghost pred = spec_open_for_user_pred(*self, *dir, brawler_id);
        let n = self.missions_len();
        let mut r: Vec<MissionModel> = Vec::new();
        let mut i = n;
        proof {
            assert(self.spec_missions().skip(n as int) =~= Seq::<MissionEntity>::empty());
        }
        while i > 0
            invariant
                n == self.spec_missions().len(),
                i <= n,
                pred == spec_open_for_user_pred(*self, *dir, brawler_id),
                spec_models_selection(
                    r@,
                    spec_selected(self.spec_missions().skip(i as int), pred),
                    *self,
                    *dir,
                ),
            decreases i,
        {
            i = i - 1;
            let ghost t = self.spec_missions().skip(i as int);
            proof {
                lemma_selected_unsnoc(t, pred);
                assert(t.first() == self.spec_missions()[i as int]);
                assert(t.drop_first() =~= self.spec_missions().skip(i as int + 1));
            }
            let m = self.mission_at(i);
            if m.deleted_at.is_none() {
                if let Some(chief) = dir.get_brawler(m.chief_id) {
                    let open = m.status == crate::statuses::MissionStatuses::Open;
                    let foreign = m.chief_id != brawler_id && !self.is_member(m.id, brawler_id);
                    let count = self.count_crew(m.id);
                    if open && foreign && count < m.max_crew as usize {
                        let model = self.to_model(m, chief);
                        r.push(model);
                        proof {
                            assert(spec_selected(t, pred) =~= spec_selected(
                                t.drop_first(),
                                pred,
                            ).push(t.first()));
                        }
                    }
                }
            }
        }
        proof {
            assert(self.spec_missions().skip(0) =~= self.spec_missions());
        }
        r.truncate(limit);
        r
    }
}

// ---------------------------------------------------------------------------
// The crew roster and the per-brawler statistics
// ---------------------------------------------------------------------------

/// How many missions a brawler has joined as crew.
pub open spec fn spec_count_joined(members: Seq<CrewMemberShips>, brawler_id: i32) -> nat
    decreases members.len(),
{
    if members.len() == 0 {
        0
    } else {
        spec_count_joined(members.drop_last(), brawler_id) + (
        if members.last().brawler_id == brawler_id {
            1nat
        } else {
            0nat
        })
    }
}

/// How many of a brawler's crew memberships belong to missions that
/// concluded as completed (counting them whether or not the mission row
/// was later soft-deleted).
pub open spec fn spec_count_successes(
    members: Seq<CrewMemberShips>,
    missions: Seq<MissionEntity>,
    brawler_id: i32,
) -> nat
    decreases members.len(),
{
    if members.len() == 0 {
        0
    } else {
        spec_count_successes(members.drop_last(), missions, brawler_id) + (
        if members.last().brawler_id == brawler_id && (crate::store::spec_find_mission(
            missions,
            members.last().mission_id,
        ) matches Some(m) && m.status is Completed) {
            1nat
        } else {
            0nat
        })
    }
}

/// The crew roster a mission presents: its memberships in joining order,
/// those whose brawler is registered.
pub open spec fn spec_roster(
    members: Seq<CrewMemberShips>,
    mission_id: i32,
    dir: BrawlerDirectory,
) -> Seq<CrewMemberShips>
    decreases members.len(),
{
    if members.len() == 0 {
        Seq::empty()
    } else {
        spec_roster(members.drop_last(), mission_id, dir) + (
        if members.last().mission_id == mission_id && dir.spec_brawler(members.last().brawler_id)
            is Some {
            seq![members.last()]
        } else {
            Seq::empty()
        })
    }
}

/// Whether `r` presents the brawler `b` on a roster: their display name,
/// their avatar (or an empty URL when they have none), and their joining
/// and success counts against the live tables.
pub open spec fn spec_is_crew_model_of(r: BrawlerModel, b: BrawlerEntity, store: MissionStore) -> bool {
    &&& r.display_name@ == b.display_name@
    &&& match b.avatar_url {
        Some(u) => r.avatar_url@ == u@,
        None => r.avatar_url@ == Seq::<char>::empty(),
    }
    &&& r.mission_success_count == spec_count_successes(
        store.spec_memberships(),
        store.spec_missions(),
        b.id,
    )
    &&& r.mission_joined_count == spec_count_joined(store.spec_memberships(), b.id)
}

/// Whether `rm` presents the roster entry `p`: the member is registered
/// and `rm` is their presentation.
pub open spec fn spec_roster_entry_ok(
    rm: BrawlerModel,
    p: CrewMemberShips,
    store: MissionStore,
    dir: BrawlerDirectory,
) -> bool {
    match dir.spec_brawler(p.brawler_id) {
        Some(b) => spec_is_crew_model_of(rm, b, store),
        None => false,
    }
}

/// Whether `r` presents exactly the roster `ros`, in order.
pub open spec fn spec_roster_models(
    r: Seq<BrawlerModel>,
    ros: Seq<CrewMemberShips>,
    store: MissionStore,
    dir: BrawlerDirectory,
) -> bool {
    &&& r.len() == ros.len()
    &&& forall|k: int|
        0 <= k < ros.len() ==> spec_roster_entry_ok(#[trigger] r[k], ros[k], store, dir)
}

/// Extending a roster presentation by one registered member keeps it a
/// roster presentation.
proof fn lemma_roster_models_push(
    r: Seq<BrawlerModel>,
    ros: Seq<CrewMemberShips>,
    m: BrawlerModel,
    p: CrewMemberShips,
    store: MissionStore,
    dir: BrawlerDirectory,
)
    requires
        spec_roster_models(r, ros, store, dir),
        spec_roster_entry_ok(m, p, store, dir),
    ensures
        spec_roster_models(r.push(m), ros.push(p), store, dir),
{
    assert forall|k: int|
        0 <= k < ros.push(p).len() implies spec_roster_entry_ok(
        #[trigger] r.push(m)[k],
        ros.push(p)[k],
        store,
        dir,
    ) by {
        if k < ros.len() {
            assert(ros.push(p)[k] == ros[k]);
            assert(r.push(m)[k] == r[k]);
        } else {
            assert(ros.push(p)[k] == p);
            assert(r.push(m)[k] == m);
        }
    }
}

impl MissionStore {
    /// How many missions a brawler has joined as crew.
    pub fn count_joined(&self, brawler_id: i32) -> (c: usize)
        ensures
            c == spec_count_joined(self.spec_memberships(), brawler_id),
            c <= self.spec_memberships().len(),
    {
        let n = self.memberships_len();
        let mut c: usize = 0;
        let mut i: usize = 0;
        proof {
            assert(self.spec_memberships().take(0) =~= Seq::<CrewMemberShips>::empty());
        }
        while i < n
            invariant
                n == self.spec_memberships().len(),
                i <= n,
                c <= i,
                c == spec_count_joined(self.spec_memberships().take(i as int), brawler_id),
            decreases n - i,
        {
            proof {
                assert(self.spec_memberships().take(i as int + 1).drop_last()
                    =~= self.spec_memberships().take(i as int));
                assert(self.spec_memberships().take(i as int + 1).last()
                    == self.spec_memberships()[i as int]);
            }
            if self.membership_at(i).brawler_id == brawler_id {
                c = c + 1;
            }
            i = i + 1;
        }
        proof {
            assert(self.spec_memberships().take(n as int) =~= self.spec_memberships());
        }
        c
    }

    /// How many of a brawler's memberships belong to completed missions.
    pub fn count_successes(&self, brawler_id: i32) -> (c: usize)
        ensures
            c == spec_count_successes(
                self.spec_memberships(),
                self.spec_missions(),
                brawler_id,
            ),
            c <= self.spec_memberships().len(),
    {
        let n = self.memberships_len();
        let mut c: usize = 0;
        let mut i: usize = 0;
        proof {
            assert(self.spec_memberships().take(0) =~= Seq::<CrewMemberShips>::empty());
        }
        while i < n
            invariant
                n == self.spec_memberships().len(),
                i <= n,
                c <= i,
                c == spec_count_successes(
                    self.spec_memberships().take(i as int),
                    self.spec_missions(),
                    brawler_id,
                ),
            decreases n - i,
        {
            proof {
                assert(self.spec_memberships().take(i as int + 1).drop_last()
                    =~= self.spec_memberships().take(i as int));
                assert(self.spec_memberships().take(i as int + 1).last()
                    == self.spec_memberships()[i as int]);
            }
            let p = self.membership_at(i);
            if p.brawler_id == brawler_id {
                if let Some(st) = self.mission_status(p.mission_id) {
                    if st == MissionStatuses::Completed {
                        c = c + 1;
                    }
                }
            }
            i = i + 1;
        }
        proof {
            assert(self.spec_memberships().take(n as int) =~= self.spec_memberships());
        }
        c
    }

    /// The crew roster of a mission: each registered member in joining
    /// order, with their display name, avatar and statistics.
    pub fn get_mission_crew(&self, dir: &BrawlerDirectory, mission_id: i32) -> (r: Vec<
        BrawlerModel,
    >)
        ensures
            spec_roster_models(
                r@,
                spec_roster(self.spec_memberships(), mission_id, *dir),
                *self,
                *dir,
            ),
    {
        let n = self.memberships_len();
        let mut r: Vec<BrawlerModel> = Vec::new();
        let mut i: usize = 0;
        proof {
            assert(self.spec_memberships().take(0) =~= Seq::<CrewMemberShips>::empty());
        }
        while i < n
            invariant
                n == self.spec_memberships().len(),
                i <= n,
                spec_roster_models(
                    r@,
                    spec_roster(self.spec_memberships().take(i as int), mission_id, *dir),
                    *self,
                    *dir,
                ),
            decreases n - i,
        {
            proof {
                assert(self.spec_memberships().take(i as int + 1).drop_last()
                    =~= self.spec_memberships().take(i as int));
                assert(self.spec_memberships().take(i as int + 1).last()
                    == self.spec_memberships()[i as int]);
            }
            let ghost r_snap = r@;
            let ghost pre = spec_roster(self.spec_memberships().take(i as int), mission_id, *dir);
            let ghost post = spec_roster(
                self.spec_memberships().take(i as int + 1),
                mission_id,
                *dir,
            );
            let p = self.membership_at(i);
            if p.mission_id == mission_id {
                if let Some(b) = dir.get_brawler(p.brawler_id) {
                    proof {
                        crate::brawlers::lemma_brawler_find_id(dir.spec_brawlers(), p.brawler_id);
                    }
                    let successes = self.count_successes(p.brawler_id);
                    let joined = self.count_joined(p.brawler_id);
                    let model = BrawlerModel {
                        display_name: b.display_name.clone(),
                        avatar_url: match &b.avatar_url {
                            Some(u) => u.clone(),
                            None => String::new(),
                        },
                        mission_success_count: successes as u64,
                        mission_joined_count: joined as u64,
                    };
                    r.push(model);
                    proof {
                        assert(post =~= pre.push(p));
                        assert(r@ == r_snap.push(model));
                        assert(spec_roster_entry_ok(model, p, *self, *dir));
                        lemma_roster_models_push(r_snap, pre, model, p, *self, *dir);
                    }
                } else {
                    proof {
                        assert(post =~= pre);
                    }
                }
            } else {
                proof {
                    assert(post =~= pre);
                }
            }
            i = i + 1;
        }
        proof {
            assert(self.spec_memberships().take(n as int) =~= self.spec_memberships());
        }
        r
    }
}

} // verus!
