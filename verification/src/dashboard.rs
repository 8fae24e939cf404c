use vstd::prelude::*;
use crate::brawlers::BrawlerDirectory;
use crate::mission_model::MissionModel;
use crate::missions::MissionEntity;
use crate::queries::{spec_count_joined, spec_count_successes};
use crate::store::MissionStore;

verus! {

/// The system-wide counters the landing page shows.
#[derive(Debug)]
pub struct DashboardStats {
    pub total_missions: u64,
    pub total_brawlers: u64,
    pub open_missions: u64,
    pub active_missions: u64,
}

/// One brawler's counters.
#[derive(Debug)]
pub struct UserDashboard {
    pub my_missions_count: u64,
    pub joined_missions_count: u64,
    pub success_count: u64,
    pub total_participated: u64,
}

/// The personal dashboard: the counters together with the two short
/// listings the page shows.
#[derive(Debug)]
pub struct UserDashboardResponse {
    pub stats: UserDashboard,
    pub active_missions: Vec<MissionModel>,
    pub open_missions: Vec<MissionModel>,
}

/// How many missions in `s` satisfy the predicate.
pub open spec fn spec_count_missions(
    s: Seq<MissionEntity>,
    pred: spec_fn(MissionEntity) -> bool,
) -> nat
    decreases s.len(),
{
    if s.len() == 0 {
        0
    } else {
        spec_count_missions(s.drop_last(), pred) + (if pred(s.last()) {
            1nat
        } else {
            0nat
        })
    }
}

/// A mission that has not been soft-deleted.
pub open spec fn spec_visible_mission_pred() -> spec_fn(MissionEntity) -> bool {
    |m: MissionEntity| m.deleted_at is None
}

/// A visible mission that is still recruiting.
pub open spec fn spec_open_mission_pred() -> spec_fn(MissionEntity) -> bool {
    |m: MissionEntity| m.deleted_at is None && m.status is Open
}

/// A visible mission that is running.
pub open spec fn spec_running_mission_pred() -> spec_fn(MissionEntity) -> bool {
    |m: MissionEntity| m.deleted_at is None && m.status is InProgress
}

/// A visible mission owned by the given brawler.
pub open spec fn spec_owned_mission_pred(brawler_id: i32) -> spec_fn(MissionEntity) -> bool {
    |m: MissionEntity| m.deleted_at is None && m.chief_id == brawler_id
}

impl MissionStore {
    /// The system-wide counters: every count is over visible missions, and
    /// the brawler count is the whole directory.
    pub fn get_stats(&self, dir: &BrawlerDirectory) -> (r: DashboardStats)
        ensures
            r.total_missions == spec_count_missions(
                self.spec_missions(),
                spec_visible_mission_pred(),
            ),
            r.total_brawlers == dir.spec_brawlers().len(),
            r.open_missions == spec_count_missions(self.spec_missions(), spec_open_mission_pred()),
            r.active_missions == spec_count_missions(
                self.spec_missions(),
                spec_running_mission_pred(),
            ),
    {
        let n = self.missions_len();
        let mut total: usize = 0;
        let mut open: usize = 0;
        let mut running: usize = 0;
        let mut i: usize = 0;
        proof {
            assert(self.spec_missions().take(0) =~= Seq::<MissionEntity>::empty());
        }
        while i < n
            invariant
                n == self.spec_missions().len(),
                i <= n,
                total <= i,
                open <= i,
                running <= i,
                total == spec_count_missions(
                    self.spec_missions().take(i as int),
                    spec_visible_mission_pred(),
                ),
                open == spec_count_missions(
                    self.spec_missions().take(i as int),
                    spec_open_mission_pred(),
                ),
                running == spec_count_missions(
                    self.spec_missions().take(i as int),
                    spec_running_mission_pred(),
                ),
            decreases n - i,
        {
            proof {
                assert(self.spec_missions().take(i as int + 1).drop_last()
                    =~= self.spec_missions().take(i as int));
                assert(self.spec_missions().take(i as int + 1).last()
                    == self.spec_missions()[i as int]);
            }
            let m = self.mission_at(i);
            if m.deleted_at.is_none() {
                total = total + 1;
                if m.status == crate::statuses::MissionStatuses::Open {
                    open = open + 1;
                }
                if m.status == crate::statuses::MissionStatuses::InProgress {
                    running = running + 1;
                }
            }
            i = i + 1;
        }
        proof {
            assert(self.spec_missions().take(n as int) =~= self.spec_missions());
        }
        DashboardStats {
            total_missions: total as u64,
            total_brawlers: dir.len() as u64,
            open_missions: open as u64,
            active_missions: running as u64,
        }
    }

    /// How many visible missions the brawler owns.
    pub fn count_owned(&self, brawler_id: i32) -> (c: usize)
        ensures
            c == spec_count_missions(self.spec_missions(), spec_owned_mission_pred(brawler_id)),
            c <= self.spec_missions().len(),
    {
        let n = self.missions_len();
        let mut c: usize = 0;
        let mut i: usize = 0;
        proof {
            assert(self.spec_missions().take(0) =~= Seq::<MissionEntity>::empty());
        }
        while i < n
            invariant
                n == self.spec_missions().len(),
                i <= n,
                c <= i,
                c == spec_count_missions(
                    self.spec_missions().take(i as int),
                    spec_owned_mission_pred(brawler_id),
                ),
            decreases n - i,
        {
            proof {
                assert(self.spec_missions().take(i as int + 1).drop_last()
                    =~= self.spec_missions().take(i as int));
                assert(self.spec_missions().take(i as int + 1).last()
                    == self.spec_missions()[i as int]);
            }
            let m = self.mission_at(i);
            if m.deleted_at.is_none() && m.chief_id == brawler_id {
                c = c + 1;
            }
            i = i + 1;
        }
        proof {
            assert(self.spec_missions().take(n as int) =~= self.spec_missions());
        }
        c
    }

    /// A brawler's counters: the visible missions they own, the
    /// memberships they hold, how many of those belong to completed
    /// missions, and the total of owned and joined (saturating only at the
    /// top of the counter's range).
    pub fn get_user_dashboard(&self, brawler_id: i32) -> (r: UserDashboard)
        ensures
            r.my_missions_count == spec_count_missions(
                self.spec_missions(),
                spec_owned_mission_pred(brawler_id),
            ),
            r.joined_missions_count == spec_count_joined(self.spec_memberships(), brawler_id),
            r.success_count == spec_count_successes(
                self.spec_memberships(),
                self.spec_missions(),
                brawler_id,
            ),
            r.total_participated == (if r.my_missions_count + r.joined_missions_count <= u64::MAX {
                r.my_missions_count + r.joined_missions_count
            } else {
                u64::MAX as int
            }),
    {
        let my = self.count_owned(brawler_id) as u64;
        let joined = self.count_joined(brawler_id) as u64;
        let successes = self.count_successes(brawler_id) as u64;
        let total = if my <= u64::MAX - joined {
            my + joined
        } else {
            u64::MAX
        };
        UserDashboard {
            my_missions_count: my,
            joined_missions_count: joined,
            success_count: successes,
            total_participated: total,
        }
    }
}

} // verus!
