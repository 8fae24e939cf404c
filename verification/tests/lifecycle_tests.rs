use league_of_legends::errors::MissionError;
use league_of_legends::missions::AddMissionEntity;
use league_of_legends::statuses::MissionStatuses;
use league_of_legends::store::MissionStore;

fn add_open_mission(store: &mut MissionStore, chief_id: i32, max_crew: u32) -> i32 {
    let entity = AddMissionEntity {
        chief_id,
        name: "Baron hunt".to_string(),
        status: MissionStatuses::Open,
        description: None,
        max_crew,
    };
    store.add_mission(entity, 1_700_000_000).expect("mission is created")
}

fn status_of(store: &MissionStore, mission_id: i32) -> MissionStatuses {
    store.get_mission(mission_id).expect("mission is visible").status
}

#[test]
fn join_fill_reopen_cycle() {
    let mut store = MissionStore::new();
    let chief = 1;
    let m = add_open_mission(&mut store, chief, 2);

    assert_eq!(store.join(m, 10), Ok(()));
    assert_eq!(store.count_crew(m), 1);
    assert_eq!(status_of(&store, m), MissionStatuses::Open);

    assert_eq!(store.join(m, 11), Ok(()));
    assert_eq!(store.count_crew(m), 2);
    assert_eq!(status_of(&store, m), MissionStatuses::Failed);

    assert_eq!(store.join(m, 12), Err(MissionError::MissionFull));
    assert_eq!(store.count_crew(m), 2);

    assert_eq!(store.leave(m, 10), Ok(()));
    assert_eq!(store.count_crew(m), 1);
    assert_eq!(status_of(&store, m), MissionStatuses::Open);

    assert_eq!(store.join(m, 12), Ok(()));
    assert_eq!(store.count_crew(m), 2);
}

#[test]
fn crew_count_never_exceeds_cap() {
    let mut store = MissionStore::new();
    let m = add_open_mission(&mut store, 1, 3);
    let mut joined = 0;
    for brawler in 10..30 {
        if store.join(m, brawler).is_ok() {
            joined += 1;
        }
        let mission = store.get_mission(m).expect("mission is visible");
        assert!(store.count_crew(m) <= mission.max_crew as usize);
    }
    assert_eq!(joined, 3);
}

#[test]
fn chief_cannot_join_own_mission() {
    let mut store = MissionStore::new();
    let chief = 5;
    let m = add_open_mission(&mut store, chief, 4);
    assert_eq!(store.join(m, chief), Err(MissionError::SelfJoinRejected));
    assert_eq!(store.count_crew(m), 0);
}

#[test]
fn chief_cannot_kick_themselves() {
    let mut store = MissionStore::new();
    let chief = 5;
    let m = add_open_mission(&mut store, chief, 4);
    assert_eq!(store.kick_member(m, chief, chief), Err(MissionError::SelfKickRejected));
}

#[test]
fn second_join_of_same_pair_is_rejected() {
    let mut store = MissionStore::new();
    let m = add_open_mission(&mut store, 1, 3);
    assert_eq!(store.join(m, 10), Ok(()));
    assert_eq!(store.count_crew(m), 1);
    assert_eq!(store.join(m, 10), Err(MissionError::AlreadyJoined));
    assert_eq!(store.count_crew(m), 1);
}

#[test]
fn start_with_duration_sets_deadline() {
    let mut store = MissionStore::new();
    let chief = 1;
    let m = add_open_mission(&mut store, chief, 2);
    let edit = league_of_legends::missions::EditMissionEntity {
        chief_id: chief,
        name: None,
        status: None,
        description: None,
        max_crew: None,
        duration: Some(60),
        deadline: None,
    };
    assert_eq!(store.edit_mission(m, edit), Ok(m));
    assert_eq!(store.join(m, 10), Ok(()));

    let start_ts = 1_700_000_000;
    assert_eq!(store.in_progress(m, chief, start_ts), Ok(m));
    let mission = store.get_mission(m).expect("mission is visible");
    assert_eq!(mission.status, MissionStatuses::InProgress);
    assert_eq!(mission.deadline, Some(start_ts + 60 * 60));
}

#[test]
fn start_without_duration_never_acquires_deadline() {
    let mut store = MissionStore::new();
    let chief = 1;
    let m = add_open_mission(&mut store, chief, 2);
    assert_eq!(store.join(m, 10), Ok(()));
    assert_eq!(store.in_progress(m, chief, 1_700_000_000), Ok(m));
    let mission = store.get_mission(m).expect("mission is visible");
    assert_eq!(mission.deadline, None);
}

#[test]
fn complete_requires_running_mission() {
    let mut store = MissionStore::new();
    let chief = 1;
    let m = add_open_mission(&mut store, chief, 2);

    assert_eq!(store.to_completed(m, chief), Err(MissionError::InvalidStateTransition));

    assert_eq!(store.join(m, 10), Ok(()));
    assert_eq!(store.in_progress(m, chief, 1_700_000_000), Ok(m));
    assert_eq!(store.to_completed(m, chief), Ok(m));
    assert_eq!(status_of(&store, m), MissionStatuses::Completed);

    assert_eq!(store.in_progress(m, chief, 1_700_000_100), Err(MissionError::InvalidStateTransition));
    assert_eq!(store.to_completed(m, chief), Err(MissionError::InvalidStateTransition));
    assert_eq!(store.to_failed(m, chief), Err(MissionError::InvalidStateTransition));
    assert_eq!(store.join(m, 11), Err(MissionError::NotJoinable));
    assert_eq!(store.kick_member(m, 10, chief), Err(MissionError::NotKickable));
}

#[test]
fn non_chief_lifecycle_calls_are_forbidden() {
    let mut store = MissionStore::new();
    let chief = 1;
    let outsider = 99;
    let m = add_open_mission(&mut store, chief, 2);
    assert_eq!(store.join(m, 10), Ok(()));

    assert_eq!(store.in_progress(m, outsider, 0), Err(MissionError::Forbidden));
    assert_eq!(store.to_completed(m, outsider), Err(MissionError::Forbidden));
    assert_eq!(store.to_failed(m, outsider), Err(MissionError::Forbidden));

    assert_eq!(store.in_progress(m, chief, 0), Ok(m));
    assert_eq!(store.to_completed(m, outsider), Err(MissionError::Forbidden));
    assert_eq!(store.to_failed(m, outsider), Err(MissionError::Forbidden));
    assert_eq!(store.in_progress(m, outsider, 0), Err(MissionError::Forbidden));
}

#[test]
fn explicitly_failed_run_cannot_restart() {
    let mut store = MissionStore::new();
    let chief = 1;
    let m = add_open_mission(&mut store, chief, 3);
    let edit = league_of_legends::missions::EditMissionEntity {
        chief_id: chief,
        name: None,
        status: None,
        description: None,
        max_crew: None,
        duration: Some(30),
        deadline: None,
    };
    assert_eq!(store.edit_mission(m, edit), Ok(m));
    assert_eq!(store.join(m, 10), Ok(()));
    assert_eq!(store.in_progress(m, chief, 1_700_000_000), Ok(m));
    assert_eq!(store.to_failed(m, chief), Ok(m));
    assert_eq!(status_of(&store, m), MissionStatuses::Failed);

    // the run acquired a deadline, so the failure is a concluded run
    assert_eq!(store.in_progress(m, chief, 1_700_001_000), Err(MissionError::InvalidStateTransition));
}

#[test]
fn full_failed_mission_can_restart() {
    let mut store = MissionStore::new();
    let chief = 1;
    let m = add_open_mission(&mut store, chief, 2);
    assert_eq!(store.join(m, 10), Ok(()));
    assert_eq!(store.join(m, 11), Ok(()));
    assert_eq!(status_of(&store, m), MissionStatuses::Failed);

    // full-by-capacity failure has no deadline: a departure frees a slot
    assert_eq!(store.leave(m, 11), Ok(()));
    assert_eq!(status_of(&store, m), MissionStatuses::Open);
    assert_eq!(store.in_progress(m, chief, 1_700_000_000), Ok(m));
    assert_eq!(status_of(&store, m), MissionStatuses::InProgress);
}

#[test]
fn start_needs_at_least_one_crew_member() {
    let mut store = MissionStore::new();
    let chief = 1;
    let m = add_open_mission(&mut store, chief, 2);
    assert_eq!(store.in_progress(m, chief, 0), Err(MissionError::InvalidStateTransition));
}

#[test]
fn start_of_full_mission_reports_mission_full() {
    let mut store = MissionStore::new();
    let chief = 1;
    let m = add_open_mission(&mut store, chief, 1);
    assert_eq!(store.join(m, 10), Ok(()));
    assert_eq!(status_of(&store, m), MissionStatuses::Failed);
    assert_eq!(store.in_progress(m, chief, 0), Err(MissionError::MissionFull));
}

#[test]
fn kick_removes_member_and_reopens_full_mission() {
    let mut store = MissionStore::new();
    let chief = 1;
    let m = add_open_mission(&mut store, chief, 2);
    assert_eq!(store.join(m, 10), Ok(()));
    assert_eq!(store.join(m, 11), Ok(()));
    assert_eq!(status_of(&store, m), MissionStatuses::Failed);

    assert_eq!(store.kick_member(m, 10, 10), Err(MissionError::Forbidden));
    assert_eq!(store.kick_member(m, 10, chief), Ok(()));
    assert_eq!(store.count_crew(m), 1);
    assert_eq!(status_of(&store, m), MissionStatuses::Open);
}

#[test]
fn operations_on_missing_mission_report_not_found() {
    let mut store = MissionStore::new();
    assert_eq!(store.join(77, 10), Err(MissionError::NotFound));
    assert_eq!(store.leave(77, 10), Err(MissionError::NotFound));
    assert_eq!(store.kick_member(77, 10, 1), Err(MissionError::NotFound));
    assert_eq!(store.in_progress(77, 1, 0), Err(MissionError::NotFound));
    assert_eq!(store.to_completed(77, 1), Err(MissionError::NotFound));
    assert_eq!(store.to_failed(77, 1), Err(MissionError::NotFound));
}

#[test]
fn leaving_without_membership_reports_not_found() {
    let mut store = MissionStore::new();
    let m = add_open_mission(&mut store, 1, 2);
    assert_eq!(store.leave(m, 10), Err(MissionError::NotFound));
    assert_eq!(store.kick_member(m, 10, 1), Err(MissionError::NotFound));
}

#[test]
fn running_mission_rejects_membership_changes() {
    let mut store = MissionStore::new();
    let chief = 1;
    let m = add_open_mission(&mut store, chief, 3);
    assert_eq!(store.join(m, 10), Ok(()));
    assert_eq!(store.in_progress(m, chief, 0), Ok(m));

    assert_eq!(store.join(m, 11), Err(MissionError::NotJoinable));
    assert_eq!(store.leave(m, 10), Err(MissionError::NotLeavable));
    assert_eq!(store.kick_member(m, 10, chief), Err(MissionError::NotKickable));
}

#[test]
fn crew_may_leave_completed_mission() {
    let mut store = MissionStore::new();
    let chief = 1;
    let m = add_open_mission(&mut store, chief, 3);
    assert_eq!(store.join(m, 10), Ok(()));
    assert_eq!(store.in_progress(m, chief, 0), Ok(m));
    assert_eq!(store.to_completed(m, chief), Ok(m));
    assert_eq!(store.leave(m, 10), Ok(()));
    assert_eq!(store.count_crew(m), 0);
    assert_eq!(status_of(&store, m), MissionStatuses::Completed);
}
