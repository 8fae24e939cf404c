use league_of_legends::errors::MissionError;
use league_of_legends::missions::{AddMissionEntity, EditMissionEntity};
use league_of_legends::statuses::MissionStatuses;
use league_of_legends::store::MissionStore;

fn add_named(store: &mut MissionStore, chief_id: i32, name: &str, now_ts: i64) -> i32 {
    let entity = AddMissionEntity {
        chief_id,
        name: name.to_string(),
        status: MissionStatuses::Open,
        description: Some("raid the pit".to_string()),
        max_crew: 4,
    };
    store.add_mission(entity, now_ts).expect("mission is created")
}

#[test]
fn created_mission_is_stored_with_its_fields() {
    let mut store = MissionStore::new();
    let m = add_named(&mut store, 3, "Dragon soul", 1_700_000_000);
    let mission = store.get_mission(m).expect("mission is visible");
    assert_eq!(mission.id, m);
    assert_eq!(mission.chief_id, 3);
    assert_eq!(mission.name, "Dragon soul".to_string());
    assert_eq!(mission.status, MissionStatuses::Open);
    assert_eq!(mission.description, Some("raid the pit".to_string()));
    assert_eq!(mission.created_at, 1_700_000_000);
    assert_eq!(mission.updated_at, 1_700_000_000);
    assert_eq!(mission.deleted_at, None);
    assert_eq!(mission.max_crew, 4);
    assert_eq!(mission.duration, None);
    assert_eq!(mission.deadline, None);
}

#[test]
fn mission_ids_are_fresh() {
    let mut store = MissionStore::new();
    let a = add_named(&mut store, 1, "First", 0);
    let b = add_named(&mut store, 1, "Second", 1);
    assert_ne!(a, b);
    assert_eq!(store.get_mission(a).expect("visible").name, "First".to_string());
    assert_eq!(store.get_mission(b).expect("visible").name, "Second".to_string());
}

#[test]
fn edit_applies_only_supplied_fields() {
    let mut store = MissionStore::new();
    let chief = 2;
    let m = add_named(&mut store, chief, "Old name", 5);
    let edit = EditMissionEntity {
        chief_id: chief,
        name: Some("New name".to_string()),
        status: None,
        description: None,
        max_crew: Some(7),
        duration: Some(45),
        deadline: None,
    };
    assert_eq!(store.edit_mission(m, edit), Ok(m));
    let mission = store.get_mission(m).expect("visible");
    assert_eq!(mission.name, "New name".to_string());
    assert_eq!(mission.description, Some("raid the pit".to_string()));
    assert_eq!(mission.status, MissionStatuses::Open);
    assert_eq!(mission.max_crew, 7);
    assert_eq!(mission.duration, Some(45));
    assert_eq!(mission.chief_id, chief);
}

#[test]
fn edit_by_non_chief_is_forbidden() {
    let mut store = MissionStore::new();
    let m = add_named(&mut store, 2, "Guarded", 5);
    let edit = EditMissionEntity {
        chief_id: 9,
        name: Some("Hijacked".to_string()),
        status: None,
        description: None,
        max_crew: None,
        duration: None,
        deadline: None,
    };
    assert_eq!(store.edit_mission(m, edit), Err(MissionError::Forbidden));
    assert_eq!(store.get_mission(m).expect("visible").name, "Guarded".to_string());
}

#[test]
fn remove_soft_deletes_and_hides_the_mission() {
    let mut store = MissionStore::new();
    let chief = 2;
    let m = add_named(&mut store, chief, "Short lived", 5);

    assert_eq!(store.remove_mission(m, 9, 10), Err(MissionError::Forbidden));
    assert_eq!(store.remove_mission(m, chief, 10), Ok(()));

    assert!(store.get_mission(m).is_err());
    assert_eq!(store.join(m, 5), Err(MissionError::NotFound));
    assert_eq!(store.remove_mission(m, chief, 11), Err(MissionError::NotFound));
    let edit = EditMissionEntity {
        chief_id: chief,
        name: None,
        status: None,
        description: None,
        max_crew: None,
        duration: None,
        deadline: None,
    };
    assert_eq!(store.edit_mission(m, edit), Err(MissionError::NotFound));
}

#[test]
fn running_mission_cannot_be_removed() {
    let mut store = MissionStore::new();
    let chief = 2;
    let m = add_named(&mut store, chief, "Busy", 5);
    assert_eq!(store.join(m, 10), Ok(()));
    assert_eq!(store.in_progress(m, chief, 6), Ok(m));
    assert_eq!(store.remove_mission(m, chief, 7), Err(MissionError::InvalidStateTransition));
    assert_eq!(store.to_completed(m, chief), Ok(m));
    assert_eq!(store.remove_mission(m, chief, 8), Ok(()));
}

#[test]
fn membership_primitives_enforce_uniqueness() {
    let mut store = MissionStore::new();
    let m = add_named(&mut store, 1, "Roster", 0);
    assert_eq!(store.insert_membership(m, 10), Ok(()));
    assert_eq!(store.insert_membership(m, 10), Err(MissionError::AlreadyJoined));
    assert_eq!(store.count_crew(m), 1);
    assert!(store.is_member(m, 10));
    assert!(!store.is_member(m, 11));

    assert_eq!(store.delete_membership(m, 10), Ok(()));
    assert_eq!(store.count_crew(m), 0);
    assert!(!store.is_member(m, 10));

    // deleting an absent pair is a no-op
    assert_eq!(store.delete_membership(m, 10), Ok(()));
    assert_eq!(store.count_crew(m), 0);
}

#[test]
fn counts_are_per_mission() {
    let mut store = MissionStore::new();
    let a = add_named(&mut store, 1, "A", 0);
    let b = add_named(&mut store, 1, "B", 1);
    assert_eq!(store.join(a, 10), Ok(()));
    assert_eq!(store.join(a, 11), Ok(()));
    assert_eq!(store.join(b, 10), Ok(()));
    assert_eq!(store.count_crew(a), 2);
    assert_eq!(store.count_crew(b), 1);
    assert_eq!(store.leave(a, 10), Ok(()));
    assert_eq!(store.count_crew(a), 1);
    assert_eq!(store.count_crew(b), 1);
}

#[test]
fn status_text_round() {
    assert_eq!(MissionStatuses::Open.as_text(), "Open".to_string());
    assert_eq!(MissionStatuses::InProgress.as_text(), "InProgress".to_string());
    assert_eq!(MissionStatuses::Completed.as_text(), "Completed".to_string());
    assert_eq!(MissionStatuses::Failed.as_text(), "Failed".to_string());
    assert_eq!(MissionStatuses::default(), MissionStatuses::Open);
}

#[test]
fn error_messages_are_distinct() {
    let errors = [
        MissionError::NotFound,
        MissionError::Forbidden,
        MissionError::SelfJoinRejected,
        MissionError::SelfKickRejected,
        MissionError::NotJoinable,
        MissionError::NotLeavable,
        MissionError::NotKickable,
        MissionError::MissionFull,
        MissionError::AlreadyJoined,
        MissionError::InvalidStateTransition,
        MissionError::StoreUnavailable,
    ];
    for (i, a) in errors.iter().enumerate() {
        for (j, b) in errors.iter().enumerate() {
            if i != j {
                assert_ne!(a.message(), b.message());
            }
        }
    }
    assert_eq!(MissionError::MissionFull.message(), "Mission is full".to_string());
}
