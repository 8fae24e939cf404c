use league_of_legends::brawlers::{BrawlerDirectory, RegisterBrawlerModel};
use league_of_legends::mission_model::{AddMissionModel, EditMissionModel, MissionFilter};
use league_of_legends::missions::AddMissionEntity;
use league_of_legends::statuses::MissionStatuses;
use league_of_legends::store::MissionStore;

fn register(dir: &mut BrawlerDirectory, username: &str, display: &str) -> i32 {
    let model = RegisterBrawlerModel {
        username: username.to_string(),
        password: "hashed".to_string(),
        display_name: display.to_string(),
    };
    dir.register(model.to_entity()).expect("registration succeeds")
}

fn add_mission(store: &mut MissionStore, chief: i32, name: &str, max_crew: u32, now: i64) -> i32 {
    let model = AddMissionModel {
        name: name.to_string(),
        description: None,
        max_crew,
    };
    store.add_mission(model.to_entity(chief), now).expect("mission is created")
}

#[test]
fn view_detail_joins_chief_and_count() {
    let mut store = MissionStore::new();
    let mut dir = BrawlerDirectory::new();
    let chief = register(&mut dir, "ashe", "Ashe");
    let m = add_mission(&mut store, chief, "Frost patrol", 3, 100);
    store.join(m, chief + 1000).expect("join succeeds");

    let model = store.view_detail(&dir, m).expect("detail is available");
    assert_eq!(model.id, m);
    assert_eq!(model.name, "Frost patrol".to_string());
    assert_eq!(model.chief_id, chief);
    assert_eq!(model.chief_display_name, "Ashe".to_string());
    assert_eq!(model.crew_count, 1);
    assert_eq!(model.max_crew, 3);
    assert_eq!(model.status, MissionStatuses::Open);
}

#[test]
fn view_detail_of_unregistered_chief_is_not_found() {
    let mut store = MissionStore::new();
    let dir = BrawlerDirectory::new();
    let m = add_mission(&mut store, 42, "Orphan", 3, 0);
    assert!(store.view_detail(&dir, m).is_err());
}

#[test]
fn get_all_is_newest_first_and_respects_filters() {
    let mut store = MissionStore::new();
    let mut dir = BrawlerDirectory::new();
    let a = register(&mut dir, "a", "Alpha");
    let b = register(&mut dir, "b", "Beta");
    let m1 = add_mission(&mut store, a, "Baron Run", 3, 10);
    let m2 = add_mission(&mut store, b, "Dragon DANCE", 3, 20);
    let m3 = add_mission(&mut store, a, "Dragon sprint", 3, 30);

    let all = store.get_all(&dir, &MissionFilter::default());
    assert_eq!(all.len(), 3);
    assert_eq!(all[0].id, m3);
    assert_eq!(all[1].id, m2);
    assert_eq!(all[2].id, m1);

    // the name match folds case and searches for a substring
    let filter = MissionFilter {
        name: Some("dragon".to_string()),
        ..MissionFilter::default()
    };
    let dragons = store.get_all(&dir, &filter);
    assert_eq!(dragons.len(), 2);
    assert_eq!(dragons[0].id, m3);
    assert_eq!(dragons[1].id, m2);

    let owned = MissionFilter {
        owned_by: Some(a),
        ..MissionFilter::default()
    };
    let of_a = store.get_all(&dir, &owned);
    assert_eq!(of_a.len(), 2);
    assert_eq!(of_a[0].id, m3);
    assert_eq!(of_a[1].id, m1);

    let not_a = MissionFilter {
        exclude_owned_by: Some(a),
        ..MissionFilter::default()
    };
    assert_eq!(store.get_all(&dir, &not_a).len(), 1);
}

#[test]
fn get_all_filters_by_status_and_membership() {
    let mut store = MissionStore::new();
    let mut dir = BrawlerDirectory::new();
    let chief = register(&mut dir, "c", "Chief");
    let crew = register(&mut dir, "d", "Crew");
    let m1 = add_mission(&mut store, chief, "One", 3, 10);
    let m2 = add_mission(&mut store, chief, "Two", 3, 20);
    store.join(m1, crew).expect("join succeeds");
    store.in_progress(m1, chief, 30).expect("start succeeds");

    let running = MissionFilter {
        status: Some(MissionStatuses::InProgress),
        ..MissionFilter::default()
    };
    let running_list = store.get_all(&dir, &running);
    assert_eq!(running_list.len(), 1);
    assert_eq!(running_list[0].id, m1);

    let joined = MissionFilter {
        joined_by: Some(crew),
        ..MissionFilter::default()
    };
    let joined_list = store.get_all(&dir, &joined);
    assert_eq!(joined_list.len(), 1);
    assert_eq!(joined_list[0].id, m1);

    let not_joined = MissionFilter {
        exclude_joined_by: Some(crew),
        ..MissionFilter::default()
    };
    let not_joined_list = store.get_all(&dir, &not_joined);
    assert_eq!(not_joined_list.len(), 1);
    assert_eq!(not_joined_list[0].id, m2);
}

#[test]
fn soft_deleted_missions_never_appear() {
    let mut store = MissionStore::new();
    let mut dir = BrawlerDirectory::new();
    let chief = register(&mut dir, "e", "Erased");
    let m = add_mission(&mut store, chief, "Gone soon", 3, 10);
    store.remove_mission(m, chief, 20).expect("removal succeeds");
    assert!(store.get_all(&dir, &MissionFilter::default()).is_empty());
    assert!(store.view_detail(&dir, m).is_err());
}

#[test]
fn recent_missions_honour_the_limit() {
    let mut store = MissionStore::new();
    let mut dir = BrawlerDirectory::new();
    let chief = register(&mut dir, "f", "Fast");
    for k in 0..5 {
        add_mission(&mut store, chief, "Mission", 3, k);
    }
    let recent = store.get_recent_missions(&dir, 2);
    assert_eq!(recent.len(), 2);
    assert!(recent[0].id > recent[1].id);
    assert_eq!(store.get_recent_missions(&dir, 10).len(), 5);
}

#[test]
fn active_missions_cover_owned_and_joined() {
    let mut store = MissionStore::new();
    let mut dir = BrawlerDirectory::new();
    let chief = register(&mut dir, "g", "Gna");
    let user = register(&mut dir, "h", "Hero");
    let owned = add_mission(&mut store, user, "Mine", 3, 10);
    let joined = add_mission(&mut store, chief, "Joined", 3, 20);
    let unrelated = add_mission(&mut store, chief, "Other", 3, 30);
    store.join(joined, user).expect("join succeeds");

    let active = store.get_user_active_missions(&dir, user, 10);
    let ids: Vec<i32> = active.iter().map(|m| m.id).collect();
    assert_eq!(ids, vec![joined, owned]);
    assert!(!ids.contains(&unrelated));
}

#[test]
fn open_missions_for_user_skip_full_owned_and_joined() {
    let mut store = MissionStore::new();
    let mut dir = BrawlerDirectory::new();
    let other = register(&mut dir, "i", "Io");
    let user = register(&mut dir, "j", "Jinx");

    let mine = add_mission(&mut store, user, "Mine", 3, 10);
    let joined = add_mission(&mut store, other, "Joined", 3, 20);
    store.join(joined, user).expect("join succeeds");
    let full = add_mission(&mut store, other, "Full", 1, 30);
    store.join(full, 777).expect("join succeeds");
    let open = add_mission(&mut store, other, "Open seat", 3, 40);

    let browse = store.get_open_missions_for_user(&dir, user, 10);
    let ids: Vec<i32> = browse.iter().map(|m| m.id).collect();
    assert_eq!(ids, vec![open]);
    assert!(!ids.contains(&mine));
    assert!(!ids.contains(&full));
}

#[test]
fn mission_crew_lists_members_with_counts() {
    let mut store = MissionStore::new();
    let mut dir = BrawlerDirectory::new();
    let chief = register(&mut dir, "k", "Kay");
    let one = register(&mut dir, "l", "Lux");
    let two = register(&mut dir, "m", "Morg");

    let done = add_mission(&mut store, chief, "Done deal", 3, 10);
    store.join(done, one).expect("join succeeds");
    store.in_progress(done, chief, 20).expect("start succeeds");
    store.to_completed(done, chief).expect("complete succeeds");

    let m = add_mission(&mut store, chief, "Next", 3, 30);
    store.join(m, one).expect("join succeeds");
    store.join(m, two).expect("join succeeds");

    let roster = store.get_mission_crew(&dir, m);
    assert_eq!(roster.len(), 2);
    assert_eq!(roster[0].display_name, "Lux".to_string());
    assert_eq!(roster[0].avatar_url, "".to_string());
    assert_eq!(roster[0].mission_joined_count, 2);
    assert_eq!(roster[0].mission_success_count, 1);
    assert_eq!(roster[1].display_name, "Morg".to_string());
    assert_eq!(roster[1].mission_joined_count, 1);
    assert_eq!(roster[1].mission_success_count, 0);
}

#[test]
fn stats_count_by_status() {
    let mut store = MissionStore::new();
    let mut dir = BrawlerDirectory::new();
    let chief = register(&mut dir, "n", "Nid");
    let crew = register(&mut dir, "o", "Orn");

    let open = add_mission(&mut store, chief, "Open", 3, 10);
    let running = add_mission(&mut store, chief, "Running", 3, 20);
    let gone = add_mission(&mut store, chief, "Gone", 3, 30);
    store.join(running, crew).expect("join succeeds");
    store.in_progress(running, chief, 40).expect("start succeeds");
    store.remove_mission(gone, chief, 50).expect("removal succeeds");

    let stats = store.get_stats(&dir);
    assert_eq!(stats.total_missions, 2);
    assert_eq!(stats.total_brawlers, 2);
    assert_eq!(stats.open_missions, 1);
    assert_eq!(stats.active_missions, 1);
    let _ = open;
}

#[test]
fn user_dashboard_counts() {
    let mut store = MissionStore::new();
    let mut dir = BrawlerDirectory::new();
    let chief = register(&mut dir, "p", "Pyke");
    let user = register(&mut dir, "q", "Quinn");

    let mine = add_mission(&mut store, user, "Mine", 3, 10);
    let done = add_mission(&mut store, chief, "Done", 3, 20);
    let open = add_mission(&mut store, chief, "Open", 3, 30);
    store.join(done, user).expect("join succeeds");
    store.join(open, user).expect("join succeeds");
    store.in_progress(done, chief, 40).expect("start succeeds");
    store.to_completed(done, chief).expect("complete succeeds");

    let dash = store.get_user_dashboard(user);
    assert_eq!(dash.my_missions_count, 1);
    assert_eq!(dash.joined_missions_count, 2);
    assert_eq!(dash.success_count, 1);
    assert_eq!(dash.total_participated, 3);
    let _ = mine;
}

#[test]
fn edit_model_converts_to_partial_update() {
    let model = EditMissionModel {
        name: Some("Renamed".to_string()),
        description: None,
    };
    let entity = model.to_entity(5);
    assert_eq!(entity.chief_id, 5);
    assert_eq!(entity.name, Some("Renamed".to_string()));
    assert_eq!(entity.description, None);
    assert!(entity.status.is_none());
    assert!(entity.max_crew.is_none());
}

#[test]
fn add_model_converts_to_open_entity() {
    let model = AddMissionModel {
        name: "Fresh".to_string(),
        description: Some("desc".to_string()),
        max_crew: 5,
    };
    let entity: AddMissionEntity = model.to_entity(9);
    assert_eq!(entity.chief_id, 9);
    assert_eq!(entity.name, "Fresh".to_string());
    assert_eq!(entity.description, Some("desc".to_string()));
    assert_eq!(entity.status, MissionStatuses::Open);
    assert_eq!(entity.max_crew, 5);
}
