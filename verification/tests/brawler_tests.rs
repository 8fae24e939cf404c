use league_of_legends::brawlers::{BrawlerDirectory, BrawlerError, RegisterBrawlerModel};

fn model(username: &str, display: &str) -> RegisterBrawlerModel {
    RegisterBrawlerModel {
        username: username.to_string(),
        password: "hashed".to_string(),
        display_name: display.to_string(),
    }
}

#[test]
fn registration_assigns_fresh_identities() {
    let mut dir = BrawlerDirectory::new();
    let a = dir.register(model("ashe", "Ashe").to_entity()).expect("registers");
    let b = dir.register(model("brand", "Brand").to_entity()).expect("registers");
    assert_ne!(a, b);
    assert_eq!(dir.get_brawler(a).expect("present").display_name, "Ashe".to_string());
    assert_eq!(dir.get_brawler(b).expect("present").username, "brand".to_string());
    assert!(dir.get_brawler(a + b + 100).is_none());
}

#[test]
fn duplicate_usernames_are_refused() {
    let mut dir = BrawlerDirectory::new();
    dir.register(model("ashe", "Ashe").to_entity()).expect("registers");
    assert_eq!(
        dir.register(model("ashe", "Imposter").to_entity()),
        Err(BrawlerError::UsernameTaken)
    );
    assert_eq!(dir.len(), 1);
}

#[test]
fn lookup_by_username_finds_the_row() {
    let mut dir = BrawlerDirectory::new();
    let id = dir.register(model("caitlyn", "Cait").to_entity()).expect("registers");
    let found = dir.find_by_username("caitlyn").expect("found");
    assert_eq!(found.id, id);
    assert_eq!(found.password, "hashed".to_string());
    assert!(matches!(dir.find_by_username("nobody"), Err(BrawlerError::NotFound)));
}

#[test]
fn avatar_can_be_recorded() {
    let mut dir = BrawlerDirectory::new();
    let id = dir.register(model("draven", "Draven").to_entity()).expect("registers");
    assert_eq!(dir.get_brawler(id).expect("present").avatar_url, None);
    dir.set_avatar(id, "https://host/d.png".to_string()).expect("avatar is set");
    assert_eq!(
        dir.get_brawler(id).expect("present").avatar_url,
        Some("https://host/d.png".to_string())
    );
    assert!(matches!(
        dir.set_avatar(id + 100, "x".to_string()),
        Err(BrawlerError::NotFound)
    ));
}

#[test]
fn register_model_converts_to_entity() {
    let m = model("ekko", "Ekko");
    let e = m.to_entity();
    assert_eq!(e.username, "ekko".to_string());
    assert_eq!(e.password, "hashed".to_string());
    assert_eq!(e.display_name, "Ekko".to_string());
}
