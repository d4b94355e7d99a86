use shipcraft::blueprint::RootKind;
use shipcraft::modules::ModuleKind;
use shipcraft::registry::Registry;
use shipcraft::save::{
    accept_loaded, assign_instance_ids, authored_structure, authored_content_ids, commit_load, commit_save, loading,
    new_authored_content, request_save, saving, InstanceId, NextInstanceId, Origin, PersistOp, SaveFile,
    SAVE_VERSION,
};

#[test]
fn chunks_read_back_what_was_written() {
    let mut file = SaveFile::new();
    assert_eq!(file.version(), 0);
    assert_eq!(file.read_text("camera"), None);
    file.write_text("camera", "(zoom:1.5)".to_string());
    file.write_text("inventory", "[]".to_string());
    assert_eq!(file.read_text("camera").map(|s| s.as_str()), Some("(zoom:1.5)"));
    file.write_text("camera", "(zoom:2.0)".to_string());
    assert_eq!(file.read_text("camera").map(|s| s.as_str()), Some("(zoom:2.0)"));
    assert_eq!(file.read_text("inventory").map(|s| s.as_str()), Some("[]"));
    assert_eq!(file.chunks().len(), 2);
}

#[test]
fn loading_refuses_another_schema_version() {
    let mut current = SaveFile::from_parts(SAVE_VERSION, vec![("a".to_string(), "1".to_string())]);
    let mut op = PersistOp::new();
    let old = SaveFile::from_parts(2, vec![("a".to_string(), "old".to_string())]);
    assert!(!accept_loaded(old, &mut current, &mut op));
    assert!(!loading(&op));
    assert_eq!(current.read_text("a").map(|s| s.as_str()), Some("1"));

    let fresh = SaveFile::from_parts(SAVE_VERSION, vec![("a".to_string(), "new".to_string())]);
    assert!(accept_loaded(fresh, &mut current, &mut op));
    assert!(loading(&op));
    assert_eq!(current.version(), 3);
    assert_eq!(current.read_text("a").map(|s| s.as_str()), Some("new"));
    commit_load(&mut op);
    assert!(!loading(&op));
}

#[test]
fn save_pass_flags() {
    let mut op = PersistOp::new();
    let mut file = SaveFile::from_parts(1, vec![("stale".to_string(), "x".to_string())]);
    assert!(!saving(&op));
    request_save(false, &mut op, &mut file);
    assert!(!saving(&op));
    assert_eq!(file.version(), 1);
    request_save(true, &mut op, &mut file);
    assert!(saving(&op));
    assert_eq!(file.version(), SAVE_VERSION);
    assert!(file.chunks().is_empty());
    commit_save(&mut op);
    assert!(!saving(&op));
}

#[test]
fn instance_ids_are_consecutive_and_never_reused() {
    let mut next = NextInstanceId::default();
    assert_eq!(next.0, 1);
    let first = assign_instance_ids(&mut next, 3);
    assert_eq!(first, vec![InstanceId(1), InstanceId(2), InstanceId(3)]);
    let second = assign_instance_ids(&mut next, 2);
    assert_eq!(second, vec![InstanceId(4), InstanceId(5)]);
    assert_eq!(next.0, 6);
    assert!(assign_instance_ids(&mut next, 0).is_empty());
}

#[test]
fn authored_content_a_save_predates() {
    assert_eq!(authored_content_ids(), vec!["player_ship", "enemy_ship", "station"]);
    let known = vec!["player_ship".to_string(), "enemy_ship".to_string()];
    assert_eq!(new_authored_content(&known), vec!["station"]);
    assert_eq!(new_authored_content(&vec![]), vec!["player_ship", "enemy_ship", "station"]);
    let all = vec!["station".to_string(), "enemy_ship".to_string(), "player_ship".to_string()];
    assert!(new_authored_content(&all).is_empty());
}

#[test]
fn origin_names() {
    assert_eq!(Origin::Authored("station".to_string()).display_name(), "station");
    assert_eq!(Origin::PlayerBuilt.display_name(), "<built>");
}

#[test]
fn registry_later_entry_wins() {
    let registry = Registry::new(vec![(ModuleKind::Dock, 1u8), (ModuleKind::Cargo, 2u8), (ModuleKind::Dock, 3u8)]);
    assert_eq!(registry.find(ModuleKind::Dock), Some(&3u8));
    assert_eq!(registry.get(ModuleKind::Cargo), &2u8);
    assert_eq!(registry.find(ModuleKind::Engine), None);
}

#[test]
fn authored_ids_name_structures() {
    assert_eq!(authored_structure("player_ship"), Some(RootKind::PlayerShip));
    assert_eq!(authored_structure("enemy_ship"), Some(RootKind::EnemyShip));
    assert_eq!(authored_structure("station"), Some(RootKind::Station));
    assert_eq!(authored_structure("asteroid"), None);
    for id in authored_content_ids() {
        assert!(authored_structure(&id).is_some());
    }
}
