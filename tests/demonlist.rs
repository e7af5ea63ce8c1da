use demonlist::error::{CoreError, StorageError, ValidationError};
use demonlist::model::FullDemon;
use demonlist::post::PostDemon;
use demonlist::store::{DemonRow, Transaction};

fn submission(name: &str, position: i16, verifier: &str, publisher: &str, creators: &[&str]) -> PostDemon {
    PostDemon {
        name: name.to_string(),
        position,
        fps: None,
        verifier: verifier.to_string(),
        publisher: publisher.to_string(),
        creators: creators.iter().map(|c| c.to_string()).collect(),
        video: None,
    }
}

fn five_demons() -> Transaction {
    let mut t = Transaction::new();
    for (i, name) in ["One", "Two", "Three", "Four", "Five"].iter().enumerate() {
        let data = submission(name, i as i16 + 1, "Someone", "Someone", &[]);
        FullDemon::create_from(data, None, &mut t).unwrap();
    }
    t
}

fn name_at(t: &Transaction, position: i16) -> String {
    let i = t.demon_at(position).expect("position is held");
    t.demons[i].name.clone()
}

fn positions(t: &Transaction) -> Vec<(String, i16)> {
    t.demons.iter().map(|d| (d.name.clone(), d.position)).collect()
}

fn player_name(t: &Transaction, id: i32) -> String {
    t.players.iter().find(|p| p.id == id).unwrap().name.clone()
}

#[test]
fn insert_in_the_middle_shifts_the_tail() {
    let mut t = five_demons();
    let data = submission("Bloodbath", 3, "Alice", "Bob", &["Bob", "Carl"]);
    let full = FullDemon::create_from(data, None, &mut t).unwrap();
    assert_eq!(t.count(), 6);
    assert_eq!(name_at(&t, 1), "One");
    assert_eq!(name_at(&t, 2), "Two");
    assert_eq!(name_at(&t, 3), "Bloodbath");
    assert_eq!(name_at(&t, 4), "Three");
    assert_eq!(name_at(&t, 5), "Four");
    assert_eq!(name_at(&t, 6), "Five");
    let links: Vec<String> = t
        .creators
        .iter()
        .filter(|c| c.demon == full.demon.base.id)
        .map(|c| player_name(&t, c.creator))
        .collect();
    assert_eq!(links, vec!["Bob".to_string(), "Carl".to_string()]);
    assert_eq!(full.creators.len(), 2);
    assert_eq!(full.creators[0].id, full.demon.publisher.id);
    assert_eq!(full.demon.verifier.name, "Alice");
    assert!(full.records.is_empty());
}

#[test]
fn position_past_the_end_is_rejected() {
    let mut t = five_demons();
    let before = positions(&t);
    let data = submission("Bloodbath", 10, "Alice", "Bob", &["Bob", "Carl"]);
    let r = FullDemon::create_from(data, None, &mut t);
    assert!(matches!(r, Err(CoreError::Validation(ValidationError::PositionOutOfRange))));
    assert_eq!(t.count(), 5);
    assert_eq!(positions(&t), before);
    assert_eq!(t.players.len(), 1);
}

#[test]
fn position_zero_and_negative_are_rejected() {
    let mut t = five_demons();
    let before = positions(&t);
    for p in [0i16, -1, i16::MIN] {
        let r = FullDemon::create_from(submission("X", p, "A", "B", &[]), None, &mut t);
        assert!(matches!(r, Err(CoreError::Validation(ValidationError::PositionOutOfRange))));
    }
    assert_eq!(positions(&t), before);
}

#[test]
fn position_one_past_the_end_appends() {
    let mut t = five_demons();
    let full = FullDemon::create_from(submission("Last", 6, "A", "B", &[]), None, &mut t).unwrap();
    assert_eq!(full.demon.base.position, 6);
    assert_eq!(name_at(&t, 6), "Last");
    assert_eq!(name_at(&t, 5), "Five");
}

#[test]
fn first_demon_of_an_empty_list() {
    let mut t = Transaction::new();
    assert!(t.validate_position(1).is_ok());
    assert!(t.validate_position(2).is_err());
    let full = FullDemon::create_from(submission("Only", 1, "A", "B", &[]), None, &mut t).unwrap();
    assert_eq!(t.count(), 1);
    assert_eq!(full.demon.base.position, 1);
}

#[test]
fn read_back_matches_the_submission() {
    let mut t = five_demons();
    let mut data = submission("Bloodbath", 2, "Alice", "Bob", &[]);
    data.fps = Some("60".to_string());
    data.video = Some("youtube.com/watch?v=abc".to_string());
    let video = Some(Ok("https://www.youtube.com/watch?v=abc".to_string()));
    let full = FullDemon::create_from(data, video, &mut t).unwrap();
    let i = t.demon_at(2).unwrap();
    let row: &DemonRow = &t.demons[i];
    assert_eq!(row.id, full.demon.base.id);
    assert_eq!(row.name, "Bloodbath");
    assert_eq!(row.requirement, 100);
    assert!(!row.hidden);
    assert_eq!(row.video.as_deref(), Some("https://www.youtube.com/watch?v=abc"));
    assert_eq!(row.fps.as_deref(), Some("60"));
    assert_eq!(row.verifier, full.demon.verifier.id);
    assert_eq!(row.publisher, full.demon.publisher.id);
    assert_eq!(full.demon.requirement, 100);
    assert_eq!(full.demon.video.as_deref(), Some("https://www.youtube.com/watch?v=abc"));
    assert_eq!(full.demon.level_id, None);
}

#[test]
fn no_video_is_stored_without_one() {
    let mut t = five_demons();
    let full = FullDemon::create_from(submission("Plain", 1, "A", "B", &[]), None, &mut t).unwrap();
    assert_eq!(full.demon.video, None);
    assert_eq!(t.demons[t.demon_at(1).unwrap()].video, None);
}

#[test]
fn rejected_video_changes_nothing() {
    let mut t = five_demons();
    let before = positions(&t);
    let mut data = submission("Bloodbath", 10, "Alice", "Bob", &[]);
    data.video = Some("not a link".to_string());
    let r = FullDemon::create_from(data, Some(Err(())), &mut t);
    assert!(matches!(r, Err(CoreError::Validation(ValidationError::InvalidVideoUrl))));
    assert_eq!(positions(&t), before);
    assert_eq!(t.players.len(), 1);
}

#[test]
fn same_name_in_other_case_is_the_same_player() {
    let mut t = Transaction::new();
    let alice = t.by_name_or_create(&"Alice".to_string()).unwrap();
    let again = t.by_name_or_create(&"ALICE".to_string()).unwrap();
    assert_eq!(alice.id, again.id);
    assert_eq!(again.name, "Alice");
    assert_eq!(t.players.len(), 1);
    assert_eq!(t.players[0].key, "alice");
}

#[test]
fn different_names_are_different_players() {
    let mut t = Transaction::new();
    let a = t.by_name_or_create(&"Alice".to_string()).unwrap();
    let b = t.by_name_or_create(&"Bob".to_string()).unwrap();
    assert_ne!(a.id, b.id);
    assert_eq!(t.players.len(), 2);
}

#[test]
fn lookup_by_normalised_key() {
    let mut t = Transaction::new();
    let created = t.by_key_or_create(&"Carl".to_string(), &"carl".to_string()).unwrap();
    assert_eq!(created.name, "Carl");
    let found = t.player_by_key(&"carl".to_string()).unwrap();
    assert_eq!(found.id, created.id);
    assert!(t.player_by_key(&"Carl".to_string()).is_none());
}

#[test]
fn creators_match_their_names_up_to_case() {
    let mut t = five_demons();
    let data = submission("Bloodbath", 1, "alice", "BOB", &["bob", "Carl", "CARL"]);
    let full = FullDemon::create_from(data, None, &mut t).unwrap();
    assert_eq!(full.creators.len(), 3);
    assert_eq!(full.creators[0].id, full.demon.publisher.id);
    assert_eq!(full.creators[0].name, "BOB");
    assert_eq!(full.creators[1].id, full.creators[2].id);
    assert_eq!(full.creators[2].name, "Carl");
    let links = t.creators.iter().filter(|c| c.demon == full.demon.base.id).count();
    assert_eq!(links, 3);
    // Someone, alice, BOB, Carl
    assert_eq!(t.players.len(), 4);
}

#[test]
fn players_out_of_ids() {
    let mut t = Transaction::new();
    t.next_player_id = i32::MAX;
    let r = t.by_name_or_create(&"Alice".to_string());
    assert!(matches!(r, Err(CoreError::Storage(StorageError::IdsExhausted))));
    assert!(t.players.is_empty());
}

#[test]
fn demons_out_of_ids() {
    let mut t = Transaction::new();
    t.next_demon_id = i32::MAX;
    let r = FullDemon::create_from(submission("X", 1, "A", "B", &[]), None, &mut t);
    assert!(matches!(r, Err(CoreError::Storage(StorageError::IdsExhausted))));
}

#[test]
fn full_list_cannot_grow() {
    let mut t = Transaction::new();
    for p in 1..=i16::MAX {
        t.demons.push(DemonRow {
            id: p as i32,
            name: format!("D{}", p),
            position: p,
            requirement: 100,
            video: None,
            verifier: 0,
            publisher: 0,
            fps: None,
            hidden: false,
        });
    }
    t.next_demon_id = i16::MAX as i32 + 1;
    let r = FullDemon::create_from(submission("X", 1, "A", "B", &[]), None, &mut t);
    assert!(matches!(r, Err(CoreError::Storage(StorageError::PositionOverflow))));
}

#[test]
fn shift_open_then_close_restores_positions() {
    let mut t = five_demons();
    let before = positions(&t);
    t.shift_open(2).unwrap();
    assert!(t.demon_at(2).is_none());
    assert_eq!(name_at(&t, 6), "Five");
    t.shift_close(2);
    assert_eq!(positions(&t), before);
}

#[test]
fn inserting_at_a_held_position_conflicts() {
    let mut t = five_demons();
    let r = t.insert_demon("X".to_string(), 3, 100, None, 1, 1, None, false);
    assert!(matches!(r, Err(CoreError::Conflict)));
    assert_eq!(t.count(), 5);
}

#[test]
fn inserting_a_stored_key_conflicts() {
    let mut t = Transaction::new();
    t.by_name_or_create(&"Alice".to_string()).unwrap();
    let r = t.insert_player(&"ALICE".to_string(), &"alice".to_string());
    assert!(matches!(r, Err(CoreError::Conflict)));
    assert_eq!(t.players.len(), 1);
}

fn row(id: i32, name: &str, position: i16) -> DemonRow {
    DemonRow {
        id,
        name: name.to_string(),
        position,
        requirement: 100,
        video: None,
        verifier: 1,
        publisher: 1,
        fps: None,
        hidden: false,
    }
}

#[test]
fn loading_well_formed_rows() {
    let demons = vec![row(7, "B", 2), row(3, "A", 1), row(9, "C", 3)];
    let players = vec![(1, "Alice".to_string()), (2, "Bob".to_string())];
    let mut t = Transaction::from_rows(demons, players, 10, 3).unwrap();
    assert_eq!(t.players[0].key, "alice");
    assert_eq!(t.players[1].key, "bob");
    assert!(t.creators.is_empty());
    let full = FullDemon::create_from(submission("New", 2, "ALICE", "bob", &[]), None, &mut t).unwrap();
    assert_eq!(full.demon.base.id, 10);
    assert_eq!(full.demon.verifier.id, 1);
    assert_eq!(full.demon.publisher.id, 2);
    assert_eq!(name_at(&t, 1), "A");
    assert_eq!(name_at(&t, 2), "New");
    assert_eq!(name_at(&t, 3), "B");
    assert_eq!(name_at(&t, 4), "C");
    assert_eq!(t.players.len(), 2);
}

#[test]
fn loading_rejects_a_gap() {
    let demons = vec![row(1, "A", 1), row(2, "B", 3)];
    assert!(Transaction::from_rows(demons, vec![], 10, 1).is_none());
}

#[test]
fn loading_rejects_a_repeated_position() {
    let demons = vec![row(1, "A", 1), row(2, "B", 1)];
    assert!(Transaction::from_rows(demons, vec![], 10, 1).is_none());
}

#[test]
fn loading_rejects_names_equal_up_to_case() {
    let players = vec![(1, "Alice".to_string()), (2, "aLiCe".to_string())];
    assert!(Transaction::from_rows(vec![], players, 1, 3).is_none());
}

#[test]
fn loading_rejects_ids_past_the_counter() {
    assert!(Transaction::from_rows(vec![row(5, "A", 1)], vec![], 5, 1).is_none());
    assert!(Transaction::from_rows(vec![], vec![(4, "A".to_string())], 1, 4).is_none());
    assert!(Transaction::from_rows(vec![], vec![(1, "A".to_string()), (1, "B".to_string())], 1, 4).is_none());
}

#[test]
fn sections_of_a_short_list() {
    assert_eq!(demonlist::sections::section_bounds(30, 75, 150), (30, 30));
}

#[test]
fn sections_of_a_medium_list() {
    assert_eq!(demonlist::sections::section_bounds(100, 75, 150), (75, 100));
}

#[test]
fn sections_of_a_long_list() {
    assert_eq!(demonlist::sections::section_bounds(200, 75, 150), (75, 150));
    assert_eq!(demonlist::sections::section_bounds(150, 75, 150), (75, 150));
}
