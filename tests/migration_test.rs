use nok::migration::converter::IdMappings;
use nok::migration::legacy::{
    LegacyData, LegacyDataLoader, LegacyMessage, LegacyRoom, LegacyRoomMembership, LegacyUser,
};
use nok::migration::{MigrationManager, MigrationResult};
use nok::app::user::UserStatus;
use nok::util::error::NokError;

fn user(id: &str, name: &str) -> LegacyUser {
    LegacyUser {
        id: id.to_string(),
        name: name.to_string(),
        status: None,
        created_at: None,
        updated_at: None,
    }
}

fn room(id: &str, name: &str) -> LegacyRoom {
    LegacyRoom {
        id: id.to_string(),
        name: name.to_string(),
        description: None,
        is_public: Some(true),
        created_at: None,
        updated_at: None,
    }
}

fn message(id: &str) -> LegacyMessage {
    LegacyMessage {
        id: id.to_string(),
        content: "hi".to_string(),
        message_type: None,
        sender_id: "u1".to_string(),
        room_id: Some("r1".to_string()),
        target_user_id: None,
        created_at: None,
    }
}

fn membership(u: &str, r: &str) -> LegacyRoomMembership {
    LegacyRoomMembership { user_id: u.to_string(), room_id: r.to_string(), joined_at: None }
}

fn snapshot() -> LegacyData {
    LegacyData::from_records(
        vec![user("u1", "alice"), user("u2", "bob"), user("u3", "carol"), user("u4", "dave"), user("u5", "erin")],
        vec![room("r1", "Main Room"), room("r2", "Dev Team")],
        vec![message("m1"), message("m2"), message("m3")],
        vec![membership("u1", "r1"), membership("u2", "r1"), membership("u1", "r2")],
    )
}

/// Stands in for the target server and counts what it is asked to create.
struct CountingTarget {
    created: usize,
    refuse: Option<String>,
}

impl CountingTarget {
    fn create(&mut self, who: &str) -> Result<(), String> {
        self.created += 1;
        if self.refuse.as_deref() == Some(who) {
            Err("server refused".to_string())
        } else {
            Ok(())
        }
    }
}

#[test]
fn partial_failure_is_aggregated() {
    let data = snapshot();
    let manager = MigrationManager::new("legacy.db", "nok.local");
    let mut target = CountingTarget { created: 0, refuse: Some("u3".to_string()) };
    let user_outcomes: Vec<Result<(), String>> = data.users.iter().map(|u| target.create(&u.id)).collect();
    let room_outcomes: Vec<Result<(), String>> = data.rooms.iter().map(|r| target.create(&r.id)).collect();
    let result = manager.migrate(&data, &user_outcomes, &room_outcomes);
    assert_eq!(result.users_migrated, 4);
    assert_eq!(result.errors.len(), 1);
    assert_eq!(result.errors[0], "Failed to migrate user carol: server refused");
    assert_eq!(result.rooms_migrated, 2);
    assert_eq!(result.messages_migrated, 3);
    assert_eq!(target.created, 7);
}

#[test]
fn room_failures_follow_user_failures() {
    let data = snapshot();
    let manager = MigrationManager::new("legacy.db", "nok.local");
    let users = vec![Err("a".to_string()), Ok(()), Ok(()), Ok(()), Ok(())];
    let rooms = vec![Ok(()), Err("b".to_string())];
    let result = manager.migrate(&data, &users, &rooms);
    assert_eq!(result.errors, vec![
        "Failed to migrate user alice: a".to_string(),
        "Failed to migrate room Dev Team: b".to_string(),
    ]);
    assert_eq!(result.users_migrated, 4);
    assert_eq!(result.rooms_migrated, 1);
}

#[test]
fn dry_run_touches_nothing() {
    let data = snapshot();
    let manager = MigrationManager::new("legacy.db", "nok.local");
    let target = CountingTarget { created: 0, refuse: None };
    let users_before = data.users.len();
    let (mapping, preview) = manager.dry_run(&data);
    assert_eq!(target.created, 0);
    assert_eq!(data.users.len(), users_before);
    assert_eq!(preview.users_migrated, 5);
    assert_eq!(preview.rooms_migrated, 2);
    assert_eq!(preview.messages_migrated, 3);
    assert!(preview.errors.is_empty());
    assert_eq!(mapping.user_mappings.len(), 5);
    assert_eq!(mapping.get_matrix_room_alias("r2").map(|s| s.as_str()), Some("dev_team"));
}

#[test]
fn record_outcomes_one_by_one() {
    let mut result = MigrationResult::new();
    result.record_user(&user("u1", "alice"), Ok(()));
    result.record_room(&room("r1", "Lobby"), Err("exists".to_string()));
    assert_eq!(result.users_migrated, 1);
    assert_eq!(result.rooms_migrated, 0);
    assert_eq!(result.errors, vec!["Failed to migrate room Lobby: exists".to_string()]);
}

#[test]
fn backup_step() {
    let manager = MigrationManager::new("/data/legacy.db", "nok.local");
    assert_eq!(MigrationManager::backup_path("/data/legacy.db", 1700000000), "/data/legacy.db.backup.1700000000");
    assert_eq!(
        manager.backup_plan(true, true, 42).unwrap(),
        Some("/data/legacy.db.backup.42".to_string())
    );
    assert_eq!(manager.backup_plan(false, false, 42).unwrap(), None);
    match manager.backup_plan(false, true, 42) {
        Err(NokError::FileNotFound(p)) => assert_eq!(p, "/data/legacy.db"),
        other => panic!("unexpected {:?}", other),
    }
}

#[test]
fn mapping_file_round_trip() {
    let data = snapshot();
    let manager = MigrationManager::new("legacy.db", "nok.local");
    let mut mapping = manager.plan_mappings(&data);
    mapping.add_user_mapping("we\"ird\\id\n".to_string(), "@odd\tone:nok.local".to_string());
    let text = mapping.to_json();
    assert!(text.starts_with("{\n  \"user_mappings\": {\n    \"u1\": \"@useru1:nok.local\",\n"));
    assert!(text.contains("\"we\\\"ird\\\\id\\u000a\": \"@odd\\u0009one:nok.local\""));
    let back = IdMappings::from_json(&text).unwrap();
    assert_eq!(back.user_mappings.len(), mapping.user_mappings.len());
    for i in 0..mapping.user_mappings.len() {
        assert_eq!(back.user_mappings.key_at(i), mapping.user_mappings.key_at(i));
        assert_eq!(back.user_mappings.value_at(i), mapping.user_mappings.value_at(i));
    }
    for i in 0..mapping.room_aliases.len() {
        assert_eq!(back.room_aliases.key_at(i), mapping.room_aliases.key_at(i));
        assert_eq!(back.room_aliases.value_at(i), mapping.room_aliases.value_at(i));
        assert_eq!(back.room_mappings.value_at(i), mapping.room_mappings.value_at(i));
    }
    assert_eq!(back.to_json(), text);
}

#[test]
fn empty_mapping_file() {
    let text = IdMappings::new().to_json();
    assert_eq!(
        text,
        "{\n  \"user_mappings\": {},\n  \"room_mappings\": {},\n  \"room_aliases\": {}\n}\n"
    );
    let back = IdMappings::from_json(&text).unwrap();
    assert_eq!(back.user_mappings.len(), 0);
}

#[test]
fn malformed_mapping_file_is_refused() {
    for text in ["", "{\n  \"user_mappings\": {\n", "not json at all"] {
        assert!(matches!(IdMappings::from_json(text), Err(NokError::MappingError(_))));
    }
    let good = IdMappings::new().to_json();
    let truncated = &good[..good.len() - 2];
    assert!(matches!(IdMappings::from_json(truncated), Err(NokError::MappingError(_))));
    assert!(IdMappings::from_json(&good[..good.len() - 1]).is_ok());
}

#[test]
fn membership_maps_group_in_order() {
    let data = snapshot();
    assert_eq!(data.user_rooms.len(), 2);
    assert_eq!(data.user_rooms.key_at(0), "u1");
    assert_eq!(data.user_rooms.count_at(0), 2);
    assert_eq!(data.user_rooms.item_at(0, 1), "r2");
    assert_eq!(data.room_members.key_at(0), "r1");
    assert_eq!(data.room_members.count_at(0), 2);
    assert_eq!(data.room_members.item_at(0, 1), "u2");
}

#[test]
fn lookups_and_status() {
    let data = snapshot();
    let loader = LegacyDataLoader::new("legacy.db");
    assert_eq!(loader.db_path, "legacy.db");
    assert_eq!(loader.get_user_by_id(&data.users, "u2").map(|u| u.name.as_str()), Some("bob"));
    assert!(loader.get_user_by_id(&data.users, "zz").is_none());
    assert_eq!(loader.get_room_by_id(&data.rooms, "r2").map(|r| r.name.as_str()), Some("Dev Team"));
    assert!(loader.get_room_by_id(&data.rooms, "zz").is_none());
    assert_eq!(LegacyDataLoader::legacy_status_to_matrix_presence(&Some("online".to_string())), UserStatus::Online);
    assert_eq!(LegacyDataLoader::legacy_status_to_matrix_presence(&Some("away".to_string())), UserStatus::Away);
    assert_eq!(LegacyDataLoader::legacy_status_to_matrix_presence(&Some("busy".to_string())), UserStatus::Busy);
    assert_eq!(LegacyDataLoader::legacy_status_to_matrix_presence(&Some("gone".to_string())), UserStatus::Offline);
    assert_eq!(LegacyDataLoader::legacy_status_to_matrix_presence(&None), UserStatus::Offline);
}

fn entries(t: &nok::migration::table::StringTable) -> Vec<(String, String)> {
    (0..t.len()).map(|i| (t.key_at(i).clone(), t.value_at(i).clone())).collect()
}

#[test]
fn empty_object_reads_as_empty_mapping() {
    for text in ["{}", " { } ", "{\"user_mappings\":{}}", "\n{\n}\n"] {
        let m = IdMappings::from_json(text).unwrap();
        assert_eq!(m.user_mappings.len(), 0);
        assert_eq!(m.room_mappings.len(), 0);
        assert_eq!(m.room_aliases.len(), 0);
    }
}

#[test]
fn any_order_whitespace_and_unknown_keys() {
    let text = "{\"room_aliases\" : {\"r1\":\"main_room\"},\r\n\t\"version\": [1, 2.5e3, -0.5, true, false, null, {\"a\": [\"b\"]}],\n  \"user_mappings\": {\"u1\": \"@useru1:nok.local\", \"u2\": \"@useru2:nok.local\"}}";
    let m = IdMappings::from_json(text).unwrap();
    assert_eq!(
        entries(&m.user_mappings),
        vec![
            ("u1".to_string(), "@useru1:nok.local".to_string()),
            ("u2".to_string(), "@useru2:nok.local".to_string()),
        ]
    );
    assert_eq!(m.room_mappings.len(), 0);
    assert_eq!(m.get_matrix_room_alias("r1").map(|s| s.as_str()), Some("main_room"));
}

#[test]
fn pretty_output_without_trailing_newline_reads() {
    let text = "{\n  \"user_mappings\": {\n    \"u1\": \"@useru1:nok.local\"\n  },\n  \"room_mappings\": {\n    \"r1\": \"!ABC:nok.local\"\n  },\n  \"room_aliases\": {\n    \"r1\": \"main_room\"\n  }\n}";
    let m = IdMappings::from_json(text).unwrap();
    assert_eq!(m.get_matrix_user_id("u1").map(|s| s.as_str()), Some("@useru1:nok.local"));
    assert_eq!(m.get_matrix_room_id("r1").map(|s| s.as_str()), Some("!ABC:nok.local"));
}

#[test]
fn escapes_are_decoded() {
    let text = "{\"user_mappings\": {\"caf\\u00e9\\b\\f\\/\": \"\\ud83d\\ude00\\u4e2d\"}}";
    let m = IdMappings::from_json(text).unwrap();
    assert_eq!(
        entries(&m.user_mappings),
        vec![("caf\u{e9}\u{8}\u{c}/".to_string(), "\u{1F600}\u{4e2d}".to_string())]
    );
}

#[test]
fn later_entry_of_a_key_wins() {
    let m = IdMappings::from_json("{\"user_mappings\": {\"a\": \"x\", \"a\": \"y\"}}").unwrap();
    assert_eq!(entries(&m.user_mappings), vec![("a".to_string(), "y".to_string())]);
}

#[test]
fn malformed_json_is_refused() {
    for text in [
        "{\"user_mappings\": {}, \"user_mappings\": {}}",
        "{\"user_mappings\": {\"a\": 1}}",
        "{\"user_mappings\": []}",
        "{\"other\": [1, 2}",
        "{\"other\": 01}",
        "{\"other\": tru}",
        "{\"a\": \"b\",}",
        "{} extra",
        "[]",
        "{\"a\": \"\\ud83d\"}",
        "{\"a\": \"\\x\"}",
        "{\"a\": \"line\nbreak\"}",
    ] {
        assert!(matches!(IdMappings::from_json(text), Err(NokError::MappingError(_))), "{:?}", text);
    }
}

#[test]
fn preview_matches_a_clean_run() {
    let data = snapshot();
    let manager = MigrationManager::new("legacy.db", "nok.local");
    let (_, preview) = manager.dry_run(&data);
    let users = vec![Ok(()); data.users.len()];
    let rooms = vec![Ok(()); data.rooms.len()];
    let run = manager.migrate(&data, &users, &rooms);
    assert_eq!(preview.users_migrated, run.users_migrated);
    assert_eq!(preview.rooms_migrated, run.rooms_migrated);
    assert_eq!(preview.messages_migrated, run.messages_migrated);
    assert_eq!(preview.errors, run.errors);
}
