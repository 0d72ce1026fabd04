use nok::migration::converter::{
    legacy_to_matrix_room_id, legacy_to_matrix_user_id, room_name_to_matrix_alias,
    uuid_to_matrix_username, IdMappings,
};
use nok::migration::legacy::{LegacyRoom, LegacyUser};
use std::collections::HashSet;

fn is_alias(s: &str) -> bool {
    !s.is_empty() && s.chars().all(|c| c.is_ascii_lowercase() || c.is_ascii_digit() || c == '_')
}

fn user(id: &str, name: &str) -> LegacyUser {
    LegacyUser {
        id: id.to_string(),
        name: name.to_string(),
        status: None,
        created_at: None,
        updated_at: None,
    }
}

fn room(id: &str, name: &str) -> LegacyRoom {
    LegacyRoom {
        id: id.to_string(),
        name: name.to_string(),
        description: None,
        is_public: None,
        created_at: None,
        updated_at: None,
    }
}

#[test]
fn test_uuid_to_matrix_username() {
    let uuid = "0e06fba5-6474-43a0-964a-4fb934b781db";
    let username = uuid_to_matrix_username(uuid);
    assert_eq!(username, "user0e06fba56474");
}

#[test]
fn test_room_name_to_matrix_alias() {
    assert_eq!(room_name_to_matrix_alias("Main Room"), "main_room");
    assert_eq!(room_name_to_matrix_alias("Dev Team"), "dev_team");
    assert_eq!(room_name_to_matrix_alias("メインルーム").len() > 0, true);
}

#[test]
fn test_legacy_to_matrix_ids() {
    let legacy_user_id = "0e06fba5-6474-43a0-964a-4fb934b781db";
    let matrix_user_id = legacy_to_matrix_user_id(legacy_user_id, "nok.local");
    assert!(matrix_user_id.starts_with("@user"));
    assert!(matrix_user_id.ends_with(":nok.local"));
}

#[test]
fn username_lowercases_and_truncates() {
    assert_eq!(uuid_to_matrix_username("0E06FBA5-6474-43A0-964A-4FB934B781DB"), "user0e06fba56474");
    assert_eq!(uuid_to_matrix_username("ab-c"), "userabc");
    assert_eq!(uuid_to_matrix_username(""), "user");
    assert_eq!(uuid_to_matrix_username("----"), "user");
}

#[test]
fn user_id_is_deterministic_and_depends_on_server() {
    let id = "0e06fba5-6474-43a0-964a-4fb934b781db";
    let a = legacy_to_matrix_user_id(id, "nok.local");
    let b = legacy_to_matrix_user_id(id, "nok.local");
    let c = legacy_to_matrix_user_id(id, "other.example");
    assert_eq!(a, b);
    assert_ne!(a, c);
}

#[test]
fn concrete_user_and_room_example() {
    let id = "0e06fba5-6474-43a0-964a-4fb934b781db";
    let first = legacy_to_matrix_user_id(id, "nok.local");
    assert_eq!(first, "@user0e06fba56474:nok.local");
    assert!(first.ends_with(":nok.local"));
    assert_eq!(first, legacy_to_matrix_user_id(id, "nok.local"));
    assert_eq!(room_name_to_matrix_alias("Main Room"), "main_room");
}

#[test]
fn alias_of_edge_names_is_valid() {
    let long: String = "Room With A Very Long Name ".repeat(5);
    assert!(long.chars().count() >= 100);
    for name in ["", "メインルーム", "日本語のへや", "ab", "__", "!!!", long.as_str()] {
        let alias = room_name_to_matrix_alias(name);
        assert!(is_alias(&alias), "{:?} gave {:?}", name, alias);
    }
    let long_alias = room_name_to_matrix_alias(&long);
    assert!(long_alias.starts_with("room_with_a_very_long_name_room"));
    assert!(!long_alias.ends_with('_'));
}

#[test]
fn alias_falls_back_to_hash_for_short_slugs() {
    let a = room_name_to_matrix_alias("メインルーム");
    assert!(a.starts_with("room"));
    assert_eq!(a.len(), 12);
    assert_eq!(room_name_to_matrix_alias("").len(), 12);
    assert!(a[4..].chars().all(|c| c.is_ascii_hexdigit() && !c.is_ascii_uppercase()));
    assert_eq!(a, room_name_to_matrix_alias("メインルーム"));
    assert_ne!(a, room_name_to_matrix_alias("ラウンジ"));
    assert!(room_name_to_matrix_alias("ab").starts_with("room"));
    assert!(room_name_to_matrix_alias("").starts_with("room"));
}

#[test]
fn alias_collapses_and_trims_separators() {
    assert_eq!(room_name_to_matrix_alias("  Dev -- Team  "), "dev_team");
    assert_eq!(room_name_to_matrix_alias("a/b\\c.d"), "a_b_c_d");
    assert_eq!(room_name_to_matrix_alias("Team_Room"), "teamroom");
    assert_eq!(room_name_to_matrix_alias("Q&A 2024!"), "qa_2024");
}

#[test]
fn alias_collisions_are_rare() {
    let adjectives = ["red", "blue", "green", "quiet", "busy", "night", "early", "remote", "core", "open"];
    let topics = ["dev", "ops", "design", "sales", "support", "music", "games", "books", "news", "travel"];
    let mut names = Vec::new();
    for a in adjectives.iter() {
        for t in topics.iter() {
            for n in 0..10 {
                names.push(format!("{} {} Room {}", a, t, n));
            }
        }
    }
    assert_eq!(names.len(), 1000);
    let aliases: Vec<String> = names.iter().map(|n| room_name_to_matrix_alias(n)).collect();
    let distinct: HashSet<&String> = aliases.iter().collect();
    let collisions = aliases.len() - distinct.len();
    assert!(collisions * 100 < aliases.len(), "{} collisions", collisions);
}

#[test]
fn room_id_is_hex_and_namespaced() {
    let id = legacy_to_matrix_room_id("room-1", "nok.local");
    assert!(id.starts_with('!'));
    assert!(id.ends_with(":nok.local"));
    let hex = &id[1..17];
    assert_eq!(id.len(), 1 + 16 + 1 + "nok.local".len());
    assert!(hex.chars().all(|c| c.is_ascii_digit() || ('A'..='F').contains(&c)));
    assert_eq!(id, legacy_to_matrix_room_id("room-1", "nok.local"));
    assert_ne!(id, legacy_to_matrix_room_id("room-2", "nok.local"));
    let other = legacy_to_matrix_room_id("room-1", "example.org");
    assert_eq!(&other[1..17], hex);
}

#[test]
fn mappings_from_snapshot() {
    let users = vec![user("0e06fba5-6474-43a0-964a-4fb934b781db", "alice"), user("b-2", "bob")];
    let rooms = vec![room("r1", "Main Room"), room("r2", "メインルーム")];
    let m = IdMappings::generate_from_legacy_data(&users, &rooms, "nok.local");
    assert_eq!(m.user_mappings.len(), 2);
    assert_eq!(m.room_mappings.len(), 2);
    assert_eq!(
        m.get_matrix_user_id("0e06fba5-6474-43a0-964a-4fb934b781db").map(|s| s.as_str()),
        Some("@user0e06fba56474:nok.local")
    );
    assert_eq!(m.get_matrix_user_id("b-2").map(|s| s.as_str()), Some("@userb2:nok.local"));
    assert_eq!(m.get_matrix_room_alias("r1").map(|s| s.as_str()), Some("main_room"));
    assert_eq!(
        m.get_matrix_room_id("r1").cloned(),
        Some(legacy_to_matrix_room_id("r1", "nok.local"))
    );
    assert!(m.get_matrix_room_alias("r2").unwrap().starts_with("room"));
    assert!(m.get_matrix_user_id("missing").is_none());
}

#[test]
fn mappings_keep_one_entry_per_legacy_id() {
    let mut m = IdMappings::new();
    m.add_user_mapping("a".to_string(), "@x:s".to_string());
    m.add_user_mapping("a".to_string(), "@y:s".to_string());
    assert_eq!(m.user_mappings.len(), 1);
    assert_eq!(m.get_matrix_user_id("a").map(|s| s.as_str()), Some("@y:s"));
    m.add_room_mapping("r".to_string(), "!R:s".to_string(), "room_r".to_string());
    assert_eq!(m.get_matrix_room_id("r").map(|s| s.as_str()), Some("!R:s"));
    assert_eq!(m.get_matrix_room_alias("r").map(|s| s.as_str()), Some("room_r"));
}
