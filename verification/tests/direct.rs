use announcements::direct::{DirectEntry, DirectRooms};
use announcements::text::{new_room_id, strip_prefix, trim, ServerName};

fn rooms(ids: &[&str]) -> Vec<String> {
    ids.iter().map(|id| id.to_string()).collect()
}

fn user(id: &str) -> String {
    id.to_owned()
}

#[test]
fn a_prefix_is_stripped() {
    assert_eq!(strip_prefix("Bearer abc", "Bearer "), Some("abc"));
    assert_eq!(strip_prefix("Bearer ", "Bearer "), Some(""));
    assert_eq!(strip_prefix("Beare", "Bearer "), None);
    assert_eq!(strip_prefix("bearer abc", "Bearer "), None);
    assert_eq!(strip_prefix("привет мир", "привет "), Some("мир"));
    assert_eq!(strip_prefix("abc", ""), Some("abc"));
}

#[test]
fn white_space_is_trimmed() {
    assert_eq!(trim("  a b\t\n"), "a b");
    assert_eq!(trim("\u{3000}ж\u{a0}"), "ж");
    assert_eq!(trim("solid"), "solid");
    assert_eq!(trim("x"), "x");
    assert_eq!(trim(" \u{2028}\r\n"), "");
    assert_eq!(trim(""), "");
    for code in 0..=0x10ffffu32 {
        if let Some(c) = char::from_u32(code) {
            let text = format!("{c}x{c}");
            assert_eq!(trim(&text), text.trim());
        }
    }
}

#[test]
fn a_new_room_id_is_on_the_server() {
    let server = ServerName::parse("example.org").unwrap();
    let id = new_room_id(&server);
    assert_eq!(id.len(), 1 + 18 + 1 + "example.org".len());
    assert!(id.starts_with('!'));
    assert!(id.ends_with(":example.org"));
    assert!(id[1..19].chars().all(|c| c.is_ascii_alphanumeric()));
    assert_ne!(new_room_id(&server), new_room_id(&server));
    let other = ServerName::parse("example.org:8448").unwrap();
    assert!(new_room_id(&other).ends_with(":example.org:8448"));
}

#[test]
fn a_server_name_is_read() {
    assert_eq!(ServerName::parse("example.org").unwrap().as_str(), "example.org");
    assert_eq!(ServerName::parse("[::1]:8448").unwrap().as_str(), "[::1]:8448");
    assert_eq!(ServerName::parse(""), None);
    assert_eq!(ServerName::parse("not a server"), None);
    assert_eq!(ServerName::parse("example.org:port"), None);
}

#[test]
fn rooms_are_listed_by_user() {
    let direct = DirectRooms::new()
        .with_rooms(user("@a:example.org"), rooms(&["!1:example.org", "!2:example.org"]))
        .with_rooms(user("@b:example.org"), rooms(&["!3:example.org"]));
    assert_eq!(
        direct.rooms_of_user(&user("@a:example.org")),
        rooms(&["!1:example.org", "!2:example.org"])
    );
    assert_eq!(direct.rooms_of_user(&user("@b:example.org")), rooms(&["!3:example.org"]));
    assert!(direct.rooms_of_user(&user("@c:example.org")).is_empty());
}

#[test]
fn an_entry_that_is_no_user_does_not_count() {
    let direct = DirectRooms::new()
        .with_rooms(user("mailto:a@example.org"), rooms(&["!1:example.org"]))
        .with_rooms(user("@a"), rooms(&["!2:example.org"]));
    assert!(direct.rooms_of_user(&user("mailto:a@example.org")).is_empty());
    assert!(direct.rooms_of_user(&user("@a")).is_empty());
}

#[test]
fn a_room_is_added_at_the_end_and_once() {
    let peer = user("@a:example.org");
    let direct = DirectRooms::new()
        .with_room(&peer, &user("!1:example.org"))
        .with_room(&peer, &user("!2:example.org"))
        .with_room(&peer, &user("!1:example.org"));
    assert_eq!(direct.rooms_of_user(&peer), rooms(&["!1:example.org", "!2:example.org"]));
    let again = DirectRooms::new()
        .with_room(&peer, &user("!1:example.org"))
        .with_room(&peer, &user("!2:example.org"));
    assert_eq!(direct, again);
}

#[test]
fn the_rooms_of_other_peers_stay() {
    let direct = DirectRooms::new()
        .with_rooms(user("@a:example.org"), rooms(&["!1:example.org"]))
        .with_room(&user("@b:example.org"), &user("!2:example.org"))
        .with_rooms(user("@a:example.org"), rooms(&["!3:example.org"]));
    let expected = vec![
        DirectEntry { peer: user("@a:example.org"), rooms: rooms(&["!3:example.org"]) },
        DirectEntry { peer: user("@b:example.org"), rooms: rooms(&["!2:example.org"]) },
    ];
    assert_eq!(direct.entries(), &expected);
}
