use lobby_core::Reject;
use lobby_core::identity::Identity;
use lobby_core::lobby::{Lobby, LobbyTable, create_lobby, increment, join_lobby};

fn ident(n: u64) -> Identity {
    Identity { w0: n, w1: 0, w2: 0, w3: 0 }
}

#[test]
fn create_then_lookup() {
    let mut t = LobbyTable::new();
    let a = ident(1);
    assert_eq!(create_lobby(&mut t, a, "game1", 7), Ok(()));
    let l = t.find(&"GAME1".to_string()).expect("created lobby must be found");
    assert_eq!(l.code, "GAME1".to_string());
    assert_eq!(l.red, Some(a));
    assert_eq!(l.blue, None);
    assert_eq!(l.red_count, 0);
    assert_eq!(l.blue_count, 0);
    assert_eq!(l.created, 7);
}

#[test]
fn create_rejects_invalid_codes() {
    let mut t = LobbyTable::new();
    let a = ident(1);
    assert_eq!(create_lobby(&mut t, a, "ab", 0), Err(Reject::InvalidCode));
    assert_eq!(create_lobby(&mut t, a, "TOOLONGCODE13", 0), Err(Reject::InvalidCode));
    assert_eq!(create_lobby(&mut t, a, "AB!D", 0), Err(Reject::InvalidCode));
    assert_eq!(t.lobbies.len(), 0);
}

#[test]
fn create_rejects_duplicate_case_insensitive() {
    let mut t = LobbyTable::new();
    assert_eq!(create_lobby(&mut t, ident(1), "game1", 0), Ok(()));
    assert_eq!(create_lobby(&mut t, ident(2), "GAME1", 1), Err(Reject::DuplicateCode));
    assert_eq!(t.lobbies.len(), 1);
    assert_eq!(t.lobbies[0].red, Some(ident(1)));
}

#[test]
fn join_fills_slots_in_order() {
    let mut t = LobbyTable::new();
    let (a, b, c) = (ident(1), ident(2), ident(3));
    assert_eq!(create_lobby(&mut t, a, "room7", 0), Ok(()));

    // the creator rejoining is a no-op
    assert_eq!(join_lobby(&mut t, a, "ROOM7"), Ok(()));
    assert_eq!(t.lobbies[0].red, Some(a));
    assert_eq!(t.lobbies[0].blue, None);

    // a second identity takes the blue slot
    assert_eq!(join_lobby(&mut t, b, "room7"), Ok(()));
    assert_eq!(t.lobbies[0].red, Some(a));
    assert_eq!(t.lobbies[0].blue, Some(b));

    // members rejoining stay a no-op
    assert_eq!(join_lobby(&mut t, b, "room7"), Ok(()));
    assert_eq!(t.lobbies[0].blue, Some(b));

    // a third identity is turned away
    assert_eq!(join_lobby(&mut t, c, "room7"), Err(Reject::LobbyFull));
    assert_eq!(t.lobbies[0].red, Some(a));
    assert_eq!(t.lobbies[0].blue, Some(b));
}

#[test]
fn join_fills_empty_red_first() {
    let a = ident(9);
    let mut t = LobbyTable {
        lobbies: vec![Lobby {
            code: "ABCD".to_string(),
            red: None,
            blue: None,
            red_count: 0,
            blue_count: 0,
            created: 0,
        }],
    };
    assert_eq!(join_lobby(&mut t, a, "abcd"), Ok(()));
    assert_eq!(t.lobbies[0].red, Some(a));
    assert_eq!(t.lobbies[0].blue, None);
}

#[test]
fn join_rejects_invalid_and_unknown() {
    let mut t = LobbyTable::new();
    assert_eq!(join_lobby(&mut t, ident(1), "a!"), Err(Reject::InvalidCode));
    assert_eq!(join_lobby(&mut t, ident(1), "ROOM7"), Err(Reject::NotFound));
}

#[test]
fn increment_advances_only_the_callers_counter() {
    let mut t = LobbyTable::new();
    let (a, b) = (ident(1), ident(2));
    assert_eq!(create_lobby(&mut t, a, "game1", 0), Ok(()));
    assert_eq!(join_lobby(&mut t, b, "game1"), Ok(()));

    assert_eq!(increment(&mut t, a, "game1"), Ok(()));
    assert_eq!(t.lobbies[0].red_count, 1);
    assert_eq!(t.lobbies[0].blue_count, 0);

    assert_eq!(increment(&mut t, a, "GAME1"), Ok(()));
    assert_eq!(t.lobbies[0].red_count, 2);
    assert_eq!(t.lobbies[0].blue_count, 0);

    assert_eq!(increment(&mut t, b, "game1"), Ok(()));
    assert_eq!(t.lobbies[0].red_count, 2);
    assert_eq!(t.lobbies[0].blue_count, 1);
}

#[test]
fn increment_saturates_at_the_ceiling() {
    let a = ident(1);
    let mut t = LobbyTable {
        lobbies: vec![Lobby {
            code: "ABCD".to_string(),
            red: Some(a),
            blue: None,
            red_count: u32::MAX,
            blue_count: 0,
            created: 0,
        }],
    };
    assert_eq!(increment(&mut t, a, "abcd"), Ok(()));
    assert_eq!(t.lobbies[0].red_count, u32::MAX);
    assert_eq!(t.lobbies[0].blue_count, 0);
}

#[test]
fn increment_rejects_unknown_code_and_non_member() {
    let mut t = LobbyTable::new();
    let (a, c) = (ident(1), ident(3));
    assert_eq!(increment(&mut t, a, "game1"), Err(Reject::NotFound));
    assert_eq!(create_lobby(&mut t, a, "game1", 0), Ok(()));
    assert_eq!(increment(&mut t, c, "game1"), Err(Reject::NotAMember));
    assert_eq!(t.lobbies[0].red_count, 0);
    assert_eq!(t.lobbies[0].blue_count, 0);
}
