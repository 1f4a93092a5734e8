use lobby_core::identity::Identity;
use lobby_core::roster::{Roster, client_connected, client_disconnected};

fn ident(n: u64) -> Identity {
    Identity { w0: n, w1: 0, w2: 0, w3: 0 }
}

#[test]
fn connect_creates_an_online_row() {
    let mut r = Roster::new();
    let x = ident(1);
    client_connected(&mut r, x);
    assert_eq!(r.users.len(), 1);
    assert_eq!(r.users[0].identity, x);
    assert_eq!(r.users[0].name, None);
    assert!(r.users[0].online);
}

#[test]
fn connect_is_idempotent() {
    let mut r = Roster::new();
    let x = ident(1);
    client_connected(&mut r, x);
    client_connected(&mut r, x);
    assert_eq!(r.users.len(), 1);
    assert!(r.users[0].online);
}

#[test]
fn disconnect_marks_offline() {
    let mut r = Roster::new();
    let x = ident(1);
    client_connected(&mut r, x);
    client_disconnected(&mut r, x);
    assert_eq!(r.users.len(), 1);
    assert_eq!(r.users[0].identity, x);
    assert!(!r.users[0].online);
}

#[test]
fn reconnect_after_disconnect_marks_online_again() {
    let mut r = Roster::new();
    let x = ident(1);
    client_connected(&mut r, x);
    client_disconnected(&mut r, x);
    client_connected(&mut r, x);
    assert_eq!(r.users.len(), 1);
    assert!(r.users[0].online);
}

#[test]
fn disconnect_of_unknown_identity_creates_no_row() {
    let mut r = Roster::new();
    let x = ident(1);
    let y = ident(2);
    client_connected(&mut r, x);
    client_disconnected(&mut r, y);
    assert_eq!(r.users.len(), 1);
    assert_eq!(r.users[0].identity, x);
    assert!(r.users[0].online);
}

#[test]
fn connect_touches_only_the_callers_row() {
    let mut r = Roster::new();
    let x = ident(1);
    let y = ident(2);
    client_connected(&mut r, x);
    client_connected(&mut r, y);
    client_disconnected(&mut r, x);
    assert_eq!(r.users.len(), 2);
    assert!(!r.users[0].online);
    assert!(r.users[1].online);
    client_connected(&mut r, x);
    assert!(r.users[0].online);
    assert!(r.users[1].online);
}

#[test]
fn find_reports_the_row() {
    let mut r = Roster::new();
    let x = ident(1);
    assert!(r.find(x).is_none());
    client_connected(&mut r, x);
    let row = r.find(x).expect("connected identity must have a row");
    assert_eq!(row.identity, x);
    assert!(row.online);
    assert!(r.find(ident(2)).is_none());
}
