use session_relay::data::ClientId;
use session_relay::error::RelayError;
use session_relay::session::Session;

fn id(text: &str) -> ClientId {
    ClientId(text.to_string())
}

fn ids(list: &[ClientId]) -> Vec<&str> {
    list.iter().map(|m| m.0.as_str()).collect()
}

#[test]
fn new_session_has_a_name_and_no_member() {
    let session = Session::new("aB3dE6g".to_string());
    assert_eq!(session.ns(), "aB3dE6g");
    assert_eq!(session.len(), 0);
    assert!(session.is_empty());
    assert!(session.members().is_empty());
}

#[test]
fn join_hands_out_a_fresh_hyphenated_identifier() {
    let mut session = Session::new("s".to_string());
    let peer = session.join().unwrap();
    assert_eq!(peer.ns, "s");
    let chars: Vec<char> = peer.id.0.chars().collect();
    assert_eq!(chars.len(), 36);
    for (i, c) in chars.iter().enumerate() {
        if i == 8 || i == 13 || i == 18 || i == 23 {
            assert_eq!(*c, '-');
        } else {
            assert!(c.is_ascii_digit() || ('a'..='f').contains(c));
        }
    }
    assert!(session.contains(&peer.id));
    assert_eq!(session.len(), 1);
}

#[test]
fn join_never_repeats_an_identifier() {
    let mut session = Session::new("s".to_string());
    let mut seen: Vec<String> = Vec::new();
    for _ in 0..50 {
        let peer = session.join().unwrap();
        assert!(!seen.contains(&peer.id.0));
        seen.push(peer.id.0);
    }
    assert_eq!(session.len(), 50);
    let members = session.members();
    assert_eq!(ids(&members), seen.iter().map(|s| s.as_str()).collect::<Vec<_>>());
}

#[test]
fn enroll_refuses_an_identifier_that_is_taken() {
    let mut session = Session::new("s".to_string());
    assert!(session.enroll(id("a")));
    assert!(session.enroll(id("b")));
    assert!(!session.enroll(id("a")));
    assert_eq!(ids(&session.members()), vec!["a", "b"]);
}

#[test]
fn broadcast_goes_to_everyone_but_the_sender() {
    let mut session = Session::new("s".to_string());
    for name in ["a", "b", "c", "d"] {
        assert!(session.enroll(id(name)));
    }
    assert_eq!(ids(&session.broadcast_targets(&id("a"))), vec!["b", "c", "d"]);
    assert_eq!(ids(&session.broadcast_targets(&id("c"))), vec!["a", "b", "d"]);
    assert_eq!(ids(&session.broadcast_targets(&id("d"))), vec!["a", "b", "c"]);
    // Someone who is no member is left out of nothing.
    assert_eq!(ids(&session.broadcast_targets(&id("x"))), vec!["a", "b", "c", "d"]);
}

#[test]
fn request_goes_to_the_first_other_member() {
    let mut session = Session::new("s".to_string());
    for name in ["a", "b", "c"] {
        assert!(session.enroll(id(name)));
    }
    assert_eq!(session.request_target(&id("a")).unwrap().0, "b");
    assert_eq!(session.request_target(&id("b")).unwrap().0, "a");
    assert_eq!(session.request_target(&id("c")).unwrap().0, "a");
}

#[test]
fn request_without_another_member_finds_no_target() {
    let mut session = Session::new("s".to_string());
    assert_eq!(session.request_target(&id("a")).err(), Some(RelayError::NoTarget));
    assert!(session.enroll(id("a")));
    assert_eq!(session.request_target(&id("a")).err(), Some(RelayError::NoTarget));
}

#[test]
fn leaving_a_session_of_two_tells_the_other_once() {
    let mut session = Session::new("s".to_string());
    let stays = session.join().unwrap().id;
    let goes = session.join().unwrap().id;
    assert_eq!(session.request_target(&stays).unwrap().0, goes.0);

    let left = session.leave(&goes);
    assert_eq!(left.targets.len(), 1);
    assert_eq!(left.targets[0].0, stays.0);
    assert_eq!(left.packet.id.0, goes.0);
    assert!(!left.session_empty);

    assert!(!session.contains(&goes));
    assert_eq!(ids(&session.members()), vec![stays.0.as_str()]);
    // The departed peer is nobody's target any more.
    assert_eq!(session.request_target(&stays).err(), Some(RelayError::NoTarget));
    assert!(session.broadcast_targets(&stays).is_empty());
}

#[test]
fn leaving_keeps_the_order_of_those_who_stay() {
    let mut session = Session::new("s".to_string());
    for name in ["a", "b", "c", "d"] {
        assert!(session.enroll(id(name)));
    }
    let left = session.leave(&id("b"));
    assert_eq!(ids(&left.targets), vec!["a", "c", "d"]);
    assert_eq!(left.packet.id.0, "b");
    assert_eq!(ids(&session.members()), vec!["a", "c", "d"]);
    assert_eq!(session.request_target(&id("a")).unwrap().0, "c");
}

#[test]
fn the_last_to_leave_leaves_an_empty_session() {
    let mut session = Session::new("s".to_string());
    assert!(session.enroll(id("a")));
    let left = session.leave(&id("a"));
    assert!(left.targets.is_empty());
    assert!(left.session_empty);
    assert!(session.is_empty());
    assert_eq!(session.ns(), "s");
}

#[test]
fn leaving_without_being_a_member_changes_nothing() {
    let mut session = Session::new("s".to_string());
    assert!(session.enroll(id("a")));
    let left = session.leave(&id("x"));
    assert_eq!(ids(&left.targets), vec!["a"]);
    assert_eq!(left.packet.id.0, "x");
    assert!(!left.session_empty);
    assert_eq!(session.len(), 1);
}

#[test]
fn identifiers_compare_by_their_text() {
    let a = id("a");
    assert!(a.same(&id("a")));
    assert!(!a.same(&id("b")));
    assert_eq!(a.duplicate().0, "a");
}
