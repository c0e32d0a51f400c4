use session_relay::error::{ConfigError, RelayError};
use session_relay::config::{namespace_len, DEFAULT_NAMESPACE_LEN};
use session_relay::names::{create_random_namespace, is_free, CHARSET, MAX_ATTEMPTS};
use session_relay::relay::{endpoint, on_member_left, preflight, EmptyPolicy};
use session_relay::session::Session;
use session_relay::state::NamespaceStore;

fn names(list: &[&str]) -> Vec<String> {
    list.iter().map(|s| s.to_string()).collect()
}

#[test]
fn internal_test_create_random_namespace() {
    let vec: Vec<String> = vec!["test1".to_string(), "test2".to_string()];
    let ns = create_random_namespace(&vec, 7).unwrap();
    println!("generated: {:?}", ns);
    assert_eq!(ns.len(), 7);
    assert!(!vec.contains(&ns));
    assert!(vec.contains(&"test2".to_string()));
}

#[test]
fn websocket_test_create_random_namespace() {
    let vec: Vec<String> = vec!["test1".to_string(), "test2".to_string()];
    let ns = create_random_namespace(&vec, DEFAULT_NAMESPACE_LEN).unwrap();
    println!("generated: {:?}", ns);
    assert_eq!(ns.len(), 7);
    assert!(!vec.contains(&ns));
    assert!(vec.contains(&"test2".to_string()));
}

#[test]
fn generated_name_is_alphanumeric_of_the_asked_length() {
    for len in [1usize, 2, 7, 16, 64] {
        let ns = create_random_namespace(&Vec::new(), len).unwrap();
        assert_eq!(ns.chars().count(), len);
        assert!(ns.chars().all(|c| c.is_ascii_alphanumeric()));
        assert_ne!(ns, CHARSET);
    }
}

#[test]
fn generated_name_avoids_every_active_name() {
    let mut active: Vec<String> = Vec::new();
    for c in CHARSET.chars() {
        if c != 'q' {
            active.push(c.to_string());
        }
    }
    assert_eq!(active.len(), 61);
    // One name in 62 is free: 1024 draws miss it with a chance below 1e-7.
    let ns = create_random_namespace(&active, 1).unwrap();
    assert_eq!(ns, "q");
}

#[test]
fn generation_gives_up_when_every_name_is_taken() {
    let active: Vec<String> = CHARSET.chars().map(|c| c.to_string()).collect();
    assert_eq!(
        create_random_namespace(&active, 1),
        Err(RelayError::SessionIdExhausted)
    );
}

#[test]
fn length_zero_is_served_once_and_then_exhausted() {
    assert_eq!(create_random_namespace(&Vec::new(), 0), Ok(String::new()));
    assert_eq!(
        create_random_namespace(&names(&[""]), 0),
        Err(RelayError::SessionIdExhausted)
    );
}

#[test]
fn repeated_generation_never_returns_an_active_name() {
    let mut active: Vec<String> = Vec::new();
    for _ in 0..40 {
        let ns = create_random_namespace(&active, 1).unwrap();
        assert!(!active.contains(&ns));
        active.push(ns);
    }
    assert_eq!(active.len(), 40);
}

#[test]
fn is_free_tells_members_from_others() {
    let active = names(&["test1", "test2"]);
    assert!(!is_free(&active, &"test1".to_string()));
    assert!(!is_free(&active, &"test2".to_string()));
    assert!(is_free(&active, &"test3".to_string()));
    assert!(is_free(&Vec::new(), &"test1".to_string()));
}

#[test]
fn limits_are_as_documented() {
    assert_eq!(DEFAULT_NAMESPACE_LEN, 7);
    assert_eq!(MAX_ATTEMPTS, 1024);
    assert_eq!(CHARSET.len(), 62);
}

#[test]
fn namespace_len_defaults_to_seven() {
    assert_eq!(namespace_len(None), Ok(7));
}

#[test]
fn namespace_len_reads_decimal_numbers() {
    assert_eq!(namespace_len(Some("7")), Ok(7));
    assert_eq!(namespace_len(Some("12")), Ok(12));
    assert_eq!(namespace_len(Some("+5")), Ok(5));
    assert_eq!(namespace_len(Some("007")), Ok(7));
    assert_eq!(namespace_len(Some("1")), Ok(1));
    let most = isize::MAX as usize;
    assert_eq!(namespace_len(Some(&most.to_string())), Ok(most));
}

#[test]
fn namespace_len_refuses_what_is_no_length() {
    for text in ["", "+", "0", "000", "-1", "7 ", " 7", "seven", "7a", "1_000", "++1", "٣"] {
        assert_eq!(namespace_len(Some(text)), Err(ConfigError::InvalidLength), "{:?}", text);
    }
    let too_long = (isize::MAX as usize + 1).to_string();
    assert_eq!(namespace_len(Some(&too_long)), Err(ConfigError::InvalidLength));
    assert_eq!(
        namespace_len(Some("340282366920938463463374607431768211456")),
        Err(ConfigError::InvalidLength)
    );
}

#[test]
fn store_is_a_set_of_names() {
    let mut store = NamespaceStore::new();
    assert_eq!(store.len(), 0);
    assert!(store.get_all().is_empty());
    store.insert("abc".to_string());
    store.insert("def".to_string());
    store.insert("abc".to_string());
    assert_eq!(store.len(), 2);
    assert!(store.contains(&"abc".to_string()));
    assert!(store.contains(&"def".to_string()));
    assert!(!store.contains(&"ghi".to_string()));
    let mut all = store.get_all();
    all.sort();
    assert_eq!(all, names(&["abc", "def"]));
}

#[test]
fn store_remove_takes_out_one_name_only() {
    let mut store = NamespaceStore::default();
    store.insert("abc".to_string());
    store.insert("def".to_string());
    store.insert("ghi".to_string());
    store.remove("def".to_string());
    store.remove("nothing".to_string());
    assert_eq!(store.len(), 2);
    assert!(store.contains(&"abc".to_string()));
    assert!(!store.contains(&"def".to_string()));
    assert!(store.contains(&"ghi".to_string()));
    store.remove("abc".to_string());
    store.remove("ghi".to_string());
    assert_eq!(store.len(), 0);
}

#[test]
fn snapshot_does_not_follow_the_store() {
    let mut store = NamespaceStore::new();
    store.insert("abc".to_string());
    let snapshot = store.get_all();
    store.insert("def".to_string());
    store.remove("abc".to_string());
    assert_eq!(snapshot, names(&["abc"]));
    assert_eq!(store.get_all(), names(&["def"]));
}

#[test]
fn preflight_twice_gives_two_names_that_both_stay() {
    let mut store = NamespaceStore::new();
    let first = preflight(&mut store, 7).unwrap();
    let second = preflight(&mut store, 7).unwrap();
    assert_eq!(first.ns.len(), 7);
    assert_eq!(second.ns.len(), 7);
    assert_ne!(first.ns, second.ns);
    let snapshot = store.get_all();
    assert_eq!(snapshot.len(), 2);
    assert!(snapshot.contains(&first.ns));
    assert!(snapshot.contains(&second.ns));
    store.remove(first.ns.clone());
    let snapshot = store.get_all();
    assert!(!snapshot.contains(&first.ns));
    assert!(snapshot.contains(&second.ns));
}

#[test]
fn preflight_fills_a_small_name_space_without_repeating() {
    let mut store = NamespaceStore::new();
    let mut seen: Vec<String> = Vec::new();
    for _ in 0..30 {
        let ns = preflight(&mut store, 1).unwrap().ns;
        assert!(!seen.contains(&ns));
        seen.push(ns);
    }
    assert_eq!(store.len(), 30);
}

#[test]
fn preflight_that_finds_no_name_leaves_the_registry() {
    let mut store = NamespaceStore::new();
    for c in CHARSET.chars() {
        store.insert(c.to_string());
    }
    assert_eq!(store.len(), 62);
    let answer = preflight(&mut store, 1);
    assert_eq!(answer.err(), Some(RelayError::SessionIdExhausted));
    assert_eq!(store.len(), 62);
    // A longer name is still to be had.
    let answer = preflight(&mut store, 2).unwrap();
    assert_eq!(answer.ns.len(), 2);
    assert_eq!(store.len(), 63);
}

#[test]
fn endpoint_is_a_slash_and_the_name() {
    assert_eq!(endpoint("aB3dE6g"), "/aB3dE6g");
    assert_eq!(endpoint(""), "/");
}

#[test]
fn empty_session_is_kept_unless_the_policy_removes_it() {
    let mut store = NamespaceStore::new();
    store.insert("abc".to_string());
    let mut session = Session::new("abc".to_string());
    assert_eq!(EmptyPolicy::default(), EmptyPolicy::Keep);
    assert!(!on_member_left(&mut store, &session, EmptyPolicy::Keep));
    assert!(store.contains(&"abc".to_string()));

    let peer = session.join().unwrap();
    assert!(!on_member_left(&mut store, &session, EmptyPolicy::Remove));
    assert!(store.contains(&"abc".to_string()));

    let left = session.leave(&peer.id);
    assert!(left.session_empty);
    assert!(on_member_left(&mut store, &session, EmptyPolicy::Remove));
    assert!(!store.contains(&"abc".to_string()));
}
