use m365_copilot_proxy::session_store::{CopilotTurn, PersistentSession, PersistentSessionStore};

fn is_uuid(s: &str) -> bool {
    s.len() == 36
        && s.char_indices().all(|(i, c)| match i {
            8 | 13 | 18 | 23 => c == '-',
            14 => c == '4',
            _ => c.is_ascii_digit() || ('a'..='f').contains(&c),
        })
}

#[test]
fn conversations_last_and_stay_apart() {
    let mut store = PersistentSessionStore::default();
    let first = store.get("header:a").reserve_turn();
    let other = store.get("header:b").reserve_turn();
    let second = store.get("header:a").reserve_turn();
    assert!(first.is_start_of_session && other.is_start_of_session);
    assert!(!second.is_start_of_session);
    assert_eq!(second.conversation_id, first.conversation_id);
    assert_eq!(second.client_session_id, first.client_session_id);
    assert_ne!(other.conversation_id, first.conversation_id);
    assert_eq!(store.get("header:a").turn_count, 2);
    assert_eq!(store.get("header:b").turn_count, 1);
    assert_eq!(store.get("header:c").turn_count, 0);
}

#[test]
fn new_conversations_have_new_names() {
    let a = PersistentSession::new();
    let b = CopilotTurn::single();
    for id in [&a.conversation_id, &a.client_session_id, &b.conversation_id, &b.client_session_id] {
        assert!(is_uuid(id), "{id}");
    }
    assert_ne!(a.conversation_id, a.client_session_id);
    assert_ne!(a.conversation_id, b.conversation_id);
    assert!(b.is_start_of_session);
}

#[test]
fn the_count_of_turns_has_an_end() {
    let mut s = PersistentSession::with_ids("c".to_string(), "s".to_string());
    assert!(s.can_reserve());
    s.turn_count = u32::MAX - 1;
    assert!(s.can_reserve());
    assert!(!s.reserve_turn().is_start_of_session);
    assert!(!s.can_reserve());
}
