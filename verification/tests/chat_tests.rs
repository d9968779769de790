use chat_core::registry::RoomRegistry;
use chat_core::session::{
    CancelAction, ConnectionSession, InboundOutcome, JoinOutcome, RelayEnd, SessionState,
    parse_error_reply, rejected_reply,
};

fn join(reg: &mut RoomRegistry, user: &str, channel: &str) -> (ConnectionSession, usize) {
    let mut session = ConnectionSession::new(user.to_string(), "2024-01-01 00:00:00".to_string());
    let text = format!("{{\"channel\":\"{}\"}}", channel);
    let outcome = session.handle_join_message(reg, &text);
    assert!(matches!(outcome, JoinOutcome::Joined));
    let sub = match &session.state {
        SessionState::Active { sub, .. } => *sub,
        _ => panic!("expected an active session"),
    };
    (session, sub)
}

fn drain(reg: &mut RoomRegistry, room: &str, sub: usize) -> Vec<String> {
    let key = room.to_string();
    let mut out = Vec::new();
    while let Some(msg) = reg.recv(&key, sub) {
        out.push(msg);
    }
    out
}

#[test]
fn scenario_a_first_join_creates_room() {
    let mut reg = RoomRegistry::new();
    let (_alice, sub) = join(&mut reg, "alice", "general");
    let general = "general".to_string();
    assert!(reg.contains_room(&general));
    assert_eq!(reg.member_count(&general), Some(1));
    assert!(reg.has_member(&general, &"alice".to_string()));
    // the joining member's own subscription sees the presence frame
    assert_eq!(drain(&mut reg, "general", sub), vec!["alice joined.".to_string()]);
}

#[test]
fn scenario_b_chat_message_reaches_other_member() {
    let mut reg = RoomRegistry::new();
    let (mut alice, _alice_sub) = join(&mut reg, "alice", "general");
    let (_bob, bob_sub) = join(&mut reg, "bob", "general");
    drain(&mut reg, "general", bob_sub);
    let outcome = alice.handle_inbound_text(&mut reg, &"{\"message\":\"hi\"}".to_string());
    assert!(matches!(outcome, InboundOutcome::Broadcast));
    assert_eq!(
        drain(&mut reg, "general", bob_sub),
        vec![
            "{\"userid\":\"alice\",\"datetime\":\"2024-01-01 00:00:00\",\"text\":\"hi\",\"image\":null,\"reply\":null}"
                .to_string()
        ]
    );
}

#[test]
fn scenario_c_duplicate_identity_rejected() {
    let mut reg = RoomRegistry::new();
    let (_alice, _) = join(&mut reg, "alice", "general");
    let (_bob, _) = join(&mut reg, "bob", "general");
    let mut second = ConnectionSession::new("alice".to_string(), "t".to_string());
    let outcome =
        second.handle_join_message(&mut reg, &"{\"channel\":\"general\"}".to_string());
    assert!(matches!(outcome, JoinOutcome::Rejected));
    assert!(matches!(second.state, SessionState::Closed));
    let general = "general".to_string();
    assert_eq!(reg.member_count(&general), Some(2));
    assert!(reg.has_member(&general, &"alice".to_string()));
    assert!(reg.has_member(&general, &"bob".to_string()));
    assert_eq!(rejected_reply(), "identity already in use");
}

#[test]
fn scenario_d_disconnect_removes_member_and_announces() {
    let mut reg = RoomRegistry::new();
    let (_alice, alice_sub) = join(&mut reg, "alice", "general");
    let (mut bob, _) = join(&mut reg, "bob", "general");
    drain(&mut reg, "general", alice_sub);
    // bob's transport fails: the inbound relay ends, the outbound one is cancelled
    let action = bob.handle_relay_end(RelayEnd::InboundEnded);
    assert!(matches!(action, CancelAction::CancelOutbound));
    assert!(matches!(bob.state, SessionState::Closing { .. }));
    bob.finish(&mut reg);
    assert!(matches!(bob.state, SessionState::Closed));
    let general = "general".to_string();
    assert_eq!(reg.member_count(&general), Some(1));
    assert!(reg.has_member(&general, &"alice".to_string()));
    assert!(!reg.has_member(&general, &"bob".to_string()));
    assert_eq!(drain(&mut reg, "general", alice_sub), vec!["bob left.".to_string()]);
    assert!(reg.contains_room(&general));
}

#[test]
fn scenario_e_last_leave_tears_room_down() {
    let mut reg = RoomRegistry::new();
    let (mut alice, _) = join(&mut reg, "alice", "general");
    alice.finish(&mut reg);
    let general = "general".to_string();
    assert!(!reg.contains_room(&general));
    assert_eq!(reg.member_count(&general), None);
    // a fresh join creates a brand-new room with no members carried over
    let (_carol, carol_sub) = join(&mut reg, "carol", "general");
    assert_eq!(reg.member_count(&general), Some(1));
    assert!(!reg.has_member(&general, &"alice".to_string()));
    assert_eq!(drain(&mut reg, "general", carol_sub), vec!["carol joined.".to_string()]);
}

#[test]
fn join_rejected_for_same_identity_in_same_room() {
    let mut reg = RoomRegistry::new();
    assert!(reg.join(&"r".to_string(), &"u".to_string()));
    assert!(!reg.join(&"r".to_string(), &"u".to_string()));
    assert_eq!(reg.member_count(&"r".to_string()), Some(1));
}

#[test]
fn same_identity_may_join_two_rooms() {
    let mut reg = RoomRegistry::new();
    assert!(reg.join(&"a".to_string(), &"u".to_string()));
    assert!(reg.join(&"b".to_string(), &"u".to_string()));
    assert_eq!(reg.room_count(), 2);
}

#[test]
fn leave_is_idempotent() {
    let mut reg = RoomRegistry::new();
    reg.join(&"r".to_string(), &"u".to_string());
    reg.join(&"r".to_string(), &"v".to_string());
    reg.leave(&"r".to_string(), &"u".to_string());
    assert_eq!(reg.member_count(&"r".to_string()), Some(1));
    reg.leave(&"r".to_string(), &"u".to_string());
    assert_eq!(reg.member_count(&"r".to_string()), Some(1));
    // a leave for an unknown room or member is a no-op
    reg.leave(&"nowhere".to_string(), &"u".to_string());
    reg.leave(&"r".to_string(), &"ghost".to_string());
    assert_eq!(reg.room_count(), 1);
    assert!(reg.has_member(&"r".to_string(), &"v".to_string()));
}

#[test]
fn broadcast_is_isolated_to_its_room() {
    let mut reg = RoomRegistry::new();
    reg.join(&"east".to_string(), &"u".to_string());
    reg.join(&"west".to_string(), &"w".to_string());
    let east_sub = reg.subscribe(&"east".to_string()).unwrap();
    let west_sub = reg.subscribe(&"west".to_string()).unwrap();
    assert!(reg.broadcast(&"east".to_string(), &"hello east".to_string()));
    assert_eq!(reg.recv(&"east".to_string(), east_sub), Some("hello east".to_string()));
    assert_eq!(reg.recv(&"west".to_string(), west_sub), None);
}

#[test]
fn broadcast_reaches_every_subscriber_of_the_room() {
    let mut reg = RoomRegistry::new();
    reg.join(&"r".to_string(), &"u".to_string());
    let s1 = reg.subscribe(&"r".to_string()).unwrap();
    let s2 = reg.subscribe(&"r".to_string()).unwrap();
    assert!(reg.broadcast(&"r".to_string(), &"m".to_string()));
    assert_eq!(reg.recv(&"r".to_string(), s1), Some("m".to_string()));
    assert_eq!(reg.recv(&"r".to_string(), s2), Some("m".to_string()));
    assert_eq!(reg.recv(&"r".to_string(), s1), None);
}

#[test]
fn broadcast_to_unknown_room_is_dropped() {
    let mut reg = RoomRegistry::new();
    assert!(!reg.broadcast(&"r".to_string(), &"m".to_string()));
    assert_eq!(reg.room_count(), 0);
}

#[test]
fn full_queue_drops_oldest_message() {
    let mut reg = RoomRegistry::new();
    reg.join(&"r".to_string(), &"u".to_string());
    let sub = reg.subscribe(&"r".to_string()).unwrap();
    for i in 0..70 {
        reg.broadcast(&"r".to_string(), &format!("m{}", i));
    }
    // the queue holds 69 entries, so the first broadcast was dropped
    assert_eq!(reg.recv(&"r".to_string(), sub), Some("m1".to_string()));
}

#[test]
fn unsubscribed_slot_receives_nothing() {
    let mut reg = RoomRegistry::new();
    reg.join(&"r".to_string(), &"u".to_string());
    let sub = reg.subscribe(&"r".to_string()).unwrap();
    reg.unsubscribe(&"r".to_string(), sub);
    reg.broadcast(&"r".to_string(), &"m".to_string());
    assert_eq!(reg.recv(&"r".to_string(), sub), None);
}

#[test]
fn malformed_join_closes_without_touching_rooms() {
    let mut reg = RoomRegistry::new();
    let mut session = ConnectionSession::new("alice".to_string(), "t".to_string());
    let outcome = session.handle_join_message(&mut reg, &"not json".to_string());
    assert!(matches!(outcome, JoinOutcome::ParseFailed));
    assert!(matches!(session.state, SessionState::Closed));
    assert_eq!(reg.room_count(), 0);
    assert_eq!(parse_error_reply(), "Failed to parse connect message");
}

#[test]
fn join_without_channel_field_is_a_parse_failure() {
    let mut reg = RoomRegistry::new();
    let mut session = ConnectionSession::new("alice".to_string(), "t".to_string());
    let outcome = session.handle_join_message(&mut reg, &"{\"user\":\"x\"}".to_string());
    assert!(matches!(outcome, JoinOutcome::ParseFailed));
    assert_eq!(reg.room_count(), 0);
}

#[test]
fn typing_indicator_is_broadcast() {
    let mut reg = RoomRegistry::new();
    let (mut alice, _) = join(&mut reg, "alice", "general");
    let (_bob, bob_sub) = join(&mut reg, "bob", "general");
    drain(&mut reg, "general", bob_sub);
    let outcome = alice.handle_inbound_text(&mut reg, &"{\"istyping\":true}".to_string());
    assert!(matches!(outcome, InboundOutcome::Broadcast));
    assert_eq!(
        drain(&mut reg, "general", bob_sub),
        vec!["{\"userid\":\"alice\",\"istyping\":true}".to_string()]
    );
}

#[test]
fn malformed_chat_payload_is_terminal() {
    let mut reg = RoomRegistry::new();
    let (mut alice, _) = join(&mut reg, "alice", "general");
    let outcome = alice.handle_inbound_text(&mut reg, &"{broken".to_string());
    assert!(matches!(outcome, InboundOutcome::DecodeFailed));
    assert!(matches!(alice.state, SessionState::Closing { .. }));
    // the room is untouched until cleanup runs
    assert_eq!(reg.member_count(&"general".to_string()), Some(1));
    alice.finish(&mut reg);
    assert!(!reg.contains_room(&"general".to_string()));
}

#[test]
fn relay_end_pairing_cancels_the_other_loop() {
    let mut reg = RoomRegistry::new();
    let (mut alice, _) = join(&mut reg, "alice", "general");
    let action = alice.handle_relay_end(RelayEnd::OutboundEnded);
    assert!(matches!(action, CancelAction::CancelInbound));
    assert!(matches!(alice.state, SessionState::Closing { .. }));
    // a second relay ending changes nothing further
    let action = alice.handle_relay_end(RelayEnd::InboundEnded);
    assert!(matches!(action, CancelAction::CancelOutbound));
    assert!(matches!(alice.state, SessionState::Closing { .. }));
}

#[test]
fn finish_twice_is_idempotent() {
    let mut reg = RoomRegistry::new();
    let (_alice, _) = join(&mut reg, "alice", "general");
    let (mut bob, _) = join(&mut reg, "bob", "general");
    bob.finish(&mut reg);
    assert_eq!(reg.member_count(&"general".to_string()), Some(1));
    bob.finish(&mut reg);
    assert_eq!(reg.member_count(&"general".to_string()), Some(1));
    assert_eq!(reg.room_count(), 1);
}

#[test]
fn finish_before_joining_changes_nothing() {
    let mut reg = RoomRegistry::new();
    reg.join(&"r".to_string(), &"u".to_string());
    let mut session = ConnectionSession::new("x".to_string(), "t".to_string());
    session.finish(&mut reg);
    assert!(matches!(session.state, SessionState::Closed));
    assert_eq!(reg.room_count(), 1);
    assert_eq!(reg.member_count(&"r".to_string()), Some(1));
}
