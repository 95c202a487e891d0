use samchat::ids::direct_conversation_id;
use samchat::store::SamchatState;
use samchat::types::{ChatError, ChatMessage};

fn node(id: &str) -> SamchatState {
    let mut s = SamchatState::new();
    s.initialize(id.to_string());
    s
}

fn direct_message(id: &str, from: &str, to: &str, content: &str, ts: &str) -> ChatMessage {
    ChatMessage {
        id: id.to_string(),
        conversation_id: direct_conversation_id(from, to),
        sender: from.to_string(),
        recipient: Some(to.to_string()),
        recipients: None,
        content: content.to_string(),
        timestamp: ts.to_string(),
        delivered: false,
        file_info: None,
    }
}

#[test]
fn direct_id_is_commutative() {
    let ab = direct_conversation_id("alice.os", "bob.os");
    let ba = direct_conversation_id("bob.os", "alice.os");
    assert_eq!(ab, ba);
    assert_eq!(ab, "alice.os|bob.os");
}

#[test]
fn receive_is_idempotent() {
    let mut s = node("bob.os");
    let m = direct_message("m-1", "alice.os", "bob.os", "hi", "2024-01-01T00:00:01+00:00");
    let again = direct_message("m-1", "alice.os", "bob.os", "hi", "2024-01-01T00:00:01+00:00");
    assert_eq!(s.receive_message_at(m, "2024-01-01T00:00:02+00:00".to_string()), Ok(true));
    assert_eq!(s.receive_message_at(again, "2024-01-01T00:00:03+00:00".to_string()), Ok(true));
    let history = s.get_messages("alice.os|bob.os".to_string()).unwrap();
    assert_eq!(history.len(), 1);
    assert_eq!(history[0].id, "m-1");
}

#[test]
fn late_arrivals_are_ordered_by_timestamp() {
    let mut s = node("bob.os");
    let t1 = "2024-01-01T00:00:01+00:00";
    let t2 = "2024-01-01T00:00:02+00:00";
    let t3 = "2024-01-01T00:00:03+00:00";
    for (id, ts) in [("m-3", t3), ("m-1", t1), ("m-2", t2)] {
        let m = direct_message(id, "alice.os", "bob.os", "hi", ts);
        assert_eq!(s.receive_message_at(m, ts.to_string()), Ok(true));
    }
    let history = s.get_messages("alice.os|bob.os".to_string()).unwrap();
    let stamps: Vec<&str> = history.iter().map(|m| m.timestamp.as_str()).collect();
    assert_eq!(stamps, vec![t1, t2, t3]);
    let ids: Vec<&str> = history.iter().map(|m| m.id.as_str()).collect();
    assert_eq!(ids, vec!["m-1", "m-2", "m-3"]);
}

#[test]
fn send_persists_locally_whatever_the_transport_does() {
    let mut s = node("alice.os");
    let plan = s
        .send_message_at(
            "bob.os".to_string(),
            "hello".to_string(),
            "m-1".to_string(),
            "2024-01-01T00:00:01+00:00".to_string(),
        )
        .unwrap();
    // The transport is never invoked: the plan is dropped on the floor.
    assert_eq!(plan.recipients, vec!["bob.os".to_string()]);
    assert_eq!(plan.message.conversation_id, "alice.os|bob.os");
    assert_eq!(plan.message.sender, "alice.os");
    assert_eq!(plan.message.recipient, Some("bob.os".to_string()));
    assert!(!plan.message.delivered);
    let history = s.get_messages("alice.os|bob.os".to_string()).unwrap();
    assert_eq!(history.len(), 1);
    assert_eq!(history[0].content, "hello");
}

#[test]
fn send_requires_an_initialized_node() {
    let mut s = SamchatState::new();
    let r = s.send_message_at(
        "bob.os".to_string(),
        "hello".to_string(),
        "m-1".to_string(),
        "2024-01-01T00:00:01+00:00".to_string(),
    );
    assert_eq!(r.unwrap_err(), ChatError::NotInitialized);
}

#[test]
fn send_rejects_empty_content() {
    let mut s = node("alice.os");
    let r = s.send_message_at(
        "bob.os".to_string(),
        "".to_string(),
        "m-1".to_string(),
        "2024-01-01T00:00:01+00:00".to_string(),
    );
    assert_eq!(r.unwrap_err(), ChatError::EmptyContent);
    assert_eq!(s.conversations.len(), 0);
}

#[test]
fn send_rejects_malformed_direct_address() {
    let mut s = node("alice.os");
    let r = s.send_message_at(
        "bob".to_string(),
        "hello".to_string(),
        "m-1".to_string(),
        "2024-01-01T00:00:01+00:00".to_string(),
    );
    assert_eq!(r.unwrap_err(), ChatError::InvalidRecipient);
    let r = s.send_message_at(
        "".to_string(),
        "hello".to_string(),
        "m-2".to_string(),
        "2024-01-01T00:00:01+00:00".to_string(),
    );
    assert_eq!(r.unwrap_err(), ChatError::InvalidRecipient);
}

#[test]
fn send_to_unknown_group_fails() {
    let mut s = node("alice.os");
    let r = s.send_message_at(
        "group_123".to_string(),
        "hello".to_string(),
        "m-1".to_string(),
        "2024-01-01T00:00:01+00:00".to_string(),
    );
    assert_eq!(r.unwrap_err(), ChatError::GroupNotFound);
}

#[test]
fn send_dedups_on_message_id() {
    let mut s = node("alice.os");
    let t = "2024-01-01T00:00:01+00:00".to_string();
    s.send_message_at("bob.os".to_string(), "one".to_string(), "m-1".to_string(), t.clone())
        .unwrap();
    s.send_message_at("bob.os".to_string(), "two".to_string(), "m-1".to_string(), t).unwrap();
    let history = s.get_messages("alice.os|bob.os".to_string()).unwrap();
    assert_eq!(history.len(), 1);
    assert_eq!(history[0].content, "one");
}

#[test]
fn send_draws_fresh_identifier_and_timestamp() {
    // Exercises the identifier and clock sources for real.
    let mut s = node("alice.os");
    let plan = s.send_message("bob.os".to_string(), "hello".to_string()).unwrap();
    assert_eq!(plan.message.id.len(), 36);
    assert!(!plan.message.timestamp.is_empty());
    let plan2 = s.send_message("bob.os".to_string(), "again".to_string()).unwrap();
    assert_ne!(plan.message.id, plan2.message.id);
    let history = s.get_messages("alice.os|bob.os".to_string()).unwrap();
    assert_eq!(history.len(), 2);
}

#[test]
fn delivered_message_reaches_the_peer() {
    let mut alice = node("alice.os");
    let mut bob = node("bob.os");
    let plan = alice.send_message("bob.os".to_string(), "hello".to_string()).unwrap();
    assert_eq!(plan.recipients, vec!["bob.os".to_string()]);
    assert_eq!(bob.receive_message(plan.message), Ok(true));
    let history = bob.get_messages("alice.os|bob.os".to_string()).unwrap();
    assert_eq!(history.len(), 1);
    assert_eq!(history[0].content, "hello");
    assert_eq!(history[0].sender, "alice.os");
}

#[test]
fn receive_creates_group_placeholder() {
    let mut s = node("carol.os");
    let m = ChatMessage {
        id: "m-9".to_string(),
        conversation_id: "group_abc".to_string(),
        sender: "alice.os".to_string(),
        recipient: None,
        recipients: Some(vec!["bob.os".to_string(), "carol.os".to_string()]),
        content: "group hello".to_string(),
        timestamp: "2024-01-01T00:00:01+00:00".to_string(),
        delivered: false,
        file_info: None,
    };
    assert_eq!(s.receive_message_at(m, "2024-01-01T00:00:02+00:00".to_string()), Ok(true));
    let c = s.get_conversation(&"group_abc".to_string()).unwrap();
    assert!(c.is_group);
    assert_eq!(c.participants, vec!["alice.os".to_string()]);
    assert_eq!(c.group_name, None);
    assert_eq!(c.messages.len(), 1);
}
