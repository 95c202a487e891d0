use samchat::store::SamchatState;
use samchat::types::{ChatError, GroupJoinNotification, GroupLeaveNotification};

fn node(id: &str) -> SamchatState {
    let mut s = SamchatState::new();
    s.initialize(id.to_string());
    s
}

fn snapshot(gid: &str, name: &str, participants: &[&str], creator: &str) -> GroupJoinNotification {
    GroupJoinNotification {
        group_id: gid.to_string(),
        group_name: name.to_string(),
        participants: participants.iter().map(|p| p.to_string()).collect(),
        created_by: creator.to_string(),
    }
}

#[test]
fn empty_group_name_is_refused_without_side_effects() {
    let mut s = node("alice.os");
    let r = s.create_group_at(
        "".to_string(),
        vec!["bob.os".to_string()],
        "group_1".to_string(),
        "2024-01-01T00:00:01+00:00".to_string(),
    );
    assert_eq!(r.unwrap_err(), ChatError::EmptyGroupName);
    assert_eq!(s.conversations.len(), 0);
    assert_eq!(s.get_conversations().len(), 0);
}

#[test]
fn group_of_one_is_refused_even_with_the_creator_present() {
    let mut s = node("alice.os");
    let r = s.create_group_at(
        "Team".to_string(),
        vec!["alice.os".to_string()],
        "group_1".to_string(),
        "2024-01-01T00:00:01+00:00".to_string(),
    );
    assert_eq!(r.unwrap_err(), ChatError::TooFewParticipants);
    assert_eq!(s.conversations.len(), 0);
}

#[test]
fn creating_a_group_stores_it_and_plans_notifications() {
    let mut s = node("alice.os");
    let plan = s
        .create_group_at(
            "Team".to_string(),
            vec!["bob.os".to_string(), "carol.os".to_string()],
            "group_1".to_string(),
            "2024-01-01T00:00:01+00:00".to_string(),
        )
        .unwrap();
    assert_eq!(plan.group_id, "group_1");
    // The creator is appended and everyone else is notified, once each.
    assert_eq!(plan.targets, vec!["bob.os".to_string(), "carol.os".to_string()]);
    assert_eq!(
        plan.notification.participants,
        vec!["bob.os".to_string(), "carol.os".to_string(), "alice.os".to_string()]
    );
    assert_eq!(plan.notification.created_by, "alice.os");
    assert_eq!(plan.notification.group_name, "Team");
    let c = s.get_conversation(&"group_1".to_string()).unwrap();
    assert!(c.is_group);
    assert_eq!(c.group_name, Some("Team".to_string()));
    assert_eq!(c.created_by, Some("alice.os".to_string()));
    assert_eq!(c.messages.len(), 0);
}

#[test]
fn fresh_group_identifier_carries_the_group_prefix() {
    let mut s = node("alice.os");
    let plan = s.create_group("Team".to_string(), vec!["bob.os".to_string()]).unwrap();
    assert!(plan.group_id.starts_with("group_"));
    assert_eq!(plan.group_id.len(), "group_".len() + 36);
    assert!(s.get_conversation(&plan.group_id).is_some());
}

#[test]
fn group_send_targets_everyone_but_the_sender() {
    let mut s = node("alice.os");
    s.create_group_at(
        "Team".to_string(),
        vec!["bob.os".to_string(), "carol.os".to_string()],
        "group_1".to_string(),
        "2024-01-01T00:00:01+00:00".to_string(),
    )
    .unwrap();
    let plan = s
        .send_message_at(
            "group_1".to_string(),
            "hello team".to_string(),
            "m-1".to_string(),
            "2024-01-01T00:00:02+00:00".to_string(),
        )
        .unwrap();
    assert_eq!(plan.recipients, vec!["bob.os".to_string(), "carol.os".to_string()]);
    assert_eq!(plan.message.recipient, None);
    assert_eq!(
        plan.message.recipients,
        Some(vec!["bob.os".to_string(), "carol.os".to_string()])
    );
    let history = s.get_messages("group_1".to_string()).unwrap();
    assert_eq!(history.len(), 1);
}

#[test]
fn adding_a_member_notifies_only_the_newcomer_with_a_full_snapshot() {
    let mut s = node("alice.os");
    s.create_group_at(
        "Team".to_string(),
        vec!["bob.os".to_string()],
        "group_1".to_string(),
        "2024-01-01T00:00:01+00:00".to_string(),
    )
    .unwrap();
    let n = s
        .add_group_member_at(
            "group_1".to_string(),
            "carol.os".to_string(),
            "2024-01-01T00:00:02+00:00".to_string(),
        )
        .unwrap();
    assert_eq!(n.group_id, "group_1");
    assert_eq!(n.group_name, "Team");
    assert_eq!(n.created_by, "alice.os");
    assert_eq!(
        n.participants,
        vec!["bob.os".to_string(), "alice.os".to_string(), "carol.os".to_string()]
    );
    let c = s.get_conversation(&"group_1".to_string()).unwrap();
    assert_eq!(c.participants.len(), 3);
}

#[test]
fn adding_a_present_member_fails() {
    let mut s = node("alice.os");
    s.create_group_at(
        "Team".to_string(),
        vec!["bob.os".to_string()],
        "group_1".to_string(),
        "2024-01-01T00:00:01+00:00".to_string(),
    )
    .unwrap();
    let r = s.add_group_member_at(
        "group_1".to_string(),
        "bob.os".to_string(),
        "2024-01-01T00:00:02+00:00".to_string(),
    );
    assert_eq!(r.unwrap_err(), ChatError::AlreadyMember);
}

#[test]
fn adding_to_an_unknown_or_direct_conversation_fails() {
    let mut s = node("alice.os");
    let r = s.add_group_member_at(
        "group_1".to_string(),
        "bob.os".to_string(),
        "2024-01-01T00:00:01+00:00".to_string(),
    );
    assert_eq!(r.unwrap_err(), ChatError::GroupNotFound);
    s.send_message_at(
        "bob.os".to_string(),
        "hi".to_string(),
        "m-1".to_string(),
        "2024-01-01T00:00:02+00:00".to_string(),
    )
    .unwrap();
    let r = s.add_group_member_at(
        "alice.os|bob.os".to_string(),
        "carol.os".to_string(),
        "2024-01-01T00:00:03+00:00".to_string(),
    );
    assert_eq!(r.unwrap_err(), ChatError::NotAGroup);
}

#[test]
fn join_snapshots_overwrite_last_writer_wins() {
    let n1 = snapshot("group_1", "Team", &["alice.os", "bob.os"], "alice.os");
    let n2 = snapshot("group_1", "Team", &["alice.os", "bob.os", "carol.os"], "alice.os");

    let mut x = node("x.os");
    assert_eq!(
        x.handle_group_join_at(n1, "2024-01-01T00:00:01+00:00".to_string()),
        Ok(true)
    );
    let n2_again = snapshot("group_1", "Team", &["alice.os", "bob.os", "carol.os"], "alice.os");
    assert_eq!(
        x.handle_group_join_at(n2_again, "2024-01-01T00:00:02+00:00".to_string()),
        Ok(true)
    );
    let c = x.get_conversation(&"group_1".to_string()).unwrap();
    assert_eq!(
        c.participants,
        vec!["alice.os".to_string(), "bob.os".to_string(), "carol.os".to_string()]
    );

    // In the other order the smaller snapshot silently wins: nothing merges.
    let mut y = node("y.os");
    assert_eq!(
        y.handle_group_join_at(n2, "2024-01-01T00:00:01+00:00".to_string()),
        Ok(true)
    );
    let n1_again = snapshot("group_1", "Team", &["alice.os", "bob.os"], "alice.os");
    assert_eq!(
        y.handle_group_join_at(n1_again, "2024-01-01T00:00:02+00:00".to_string()),
        Ok(true)
    );
    let c = y.get_conversation(&"group_1".to_string()).unwrap();
    assert_eq!(c.participants, vec!["alice.os".to_string(), "bob.os".to_string()]);
    assert_eq!(y.conversations.len(), 1);
}

#[test]
fn leave_removes_the_member_and_tolerates_unknown_groups() {
    let mut s = node("x.os");
    s.handle_group_join_at(
        snapshot("group_1", "Team", &["alice.os", "bob.os"], "alice.os"),
        "2024-01-01T00:00:01+00:00".to_string(),
    )
    .unwrap();
    let leave = GroupLeaveNotification {
        group_id: "group_1".to_string(),
        member: "bob.os".to_string(),
    };
    assert_eq!(
        s.handle_group_leave_at(leave, "2024-01-01T00:00:02+00:00".to_string()),
        Ok(true)
    );
    let c = s.get_conversation(&"group_1".to_string()).unwrap();
    assert_eq!(c.participants, vec!["alice.os".to_string()]);

    let ghost_leave = GroupLeaveNotification {
        group_id: "group_nope".to_string(),
        member: "bob.os".to_string(),
    };
    assert_eq!(
        s.handle_group_leave_at(ghost_leave, "2024-01-01T00:00:03+00:00".to_string()),
        Ok(true)
    );
    assert_eq!(s.conversations.len(), 1);
}

#[test]
fn membership_propagates_from_creator_to_members() {
    let mut alice = node("alice.os");
    let mut bob = node("bob.os");
    let plan = alice.create_group("Team".to_string(), vec!["bob.os".to_string()]).unwrap();
    assert_eq!(plan.targets, vec!["bob.os".to_string()]);
    assert_eq!(bob.handle_group_join(plan.notification), Ok(true));
    let c = bob.get_conversation(&plan.group_id).unwrap();
    assert!(c.is_group);
    assert_eq!(c.group_name, Some("Team".to_string()));
    assert_eq!(c.participants.len(), 2);
}
