use std::collections::HashMap;

use samchat::files::{download_file_finish, get_remote_file, FileFetch};
use samchat::store::SamchatState;
use samchat::types::ChatError;

fn node(id: &str) -> SamchatState {
    let mut s = SamchatState::new();
    s.initialize(id.to_string());
    s
}

/// A stand-in for the byte store and the peer transport, so the resolver's
/// decisions can be driven end to end.
struct FakeWorld {
    local: HashMap<String, Vec<u8>>,
    remote: HashMap<String, Vec<u8>>,
    remote_reachable: bool,
}

impl FakeWorld {
    fn resolve(&mut self, node: &SamchatState, file_id: &str, sender: &str) -> Result<Vec<u8>, ChatError> {
        let path = samchat::ids::file_path_for(file_id);
        let local = self.local.get(&path).cloned();
        match node.download_file_start(local, &sender.to_string()) {
            FileFetch::Local(bytes) => Ok(bytes),
            FileFetch::Missing => Err(ChatError::FileNotFound),
            FileFetch::Remote(peer) => {
                let fetched = if self.remote_reachable {
                    assert_eq!(peer, sender);
                    self.remote.get(file_id).cloned()
                } else {
                    None
                };
                let (cache_path, bytes) = download_file_finish(file_id, fetched)?;
                self.local.insert(cache_path, bytes.clone());
                Ok(bytes)
            }
        }
    }
}

#[test]
fn remote_fallback_caches_a_local_copy() {
    let alice = node("alice.os");
    let mut world = FakeWorld {
        local: HashMap::new(),
        remote: HashMap::new(),
        remote_reachable: true,
    };
    world.remote.insert("f-1".to_string(), vec![1, 2, 3]);

    let bytes = world.resolve(&alice, "f-1", "bob.os").unwrap();
    assert_eq!(bytes, vec![1, 2, 3]);

    // Second resolution succeeds with the transport disabled: the first one
    // wrote the content through to the local store.
    world.remote_reachable = false;
    let bytes = world.resolve(&alice, "f-1", "bob.os").unwrap();
    assert_eq!(bytes, vec![1, 2, 3]);
}

#[test]
fn unreachable_remote_is_a_plain_failure() {
    let alice = node("alice.os");
    let mut world = FakeWorld {
        local: HashMap::new(),
        remote: HashMap::new(),
        remote_reachable: false,
    };
    assert_eq!(world.resolve(&alice, "f-1", "bob.os").unwrap_err(), ChatError::FileNotFound);
    assert!(world.local.is_empty());
}

#[test]
fn own_node_is_no_fallback() {
    let alice = node("alice.os");
    let r = alice.download_file_start(None, &"alice.os".to_string());
    assert_eq!(r, FileFetch::Missing);
}

#[test]
fn serving_a_remote_file_is_local_only() {
    assert_eq!(get_remote_file(Some(vec![9, 9])), Ok(vec![9, 9]));
    assert_eq!(get_remote_file(None), Err(ChatError::FileNotFound));
}

#[test]
fn upload_builds_the_descriptor_and_path() {
    let alice = node("alice.os");
    let (info, path) = alice
        .upload_file_at("cat.png".to_string(), "image/png".to_string(), 3, "f-1".to_string())
        .unwrap();
    assert_eq!(info.file_name, "cat.png");
    assert_eq!(info.mime_type, "image/png");
    assert_eq!(info.file_size, 3);
    assert_eq!(info.file_id, "f-1");
    assert_eq!(info.sender_node, "alice.os");
    assert_eq!(path, "/samchat:hpn-testing-beta.os/files/f-1");
}

#[test]
fn upload_draws_a_fresh_file_identifier() {
    let alice = node("alice.os");
    let data = vec![1, 2, 3, 4];
    let (info, path) = alice
        .upload_file("cat.png".to_string(), "image/png".to_string(), &data)
        .unwrap();
    assert_eq!(info.file_id.len(), 36);
    assert_eq!(info.file_size, 4);
    assert_eq!(path, format!("/samchat:hpn-testing-beta.os/files/{}", info.file_id));
    let uninitialized = SamchatState::new();
    let r = uninitialized.upload_file("cat.png".to_string(), "image/png".to_string(), &data);
    assert_eq!(r.unwrap_err(), ChatError::NotInitialized);
}

#[test]
fn attachment_flows_through_the_normal_send_path() {
    let mut alice = node("alice.os");
    let mut bob = node("bob.os");
    let data = vec![7u8; 10];
    let (info, _path) = alice
        .upload_file("cat.png".to_string(), "image/png".to_string(), &data)
        .unwrap();
    let file_id = info.file_id.clone();
    let plan = alice
        .send_file_message("bob.os".to_string(), "look!".to_string(), info)
        .unwrap();
    assert_eq!(plan.recipients, vec!["bob.os".to_string()]);
    bob.receive_message(plan.message).unwrap();
    let history = bob.get_messages("alice.os|bob.os".to_string()).unwrap();
    assert_eq!(history.len(), 1);
    let attached = history[0].file_info.as_ref().unwrap();
    assert_eq!(attached.file_id, file_id);
    assert_eq!(attached.sender_node, "alice.os");
}

#[test]
fn unknown_conversation_lookup_fails_without_side_effects() {
    let s = node("alice.os");
    let r = s.get_messages("no-such-id".to_string());
    assert_eq!(r.unwrap_err(), ChatError::ConversationNotFound);
    assert_eq!(s.conversations.len(), 0);
    assert_eq!(s.get_conversations().len(), 0);
}

#[test]
fn conversations_are_listed_most_recent_first() {
    let mut s = node("alice.os");
    for (peer, id, ts) in [
        ("bob.os", "m-1", "2024-01-01T00:00:01+00:00"),
        ("carol.os", "m-2", "2024-01-01T00:00:03+00:00"),
        ("dave.os", "m-3", "2024-01-01T00:00:02+00:00"),
    ] {
        s.send_message_at(peer.to_string(), "hi".to_string(), id.to_string(), ts.to_string())
            .unwrap();
    }
    let summaries = s.get_conversations();
    let ids: Vec<&str> = summaries.iter().map(|c| c.id.as_str()).collect();
    assert_eq!(ids, vec!["alice.os|carol.os", "alice.os|dave.os", "alice.os|bob.os"]);
    assert!(!summaries[0].is_group);
    assert_eq!(summaries[0].participants, vec!["alice.os".to_string(), "carol.os".to_string()]);
    assert_eq!(summaries[0].group_name, None);
}
