//! Theorems that hold across operations: delivering a message twice stores
//! one copy, and membership snapshots overwrite — the last writer wins.
//! (That the direct-conversation identifier is commutative is proved beside
//! its definition, in [`crate::ids::lemma_direct_id_commutes`].)

use vstd::prelude::*;

use crate::group::{join_post, joined_conv};
use crate::store::{
    conv_by_id, conv_index, conv_wf, has_conv, has_msg_id, lemma_conv_index_unique,
    lemma_store_message_wf, msg_ids_unique, state_wf, store_message, SamchatStateView,
};
use crate::sync::{placeholder_conv, receive_post};
use crate::types::{ChatMessageView, GroupJoinNotificationView};

verus! {

/// Delivery is idempotent: a message received twice is stored once.  The
/// second delivery leaves every conversation exactly as it was, and the
/// conversation that owns the message holds exactly one copy of its
/// identifier.
pub proof fn lemma_receive_is_idempotent(
    pre: SamchatStateView,
    mid: SamchatStateView,
    post: SamchatStateView,
    m: ChatMessageView,
    t1: Seq<char>,
    t2: Seq<char>,
)
    requires
        state_wf(pre),
        state_wf(mid),
        receive_post(pre, mid, m, t1),
        receive_post(mid, post, m, t2),
    ensures
        post.conversations == mid.conversations,
        has_conv(mid.conversations, m.conversation_id),
        has_msg_id(conv_by_id(mid.conversations, m.conversation_id).messages, m.id),
        msg_ids_unique(conv_by_id(mid.conversations, m.conversation_id).messages),
{
    let cid = m.conversation_id;
    if has_conv(pre.conversations, cid) {
        let k = conv_index(pre.conversations, cid);
        let c0 = conv_by_id(pre.conversations, cid);
        assert(0 <= k < pre.conversations.len() && c0.id == cid);
        assert(conv_wf(c0));
        lemma_store_message_wf(c0, m, t1);
        assert(mid.conversations[k].id == cid);
        lemma_conv_index_unique(mid.conversations, cid, k);
    } else {
        let c0 = placeholder_conv(m);
        assert(conv_wf(c0));
        lemma_store_message_wf(c0, m, t1);
        let k = pre.conversations.len() as int;
        assert(mid.conversations[k].id == cid);
        lemma_conv_index_unique(mid.conversations, cid, k);
    }
    let j = conv_index(mid.conversations, cid);
    let c1 = conv_by_id(mid.conversations, cid);
    assert(has_msg_id(c1.messages, m.id));
    assert(store_message(c1, m, t2) == c1);
    assert(post.conversations =~= mid.conversations);
}

/// Membership snapshots are applied last-writer-wins: after two join
/// notifications for the same group, the stored membership is exactly the
/// later notification's — nothing of the earlier one survives.
pub proof fn lemma_join_last_writer_wins(
    pre: SamchatStateView,
    mid: SamchatStateView,
    post: SamchatStateView,
    n1: GroupJoinNotificationView,
    n2: GroupJoinNotificationView,
    t1: Seq<char>,
    t2: Seq<char>,
)
    requires
        state_wf(pre),
        state_wf(mid),
        state_wf(post),
        n1.group_id == n2.group_id,
        join_post(pre, mid, n1, t1),
        join_post(mid, post, n2, t2),
    ensures
        has_conv(post.conversations, n2.group_id),
        conv_by_id(post.conversations, n2.group_id) == joined_conv(n2, t2),
        conv_by_id(post.conversations, n2.group_id).participants == n2.participants,
{
    let gid = n2.group_id;
    let c1 = joined_conv(n1, t1);
    let c2 = joined_conv(n2, t2);
    if has_conv(pre.conversations, gid) {
        let k = conv_index(pre.conversations, gid);
        assert(mid.conversations[k].id == gid);
        lemma_conv_index_unique(mid.conversations, gid, k);
    } else {
        let k = pre.conversations.len() as int;
        assert(mid.conversations[k].id == gid);
        lemma_conv_index_unique(mid.conversations, gid, k);
    }
    let j = conv_index(mid.conversations, gid);
    assert(post.conversations == mid.conversations.update(j, c2));
    assert(post.conversations[j].id == gid);
    lemma_conv_index_unique(post.conversations, gid, j);
}

} // verus!
