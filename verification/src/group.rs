//! The group coordinator: group creation, member addition, and the handling
//! of join and leave notifications from peers.
//!
//! Each participant observes a group independently; a join notification
//! carries a full membership snapshot and replaces the local record
//! wholesale (last writer wins — concurrent edits seen through different
//! notifications are not merged).

use vstd::prelude::*;

use crate::ids::{is_group_id, make_group_id};
use crate::store::{
    conv_by_id, conv_index, conv_wf, has_conv, lemma_conv_index_unique, lemma_deep_view_push,
    lemma_deep_view_update, state_wf, upsert, SamchatState, SamchatStateView,
};
use crate::sync::{own_id, participants_except, remove_all};
use crate::types::{
    clone_strings, ChatError, Conversation, ConversationView, GroupJoinNotification,
    GroupJoinNotificationView, GroupLeaveNotification, GroupLeaveNotificationView,
};

verus! {

/// Mathematical view of a [`GroupPlan`].
#[verifier::ext_equal]
pub ghost struct GroupPlanView {
    pub group_id: Seq<char>,
    pub notification: GroupJoinNotificationView,
    pub targets: Seq<Seq<char>>,
}

/// What a successful group creation asks of the surrounding process: tell
/// each of `targets` — every member but the creator — that it joined, by
/// delivering `notification`.  The creator's record is already stored and is
/// authoritative for the creator whatever becomes of the deliveries.
#[derive(Debug, PartialEq)]
pub struct GroupPlan {
    pub group_id: String,
    pub notification: GroupJoinNotification,
    pub targets: Vec<String>,
}

impl View for GroupPlan {
    type V = GroupPlanView;

    open spec fn view(&self) -> GroupPlanView {
        GroupPlanView {
            group_id: self.group_id@,
            notification: self.notification@,
            targets: self.targets.deep_view(),
        }
    }
}

/// The view of a group creation's outcome.
pub open spec fn group_plan_view(r: Result<GroupPlan, ChatError>) -> Result<
    GroupPlanView,
    ChatError,
> {
    match r {
        Ok(p) => Ok(p@),
        Err(e) => Err(e),
    }
}

/// The view of a member addition's outcome.
pub open spec fn notif_view(r: Result<GroupJoinNotification, ChatError>) -> Result<
    GroupJoinNotificationView,
    ChatError,
> {
    match r {
        Ok(n) => Ok(n@),
        Err(e) => Err(e),
    }
}

/// The initial members with the creator ensured among them.
pub open spec fn effective_members(members: Seq<Seq<char>>, creator: Seq<char>) -> Seq<Seq<char>> {
    if members.contains(creator) {
        members
    } else {
        members.push(creator)
    }
}

/// Which validation error a group creation is refused with, if any: the
/// creator's identity must be recorded, the name non-empty, and the group —
/// creator included — at least two strong.
pub open spec fn create_group_check(
    s: SamchatStateView,
    name: Seq<char>,
    members: Seq<Seq<char>>,
) -> Option<ChatError> {
    if s.my_node_id is None {
        Some(ChatError::NotInitialized)
    } else if name.len() == 0 {
        Some(ChatError::EmptyGroupName)
    } else if effective_members(members, own_id(s)).len() < 2 {
        Some(ChatError::TooFewParticipants)
    } else {
        None
    }
}

/// The record a group creation stores.
pub open spec fn new_group_conv(
    id: Seq<char>,
    name: Seq<char>,
    participants: Seq<Seq<char>>,
    creator: Seq<char>,
    now: Seq<char>,
) -> ConversationView {
    ConversationView {
        id,
        participants,
        messages: Seq::empty(),
        last_updated: now,
        is_group: true,
        group_name: Some(name),
        created_by: Some(creator),
    }
}

/// Everything a group creation does: refused exactly by
/// [`create_group_check`] with the state untouched, or the record stored and
/// a join notification planned for every member but the creator.
pub open spec fn create_group_post(
    pre: SamchatStateView,
    post: SamchatStateView,
    name: Seq<char>,
    members: Seq<Seq<char>>,
    gid: Seq<char>,
    now: Seq<char>,
    r: Result<GroupPlanView, ChatError>,
) -> bool {
    match create_group_check(pre, name, members) {
        Some(e) => r == Err::<GroupPlanView, ChatError>(e) && post == pre,
        None => {
            let creator = own_id(pre);
            let participants = effective_members(members, creator);
            &&& r == Ok::<GroupPlanView, ChatError>(
                GroupPlanView {
                    group_id: gid,
                    notification: GroupJoinNotificationView {
                        group_id: gid,
                        group_name: name,
                        participants,
                        created_by: creator,
                    },
                    targets: remove_all(participants, creator),
                },
            )
            &&& post.my_node_id == pre.my_node_id
            &&& post.conversations == upsert(
                pre.conversations,
                new_group_conv(gid, name, participants, creator, now),
            )
        },
    }
}

/// Whether any element of `v` reads `x`.
pub fn contains_string(v: &Vec<String>, x: &String) -> (r: bool)
    ensures
        r == v.deep_view().contains(x@),
{
    let n = v.len();
    let mut i: usize = 0;
    loop
        invariant
            i <= n,
            n == v@.len(),
            forall|j: int| 0 <= j < i ==> #[trigger] v.deep_view()[j] != x@,
        decreases n - i,
    {
        if i >= n {
            return false;
        }
        if v[i] == *x {
            proof {
                assert(v.deep_view()[i as int] == x@);
            }
            return true;
        }
        i = i + 1;
    }
}

impl SamchatState {
    /// Create a group with a known fresh identifier and timestamp: validate,
    /// store the record locally, and plan one join notification per other
    /// member.
    pub fn create_group_at(
        &mut self,
        group_name: String,
        initial_members: Vec<String>,
        group_id: String,
        now: String,
    ) -> (r: Result<GroupPlan, ChatError>)
        requires
            state_wf(old(self)@),
        ensures
            state_wf(final(self)@),
            create_group_post(
                old(self)@,
                final(self)@,
                group_name@,
                initial_members.deep_view(),
                group_id@,
                now@,
                group_plan_view(r),
            ),
    {
        let ghost pre = self@;
        let ghost namev = group_name@;
        let ghost membersv = initial_members.deep_view();
        let creator: String = match &self.my_node_id {
            Some(s) => s.clone(),
            None => {
                return Err(ChatError::NotInitialized);
            },
        };
        if group_name.as_str().is_empty() {
            return Err(ChatError::EmptyGroupName);
        }
        let mut participants = initial_members;
        let ghost members_before = participants;
        if !contains_string(&participants, &creator) {
            participants.push(creator.clone());
            proof {
                lemma_deep_view_push(members_before, participants, creator);
            }
        }
        proof {
            assert(participants.deep_view() == effective_members(membersv, own_id(pre)));
        }
        if participants.len() < 2 {
            return Err(ChatError::TooFewParticipants);
        }
        let conversation = Conversation {
            id: group_id.clone(),
            participants: clone_strings(&participants),
            messages: Vec::new(),
            last_updated: now,
            is_group: true,
            group_name: Some(group_name.clone()),
            created_by: Some(creator.clone()),
        };
        let ghost conv_snap = conversation;
        proof {
            assert(conv_snap@ =~~= new_group_conv(
                group_id@,
                namev,
                effective_members(membersv, own_id(pre)),
                own_id(pre),
                conv_snap.last_updated@,
            )) by {
                assert(conv_snap.messages.deep_view() =~= Seq::<
                    crate::types::ChatMessageView,
                >::empty());
            }
        }
        self.upsert_conversation(conversation);
        let targets = participants_except(&participants, &creator);
        let notification = GroupJoinNotification {
            group_id: group_id.clone(),
            group_name,
            participants,
            created_by: creator,
        };
        let plan = GroupPlan { group_id, notification, targets };
        proof {
            assert(group_plan_view(Ok(plan)) == Ok::<GroupPlanView, ChatError>(
                GroupPlanView {
                    group_id: plan.group_id@,
                    notification: GroupJoinNotificationView {
                        group_id: plan.group_id@,
                        group_name: namev,
                        participants: effective_members(membersv, own_id(pre)),
                        created_by: own_id(pre),
                    },
                    targets: remove_all(effective_members(membersv, own_id(pre)), own_id(pre)),
                },
            )) by {
                assert(plan@ =~~= (GroupPlanView {
                    group_id: plan.group_id@,
                    notification: GroupJoinNotificationView {
                        group_id: plan.group_id@,
                        group_name: namev,
                        participants: effective_members(membersv, own_id(pre)),
                        created_by: own_id(pre),
                    },
                    targets: remove_all(effective_members(membersv, own_id(pre)), own_id(pre)),
                }));
            }
        }
        Ok(plan)
    }

    /// Create a group: draw a fresh group identifier — marked with the group
    /// prefix — and the present moment, then proceed as
    /// [`SamchatState::create_group_at`].
    pub fn create_group(&mut self, group_name: String, initial_members: Vec<String>) -> (r: Result<
        GroupPlan,
        ChatError,
    >)
        requires
            state_wf(old(self)@),
        ensures
            state_wf(final(self)@),
            exists|gid: Seq<char>, ts: Seq<char>|
                is_group_id(gid) && create_group_post(
                    old(self)@,
                    final(self)@,
                    group_name@,
                    initial_members.deep_view(),
                    gid,
                    ts,
                    group_plan_view(r),
                ),
    {
        let ghost namev = group_name@;
        let ghost membersv = initial_members.deep_view();
        let suffix = crate::ids::fresh_uuid();
        let group_id = make_group_id(suffix.as_str());
        let now = crate::ids::now_rfc3339();
        let ghost gidv = group_id@;
        let ghost nowv = now@;
        let r = self.create_group_at(group_name, initial_members, group_id, now);
        proof {
            assert(is_group_id(gidv) && create_group_post(
                old(self)@,
                self@,
                namev,
                membersv,
                gidv,
                nowv,
                group_plan_view(r),
            ));
        }
        r
    }
}

} // verus!

verus! {

/// Which error a member addition is refused with, if any: the group must be
/// known locally, be a group, and not already contain the member.
pub open spec fn add_member_check(
    s: SamchatStateView,
    gid: Seq<char>,
    new_member: Seq<char>,
) -> Option<ChatError> {
    if s.my_node_id is None {
        Some(ChatError::NotInitialized)
    } else if !has_conv(s.conversations, gid) {
        Some(ChatError::GroupNotFound)
    } else if !conv_by_id(s.conversations, gid).is_group {
        Some(ChatError::NotAGroup)
    } else if conv_by_id(s.conversations, gid).participants.contains(new_member) {
        Some(ChatError::AlreadyMember)
    } else {
        None
    }
}

/// A group's name, or the empty string where the local record has none (a
/// placeholder created by an early message).
pub open spec fn name_or_empty(n: Option<Seq<char>>) -> Seq<char> {
    match n {
        Some(s) => s,
        None => Seq::empty(),
    }
}

/// Everything a member addition does: refused exactly by
/// [`add_member_check`] with the state untouched, or the member appended to
/// the local participant list and a full-snapshot join notification planned
/// for the new member — and for the new member only.
pub open spec fn add_member_post(
    pre: SamchatStateView,
    post: SamchatStateView,
    gid: Seq<char>,
    new_member: Seq<char>,
    now: Seq<char>,
    r: Result<GroupJoinNotificationView, ChatError>,
) -> bool {
    match add_member_check(pre, gid, new_member) {
        Some(e) => r == Err::<GroupJoinNotificationView, ChatError>(e) && post == pre,
        None => {
            let c0 = conv_by_id(pre.conversations, gid);
            let c1 = ConversationView {
                participants: c0.participants.push(new_member),
                last_updated: now,
                ..c0
            };
            &&& r == Ok::<GroupJoinNotificationView, ChatError>(
                GroupJoinNotificationView {
                    group_id: gid,
                    group_name: name_or_empty(c0.group_name),
                    participants: c0.participants.push(new_member),
                    created_by: name_or_empty(c0.created_by),
                },
            )
            &&& post.my_node_id == pre.my_node_id
            &&& post.conversations == pre.conversations.update(
                conv_index(pre.conversations, gid),
                c1,
            )
        },
    }
}

/// The record a join notification stores: the snapshot's membership and
/// metadata, wholesale, with no history.
pub open spec fn joined_conv(n: GroupJoinNotificationView, now: Seq<char>) -> ConversationView {
    ConversationView {
        id: n.group_id,
        participants: n.participants,
        messages: Seq::empty(),
        last_updated: now,
        is_group: true,
        group_name: Some(n.group_name),
        created_by: Some(n.created_by),
    }
}

/// Everything a join notification does: the local record for the group is
/// replaced (or created) wholesale with the snapshot.  The last notification
/// to arrive wins; nothing is merged.
pub open spec fn join_post(
    pre: SamchatStateView,
    post: SamchatStateView,
    n: GroupJoinNotificationView,
    now: Seq<char>,
) -> bool {
    &&& post.my_node_id == pre.my_node_id
    &&& post.conversations == upsert(pre.conversations, joined_conv(n, now))
}

/// Everything a leave notification does: the member removed from the local
/// participant list where the group is known, and nothing at all where it is
/// not.
pub open spec fn leave_post(
    pre: SamchatStateView,
    post: SamchatStateView,
    n: GroupLeaveNotificationView,
    now: Seq<char>,
) -> bool {
    &&& post.my_node_id == pre.my_node_id
    &&& if has_conv(pre.conversations, n.group_id) {
        let c0 = conv_by_id(pre.conversations, n.group_id);
        post.conversations == pre.conversations.update(
            conv_index(pre.conversations, n.group_id),
            ConversationView {
                participants: remove_all(c0.participants, n.member),
                last_updated: now,
                ..c0
            },
        )
    } else {
        post == pre
    }
}

impl SamchatState {
    /// Add a member to a known group at a known timestamp: append it locally
    /// and return the full-snapshot join notification owed to the new member.
    pub fn add_group_member_at(&mut self, group_id: String, new_member: String, now: String) -> (r:
        Result<GroupJoinNotification, ChatError>)
        requires
            state_wf(old(self)@),
        ensures
            state_wf(final(self)@),
            add_member_post(
                old(self)@,
                final(self)@,
                group_id@,
                new_member@,
                now@,
                notif_view(r),
            ),
    {
        let ghost pre = self@;
        let ghost gidv = group_id@;
        if self.my_node_id.is_none() {
            return Err(ChatError::NotInitialized);
        }
        let k = match self.find_conversation(&group_id) {
            Some(k) => k,
            None => {
                return Err(ChatError::GroupNotFound);
            },
        };
        proof {
            lemma_conv_index_unique(pre.conversations, gidv, k as int);
        }
        if !self.conversations[k].is_group {
            return Err(ChatError::NotAGroup);
        }
        if contains_string(&self.conversations[k].participants, &new_member) {
            return Err(ChatError::AlreadyMember);
        }
        let ghost before = self.conversations;
        let mut c = self.conversations.remove(k);
        let ghost parts_before = c.participants;
        c.participants.push(new_member);
        proof {
            lemma_deep_view_push(parts_before, c.participants, new_member);
        }
        c.last_updated = now;
        let notification = GroupJoinNotification {
            group_id,
            group_name: match &c.group_name {
                Some(n) => n.clone(),
                None => String::new(),
            },
            participants: clone_strings(&c.participants),
            created_by: match &c.created_by {
                Some(n) => n.clone(),
                None => String::new(),
            },
        };
        let ghost c_after = c;
        self.conversations.insert(k, c);
        proof {
            assert(self.conversations@ =~= before@.update(k as int, c_after));
            lemma_deep_view_update(before, self.conversations, k as int, c_after);
            let c0 = conv_by_id(pre.conversations, gidv);
            assert(c_after@ =~~= (ConversationView {
                participants: c0.participants.push(notification@.participants.last()),
                last_updated: c_after.last_updated@,
                ..c0
            }));
            assert(notification@ =~~= (GroupJoinNotificationView {
                group_id: gidv,
                group_name: name_or_empty(c0.group_name),
                participants: c0.participants.push(notification@.participants.last()),
                created_by: name_or_empty(c0.created_by),
            }));
            assert(state_wf(self@)) by {
                let cs1 = self@.conversations;
                assert(cs1 == pre.conversations.update(k as int, c_after@));
                assert forall|i: int, j: int| 0 <= i < j < cs1.len() implies #[trigger] cs1[i].id
                    != #[trigger] cs1[j].id by {
                    assert(pre.conversations[i].id != pre.conversations[j].id);
                }
                assert(forall|i: int| 0 <= i < cs1.len() ==> conv_wf(#[trigger] cs1[i]));
            }
        }
        Ok(notification)
    }

    /// Add a member to a known group: stamp the change with the present
    /// moment, then proceed as [`SamchatState::add_group_member_at`].
    pub fn add_group_member(&mut self, group_id: String, new_member: String) -> (r: Result<
        GroupJoinNotification,
        ChatError,
    >)
        requires
            state_wf(old(self)@),
        ensures
            state_wf(final(self)@),
            exists|ts: Seq<char>|
                add_member_post(
                    old(self)@,
                    final(self)@,
                    group_id@,
                    new_member@,
                    ts,
                    notif_view(r),
                ),
    {
        let ghost gidv = group_id@;
        let ghost memberv = new_member@;
        let now = crate::ids::now_rfc3339();
        let ghost nowv = now@;
        let r = self.add_group_member_at(group_id, new_member, now);
        proof {
            assert(add_member_post(old(self)@, self@, gidv, memberv, nowv, notif_view(r)));
        }
        r
    }

    /// Apply a join notification at a known timestamp: replace (or create)
    /// the local group record wholesale with the snapshot.  Never refused.
    pub fn handle_group_join_at(&mut self, notification: GroupJoinNotification, now: String) -> (r:
        Result<bool, ChatError>)
        requires
            state_wf(old(self)@),
        ensures
            state_wf(final(self)@),
            r == Ok::<bool, ChatError>(true),
            join_post(old(self)@, final(self)@, notification@, now@),
    {
        let ghost nv = notification@;
        let c = Conversation {
            id: notification.group_id,
            participants: notification.participants,
            messages: Vec::new(),
            last_updated: now,
            is_group: true,
            group_name: Some(notification.group_name),
            created_by: Some(notification.created_by),
        };
        proof {
            assert(c@ =~~= joined_conv(nv, c.last_updated@)) by {
                assert(c.messages.deep_view() =~= Seq::<crate::types::ChatMessageView>::empty());
            }
        }
        self.upsert_conversation(c);
        Ok(true)
    }

    /// Apply a join notification: stamp it with the present moment, then
    /// proceed as [`SamchatState::handle_group_join_at`].
    pub fn handle_group_join(&mut self, notification: GroupJoinNotification) -> (r: Result<
        bool,
        ChatError,
    >)
        requires
            state_wf(old(self)@),
        ensures
            state_wf(final(self)@),
            r == Ok::<bool, ChatError>(true),
            exists|ts: Seq<char>| join_post(old(self)@, final(self)@, notification@, ts),
    {
        let ghost nv = notification@;
        let now = crate::ids::now_rfc3339();
        let ghost nowv = now@;
        let r = self.handle_group_join_at(notification, now);
        proof {
            assert(join_post(old(self)@, self@, nv, nowv));
        }
        r
    }

    /// Apply a leave notification at a known timestamp: remove the member
    /// from the local participant list, or do nothing where the group is
    /// unknown.  Never refused.
    pub fn handle_group_leave_at(
        &mut self,
        notification: GroupLeaveNotification,
        now: String,
    ) -> (r: Result<bool, ChatError>)
        requires
            state_wf(old(self)@),
        ensures
            state_wf(final(self)@),
            r == Ok::<bool, ChatError>(true),
            leave_post(old(self)@, final(self)@, notification@, now@),
    {
        let ghost pre = self@;
        let ghost nv = notification@;
        let k = match self.find_conversation(&notification.group_id) {
            Some(k) => k,
            None => {
                return Ok(true);
            },
        };
        proof {
            lemma_conv_index_unique(pre.conversations, nv.group_id, k as int);
        }
        let ghost before = self.conversations;
        let mut c = self.conversations.remove(k);
        let remaining = participants_except(&c.participants, &notification.member);
        c.participants = remaining;
        c.last_updated = now;
        let ghost c_after = c;
        self.conversations.insert(k, c);
        proof {
            assert(self.conversations@ =~= before@.update(k as int, c_after));
            lemma_deep_view_update(before, self.conversations, k as int, c_after);
            let c0 = conv_by_id(pre.conversations, nv.group_id);
            assert(c_after@ =~~= (ConversationView {
                participants: remove_all(c0.participants, nv.member),
                last_updated: c_after.last_updated@,
                ..c0
            }));
            assert(state_wf(self@)) by {
                let cs1 = self@.conversations;
                assert(cs1 == pre.conversations.update(k as int, c_after@));
                assert forall|i: int, j: int| 0 <= i < j < cs1.len() implies #[trigger] cs1[i].id
                    != #[trigger] cs1[j].id by {
                    assert(pre.conversations[i].id != pre.conversations[j].id);
                }
                assert(forall|i: int| 0 <= i < cs1.len() ==> conv_wf(#[trigger] cs1[i]));
            }
        }
        Ok(true)
    }

    /// Apply a leave notification: stamp it with the present moment, then
    /// proceed as [`SamchatState::handle_group_leave_at`].
    pub fn handle_group_leave(&mut self, notification: GroupLeaveNotification) -> (r: Result<
        bool,
        ChatError,
    >)
        requires
            state_wf(old(self)@),
        ensures
            state_wf(final(self)@),
            r == Ok::<bool, ChatError>(true),
            exists|ts: Seq<char>| leave_post(old(self)@, final(self)@, notification@, ts),
    {
        let ghost nv = notification@;
        let now = crate::ids::now_rfc3339();
        let ghost nowv = now@;
        let r = self.handle_group_leave_at(notification, now);
        proof {
            assert(leave_post(old(self)@, self@, nv, nowv));
        }
        r
    }
}

} // verus!
