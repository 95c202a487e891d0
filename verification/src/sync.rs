//! The message synchronizer: sending and receiving chat messages.
//!
//! A send validates, derives the conversation identifier, persists the
//! message locally first, and returns the delivery plan — one outbound call
//! per recipient — for the surrounding process to carry out; failures there
//! never roll back the local persist.  A receive resolves or creates the
//! owning conversation and applies one idempotent, order-restoring insert.

use vstd::prelude::*;

use crate::ids::{direct_conversation_id, direct_id, is_group_id, is_group_target};
use crate::order::{lex_le, str_contains_char, str_le};
use crate::store::{
    conv_by_id, conv_index, conv_wf, has_conv, lemma_conv_index_unique,
    lemma_deep_view_push, new_direct_conv, state_wf, store_message, SamchatState,
    SamchatStateView,
};
use crate::types::{
    clone_strings, ChatError, ChatMessage, ChatMessageView, Conversation, ConversationView,
    FileInfo, FileInfoView,
};

verus! {

/// Mathematical view of a [`SendPlan`].
#[verifier::ext_equal]
pub ghost struct SendPlanView {
    pub message: ChatMessageView,
    pub recipients: Seq<Seq<char>>,
}

/// What a successful send asks of the surrounding process: deliver `message`
/// to each of `recipients`, independently and best-effort.  The message is
/// already persisted locally.
#[derive(Debug, PartialEq)]
pub struct SendPlan {
    pub message: ChatMessage,
    pub recipients: Vec<String>,
}

impl View for SendPlan {
    type V = SendPlanView;

    open spec fn view(&self) -> SendPlanView {
        SendPlanView {
            message: self.message@,
            recipients: self.recipients.deep_view(),
        }
    }
}

/// The view of a send's outcome.
pub open spec fn plan_view(r: Result<SendPlan, ChatError>) -> Result<SendPlanView, ChatError> {
    match r {
        Ok(p) => Ok(p@),
        Err(e) => Err(e),
    }
}

/// `ps` with every occurrence of `x` removed, order otherwise kept.
pub open spec fn remove_all(ps: Seq<Seq<char>>, x: Seq<char>) -> Seq<Seq<char>>
    decreases ps.len(),
{
    if ps.len() == 0 {
        Seq::empty()
    } else {
        let rest = remove_all(ps.drop_last(), x);
        if ps.last() == x {
            rest
        } else {
            rest.push(ps.last())
        }
    }
}

/// Copy `ps` leaving out every occurrence of `x`.
pub fn participants_except(ps: &Vec<String>, x: &String) -> (r: Vec<String>)
    ensures
        r.deep_view() == remove_all(ps.deep_view(), x@),
{
    let n = ps.len();
    let mut r: Vec<String> = Vec::new();
    let mut i: usize = 0;
    loop
        invariant
            i <= n,
            n == ps@.len(),
            r.deep_view() == remove_all(ps.deep_view().take(i as int), x@),
        decreases n - i,
    {
        if i >= n {
            proof {
                assert(ps.deep_view().take(n as int) =~= ps.deep_view());
            }
            return r;
        }
        let ghost r_before = r;
        let keep = !(ps[i] == *x);
        if keep {
            r.push(ps[i].clone());
        }
        proof {
            let full = ps.deep_view();
            assert(full.take(i + 1).drop_last() =~= full.take(i as int));
            assert(full.take(i + 1).last() == full[i as int]);
            if keep {
                lemma_deep_view_push(r_before, r, ps@[i as int]);
            }
        }
        i = i + 1;
    }
}

/// Which validation error a send is refused with, if any: the sender's
/// identity must be recorded, the content non-empty, and a direct recipient
/// shaped like an address; a group target must already be known locally.
pub open spec fn send_check(
    s: SamchatStateView,
    recipient: Seq<char>,
    content: Seq<char>,
) -> Option<ChatError> {
    if s.my_node_id is None {
        Some(ChatError::NotInitialized)
    } else if content.len() == 0 {
        Some(ChatError::EmptyContent)
    } else if !is_group_id(recipient) && (recipient.len() == 0 || !recipient.contains('.')) {
        Some(ChatError::InvalidRecipient)
    } else if is_group_id(recipient) && !has_conv(s.conversations, recipient) {
        Some(ChatError::GroupNotFound)
    } else {
        None
    }
}

/// This node's identity, once recorded.
pub open spec fn own_id(s: SamchatStateView) -> Seq<char> {
    match s.my_node_id {
        Some(me) => me,
        None => Seq::empty(),
    }
}

/// The message a send constructs: fresh identifier, current timestamp, the
/// derived conversation identifier, and the target set at send time.
pub open spec fn sent_message(
    s: SamchatStateView,
    recipient: Seq<char>,
    content: Seq<char>,
    fi: Option<FileInfoView>,
    id: Seq<char>,
    now: Seq<char>,
) -> ChatMessageView {
    if is_group_id(recipient) {
        ChatMessageView {
            id,
            conversation_id: recipient,
            sender: own_id(s),
            recipient: None,
            recipients: Some(send_recipients(s, recipient)),
            content,
            timestamp: now,
            delivered: false,
            file_info: fi,
        }
    } else {
        ChatMessageView {
            id,
            conversation_id: direct_id(own_id(s), recipient),
            sender: own_id(s),
            recipient: Some(recipient),
            recipients: None,
            content,
            timestamp: now,
            delivered: false,
            file_info: fi,
        }
    }
}

/// Whom a send delivers to: every current participant but the sender for a
/// group, the single recipient for a direct message.
pub open spec fn send_recipients(s: SamchatStateView, recipient: Seq<char>) -> Seq<Seq<char>> {
    if is_group_id(recipient) {
        remove_all(conv_by_id(s.conversations, recipient).participants, own_id(s))
    } else {
        seq![recipient]
    }
}

/// Everything a send does: refused exactly by [`send_check`] with the state
/// untouched, or the message persisted locally — into the group record, the
/// existing direct record, or a fresh direct record — and the delivery plan
/// returned.
pub open spec fn send_post(
    pre: SamchatStateView,
    post: SamchatStateView,
    recipient: Seq<char>,
    content: Seq<char>,
    fi: Option<FileInfoView>,
    id: Seq<char>,
    now: Seq<char>,
    r: Result<SendPlanView, ChatError>,
) -> bool {
    match send_check(pre, recipient, content) {
        Some(e) => r == Err::<SendPlanView, ChatError>(e) && post == pre,
        None => {
            let m = sent_message(pre, recipient, content, fi, id, now);
            let cid = m.conversation_id;
            &&& r == Ok::<SendPlanView, ChatError>(
                SendPlanView { message: m, recipients: send_recipients(pre, recipient) },
            )
            &&& post.my_node_id == pre.my_node_id
            &&& if has_conv(pre.conversations, cid) {
                post.conversations == pre.conversations.update(
                    conv_index(pre.conversations, cid),
                    store_message(conv_by_id(pre.conversations, cid), m, now),
                )
            } else {
                post.conversations == pre.conversations.push(
                    store_message(new_direct_conv(own_id(pre), recipient, now), m, now),
                )
            }
        },
    }
}

/// The minimal record a receive creates when no conversation matches: for a
/// group-shaped message a placeholder holding only the sender — authoritative
/// membership arrives separately — and for a direct message the sorted pair.
pub open spec fn placeholder_conv(m: ChatMessageView) -> ConversationView {
    if m.recipients is Some {
        ConversationView {
            id: m.conversation_id,
            participants: seq![m.sender],
            messages: Seq::empty(),
            last_updated: m.timestamp,
            is_group: true,
            group_name: None,
            created_by: None,
        }
    } else {
        ConversationView {
            id: m.conversation_id,
            participants: {
                let other = match m.recipient {
                    Some(r) => r,
                    None => Seq::empty(),
                };
                if lex_le(m.sender, other) {
                    seq![m.sender, other]
                } else {
                    seq![other, m.sender]
                }
            },
            messages: Seq::empty(),
            last_updated: m.timestamp,
            is_group: false,
            group_name: None,
            created_by: None,
        }
    }
}

/// Everything a receive does: the owning conversation resolved or created,
/// the message applied with one idempotent, order-restoring insert.
pub open spec fn receive_post(
    pre: SamchatStateView,
    post: SamchatStateView,
    m: ChatMessageView,
    now: Seq<char>,
) -> bool {
    &&& post.my_node_id == pre.my_node_id
    &&& if has_conv(pre.conversations, m.conversation_id) {
        post.conversations == pre.conversations.update(
            conv_index(pre.conversations, m.conversation_id),
            store_message(conv_by_id(pre.conversations, m.conversation_id), m, now),
        )
    } else {
        post.conversations == pre.conversations.push(store_message(placeholder_conv(m), m, now))
    }
}

/// Build the placeholder record for a message that found no conversation.
fn make_placeholder(message: &ChatMessage) -> (c: Conversation)
    ensures
        c@ == placeholder_conv(message@),
        conv_wf(c@),
{
    if message.recipients.is_some() {
        let mut participants: Vec<String> = Vec::new();
        participants.push(message.sender.clone());
        let c = Conversation {
            id: message.conversation_id.clone(),
            participants,
            messages: Vec::new(),
            last_updated: message.timestamp.clone(),
            is_group: true,
            group_name: None,
            created_by: None,
        };
        proof {
            assert(c@ =~= placeholder_conv(message@)) by {
                assert(c.participants.deep_view() =~= seq![message@.sender]);
                assert(c.messages.deep_view() =~= Seq::<ChatMessageView>::empty());
            }
        }
        c
    } else {
        let other: String = match &message.recipient {
            Some(r) => r.clone(),
            None => String::new(),
        };
        let mut participants: Vec<String> = Vec::new();
        if str_le(message.sender.as_str(), other.as_str()) {
            participants.push(message.sender.clone());
            participants.push(other);
        } else {
            participants.push(other);
            participants.push(message.sender.clone());
        }
        let c = Conversation {
            id: message.conversation_id.clone(),
            participants,
            messages: Vec::new(),
            last_updated: message.timestamp.clone(),
            is_group: false,
            group_name: None,
            created_by: None,
        };
        proof {
            assert(c@ =~= placeholder_conv(message@)) by {
                assert(c.messages.deep_view() =~= Seq::<ChatMessageView>::empty());
                let otherv = match message@.recipient {
                    Some(r) => r,
                    None => Seq::<char>::empty(),
                };
                if lex_le(message@.sender, otherv) {
                    assert(c.participants.deep_view() =~= seq![message@.sender, otherv]);
                } else {
                    assert(c.participants.deep_view() =~= seq![otherv, message@.sender]);
                }
            }
        }
        c
    }
}

impl SamchatState {
    /// Apply one inbound message carrying a known timestamp: resolve or
    /// create the owning conversation, then insert unless the identifier is
    /// already present.  Receipt is never refused.
    pub fn receive_message_at(&mut self, message: ChatMessage, now: String) -> (r: Result<
        bool,
        ChatError,
    >)
        requires
            state_wf(old(self)@),
        ensures
            state_wf(final(self)@),
            r == Ok::<bool, ChatError>(true),
            receive_post(old(self)@, final(self)@, message@, now@),
    {
        let ghost m_snap = message;
        let k: usize = match self.find_conversation(&message.conversation_id) {
            Some(k) => {
                proof {
                    lemma_conv_index_unique(self@.conversations, m_snap@.conversation_id, k as int);
                }
                k
            },
            None => {
                let ghost before = self.conversations;
                let c = make_placeholder(&message);
                let ghost c_snap = c;
                let k = self.conversations.len();
                self.conversations.push(c);
                proof {
                    lemma_deep_view_push(before, self.conversations, c_snap);
                    assert(state_wf(self@)) by {
                        let cs0 = old(self)@.conversations;
                        let cs1 = self@.conversations;
                        assert(cs1 == cs0.push(c_snap@));
                        assert forall|i: int, j: int| 0 <= i < j < cs1.len() implies #[trigger]
                            cs1[i].id != #[trigger] cs1[j].id by {
                            if j == cs1.len() - 1 {
                                assert(cs0[i].id != c_snap@.id);
                            }
                        }
                        assert(forall|i: int| 0 <= i < cs1.len() ==> conv_wf(#[trigger] cs1[i]));
                    }
                }
                k
            },
        };
        let ghost mid = self@;
        let _ = self.store_message_at(k, message, now.as_str());
        proof {
            if !has_conv(old(self)@.conversations, m_snap@.conversation_id) {
                assert(self@.conversations =~= old(self)@.conversations.push(
                    store_message(placeholder_conv(m_snap@), m_snap@, now@),
                ));
            }
        }
        Ok(true)
    }

    /// Apply one inbound message: stamp it with the present moment and
    /// receive it.  The store changes exactly as some
    /// [`receive_post`] describes.
    pub fn receive_message(&mut self, message: ChatMessage) -> (r: Result<bool, ChatError>)
        requires
            state_wf(old(self)@),
        ensures
            state_wf(final(self)@),
            r == Ok::<bool, ChatError>(true),
            exists|now: Seq<char>| receive_post(old(self)@, final(self)@, message@, now),
    {
        let ghost m_snap = message;
        let now = crate::ids::now_rfc3339();
        let ghost nowv = now@;
        let r = self.receive_message_at(message, now);
        proof {
            assert(receive_post(old(self)@, self@, m_snap@, nowv));
        }
        r
    }
}

} // verus!

verus! {

impl SamchatState {
    /// Construct, persist and plan one outgoing message with a known
    /// identifier and timestamp.
    fn send_with(
        &mut self,
        recipient_address: String,
        message_content: String,
        file_info: Option<FileInfo>,
        message_id: String,
        now: String,
    ) -> (r: Result<SendPlan, ChatError>)
        requires
            state_wf(old(self)@),
        ensures
            state_wf(final(self)@),
            send_post(
                old(self)@,
                final(self)@,
                recipient_address@,
                message_content@,
                file_info.deep_view(),
                message_id@,
                now@,
                plan_view(r),
            ),
    {
        let ghost pre = self@;
        let ghost recip = recipient_address@;
        let ghost contentv = message_content@;
        let ghost fiv = file_info.deep_view();
        let ghost idv = message_id@;
        let ghost nowv = now@;
        let sender: String = match &self.my_node_id {
            Some(s) => s.clone(),
            None => {
                return Err(ChatError::NotInitialized);
            },
        };
        if message_content.as_str().is_empty() {
            return Err(ChatError::EmptyContent);
        }
        let group = is_group_target(recipient_address.as_str());
        if !group && (recipient_address.as_str().is_empty() || !str_contains_char(
            recipient_address.as_str(),
            '.',
        )) {
            return Err(ChatError::InvalidRecipient);
        }
        if group {
            let k = match self.find_conversation(&recipient_address) {
                Some(k) => k,
                None => {
                    return Err(ChatError::GroupNotFound);
                },
            };
            proof {
                lemma_conv_index_unique(pre.conversations, recip, k as int);
            }
            let recipients = participants_except(&self.conversations[k].participants, &sender);
            let message = ChatMessage {
                id: message_id,
                conversation_id: recipient_address,
                sender,
                recipient: None,
                recipients: Some(clone_strings(&recipients)),
                content: message_content,
                timestamp: now.clone(),
                delivered: false,
                file_info,
            };
            let ghost m_snap = message;
            let plan_message = message.clone();
            let _ = self.store_message_at(k, message, now.as_str());
            let plan = SendPlan { message: plan_message, recipients };
            proof {
                let mv = sent_message(pre, recip, contentv, fiv, idv, nowv);
                assert(m_snap@ =~~= mv);
                assert(plan@ =~~= (SendPlanView {
                    message: mv,
                    recipients: send_recipients(pre, recip),
                }));
            }
            Ok(plan)
        } else {
            let k = self.get_or_create_direct(
                sender.as_str(),
                recipient_address.as_str(),
                now.as_str(),
            );
            let ghost mid = self@;
            let conv_id = direct_conversation_id(sender.as_str(), recipient_address.as_str());
            let message = ChatMessage {
                id: message_id,
                conversation_id: conv_id,
                sender,
                recipient: Some(recipient_address.clone()),
                recipients: None,
                content: message_content,
                timestamp: now.clone(),
                delivered: false,
                file_info,
            };
            let ghost m_snap = message;
            let ghost cid = m_snap@.conversation_id;
            proof {
                if has_conv(pre.conversations, cid) {
                    lemma_conv_index_unique(pre.conversations, cid, k as int);
                } else {
                    assert(mid.conversations == pre.conversations.push(
                        new_direct_conv(own_id(pre), recip, nowv),
                    ));
                    if k < pre.conversations.len() {
                        assert(pre.conversations[k as int].id == cid);
                        assert(false);
                    }
                }
            }
            let plan_message = message.clone();
            let _ = self.store_message_at(k, message, now.as_str());
            let mut recipients: Vec<String> = Vec::new();
            recipients.push(recipient_address);
            let plan = SendPlan { message: plan_message, recipients };
            proof {
                let mv = sent_message(pre, recip, contentv, fiv, idv, nowv);
                assert(m_snap@ =~~= mv);
                assert(plan.recipients.deep_view() =~= seq![recip]);
                assert(plan@ =~~= (SendPlanView {
                    message: mv,
                    recipients: send_recipients(pre, recip),
                }));
                if !has_conv(pre.conversations, cid) {
                    assert(self@.conversations =~= pre.conversations.push(
                        store_message(new_direct_conv(own_id(pre), recip, nowv), mv, nowv),
                    ));
                }
            }
            Ok(plan)
        }
    }

    /// Send a text message to a peer or a group, with the fresh message
    /// identifier and the timestamp given.  The message is persisted locally
    /// before any delivery is attempted; the returned plan lists the
    /// recipients still to be called.
    pub fn send_message_at(
        &mut self,
        recipient_address: String,
        message_content: String,
        message_id: String,
        now: String,
    ) -> (r: Result<SendPlan, ChatError>)
        requires
            state_wf(old(self)@),
        ensures
            state_wf(final(self)@),
            send_post(
                old(self)@,
                final(self)@,
                recipient_address@,
                message_content@,
                None::<FileInfoView>,
                message_id@,
                now@,
                plan_view(r),
            ),
    {
        self.send_with(recipient_address, message_content, None, message_id, now)
    }

    /// Send a message carrying an attachment descriptor, with the fresh
    /// message identifier and the timestamp given.
    pub fn send_file_message_at(
        &mut self,
        recipient_address: String,
        message_content: String,
        file_info: FileInfo,
        message_id: String,
        now: String,
    ) -> (r: Result<SendPlan, ChatError>)
        requires
            state_wf(old(self)@),
        ensures
            state_wf(final(self)@),
            send_post(
                old(self)@,
                final(self)@,
                recipient_address@,
                message_content@,
                Some(file_info@),
                message_id@,
                now@,
                plan_view(r),
            ),
    {
        self.send_with(recipient_address, message_content, Some(file_info), message_id, now)
    }

    /// Send a text message: draw a fresh identifier and the present moment,
    /// then proceed as [`SamchatState::send_message_at`].  The store changes
    /// exactly as [`send_post`] describes for some identifier and timestamp.
    pub fn send_message(&mut self, recipient_address: String, message_content: String) -> (r:
        Result<SendPlan, ChatError>)
        requires
            state_wf(old(self)@),
        ensures
            state_wf(final(self)@),
            exists|id: Seq<char>, ts: Seq<char>|
                send_post(
                    old(self)@,
                    final(self)@,
                    recipient_address@,
                    message_content@,
                    None::<FileInfoView>,
                    id,
                    ts,
                    plan_view(r),
                ),
    {
        let ghost recip = recipient_address@;
        let ghost contentv = message_content@;
        let id = crate::ids::fresh_uuid();
        let now = crate::ids::now_rfc3339();
        let ghost idv = id@;
        let ghost nowv = now@;
        let r = self.send_message_at(recipient_address, message_content, id, now);
        proof {
            assert(send_post(
                old(self)@,
                self@,
                recip,
                contentv,
                None::<FileInfoView>,
                idv,
                nowv,
                plan_view(r),
            ));
        }
        r
    }

    /// Send a message carrying an attachment descriptor: draw a fresh
    /// identifier and the present moment, then proceed as
    /// [`SamchatState::send_file_message_at`].
    pub fn send_file_message(
        &mut self,
        recipient_address: String,
        message_content: String,
        file_info: FileInfo,
    ) -> (r: Result<SendPlan, ChatError>)
        requires
            state_wf(old(self)@),
        ensures
            state_wf(final(self)@),
            exists|id: Seq<char>, ts: Seq<char>|
                send_post(
                    old(self)@,
                    final(self)@,
                    recipient_address@,
                    message_content@,
                    Some(file_info@),
                    id,
                    ts,
                    plan_view(r),
                ),
    {
        let ghost recip = recipient_address@;
        let ghost contentv = message_content@;
        let ghost fiv = file_info@;
        let id = crate::ids::fresh_uuid();
        let now = crate::ids::now_rfc3339();
        let ghost idv = id@;
        let ghost nowv = now@;
        let r = self.send_file_message_at(recipient_address, message_content, file_info, id, now);
        proof {
            assert(send_post(
                old(self)@,
                self@,
                recip,
                contentv,
                Some(fiv),
                idv,
                nowv,
                plan_view(r),
            ));
        }
        r
    }
}

} // verus!
