//! The data model: messages, attachment descriptors, conversations and the
//! notifications that carry group membership between peers, together with
//! their mathematical views and the error taxonomy.

use vstd::prelude::*;

verus! {

/// Why an operation was refused.  Validation and not-found errors are always
/// local and synchronous; a failed remote fetch is the only transport failure
/// that surfaces to a caller.
#[derive(Clone, Copy, Debug, PartialEq, Eq, Structural)]
pub enum ChatError {
    /// The node's own identity was never recorded.
    NotInitialized,
    /// A message body may not be empty.
    EmptyContent,
    /// A direct recipient must be non-empty and contain a domain separator.
    InvalidRecipient,
    /// A group operation named a group this node does not know.
    GroupNotFound,
    /// A query named a conversation this node does not know.
    ConversationNotFound,
    /// A group operation named a conversation that is not a group.
    NotAGroup,
    /// The member to add is already a participant.
    AlreadyMember,
    /// A group needs a name.
    EmptyGroupName,
    /// A group needs at least two participants.
    TooFewParticipants,
    /// The attachment is not held locally and no peer supplied it.
    FileNotFound,
}

/// Mathematical view of a [`FileInfo`].
#[verifier::ext_equal]
pub ghost struct FileInfoView {
    pub file_name: Seq<char>,
    pub file_size: u64,
    pub mime_type: Seq<char>,
    pub file_id: Seq<char>,
    pub sender_node: Seq<char>,
}

/// Attachment descriptor: the content itself lives in the byte store under
/// `file_id`, authoritatively on `sender_node`.
#[derive(Debug, PartialEq)]
pub struct FileInfo {
    pub file_name: String,
    pub file_size: u64,
    pub mime_type: String,
    pub file_id: String,
    pub sender_node: String,
}

impl View for FileInfo {
    type V = FileInfoView;

    open spec fn view(&self) -> FileInfoView {
        FileInfoView {
            file_name: self.file_name@,
            file_size: self.file_size,
            mime_type: self.mime_type@,
            file_id: self.file_id@,
            sender_node: self.sender_node@,
        }
    }
}

impl DeepView for FileInfo {
    type V = FileInfoView;

    open spec fn deep_view(&self) -> FileInfoView {
        self.view()
    }
}

impl Clone for FileInfo {
    fn clone(&self) -> (r: Self)
        ensures
            r == *self,
    {
        FileInfo {
            file_name: self.file_name.clone(),
            file_size: self.file_size,
            mime_type: self.mime_type.clone(),
            file_id: self.file_id.clone(),
            sender_node: self.sender_node.clone(),
        }
    }
}

/// Mathematical view of a [`ChatMessage`].
#[verifier::ext_equal]
pub ghost struct ChatMessageView {
    pub id: Seq<char>,
    pub conversation_id: Seq<char>,
    pub sender: Seq<char>,
    pub recipient: Option<Seq<char>>,
    pub recipients: Option<Seq<Seq<char>>>,
    pub content: Seq<char>,
    pub timestamp: Seq<char>,
    pub delivered: bool,
    pub file_info: Option<FileInfoView>,
}

/// One message.  Created once by its sender, immutable afterwards but for the
/// best-effort `delivered` flag.  Exactly one of `recipient` (direct) and
/// `recipients` (group) is meaningful.
#[derive(Debug, PartialEq)]
pub struct ChatMessage {
    /// Globally unique, assigned by the sender at creation time.
    pub id: String,
    /// Identifier of the owning conversation.
    pub conversation_id: String,
    /// Sender's node identity.
    pub sender: String,
    /// Target identity for a direct message.
    pub recipient: Option<String>,
    /// Target identities for a group message (derived, not authoritative).
    pub recipients: Option<Vec<String>>,
    /// The message text; never empty on creation.
    pub content: String,
    /// RFC3339 creation time; lexicographic order is chronological order.
    pub timestamp: String,
    /// Best-effort local flag, never flipped by the receiver.
    pub delivered: bool,
    /// Optional attachment descriptor.
    pub file_info: Option<FileInfo>,
}

impl View for ChatMessage {
    type V = ChatMessageView;

    open spec fn view(&self) -> ChatMessageView {
        ChatMessageView {
            id: self.id@,
            conversation_id: self.conversation_id@,
            sender: self.sender@,
            recipient: self.recipient.deep_view(),
            recipients: self.recipients.deep_view(),
            content: self.content@,
            timestamp: self.timestamp@,
            delivered: self.delivered,
            file_info: self.file_info.deep_view(),
        }
    }
}

impl DeepView for ChatMessage {
    type V = ChatMessageView;

    open spec fn deep_view(&self) -> ChatMessageView {
        self.view()
    }
}

/// Copy a vector of identity strings.
pub fn clone_strings(v: &Vec<String>) -> (r: Vec<String>)
    ensures
        r@ == v@,
{
    let mut r: Vec<String> = Vec::new();
    let mut i: usize = 0;
    loop
        invariant
            i <= v@.len(),
            r@ == v@.take(i as int),
        decreases v@.len() - i,
    {
        if i >= v.len() {
            proof {
                assert(v@.take(v@.len() as int) =~= v@);
            }
            return r;
        }
        r.push(v[i].clone());
        proof {
            assert(v@.take(i as int).push(v@[i as int]) =~= v@.take(i + 1));
        }
        i = i + 1;
    }
}

impl Clone for ChatMessage {
    fn clone(&self) -> (r: Self)
        ensures
            r@ == self@,
    {
        let recipients: Option<Vec<String>> = match &self.recipients {
            Some(v) => Some(clone_strings(v)),
            None => None,
        };
        let file_info: Option<FileInfo> = match &self.file_info {
            Some(f) => Some(f.clone()),
            None => None,
        };
        let r = ChatMessage {
            id: self.id.clone(),
            conversation_id: self.conversation_id.clone(),
            sender: self.sender.clone(),
            recipient: match &self.recipient {
                Some(s) => Some(s.clone()),
                None => None,
            },
            recipients,
            content: self.content.clone(),
            timestamp: self.timestamp.clone(),
            delivered: self.delivered,
            file_info,
        };
        proof {
            assert(r.recipients.deep_view() =~~= self.recipients.deep_view());
            assert(r@ =~~= self@);
        }
        r
    }
}

/// Mathematical view of a [`Conversation`].
#[verifier::ext_equal]
pub ghost struct ConversationView {
    pub id: Seq<char>,
    pub participants: Seq<Seq<char>>,
    pub messages: Seq<ChatMessageView>,
    pub last_updated: Seq<char>,
    pub is_group: bool,
    pub group_name: Option<Seq<char>>,
    pub created_by: Option<Seq<char>>,
}

/// One chat thread, direct or group, with its history kept sorted by
/// timestamp and free of duplicate message ids.
#[derive(Debug, PartialEq)]
pub struct Conversation {
    /// For a direct thread: the two endpoints sorted and joined; for a group:
    /// an opaque generated identifier carrying the group prefix.
    pub id: String,
    /// Peer identities currently in the conversation; order irrelevant.
    pub participants: Vec<String>,
    /// Message history, sorted ascending by timestamp after every insert.
    pub messages: Vec<ChatMessage>,
    /// RFC3339 time of the most recent local mutation; used for presentation
    /// ordering only.
    pub last_updated: String,
    /// Whether this is a group conversation.
    pub is_group: bool,
    /// Group metadata; absent for direct conversations.
    pub group_name: Option<String>,
    /// Set once at group creation, never changed.
    pub created_by: Option<String>,
}

impl View for Conversation {
    type V = ConversationView;

    open spec fn view(&self) -> ConversationView {
        ConversationView {
            id: self.id@,
            participants: self.participants.deep_view(),
            messages: self.messages.deep_view(),
            last_updated: self.last_updated@,
            is_group: self.is_group,
            group_name: self.group_name.deep_view(),
            created_by: self.created_by.deep_view(),
        }
    }
}

impl DeepView for Conversation {
    type V = ConversationView;

    open spec fn deep_view(&self) -> ConversationView {
        self.view()
    }
}

/// Mathematical view of a [`ConversationSummary`].
#[verifier::ext_equal]
pub ghost struct ConversationSummaryView {
    pub id: Seq<char>,
    pub participants: Seq<Seq<char>>,
    pub last_updated: Seq<char>,
    pub is_group: bool,
    pub group_name: Option<Seq<char>>,
}

/// Presentation projection of a conversation: everything but the messages.
#[derive(Debug, PartialEq)]
pub struct ConversationSummary {
    pub id: String,
    pub participants: Vec<String>,
    pub last_updated: String,
    pub is_group: bool,
    pub group_name: Option<String>,
}

impl View for ConversationSummary {
    type V = ConversationSummaryView;

    open spec fn view(&self) -> ConversationSummaryView {
        ConversationSummaryView {
            id: self.id@,
            participants: self.participants.deep_view(),
            last_updated: self.last_updated@,
            is_group: self.is_group,
            group_name: self.group_name.deep_view(),
        }
    }
}

impl DeepView for ConversationSummary {
    type V = ConversationSummaryView;

    open spec fn deep_view(&self) -> ConversationSummaryView {
        self.view()
    }
}

/// Mathematical view of a [`GroupJoinNotification`].
#[verifier::ext_equal]
pub ghost struct GroupJoinNotificationView {
    pub group_id: Seq<char>,
    pub group_name: Seq<char>,
    pub participants: Seq<Seq<char>>,
    pub created_by: Seq<char>,
}

/// Full membership snapshot of a group, sent to a peer that is (or was) part
/// of it.  Applying one replaces the local record wholesale.
#[derive(Debug, PartialEq)]
pub struct GroupJoinNotification {
    pub group_id: String,
    pub group_name: String,
    pub participants: Vec<String>,
    pub created_by: String,
}

impl View for GroupJoinNotification {
    type V = GroupJoinNotificationView;

    open spec fn view(&self) -> GroupJoinNotificationView {
        GroupJoinNotificationView {
            group_id: self.group_id@,
            group_name: self.group_name@,
            participants: self.participants.deep_view(),
            created_by: self.created_by@,
        }
    }
}

impl DeepView for GroupJoinNotification {
    type V = GroupJoinNotificationView;

    open spec fn deep_view(&self) -> GroupJoinNotificationView {
        self.view()
    }
}

/// Mathematical view of a [`GroupLeaveNotification`].
#[verifier::ext_equal]
pub ghost struct GroupLeaveNotificationView {
    pub group_id: Seq<char>,
    pub member: Seq<char>,
}

/// Tells a peer that `member` left the group.
#[derive(Debug, PartialEq)]
pub struct GroupLeaveNotification {
    pub group_id: String,
    pub member: String,
}

impl View for GroupLeaveNotification {
    type V = GroupLeaveNotificationView;

    open spec fn view(&self) -> GroupLeaveNotificationView {
        GroupLeaveNotificationView {
            group_id: self.group_id@,
            member: self.member@,
        }
    }
}

impl DeepView for GroupLeaveNotification {
    type V = GroupLeaveNotificationView;

    open spec fn deep_view(&self) -> GroupLeaveNotificationView {
        self.view()
    }
}

} // verus!
