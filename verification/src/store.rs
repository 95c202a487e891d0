//! The conversation store: the single source of truth for every conversation
//! this node knows, keyed by conversation identifier, together with the rules
//! every mutation obeys — unique conversation identifiers, no duplicate
//! message identifiers, histories sorted by timestamp.

use vstd::prelude::*;

use crate::order::{
    lemma_lex_le_iff_lt_or_eq, lemma_lex_le_trans, lemma_lex_lt_complement, lex_le, lex_lt,
};
use crate::types::{ChatMessage, ChatMessageView, Conversation, ConversationView};

verus! {

/// The history is sorted ascending by timestamp.
pub open spec fn msgs_sorted(ms: Seq<ChatMessageView>) -> bool {
    forall|i: int, j: int|
        0 <= i < j < ms.len() ==> lex_le(#[trigger] ms[i].timestamp, #[trigger] ms[j].timestamp)
}

/// Some stored message carries the identifier `id`.
pub open spec fn has_msg_id(ms: Seq<ChatMessageView>, id: Seq<char>) -> bool {
    exists|i: int| 0 <= i < ms.len() && #[trigger] ms[i].id == id
}

/// No two stored messages share an identifier.
pub open spec fn msg_ids_unique(ms: Seq<ChatMessageView>) -> bool {
    forall|i: int, j: int| 0 <= i < j < ms.len() ==> #[trigger] ms[i].id != #[trigger] ms[j].id
}

/// Every conversation record keeps its history sorted, deduplicated, and
/// owned: each message names the conversation that contains it.
pub open spec fn conv_wf(c: ConversationView) -> bool {
    &&& msgs_sorted(c.messages)
    &&& msg_ids_unique(c.messages)
    &&& forall|i: int|
        0 <= i < c.messages.len() ==> #[trigger] c.messages[i].conversation_id == c.id
}

/// No two stored conversations share an identifier.
pub open spec fn conv_ids_unique(cs: Seq<ConversationView>) -> bool {
    forall|i: int, j: int| 0 <= i < j < cs.len() ==> #[trigger] cs[i].id != #[trigger] cs[j].id
}

/// Some stored conversation carries the identifier `id`.
pub open spec fn has_conv(cs: Seq<ConversationView>, id: Seq<char>) -> bool {
    exists|i: int| 0 <= i < cs.len() && cs[i].id == id
}

/// The position of the conversation `id`; meaningful only under [`has_conv`].
pub open spec fn conv_index(cs: Seq<ConversationView>, id: Seq<char>) -> int {
    choose|i: int| 0 <= i < cs.len() && cs[i].id == id
}

/// The conversation record stored under `id`; meaningful only under
/// [`has_conv`].
pub open spec fn conv_by_id(cs: Seq<ConversationView>, id: Seq<char>) -> ConversationView {
    cs[conv_index(cs, id)]
}

/// Replace the record with the same identifier, or append the record if the
/// identifier is new.
pub open spec fn upsert(cs: Seq<ConversationView>, c: ConversationView) -> Seq<ConversationView> {
    if has_conv(cs, c.id) {
        cs.update(conv_index(cs, c.id), c)
    } else {
        cs.push(c)
    }
}

/// Under unique identifiers, any position whose record carries `id` is the
/// position [`conv_index`] names.
pub proof fn lemma_conv_index_unique(cs: Seq<ConversationView>, id: Seq<char>, k: int)
    requires
        conv_ids_unique(cs),
        0 <= k < cs.len(),
        cs[k].id == id,
    ensures
        has_conv(cs, id),
        conv_index(cs, id) == k,
{
    assert(has_conv(cs, id));
    let j = conv_index(cs, id);
    assert(0 <= j < cs.len() && cs[j].id == id);
    if j < k {
        assert(cs[j].id != cs[k].id);
    } else if k < j {
        assert(cs[k].id != cs[j].id);
    }
}

/// Place `m` into the history before the first strictly later message: the
/// effect of one idempotent, order-restoring insert.
pub open spec fn insert_by_ts(ms: Seq<ChatMessageView>, m: ChatMessageView) -> Seq<ChatMessageView>
    decreases ms.len(),
{
    if ms.len() == 0 {
        seq![m]
    } else if lex_lt(m.timestamp, ms[0].timestamp) {
        seq![m] + ms
    } else {
        seq![ms[0]] + insert_by_ts(ms.drop_first(), m)
    }
}

/// The record after a message is stored in it: the history re-sorted around
/// the new message and the freshness stamp advanced.
pub open spec fn with_message(c: ConversationView, m: ChatMessageView, now: Seq<char>)
    -> ConversationView {
    ConversationView { messages: insert_by_ts(c.messages, m), last_updated: now, ..c }
}

/// The record after a message is offered to it: unchanged when the message
/// identifier is already present, else [`with_message`].
pub open spec fn store_message(c: ConversationView, m: ChatMessageView, now: Seq<char>)
    -> ConversationView {
    if has_msg_id(c.messages, m.id) {
        c
    } else {
        with_message(c, m, now)
    }
}

/// An insert yields one more message, and nothing that was not there before.
pub proof fn lemma_insert_by_ts_elems(ms: Seq<ChatMessageView>, m: ChatMessageView)
    ensures
        insert_by_ts(ms, m).len() == ms.len() + 1,
        forall|k: int|
            0 <= k < insert_by_ts(ms, m).len() ==> (#[trigger] insert_by_ts(ms, m)[k] == m
                || ms.contains(insert_by_ts(ms, m)[k])),
    decreases ms.len(),
{
    let r = insert_by_ts(ms, m);
    if ms.len() == 0 {
    } else if lex_lt(m.timestamp, ms[0].timestamp) {
        assert forall|k: int| 0 <= k < r.len() implies (#[trigger] r[k] == m || ms.contains(
            r[k],
        )) by {
            if k > 0 {
                assert(r[k] == ms[k - 1]);
                assert(ms.contains(ms[k - 1]));
            }
        }
    } else {
        lemma_insert_by_ts_elems(ms.drop_first(), m);
        let rr = insert_by_ts(ms.drop_first(), m);
        assert forall|k: int| 0 <= k < r.len() implies (#[trigger] r[k] == m || ms.contains(
            r[k],
        )) by {
            if k == 0 {
                assert(r[0] == ms[0]);
                assert(ms.contains(ms[0]));
            } else {
                assert(r[k] == rr[k - 1]);
                if rr[k - 1] != m {
                    assert(ms.drop_first().contains(rr[k - 1]));
                    let j = choose|j: int|
                        0 <= j < ms.drop_first().len() && ms.drop_first()[j] == rr[k - 1];
                    assert(ms[j + 1] == rr[k - 1]);
                    assert(ms.contains(ms[j + 1]));
                }
            }
        }
    }
}

/// A sorted history stays sorted across an insert.
pub proof fn lemma_insert_by_ts_sorted(ms: Seq<ChatMessageView>, m: ChatMessageView)
    requires
        msgs_sorted(ms),
    ensures
        msgs_sorted(insert_by_ts(ms, m)),
    decreases ms.len(),
{
    let r = insert_by_ts(ms, m);
    if ms.len() == 0 {
    } else if lex_lt(m.timestamp, ms[0].timestamp) {
        lemma_lex_lt_complement(m.timestamp, ms[0].timestamp);
        lemma_lex_le_iff_lt_or_eq(m.timestamp, ms[0].timestamp);
        assert forall|i: int, j: int|
            0 <= i < j < r.len() implies lex_le(r[i].timestamp, r[j].timestamp) by {
            if i == 0 {
                assert(r[j] == ms[j - 1]);
                if j - 1 > 0 {
                    lemma_lex_le_trans(m.timestamp, ms[0].timestamp, ms[j - 1].timestamp);
                }
            } else {
                assert(r[i] == ms[i - 1]);
                assert(r[j] == ms[j - 1]);
            }
        }
    } else {
        assert(msgs_sorted(ms.drop_first())) by {
            assert(forall|i: int|
                0 <= i < ms.drop_first().len() ==> #[trigger] ms.drop_first()[i] == ms[i + 1]);
        }
        lemma_insert_by_ts_sorted(ms.drop_first(), m);
        lemma_insert_by_ts_elems(ms.drop_first(), m);
        let rr = insert_by_ts(ms.drop_first(), m);
        lemma_lex_lt_complement(m.timestamp, ms[0].timestamp);
        assert forall|i: int, j: int|
            0 <= i < j < r.len() implies lex_le(r[i].timestamp, r[j].timestamp) by {
            if i == 0 {
                assert(r[j] == rr[j - 1]);
                if rr[j - 1] == m {
                } else {
                    let w = choose|w: int|
                        0 <= w < ms.drop_first().len() && ms.drop_first()[w] == rr[j - 1];
                    assert(ms[w + 1] == rr[j - 1]);
                }
            } else {
                assert(r[i] == rr[i - 1]);
                assert(r[j] == rr[j - 1]);
            }
        }
    }
}

/// A deduplicated history stays deduplicated across an insert of a fresh
/// identifier.
pub proof fn lemma_insert_by_ts_unique(ms: Seq<ChatMessageView>, m: ChatMessageView)
    requires
        msg_ids_unique(ms),
        !has_msg_id(ms, m.id),
    ensures
        msg_ids_unique(insert_by_ts(ms, m)),
    decreases ms.len(),
{
    let r = insert_by_ts(ms, m);
    if ms.len() == 0 {
    } else if lex_lt(m.timestamp, ms[0].timestamp) {
        assert forall|i: int, j: int| 0 <= i < j < r.len() implies r[i].id != r[j].id by {
            if i == 0 {
                assert(r[j] == ms[j - 1]);
            } else {
                assert(r[i] == ms[i - 1]);
                assert(r[j] == ms[j - 1]);
            }
        }
    } else {
        assert(msg_ids_unique(ms.drop_first()) && !has_msg_id(ms.drop_first(), m.id)) by {
            assert(forall|i: int|
                0 <= i < ms.drop_first().len() ==> #[trigger] ms.drop_first()[i] == ms[i + 1]);
        }
        lemma_insert_by_ts_unique(ms.drop_first(), m);
        lemma_insert_by_ts_elems(ms.drop_first(), m);
        let rr = insert_by_ts(ms.drop_first(), m);
        assert forall|i: int, j: int| 0 <= i < j < r.len() implies r[i].id != r[j].id by {
            if i == 0 {
                assert(r[j] == rr[j - 1]);
                if rr[j - 1] == m {
                } else {
                    let w = choose|w: int|
                        0 <= w < ms.drop_first().len() && ms.drop_first()[w] == rr[j - 1];
                    assert(ms[w + 1] == rr[j - 1]);
                }
            } else {
                assert(r[i] == rr[i - 1]);
                assert(r[j] == rr[j - 1]);
            }
        }
    }
}

/// The identifiers present after an insert are the old ones and the new one.
pub proof fn lemma_insert_by_ts_has_id(ms: Seq<ChatMessageView>, m: ChatMessageView, id: Seq<char>)
    ensures
        has_msg_id(insert_by_ts(ms, m), id) <==> (has_msg_id(ms, id) || id == m.id),
    decreases ms.len(),
{
    let r = insert_by_ts(ms, m);
    if ms.len() == 0 {
        assert(r[0] == m);
    } else if lex_lt(m.timestamp, ms[0].timestamp) {
        assert(r[0] == m);
        assert(forall|k: int| 0 <= k < ms.len() ==> r[k + 1] == #[trigger] ms[k]);
        if has_msg_id(ms, id) {
            let k = choose|k: int| 0 <= k < ms.len() && ms[k].id == id;
            assert(r[k + 1].id == id);
        }
        if has_msg_id(r, id) && id != m.id {
            let k = choose|k: int| 0 <= k < r.len() && r[k].id == id;
            assert(k > 0);
            assert(ms[k - 1].id == id);
        }
    } else {
        lemma_insert_by_ts_has_id(ms.drop_first(), m, id);
        let rr = insert_by_ts(ms.drop_first(), m);
        assert(r[0] == ms[0]);
        assert(forall|k: int| 0 <= k < rr.len() ==> r[k + 1] == #[trigger] rr[k]);
        assert(forall|k: int|
            0 <= k < ms.drop_first().len() ==> #[trigger] ms.drop_first()[k] == ms[k + 1]);
        if has_msg_id(ms, id) {
            let k = choose|k: int| 0 <= k < ms.len() && ms[k].id == id;
            if k == 0 {
                assert(r[0].id == id);
            } else {
                assert(ms.drop_first()[k - 1].id == id);
                assert(has_msg_id(ms.drop_first(), id));
            }
        }
        if id == m.id {
            assert(has_msg_id(rr, id));
            let k = choose|k: int| 0 <= k < rr.len() && rr[k].id == id;
            assert(r[k + 1].id == id);
        }
        if has_msg_id(r, id) {
            let k = choose|k: int| 0 <= k < r.len() && r[k].id == id;
            if k == 0 {
                assert(ms[0].id == id);
            } else {
                assert(rr[k - 1].id == id);
                assert(has_msg_id(rr, id));
                if !has_msg_id(ms.drop_first(), id) && id != m.id {
                    assert(false);
                }
                if has_msg_id(ms.drop_first(), id) {
                    let w = choose|w: int|
                        0 <= w < ms.drop_first().len() && ms.drop_first()[w].id == id;
                    assert(ms[w + 1].id == id);
                }
            }
        }
    }
}

/// Ownership of messages survives an insert of a message the record owns.
pub proof fn lemma_insert_by_ts_owned(
    ms: Seq<ChatMessageView>,
    m: ChatMessageView,
    cid: Seq<char>,
)
    requires
        forall|i: int| 0 <= i < ms.len() ==> #[trigger] ms[i].conversation_id == cid,
        m.conversation_id == cid,
    ensures
        forall|i: int|
            0 <= i < insert_by_ts(ms, m).len() ==> #[trigger] insert_by_ts(
                ms,
                m,
            )[i].conversation_id == cid,
{
    lemma_insert_by_ts_elems(ms, m);
    let r = insert_by_ts(ms, m);
    assert forall|i: int| 0 <= i < r.len() implies #[trigger] r[i].conversation_id == cid by {
        if r[i] != m {
            assert(ms.contains(r[i]));
            let w = choose|w: int| 0 <= w < ms.len() && ms[w] == r[i];
            assert(ms[w].conversation_id == cid);
        }
    }
}

/// Where the exec code inserts — after every earlier message, before the
/// first strictly later one — is where [`insert_by_ts`] puts the message.
pub proof fn lemma_insert_by_ts_at(ms: Seq<ChatMessageView>, m: ChatMessageView, p: int)
    requires
        0 <= p <= ms.len(),
        forall|j: int| 0 <= j < p ==> !lex_lt(m.timestamp, #[trigger] ms[j].timestamp),
        p < ms.len() ==> lex_lt(m.timestamp, ms[p].timestamp),
    ensures
        insert_by_ts(ms, m) == ms.insert(p, m),
    decreases ms.len(),
{
    if ms.len() == 0 {
        assert(insert_by_ts(ms, m) =~= ms.insert(0, m));
    } else if lex_lt(m.timestamp, ms[0].timestamp) {
        assert(p == 0);
        assert(seq![m] + ms =~= ms.insert(0, m));
    } else {
        assert(p >= 1);
        assert(forall|j: int|
            0 <= j < p - 1 ==> !lex_lt(m.timestamp, #[trigger] ms.drop_first()[j].timestamp)
                && ms.drop_first()[j] == ms[j + 1]);
        assert(p - 1 < ms.drop_first().len() ==> ms.drop_first()[p - 1] == ms[p]);
        lemma_insert_by_ts_at(ms.drop_first(), m, p - 1);
        assert(seq![ms[0]] + ms.drop_first().insert(p - 1, m) =~= ms.insert(p, m));
    }
}

/// Storing a message in a well-formed record keeps it well-formed, provided
/// the record owns the message.
pub proof fn lemma_store_message_wf(c: ConversationView, m: ChatMessageView, now: Seq<char>)
    requires
        conv_wf(c),
        m.conversation_id == c.id,
    ensures
        conv_wf(store_message(c, m, now)),
        store_message(c, m, now).id == c.id,
        store_message(c, m, now).participants == c.participants,
        store_message(c, m, now).is_group == c.is_group,
        has_msg_id(store_message(c, m, now).messages, m.id),
{
    if !has_msg_id(c.messages, m.id) {
        lemma_insert_by_ts_sorted(c.messages, m);
        lemma_insert_by_ts_unique(c.messages, m);
        lemma_insert_by_ts_owned(c.messages, m, c.id);
        lemma_insert_by_ts_has_id(c.messages, m, m.id);
    }
}

} // verus!

use vstd::pervasive::VecAdditionalExecFns;

use crate::order::str_lt;

verus! {

/// Updating one element of a vector updates one element of its deep view.
pub proof fn lemma_deep_view_update<T: DeepView>(v1: Vec<T>, v2: Vec<T>, k: int, x: T)
    requires
        0 <= k < v1@.len(),
        v2@ == v1@.update(k, x),
    ensures
        v2.deep_view() == v1.deep_view().update(k, x.deep_view()),
{
    assert(v2.deep_view() =~= v1.deep_view().update(k, x.deep_view()));
}

/// Appending to a vector appends to its deep view.
pub proof fn lemma_deep_view_push<T: DeepView>(v1: Vec<T>, v2: Vec<T>, x: T)
    requires
        v2@ == v1@.push(x),
    ensures
        v2.deep_view() == v1.deep_view().push(x.deep_view()),
{
    assert(v2.deep_view() =~= v1.deep_view().push(x.deep_view()));
}

/// Inserting into a vector inserts into its deep view.
pub proof fn lemma_deep_view_insert<T: DeepView>(v1: Vec<T>, v2: Vec<T>, k: int, x: T)
    requires
        0 <= k <= v1@.len(),
        v2@ == v1@.insert(k, x),
    ensures
        v2.deep_view() == v1.deep_view().insert(k, x.deep_view()),
{
    assert(v2.deep_view() =~= v1.deep_view().insert(k, x.deep_view()));
}

} // verus!

verus! {

/// Mathematical view of a [`SamchatState`].
#[verifier::ext_equal]
pub ghost struct SamchatStateView {
    pub conversations: Seq<ConversationView>,
    pub my_node_id: Option<Seq<char>>,
}

/// One node's entire chat state: every conversation it knows, keyed by
/// conversation identifier, and its own identity once recorded.
#[derive(Debug, PartialEq)]
pub struct SamchatState {
    /// The conversation records; no two share an identifier.
    pub conversations: Vec<Conversation>,
    /// This node's identity, recorded at initialization.
    pub my_node_id: Option<String>,
}

impl View for SamchatState {
    type V = SamchatStateView;

    open spec fn view(&self) -> SamchatStateView {
        SamchatStateView {
            conversations: self.conversations.deep_view(),
            my_node_id: self.my_node_id.deep_view(),
        }
    }
}

/// Every stored record is well-formed and no two share an identifier.
pub open spec fn state_wf(s: SamchatStateView) -> bool {
    &&& conv_ids_unique(s.conversations)
    &&& forall|i: int| 0 <= i < s.conversations.len() ==> conv_wf(#[trigger] s.conversations[i])
}

/// Whether any stored message carries the identifier `id`.
fn contains_msg_id(ms: &Vec<ChatMessage>, id: &String) -> (r: bool)
    ensures
        r == has_msg_id(ms.deep_view(), id@),
{
    let n = ms.len();
    let mut i: usize = 0;
    loop
        invariant
            i <= n,
            n == ms@.len(),
            forall|j: int| 0 <= j < i ==> #[trigger] ms.deep_view()[j].id != id@,
        decreases n - i,
    {
        if i >= n {
            return false;
        }
        if ms[i].id == *id {
            proof {
                assert(ms.deep_view()[i as int].id == id@);
            }
            return true;
        }
        i = i + 1;
    }
}

impl Conversation {
    /// Insert `message` unless its identifier is already present; on insert,
    /// place it by timestamp and advance the freshness stamp.  Receiving a
    /// duplicate leaves the record exactly as it was.
    pub fn insert_message_dedup(&mut self, message: ChatMessage, now: &str) -> (inserted: bool)
        ensures
            inserted == !has_msg_id(old(self)@.messages, message@.id),
            final(self)@ == store_message(old(self)@, message@, now@),
    {
        if contains_msg_id(&self.messages, &message.id) {
            return false;
        }
        let ghost msgs_before = self.messages;
        let ghost m_snap = message;
        let n = self.messages.len();
        let mut pos: usize = 0;
        loop
            invariant
                pos <= n,
                n == self.messages@.len(),
                self.messages == msgs_before,
                forall|j: int|
                    0 <= j < pos ==> !lex_lt(
                        message@.timestamp,
                        #[trigger] self.messages.deep_view()[j].timestamp,
                    ),
            ensures
                pos <= n,
                self.messages == msgs_before,
                forall|j: int|
                    0 <= j < pos ==> !lex_lt(
                        message@.timestamp,
                        #[trigger] self.messages.deep_view()[j].timestamp,
                    ),
                pos < n ==> lex_lt(
                    message@.timestamp,
                    self.messages.deep_view()[pos as int].timestamp,
                ),
            decreases n - pos,
        {
            if pos >= n {
                break;
            }
            if str_lt(message.timestamp.as_str(), self.messages[pos].timestamp.as_str()) {
                break;
            }
            pos = pos + 1;
        }
        self.messages.insert(pos, message);
        self.last_updated = now.to_owned();
        proof {
            lemma_insert_by_ts_at(msgs_before.deep_view(), m_snap@, pos as int);
            lemma_deep_view_insert(msgs_before, self.messages, pos as int, m_snap);
            assert(self@ =~= store_message(old(self)@, m_snap@, now@));
        }
        true
    }
}

} // verus!

use crate::ids::{direct_conversation_id, direct_id};
use crate::order::str_le;

verus! {

/// The record a direct conversation starts from: the two sorted endpoints,
/// no history yet.
pub open spec fn new_direct_conv(a: Seq<char>, b: Seq<char>, now: Seq<char>) -> ConversationView {
    ConversationView {
        id: direct_id(a, b),
        participants: if lex_le(a, b) {
            seq![a, b]
        } else {
            seq![b, a]
        },
        messages: Seq::empty(),
        last_updated: now,
        is_group: false,
        group_name: None,
        created_by: None,
    }
}

impl SamchatState {
    /// A node that knows nothing yet.
    pub fn new() -> (s: SamchatState)
        ensures
            s@.conversations.len() == 0,
            s@.my_node_id is None,
            state_wf(s@),
    {
        SamchatState { conversations: Vec::new(), my_node_id: None }
    }

    /// Record this node's identity and start from an empty store.
    pub fn initialize(&mut self, node_id: String)
        ensures
            final(self)@.conversations.len() == 0,
            final(self)@.my_node_id == Some(node_id@),
            state_wf(final(self)@),
    {
        self.conversations = Vec::new();
        self.my_node_id = Some(node_id);
    }

    /// Where the conversation `id` is stored, if anywhere.
    pub fn find_conversation(&self, id: &String) -> (r: Option<usize>)
        ensures
            match r {
                Some(k) => k < self@.conversations.len() && self@.conversations[k as int].id
                    == id@,
                None => !has_conv(self@.conversations, id@),
            },
    {
        let n = self.conversations.len();
        let mut i: usize = 0;
        loop
            invariant
                i <= n,
                n == self.conversations@.len(),
                forall|j: int| 0 <= j < i ==> #[trigger] self@.conversations[j].id != id@,
            decreases n - i,
        {
            if i >= n {
                return None;
            }
            if self.conversations[i].id == *id {
                proof {
                    assert(self@.conversations[i as int].id == id@);
                }
                return Some(i);
            }
            i = i + 1;
        }
    }

    /// Read-only lookup of one conversation record.
    pub fn get_conversation(&self, id: &String) -> (r: Option<&Conversation>)
        requires
            state_wf(self@),
        ensures
            match r {
                Some(c) => has_conv(self@.conversations, id@) && c@ == conv_by_id(
                    self@.conversations,
                    id@,
                ),
                None => !has_conv(self@.conversations, id@),
            },
    {
        match self.find_conversation(id) {
            Some(k) => {
                proof {
                    lemma_conv_index_unique(self@.conversations, id@, k as int);
                }
                Some(&self.conversations[k])
            },
            None => None,
        }
    }

    /// Offer `message` to the record at position `k`: the one store mutation
    /// every delivery path funnels through.
    pub fn store_message_at(&mut self, k: usize, message: ChatMessage, now: &str) -> (inserted:
        bool)
        requires
            state_wf(old(self)@),
            k < old(self)@.conversations.len(),
            message@.conversation_id == old(self)@.conversations[k as int].id,
        ensures
            state_wf(final(self)@),
            final(self)@.my_node_id == old(self)@.my_node_id,
            inserted == !has_msg_id(old(self)@.conversations[k as int].messages, message@.id),
            final(self)@.conversations == old(self)@.conversations.update(
                k as int,
                store_message(old(self)@.conversations[k as int], message@, now@),
            ),
    {
        let ghost before = self.conversations;
        let ghost m_snap = message;
        let mut c = self.conversations.remove(k);
        let inserted = c.insert_message_dedup(message, now);
        let ghost c_after = c;
        self.conversations.insert(k, c);
        proof {
            assert(self.conversations@ =~= before@.update(k as int, c_after));
            lemma_deep_view_update(before, self.conversations, k as int, c_after);
            lemma_store_message_wf(old(self)@.conversations[k as int], m_snap@, now@);
            assert(state_wf(self@)) by {
                let cs0 = old(self)@.conversations;
                let cs1 = self@.conversations;
                let cv = store_message(cs0[k as int], m_snap@, now@);
                assert(cs1 == cs0.update(k as int, cv));
                assert(cv.id == cs0[k as int].id);
                assert forall|i: int, j: int| 0 <= i < j < cs1.len() implies #[trigger] cs1[i].id
                    != #[trigger] cs1[j].id by {
                    assert(cs0[i].id != cs0[j].id);
                }
                assert(forall|i: int| 0 <= i < cs1.len() ==> conv_wf(#[trigger] cs1[i]));
            }
        }
        inserted
    }

    /// Return the position of the direct conversation for the pair `{a, b}`,
    /// creating the record if this node has none yet.
    pub fn get_or_create_direct(&mut self, a: &str, b: &str, now: &str) -> (k: usize)
        requires
            state_wf(old(self)@),
        ensures
            state_wf(final(self)@),
            final(self)@.my_node_id == old(self)@.my_node_id,
            k < final(self)@.conversations.len(),
            final(self)@.conversations[k as int].id == direct_id(a@, b@),
            has_conv(old(self)@.conversations, direct_id(a@, b@)) ==> final(self)@ == old(self)@
                && final(self)@.conversations[k as int] == conv_by_id(
                old(self)@.conversations,
                direct_id(a@, b@),
            ),
            !has_conv(old(self)@.conversations, direct_id(a@, b@)) ==> final(self)@.conversations
                == old(self)@.conversations.push(new_direct_conv(a@, b@, now@)),
    {
        let id = direct_conversation_id(a, b);
        match self.find_conversation(&id) {
            Some(k) => {
                proof {
                    lemma_conv_index_unique(self@.conversations, id@, k as int);
                }
                k
            },
            None => {
                let ghost before = self.conversations;
                let mut participants: Vec<String> = Vec::new();
                if str_le(a, b) {
                    participants.push(a.to_owned());
                    participants.push(b.to_owned());
                } else {
                    participants.push(b.to_owned());
                    participants.push(a.to_owned());
                }
                let c = Conversation {
                    id,
                    participants,
                    messages: Vec::new(),
                    last_updated: now.to_owned(),
                    is_group: false,
                    group_name: None,
                    created_by: None,
                };
                let ghost c_snap = c;
                let k = self.conversations.len();
                self.conversations.push(c);
                proof {
                    lemma_deep_view_push(before, self.conversations, c_snap);
                    assert(c_snap@ =~= new_direct_conv(a@, b@, now@)) by {
                        assert(c_snap.participants.deep_view() =~= (if lex_le(a@, b@) {
                            seq![a@, b@]
                        } else {
                            seq![b@, a@]
                        }));
                        assert(c_snap.messages.deep_view() =~= Seq::<ChatMessageView>::empty());
                    }
                    assert(state_wf(self@)) by {
                        let cs0 = old(self)@.conversations;
                        let cs1 = self@.conversations;
                        assert(cs1 == cs0.push(c_snap@));
                        assert forall|i: int, j: int| 0 <= i < j < cs1.len() implies #[trigger]
                            cs1[i].id != #[trigger] cs1[j].id by {
                            if j == cs1.len() - 1 {
                                assert(cs1[j].id == direct_id(a@, b@));
                                assert(cs0[i].id != direct_id(a@, b@));
                            }
                        }
                        assert(forall|i: int| 0 <= i < cs1.len() ==> conv_wf(#[trigger] cs1[i]));
                    }
                }
                k
            },
        }
    }

    /// Replace (or create) one conversation record wholesale: the semantics
    /// a membership snapshot is applied with.
    pub fn upsert_conversation(&mut self, c: Conversation)
        requires
            state_wf(old(self)@),
            conv_wf(c@),
        ensures
            state_wf(final(self)@),
            final(self)@.my_node_id == old(self)@.my_node_id,
            final(self)@.conversations == upsert(old(self)@.conversations, c@),
    {
        let ghost before = self.conversations;
        let ghost c_snap = c;
        match self.find_conversation(&c.id) {
            Some(k) => {
                proof {
                    lemma_conv_index_unique(self@.conversations, c_snap@.id, k as int);
                }
                self.conversations.set(k, c);
                proof {
                    lemma_deep_view_update(before, self.conversations, k as int, c_snap);
                    assert(state_wf(self@)) by {
                        let cs0 = old(self)@.conversations;
                        let cs1 = self@.conversations;
                        assert(cs1 == cs0.update(k as int, c_snap@));
                        assert forall|i: int, j: int| 0 <= i < j < cs1.len() implies #[trigger]
                            cs1[i].id != #[trigger] cs1[j].id by {
                            assert(cs0[i].id != cs0[j].id);
                        }
                        assert(forall|i: int| 0 <= i < cs1.len() ==> conv_wf(#[trigger] cs1[i]));
                    }
                }
            },
            None => {
                self.conversations.push(c);
                proof {
                    lemma_deep_view_push(before, self.conversations, c_snap);
                    assert(state_wf(self@)) by {
                        let cs0 = old(self)@.conversations;
                        let cs1 = self@.conversations;
                        assert(cs1 == cs0.push(c_snap@));
                        assert forall|i: int, j: int| 0 <= i < j < cs1.len() implies #[trigger]
                            cs1[i].id != #[trigger] cs1[j].id by {
                            if j == cs1.len() - 1 {
                                assert(cs0[i].id != c_snap@.id);
                            }
                        }
                        assert(forall|i: int| 0 <= i < cs1.len() ==> conv_wf(#[trigger] cs1[i]));
                    }
                }
            },
        }
    }
}

impl Default for SamchatState {
    /// Same as [`SamchatState::new`].
    fn default() -> (s: SamchatState)
        ensures
            s@.conversations.len() == 0,
            s@.my_node_id is None,
            state_wf(s@),
    {
        SamchatState::new()
    }
}

} // verus!
