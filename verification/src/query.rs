//! The query layer: read-only projections over the conversation store for
//! presentation — conversation summaries ordered most-recently-active first,
//! and the already-ordered message history of one conversation.

use vstd::prelude::*;
use vstd::seq_lib::{to_multiset_build, to_multiset_insert};

use crate::order::{lex_le, lex_lt, str_lt};
use crate::store::{
    conv_by_id, has_conv, lemma_conv_index_unique, msgs_sorted, state_wf, SamchatState,
};
use crate::types::{
    clone_strings, ChatError, ChatMessage, ConversationSummary,
    ConversationSummaryView, ConversationView,
};

verus! {

/// The presentation projection of one conversation record.
pub open spec fn summary_of(c: ConversationView) -> ConversationSummaryView {
    ConversationSummaryView {
        id: c.id,
        participants: c.participants,
        last_updated: c.last_updated,
        is_group: c.is_group,
        group_name: c.group_name,
    }
}

/// The projections of every stored record, in store order.
pub open spec fn summaries_of(cs: Seq<ConversationView>) -> Seq<ConversationSummaryView> {
    Seq::new(cs.len(), |i: int| summary_of(cs[i]))
}

/// Sorted newest-first by freshness stamp.
pub open spec fn sorted_desc(ss: Seq<ConversationSummaryView>) -> bool {
    forall|i: int, j: int|
        0 <= i < j < ss.len() ==> lex_le(#[trigger] ss[j].last_updated, #[trigger] ss[i].last_updated)
}

/// Place `x` before the first summary with a strictly older stamp.
pub open spec fn insert_desc(
    ss: Seq<ConversationSummaryView>,
    x: ConversationSummaryView,
) -> Seq<ConversationSummaryView>
    decreases ss.len(),
{
    if ss.len() == 0 {
        seq![x]
    } else if lex_lt(ss[0].last_updated, x.last_updated) {
        seq![x] + ss
    } else {
        seq![ss[0]] + insert_desc(ss.drop_first(), x)
    }
}

/// Insertion sort, newest first.
pub open spec fn sort_desc(ss: Seq<ConversationSummaryView>) -> Seq<ConversationSummaryView>
    decreases ss.len(),
{
    if ss.len() == 0 {
        Seq::empty()
    } else {
        insert_desc(sort_desc(ss.drop_last()), ss.last())
    }
}

/// Where the exec code inserts — after every newer-or-equal summary, before
/// the first strictly older one — is where [`insert_desc`] puts the summary.
pub proof fn lemma_insert_desc_at(
    ss: Seq<ConversationSummaryView>,
    x: ConversationSummaryView,
    p: int,
)
    requires
        0 <= p <= ss.len(),
        forall|j: int| 0 <= j < p ==> !lex_lt(#[trigger] ss[j].last_updated, x.last_updated),
        p < ss.len() ==> lex_lt(ss[p].last_updated, x.last_updated),
    ensures
        insert_desc(ss, x) == ss.insert(p, x),
    decreases ss.len(),
{
    if ss.len() == 0 {
        assert(insert_desc(ss, x) =~= ss.insert(0, x));
    } else if lex_lt(ss[0].last_updated, x.last_updated) {
        assert(p == 0);
        assert(seq![x] + ss =~= ss.insert(0, x));
    } else {
        assert(p >= 1);
        assert(forall|j: int|
            0 <= j < p - 1 ==> !lex_lt(#[trigger] ss.drop_first()[j].last_updated, x.last_updated)
                && ss.drop_first()[j] == ss[j + 1]);
        assert(p - 1 < ss.drop_first().len() ==> ss.drop_first()[p - 1] == ss[p]);
        lemma_insert_desc_at(ss.drop_first(), x, p - 1);
        assert(seq![ss[0]] + ss.drop_first().insert(p - 1, x) =~= ss.insert(p, x));
    }
}

/// An insert yields one more summary, and nothing that was not there before.
pub proof fn lemma_insert_desc_elems(ss: Seq<ConversationSummaryView>, x: ConversationSummaryView)
    ensures
        insert_desc(ss, x).len() == ss.len() + 1,
        forall|k: int|
            0 <= k < insert_desc(ss, x).len() ==> (#[trigger] insert_desc(ss, x)[k] == x
                || ss.contains(insert_desc(ss, x)[k])),
        insert_desc(ss, x).to_multiset() == ss.to_multiset().insert(x),
    decreases ss.len(),
{
    broadcast use to_multiset_insert;

    let r = insert_desc(ss, x);
    if ss.len() == 0 {
        assert(r =~= ss.insert(0, x));
    } else if lex_lt(ss[0].last_updated, x.last_updated) {
        assert(r =~= ss.insert(0, x));
        assert forall|k: int| 0 <= k < r.len() implies (#[trigger] r[k] == x || ss.contains(
            r[k],
        )) by {
            if k > 0 {
                assert(r[k] == ss[k - 1]);
                assert(ss.contains(ss[k - 1]));
            }
        }
    } else {
        lemma_insert_desc_elems(ss.drop_first(), x);
        let rr = insert_desc(ss.drop_first(), x);
        assert(r.to_multiset() == ss.to_multiset().insert(x)) by {
            let df = ss.drop_first();
            assert(r =~= rr.insert(0, ss[0]));
            assert(rr.insert(0, ss[0]).to_multiset() =~= rr.to_multiset().insert(ss[0]));
            assert(ss =~= df.insert(0, ss[0]));
            assert(df.insert(0, ss[0]).to_multiset() =~= df.to_multiset().insert(ss[0]));
            assert(df.to_multiset().insert(x).insert(ss[0]) =~= df.to_multiset().insert(
                ss[0],
            ).insert(x));
        }
        assert forall|k: int| 0 <= k < r.len() implies (#[trigger] r[k] == x || ss.contains(
            r[k],
        )) by {
            if k == 0 {
                assert(r[0] == ss[0]);
                assert(ss.contains(ss[0]));
            } else {
                assert(r[k] == rr[k - 1]);
                if rr[k - 1] != x {
                    assert(ss.drop_first().contains(rr[k - 1]));
                    let j = choose|j: int|
                        0 <= j < ss.drop_first().len() && ss.drop_first()[j] == rr[k - 1];
                    assert(ss[j + 1] == rr[k - 1]);
                    assert(ss.contains(ss[j + 1]));
                }
            }
        }
    }
}

/// A newest-first sequence stays newest-first across an insert.
pub proof fn lemma_insert_desc_sorted(ss: Seq<ConversationSummaryView>, x: ConversationSummaryView)
    requires
        sorted_desc(ss),
    ensures
        sorted_desc(insert_desc(ss, x)),
    decreases ss.len(),
{
    let r = insert_desc(ss, x);
    if ss.len() == 0 {
    } else if lex_lt(ss[0].last_updated, x.last_updated) {
        crate::order::lemma_lex_lt_complement(ss[0].last_updated, x.last_updated);
        crate::order::lemma_lex_le_iff_lt_or_eq(ss[0].last_updated, x.last_updated);
        assert forall|i: int, j: int|
            0 <= i < j < r.len() implies lex_le(r[j].last_updated, r[i].last_updated) by {
            if i == 0 {
                assert(r[j] == ss[j - 1]);
                if j - 1 > 0 {
                    crate::order::lemma_lex_le_trans(
                        ss[j - 1].last_updated,
                        ss[0].last_updated,
                        x.last_updated,
                    );
                }
            } else {
                assert(r[i] == ss[i - 1]);
                assert(r[j] == ss[j - 1]);
            }
        }
    } else {
        assert(sorted_desc(ss.drop_first())) by {
            assert(forall|i: int|
                0 <= i < ss.drop_first().len() ==> #[trigger] ss.drop_first()[i] == ss[i + 1]);
        }
        lemma_insert_desc_sorted(ss.drop_first(), x);
        lemma_insert_desc_elems(ss.drop_first(), x);
        let rr = insert_desc(ss.drop_first(), x);
        crate::order::lemma_lex_lt_complement(ss[0].last_updated, x.last_updated);
        assert forall|i: int, j: int|
            0 <= i < j < r.len() implies lex_le(r[j].last_updated, r[i].last_updated) by {
            if i == 0 {
                assert(r[j] == rr[j - 1]);
                if rr[j - 1] == x {
                } else {
                    let w = choose|w: int|
                        0 <= w < ss.drop_first().len() && ss.drop_first()[w] == rr[j - 1];
                    assert(ss[w + 1] == rr[j - 1]);
                }
            } else {
                assert(r[i] == rr[i - 1]);
                assert(r[j] == rr[j - 1]);
            }
        }
    }
}

/// The sort returns the same summaries, newest first.
pub proof fn lemma_sort_desc_sorted(ss: Seq<ConversationSummaryView>)
    ensures
        sorted_desc(sort_desc(ss)),
        sort_desc(ss).to_multiset() == ss.to_multiset(),
        sort_desc(ss).len() == ss.len(),
    decreases ss.len(),
{
    broadcast use to_multiset_build;
    broadcast use vstd::seq_lib::to_multiset_len;

    if ss.len() == 0 {
        assert(ss =~= Seq::<ConversationSummaryView>::empty());
    } else {
        lemma_sort_desc_sorted(ss.drop_last());
        lemma_insert_desc_sorted(sort_desc(ss.drop_last()), ss.last());
        lemma_insert_desc_elems(sort_desc(ss.drop_last()), ss.last());
        assert(sort_desc(ss).to_multiset() == ss.to_multiset()) by {
            let dl = ss.drop_last();
            assert(sort_desc(ss) == insert_desc(sort_desc(dl), ss.last()));
            assert(sort_desc(ss).to_multiset() == sort_desc(dl).to_multiset().insert(ss.last()));
            assert(ss =~= dl.push(ss.last()));
            assert(dl.push(ss.last()).to_multiset() =~= dl.to_multiset().insert(ss.last()));
            assert(ss.to_multiset() == dl.to_multiset().insert(ss.last()));
        }
    }
}

} // verus!

verus! {

/// Copy a message history.
fn clone_messages(v: &Vec<ChatMessage>) -> (r: Vec<ChatMessage>)
    ensures
        r.deep_view() == v.deep_view(),
{
    let n = v.len();
    let mut r: Vec<ChatMessage> = Vec::new();
    let mut i: usize = 0;
    loop
        invariant
            i <= n,
            n == v@.len(),
            r.deep_view() == v.deep_view().take(i as int),
        decreases n - i,
    {
        if i >= n {
            proof {
                assert(v.deep_view().take(n as int) =~= v.deep_view());
            }
            return r;
        }
        let ghost r_before = r;
        let cm = v[i].clone();
        let ghost cm_snap = cm;
        r.push(cm);
        proof {
            crate::store::lemma_deep_view_push(r_before, r, cm_snap);
            assert(cm_snap@ == v@[i as int]@);
            assert(v.deep_view().take(i as int).push(v.deep_view()[i as int]) =~= v.deep_view()
                .take(i + 1));
        }
        i = i + 1;
    }
}

impl SamchatState {
    /// Project every known conversation to a summary, most recently active
    /// first.  The result is exactly the insertion sort of the projections:
    /// the same summaries, ordered newest-first.
    pub fn get_conversations(&self) -> (r: Vec<ConversationSummary>)
        ensures
            r.deep_view() == sort_desc(summaries_of(self@.conversations)),
            sorted_desc(r.deep_view()),
            r.deep_view().to_multiset() == summaries_of(self@.conversations).to_multiset(),
    {
        let n = self.conversations.len();
        let mut r: Vec<ConversationSummary> = Vec::new();
        let mut i: usize = 0;
        loop
            invariant
                i <= n,
                n == self.conversations@.len(),
                r.deep_view() == sort_desc(summaries_of(self@.conversations).take(i as int)),
            ensures
                i == n,
                r.deep_view() == sort_desc(summaries_of(self@.conversations).take(n as int)),
            decreases n - i,
        {
            if i >= n {
                break;
            }
            let c = &self.conversations[i];
            let s = ConversationSummary {
                id: c.id.clone(),
                participants: clone_strings(&c.participants),
                last_updated: c.last_updated.clone(),
                is_group: c.is_group,
                group_name: match &c.group_name {
                    Some(g) => Some(g.clone()),
                    None => None,
                },
            };
            let ghost s_snap = s;
            proof {
                assert(s_snap@ =~= summary_of(self@.conversations[i as int]));
            }
            let m = r.len();
            let mut pos: usize = 0;
            loop
                invariant
                    pos <= m,
                    m == r@.len(),
                    forall|j: int|
                        0 <= j < pos ==> !lex_lt(
                            #[trigger] r.deep_view()[j].last_updated,
                            s@.last_updated,
                        ),
                ensures
                    pos <= m,
                    m == r@.len(),
                    forall|j: int|
                        0 <= j < pos ==> !lex_lt(
                            #[trigger] r.deep_view()[j].last_updated,
                            s@.last_updated,
                        ),
                    pos < m ==> lex_lt(r.deep_view()[pos as int].last_updated, s@.last_updated),
                decreases m - pos,
            {
                if pos >= m {
                    break;
                }
                if str_lt(r[pos].last_updated.as_str(), s.last_updated.as_str()) {
                    break;
                }
                pos = pos + 1;
            }
            let ghost r_before = r;
            r.insert(pos, s);
            proof {
                lemma_insert_desc_at(r_before.deep_view(), s_snap@, pos as int);
                crate::store::lemma_deep_view_insert(r_before, r, pos as int, s_snap);
                let all = summaries_of(self@.conversations);
                assert(all.take(i + 1).drop_last() =~= all.take(i as int));
                assert(all.take(i + 1).last() == all[i as int]);
                assert(r.deep_view() == sort_desc(all.take(i + 1)));
            }
            i = i + 1;
        }
        proof {
            assert(summaries_of(self@.conversations).take(n as int) =~= summaries_of(
                self@.conversations,
            ));
            lemma_sort_desc_sorted(summaries_of(self@.conversations));
        }
        r
    }

    /// The full, already-ordered message history of one conversation, or a
    /// not-found error — and nothing else — where the conversation is
    /// unknown.  A query never mutates the store.
    pub fn get_messages(&self, conversation_id: String) -> (r: Result<Vec<ChatMessage>, ChatError>)
        requires
            state_wf(self@),
        ensures
            has_conv(self@.conversations, conversation_id@) ==> (r matches Ok(v) && v.deep_view()
                == conv_by_id(self@.conversations, conversation_id@).messages && msgs_sorted(
                v.deep_view(),
            )),
            !has_conv(self@.conversations, conversation_id@) ==> (r matches Err(e) && e
                == ChatError::ConversationNotFound),
    {
        match self.find_conversation(&conversation_id) {
            Some(k) => {
                proof {
                    lemma_conv_index_unique(self@.conversations, conversation_id@, k as int);
                }
                Ok(clone_messages(&self.conversations[k].messages))
            },
            None => Err(ChatError::ConversationNotFound),
        }
    }
}

} // verus!
