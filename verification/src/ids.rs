//! Derivation of conversation identifiers and byte-store paths, and the two
//! sources of fresh values: message/file/group identifiers and timestamps.

use vstd::prelude::*;
use vstd::string::StringExecFns;

use crate::order::{has_prefix, lex_le, lemma_lex_le_antisym, lemma_lex_le_total, str_le, str_starts_with};

verus! {

/// The identifier of the direct conversation between `a` and `b`: the two
/// endpoints in lexicographic order, joined by a fixed separator, so either
/// party derives the same identifier without coordination.
pub open spec fn direct_id(a: Seq<char>, b: Seq<char>) -> Seq<char> {
    if lex_le(a, b) {
        a + "|"@ + b
    } else {
        b + "|"@ + a
    }
}

/// The direct-conversation identifier is commutative: both endpoints derive
/// the same identifier, whichever way round they name the pair.
pub proof fn lemma_direct_id_commutes(a: Seq<char>, b: Seq<char>)
    ensures
        direct_id(a, b) == direct_id(b, a),
{
    lemma_lex_le_total(a, b);
    if lex_le(a, b) && lex_le(b, a) {
        lemma_lex_le_antisym(a, b);
    }
}

/// Derive the direct-conversation identifier for the pair `{a, b}`.
pub fn direct_conversation_id(a: &str, b: &str) -> (r: String)
    ensures
        r@ == direct_id(a@, b@),
{
    let first_le = str_le(a, b);
    let (lo, hi) = if first_le { (a, b) } else { (b, a) };
    let mut r = lo.to_owned();
    r.append("|");
    r.append(hi);
    r
}

/// The prefix that marks a conversation identifier as a group.
pub open spec fn group_id_prefix() -> Seq<char> {
    "group_"@
}

/// Whether `id` names a group conversation.
pub open spec fn is_group_id(id: Seq<char>) -> bool {
    has_prefix(id, group_id_prefix())
}

/// Decide whether a target identifier names a group.
pub fn is_group_target(id: &str) -> (r: bool)
    ensures
        r == is_group_id(id@),
{
    str_starts_with(id, "group_")
}

/// Build a group identifier from an opaque suffix.
pub fn make_group_id(suffix: &str) -> (r: String)
    ensures
        r@ == group_id_prefix() + suffix@,
        is_group_id(r@),
{
    let mut r = "group_".to_owned();
    r.append(suffix);
    proof {
        assert((group_id_prefix() + suffix@).subrange(0, group_id_prefix().len() as int)
            =~= group_id_prefix());
    }
    r
}

/// The byte-store directory that holds attachment contents.
pub open spec fn files_dir() -> Seq<char> {
    "/samchat:hpn-testing-beta.os/files"@
}

/// The byte-store path that holds the content of the attachment `file_id`.
pub open spec fn file_path(file_id: Seq<char>) -> Seq<char> {
    files_dir() + "/"@ + file_id
}

/// Derive the byte-store path for an attachment.
pub fn file_path_for(file_id: &str) -> (r: String)
    ensures
        r@ == file_path(file_id@),
{
    let mut r = "/samchat:hpn-testing-beta.os/files".to_owned();
    r.append("/");
    r.append(file_id);
    r
}

/// Relies on `uuid::Uuid::new_v4` and `Uuid`'s `Display` implementation: a
/// freshly generated version-4 identifier, rendered in the hyphenated form,
/// which is always 36 characters of ASCII hex digits and hyphens.  The value
/// depends on the generator's randomness, so nothing more is promised.
#[verifier::external_body]
pub fn fresh_uuid() -> (r: String)
    ensures
        r@.len() == 36,
{
    uuid::Uuid::new_v4().to_string()
}

/// Relies on `chrono::Utc::now` and `DateTime::to_rfc3339`: the current UTC
/// time as an RFC3339 string.  The value depends on the clock, so nothing is
/// promised of it; every consumer takes the timestamp as an argument.
#[verifier::external_body]
pub fn now_rfc3339() -> (r: String)
    ensures
        r@.len() > 0,
{
    chrono::Utc::now().to_rfc3339()
}

} // verus!
