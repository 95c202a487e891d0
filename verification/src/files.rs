//! The file transfer resolver: attachments are pulled lazily — local store
//! first, then the sender's copy, cached locally on the way back.
//!
//! The byte store and the peer transport belong to the surrounding process;
//! the resolver decides each step from plain values: what a local read
//! returned, what a remote call returned.

use vstd::prelude::*;

use crate::ids::{file_path, file_path_for};
use crate::store::SamchatState;
use crate::types::{ChatError, FileInfo, FileInfoView};

verus! {

/// The first step of a download: what to do after the local read.
#[derive(Debug, PartialEq)]
pub enum FileFetch {
    /// The bytes were found locally; return them as they are.
    Local(Vec<u8>),
    /// No local copy: ask this peer for the file.
    Remote(String),
    /// No local copy and the sender is this node itself: there is nowhere
    /// left to ask.
    Missing,
}

impl SamchatState {
    /// Decide the first step of a download from the outcome of the local
    /// read: a hit is returned as it is; on a miss the sender is asked,
    /// unless the sender is this node, in which case the file is missing.
    pub fn download_file_start(&self, local: Option<Vec<u8>>, sender_node: &String) -> (r:
        FileFetch)
        ensures
            local matches Some(bytes) ==> r == FileFetch::Local(bytes),
            local is None && Some(sender_node@) != self@.my_node_id ==> r == FileFetch::Remote(
                *sender_node,
            ),
            local is None && Some(sender_node@) == self@.my_node_id ==> r == FileFetch::Missing,
    {
        match local {
            Some(bytes) => FileFetch::Local(bytes),
            None => {
                let same = match &self.my_node_id {
                    Some(me) => *me == *sender_node,
                    None => false,
                };
                if same {
                    FileFetch::Missing
                } else {
                    FileFetch::Remote(sender_node.clone())
                }
            },
        }
    }
}

/// Decide the last step of a download from the outcome of the remote call:
/// on success, the bytes are to be written through to the local store under
/// the attachment's own path before they are returned; on failure the
/// download fails for good — there is no further fallback.
pub fn download_file_finish(file_id: &str, fetched: Option<Vec<u8>>) -> (r: Result<
    (String, Vec<u8>),
    ChatError,
>)
    ensures
        fetched matches Some(bytes) ==> (r matches Ok(p) && p.0@ == file_path(file_id@) && p.1
            == bytes),
        fetched is None ==> (r matches Err(e) && e == ChatError::FileNotFound),
{
    match fetched {
        Some(bytes) => Ok((file_path_for(file_id), bytes)),
        None => Err(ChatError::FileNotFound),
    }
}

/// Serve a file to a peer: a local-only lookup.  A miss is a failure; this
/// node never forwards the request to a third party.
pub fn get_remote_file(local: Option<Vec<u8>>) -> (r: Result<Vec<u8>, ChatError>)
    ensures
        local matches Some(bytes) ==> (r matches Ok(b) && b == bytes),
        local is None ==> (r matches Err(e) && e == ChatError::FileNotFound),
{
    match local {
        Some(bytes) => Ok(bytes),
        None => Err(ChatError::FileNotFound),
    }
}

impl SamchatState {
    /// Register an upload with a known fresh identifier: build the
    /// attachment descriptor — this node is the authoritative holder — and
    /// the byte-store path the content is to be written under.
    pub fn upload_file_at(
        &self,
        file_name: String,
        mime_type: String,
        file_size: u64,
        file_id: String,
    ) -> (r: Result<(FileInfo, String), ChatError>)
        ensures
            self@.my_node_id is None ==> (r matches Err(e) && e == ChatError::NotInitialized),
            self@.my_node_id matches Some(me) ==> (r matches Ok(p) && p.0@ == (FileInfoView {
                file_name: file_name@,
                file_size,
                mime_type: mime_type@,
                file_id: file_id@,
                sender_node: me,
            }) && p.1@ == file_path(file_id@)),
    {
        let sender_node: String = match &self.my_node_id {
            Some(s) => s.clone(),
            None => {
                return Err(ChatError::NotInitialized);
            },
        };
        let path = file_path_for(file_id.as_str());
        let info = FileInfo { file_name, file_size, mime_type, file_id, sender_node };
        Ok((info, path))
    }

    /// Register an upload: draw a fresh file identifier and build the
    /// descriptor and byte-store path for content of the given size.
    pub fn upload_file(&self, file_name: String, mime_type: String, file_data: &Vec<u8>) -> (r:
        Result<(FileInfo, String), ChatError>)
        ensures
            self@.my_node_id is None ==> (r matches Err(e) && e == ChatError::NotInitialized),
            self@.my_node_id matches Some(me) ==> (r matches Ok(p) && exists|fid: Seq<char>|
                fid.len() == 36 && p.0@ == (FileInfoView {
                    file_name: file_name@,
                    file_size: file_data@.len() as u64,
                    mime_type: mime_type@,
                    file_id: fid,
                    sender_node: me,
                }) && p.1@ == file_path(fid)),
    {
        let file_id = crate::ids::fresh_uuid();
        let ghost fidv = file_id@;
        let file_size = file_data.len() as u64;
        let r = self.upload_file_at(file_name, mime_type, file_size, file_id);
        proof {
            if self@.my_node_id is Some {
                let me = match self@.my_node_id {
                    Some(me) => me,
                    None => Seq::empty(),
                };
                assert(r matches Ok(p) && fidv.len() == 36 && p.0@ == (FileInfoView {
                    file_name: file_name@,
                    file_size: file_data@.len() as u64,
                    mime_type: mime_type@,
                    file_id: fidv,
                    sender_node: me,
                }) && p.1@ == file_path(fidv));
            }
        }
        r
    }
}

} // verus!
