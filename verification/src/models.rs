//! The records that the journal and the download store exchange.

use crate::table::StringMap;
use crate::time::{is_clock_reading, Timestamp};
use vstd::prelude::*;

verus! {

/// A file kept with a journal entry.
#[derive(Debug)]
pub struct Attachment {
    pub id: u32,
    pub saved_path: String,
    pub original_name: String,
    pub mime: String,
}

/// The attachments of one entry.
pub type Attachments = Vec<Attachment>;

/// What a client is told of an attachment: never where the file lies, only
/// the token that downloads it.
#[derive(Debug)]
pub struct AttachmentResponse {
    pub id: u32,
    pub mime: String,
    pub original_name: String,
    pub download_token: String,
}

/// What a client is told of the attachments of one entry.
pub type AttachmentsResponse = Vec<AttachmentResponse>;

/// A journal entry as it is stored.
#[derive(Debug)]
pub struct Entry {
    pub id: Option<String>,
    pub content: String,
    pub created_at: Timestamp,
    pub attachments: Option<Attachments>,
}

/// A journal entry as it is shown to a client.
#[derive(Debug)]
pub struct EntryResponse {
    pub id: Option<String>,
    pub content: String,
    pub created_at: Timestamp,
    pub attachments: AttachmentsResponse,
}

/// What a request to keep a session alive carries.
#[derive(Debug)]
pub struct ExtendDownloadParams {
    pub client: String,
}

/// What a download request carries.
#[derive(Debug)]
pub struct DownloadParams {
    pub client: String,
    pub token: String,
}

/// What a token resolves to: where the file lies, and the name under which it
/// is presented.
#[derive(Debug)]
pub struct DownloadRequest {
    pub file_path: String,
    pub original_name: String,
}

/// The tokens of one client, with their common deadline.
#[derive(Debug)]
pub struct DownloadClient {
    pub expires_at: Timestamp,
    pub requests: StringMap<DownloadRequest>,
}

/// The mathematical value of a `DownloadRequest`.
pub struct Descriptor {
    pub file_path: Seq<char>,
    pub original_name: Seq<char>,
}

/// The mathematical value of a `DownloadClient`.
pub struct Session {
    pub expires_at: int,
    pub tokens: Map<Seq<char>, Descriptor>,
}

impl View for DownloadRequest {
    type V = Descriptor;

    open spec fn view(&self) -> Descriptor {
        Descriptor { file_path: self.file_path@, original_name: self.original_name@ }
    }
}

impl View for DownloadClient {
    type V = Session;

    open spec fn view(&self) -> Session {
        Session { expires_at: self.expires_at as int, tokens: self.requests@ }
    }
}

/// The session that a client starts with: no tokens, and a deadline that is
/// already reached at `now`.
pub open spec fn fresh_session(now: int) -> Session {
    Session { expires_at: now, tokens: Map::empty() }
}

/// The descriptor under which `attachment` is downloaded.
pub open spec fn descriptor_of(attachment: Attachment) -> Descriptor {
    Descriptor { file_path: attachment.saved_path@, original_name: attachment.original_name@ }
}

impl Clone for DownloadRequest {
    fn clone(&self) -> (copy: Self)
        ensures
            copy@ == self@,
    {
        DownloadRequest {
            file_path: self.file_path.clone(),
            original_name: self.original_name.clone(),
        }
    }
}

impl Clone for DownloadClient {
    fn clone(&self) -> (copy: Self)
        ensures
            copy@ == self@,
    {
        DownloadClient { expires_at: self.expires_at, requests: self.requests.clone() }
    }
}

impl DownloadRequest {
    /// The descriptor of `attachment`: its place on disk and its original name.
    pub fn for_attachment(attachment: &Attachment) -> (request: Self)
        ensures
            request@ == descriptor_of(*attachment),
    {
        DownloadRequest {
            file_path: attachment.saved_path.clone(),
            original_name: attachment.original_name.clone(),
        }
    }
}

impl DownloadClient {
    /// A session without tokens whose tentative deadline is the present
    /// instant by the system clock.
    pub fn new() -> (client: Self)
        ensures
            client@ == fresh_session(client@.expires_at),
            is_clock_reading(client@.expires_at),
    {
        Self::starting_at(crate::time::now())
    }

    /// A session without tokens whose tentative deadline is `now`.
    pub fn starting_at(now: Timestamp) -> (client: Self)
        ensures
            client@ == fresh_session(now as int),
    {
        DownloadClient { expires_at: now, requests: StringMap::new() }
    }

    /// Whether the session's deadline has been reached at `now`.
    pub fn is_expired(&self, now: Timestamp) -> (expired: bool)
        ensures
            expired == (self@.expires_at <= now),
    {
        now >= self.expires_at
    }
}

} // verus!
