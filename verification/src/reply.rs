//! What comes back for a request, and when it counts as an answer.

use vstd::prelude::*;
use crate::album::AlbumManifest;
use crate::error::AlbumError;

verus! {

/// Whether `status` is one of the HTTP status codes that report success.
pub open spec fn is_success(status: u16) -> bool {
    200 <= status < 300
}

/// Whether `status` is one of the HTTP status codes that report success.
pub fn status_is_success(status: u16) -> (r: bool)
    ensures
        r == is_success(status),
{
    200 <= status && status < 300
}

/// What came back for one request.
#[derive(Debug)]
pub enum Reply<T> {
    /// The request could not be carried out.
    Unreachable,
    /// The service answered with `status`. `body` is what the answer's body
    /// was read as; it is empty where the body could not be read.
    Answered { status: u16, body: Option<T> },
}

impl<T> Reply<T> {
    /// What the reply delivers: the body of an answer that reports success
    /// and whose body could be read, and nothing in every other case.
    pub open spec fn accepted(self) -> Option<T> {
        match self {
            Reply::Unreachable => None,
            Reply::Answered { status, body } => if is_success(status) {
                body
            } else {
                None
            },
        }
    }

    /// Hands out what the reply delivers.
    pub fn into_body(self) -> (r: Option<T>)
        ensures
            r == self.accepted(),
    {
        match self {
            Reply::Unreachable => None,
            Reply::Answered { status, body } => if status_is_success(status) {
                body
            } else {
                None
            },
        }
    }
}

/// The manifest that the reply to the metadata request delivers. A request
/// that could not be carried out, a status other than success, and a body
/// that could not be read all mean that the manifest could not be fetched.
pub fn manifest_from_reply(reply: Reply<AlbumManifest>) -> (r: Result<AlbumManifest, AlbumError>)
    ensures
        r == match reply.accepted() {
            Some(manifest) => Ok::<AlbumManifest, AlbumError>(manifest),
            None => Err(AlbumError::MetadataFetchFailed),
        },
{
    match reply.into_body() {
        Some(manifest) => Ok(manifest),
        None => Err(AlbumError::MetadataFetchFailed),
    }
}

} // verus!
