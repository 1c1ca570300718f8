//! The ways in which a run can fail.

use vstd::prelude::*;
use crate::number::{append_decimal, decimal};

verus! {

/// Why a run stopped, or ended with less than every photo saved.
#[derive(Debug, Clone, Copy, PartialEq, Eq, Structural)]
pub enum AlbumError {
    /// The album link holds no album identifier.
    InvalidInput,
    /// The album's manifest could not be fetched or read.
    MetadataFetchFailed,
    /// A request for download locations could not be completed or read.
    BatchFetchFailed,
    /// The service named a download location that it did not describe, or one without a host.
    AssetResolutionInconsistent,
    /// That many transfers failed; every other photo was saved.
    PartialDownloadFailure(usize),
}

/// What is said of a link that holds no album identifier.
pub const INVALID_INPUT: &'static str = "Invalid iCloud shared album URL format";

/// What is said where the manifest could not be fetched.
pub const METADATA_FETCH_FAILED: &'static str = "Failed to fetch album metadata";

/// What is said where download locations could not be fetched.
pub const BATCH_FETCH_FAILED: &'static str = "Failed to fetch download URLs";

/// What is said of an answer that is inconsistent.
pub const ASSET_RESOLUTION_INCONSISTENT: &'static str =
    "Download location is missing or has no host";

/// What follows the number of failed transfers.
pub const DOWNLOADS_FAILED: &'static str = " downloads failed";

impl AlbumError {
    /// Whether the run ends at once with this error. Only failed transfers do
    /// not end it: they are counted and reported when all transfers are over.
    pub open spec fn is_fatal(self) -> bool {
        !(self is PartialDownloadFailure)
    }

    /// The error in words.
    pub open spec fn message_text(self) -> Seq<char> {
        match self {
            AlbumError::InvalidInput => INVALID_INPUT@,
            AlbumError::MetadataFetchFailed => METADATA_FETCH_FAILED@,
            AlbumError::BatchFetchFailed => BATCH_FETCH_FAILED@,
            AlbumError::AssetResolutionInconsistent => ASSET_RESOLUTION_INCONSISTENT@,
            AlbumError::PartialDownloadFailure(failed) => decimal(failed as nat) + DOWNLOADS_FAILED@,
        }
    }

    /// Says the error in words.
    pub fn message(&self) -> (r: String)
        ensures
            r@ == self.message_text(),
    {
        match self {
            AlbumError::InvalidInput => INVALID_INPUT.to_owned(),
            AlbumError::MetadataFetchFailed => METADATA_FETCH_FAILED.to_owned(),
            AlbumError::BatchFetchFailed => BATCH_FETCH_FAILED.to_owned(),
            AlbumError::AssetResolutionInconsistent => ASSET_RESOLUTION_INCONSISTENT.to_owned(),
            AlbumError::PartialDownloadFailure(failed) => {
                let mut text: String = String::new();
                append_decimal(&mut text, *failed as u64);
                text.append(DOWNLOADS_FAILED);
                assert(text@ =~= decimal(*failed as nat) + DOWNLOADS_FAILED@);
                text
            },
        }
    }
}

} // verus!
