//! Planning core for downloading the photos of a publicly shared web album.
//!
//! The crate decides; it does no input or output. Given the link to an
//! album, a [`run::Run`] says which request is to be sent next and which
//! transfer may start, and is told what came back. All that it decides is
//! stated in contracts and proved:
//!
//! - [`link`]: the album's identifier in the link, and the addresses of the
//!   service's endpoints;
//! - [`album`], [`assets`]: what the service's answers hold;
//! - [`select`]: which rendition of a photo is downloaded;
//! - [`filename`]: the name of the file that a photo is saved under;
//! - [`plan`]: the download task for one photo;
//! - [`batch`]: resolving download locations, 25 photos per request;
//! - [`schedule`]: letting at most a fixed number of transfers run at a time,
//!   and counting how they end;
//! - [`reply`]: when a reply counts as an answer;
//! - [`run`]: the stages of a run, from the link to the final count.
//!
//! [`text_map`], [`number`] and [`text`] are the helpers that these rest on.

pub mod album;
pub mod assets;
pub mod batch;
pub mod error;
pub mod filename;
pub mod link;
pub mod number;
pub mod plan;
pub mod reply;
pub mod run;
pub mod schedule;
pub mod select;
pub mod text;
pub mod text_map;
