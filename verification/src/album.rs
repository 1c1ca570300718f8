//! The manifest of a shared album: its photos and their renditions.

use vstd::prelude::*;
use crate::number::{parse_u32, parse_u32_spec};
use crate::text_map::TextMap;

verus! {

/// The text of an optional text field.
pub open spec fn text_of(field: Option<String>) -> Option<Seq<char>> {
    match field {
        Some(s) => Some(s@),
        None => None,
    }
}

/// One rendition of a photo at a particular resolution.
#[derive(Debug)]
pub struct Variant {
    /// Identifies the rendition's content; download locations are keyed by it.
    pub checksum: String,
    /// The size in bytes, as the service wrote it.
    pub file_size: Option<String>,
    pub width: Option<u32>,
    pub height: Option<u32>,
}

/// What a [`Variant`] holds.
pub struct VariantView {
    pub checksum: Seq<char>,
    pub file_size: Option<Seq<char>>,
    pub width: Option<u32>,
    pub height: Option<u32>,
}

impl View for Variant {
    type V = VariantView;

    open spec fn view(&self) -> VariantView {
        VariantView {
            checksum: self.checksum@,
            file_size: text_of(self.file_size),
            width: self.width,
            height: self.height,
        }
    }
}

/// One photo of an album.
#[derive(Debug)]
pub struct PhotoRecord {
    pub photo_guid: String,
    pub batch_guid: Option<String>,
    pub date_created: Option<String>,
    pub caption: Option<String>,
    pub width: Option<u32>,
    pub height: Option<u32>,
    /// The photo's renditions by size label. A photo without any is skipped.
    pub derivatives: TextMap<Variant>,
}

/// What a [`PhotoRecord`] holds.
pub struct PhotoView {
    pub photo_guid: Seq<char>,
    pub batch_guid: Option<Seq<char>>,
    pub date_created: Option<Seq<char>>,
    pub caption: Option<Seq<char>>,
    pub width: Option<u32>,
    pub height: Option<u32>,
    pub derivatives: Seq<(Seq<char>, VariantView)>,
}

impl View for PhotoRecord {
    type V = PhotoView;

    open spec fn view(&self) -> PhotoView {
        PhotoView {
            photo_guid: self.photo_guid@,
            batch_guid: text_of(self.batch_guid),
            date_created: text_of(self.date_created),
            caption: text_of(self.caption),
            width: self.width,
            height: self.height,
            derivatives: self.derivatives@,
        }
    }
}

/// What a list of photos holds, photo by photo.
pub open spec fn photo_views(photos: Seq<PhotoRecord>) -> Seq<PhotoView> {
    photos.map_values(|p: PhotoRecord| p@)
}

/// The name shown for an album that carries none.
pub const UNNAMED_ALBUM: &'static str = "Unknown Album";

/// The metadata of an album and its photos in album order.
#[derive(Debug)]
pub struct AlbumManifest {
    pub stream_name: Option<String>,
    /// The continuation token that the service returned.
    pub stream_ctag: Option<String>,
    pub photos: Vec<PhotoRecord>,
}

/// What an [`AlbumManifest`] holds.
pub struct ManifestView {
    pub stream_name: Option<Seq<char>>,
    pub stream_ctag: Option<Seq<char>>,
    pub photos: Seq<PhotoView>,
}

impl View for AlbumManifest {
    type V = ManifestView;

    open spec fn view(&self) -> ManifestView {
        ManifestView {
            stream_name: text_of(self.stream_name),
            stream_ctag: text_of(self.stream_ctag),
            photos: photo_views(self.photos@),
        }
    }
}

impl AlbumManifest {
    /// The album's name, or a fixed placeholder where the album has none.
    pub fn display_name(&self) -> (r: String)
        ensures
            r@ == match self@.stream_name {
                Some(name) => name,
                None => UNNAMED_ALBUM@,
            },
    {
        match &self.stream_name {
            Some(name) => name.clone(),
            None => UNNAMED_ALBUM.to_owned(),
        }
    }

    /// The number of photos in the album.
    pub fn photo_count(&self) -> (r: usize)
        ensures
            r == self@.photos.len(),
    {
        self.photos.len()
    }
}

/// Reads a dimension that the service wrote as text. Text that spells no
/// unsigned 32-bit number counts as a missing dimension.
pub fn deserialize_optional_u32_from_string(field: Option<String>) -> (r: Option<u32>)
    ensures
        r == match field {
            Some(s) => parse_u32_spec(s@),
            None => None,
        },
{
    match field {
        Some(s) => parse_u32(s.as_str()),
        None => None,
    }
}

} // verus!
