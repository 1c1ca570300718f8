//! What the service answers when asked where photos can be downloaded.

use vstd::prelude::*;
use crate::album::text_of;
use crate::text_map::TextMap;

verus! {

/// A place from which assets are served.
#[derive(Debug)]
pub struct AssetLocation {
    /// The scheme of the download address, such as `https`.
    pub scheme: String,
    /// The hosts that serve the assets, in order of preference.
    pub hosts: Vec<String>,
}

/// What an [`AssetLocation`] holds.
pub struct LocationView {
    pub scheme: Seq<char>,
    pub hosts: Seq<Seq<char>>,
}

impl View for AssetLocation {
    type V = LocationView;

    open spec fn view(&self) -> LocationView {
        LocationView { scheme: self.scheme@, hosts: self.hosts.deep_view() }
    }
}

/// Where the content with one checksum can be downloaded, for a limited time.
#[derive(Debug)]
pub struct ResolvedAsset {
    pub url_expiry: Option<String>,
    /// Names the location, among those of the same answer, that serves the asset.
    pub url_location: String,
    /// The path of the asset at that location.
    pub url_path: String,
}

/// What a [`ResolvedAsset`] holds.
pub struct AssetView {
    pub url_expiry: Option<Seq<char>>,
    pub url_location: Seq<char>,
    pub url_path: Seq<char>,
}

impl View for ResolvedAsset {
    type V = AssetView;

    open spec fn view(&self) -> AssetView {
        AssetView {
            url_expiry: text_of(self.url_expiry),
            url_location: self.url_location@,
            url_path: self.url_path@,
        }
    }
}

/// The answer to one request for download locations. Its locations belong
/// to this answer alone.
#[derive(Debug)]
pub struct BatchResponse {
    /// The locations by the name that assets refer to them by.
    pub locations: TextMap<AssetLocation>,
    /// The assets by checksum.
    pub items: TextMap<ResolvedAsset>,
}

/// What a [`BatchResponse`] holds.
pub struct BatchView {
    pub locations: Seq<(Seq<char>, LocationView)>,
    pub items: Seq<(Seq<char>, AssetView)>,
}

impl View for BatchResponse {
    type V = BatchView;

    open spec fn view(&self) -> BatchView {
        BatchView { locations: self.locations@, items: self.items@ }
    }
}

/// One photo that is ready to be downloaded.
#[derive(Debug)]
pub struct DownloadTask {
    pub photo_guid: String,
    pub checksum: String,
    /// The full address to download from.
    pub download_url: String,
    /// The name of the file to save under, within the destination directory.
    pub filename: String,
    /// The dimensions of the rendition, for display.
    pub size_info: String,
}

/// What a [`DownloadTask`] holds.
pub struct TaskView {
    pub photo_guid: Seq<char>,
    pub checksum: Seq<char>,
    pub download_url: Seq<char>,
    pub filename: Seq<char>,
    pub size_info: Seq<char>,
}

impl View for DownloadTask {
    type V = TaskView;

    open spec fn view(&self) -> TaskView {
        TaskView {
            photo_guid: self.photo_guid@,
            checksum: self.checksum@,
            download_url: self.download_url@,
            filename: self.filename@,
            size_info: self.size_info@,
        }
    }
}

/// What a list of tasks holds, task by task.
pub open spec fn task_views(tasks: Seq<DownloadTask>) -> Seq<TaskView> {
    tasks.map_values(|t: DownloadTask| t@)
}

} // verus!
