//! Turning one photo and the service's answer into a download task.

use vstd::prelude::*;
use crate::album::{PhotoRecord, PhotoView, VariantView};
use crate::assets::{AssetView, BatchResponse, BatchView, DownloadTask, LocationView, TaskView};
use crate::error::AlbumError;
use crate::filename::{derive_filename, filename_for};
use crate::number::{append_decimal, decimal};
use crate::select::{select_variant, selected};
use crate::text_map::lookup;

verus! {

/// What stands between the scheme and the host of an address.
pub open spec fn scheme_separator() -> Seq<char> {
    seq![':', '/', '/']
}

/// The address of an asset: scheme, separator, host and path, with nothing
/// added or changed.
pub open spec fn download_url_of(scheme: Seq<char>, host: Seq<char>, path: Seq<char>) -> Seq<char> {
    scheme + scheme_separator() + host + path
}

/// A dimension as it is shown: its decimal form, or a question mark where it
/// is not known.
pub open spec fn dimension_text(dimension: Option<u32>) -> Seq<char> {
    match dimension {
        Some(n) => decimal(n as nat),
        None => seq!['?'],
    }
}

/// The dimensions of a rendition as they are shown: width, `x`, height.
pub open spec fn size_label_of(width: Option<u32>, height: Option<u32>) -> Seq<char> {
    dimension_text(width) + seq!['x'] + dimension_text(height)
}

/// The task for a photo whose chosen rendition is served from `location`.
pub open spec fn task_of(
    photo: PhotoView,
    variant: VariantView,
    asset: AssetView,
    location: LocationView,
) -> TaskView {
    TaskView {
        photo_guid: photo.photo_guid,
        checksum: variant.checksum,
        download_url: download_url_of(location.scheme, location.hosts[0], asset.url_path),
        filename: filename_for(asset.url_path, photo.photo_guid),
        size_info: size_label_of(variant.width, variant.height),
    }
}

/// What is to be done about one photo, given the answer for its batch:
/// - nothing, where the photo has no rendition or the answer has no asset
///   for the chosen rendition's checksum;
/// - otherwise a download, unless the asset names a location that the answer
///   does not describe or that has no host: then the answer is inconsistent.
pub open spec fn plan_photo(photo: PhotoView, response: BatchView) -> Result<
    Option<TaskView>,
    AlbumError,
> {
    match selected(photo.derivatives) {
        None => Ok(None),
        Some(variant) => match lookup(response.items, variant.checksum) {
            None => Ok(None),
            Some(asset) => match lookup(response.locations, asset.url_location) {
                None => Err(AlbumError::AssetResolutionInconsistent),
                Some(location) => if location.hosts.len() == 0 {
                    Err(AlbumError::AssetResolutionInconsistent)
                } else {
                    Ok(Some(task_of(photo, variant, asset, location)))
                },
            },
        },
    }
}

/// What an outcome of planning holds.
pub open spec fn plan_view(outcome: Result<Option<DownloadTask>, AlbumError>) -> Result<
    Option<TaskView>,
    AlbumError,
> {
    match outcome {
        Ok(Some(task)) => Ok(Some(task@)),
        Ok(None) => Ok(None),
        Err(e) => Err(e),
    }
}

/// Builds the address of an asset.
pub fn build_download_url(scheme: &str, host: &str, path: &str) -> (r: String)
    ensures
        r@ == download_url_of(scheme@, host@, path@),
{
    proof {
        reveal_strlit("://");
    }
    let mut url: String = scheme.to_owned();
    url.append("://");
    url.append(host);
    url.append(path);
    assert(url@ =~= download_url_of(scheme@, host@, path@));
    url
}

fn append_dimension(out: &mut String, dimension: Option<u32>)
    ensures
        final(out)@ == old(out)@ + dimension_text(dimension),
{
    match dimension {
        Some(n) => append_decimal(out, n as u64),
        None => {
            proof {
                reveal_strlit("?");
            }
            out.append("?");
            assert(out@ =~= old(out)@ + dimension_text(dimension));
        },
    }
}

/// Writes the dimensions of a rendition for display.
pub fn size_label(width: Option<u32>, height: Option<u32>) -> (r: String)
    ensures
        r@ == size_label_of(width, height),
{
    proof {
        reveal_strlit("x");
    }
    let mut label: String = String::new();
    append_dimension(&mut label, width);
    label.append("x");
    append_dimension(&mut label, height);
    assert(label@ =~= size_label_of(width, height));
    label
}

/// Decides what is to be done about `photo`, given the answer for its batch.
pub fn process_photo_for_download(photo: &PhotoRecord, assets_response: &BatchResponse) -> (r:
    Result<Option<DownloadTask>, AlbumError>)
    ensures
        plan_view(r) == plan_photo(photo@, assets_response@),
{
    let variant = match select_variant(&photo.derivatives) {
        Some(variant) => variant,
        None => {
            return Ok(None);
        },
    };
    let asset = match assets_response.items.get(variant.checksum.as_str()) {
        Some(asset) => asset,
        None => {
            return Ok(None);
        },
    };
    let location = match assets_response.locations.get(asset.url_location.as_str()) {
        Some(location) => location,
        None => {
            return Err(AlbumError::AssetResolutionInconsistent);
        },
    };
    if location.hosts.len() == 0 {
        return Err(AlbumError::AssetResolutionInconsistent);
    }
    let host: &String = &location.hosts[0];
    assert(host@ == location@.hosts[0]);
    let task = DownloadTask {
        photo_guid: photo.photo_guid.clone(),
        checksum: variant.checksum.clone(),
        download_url: build_download_url(
            location.scheme.as_str(),
            host.as_str(),
            asset.url_path.as_str(),
        ),
        filename: derive_filename(asset.url_path.as_str(), photo.photo_guid.as_str()),
        size_info: size_label(variant.width, variant.height),
    };
    Ok(Some(task))
}

} // verus!
