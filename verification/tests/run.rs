use shared_album::album::{AlbumManifest, PhotoRecord, Variant};
use shared_album::assets::{AssetLocation, BatchResponse, ResolvedAsset};
use shared_album::error::AlbumError;
use shared_album::reply::Reply;
use shared_album::run::{Action, Run};
use shared_album::schedule::{transfer_outcome, DownloadReport, TransferOutcome};
use shared_album::text_map::TextMap;

const LINK: &str = "https://www.icloud.com/sharedalbum/#B2T5oqs3q2VPkhS";

fn photo(guid: &str, renditions: &[(&str, &str)]) -> PhotoRecord {
    let mut derivatives = TextMap::new();
    for (label, checksum) in renditions {
        derivatives.insert(
            label.to_string(),
            Variant { checksum: checksum.to_string(), file_size: None, width: None, height: None },
        );
    }
    PhotoRecord {
        photo_guid: guid.to_string(),
        batch_guid: None,
        date_created: None,
        caption: None,
        width: None,
        height: None,
        derivatives,
    }
}

fn manifest(photos: Vec<PhotoRecord>) -> AlbumManifest {
    AlbumManifest { stream_name: Some("Album".to_string()), stream_ctag: None, photos }
}

fn answer(items: &[(&str, &str)]) -> BatchResponse {
    let mut locations = TextMap::new();
    locations.insert(
        "loc".to_string(),
        AssetLocation { scheme: "https".to_string(), hosts: vec!["content.example".to_string()] },
    );
    let mut map = TextMap::new();
    for (checksum, path) in items {
        map.insert(
            checksum.to_string(),
            ResolvedAsset {
                url_expiry: None,
                url_location: "loc".to_string(),
                url_path: path.to_string(),
            },
        );
    }
    BatchResponse { locations, items: map }
}

/// What a driven run did.
#[derive(Debug, Default)]
struct Log {
    manifest_requests: Vec<String>,
    location_requests: Vec<(String, Vec<String>)>,
    transfers: Vec<(usize, String, String)>,
    saved_files: Vec<String>,
    most_at_a_time: usize,
    /// The scheduler's counts at the end, where the run came to its transfers.
    counts: Option<DownloadReport>,
}

/// Drives a run against a service that answers from the given values. A transfer is
/// answered with status 404 where `refused` names its address, and with status 200 and
/// its content otherwise. Transfers end in the order in which they started.
fn drive(
    link: &str,
    capacity: usize,
    mut manifest_reply: Option<Reply<AlbumManifest>>,
    mut batch_replies: Vec<Reply<BatchResponse>>,
    refused: &[&str],
) -> (Result<DownloadReport, AlbumError>, Log) {
    let mut log = Log::default();
    let mut running: Vec<(usize, String, String)> = Vec::new();
    batch_replies.reverse();
    let mut run = Run::start(link, capacity);
    loop {
        let (next, action) = run.next_action();
        run = next;
        match action {
            Action::FetchManifest { url } => {
                log.manifest_requests.push(url);
                run = run.manifest_arrived(manifest_reply.take().expect("one manifest request"));
            }
            Action::FetchLocations { url, photo_guids } => {
                log.location_requests.push((url, photo_guids));
                run = run.locations_arrived(batch_replies.pop().expect("a reply for each batch"));
            }
            Action::Transfer { index, download_url, filename } => {
                log.transfers.push((index, download_url.clone(), filename.clone()));
                running.push((index, download_url, filename));
                log.most_at_a_time = std::cmp::max(log.most_at_a_time, running.len());
            }
            Action::Wait => {
                assert!(!running.is_empty(), "told to wait while nothing runs");
                let (index, url, filename) = running.remove(0);
                let reply = if refused.contains(&url.as_str()) {
                    Reply::Answered { status: 404, body: None }
                } else {
                    log.saved_files.push(filename);
                    Reply::Answered { status: 200, body: Some(()) }
                };
                run = run.transfer_ended(index, transfer_outcome(reply));
            }
            Action::Stop(result) => {
                assert!(running.is_empty());
                log.counts = run.scheduler().map(|scheduler| scheduler.report());
                return (result, log);
            }
        }
    }
}

fn ok(body: BatchResponse) -> Reply<BatchResponse> {
    Reply::Answered { status: 200, body: Some(body) }
}

fn ok_manifest(photos: Vec<PhotoRecord>) -> Option<Reply<AlbumManifest>> {
    Some(Reply::Answered { status: 200, body: Some(manifest(photos)) })
}

#[test]
fn album_without_photos_ends_without_requests_or_transfers() {
    let (result, log) = drive(LINK, 5, ok_manifest(Vec::new()), Vec::new(), &[]);
    assert_eq!(result, Ok(DownloadReport { succeeded: 0, failed: 0 }));
    assert_eq!(log.counts, None);
    assert_eq!(log.manifest_requests.len(), 1);
    assert!(log.location_requests.is_empty());
    assert!(log.transfers.is_empty());
    assert!(log.saved_files.is_empty());
}

#[test]
fn three_photos_of_which_one_can_be_resolved() {
    let photos = vec![
        photo("no-renditions", &[]),
        photo("not-in-items", &[("2049", "missing")]),
        photo("resolvable", &[("342", "small"), ("2049", "large")]),
    ];
    let replies = vec![ok(answer(&[("large", "/S/x/IMG_0003.JPG?o=A"), ("small", "/S/y/s.JPG")]))];
    let (result, log) = drive(LINK, 5, ok_manifest(photos), replies, &[]);
    assert_eq!(result, Ok(DownloadReport { succeeded: 1, failed: 0 }));
    assert_eq!(log.counts, Some(DownloadReport { succeeded: 1, failed: 0 }));
    assert_eq!(log.location_requests.len(), 1);
    assert_eq!(
        log.location_requests[0].1,
        vec!["no-renditions".to_string(), "not-in-items".to_string(), "resolvable".to_string()]
    );
    assert_eq!(
        log.transfers,
        vec![(
            0,
            "https://content.example/S/x/IMG_0003.JPG?o=A".to_string(),
            "IMG_0003.JPG".to_string()
        )]
    );
    assert_eq!(log.saved_files, vec!["IMG_0003.JPG".to_string()]);
}

#[test]
fn transfer_that_is_refused_makes_a_partial_failure() {
    let photos = vec![photo("only", &[("2049", "large")])];
    let replies = vec![ok(answer(&[("large", "/S/x/IMG_0001.JPG")]))];
    let (result, log) = drive(
        LINK,
        5,
        ok_manifest(photos),
        replies,
        &["https://content.example/S/x/IMG_0001.JPG"],
    );
    assert_eq!(result, Err(AlbumError::PartialDownloadFailure(1)));
    assert_eq!(log.counts, Some(DownloadReport { succeeded: 0, failed: 1 }));
    assert_eq!(log.transfers.len(), 1);
    assert!(log.saved_files.is_empty());
}

#[test]
fn some_transfers_fail_and_the_others_are_saved() {
    let photos: Vec<PhotoRecord> = (0..7)
        .map(|k| photo(&format!("g{}", k), &[("100", &format!("c{}", k))]))
        .collect();
    let paths: Vec<(String, String)> =
        (0..7).map(|k| (format!("c{}", k), format!("/p/{}.jpg", k))).collect();
    let items: Vec<(&str, &str)> = paths.iter().map(|(c, p)| (c.as_str(), p.as_str())).collect();
    let (result, log) = drive(
        LINK,
        3,
        ok_manifest(photos),
        vec![ok(answer(&items))],
        &["https://content.example/p/2.jpg", "https://content.example/p/6.jpg"],
    );
    assert_eq!(result, Err(AlbumError::PartialDownloadFailure(2)));
    assert_eq!(log.counts, Some(DownloadReport { succeeded: 5, failed: 2 }));
    assert_eq!(log.saved_files, vec!["0.jpg", "1.jpg", "3.jpg", "4.jpg", "5.jpg"]);
    assert_eq!(log.most_at_a_time, 3);
}

#[test]
fn link_without_album_stops_the_run_before_any_request() {
    let (result, log) = drive("https://www.icloud.com/", 5, None, Vec::new(), &[]);
    assert_eq!(result, Err(AlbumError::InvalidInput));
    assert!(log.manifest_requests.is_empty());
    assert!(log.location_requests.is_empty());
    assert!(log.transfers.is_empty());
}

#[test]
fn requests_go_to_the_endpoints_of_the_album() {
    let photos = vec![photo("a", &[("1", "c")])];
    let (_, log) = drive(LINK, 1, ok_manifest(photos), vec![ok(answer(&[("c", "/f.jpg")]))], &[]);
    assert_eq!(
        log.manifest_requests,
        vec!["https://p153-sharedstreams.icloud.com/B2T5oqs3q2VPkhS/sharedstreams/webstream"]
    );
    assert_eq!(
        log.location_requests[0].0,
        "https://p153-sharedstreams.icloud.com/B2T5oqs3q2VPkhS/sharedstreams/webasseturls"
    );
}

#[test]
fn manifest_that_cannot_be_fetched_stops_the_run() {
    for reply in [
        Reply::Unreachable,
        Reply::Answered { status: 404, body: None },
        Reply::Answered { status: 200, body: None },
        Reply::Answered { status: 500, body: Some(manifest(vec![photo("a", &[("1", "c")])])) },
    ] {
        let (result, log) = drive(LINK, 5, Some(reply), Vec::new(), &[]);
        assert_eq!(result, Err(AlbumError::MetadataFetchFailed));
        assert!(log.location_requests.is_empty());
        assert!(log.transfers.is_empty());
    }
}

#[test]
fn batch_that_cannot_be_fetched_stops_the_run_before_any_transfer() {
    let photos: Vec<PhotoRecord> =
        (0..30).map(|k| photo(&format!("g{}", k), &[("100", "c")])).collect();
    let replies = vec![ok(answer(&[("c", "/f.jpg")])), Reply::Unreachable];
    let (result, log) = drive(LINK, 5, ok_manifest(photos), replies, &[]);
    assert_eq!(result, Err(AlbumError::BatchFetchFailed));
    assert_eq!(log.location_requests.len(), 2);
    assert!(log.transfers.is_empty());
}

#[test]
fn inconsistent_answer_stops_the_run_before_any_transfer() {
    let photos = vec![photo("a", &[("1", "c")]), photo("b", &[("1", "d")])];
    let mut response = answer(&[("c", "/c.jpg")]);
    response.items.insert(
        "d".to_string(),
        ResolvedAsset {
            url_expiry: None,
            url_location: "nowhere".to_string(),
            url_path: "/d.jpg".to_string(),
        },
    );
    let (result, log) = drive(LINK, 5, ok_manifest(photos), vec![ok(response)], &[]);
    assert_eq!(result, Err(AlbumError::AssetResolutionInconsistent));
    assert!(log.transfers.is_empty());
}

#[test]
fn photos_that_are_all_skipped_end_the_run_with_nothing_saved() {
    let photos = vec![photo("a", &[]), photo("b", &[("1", "gone")])];
    let (result, log) = drive(LINK, 5, ok_manifest(photos), vec![ok(answer(&[]))], &[]);
    assert_eq!(result, Ok(DownloadReport { succeeded: 0, failed: 0 }));
    assert_eq!(log.location_requests.len(), 1);
    assert!(log.transfers.is_empty());
}

#[test]
fn run_never_lets_more_transfers_run_than_the_capacity() {
    for capacity in [1usize, 2, 4, 9] {
        let photos: Vec<PhotoRecord> = (0..60)
            .map(|k| photo(&format!("g{}", k), &[("100", &format!("c{}", k))]))
            .collect();
        let paths: Vec<(String, String)> =
            (0..60).map(|k| (format!("c{}", k), format!("/p/{}.jpg", k))).collect();
        let items: Vec<(&str, &str)> =
            paths.iter().map(|(c, p)| (c.as_str(), p.as_str())).collect();
        let replies = vec![ok(answer(&items)), ok(answer(&items)), ok(answer(&items))];
        let (result, log) = drive(LINK, capacity, ok_manifest(photos), replies, &[]);
        assert_eq!(result, Ok(DownloadReport { succeeded: 60, failed: 0 }));
        assert_eq!(log.location_requests.len(), 3);
        assert_eq!(log.most_at_a_time, capacity);
        let order: Vec<usize> = log.transfers.iter().map(|t| t.0).collect();
        assert_eq!(order, (0..60).collect::<Vec<usize>>());
    }
}

#[test]
fn events_that_do_not_fit_the_stage_change_nothing() {
    let run = Run::start(LINK, 2);
    let run = run.transfer_ended(0, TransferOutcome::Saved);
    let run = run.locations_arrived(Reply::Unreachable);
    let (run, action) = run.next_action();
    assert!(matches!(action, Action::FetchManifest { .. }));
    let run = run.manifest_arrived(Reply::Unreachable);
    let run = run.manifest_arrived(Reply::Answered { status: 200, body: Some(manifest(vec![])) });
    let (_, action) = run.next_action();
    assert!(matches!(action, Action::Stop(Err(AlbumError::MetadataFetchFailed))));
}

#[test]
fn album_and_scheduler_can_be_read_at_their_stages() {
    let run = Run::start(LINK, 2);
    assert_eq!(run.album().unwrap().as_str(), "B2T5oqs3q2VPkhS");
    assert!(run.scheduler().is_none());
    let photos = vec![photo("a", &[("1", "c")]), photo("b", &[("1", "d")])];
    let run = run.manifest_arrived(Reply::Answered { status: 200, body: Some(manifest(photos)) });
    assert_eq!(run.album().unwrap().as_str(), "B2T5oqs3q2VPkhS");
    let run = run.locations_arrived(ok(answer(&[("c", "/c.jpg"), ("d", "/d.jpg")])));
    assert!(run.album().is_none());
    assert_eq!(run.scheduler().unwrap().len(), 2);
    assert_eq!(run.scheduler().unwrap().in_flight(), 0);
    let (run, action) = run.next_action();
    assert!(matches!(action, Action::Transfer { index: 0, .. }));
    assert_eq!(run.scheduler().unwrap().in_flight(), 1);
    let failed = Run::start("no link", 2);
    assert!(failed.album().is_none());
    assert!(failed.scheduler().is_none());
}

#[test]
fn a_run_that_is_over_keeps_saying_so() {
    let run = Run::start("nothing here", 2);
    let (run, first) = run.next_action();
    let (_, second) = run.next_action();
    assert!(matches!(first, Action::Stop(Err(AlbumError::InvalidInput))));
    assert!(matches!(second, Action::Stop(Err(AlbumError::InvalidInput))));
}
