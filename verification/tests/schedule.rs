use shared_album::assets::DownloadTask;
use shared_album::error::AlbumError;
use shared_album::reply::Reply;
use shared_album::schedule::{
    transfer_outcome, DownloadReport, DownloadScheduler, TransferOutcome,
};

fn task(index: usize) -> DownloadTask {
    DownloadTask {
        photo_guid: format!("guid-{}", index),
        checksum: format!("sum-{}", index),
        download_url: format!("https://host.example/IMG_{}.JPG", index),
        filename: format!("IMG_{}.JPG", index),
        size_info: "?x?".to_string(),
    }
}

fn tasks(n: usize) -> Vec<DownloadTask> {
    (0..n).map(task).collect()
}

/// Drives a scheduler to its end. Whenever nothing can start, the running transfer at
/// position `pick(round) % running` ends, as a failure where `fails(task)` says so.
/// Returns the largest number of transfers that ran at a time, the order in which tasks
/// started, and the report.
fn drive(
    n: usize,
    capacity: usize,
    pick: impl Fn(usize) -> usize,
    fails: impl Fn(usize) -> bool,
) -> (usize, Vec<usize>, DownloadReport) {
    let mut scheduler = DownloadScheduler::new(tasks(n), capacity);
    let mut running: Vec<usize> = Vec::new();
    let mut started: Vec<usize> = Vec::new();
    let mut high_water = 0;
    let mut round = 0;
    while !scheduler.is_finished() {
        while let Some(index) = scheduler.start_next() {
            running.push(index);
            started.push(index);
            assert_eq!(scheduler.in_flight(), running.len());
            high_water = std::cmp::max(high_water, running.len());
        }
        assert!(running.len() <= capacity);
        assert!(!running.is_empty(), "nothing runs and nothing can start");
        let index = running.remove(pick(round) % running.len());
        let outcome = if fails(index) { TransferOutcome::Failed } else { TransferOutcome::Saved };
        assert!(scheduler.complete(index, outcome));
        assert_eq!(scheduler.in_flight(), running.len());
        round += 1;
    }
    (high_water, started, scheduler.report())
}

#[test]
fn never_more_transfers_than_the_capacity() {
    for capacity in 1..=7 {
        for n in [0usize, 1, 2, 5, 6, 7, 8, 20] {
            let (high_water, _, report) = drive(n, capacity, |round| round * 7 + 3, |_| false);
            assert!(high_water <= capacity, "{} ran with capacity {}", high_water, capacity);
            assert_eq!(high_water, std::cmp::min(n, capacity));
            assert_eq!(report, DownloadReport { succeeded: n, failed: 0 });
        }
    }
}

#[test]
fn capacity_larger_than_the_number_of_tasks_is_harmless() {
    let (high_water, started, report) = drive(3, 100, |_| 0, |_| false);
    assert_eq!(high_water, 3);
    assert_eq!(started, vec![0, 1, 2]);
    assert_eq!(report, DownloadReport { succeeded: 3, failed: 0 });
    let (high_water, _, _) = drive(3, usize::MAX, |_| 0, |_| false);
    assert_eq!(high_water, 3);
}

#[test]
fn tasks_start_in_order() {
    for capacity in [1usize, 2, 5] {
        let (_, started, _) = drive(12, capacity, |round| round * 5 + 1, |_| false);
        assert_eq!(started, (0..12).collect::<Vec<usize>>());
    }
}

#[test]
fn every_task_is_counted_once_in_any_order_of_ending() {
    for capacity in [1usize, 3, 4, 10] {
        for stride in [0usize, 1, 2, 3, 5, 11] {
            let (_, _, report) =
                drive(17, capacity, |round| round * stride + stride, |index| index % 3 == 1);
            assert_eq!(report, DownloadReport { succeeded: 11, failed: 6 });
        }
    }
}

#[test]
fn failure_of_one_task_leaves_the_others_alone() {
    let (_, started, report) = drive(5, 2, |_| 0, |index| index == 0);
    assert_eq!(started, vec![0, 1, 2, 3, 4]);
    assert_eq!(report, DownloadReport { succeeded: 4, failed: 1 });
}

#[test]
fn one_at_a_time() {
    let mut scheduler = DownloadScheduler::new(tasks(3), 1);
    assert_eq!(scheduler.start_next(), Some(0));
    assert_eq!(scheduler.start_next(), None);
    assert_eq!(scheduler.in_flight(), 1);
    assert!(scheduler.complete(0, TransferOutcome::Saved));
    assert_eq!(scheduler.in_flight(), 0);
    assert_eq!(scheduler.start_next(), Some(1));
    assert_eq!(scheduler.start_next(), None);
    assert!(scheduler.complete(1, TransferOutcome::Failed));
    assert_eq!(scheduler.start_next(), Some(2));
    assert!(!scheduler.is_finished());
    assert!(scheduler.complete(2, TransferOutcome::Saved));
    assert!(scheduler.is_finished());
    assert_eq!(scheduler.start_next(), None);
    assert_eq!(scheduler.report(), DownloadReport { succeeded: 2, failed: 1 });
}

#[test]
fn only_a_running_transfer_can_end() {
    let mut scheduler = DownloadScheduler::new(tasks(3), 2);
    assert!(!scheduler.complete(0, TransferOutcome::Saved));
    assert!(!scheduler.complete(3, TransferOutcome::Saved));
    assert!(!scheduler.complete(usize::MAX, TransferOutcome::Failed));
    assert_eq!(scheduler.start_next(), Some(0));
    assert!(!scheduler.complete(1, TransferOutcome::Saved));
    assert!(scheduler.complete(0, TransferOutcome::Saved));
    assert!(!scheduler.complete(0, TransferOutcome::Saved));
    assert!(!scheduler.complete(0, TransferOutcome::Failed));
    assert_eq!(scheduler.report(), DownloadReport { succeeded: 1, failed: 0 });
    assert_eq!(scheduler.in_flight(), 0);
}

#[test]
fn no_task_starts_without_capacity() {
    let mut scheduler = DownloadScheduler::new(tasks(2), 0);
    assert_eq!(scheduler.start_next(), None);
    assert_eq!(scheduler.in_flight(), 0);
    assert!(!scheduler.is_finished());
    assert_eq!(scheduler.outcome(), None);
}

#[test]
fn scheduler_without_tasks_is_finished() {
    let mut scheduler = DownloadScheduler::new(Vec::new(), 5);
    assert!(scheduler.is_finished());
    assert_eq!(scheduler.len(), 0);
    assert_eq!(scheduler.start_next(), None);
    assert_eq!(scheduler.report(), DownloadReport { succeeded: 0, failed: 0 });
    assert_eq!(scheduler.outcome(), Some(Ok(DownloadReport { succeeded: 0, failed: 0 })));
}

#[test]
fn outcome_is_there_only_when_every_transfer_is_over() {
    let mut scheduler = DownloadScheduler::new(tasks(2), 2);
    assert_eq!(scheduler.outcome(), None);
    assert_eq!(scheduler.start_next(), Some(0));
    assert_eq!(scheduler.start_next(), Some(1));
    assert!(scheduler.complete(1, TransferOutcome::Saved));
    assert_eq!(scheduler.outcome(), None);
    assert!(scheduler.complete(0, TransferOutcome::Saved));
    assert_eq!(scheduler.outcome(), Some(Ok(DownloadReport { succeeded: 2, failed: 0 })));
}

#[test]
fn failures_make_the_outcome_a_partial_failure() {
    let mut scheduler = DownloadScheduler::new(tasks(3), 3);
    while scheduler.start_next().is_some() {}
    assert!(scheduler.complete(2, TransferOutcome::Failed));
    assert!(scheduler.complete(0, TransferOutcome::Saved));
    assert!(scheduler.complete(1, TransferOutcome::Failed));
    assert_eq!(scheduler.report(), DownloadReport { succeeded: 1, failed: 2 });
    assert_eq!(scheduler.outcome(), Some(Err(AlbumError::PartialDownloadFailure(2))));
}

#[test]
fn report_as_result() {
    let clean = DownloadReport { succeeded: 4, failed: 0 };
    assert_eq!(clean.into_result(), Ok(clean));
    let none = DownloadReport { succeeded: 0, failed: 0 };
    assert_eq!(none.into_result(), Ok(none));
    assert_eq!(
        DownloadReport { succeeded: 4, failed: 1 }.into_result(),
        Err(AlbumError::PartialDownloadFailure(1))
    );
    assert_eq!(
        DownloadReport { succeeded: 0, failed: 9 }.into_result(),
        Err(AlbumError::PartialDownloadFailure(9))
    );
}

#[test]
fn tasks_can_be_read_by_position() {
    let scheduler = DownloadScheduler::new(tasks(3), 1);
    assert_eq!(scheduler.len(), 3);
    assert_eq!(scheduler.task(0).unwrap().filename, "IMG_0.JPG");
    assert_eq!(scheduler.task(2).unwrap().download_url, "https://host.example/IMG_2.JPG");
    assert!(scheduler.task(3).is_none());
    assert_eq!(scheduler.task_at(1).photo_guid, "guid-1");
}

#[test]
fn transfer_with_saved_content_succeeds() {
    assert_eq!(
        transfer_outcome(Reply::Answered { status: 200, body: Some(()) }),
        TransferOutcome::Saved
    );
    assert_eq!(
        transfer_outcome(Reply::Answered { status: 206, body: Some(()) }),
        TransferOutcome::Saved
    );
}

#[test]
fn transfer_without_success_status_fails() {
    assert_eq!(
        transfer_outcome(Reply::Answered { status: 404, body: None }),
        TransferOutcome::Failed
    );
    assert_eq!(
        transfer_outcome(Reply::Answered { status: 500, body: Some(()) }),
        TransferOutcome::Failed
    );
    assert_eq!(
        transfer_outcome(Reply::Answered { status: 302, body: Some(()) }),
        TransferOutcome::Failed
    );
}

#[test]
fn transfer_whose_content_was_not_saved_fails() {
    assert_eq!(
        transfer_outcome(Reply::Answered { status: 200, body: None }),
        TransferOutcome::Failed
    );
}

#[test]
fn transfer_that_could_not_be_carried_out_fails() {
    assert_eq!(transfer_outcome(Reply::Unreachable), TransferOutcome::Failed);
}
