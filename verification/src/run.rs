//! One run from the album link to the final count, as a sequence of steps.
//!
//! A [`Run`] does no input or output. It says what is to be done next, as an
//! [`Action`], and is told what came of it. Whoever drives it sends the
//! requests, carries out the transfers and writes the files.

use vstd::prelude::*;
use crate::album::{AlbumManifest, ManifestView};
use crate::assets::{BatchResponse, BatchView};
use crate::batch::{
    accepted_view, batch_of, guids_of, lemma_resolution_after_valid, resolution_after,
    resolution_start, BatchResolver, Resolution, ResolutionView, ResolverView,
};
use crate::error::AlbumError;
use crate::link::{
    extract_hash_from_url, token_in, webasseturls_url, webasseturls_url_of, webstream_url,
    webstream_url_of, AlbumIdentifier,
};
use crate::reply::{manifest_from_reply, Reply};
use crate::schedule::{
    lemma_ended_valid, lemma_never_stalls, lemma_next_unique, lemma_start_valid,
    lemma_started_valid, DownloadReport, DownloadScheduler, SchedulerView, TransferOutcome,
};

verus! {

#[derive(Debug)]
enum Stage {
    Fetching { album: AlbumIdentifier, capacity: usize },
    Resolving { album: AlbumIdentifier, capacity: usize, resolver: BatchResolver },
    Downloading { scheduler: DownloadScheduler },
    Finished { report: DownloadReport },
    Failed { error: AlbumError },
}

/// One run, from the album link to the final count.
#[derive(Debug)]
pub struct Run {
    stage: Stage,
}

/// How far a run has come.
pub enum RunView {
    /// The album's manifest is to be fetched.
    Fetching { album: Seq<char>, capacity: nat },
    /// Download locations are being resolved, batch by batch.
    Resolving { album: Seq<char>, capacity: nat, resolver: ResolverView },
    /// Photos are being transferred.
    Downloading { scheduler: SchedulerView },
    /// The run is over without any transfer.
    Finished { report: DownloadReport },
    /// The run was stopped by an error.
    Failed { error: AlbumError },
}

impl View for Run {
    type V = RunView;

    closed spec fn view(&self) -> RunView {
        match self.stage {
            Stage::Fetching { album, capacity } => RunView::Fetching {
                album: album@,
                capacity: capacity as nat,
            },
            Stage::Resolving { album, capacity, resolver } => RunView::Resolving {
                album: album@,
                capacity: capacity as nat,
                resolver: resolver@,
            },
            Stage::Downloading { scheduler } => RunView::Downloading { scheduler: scheduler@ },
            Stage::Finished { report } => RunView::Finished { report },
            Stage::Failed { error } => RunView::Failed { error },
        }
    }
}

/// What is to be done next.
#[derive(Debug)]
pub enum Action {
    /// Ask the service for the album's manifest, then call
    /// [`Run::manifest_arrived`].
    FetchManifest { url: String },
    /// Ask the service where the named photos can be downloaded, then call
    /// [`Run::locations_arrived`].
    FetchLocations { url: String, photo_guids: Vec<String> },
    /// Start the transfer of the task at `index`; when it is over, call
    /// [`Run::transfer_ended`]. More transfers may be ready to start.
    Transfer { index: usize, download_url: String, filename: String },
    /// Nothing can start before a running transfer has ended.
    Wait,
    /// The run is over, with this result.
    Stop(Result<DownloadReport, AlbumError>),
}

/// What an [`Action`] holds.
pub enum ActionView {
    FetchManifest { url: Seq<char> },
    FetchLocations { url: Seq<char>, photo_guids: Seq<Seq<char>> },
    Transfer { index: nat, download_url: Seq<char>, filename: Seq<char> },
    Wait,
    Stop(Result<DownloadReport, AlbumError>),
}

impl View for Action {
    type V = ActionView;

    open spec fn view(&self) -> ActionView {
        match self {
            Action::FetchManifest { url } => ActionView::FetchManifest { url: url@ },
            Action::FetchLocations { url, photo_guids } => ActionView::FetchLocations {
                url: url@,
                photo_guids: photo_guids.deep_view(),
            },
            Action::Transfer { index, download_url, filename } => ActionView::Transfer {
                index: *index as nat,
                download_url: download_url@,
                filename: filename@,
            },
            Action::Wait => ActionView::Wait,
            Action::Stop(result) => ActionView::Stop(*result),
        }
    }
}

/// The report of a run in which nothing was transferred.
pub open spec fn empty_report() -> DownloadReport {
    DownloadReport { succeeded: 0, failed: 0 }
}

/// Where a run starts: with fetching the manifest of the album that the
/// link names, or, for a link that names none, at its end.
pub open spec fn run_start(link: Seq<char>, capacity: nat) -> RunView {
    match token_in(link) {
        Some(album) => RunView::Fetching { album, capacity },
        None => RunView::Failed { error: AlbumError::InvalidInput },
    }
}

/// The state of a run whose resolution stands at `resolution`: the next
/// batch is asked for, or the transfers begin, or the run has failed.
pub open spec fn run_with(resolution: ResolutionView, album: Seq<char>, capacity: nat) -> RunView {
    match resolution {
        ResolutionView::Pending(resolver) => RunView::Resolving { album, capacity, resolver },
        ResolutionView::Resolved(tasks) => RunView::Downloading {
            scheduler: SchedulerView::start(tasks, capacity),
        },
        ResolutionView::Failed(error) => RunView::Failed { error },
    }
}

/// The state after the reply to the request for the manifest. `accepted` is
/// what the reply delivered.
/// - A reply that delivered nothing stops the run.
/// - An album without photos ends it: nothing is resolved or transferred.
/// - Otherwise the resolution of download locations starts.
/// A run that is not waiting for the manifest stays as it is.
pub open spec fn after_manifest(state: RunView, accepted: Option<ManifestView>) -> RunView {
    match state {
        RunView::Fetching { album, capacity } => match accepted {
            None => RunView::Failed { error: AlbumError::MetadataFetchFailed },
            Some(manifest) => if manifest.photos.len() == 0 {
                RunView::Finished { report: empty_report() }
            } else {
                run_with(resolution_start(manifest.photos), album, capacity)
            },
        },
        _ => state,
    }
}

/// The state after the reply to a request for download locations. A run
/// that is not resolving stays as it is.
pub open spec fn after_locations(state: RunView, accepted: Option<BatchView>) -> RunView {
    match state {
        RunView::Resolving { album, capacity, resolver } => run_with(
            resolution_after(resolver, accepted),
            album,
            capacity,
        ),
        _ => state,
    }
}

/// The state after the transfer of the task at `index` has ended. Only a
/// transfer that is running can end; otherwise the run stays as it is.
pub open spec fn after_transfer(state: RunView, index: nat, outcome: TransferOutcome) -> RunView {
    match state {
        RunView::Downloading { scheduler } => RunView::Downloading {
            scheduler: scheduler.ended(index as int, outcome),
        },
        _ => state,
    }
}

/// The counts of a scheduler as a report.
pub open spec fn report_of(scheduler: SchedulerView) -> DownloadReport {
    DownloadReport {
        succeeded: scheduler.succeeded() as usize,
        failed: scheduler.failed() as usize,
    }
}

/// What a run in state `state` answers when it is asked what to do next.
/// - While the manifest or a batch is awaited, the answer is the request to
///   send.
/// - While photos are transferred and a transfer may start, the answer is to
///   start the first task that waits. Where none may start, the answer is to
///   wait, unless every transfer is over: then the run stops with the
///   report, which is an error where a transfer failed.
/// - A run that is over says how it ended.
pub open spec fn action_of(state: RunView) -> ActionView {
    match state {
        RunView::Fetching { album, capacity } => ActionView::FetchManifest {
            url: webstream_url_of(album),
        },
        RunView::Resolving { album, capacity, resolver } => ActionView::FetchLocations {
            url: webasseturls_url_of(album),
            photo_guids: guids_of(batch_of(resolver.photos, resolver.batches_done)),
        },
        RunView::Downloading { scheduler } => if scheduler.finished() {
            ActionView::Stop(report_of(scheduler).result())
        } else if scheduler.may_start() {
            ActionView::Transfer {
                index: scheduler.next_index() as nat,
                download_url: scheduler.tasks[scheduler.next_index()].download_url,
                filename: scheduler.tasks[scheduler.next_index()].filename,
            }
        } else {
            ActionView::Wait
        },
        RunView::Finished { report } => ActionView::Stop(report.result()),
        RunView::Failed { error } => ActionView::Stop(Err(error)),
    }
}

/// The state of a run after it was asked what to do next: the task that it
/// said to start is running, and nothing else has changed.
pub open spec fn after_asking(state: RunView) -> RunView {
    match state {
        RunView::Downloading { scheduler } => RunView::Downloading {
            scheduler: scheduler.started(),
        },
        _ => state,
    }
}

/// What a reply to the request for the manifest delivered.
pub open spec fn manifest_view(reply: Reply<AlbumManifest>) -> Option<ManifestView> {
    match reply.accepted() {
        Some(manifest) => Some(manifest@),
        None => None,
    }
}

/// What can happen to a run.
pub enum RunEvent {
    /// It is asked what to do next.
    Asked,
    /// The reply to the request for the manifest arrives.
    Manifest(Option<ManifestView>),
    /// The reply to a request for download locations arrives.
    Locations(Option<BatchView>),
    /// The transfer of the task at `index` ends.
    TransferEnded { index: nat, outcome: TransferOutcome },
}

impl RunView {
    /// What holds of a run at all times: while photos are transferred, no
    /// more transfers run than the capacity allows; and a run is stopped only
    /// by an error that ends it at once, never by failed transfers.
    pub open spec fn valid(self) -> bool {
        match self {
            RunView::Downloading { scheduler } => scheduler.valid(),
            RunView::Failed { error } => error.is_fatal(),
            _ => true,
        }
    }

    /// The number of transfers that are running.
    pub open spec fn in_flight(self) -> nat {
        match self {
            RunView::Downloading { scheduler } => scheduler.in_flight(),
            _ => 0,
        }
    }

    /// The state after `event`.
    pub open spec fn after(self, event: RunEvent) -> RunView {
        match event {
            RunEvent::Asked => after_asking(self),
            RunEvent::Manifest(accepted) => after_manifest(self, accepted),
            RunEvent::Locations(accepted) => after_locations(self, accepted),
            RunEvent::TransferEnded { index, outcome } => after_transfer(self, index, outcome),
        }
    }

    /// The state after `events`, in order.
    pub open spec fn after_all(self, events: Seq<RunEvent>) -> RunView
        decreases events.len(),
    {
        if events.len() == 0 {
            self
        } else {
            self.after_all(events.drop_last()).after(events.last())
        }
    }
}

/// A run that enters a stage of the resolution, or the transfers after it,
/// is valid.
pub proof fn lemma_run_with_valid(resolution: ResolutionView, album: Seq<char>, capacity: nat)
    requires
        resolution.valid(),
    ensures
        run_with(resolution, album, capacity).valid(),
{
    if let ResolutionView::Resolved(tasks) = resolution {
        lemma_start_valid(tasks, capacity);
    }
}

/// Whatever happens to a valid run leaves it valid.
pub proof fn lemma_event_keeps_valid(state: RunView, event: RunEvent)
    requires
        state.valid(),
    ensures
        state.after(event).valid(),
{
    match state {
        RunView::Fetching { album, capacity } => {
            if let RunEvent::Manifest(Some(m)) = event {
                lemma_run_with_valid(resolution_start(m.photos), album, capacity);
            }
        },
        RunView::Resolving { album, capacity, resolver } => {
            if let RunEvent::Locations(accepted) = event {
                lemma_resolution_after_valid(resolver, accepted);
                lemma_run_with_valid(resolution_after(resolver, accepted), album, capacity);
            }
        },
        RunView::Downloading { scheduler } => {
            match event {
                RunEvent::Asked => {
                    lemma_started_valid(scheduler);
                },
                RunEvent::TransferEnded { index, outcome } => {
                    lemma_ended_valid(scheduler, index as int, outcome);
                },
                _ => {},
            }
        },
        _ => {},
    }
}

/// From the link to the end, whatever happens and in whatever order: a run
/// never has more transfers running than its capacity allows, and it is
/// stopped only by an error that ends it at once.
pub proof fn lemma_run_stays_valid(link: Seq<char>, capacity: nat, events: Seq<RunEvent>)
    ensures
        run_start(link, capacity).after_all(events).valid(),
        run_start(link, capacity).after_all(events).in_flight() <= capacity,
    decreases events.len(),
{
    if events.len() > 0 {
        lemma_run_stays_valid(link, capacity, events.drop_last());
        lemma_event_keeps_valid(
            run_start(link, capacity).after_all(events.drop_last()),
            events.last(),
        );
    }
    lemma_capacity_of_run(link, capacity, events);
}

/// The capacity of a run is the one that it started with.
proof fn lemma_capacity_of_run(link: Seq<char>, capacity: nat, events: Seq<RunEvent>)
    ensures
        match run_start(link, capacity).after_all(events) {
            RunView::Fetching { capacity: c, .. } => c == capacity,
            RunView::Resolving { capacity: c, .. } => c == capacity,
            RunView::Downloading { scheduler } => scheduler.capacity == capacity,
            _ => true,
        },
    decreases events.len(),
{
    if events.len() > 0 {
        lemma_capacity_of_run(link, capacity, events.drop_last());
    }
}

/// An album without photos ends the run at once: no download location is
/// asked for, nothing is transferred, and the report counts no success and
/// no failure.
pub proof fn lemma_empty_album_ends_run(album: Seq<char>, capacity: nat, manifest: ManifestView)
    requires
        manifest.photos.len() == 0,
    ensures
        after_manifest(RunView::Fetching { album, capacity }, Some(manifest)) == (RunView::Finished {
            report: empty_report(),
        }),
        action_of(RunView::Finished { report: empty_report() }) == ActionView::Stop(
            Ok(empty_report()),
        ),
        after_asking(RunView::Finished { report: empty_report() }) == (RunView::Finished {
            report: empty_report(),
        }),
{
}

/// Where at least one transfer may run at a time, a run is told to wait
/// only while a transfer is running.
pub proof fn lemma_wait_has_running(state: RunView)
    requires
        state.valid(),
        action_of(state) == ActionView::Wait,
        state matches RunView::Downloading { scheduler } && scheduler.capacity >= 1,
    ensures
        state.in_flight() >= 1,
{
    lemma_never_stalls(state->scheduler);
}

/// A run says to start a transfer only while fewer transfers run than its
/// capacity allows, and the transfer that it names is the first that waits.
pub proof fn lemma_transfer_within_capacity(state: RunView)
    requires
        state.valid(),
        action_of(state) is Transfer,
    ensures
        state is Downloading,
        state.in_flight() < state->scheduler.capacity,
        state->scheduler.is_next(action_of(state)->index as int),
        after_asking(state).in_flight() == state.in_flight() + 1,
{
    lemma_started_valid(state->scheduler);
}

impl Run {
    #[verifier::type_invariant]
    spec fn well_formed(&self) -> bool {
        self.stage matches Stage::Failed { error } ==> error.is_fatal()
    }

    /// What holds of a run at all times: while photos are transferred, no
    /// more transfers run than the capacity allows; and a run is stopped only
    /// by an error that ends it at once, never by failed transfers.
    pub open spec fn valid(self) -> bool {
        self@.valid()
    }

    fn with(resolution: Resolution, album: AlbumIdentifier, capacity: usize) -> (r: Run)
        requires
            resolution@.valid(),
        ensures
            r@ == run_with(resolution@, album@, capacity as nat),
            r.valid(),
    {
        match resolution {
            Resolution::Pending(resolver) => Run {
                stage: Stage::Resolving { album, capacity, resolver },
            },
            Resolution::Resolved(tasks) => Run {
                stage: Stage::Downloading { scheduler: DownloadScheduler::new(tasks, capacity) },
            },
            Resolution::Failed(error) => Run { stage: Stage::Failed { error } },
        }
    }

    /// The same run, known to be valid.
    fn validated(self) -> (r: Run)
        ensures
            r@ == self@,
            r.valid(),
    {
        proof {
            use_type_invariant(&self);
        }
        match self.stage {
            Stage::Downloading { scheduler } => {
                let _ = scheduler.len();
                Run { stage: Stage::Downloading { scheduler } }
            },
            other => Run { stage: other },
        }
    }

    /// Starts a run for the album that `link` names. At most `capacity`
    /// transfers will run at a time.
    pub fn start(link: &str, capacity: usize) -> (r: Run)
        ensures
            r@ == run_start(link@, capacity as nat),
            r.valid(),
    {
        match extract_hash_from_url(link) {
            Ok(album) => Run { stage: Stage::Fetching { album, capacity } },
            Err(error) => Run { stage: Stage::Failed { error } },
        }
    }

    /// The album of a run that has not yet come to its transfers or its end.
    pub fn album(&self) -> (r: Option<&AlbumIdentifier>)
        ensures
            match self@ {
                RunView::Fetching { album, .. } => r matches Some(id) && id@ == album,
                RunView::Resolving { album, .. } => r matches Some(id) && id@ == album,
                _ => r is None,
            },
    {
        match &self.stage {
            Stage::Fetching { album, .. } => Some(album),
            Stage::Resolving { album, .. } => Some(album),
            _ => None,
        }
    }

    /// The scheduler of a run that has come to its transfers.
    pub fn scheduler(&self) -> (r: Option<&DownloadScheduler>)
        ensures
            match self@ {
                RunView::Downloading { scheduler } => r matches Some(s) && s@ == scheduler,
                _ => r is None,
            },
    {
        match &self.stage {
            Stage::Downloading { scheduler } => Some(scheduler),
            _ => None,
        }
    }

    /// Takes the reply to the request for the manifest.
    pub fn manifest_arrived(self, reply: Reply<AlbumManifest>) -> (r: Run)
        ensures
            r@ == after_manifest(self@, manifest_view(reply)),
            r.valid(),
    {
        match self.stage {
            Stage::Fetching { album, capacity } => match manifest_from_reply(reply) {
                Err(error) => Run { stage: Stage::Failed { error } },
                Ok(manifest) => if manifest.photos.len() == 0 {
                    Run {
                        stage: Stage::Finished {
                            report: DownloadReport { succeeded: 0, failed: 0 },
                        },
                    }
                } else {
                    Run::with(BatchResolver::begin(manifest.photos), album, capacity)
                },
            },
            _ => self.validated(),
        }
    }

    /// Takes the reply to a request for download locations.
    pub fn locations_arrived(self, reply: Reply<BatchResponse>) -> (r: Run)
        ensures
            r@ == after_locations(self@, accepted_view(reply)),
            r.valid(),
    {
        match self.stage {
            Stage::Resolving { album, capacity, resolver } => Run::with(
                resolver.accept(reply),
                album,
                capacity,
            ),
            _ => self.validated(),
        }
    }

    /// Takes the news that the transfer of the task at `index` has ended.
    pub fn transfer_ended(self, index: usize, outcome: TransferOutcome) -> (r: Run)
        ensures
            r@ == after_transfer(self@, index as nat, outcome),
            r.valid(),
    {
        match self.stage {
            Stage::Downloading { mut scheduler } => {
                let _ = scheduler.complete(index, outcome);
                Run { stage: Stage::Downloading { scheduler } }
            },
            _ => self.validated(),
        }
    }

    /// Says what is to be done next.
    pub fn next_action(self) -> (r: (Run, Action))
        ensures
            r.0@ == after_asking(self@),
            r.1@ == action_of(self@),
            r.0.valid(),
    {
        proof {
            use_type_invariant(&self);
        }
        match self.stage {
            Stage::Fetching { album, capacity } => {
                let url = webstream_url(&album);
                (Run { stage: Stage::Fetching { album, capacity } }, Action::FetchManifest { url })
            },
            Stage::Resolving { album, capacity, resolver } => {
                let url = webasseturls_url(&album);
                let photo_guids = resolver.request();
                (
                    Run { stage: Stage::Resolving { album, capacity, resolver } },
                    Action::FetchLocations { url, photo_guids },
                )
            },
            Stage::Downloading { mut scheduler } => {
                if scheduler.is_finished() {
                    let result = scheduler.report().into_result();
                    (Run { stage: Stage::Downloading { scheduler } }, Action::Stop(result))
                } else {
                    let ghost before = scheduler@;
                    match scheduler.start_next() {
                        Some(index) => {
                            proof {
                                lemma_next_unique(before, index as int);
                            }
                            let task = scheduler.task_at(index);
                            let download_url = task.download_url.clone();
                            let filename = task.filename.clone();
                            (
                                Run { stage: Stage::Downloading { scheduler } },
                                Action::Transfer { index, download_url, filename },
                            )
                        },
                        None => (Run { stage: Stage::Downloading { scheduler } }, Action::Wait),
                    }
                }
            },
            Stage::Finished { report } => {
                let result = report.into_result();
                (Run { stage: Stage::Finished { report } }, Action::Stop(result))
            },
            Stage::Failed { error } => (
                Run { stage: Stage::Failed { error } },
                Action::Stop(Err(error)),
            ),
        }
    }
}

} // verus!
