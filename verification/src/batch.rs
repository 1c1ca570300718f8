//! Resolving download locations for a whole album, one batch of photos at a time.
//!
//! The service is asked about at most [`BATCH_SIZE`] photos per request. A
//! [`BatchResolver`] says which photos the next request names and takes the
//! reply to it; whoever drives it sends the requests, one after the other.

use vstd::prelude::*;
use crate::album::{photo_views, PhotoRecord, PhotoView};
use crate::assets::{task_views, BatchResponse, BatchView, DownloadTask, TaskView};
use crate::error::AlbumError;
use crate::plan::{plan_photo, process_photo_for_download};
use crate::reply::Reply;

verus! {

/// The largest number of photos that one request names.
pub const BATCH_SIZE: usize = 25;

/// The number of requests that an album of `n` photos takes: `n / 25`, rounded up.
pub open spec fn batch_count(n: nat) -> nat {
    (n + 24) / 25
}

/// The position of the first photo of batch `i`.
pub open spec fn batch_start(i: nat) -> nat {
    25 * i
}

/// The position after the last photo of batch `i` in an album of `n` photos.
pub open spec fn batch_end(n: nat, i: nat) -> nat {
    if 25 * i + 25 <= n {
        25 * i + 25
    } else {
        n
    }
}

/// Batch `i` of `items`: those at positions `25 * i` up to, but not
/// including, `25 * i + 25`, as far as there are any.
pub open spec fn batch_of<T>(items: Seq<T>, i: nat) -> Seq<T> {
    items.subrange(batch_start(i) as int, batch_end(items.len(), i) as int)
}

/// The identifiers of `photos`, in order.
pub open spec fn guids_of(photos: Seq<PhotoView>) -> Seq<Seq<char>> {
    photos.map_values(|p: PhotoView| p.photo_guid)
}

/// The tasks for `photos`, in order, given the answer for their batch. One
/// photo for which the answer is inconsistent fails them all.
pub open spec fn plan_photos(photos: Seq<PhotoView>, response: BatchView) -> Result<
    Seq<TaskView>,
    AlbumError,
>
    decreases photos.len(),
{
    if photos.len() == 0 {
        Ok(Seq::empty())
    } else {
        match plan_photos(photos.drop_last(), response) {
            Err(e) => Err(e),
            Ok(tasks) => match plan_photo(photos.last(), response) {
                Err(e) => Err(e),
                Ok(None) => Ok(tasks),
                Ok(Some(task)) => Ok(tasks.push(task)),
            },
        }
    }
}

/// The photos of a batch fail together exactly where the answer is
/// inconsistent for one of them, and in no other way.
pub proof fn lemma_plan_photos_outcome(photos: Seq<PhotoView>, response: BatchView)
    ensures
        plan_photos(photos, response) is Err <==> exists|i: int|
            0 <= i < photos.len() && (#[trigger] plan_photo(photos[i], response)) is Err,
        plan_photos(photos, response) matches Err(e) ==> e
            == AlbumError::AssetResolutionInconsistent,
        plan_photos(photos, response) matches Ok(tasks) ==> tasks.len() <= photos.len(),
    decreases photos.len(),
{
    if photos.len() > 0 {
        let head = photos.drop_last();
        lemma_plan_photos_outcome(head, response);
        if plan_photos(head, response) is Err {
            let i = choose|i: int|
                0 <= i < head.len() && (#[trigger] plan_photo(head[i], response)) is Err;
            assert(plan_photo(photos[i], response) is Err);
        } else if plan_photo(photos.last(), response) is Err {
            assert(plan_photo(photos[photos.len() - 1], response) is Err);
        } else {
            assert forall|i: int| 0 <= i < photos.len() implies !((#[trigger] plan_photo(
                photos[i],
                response,
            )) is Err) by {
                if i < head.len() {
                    assert(plan_photo(head[i], response) == plan_photo(photos[i], response));
                }
            }
        }
    }
}

/// A failure among the first photos of a batch is the failure of the batch.
pub proof fn lemma_plan_photos_fails(photos: Seq<PhotoView>, response: BatchView, k: int)
    requires
        0 <= k <= photos.len(),
        plan_photos(photos.take(k), response) is Err,
    ensures
        plan_photos(photos, response) == plan_photos(photos.take(k), response),
    decreases photos.len() - k,
{
    if k == photos.len() {
        assert(photos.take(k) == photos);
    } else {
        assert(photos.take(k + 1).drop_last() == photos.take(k));
        lemma_plan_photos_fails(photos, response, k + 1);
    }
}

/// What a [`BatchResolver`] holds.
pub struct ResolverView {
    /// The photos of the album, in album order.
    pub photos: Seq<PhotoView>,
    /// The number of batches that have been answered.
    pub batches_done: nat,
    /// The tasks for the photos of those batches, in album order.
    pub tasks: Seq<TaskView>,
}

/// How far the resolution of an album has come.
#[derive(Debug)]
pub enum Resolution {
    /// A request is to be sent; the resolver says which.
    Pending(BatchResolver),
    /// Every batch has been answered. The tasks are in album order.
    Resolved(Vec<DownloadTask>),
    /// The resolution failed, and with it every batch answered before.
    Failed(AlbumError),
}

/// What a [`Resolution`] holds.
pub enum ResolutionView {
    Pending(ResolverView),
    Resolved(Seq<TaskView>),
    Failed(AlbumError),
}

impl ResolutionView {
    /// What holds of a resolution at all times: it fails only with an error
    /// that ends the run.
    pub open spec fn valid(self) -> bool {
        self matches ResolutionView::Failed(e) ==> e.is_fatal()
    }
}

impl View for Resolution {
    type V = ResolutionView;

    open spec fn view(&self) -> ResolutionView {
        match self {
            Resolution::Pending(resolver) => ResolutionView::Pending(resolver@),
            Resolution::Resolved(tasks) => ResolutionView::Resolved(task_views(tasks@)),
            Resolution::Failed(e) => ResolutionView::Failed(*e),
        }
    }
}

/// Where the resolution starts: with the first batch, or, for an album
/// without photos, at its end.
pub open spec fn resolution_start(photos: Seq<PhotoView>) -> ResolutionView {
    if photos.len() == 0 {
        ResolutionView::Resolved(Seq::empty())
    } else {
        ResolutionView::Pending(ResolverView { photos, batches_done: 0, tasks: Seq::empty() })
    }
}

/// Where the resolution stands after the reply to the pending request.
/// `accepted` is what the reply delivered.
/// - A reply that delivered nothing fails the resolution.
/// - So does an answer that is inconsistent for a photo of the batch.
/// - Otherwise the tasks of the batch follow those already there, and the
///   next batch is pending, or none where this was the last.
pub open spec fn resolution_after(state: ResolverView, accepted: Option<BatchView>) -> ResolutionView {
    match accepted {
        None => ResolutionView::Failed(AlbumError::BatchFetchFailed),
        Some(response) => match plan_photos(
            batch_of(state.photos, state.batches_done),
            response,
        ) {
            Err(e) => ResolutionView::Failed(e),
            Ok(fresh) => if state.batches_done + 1 >= batch_count(state.photos.len()) {
                ResolutionView::Resolved(state.tasks + fresh)
            } else {
                ResolutionView::Pending(
                    ResolverView {
                        photos: state.photos,
                        batches_done: state.batches_done + 1,
                        tasks: state.tasks + fresh,
                    },
                )
            },
        },
    }
}

/// The state that the replies `replies`, taken in order, lead to from
/// `start`. A resolution that is over takes no further reply.
pub open spec fn resolution_run(start: ResolutionView, replies: Seq<Option<BatchView>>) -> ResolutionView
    decreases replies.len(),
{
    if replies.len() == 0 {
        start
    } else {
        match resolution_run(start, replies.drop_last()) {
            ResolutionView::Pending(state) => resolution_after(state, replies.last()),
            over => over,
        }
    }
}

/// Whether reply `i` delivered an answer that is consistent for every photo
/// of batch `i` of `photos`.
pub open spec fn answers_batch(
    photos: Seq<PhotoView>,
    replies: Seq<Option<BatchView>>,
    i: int,
) -> bool {
    &&& replies[i] matches Some(response)
    &&& plan_photos(batch_of(photos, i as nat), response) is Ok
}

/// The tasks of the first `k` batches of `photos`, each batch planned with
/// its own reply, in album order.
pub open spec fn tasks_through(
    photos: Seq<PhotoView>,
    replies: Seq<Option<BatchView>>,
    k: nat,
) -> Seq<TaskView>
    decreases k,
{
    if k == 0 {
        Seq::empty()
    } else {
        tasks_through(photos, replies, (k - 1) as nat) + plan_photos(
            batch_of(photos, (k - 1) as nat),
            replies[k - 1]->0,
        )->Ok_0
    }
}

/// Each batch but the last holds 25 photos, the last holds the rest, and
/// none is empty. Batch `i` holds the photos at the positions from `25 * i`.
pub proof fn lemma_batch_positions<T>(items: Seq<T>, i: nat)
    requires
        i < batch_count(items.len()),
    ensures
        0 < batch_of(items, i).len() <= 25,
        i + 1 < batch_count(items.len()) ==> batch_of(items, i).len() == 25,
        i + 1 == batch_count(items.len()) ==> batch_of(items, i).len() == items.len() - 25 * i,
        forall|k: int|
            0 <= k < batch_of(items, i).len() ==> batch_of(items, i)[k] == items[25 * i + k],
{
}

/// An album of `n` photos takes exactly `n / 25` requests, rounded up, one
/// after the other. While fewer good replies than that have arrived, the
/// request for the batch that follows them is pending; with the last one the
/// resolution is over, and its tasks are those of all batches in album order.
pub proof fn lemma_request_count(photos: Seq<PhotoView>, replies: Seq<Option<BatchView>>)
    requires
        replies.len() <= batch_count(photos.len()),
        forall|i: int| 0 <= i < replies.len() ==> answers_batch(photos, replies, i),
    ensures
        match resolution_run(resolution_start(photos), replies) {
            ResolutionView::Pending(state) => {
                &&& replies.len() < batch_count(photos.len())
                &&& state.photos == photos
                &&& state.batches_done == replies.len()
                &&& state.tasks == tasks_through(photos, replies, replies.len())
            },
            ResolutionView::Resolved(tasks) => {
                &&& replies.len() == batch_count(photos.len())
                &&& tasks == tasks_through(photos, replies, replies.len())
            },
            ResolutionView::Failed(_) => false,
        },
    decreases replies.len(),
{
    if replies.len() > 0 {
        let earlier = replies.drop_last();
        let k = earlier.len();
        assert forall|i: int| 0 <= i < earlier.len() implies answers_batch(photos, earlier, i) by {
            assert(answers_batch(photos, replies, i));
        }
        lemma_request_count(photos, earlier);
        lemma_tasks_through_prefix(photos, replies, k);
        assert(answers_batch(photos, replies, k as int));
    }
}

/// The tasks of the first batches do not depend on later replies.
pub proof fn lemma_tasks_through_prefix(
    photos: Seq<PhotoView>,
    replies: Seq<Option<BatchView>>,
    k: nat,
)
    requires
        k < replies.len(),
    ensures
        tasks_through(photos, replies.drop_last(), k) == tasks_through(photos, replies, k),
    decreases k,
{
    if k > 0 {
        lemma_tasks_through_prefix(photos, replies, (k - 1) as nat);
    }
}

/// A resolution fails only because a batch could not be fetched or its
/// answer is inconsistent.
pub proof fn lemma_resolution_after_valid(state: ResolverView, accepted: Option<BatchView>)
    ensures
        resolution_after(state, accepted).valid(),
        resolution_after(state, accepted) matches ResolutionView::Failed(e) ==> e
            == AlbumError::BatchFetchFailed || e == AlbumError::AssetResolutionInconsistent,
{
    if let Some(response) = accepted {
        lemma_plan_photos_outcome(batch_of(state.photos, state.batches_done), response);
    }
}

/// What a reply to a request for download locations delivered.
pub open spec fn accepted_view(reply: Reply<BatchResponse>) -> Option<BatchView> {
    match reply.accepted() {
        Some(response) => Some(response@),
        None => None,
    }
}

/// The state of a resolution that has a request pending.
#[derive(Debug)]
pub struct BatchResolver {
    photos: Vec<PhotoRecord>,
    batches_done: usize,
    tasks: Vec<DownloadTask>,
}

impl View for BatchResolver {
    type V = ResolverView;

    closed spec fn view(&self) -> ResolverView {
        ResolverView {
            photos: photo_views(self.photos@),
            batches_done: self.batches_done as nat,
            tasks: task_views(self.tasks@),
        }
    }
}

/// Where the batch that follows `batches_done` batches lies in an album of
/// `n` photos.
fn batch_range(n: usize, batches_done: usize) -> (r: (usize, usize))
    requires
        batches_done * 25 < n,
    ensures
        r.0 == batch_start(batches_done as nat),
        r.1 == batch_end(n as nat, batches_done as nat),
        r.0 < r.1 <= n,
{
    let start: usize = batches_done * BATCH_SIZE;
    let end: usize = if n - start > BATCH_SIZE {
        start + BATCH_SIZE
    } else {
        n
    };
    (start, end)
}

impl BatchResolver {
    #[verifier::type_invariant]
    spec fn well_formed(&self) -> bool {
        self.batches_done * 25 < self.photos@.len()
    }

    /// Starts the resolution of `photos`.
    pub fn begin(photos: Vec<PhotoRecord>) -> (r: Resolution)
        ensures
            r@ == resolution_start(photo_views(photos@)),
            r@.valid(),
    {
        let tasks: Vec<DownloadTask> = Vec::new();
        assert(task_views(tasks@) =~= Seq::empty());
        if photos.len() == 0 {
            Resolution::Resolved(tasks)
        } else {
            Resolution::Pending(BatchResolver { photos, batches_done: 0, tasks })
        }
    }

    /// The identifiers that the pending request names: those of the photos
    /// of the batch that is next, in album order.
    pub fn request(&self) -> (r: Vec<String>)
        ensures
            self@.batches_done < batch_count(self@.photos.len()),
            r.deep_view() == guids_of(batch_of(self@.photos, self@.batches_done)),
            0 < r@.len() <= BATCH_SIZE,
    {
        proof {
            use_type_invariant(self);
        }
        let (start, end) = batch_range(self.photos.len(), self.batches_done);
        let ghost batch = batch_of(self@.photos, self@.batches_done);
        let mut guids: Vec<String> = Vec::new();
        let mut i: usize = start;
        while i < end
            invariant
                start <= i <= end <= self.photos@.len(),
                batch == photo_views(self.photos@).subrange(start as int, end as int),
                guids.deep_view() == guids_of(batch.take(i - start)),
            decreases end - i,
        {
            let ghost before = guids.deep_view();
            guids.push(self.photos[i].photo_guid.clone());
            proof {
                let k: int = i - start;
                assert(guids.deep_view() =~= before.push(batch[k].photo_guid));
                assert(batch.take(k + 1) =~= batch.take(k).push(batch[k]));
            }
            i += 1;
        }
        assert(batch.take(end - start) == batch);
        guids
    }

    /// Takes the reply to the pending request.
    #[verifier::loop_isolation(false)]
    pub fn accept(self, reply: Reply<BatchResponse>) -> (r: Resolution)
        ensures
            r@ == resolution_after(self@, accepted_view(reply)),
            r@.valid(),
    {
        proof {
            use_type_invariant(&self);
            lemma_resolution_after_valid(self@, accepted_view(reply));
        }
        let response = match reply.into_body() {
            Some(response) => response,
            None => {
                return Resolution::Failed(AlbumError::BatchFetchFailed);
            },
        };
        let ghost state = self@;
        let BatchResolver { photos, batches_done, mut tasks } = self;
        let (start, end) = batch_range(photos.len(), batches_done);
        let ghost batch = batch_of(state.photos, state.batches_done);
        let ghost mut fresh: Seq<TaskView> = Seq::empty();
        assert(task_views(tasks@) =~= state.tasks + fresh);
        let mut i: usize = start;
        while i < end
            invariant
                start <= i <= end,
                plan_photos(batch.take(i - start), response@) == Ok::<Seq<TaskView>, AlbumError>(
                    fresh,
                ),
                task_views(tasks@) == state.tasks + fresh,
            decreases end - i,
        {
            let ghost k: int = i - start;
            assert(batch.take(k + 1).drop_last() == batch.take(k));
            match process_photo_for_download(&photos[i], &response) {
                Err(e) => {
                    proof {
                        lemma_plan_photos_fails(batch, response@, k + 1);
                    }
                    return Resolution::Failed(e);
                },
                Ok(None) => {},
                Ok(Some(task)) => {
                    let ghost earlier = task_views(tasks@);
                    proof {
                        fresh = fresh.push(task@);
                    }
                    tasks.push(task);
                    assert(task_views(tasks@) =~= earlier.push(task@));
                    assert(task_views(tasks@) =~= state.tasks + fresh);
                },
            }
            i += 1;
        }
        assert(batch.take(end - start) == batch);
        if end == photos.len() {
            Resolution::Resolved(tasks)
        } else {
            Resolution::Pending(BatchResolver { photos, batches_done: batches_done + 1, tasks })
        }
    }
}

} // verus!
