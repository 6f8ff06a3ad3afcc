use crate::buffer::BufferView;
use crate::error::ImflowError;
use crate::identity::ImageIdentity;
use vstd::prelude::*;

verus! {

/// How many images, from the current one on, are requested ahead.
pub const PRELOAD_NEXT_IMAGE_N: usize = 16;

/// Where an image stands in the store's full-resolution tier.
#[derive(Clone, Copy, Debug, PartialEq, Eq, Structural)]
pub enum LoadState {
    /// Neither cached nor asked for.
    Unrequested,
    /// A decode job was handed out and its result has not come in.
    InFlight,
    /// The full-resolution buffer is cached.
    Cached,
    /// The last decode job failed; the image may be asked for again.
    Failed,
}

/// The state of a store as plain values.
pub struct StoreState {
    /// The images, in the order in which they are browsed.
    pub catalog: Seq<ImageIdentity>,
    /// The position of the current image in the catalog.
    pub cursor: int,
    /// The full-resolution tier.
    pub full: Map<ImageIdentity, BufferView>,
    /// The thumbnail tier.
    pub thumbnails: Map<ImageIdentity, BufferView>,
    /// The images that are being decoded.
    pub in_flight: Set<ImageIdentity>,
    /// The images whose last decode failed.
    pub failed: Set<ImageIdentity>,
}

/// What came of one decode job.
pub type JobResult = Result<BufferView, ImflowError>;

impl StoreState {
    /// What holds of every store: the cursor points into the catalog, and
    /// an image is in at most one of the states in flight, cached, failed.
    pub open spec fn valid(self) -> bool {
        &&& 0 <= self.cursor < self.catalog.len()
        &&& forall|id: ImageIdentity| !#[trigger] self.in_two_states(id)
    }

    /// Whether `id` is in two of the states in flight, cached, failed.
    pub open spec fn in_two_states(self, id: ImageIdentity) -> bool {
        ||| self.in_flight.contains(id) && self.full.contains_key(id)
        ||| self.failed.contains(id) && self.full.contains_key(id)
        ||| self.failed.contains(id) && self.in_flight.contains(id)
    }

    /// The image that the cursor points at.
    pub open spec fn current(self) -> ImageIdentity {
        self.catalog[self.cursor]
    }

    /// Where `id` stands.
    pub open spec fn load_state(self, id: ImageIdentity) -> LoadState {
        if self.full.contains_key(id) {
            LoadState::Cached
        } else if self.in_flight.contains(id) {
            LoadState::InFlight
        } else if self.failed.contains(id) {
            LoadState::Failed
        } else {
            LoadState::Unrequested
        }
    }

    /// Whether a request for `id` hands out a decode job: it does unless
    /// the image is cached or one is in flight.
    pub open spec fn wants_load(self, id: ImageIdentity) -> bool {
        !self.full.contains_key(id) && !self.in_flight.contains(id)
    }

    /// The state after `id` was requested.
    pub open spec fn request_load(self, id: ImageIdentity) -> StoreState {
        if self.wants_load(id) {
            StoreState {
                in_flight: self.in_flight.insert(id),
                failed: self.failed.remove(id),
                ..self
            }
        } else {
            self
        }
    }

    /// The state after the catalog's images from `from` up to `to` were
    /// requested in turn.
    pub open spec fn request_run(self, from: int, to: int) -> StoreState
        decreases to - from,
    {
        if from >= to {
            self
        } else {
            self.request_run(from, to - 1).request_load(self.catalog[to - 1])
        }
    }

    /// The decode jobs that those requests hand out, in their order.
    pub open spec fn jobs_of_run(self, from: int, to: int) -> Seq<ImageIdentity>
        decreases to - from,
    {
        if from >= to {
            Seq::empty()
        } else if self.request_run(from, to - 1).wants_load(self.catalog[to - 1]) {
            self.jobs_of_run(from, to - 1).push(self.catalog[to - 1])
        } else {
            self.jobs_of_run(from, to - 1)
        }
    }

    /// Where a look-ahead of `n` images ends: at the catalog's end at the
    /// latest.
    pub open spec fn window_end(self, n: int) -> int {
        if self.cursor + n < self.catalog.len() {
            self.cursor + n
        } else {
            self.catalog.len() as int
        }
    }

    /// The state after the look-ahead of `n` images from the cursor on.
    pub open spec fn preload(self, n: int) -> StoreState {
        self.request_run(self.cursor, self.window_end(n))
    }

    /// The decode jobs that this look-ahead hands out.
    pub open spec fn preload_jobs(self, n: int) -> Seq<ImageIdentity> {
        self.jobs_of_run(self.cursor, self.window_end(n))
    }

    /// The cursor after a move by `change`, kept within the catalog.
    pub open spec fn moved_cursor(self, change: int) -> int {
        if self.cursor + change < 0 {
            0
        } else if self.cursor + change >= self.catalog.len() {
            self.catalog.len() - 1
        } else {
            self.cursor + change
        }
    }

    /// The state with the cursor moved by `change`.
    pub open spec fn moved(self, change: int) -> StoreState {
        StoreState { cursor: self.moved_cursor(change), ..self }
    }

    /// The state after a move by `change`: the new current image is
    /// requested, then the look-ahead from it on.
    pub open spec fn next_image(self, change: int) -> StoreState {
        let at = self.moved(change);
        at.request_load(at.current()).preload(PRELOAD_NEXT_IMAGE_N as int)
    }

    /// The decode jobs that this move hands out, in their order.
    pub open spec fn next_image_jobs(self, change: int) -> Seq<ImageIdentity> {
        let at = self.moved(change);
        let first = if at.wants_load(at.current()) {
            seq![at.current()]
        } else {
            Seq::empty()
        };
        first + at.request_load(at.current()).preload_jobs(PRELOAD_NEXT_IMAGE_N as int)
    }

    /// The state after the result of the job for `id` came in: a buffer is
    /// cached, a failure is noted unless the image is cached; either way
    /// the image is no longer in flight.
    pub open spec fn complete(self, id: ImageIdentity, result: JobResult) -> StoreState {
        match result {
            Ok(buffer) => StoreState {
                full: self.full.insert(id, buffer),
                in_flight: self.in_flight.remove(id),
                failed: self.failed.remove(id),
                ..self
            },
            Err(_) => StoreState {
                in_flight: self.in_flight.remove(id),
                failed: if self.full.contains_key(id) {
                    self.failed
                } else {
                    self.failed.insert(id)
                },
                ..self
            },
        }
    }

    /// The state after the results in `done` came in, in their order.
    pub open spec fn complete_all(self, done: Seq<(ImageIdentity, JobResult)>) -> StoreState
        decreases done.len(),
    {
        if done.len() == 0 {
            self
        } else {
            self.complete_all(done.drop_last()).complete(done.last().0, done.last().1)
        }
    }

    /// The buffer to show for the current image: its full-resolution
    /// buffer, else its thumbnail, else none.
    pub open spec fn shown(self) -> Option<BufferView> {
        if self.full.contains_key(self.current()) {
            Some(self.full[self.current()])
        } else if self.thumbnails.contains_key(self.current()) {
            Some(self.thumbnails[self.current()])
        } else {
            None
        }
    }

    /// The rating to show for the current image: that of its
    /// full-resolution buffer, else that of its thumbnail, else none.
    pub open spec fn current_rating(self) -> int {
        if self.full.contains_key(self.current()) {
            self.full[self.current()].rating
        } else if self.thumbnails.contains_key(self.current()) {
            self.thumbnails[self.current()].rating
        } else {
            0
        }
    }

    /// The state after the current image's rating was saved as `rating`:
    /// the buffers it has in either tier carry the new rating.
    pub open spec fn rated(self, rating: int) -> StoreState {
        let id = self.current();
        StoreState {
            full: if self.full.contains_key(id) {
                self.full.insert(id, self.full[id].rated(rating))
            } else {
                self.full
            },
            thumbnails: if self.thumbnails.contains_key(id) {
                self.thumbnails.insert(id, self.thumbnails[id].rated(rating))
            } else {
                self.thumbnails
            },
            ..self
        }
    }

    /// The state after a thumbnail for the current image was offered: it
    /// is kept unless the image has one.
    pub open spec fn with_thumbnail(self, offered: Option<BufferView>) -> StoreState {
        match offered {
            Some(buffer) if !self.thumbnails.contains_key(self.current()) => StoreState {
                thumbnails: self.thumbnails.insert(self.current(), buffer),
                ..self
            },
            _ => self,
        }
    }
}

/// Requests change neither the catalog, nor the cursor, nor what is
/// cached.
pub proof fn lemma_request_run_keeps(s: StoreState, from: int, to: int)
    ensures
        s.request_run(from, to).catalog == s.catalog,
        s.request_run(from, to).cursor == s.cursor,
        s.request_run(from, to).full == s.full,
        s.request_run(from, to).thumbnails == s.thumbnails,
    decreases to - from,
{
    if from < to {
        lemma_request_run_keeps(s, from, to - 1);
    }
}

/// Asking twice for an image before its job's result came in hands out one
/// job at most: whatever the state, the second request hands out none and
/// changes nothing; and where the image was neither cached nor in flight,
/// the first request hands out one.
pub proof fn lemma_request_load_once(s: StoreState, id: ImageIdentity)
    ensures
        !s.request_load(id).wants_load(id),
        s.request_load(id).request_load(id) == s.request_load(id),
        s.wants_load(id) ==> s.request_load(id).in_flight.contains(id),
        !s.wants_load(id) ==> s.request_load(id) == s,
{
}

/// While an image is in flight or cached, a look-ahead over any run of the
/// catalog hands out no job for it.
pub proof fn lemma_no_second_job(s: StoreState, id: ImageIdentity, from: int, to: int)
    requires
        !s.wants_load(id),
    ensures
        !s.request_run(from, to).wants_load(id),
        !s.jobs_of_run(from, to).contains(id),
    decreases to - from,
{
    if from < to {
        lemma_no_second_job(s, id, from, to - 1);
        let before = s.jobs_of_run(from, to - 1);
        let next = s.catalog[to - 1];
        if s.request_run(from, to - 1).wants_load(next) {
            assert(next != id);
            assert forall|i: int| 0 <= i < before.push(next).len() implies before.push(next)[i]
                != id by {
                if i < before.len() {
                    assert(before.contains(before[i]));
                }
            }
        }
    }
}

/// Every job that a run of requests hands out is for an image that is in
/// flight afterwards, and the run hands out no two jobs for one image.
pub proof fn lemma_jobs_of_run(s: StoreState, from: int, to: int)
    ensures
        forall|id: ImageIdentity| #[trigger]
            s.jobs_of_run(from, to).contains(id) ==> s.request_run(from, to).in_flight.contains(
                id,
            ),
        s.jobs_of_run(from, to).no_duplicates(),
    decreases to - from,
{
    if from < to {
        lemma_jobs_of_run(s, from, to - 1);
        let before = s.request_run(from, to - 1);
        let jobs = s.jobs_of_run(from, to - 1);
        let next = s.catalog[to - 1];
        if before.wants_load(next) {
            let all = jobs.push(next);
            assert forall|id: ImageIdentity| #[trigger] all.contains(id) implies before.request_load(
                next,
            ).in_flight.contains(id) by {
                let i = choose|i: int| 0 <= i < all.len() && all[i] == id;
                if i < jobs.len() {
                    assert(jobs.contains(jobs[i]));
                }
            }
            assert forall|i: int, j: int| 0 <= i < all.len() && 0 <= j < all.len() && i != j implies all[i]
                != all[j] by {
                if i < jobs.len() {
                    assert(jobs.contains(jobs[i]));
                }
                if j < jobs.len() {
                    assert(jobs.contains(jobs[j]));
                }
            }
        }
    }
}

/// While an image is in flight or cached, no move of the cursor hands out
/// a job for it: the jobs of the move do not hold it, and after the move it
/// still is in flight or cached.
pub proof fn lemma_move_hands_out_no_second_job(s: StoreState, id: ImageIdentity, change: int)
    requires
        !s.wants_load(id),
    ensures
        !s.next_image_jobs(change).contains(id),
        !s.next_image(change).wants_load(id),
{
    let at = s.moved(change);
    let asked = at.request_load(at.current());
    let end = asked.window_end(PRELOAD_NEXT_IMAGE_N as int);
    lemma_no_second_job(asked, id, asked.cursor, end);
    let first = if at.wants_load(at.current()) {
        seq![at.current()]
    } else {
        Seq::empty()
    };
    let rest = asked.preload_jobs(PRELOAD_NEXT_IMAGE_N as int);
    assert forall|i: int| 0 <= i < (first + rest).len() implies (first + rest)[i] != id by {
        if i >= first.len() {
            assert(rest.contains(rest[i - first.len()]));
        }
    }
}

/// How an image goes through the full-resolution tier: a request puts an
/// image that is neither cached nor in flight in flight, and changes
/// nothing else; a buffer that comes in makes it cached; a failure that
/// comes in makes it failed unless it is cached. Other images stay where
/// they stand.
pub proof fn lemma_load_states(
    s: StoreState,
    id: ImageIdentity,
    other: ImageIdentity,
    result: JobResult,
)
    requires
        s.valid(),
        other != id,
    ensures
        s.load_state(id) == LoadState::Unrequested || s.load_state(id) == LoadState::Failed
            ==> s.request_load(id).load_state(id) == LoadState::InFlight,
        s.load_state(id) == LoadState::InFlight || s.load_state(id) == LoadState::Cached
            ==> s.request_load(id) == s,
        result is Ok ==> s.complete(id, result).load_state(id) == LoadState::Cached,
        result is Err && s.load_state(id) != LoadState::Cached ==> s.complete(
            id,
            result,
        ).load_state(id) == LoadState::Failed,
        result is Err && s.load_state(id) == LoadState::Cached ==> s.complete(
            id,
            result,
        ).load_state(id) == LoadState::Cached,
        s.request_load(id).load_state(other) == s.load_state(other),
        s.complete(id, result).load_state(other) == s.load_state(other),
{
    assert(!s.in_two_states(id));
}

/// Results for two different images may come in in either order: the state
/// afterwards is the same.
pub proof fn lemma_results_in_any_order(
    s: StoreState,
    a: ImageIdentity,
    first: JobResult,
    b: ImageIdentity,
    second: JobResult,
)
    requires
        a != b,
    ensures
        s.complete(a, first).complete(b, second) == s.complete(b, second).complete(a, first),
{
    let one = s.complete(a, first).complete(b, second);
    let other = s.complete(b, second).complete(a, first);
    assert(one.full =~= other.full);
    assert(one.in_flight =~= other.in_flight);
    assert(one.failed =~= other.failed);
}

/// However far and in whichever direction the cursor is moved, it stays
/// within the catalog, and the catalog stays as it is.
pub proof fn lemma_cursor_stays_in_catalog(s: StoreState, change: int)
    requires
        s.valid(),
    ensures
        s.next_image(change).catalog == s.catalog,
        0 <= s.next_image(change).cursor < s.catalog.len(),
        s.next_image(change).cursor == s.moved_cursor(change),
        s.cursor + change < 0 ==> s.next_image(change).cursor == 0,
        s.cursor + change >= s.catalog.len() ==> s.next_image(change).cursor == s.catalog.len() - 1,
{
    let at = s.moved(change);
    let asked = at.request_load(at.current());
    lemma_request_run_keeps(asked, asked.cursor, asked.window_end(PRELOAD_NEXT_IMAGE_N as int));
}

/// Once a rating was saved for the current image, it is the rating shown,
/// with no decode in between: this holds where the image has a buffer in
/// one of the tiers.
pub proof fn lemma_rating_shown_after_set(s: StoreState, rating: int)
    requires
        s.valid(),
        s.full.contains_key(s.current()) || s.thumbnails.contains_key(s.current()),
    ensures
        s.rated(rating).current_rating() == rating,
        s.rated(rating).in_flight == s.in_flight,
        s.rated(rating).full.dom() =~= s.full.dom(),
        s.rated(rating).thumbnails.dom() =~= s.thumbnails.dom(),
{
}

/// Requests, results and moves keep a state valid.
pub proof fn lemma_steps_keep_valid(
    s: StoreState,
    id: ImageIdentity,
    result: JobResult,
    change: int,
)
    requires
        s.valid(),
    ensures
        s.request_load(id).valid(),
        s.complete(id, result).valid(),
        s.next_image(change).valid(),
{
    assert forall|k: ImageIdentity| !#[trigger] s.request_load(id).in_two_states(k) by {
        assert(!s.in_two_states(k));
    }
    assert forall|k: ImageIdentity| !#[trigger] s.complete(id, result).in_two_states(k) by {
        assert(!s.in_two_states(k));
    }
    let at = s.moved(change);
    assert forall|k: ImageIdentity| !#[trigger] at.in_two_states(k) by {
        assert(!s.in_two_states(k));
    }
    let asked = at.request_load(at.current());
    assert forall|k: ImageIdentity| !#[trigger] asked.in_two_states(k) by {
        assert(!at.in_two_states(k));
    }
    lemma_request_run_valid(asked, asked.cursor, asked.window_end(PRELOAD_NEXT_IMAGE_N as int));
}

/// A run of requests keeps a state valid.
pub proof fn lemma_request_run_valid(s: StoreState, from: int, to: int)
    requires
        s.valid(),
    ensures
        s.request_run(from, to).valid(),
    decreases to - from,
{
    if from < to {
        lemma_request_run_valid(s, from, to - 1);
        lemma_request_run_keeps(s, from, to - 1);
        let before = s.request_run(from, to - 1);
        let after = before.request_load(s.catalog[to - 1]);
        assert forall|k: ImageIdentity| !#[trigger] after.in_two_states(k) by {
            assert(!before.in_two_states(k));
        }
    }
}

} // verus!
