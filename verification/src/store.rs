use crate::buffer::{outcome, BufferView, ImflowImageBuffer};
use crate::cache::{stored, ImageCache, Slot};
use crate::identity_set::IdentitySet;
use crate::error::ImflowError;
use crate::identity::{identities, ImageData, ImageIdentity};
use crate::model::{
    lemma_request_run_keeps, JobResult, LoadState, StoreState, PRELOAD_NEXT_IMAGE_N,
};
use vstd::prelude::*;

verus! {

/// The result of one decode job, as it comes back from a worker.
pub struct Completion {
    pub image: ImageData,
    pub result: Result<ImflowImageBuffer, ImflowError>,
}

/// Results of decode jobs as plain values.
pub open spec fn completion_views(done: Seq<Completion>) -> Seq<(ImageIdentity, JobResult)> {
    done.map_values(|c: Completion| (c.image@, outcome(c.result)))
}

/// The state of a store that was just made: the cursor on the first image,
/// the thumbnails given, the first image's buffer if there is one, and
/// nothing in flight.
pub open spec fn initial_state(
    catalog: Seq<ImageIdentity>,
    thumbnails: Seq<Slot>,
    first: Option<BufferView>,
) -> StoreState {
    StoreState {
        catalog,
        cursor: 0,
        full: match first {
            Some(buffer) => Map::<ImageIdentity, BufferView>::empty().insert(catalog[0], buffer),
            None => Map::empty(),
        },
        thumbnails: stored(Map::empty(), thumbnails),
        in_flight: Set::empty(),
        failed: Set::empty(),
    }
}

/// The image store: the catalog with its cursor, the full-resolution and
/// thumbnail caches, and the record of which images are being decoded.
///
/// The store hands out decode jobs and takes their results; it runs none
/// itself. All of its state is changed by the one caller that owns it.
pub struct ImageStore {
    current_image_id: usize,
    loaded_images: ImageCache,
    loaded_images_thumbnails: ImageCache,
    available_images: Vec<ImageData>,
    current_image_path: ImageData,
    currently_loading: IdentitySet,
    failed: IdentitySet,
}

impl View for ImageStore {
    type V = StoreState;

    closed spec fn view(&self) -> StoreState {
        StoreState {
            catalog: identities(self.available_images@),
            cursor: self.current_image_id as int,
            full: self.loaded_images@,
            thumbnails: self.loaded_images_thumbnails@,
            in_flight: self.currently_loading@,
            failed: self.failed@,
        }
    }
}

impl ImageStore {
    /// The invariant of the store.
    pub closed spec fn wf(&self) -> bool {
        &&& self.loaded_images.wf()
        &&& self.loaded_images_thumbnails.wf()
        &&& self.currently_loading.wf()
        &&& self.failed.wf()
        &&& self@.valid()
        &&& self.current_image_path@ == self@.current()
    }

    /// A well-formed store has a valid state, so its cursor points into a
    /// catalog that is not empty.
    pub proof fn lemma_wf_valid(&self)
        requires
            self.wf(),
        ensures
            self@.valid(),
    {
    }

    /// The position of the current image in the catalog.
    pub fn current_image_id(&self) -> (at: usize)
        requires
            self.wf(),
        ensures
            at == self@.cursor,
            at < self@.catalog.len(),
    {
        self.current_image_id
    }

    /// The current image.
    pub fn current_image_path(&self) -> (image: &ImageData)
        requires
            self.wf(),
        ensures
            image@ == self@.current(),
    {
        &self.current_image_path
    }

    /// The catalog.
    pub fn available_images(&self) -> (images: &Vec<ImageData>)
        ensures
            identities(images@) == self@.catalog,
    {
        &self.available_images
    }

    /// Where `image` stands in the full-resolution tier.
    pub fn load_state(&self, image: &ImageData) -> (state: LoadState)
        requires
            self.wf(),
        ensures
            state == self@.load_state(image@),
    {
        if self.loaded_images.contains_key(image) {
            LoadState::Cached
        } else if self.currently_loading.contains(image) {
            LoadState::InFlight
        } else if self.failed.contains(image) {
            LoadState::Failed
        } else {
            LoadState::Unrequested
        }
    }

    /// Asks for the full-resolution buffer of `path`. Says whether a decode
    /// job for it is to be handed to a worker: that is so unless the image
    /// is cached or a job for it is in flight, in which cases nothing
    /// changes. The image counts as in flight from this call on.
    pub fn request_load(&mut self, path: ImageData) -> (submit: bool)
        requires
            old(self).wf(),
        ensures
            final(self).wf(),
            final(self)@ == old(self)@.request_load(path@),
            submit == old(self)@.wants_load(path@),
    {
        if self.loaded_images.contains_key(&path) || self.currently_loading.contains(&path) {
            return false;
        }
        self.failed.remove(&path);
        self.currently_loading.insert(path);
        proof {
            assert forall|id: ImageIdentity| !#[trigger] self@.in_two_states(id) by {
                assert(!old(self)@.in_two_states(id));
            }
        }
        true
    }

    /// Requests the `n` images from the current one on, as far as the
    /// catalog goes, and returns those for which a decode job is to be
    /// handed to a worker, in the catalog's order.
    pub fn preload_next_images(&mut self, n: usize) -> (jobs: Vec<ImageData>)
        requires
            old(self).wf(),
        ensures
            final(self).wf(),
            final(self)@ == old(self)@.preload(n as int),
            identities(jobs@) == old(self)@.preload_jobs(n as int),
            final(self)@.cursor == old(self)@.cursor,
            final(self)@.catalog == old(self)@.catalog,
            final(self)@.full == old(self)@.full,
    {
        let from: usize = self.current_image_id;
        let len: usize = self.available_images.len();
        let to: usize = if n < len - from {
            from + n
        } else {
            len
        };
        let ghost start = self@;
        let mut jobs: Vec<ImageData> = Vec::new();
        let mut i: usize = from;
        proof {
            assert(identities(jobs@) =~= start.jobs_of_run(from as int, from as int));
        }
        while i < to
            invariant
                from <= i <= to <= len,
                len == self.available_images@.len(),
                self@.catalog == start.catalog,
                start == old(self)@,
                start.cursor == from,
                self.wf(),
                self@ == start.request_run(from as int, i as int),
                identities(jobs@) == start.jobs_of_run(from as int, i as int),
            decreases to - i,
        {
            let image = self.available_images[i].clone();
            proof {
                assert(self@.catalog[i as int] == self.available_images@[i as int]@);
            }
            let ghost before = identities(jobs@);
            if self.request_load(image.clone()) {
                jobs.push(image);
                proof {
                    assert(identities(jobs@) =~= before.push(image@));
                }
            }
            i = i + 1;
        }
        proof {
            lemma_request_run_keeps(start, from as int, to as int);
        }
        jobs
    }

    /// Makes the store of a catalog, with the thumbnails that were made for
    /// its images and, if it could be decoded, the buffer of the first
    /// image. The cursor is on the first image, and the look-ahead from it
    /// is requested: the second value lists the images for which a decode
    /// job is to be handed to a worker. An empty catalog is refused.
    pub fn new(
        available_images: Vec<ImageData>,
        thumbnails: Vec<Slot>,
        first: Option<ImflowImageBuffer>,
    ) -> (r: Result<(ImageStore, Vec<ImageData>), ImflowError>)
        ensures
            available_images@.len() == 0 <==> r is Err,
            r is Err ==> r->Err_0 == ImflowError::EmptyCatalog,
            r is Ok ==> ({
                let start = initial_state(
                    identities(available_images@),
                    thumbnails@,
                    match first {
                        Some(buffer) => Some(buffer@),
                        None => None,
                    },
                );
                &&& r->Ok_0.0.wf()
                &&& r->Ok_0.0@ == start.preload(PRELOAD_NEXT_IMAGE_N as int)
                &&& identities(r->Ok_0.1@) == start.preload_jobs(PRELOAD_NEXT_IMAGE_N as int)
                &&& r->Ok_0.0@.cursor == 0
                &&& r->Ok_0.0@.catalog == identities(available_images@)
            }),
    {
        if available_images.len() == 0 {
            return Err(ImflowError::EmptyCatalog);
        }
        let current_image_path = available_images[0].clone();
        let mut loaded_images = ImageCache::new();
        match first {
            Some(buffer) => {
                loaded_images.insert(current_image_path.clone(), buffer);
            },
            None => {},
        }
        let mut store = ImageStore {
            current_image_id: 0,
            loaded_images,
            loaded_images_thumbnails: ImageCache::from_slots(thumbnails),
            available_images,
            current_image_path,
            currently_loading: IdentitySet::new(),
            failed: IdentitySet::new(),
        };
        proof {
            assert(store@.catalog[0] == store.available_images@[0]@);
        }
        let jobs = store.preload_next_images(PRELOAD_NEXT_IMAGE_N);
        Ok((store, jobs))
    }

    /// Takes in the results of decode jobs, in the order given: a buffer
    /// goes into the full-resolution cache, a failure is noted; either way
    /// the image is no longer in flight.
    pub fn check_loaded_images(&mut self, completions: Vec<Completion>)
        requires
            old(self).wf(),
        ensures
            final(self).wf(),
            final(self)@ == old(self)@.complete_all(completion_views(completions@)),
    {
        let ghost start = self@;
        let ghost all = completion_views(completions@);
        for completion in iter: completions
            invariant
                self.wf(),
                start == old(self)@,
                all == completion_views(iter.seq()),
                self@ == start.complete_all(all.take(iter.index() as int)),
        {
            proof {
                let i = iter.index() as int;
                assert(all.take(i + 1).drop_last() =~= all.take(i));
                assert(all[i] == (completion.image@, outcome(completion.result)));
            }
            let ghost before = self@;
            let Completion { image, result } = completion;
            match result {
                Ok(buffer) => {
                    self.currently_loading.remove(&image);
                    self.failed.remove(&image);
                    self.loaded_images.insert(image, buffer);
                },
                Err(_) => {
                    self.currently_loading.remove(&image);
                    if !self.loaded_images.contains_key(&image) {
                        self.failed.insert(image);
                    }
                },
            }
            proof {
                assert forall|id: ImageIdentity| !#[trigger] self@.in_two_states(id) by {
                    assert(!before.in_two_states(id));
                }
            }
        }
        proof {
            assert(all.take(all.len() as int) =~= all);
        }
    }

    /// Moves the cursor by `change`, stopping at either end of the catalog,
    /// requests the image it then points at and the look-ahead from it on,
    /// and returns the images for which a decode job is to be handed to a
    /// worker.
    pub fn next_image(&mut self, change: i32) -> (jobs: Vec<ImageData>)
        requires
            old(self).wf(),
        ensures
            final(self).wf(),
            final(self)@ == old(self)@.next_image(change as int),
            identities(jobs@) == old(self)@.next_image_jobs(change as int),
            final(self)@.catalog == old(self)@.catalog,
            final(self)@.cursor == old(self)@.moved_cursor(change as int),
            0 <= final(self)@.cursor < final(self)@.catalog.len(),
    {
        let len: usize = self.available_images.len();
        let cursor: usize = self.current_image_id;
        let target: usize = if change >= 0 {
            let forth: u64 = change as u64;
            if forth >= (len - cursor) as u64 {
                len - 1
            } else {
                cursor + forth as usize
            }
        } else {
            let back: u64 = (-(change as i64)) as u64;
            if back >= cursor as u64 {
                0
            } else {
                cursor - back as usize
            }
        };
        let new_path = self.available_images[target].clone();
        proof {
            assert(self@.catalog[target as int] == self.available_images@[target as int]@);
        }
        self.current_image_id = target;
        self.current_image_path = new_path.clone();
        let ghost at = self@;
        proof {
            assert(at == old(self)@.moved(change as int));
            assert forall|id: ImageIdentity| !#[trigger] at.in_two_states(id) by {
                assert(!old(self)@.in_two_states(id));
            }
        }
        let mut jobs: Vec<ImageData> = Vec::new();
        if self.request_load(new_path.clone()) {
            jobs.push(new_path);
        }
        let ghost first = identities(jobs@);
        assert(first =~= if at.wants_load(at.current()) {
            seq![at.current()]
        } else {
            Seq::empty()
        });
        let mut more = self.preload_next_images(PRELOAD_NEXT_IMAGE_N);
        let ghost rest = identities(more@);
        jobs.append(&mut more);
        proof {
            assert(identities(jobs@) =~= first + rest);
            let asked = at.request_load(at.current());
            lemma_request_run_keeps(
                asked,
                asked.cursor,
                asked.window_end(PRELOAD_NEXT_IMAGE_N as int),
            );
        }
        jobs
    }

    /// The full-resolution buffer of the current image, or none while it is
    /// not cached.
    pub fn get_current_image(&self) -> (r: Option<&ImflowImageBuffer>)
        requires
            self.wf(),
        ensures
            r is Some <==> self@.full.contains_key(self@.current()),
            r is Some ==> r->Some_0@ == self@.full[self@.current()],
    {
        self.loaded_images.get(&self.current_image_path)
    }

    /// The full-resolution buffer of `path`, or none while it is not
    /// cached.
    pub fn get_image(&self, path: &ImageData) -> (r: Option<&ImflowImageBuffer>)
        requires
            self.wf(),
        ensures
            r is Some <==> self@.full.contains_key(path@),
            r is Some ==> r->Some_0@ == self@.full[path@],
    {
        self.loaded_images.get(path)
    }

    /// Whether the current image has a thumbnail.
    pub fn has_thumbnail(&self) -> (r: bool)
        requires
            self.wf(),
        ensures
            r == self@.thumbnails.contains_key(self@.current()),
    {
        self.loaded_images_thumbnails.contains_key(&self.current_image_path)
    }

    /// Offers a thumbnail that was decoded for the current image: it is
    /// kept unless the image has one already.
    pub fn offer_thumbnail(&mut self, decoded: Option<ImflowImageBuffer>)
        requires
            old(self).wf(),
        ensures
            final(self).wf(),
            final(self)@ == old(self)@.with_thumbnail(
                match decoded {
                    Some(buffer) => Some(buffer@),
                    None => None,
                },
            ),
    {
        match decoded {
            Some(buffer) => {
                if !self.loaded_images_thumbnails.contains_key(&self.current_image_path) {
                    self.loaded_images_thumbnails.insert(self.current_image_path.clone(), buffer);
                }
            },
            None => {},
        }
        proof {
            assert forall|id: ImageIdentity| !#[trigger] self@.in_two_states(id) by {
                assert(!old(self)@.in_two_states(id));
            }
        }
    }

    /// The thumbnail of the current image, or none where it has none.
    pub fn get_thumbnail(&self) -> (r: Option<&ImflowImageBuffer>)
        requires
            self.wf(),
        ensures
            r is Some <==> self@.thumbnails.contains_key(self@.current()),
            r is Some ==> r->Some_0@ == self@.thumbnails[self@.current()],
    {
        self.loaded_images_thumbnails.get(&self.current_image_path)
    }

    /// The buffer to show for the current image: the full-resolution one
    /// if it is cached, else the thumbnail, else none.
    pub fn get_shown_image(&self) -> (r: Option<&ImflowImageBuffer>)
        requires
            self.wf(),
        ensures
            r is Some <==> self@.shown() is Some,
            r is Some ==> r->Some_0@ == self@.shown()->Some_0,
    {
        match self.loaded_images.get(&self.current_image_path) {
            Some(full) => Some(full),
            None => self.loaded_images_thumbnails.get(&self.current_image_path),
        }
    }

    /// The rating to show for the current image: that of its
    /// full-resolution buffer if it is cached, else that of its thumbnail,
    /// else none.
    pub fn get_current_rating(&self) -> (rating: i32)
        requires
            self.wf(),
        ensures
            rating == self@.current_rating(),
    {
        match self.loaded_images.get(&self.current_image_path) {
            Some(full) => full.rating,
            None => match self.loaded_images_thumbnails.get(&self.current_image_path) {
                Some(thumbnail) => thumbnail.rating,
                None => 0,
            },
        }
    }

    /// Records that the current image was rated `rating`. `saved` says what
    /// came of writing the rating to the file: after a failure nothing
    /// changes and the failure is handed back; after success the buffers
    /// that the image has in either tier carry the new rating.
    pub fn set_rating(&mut self, rating: i32, saved: Result<(), ImflowError>) -> (r: Result<
        (),
        ImflowError,
    >)
        requires
            old(self).wf(),
        ensures
            final(self).wf(),
            r == saved,
            r is Ok ==> final(self)@ == old(self)@.rated(rating as int),
            r is Err ==> final(self)@ == old(self)@,
    {
        if saved.is_ok() {
            self.loaded_images.set_rating(&self.current_image_path, rating);
            self.loaded_images_thumbnails.set_rating(&self.current_image_path, rating);
            proof {
                assert forall|id: ImageIdentity| !#[trigger] self@.in_two_states(id) by {
                    assert(!old(self)@.in_two_states(id));
                }
            }
        }
        saved
    }
}

} // verus!
