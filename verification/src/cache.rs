use crate::buffer::{BufferView, ImflowImageBuffer};
use crate::identity::{ImageData, ImageIdentity};
use vstd::prelude::*;

verus! {

/// One cached buffer with the image it belongs to.
pub struct Slot {
    pub key: ImageData,
    pub buffer: ImflowImageBuffer,
}

/// A mapping from images to decoded buffers in which each image has at most
/// one buffer.
pub struct ImageCache {
    slots: Vec<Slot>,
}

/// Whether no image has two slots.
pub open spec fn distinct_keys(slots: Seq<Slot>) -> bool {
    forall|i: int, j: int|
        0 <= i < j < slots.len() ==> (#[trigger] slots[i]).key@ != (#[trigger] slots[j]).key@
}

/// Whether some slot belongs to `id`.
pub open spec fn has_slot(slots: Seq<Slot>, id: ImageIdentity) -> bool {
    exists|i: int| 0 <= i < slots.len() && (#[trigger] slots[i]).key@ == id
}

/// A position at which `id` has its slot.
pub open spec fn slot_of(slots: Seq<Slot>, id: ImageIdentity) -> int {
    choose|i: int| 0 <= i < slots.len() && (#[trigger] slots[i]).key@ == id
}

/// The mapping that slots stand for.
pub open spec fn slots_map(slots: Seq<Slot>) -> Map<ImageIdentity, BufferView> {
    Map::new(
        |id: ImageIdentity| has_slot(slots, id),
        |id: ImageIdentity| slots[slot_of(slots, id)].buffer@,
    )
}

/// With distinct keys, the slot at `at` is the one of its image.
proof fn lemma_slot_found(slots: Seq<Slot>, at: int)
    requires
        distinct_keys(slots),
        0 <= at < slots.len(),
    ensures
        has_slot(slots, slots[at].key@),
        slot_of(slots, slots[at].key@) == at,
        slots_map(slots).contains_key(slots[at].key@),
        slots_map(slots)[slots[at].key@] == slots[at].buffer@,
{
    let id = slots[at].key@;
    assert(slots[at].key@ == id);
    let found = slot_of(slots, id);
    assert(0 <= found < slots.len() && slots[found].key@ == id);
    if found < at {
        assert(slots[found].key@ != slots[at].key@);
    } else if at < found {
        assert(slots[at].key@ != slots[found].key@);
    }
}

/// Giving the slot at `at` another buffer gives its image that buffer and
/// leaves the other images as they are.
proof fn lemma_buffer_replaced(before: Seq<Slot>, after: Seq<Slot>, at: int)
    requires
        distinct_keys(before),
        0 <= at < before.len(),
        after.len() == before.len(),
        forall|i: int| 0 <= i < before.len() ==> (#[trigger] after[i]).key@ == before[i].key@,
        forall|i: int|
            0 <= i < before.len() && i != at ==> (#[trigger] after[i]).buffer@ == before[i].buffer@,
    ensures
        distinct_keys(after),
        slots_map(after) == slots_map(before).insert(before[at].key@, after[at].buffer@),
{
    assert forall|i: int, j: int| 0 <= i < j < after.len() implies (#[trigger] after[i]).key@ != (
    #[trigger] after[j]).key@ by {
        assert(before[i].key@ != before[j].key@);
    }
    let changed = slots_map(before).insert(before[at].key@, after[at].buffer@);
    assert forall|k: ImageIdentity| slots_map(after).contains_key(k) == changed.contains_key(k) by {
        if has_slot(before, k) {
            assert(after[slot_of(before, k)].key@ == k);
        }
        if has_slot(after, k) {
            assert(before[slot_of(after, k)].key@ == k);
        }
        lemma_slot_found(before, at);
    }
    assert forall|k: ImageIdentity| slots_map(after).contains_key(k) implies slots_map(after)[k]
        == changed[k] by {
        let i = slot_of(after, k);
        lemma_slot_found(after, i);
        lemma_slot_found(before, i);
    }
    assert(slots_map(after) =~= changed);
}

/// A slot for an image that has none adds the image with its buffer.
proof fn lemma_slot_added(before: Seq<Slot>, slot: Slot)
    requires
        distinct_keys(before),
        !has_slot(before, slot.key@),
    ensures
        distinct_keys(before.push(slot)),
        slots_map(before.push(slot)) == slots_map(before).insert(slot.key@, slot.buffer@),
{
    let after = before.push(slot);
    let last = before.len() as int;
    assert(after[last].key@ == slot.key@);
    assert forall|i: int, j: int| 0 <= i < j < after.len() implies (#[trigger] after[i]).key@ != (
    #[trigger] after[j]).key@ by {
        if j < last {
            assert(before[i].key@ != before[j].key@);
        } else {
            assert(before[i].key@ != slot.key@);
        }
    }
    let changed = slots_map(before).insert(slot.key@, slot.buffer@);
    assert forall|k: ImageIdentity| slots_map(after).contains_key(k) == changed.contains_key(k) by {
        if has_slot(before, k) {
            assert(after[slot_of(before, k)].key@ == k);
        }
        if has_slot(after, k) && k != slot.key@ {
            assert(before[slot_of(after, k)].key@ == k);
        }
    }
    assert forall|k: ImageIdentity| slots_map(after).contains_key(k) implies slots_map(after)[k]
        == changed[k] by {
        let i = slot_of(after, k);
        lemma_slot_found(after, i);
        if i < last {
            lemma_slot_found(before, i);
        }
    }
    assert(slots_map(after) =~= changed);
}

impl View for ImageCache {
    type V = Map<ImageIdentity, BufferView>;

    closed spec fn view(&self) -> Map<ImageIdentity, BufferView> {
        slots_map(self.slots@)
    }
}

impl ImageCache {
    /// The invariant of the cache: no image has two buffers.
    pub closed spec fn wf(&self) -> bool {
        distinct_keys(self.slots@)
    }

    /// An empty cache.
    pub fn new() -> (cache: ImageCache)
        ensures
            cache.wf(),
            cache@ == Map::<ImageIdentity, BufferView>::empty(),
    {
        let cache = ImageCache { slots: Vec::new() };
        assert(cache@ =~= Map::<ImageIdentity, BufferView>::empty());
        cache
    }

    /// The position of the slot of `key`, if it has one.
    fn find(&self, key: &ImageData) -> (r: Option<usize>)
        requires
            self.wf(),
        ensures
            match r {
                Some(at) => at < self.slots@.len() && self.slots@[at as int].key@ == key@,
                None => !has_slot(self.slots@, key@),
            },
    {
        let mut i: usize = 0;
        while i < self.slots.len()
            invariant
                i <= self.slots@.len(),
                forall|j: int| 0 <= j < i ==> (#[trigger] self.slots@[j]).key@ != key@,
            decreases self.slots@.len() - i,
        {
            if self.slots[i].key.same(key) {
                return Some(i);
            }
            i = i + 1;
        }
        None
    }

    /// Whether `key` has a buffer.
    pub fn contains_key(&self, key: &ImageData) -> (r: bool)
        requires
            self.wf(),
        ensures
            r == self@.contains_key(key@),
    {
        match self.find(key) {
            Some(at) => {
                proof {
                    lemma_slot_found(self.slots@, at as int);
                }
                true
            },
            None => false,
        }
    }

    /// The buffer of `key`, if it has one.
    pub fn get(&self, key: &ImageData) -> (r: Option<&ImflowImageBuffer>)
        requires
            self.wf(),
        ensures
            r is Some <==> self@.contains_key(key@),
            r is Some ==> r->Some_0@ == self@[key@],
    {
        match self.find(key) {
            Some(at) => {
                proof {
                    lemma_slot_found(self.slots@, at as int);
                }
                Some(&self.slots[at].buffer)
            },
            None => None,
        }
    }

    /// Gives `key` the buffer `buffer`, in place of the one it had if any.
    pub fn insert(&mut self, key: ImageData, buffer: ImflowImageBuffer)
        requires
            old(self).wf(),
        ensures
            final(self).wf(),
            final(self)@ == old(self)@.insert(key@, buffer@),
    {
        match self.find(&key) {
            Some(at) => {
                self.slots[at].buffer = buffer;
                proof {
                    lemma_buffer_replaced(old(self).slots@, self.slots@, at as int);
                }
            },
            None => {
                let slot = Slot { key, buffer };
                proof {
                    lemma_slot_added(self.slots@, slot);
                }
                self.slots.push(slot);
            },
        }
    }

    /// Changes the rating that the buffer of `key` carries, if it has one.
    pub fn set_rating(&mut self, key: &ImageData, rating: i32)
        requires
            old(self).wf(),
        ensures
            final(self).wf(),
            final(self)@ == if old(self)@.contains_key(key@) {
                old(self)@.insert(key@, old(self)@[key@].rated(rating as int))
            } else {
                old(self)@
            },
    {
        match self.find(key) {
            Some(at) => {
                self.slots[at].buffer.rating = rating;
                proof {
                    lemma_slot_found(old(self).slots@, at as int);
                    lemma_buffer_replaced(old(self).slots@, self.slots@, at as int);
                }
            },
            None => {},
        }
    }
}

/// The mapping after `slots` were put into `map` one after the other.
pub open spec fn stored(map: Map<ImageIdentity, BufferView>, slots: Seq<Slot>) -> Map<
    ImageIdentity,
    BufferView,
>
    decreases slots.len(),
{
    if slots.len() == 0 {
        map
    } else {
        stored(map, slots.drop_last()).insert(slots.last().key@, slots.last().buffer@)
    }
}

impl ImageCache {
    /// The cache that holds `slots`, a later slot of an image replacing an
    /// earlier one.
    pub fn from_slots(slots: Vec<Slot>) -> (cache: ImageCache)
        ensures
            cache.wf(),
            cache@ == stored(Map::empty(), slots@),
    {
        let mut cache = ImageCache::new();
        let ghost all = slots@;
        for slot in iter: slots
            invariant
                cache.wf(),
                iter.seq() == all,
                cache@ == stored(Map::empty(), all.take(iter.index() as int)),
        {
            proof {
                let i = iter.index() as int;
                assert(all.take(i + 1).drop_last() =~= all.take(i));
            }
            cache.insert(slot.key, slot.buffer);
        }
        proof {
            assert(all.take(all.len() as int) =~= all);
        }
        cache
    }
}

} // verus!
