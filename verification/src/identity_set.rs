use crate::identity::{ImageData, ImageIdentity};
use vstd::prelude::*;

verus! {

/// A set of images.
pub struct IdentitySet {
    members: Vec<ImageData>,
}

/// Whether `id` is among `members`.
pub open spec fn is_member(members: Seq<ImageData>, id: ImageIdentity) -> bool {
    exists|i: int| 0 <= i < members.len() && (#[trigger] members[i])@ == id
}

impl View for IdentitySet {
    type V = Set<ImageIdentity>;

    closed spec fn view(&self) -> Set<ImageIdentity> {
        Set::new(|id: ImageIdentity| is_member(self.members@, id))
    }
}

impl IdentitySet {
    /// The invariant of the set: no image is held twice.
    pub closed spec fn wf(&self) -> bool {
        forall|i: int, j: int|
            0 <= i < j < self.members@.len() ==> (#[trigger] self.members@[i])@ != (
            #[trigger] self.members@[j])@
    }

    /// The empty set.
    pub fn new() -> (set: IdentitySet)
        ensures
            set.wf(),
            set@ == Set::<ImageIdentity>::empty(),
    {
        let set = IdentitySet { members: Vec::new() };
        assert(set@ =~= Set::<ImageIdentity>::empty());
        set
    }

    /// Where `key` is held, if it is.
    fn find(&self, key: &ImageData) -> (r: Option<usize>)
        ensures
            match r {
                Some(at) => at < self.members@.len() && self.members@[at as int]@ == key@,
                None => !is_member(self.members@, key@),
            },
    {
        let mut i: usize = 0;
        while i < self.members.len()
            invariant
                i <= self.members@.len(),
                forall|j: int| 0 <= j < i ==> (#[trigger] self.members@[j])@ != key@,
            decreases self.members@.len() - i,
        {
            if self.members[i].same(key) {
                return Some(i);
            }
            i = i + 1;
        }
        None
    }

    /// Whether `key` is in the set.
    pub fn contains(&self, key: &ImageData) -> (r: bool)
        ensures
            r == self@.contains(key@),
    {
        self.find(key).is_some()
    }

    /// Puts `key` into the set.
    pub fn insert(&mut self, key: ImageData)
        requires
            old(self).wf(),
        ensures
            final(self).wf(),
            final(self)@ == old(self)@.insert(key@),
    {
        let ghost before = self.members@;
        let ghost id = key@;
        if self.find(&key).is_none() {
            self.members.push(key);
            proof {
                let after = self.members@;
                assert(after[before.len() as int]@ == id);
                assert forall|k: ImageIdentity| is_member(after, k) == (is_member(before, k) || k
                    == id) by {
                    if is_member(before, k) {
                        let i = choose|i: int| 0 <= i < before.len() && (#[trigger] before[i])@ == k;
                        assert(after[i]@ == k);
                    }
                    if is_member(after, k) && k != id {
                        let i = choose|i: int| 0 <= i < after.len() && (#[trigger] after[i])@ == k;
                        assert(before[i]@ == k);
                    }
                }
                assert forall|i: int, j: int| 0 <= i < j < after.len() implies (
                #[trigger] after[i])@ != (#[trigger] after[j])@ by {
                    if j < before.len() {
                        assert(before[i]@ != before[j]@);
                    } else {
                        assert(before[i]@ != id);
                    }
                }
            }
        }
        assert(self@ =~= old(self)@.insert(id));
    }

    /// Takes `key` out of the set.
    pub fn remove(&mut self, key: &ImageData)
        requires
            old(self).wf(),
        ensures
            final(self).wf(),
            final(self)@ == old(self)@.remove(key@),
    {
        let ghost before = self.members@;
        let ghost id = key@;
        match self.find(key) {
            Some(at) => {
                self.members.remove(at);
                proof {
                    let after = self.members@;
                    assert forall|i: int| 0 <= i < after.len() implies #[trigger] after[i] == before[if i
                        < at {
                        i
                    } else {
                        i + 1
                    }] by {}
                    assert forall|k: ImageIdentity| is_member(after, k) == (is_member(before, k)
                        && k != id) by {
                        if is_member(before, k) && k != id {
                            let i = choose|i: int| 0 <= i < before.len() && (#[trigger] before[i])@ == k;
                            if i < at {
                                assert(after[i]@ == k);
                            } else {
                                assert(after[i - 1]@ == k);
                            }
                        }
                        if is_member(after, k) {
                            let i = choose|i: int| 0 <= i < after.len() && (#[trigger] after[i])@ == k;
                            if i < at {
                                assert(before[i]@ == k);
                                assert(before[i]@ != before[at as int]@);
                            } else {
                                assert(before[i + 1]@ == k);
                                assert(before[at as int]@ != before[i + 1]@);
                            }
                        }
                    }
                    assert forall|i: int, j: int| 0 <= i < j < after.len() implies (
                    #[trigger] after[i])@ != (#[trigger] after[j])@ by {
                        let a = if i < at { i } else { i + 1 };
                        let b = if j < at { j } else { j + 1 };
                        assert(before[a]@ != before[b]@);
                    }
                }
            },
            None => {},
        }
        assert(self@ =~= old(self)@.remove(id));
    }
}

} // verus!
