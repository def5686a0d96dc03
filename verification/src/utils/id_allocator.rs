//! The issuer of the identifiers by which contacts are tracked.

use vstd::prelude::*;

verus! {

/// What an allocator stands for: every identifier below `next` was issued
/// at some time, and those in `free` were given back since.
pub struct IdAllocatorView {
    pub next: u64,
    pub free: Seq<u64>,
}

impl IdAllocatorView {
    /// The identifiers that are in use.
    pub open spec fn live(self) -> Set<u64> {
        Set::new(|id: u64| id < self.next && !self.free.contains(id))
    }

    /// Another identifier can be issued.
    pub open spec fn can_alloc(self) -> bool {
        self.free.len() > 0 || self.next < u64::MAX
    }

    /// The identifier that is issued next: the one given back last, or the
    /// smallest that was never issued.
    pub open spec fn next_id(self) -> u64 {
        if self.free.len() > 0 {
            self.free.last()
        } else {
            self.next
        }
    }

    /// The allocator after it has issued an identifier.
    pub open spec fn after_alloc(self) -> IdAllocatorView {
        if self.free.len() > 0 {
            IdAllocatorView { next: self.next, free: self.free.drop_last() }
        } else {
            IdAllocatorView { next: (self.next + 1) as u64, free: self.free }
        }
    }

    /// The allocator after `id` was given back. Nothing changes where `id`
    /// is not in use.
    pub open spec fn after_free(self, id: u64) -> IdAllocatorView {
        if id < self.next && !self.free.contains(id) {
            IdAllocatorView { next: self.next, free: self.free.push(id) }
        } else {
            self
        }
    }

    /// Every identifier that was given back was issued before, and none was
    /// given back twice.
    pub open spec fn wf(self) -> bool {
        &&& forall|i: int| 0 <= i < self.free.len() ==> (#[trigger] self.free[i]) < self.next
        &&& self.free.no_duplicates()
    }

    /// The identifier that is issued next was not in use, and is the only
    /// one that comes into use.
    pub proof fn lemma_after_alloc(self)
        requires
            self.wf(),
            self.can_alloc(),
        ensures
            self.after_alloc().wf(),
            !self.live().contains(self.next_id()),
            self.after_alloc().live() == self.live().insert(self.next_id()),
    {
        let id = self.next_id();
        let after = self.after_alloc();
        if self.free.len() > 0 {
            let last = self.free.len() - 1;
            assert(self.free[last] == id);
            assert(self.free.contains(id));
            assert forall|x: u64| after.free.contains(x) implies self.free.contains(x) && x
                != id by {
                let k = choose|k: int| 0 <= k < after.free.len() && after.free[k] == x;
                assert(self.free[k] == x);
            }
            assert forall|x: u64| self.free.contains(x) && x != id implies after.free.contains(
                x,
            ) by {
                let k = choose|k: int| 0 <= k < self.free.len() && self.free[k] == x;
                assert(after.free[k] == x);
            }
            assert forall|i: int| 0 <= i < after.free.len() implies (#[trigger] after.free[i])
                < after.next by {
                assert(after.free[i] == self.free[i]);
            }
            assert forall|i: int, j: int|
                0 <= i < after.free.len() && 0 <= j < after.free.len() && i != j implies after.free[i]
                != after.free[j] by {
                assert(after.free[i] == self.free[i]);
                assert(after.free[j] == self.free[j]);
            }
        } else {
            assert forall|i: int| 0 <= i < after.free.len() implies (#[trigger] after.free[i])
                < after.next by {
                assert(after.free[i] == self.free[i]);
            }
        }
        assert(after.live() =~= self.live().insert(id));
    }

    /// Giving an identifier back takes it out of use, and nothing else.
    pub proof fn lemma_after_free(self, id: u64)
        requires
            self.wf(),
        ensures
            self.after_free(id).wf(),
            self.after_free(id).live() == self.live().remove(id),
    {
        let after = self.after_free(id);
        if id < self.next && !self.free.contains(id) {
            let last = self.free.len() as int;
            assert(after.free[last] == id);
            assert forall|x: u64| after.free.contains(x) implies self.free.contains(x) || x
                == id by {
                let k = choose|k: int| 0 <= k < after.free.len() && after.free[k] == x;
                if k < last {
                    assert(self.free[k] == x);
                }
            }
            assert forall|x: u64| self.free.contains(x) || x == id implies after.free.contains(
                x,
            ) by {
                if x != id {
                    let k = choose|k: int| 0 <= k < self.free.len() && self.free[k] == x;
                    assert(after.free[k] == x);
                }
            }
            assert forall|i: int| 0 <= i < after.free.len() implies (#[trigger] after.free[i])
                < after.next by {
                if i < last {
                    assert(after.free[i] == self.free[i]);
                }
            }
            assert forall|i: int, j: int|
                0 <= i < after.free.len() && 0 <= j < after.free.len() && i != j implies after.free[i]
                != after.free[j] by {
                if i < last {
                    assert(after.free[i] == self.free[i]);
                }
                if j < last {
                    assert(after.free[j] == self.free[j]);
                }
            }
        }
        assert(after.live() =~= self.live().remove(id));
    }
}

/// Issues small identifiers, none of them twice at a time, and takes them
/// back for later use.
pub struct IdAllocator {
    next: u64,
    free: Vec<u64>,
}

impl View for IdAllocator {
    type V = IdAllocatorView;

    closed spec fn view(&self) -> IdAllocatorView {
        IdAllocatorView { next: self.next, free: self.free@ }
    }
}

impl IdAllocator {
    /// An allocator that has issued nothing yet.
    pub fn new() -> (a: IdAllocator)
        ensures
            a@ == (IdAllocatorView { next: 0, free: Seq::empty() }),
            a@.wf(),
    {
        IdAllocator { next: 0, free: Vec::new() }
    }

    /// Whether another identifier can be issued.
    pub fn can_alloc(&self) -> (b: bool)
        ensures
            b == self@.can_alloc(),
    {
        self.free.len() > 0 || self.next < u64::MAX
    }

    /// Whether `id` is in use.
    pub fn is_live(&self, id: u64) -> (b: bool)
        ensures
            b == self@.live().contains(id),
    {
        if id >= self.next {
            return false;
        }
        let mut i: usize = 0;
        while i < self.free.len()
            invariant
                i <= self.free.len(),
                forall|j: int| 0 <= j < i ==> self.free@[j] != id,
            decreases self.free.len() - i,
        {
            if self.free[i] == id {
                return false;
            }
            i += 1;
        }
        true
    }

    /// Issues an identifier that is not in use.
    pub fn allocate(&mut self) -> (id: u64)
        requires
            old(self)@.wf(),
            old(self)@.can_alloc(),
        ensures
            id == old(self)@.next_id(),
            final(self)@ == old(self)@.after_alloc(),
            final(self)@.wf(),
            !old(self)@.live().contains(id),
            final(self)@.live() == old(self)@.live().insert(id),
    {
        proof {
            old(self)@.lemma_after_alloc();
        }
        if self.free.len() > 0 {
            self.free.pop().unwrap()
        } else {
            let id: u64 = self.next;
            self.next = self.next + 1;
            id
        }
    }

    /// Gives `id` back. Nothing changes where `id` is not in use.
    pub fn free(&mut self, id: u64)
        requires
            old(self)@.wf(),
        ensures
            final(self)@ == old(self)@.after_free(id),
            final(self)@.wf(),
            final(self)@.live() == old(self)@.live().remove(id),
    {
        proof {
            old(self)@.lemma_after_free(id);
        }
        if self.is_live(id) {
            self.free.push(id);
        }
    }
}

} // verus!
