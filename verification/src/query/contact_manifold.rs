//! The contacts of one pair of shapes, tracked from step to step.

use crate::query::contact::Contact;
use crate::query::contact_kinematic::ContactKinematic;
use crate::query::contact_kinematic::FeatureId;
use crate::utils::copy_vec;
use crate::utils::id_allocator::IdAllocator;
use crate::utils::id_allocator::IdAllocatorView;
use vstd::prelude::*;

verus! {

/// A contact with the identifier under which it is tracked, and the parts
/// of the two shapes between which it was found.
#[derive(Clone, Copy, Debug, PartialEq, Eq, Structural)]
pub struct TrackedContact {
    pub contact: Contact,
    pub kinematic: ContactKinematic,
    pub id: u64,
    pub subshape_id1: usize,
    pub subshape_id2: usize,
}

/// What is kept of a contact of the step before: where it was, its
/// identifier, and whether a contact of this step has taken the identifier
/// over.
#[derive(Clone, Copy, Debug, PartialEq, Eq, Structural)]
pub struct CacheEntry {
    pub subshape_id1: usize,
    pub subshape_id2: usize,
    pub feature1: FeatureId,
    pub feature2: FeatureId,
    pub id: u64,
    pub used: bool,
}

/// What is kept of the contact `c` for the next step.
pub open spec fn entry_of(c: TrackedContact) -> CacheEntry {
    CacheEntry {
        subshape_id1: c.subshape_id1,
        subshape_id2: c.subshape_id2,
        feature1: c.kinematic.feature1,
        feature2: c.kinematic.feature2,
        id: c.id,
        used: false,
    }
}

/// What is kept of the contacts `cs` for the next step.
pub open spec fn entries_of(cs: Seq<TrackedContact>) -> Seq<CacheEntry> {
    Seq::new(cs.len(), |i: int| entry_of(cs[i]))
}

/// The entry `e` stands for a contact between the same parts of the same
/// shapes, and its identifier was not taken over yet.
pub open spec fn matches_entry(
    e: CacheEntry,
    subshape_id1: usize,
    subshape_id2: usize,
    kinematic: ContactKinematic,
) -> bool {
    &&& !e.used
    &&& e.subshape_id1 == subshape_id1
    &&& e.subshape_id2 == subshape_id2
    &&& e.feature1 == kinematic.feature1
    &&& e.feature2 == kinematic.feature2
}

/// The place of the first entry of `cache` that matches, or the length of
/// `cache` where none does.
pub open spec fn find_match(
    cache: Seq<CacheEntry>,
    subshape_id1: usize,
    subshape_id2: usize,
    kinematic: ContactKinematic,
) -> int
    decreases cache.len(),
{
    if cache.len() == 0 {
        0
    } else if matches_entry(cache[0], subshape_id1, subshape_id2, kinematic) {
        0
    } else {
        1 + find_match(cache.drop_first(), subshape_id1, subshape_id2, kinematic)
    }
}

/// The entry `e`, its identifier taken over.
pub open spec fn taken(e: CacheEntry) -> CacheEntry {
    CacheEntry {
        subshape_id1: e.subshape_id1,
        subshape_id2: e.subshape_id2,
        feature1: e.feature1,
        feature2: e.feature2,
        id: e.id,
        used: true,
    }
}

/// The allocator `a` after the identifiers of the entries of `cache` that
/// no contact took over were given back, in the order of the entries.
pub open spec fn released(a: IdAllocatorView, cache: Seq<CacheEntry>) -> IdAllocatorView
    decreases cache.len(),
{
    if cache.len() == 0 {
        a
    } else if cache.last().used {
        released(a, cache.drop_last())
    } else {
        released(a, cache.drop_last()).after_free(cache.last().id)
    }
}

/// The identifier `id` is that of an entry of `cache` that no contact took
/// over.
pub open spec fn is_released(cache: Seq<CacheEntry>, id: u64) -> bool {
    exists|j: int| 0 <= j < cache.len() && !(#[trigger] cache[j]).used && cache[j].id == id
}

/// What a manifold stands for.
pub struct ContactManifoldView {
    /// The part of the first shape that the contacts of this step lie on.
    pub subshape_id1: usize,
    /// The part of the second shape that the contacts of this step lie on.
    pub subshape_id2: usize,
    /// The contacts of this step, in the order in which they were found.
    pub contacts: Seq<TrackedContact>,
    /// What is kept of the contacts of the step before.
    pub cache: Seq<CacheEntry>,
}

impl ContactManifoldView {
    /// The identifier under which a contact with the bookkeeping
    /// `kinematic` is tracked when it is added now: that of the first entry
    /// of the cache that matches, else the next of the allocator `a`.
    pub open spec fn id_for(self, a: IdAllocatorView, kinematic: ContactKinematic) -> u64 {
        let pos = find_match(self.cache, self.subshape_id1, self.subshape_id2, kinematic);
        if pos < self.cache.len() {
            self.cache[pos].id
        } else {
            a.next_id()
        }
    }

    /// A contact with the bookkeeping `kinematic` that is added now gets an
    /// identifier that no contact of the step before had.
    pub open spec fn is_new(self, kinematic: ContactKinematic) -> bool {
        find_match(self.cache, self.subshape_id1, self.subshape_id2, kinematic)
            >= self.cache.len()
    }

    /// The manifold after a contact was added to it.
    pub open spec fn pushed(
        self,
        a: IdAllocatorView,
        contact: Contact,
        kinematic: ContactKinematic,
    ) -> ContactManifoldView {
        let pos = find_match(self.cache, self.subshape_id1, self.subshape_id2, kinematic);
        ContactManifoldView {
            subshape_id1: self.subshape_id1,
            subshape_id2: self.subshape_id2,
            contacts: self.contacts.push(
                TrackedContact {
                    contact,
                    kinematic,
                    id: self.id_for(a, kinematic),
                    subshape_id1: self.subshape_id1,
                    subshape_id2: self.subshape_id2,
                },
            ),
            cache: if pos < self.cache.len() {
                self.cache.update(pos, taken(self.cache[pos]))
            } else {
                self.cache
            },
        }
    }

    /// The manifold holds its identifiers rightfully: those of its contacts
    /// and of the entries of its cache that no contact took over are in use
    /// in the allocator `a`, and no two of them are the same.
    pub open spec fn tracks(self, a: IdAllocatorView) -> bool {
        &&& forall|i: int|
            0 <= i < self.contacts.len() ==> a.live().contains((#[trigger] self.contacts[i]).id)
        &&& forall|j: int|
            0 <= j < self.cache.len() && !(#[trigger] self.cache[j]).used ==> a.live().contains(
                self.cache[j].id,
            )
        &&& forall|i: int, k: int|
            0 <= i < k < self.contacts.len() ==> (#[trigger] self.contacts[i]).id
                != (#[trigger] self.contacts[k]).id
        &&& forall|j: int, k: int|
            0 <= j < k < self.cache.len() && !(#[trigger] self.cache[j]).used
                && !(#[trigger] self.cache[k]).used ==> self.cache[j].id != self.cache[k].id
        &&& forall|i: int, j: int|
            0 <= i < self.contacts.len() && 0 <= j < self.cache.len()
                && !(#[trigger] self.cache[j]).used ==> (#[trigger] self.contacts[i]).id
                != self.cache[j].id
    }

    /// The manifold after its contacts were moved to the cache.
    pub open spec fn cleared(self) -> ContactManifoldView {
        ContactManifoldView {
            subshape_id1: self.subshape_id1,
            subshape_id2: self.subshape_id2,
            contacts: Seq::empty(),
            cache: entries_of(self.contacts),
        }
    }
}

/// The contacts of one pair of shapes: those of this step, and what is kept
/// of those of the step before, so that a contact that is found again keeps
/// its identifier.
pub struct ContactManifold {
    subshape_id1: usize,
    subshape_id2: usize,
    contacts: Vec<TrackedContact>,
    cache: Vec<CacheEntry>,
}

impl View for ContactManifold {
    type V = ContactManifoldView;

    closed spec fn view(&self) -> ContactManifoldView {
        ContactManifoldView {
            subshape_id1: self.subshape_id1,
            subshape_id2: self.subshape_id2,
            contacts: self.contacts@,
            cache: self.cache@,
        }
    }
}

impl ContactManifold {
    /// A manifold without contacts.
    pub fn new() -> (m: ContactManifold)
        ensures
            m@ == (ContactManifoldView {
                subshape_id1: 0,
                subshape_id2: 0,
                contacts: Seq::empty(),
                cache: Seq::empty(),
            }),
    {
        ContactManifold {
            subshape_id1: 0,
            subshape_id2: 0,
            contacts: Vec::new(),
            cache: Vec::new(),
        }
    }

    /// The part of the first shape that the contacts lie on.
    pub fn subshape_id1(&self) -> (id: usize)
        ensures
            id == self@.subshape_id1,
    {
        self.subshape_id1
    }

    /// The part of the second shape that the contacts lie on.
    pub fn subshape_id2(&self) -> (id: usize)
        ensures
            id == self@.subshape_id2,
    {
        self.subshape_id2
    }

    /// Sets the part of the first shape that the contacts lie on.
    pub fn set_subshape_id1(&mut self, id: usize)
        ensures
            final(self)@ == (ContactManifoldView { subshape_id1: id, ..old(self)@ }),
    {
        self.subshape_id1 = id;
    }

    /// Sets the part of the second shape that the contacts lie on.
    pub fn set_subshape_id2(&mut self, id: usize)
        ensures
            final(self)@ == (ContactManifoldView { subshape_id2: id, ..old(self)@ }),
    {
        self.subshape_id2 = id;
    }

    /// The number of contacts of this step.
    pub fn len(&self) -> (n: usize)
        ensures
            n == self@.contacts.len(),
    {
        self.contacts.len()
    }

    /// The contacts of this step, in the order in which they were found.
    pub fn contacts(&self) -> (cs: &Vec<TrackedContact>)
        ensures
            cs@ == self@.contacts,
    {
        &self.contacts
    }

    /// A copy of the manifold.
    pub fn duplicate(&self) -> (m: ContactManifold)
        ensures
            m@ == self@,
    {
        ContactManifold {
            subshape_id1: self.subshape_id1,
            subshape_id2: self.subshape_id2,
            contacts: copy_vec(&self.contacts),
            cache: copy_vec(&self.cache),
        }
    }

    /// Moves the contacts of this step to the cache, and gives back the
    /// identifiers of the cache that no contact of this step took over.
    pub fn save_cache_and_clear(&mut self, gen: &mut IdAllocator)
        requires
            old(gen)@.wf(),
        ensures
            final(self)@ == old(self)@.cleared(),
            final(gen)@ == released(old(gen)@, old(self)@.cache),
            final(gen)@.wf(),
    {
        let mut i: usize = 0;
        while i < self.cache.len()
            invariant
                i <= self.cache.len(),
                self@ == old(self)@,
                gen@.wf(),
                gen@ == released(old(gen)@, self.cache@.take(i as int)),
            decreases self.cache.len() - i,
        {
            proof {
                let upto = self.cache@.take(i + 1);
                assert(upto.drop_last() =~= self.cache@.take(i as int));
                assert(upto.last() == self.cache@[i as int]);
            }
            if !self.cache[i].used {
                gen.free(self.cache[i].id);
            }
            i += 1;
        }
        proof {
            assert(self.cache@.take(i as int) =~= self.cache@);
        }
        let mut cache: Vec<CacheEntry> = Vec::new();
        let mut j: usize = 0;
        while j < self.contacts.len()
            invariant
                j <= self.contacts.len(),
                self@ == old(self)@,
                cache@.len() == j,
                forall|k: int| 0 <= k < j ==> cache@[k] == entry_of(self.contacts@[k]),
            decreases self.contacts.len() - j,
        {
            let c: TrackedContact = self.contacts[j];
            cache.push(
                CacheEntry {
                    subshape_id1: c.subshape_id1,
                    subshape_id2: c.subshape_id2,
                    feature1: c.kinematic.feature1,
                    feature2: c.kinematic.feature2,
                    id: c.id,
                    used: false,
                },
            );
            j += 1;
        }
        proof {
            assert(cache@ =~= entries_of(self.contacts@));
        }
        self.cache = cache;
        self.contacts = Vec::new();
    }

    /// Adds a contact of this step. The contact takes over the identifier
    /// of the first contact of the step before that lay between the same
    /// parts of the same shapes and whose identifier is not taken over yet;
    /// where there is none, it gets a new identifier from `gen`. Returns
    /// whether the identifier is new.
    pub fn push(&mut self, contact: Contact, kinematic: ContactKinematic, gen: &mut IdAllocator) -> (is_new:
        bool)
        requires
            old(gen)@.wf(),
            old(gen)@.can_alloc(),
        ensures
            is_new == old(self)@.is_new(kinematic),
            final(self)@ == old(self)@.pushed(old(gen)@, contact, kinematic),
            final(gen)@ == if is_new {
                old(gen)@.after_alloc()
            } else {
                old(gen)@
            },
            final(gen)@.wf(),
    {
        let mut pos: usize = 0;
        while pos < self.cache.len() && !(!self.cache[pos].used && self.cache[pos].subshape_id1
            == self.subshape_id1 && self.cache[pos].subshape_id2 == self.subshape_id2
            && self.cache[pos].feature1 == kinematic.feature1 && self.cache[pos].feature2
            == kinematic.feature2)
            invariant
                pos <= self.cache.len(),
                self@ == old(self)@,
                forall|j: int|
                    0 <= j < pos ==> !matches_entry(
                        #[trigger] self.cache@[j],
                        self.subshape_id1,
                        self.subshape_id2,
                        kinematic,
                    ),
            decreases self.cache.len() - pos,
        {
            pos += 1;
        }
        proof {
            lemma_find_match(
                self.cache@,
                self.subshape_id1,
                self.subshape_id2,
                kinematic,
                pos as int,
            );
        }
        let is_new: bool = pos >= self.cache.len();
        let id: u64 = if is_new {
            gen.allocate()
        } else {
            let e: CacheEntry = self.cache[pos];
            self.cache.set(
                pos,
                CacheEntry {
                    subshape_id1: e.subshape_id1,
                    subshape_id2: e.subshape_id2,
                    feature1: e.feature1,
                    feature2: e.feature2,
                    id: e.id,
                    used: true,
                },
            );
            e.id
        };
        self.contacts.push(
            TrackedContact {
                contact,
                kinematic,
                id,
                subshape_id1: self.subshape_id1,
                subshape_id2: self.subshape_id2,
            },
        );
        is_new
    }
}

/// The first match is the place before which nothing matches and at which
/// the cache ends or an entry matches.
pub proof fn lemma_find_match(
    cache: Seq<CacheEntry>,
    subshape_id1: usize,
    subshape_id2: usize,
    kinematic: ContactKinematic,
    pos: int,
)
    requires
        0 <= pos <= cache.len(),
        forall|j: int|
            0 <= j < pos ==> !matches_entry(#[trigger] cache[j], subshape_id1, subshape_id2, kinematic),
        pos < cache.len() ==> matches_entry(cache[pos], subshape_id1, subshape_id2, kinematic),
    ensures
        find_match(cache, subshape_id1, subshape_id2, kinematic) == pos,
    decreases cache.len(),
{
    if cache.len() > 0 && pos > 0 {
        assert(!matches_entry(cache[0], subshape_id1, subshape_id2, kinematic));
        let rest = cache.drop_first();
        assert forall|j: int| 0 <= j < pos - 1 implies !matches_entry(
            #[trigger] rest[j],
            subshape_id1,
            subshape_id2,
            kinematic,
        ) by {
            assert(rest[j] == cache[j + 1]);
        }
        if pos < cache.len() {
            assert(rest[pos - 1] == cache[pos]);
        }
        lemma_find_match(rest, subshape_id1, subshape_id2, kinematic, pos - 1);
    }
}

/// The first match is within the cache or at its end; where it is within,
/// the entry there matches, and no entry before it does.
pub proof fn lemma_find_match_is_first(
    cache: Seq<CacheEntry>,
    subshape_id1: usize,
    subshape_id2: usize,
    kinematic: ContactKinematic,
)
    ensures
        0 <= find_match(cache, subshape_id1, subshape_id2, kinematic) <= cache.len(),
        find_match(cache, subshape_id1, subshape_id2, kinematic) < cache.len() ==> matches_entry(
            cache[find_match(cache, subshape_id1, subshape_id2, kinematic)],
            subshape_id1,
            subshape_id2,
            kinematic,
        ),
        forall|j: int|
            0 <= j < find_match(cache, subshape_id1, subshape_id2, kinematic) ==> !matches_entry(
                #[trigger] cache[j],
                subshape_id1,
                subshape_id2,
                kinematic,
            ),
    decreases cache.len(),
{
    if cache.len() > 0 && !matches_entry(cache[0], subshape_id1, subshape_id2, kinematic) {
        let rest = cache.drop_first();
        lemma_find_match_is_first(rest, subshape_id1, subshape_id2, kinematic);
        let pos = find_match(rest, subshape_id1, subshape_id2, kinematic);
        if pos < rest.len() {
            assert(rest[pos] == cache[pos + 1]);
        }
        assert forall|j: int| 0 <= j < pos + 1 implies !matches_entry(
            #[trigger] cache[j],
            subshape_id1,
            subshape_id2,
            kinematic,
        ) by {
            if j > 0 {
                assert(rest[j - 1] == cache[j]);
            }
        }
    }
}

/// Giving identifiers back leaves an allocator able to issue one wherever it
/// was able to before.
pub proof fn lemma_released_can_alloc(a: IdAllocatorView, cache: Seq<CacheEntry>)
    requires
        a.can_alloc(),
    ensures
        released(a, cache).can_alloc(),
        released(a, cache).next == a.next,
    decreases cache.len(),
{
    if cache.len() > 0 {
        lemma_released_can_alloc(a, cache.drop_last());
    }
}

/// After the identifiers of a cache were given back, exactly those
/// identifiers are in use that were in use before and were not given back.
pub proof fn lemma_released_live(a: IdAllocatorView, cache: Seq<CacheEntry>)
    requires
        a.wf(),
    ensures
        released(a, cache).wf(),
        forall|id: u64|
            #[trigger] released(a, cache).live().contains(id) <==> a.live().contains(id)
                && !is_released(cache, id),
    decreases cache.len(),
{
    if cache.len() > 0 {
        let prev = cache.drop_last();
        let last = cache.last();
        lemma_released_live(a, prev);
        let before = released(a, prev);
        if !last.used {
            before.lemma_after_free(last.id);
        }
        assert forall|id: u64|
            #[trigger] released(a, cache).live().contains(id) <==> a.live().contains(id)
                && !is_released(cache, id) by {
            if is_released(prev, id) {
                let j = choose|j: int| 0 <= j < prev.len() && !(#[trigger] prev[j]).used && prev[j].id
                    == id;
                assert(cache[j] == prev[j]);
            }
            if is_released(cache, id) {
                let j = choose|j: int|
                    0 <= j < cache.len() && !(#[trigger] cache[j]).used && cache[j].id == id;
                if j < prev.len() {
                    assert(prev[j] == cache[j]);
                }
            }
            if !last.used && id == last.id {
                assert(cache[cache.len() - 1] == last);
            }
        }
    }
}

/// Moving the contacts of a manifold to its cache, and giving back the
/// identifiers that no contact took over, leaves the manifold holding its
/// identifiers rightfully.
pub proof fn lemma_cleared_tracks(
    m: ContactManifoldView,
    a: IdAllocatorView,
    subshape_id1: usize,
    subshape_id2: usize,
)
    requires
        a.wf(),
        m.tracks(a),
    ensures
        (ContactManifoldView {
            subshape_id1,
            subshape_id2,
            contacts: Seq::empty(),
            cache: entries_of(m.contacts),
        }).tracks(released(a, m.cache)),
{
    let after = ContactManifoldView {
        subshape_id1,
        subshape_id2,
        contacts: Seq::empty(),
        cache: entries_of(m.contacts),
    };
    lemma_released_live(a, m.cache);
    assert forall|j: int| 0 <= j < after.cache.len() && !(#[trigger] after.cache[j]).used implies released(
        a,
        m.cache,
    ).live().contains(after.cache[j].id) by {
        let id = m.contacts[j].id;
        assert(after.cache[j].id == id);
        if is_released(m.cache, id) {
            let k = choose|k: int|
                0 <= k < m.cache.len() && !(#[trigger] m.cache[k]).used && m.cache[k].id == id;
            assert(m.contacts[j].id != m.cache[k].id);
        }
    }
    assert forall|j: int, k: int|
        0 <= j < k < after.cache.len() && !(#[trigger] after.cache[j]).used
            && !(#[trigger] after.cache[k]).used implies after.cache[j].id != after.cache[k].id by {
        assert(m.contacts[j].id != m.contacts[k].id);
    }
}

/// Adding a contact to a manifold that holds its identifiers rightfully
/// leaves it holding them rightfully: the identifier of the new contact is
/// in use, and no other contact has it.
pub proof fn lemma_pushed_tracks(
    m: ContactManifoldView,
    a: IdAllocatorView,
    contact: Contact,
    kinematic: ContactKinematic,
)
    requires
        a.wf(),
        a.can_alloc(),
        m.tracks(a),
    ensures
        m.pushed(a, contact, kinematic).tracks(
            if m.is_new(kinematic) {
                a.after_alloc()
            } else {
                a
            },
        ),
{
    let pos = find_match(m.cache, m.subshape_id1, m.subshape_id2, kinematic);
    let after = m.pushed(a, contact, kinematic);
    let last = m.contacts.len() as int;
    lemma_find_match_is_first(m.cache, m.subshape_id1, m.subshape_id2, kinematic);
    if pos < m.cache.len() {
        assert(!m.cache[pos].used);
        assert(after.contacts[last].id == m.cache[pos].id);
        assert forall|i: int| 0 <= i < after.contacts.len() implies a.live().contains(
            (#[trigger] after.contacts[i]).id,
        ) by {
            if i < last {
                assert(after.contacts[i] == m.contacts[i]);
            }
        }
        assert forall|j: int|
            0 <= j < after.cache.len() && !(#[trigger] after.cache[j]).used implies a.live().contains(
            after.cache[j].id,
        ) by {
            assert(j != pos);
            assert(after.cache[j] == m.cache[j]);
        }
        assert forall|i: int, k: int| 0 <= i < k < after.contacts.len() implies (
        #[trigger] after.contacts[i]).id != (#[trigger] after.contacts[k]).id by {
            assert(after.contacts[i] == m.contacts[i]);
            if k < last {
                assert(after.contacts[k] == m.contacts[k]);
            } else {
                assert(m.contacts[i].id != m.cache[pos].id);
            }
        }
        assert forall|j: int, k: int|
            0 <= j < k < after.cache.len() && !(#[trigger] after.cache[j]).used
                && !(#[trigger] after.cache[k]).used implies after.cache[j].id
            != after.cache[k].id by {
            assert(j != pos && k != pos);
            assert(after.cache[j] == m.cache[j]);
            assert(after.cache[k] == m.cache[k]);
        }
        assert forall|i: int, j: int|
            0 <= i < after.contacts.len() && 0 <= j < after.cache.len()
                && !(#[trigger] after.cache[j]).used implies (#[trigger] after.contacts[i]).id
            != after.cache[j].id by {
            assert(j != pos);
            assert(after.cache[j] == m.cache[j]);
            if i < last {
                assert(after.contacts[i] == m.contacts[i]);
            } else if j < pos {
                assert(m.cache[j].id != m.cache[pos].id);
            } else {
                assert(m.cache[pos].id != m.cache[j].id);
            }
        }
    } else {
        a.lemma_after_alloc();
        let id = a.next_id();
        let b = a.after_alloc();
        assert(after.contacts[last].id == id);
        assert forall|i: int| 0 <= i < after.contacts.len() implies b.live().contains(
            (#[trigger] after.contacts[i]).id,
        ) by {
            if i < last {
                assert(after.contacts[i] == m.contacts[i]);
            }
        }
        assert forall|i: int, k: int| 0 <= i < k < after.contacts.len() implies (
        #[trigger] after.contacts[i]).id != (#[trigger] after.contacts[k]).id by {
            assert(after.contacts[i] == m.contacts[i]);
            if k < last {
                assert(after.contacts[k] == m.contacts[k]);
            }
        }
        assert forall|i: int, j: int|
            0 <= i < after.contacts.len() && 0 <= j < after.cache.len()
                && !(#[trigger] after.cache[j]).used implies (#[trigger] after.contacts[i]).id
            != after.cache[j].id by {
            if i < last {
                assert(after.contacts[i] == m.contacts[i]);
            }
        }
    }
}

} // verus!
