use crate::id::Id;
use vstd::prelude::*;

verus! {

/// An entry that can be stored densely: it knows its own handle.
pub trait DenseEntry {
    type Key;

    /// The handle of the entry, as a mathematical value.
    spec fn spec_id(&self) -> Id<Self::Key>;

    /// The handle of the entry. Implementations must always give the same
    /// handle for the same entry.
    fn id(&self) -> (r: Id<Self::Key>)
        ensures
            r.sparse == self.spec_id().sparse,
            r.version == self.spec_id().version,
    ;
}

/// Slot index of an entry.
pub open spec fn key_of<T: DenseEntry>(t: T) -> u16 {
    t.spec_id().sparse
}

/// Generation of an entry.
pub open spec fn version_of<T: DenseEntry>(t: T) -> u16 {
    t.spec_id().version
}

/// `t` is the entry named by `id`.
pub open spec fn is_entry_for<T: DenseEntry>(t: T, id: Id<T::Key>) -> bool {
    key_of(t) == id.sparse && version_of(t) == id.version
}

/// No two entries share a slot.
pub open spec fn unique_keys<T: DenseEntry>(s: Seq<T>) -> bool {
    forall|i: int, j: int|
        0 <= i < s.len() && 0 <= j < s.len() && i != j ==> key_of(#[trigger] s[i]) != key_of(
            #[trigger] s[j],
        )
}

/// Position of the entry that occupies slot `k`, or `-1` when the slot is vacant.
pub open spec fn key_index<T: DenseEntry>(s: Seq<T>, k: u16) -> int {
    if exists|i: int| 0 <= i < s.len() && key_of(#[trigger] s[i]) == k {
        choose|i: int| 0 <= i < s.len() && key_of(#[trigger] s[i]) == k
    } else {
        -1
    }
}

/// Position of the entry named by `id`, or `-1` when there is none: the slot
/// may be vacant or hold another generation.
pub open spec fn entry_index<T: DenseEntry>(s: Seq<T>, id: Id<T::Key>) -> int {
    let i = key_index(s, id.sparse);
    if i >= 0 && version_of(s[i]) == id.version {
        i
    } else {
        -1
    }
}

/// The entry named by `id`, if any.
pub open spec fn lookup<T: DenseEntry>(s: Seq<T>, id: Id<T::Key>) -> Option<T> {
    let i = entry_index(s, id);
    if i >= 0 {
        Some(s[i])
    } else {
        None
    }
}

/// The entries left when the entry named by `id` is taken out: the last entry
/// moves into the freed position.
pub open spec fn removed<T: DenseEntry>(s: Seq<T>, id: Id<T::Key>) -> Seq<T> {
    let i = entry_index(s, id);
    if i >= 0 {
        s.update(i, s.last()).drop_last()
    } else {
        s
    }
}

/// The two sequences hold entries with the same handles, position by position.
pub open spec fn same_handles<T: DenseEntry>(a: Seq<T>, b: Seq<T>) -> bool {
    &&& a.len() == b.len()
    &&& forall|i: int| 0 <= i < a.len() ==> (#[trigger] a[i]).spec_id().same(b[i].spec_id())
}

/// Proves that in a sequence with unique slots, the position of an entry's slot is
/// that entry's position.
pub proof fn lemma_key_index_at<T: DenseEntry>(s: Seq<T>, d: int)
    requires
        unique_keys(s),
        0 <= d < s.len(),
    ensures
        key_index(s, key_of(s[d])) == d,
{
    let k = key_of(s[d]);
    assert(exists|i: int| 0 <= i < s.len() && key_of(#[trigger] s[i]) == k);
    let c = choose|i: int| 0 <= i < s.len() && key_of(#[trigger] s[i]) == k;
    assert(key_of(s[c]) == key_of(s[d]));
}

/// Proves that a slot held by no entry has position `-1`.
pub proof fn lemma_key_index_absent<T: DenseEntry>(s: Seq<T>, k: u16)
    requires
        forall|i: int| 0 <= i < s.len() ==> key_of(#[trigger] s[i]) != k,
    ensures
        key_index(s, k) == -1,
{
}

/// Proves that a slot position, when it exists, holds an entry with that slot.
pub proof fn lemma_key_index_range<T: DenseEntry>(s: Seq<T>, k: u16)
    ensures
        key_index(s, k) == -1 || (0 <= key_index(s, k) < s.len() && key_of(s[key_index(s, k)])
            == k),
{
}

#[derive(Clone, Copy)]
struct SparseEntry {
    dense: u16,
    version: u16,
}

/// A map from handles to entries, with entries stored contiguously.
pub struct SparseMap<T: DenseEntry> {
    sparse: Vec<SparseEntry>,
    dense: Vec<T>,
}

impl<T: DenseEntry> View for SparseMap<T> {
    type V = Seq<T>;

    /// The entries, in storage order.
    closed spec fn view(&self) -> Seq<T> {
        self.dense@
    }
}

impl<T: DenseEntry> SparseMap<T> {
    /// Every entry is reachable from its slot, every occupied slot points back to an
    /// entry of that slot, and dense positions fit below the vacancy marker.
    pub closed spec fn wf(&self) -> bool {
        &&& self.dense@.len() <= u16::MAX
        &&& self.sparse@.len() <= 0x1_0000
        &&& forall|d: int|
            0 <= d < self.dense@.len() ==> {
                let k = key_of(#[trigger] self.dense@[d]);
                &&& k < self.sparse@.len()
                &&& self.sparse@[k as int].dense == d
                &&& self.sparse@[k as int].version == version_of(self.dense@[d])
            }
        &&& forall|s: int|
            0 <= s < self.sparse@.len() ==> {
                let e = #[trigger] self.sparse@[s];
                e.dense == u16::MAX || (e.dense < self.dense@.len() && key_of(
                    self.dense@[e.dense as int],
                ) == s)
            }
    }

    /// Proves that a well-formed map keeps its slots unique and within bounds.
    pub proof fn lemma_wf_unique(&self)
        requires
            self.wf(),
        ensures
            unique_keys(self@),
            self@.len() <= u16::MAX,
    {
        assert forall|i: int, j: int|
            0 <= i < self@.len() && 0 <= j < self@.len() && i != j implies key_of(
            #[trigger] self@[i],
        ) != key_of(#[trigger] self@[j]) by {
            assert(self.dense@[i] == self@[i]);
            assert(self.dense@[j] == self@[j]);
        }
    }

    proof fn lemma_slot(&self, k: u16)
        requires
            self.wf(),
        ensures
            (k as int) < self.sparse@.len() && self.sparse@[k as int].dense != u16::MAX ==> key_index(
                self@,
                k,
            ) == self.sparse@[k as int].dense as int,
            !((k as int) < self.sparse@.len() && self.sparse@[k as int].dense != u16::MAX)
                ==> key_index(self@, k) == -1,
    {
        self.lemma_wf_unique();
        if (k as int) < self.sparse@.len() && self.sparse@[k as int].dense != u16::MAX {
            let d = self.sparse@[k as int].dense as int;
            lemma_key_index_at(self@, d);
        } else {
            assert forall|i: int| 0 <= i < self@.len() implies key_of(#[trigger] self@[i]) != k by {
                assert(self.dense@[i] == self@[i]);
            }
            lemma_key_index_absent(self@, k);
        }
    }

    pub fn new() -> (r: Self)
        ensures
            r.wf(),
            r@ == Seq::<T>::empty(),
    {
        SparseMap { sparse: Vec::new(), dense: Vec::new() }
    }

    pub fn with_capacity(capacity: usize) -> (r: Self)
        ensures
            r.wf(),
            r@ == Seq::<T>::empty(),
    {
        SparseMap { sparse: Vec::with_capacity(capacity), dense: Vec::with_capacity(capacity) }
    }

    /// Stores `entry` in its slot, replacing the entry already there whatever its
    /// generation, and returns a reference to it.
    pub fn insert(&mut self, entry: T) -> (r: &mut T)
        requires
            old(self).wf(),
            key_index(old(self)@, key_of(entry)) < 0 ==> old(self)@.len() < u16::MAX,
        ensures
            *r == entry,
            key_index(old(self)@, key_of(entry)) >= 0 ==> final(self)@ == old(self)@.update(
                key_index(old(self)@, key_of(entry)),
                *final(r),
            ),
            key_index(old(self)@, key_of(entry)) < 0 ==> final(self)@ == old(self)@.push(
                *final(r),
            ),
            final(self)@ == inserted(old(self)@, entry, *final(r)),
            (*final(r)).spec_id().same(entry.spec_id()) ==> final(self).wf(),
    {
        let id = entry.id();
        let k = id.sparse as usize;
        proof {
            self.lemma_slot(id.sparse);
        }
        if k < self.sparse.len() && self.sparse[k].dense < u16::MAX {
            let d = self.sparse[k].dense as usize;
            self.sparse.set(k, SparseEntry { dense: d as u16, version: id.version });
            self.dense.set(d, entry);
            let r = &mut self.dense[d];
            r
        } else {
            let d = self.dense.len();
            if k < self.sparse.len() {
                self.sparse.set(k, SparseEntry { dense: d as u16, version: id.version });
            } else {
                while self.sparse.len() < k
                    invariant
                        k <= u16::MAX,
                        self.dense@ == old(self).dense@,
                        d == self.dense@.len(),
                        old(self).sparse@.len() <= self.sparse@.len() <= k,
                        forall|s: int|
                            0 <= s < old(self).sparse@.len() ==> #[trigger] self.sparse@[s]
                                == old(self).sparse@[s],
                        forall|s: int|
                            old(self).sparse@.len() <= s < self.sparse@.len()
                                ==> (#[trigger] self.sparse@[s]).dense == u16::MAX,
                    decreases k - self.sparse@.len(),
                {
                    self.sparse.push(SparseEntry { dense: u16::MAX, version: 0 });
                }
                self.sparse.push(SparseEntry { dense: d as u16, version: id.version });
            }
            self.dense.push(entry);
            let r = &mut self.dense[d];
            r
        }
    }
}


impl<T: DenseEntry> SparseMap<T> {
    /// Takes out the entry named by `id`; the last entry moves into the freed position.
    pub fn remove(&mut self, id: Id<T::Key>) -> (r: Option<T>)
        requires
            old(self).wf(),
        ensures
            final(self).wf(),
            r == lookup(old(self)@, id),
            final(self)@ == removed(old(self)@, id),
    {
        let k = id.sparse as usize;
        proof {
            self.lemma_slot(id.sparse);
        }
        if k < self.sparse.len() {
            let e = self.sparse[k];
            if id.version == e.version && e.dense < u16::MAX {
                let d = e.dense as usize;
                self.sparse.set(k, SparseEntry { dense: u16::MAX, version: e.version });
                let value = self.dense.swap_remove(d);
                if d < self.dense.len() {
                    let moved = self.dense[d].id().sparse as usize;
                    let m = self.sparse[moved];
                    self.sparse.set(moved, SparseEntry { dense: d as u16, version: m.version });
                }
                return Some(value);
            }
        }
        None
    }

    /// The storage position of the entry named by `id`.
    pub fn dense_index(&self, id: Id<T::Key>) -> (r: Option<u16>)
        requires
            self.wf(),
        ensures
            r matches Some(d) ==> entry_index(self@, id) == d as int,
            r is None ==> entry_index(self@, id) < 0,
    {
        proof {
            self.lemma_slot(id.sparse);
        }
        let k = id.sparse as usize;
        if k < self.sparse.len() {
            let e = self.sparse[k];
            if id.version == e.version && e.dense < u16::MAX {
                return Some(e.dense);
            }
        }
        None
    }

    /// Whether an entry is named by `id`.
    pub fn contains(&self, id: Id<T::Key>) -> (r: bool)
        requires
            self.wf(),
        ensures
            r == (entry_index(self@, id) >= 0),
    {
        self.dense_index(id).is_some()
    }

    /// The entry named by `id`.
    pub fn get(&self, id: Id<T::Key>) -> (r: Option<&T>)
        requires
            self.wf(),
        ensures
            r matches Some(v) ==> lookup(self@, id) == Some(*v),
            r is None ==> lookup(self@, id) is None,
    {
        match self.dense_index(id) {
            Some(index) => Some(&self.dense[index as usize]),
            None => None,
        }
    }

    /// The entry named by `id`, for modification.
    pub fn get_mut(&mut self, id: Id<T::Key>) -> (r: Option<&mut T>)
        requires
            old(self).wf(),
        ensures
            entry_index(old(self)@, id) >= 0 ==> r is Some && *r.unwrap() == old(self)@[entry_index(
                old(self)@,
                id,
            )] && final(self)@ == old(self)@.update(
                entry_index(old(self)@, id),
                *final(r.unwrap()),
            ) && ((*final(r.unwrap())).spec_id().same(old(self)@[entry_index(old(self)@, id)].spec_id())
                ==> final(self).wf()),
            entry_index(old(self)@, id) < 0 ==> r is None && *final(self) == *old(self),
    {
        match self.dense_index(id) {
            Some(index) => Some(&mut self.dense[index as usize]),
            None => None,
        }
    }

    /// The number of entries.
    pub fn len(&self) -> (r: usize)
        ensures
            r == self@.len(),
    {
        self.dense.len()
    }

    /// Iterates over the entries in storage order.
    pub fn iter(&self) -> (r: core::slice::Iter<'_, T>)
        ensures
            vstd::std_specs::slice::into_iter_elts(r) == self@,
    {
        self.dense.iter()
    }
}


#[verifier::external_type_specification]
#[verifier::external_body]
#[verifier::reject_recursive_types(T)]
pub struct ExIterMut<'a, T: 'a>(core::slice::IterMut<'a, T>);

/// Calls `<[T]>::iter_mut`. The contract states only that the slice keeps its
/// length; which values the caller writes through the iterator is left unsaid.
#[verifier::external_body]
fn slice_iter_mut<'a, T>(s: &'a mut [T]) -> (r: core::slice::IterMut<'a, T>)
    ensures
        final(s)@.len() == old(s)@.len(),
{
    s.iter_mut()
}

impl<T: DenseEntry> SparseMap<T> {
    /// Iterates over the entries in storage order, for modification.
    pub fn iter_mut(&mut self) -> (r: core::slice::IterMut<'_, T>)
        requires
            old(self).wf(),
        ensures
            final(self)@.len() == old(self)@.len(),
            same_handles(final(self)@, old(self)@) ==> final(self).wf(),
    {
        slice_iter_mut(self.dense.as_mut_slice())
    }

    /// The slot of `id`, either holding the entry or free for one.
    pub fn entry(&mut self, id: Id<T::Key>) -> (r: Entry<'_, T>)
        requires
            old(self).wf(),
        ensures
            entry_index(old(self)@, id) >= 0 ==> (r matches Entry::Occupied(o) && *o.value
                == old(self)@[entry_index(old(self)@, id)] && final(self)@ == old(self)@.update(
                entry_index(old(self)@, id),
                *final(o.value),
            ) && ((*final(o.value)).spec_id().same(old(self)@[entry_index(old(self)@, id)].spec_id())
                ==> final(self).wf())),
            entry_index(old(self)@, id) < 0 ==> (r matches Entry::Vacant(v) && *v.map == *old(self)
                && *final(v.map) == *final(self)),
    {
        match self.dense_index(id) {
            Some(index) => Entry::Occupied(OccupiedEntry { value: &mut self.dense[index as usize] }),
            None => Entry::Vacant(VacantEntry { map: self }),
        }
    }
}

/// A slot of a [`SparseMap`], either holding an entry or free for one.
pub enum Entry<'a, T: DenseEntry> {
    Occupied(OccupiedEntry<'a, T>),
    Vacant(VacantEntry<'a, T>),
}

/// The effect of inserting `t` into a map whose entries were `before`, when the
/// inserted entry ends up as `after`.
pub open spec fn inserted<T: DenseEntry>(before: Seq<T>, t: T, after: T) -> Seq<T> {
    if key_index(before, key_of(t)) >= 0 {
        before.update(key_index(before, key_of(t)), after)
    } else {
        before.push(after)
    }
}

impl<'a, T: DenseEntry> Entry<'a, T> {
    /// The entry in the slot, or the one `default` makes, stored there.
    pub fn or_insert_with<F: FnOnce() -> T>(self, default: F) -> (r: &'a mut T)
        requires
            self matches Entry::Vacant(v) ==> v.map.wf() && v.map@.len() < u16::MAX
                && call_requires(default, ()),
        ensures
            self matches Entry::Occupied(o) ==> *r == *o.value && *final(r) == *final(o.value),
            self matches Entry::Vacant(v) ==> call_ensures(default, (), *r) && final(v.map)@
                == inserted(v.map@, *r, *final(r)) && ((*final(r)).spec_id().same(r.spec_id())
                ==> final(v.map).wf()),
    {
        match self {
            Entry::Occupied(entry) => entry.into_mut(),
            Entry::Vacant(entry) => entry.insert(default()),
        }
    }
}

impl<'a, T: DenseEntry + Default> Entry<'a, T> {
    /// The entry in the slot, or `T::default()` stored there.
    pub fn or_default(self) -> (r: &'a mut T)
        requires
            self matches Entry::Vacant(v) ==> v.map.wf() && v.map@.len() < u16::MAX,
        ensures
            self matches Entry::Occupied(o) ==> *r == *o.value && *final(r) == *final(o.value),
            self matches Entry::Vacant(v) ==> call_ensures(T::default, (), *r) && final(v.map)@
                == inserted(v.map@, *r, *final(r)) && ((*final(r)).spec_id().same(r.spec_id())
                ==> final(v.map).wf()),
    {
        self.or_insert_with(T::default)
    }
}

/// Proves that inserting an entry leaves every other vacant slot vacant.
pub proof fn lemma_inserted_absent<T: DenseEntry>(s: Seq<T>, t: T, a: T, k: u16)
    requires
        key_index(s, k) < 0,
        key_of(a) == key_of(t),
        k != key_of(t),
    ensures
        key_index(inserted(s, t, a), k) < 0,
{
    let n = inserted(s, t, a);
    lemma_key_index_range(s, key_of(t));
    assert forall|i: int| 0 <= i < n.len() implies key_of(#[trigger] n[i]) != k by {
        if i < s.len() && i != key_index(s, key_of(t)) {
            assert(n[i] == s[i]);
            if key_of(s[i]) == k {
                assert(exists|j: int| 0 <= j < s.len() && key_of(#[trigger] s[j]) == k);
            }
        }
    }
    lemma_key_index_absent(n, k);
}

/// A slot of a [`SparseMap`] that holds an entry.
pub struct OccupiedEntry<'a, T: DenseEntry> {
    pub value: &'a mut T,
}

impl<'a, T: DenseEntry> OccupiedEntry<'a, T> {
    /// The entry, for modification, for as long as the map was borrowed.
    pub fn into_mut(self) -> (r: &'a mut T)
        ensures
            *r == *old(self.value),
            *final(r) == *final(self.value),
    {
        self.value
    }
}

/// A slot of a [`SparseMap`] that is free.
pub struct VacantEntry<'a, T: DenseEntry> {
    pub map: &'a mut SparseMap<T>,
}

impl<'a, T: DenseEntry> VacantEntry<'a, T> {
    /// Stores `value` in the map.
    pub fn insert(self, value: T) -> (r: &'a mut T)
        requires
            old(self.map).wf(),
            key_index(old(self.map)@, key_of(value)) < 0 ==> old(self.map)@.len() < u16::MAX,
        ensures
            *r == value,
            final(self.map)@ == inserted(old(self.map)@, value, *final(r)),
            (*final(r)).spec_id().same(value.spec_id()) ==> final(self.map).wf(),
    {
        self.map.insert(value)
    }
}


/// A [`SparseMap`] that also hands out handles, recycling the slots of deleted
/// entries with a newer generation.
pub struct SparseSet<T: DenseEntry> {
    map: SparseMap<T>,
    deleted: Vec<Id<T::Key>>,
    issued: Ghost<Set<Id<T::Key>>>,
}

impl<T: DenseEntry> View for SparseSet<T> {
    type V = Seq<T>;

    /// The entries, in storage order.
    closed spec fn view(&self) -> Seq<T> {
        self.map@
    }
}

/// The handles of deleted entries whose slot is not `k`.
pub open spec fn not_in_slot<K>(s: Seq<Id<K>>, k: u16) -> Seq<Id<K>> {
    s.filter(|d: Id<K>| d.sparse != k)
}

impl<T: DenseEntry> SparseSet<T> {
    /// The handles of deleted entries, oldest first.
    pub closed spec fn deleted_view(&self) -> Seq<Id<T::Key>> {
        self.deleted@
    }

    /// The handles of every entry ever stored.
    pub closed spec fn issued(&self) -> Set<Id<T::Key>> {
        self.issued@
    }

    /// The set holds only entries stored under handles that `next_id` handed
    /// out: it is compact, and every handle ever stored is accounted for.
    pub open spec fn fresh(&self) -> bool {
        &&& handles_compact(self@, self.deleted_view())
        &&& issued_accounted(self@, self.deleted_view(), self.issued())
    }

    /// The map is well formed and the slot of every deleted handle is vacant.
    pub closed spec fn wf(&self) -> bool {
        &&& self.map.wf()
        &&& forall|i: int|
            0 <= i < self.deleted@.len() ==> key_index(self.map@, (#[trigger] self.deleted@[i]).sparse)
                < 0
    }

    /// Proves that a well-formed set keeps its slots unique and its deleted
    /// handles' slots vacant.
    pub proof fn lemma_wf_unique(&self)
        requires
            self.wf(),
        ensures
            unique_keys(self@),
            self@.len() <= u16::MAX,
            forall|i: int|
                0 <= i < self.deleted_view().len() ==> key_index(
                    self@,
                    (#[trigger] self.deleted_view()[i]).sparse,
                ) < 0,
    {
        self.map.lemma_wf_unique();
    }

    pub fn new() -> (r: Self)
        ensures
            r.wf(),
            r@ == Seq::<T>::empty(),
            r.deleted_view() == Seq::<Id<T::Key>>::empty(),
            r.issued() == Set::<Id<T::Key>>::empty(),
            r.fresh(),
    {
        SparseSet { map: SparseMap::new(), deleted: Vec::new(), issued: Ghost(Set::empty()) }
    }

    pub fn with_capacity(capacity: usize) -> (r: Self)
        ensures
            r.wf(),
            r@ == Seq::<T>::empty(),
            r.deleted_view() == Seq::<Id<T::Key>>::empty(),
            r.issued() == Set::<Id<T::Key>>::empty(),
            r.fresh(),
    {
        SparseSet {
            map: SparseMap::with_capacity(capacity),
            deleted: Vec::new(),
            issued: Ghost(Set::empty()),
        }
    }

    /// The handles of deleted entries, oldest first.
    pub fn deleted(&self) -> (r: &[Id<T::Key>])
        ensures
            r@ == self.deleted_view(),
    {
        self.deleted.as_slice()
    }

    /// The handle for the next entry: the slot of the last deleted entry with the
    /// next generation, or else the first slot past the entries.
    pub fn next_id(&self) -> (r: Id<T::Key>)
        requires
            self.wf(),
            self.deleted_view().len() > 0 ==> self.deleted_view().last().version < u16::MAX,
        ensures
            self.deleted_view().len() > 0 ==> r.sparse == self.deleted_view().last().sparse
                && r.version == self.deleted_view().last().version + 1,
            self.deleted_view().len() == 0 ==> r.sparse == self@.len() && r.version == 0,
            self.deleted_view().len() > 0 ==> entry_index(self@, r) < 0,
            r.sparse == next_slot(self@.len(), self.deleted_view()),
            r.version == next_version(self.deleted_view()),
            self.fresh() ==> entry_index(self@, r) < 0 && forall|x: Id<T::Key>| #[trigger]
                self.issued().contains(x) ==> !x.same(r),
    {
        proof {
            self.map.lemma_wf_unique();
        }
        let r = match self.deleted.last() {
            Some(deleted) => Id::new(deleted.sparse, deleted.version + 1),
            None => Id::new(self.map.len() as u16, 0),
        };
        proof {
            if self.fresh() {
                law_next_id_vacant(self@, self.deleted_view(), r);
                law_next_id_unissued(self@, self.deleted_view(), self.issued(), r);
            }
        }
        r
    }

    /// Stores `entry` in its slot and forgets the deleted handles of that slot.
    pub fn insert(&mut self, entry: T) -> (r: &mut T)
        requires
            old(self).wf(),
            key_index(old(self)@, key_of(entry)) < 0 ==> old(self)@.len() < u16::MAX,
        ensures
            *r == entry,
            final(self)@ == inserted(old(self)@, entry, *final(r)),
            final(self).deleted_view() == not_in_slot(old(self).deleted_view(), key_of(entry)),
            old(self).deleted_view().len() == 0 ==> final(self).deleted_view().len() == 0,
            final(self).issued() == old(self).issued().insert(entry.spec_id()),
            (*final(r)).spec_id().same(entry.spec_id()) ==> final(self).wf(),
            old(self).fresh() && key_of(entry) == next_slot(old(self)@.len(), old(self).deleted_view())
                && version_of(entry) == next_version(old(self).deleted_view()) && (
            *final(r)).spec_id().same(entry.spec_id()) ==> final(self).fresh(),
    {
        let key = entry.id().sparse;
        let mut kept: Vec<Id<T::Key>> = Vec::new();
        let mut i: usize = 0;
        while i < self.deleted.len()
            invariant
                i <= self.deleted@.len(),
                kept@ == not_in_slot(self.deleted@.subrange(0, i as int), key),
            decreases self.deleted@.len() - i,
        {
            let d = self.deleted[i];
            proof {
                let pre = self.deleted@.subrange(0, i as int);
                let post = self.deleted@.subrange(0, i + 1);
                assert(post.drop_last() == pre);
                assert(post.last() == d);
                reveal(Seq::filter);
            }
            if d.sparse != key {
                kept.push(d);
            }
            i = i + 1;
        }
        proof {
            assert(self.deleted@.subrange(0, self.deleted@.len() as int) == self.deleted@);
        }
        self.deleted = kept;
        self.issued = Ghost(self.issued@.insert(entry.spec_id()));
        let ghost old_map = self.map@;
        let ghost old_deleted = old(self).deleted@;
        proof {
            self.map.lemma_wf_unique();
        }
        let r = self.map.insert(entry);
        proof {
            lemma_insert_fresh(old_map, old_deleted, old(self).issued(), entry, *final(r));
        }
        proof {
            assert forall|i: int| 0 <= i < kept@.len() implies key_index(
                inserted(old_map, entry, *final(r)),
                (#[trigger] kept@[i]).sparse,
            ) < 0 || !(*final(r)).spec_id().same(entry.spec_id()) by {
                let pred = |d: Id<T::Key>| d.sparse != key;
                old_deleted.lemma_filter_pred(pred, i);
                assert(old_deleted.filter(pred).contains(kept@[i]));
                old_deleted.lemma_filter_contains_rev(pred, kept@[i]);
                let j = choose|j: int| 0 <= j < old_deleted.len() && old_deleted[j] == kept@[i];
                assert(key_index(old_map, old_deleted[j].sparse) < 0);
                if (*final(r)).spec_id().same(entry.spec_id()) {
                    lemma_inserted_absent(old_map, entry, *final(r), kept@[i].sparse);
                }
            }
        }
        r
    }
}


impl<T: DenseEntry> SparseSet<T> {
    /// Takes out the entry named by `id` and remembers its handle for recycling.
    pub fn delete(&mut self, id: Id<T::Key>) -> (r: Option<T>)
        requires
            old(self).wf(),
        ensures
            final(self).wf(),
            r == lookup(old(self)@, id),
            final(self)@ == removed(old(self)@, id),
            entry_index(old(self)@, id) >= 0 ==> final(self).deleted_view() == old(
                self,
            ).deleted_view().push(id),
            entry_index(old(self)@, id) < 0 ==> final(self).deleted_view() == old(
                self,
            ).deleted_view(),
            lookup(final(self)@, id) is None,
            final(self).issued() == old(self).issued(),
            old(self).fresh() ==> final(self).fresh(),
            forall|other: Id<T::Key>|
                other.sparse != id.sparse ==> #[trigger] lookup(final(self)@, other) == lookup(
                    old(self)@,
                    other,
                ),
    {
        let ghost old_map = self.map@;
        proof {
            self.map.lemma_wf_unique();
            lemma_key_index_range(old_map, id.sparse);
            law_lookup_after_remove(old_map, id);
            assert forall|other: Id<T::Key>| other.sparse != id.sparse implies #[trigger] lookup(
                removed(old_map, id),
                other,
            ) == lookup(old_map, other) by {
                law_remove_keeps_other_slots(old_map, id, other);
            }
        }
        match self.map.remove(id) {
            Some(value) => {
                proof {
                    let n = self.map@;
                    let p = entry_index(old_map, id);
                    assert forall|k: u16| key_index(old_map, k) < 0 implies key_index(n, k) < 0 by {
                        lemma_removed_absent(old_map, p, k);
                    }
                    assert forall|i: int| 0 <= i < n.len() implies key_of(#[trigger] n[i])
                        != id.sparse by {
                        lemma_removed_keys(old_map, p, i);
                    }
                    lemma_key_index_absent(n, id.sparse);
                }
                self.deleted.push(id);
                proof {
                    if old(self).fresh() {
                        law_delete_compact(old_map, old(self).deleted@, id);
                        law_delete_accounted(old_map, old(self).deleted@, self.issued@, id);
                    }
                }
                Some(value)
            },
            None => None,
        }
    }

    /// Whether an entry is named by `id`.
    pub fn contains(&self, id: Id<T::Key>) -> (r: bool)
        requires
            self.wf(),
        ensures
            r == (entry_index(self@, id) >= 0),
    {
        self.map.contains(id)
    }

    /// The number of entries.
    pub fn len(&self) -> (r: usize)
        ensures
            r == self@.len(),
    {
        self.map.len()
    }

    /// The entry named by `id`.
    pub fn get(&self, id: Id<T::Key>) -> (r: Option<&T>)
        requires
            self.wf(),
        ensures
            r matches Some(v) ==> lookup(self@, id) == Some(*v),
            r is None ==> lookup(self@, id) is None,
    {
        self.map.get(id)
    }

    /// The entry named by `id`, for modification.
    pub fn get_mut(&mut self, id: Id<T::Key>) -> (r: Option<&mut T>)
        requires
            old(self).wf(),
        ensures
            final(self).deleted_view() == old(self).deleted_view(),
            final(self).issued() == old(self).issued(),
            old(self).fresh() && same_handles(final(self)@, old(self)@) ==> final(self).fresh(),
            entry_index(old(self)@, id) >= 0 ==> r is Some && *r.unwrap() == old(self)@[entry_index(
                old(self)@,
                id,
            )] && final(self)@ == old(self)@.update(
                entry_index(old(self)@, id),
                *final(r.unwrap()),
            ) && ((*final(r.unwrap())).spec_id().same(old(self)@[entry_index(old(self)@, id)].spec_id())
                ==> final(self).wf()),
            entry_index(old(self)@, id) < 0 ==> r is None && *final(self) == *old(self),
    {
        proof {
            self.map.lemma_wf_unique();
        }
        let ghost old_map = self.map@;
        proof {
            lemma_fresh_kept(old_map, self.deleted@, self.issued@);
        }
        let r = self.map.get_mut(id);
        proof {
            if entry_index(old_map, id) >= 0 {
                let p = entry_index(old_map, id);
                lemma_key_index_range(old_map, id.sparse);
                lemma_update_absent(old_map, p, *final(r.unwrap()));
            }
        }
        r
    }

    /// Iterates over the entries in storage order.
    pub fn iter(&self) -> (r: core::slice::Iter<'_, T>)
        ensures
            vstd::std_specs::slice::into_iter_elts(r) == self@,
    {
        self.map.iter()
    }

    /// Iterates over the entries in storage order, for modification.
    pub fn iter_mut(&mut self) -> (r: core::slice::IterMut<'_, T>)
        requires
            old(self).wf(),
        ensures
            final(self)@.len() == old(self)@.len(),
            final(self).deleted_view() == old(self).deleted_view(),
            final(self).issued() == old(self).issued(),
            same_handles(final(self)@, old(self)@) ==> final(self).wf(),
            old(self).fresh() && same_handles(final(self)@, old(self)@) ==> final(self).fresh(),
    {
        proof {
            lemma_same_handles_absent(old(self).map@, final(self).map@);
            lemma_fresh_kept(old(self).map@, self.deleted@, self.issued@);
        }
        self.map.iter_mut()
    }

    /// The storage position of the entry named by `id`.
    pub fn dense_index(&self, id: Id<T::Key>) -> (r: Option<u16>)
        requires
            self.wf(),
        ensures
            r matches Some(d) ==> entry_index(self@, id) == d as int,
            r is None ==> entry_index(self@, id) < 0,
    {
        self.map.dense_index(id)
    }
}

/// Proves that replacing an entry by one of the same slot leaves every vacant slot
/// vacant.
pub proof fn lemma_update_absent<T: DenseEntry>(s: Seq<T>, p: int, a: T)
    requires
        unique_keys(s),
        0 <= p < s.len(),
    ensures
        key_of(a) == key_of(s[p]) ==> forall|k: u16|
            key_index(s, k) < 0 ==> #[trigger] key_index(s.update(p, a), k) < 0,
{
    if key_of(a) == key_of(s[p]) {
        assert forall|k: u16| key_index(s, k) < 0 implies #[trigger] key_index(s.update(p, a), k)
            < 0 by {
            lemma_key_index_at(s, p);
            lemma_inserted_absent(s, s[p], a, k);
        }
    }
}

/// Proves that entries with the same handles occupy the same slots.
pub proof fn lemma_same_handles_absent<T: DenseEntry>(o: Seq<T>, n: Seq<T>)
    ensures
        same_handles(n, o) ==> forall|k: u16|
            key_index(o, k) < 0 ==> #[trigger] key_index(n, k) < 0,
{
    if same_handles(n, o) {
        assert forall|k: u16| key_index(o, k) < 0 implies #[trigger] key_index(n, k) < 0 by {
            assert forall|i: int| 0 <= i < n.len() implies key_of(#[trigger] n[i]) != k by {
                assert(n[i].spec_id().same(o[i].spec_id()));
                if key_of(o[i]) == k {
                    assert(exists|j: int| 0 <= j < o.len() && key_of(#[trigger] o[j]) == k);
                }
            }
            lemma_key_index_absent(n, k);
        }
    }
}

/// Proves that the keys left after a removal at `p` are keys of the sequence before it
/// other than the removed one.
pub proof fn lemma_removed_keys<T: DenseEntry>(s: Seq<T>, p: int, i: int)
    requires
        unique_keys(s),
        0 <= p < s.len(),
        0 <= i < s.len() - 1,
    ensures
        key_of(s.update(p, s.last()).drop_last()[i]) != key_of(s[p]),
        exists|j: int|
            0 <= j < s.len() && j != p && s.update(p, s.last()).drop_last()[i] == #[trigger] s[j],
{
    let n = s.update(p, s.last()).drop_last();
    if i == p {
        assert(n[i] == s[s.len() - 1]);
    } else {
        assert(n[i] == s[i]);
    }
}

/// Proves that a removal leaves every vacant slot vacant.
pub proof fn lemma_removed_absent<T: DenseEntry>(s: Seq<T>, p: int, k: u16)
    requires
        unique_keys(s),
        0 <= p < s.len(),
        key_index(s, k) < 0,
    ensures
        key_index(s.update(p, s.last()).drop_last(), k) < 0,
{
    let n = s.update(p, s.last()).drop_last();
    assert forall|i: int| 0 <= i < n.len() implies key_of(#[trigger] n[i]) != k by {
        lemma_removed_keys(s, p, i);
        let j = choose|j: int| 0 <= j < s.len() && j != p && n[i] == #[trigger] s[j];
        if key_of(s[j]) == k {
            assert(exists|m: int| 0 <= m < s.len() && key_of(#[trigger] s[m]) == k);
        }
    }
    lemma_key_index_absent(n, k);
}


impl<T: DenseEntry> std::ops::Index<Id<T::Key>> for SparseMap<T> {
    type Output = T;

    /// The entry named by `index`; the caller must know that there is one.
    fn index(&self, index: Id<T::Key>) -> (r: &T)
        ensures
            lookup(self@, index) == Some(*r),
    {
        self.get(index).unwrap()
    }
}

impl<T: DenseEntry> vstd::std_specs::core::IndexSpecImpl<Id<T::Key>> for SparseMap<T> {
    open spec fn index_req(&self, index: &Id<T::Key>) -> bool {
        self.wf() && entry_index(self@, *index) >= 0
    }
}

impl<T: DenseEntry> std::ops::Index<Id<T::Key>> for SparseSet<T> {
    type Output = T;

    /// The entry named by `index`; the caller must know that there is one.
    fn index(&self, index: Id<T::Key>) -> (r: &T)
        ensures
            lookup(self@, index) == Some(*r),
    {
        &self.map[index]
    }
}

impl<T: DenseEntry> vstd::std_specs::core::IndexSpecImpl<Id<T::Key>> for SparseSet<T> {
    open spec fn index_req(&self, index: &Id<T::Key>) -> bool {
        self.wf() && entry_index(self@, *index) >= 0
    }
}

impl<T: DenseEntry> IntoIterator for SparseMap<T> {
    type Item = T;

    type IntoIter = std::vec::IntoIter<T>;

    fn into_iter(self) -> (r: std::vec::IntoIter<T>)
        ensures
            vstd::std_specs::iter::IteratorSpec::remaining(&r) == self@,
    {
        self.dense.into_iter()
    }
}

impl<'a, T: DenseEntry> IntoIterator for &'a SparseMap<T> {
    type Item = &'a T;

    type IntoIter = core::slice::Iter<'a, T>;

    fn into_iter(self) -> (r: core::slice::Iter<'a, T>)
        ensures
            vstd::std_specs::slice::into_iter_elts(r) == self@,
    {
        self.iter()
    }
}

impl<T: DenseEntry> IntoIterator for SparseSet<T> {
    type Item = T;

    type IntoIter = std::vec::IntoIter<T>;

    fn into_iter(self) -> (r: std::vec::IntoIter<T>)
        ensures
            vstd::std_specs::iter::IteratorSpec::remaining(&r) == self@,
    {
        self.map.into_iter()
    }
}

impl<'a, T: DenseEntry> IntoIterator for &'a SparseSet<T> {
    type Item = &'a T;

    type IntoIter = core::slice::Iter<'a, T>;

    fn into_iter(self) -> (r: core::slice::Iter<'a, T>)
        ensures
            vstd::std_specs::slice::into_iter_elts(r) == self@,
    {
        self.iter()
    }
}


/// Storing an entry and then looking it up by its own handle finds that entry.
pub proof fn law_lookup_after_insert<T: DenseEntry>(s: Seq<T>, t: T)
    requires
        unique_keys(s),
    ensures
        lookup(inserted(s, t, t), t.spec_id()) == Some(t),
        unique_keys(inserted(s, t, t)),
{
    let n = inserted(s, t, t);
    let k = key_of(t);
    lemma_key_index_range(s, k);
    let p = if key_index(s, k) >= 0 {
        key_index(s, k)
    } else {
        s.len() as int
    };
    assert(n[p] == t);
    assert forall|i: int, j: int|
        0 <= i < n.len() && 0 <= j < n.len() && i != j implies key_of(#[trigger] n[i]) != key_of(
        #[trigger] n[j],
    ) by {
        if i != p && j != p {
            assert(n[i] == s[i] && n[j] == s[j]);
        } else if i == p {
            if key_of(n[j]) == k {
                assert(n[j] == s[j]);
                assert(exists|m: int| 0 <= m < s.len() && key_of(#[trigger] s[m]) == k);
            }
        } else {
            if key_of(n[i]) == k {
                assert(n[i] == s[i]);
                assert(exists|m: int| 0 <= m < s.len() && key_of(#[trigger] s[m]) == k);
            }
        }
    }
    lemma_key_index_at(n, p);
}

/// Storing an entry does not change what a handle of another slot finds.
pub proof fn law_insert_keeps_other_slots<T: DenseEntry>(s: Seq<T>, t: T, id: Id<T::Key>)
    requires
        unique_keys(s),
        id.sparse != key_of(t),
    ensures
        lookup(inserted(s, t, t), id) == lookup(s, id),
{
    let n = inserted(s, t, t);
    law_lookup_after_insert(s, t);
    lemma_key_index_range(s, key_of(t));
    lemma_key_index_range(s, id.sparse);
    if key_index(s, id.sparse) >= 0 {
        let q = key_index(s, id.sparse);
        assert(n[q] == s[q]);
        lemma_key_index_at(n, q);
    } else {
        lemma_inserted_absent(s, t, t, id.sparse);
    }
}

/// Once a slot holds an entry, a handle of that slot with another generation
/// finds nothing.
pub proof fn law_stale_handle_finds_nothing<T: DenseEntry>(s: Seq<T>, t: T, id: Id<T::Key>)
    requires
        unique_keys(s),
        id.sparse == key_of(t),
        id.version != version_of(t),
    ensures
        lookup(inserted(s, t, t), id) is None,
{
    law_lookup_after_insert(s, t);
}

/// Taking out an entry and then looking up its handle finds nothing.
pub proof fn law_lookup_after_remove<T: DenseEntry>(s: Seq<T>, id: Id<T::Key>)
    requires
        unique_keys(s),
    ensures
        lookup(removed(s, id), id) is None,
        unique_keys(removed(s, id)),
{
    let p = entry_index(s, id);
    lemma_key_index_range(s, id.sparse);
    if p >= 0 {
        let n = removed(s, id);
        assert forall|i: int| 0 <= i < n.len() implies key_of(#[trigger] n[i]) != id.sparse by {
            lemma_removed_keys(s, p, i);
        }
        lemma_key_index_absent(n, id.sparse);
        assert forall|i: int, j: int|
            0 <= i < n.len() && 0 <= j < n.len() && i != j implies key_of(#[trigger] n[i])
            != key_of(#[trigger] n[j]) by {
            let a = if i == p {
                s.len() - 1
            } else {
                i
            };
            let b = if j == p {
                s.len() - 1
            } else {
                j
            };
            assert(n[i] == s[a] && n[j] == s[b]);
        }
    }
}

/// Taking out an entry does not change what a handle of another slot finds.
pub proof fn law_remove_keeps_other_slots<T: DenseEntry>(
    s: Seq<T>,
    id: Id<T::Key>,
    other: Id<T::Key>,
)
    requires
        unique_keys(s),
        other.sparse != id.sparse,
    ensures
        lookup(removed(s, id), other) == lookup(s, other),
{
    let p = entry_index(s, id);
    law_lookup_after_remove(s, id);
    lemma_key_index_range(s, id.sparse);
    lemma_key_index_range(s, other.sparse);
    if p >= 0 {
        let n = removed(s, id);
        let q = key_index(s, other.sparse);
        if q >= 0 {
            let m = if q == s.len() - 1 {
                p
            } else {
                q
            };
            assert(n[m] == s[q]);
            lemma_key_index_at(n, m);
        } else {
            lemma_removed_absent(s, p, other.sparse);
        }
    }
}

/// Storing an entry in a vacant slot adds one entry; storing into an occupied slot
/// keeps the count. Taking out a found entry removes one; otherwise the count stays.
pub proof fn law_counts<T: DenseEntry>(s: Seq<T>, t: T, id: Id<T::Key>)
    requires
        unique_keys(s),
    ensures
        inserted(s, t, t).len() == if key_index(s, key_of(t)) >= 0 {
            s.len()
        } else {
            s.len() + 1
        },
        removed(s, id).len() == if lookup(s, id) is Some {
            s.len() - 1
        } else {
            s.len() as int
        },
{
    lemma_key_index_range(s, id.sparse);
}

/// Storing an entry in a vacant slot and then taking it out by its own handle
/// gives back the storage as it was.
pub proof fn law_insert_then_remove<T: DenseEntry>(s: Seq<T>, t: T)
    requires
        unique_keys(s),
        key_index(s, key_of(t)) < 0,
    ensures
        removed(inserted(s, t, t), t.spec_id()) == s,
{
    let n = inserted(s, t, t);
    law_lookup_after_insert(s, t);
    assert(n == s.push(t));
    lemma_key_index_at(n, s.len() as int);
    assert(entry_index(n, t.spec_id()) == s.len());
    assert(removed(n, t.spec_id()) =~= s);
}

/// The slot that `next_id` hands out for a set with `len` entries and these
/// deleted handles: the last deleted handle's slot, or else the first slot past
/// the entries.
pub open spec fn next_slot<K>(len: nat, deleted: Seq<Id<K>>) -> int {
    if deleted.len() > 0 {
        deleted.last().sparse as int
    } else {
        len as int
    }
}

/// What holds of a set whose entries all came in under handles that `next_id`
/// handed out: the deleted handles lie in distinct, vacant slots, and every slot
/// in use, by an entry or a deleted handle, lies below the number of entries
/// plus deleted handles.
pub open spec fn handles_compact<T: DenseEntry>(s: Seq<T>, deleted: Seq<Id<T::Key>>) -> bool {
    &&& forall|i: int, j: int|
        0 <= i < deleted.len() && 0 <= j < deleted.len() && i != j ==> (#[trigger] deleted[i]).sparse
            != (#[trigger] deleted[j]).sparse
    &&& forall|i: int| 0 <= i < deleted.len() ==> key_index(s, (#[trigger] deleted[i]).sparse) < 0
    &&& forall|i: int| 0 <= i < s.len() ==> key_of(#[trigger] s[i]) < s.len() + deleted.len()
    &&& forall|i: int| 0 <= i < deleted.len() ==> (#[trigger] deleted[i]).sparse < s.len()
        + deleted.len()
}

/// Proves that dropping the handles of a slot that none of them has keeps them all.
proof fn lemma_not_in_slot_keeps<K>(d: Seq<Id<K>>, k: u16)
    requires
        forall|i: int| 0 <= i < d.len() ==> (#[trigger] d[i]).sparse != k,
    ensures
        not_in_slot(d, k) == d,
    decreases d.len(),
{
    reveal(Seq::filter);
    if d.len() > 0 {
        lemma_not_in_slot_keeps(d.drop_last(), k);
        assert(d.drop_last().push(d.last()) == d);
    }
}

/// An empty set is compact.
pub proof fn law_new_set_compact<T: DenseEntry>()
    ensures
        handles_compact(Seq::<T>::empty(), Seq::<Id<T::Key>>::empty()),
{
}

/// In a compact set no entry sits in the slot that `next_id` hands out, so the
/// handle it hands out names no entry.
pub proof fn law_next_id_vacant<T: DenseEntry>(s: Seq<T>, deleted: Seq<Id<T::Key>>, id: Id<T::Key>)
    requires
        handles_compact(s, deleted),
        id.sparse == next_slot(s.len(), deleted),
    ensures
        key_index(s, id.sparse) < 0,
        lookup(s, id) is None,
{
    if deleted.len() > 0 {
        assert(deleted[deleted.len() - 1] == deleted.last());
    } else {
        assert forall|i: int| 0 <= i < s.len() implies key_of(#[trigger] s[i]) != id.sparse by {}
        lemma_key_index_absent(s, id.sparse);
    }
}

/// Storing an entry under the handle that `next_id` hands out keeps a set
/// compact.
pub proof fn law_insert_next_id_compact<T: DenseEntry>(s: Seq<T>, deleted: Seq<Id<T::Key>>, t: T)
    requires
        unique_keys(s),
        handles_compact(s, deleted),
        key_of(t) == next_slot(s.len(), deleted),
    ensures
        handles_compact(inserted(s, t, t), not_in_slot(deleted, key_of(t))),
{
    let k = key_of(t);
    law_next_id_vacant(s, deleted, t.spec_id());
    let n = inserted(s, t, t);
    assert(n == s.push(t));
    law_lookup_after_insert(s, t);
    if deleted.len() == 0 {
        lemma_not_in_slot_keeps(deleted, k);
        assert forall|i: int| 0 <= i < n.len() implies key_of(#[trigger] n[i]) < n.len() by {
            if i < s.len() {
                assert(n[i] == s[i]);
            }
        }
    } else {
        let p = deleted.drop_last();
        assert forall|i: int| 0 <= i < p.len() implies (#[trigger] p[i]).sparse != k by {
            assert(p[i] == deleted[i]);
            assert(deleted[deleted.len() - 1] == deleted.last());
        }
        lemma_not_in_slot_keeps(p, k);
        assert(p.push(deleted.last()) == deleted);
        assert(not_in_slot(deleted, k) == p) by {
            reveal(Seq::filter);
        }
        assert forall|i: int| 0 <= i < p.len() implies key_index(n, (#[trigger] p[i]).sparse) < 0 by {
            assert(p[i] == deleted[i]);
            lemma_inserted_absent(s, t, t, p[i].sparse);
        }
        assert forall|i: int| 0 <= i < n.len() implies key_of(#[trigger] n[i]) < n.len() + p.len() by {
            if i < s.len() {
                assert(n[i] == s[i]);
            } else {
                assert(deleted[deleted.len() - 1] == deleted.last());
            }
        }
        assert forall|i: int| 0 <= i < p.len() implies (#[trigger] p[i]).sparse < n.len() + p.len() by {
            assert(p[i] == deleted[i]);
        }
        assert forall|i: int, j: int|
            0 <= i < p.len() && 0 <= j < p.len() && i != j implies (#[trigger] p[i]).sparse
            != (#[trigger] p[j]).sparse by {
            assert(p[i] == deleted[i]);
            assert(p[j] == deleted[j]);
        }
    }
}

/// Deleting an entry and remembering its handle keeps a set compact.
pub proof fn law_delete_compact<T: DenseEntry>(s: Seq<T>, deleted: Seq<Id<T::Key>>, id: Id<T::Key>)
    requires
        unique_keys(s),
        handles_compact(s, deleted),
        entry_index(s, id) >= 0,
    ensures
        handles_compact(removed(s, id), deleted.push(id)),
{
    let p = entry_index(s, id);
    lemma_key_index_range(s, id.sparse);
    let n = removed(s, id);
    let d = deleted.push(id);
    assert(n == s.update(p, s.last()).drop_last());
    assert forall|i: int| 0 <= i < n.len() implies key_of(#[trigger] n[i]) < n.len() + d.len() by {
        lemma_removed_keys(s, p, i);
        let j = choose|j: int| 0 <= j < s.len() && j != p && n[i] == #[trigger] s[j];
    }
    assert forall|i: int| 0 <= i < d.len() implies key_index(n, (#[trigger] d[i]).sparse) < 0 by {
        if i < deleted.len() {
            assert(d[i] == deleted[i]);
            lemma_removed_absent(s, p, deleted[i].sparse);
        } else {
            assert forall|m: int| 0 <= m < n.len() implies key_of(#[trigger] n[m]) != id.sparse by {
                lemma_removed_keys(s, p, m);
            }
            lemma_key_index_absent(n, id.sparse);
        }
    }
    assert forall|i: int| 0 <= i < d.len() implies (#[trigger] d[i]).sparse < n.len() + d.len() by {
        if i < deleted.len() {
            assert(d[i] == deleted[i]);
        }
    }
    assert forall|i: int, j: int|
        0 <= i < d.len() && 0 <= j < d.len() && i != j implies (#[trigger] d[i]).sparse
        != (#[trigger] d[j]).sparse by {
        if i < deleted.len() {
            assert(d[i] == deleted[i]);
        }
        if j < deleted.len() {
            assert(d[j] == deleted[j]);
        }
    }
}

/// The stored entries are exactly the contents: each is found by its own handle,
/// no two share a slot, and every handle that finds an entry names a stored one.
pub proof fn law_entries_are_contents<T: DenseEntry>(s: Seq<T>)
    requires
        unique_keys(s),
    ensures
        forall|i: int| 0 <= i < s.len() ==> lookup(s, (#[trigger] s[i]).spec_id()) == Some(s[i]),
        forall|i: int, j: int|
            0 <= i < s.len() && 0 <= j < s.len() && i != j ==> key_of(#[trigger] s[i]) != key_of(
                #[trigger] s[j],
            ),
        forall|id: Id<T::Key>|
            #[trigger] lookup(s, id) is Some ==> exists|i: int|
                0 <= i < s.len() && lookup(s, id) == Some(s[i]) && is_entry_for(s[i], id),
{
    assert forall|i: int| 0 <= i < s.len() implies lookup(s, (#[trigger] s[i]).spec_id()) == Some(
        s[i],
    ) by {
        lemma_key_index_at(s, i);
    }
    assert forall|id: Id<T::Key>| #[trigger] lookup(s, id) is Some implies exists|i: int|
        0 <= i < s.len() && lookup(s, id) == Some(s[i]) && is_entry_for(s[i], id) by {
        lemma_key_index_range(s, id.sparse);
        let i = entry_index(s, id);
        assert(lookup(s, id) == Some(s[i]) && is_entry_for(s[i], id));
    }
}

/// The generation that `next_id` hands out: one past the last deleted handle's,
/// or `0` when no handle was deleted.
pub open spec fn next_version<K>(deleted: Seq<Id<K>>) -> int {
    if deleted.len() > 0 {
        deleted.last().version + 1
    } else {
        0
    }
}

/// Handle `id` is accounted for: its slot holds an entry, or a deleted handle,
/// of its generation or a later one.
pub open spec fn accounted<T: DenseEntry>(s: Seq<T>, deleted: Seq<Id<T::Key>>, id: Id<T::Key>) -> bool {
    ||| exists|i: int|
        0 <= i < s.len() && key_of(#[trigger] s[i]) == id.sparse && version_of(s[i]) >= id.version
    ||| exists|j: int|
        0 <= j < deleted.len() && (#[trigger] deleted[j]).sparse == id.sparse && deleted[j].version
            >= id.version
}

/// Every handle in `issued` is accounted for.
pub open spec fn issued_accounted<T: DenseEntry>(
    s: Seq<T>,
    deleted: Seq<Id<T::Key>>,
    issued: Set<Id<T::Key>>,
) -> bool {
    forall|id: Id<T::Key>| #[trigger] issued.contains(id) ==> accounted(s, deleted, id)
}

/// Proves that dropping the last deleted handle's slot, when the deleted handles
/// lie in distinct slots, drops just that handle.
proof fn lemma_next_slot_drop<K>(d: Seq<Id<K>>)
    requires
        d.len() > 0,
        forall|i: int, j: int|
            0 <= i < d.len() && 0 <= j < d.len() && i != j ==> (#[trigger] d[i]).sparse != (
            #[trigger] d[j]).sparse,
    ensures
        not_in_slot(d, d.last().sparse) == d.drop_last(),
{
    let p = d.drop_last();
    let k = d.last().sparse;
    assert forall|i: int| 0 <= i < p.len() implies (#[trigger] p[i]).sparse != k by {
        assert(p[i] == d[i]);
        assert(d[d.len() - 1] == d.last());
    }
    lemma_not_in_slot_keeps(p, k);
    assert(p.push(d.last()) == d);
    reveal(Seq::filter);
}

/// In a compact set where every handle ever handed out is accounted for, the
/// handle that `next_id` hands out was never handed out before.
pub proof fn law_next_id_unissued<T: DenseEntry>(
    s: Seq<T>,
    deleted: Seq<Id<T::Key>>,
    issued: Set<Id<T::Key>>,
    id: Id<T::Key>,
)
    requires
        handles_compact(s, deleted),
        issued_accounted(s, deleted, issued),
        id.sparse == next_slot(s.len(), deleted),
        id.version == next_version(deleted),
    ensures
        forall|x: Id<T::Key>| #[trigger] issued.contains(x) ==> !x.same(id),
{
    law_next_id_vacant(s, deleted, id);
    assert forall|x: Id<T::Key>| #[trigger] issued.contains(x) implies !x.same(id) by {
        if x.same(id) {
            lemma_next_id_unaccounted(s, deleted, x, id);
        }
    }
}

/// Proves that no handle of the slot and generation that `next_id` hands out is
/// accounted for in a compact set.
proof fn lemma_next_id_unaccounted<T: DenseEntry>(
    s: Seq<T>,
    deleted: Seq<Id<T::Key>>,
    x: Id<T::Key>,
    id: Id<T::Key>,
)
    requires
        handles_compact(s, deleted),
        id.sparse == next_slot(s.len(), deleted),
        id.version == next_version(deleted),
        x.same(id),
    ensures
        !accounted(s, deleted, x),
{
    law_next_id_vacant(s, deleted, id);
    if accounted(s, deleted, id) {
        if exists|i: int|
            0 <= i < s.len() && key_of(#[trigger] s[i]) == id.sparse && version_of(s[i]) >= id.version {
            let i = choose|i: int|
                0 <= i < s.len() && key_of(#[trigger] s[i]) == id.sparse && version_of(s[i])
                    >= id.version;
            assert(exists|m: int| 0 <= m < s.len() && key_of(#[trigger] s[m]) == id.sparse);
        } else {
            let j = choose|j: int|
                0 <= j < deleted.len() && (#[trigger] deleted[j]).sparse == id.sparse
                    && deleted[j].version >= id.version;
            assert(deleted[deleted.len() - 1] == deleted.last());
            if j != deleted.len() - 1 {
                assert(deleted[j].sparse != deleted[deleted.len() - 1].sparse);
            }
        }
    }
}

/// Storing an entry under the handle that `next_id` hands out, and adding that
/// handle to those handed out, keeps every handed-out handle accounted for.
pub proof fn law_insert_next_id_accounted<T: DenseEntry>(
    s: Seq<T>,
    deleted: Seq<Id<T::Key>>,
    issued: Set<Id<T::Key>>,
    t: T,
)
    requires
        unique_keys(s),
        handles_compact(s, deleted),
        issued_accounted(s, deleted, issued),
        key_of(t) == next_slot(s.len(), deleted),
        version_of(t) == next_version(deleted),
    ensures
        issued_accounted(
            inserted(s, t, t),
            not_in_slot(deleted, key_of(t)),
            issued.insert(t.spec_id()),
        ),
{
    let k = key_of(t);
    law_next_id_vacant(s, deleted, t.spec_id());
    let n = inserted(s, t, t);
    assert(n == s.push(t));
    let nd = not_in_slot(deleted, k);
    if deleted.len() == 0 {
        lemma_not_in_slot_keeps(deleted, k);
    } else {
        lemma_next_slot_drop(deleted);
    }
    assert(nd.len() <= deleted.len());
    assert forall|x: Id<T::Key>| #[trigger] issued.insert(t.spec_id()).contains(x) implies accounted(
        n,
        nd,
        x,
    ) by {
        assert(n[s.len() as int] == t);
        if x == t.spec_id() {
            assert(key_of(n[s.len() as int]) == x.sparse);
        } else {
            assert(issued.contains(x));
            assert(accounted(s, deleted, x));
            if exists|i: int|
                0 <= i < s.len() && key_of(#[trigger] s[i]) == x.sparse && version_of(s[i])
                    >= x.version {
                let i = choose|i: int|
                    0 <= i < s.len() && key_of(#[trigger] s[i]) == x.sparse && version_of(s[i])
                        >= x.version;
                assert(n[i] == s[i]);
            } else {
                let j = choose|j: int|
                    0 <= j < deleted.len() && (#[trigger] deleted[j]).sparse == x.sparse
                        && deleted[j].version >= x.version;
                if j < deleted.len() - 1 {
                    assert(nd[j] == deleted[j]);
                } else {
                    assert(deleted[deleted.len() - 1] == deleted.last());
                    assert(key_of(n[s.len() as int]) == x.sparse);
                }
            }
        }
    }
}

/// Deleting an entry and remembering its handle keeps every handed-out handle
/// accounted for.
pub proof fn law_delete_accounted<T: DenseEntry>(
    s: Seq<T>,
    deleted: Seq<Id<T::Key>>,
    issued: Set<Id<T::Key>>,
    id: Id<T::Key>,
)
    requires
        unique_keys(s),
        issued_accounted(s, deleted, issued),
        entry_index(s, id) >= 0,
    ensures
        issued_accounted(removed(s, id), deleted.push(id), issued),
{
    let p = entry_index(s, id);
    lemma_key_index_range(s, id.sparse);
    let n = removed(s, id);
    let d = deleted.push(id);
    assert(n == s.update(p, s.last()).drop_last());
    assert forall|x: Id<T::Key>| #[trigger] issued.contains(x) implies accounted(n, d, x) by {
        assert(accounted(s, deleted, x));
        if exists|i: int|
            0 <= i < s.len() && key_of(#[trigger] s[i]) == x.sparse && version_of(s[i]) >= x.version {
            let i = choose|i: int|
                0 <= i < s.len() && key_of(#[trigger] s[i]) == x.sparse && version_of(s[i])
                    >= x.version;
            if i == p {
                assert(d[deleted.len() as int] == id);
            } else if i == s.len() - 1 {
                assert(n[p] == s[i]);
            } else {
                assert(n[i] == s[i]);
            }
        } else {
            let j = choose|j: int|
                0 <= j < deleted.len() && (#[trigger] deleted[j]).sparse == x.sparse
                    && deleted[j].version >= x.version;
            assert(d[j] == deleted[j]);
        }
    }
}

/// Proves that entries with the same handles, position by position, make a set
/// just as compact and account for the same handed-out handles.
proof fn lemma_same_handles_fresh<T: DenseEntry>(
    o: Seq<T>,
    n: Seq<T>,
    deleted: Seq<Id<T::Key>>,
    issued: Set<Id<T::Key>>,
)
    requires
        same_handles(n, o),
        handles_compact(o, deleted),
        issued_accounted(o, deleted, issued),
    ensures
        handles_compact(n, deleted),
        issued_accounted(n, deleted, issued),
{
    lemma_same_handles_absent(o, n);
    assert forall|i: int| 0 <= i < n.len() implies key_of(#[trigger] n[i]) < n.len()
        + deleted.len() by {
        assert(n[i].spec_id().same(o[i].spec_id()));
    }
    assert forall|x: Id<T::Key>| #[trigger] issued.contains(x) implies accounted(n, deleted, x) by {
        assert(accounted(o, deleted, x));
        if exists|i: int|
            0 <= i < o.len() && key_of(#[trigger] o[i]) == x.sparse && version_of(o[i]) >= x.version {
            let i = choose|i: int|
                0 <= i < o.len() && key_of(#[trigger] o[i]) == x.sparse && version_of(o[i])
                    >= x.version;
            assert(n[i].spec_id().same(o[i].spec_id()));
        }
    }
}

/// Proves that storing, under the handle that `next_id` hands out, an entry that
/// ends up as `stored` with the same handle keeps a set compact with every
/// handed-out handle accounted for.
proof fn lemma_insert_fresh<T: DenseEntry>(
    s: Seq<T>,
    deleted: Seq<Id<T::Key>>,
    issued: Set<Id<T::Key>>,
    t: T,
    stored: T,
)
    requires
        unique_keys(s),
    ensures
        handles_compact(s, deleted) && issued_accounted(s, deleted, issued) && key_of(t)
            == next_slot(s.len(), deleted) && version_of(t) == next_version(deleted)
            && stored.spec_id().same(t.spec_id()) ==> handles_compact(
            inserted(s, t, stored),
            not_in_slot(deleted, key_of(t)),
        ) && issued_accounted(
            inserted(s, t, stored),
            not_in_slot(deleted, key_of(t)),
            issued.insert(t.spec_id()),
        ),
{
    if handles_compact(s, deleted) && issued_accounted(s, deleted, issued) && key_of(t)
        == next_slot(s.len(), deleted) && version_of(t) == next_version(deleted)
        && stored.spec_id().same(t.spec_id()) {
        law_insert_next_id_compact(s, deleted, t);
        law_insert_next_id_accounted(s, deleted, issued, t);
        law_next_id_vacant(s, deleted, t.spec_id());
        let a = inserted(s, t, t);
        let b = inserted(s, t, stored);
        assert(a == s.push(t));
        assert(b == s.push(stored));
        assert(same_handles(b, a));
        lemma_same_handles_fresh(
            a,
            b,
            not_in_slot(deleted, key_of(t)),
            issued.insert(t.spec_id()),
        );
    }
}

/// Proves that entries changed without changing their handles keep a set fresh.
proof fn lemma_fresh_kept<T: DenseEntry>(
    o: Seq<T>,
    deleted: Seq<Id<T::Key>>,
    issued: Set<Id<T::Key>>,
)
    ensures
        forall|n: Seq<T>|
            handles_compact(o, deleted) && issued_accounted(o, deleted, issued) && #[trigger] same_handles(n, o)
                ==> handles_compact(n, deleted) && issued_accounted(n, deleted, issued),
{
    assert forall|n: Seq<T>|
        handles_compact(o, deleted) && issued_accounted(o, deleted, issued) && #[trigger] same_handles(n, o)
        implies handles_compact(n, deleted) && issued_accounted(n, deleted, issued) by {
        lemma_same_handles_fresh(o, n, deleted, issued);
    }
}

/// One call that changes a [`SparseMap`]: `insert` of an entry, or `remove` of a
/// handle.
pub enum MapOp<T: DenseEntry> {
    Insert(T),
    Remove(Id<T::Key>),
}

/// The entries of a map made by `new` and then changed by `ops`, in order.
pub open spec fn replay<T: DenseEntry>(ops: Seq<MapOp<T>>) -> Seq<T>
    decreases ops.len(),
{
    if ops.len() == 0 {
        Seq::empty()
    } else {
        let s = replay(ops.drop_last());
        match ops.last() {
            MapOp::Insert(t) => inserted(s, t, t),
            MapOp::Remove(id) => removed(s, id),
        }
    }
}

/// What a lookup of `id` owes after `ops`: the last entry inserted into the slot
/// of `id`, when it has the generation of `id` and no removal of `id` came after
/// it; otherwise nothing.
pub open spec fn latest<T: DenseEntry>(ops: Seq<MapOp<T>>, id: Id<T::Key>) -> Option<T>
    decreases ops.len(),
{
    if ops.len() == 0 {
        None
    } else {
        match ops.last() {
            MapOp::Insert(t) => if key_of(t) == id.sparse {
                if version_of(t) == id.version {
                    Some(t)
                } else {
                    None
                }
            } else {
                latest(ops.drop_last(), id)
            },
            MapOp::Remove(r) => if r.same(id) {
                None
            } else {
                latest(ops.drop_last(), id)
            },
        }
    }
}

/// Proves that taking out an entry leaves its slot vacant.
proof fn lemma_removed_slot_vacant<T: DenseEntry>(s: Seq<T>, r: Id<T::Key>, id: Id<T::Key>)
    requires
        unique_keys(s),
        id.sparse == r.sparse,
        entry_index(s, r) >= 0,
    ensures
        lookup(removed(s, r), id) is None,
{
    let p = entry_index(s, r);
    let n = removed(s, r);
    lemma_key_index_range(s, r.sparse);
    assert forall|i: int| 0 <= i < n.len() implies key_of(#[trigger] n[i]) != id.sparse by {
        lemma_removed_keys(s, p, i);
    }
    lemma_key_index_absent(n, id.sparse);
}

/// After any sequence of insertions and removals from an empty map, a lookup of
/// a handle finds the last entry inserted into its slot, if that entry has the
/// handle's generation and was not removed since; a stale generation, a vacant
/// slot or a removed handle finds nothing.
pub proof fn law_lookup_history<T: DenseEntry>(ops: Seq<MapOp<T>>, id: Id<T::Key>)
    ensures
        lookup(replay(ops), id) == latest(ops, id),
        unique_keys(replay(ops)),
    decreases ops.len(),
{
    if ops.len() > 0 {
        let prev = ops.drop_last();
        law_lookup_history(prev, id);
        let s = replay(prev);
        match ops.last() {
            MapOp::Insert(t) => {
                law_lookup_after_insert(s, t);
                if key_of(t) != id.sparse {
                    law_insert_keeps_other_slots(s, t, id);
                } else if version_of(t) != id.version {
                    law_stale_handle_finds_nothing(s, t, id);
                } else {
                    assert(t.spec_id().same(id));
                }
            },
            MapOp::Remove(r) => {
                law_lookup_after_remove(s, r);
                if r.sparse != id.sparse {
                    law_remove_keeps_other_slots(s, r, id);
                } else if r.version == id.version {
                } else if entry_index(s, r) >= 0 {
                    lemma_removed_slot_vacant(s, r, id);
                    lemma_key_index_range(s, r.sparse);
                }
            },
        }
    }
}

} // verus!
