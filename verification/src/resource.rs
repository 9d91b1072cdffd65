use crate::gltf::accessor::Accessor;
use crate::gltf::buffer::{Buffer, BufferView};
use crate::id::Id;
use crate::storage::{inserted, not_in_slot, DenseEntry, SparseSet};
use std::sync::Arc;
use vstd::prelude::*;

verus! {

/// An immutable, shared resource with a handle and a name.
pub struct Res<V, K = V> {
    id: Id<K>,
    name: String,
    value: Arc<V>,
}

impl<V, K> Res<V, K> {
    /// The handle of the resource.
    pub closed spec fn spec_handle(&self) -> Id<K> {
        self.id
    }

    /// The name of the resource.
    pub closed spec fn spec_name(&self) -> Seq<char> {
        self.name@
    }

    /// The shared value.
    pub closed spec fn spec_value(&self) -> V {
        *self.value
    }

    /// Wraps `value` as the resource named `name` with handle `id`.
    pub fn new(id: Id<K>, name: String, value: V) -> (r: Self)
        ensures
            r.spec_handle().same(id),
            r.spec_id().same(id),
            r.spec_name() == name@,
            r.spec_value() == value,
    {
        Res { id: Id::new(id.sparse, id.version), name, value: Arc::new(value) }
    }

    /// The handle of the resource.
    pub fn id(&self) -> (r: Id<K>)
        ensures
            r.same(self.spec_handle()),
            r.same(self.spec_id()),
    {
        Id::new(self.id.sparse, self.id.version)
    }

    /// The name of the resource.
    pub fn name(&self) -> (r: &str)
        ensures
            r@ == self.spec_name(),
    {
        self.name.as_str()
    }

    /// The shared value.
    pub fn value(&self) -> (r: &V)
        ensures
            *r == self.spec_value(),
    {
        &*self.value
    }
}

impl<V, K> DenseEntry for Res<V, K> {
    type Key = K;

    closed spec fn spec_id(&self) -> Id<K> {
        self.id
    }

    fn id(&self) -> (r: Id<K>) {
        Id::new(self.id.sparse, self.id.version)
    }
}

/// A loaded glTF asset: the data its accessors read.
pub struct Asset {
    pub buffers: Vec<Buffer>,
    pub buffer_views: Vec<BufferView>,
    pub accessors: Vec<Accessor>,
}

/// The loaded assets, each under its own handle.
pub struct AssetManager {
    inner: SparseSet<Res<Asset>>,
}

impl AssetManager {
    /// The manager's assets are stored consistently.
    pub closed spec fn wf(&self) -> bool {
        self.inner.wf()
    }

    /// The assets, in storage order.
    pub closed spec fn assets(&self) -> Seq<Res<Asset>> {
        self.inner@
    }

    /// The handles of removed assets, oldest first.
    pub closed spec fn removed_handles(&self) -> Seq<Id<Asset>> {
        self.inner.deleted_view()
    }

    /// The handles of every asset ever stored.
    pub closed spec fn issued(&self) -> Set<Id<Asset>> {
        self.inner.issued()
    }

    /// Every asset came in under a handle that `add` handed out, so no handle is
    /// handed out twice.
    pub closed spec fn fresh(&self) -> bool {
        self.inner.fresh()
    }

    /// No asset.
    pub fn new() -> (r: Self)
        ensures
            r.wf(),
            r.assets() == Seq::<Res<Asset>>::empty(),
            r.removed_handles() == Seq::<Id<Asset>>::empty(),
            r.issued() == Set::<Id<Asset>>::empty(),
            r.fresh(),
    {
        AssetManager { inner: SparseSet::new() }
    }

    /// Stores `asset` under a fresh handle and the name `name`, and returns the
    /// handle: the slot of the last removed asset with its next generation, or else
    /// the first slot past the assets.
    pub fn add(&mut self, name: String, asset: Asset) -> (r: Id<Asset>)
        requires
            old(self).wf(),
            old(self).assets().len() < u16::MAX,
            old(self).removed_handles().len() > 0 ==> old(self).removed_handles().last().version
                < u16::MAX,
        ensures
            final(self).wf(),
            old(self).removed_handles().len() > 0 ==> r.sparse == old(self).removed_handles().last().sparse
                && r.version == old(self).removed_handles().last().version + 1,
            old(self).removed_handles().len() == 0 ==> r.sparse == old(self).assets().len()
                && r.version == 0,
            exists|res: Res<Asset>|
                #[trigger] res.spec_id().same(r) && res.spec_name() == name@ && res.spec_value()
                    == asset && final(self).assets() == inserted(old(self).assets(), res, res)
                    && final(self).issued() == old(self).issued().insert(res.spec_id()),
            final(self).removed_handles() == not_in_slot(old(self).removed_handles(), r.sparse),
            old(self).fresh() ==> final(self).fresh(),
            old(self).fresh() ==> forall|x: Id<Asset>| #[trigger]
                old(self).issued().contains(x) ==> !x.same(r),
    {
        let id = self.inner.next_id();
        let res = Res::new(id, name, asset);
        let stored = self.inner.insert(res);
        let _ = stored;
        proof {
            assert(res.spec_id().same(id));
        }
        id
    }
}

} // verus!
