//! An arena that owns mesh values and hands out stable handles to them.

use vstd::prelude::*;

verus! {

/// A shared reference to a mesh held by a `MeshStore`.
///
/// Every copy of a handle designates the same slot of the store, so a change made
/// through one copy is seen through every other.
#[derive(Clone, Copy, Debug, PartialEq, Eq, Structural)]
pub struct MeshHandle {
    pub index: usize,
}

/// Owns every mesh; a handle is an index into it. Slots are never freed.
pub struct MeshStore<M> {
    meshes: Vec<M>,
}

impl<M> View for MeshStore<M> {
    type V = Seq<M>;

    closed spec fn view(&self) -> Seq<M> {
        self.meshes@
    }
}

impl<M> MeshStore<M> {
    /// Whether `h` designates a slot of this store.
    pub open spec fn holds(&self, h: MeshHandle) -> bool {
        h.index < self@.len()
    }

    /// An empty store.
    pub fn new() -> (r: Self)
        ensures
            r@ == Seq::<M>::empty(),
    {
        MeshStore { meshes: Vec::new() }
    }

    /// The number of meshes held.
    pub fn len(&self) -> (r: usize)
        ensures
            r == self@.len(),
    {
        self.meshes.len()
    }

    /// Takes ownership of `mesh` and returns a fresh handle to it.
    pub fn insert(&mut self, mesh: M) -> (h: MeshHandle)
        ensures
            final(self)@ == old(self)@.push(mesh),
            h.index == old(self)@.len(),
    {
        let h = MeshHandle { index: self.meshes.len() };
        self.meshes.push(mesh);
        h
    }

    /// The mesh that `h` designates.
    pub fn borrow(&self, h: MeshHandle) -> (r: &M)
        requires
            self.holds(h),
        ensures
            *r == self@[h.index as int],
    {
        &self.meshes[h.index]
    }

    /// Replaces the mesh that `h` designates, for every holder of `h`, and returns
    /// the previous one.
    pub fn replace(&mut self, h: MeshHandle, mesh: M) -> (prev: M)
        requires
            old(self).holds(h),
        ensures
            final(self)@ == old(self)@.update(h.index as int, mesh),
            prev == old(self)@[h.index as int],
    {
        let mut mesh = mesh;
        std::mem::swap(&mut mesh, &mut self.meshes[h.index]);
        mesh
    }
}

} // verus!
