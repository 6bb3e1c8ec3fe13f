//! The mesh cache: a mapping from names to shared mesh handles.

use vstd::prelude::*;

use crate::store::{MeshHandle, MeshStore};

verus! {

/// A unit primitive that the procedural generator can describe, with its tessellation.
#[derive(Clone, Copy, Debug, PartialEq, Eq, Structural)]
pub enum Primitive {
    /// A unit sphere with the given numbers of subdivisions along each angle.
    Sphere(u32, u32),
    /// A unit cube.
    Cube,
    /// A unit cone with the given number of subdivisions of its base.
    Cone(u32),
    /// A unit cylinder with the given number of subdivisions of its base.
    Cylinder(u32),
}

/// The renderable mesh type that a cache shares out, with the collaborators that
/// produce it: a procedural generator and a constructor from a description.
///
/// Each collaborator is a function of its arguments: `described` and `built` name
/// what they compute, and an implementation proves its methods against them.
pub trait Renderable: Sized {
    /// An immutable description of geometry, consumed once to build a mesh.
    type Descr;

    /// The procedural description of `kind`.
    spec fn described(kind: Primitive) -> Self::Descr;

    /// The mesh built from `descr`, with storage for frequent updates when
    /// `dynamic_draw` holds.
    spec fn built(descr: Self::Descr, dynamic_draw: bool) -> Self;

    /// Describes `kind` procedurally.
    fn unit_primitive(kind: Primitive) -> (r: Self::Descr)
        ensures
            r == Self::described(kind),
    ;

    /// Builds a mesh from `descr`; `dynamic_draw` asks for storage suited to
    /// frequent updates.
    fn from_mesh_descr(descr: Self::Descr, dynamic_draw: bool) -> (r: Self)
        ensures
            r == Self::built(descr, dynamic_draw),
    ;
}

/// Tessellation of the primitives registered at construction.
pub const DEFAULT_SUBDIVISIONS: u32 = 50;

/// The mesh cache.
///
/// It maps each name to a handle of a mesh. It is only a cache: meshes may be used
/// without ever being registered, and unregistering one leaves its other holders
/// untouched.
pub struct MeshManager {
    entries: Vec<(String, MeshHandle)>,
    bindings: Ghost<Map<Seq<char>, MeshHandle>>,
}

impl View for MeshManager {
    type V = Map<Seq<char>, MeshHandle>;

    closed spec fn view(&self) -> Map<Seq<char>, MeshHandle> {
        self.bindings@
    }
}

/// What looking `name` up in `bindings` gives.
pub open spec fn lookup(bindings: Map<Seq<char>, MeshHandle>, name: Seq<char>) -> Option<MeshHandle> {
    if bindings.contains_key(name) {
        Some(bindings[name])
    } else {
        None
    }
}

/// Every handle that `bindings` holds designates one of the first `len` slots of a store.
pub open spec fn bound_below(bindings: Map<Seq<char>, MeshHandle>, len: nat) -> bool {
    forall|k: Seq<char>| #[trigger] bindings.contains_key(k) ==> bindings[k].index < len
}

/// The bindings of a freshly built cache whose meshes were stored from slot `base` on.
pub open spec fn seeded(base: nat) -> Map<Seq<char>, MeshHandle> {
    map![
        "sphere"@ => MeshHandle { index: base as usize },
        "cube"@ => MeshHandle { index: (base + 1) as usize },
        "cone"@ => MeshHandle { index: (base + 2) as usize },
        "cylinder"@ => MeshHandle { index: (base + 3) as usize },
    ]
}

/// The meshes that building a cache stores, in order: the unit sphere, cube, cone and
/// cylinder at default tessellation, each built for static drawing.
pub open spec fn seeded_meshes<M: Renderable>() -> Seq<M> {
    let n = DEFAULT_SUBDIVISIONS;
    seq![
        M::built(M::described(Primitive::Sphere(n, n)), false),
        M::built(M::described(Primitive::Cube), false),
        M::built(M::described(Primitive::Cone(n)), false),
        M::built(M::described(Primitive::Cylinder(n)), false),
    ]
}

/// What one access to the context's cache does to the slot that keeps it: an empty
/// slot receives a well-formed cache seeded from slot `base` of the store; a full one
/// is kept.
pub open spec fn global_step(before: Option<MeshManager>, after: Option<MeshManager>, base: nat) -> bool {
    match before {
        Some(m) => after == Some(m),
        None => after matches Some(m) && m.wf() && m@ == seeded(base),
    }
}

/// `out` is what loading `ms` gives when the store held `before`: each parsed mesh
/// now sits in the store after what was there, and each output entry keeps the
/// name and material of its parsed entry with the handle of its mesh.
pub open spec fn loaded<M, Mat>(
    ms: Seq<(String, M, Option<Mat>)>,
    out: Seq<(String, MeshHandle, Option<Mat>)>,
    before: Seq<M>,
    after: Seq<M>,
) -> bool {
    &&& out.len() == ms.len()
    &&& after == before + ms.map_values(|p: (String, M, Option<Mat>)| p.1)
    &&& forall|i: int|
        0 <= i < out.len() ==> (#[trigger] out[i]).0 == ms[i].0 && out[i].2 == ms[i].2
            && out[i].1.index == before.len() + i
}

impl MeshManager {
    /// The entries hold each name once, and agree with the view.
    pub closed spec fn wf(&self) -> bool {
        &&& forall|i: int, j: int|
            0 <= i < j < self.entries@.len() ==> self.entries@[i].0@ != self.entries@[j].0@
        &&& forall|i: int|
            0 <= i < self.entries@.len() ==> #[trigger] self.bindings@.contains_key(
                self.entries@[i].0@,
            ) && self.bindings@[self.entries@[i].0@] == self.entries@[i].1
        &&& forall|k: Seq<char>|
            #[trigger] self.bindings@.contains_key(k) ==> exists|i: int|
                0 <= i < self.entries@.len() && self.entries@[i].0@ == k
    }

    /// A cache with no binding.
    fn empty() -> (r: Self)
        ensures
            r.wf(),
            r@ == Map::<Seq<char>, MeshHandle>::empty(),
    {
        MeshManager { entries: Vec::new(), bindings: Ghost(Map::empty()) }
    }

    /// The position of the entry named `key`, if there is one.
    fn position(&self, key: &String) -> (r: Option<usize>)
        requires
            self.wf(),
        ensures
            r is None ==> !self@.contains_key(key@),
            r matches Some(i) ==> i < self.entries@.len() && self.entries@[i as int].0@ == key@,
    {
        let mut i: usize = 0;
        while i < self.entries.len()
            invariant
                self.wf(),
                i <= self.entries@.len(),
                forall|j: int| 0 <= j < i ==> self.entries@[j].0@ != key@,
            decreases self.entries@.len() - i,
        {
            if self.entries[i].0 == *key {
                return Some(i);
            }
            i = i + 1;
        }
        None
    }

    /// The handle bound to `name`, if any: another reference to the same mesh.
    pub fn get(&mut self, name: &str) -> (r: Option<MeshHandle>)
        requires
            old(self).wf(),
        ensures
            *final(self) == *old(self),
            r == lookup(old(self)@, name@),
    {
        let key = name.to_owned();
        match self.position(&key) {
            Some(i) => Some(self.entries[i].1),
            None => None,
        }
    }

    /// Binds `name` to `mesh`, replacing any previous binding of `name`.
    pub fn add(&mut self, mesh: MeshHandle, name: &str)
        requires
            old(self).wf(),
        ensures
            final(self).wf(),
            final(self)@ == old(self)@.insert(name@, mesh),
    {
        let key = name.to_owned();
        let ghost k = key@;
        let ghost pos: int;
        match self.position(&key) {
            Some(i) => {
                self.entries.set(i, (key, mesh));
                proof { pos = i as int; }
            },
            None => {
                self.entries.push((key, mesh));
                proof { pos = self.entries@.len() - 1; }
            },
        }
        self.bindings = Ghost(self.bindings@.insert(k, mesh));
        assert(self.entries@[pos].0@ == k);
        assert forall|q: Seq<char>| #[trigger] self.bindings@.contains_key(q) implies exists|j: int|
            0 <= j < self.entries@.len() && self.entries@[j].0@ == q by {
            if q != k {
                let j = choose|j: int|
                    0 <= j < old(self).entries@.len() && old(self).entries@[j].0@ == q;
                assert(self.entries@[j] == old(self).entries@[j]);
            } else {
                assert(self.entries@[pos].0@ == q);
            }
        }
    }

    /// Unbinds `name`; does nothing when it is not bound.
    pub fn remove(&mut self, name: &str)
        requires
            old(self).wf(),
        ensures
            final(self).wf(),
            final(self)@ == old(self)@.remove(name@),
    {
        let key = name.to_owned();
        match self.position(&key) {
            Some(i) => {
                let _ = self.entries.swap_remove(i);
                let ghost n = old(self).entries@.len();
                assert forall|j: int| 0 <= j < n - 1 implies #[trigger] self.entries@[j]
                    == old(self).entries@[if j == i { n - 1 } else { j }] by {}
                self.bindings = Ghost(self.bindings@.remove(key@));
                assert forall|q: Seq<char>| #[trigger] self.bindings@.contains_key(q) implies exists|j: int|
                    0 <= j < self.entries@.len() && self.entries@[j].0@ == q by {
                    let jj = choose|jj: int|
                        0 <= jj < n && old(self).entries@[jj].0@ == q;
                    if jj == n - 1 {
                        assert(self.entries@[i as int].0@ == q);
                    } else {
                        assert(self.entries@[jj].0@ == q);
                    }
                }
            },
            None => {
                self.bindings = Ghost(self.bindings@.remove(key@));
                assert(self.bindings@ == old(self).bindings@);
            },
        }
    }

    /// Builds a mesh from `descr`, stores it, binds `name` to it, and returns its handle.
    pub fn add_mesh_descr<M: Renderable>(
        &mut self,
        store: &mut MeshStore<M>,
        descr: M::Descr,
        dynamic_draw: bool,
        name: &str,
    ) -> (r: MeshHandle)
        requires
            old(self).wf(),
            old(store)@.len() < usize::MAX,
        ensures
            final(self).wf(),
            r.index == old(store)@.len(),
            final(store)@ == old(store)@.push(M::built(descr, dynamic_draw)),
            final(self)@ == old(self)@.insert(name@, r),
    {
        let mesh = M::from_mesh_descr(descr, dynamic_draw);
        let h = store.insert(mesh);
        self.add(h, name);
        h
    }

    /// A cache seeded with the unit sphere, cube, cone and cylinder, each built
    /// into `store` as a mesh for static drawing.
    pub fn new<M: Renderable>(store: &mut MeshStore<M>) -> (r: MeshManager)
        requires
            old(store)@.len() + 4 <= usize::MAX,
        ensures
            r.wf(),
            r@ == seeded(old(store)@.len()),
            final(store)@ == old(store)@ + seeded_meshes::<M>(),
    {
        let mut res = MeshManager::empty();
        let n: u32 = DEFAULT_SUBDIVISIONS;
        let _ = res.add_mesh_descr(
            store,
            M::unit_primitive(Primitive::Sphere(n, n)),
            false,
            "sphere",
        );
        let _ = res.add_mesh_descr(store, M::unit_primitive(Primitive::Cube), false, "cube");
        let _ = res.add_mesh_descr(store, M::unit_primitive(Primitive::Cone(n)), false, "cone");
        let _ = res.add_mesh_descr(
            store,
            M::unit_primitive(Primitive::Cylinder(n)),
            false,
            "cylinder",
        );
        proof {
            reveal_strlit("sphere");
            reveal_strlit("cube");
            reveal_strlit("cone");
            reveal_strlit("cylinder");
            assert(res@ =~= seeded(old(store)@.len()));
            assert(store@ =~= old(store)@ + seeded_meshes::<M>());
        }
        res
    }

    /// One access to the execution context's cache kept in `slot`: on the first
    /// access the slot is empty and a seeded cache is put there, built into `store`;
    /// on later ones the slot and the store are left as they are.
    pub fn get_global_manager<M: Renderable>(
        slot: &mut Option<MeshManager>,
        store: &mut MeshStore<M>,
    )
        requires
            (*old(slot)) is Some || old(store)@.len() + 4 <= usize::MAX,
        ensures
            global_step(*old(slot), *final(slot), old(store)@.len()),
            (*old(slot)) is Some ==> final(store)@ == old(store)@,
            (*old(slot)) is None ==> final(store)@ == old(store)@ + seeded_meshes::<M>(),
    {
        if slot.is_none() {
            *slot = Some(MeshManager::new(store));
        }
    }

    /// Turns what the geometry-file parser returned into shareable meshes: each parsed
    /// mesh is moved into `store` under a fresh handle, in order, and its name and
    /// material are passed on. No cache is consulted or filled. A parser failure is
    /// returned unchanged, with nothing stored.
    pub fn load_obj<M, Mat, E>(
        store: &mut MeshStore<M>,
        parsed: Result<Vec<(String, M, Option<Mat>)>, E>,
    ) -> (r: Result<Vec<(String, MeshHandle, Option<Mat>)>, E>)
        requires
            parsed matches Ok(ms) ==> old(store)@.len() + ms@.len() <= usize::MAX,
        ensures
            parsed matches Err(e) ==> r == Err::<Vec<(String, MeshHandle, Option<Mat>)>, E>(e)
                && final(store)@ == old(store)@,
            parsed matches Ok(ms) ==> r matches Ok(out) && loaded(
                ms@,
                out@,
                old(store)@,
                final(store)@,
            ),
    {
        match parsed {
            Err(e) => Err(e),
            Ok(ms) => Ok(Self::store_all(store, ms)),
        }
    }

    /// Moves every parsed mesh of `ms` into `store`, in order.
    fn store_all<M, Mat>(
        store: &mut MeshStore<M>,
        ms: Vec<(String, M, Option<Mat>)>,
    ) -> (r: Vec<(String, MeshHandle, Option<Mat>)>)
        requires
            old(store)@.len() + ms@.len() <= usize::MAX,
        ensures
            loaded(ms@, r@, old(store)@, final(store)@),
    {
        let ghost orig = ms@;
        let ghost n = ms@.len();
        let mut ms = ms;
        let mut rev: Vec<(String, M, Option<Mat>)> = Vec::new();
        while ms.len() > 0
            invariant
                n == orig.len(),
                ms@ == orig.subrange(0, ms@.len() as int),
                rev@.len() == n - ms@.len(),
                forall|j: int| 0 <= j < rev@.len() ==> #[trigger] rev@[j] == orig[n - 1 - j],
            decreases ms@.len(),
        {
            let item = ms.pop().unwrap();
            rev.push(item);
            proof {
                assert(ms@ =~= orig.subrange(0, ms@.len() as int));
            }
        }
        let ghost base = store@;
        let mut out: Vec<(String, MeshHandle, Option<Mat>)> = Vec::new();
        while rev.len() > 0
            invariant
                n == orig.len(),
                base.len() + n <= usize::MAX,
                rev@.len() + out@.len() == n,
                forall|j: int| 0 <= j < rev@.len() ==> #[trigger] rev@[j] == orig[n - 1 - j],
                loaded(orig.subrange(0, out@.len() as int), out@, base, store@),
            decreases rev@.len(),
        {
            let (name, mesh, mat) = rev.pop().unwrap();
            let ghost t = out@.len() as int;
            assert(orig[t] == (name, mesh, mat));
            let h = store.insert(mesh);
            out.push((name, h, mat));
            proof {
                let done = orig.subrange(0, t + 1);
                assert(done.map_values(|p: (String, M, Option<Mat>)| p.1) =~= orig.subrange(
                    0,
                    t,
                ).map_values(|p: (String, M, Option<Mat>)| p.1).push(mesh));
            }
        }
        proof {
            assert(orig.subrange(0, n as int) =~= orig);
        }
        out
    }
}

} // verus!
