//! Properties that hold across calls of the cache, the store and the loader.

use vstd::prelude::*;

use crate::manager::{
    MeshManager, Renderable, bound_below, global_step, loaded, lookup, seeded, seeded_meshes,
};
use crate::store::MeshHandle;

verus! {

/// A freshly built cache binds exactly "sphere", "cube", "cone" and "cylinder", to
/// four distinct handles of the meshes just stored from slot `base` on.
pub proof fn lemma_seeded(base: nat)
    requires
        base + 4 <= usize::MAX,
    ensures
        seeded(base).dom() == set!["sphere"@, "cube"@, "cone"@, "cylinder"@],
        seeded(base)["sphere"@].index == base,
        seeded(base)["cube"@].index == base + 1,
        seeded(base)["cone"@].index == base + 2,
        seeded(base)["cylinder"@].index == base + 3,
        bound_below(seeded(base), base + 4),
        forall|k: Seq<char>| #[trigger]
            seeded(base).contains_key(k) ==> base <= seeded(base)[k].index,
        forall|k1: Seq<char>, k2: Seq<char>|
            seeded(base).contains_key(k1) && seeded(base).contains_key(k2) && k1 != k2
                ==> seeded(base)[k1] != seeded(base)[k2],
{
    reveal_strlit("sphere");
    reveal_strlit("cube");
    reveal_strlit("cone");
    reveal_strlit("cylinder");
    assert("sphere"@.len() == 6 && "cube"@.len() == 4 && "cone"@.len() == 4 && "cylinder"@.len() == 8);
    assert("cube"@[2] != "cone"@[2]);
    assert("sphere"@ != "cube"@ && "sphere"@ != "cone"@ && "sphere"@ != "cylinder"@);
    assert("cube"@ != "cone"@ && "cube"@ != "cylinder"@ && "cone"@ != "cylinder"@);
    assert(seeded(base).dom() =~= set!["sphere"@, "cube"@, "cone"@, "cylinder"@]);
}

/// Two caches built from scratch bind the same names, each to an equal mesh; built
/// into one store, one after the other, they share no handle.
pub proof fn lemma_fresh_caches_agree<M: Renderable>(
    before1: Seq<M>,
    after1: Seq<M>,
    before2: Seq<M>,
    after2: Seq<M>,
)
    requires
        before1.len() + 4 <= usize::MAX,
        before2.len() + 4 <= usize::MAX,
        after1 == before1 + seeded_meshes::<M>(),
        after2 == before2 + seeded_meshes::<M>(),
    ensures
        seeded(before1.len()).dom() == seeded(before2.len()).dom(),
        forall|k: Seq<char>| #[trigger]
            seeded(before1.len()).contains_key(k) ==> after1[seeded(before1.len())[k].index as int]
                == after2[seeded(before2.len())[k].index as int],
        before1.len() + 4 <= before2.len() ==> forall|k1: Seq<char>, k2: Seq<char>|
            seeded(before1.len()).contains_key(k1) && seeded(before2.len()).contains_key(k2)
                ==> seeded(before1.len())[k1] != seeded(before2.len())[k2],
{
    lemma_seeded(before1.len());
    lemma_seeded(before2.len());
}

/// After binding `name` to `h`, looking `name` up gives `h` itself: the same slot of
/// the store, so a mesh put in through the handle looked up is the one read through
/// `h`.
pub proof fn lemma_lookup_after_add<M>(
    bindings: Map<Seq<char>, MeshHandle>,
    name: Seq<char>,
    h: MeshHandle,
    meshes: Seq<M>,
    mesh: M,
)
    requires
        h.index < meshes.len(),
    ensures
        lookup(bindings.insert(name, h), name) == Some(h),
        ({
            let got = lookup(bindings.insert(name, h), name)->Some_0;
            meshes.update(got.index as int, mesh)[h.index as int] == mesh
        }),
{
}

/// Binding `x` to `h1` and then to `h2` leaves `x` bound to `h2`; the store, and so
/// the mesh of `h1`, is not touched by either binding.
pub proof fn lemma_overwrite(
    bindings: Map<Seq<char>, MeshHandle>,
    x: Seq<char>,
    h1: MeshHandle,
    h2: MeshHandle,
)
    ensures
        lookup(bindings.insert(x, h1).insert(x, h2), x) == Some(h2),
{
}

/// Binding `x` and then unbinding it leaves `x` unbound.
pub proof fn lemma_remove_after_add(bindings: Map<Seq<char>, MeshHandle>, x: Seq<char>, h: MeshHandle)
    ensures
        lookup(bindings.insert(x, h).remove(x), x) is None,
{
}

/// Unbinding a name that is not bound changes nothing.
pub proof fn lemma_remove_missing(bindings: Map<Seq<char>, MeshHandle>, x: Seq<char>)
    requires
        !bindings.contains_key(x),
    ensures
        bindings.remove(x) == bindings,
{
    assert(bindings.remove(x) =~= bindings);
}

/// Two accesses to the context's cache reach one cache: a binding made during the
/// first access is seen by the second.
pub proof fn lemma_global_singleton(
    slot0: Option<MeshManager>,
    slot1: Option<MeshManager>,
    changed: MeshManager,
    slot2: Option<MeshManager>,
    base1: nat,
    base2: nat,
    name: Seq<char>,
    h: MeshHandle,
)
    requires
        global_step(slot0, slot1, base1),
        slot1 matches Some(m) && changed@ == m@.insert(name, h),
        global_step(Some(changed), slot2, base2),
    ensures
        slot2 matches Some(m) && lookup(m@, name) == Some(h),
{
}

/// The handles that loading hands out are bound in no cache whose handles all
/// designate meshes stored before the load.
pub proof fn lemma_loaded_unregistered<M, Mat>(
    bindings: Map<Seq<char>, MeshHandle>,
    ms: Seq<(String, M, Option<Mat>)>,
    out: Seq<(String, MeshHandle, Option<Mat>)>,
    before: Seq<M>,
    after: Seq<M>,
)
    requires
        loaded(ms, out, before, after),
        bound_below(bindings, before.len()),
    ensures
        forall|i: int, k: Seq<char>|
            0 <= i < out.len() && #[trigger] bindings.contains_key(k) ==> bindings[k] != (
            #[trigger] out[i]).1,
{
}

} // verus!
