use mesh_cache::manager::{MeshManager, Primitive, Renderable};
use mesh_cache::store::{MeshHandle, MeshStore};

#[derive(Clone, Debug, PartialEq)]
struct FakeDescr {
    label: String,
}

#[derive(Clone, Debug, PartialEq)]
struct FakeMesh {
    label: String,
    dynamic_draw: bool,
}

impl Renderable for FakeMesh {
    type Descr = FakeDescr;

    fn described(kind: Primitive) -> FakeDescr {
        FakeDescr { label: format!("{:?}", kind) }
    }

    fn built(descr: FakeDescr, dynamic_draw: bool) -> FakeMesh {
        FakeMesh { label: descr.label, dynamic_draw }
    }

    fn unit_primitive(kind: Primitive) -> FakeDescr {
        Self::described(kind)
    }

    fn from_mesh_descr(descr: FakeDescr, dynamic_draw: bool) -> FakeMesh {
        Self::built(descr, dynamic_draw)
    }
}

fn fake(label: &str) -> FakeMesh {
    FakeMesh { label: label.to_string(), dynamic_draw: true }
}

#[test]
fn new_seeds_four_primitives() {
    let mut store: MeshStore<FakeMesh> = MeshStore::new();
    let mut mm = MeshManager::new(&mut store);
    assert_eq!(store.len(), 4);
    let expected = [
        ("sphere", "Sphere(50, 50)"),
        ("cube", "Cube"),
        ("cone", "Cone(50)"),
        ("cylinder", "Cylinder(50)"),
    ];
    for (i, (name, label)) in expected.iter().enumerate() {
        let h = mm.get(name).expect("seeded name is bound");
        assert_eq!(h, MeshHandle { index: i });
        let mesh = store.borrow(h);
        assert_eq!(mesh.label, *label);
        assert!(!mesh.dynamic_draw);
    }
}

#[test]
fn new_seeds_nothing_else() {
    let mut store: MeshStore<FakeMesh> = MeshStore::new();
    let mut mm = MeshManager::new(&mut store);
    assert_eq!(mm.get("torus"), None);
    assert_eq!(mm.get(""), None);
    assert_eq!(mm.get("Sphere"), None);
}

#[test]
fn new_stores_after_existing_meshes() {
    let mut store: MeshStore<FakeMesh> = MeshStore::new();
    let first = store.insert(fake("mine"));
    let mut mm = MeshManager::new(&mut store);
    assert_eq!(store.len(), 5);
    assert_eq!(mm.get("sphere"), Some(MeshHandle { index: 1 }));
    assert_eq!(mm.get("cylinder"), Some(MeshHandle { index: 4 }));
    assert_eq!(store.borrow(first).label, "mine");
}

#[test]
fn lookup_after_add_shares_the_mesh() {
    let mut store: MeshStore<FakeMesh> = MeshStore::new();
    let mut mm = MeshManager::new(&mut store);
    let h = store.insert(fake("a"));
    mm.add(h, "x");
    let got = mm.get("x").expect("bound");
    assert_eq!(got, h);
    let prev = store.replace(got, fake("edited"));
    assert_eq!(prev.label, "a");
    assert_eq!(store.borrow(h).label, "edited");
    let _ = store.replace(h, fake("again"));
    assert_eq!(store.borrow(got).label, "again");
}

#[test]
fn add_overwrites_previous_binding() {
    let mut store: MeshStore<FakeMesh> = MeshStore::new();
    let mut mm = MeshManager::new(&mut store);
    let h1 = store.insert(fake("one"));
    let h2 = store.insert(fake("two"));
    mm.add(h1, "x");
    mm.add(h2, "x");
    assert_eq!(mm.get("x"), Some(h2));
    assert_eq!(store.borrow(h1).label, "one");
    let _ = store.replace(h1, fake("one edited"));
    assert_eq!(store.borrow(h1).label, "one edited");
    assert_eq!(store.borrow(h2).label, "two");
}

#[test]
fn add_can_rebind_a_seeded_name() {
    let mut store: MeshStore<FakeMesh> = MeshStore::new();
    let mut mm = MeshManager::new(&mut store);
    let h = store.insert(fake("ball"));
    mm.add(h, "sphere");
    assert_eq!(mm.get("sphere"), Some(h));
    assert_eq!(mm.get("cube"), Some(MeshHandle { index: 1 }));
}

#[test]
fn remove_after_add_unbinds() {
    let mut store: MeshStore<FakeMesh> = MeshStore::new();
    let mut mm = MeshManager::new(&mut store);
    let h = store.insert(fake("a"));
    mm.add(h, "x");
    mm.remove("x");
    assert_eq!(mm.get("x"), None);
    assert_eq!(store.borrow(h).label, "a");
    assert_eq!(mm.get("cone"), Some(MeshHandle { index: 2 }));
}

#[test]
fn remove_of_a_seeded_name_keeps_the_others() {
    let mut store: MeshStore<FakeMesh> = MeshStore::new();
    let mut mm = MeshManager::new(&mut store);
    mm.remove("sphere");
    assert_eq!(mm.get("sphere"), None);
    assert_eq!(mm.get("cube"), Some(MeshHandle { index: 1 }));
    assert_eq!(mm.get("cone"), Some(MeshHandle { index: 2 }));
    assert_eq!(mm.get("cylinder"), Some(MeshHandle { index: 3 }));
    assert_eq!(store.borrow(MeshHandle { index: 0 }).label, "Sphere(50, 50)");
}

#[test]
fn remove_missing_is_a_no_op() {
    let mut store: MeshStore<FakeMesh> = MeshStore::new();
    let mut mm = MeshManager::new(&mut store);
    mm.remove("nonexistent");
    mm.remove("nonexistent");
    for (i, name) in ["sphere", "cube", "cone", "cylinder"].iter().enumerate() {
        assert_eq!(mm.get(name), Some(MeshHandle { index: i }));
    }
    assert_eq!(mm.get("nonexistent"), None);
}

#[test]
fn add_mesh_descr_builds_stores_and_binds() {
    let mut store: MeshStore<FakeMesh> = MeshStore::new();
    let mut mm = MeshManager::new(&mut store);
    let descr = FakeDescr { label: "custom".to_string() };
    let h = mm.add_mesh_descr(&mut store, descr, true, "custom");
    assert_eq!(h, MeshHandle { index: 4 });
    assert_eq!(mm.get("custom"), Some(h));
    assert_eq!(store.borrow(h), &FakeMesh { label: "custom".to_string(), dynamic_draw: true });
}

#[test]
fn global_access_seeds_once_and_keeps_state() {
    let mut store: MeshStore<FakeMesh> = MeshStore::new();
    let mut slot: Option<MeshManager> = None;
    MeshManager::get_global_manager(&mut slot, &mut store);
    assert_eq!(store.len(), 4);
    let h = store.insert(fake("shared"));
    slot.as_mut().expect("seeded").add(h, "x");
    MeshManager::get_global_manager(&mut slot, &mut store);
    assert_eq!(store.len(), 5);
    let mm = slot.as_mut().expect("kept");
    assert_eq!(mm.get("x"), Some(h));
    assert_eq!(mm.get("sphere"), Some(MeshHandle { index: 0 }));
}

#[test]
fn load_obj_stores_meshes_in_order_without_binding_them() {
    let mut store: MeshStore<FakeMesh> = MeshStore::new();
    let mut mm = MeshManager::new(&mut store);
    let parsed: Result<Vec<(String, FakeMesh, Option<u32>)>, String> = Ok(vec![
        ("a".to_string(), fake("ma"), Some(7)),
        ("b".to_string(), fake("mb"), None),
        ("c".to_string(), fake("mc"), Some(9)),
    ]);
    let out = MeshManager::load_obj(&mut store, parsed).expect("loaded");
    assert_eq!(out.len(), 3);
    assert_eq!(store.len(), 7);
    let expected = [("a", "ma", Some(7)), ("b", "mb", None), ("c", "mc", Some(9))];
    for (i, (name, label, mat)) in expected.iter().enumerate() {
        assert_eq!(out[i].0, *name);
        assert_eq!(out[i].1, MeshHandle { index: 4 + i });
        assert_eq!(out[i].2, *mat);
        assert_eq!(store.borrow(out[i].1).label, *label);
        assert_eq!(mm.get(name), None);
    }
    mm.add(out[1].1, "b");
    assert_eq!(mm.get("b"), Some(MeshHandle { index: 5 }));
}

#[test]
fn load_obj_of_an_empty_file_is_empty() {
    let mut store: MeshStore<FakeMesh> = MeshStore::new();
    let parsed: Result<Vec<(String, FakeMesh, Option<u32>)>, String> = Ok(Vec::new());
    let out = MeshManager::load_obj(&mut store, parsed);
    assert_eq!(out, Ok(Vec::new()));
    assert_eq!(store.len(), 0);
}

#[test]
fn load_obj_propagates_failure() {
    let mut store: MeshStore<FakeMesh> = MeshStore::new();
    let _ = store.insert(fake("kept"));
    let parsed: Result<Vec<(String, FakeMesh, Option<u32>)>, String> =
        Err("no such file".to_string());
    let out = MeshManager::load_obj(&mut store, parsed);
    assert_eq!(out, Err("no such file".to_string()));
    assert_eq!(store.len(), 1);
}

#[test]
fn fresh_caches_hold_equal_meshes_under_distinct_handles() {
    let mut store: MeshStore<FakeMesh> = MeshStore::new();
    let mut a = MeshManager::new(&mut store);
    let mut b = MeshManager::new(&mut store);
    assert_eq!(store.len(), 8);
    for name in ["sphere", "cube", "cone", "cylinder"].iter() {
        let ha = a.get(name).expect("seeded in a");
        let hb = b.get(name).expect("seeded in b");
        assert_ne!(ha, hb);
        assert_eq!(store.borrow(ha), store.borrow(hb));
    }
    let _ = store.replace(a.get("cube").expect("seeded"), fake("edited"));
    assert_eq!(store.borrow(b.get("cube").expect("seeded")).label, "Cube");
}

#[test]
fn add_mesh_descr_keeps_static_draw() {
    let mut store: MeshStore<FakeMesh> = MeshStore::new();
    let mut mm = MeshManager::new(&mut store);
    let descr = FakeDescr { label: "still".to_string() };
    let h = mm.add_mesh_descr(&mut store, descr, false, "still");
    assert_eq!(store.borrow(h), &FakeMesh { label: "still".to_string(), dynamic_draw: false });
}
