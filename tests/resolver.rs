use gltf_prefab::assets::{AssetKind, AssetRef, Completion, Handle, LoadStatus, Loader};
use gltf_prefab::material::{GltfMaterialSet, MaterialPrefab};
use gltf_prefab::prefab::{AnimatablePrefab, GltfPrefab};
use gltf_prefab::scene::load_scene_sub_assets;

fn raw_material(bytes: &[u8]) -> MaterialPrefab {
    MaterialPrefab { textures: bytes.iter().map(|b| AssetRef::Data(vec![*b])).collect() }
}

fn handle_ids(m: &MaterialPrefab) -> Vec<usize> {
    m.textures
        .iter()
        .map(|t| match t {
            AssetRef::Handle(h) => h.id,
            AssetRef::Data(_) => panic!("raw texture data left"),
        })
        .collect()
}

fn mesh_node(bytes: &[u8], material: Option<usize>) -> GltfPrefab {
    let mut f = GltfPrefab::new();
    f.mesh = Some(bytes.to_vec());
    f.material_id = material;
    f
}

#[test]
fn loader_hands_out_handles_in_order() {
    let mut loader = Loader::new();
    let a = loader.load_from_data(AssetKind::Mesh, vec![1]);
    let b = loader.load_from_data(AssetKind::Texture, vec![2, 3]);
    assert_eq!(a, Handle { id: 0 });
    assert_eq!(b, Handle { id: 1 });
    assert_eq!(loader.len(), 2);
    let s = loader.get(b).unwrap();
    assert_eq!(s.kind, AssetKind::Texture);
    assert_eq!(s.data, vec![2, 3]);
    assert_eq!(s.status, LoadStatus::Loading);
    assert!(loader.get(Handle { id: 2 }).is_none());
}

#[test]
fn loader_completion_follows_statuses() {
    let mut loader = Loader::new();
    assert_eq!(loader.completion(), Completion::Complete);
    let a = loader.load_from_data(AssetKind::Mesh, vec![1]);
    let b = loader.load_from_data(AssetKind::Mesh, vec![2]);
    assert_eq!(loader.completion(), Completion::Loading);
    assert!(loader.set_status(a, LoadStatus::Loaded));
    assert_eq!(loader.completion(), Completion::Loading);
    assert!(loader.set_status(b, LoadStatus::Loaded));
    assert_eq!(loader.completion(), Completion::Complete);
    assert!(loader.set_status(a, LoadStatus::Failed));
    assert_eq!(loader.completion(), Completion::Failed);
    assert!(!loader.set_status(Handle { id: 7 }, LoadStatus::Loaded));
}

#[test]
fn material_table_insert_and_get() {
    let mut set = GltfMaterialSet::new();
    assert!(set.get(0).is_none());
    assert!(set.insert(2, raw_material(&[1])).is_none());
    assert_eq!(set.len(), 3);
    assert!(set.get(0).is_none());
    assert_eq!(set.get(2), Some(&raw_material(&[1])));
    assert_eq!(set.insert(2, raw_material(&[5])), Some(raw_material(&[1])));
    assert!(set.get(3).is_none());
}

#[test]
fn pass_submits_table_then_mesh_then_samplers() {
    let mut loader = Loader::new();
    let mut shared = GltfMaterialSet::new();
    let mut mats = GltfMaterialSet::new();
    mats.insert(0, raw_material(&[10, 11]));
    mats.insert(1, MaterialPrefab { textures: vec![AssetRef::Handle(Handle { id: 40 }), AssetRef::Data(vec![12])] });
    let mut f = mesh_node(&[1, 2], Some(1));
    f.materials = Some(mats);
    f.animatable = Some(AnimatablePrefab { samplers: vec![AssetRef::Data(vec![20])], nodes: vec![0] });

    assert!(f.load_sub_assets(&mut loader, &mut shared));

    assert!(f.materials.is_none());
    assert!(f.mesh.is_none());
    assert_eq!(handle_ids(shared.get(0).unwrap()), vec![0, 1]);
    assert_eq!(handle_ids(shared.get(1).unwrap()), vec![40, 2]);
    assert_eq!(handle_ids(f.material.as_ref().unwrap()), vec![40, 2]);
    assert_eq!(f.mesh_handle, Some(Handle { id: 3 }));
    assert_eq!(f.animatable.as_ref().unwrap().samplers, vec![AssetRef::Handle(Handle { id: 4 })]);
    assert_eq!(loader.len(), 5);
    let kinds: Vec<AssetKind> = (0..5).map(|i| loader.get(Handle { id: i }).unwrap().kind).collect();
    assert_eq!(
        kinds,
        vec![
            AssetKind::Texture,
            AssetKind::Texture,
            AssetKind::Texture,
            AssetKind::Mesh,
            AssetKind::AnimationSampler
        ]
    );
    assert_eq!(loader.get(Handle { id: 3 }).unwrap().data, vec![1, 2]);

    // nothing is left to submit
    assert!(!f.load_sub_assets(&mut loader, &mut shared));
    assert_eq!(loader.len(), 5);
}

#[test]
fn resolving_same_material_twice_shares_handles() {
    let mut loader = Loader::new();
    let mut shared = GltfMaterialSet::new();
    let mut owner = GltfPrefab::new();
    let mut mats = GltfMaterialSet::new();
    mats.insert(0, raw_material(&[7, 8]));
    owner.materials = Some(mats);
    owner.load_sub_assets(&mut loader, &mut shared);

    let mut a = mesh_node(&[1], Some(0));
    let mut b = mesh_node(&[2], Some(0));
    a.load_sub_assets(&mut loader, &mut shared);
    b.load_sub_assets(&mut loader, &mut shared);
    let ma = a.material.unwrap();
    let mb = b.material.unwrap();
    assert_eq!(ma, mb);
    assert_eq!(handle_ids(&ma), vec![0, 1]);
    assert_eq!(handle_ids(&ma), handle_ids(shared.get(0).unwrap()));
    // the textures were submitted once only
    assert_eq!(loader.len(), 4);
}

#[test]
fn missing_material_index_leaves_slot_empty() {
    let mut loader = Loader::new();
    let mut shared = GltfMaterialSet::new();
    let mut f = mesh_node(&[1], Some(3));
    assert!(f.load_sub_assets(&mut loader, &mut shared));
    assert!(f.material.is_none());
    assert_eq!(f.mesh_handle, Some(Handle { id: 0 }));
}

#[test]
fn table_replaces_shared_table_wholesale() {
    let mut loader = Loader::new();
    let mut shared = GltfMaterialSet::new();
    let mut first = GltfPrefab::new();
    let mut m1 = GltfMaterialSet::new();
    m1.insert(0, raw_material(&[1]));
    m1.insert(1, raw_material(&[2]));
    first.materials = Some(m1);
    first.load_sub_assets(&mut loader, &mut shared);
    assert_eq!(shared.len(), 2);

    let mut second = GltfPrefab::new();
    let mut m2 = GltfMaterialSet::new();
    m2.insert(0, raw_material(&[3]));
    second.materials = Some(m2);
    // loading the table alone submits texture data, which counts as progress
    assert!(second.load_sub_assets(&mut loader, &mut shared));
    assert_eq!(shared.len(), 1);
    assert_eq!(handle_ids(shared.get(0).unwrap()), vec![2]);
    assert!(shared.get(1).is_none());
}

#[test]
fn resolver_converges_within_two_passes() {
    // three raw meshes, two distinct materials; the table arrives on the
    // last node, after the nodes that need it
    let mut loader = Loader::new();
    let mut shared = GltfMaterialSet::new();
    let mut mats = GltfMaterialSet::new();
    mats.insert(0, raw_material(&[1]));
    mats.insert(1, raw_material(&[2, 3]));
    let mut root = GltfPrefab::new();
    root.materials = Some(mats);
    let mut fragments = vec![mesh_node(&[10], Some(0)), mesh_node(&[11], Some(1)), mesh_node(&[12], Some(0)), root];

    assert!(load_scene_sub_assets(&mut fragments, &mut loader, &mut shared));
    for f in &fragments {
        assert!(f.mesh.is_none());
        assert!(f.materials.is_none());
    }
    assert_eq!(loader.len(), 6);
    // the table came after the nodes, so their slots are still empty
    assert!(fragments[0].material.is_none());

    assert!(!load_scene_sub_assets(&mut fragments, &mut loader, &mut shared));
    assert_eq!(loader.len(), 6);
    assert_eq!(handle_ids(fragments[0].material.as_ref().unwrap()), vec![3]);
    assert_eq!(handle_ids(fragments[1].material.as_ref().unwrap()), vec![4, 5]);
    assert_eq!(fragments[0].material, fragments[2].material);
    assert_eq!(fragments[0].mesh_handle, Some(Handle { id: 0 }));
    assert_eq!(fragments[1].mesh_handle, Some(Handle { id: 1 }));
    assert_eq!(fragments[2].mesh_handle, Some(Handle { id: 2 }));

    assert!(!load_scene_sub_assets(&mut fragments, &mut loader, &mut shared));
}

#[test]
fn mesh_handle_is_never_reverted() {
    let mut loader = Loader::new();
    let mut shared = GltfMaterialSet::new();
    let mut f = mesh_node(&[9], None);
    f.load_sub_assets(&mut loader, &mut shared);
    let h = f.mesh_handle;
    assert_eq!(h, Some(Handle { id: 0 }));
    for _ in 0..3 {
        assert!(!f.load_sub_assets(&mut loader, &mut shared));
        assert!(f.mesh.is_none());
        assert_eq!(f.mesh_handle, h);
    }
}

#[test]
fn empty_scene_pass_reports_no_progress() {
    let mut loader = Loader::new();
    let mut shared = GltfMaterialSet::new();
    let mut fragments: Vec<GltfPrefab> = Vec::new();
    assert!(!load_scene_sub_assets(&mut fragments, &mut loader, &mut shared));
    assert_eq!(loader.len(), 0);
}
