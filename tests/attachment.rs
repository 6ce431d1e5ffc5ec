use gltf_prefab::assets::{AssetRef, Handle, Loader};
use gltf_prefab::attach::{AttachError, Entity, PrefabStorages};
use gltf_prefab::extent::GltfNodeExtent;
use gltf_prefab::material::{GltfMaterialSet, MaterialPrefab};
use gltf_prefab::prefab::{AnimatablePrefab, GltfPrefab, Scale, SkinnablePrefab, Transform};
use gltf_prefab::scene::{load_scene_sub_assets, scene_extent};
use std::ops::Range;

fn transform(x: i64) -> Transform {
    Transform { translation: [x, 0, 0], scale: Scale { numerator: 1, denominator: 1 } }
}

fn loaded_material(ids: &[usize]) -> MaterialPrefab {
    MaterialPrefab { textures: ids.iter().map(|i| AssetRef::Handle(Handle { id: *i })).collect() }
}

#[test]
fn attach_gives_exactly_present_components() {
    let mut store = PrefabStorages::new();
    let e = store.create_entity();
    let mut f = GltfPrefab::new();
    f.transform = Some(transform(3));
    f.material = Some(loaded_material(&[4, 5]));
    f.extent = Some(GltfNodeExtent::from(Range { start: [0, 0, 0], end: [1, 1, 1] }));

    assert_eq!(f.add_to_entity(e, &mut store, &[e], &[]), Ok(()));

    assert_eq!(store.transforms.get(e), Some(&transform(3)));
    assert_eq!(store.materials.get(e), Some(&loaded_material(&[4, 5])));
    assert_eq!(
        store.extents.get(e),
        Some(&GltfNodeExtent::from(Range { start: [0, 0, 0], end: [1, 1, 1] }))
    );
    assert!(store.meshes.get(e).is_none());
    assert!(store.names.get(e).is_none());
    assert!(store.animations.get(e).is_none());
    assert!(store.skins.get(e).is_none());
}

#[test]
fn attach_maps_joints_and_nodes_to_entities() {
    let mut store = PrefabStorages::new();
    let a = store.create_entity();
    let b = store.create_entity();
    let c = store.create_entity();
    let mut f = GltfPrefab::new();
    f.name = Some(String::from("hand"));
    f.mesh_handle = Some(Handle { id: 8 });
    f.skinnable = Some(SkinnablePrefab { joints: vec![2, 0] });
    f.animatable = Some(AnimatablePrefab { samplers: vec![AssetRef::Handle(Handle { id: 1 })], nodes: vec![1] });

    assert_eq!(f.add_to_entity(b, &mut store, &[a, b, c], &[c]), Ok(()));

    assert_eq!(store.names.get(b), Some(&String::from("hand")));
    assert_eq!(store.meshes.get(b), Some(&Handle { id: 8 }));
    assert_eq!(store.skins.get(b).unwrap().joints, vec![c, a]);
    let anim = store.animations.get(b).unwrap();
    assert_eq!(anim.nodes, vec![b]);
    assert_eq!(anim.samplers, vec![AssetRef::Handle(Handle { id: 1 })]);
    assert!(store.names.get(a).is_none());
}

#[test]
fn attach_to_dead_entity_fails_and_changes_nothing() {
    let mut store = PrefabStorages::new();
    let e = store.create_entity();
    store.delete_entity(e);
    assert!(!store.is_alive(e));
    let mut f = GltfPrefab::new();
    f.transform = Some(transform(1));
    assert_eq!(f.add_to_entity(e, &mut store, &[e], &[]), Err(AttachError::DeadEntity(e)));
    assert!(store.transforms.get(e).is_none());

    let never_created = Entity { id: 5 };
    assert_eq!(
        f.add_to_entity(never_created, &mut store, &[], &[]),
        Err(AttachError::DeadEntity(never_created))
    );
}

#[test]
fn attach_with_joint_out_of_range_fails_and_changes_nothing() {
    let mut store = PrefabStorages::new();
    let e = store.create_entity();
    let mut f = GltfPrefab::new();
    f.transform = Some(transform(1));
    f.skinnable = Some(SkinnablePrefab { joints: vec![0, 4] });
    assert_eq!(f.add_to_entity(e, &mut store, &[e], &[]), Err(AttachError::EntityIndexOutOfRange(4)));
    assert!(store.transforms.get(e).is_none());
    assert!(store.skins.get(e).is_none());

    let mut g = GltfPrefab::new();
    g.animatable = Some(AnimatablePrefab { samplers: vec![], nodes: vec![1] });
    assert_eq!(g.add_to_entity(e, &mut store, &[e], &[]), Err(AttachError::EntityIndexOutOfRange(1)));
}

#[test]
fn attach_replaces_earlier_component() {
    let mut store = PrefabStorages::new();
    let e = store.create_entity();
    let mut f = GltfPrefab::new();
    f.transform = Some(transform(1));
    f.add_to_entity(e, &mut store, &[e], &[]).unwrap();
    f.transform = Some(transform(2));
    f.add_to_entity(e, &mut store, &[e], &[]).unwrap();
    assert_eq!(store.transforms.get(e), Some(&transform(2)));
}

#[test]
fn two_nodes_share_material_end_to_end() {
    let mut mats = GltfMaterialSet::new();
    mats.insert(0, MaterialPrefab { textures: vec![AssetRef::Data(vec![1, 2, 3])] });
    let mut root = GltfPrefab::new();
    root.materials = Some(mats);

    let mut left = GltfPrefab::new();
    left.mesh = Some(vec![7]);
    left.material_id = Some(0);
    left.extent = Some(GltfNodeExtent::from(Range { start: [-2, 0, 0], end: [0, 1, 1] }));
    let mut right = GltfPrefab::new();
    right.mesh = Some(vec![8]);
    right.material_id = Some(0);
    right.extent = Some(GltfNodeExtent::from(Range { start: [1, -1, 0], end: [3, 0, 2] }));

    let mut fragments = vec![root, left, right];
    let mut loader = Loader::new();
    let mut shared = GltfMaterialSet::new();
    let mut passes = 0;
    while load_scene_sub_assets(&mut fragments, &mut loader, &mut shared) {
        passes += 1;
        assert!(passes <= 2);
    }
    assert_eq!(fragments[1].material, fragments[2].material);
    assert_eq!(fragments[1].material, Some(MaterialPrefab { textures: vec![AssetRef::Handle(Handle { id: 0 })] }));

    let mut store = PrefabStorages::new();
    let entities: Vec<Entity> = (0..3).map(|_| store.create_entity()).collect();
    for (f, e) in fragments.iter().zip(entities.iter()) {
        assert_eq!(f.add_to_entity(*e, &mut store, &entities, &[]), Ok(()));
    }
    assert!(store.materials.get(entities[1]).is_some());
    assert_eq!(store.materials.get(entities[1]), store.materials.get(entities[2]));
    assert!(store.materials.get(entities[0]).is_none());
    assert_eq!(store.meshes.get(entities[1]), Some(&Handle { id: 1 }));
    assert_eq!(store.meshes.get(entities[2]), Some(&Handle { id: 2 }));

    let mut expected = fragments[1].extent.unwrap();
    expected.extend(&fragments[2].extent.unwrap());
    assert_eq!(scene_extent(&fragments), expected);
    assert_eq!(expected, GltfNodeExtent::from(Range { start: [-2, -1, 0], end: [3, 1, 2] }));
}

#[test]
fn scene_extent_of_scene_without_extents_is_empty() {
    let fragments = vec![GltfPrefab::new(), GltfPrefab::new()];
    assert_eq!(scene_extent(&fragments), GltfNodeExtent::default());
    assert!(!scene_extent(&fragments).valid());
}
