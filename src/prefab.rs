//! The per-node fragment of a scene and its resolution pass.

use crate::assets::{
    lemma_resolve_without_data, lemma_resolved_slots_hold_no_data, lemma_submissions_len, load_slots,
    num_raw, resolve_slots, submissions_of, AssetKind, AssetRef, Handle, LoadStatus, Loader, Submission,
};
use crate::extent::GltfNodeExtent;
use crate::material::{
    lemma_set_submissions_len, set_raw, set_resolved, set_submissions, GltfMaterialSet, MaterialPrefab,
};
use vstd::prelude::*;

verus! {

/// A uniform scale factor, `numerator / denominator`.
#[derive(Clone, Copy, Debug, PartialEq, Eq, Structural)]
pub struct Scale {
    pub numerator: i64,
    pub denominator: i64,
}

/// The local placement of a node: a translation, in the units of the scene's
/// coordinates, and a uniform scale.
#[derive(Clone, Copy, Debug, PartialEq, Eq)]
pub struct Transform {
    pub translation: [i64; 3],
    pub scale: Scale,
}

impl Transform {
    /// No translation, scale one.
    pub open spec fn spec_identity() -> Transform {
        Transform { translation: [0i64, 0i64, 0i64], scale: Scale { numerator: 1, denominator: 1 } }
    }
}

impl Default for Transform {
    fn default() -> (r: Self)
        ensures
            r == Transform::spec_identity(),
    {
        Transform { translation: [0, 0, 0], scale: Scale { numerator: 1, denominator: 1 } }
    }
}

/// Animation data of a node: the samplers, raw data or handles, and the
/// animated nodes as indices into the entities of the scene.
#[derive(Clone, Debug, PartialEq, Eq)]
pub struct AnimatablePrefab {
    pub samplers: Vec<AssetRef>,
    pub nodes: Vec<usize>,
}

impl AnimatablePrefab {
    /// Submits the raw data of each sampler, in order, and keeps the handles.
    /// Returns whether anything was submitted.
    pub fn load_sub_assets(&mut self, loader: &mut Loader) -> (r: bool)
        ensures
            final(self).samplers@ == resolve_slots(old(self).samplers@, old(loader)@.len() as int),
            final(self).nodes == old(self).nodes,
            final(loader)@ == old(loader)@ + submissions_of(old(self).samplers@, AssetKind::AnimationSampler),
            r == (num_raw(old(self).samplers@) > 0),
    {
        load_slots(&mut self.samplers, AssetKind::AnimationSampler, loader)
    }
}

/// Skin data of a node: its joints as indices into the entities of the scene.
#[derive(Clone, Debug, PartialEq, Eq)]
pub struct SkinnablePrefab {
    pub joints: Vec<usize>,
}

/// The deferred description of one scene node. Every part is optional; the
/// raw mesh data gives way to its handle during resolution.
#[derive(Debug)]
pub struct GltfPrefab {
    /// The local placement of the node
    pub transform: Option<Transform>,
    /// Raw mesh data, until it is submitted
    pub mesh: Option<Vec<u8>>,
    /// The mesh handle, once the data is submitted
    pub mesh_handle: Option<Handle>,
    /// The material of the node's primitives
    pub material: Option<MaterialPrefab>,
    /// Animation data; by convention only on the scene's root node
    pub animatable: Option<AnimatablePrefab>,
    /// Skin data
    pub skinnable: Option<SkinnablePrefab>,
    /// The node's bounds
    pub extent: Option<GltfNodeExtent>,
    /// The node's name
    pub name: Option<String>,
    /// The scene's material table, on the one node that brings it
    pub materials: Option<GltfMaterialSet>,
    /// The index of the node's material in the scene's table
    pub material_id: Option<usize>,
}

/// How many payloads loading an optional material table submits.
pub open spec fn materials_raw(m: Option<GltfMaterialSet>) -> nat {
    match m {
        Some(m) => set_raw(m@),
        None => 0,
    }
}

/// The payloads that loading an optional material table submits.
pub open spec fn materials_submissions(m: Option<GltfMaterialSet>) -> Seq<Submission> {
    match m {
        Some(m) => set_submissions(m@),
        None => Seq::empty(),
    }
}

/// The payload that submitting optional mesh data hands over.
pub open spec fn mesh_submissions(mesh: Option<Vec<u8>>) -> Seq<Submission> {
    match mesh {
        Some(d) => seq![Submission { kind: AssetKind::Mesh, data: d, status: LoadStatus::Loading }],
        None => Seq::empty(),
    }
}

/// How many samplers of optional animation data still hold raw data.
pub open spec fn animation_raw(a: Option<AnimatablePrefab>) -> nat {
    match a {
        Some(a) => num_raw(a.samplers@),
        None => 0,
    }
}

/// The payloads that loading optional animation data submits.
pub open spec fn animation_submissions(a: Option<AnimatablePrefab>) -> Seq<Submission> {
    match a {
        Some(a) => submissions_of(a.samplers@, AssetKind::AnimationSampler),
        None => Seq::empty(),
    }
}

/// `new` is the optional animation data `old` with its samplers submitted
/// from payload number `base` on.
pub open spec fn animation_resolved(new: Option<AnimatablePrefab>, old: Option<AnimatablePrefab>, base: int) -> bool {
    match old {
        Some(a) => new is Some && new.unwrap().samplers@ == resolve_slots(a.samplers@, base)
            && new.unwrap().nodes == a.nodes,
        None => new is None,
    }
}

/// `new` holds the same animation data as `old`.
pub open spec fn same_animation(new: Option<AnimatablePrefab>, old: Option<AnimatablePrefab>) -> bool {
    match old {
        Some(a) => new is Some && new.unwrap().samplers@ == a.samplers@ && new.unwrap().nodes == a.nodes,
        None => new is None,
    }
}

/// The material slot after a lookup of `id` in `table`: a copy of the
/// table's entry when there is one, `old` otherwise.
pub open spec fn material_after_lookup(
    new: Option<MaterialPrefab>,
    old: Option<MaterialPrefab>,
    id: Option<usize>,
    table: GltfMaterialSet,
) -> bool {
    match id {
        Some(id) => match table.spec_get(id as int) {
            Some(m) => new is Some && new.unwrap().textures@ == m.textures@,
            None => new == old,
        },
        None => new == old,
    }
}

impl GltfPrefab {
    /// The fragment holds no raw data: no material table to load, no mesh
    /// data, no animation sampler data.
    pub open spec fn is_settled(self) -> bool {
        &&& self.materials is None
        &&& self.mesh is None
        &&& animation_raw(self.animatable) == 0
    }

    /// One resolution pass took the fragment from `old` to `new`, the
    /// pipeline's record from `old_loader` to `new_loader` and the shared
    /// material table from `old_table` to `new_table`, returning `r`.
    pub open spec fn pass_result(
        old: GltfPrefab,
        new: GltfPrefab,
        old_loader: Seq<Submission>,
        new_loader: Seq<Submission>,
        old_table: GltfMaterialSet,
        new_table: GltfMaterialSet,
        r: bool,
    ) -> bool {
        let base = old_loader.len() as int;
        let after_materials = base + materials_raw(old.materials);
        let after_mesh = after_materials + if old.mesh is Some { 1int } else { 0int };
        // the material table is loaded and replaces the shared one
        &&& new.materials is None
        &&& match old.materials {
            Some(m) => set_resolved(new_table@, m@, base),
            None => new_table@ == old_table@,
        }
        &&& new_table.is_loaded()
        // the node's material is looked up in the shared table
        &&& material_after_lookup(new.material, old.material, old.material_id, new_table)
        // the mesh data is submitted once and replaced by its handle
        &&& new.mesh is None
        &&& new.mesh_handle == match old.mesh {
            Some(_) => Some(Handle { id: after_materials as usize }),
            None => old.mesh_handle,
        }
        // the animation samplers are submitted
        &&& animation_resolved(new.animatable, old.animatable, after_mesh)
        // in that order
        &&& new_loader == old_loader + materials_submissions(old.materials) + mesh_submissions(old.mesh)
            + animation_submissions(old.animatable)
        // the rest is kept
        &&& new.transform == old.transform
        &&& new.skinnable == old.skinnable
        &&& new.extent == old.extent
        &&& new.name == old.name
        &&& new.material_id == old.material_id
        // progress is reported when anything was submitted
        &&& r == (materials_raw(old.materials) > 0 || old.mesh is Some || animation_raw(old.animatable) > 0)
    }

    /// `new` is `old` with only the transform changed.
    pub open spec fn same_but_transform(new: GltfPrefab, old: GltfPrefab) -> bool {
        &&& new.mesh == old.mesh
        &&& new.mesh_handle == old.mesh_handle
        &&& new.material == old.material
        &&& new.animatable == old.animatable
        &&& new.skinnable == old.skinnable
        &&& new.extent == old.extent
        &&& new.name == old.name
        &&& new.materials == old.materials
        &&& new.material_id == old.material_id
    }

    /// The transform that the scene-centering helpers start from.
    pub open spec fn base_transform(self) -> Transform {
        match self.transform {
            Some(t) => t,
            None => Transform::spec_identity(),
        }
    }

    /// A fragment with nothing in it.
    pub fn new() -> (r: Self)
        ensures
            r.transform is None,
            r.mesh is None,
            r.mesh_handle is None,
            r.material is None,
            r.animatable is None,
            r.skinnable is None,
            r.extent is None,
            r.name is None,
            r.materials is None,
            r.material_id is None,
    {
        GltfPrefab {
            transform: None,
            mesh: None,
            mesh_handle: None,
            material: None,
            animatable: None,
            skinnable: None,
            extent: None,
            name: None,
            materials: None,
            material_id: None,
        }
    }

    /// Moves the node so that the centroid of its extent lands at `target`.
    /// Without an extent nothing changes.
    pub fn move_to(&mut self, target: [i32; 3])
        requires
            old(self).extent is Some ==> forall|i: int|
                0 <= i < 3 ==> i64::MIN <= #[trigger] old(self).base_transform().translation[i] + target[i]
                    - old(self).extent.unwrap().spec_centroid(i) <= i64::MAX,
        ensures
            GltfPrefab::same_but_transform(*final(self), *old(self)),
            old(self).extent is None ==> final(self).transform == old(self).transform,
            old(self).extent is Some ==> {
                &&& final(self).transform is Some
                &&& final(self).transform.unwrap().scale == old(self).base_transform().scale
                &&& forall|i: int|
                    0 <= i < 3 ==> #[trigger] final(self).transform.unwrap().translation[i]
                        == old(self).base_transform().translation[i] + target[i]
                        - old(self).extent.unwrap().spec_centroid(i)
            },
    {
        match &self.extent {
            Some(extent) => {
                let centroid = extent.centroid();
                let mut t = match self.transform {
                    Some(t) => t,
                    None => Transform::default(),
                };
                let ghost t0 = t;
                proof {
                    assert forall|j: int| 0 <= j < 3 implies i64::MIN <= #[trigger] t0.translation[j]
                        + target[j] - centroid[j] <= i64::MAX by {
                        assert(old(self).base_transform().translation[j] == t0.translation[j]);
                    }
                }
                let mut i: usize = 0;
                while i < 3
                    invariant
                        i <= 3,
                        t.scale == t0.scale,
                        forall|j: int|
                            0 <= j < i ==> #[trigger] t.translation[j] == t0.translation[j] + target[j]
                                - centroid[j],
                        forall|j: int| i <= j < 3 ==> #[trigger] t.translation[j] == t0.translation[j],
                        forall|j: int|
                            0 <= j < 3 ==> i64::MIN <= #[trigger] t0.translation[j] + target[j] - centroid[j]
                                <= i64::MAX,
                    decreases 3 - i,
                {
                    t.translation[i] = t.translation[i] + (target[i] as i64 - centroid[i] as i64);
                    i += 1;
                }
                self.transform = Some(t);
            },
            None => {},
        }
    }

    /// Scales the node uniformly so that the longest axis of its extent
    /// measures `max_distance`. Without an extent, or when that axis has no
    /// positive length (an empty or flat bound), nothing changes.
    pub fn scale_to(&mut self, max_distance: i64)
        ensures
            GltfPrefab::same_but_transform(*final(self), *old(self)),
            (old(self).extent is None || old(self).extent.unwrap().spec_max_distance() <= 0)
                ==> final(self).transform == old(self).transform,
            (old(self).extent is Some && old(self).extent.unwrap().spec_max_distance() > 0) ==> {
                &&& final(self).transform is Some
                &&& final(self).transform.unwrap().translation == old(self).base_transform().translation
                &&& final(self).transform.unwrap().scale == Scale {
                    numerator: max_distance,
                    denominator: old(self).extent.unwrap().spec_max_distance() as i64,
                }
            },
    {
        match &self.extent {
            Some(extent) => {
                let distance = extent.distance();
                let mut max = distance[0];
                if distance[1] > max {
                    max = distance[1];
                }
                if distance[2] > max {
                    max = distance[2];
                }
                if max > 0 {
                    let mut t = match self.transform {
                        Some(t) => t,
                        None => Transform::default(),
                    };
                    t.scale = Scale { numerator: max_distance, denominator: max };
                    self.transform = Some(t);
                }
            },
            None => {},
        }
    }

    /// One resolution pass: loads the material table the fragment brings
    /// into the shared table, copies the fragment's material out of the
    /// shared table, submits the raw mesh data and loads the animation
    /// samplers, in that order. Returns whether anything was submitted.
    pub fn load_sub_assets(&mut self, loader: &mut Loader, mat_set: &mut GltfMaterialSet) -> (r: bool)
        requires
            old(mat_set).is_loaded(),
        ensures
            GltfPrefab::pass_result(
                *old(self),
                *final(self),
                old(loader)@,
                final(loader)@,
                *old(mat_set),
                *final(mat_set),
                r,
            ),
    {
        let ghost l0 = loader@;
        let mut ret = false;
        let taken = self.materials.take();
        match taken {
            Some(mut mats) => {
                let loaded = mats.load_sub_assets(loader);
                ret = loaded || ret;
                *mat_set = mats;
            },
            None => {},
        }
        let ghost l1 = loader@;
        proof {
            match old(self).materials {
                Some(m) => lemma_set_submissions_len(m@),
                None => {},
            }
            assert(l1.len() == l0.len() + materials_raw(old(self).materials));
        }
        match self.material_id {
            Some(id) => match mat_set.get(id) {
                Some(m) => {
                    proof {
                        assert(mat_set@[id as int] == Some(*m));
                    }
                    self.material = Some(m.clone_loaded());
                },
                None => {},
            },
            None => {},
        }
        let mesh = self.mesh.take();
        match mesh {
            Some(d) => {
                let h = loader.load_from_data(AssetKind::Mesh, d);
                self.mesh_handle = Some(h);
                ret = true;
            },
            None => {},
        }
        let ghost l2 = loader@;
        let anim = self.animatable.take();
        match anim {
            Some(mut a) => {
                let loaded = a.load_sub_assets(loader);
                ret = loaded || ret;
                self.animatable = Some(a);
            },
            None => {},
        }
        proof {
            assert(loader@ =~= l0 + materials_submissions(old(self).materials) + mesh_submissions(
                old(self).mesh,
            ) + animation_submissions(old(self).animatable));
        }
        ret
    }
}

/// After one pass a fragment holds no raw data, and every material of the
/// shared table is loaded.
pub proof fn lemma_pass_settles(
    old: GltfPrefab,
    new: GltfPrefab,
    old_loader: Seq<Submission>,
    new_loader: Seq<Submission>,
    old_table: GltfMaterialSet,
    new_table: GltfMaterialSet,
    r: bool,
)
    requires
        GltfPrefab::pass_result(old, new, old_loader, new_loader, old_table, new_table, r),
    ensures
        new.is_settled(),
        new_table.is_loaded(),
        new.material is Some && old.material is None ==> new.material.unwrap().is_loaded(),
{
    match old.animatable {
        Some(a) => {
            let base = old_loader.len() as int + materials_raw(old.materials) + if old.mesh is Some {
                1int
            } else {
                0int
            };
            lemma_resolved_slots_hold_no_data(a.samplers@, base);
        },
        None => {},
    }
}

/// A pass over a fragment that holds no raw data reports no progress,
/// submits nothing, leaves the shared table as it was and changes nothing but
/// the material slot, which it fills from the table.
pub proof fn lemma_settled_pass_is_idle(
    old: GltfPrefab,
    new: GltfPrefab,
    old_loader: Seq<Submission>,
    new_loader: Seq<Submission>,
    old_table: GltfMaterialSet,
    new_table: GltfMaterialSet,
    r: bool,
)
    requires
        old.is_settled(),
        GltfPrefab::pass_result(old, new, old_loader, new_loader, old_table, new_table, r),
    ensures
        !r,
        new_loader == old_loader,
        new_table@ == old_table@,
        new.is_settled(),
        new.mesh_handle == old.mesh_handle,
        same_animation(new.animatable, old.animatable),
{
    match old.animatable {
        Some(a) => {
            let base = old_loader.len() as int;
            lemma_resolve_without_data(a.samplers@, base);
            lemma_submissions_len(a.samplers@, AssetKind::AnimationSampler);
        },
        None => {},
    }
    assert(new_loader =~= old_loader);
}

/// Once a fragment's mesh data has given way to a handle, a further pass
/// keeps that handle and brings no raw data back.
pub proof fn lemma_mesh_handle_is_kept(
    old: GltfPrefab,
    new: GltfPrefab,
    old_loader: Seq<Submission>,
    new_loader: Seq<Submission>,
    old_table: GltfMaterialSet,
    new_table: GltfMaterialSet,
    r: bool,
)
    requires
        old.mesh is None,
        old.mesh_handle is Some,
        GltfPrefab::pass_result(old, new, old_loader, new_loader, old_table, new_table, r),
    ensures
        new.mesh is None,
        new.mesh_handle == old.mesh_handle,
{
}

/// Two fragments that look the same material index up in a table that
/// neither of them replaces receive the same texture handles, and no raw
/// texture data.
pub proof fn lemma_shared_material(
    a_old: GltfPrefab,
    a_new: GltfPrefab,
    b_old: GltfPrefab,
    b_new: GltfPrefab,
    loaders: Seq<Seq<Submission>>,
    table: GltfMaterialSet,
    ra: bool,
    rb: bool,
)
    requires
        loaders.len() == 4,
        a_old.materials is None,
        b_old.materials is None,
        table.is_loaded(),
        a_old.material_id is Some,
        a_old.material_id == b_old.material_id,
        table.spec_get(a_old.material_id.unwrap() as int) is Some,
        GltfPrefab::pass_result(a_old, a_new, loaders[0], loaders[1], table, table, ra),
        GltfPrefab::pass_result(b_old, b_new, loaders[2], loaders[3], table, table, rb),
    ensures
        a_new.material is Some,
        b_new.material is Some,
        a_new.material.unwrap().textures@ == b_new.material.unwrap().textures@,
        a_new.material.unwrap().is_loaded(),
{
    let id = a_old.material_id.unwrap() as int;
    assert(table@[id] is Some);
}

} // verus!
