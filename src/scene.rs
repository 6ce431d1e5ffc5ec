//! Whole-scene operations: one resolution pass over every fragment, the
//! combined bound of the scene and the choice of the scene to load.

use crate::assets::Submission;
use crate::extent::{max_int, min_int, GltfNodeExtent};
use crate::material::GltfMaterialSet;
use crate::prefab::{
    animation_raw, lemma_pass_settles, lemma_settled_pass_is_idle, material_after_lookup, materials_raw,
    GltfPrefab,
};
use vstd::prelude::*;

verus! {

/// The fragment holds raw data that a pass would submit.
pub open spec fn has_raw(f: GltfPrefab) -> bool {
    materials_raw(f.materials) > 0 || f.mesh is Some || animation_raw(f.animatable) > 0
}

/// The parts that resolution never touches are the same in `new` and `old`,
/// and a mesh handle already present is kept.
pub open spec fn keeps_fixed_parts(new: GltfPrefab, old: GltfPrefab) -> bool {
    &&& new.transform == old.transform
    &&& new.skinnable == old.skinnable
    &&& new.extent == old.extent
    &&& new.name == old.name
    &&& new.material_id == old.material_id
    &&& old.mesh is None ==> new.mesh_handle == old.mesh_handle
}

/// One pass over every fragment of a scene took the fragments from `old` to
/// `new`, the pipeline's record from `old_loader` to `new_loader` and the
/// shared table from `old_table` to `new_table`, returning `r`.
pub open spec fn scene_pass_result(
    old: Seq<GltfPrefab>,
    new: Seq<GltfPrefab>,
    old_loader: Seq<Submission>,
    new_loader: Seq<Submission>,
    old_table: GltfMaterialSet,
    new_table: GltfMaterialSet,
    r: bool,
) -> bool {
    &&& new.len() == old.len()
    &&& forall|k: int| 0 <= k < new.len() ==> (#[trigger] new[k]).is_settled()
    &&& forall|k: int| 0 <= k < new.len() ==> keeps_fixed_parts(#[trigger] new[k], old[k])
    &&& new_table.is_loaded()
    &&& r == exists|k: int| 0 <= k < old.len() && has_raw(#[trigger] old[k])
    &&& (forall|k: int| 0 <= k < old.len() ==> (#[trigger] old[k]).materials is None) ==> {
        &&& new_table@ == old_table@
        &&& forall|k: int|
            0 <= k < new.len() ==> material_after_lookup(
                (#[trigger] new[k]).material,
                old[k].material,
                old[k].material_id,
                new_table,
            )
    }
    &&& (forall|k: int| 0 <= k < old.len() ==> (#[trigger] old[k]).is_settled()) ==> new_loader == old_loader
}

/// One resolution pass over every fragment of a scene. Returns whether any
/// fragment submitted anything; the caller repeats passes until none does.
pub fn load_scene_sub_assets(
    fragments: &mut Vec<GltfPrefab>,
    loader: &mut crate::assets::Loader,
    mat_set: &mut GltfMaterialSet,
) -> (r: bool)
    requires
        old(mat_set).is_loaded(),
    ensures
        scene_pass_result(
            old(fragments)@,
            final(fragments)@,
            old(loader)@,
            final(loader)@,
            *old(mat_set),
            *final(mat_set),
            r,
        ),
{
    let ghost f0 = fragments@;
    let ghost t0 = *mat_set;
    let mut ret = false;
    let mut i: usize = 0;
    while i < fragments.len()
        invariant
            i <= fragments@.len(),
            fragments@.len() == f0.len(),
            mat_set.is_loaded(),
            forall|k: int| 0 <= k < i ==> (#[trigger] fragments@[k]).is_settled(),
            forall|k: int| 0 <= k < i ==> keeps_fixed_parts(#[trigger] fragments@[k], f0[k]),
            forall|k: int| i <= k < f0.len() ==> #[trigger] fragments@[k] == f0[k],
            ret == exists|k: int| 0 <= k < i && has_raw(#[trigger] f0[k]),
            (forall|k: int| 0 <= k < f0.len() ==> (#[trigger] f0[k]).materials is None) ==> {
                &&& mat_set@ == t0@
                &&& forall|k: int|
                    0 <= k < i ==> material_after_lookup(
                        (#[trigger] fragments@[k]).material,
                        f0[k].material,
                        f0[k].material_id,
                        *mat_set,
                    )
            },
            (forall|k: int| 0 <= k < i ==> (#[trigger] f0[k]).is_settled()) ==> loader@ == old(loader)@,
        decreases f0.len() - i,
    {
        let ghost l_before = loader@;
        let ghost t_before = *mat_set;
        let ghost fr_before = fragments@[i as int];
        let progressed = fragments[i].load_sub_assets(loader, mat_set);
        proof {
            let fr_after = fragments@[i as int];
            lemma_pass_settles(fr_before, fr_after, l_before, loader@, t_before, *mat_set, progressed);
            if fr_before.is_settled() {
                lemma_settled_pass_is_idle(fr_before, fr_after, l_before, loader@, t_before, *mat_set, progressed);
            }
            if forall|k: int| 0 <= k < f0.len() ==> (#[trigger] f0[k]).materials is None {
                assert(f0[i as int].materials is None);
                assert forall|k: int| 0 <= k < i + 1 implies material_after_lookup(
                    (#[trigger] fragments@[k]).material,
                    f0[k].material,
                    f0[k].material_id,
                    *mat_set,
                ) by {
                    if k < i {
                        assert(material_after_lookup(
                            fragments@[k].material,
                            f0[k].material,
                            f0[k].material_id,
                            t_before,
                        ));
                    }
                }
            }
        }
        ret = progressed || ret;
        i += 1;
    }
    ret
}

/// Resolution converges in two passes: whatever the scene held, the second
/// of two consecutive passes reports no progress and submits nothing, every
/// fragment ends with handles in place of raw data, and every fragment whose
/// material index is in the shared table then holds that material.
pub proof fn lemma_scene_converges(
    f0: Seq<GltfPrefab>,
    f1: Seq<GltfPrefab>,
    f2: Seq<GltfPrefab>,
    l0: Seq<Submission>,
    l1: Seq<Submission>,
    l2: Seq<Submission>,
    t0: GltfMaterialSet,
    t1: GltfMaterialSet,
    t2: GltfMaterialSet,
    r1: bool,
    r2: bool,
)
    requires
        scene_pass_result(f0, f1, l0, l1, t0, t1, r1),
        scene_pass_result(f1, f2, l1, l2, t1, t2, r2),
    ensures
        !r2,
        l2 == l1,
        t2@ == t1@,
        forall|k: int| 0 <= k < f2.len() ==> (#[trigger] f2[k]).is_settled(),
        forall|k: int|
            0 <= k < f2.len() && (#[trigger] f2[k]).material_id is Some && t2.spec_get(
                f2[k].material_id.unwrap() as int,
            ) is Some ==> f2[k].material is Some && f2[k].material.unwrap().textures@ == t2.spec_get(
                f2[k].material_id.unwrap() as int,
            ).unwrap().textures@,
{
    assert forall|k: int| 0 <= k < f1.len() implies (#[trigger] f1[k]).materials is None by {
        assert(f1[k].is_settled());
    }
    assert forall|k: int| 0 <= k < f1.len() implies (#[trigger] f1[k]).is_settled() by {}
    assert forall|k: int| 0 <= k < f1.len() implies !has_raw(#[trigger] f1[k]) by {
        assert(f1[k].is_settled());
    }
    assert forall|k: int|
        0 <= k < f2.len() && (#[trigger] f2[k]).material_id is Some && t2.spec_get(
            f2[k].material_id.unwrap() as int,
        ) is Some implies f2[k].material is Some && f2[k].material.unwrap().textures@ == t2.spec_get(
        f2[k].material_id.unwrap() as int,
    ).unwrap().textures@ by {
        assert(keeps_fixed_parts(f2[k], f1[k]));
        assert(material_after_lookup(f2[k].material, f1[k].material, f1[k].material_id, t2));
    }
}

/// The least start of the present extents of `s` on axis `i`, the largest
/// coordinate when there is none.
pub open spec fn combined_start(s: Seq<GltfPrefab>, i: int) -> int
    decreases s.len(),
{
    if s.len() == 0 {
        i32::MAX as int
    } else {
        match s.last().extent {
            Some(e) => min_int(combined_start(s.drop_last(), i), e.start[i] as int),
            None => combined_start(s.drop_last(), i),
        }
    }
}

/// The greatest end of the present extents of `s` on axis `i`, the smallest
/// coordinate when there is none.
pub open spec fn combined_end(s: Seq<GltfPrefab>, i: int) -> int
    decreases s.len(),
{
    if s.len() == 0 {
        i32::MIN as int
    } else {
        match s.last().extent {
            Some(e) => max_int(combined_end(s.drop_last(), i), e.end[i] as int),
            None => combined_end(s.drop_last(), i),
        }
    }
}

/// The bound of a whole scene: the empty extent extended by the extent of
/// every node that has one.
pub fn scene_extent(fragments: &Vec<GltfPrefab>) -> (r: GltfNodeExtent)
    ensures
        forall|i: int| 0 <= i < 3 ==> #[trigger] r.start[i] == combined_start(fragments@, i),
        forall|i: int| 0 <= i < 3 ==> #[trigger] r.end[i] == combined_end(fragments@, i),
{
    let mut r = GltfNodeExtent::default();
    let mut k: usize = 0;
    while k < fragments.len()
        invariant
            k <= fragments@.len(),
            forall|i: int| 0 <= i < 3 ==> #[trigger] r.start[i] == combined_start(fragments@.take(k as int), i),
            forall|i: int| 0 <= i < 3 ==> #[trigger] r.end[i] == combined_end(fragments@.take(k as int), i),
        decreases fragments@.len() - k,
    {
        proof {
            assert(fragments@.take(k + 1).drop_last() =~= fragments@.take(k as int));
            assert(fragments@.take(k + 1).last() == fragments@[k as int]);
        }
        match &fragments[k].extent {
            Some(e) => {
                r.extend(e);
            },
            None => {},
        }
        k += 1;
    }
    proof {
        assert(fragments@.take(fragments@.len() as int) =~= fragments@);
    }
    r
}

/// Why no scene could be chosen.
#[derive(Clone, Copy, Debug, PartialEq, Eq, Structural)]
pub enum SceneSelectionError {
    /// The requested scene index is not one of the file's scenes.
    InvalidSceneIndex(usize),
    /// No scene index was requested, no default scene is declared and the
    /// file does not hold exactly one scene.
    AmbiguousScene,
}

/// The scene to load: the requested one if any; else the file's default
/// scene if it declares one; else the only scene of the file.
pub open spec fn spec_select_scene(
    scene_index: Option<usize>,
    default_scene: Option<usize>,
    scene_count: usize,
) -> Result<usize, SceneSelectionError> {
    match scene_index {
        Some(i) => if i < scene_count {
            Ok(i)
        } else {
            Err(SceneSelectionError::InvalidSceneIndex(i))
        },
        None => match default_scene {
            Some(d) => if d < scene_count {
                Ok(d)
            } else {
                Err(SceneSelectionError::InvalidSceneIndex(d))
            },
            None => if scene_count == 1 {
                Ok(0)
            } else {
                Err(SceneSelectionError::AmbiguousScene)
            },
        },
    }
}

/// Chooses the scene to load out of `scene_count` scenes.
pub fn select_scene(scene_index: Option<usize>, default_scene: Option<usize>, scene_count: usize) -> (r: Result<
    usize,
    SceneSelectionError,
>)
    ensures
        r == spec_select_scene(scene_index, default_scene, scene_count),
{
    match scene_index {
        Some(i) => if i < scene_count {
            Ok(i)
        } else {
            Err(SceneSelectionError::InvalidSceneIndex(i))
        },
        None => match default_scene {
            Some(d) => if d < scene_count {
                Ok(d)
            } else {
                Err(SceneSelectionError::InvalidSceneIndex(d))
            },
            None => if scene_count == 1 {
                Ok(0)
            } else {
                Err(SceneSelectionError::AmbiguousScene)
            },
        },
    }
}

} // verus!
