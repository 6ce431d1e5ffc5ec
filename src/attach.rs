//! The component store that resolved fragments are committed to, and the
//! commit itself.

use crate::assets::{copy_handles, AssetRef, Handle};
use crate::extent::GltfNodeExtent;
use crate::material::MaterialPrefab;
use crate::prefab::{GltfPrefab, Transform};
use vstd::prelude::*;

verus! {

/// An entity of the component store: its index in order of creation.
#[derive(Clone, Copy, Debug, PartialEq, Eq, Structural, Hash)]
pub struct Entity {
    pub id: usize,
}

/// The components of one kind, at most one per entity.
pub struct ComponentStorage<T> {
    slots: Vec<Option<T>>,
}

impl<T> View for ComponentStorage<T> {
    type V = Seq<Option<T>>;

    closed spec fn view(&self) -> Seq<Option<T>> {
        self.slots@
    }
}

impl<T> ComponentStorage<T> {
    /// The component of the entity with index `id`, if it has one.
    pub open spec fn spec_get(self, id: int) -> Option<T> {
        if 0 <= id < self@.len() {
            self@[id]
        } else {
            None
        }
    }

    /// `self` equals `old` but for the component of the entity with index
    /// `id`, which is present.
    pub open spec fn set_at(self, old: Self, id: int) -> bool {
        &&& self.spec_get(id) is Some
        &&& forall|i: int| i != id ==> #[trigger] self.spec_get(i) == old.spec_get(i)
    }

    /// A storage with no components.
    pub fn new() -> (r: Self)
        ensures
            forall|i: int| #[trigger] r.spec_get(i) is None,
    {
        ComponentStorage { slots: Vec::new() }
    }

    /// The component of `e`, if it has one.
    pub fn get(&self, e: Entity) -> (r: Option<&T>)
        ensures
            r == match self.spec_get(e.id as int) {
                Some(c) => Some(&c),
                None => None::<&T>,
            },
    {
        if e.id < self.slots.len() {
            match &self.slots[e.id] {
                Some(c) => Some(c),
                None => None,
            }
        } else {
            None
        }
    }

    /// Gives `e` the component `c`, replacing the one it had, which is
    /// returned.
    pub fn insert(&mut self, e: Entity, c: T) -> (r: Option<T>)
        ensures
            r == old(self).spec_get(e.id as int),
            final(self).spec_get(e.id as int) == Some(c),
            forall|i: int| i != e.id ==> #[trigger] final(self).spec_get(i) == old(self).spec_get(i),
    {
        while self.slots.len() <= e.id
            invariant
                self@.len() == old(self)@.len() || self@.len() <= e.id + 1,
                old(self)@.len() <= self@.len(),
                forall|i: int| 0 <= i < self@.len() ==> #[trigger] self@[i] == old(self).spec_get(i),
            decreases e.id + 1 - self@.len(),
        {
            self.slots.push(None);
        }
        let mut slot = Some(c);
        std::mem::swap(&mut self.slots[e.id], &mut slot);
        slot
    }
}

/// Animation data committed to an entity: the sampler handles and the
/// animated entities.
#[derive(Clone, Debug, PartialEq, Eq)]
pub struct Animation {
    pub samplers: Vec<AssetRef>,
    pub nodes: Vec<Entity>,
}

/// Skin data committed to an entity: its joint entities.
#[derive(Clone, Debug, PartialEq, Eq)]
pub struct Skin {
    pub joints: Vec<Entity>,
}

/// Why a fragment could not be committed.
#[derive(Clone, Copy, Debug, PartialEq, Eq, Structural)]
pub enum AttachError {
    /// The target entity has been deleted.
    DeadEntity(Entity),
    /// A joint or an animated node refers to an index past the scene's
    /// entities.
    EntityIndexOutOfRange(usize),
}

/// The entities of a store: for each one created, whether it still lives.
pub struct EntitySet {
    alive: Vec<bool>,
}

/// The entities of the store and one storage per kind of component that a
/// fragment carries.
pub struct PrefabStorages {
    pub entities: EntitySet,
    pub transforms: ComponentStorage<Transform>,
    pub names: ComponentStorage<String>,
    pub materials: ComponentStorage<MaterialPrefab>,
    pub meshes: ComponentStorage<Handle>,
    pub animations: ComponentStorage<Animation>,
    pub skins: ComponentStorage<Skin>,
    pub extents: ComponentStorage<GltfNodeExtent>,
}

/// All of `indices` point into `entities`.
pub open spec fn indices_in_range(indices: Seq<usize>, entities: Seq<Entity>) -> bool {
    forall|k: int| 0 <= k < indices.len() ==> #[trigger] indices[k] < entities.len()
}

/// The entities that `indices` point to.
pub open spec fn entities_at(indices: Seq<usize>, entities: Seq<Entity>) -> Seq<Entity> {
    Seq::new(indices.len(), |k: int| entities[indices[k] as int])
}

/// The entities that `indices` point to, or `None` if one of them points
/// past `entities`.
pub fn map_entities(indices: &Vec<usize>, entities: &[Entity]) -> (r: Option<Vec<Entity>>)
    ensures
        r is Some <==> indices_in_range(indices@, entities@),
        r is Some ==> r.unwrap()@ == entities_at(indices@, entities@),
{
    let mut out: Vec<Entity> = Vec::new();
    let mut k: usize = 0;
    while k < indices.len()
        invariant
            k <= indices@.len(),
            indices_in_range(indices@.take(k as int), entities@),
            out@ == entities_at(indices@.take(k as int), entities@),
        decreases indices@.len() - k,
    {
        let idx = indices[k];
        if idx >= entities.len() {
            proof {
                assert(!(indices@[k as int] < entities@.len()));
            }
            return None;
        }
        out.push(entities[idx]);
        proof {
            assert(indices@.take(k + 1).take(k as int) =~= indices@.take(k as int));
            assert(out@ =~= entities_at(indices@.take(k + 1), entities@));
        }
        k += 1;
    }
    proof {
        assert(indices@.take(indices@.len() as int) =~= indices@);
    }
    Some(out)
}

/// The first index of `indices` that points past `entities`.
pub fn first_out_of_range(indices: &Vec<usize>, entities: &[Entity]) -> (r: Option<usize>)
    ensures
        r is None <==> indices_in_range(indices@, entities@),
        r is Some ==> exists|k: int| 0 <= k < indices@.len() && indices@[k] == r.unwrap() && r.unwrap() >= entities@.len(),
{
    let mut k: usize = 0;
    while k < indices.len()
        invariant
            k <= indices@.len(),
            forall|j: int| 0 <= j < k ==> #[trigger] indices@[j] < entities@.len(),
        decreases indices@.len() - k,
    {
        if indices[k] >= entities.len() {
            return Some(indices[k]);
        }
        k += 1;
    }
    None
}

impl EntitySet {
    /// The entity with index `id` exists and has not been deleted.
    pub closed spec fn spec_alive(self, id: int) -> bool {
        0 <= id < self.alive@.len() && self.alive@[id]
    }

    /// The number of entities created so far.
    pub closed spec fn spec_len(self) -> nat {
        self.alive@.len()
    }
}

impl PrefabStorages {
    /// The entity with index `id` exists and has not been deleted.
    pub open spec fn spec_alive(self, id: int) -> bool {
        self.entities.spec_alive(id)
    }

    /// The number of entities created so far.
    pub open spec fn spec_num_entities(self) -> nat {
        self.entities.spec_len()
    }

    /// A store with no entities and no components.
    pub fn new() -> (r: Self)
        ensures
            r.spec_num_entities() == 0,
            forall|i: int| !#[trigger] r.spec_alive(i),
            forall|i: int| #[trigger] r.transforms.spec_get(i) is None,
            forall|i: int| #[trigger] r.names.spec_get(i) is None,
            forall|i: int| #[trigger] r.materials.spec_get(i) is None,
            forall|i: int| #[trigger] r.meshes.spec_get(i) is None,
            forall|i: int| #[trigger] r.animations.spec_get(i) is None,
            forall|i: int| #[trigger] r.skins.spec_get(i) is None,
            forall|i: int| #[trigger] r.extents.spec_get(i) is None,
    {
        PrefabStorages {
            entities: EntitySet { alive: Vec::new() },
            transforms: ComponentStorage::new(),
            names: ComponentStorage::new(),
            materials: ComponentStorage::new(),
            meshes: ComponentStorage::new(),
            animations: ComponentStorage::new(),
            skins: ComponentStorage::new(),
            extents: ComponentStorage::new(),
        }
    }

    /// Creates a new, living entity.
    pub fn create_entity(&mut self) -> (e: Entity)
        ensures
            e.id == old(self).spec_num_entities(),
            final(self).spec_num_entities() == old(self).spec_num_entities() + 1,
            final(self).spec_alive(e.id as int),
            forall|i: int| i != e.id ==> #[trigger] final(self).spec_alive(i) == old(self).spec_alive(i),
            final(self).transforms == old(self).transforms,
            final(self).names == old(self).names,
            final(self).materials == old(self).materials,
            final(self).meshes == old(self).meshes,
            final(self).animations == old(self).animations,
            final(self).skins == old(self).skins,
            final(self).extents == old(self).extents,
    {
        let e = Entity { id: self.entities.alive.len() };
        self.entities.alive.push(true);
        e
    }

    /// Deletes `e`; its components stay behind but no new one is accepted.
    pub fn delete_entity(&mut self, e: Entity)
        ensures
            !final(self).spec_alive(e.id as int),
            final(self).spec_num_entities() == old(self).spec_num_entities(),
            forall|i: int| i != e.id ==> #[trigger] final(self).spec_alive(i) == old(self).spec_alive(i),
            final(self).transforms == old(self).transforms,
            final(self).names == old(self).names,
            final(self).materials == old(self).materials,
            final(self).meshes == old(self).meshes,
            final(self).animations == old(self).animations,
            final(self).skins == old(self).skins,
            final(self).extents == old(self).extents,
    {
        if e.id < self.entities.alive.len() {
            self.entities.alive.set(e.id, false);
        }
    }

    /// Whether `e` exists and has not been deleted.
    pub fn is_alive(&self, e: Entity) -> (r: bool)
        ensures
            r == self.spec_alive(e.id as int),
    {
        e.id < self.entities.alive.len() && self.entities.alive[e.id]
    }
}

impl GltfPrefab {
    /// The fragment can be committed: it holds no raw data, and its material,
    /// if any, is loaded.
    pub open spec fn is_resolved(self) -> bool {
        &&& self.is_settled()
        &&& self.material is Some ==> self.material.unwrap().is_loaded()
    }

    /// Every joint and animated node of the fragment points into `entities`.
    pub open spec fn references_in_range(self, entities: Seq<Entity>) -> bool {
        &&& self.skinnable is Some ==> indices_in_range(self.skinnable.unwrap().joints@, entities)
        &&& self.animatable is Some ==> indices_in_range(self.animatable.unwrap().nodes@, entities)
    }

    /// `i` is one of the fragment's joint or animated node indices.
    pub open spec fn refers_to(self, i: usize) -> bool {
        ||| self.skinnable is Some && self.skinnable.unwrap().joints@.contains(i)
        ||| self.animatable is Some && self.animatable.unwrap().nodes@.contains(i)
    }

    /// `new` is the store `old` after the fragment's components were given
    /// to the entity with index `id`, its joints and animated nodes taken
    /// from `entities`.
    pub open spec fn committed(self, new: PrefabStorages, old: PrefabStorages, id: int, entities: Seq<Entity>) -> bool {
        &&& match self.transform {
            Some(t) => new.transforms.set_at(old.transforms, id) && new.transforms.spec_get(id) == Some(t),
            None => new.transforms == old.transforms,
        }
        &&& match self.mesh_handle {
            Some(h) => new.meshes.set_at(old.meshes, id) && new.meshes.spec_get(id) == Some(h),
            None => new.meshes == old.meshes,
        }
        &&& match self.name {
            Some(n) => new.names.set_at(old.names, id) && new.names.spec_get(id) == Some(n),
            None => new.names == old.names,
        }
        &&& match self.material {
            Some(m) => new.materials.set_at(old.materials, id) && new.materials.spec_get(id).unwrap().textures@
                == m.textures@,
            None => new.materials == old.materials,
        }
        &&& match self.animatable {
            Some(a) => new.animations.set_at(old.animations, id) && new.animations.spec_get(id).unwrap().samplers@
                == a.samplers@ && new.animations.spec_get(id).unwrap().nodes@ == entities_at(a.nodes@, entities),
            None => new.animations == old.animations,
        }
        &&& match self.skinnable {
            Some(s) => new.skins.set_at(old.skins, id) && new.skins.spec_get(id).unwrap().joints@ == entities_at(
                s.joints@,
                entities,
            ),
            None => new.skins == old.skins,
        }
        &&& match self.extent {
            Some(x) => new.extents.set_at(old.extents, id) && new.extents.spec_get(id) == Some(x),
            None => new.extents == old.extents,
        }
    }

    /// Commits the fragment's components to `entity`. `entities` are the
    /// entities of the whole scene, which joints and animated nodes index;
    /// `children` are the entity's children. Either every component is
    /// given, or, when the entity is dead or an index points past
    /// `entities`, none is and the store is left as it was.
    pub fn add_to_entity(
        &self,
        entity: Entity,
        storages: &mut PrefabStorages,
        entities: &[Entity],
        children: &[Entity],
    ) -> (r: Result<(), AttachError>)
        requires
            self.is_resolved(),
        ensures
            r is Ok <==> (old(storages).spec_alive(entity.id as int) && self.references_in_range(entities@)),
            !old(storages).spec_alive(entity.id as int) ==> r == Err::<(), AttachError>(
                AttachError::DeadEntity(entity),
            ),
            r is Err ==> *final(storages) == *old(storages),
            forall|i: usize|
                r == Err::<(), AttachError>(AttachError::EntityIndexOutOfRange(i)) ==> i >= entities@.len()
                    && self.refers_to(i),
            r is Ok ==> self.committed(*final(storages), *old(storages), entity.id as int, entities@),
            r is Ok ==> final(storages).spec_alive(entity.id as int),
    {
        if !storages.is_alive(entity) {
            return Err(AttachError::DeadEntity(entity));
        }
        if let Some(s) = &self.skinnable {
            if let Some(bad) = first_out_of_range(&s.joints, entities) {
                return Err(AttachError::EntityIndexOutOfRange(bad));
            }
        }
        if let Some(a) = &self.animatable {
            if let Some(bad) = first_out_of_range(&a.nodes, entities) {
                return Err(AttachError::EntityIndexOutOfRange(bad));
            }
        }
        if let Some(transform) = &self.transform {
            storages.transforms.insert(entity, *transform);
        }
        if let Some(mesh) = &self.mesh_handle {
            storages.meshes.insert(entity, *mesh);
        }
        if let Some(name) = &self.name {
            storages.names.insert(entity, name.clone());
        }
        if let Some(material) = &self.material {
            storages.materials.insert(entity, material.clone_loaded());
        }
        if let Some(animatable) = &self.animatable {
            let samplers = copy_handles(&animatable.samplers);
            match map_entities(&animatable.nodes, entities) {
                Some(nodes) => {
                    storages.animations.insert(entity, Animation { samplers, nodes });
                },
                None => {},
            }
        }
        if let Some(skinnable) = &self.skinnable {
            match map_entities(&skinnable.joints, entities) {
                Some(joints) => {
                    storages.skins.insert(entity, Skin { joints });
                },
                None => {},
            }
        }
        if let Some(extent) = &self.extent {
            storages.extents.insert(entity, *extent);
        }
        Ok(())
    }
}

/// Committing a fragment to an entity that had no components leaves it with
/// exactly the components that the fragment carries.
pub proof fn lemma_commit_gives_exactly_present_parts(
    fragment: GltfPrefab,
    old: PrefabStorages,
    new: PrefabStorages,
    id: int,
    entities: Seq<Entity>,
)
    requires
        old.transforms.spec_get(id) is None,
        old.names.spec_get(id) is None,
        old.materials.spec_get(id) is None,
        old.meshes.spec_get(id) is None,
        old.animations.spec_get(id) is None,
        old.skins.spec_get(id) is None,
        old.extents.spec_get(id) is None,
        fragment.committed(new, old, id, entities),
    ensures
        new.transforms.spec_get(id) is Some <==> fragment.transform is Some,
        new.names.spec_get(id) is Some <==> fragment.name is Some,
        new.materials.spec_get(id) is Some <==> fragment.material is Some,
        new.meshes.spec_get(id) is Some <==> fragment.mesh_handle is Some,
        new.animations.spec_get(id) is Some <==> fragment.animatable is Some,
        new.skins.spec_get(id) is Some <==> fragment.skinnable is Some,
        new.extents.spec_get(id) is Some <==> fragment.extent is Some,
{
}

} // verus!
