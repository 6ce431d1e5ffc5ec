//! Material descriptors and the table that shares them, by index, between
//! all the nodes of a scene.

use crate::assets::{
    copy_handles, lemma_resolved_slots_hold_no_data, lemma_submissions_len, load_slots, num_raw,
    resolve_slots,
    submissions_of, AssetKind, AssetRef, Loader, Submission,
};
use vstd::prelude::*;

verus! {

/// A material: its texture references, each raw data or a handle.
#[derive(Clone, Debug, PartialEq, Eq)]
pub struct MaterialPrefab {
    pub textures: Vec<AssetRef>,
}

impl MaterialPrefab {
    /// Every texture of the material has been submitted.
    pub open spec fn is_loaded(self) -> bool {
        num_raw(self.textures@) == 0
    }

    /// Submits the raw data of each texture, in order, and keeps the handles.
    /// Returns whether anything was submitted.
    pub fn load_sub_assets(&mut self, loader: &mut Loader) -> (r: bool)
        ensures
            final(self).textures@ == resolve_slots(old(self).textures@, old(loader)@.len() as int),
            final(loader)@ == old(loader)@ + submissions_of(old(self).textures@, AssetKind::Texture),
            r == (num_raw(old(self).textures@) > 0),
    {
        load_slots(&mut self.textures, AssetKind::Texture, loader)
    }

    /// A copy of a loaded material that shares its texture handles.
    pub fn clone_loaded(&self) -> (r: MaterialPrefab)
        requires
            self.is_loaded(),
        ensures
            r.textures@ == self.textures@,
    {
        MaterialPrefab { textures: copy_handles(&self.textures) }
    }
}

/// How many textures of an optional material still hold raw data.
pub open spec fn material_raw(m: Option<MaterialPrefab>) -> nat {
    match m {
        Some(m) => num_raw(m.textures@),
        None => 0,
    }
}

/// How many textures of the materials in `s` still hold raw data.
pub open spec fn set_raw(s: Seq<Option<MaterialPrefab>>) -> nat
    decreases s.len(),
{
    if s.len() == 0 {
        0
    } else {
        set_raw(s.drop_last()) + material_raw(s.last())
    }
}

/// The payloads that loading the materials of `s`, in order, hands to the
/// pipeline.
pub open spec fn set_submissions(s: Seq<Option<MaterialPrefab>>) -> Seq<Submission>
    decreases s.len(),
{
    if s.len() == 0 {
        Seq::empty()
    } else {
        set_submissions(s.drop_last()) + match s.last() {
            Some(m) => submissions_of(m.textures@, AssetKind::Texture),
            None => Seq::empty(),
        }
    }
}

/// One payload is submitted for each texture of the table that holds raw
/// data.
pub proof fn lemma_set_submissions_len(s: Seq<Option<MaterialPrefab>>)
    ensures
        set_submissions(s).len() == set_raw(s),
    decreases s.len(),
{
    if s.len() > 0 {
        lemma_set_submissions_len(s.drop_last());
        match s.last() {
            Some(m) => lemma_submissions_len(m.textures@, AssetKind::Texture),
            None => {},
        }
    }
}

/// `new` is the optional material `old` with its textures submitted from
/// payload number `base` on.
pub open spec fn material_resolved(new: Option<MaterialPrefab>, old: Option<MaterialPrefab>, base: int) -> bool {
    match old {
        Some(m) => new is Some && new.unwrap().textures@ == resolve_slots(m.textures@, base),
        None => new is None,
    }
}

/// `new` is the material table `old` with every material loaded, in order of
/// index, from payload number `base` on.
pub open spec fn set_resolved(new: Seq<Option<MaterialPrefab>>, old: Seq<Option<MaterialPrefab>>, base: int) -> bool {
    &&& new.len() == old.len()
    &&& forall|i: int|
        0 <= i < old.len() ==> material_resolved(#[trigger] new[i], old[i], base + set_raw(old.take(i)))
}

/// Every material of the table is loaded.
pub open spec fn set_loaded(s: Seq<Option<MaterialPrefab>>) -> bool {
    forall|i: int| 0 <= i < s.len() && (#[trigger] s[i]) is Some ==> s[i].unwrap().is_loaded()
}

/// A table of materials keyed by their scene-local index, one slot per index.
#[derive(Debug)]
pub struct GltfMaterialSet {
    materials: Vec<Option<MaterialPrefab>>,
}

impl View for GltfMaterialSet {
    type V = Seq<Option<MaterialPrefab>>;

    closed spec fn view(&self) -> Seq<Option<MaterialPrefab>> {
        self.materials@
    }
}

impl GltfMaterialSet {
    /// The material at `id`, if the table holds one.
    pub open spec fn spec_get(self, id: int) -> Option<MaterialPrefab> {
        if 0 <= id < self@.len() {
            self@[id]
        } else {
            None
        }
    }

    /// An empty table.
    pub fn new() -> (r: Self)
        ensures
            r@ == Seq::<Option<MaterialPrefab>>::empty(),
    {
        GltfMaterialSet { materials: Vec::new() }
    }

    /// The number of index slots.
    pub fn len(&self) -> (r: usize)
        ensures
            r == self@.len(),
    {
        self.materials.len()
    }

    /// Puts `material` at index `id`, growing the table with empty slots as
    /// needed; returns the material that was there.
    pub fn insert(&mut self, id: usize, material: MaterialPrefab) -> (r: Option<MaterialPrefab>)
        ensures
            r == old(self).spec_get(id as int),
            final(self)@.len() == if id < old(self)@.len() { old(self)@.len() as int } else { id + 1 },
            final(self)@[id as int] == Some(material),
            forall|i: int|
                0 <= i < final(self)@.len() && i != id ==> #[trigger] final(self)@[i] == old(
                    self,
                ).spec_get(i),
    {
        while self.materials.len() <= id
            invariant
                self@.len() == old(self)@.len() || self@.len() <= id + 1,
                old(self)@.len() <= self@.len(),
                forall|i: int| 0 <= i < self@.len() ==> #[trigger] self@[i] == old(self).spec_get(i),
            decreases id + 1 - self@.len(),
        {
            self.materials.push(None);
        }
        let mut slot = Some(material);
        std::mem::swap(&mut self.materials[id], &mut slot);
        slot
    }

    /// The material at `id`, if the table holds one.
    pub fn get(&self, id: usize) -> (r: Option<&MaterialPrefab>)
        ensures
            r == match self.spec_get(id as int) {
                Some(m) => Some(&m),
                None => None::<&MaterialPrefab>,
            },
    {
        if id < self.materials.len() {
            match &self.materials[id] {
                Some(m) => Some(m),
                None => None,
            }
        } else {
            None
        }
    }

    /// Every material of the table is loaded.
    pub open spec fn is_loaded(self) -> bool {
        set_loaded(self@)
    }

    /// Loads every material of the table, in order of index. Returns whether
    /// anything was submitted.
    pub fn load_sub_assets(&mut self, loader: &mut Loader) -> (r: bool)
        ensures
            set_resolved(final(self)@, old(self)@, old(loader)@.len() as int),
            final(self).is_loaded(),
            final(loader)@ == old(loader)@ + set_submissions(old(self)@),
            r == (set_raw(old(self)@) > 0),
    {
        let ghost s0 = self@;
        let ghost base = loader@.len() as int;
        let mut any = false;
        let mut i: usize = 0;
        proof {
            assert(s0.take(0) =~= Seq::<Option<MaterialPrefab>>::empty());
            assert(loader@ =~= old(loader)@ + set_submissions(s0.take(0)));
        }
        while i < self.materials.len()
            invariant
                i <= self@.len(),
                self@.len() == s0.len(),
                forall|k: int|
                    0 <= k < i ==> material_resolved(#[trigger] self@[k], s0[k], base + set_raw(s0.take(k))),
                forall|k: int| 0 <= k < i && (#[trigger] self@[k]) is Some ==> self@[k].unwrap().is_loaded(),
                forall|k: int| i <= k < s0.len() ==> #[trigger] self@[k] == s0[k],
                loader@ == old(loader)@ + set_submissions(s0.take(i as int)),
                loader@.len() == base + set_raw(s0.take(i as int)),
                base == old(loader)@.len(),
                any == (set_raw(s0.take(i as int)) > 0),
            decreases s0.len() - i,
        {
            proof {
                assert(s0.take(i + 1).drop_last() =~= s0.take(i as int));
                assert(s0.take(i + 1).last() == s0[i as int]);
            }
            let mut slot: Option<MaterialPrefab> = None;
            std::mem::swap(&mut self.materials[i], &mut slot);
            match slot {
                Some(mut m) => {
                    let ghost m0 = m;
                    let ghost n0 = loader@.len() as int;
                    let loaded = m.load_sub_assets(loader);
                    proof {
                        lemma_resolved_slots_hold_no_data(m0.textures@, n0);
                        lemma_submissions_len(m0.textures@, AssetKind::Texture);
                    }
                    any = loaded || any;
                    self.materials[i] = Some(m);
                },
                None => {},
            }
            proof {
                assert(loader@ =~= old(loader)@ + set_submissions(s0.take(i + 1)));
            }
            i += 1;
        }
        proof {
            assert(s0.take(s0.len() as int) =~= s0);
        }
        any
    }
}

} // verus!
