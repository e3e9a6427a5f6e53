use crate::cache::Cache;
use crate::camera::Camera;
use crate::geometry::{lemma_nearest_of, nearest_of, offer, Candidate, Geometry, HitInfo};
use crate::item::Item;
use crate::material::Material;
use crate::sky_box::{lemma_first_at_or_above, lemma_resolved_sky_has_every_face, Face, SkyBox};
use crate::texture::Texture;
use vstd::prelude::*;

verus! {

/// A reference in a scene that leads nowhere.
#[derive(Clone, Copy, Debug, PartialEq, Eq, Structural)]
pub enum SceneError {
    /// The sky refers to texture `texture_idx`, and there is none.
    SkyBoxTexture { texture_idx: usize },
    /// Material `material_idx` takes its colour from texture `texture_idx`,
    /// and there is none.
    MaterialTexture { material_idx: usize, texture_idx: usize },
    /// Material `material_idx` takes its normals from texture `texture_idx`,
    /// and there is none.
    MaterialNormalMap { material_idx: usize, texture_idx: usize },
    /// Item `item` has the shape `geometry_idx`, and there is none.
    ItemGeometry { item: usize, geometry_idx: usize },
    /// Item `item` is made of material `material_idx`, and there is none.
    ItemMaterial { item: usize, material_idx: usize },
}

/// All that is to be drawn. The caches own the textures, shapes and
/// materials; the sky, the materials and the items refer to them by index.
/// `S` is the type of a number, `V` that of a vector or colour.
pub struct Scene<S, V> {
    pub sky_box: SkyBox,
    pub camera: Camera<S, V>,
    pub texture_cache: Cache<Texture<V>>,
    pub geometry_cache: Cache<Geometry<S, V>>,
    pub material_cache: Cache<Material<S, V>>,
    pub items: Vec<Item>,
}

/// What the shape of one item answered to a ray: where it was hit, and the
/// key that orders the hits along the ray, nearest first.
pub struct Hit<S, V> {
    pub key: u32,
    pub info: HitInfo<S, V>,
}

/// The nearest hit of a ray, with the material of the item that was hit.
pub struct HitInfoAndMaterial<'a, S, V>(pub HitInfo<S, V>, pub &'a Material<S, V>);

/// The keys of `hits`, item by item.
pub open spec fn keys_of<S, V>(hits: Seq<Option<Hit<S, V>>>) -> Seq<Option<u32>> {
    Seq::new(
        hits.len(),
        |i: int|
            match hits[i] {
                Some(hit) => Some(hit.key),
                None => None,
            },
    )
}

impl<S, V> Scene<S, V> {
    /// The three caches are well formed.
    pub open spec fn wf(&self) -> bool {
        &&& self.texture_cache.wf()
        &&& self.geometry_cache.wf()
        &&& self.material_cache.wf()
    }

    /// The textures, by index.
    pub open spec fn textures(&self) -> Seq<Texture<V>> {
        self.texture_cache.items()
    }

    /// The shapes, by index.
    pub open spec fn geometries(&self) -> Seq<Geometry<S, V>> {
        self.geometry_cache.items()
    }

    /// The materials, by index.
    pub open spec fn materials(&self) -> Seq<Material<S, V>> {
        self.material_cache.items()
    }

    /// The shape and the material of item `k` exist.
    pub open spec fn item_resolves(&self, k: int) -> bool {
        &&& self.items@[k].geometry_idx < self.geometries().len()
        &&& self.items@[k].material_idx < self.materials().len()
    }

    /// Every index in the scene leads to an entry of the cache that it is
    /// meant for: those of the sky and of the materials to a texture, those of
    /// the items to a shape and to a material.
    pub open spec fn resolves(&self) -> bool {
        &&& self.sky_box.resolves(self.textures().len())
        &&& forall|k: int|
            0 <= k < self.materials().len() ==> (#[trigger] self.materials()[k]).resolves(
                self.textures().len(),
            )
        &&& forall|k: int| 0 <= k < self.items@.len() ==> #[trigger] self.item_resolves(k)
    }

    /// The scene can be rendered: nothing that rendering looks up is missing.
    pub open spec fn valid(&self) -> bool {
        self.wf() && self.resolves()
    }

    /// What is wrong with the sky, if anything.
    pub open spec fn sky_fault(&self) -> Option<SceneError> {
        match self.sky_box.spec_first_missing(self.textures().len()) {
            Some(texture_idx) => Some(SceneError::SkyBoxTexture { texture_idx }),
            None => None,
        }
    }

    /// What is wrong with material `k`, if anything. The colour texture is
    /// looked at before the normal map.
    pub open spec fn material_fault(&self, k: int) -> Option<SceneError> {
        let material = self.materials()[k];
        let textures = self.textures().len();
        if material.spec_texture_idx() matches Some(t) && t >= textures {
            Some(
                SceneError::MaterialTexture {
                    material_idx: k as usize,
                    texture_idx: material.spec_texture_idx()->0,
                },
            )
        } else if material.spec_normal_map_idx() matches Some(t) && t >= textures {
            Some(
                SceneError::MaterialNormalMap {
                    material_idx: k as usize,
                    texture_idx: material.spec_normal_map_idx()->0,
                },
            )
        } else {
            None
        }
    }

    /// What is wrong with item `k`, if anything. The shape is looked at
    /// before the material.
    pub open spec fn item_fault(&self, k: int) -> Option<SceneError> {
        let item = self.items@[k];
        if item.geometry_idx >= self.geometries().len() {
            Some(SceneError::ItemGeometry { item: k as usize, geometry_idx: item.geometry_idx })
        } else if item.material_idx >= self.materials().len() {
            Some(SceneError::ItemMaterial { item: k as usize, material_idx: item.material_idx })
        } else {
            None
        }
    }

    /// No material has a fault.
    pub open spec fn materials_sound(&self) -> bool {
        forall|k: int| 0 <= k < self.materials().len() ==> #[trigger] self.material_fault(k) is None
    }

    /// `e` is the first fault of the scene, in the order in which a scene is
    /// read: the sky, then the materials by index, then the items by
    /// position.
    pub open spec fn is_first_fault(&self, e: SceneError) -> bool {
        match e {
            SceneError::SkyBoxTexture { .. } => self.sky_fault() == Some(e),
            SceneError::MaterialTexture { material_idx, .. }
            | SceneError::MaterialNormalMap { material_idx, .. } => {
                &&& self.sky_fault() is None
                &&& material_idx < self.materials().len()
                &&& forall|j: int| 0 <= j < material_idx ==> #[trigger] self.material_fault(j) is None
                &&& self.material_fault(material_idx as int) == Some(e)
            },
            SceneError::ItemGeometry { item, .. } | SceneError::ItemMaterial { item, .. } => {
                &&& self.sky_fault() is None
                &&& self.materials_sound()
                &&& item < self.items@.len()
                &&& forall|j: int| 0 <= j < item ==> #[trigger] self.item_fault(j) is None
                &&& self.item_fault(item as int) == Some(e)
            },
        }
    }

    /// A scene resolves exactly if neither the sky nor a material nor an item
    /// has a fault.
    pub proof fn lemma_resolves_iff_no_fault(&self)
        ensures
            self.resolves() <==> {
                &&& self.sky_fault() is None
                &&& self.materials_sound()
                &&& forall|k: int| 0 <= k < self.items@.len() ==> #[trigger] self.item_fault(k) is None
            },
    {
        let textures = self.textures().len();
        lemma_first_at_or_above(self.sky_box.refs(), textures);
        if self.resolves() {
            assert forall|k: int| 0 <= k < self.materials().len() implies #[trigger] self.material_fault(
                k,
            ) is None by {}
            assert forall|k: int| 0 <= k < self.items@.len() implies #[trigger] self.item_fault(
                k,
            ) is None by {
                assert(self.item_resolves(k));
            }
        }
        if self.sky_fault() is None && self.materials_sound() && (forall|k: int|
            0 <= k < self.items@.len() ==> #[trigger] self.item_fault(k) is None) {
            assert forall|k: int| 0 <= k < self.materials().len() implies (
            #[trigger] self.materials()[k]).resolves(textures) by {
                assert(self.material_fault(k) is None);
            }
            assert forall|k: int| 0 <= k < self.items@.len() implies #[trigger] self.item_resolves(
                k,
            ) by {
                assert(self.item_fault(k) is None);
            }
        }
    }

    /// A scene has at most one first fault, and one that has a first fault
    /// does not resolve.
    pub proof fn lemma_first_fault_is_unique(&self, e1: SceneError, e2: SceneError)
        requires
            self.is_first_fault(e1),
        ensures
            !self.resolves(),
            self.is_first_fault(e2) ==> e1 == e2,
    {
        self.lemma_resolves_iff_no_fault();
    }

    /// Goes through every reference in the scene and reports the first that
    /// leads nowhere.
    pub fn validate(&self) -> (r: Result<(), SceneError>)
        requires
            self.wf(),
        ensures
            r is Ok <==> self.valid(),
            r matches Err(e) ==> self.is_first_fault(e),
    {
        proof {
            self.lemma_resolves_iff_no_fault();
        }
        let textures = self.texture_cache.len();
        match self.sky_box.first_missing(textures) {
            Some(texture_idx) => {
                return Err(SceneError::SkyBoxTexture { texture_idx });
            },
            None => {},
        }
        let materials = self.material_cache.len();
        let mut k: usize = 0;
        while k < materials
            invariant
                self.wf(),
                k <= materials,
                materials == self.materials().len(),
                textures == self.textures().len(),
                self.sky_fault() is None,
                forall|j: int| 0 <= j < k ==> #[trigger] self.material_fault(j) is None,
            decreases materials - k,
        {
            let material = self.material_cache.get(k);
            proof {
                self.lemma_resolves_iff_no_fault();
            }
            match material.texture_idx() {
                Some(texture_idx) => {
                    if texture_idx >= textures {
                        return Err(SceneError::MaterialTexture { material_idx: k, texture_idx });
                    }
                },
                None => {},
            }
            match material.normal_map_idx() {
                Some(texture_idx) => {
                    if texture_idx >= textures {
                        return Err(SceneError::MaterialNormalMap { material_idx: k, texture_idx });
                    }
                },
                None => {},
            }
            k += 1;
        }
        let geometries = self.geometry_cache.len();
        let mut k: usize = 0;
        while k < self.items.len()
            invariant
                self.wf(),
                k <= self.items@.len(),
                materials == self.materials().len(),
                geometries == self.geometries().len(),
                self.sky_fault() is None,
                self.materials_sound(),
                forall|j: int| 0 <= j < k ==> #[trigger] self.item_fault(j) is None,
            decreases self.items@.len() - k,
        {
            let item = self.items[k];
            proof {
                self.lemma_resolves_iff_no_fault();
                assert(self.item_fault(k as int) is Some ==> !self.resolves());
            }
            if item.geometry_idx >= geometries {
                return Err(SceneError::ItemGeometry { item: k, geometry_idx: item.geometry_idx });
            }
            if item.material_idx >= materials {
                return Err(SceneError::ItemMaterial { item: k, material_idx: item.material_idx });
            }
            k += 1;
        }
        Ok(())
    }

    /// Picks the nearest of the hits of one ray, where `hits[i]` is what the
    /// shape of item `i` answered, and resolves the material of the item that
    /// was hit. Of hits with equal keys the one on the earliest item wins.
    pub fn hit(&self, hits: Vec<Option<Hit<S, V>>>) -> (r: Option<HitInfoAndMaterial<'_, S, V>>)
        requires
            self.valid(),
            hits@.len() == self.items@.len(),
        ensures
            match nearest_of(keys_of(hits@)) {
                Some(best) => {
                    &&& best.item < self.items@.len()
                    &&& hits@[best.item as int] is Some
                    &&& self.items@[best.item as int].material_idx < self.materials().len()
                    &&& r matches Some(found)
                    &&& found.0 == hits@[best.item as int]->0.info
                    &&& *found.1 == self.materials()[self.items@[best.item as int].material_idx as int]
                    &&& found.1.resolves(self.textures().len())
                },
                None => r is None,
            },
    {
        let mut hits = hits;
        let ghost keys = keys_of(hits@);
        let mut best: Option<Candidate> = None;
        let mut k: usize = 0;
        while k < hits.len()
            invariant
                k <= hits@.len(),
                keys == keys_of(hits@),
                best == nearest_of(keys.take(k as int)),
            decreases hits@.len() - k,
        {
            proof {
                assert(keys.take(k as int + 1).drop_last() =~= keys.take(k as int));
            }
            match &hits[k] {
                Some(hit) => {
                    best = offer(best, k, hit.key);
                },
                None => {},
            }
            k += 1;
        }
        proof {
            assert(keys.take(k as int) =~= keys);
            lemma_nearest_of(keys);
        }
        match best {
            Some(best) => {
                let material = self.material_of(best.item);
                match hits.swap_remove(best.item) {
                    Some(hit) => Some(HitInfoAndMaterial(hit.info, material)),
                    None => None,
                }
            },
            None => None,
        }
    }

    /// The shape of item `item`.
    pub fn geometry_of(&self, item: usize) -> (geometry: &Geometry<S, V>)
        requires
            self.valid(),
            item < self.items@.len(),
        ensures
            self.items@[item as int].geometry_idx < self.geometries().len(),
            *geometry == self.geometries()[self.items@[item as int].geometry_idx as int],
    {
        assert(self.item_resolves(item as int));
        self.geometry_cache.get(self.items[item].geometry_idx)
    }

    /// The material of item `item`.
    pub fn material_of(&self, item: usize) -> (material: &Material<S, V>)
        requires
            self.valid(),
            item < self.items@.len(),
        ensures
            self.items@[item as int].material_idx < self.materials().len(),
            *material == self.materials()[self.items@[item as int].material_idx as int],
            material.resolves(self.textures().len()),
    {
        assert(self.item_resolves(item as int));
        self.material_cache.get(self.items[item].material_idx)
    }

    /// The texture that colours `material`, a material whose references
    /// resolve in this scene, as those of the scene's own materials do. Glass
    /// has none.
    pub fn texture_of(&self, material: &Material<S, V>) -> (texture: Option<&Texture<V>>)
        requires
            self.wf(),
            material.resolves(self.textures().len()),
        ensures
            match material.spec_texture_idx() {
                Some(idx) => idx < self.textures().len() && texture == Some(
                    &self.textures()[idx as int],
                ),
                None => texture is None,
            },
    {
        match material.texture_idx() {
            Some(idx) => Some(self.texture_cache.get(idx)),
            None => None,
        }
    }

    /// The texture that bends the normals of `material`, if it has one.
    pub fn normal_map_of(&self, material: &Material<S, V>) -> (texture: Option<&Texture<V>>)
        requires
            self.wf(),
            material.resolves(self.textures().len()),
        ensures
            match material.spec_normal_map_idx() {
                Some(idx) => idx < self.textures().len() && texture == Some(
                    &self.textures()[idx as int],
                ),
                None => texture is None,
            },
    {
        match material.normal_map_idx() {
            Some(idx) => Some(self.texture_cache.get(idx)),
            None => None,
        }
    }

    /// The texture that colours a ray which leaves the scene towards `face`.
    pub fn sky_texture(&self, face: Face) -> (texture: &Texture<V>)
        requires
            self.valid(),
        ensures
            match self.sky_box {
                SkyBox::Cubemap(cubemap) => cubemap.spec_idx_of(face) < self.textures().len()
                    && *texture == self.textures()[cubemap.spec_idx_of(face) as int],
                SkyBox::Equirectangular(sky) => sky.tex_idx < self.textures().len() && *texture
                    == self.textures()[sky.tex_idx as int],
            },
    {
        proof {
            lemma_resolved_sky_has_every_face(self.sky_box, self.textures().len(), face);
        }
        self.texture_cache.get(self.sky_box.idx_of(face))
    }
}

} // verus!
