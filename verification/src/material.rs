use crate::primitive::Ray3;
use vstd::prelude::*;

verus! {

/// Clear matter that bends light, like glass. `S` is the type of a number.
pub struct Dielectric<S> {
    pub ref_idx: S,
    pub normal_map_idx: Option<usize>,
}

/// A matt surface.
#[derive(Clone, Copy, Debug, PartialEq, Eq)]
pub struct Lambertian {
    pub texture_idx: usize,
    pub normal_map_idx: Option<usize>,
}

/// A surface that gives off light and reflects none. `V` is the type of a
/// colour.
pub struct Light<V> {
    pub texture_idx: usize,
    pub brightness: V,
}

/// A mirror, the more blurred the larger `fuzz` is.
pub struct Metal<S> {
    pub texture_idx: usize,
    pub normal_map_idx: Option<usize>,
    pub fuzz: S,
}

/// What a shape is made of.
pub enum Material<S, V> {
    Dielectric(Dielectric<S>),
    Lambertian(Lambertian),
    Light(Light<V>),
    Metal(Metal<S>),
}

/// What became of a ray at a surface.
pub enum Interaction<V> {
    /// The ray goes on as `ray`, and what it brings back is weakened by
    /// `attenuation`.
    NonTerminal { ray: Ray3<V>, attenuation: V },
    /// The path ends here with `color`.
    Terminal { color: V },
}

impl<S, V> Material<S, V> {
    /// The texture that colours the material. Glass has none.
    pub open spec fn spec_texture_idx(&self) -> Option<usize> {
        match self {
            Material::Dielectric(_) => None,
            Material::Lambertian(m) => Some(m.texture_idx),
            Material::Light(m) => Some(m.texture_idx),
            Material::Metal(m) => Some(m.texture_idx),
        }
    }

    /// The texture that bends the material's normals. A light has none, and
    /// the others may do without.
    pub open spec fn spec_normal_map_idx(&self) -> Option<usize> {
        match self {
            Material::Dielectric(m) => m.normal_map_idx,
            Material::Lambertian(m) => m.normal_map_idx,
            Material::Light(_) => None,
            Material::Metal(m) => m.normal_map_idx,
        }
    }

    /// Every texture that the material refers to exists among `textures`
    /// textures.
    pub open spec fn resolves(&self, textures: nat) -> bool {
        &&& self.spec_texture_idx() matches Some(idx) ==> idx < textures
        &&& self.spec_normal_map_idx() matches Some(idx) ==> idx < textures
    }

    /// The index of the texture that colours the material, if it has one.
    pub fn texture_idx(&self) -> (idx: Option<usize>)
        ensures
            idx == self.spec_texture_idx(),
    {
        match self {
            Material::Dielectric(_) => None,
            Material::Lambertian(m) => Some(m.texture_idx),
            Material::Light(m) => Some(m.texture_idx),
            Material::Metal(m) => Some(m.texture_idx),
        }
    }

    /// The index of the texture that bends the material's normals, if it
    /// has one.
    pub fn normal_map_idx(&self) -> (idx: Option<usize>)
        ensures
            idx == self.spec_normal_map_idx(),
    {
        match self {
            Material::Dielectric(m) => m.normal_map_idx,
            Material::Lambertian(m) => m.normal_map_idx,
            Material::Light(_) => None,
            Material::Metal(m) => m.normal_map_idx,
        }
    }
}

} // verus!
