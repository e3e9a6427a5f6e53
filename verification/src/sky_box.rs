use vstd::prelude::*;

verus! {

/// A coordinate axis.
#[derive(Clone, Copy, Debug, PartialEq, Eq, Structural)]
pub enum Axis {
    X,
    Y,
    Z,
}

/// A face of the cube that surrounds the scene, named as seen from inside:
/// up (+Y), down (-Y), left (-X), right (+X), front (-Z), back (+Z).
#[derive(Clone, Copy, Debug, PartialEq, Eq, Structural)]
pub enum Face {
    Up,
    Dn,
    Lf,
    Rt,
    Ft,
    Bk,
}

impl Face {
    /// The axis that the face is perpendicular to.
    pub open spec fn axis(self) -> Axis {
        match self {
            Face::Lf | Face::Rt => Axis::X,
            Face::Up | Face::Dn => Axis::Y,
            Face::Ft | Face::Bk => Axis::Z,
        }
    }

    /// Whether the face lies on the positive side of its axis.
    pub open spec fn is_positive(self) -> bool {
        self is Rt || self is Up || self is Bk
    }

    /// The face on the given side of the given axis.
    pub open spec fn on(axis: Axis, positive: bool) -> Face {
        match axis {
            Axis::X => if positive { Face::Rt } else { Face::Lf },
            Axis::Y => if positive { Face::Up } else { Face::Dn },
            Axis::Z => if positive { Face::Bk } else { Face::Ft },
        }
    }

    /// The axis along which a direction reaches furthest, given how the
    /// magnitudes of its components compare. X wins only where it exceeds
    /// both others, Y only where X does not exceed it and it exceeds Z; all
    /// that is left, ties included, goes to Z.
    pub open spec fn dominant_axis(x_over_y: bool, x_over_z: bool, y_over_z: bool) -> Axis {
        if x_over_y && x_over_z {
            Axis::X
        } else if !x_over_y && y_over_z {
            Axis::Y
        } else {
            Axis::Z
        }
    }

    /// The face that a direction points at: the one on its dominant axis, on
    /// the side given by the sign of that component.
    pub open spec fn spec_dominant(
        x_over_y: bool,
        x_over_z: bool,
        y_over_z: bool,
        x_positive: bool,
        y_positive: bool,
        z_positive: bool,
    ) -> Face {
        match Face::dominant_axis(x_over_y, x_over_z, y_over_z) {
            Axis::X => Face::on(Axis::X, x_positive),
            Axis::Y => Face::on(Axis::Y, y_positive),
            Axis::Z => Face::on(Axis::Z, z_positive),
        }
    }

    /// Picks the face that a direction `(x, y, z)` points at. The caller
    /// compares the magnitudes (`x_over_y` is `|x| > |y|`, and so on) and
    /// reads the signs; this decides.
    pub fn dominant(
        x_over_y: bool,
        x_over_z: bool,
        y_over_z: bool,
        x_positive: bool,
        y_positive: bool,
        z_positive: bool,
    ) -> (face: Face)
        ensures
            face == Face::spec_dominant(
                x_over_y,
                x_over_z,
                y_over_z,
                x_positive,
                y_positive,
                z_positive,
            ),
    {
        if x_over_y {
            if x_over_z {
                if x_positive {
                    Face::Rt
                } else {
                    Face::Lf
                }
            } else {
                if z_positive {
                    Face::Bk
                } else {
                    Face::Ft
                }
            }
        } else {
            if y_over_z {
                if y_positive {
                    Face::Up
                } else {
                    Face::Dn
                }
            } else {
                if z_positive {
                    Face::Bk
                } else {
                    Face::Ft
                }
            }
        }
    }
}

/// The magnitude of the component along `axis`.
pub open spec fn magnitude_along(axis: Axis, x: nat, y: nat, z: nat) -> nat {
    match axis {
        Axis::X => x,
        Axis::Y => y,
        Axis::Z => z,
    }
}

/// Where the comparisons come from magnitudes that are totally ordered, no
/// component is larger than the one along the dominant axis.
pub proof fn lemma_dominant_axis_is_largest(x: nat, y: nat, z: nat)
    ensures
        ({
            let m = magnitude_along(Face::dominant_axis(x > y, x > z, y > z), x, y, z);
            m >= x && m >= y && m >= z
        }),
{
}

/// The chosen face lies on the dominant axis, on the side of that
/// component's sign.
pub proof fn lemma_dominant_face(
    x_over_y: bool,
    x_over_z: bool,
    y_over_z: bool,
    x_positive: bool,
    y_positive: bool,
    z_positive: bool,
)
    ensures
        ({
            let face = Face::spec_dominant(
                x_over_y,
                x_over_z,
                y_over_z,
                x_positive,
                y_positive,
                z_positive,
            );
            let axis = Face::dominant_axis(x_over_y, x_over_z, y_over_z);
            &&& face.axis() == axis
            &&& face.is_positive() == match axis {
                Axis::X => x_positive,
                Axis::Y => y_positive,
                Axis::Z => z_positive,
            }
        }),
{
}

/// A sky made of six textures, one per face of the surrounding cube, each
/// given by its index in the texture cache.
#[derive(Clone, Copy, Debug, PartialEq, Eq, Structural)]
pub struct Cubemap {
    pub up_idx: usize,
    pub dn_idx: usize,
    pub lf_idx: usize,
    pub rt_idx: usize,
    pub ft_idx: usize,
    pub bk_idx: usize,
}

impl Cubemap {
    /// The texture index of `face`.
    pub open spec fn spec_idx_of(&self, face: Face) -> usize {
        match face {
            Face::Up => self.up_idx,
            Face::Dn => self.dn_idx,
            Face::Lf => self.lf_idx,
            Face::Rt => self.rt_idx,
            Face::Ft => self.ft_idx,
            Face::Bk => self.bk_idx,
        }
    }

    /// The texture indices in the order up, down, left, right, front, back.
    pub open spec fn refs(&self) -> Seq<usize> {
        seq![self.up_idx, self.dn_idx, self.lf_idx, self.rt_idx, self.ft_idx, self.bk_idx]
    }

    /// A cubemap that shows one texture on all six faces.
    pub fn all(tex_idx: usize) -> (cubemap: Self)
        ensures
            forall|face: Face| #[trigger] cubemap.spec_idx_of(face) == tex_idx,
            cubemap.refs() == Seq::new(6, |i: int| tex_idx),
    {
        Cubemap {
            up_idx: tex_idx,
            dn_idx: tex_idx,
            lf_idx: tex_idx,
            rt_idx: tex_idx,
            ft_idx: tex_idx,
            bk_idx: tex_idx,
        }
    }

    /// The index of the texture shown on `face`.
    pub fn idx_of(&self, face: Face) -> (idx: usize)
        ensures
            idx == self.spec_idx_of(face),
    {
        match face {
            Face::Up => self.up_idx,
            Face::Dn => self.dn_idx,
            Face::Lf => self.lf_idx,
            Face::Rt => self.rt_idx,
            Face::Ft => self.ft_idx,
            Face::Bk => self.bk_idx,
        }
    }
}

/// A sky made of one texture, wrapped around the scene like a map of the
/// globe.
#[derive(Clone, Copy, Debug, PartialEq, Eq, Structural)]
pub struct Equirectangular {
    pub tex_idx: usize,
}

/// What a ray sees when it leaves the scene.
#[derive(Clone, Copy, Debug, PartialEq, Eq, Structural)]
pub enum SkyBox {
    Cubemap(Cubemap),
    Equirectangular(Equirectangular),
}

/// The position of the first of `refs` that is not below `bound`, or the
/// length of `refs` if all are.
pub open spec fn first_at_or_above(refs: Seq<usize>, bound: nat) -> nat
    decreases refs.len(),
{
    if refs.len() == 0 || refs[0] >= bound {
        0
    } else {
        1 + first_at_or_above(refs.drop_first(), bound)
    }
}

/// `first_at_or_above` names the first offender: everything before it is
/// below the bound, and it is not.
pub proof fn lemma_first_at_or_above(refs: Seq<usize>, bound: nat)
    ensures
        first_at_or_above(refs, bound) <= refs.len(),
        forall|i: int| 0 <= i < first_at_or_above(refs, bound) ==> refs[i] < bound,
        first_at_or_above(refs, bound) < refs.len() ==> refs[first_at_or_above(refs, bound) as int]
            >= bound,
    decreases refs.len(),
{
    if refs.len() == 0 || refs[0] >= bound {
    } else {
        let rest = refs.drop_first();
        lemma_first_at_or_above(rest, bound);
        assert forall|i: int| 0 <= i < first_at_or_above(refs, bound) implies refs[i] < bound by {
            if i > 0 {
                assert(refs[i] == rest[i - 1]);
            }
        }
    }
}

impl SkyBox {
    /// The texture indices that the sky refers to: the six faces of a cubemap
    /// in the order up, down, left, right, front, back, or the one texture of
    /// an equirectangular sky.
    pub open spec fn refs(&self) -> Seq<usize> {
        match self {
            SkyBox::Cubemap(cubemap) => cubemap.refs(),
            SkyBox::Equirectangular(sky) => seq![sky.tex_idx],
        }
    }

    /// Every texture that the sky refers to exists among `textures` textures.
    pub open spec fn resolves(&self, textures: nat) -> bool {
        forall|i: int| 0 <= i < self.refs().len() ==> self.refs()[i] < textures
    }

    /// The first reference of the sky that names no texture among `textures`
    /// textures.
    pub open spec fn spec_first_missing(&self, textures: nat) -> Option<usize> {
        let at = first_at_or_above(self.refs(), textures);
        if at < self.refs().len() {
            Some(self.refs()[at as int])
        } else {
            None
        }
    }

    /// Looks for a reference that points outside a cache of `textures`
    /// textures, and returns the first one found.
    pub fn first_missing(&self, textures: usize) -> (missing: Option<usize>)
        ensures
            missing == self.spec_first_missing(textures as nat),
            missing is None <==> self.resolves(textures as nat),
    {
        proof {
            lemma_first_at_or_above(self.refs(), textures as nat);
            reveal_with_fuel(first_at_or_above, 8);
        }
        match self {
            SkyBox::Cubemap(cubemap) => {
                if cubemap.up_idx >= textures {
                    Some(cubemap.up_idx)
                } else if cubemap.dn_idx >= textures {
                    Some(cubemap.dn_idx)
                } else if cubemap.lf_idx >= textures {
                    Some(cubemap.lf_idx)
                } else if cubemap.rt_idx >= textures {
                    Some(cubemap.rt_idx)
                } else if cubemap.ft_idx >= textures {
                    Some(cubemap.ft_idx)
                } else if cubemap.bk_idx >= textures {
                    Some(cubemap.bk_idx)
                } else {
                    None
                }
            },
            SkyBox::Equirectangular(sky) => {
                if sky.tex_idx >= textures {
                    Some(sky.tex_idx)
                } else {
                    None
                }
            },
        }
    }

    /// The index of the texture that colours a ray leaving towards `face`.
    /// An equirectangular sky has one texture for all of them.
    pub fn idx_of(&self, face: Face) -> (idx: usize)
        ensures
            idx == match *self {
                SkyBox::Cubemap(cubemap) => cubemap.spec_idx_of(face),
                SkyBox::Equirectangular(sky) => sky.tex_idx,
            },
    {
        match self {
            SkyBox::Cubemap(cubemap) => cubemap.idx_of(face),
            SkyBox::Equirectangular(sky) => sky.tex_idx,
        }
    }
}

/// Every face of a cubemap is one of its references, so a sky that resolves
/// has a texture for each face.
pub proof fn lemma_resolved_sky_has_every_face(sky: SkyBox, textures: nat, face: Face)
    requires
        sky.resolves(textures),
    ensures
        match sky {
            SkyBox::Cubemap(cubemap) => cubemap.spec_idx_of(face) < textures,
            SkyBox::Equirectangular(sky) => sky.tex_idx < textures,
        },
{
    let refs = sky.refs();
    assert(refs[0] < textures);
    if sky is Cubemap {
        assert(refs[1] < textures && refs[2] < textures && refs[3] < textures);
        assert(refs[4] < textures && refs[5] < textures);
    }
}

} // verus!
