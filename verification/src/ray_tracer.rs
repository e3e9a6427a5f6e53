use crate::material::Interaction;
use crate::primitive::Ray3;
use crate::tone_mapper::ToneMapper;
use vstd::prelude::*;

verus! {

/// How a picture is to be rendered.
#[derive(Clone, Copy, Debug, PartialEq, Eq, Structural)]
pub struct RayTracer {
    /// Width of the picture, in pixels.
    pub canvas_wd: u32,
    /// Height of the picture, in pixels.
    pub canvas_ht: u32,
    /// How many rays are sent through each pixel.
    pub num_samples: u16,
    /// How many surfaces a ray may meet before it is given up.
    pub max_reflections: u8,
    pub tone_mapper: ToneMapper,
}

/// How the path of a ray came to its end.
pub enum PathEnd<V> {
    /// The ray had no reflections left. It brings back no light.
    Exhausted,
    /// The ray left the scene. It brings back the colour of the sky.
    Escaped,
    /// A surface ended the path with `color`.
    Terminal { color: V },
}

/// What to do after one leg of a path.
pub enum Step<V> {
    /// The path is over.
    End(PathEnd<V>),
    /// Follow `ray` at `depth`, and weaken what it brings back by
    /// `attenuation`.
    Bounce { ray: Ray3<V>, attenuation: V, depth: u8 },
}

/// The end of the path that starts at `depth`, where `met(d)` is what the
/// ray meets on the leg at depth `d`: nothing, or a surface and what the
/// surface makes of it.
pub open spec fn path_end<V>(
    max_reflections: nat,
    met: spec_fn(nat) -> Option<Interaction<V>>,
    depth: nat,
) -> PathEnd<V>
    decreases max_reflections - depth,
{
    if depth >= max_reflections {
        PathEnd::Exhausted
    } else {
        match met(depth) {
            None => PathEnd::Escaped,
            Some(Interaction::Terminal { color }) => PathEnd::Terminal { color },
            Some(Interaction::NonTerminal { .. }) => path_end(max_reflections, met, depth + 1),
        }
    }
}

/// The number of legs that the path from `depth` looks at before it ends.
pub open spec fn path_legs<V>(
    max_reflections: nat,
    met: spec_fn(nat) -> Option<Interaction<V>>,
    depth: nat,
) -> nat
    decreases max_reflections - depth,
{
    if depth >= max_reflections {
        0
    } else {
        match met(depth) {
            Some(Interaction::NonTerminal { .. }) => 1 + path_legs(max_reflections, met, depth + 1),
            _ => 1,
        }
    }
}

/// With no reflections allowed every path is exhausted before its first
/// leg, whatever the ray would have met.
pub proof fn lemma_no_reflections_no_light<V>(met: spec_fn(nat) -> Option<Interaction<V>>)
    ensures
        path_end(0, met, 0) == PathEnd::<V>::Exhausted,
        path_legs(0, met, 0) == 0,
{
}

/// A path never looks at more legs than reflections are left to it.
pub proof fn lemma_path_is_bounded<V>(
    max_reflections: nat,
    met: spec_fn(nat) -> Option<Interaction<V>>,
    depth: nat,
)
    ensures
        depth <= max_reflections ==> path_legs(max_reflections, met, depth) <= max_reflections
            - depth,
        depth >= max_reflections ==> path_legs(max_reflections, met, depth) == 0,
    decreases max_reflections - depth,
{
    if depth < max_reflections {
        lemma_path_is_bounded(max_reflections, met, depth + 1);
    }
}

/// A path that is scattered on every leg ends exhausted.
pub proof fn lemma_endless_scattering_is_exhausted<V>(
    max_reflections: nat,
    met: spec_fn(nat) -> Option<Interaction<V>>,
    depth: nat,
)
    requires
        forall|d: nat| depth <= d < max_reflections ==> #[trigger] met(d) matches Some(
            Interaction::NonTerminal { .. },
        ),
    ensures
        path_end(max_reflections, met, depth) == PathEnd::<V>::Exhausted,
    decreases max_reflections - depth,
{
    if depth < max_reflections {
        lemma_endless_scattering_is_exhausted(max_reflections, met, depth + 1);
    }
}

impl Default for RayTracer {
    /// A picture of 1440 by 720 pixels, 48 samples each, up to 16
    /// reflections, clamped.
    fn default() -> (r: Self)
        ensures
            r == (RayTracer {
                canvas_wd: 1440,
                canvas_ht: 720,
                num_samples: 48,
                max_reflections: 16,
                tone_mapper: ToneMapper::Clamp,
            }),
    {
        RayTracer {
            canvas_wd: 1440,
            canvas_ht: 720,
            num_samples: 48,
            max_reflections: 16,
            tone_mapper: ToneMapper::Clamp,
        }
    }
}

impl RayTracer {
    /// The number of pixels of the picture.
    pub open spec fn pixels(&self) -> nat {
        (self.canvas_wd * self.canvas_ht) as nat
    }

    /// The pixel that is written `k`-th: column `i` from the left and row
    /// `j` from the bottom. The rows are written from the top, each from the
    /// left.
    pub open spec fn spec_pixel_at(&self, k: int) -> (u32, u32) {
        ((k % (self.canvas_wd as int)) as u32, (self.canvas_ht - 1 - k / (self.canvas_wd as int)) as u32)
    }

    /// The place of pixel `(i, j)` in the order of writing.
    pub open spec fn spec_position_of(&self, i: int, j: int) -> int {
        (self.canvas_ht - 1 - j) * self.canvas_wd + i
    }

    /// Whether a ray at `depth` has no reflections left.
    pub open spec fn spec_exhausted(&self, depth: u8) -> bool {
        depth >= self.max_reflections
    }

    /// What follows at `depth` from what the ray met there.
    pub open spec fn spec_step<V>(&self, depth: u8, met: Option<Interaction<V>>) -> Step<V> {
        match met {
            None => Step::End(PathEnd::Escaped),
            Some(Interaction::Terminal { color }) => Step::End(PathEnd::Terminal { color }),
            Some(Interaction::NonTerminal { ray, attenuation }) => Step::Bounce {
                ray,
                attenuation,
                depth: (depth + 1) as u8,
            },
        }
    }

    /// The number of pixels of the picture.
    pub fn pixel_count(&self) -> (n: u64)
        ensures
            n == self.pixels(),
    {
        assert(self.canvas_wd * self.canvas_ht <= 0xffff_ffff * 0xffff_ffff) by (nonlinear_arith)
            requires
                0 <= self.canvas_wd <= 0xffff_ffff,
                0 <= self.canvas_ht <= 0xffff_ffff,
        ;
        (self.canvas_wd as u64) * (self.canvas_ht as u64)
    }

    /// The column and the row of the pixel that is written `k`-th.
    pub fn pixel_at(&self, k: u64) -> (at: (u32, u32))
        requires
            k < self.pixels(),
        ensures
            at == self.spec_pixel_at(k as int),
            at.0 < self.canvas_wd,
            at.1 < self.canvas_ht,
            self.spec_position_of(at.0 as int, at.1 as int) == k,
    {
        proof {
            self.lemma_pixel_order(k as int);
        }
        let wd = self.canvas_wd as u64;
        let i = k % wd;
        let row = k / wd;
        ((i as u32), self.canvas_ht - 1 - (row as u32))
    }

    /// The place of pixel `(i, j)` in the order of writing. Its three bytes
    /// start at three times this place.
    pub fn position_of(&self, i: u32, j: u32) -> (k: u64)
        requires
            i < self.canvas_wd,
            j < self.canvas_ht,
        ensures
            k == self.spec_position_of(i as int, j as int),
            k < self.pixels(),
            self.spec_pixel_at(k as int) == (i, j),
    {
        proof {
            self.lemma_position_order(i as int, j as int);
        }
        let row = (self.canvas_ht - 1 - j) as u64;
        row * (self.canvas_wd as u64) + (i as u64)
    }

    /// The `k`-th pixel lies in the picture, and its place is `k`.
    pub proof fn lemma_pixel_order(&self, k: int)
        requires
            0 <= k < self.pixels(),
        ensures
            self.canvas_wd > 0,
            0 <= k % (self.canvas_wd as int) < self.canvas_wd,
            0 <= k / (self.canvas_wd as int) < self.canvas_ht,
            self.spec_pixel_at(k).0 < self.canvas_wd,
            self.spec_pixel_at(k).1 < self.canvas_ht,
            self.spec_position_of(self.spec_pixel_at(k).0 as int, self.spec_pixel_at(k).1 as int)
                == k,
    {
        let wd = self.canvas_wd as int;
        let ht = self.canvas_ht as int;
        assert(wd > 0) by (nonlinear_arith)
            requires
                0 <= k < wd * ht,
                wd >= 0,
        ;
        assert(0 <= k % wd < wd && 0 <= k / wd < ht && k == (k / wd) * wd + k % wd)
            by (nonlinear_arith)
            requires
                0 <= k < wd * ht,
                wd > 0,
        ;
    }

    /// Every pixel of the picture has a place in the order of writing, and
    /// the pixel written at that place is this one.
    pub proof fn lemma_position_order(&self, i: int, j: int)
        requires
            0 <= i < self.canvas_wd,
            0 <= j < self.canvas_ht,
        ensures
            0 <= self.spec_position_of(i, j) < self.pixels(),
            0 <= (self.canvas_ht - 1 - j) * self.canvas_wd,
            self.pixels() <= u64::MAX,
            self.spec_pixel_at(self.spec_position_of(i, j)) == (i as u32, j as u32),
    {
        let wd = self.canvas_wd as int;
        let ht = self.canvas_ht as int;
        let row = ht - 1 - j;
        assert(0 <= row * wd && row * wd + i < wd * ht && (row * wd + i) % wd == i && (row * wd + i)
            / wd == row) by (nonlinear_arith)
            requires
                0 <= i < wd,
                0 <= row < ht,
        ;
        assert(wd * ht <= 0xffff_ffff * 0xffff_ffff) by (nonlinear_arith)
            requires
                0 <= wd <= 0xffff_ffff,
                0 <= ht <= 0xffff_ffff,
        ;
    }

    /// Lays the pixels out as the bytes of the picture: red, green and blue
    /// of each, one pixel after another in the order of writing.
    pub fn flatten(pixels: &Vec<(u8, u8, u8)>) -> (bytes: Vec<u8>)
        requires
            3 * pixels@.len() <= usize::MAX,
        ensures
            bytes@.len() == 3 * pixels@.len(),
            forall|k: int|
                0 <= k < pixels@.len() ==> {
                    &&& bytes@[3 * k] == (#[trigger] pixels@[k]).0
                    &&& bytes@[3 * k + 1] == pixels@[k].1
                    &&& bytes@[3 * k + 2] == pixels@[k].2
                },
    {
        let mut bytes: Vec<u8> = Vec::with_capacity(3 * pixels.len());
        let mut k: usize = 0;
        while k < pixels.len()
            invariant
                k <= pixels@.len(),
                bytes@.len() == 3 * k,
                forall|n: int|
                    0 <= n < k ==> {
                        &&& bytes@[3 * n] == (#[trigger] pixels@[n]).0
                        &&& bytes@[3 * n + 1] == pixels@[n].1
                        &&& bytes@[3 * n + 2] == pixels@[n].2
                    },
            decreases pixels@.len() - k,
        {
            let (r, g, b) = pixels[k];
            bytes.push(r);
            bytes.push(g);
            bytes.push(b);
            k += 1;
        }
        bytes
    }

    /// Whether a ray at `depth` has no reflections left, so that its path
    /// ends before the scene is asked.
    pub fn exhausted(&self, depth: u8) -> (r: bool)
        ensures
            r == self.spec_exhausted(depth),
    {
        depth >= self.max_reflections
    }

    /// Decides what follows from what a ray at `depth` met: the end of the
    /// path, or the next leg, one deeper.
    pub fn step<V>(&self, depth: u8, met: Option<Interaction<V>>) -> (r: Step<V>)
        requires
            !self.spec_exhausted(depth),
        ensures
            r == self.spec_step(depth, met),
            r matches Step::Bounce { depth: next, .. } ==> next == depth + 1,
    {
        match met {
            None => Step::End(PathEnd::Escaped),
            Some(Interaction::Terminal { color }) => Step::End(PathEnd::Terminal { color }),
            Some(Interaction::NonTerminal { ray, attenuation }) => Step::Bounce {
                ray,
                attenuation,
                depth: depth + 1,
            },
        }
    }

    /// Following a path step by step leads to its end: at a depth with
    /// reflections left, the path ends as the step says, or as the path one
    /// deeper does.
    pub proof fn lemma_step_follows_path<V>(
        &self,
        met: spec_fn(nat) -> Option<Interaction<V>>,
        depth: u8,
    )
        ensures
            self.spec_exhausted(depth) ==> path_end(self.max_reflections as nat, met, depth as nat)
                == PathEnd::<V>::Exhausted,
            !self.spec_exhausted(depth) ==> match self.spec_step(depth, met(depth as nat)) {
                Step::End(end) => path_end(self.max_reflections as nat, met, depth as nat) == end,
                Step::Bounce { depth: next, .. } => {
                    &&& next == depth + 1
                    &&& path_end(self.max_reflections as nat, met, depth as nat) == path_end(
                        self.max_reflections as nat,
                        met,
                        next as nat,
                    )
                },
            },
    {
    }
}

} // verus!
