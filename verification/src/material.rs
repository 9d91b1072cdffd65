use vstd::prelude::*;

verus! {

/// How the alpha value of a material is used.
#[derive(Debug, Clone, Copy, PartialEq, Eq, PartialOrd, Ord, Hash, Structural)]
pub enum AlphaMode {
    /// Fully opaque; alpha is ignored.
    Opaque,
    /// Fully opaque or fully transparent, depending on the alpha cutoff.
    Mask,
    /// Combined with the background, alpha being the transparency.
    Blend,
}

/// The number a shader knows an alpha mode by.
pub open spec fn alpha_code(mode: AlphaMode) -> u32 {
    match mode {
        AlphaMode::Opaque => 0,
        AlphaMode::Mask => 1,
        AlphaMode::Blend => 2,
    }
}

impl AlphaMode {
    /// The number a shader knows the mode by.
    pub fn code(&self) -> (r: u32)
        ensures
            r == alpha_code(*self),
    {
        match self {
            AlphaMode::Opaque => 0,
            AlphaMode::Mask => 1,
            AlphaMode::Blend => 2,
        }
    }
}

/// Which textures a material samples, one bit each.
#[derive(Debug, Clone, Copy, PartialEq, Eq, Hash, Structural)]
pub struct Textures {
    pub bits: u8,
}

impl Textures {
    pub const BASE_COLOR: u8 = 1;
    pub const METALLIC_ROUGHNESS: u8 = 2;
    pub const NORMAL: u8 = 4;
    pub const OCCLUSION: u8 = 8;
    pub const EMISSIVE: u8 = 16;

    /// Whether every bit of `flag` is set.
    pub open spec fn has(self, flag: u8) -> bool {
        self.bits & flag == flag
    }

    /// No texture.
    pub fn empty() -> (r: Self)
        ensures
            r.bits == 0,
    {
        Textures { bits: 0 }
    }

    /// Whether every bit of `flag` is set.
    pub fn contains(&self, flag: u8) -> (r: bool)
        ensures
            r == self.has(flag),
    {
        self.bits & flag == flag
    }

    /// Sets the bits of `flag`.
    pub fn insert(&mut self, flag: u8)
        ensures
            final(self).bits == old(self).bits | flag,
    {
        self.bits = self.bits | flag;
    }
}

/// What decides a material's pipeline: its textures, alpha mode and sidedness.
#[derive(Debug, Clone, Copy, PartialEq, Eq, Hash, Structural)]
pub struct MaterialLayout {
    pub textures: Textures,
    pub alpha_mode: AlphaMode,
    pub double_sided: bool,
}

impl MaterialLayout {
    /// No texture, opaque, one-sided.
    pub fn new() -> (r: Self)
        ensures
            r.textures.bits == 0,
            r.alpha_mode == AlphaMode::Opaque,
            !r.double_sided,
    {
        MaterialLayout { textures: Textures::empty(), alpha_mode: AlphaMode::Opaque, double_sided: false }
    }

    pub fn has_base_color_texture(&self) -> (r: bool)
        ensures
            r == self.textures.has(Textures::BASE_COLOR),
    {
        self.textures.contains(Textures::BASE_COLOR)
    }

    pub fn has_metallic_roughness_texture(&self) -> (r: bool)
        ensures
            r == self.textures.has(Textures::METALLIC_ROUGHNESS),
    {
        self.textures.contains(Textures::METALLIC_ROUGHNESS)
    }

    pub fn has_occlusion_texture(&self) -> (r: bool)
        ensures
            r == self.textures.has(Textures::OCCLUSION),
    {
        self.textures.contains(Textures::OCCLUSION)
    }

    pub fn has_emissive_texture(&self) -> (r: bool)
        ensures
            r == self.textures.has(Textures::EMISSIVE),
    {
        self.textures.contains(Textures::EMISSIVE)
    }

    pub fn has_normal_texture(&self) -> (r: bool)
        ensures
            r == self.textures.has(Textures::NORMAL),
    {
        self.textures.contains(Textures::NORMAL)
    }

    pub fn alpha_mode(&self) -> (r: AlphaMode)
        ensures
            r == self.alpha_mode,
    {
        self.alpha_mode
    }

    pub fn double_sided(&self) -> (r: bool)
        ensures
            r == self.double_sided,
    {
        self.double_sided
    }
}

/// Proves that a set texture bit reads back as set, and leaves the other bits as
/// they were.
pub proof fn law_texture_insert_then_contains(t: Textures, flag: u8, other: u8)
    ensures
        (Textures { bits: t.bits | flag }).has(flag),
        t.has(other) ==> (Textures { bits: t.bits | flag }).has(other),
{
    let b = t.bits;
    assert((b | flag) & flag == flag) by (bit_vector);
    assert(b & other == other ==> (b | flag) & other == other) by (bit_vector);
}

/// How a primitive is rendered, as far as its material decides it.
#[derive(Debug, Clone, Copy, PartialEq, Eq, Structural)]
pub struct PipelineChoice {
    /// Back faces are culled.
    pub cull_back_faces: bool,
    /// Depth is written.
    pub depth_write: bool,
    /// Color goes to the blended accumulation targets rather than the opaque one.
    pub blended: bool,
}

/// The rendering choices for a material: one-sided materials cull back faces;
/// blended materials go to the accumulation targets without writing depth.
pub fn pipeline_choice(alpha_mode: AlphaMode, double_sided: bool) -> (r: PipelineChoice)
    ensures
        r.cull_back_faces == !double_sided,
        r.depth_write == (alpha_mode != AlphaMode::Blend),
        r.blended == (alpha_mode == AlphaMode::Blend),
{
    let blended = match alpha_mode {
        AlphaMode::Opaque | AlphaMode::Mask => false,
        AlphaMode::Blend => true,
    };
    PipelineChoice { cull_back_faces: !double_sided, depth_write: !blended, blended }
}

/// Why a mesh cannot be built.
#[derive(Debug, Clone, Copy, PartialEq, Eq, Structural)]
pub enum MeshBuilderError {
    NoPrimitive,
    InvalidMorphTargetCount,
    NormalTextureWithoutTangent,
}

impl MeshBuilderError {
    /// The message shown for the error.
    pub fn message(&self) -> (r: &'static str)
        ensures
            r@ == match *self {
                MeshBuilderError::NoPrimitive => "cannot create a mesh with no primitive"@,
                MeshBuilderError::InvalidMorphTargetCount => "primitive geometries with different morph target count"@,
                MeshBuilderError::NormalTextureWithoutTangent => "cannot use a material containing a normal texture with a geometry without tangents"@,
            },
    {
        match self {
            MeshBuilderError::NoPrimitive => "cannot create a mesh with no primitive",
            MeshBuilderError::InvalidMorphTargetCount => "primitive geometries with different morph target count",
            MeshBuilderError::NormalTextureWithoutTangent => "cannot use a material containing a normal texture with a geometry without tangents",
        }
    }
}

/// What building a mesh checks of a primitive: its geometry's morph target count
/// and tangents, and whether its material has a normal texture.
#[derive(Debug, Clone, Copy, PartialEq, Eq, Structural)]
pub struct PrimitiveSummary {
    pub morph_target_count: usize,
    pub has_tangent: bool,
    pub has_normal_texture: bool,
}

/// The first problem among the first `n` primitives, all being compared with
/// the morph target count of the first.
pub open spec fn first_problem(p: Seq<PrimitiveSummary>, n: int) -> Option<MeshBuilderError>
    decreases n,
{
    if n <= 0 {
        None
    } else {
        match first_problem(p, n - 1) {
            Some(e) => Some(e),
            None => {
                let q = p[n - 1];
                if q.morph_target_count != p[0].morph_target_count {
                    Some(MeshBuilderError::InvalidMorphTargetCount)
                } else if q.has_normal_texture && !q.has_tangent {
                    Some(MeshBuilderError::NormalTextureWithoutTangent)
                } else {
                    None
                }
            },
        }
    }
}

/// Checks the primitives of a mesh: there must be one, all geometries must have
/// the first one's morph target count, and a material with a normal texture needs
/// a geometry with tangents. Returns the morph target count of the mesh.
pub fn check_primitives(primitives: &[PrimitiveSummary]) -> (r: Result<usize, MeshBuilderError>)
    ensures
        primitives@.len() == 0 ==> r == Err::<usize, MeshBuilderError>(MeshBuilderError::NoPrimitive),
        primitives@.len() > 0 ==> match first_problem(primitives@, primitives@.len() as int) {
            Some(e) => r == Err::<usize, MeshBuilderError>(e),
            None => r == Ok::<usize, MeshBuilderError>(primitives@[0].morph_target_count),
        },
        r is Ok == (primitives@.len() > 0 && forall|i: int|
            0 <= i < primitives@.len() ==> (#[trigger] primitives@[i]).morph_target_count
                == primitives@[0].morph_target_count && !(primitives@[i].has_normal_texture
                && !primitives@[i].has_tangent)),
        r is Ok ==> r == Ok::<usize, MeshBuilderError>(primitives@[0].morph_target_count),
        (r == Err::<usize, MeshBuilderError>(MeshBuilderError::InvalidMorphTargetCount)) == (exists|
            k: int,
        |
            0 <= k < primitives@.len() && (#[trigger] primitives@[k]).morph_target_count
                != primitives@[0].morph_target_count && all_pass(primitives@, k)),
        (r == Err::<usize, MeshBuilderError>(MeshBuilderError::NormalTextureWithoutTangent)) == (exists|
            k: int,
        |
            0 <= k < primitives@.len() && (#[trigger] primitives@[k]).morph_target_count
                == primitives@[0].morph_target_count && primitives@[k].has_normal_texture
                && !primitives@[k].has_tangent && all_pass(primitives@, k)),
{
    if primitives.len() == 0 {
        return Err(MeshBuilderError::NoPrimitive);
    }
    let morph_target_count = primitives[0].morph_target_count;
    let mut i: usize = 0;
    while i < primitives.len()
        invariant
            primitives@.len() > 0,
            morph_target_count == primitives@[0].morph_target_count,
            i <= primitives@.len(),
            first_problem(primitives@, i as int) is None,
        decreases primitives@.len() - i,
    {
        let p = primitives[i];
        if morph_target_count != p.morph_target_count {
            proof {
                lemma_problem_persists(primitives@, i + 1, primitives@.len() as int);
                law_first_problem(primitives@, primitives@.len() as int);
            }
            return Err(MeshBuilderError::InvalidMorphTargetCount);
        }
        if p.has_normal_texture && !p.has_tangent {
            proof {
                lemma_problem_persists(primitives@, i + 1, primitives@.len() as int);
                law_first_problem(primitives@, primitives@.len() as int);
            }
            return Err(MeshBuilderError::NormalTextureWithoutTangent);
        }
        i = i + 1;
    }
    proof {
        law_first_problem(primitives@, primitives@.len() as int);
    }
    Ok(morph_target_count)
}

/// Each of the first `k` primitives has the first one's morph target count, and
/// none of them pairs a normal texture with a geometry without tangents.
pub open spec fn all_pass(p: Seq<PrimitiveSummary>, k: int) -> bool {
    forall|j: int|
        0 <= j < k ==> (#[trigger] p[j]).morph_target_count == p[0].morph_target_count
            && !(p[j].has_normal_texture && !p[j].has_tangent)
}

/// The primitives are checked in order and the first failing one decides the
/// error: a primitive whose morph target count differs from the first one's is
/// `InvalidMorphTargetCount`; one that has that count but a normal texture on a
/// geometry without tangents is `NormalTextureWithoutTangent`; when none of the
/// first `n` fails, there is no problem.
pub proof fn law_first_problem(p: Seq<PrimitiveSummary>, n: int)
    requires
        0 < n <= p.len(),
    ensures
        first_problem(p, n) is None == all_pass(p, n),
        (first_problem(p, n) == Some(MeshBuilderError::InvalidMorphTargetCount)) == (exists|k: int|
            0 <= k < n && (#[trigger] p[k]).morph_target_count != p[0].morph_target_count
                && all_pass(p, k)),
        (first_problem(p, n) == Some(MeshBuilderError::NormalTextureWithoutTangent)) == (exists|
            k: int,
        |
            0 <= k < n && (#[trigger] p[k]).morph_target_count == p[0].morph_target_count
                && p[k].has_normal_texture && !p[k].has_tangent && all_pass(p, k)),
        first_problem(p, n) != Some(MeshBuilderError::NoPrimitive),
    decreases n,
{
    if n > 1 {
        law_first_problem(p, n - 1);
    }
    let q = p[n - 1];
    if first_problem(p, n - 1) is None {
        assert forall|j: int| 0 <= j < n - 1 implies #[trigger] p[j].morph_target_count
            == p[0].morph_target_count && !(p[j].has_normal_texture && !p[j].has_tangent) by {
            if n > 1 {
                assert(all_pass(p, n - 1));
            }
        }
    }
    if exists|k: int|
        0 <= k < n - 1 && (#[trigger] p[k]).morph_target_count != p[0].morph_target_count
            && all_pass(p, k) {
        let k = choose|k: int|
            0 <= k < n - 1 && (#[trigger] p[k]).morph_target_count != p[0].morph_target_count
                && all_pass(p, k);
        assert(!all_pass(p, n));
    }
    if exists|k: int|
        0 <= k < n - 1 && (#[trigger] p[k]).morph_target_count == p[0].morph_target_count
            && p[k].has_normal_texture && !p[k].has_tangent && all_pass(p, k) {
        let k = choose|k: int|
            0 <= k < n - 1 && (#[trigger] p[k]).morph_target_count == p[0].morph_target_count
                && p[k].has_normal_texture && !p[k].has_tangent && all_pass(p, k);
        assert(!all_pass(p, n));
    }
}

/// Proves that the first problem found stays the first problem.
proof fn lemma_problem_persists(p: Seq<PrimitiveSummary>, i: int, n: int)
    requires
        0 <= i <= n,
        first_problem(p, i) is Some,
    ensures
        first_problem(p, n) == first_problem(p, i),
    decreases n - i,
{
    if n > i {
        lemma_problem_persists(p, i, n - 1);
    }
}

} // verus!
