use vstd::prelude::*;

verus! {

/// The largest number of morph targets a geometry may have.
pub const MAX_MORPH_TARGET_COUNT: usize = 8;

/// Which vertex attributes a geometry carries, one bit each.
#[derive(Debug, Clone, Copy, PartialEq, Eq, Structural)]
pub struct GeometryFlags {
    pub bits: u8,
}

impl GeometryFlags {
    pub const POSITION: u8 = 1;
    pub const NORMAL: u8 = 2;
    pub const TANGENT: u8 = 4;
    pub const TEX_COORD_0: u8 = 8;
    pub const TEX_COORD_1: u8 = 16;
    pub const COLOR_0: u8 = 32;
    pub const JOINTS_0: u8 = 64;
    pub const WEIGHTS_0: u8 = 128;

    /// Whether every bit of `flag` is set.
    pub open spec fn has(self, flag: u8) -> bool {
        self.bits & flag == flag
    }

    /// No attribute.
    pub fn empty() -> (r: Self)
        ensures
            r.bits == 0,
    {
        GeometryFlags { bits: 0 }
    }

    /// The flags as a byte.
    pub fn bits(&self) -> (r: u8)
        ensures
            r == self.bits,
    {
        self.bits
    }

    /// Whether every bit of `flag` is set.
    pub fn contains(&self, flag: u8) -> (r: bool)
        ensures
            r == self.has(flag),
    {
        self.bits & flag == flag
    }

    /// Sets the bits of `flag`.
    pub fn insert(&mut self, flag: u8)
        ensures
            final(self).bits == old(self).bits | flag,
    {
        self.bits = self.bits | flag;
    }

    /// Clears the bits of `flag`.
    pub fn remove(&mut self, flag: u8)
        ensures
            final(self).bits == old(self).bits & !flag,
    {
        self.bits = self.bits & !flag;
    }
}

/// An attribute iterator yielded fewer values than the geometry has vertices.
#[derive(Debug, Clone, Copy, PartialEq, Eq, Structural)]
pub struct InvalidAttributeIterLenError {
    pub min: usize,
}

/// Why morph target attributes cannot be set.
#[derive(Debug, Clone, Copy, PartialEq, Eq, Structural)]
pub enum MorphTargetAttributeError {
    InvalidMorphTarget { max: usize, actual: usize },
    InvalidAttributeIterLen(InvalidAttributeIterLenError),
}

impl MorphTargetAttributeError {
    /// Wraps a length error.
    pub fn from_len_error(e: InvalidAttributeIterLenError) -> (r: Self)
        ensures
            r == MorphTargetAttributeError::InvalidAttributeIterLen(e),
    {
        MorphTargetAttributeError::InvalidAttributeIterLen(e)
    }
}

/// Why a geometry cannot be built.
#[derive(Debug, Clone, Copy, PartialEq, Eq, Structural)]
pub enum GeometryBuilderError {
    TooManyMorphTarget,
    PositionsNotSet,
}

/// How vertices are assembled into primitives.
#[derive(Debug, Clone, Copy, PartialEq, Eq, Structural)]
pub enum PrimitiveTopology {
    PointList,
    LineList,
    LineStrip,
    TriangleList,
    TriangleStrip,
}

/// The range of the attribute block `block` (0 for the base vertices, `1 + t` for
/// morph target `t`) among blocks of `vertex_count` vertices.
pub fn attribute_block(block: usize, vertex_count: usize) -> (r: (usize, usize))
    requires
        (block + 1) * vertex_count <= usize::MAX,
    ensures
        r.0 == block * vertex_count,
        r.1 == block * vertex_count + vertex_count,
{
    proof {
        assert((block + 1) * vertex_count == block * vertex_count + vertex_count)
            by (nonlinear_arith);
    }
    let start = block * vertex_count;
    (start, start + vertex_count)
}

/// Checks that enough attribute values were given: one per vertex.
pub fn check_attribute_len(given: usize, vertex_count: usize) -> (r: Result<
    (),
    InvalidAttributeIterLenError,
>)
    ensures
        given >= vertex_count ==> r is Ok,
        given < vertex_count ==> r == Err::<(), InvalidAttributeIterLenError>(
            InvalidAttributeIterLenError { min: vertex_count },
        ),
{
    if given < vertex_count {
        Err(InvalidAttributeIterLenError { min: vertex_count })
    } else {
        Ok(())
    }
}

/// The attribute block of morph target `target`, which must be one of the
/// geometry's `morph_target_count` targets.
pub fn morph_target_block(target: usize, morph_target_count: usize) -> (r: Result<
    usize,
    MorphTargetAttributeError,
>)
    ensures
        target < morph_target_count ==> r == Ok::<usize, MorphTargetAttributeError>(
            (1 + target) as usize,
        ),
        target >= morph_target_count ==> r == Err::<usize, MorphTargetAttributeError>(
            MorphTargetAttributeError::InvalidMorphTarget {
                max: morph_target_count,
                actual: target,
            },
        ),
{
    if target < morph_target_count {
        Ok(1 + target)
    } else {
        Err(
            MorphTargetAttributeError::InvalidMorphTarget {
                max: morph_target_count,
                actual: target,
            },
        )
    }
}

/// What building a geometry does with its attributes.
#[derive(Debug, Clone, Copy, PartialEq, Eq, Structural)]
pub struct BuildPlan {
    /// Flat normals are computed, one per triangle.
    pub generate_normals: bool,
    /// Tangents are generated from this texture coordinate set.
    pub normal_tex_coord: Option<u32>,
    /// Indexed vertices are expanded and the indices dropped.
    pub unweld: bool,
    /// The attributes the built geometry carries.
    pub flags: GeometryFlags,
}

/// The plan for building a geometry, or why it cannot be built.
pub open spec fn spec_build_plan(
    morph_target_count: usize,
    flags: GeometryFlags,
    topology: PrimitiveTopology,
    normal_tex_coord: Option<u32>,
) -> Result<BuildPlan, GeometryBuilderError> {
    if morph_target_count > MAX_MORPH_TARGET_COUNT {
        Err(GeometryBuilderError::TooManyMorphTarget)
    } else if !flags.has(GeometryFlags::POSITION) {
        Err(GeometryBuilderError::PositionsNotSet)
    } else {
        let lines = topology == PrimitiveTopology::PointList || topology
            == PrimitiveTopology::LineList || topology == PrimitiveTopology::LineStrip;
        let generate = !lines && !flags.has(GeometryFlags::NORMAL);
        let flags1 = if lines {
            flags.bits
        } else {
            flags.bits | GeometryFlags::NORMAL
        };
        let ntc1 = if lines {
            None
        } else {
            normal_tex_coord
        };
        let (flags2, ntc2) = if generate {
            (flags1 & !GeometryFlags::TANGENT, ntc1)
        } else if flags1 & GeometryFlags::TANGENT == GeometryFlags::TANGENT {
            (flags1, None)
        } else {
            (flags1, ntc1)
        };
        let unweld = generate || ntc2 is Some;
        let flags3 = if unweld && ntc2 is Some {
            flags2 | GeometryFlags::TANGENT
        } else {
            flags2
        };
        Ok(
            BuildPlan {
                generate_normals: generate,
                normal_tex_coord: if unweld {
                    ntc2
                } else {
                    None
                },
                unweld,
                flags: GeometryFlags { bits: flags3 },
            },
        )
    }
}

/// Decides how a geometry is built: point and line geometries get neither
/// normals nor tangents; other geometries without normals get flat normals
/// (and lose given tangents); given tangents are kept; tangents are generated
/// from `normal_tex_coord` otherwise. Generating anything expands indexed
/// vertices.
pub fn build_plan(
    morph_target_count: usize,
    flags: GeometryFlags,
    topology: PrimitiveTopology,
    normal_tex_coord: Option<u32>,
) -> (r: Result<BuildPlan, GeometryBuilderError>)
    ensures
        r == spec_build_plan(morph_target_count, flags, topology, normal_tex_coord),
        r matches Ok(plan) ==> plan.generate_normals == (topology != PrimitiveTopology::PointList
            && topology != PrimitiveTopology::LineList && topology != PrimitiveTopology::LineStrip
            && flags.bits & 2 != 2),
        r matches Ok(plan) ==> plan.unweld == (plan.generate_normals || plan.normal_tex_coord is Some),
        r matches Ok(plan) ==> plan.normal_tex_coord == if topology == PrimitiveTopology::PointList
            || topology == PrimitiveTopology::LineList || topology == PrimitiveTopology::LineStrip
            || (flags.bits & 2 == 2 && flags.bits & 4 == 4) {
            None
        } else {
            normal_tex_coord
        },
        (r is Ok) == (morph_target_count <= MAX_MORPH_TARGET_COUNT && flags.bits & 1 == 1),
{
    proof {
        law_build_plan_decisions(morph_target_count, flags, topology, normal_tex_coord);
    }
    if morph_target_count > MAX_MORPH_TARGET_COUNT {
        return Err(GeometryBuilderError::TooManyMorphTarget);
    }
    if !flags.contains(GeometryFlags::POSITION) {
        return Err(GeometryBuilderError::PositionsNotSet);
    }
    let mut flags = flags;
    let mut normal_tex_coord = normal_tex_coord;
    let generate_normals = match topology {
        PrimitiveTopology::PointList | PrimitiveTopology::LineList | PrimitiveTopology::LineStrip => {
            normal_tex_coord = None;
            false
        },
        _ => {
            let generate = !flags.contains(GeometryFlags::NORMAL);
            flags.insert(GeometryFlags::NORMAL);
            generate
        },
    };
    if generate_normals {
        flags.remove(GeometryFlags::TANGENT);
    } else if flags.contains(GeometryFlags::TANGENT) {
        normal_tex_coord = None;
    }
    let unweld = generate_normals || normal_tex_coord.is_some();
    let mut tangent_source = None;
    if unweld {
        if let Some(c) = normal_tex_coord {
            tangent_source = Some(c);
            flags.insert(GeometryFlags::TANGENT);
        }
    }
    Ok(BuildPlan { generate_normals, normal_tex_coord: tangent_source, unweld, flags })
}


/// The corner of a box face that position `j` of the face's two triangles uses.
pub open spec fn box_face_corner(j: int) -> int {
    if j == 1 {
        1
    } else if j == 2 || j == 3 {
        2
    } else if j == 4 {
        3
    } else {
        0
    }
}

/// Index `k` of the six box faces listed in order, four vertices per face and two
/// triangles `0 1 2` and `2 3 0` each.
pub open spec fn box_index(k: int) -> int {
    4 * (k / 6) + box_face_corner(k % 6)
}

/// The triangle indices of a box of six faces with four vertices each: the face
/// list in reverse order, which turns each triangle around.
pub fn box_indices() -> (r: Vec<u16>)
    ensures
        r@.len() == 36,
        forall|k: int| 0 <= k < 36 ==> #[trigger] r@[k] == box_index(35 - k),
        forall|k: int| 0 <= k < 36 ==> #[trigger] r@[k] < 24,
{
    let mut out: Vec<u16> = Vec::with_capacity(36);
    let mut k: u16 = 0;
    while k < 36
        invariant
            k <= 36,
            out@.len() == k,
            forall|j: int| 0 <= j < k ==> #[trigger] out@[j] == box_index(35 - j),
            forall|j: int| 0 <= j < k ==> #[trigger] out@[j] < 24,
        decreases 36 - k,
    {
        let m: u16 = 35 - k;
        let face: u16 = m / 6;
        let j: u16 = m % 6;
        let corner: u16 = if j == 1 {
            1
        } else if j == 2 || j == 3 {
            2
        } else if j == 4 {
            3
        } else {
            0
        };
        out.push(4 * face + corner);
        k = k + 1;
    }
    out
}

/// Why a skin cannot be built.
#[derive(Debug, Clone, Copy, PartialEq, Eq, Structural)]
pub enum SkinBuilderError {
    /// Inverse bind matrices were given, but not one per node.
    InvalidInverseBindMatrixCount { expected: usize, actual: usize },
}

/// Where the inverse bind matrices of a skin's node joints come from.
#[derive(Debug, Clone, Copy, PartialEq, Eq, Structural)]
pub enum InverseBindMatrices {
    /// None were given: every node joint gets the identity.
    Identity,
    /// One was given per node, in node order.
    Given,
}

/// Decides where the inverse bind matrices of `node_count` node joints come from
/// when `matrix_count` matrices were given: none means identities, otherwise
/// there must be one per node.
pub fn skin_inverse_bind_matrices(node_count: usize, matrix_count: usize) -> (r: Result<
    InverseBindMatrices,
    SkinBuilderError,
>)
    ensures
        matrix_count == 0 ==> r == Ok::<InverseBindMatrices, SkinBuilderError>(
            InverseBindMatrices::Identity,
        ),
        matrix_count != 0 && matrix_count == node_count ==> r == Ok::<
            InverseBindMatrices,
            SkinBuilderError,
        >(InverseBindMatrices::Given),
        matrix_count != 0 && matrix_count != node_count ==> r == Err::<
            InverseBindMatrices,
            SkinBuilderError,
        >(SkinBuilderError::InvalidInverseBindMatrixCount { expected: node_count, actual: matrix_count }),
{
    if matrix_count == 0 {
        Ok(InverseBindMatrices::Identity)
    } else if matrix_count == node_count {
        Ok(InverseBindMatrices::Given)
    } else {
        Err(SkinBuilderError::InvalidInverseBindMatrixCount { expected: node_count, actual: matrix_count })
    }
}

/// Whether vertices are assembled into points or lines.
pub open spec fn is_point_or_line(topology: PrimitiveTopology) -> bool {
    topology == PrimitiveTopology::PointList || topology == PrimitiveTopology::LineList || topology
        == PrimitiveTopology::LineStrip
}

/// Proves what every plan that is made keeps: positions stay; triangle
/// geometries end with normals; point and line geometries keep their attributes
/// and get nothing generated; vertices are expanded exactly when something is
/// generated; tangents are generated only into a geometry that then has them.
pub proof fn law_build_plan(
    morph_target_count: usize,
    flags: GeometryFlags,
    topology: PrimitiveTopology,
    normal_tex_coord: Option<u32>,
)
    requires
        spec_build_plan(morph_target_count, flags, topology, normal_tex_coord) is Ok,
    ensures
        ({
            let plan = spec_build_plan(morph_target_count, flags, topology, normal_tex_coord)->Ok_0;
            &&& plan.flags.has(GeometryFlags::POSITION)
            &&& !is_point_or_line(topology) ==> plan.flags.has(GeometryFlags::NORMAL)
            &&& is_point_or_line(topology) ==> !plan.generate_normals && plan.normal_tex_coord is None
                && plan.flags == flags
            &&& plan.unweld == (plan.generate_normals || plan.normal_tex_coord is Some)
            &&& plan.normal_tex_coord is Some ==> plan.flags.has(GeometryFlags::TANGENT)
        }),
{
    let b = flags.bits;
    assert(b & 1 == 1 ==> (b | 2) & 1 == 1) by (bit_vector);
    assert((b | 2) & 2 == 2) by (bit_vector);
    assert(b & 1 == 1 ==> ((b | 2) & !4u8) & 1 == 1) by (bit_vector);
    assert(((b | 2) & !4u8) & 2 == 2) by (bit_vector);
    assert(b & 1 == 1 ==> (((b | 2) & !4u8) | 4) & 1 == 1) by (bit_vector);
    assert((((b | 2) & !4u8) | 4) & 2 == 2) by (bit_vector);
    assert((((b | 2) & !4u8) | 4) & 4 == 4) by (bit_vector);
    assert(b & 1 == 1 ==> ((b | 2) | 4) & 1 == 1) by (bit_vector);
    assert(((b | 2) | 4) & 2 == 2) by (bit_vector);
    assert(((b | 2) | 4) & 4 == 4) by (bit_vector);
}

/// What a build decides, in terms of what the geometry was given: too many morph
/// targets or missing positions fail, in that order. Point and line geometries are
/// left as they are. Any other geometry ends with normals, and they are generated
/// exactly when none were given, whatever the triangle topology. Given normals
/// and tangents together are kept as they are; otherwise tangents come from the
/// requested texture coordinate set, when there is one, and only then does the
/// geometry carry tangents. Vertices are expanded exactly when something is
/// generated. Attributes other than normals and tangents stay as given.
pub proof fn law_build_plan_decisions(
    morph_target_count: usize,
    flags: GeometryFlags,
    topology: PrimitiveTopology,
    normal_tex_coord: Option<u32>,
)
    ensures
        (spec_build_plan(morph_target_count, flags, topology, normal_tex_coord) == Err::<
            BuildPlan,
            GeometryBuilderError,
        >(GeometryBuilderError::TooManyMorphTarget)) == (morph_target_count
            > MAX_MORPH_TARGET_COUNT),
        (spec_build_plan(morph_target_count, flags, topology, normal_tex_coord) == Err::<
            BuildPlan,
            GeometryBuilderError,
        >(GeometryBuilderError::PositionsNotSet)) == (morph_target_count <= MAX_MORPH_TARGET_COUNT
            && flags.bits & 1 != 1),
        (spec_build_plan(morph_target_count, flags, topology, normal_tex_coord) is Ok) == (
        morph_target_count <= MAX_MORPH_TARGET_COUNT && flags.bits & 1 == 1),
        spec_build_plan(morph_target_count, flags, topology, normal_tex_coord) is Ok ==> ({
            let plan = spec_build_plan(morph_target_count, flags, topology, normal_tex_coord)->Ok_0;
            let lines = topology == PrimitiveTopology::PointList || topology
                == PrimitiveTopology::LineList || topology == PrimitiveTopology::LineStrip;
            let given_normals = flags.bits & 2 == 2;
            let given_tangents = flags.bits & 4 == 4;
            &&& plan.generate_normals == (!lines && !given_normals)
            &&& plan.normal_tex_coord == if lines || (given_normals && given_tangents) {
                None
            } else {
                normal_tex_coord
            }
            &&& plan.unweld == (plan.generate_normals || plan.normal_tex_coord is Some)
            &&& lines ==> plan.flags == flags
            &&& !lines ==> plan.flags.bits & 2 == 2
            &&& !lines ==> (plan.flags.bits & 4 == 4) == ((given_normals && given_tangents)
                || normal_tex_coord is Some)
            &&& plan.flags.bits & 0xF9u8 == flags.bits & 0xF9u8
        }),
{
    let b = flags.bits;
    assert((b | 2) & 0xF9u8 == b & 0xF9u8) by (bit_vector);
    assert(((b | 2) & !4u8) & 0xF9u8 == b & 0xF9u8) by (bit_vector);
    assert((((b | 2) & !4u8) | 4) & 0xF9u8 == b & 0xF9u8) by (bit_vector);
    assert(((b | 2) | 4) & 0xF9u8 == b & 0xF9u8) by (bit_vector);
    assert(((b | 2) & 4 == 4) == (b & 4 == 4)) by (bit_vector);
    assert(((b | 2) & !4u8) & 4 != 4) by (bit_vector);
    assert((((b | 2) & !4u8) | 4) & 4 == 4) by (bit_vector);
    assert(((b | 2) | 4) & 4 == 4) by (bit_vector);
    assert((b | 2) & 2 == 2) by (bit_vector);
    assert(((b | 2) & !4u8) & 2 == 2) by (bit_vector);
    assert((((b | 2) & !4u8) | 4) & 2 == 2) by (bit_vector);
    assert(((b | 2) | 4) & 2 == 2) by (bit_vector);
}

/// The indices of an indexed geometry.
pub enum Indices {
    U16(Vec<u16>),
    U32(Vec<u32>),
}

impl Indices {
    /// The indices as numbers.
    pub open spec fn values(&self) -> Seq<int> {
        match self {
            Indices::U16(v) => v@.map_values(|i: u16| i as int),
            Indices::U32(v) => v@.map_values(|i: u32| i as int),
        }
    }

    /// The number of indices.
    pub fn len(&self) -> (r: usize)
        ensures
            r == self.values().len(),
    {
        match self {
            Indices::U16(v) => v.len(),
            Indices::U32(v) => v.len(),
        }
    }

    /// The index at position `k`.
    pub fn get(&self, k: usize) -> (r: usize)
        requires
            k < self.values().len(),
        ensures
            r == self.values()[k as int],
    {
        match self {
            Indices::U16(v) => v[k] as usize,
            Indices::U32(v) => v[k] as usize,
        }
    }
}

/// Proves that position `k` of block `t` comes before block `target` when `t < target`.
proof fn lemma_block_index_below(t: int, k: int, target: int, n: int)
    requires
        0 <= t < target,
        0 <= k < n,
    ensures
        t * n + k < target * n,
        0 <= t * n + k,
{
    assert(t * n + k < (t + 1) * n) by (nonlinear_arith)
        requires
            0 <= k < n,
    ;
    assert((t + 1) * n <= target * n) by (nonlinear_arith)
        requires
            t + 1 <= target,
            n > 0,
    ;
    assert(t * n >= 0) by (nonlinear_arith)
        requires
            t >= 0,
            n > 0,
    ;
}

/// Expands indexed vertices: for each attribute block (the base vertices, then
/// each morph target) the vertices are listed in index order. The result holds
/// `(1 + morph_target_count) * indices.len()` vertices.
pub fn unweld<T: Copy>(
    attributes: &Vec<T>,
    vertex_count: usize,
    morph_target_count: usize,
    indices: &Indices,
) -> (r: Vec<T>)
    requires
        morph_target_count <= MAX_MORPH_TARGET_COUNT,
        attributes@.len() == (1 + morph_target_count) * vertex_count,
        (1 + morph_target_count) * indices.values().len() <= usize::MAX,
        forall|k: int| 0 <= k < indices.values().len() ==> 0 <= #[trigger] indices.values()[k]
            < vertex_count,
    ensures
        r@.len() == (1 + morph_target_count) * indices.values().len(),
        forall|t: int, k: int|
            0 <= t <= morph_target_count && 0 <= k < indices.values().len() ==> #[trigger] r@[t
                * indices.values().len() + k] == attributes@[t * vertex_count
                + indices.values()[k]],
{
    let n = indices.len();
    let ghost idx = indices.values();
    let alen = attributes.len();
    let mut out: Vec<T> = Vec::with_capacity((1 + morph_target_count) * n);
    let mut target: usize = 0;
    while target <= morph_target_count
        invariant
            morph_target_count <= MAX_MORPH_TARGET_COUNT,
            n == idx.len(),
            idx == indices.values(),
            attributes@.len() == (1 + morph_target_count) * vertex_count,
            alen == attributes@.len(),
            (1 + morph_target_count) * n <= usize::MAX,
            forall|k: int| 0 <= k < n ==> 0 <= #[trigger] idx[k] < vertex_count,
            target <= morph_target_count + 1,
            out@.len() == target * n,
            forall|t: int, k: int|
                0 <= t < target && 0 <= k < n ==> #[trigger] out@[t * n + k] == attributes@[t
                    * vertex_count + idx[k]],
        decreases morph_target_count + 1 - target,
    {
        proof {
            assert((target + 1) * vertex_count <= (1 + morph_target_count) * vertex_count)
                by (nonlinear_arith)
                requires
                    target <= morph_target_count,
            ;
            assert((target + 1) * n <= (1 + morph_target_count) * n) by (nonlinear_arith)
                requires
                    target <= morph_target_count,
            ;
            assert((target + 1) * vertex_count == target * vertex_count + vertex_count)
                by (nonlinear_arith);
            assert((target + 1) * n == target * n + n) by (nonlinear_arith);
        }
        let start = target * vertex_count;
        let mut k: usize = 0;
        while k < n
            invariant
                n == idx.len(),
                idx == indices.values(),
                attributes@.len() == (1 + morph_target_count) * vertex_count,
                alen == attributes@.len(),
                start == target * vertex_count,
                start + vertex_count <= attributes@.len(),
                forall|k2: int| 0 <= k2 < n ==> 0 <= #[trigger] idx[k2] < vertex_count,
                target <= morph_target_count,
                (target + 1) * n <= usize::MAX,
                (target + 1) * n == target * n + n,
                k <= n,
                out@.len() == target * n + k,
                forall|t: int, k2: int|
                    0 <= t < target && 0 <= k2 < n ==> #[trigger] out@[t * n + k2]
                        == attributes@[t * vertex_count + idx[k2]],
                forall|k2: int|
                    0 <= k2 < k ==> #[trigger] out@[target * n + k2] == attributes@[target
                        * vertex_count + idx[k2]],
            decreases n - k,
        {
            let i = indices.get(k);
            let v: T = attributes[start + i];
            let ghost before = out@;
            out.push(v);
            proof {
                assert forall|t: int, k2: int| 0 <= t < target && 0 <= k2 < n implies #[trigger] out@[t
                    * n + k2] == attributes@[t * vertex_count + idx[k2]] by {
                    lemma_block_index_below(t, k2, target as int, n as int);
                    assert(out@[t * n + k2] == before[t * n + k2]);
                }
                assert forall|k2: int| 0 <= k2 < k + 1 implies #[trigger] out@[target * n + k2]
                    == attributes@[target * vertex_count + idx[k2]] by {
                    if k2 < k {
                        assert(out@[target * n + k2] == before[target * n + k2]);
                    }
                }
            }
            k = k + 1;
        }
        target = target + 1;
    }
    out
}

} // verus!
