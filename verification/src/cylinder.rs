use vstd::prelude::*;

verus! {

/// The part of a cylinder builder that decides its vertices and triangles: the
/// segment counts, whether the ends are open, and whether each end has a
/// positive radius (an end of radius zero is a point, with no cap and with the
/// triangles that would collapse there left out).
#[derive(Debug, Clone, Copy, PartialEq, Eq, Structural)]
pub struct CylinderTopology {
    pub radial_segments: usize,
    pub height_segments: usize,
    pub open_ended: bool,
    pub top_radius_positive: bool,
    pub bottom_radius_positive: bool,
}

/// The triangles of torso quad `(y, x)`, vertices numbered from `s`.
pub open spec fn torso_quad(t: CylinderTopology, s: int, x: int, y: int) -> Seq<u32> {
    let r1 = t.radial_segments + 1;
    let a = (s + y * r1 + x) as u32;
    let b = (s + (y + 1) * r1 + x) as u32;
    let c = (s + (y + 1) * r1 + x + 1) as u32;
    let d = (s + y * r1 + x + 1) as u32;
    let upper = if t.top_radius_positive || y != 0 {
        seq![a, b, d]
    } else {
        Seq::empty()
    };
    let lower = if t.bottom_radius_positive || y != t.height_segments - 1 {
        seq![b, c, d]
    } else {
        Seq::empty()
    };
    upper + lower
}

/// The triangles of the first `ys` quads of torso column `x`.
pub open spec fn torso_column(t: CylinderTopology, s: int, x: int, ys: int) -> Seq<u32>
    decreases ys,
{
    if ys <= 0 {
        Seq::empty()
    } else {
        torso_column(t, s, x, ys - 1) + torso_quad(t, s, x, ys - 1)
    }
}

/// The triangles of the first `xs` torso columns.
pub open spec fn torso(t: CylinderTopology, s: int, xs: int) -> Seq<u32>
    decreases xs,
{
    if xs <= 0 {
        Seq::empty()
    } else {
        torso(t, s, xs - 1) + torso_column(t, s, xs - 1, t.height_segments as int)
    }
}

/// The first `xs` triangles of a cap around the vertex `center`, wound to face
/// up for the top cap and down for the bottom one.
pub open spec fn cap(center: int, top: bool, xs: int) -> Seq<u32>
    decreases xs,
{
    if xs <= 0 {
        Seq::empty()
    } else {
        let i = center + xs;
        cap(center, top, xs - 1) + if top {
            seq![i as u32, (i + 1) as u32, center as u32]
        } else {
            seq![(i + 1) as u32, i as u32, center as u32]
        }
    }
}

impl CylinderTopology {
    /// Whether the top end gets a cap.
    pub open spec fn has_top_cap(self) -> bool {
        !self.open_ended && self.top_radius_positive
    }

    /// Whether the bottom end gets a cap.
    pub open spec fn has_bottom_cap(self) -> bool {
        !self.open_ended && self.bottom_radius_positive
    }

    /// Vertices of the torso: a grid of rings.
    pub open spec fn spec_torso_vertex_count(self) -> int {
        (self.height_segments + 1) * (self.radial_segments + 1)
    }

    /// Vertices of a cap: its center and a ring.
    pub open spec fn spec_cap_vertex_count(self) -> int {
        self.radial_segments + 2
    }

    /// All vertices: the torso, then the top cap, then the bottom cap.
    pub open spec fn spec_vertex_count(self) -> int {
        self.spec_torso_vertex_count() + (if self.has_top_cap() {
            self.spec_cap_vertex_count()
        } else {
            0
        }) + (if self.has_bottom_cap() {
            self.spec_cap_vertex_count()
        } else {
            0
        })
    }

    /// Room reserved for indices: the torso's (counted as if no triangle
    /// collapsed) and each cap's.
    pub open spec fn spec_index_count(self) -> int {
        3 * self.height_segments * self.radial_segments + (if self.has_top_cap() {
            3 * (self.radial_segments + 1)
        } else {
            0
        }) + (if self.has_bottom_cap() {
            3 * (self.radial_segments + 1)
        } else {
            0
        })
    }

    /// The triangles in build order: the torso, then the top cap, then the bottom cap.
    pub open spec fn spec_indices(self) -> Seq<u32> {
        let tv = self.spec_torso_vertex_count();
        let top_center = tv;
        let bottom_center = tv + if self.has_top_cap() {
            self.spec_cap_vertex_count()
        } else {
            0
        };
        torso(self, 0, self.radial_segments as int) + (if self.has_top_cap() {
            cap(top_center, true, self.radial_segments as int)
        } else {
            Seq::empty()
        }) + (if self.has_bottom_cap() {
            cap(bottom_center, false, self.radial_segments as int)
        } else {
            Seq::empty()
        })
    }

    /// Every vertex number and the index count fit their types.
    pub open spec fn fits(self) -> bool {
        &&& self.spec_vertex_count() <= u32::MAX
        &&& 3 * ((self.height_segments + 1) * (self.radial_segments + 1)) <= usize::MAX
    }

    /// Number of torso vertices.
    pub fn torso_vertex_count(&self) -> (r: usize)
        requires
            self.fits(),
        ensures
            r == self.spec_torso_vertex_count(),
    {
        let h = self.height_segments;
        let r = self.radial_segments;
        proof {
            assert(h + 1 <= (h + 1) * (r + 1)) by (nonlinear_arith);
            assert(r + 1 <= (h + 1) * (r + 1)) by (nonlinear_arith);
        }
        (h + 1) * (r + 1)
    }

    /// Number of vertex of torso grid point `(y, x)`.
    pub fn torso_vertex_index(&self, y: usize, x: usize) -> (r: u32)
        requires
            self.fits(),
            y <= self.height_segments,
            x <= self.radial_segments,
        ensures
            r == y * (self.radial_segments + 1) + x,
    {
        proof {
            assert(self.radial_segments + 1 <= (self.height_segments + 1) * (self.radial_segments
                + 1)) by (nonlinear_arith);
        }
        let r1 = self.radial_segments + 1;
        proof {
            lemma_grid_point_fits(self.height_segments as int, r1 as int, y as int, x as int);
        }
        (y * r1 + x) as u32
    }

    /// Number of indices reserved for the torso.
    pub fn torso_index_count(&self) -> (r: usize)
        requires
            self.fits(),
        ensures
            r == 3 * self.height_segments * self.radial_segments,
    {
        let h = self.height_segments;
        let r = self.radial_segments;
        proof {
            assert(3 * h * r <= 3 * ((h + 1) * (r + 1))) by (nonlinear_arith);
            assert(h * r <= 3 * h * r) by (nonlinear_arith);
            assert(3 * h <= 3 * ((h + 1) * (r + 1))) by (nonlinear_arith);
        }
        3 * h * r
    }

    /// Number of vertices of a cap.
    pub fn cap_vertex_count(&self) -> (r: usize)
        requires
            self.fits(),
        ensures
            r == self.spec_cap_vertex_count(),
    {
        proof {
            assert(self.radial_segments + 1 <= (self.height_segments + 1) * (self.radial_segments
                + 1)) by (nonlinear_arith);
        }
        self.radial_segments + 2
    }

    /// Number of indices of a cap.
    pub fn cap_index_count(&self) -> (r: usize)
        requires
            self.fits(),
        ensures
            r == 3 * (self.radial_segments + 1),
    {
        proof {
            assert(self.radial_segments + 1 <= (self.height_segments + 1) * (self.radial_segments
                + 1)) by (nonlinear_arith);
        }
        3 * (self.radial_segments + 1)
    }
}

impl CylinderTopology {
    /// Number of vertices: the torso and the caps.
    pub fn vertex_count(&self) -> (r: usize)
        requires
            self.fits(),
        ensures
            r == self.spec_vertex_count(),
    {
        let mut count = self.torso_vertex_count();
        if !self.open_ended {
            if self.top_radius_positive {
                count = count + self.cap_vertex_count();
            }
            if self.bottom_radius_positive {
                count = count + self.cap_vertex_count();
            }
        }
        count
    }

    /// Number of indices reserved: the torso's and the caps'.
    pub fn index_count(&self) -> (r: usize)
        requires
            self.fits(),
            self.spec_index_count() <= usize::MAX,
        ensures
            r == self.spec_index_count(),
    {
        let mut count = self.torso_index_count();
        if !self.open_ended {
            if self.top_radius_positive {
                count = count + self.cap_index_count();
            }
            if self.bottom_radius_positive {
                count = count + self.cap_index_count();
            }
        }
        count
    }

    /// Appends the torso's triangles, vertices numbered from `index_start`,
    /// column by column.
    pub fn generate_torso_indices(&self, indices: &mut Vec<u32>, index_start: u32)
        requires
            self.fits(),
            index_start + self.spec_torso_vertex_count() <= u32::MAX,
        ensures
            final(indices)@ == old(indices)@ + torso(
                *self,
                index_start as int,
                self.radial_segments as int,
            ),
    {
        let r = self.radial_segments;
        let h = self.height_segments;
        let ghost s = index_start as int;
        let mut x: usize = 0;
        while x < r
            invariant
                r == self.radial_segments,
                h == self.height_segments,
                s == index_start,
                self.fits(),
                index_start + self.spec_torso_vertex_count() <= u32::MAX,
                x <= r,
                indices@ == old(indices)@ + torso(*self, s, x as int),
            decreases r - x,
        {
            let mut y: usize = 0;
            while y < h
                invariant
                    r == self.radial_segments,
                    h == self.height_segments,
                    s == index_start,
                    self.fits(),
                    index_start + self.spec_torso_vertex_count() <= u32::MAX,
                    x < r,
                    y <= h,
                    indices@ == old(indices)@ + torso(*self, s, x as int) + torso_column(
                        *self,
                        s,
                        x as int,
                        y as int,
                    ),
                decreases h - y,
            {
                proof {
                    lemma_grid_point_fits(h as int, (r + 1) as int, (y + 1) as int, (x + 1) as int);
                    lemma_grid_point_fits(h as int, (r + 1) as int, y as int, x as int);
                    lemma_grid_point_fits(h as int, (r + 1) as int, (y + 1) as int, x as int);
                    lemma_grid_point_fits(h as int, (r + 1) as int, y as int, (x + 1) as int);
                }
                let a = index_start + self.torso_vertex_index(y, x);
                let b = index_start + self.torso_vertex_index(y + 1, x);
                let c = index_start + self.torso_vertex_index(y + 1, x + 1);
                let d = index_start + self.torso_vertex_index(y, x + 1);
                let ghost before = indices@;
                if self.top_radius_positive || y != 0 {
                    push_triangle(indices, a, b, d);
                }
                let ghost mid = indices@;
                if self.bottom_radius_positive || y != h - 1 {
                    push_triangle(indices, b, c, d);
                }
                proof {
                    let q = torso_quad(*self, s, x as int, y as int);
                    assert(indices@ == before + q);
                    assert(torso_column(*self, s, x as int, y + 1) == torso_column(
                        *self,
                        s,
                        x as int,
                        y as int,
                    ) + q);
                }
                y = y + 1;
            }
            x = x + 1;
        }
    }

    /// Appends a cap's triangles around the vertex `center_index`, whose ring
    /// vertices follow it.
    pub fn generate_cap_indices(&self, indices: &mut Vec<u32>, center_index: u32, top: bool)
        requires
            center_index + self.radial_segments + 1 <= u32::MAX,
        ensures
            final(indices)@ == old(indices)@ + cap(
                center_index as int,
                top,
                self.radial_segments as int,
            ),
    {
        let r = self.radial_segments;
        let mut x: usize = 1;
        while x <= r
            invariant
                r == self.radial_segments,
                center_index + r + 1 <= u32::MAX,
                1 <= x <= r + 1,
                indices@ == old(indices)@ + cap(center_index as int, top, x - 1),
            decreases r + 1 - x,
        {
            let i = center_index + x as u32;
            let ghost before = indices@;
            if top {
                push_triangle(indices, i, i + 1, center_index);
            } else {
                push_triangle(indices, i + 1, i, center_index);
            }
            proof {
                assert(indices@ == before + cap(center_index as int, top, x as int).subrange(
                    cap(center_index as int, top, x - 1).len() as int,
                    cap(center_index as int, top, x as int).len() as int,
                ));
            }
            x = x + 1;
        }
    }

    /// The triangles in build order: the torso, then the top cap, then the bottom
    /// cap, each cap around the first vertex after those before it.
    pub fn indices(&self) -> (r: Vec<u32>)
        requires
            self.fits(),
        ensures
            r@ == self.spec_indices(),
    {
        let mut indices: Vec<u32> = Vec::new();
        let torso_vertices = self.torso_vertex_count();
        self.generate_torso_indices(&mut indices, 0);
        let mut next_vertex = torso_vertices;
        let ghost after_torso = indices@;
        if !self.open_ended && self.top_radius_positive {
            self.generate_cap_indices(&mut indices, next_vertex as u32, true);
            next_vertex = next_vertex + self.cap_vertex_count();
        }
        let ghost after_top = indices@;
        if !self.open_ended && self.bottom_radius_positive {
            self.generate_cap_indices(&mut indices, next_vertex as u32, false);
        }
        proof {
            assert(indices@ =~= self.spec_indices());
        }
        indices
    }
}

/// Appends one triangle.
fn push_triangle(indices: &mut Vec<u32>, a: u32, b: u32, c: u32)
    ensures
        final(indices)@ == old(indices)@ + seq![a, b, c],
{
    indices.push(a);
    indices.push(b);
    indices.push(c);
    assert(final(indices)@ =~= old(indices)@ + seq![a, b, c]);
}

/// Proves that the number of grid point `(y, x)` fits the grid.
proof fn lemma_grid_point_fits(h: int, r1: int, y: int, x: int)
    requires
        0 <= y <= h,
        0 <= x < r1,
    ensures
        0 <= y * r1 + x < (h + 1) * r1,
        y * r1 + r1 == (y + 1) * r1,
{
    assert(y * r1 <= h * r1) by (nonlinear_arith)
        requires
            y <= h,
            r1 >= 0,
    ;
    assert(h * r1 + r1 == (h + 1) * r1) by (nonlinear_arith);
    assert(y * r1 + r1 == (y + 1) * r1) by (nonlinear_arith);
    assert(0 <= y * r1) by (nonlinear_arith)
        requires
            y >= 0,
            r1 >= 0,
    ;
}


/// All entries of `q` are below `bound`.
pub open spec fn all_below(q: Seq<u32>, bound: int) -> bool {
    forall|i: int| 0 <= i < q.len() ==> #[trigger] q[i] < bound
}

proof fn lemma_concat_below(a: Seq<u32>, b: Seq<u32>, bound: int)
    requires
        all_below(a, bound),
        all_below(b, bound),
    ensures
        all_below(a + b, bound),
{
    assert forall|i: int| 0 <= i < (a + b).len() implies #[trigger] (a + b)[i] < bound by {
        if i < a.len() {
            assert((a + b)[i] == a[i]);
        } else {
            assert((a + b)[i] == b[i - a.len()]);
        }
    }
}

proof fn lemma_torso_quad_below(t: CylinderTopology, s: int, x: int, y: int)
    requires
        0 <= s,
        0 <= x < t.radial_segments,
        0 <= y < t.height_segments,
        s + t.spec_torso_vertex_count() <= u32::MAX,
    ensures
        all_below(torso_quad(t, s, x, y), s + t.spec_torso_vertex_count()),
{
    let h = t.height_segments as int;
    let r1 = t.radial_segments + 1;
    lemma_grid_point_fits(h, r1, y + 1, x + 1);
    lemma_grid_point_fits(h, r1, y, x);
    lemma_grid_point_fits(h, r1, y + 1, x);
    lemma_grid_point_fits(h, r1, y, x + 1);
    let bound = s + t.spec_torso_vertex_count();
    let a = (s + y * r1 + x) as u32;
    let b = (s + (y + 1) * r1 + x) as u32;
    let c = (s + (y + 1) * r1 + x + 1) as u32;
    let d = (s + y * r1 + x + 1) as u32;
    assert(a < bound && b < bound && c < bound && d < bound);
    let upper = if t.top_radius_positive || y != 0 {
        seq![a, b, d]
    } else {
        Seq::empty()
    };
    let lower = if t.bottom_radius_positive || y != t.height_segments - 1 {
        seq![b, c, d]
    } else {
        Seq::empty()
    };
    assert(all_below(upper, bound));
    assert(all_below(lower, bound));
    lemma_concat_below(upper, lower, bound);
}

proof fn lemma_torso_column_below(t: CylinderTopology, s: int, x: int, ys: int)
    requires
        0 <= s,
        0 <= x < t.radial_segments,
        0 <= ys <= t.height_segments,
        s + t.spec_torso_vertex_count() <= u32::MAX,
    ensures
        all_below(torso_column(t, s, x, ys), s + t.spec_torso_vertex_count()),
    decreases ys,
{
    if ys > 0 {
        lemma_torso_column_below(t, s, x, ys - 1);
        lemma_torso_quad_below(t, s, x, ys - 1);
        lemma_concat_below(
            torso_column(t, s, x, ys - 1),
            torso_quad(t, s, x, ys - 1),
            s + t.spec_torso_vertex_count(),
        );
    }
}

proof fn lemma_torso_below(t: CylinderTopology, s: int, xs: int)
    requires
        0 <= s,
        0 <= xs <= t.radial_segments,
        s + t.spec_torso_vertex_count() <= u32::MAX,
    ensures
        all_below(torso(t, s, xs), s + t.spec_torso_vertex_count()),
    decreases xs,
{
    if xs > 0 {
        lemma_torso_below(t, s, xs - 1);
        lemma_torso_column_below(t, s, xs - 1, t.height_segments as int);
        lemma_concat_below(
            torso(t, s, xs - 1),
            torso_column(t, s, xs - 1, t.height_segments as int),
            s + t.spec_torso_vertex_count(),
        );
    }
}

proof fn lemma_cap_below(center: int, top: bool, xs: int, r: int)
    requires
        0 <= center,
        0 <= xs <= r,
        center + r + 2 <= u32::MAX + 1,
    ensures
        all_below(cap(center, top, xs), center + r + 2),
    decreases xs,
{
    if xs > 0 {
        lemma_cap_below(center, top, xs - 1, r);
        let i = center + xs;
        let tri = if top {
            seq![i as u32, (i + 1) as u32, center as u32]
        } else {
            seq![(i + 1) as u32, i as u32, center as u32]
        };
        assert(all_below(tri, center + r + 2));
        lemma_concat_below(cap(center, top, xs - 1), tri, center + r + 2);
    }
}

/// Proves that every index of a cylinder's triangles names one of its vertices.
pub proof fn law_cylinder_indices_in_range(t: CylinderTopology)
    requires
        t.fits(),
    ensures
        all_below(t.spec_indices(), t.spec_vertex_count()),
{
    let tv = t.spec_torso_vertex_count();
    let cv = t.spec_cap_vertex_count();
    let total = t.spec_vertex_count();
    let r = t.radial_segments as int;
    assert(tv >= 0) by (nonlinear_arith)
        requires
            tv == (t.height_segments + 1) * (t.radial_segments + 1),
    ;
    lemma_torso_below(t, 0, r);
    let part_torso = torso(t, 0, r);
    assert(all_below(part_torso, total));
    let top_center = tv;
    let bottom_center = tv + if t.has_top_cap() {
        cv
    } else {
        0
    };
    let part_top = if t.has_top_cap() {
        cap(top_center, true, r)
    } else {
        Seq::empty()
    };
    let part_bottom = if t.has_bottom_cap() {
        cap(bottom_center, false, r)
    } else {
        Seq::empty()
    };
    if t.has_top_cap() {
        lemma_cap_below(top_center, true, r, r);
    }
    if t.has_bottom_cap() {
        lemma_cap_below(bottom_center, false, r, r);
    }
    assert(all_below(part_top, total));
    assert(all_below(part_bottom, total));
    lemma_concat_below(part_torso, part_top, total);
    lemma_concat_below(part_torso + part_top, part_bottom, total);
}

/// Ring `ring` of the torso (ring `0` at the top, ring `height_segments` at the
/// bottom) is a single point: its end has radius zero.
pub open spec fn ring_is_point(t: CylinderTopology, ring: int) -> bool {
    (ring == 0 && !t.top_radius_positive) || (ring == t.height_segments && !t.bottom_radius_positive)
}

/// The number of the torso vertex at column `col` of ring `ring`, vertices
/// numbered from `s` ring by ring.
pub open spec fn grid_vertex(t: CylinderTopology, s: int, ring: int, col: int) -> u32 {
    (s + ring * (t.radial_segments + 1) + col) as u32
}

/// Torso quad `(y, x)` spans rings `y` and `y + 1` between columns `x` and
/// `x + 1`. Its upper triangle has two corners on ring `y` and its lower triangle
/// two on ring `y + 1`; a triangle is left out exactly when that ring is a single
/// point, where it would collapse, and is there otherwise, whatever the row.
pub proof fn law_torso_quad_triangles(t: CylinderTopology, s: int, x: int, y: int)
    requires
        0 <= x < t.radial_segments,
        0 <= y < t.height_segments,
    ensures
        torso_quad(t, s, x, y) == (if ring_is_point(t, y) {
            Seq::<u32>::empty()
        } else {
            seq![grid_vertex(t, s, y, x), grid_vertex(t, s, y + 1, x), grid_vertex(t, s, y, x + 1)]
        }) + (if ring_is_point(t, y + 1) {
            Seq::<u32>::empty()
        } else {
            seq![
                grid_vertex(t, s, y + 1, x),
                grid_vertex(t, s, y + 1, x + 1),
                grid_vertex(t, s, y, x + 1),
            ]
        }),
{
    let r1 = t.radial_segments + 1;
    assert((y + 1) * r1 == y * r1 + r1) by (nonlinear_arith);
}

/// The number of indices in the first `ys` quads of a torso column: two
/// triangles per quad, less one at a top ring that is a point and one at a
/// bottom ring that is a point.
pub open spec fn torso_column_len(t: CylinderTopology, ys: int) -> int {
    3 * (2 * ys - (if ys >= 1 && !t.top_radius_positive {
        1int
    } else {
        0int
    }) - (if ys == t.height_segments && ys >= 1 && !t.bottom_radius_positive {
        1int
    } else {
        0int
    }))
}

proof fn lemma_torso_column_len(t: CylinderTopology, s: int, x: int, ys: int)
    requires
        0 <= x < t.radial_segments,
        0 <= ys <= t.height_segments,
    ensures
        torso_column(t, s, x, ys).len() == torso_column_len(t, ys),
    decreases ys,
{
    if ys > 0 {
        lemma_torso_column_len(t, s, x, ys - 1);
        law_torso_quad_triangles(t, s, x, ys - 1);
    }
}

/// A torso of `h` rows and `r` columns has `2 h r` triangles, less `r` for each
/// end of radius zero.
pub proof fn law_torso_triangle_count(t: CylinderTopology, s: int)
    requires
        t.height_segments >= 1,
    ensures
        torso(t, s, t.radial_segments as int).len() == 3 * (2 * t.height_segments
            * t.radial_segments - (if t.top_radius_positive {
            0
        } else {
            t.radial_segments as int
        }) - (if t.bottom_radius_positive {
            0
        } else {
            t.radial_segments as int
        })),
{
    let l = torso_column_len(t, t.height_segments as int);
    lemma_torso_len(t, s, t.radial_segments as int, l);
    let h = t.height_segments as int;
    let r = t.radial_segments as int;
    let a: int = if t.top_radius_positive {
        0
    } else {
        1
    };
    let b: int = if t.bottom_radius_positive {
        0
    } else {
        1
    };
    assert(l == 3 * (2 * h - a - b));
    assert(r * (3 * (2 * h - a - b)) == 3 * (2 * h * r - a * r - b * r)) by (nonlinear_arith);
}

proof fn lemma_torso_len(t: CylinderTopology, s: int, xs: int, l: int)
    requires
        0 <= xs <= t.radial_segments,
        t.height_segments >= 1,
        l == torso_column_len(t, t.height_segments as int),
    ensures
        torso(t, s, xs).len() == xs * l,
    decreases xs,
{
    if xs > 0 {
        lemma_torso_len(t, s, xs - 1, l);
        lemma_torso_column_len(t, s, xs - 1, t.height_segments as int);
        assert(torso(t, s, xs) == torso(t, s, xs - 1) + torso_column(
            t,
            s,
            xs - 1,
            t.height_segments as int,
        ));
        assert((xs - 1) * l + l == xs * l) by (nonlinear_arith);
    } else {
        assert(xs * l == 0) by (nonlinear_arith)
            requires
                xs == 0,
        ;
    }
}

} // verus!
