use vstd::prelude::*;

verus! {

/// Too few segments were asked for.
#[derive(Debug, Clone, Copy, PartialEq, Eq, Structural)]
pub struct NotEnoughSegmentsError {
    pub min: usize,
    pub actual: usize,
}

/// The segment counts of a sphere: the part of a sphere builder that decides its
/// vertex grid and triangles.
#[derive(Debug, Clone, Copy, PartialEq, Eq, Structural)]
pub struct SphereGrid {
    width_segments: usize,
    height_segments: usize,
}

/// Vertex number of grid point `(y, x)` in a grid `w + 1` points wide.
pub open spec fn grid_vertex(w: int, y: int, x: int) -> int {
    y * (w + 1) + x
}

/// The triangles of quad `(y, x)`: the upper one unless it collapses at the top
/// pole, the lower one unless it collapses at the bottom pole.
pub open spec fn sphere_quad(w: int, h: int, y: int, x: int, top_cut: bool, bottom_cut: bool) -> Seq<
    u32,
> {
    let a = grid_vertex(w, y, x + 1) as u32;
    let b = grid_vertex(w, y, x) as u32;
    let c = grid_vertex(w, y + 1, x) as u32;
    let d = grid_vertex(w, y + 1, x + 1) as u32;
    let upper = if y != 0 || top_cut {
        seq![a, b, d]
    } else {
        Seq::empty()
    };
    let lower = if y != h - 1 || bottom_cut {
        seq![b, c, d]
    } else {
        Seq::empty()
    };
    upper + lower
}

/// The triangles of the first `xs` quads of row `y`.
pub open spec fn sphere_row(w: int, h: int, y: int, xs: int, top_cut: bool, bottom_cut: bool) -> Seq<
    u32,
>
    decreases xs,
{
    if xs <= 0 {
        Seq::empty()
    } else {
        sphere_row(w, h, y, xs - 1, top_cut, bottom_cut) + sphere_quad(
            w,
            h,
            y,
            xs - 1,
            top_cut,
            bottom_cut,
        )
    }
}

/// The triangles of the first `ys` rows.
pub open spec fn sphere_rows(w: int, h: int, ys: int, top_cut: bool, bottom_cut: bool) -> Seq<u32>
    decreases ys,
{
    if ys <= 0 {
        Seq::empty()
    } else {
        sphere_rows(w, h, ys - 1, top_cut, bottom_cut) + sphere_row(
            w,
            h,
            ys - 1,
            w,
            top_cut,
            bottom_cut,
        )
    }
}

impl SphereGrid {
    /// At least three horizontal and two vertical segments.
    pub open spec fn wf(&self) -> bool {
        self.width() >= 3 && self.height() >= 2
    }

    /// Number of horizontal segments.
    pub closed spec fn width(&self) -> usize {
        self.width_segments
    }

    /// Number of vertical segments.
    pub closed spec fn height(&self) -> usize {
        self.height_segments
    }

    /// Thirty-two horizontal and sixteen vertical segments.
    pub fn new() -> (r: Self)
        ensures
            r.width() == 32,
            r.height() == 16,
            r.wf(),
    {
        SphereGrid { width_segments: 32, height_segments: 16 }
    }

    /// A grid with the given segment counts, raised to three horizontal and two
    /// vertical segments where fewer are asked for.
    pub fn raised(width_segments: usize, height_segments: usize) -> (r: Self)
        ensures
            r.width() == if width_segments < 3 {
                3
            } else {
                width_segments
            },
            r.height() == if height_segments < 2 {
                2
            } else {
                height_segments
            },
            r.wf(),
    {
        let width_segments = if width_segments < 3 {
            3
        } else {
            width_segments
        };
        let height_segments = if height_segments < 2 {
            2
        } else {
            height_segments
        };
        SphereGrid { width_segments, height_segments }
    }

    /// Number of horizontal segments.
    pub fn width_segments(&self) -> (r: usize)
        ensures
            r == self.width(),
    {
        self.width_segments
    }

    /// Number of vertical segments.
    pub fn height_segments(&self) -> (r: usize)
        ensures
            r == self.height(),
    {
        self.height_segments
    }

    /// Sets the number of horizontal segments, which must be at least three.
    pub fn with_width_segments(self, width_segments: usize) -> (r: Result<
        Self,
        NotEnoughSegmentsError,
    >)
        ensures
            width_segments < 3 ==> r == Err::<Self, NotEnoughSegmentsError>(
                NotEnoughSegmentsError { min: 3, actual: width_segments },
            ),
            width_segments >= 3 ==> (r matches Ok(g) && g.width() == width_segments && g.height()
                == self.height()),
    {
        if width_segments < 3 {
            return Err(NotEnoughSegmentsError { min: 3, actual: width_segments });
        }
        Ok(SphereGrid { width_segments, ..self })
    }

    /// Sets the number of vertical segments, which must be at least two.
    pub fn with_height_segments(self, height_segments: usize) -> (r: Result<
        Self,
        NotEnoughSegmentsError,
    >)
        ensures
            height_segments < 2 ==> r == Err::<Self, NotEnoughSegmentsError>(
                NotEnoughSegmentsError { min: 2, actual: height_segments },
            ),
            height_segments >= 2 ==> (r matches Ok(g) && g.height() == height_segments && g.width()
                == self.width()),
    {
        if height_segments < 2 {
            return Err(NotEnoughSegmentsError { min: 2, actual: height_segments });
        }
        Ok(SphereGrid { height_segments, ..self })
    }

    /// The grid fits: its vertices can be numbered in 32 bits and six indices per
    /// vertex can be counted.
    pub open spec fn fits(&self) -> bool {
        &&& (self.height() + 1) * (self.width() + 1) <= u32::MAX
        &&& 6 * ((self.height() + 1) * (self.width() + 1)) <= usize::MAX
    }

    /// Number of vertices: one per grid point.
    pub fn vertex_count(&self) -> (r: usize)
        requires
            self.fits(),
        ensures
            r == (self.height() + 1) * (self.width() + 1),
    {
        let h = self.height_segments;
        let w = self.width_segments;
        proof {
            assert(h + 1 <= (h + 1) * (w + 1)) by (nonlinear_arith);
            assert(w + 1 <= (h + 1) * (w + 1)) by (nonlinear_arith);
        }
        (h + 1) * (w + 1)
    }

    /// The number of indices of the triangles: two per quad, except the
    /// triangles that collapse at a pole that is not cut away.
    pub open spec fn spec_index_count(&self, top_cut: bool, bottom_cut: bool) -> int {
        let w = self.width() as int;
        let h = self.height() as int;
        (h - 1) * w * 6 + (if top_cut {
            w * 3
        } else {
            0
        }) + (if bottom_cut {
            w * 3
        } else {
            0
        })
    }

    /// The number of indices of the triangles; `top_cut` says that the sphere
    /// starts below its top pole, `bottom_cut` that it ends above its bottom pole.
    pub fn index_count(&self, top_cut: bool, bottom_cut: bool) -> (r: usize)
        requires
            self.wf(),
            self.fits(),
        ensures
            r == self.spec_index_count(top_cut, bottom_cut),
    {
        let w = self.width_segments;
        let h = self.height_segments;
        proof {
            assert((h - 1) * w * 6 + w * 6 <= 6 * ((h + 1) * (w + 1))) by (nonlinear_arith)
                requires
                    h >= 2,
                    w >= 3,
            ;
            assert((h - 1) * w <= (h - 1) * w * 6) by (nonlinear_arith)
                requires
                    h >= 2,
                    w >= 3,
            ;
            assert(h - 1 <= (h - 1) * w) by (nonlinear_arith)
                requires
                    h >= 2,
                    w >= 3,
            ;
        }
        let mut count = (h - 1) * w * 6;
        if top_cut {
            count = count + w * 3;
        }
        if bottom_cut {
            count = count + w * 3;
        }
        count
    }

    /// The triangles of the sphere, row by row and quad by quad.
    pub fn indices(&self, top_cut: bool, bottom_cut: bool) -> (r: Vec<u32>)
        requires
            self.wf(),
            self.fits(),
        ensures
            r@ == sphere_rows(
                self.width() as int,
                self.height() as int,
                self.height() as int,
                top_cut,
                bottom_cut,
            ),
    {
        let w = self.width_segments;
        let h = self.height_segments;
        let ghost wi = w as int;
        let ghost hi = h as int;
        let mut indices: Vec<u32> = Vec::new();
        let mut y: usize = 0;
        while y < h
            invariant
                w == self.width(),
                h == self.height(),
                wi == w,
                hi == h,
                (h + 1) * (w + 1) <= u32::MAX,
                y <= h,
                indices@ == sphere_rows(wi, hi, y as int, top_cut, bottom_cut),
            decreases h - y,
        {
            let mut x: usize = 0;
            while x < w
                invariant
                    w == self.width(),
                    h == self.height(),
                    wi == w,
                    hi == h,
                    (h + 1) * (w + 1) <= u32::MAX,
                    y < h,
                    x <= w,
                    indices@ == sphere_rows(wi, hi, y as int, top_cut, bottom_cut) + sphere_row(
                        wi,
                        hi,
                        y as int,
                        x as int,
                        top_cut,
                        bottom_cut,
                    ),
                decreases w - x,
            {
                proof {
                    lemma_quad_vertices_fit(wi, hi, y as int, x as int);
                }
                let row = y * (w + 1);
                let next_row = row + (w + 1);
                let a = (row + x + 1) as u32;
                let b = (row + x) as u32;
                let c = (next_row + x) as u32;
                let d = (next_row + x + 1) as u32;
                let ghost before = indices@;
                push_quad(&mut indices, a, b, c, d, y != 0 || top_cut, y != h - 1 || bottom_cut);
                proof {
                    assert(sphere_row(wi, hi, y as int, x + 1, top_cut, bottom_cut) == sphere_row(
                        wi,
                        hi,
                        y as int,
                        x as int,
                        top_cut,
                        bottom_cut,
                    ) + sphere_quad(wi, hi, y as int, x as int, top_cut, bottom_cut));
                }
                x = x + 1;
            }
            y = y + 1;
        }
        indices
    }
}

/// Appends the upper triangle `a b d` and the lower triangle `b c d` of a quad,
/// each when asked for.
fn push_quad(indices: &mut Vec<u32>, a: u32, b: u32, c: u32, d: u32, upper: bool, lower: bool)
    ensures
        final(indices)@ == old(indices)@ + (if upper {
            seq![a, b, d]
        } else {
            Seq::empty()
        }) + (if lower {
            seq![b, c, d]
        } else {
            Seq::empty()
        }),
{
    if upper {
        indices.push(a);
        indices.push(b);
        indices.push(d);
    }
    if lower {
        indices.push(b);
        indices.push(c);
        indices.push(d);
    }
    assert(final(indices)@ =~= old(indices)@ + (if upper {
        seq![a, b, d]
    } else {
        Seq::empty()
    }) + (if lower {
        seq![b, c, d]
    } else {
        Seq::empty()
    }));
}

/// Proves that the vertex numbers of quad `(y, x)` fit the grid and 32 bits.
proof fn lemma_quad_vertices_fit(w: int, h: int, y: int, x: int)
    requires
        0 <= y < h,
        0 <= x < w,
        (h + 1) * (w + 1) <= u32::MAX,
    ensures
        0 <= y * (w + 1),
        y * (w + 1) + (w + 1) == (y + 1) * (w + 1),
        (y + 1) * (w + 1) + x + 1 < (h + 1) * (w + 1),
        (y + 1) * (w + 1) + x + 1 <= u32::MAX,
{
    assert((y + 1) * (w + 1) <= h * (w + 1)) by (nonlinear_arith)
        requires
            y + 1 <= h,
            w >= 0,
    ;
    assert(h * (w + 1) + (w + 1) == (h + 1) * (w + 1)) by (nonlinear_arith);
    assert(y * (w + 1) + (w + 1) == (y + 1) * (w + 1)) by (nonlinear_arith);
    assert(0 <= y * (w + 1)) by (nonlinear_arith)
        requires
            y >= 0,
            w >= 0,
    ;
}

/// Proves that the triangles of the sphere hold as many indices as
/// [`SphereGrid::index_count`] says.
pub proof fn law_sphere_index_count(g: SphereGrid, top_cut: bool, bottom_cut: bool)
    requires
        g.wf(),
    ensures
        sphere_rows(g.width() as int, g.height() as int, g.height() as int, top_cut, bottom_cut).len()
            == g.spec_index_count(top_cut, bottom_cut),
{
    let w = g.width() as int;
    let h = g.height() as int;
    lemma_rows_len(w, h, h, top_cut, bottom_cut);
    assert((h - 1) * w * 6 == 6 * w * h - 6 * w) by (nonlinear_arith);
    assert(rows_len(w, h, h, top_cut, bottom_cut) == g.spec_index_count(top_cut, bottom_cut));
}

/// The number of indices of a row of `w` quads.
pub open spec fn row_len(w: int, h: int, y: int, top_cut: bool, bottom_cut: bool) -> int {
    3 * w * ((if y != 0 || top_cut {
        1int
    } else {
        0
    }) + (if y != h - 1 || bottom_cut {
        1int
    } else {
        0
    }))
}

proof fn lemma_row_len(w: int, h: int, y: int, xs: int, top_cut: bool, bottom_cut: bool)
    requires
        0 <= xs,
    ensures
        sphere_row(w, h, y, xs, top_cut, bottom_cut).len() == row_len(xs, h, y, top_cut, bottom_cut),
    decreases xs,
{
    if xs > 0 {
        lemma_row_len(w, h, y, xs - 1, top_cut, bottom_cut);
        let k = (if y != 0 || top_cut {
            1int
        } else {
            0
        }) + (if y != h - 1 || bottom_cut {
            1int
        } else {
            0
        });
        assert(3 * (xs - 1) * k + 3 * k == 3 * xs * k) by (nonlinear_arith);
        assert(sphere_quad(w, h, y, xs - 1, top_cut, bottom_cut).len() == 3 * k);
        assert(row_len(xs, h, y, top_cut, bottom_cut) == 3 * xs * k);
        assert(row_len(xs - 1, h, y, top_cut, bottom_cut) == 3 * (xs - 1) * k);
        assert(sphere_row(w, h, y, xs, top_cut, bottom_cut) == sphere_row(
            w,
            h,
            y,
            xs - 1,
            top_cut,
            bottom_cut,
        ) + sphere_quad(w, h, y, xs - 1, top_cut, bottom_cut));
    } else {
        assert(row_len(0, h, y, top_cut, bottom_cut) == 0) by (nonlinear_arith);
    }
}

/// Length of the triangles of the first `ys` rows of a grid of height `h`.
pub open spec fn rows_len(w: int, h: int, ys: int, top_cut: bool, bottom_cut: bool) -> int {
    6 * w * ys - (if !top_cut && ys >= 1 {
        3 * w
    } else {
        0
    }) - (if !bottom_cut && ys >= h {
        3 * w
    } else {
        0
    })
}

proof fn lemma_rows_len(w: int, h: int, ys: int, top_cut: bool, bottom_cut: bool)
    requires
        0 <= ys <= h,
        h >= 2,
        w >= 0,
    ensures
        sphere_rows(w, h, ys, top_cut, bottom_cut).len() == rows_len(w, h, ys, top_cut, bottom_cut),
    decreases ys,
{
    if ys > 0 {
        lemma_rows_len(w, h, ys - 1, top_cut, bottom_cut);
        lemma_row_len(w, h, ys - 1, w, top_cut, bottom_cut);
        let y = ys - 1;
        let upper = if y != 0 || top_cut {
            1int
        } else {
            0
        };
        let lower = if y != h - 1 || bottom_cut {
            1int
        } else {
            0
        };
        assert(row_len(w, h, y, top_cut, bottom_cut) == 3 * w * (upper + lower));
        assert(3 * w * (upper + lower) == 3 * w * upper + 3 * w * lower) by (nonlinear_arith);
        assert(6 * w * ys == 6 * w * y + 6 * w) by (nonlinear_arith)
            requires
                y == ys - 1,
        ;
        if upper == 1 {
            assert(3 * w * upper == 3 * w);
        } else {
            assert(3 * w * upper == 0);
        }
        if lower == 1 {
            assert(3 * w * lower == 3 * w);
        } else {
            assert(3 * w * lower == 0);
        }
        assert(sphere_rows(w, h, ys, top_cut, bottom_cut).len() == sphere_rows(
            w,
            h,
            y,
            top_cut,
            bottom_cut,
        ).len() + sphere_row(w, h, y, w, top_cut, bottom_cut).len());
    }
}

/// Proves that every index of the sphere's triangles names one of its vertices.
pub proof fn law_sphere_indices_in_range(g: SphereGrid, top_cut: bool, bottom_cut: bool, i: int)
    requires
        g.wf(),
        g.fits(),
        0 <= i < sphere_rows(
            g.width() as int,
            g.height() as int,
            g.height() as int,
            top_cut,
            bottom_cut,
        ).len(),
    ensures
        sphere_rows(g.width() as int, g.height() as int, g.height() as int, top_cut, bottom_cut)[i]
            < (g.height() + 1) * (g.width() + 1),
{
    lemma_rows_bounded(g.width() as int, g.height() as int, g.height() as int, top_cut, bottom_cut);
}

proof fn lemma_quad_bounded(w: int, h: int, y: int, x: int, top_cut: bool, bottom_cut: bool)
    requires
        0 <= y < h,
        0 <= x < w,
        (h + 1) * (w + 1) <= u32::MAX,
    ensures
        forall|i: int|
            0 <= i < sphere_quad(w, h, y, x, top_cut, bottom_cut).len() ==> #[trigger] sphere_quad(
                w,
                h,
                y,
                x,
                top_cut,
                bottom_cut,
            )[i] < (h + 1) * (w + 1),
{
    lemma_quad_vertices_fit(w, h, y, x);
    let bound = (h + 1) * (w + 1);
    let a = grid_vertex(w, y, x + 1) as u32;
    let b = grid_vertex(w, y, x) as u32;
    let c = grid_vertex(w, y + 1, x) as u32;
    let d = grid_vertex(w, y + 1, x + 1) as u32;
    assert(a < bound && b < bound && c < bound && d < bound);
    let upper = if y != 0 || top_cut {
        seq![a, b, d]
    } else {
        Seq::empty()
    };
    let lower = if y != h - 1 || bottom_cut {
        seq![b, c, d]
    } else {
        Seq::empty()
    };
    assert forall|i: int| 0 <= i < (upper + lower).len() implies #[trigger] (upper + lower)[i]
        < bound by {
        if i < upper.len() {
            assert((upper + lower)[i] == upper[i]);
        } else {
            assert((upper + lower)[i] == lower[i - upper.len()]);
        }
    }
}

proof fn lemma_row_bounded(w: int, h: int, y: int, xs: int, top_cut: bool, bottom_cut: bool)
    requires
        w >= 0,
        0 <= y < h,
        0 <= xs <= w,
        (h + 1) * (w + 1) <= u32::MAX,
    ensures
        forall|i: int|
            0 <= i < sphere_row(w, h, y, xs, top_cut, bottom_cut).len() ==> #[trigger] sphere_row(
                w,
                h,
                y,
                xs,
                top_cut,
                bottom_cut,
            )[i] < (h + 1) * (w + 1),
    decreases xs,
{
    if xs > 0 {
        lemma_row_bounded(w, h, y, xs - 1, top_cut, bottom_cut);
        lemma_quad_bounded(w, h, y, xs - 1, top_cut, bottom_cut);
        let a = sphere_row(w, h, y, xs - 1, top_cut, bottom_cut);
        let b = sphere_quad(w, h, y, xs - 1, top_cut, bottom_cut);
        assert forall|i: int| 0 <= i < (a + b).len() implies #[trigger] (a + b)[i] < (h + 1) * (w
            + 1) by {
            if i < a.len() {
                assert((a + b)[i] == a[i]);
            } else {
                assert((a + b)[i] == b[i - a.len()]);
            }
        }
    }
}

proof fn lemma_rows_bounded(w: int, h: int, ys: int, top_cut: bool, bottom_cut: bool)
    requires
        w >= 0,
        0 <= ys <= h,
        (h + 1) * (w + 1) <= u32::MAX,
    ensures
        forall|i: int|
            0 <= i < sphere_rows(w, h, ys, top_cut, bottom_cut).len() ==> #[trigger] sphere_rows(
                w,
                h,
                ys,
                top_cut,
                bottom_cut,
            )[i] < (h + 1) * (w + 1),
    decreases ys,
{
    if ys > 0 {
        lemma_rows_bounded(w, h, ys - 1, top_cut, bottom_cut);
        lemma_row_bounded(w, h, ys - 1, w, top_cut, bottom_cut);
        let a = sphere_rows(w, h, ys - 1, top_cut, bottom_cut);
        let b = sphere_row(w, h, ys - 1, w, top_cut, bottom_cut);
        assert forall|i: int| 0 <= i < (a + b).len() implies #[trigger] (a + b)[i] < (h + 1) * (w
            + 1) by {
            if i < a.len() {
                assert((a + b)[i] == a[i]);
            } else {
                assert((a + b)[i] == b[i - a.len()]);
            }
        }
    }
}

/// Ring `ring` of a sphere grid of `h` rows (ring `0` at the top, ring `h` at
/// the bottom) is a pole: that end of the sphere is not cut away.
pub open spec fn ring_is_pole(h: int, ring: int, top_cut: bool, bottom_cut: bool) -> bool {
    (ring == 0 && !top_cut) || (ring == h && !bottom_cut)
}

/// Quad `(y, x)` spans rings `y` and `y + 1` between columns `x` and `x + 1`. Its
/// upper triangle has two corners on ring `y` and its lower triangle two on ring
/// `y + 1`; a triangle is left out exactly when that ring is a pole, where it
/// would collapse, and is there otherwise, whatever the row.
pub proof fn law_sphere_quad_triangles(
    w: int,
    h: int,
    y: int,
    x: int,
    top_cut: bool,
    bottom_cut: bool,
)
    requires
        0 <= x < w,
        0 <= y < h,
    ensures
        sphere_quad(w, h, y, x, top_cut, bottom_cut) == (if ring_is_pole(h, y, top_cut, bottom_cut) {
            Seq::<u32>::empty()
        } else {
            seq![
                grid_vertex(w, y, x + 1) as u32,
                grid_vertex(w, y, x) as u32,
                grid_vertex(w, y + 1, x + 1) as u32,
            ]
        }) + (if ring_is_pole(h, y + 1, top_cut, bottom_cut) {
            Seq::<u32>::empty()
        } else {
            seq![
                grid_vertex(w, y, x) as u32,
                grid_vertex(w, y + 1, x) as u32,
                grid_vertex(w, y + 1, x + 1) as u32,
            ]
        }),
{
}

} // verus!
