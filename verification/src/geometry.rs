//! Triangle topology of the primitive meshes: which grid points form which triangles,
//! in which order and winding. Positions and normals of the grid points are computed by
//! the caller from the point's ring and segment.
use vstd::prelude::*;

verus! {

/// A point of a ring × segment grid (a sphere's latitude × longitude, a cylinder's
/// bottom/top × sector).
#[derive(Clone, Copy, Debug, PartialEq, Eq, Structural)]
pub struct GridCorner {
    pub ring: u32,
    pub segment: u32,
}

/// Corner `k` (0..6) of the two triangles of grid cell `(i, j)`. The counter-clockwise
/// order is `(i,j) (i,j+1) (i+1,j+1)` then `(i,j) (i+1,j+1) (i+1,j)`; `flipped` reverses
/// the winding to `(i,j) (i+1,j+1) (i,j+1)` then `(i,j) (i+1,j) (i+1,j+1)`.
pub open spec fn cell_corner(i: int, j: int, k: int, flipped: bool) -> GridCorner {
    let c00 = GridCorner { ring: i as u32, segment: j as u32 };
    let c10 = GridCorner { ring: i as u32, segment: (j + 1) as u32 };
    let c11 = GridCorner { ring: (i + 1) as u32, segment: (j + 1) as u32 };
    let c01 = GridCorner { ring: (i + 1) as u32, segment: j as u32 };
    if !flipped {
        if k == 0 {
            c00
        } else if k == 1 {
            c10
        } else if k == 2 {
            c11
        } else if k == 3 {
            c00
        } else if k == 4 {
            c11
        } else {
            c01
        }
    } else {
        if k == 0 {
            c00
        } else if k == 1 {
            c11
        } else if k == 2 {
            c10
        } else if k == 3 {
            c00
        } else if k == 4 {
            c01
        } else {
            c11
        }
    }
}

/// `corners` holds the two triangles of every cell of a `rings` × `segments` grid, ring by
/// ring and, within a ring, segment by segment.
pub open spec fn grid_triangles(corners: Seq<GridCorner>, rings: int, segments: int, flipped: bool) -> bool {
    &&& corners.len() == rings * segments * 6
    &&& forall|i: int, j: int, k: int|
        0 <= i < rings && 0 <= j < segments && 0 <= k < 6 ==> #[trigger] corners[(i * segments + j)
            * 6 + k] == cell_corner(i, j, k, flipped)
}

proof fn lemma_cell_index_bounds(i: int, j: int, k: int, rings: int, segments: int)
    requires
        0 <= i < rings,
        0 <= j < segments,
        0 <= k < 6,
    ensures
        0 <= (i * segments + j) * 6 + k < rings * segments * 6,
        (i * segments + j) * 6 + k == i * segments * 6 + j * 6 + k,
{
    assert(i * segments + j < rings * segments) by (nonlinear_arith)
        requires
            0 <= i < rings,
            0 <= j < segments,
    ;
    assert((i * segments + j) * 6 + k < rings * segments * 6) by (nonlinear_arith)
        requires
            i * segments + j < rings * segments,
            0 <= k < 6,
    ;
    assert(0 <= i * segments) by (nonlinear_arith)
        requires
            0 <= i,
            0 <= j < segments,
    ;
}

/// The triangles of a `rings` × `segments` grid, two per cell.
pub fn grid_cell_triangles(rings: u32, segments: u32, flipped: bool) -> (corners: Vec<GridCorner>)
    requires
        rings as int * segments as int * 6 <= usize::MAX,
    ensures
        grid_triangles(corners@, rings as int, segments as int, flipped),
{
    let mut corners: Vec<GridCorner> = Vec::new();
    let mut i: u32 = 0;
    while i < rings
        invariant
            i <= rings,
            rings as int * segments as int * 6 <= usize::MAX,
            corners@.len() == i * segments * 6,
            forall|i2: int, j: int, k: int|
                0 <= i2 < i && 0 <= j < segments && 0 <= k < 6 ==> #[trigger] corners@[(i2
                    * segments + j) * 6 + k] == cell_corner(i2, j, k, flipped),
        decreases rings - i,
    {
        let mut j: u32 = 0;
        while j < segments
            invariant
                i < rings,
                j <= segments,
                rings as int * segments as int * 6 <= usize::MAX,
                corners@.len() == i * segments * 6 + j * 6,
                forall|i2: int, j2: int, k: int|
                    0 <= i2 < i && 0 <= j2 < segments && 0 <= k < 6 ==> #[trigger] corners@[(i2
                        * segments + j2) * 6 + k] == cell_corner(i2, j2, k, flipped),
                forall|j2: int, k: int|
                    0 <= j2 < j && 0 <= k < 6 ==> #[trigger] corners@[(i * segments + j2) * 6 + k]
                        == cell_corner(i as int, j2, k, flipped),
            decreases segments - j,
        {
            let c00 = GridCorner { ring: i, segment: j };
            let c10 = GridCorner { ring: i, segment: j + 1 };
            let c11 = GridCorner { ring: i + 1, segment: j + 1 };
            let c01 = GridCorner { ring: i + 1, segment: j };
            let ghost before = corners@;
            if !flipped {
                corners.push(c00);
                corners.push(c10);
                corners.push(c11);
                corners.push(c00);
                corners.push(c11);
                corners.push(c01);
            } else {
                corners.push(c00);
                corners.push(c11);
                corners.push(c10);
                corners.push(c00);
                corners.push(c01);
                corners.push(c11);
            }
            proof {
                let base = i * segments * 6 + j * 6;
                assert(i * segments * 6 + j * 6 == (i * segments + j) * 6) by (nonlinear_arith);
                assert forall|k: int| 0 <= k < 6 implies #[trigger] corners@[(i * segments + j) * 6
                    + k] == cell_corner(i as int, j as int, k, flipped) by {
                    assert(corners@[base + k] == corners@[(i * segments + j) * 6 + k]);
                }
                assert forall|i2: int, j2: int, k: int|
                    0 <= i2 < i && 0 <= j2 < segments && 0 <= k < 6 implies #[trigger] corners@[(i2
                        * segments + j2) * 6 + k] == cell_corner(i2, j2, k, flipped) by {
                    lemma_cell_index_bounds(i2, j2, k, i as int, segments as int);
                    assert(corners@[(i2 * segments + j2) * 6 + k] == before[(i2 * segments + j2) * 6 + k]);
                }
                assert forall|j2: int, k: int| 0 <= j2 < j && 0 <= k < 6 implies #[trigger] corners@[(i
                    * segments + j2) * 6 + k] == cell_corner(i as int, j2, k, flipped) by {
                    assert((i * segments + j2) * 6 + k < base) by (nonlinear_arith)
                        requires
                            0 <= j2 < j,
                            0 <= k < 6,
                            base == (i * segments + j) * 6,
                    ;
                    assert(0 <= (i * segments + j2) * 6 + k) by (nonlinear_arith)
                        requires
                            0 <= j2,
                            0 <= k,
                            0 <= i,
                            0 <= segments,
                    ;
                }
            }
            j = j + 1;
        }
        proof {
            assert(i * segments * 6 + segments * 6 == (i + 1) * segments * 6) by (nonlinear_arith);
            assert forall|i2: int, j2: int, k: int|
                0 <= i2 < i + 1 && 0 <= j2 < segments && 0 <= k < 6 implies #[trigger] corners@[(i2
                    * segments + j2) * 6 + k] == cell_corner(i2, j2, k, flipped) by {
                if i2 < i {
                } else {
                    assert(i2 == i);
                }
            }
        }
        i = i + 1;
    }
    corners
}


/// `n`, but at least `lo`.
pub open spec fn at_least(n: u32, lo: u32) -> u32 {
    if n < lo {
        lo
    } else {
        n
    }
}

/// A UV sphere: `max(latitude_segments, 2)` rings from the south pole up, each of
/// `max(longitude_segments, 3)` segments, two counter-clockwise triangles per cell.
pub fn sphere_triangles(latitude_segments: u32, longitude_segments: u32) -> (corners: Vec<
    GridCorner,
>)
    requires
        at_least(latitude_segments, 2) as int * at_least(longitude_segments, 3) as int * 54
            <= usize::MAX,
    ensures
        grid_triangles(
            corners@,
            at_least(latitude_segments, 2) as int,
            at_least(longitude_segments, 3) as int,
            false,
        ),
{
    let lat = if latitude_segments < 2 {
        2
    } else {
        latitude_segments
    };
    let lon = if longitude_segments < 3 {
        3
    } else {
        longitude_segments
    };
    grid_cell_triangles(lat, lon, false)
}

proof fn lemma_grid_index_split(n: int, rings: int, segments: int) -> (ijk: (int, int, int))
    requires
        0 <= n < rings * segments * 6,
        0 <= rings,
        0 <= segments,
    ensures
        0 <= ijk.0 < rings,
        0 <= ijk.1 < segments,
        0 <= ijk.2 < 6,
        n == (ijk.0 * segments + ijk.1) * 6 + ijk.2,
{
    assert(segments > 0) by (nonlinear_arith)
        requires
            0 <= n < rings * segments * 6,
            0 <= rings,
            0 <= segments,
    ;
    let q = n / 6;
    let k = n % 6;
    let i = q / segments;
    let j = q % segments;
    vstd::arithmetic::div_mod::lemma_fundamental_div_mod(q, segments);
    vstd::arithmetic::div_mod::lemma_mod_pos_bound(q, segments);
    assert(0 <= i) by (nonlinear_arith)
        requires
            q == segments * i + j,
            0 <= j < segments,
            0 <= q,
    ;
    assert(i < rings) by (nonlinear_arith)
        requires
            q == segments * i + j,
            0 <= j < segments,
            q * 6 + k == n,
            0 <= k,
            n < rings * segments * 6,
    ;
    (i, j, k)
}

/// The two triangles per cell of a grid are the whole of `corners`: two sequences that
/// both list the triangles of the same grid are equal.
pub proof fn lemma_grid_triangles_unique(
    c1: Seq<GridCorner>,
    c2: Seq<GridCorner>,
    rings: int,
    segments: int,
    flipped: bool,
)
    requires
        0 <= rings,
        0 <= segments,
        grid_triangles(c1, rings, segments, flipped),
        grid_triangles(c2, rings, segments, flipped),
    ensures
        c1 == c2,
{
    assert forall|n: int| 0 <= n < c1.len() implies c1[n] == c2[n] by {
        let (i, j, k) = lemma_grid_index_split(n, rings, segments);
        assert(c1[(i * segments + j) * 6 + k] == cell_corner(i, j, k, flipped));
        assert(c2[(i * segments + j) * 6 + k] == cell_corner(i, j, k, flipped));
    }
    assert(c1 =~= c2);
}

/// A sphere asked for with fewer than 2 rings or 3 segments is the sphere with 2 rings
/// or 3 segments: `sphere_triangles(a, b)` and `sphere_triangles(max(a, 2), max(b, 3))`
/// give the same corners, `max(a, 2) * max(b, 3) * 6` of them.
pub proof fn lemma_sphere_triangles_clamped(
    latitude_segments: u32,
    longitude_segments: u32,
    c1: Seq<GridCorner>,
    c2: Seq<GridCorner>,
)
    requires
        grid_triangles(
            c1,
            at_least(latitude_segments, 2) as int,
            at_least(longitude_segments, 3) as int,
            false,
        ),
        grid_triangles(
            c2,
            at_least(at_least(latitude_segments, 2), 2) as int,
            at_least(at_least(longitude_segments, 3), 3) as int,
            false,
        ),
    ensures
        c1 == c2,
        c1.len() == at_least(latitude_segments, 2) as int * at_least(longitude_segments, 3) as int
            * 6,
{
    lemma_grid_triangles_unique(
        c1,
        c2,
        at_least(latitude_segments, 2) as int,
        at_least(longitude_segments, 3) as int,
        false,
    );
}

/// A hemisphere of a capsule: `max(latitude_rings, 1)` rings from the pole to the equator
/// (bottom) or from the equator to the pole (top), each of `max(longitude_segments, 3)`
/// segments; the top half has the opposite winding so that both face outwards.
pub fn hemisphere_triangles(latitude_rings: u32, longitude_segments: u32, bottom: bool) -> (corners:
    Vec<GridCorner>)
    requires
        at_least(latitude_rings, 1) as int * at_least(longitude_segments, 3) as int * 6
            <= usize::MAX,
    ensures
        grid_triangles(
            corners@,
            at_least(latitude_rings, 1) as int,
            at_least(longitude_segments, 3) as int,
            !bottom,
        ),
{
    let lat = if latitude_rings < 1 {
        1
    } else {
        latitude_rings
    };
    let lon = if longitude_segments < 3 {
        3
    } else {
        longitude_segments
    };
    grid_cell_triangles(lat, lon, !bottom)
}

/// The side of a cylinder: one ring (ring 0 at the bottom, 1 at the top) of
/// `max(sectors, 3)` sectors, two triangles per sector.
pub fn cylinder_side_triangles(sectors: u32) -> (corners: Vec<GridCorner>)
    requires
        at_least(sectors, 3) as int * 6 <= usize::MAX,
    ensures
        grid_triangles(corners@, 1, at_least(sectors, 3) as int, false),
{
    let nsec = if sectors < 3 {
        3
    } else {
        sectors
    };
    grid_cell_triangles(1, nsec, false)
}

/// Corner `k` (0..3) of the cap triangle of sector `j`: the center (`None`) then two rim
/// points; the bottom cap runs `j+1, j`, the top cap `j, j+1`, so both face outwards.
pub open spec fn fan_corner(j: int, k: int, top: bool) -> Option<u32> {
    if k == 0 {
        None
    } else if (k == 1) == top {
        Some(j as u32)
    } else {
        Some((j + 1) as u32)
    }
}

/// A flat cap of a cylinder as a fan of `max(sectors, 3)` triangles around the center.
pub fn cylinder_cap_triangles(sectors: u32, top: bool) -> (corners: Vec<Option<u32>>)
    requires
        at_least(sectors, 3) as int * 3 <= usize::MAX,
    ensures
        corners@.len() == at_least(sectors, 3) * 3,
        forall|j: int, k: int|
            0 <= j < at_least(sectors, 3) && 0 <= k < 3 ==> #[trigger] corners@[j * 3 + k]
                == fan_corner(j, k, top),
{
    let nsec = if sectors < 3 {
        3
    } else {
        sectors
    };
    let mut corners: Vec<Option<u32>> = Vec::new();
    let mut j: u32 = 0;
    while j < nsec
        invariant
            j <= nsec,
            nsec == at_least(sectors, 3),
            corners@.len() == j * 3,
            forall|j2: int, k: int|
                0 <= j2 < j && 0 <= k < 3 ==> #[trigger] corners@[j2 * 3 + k] == fan_corner(j2, k, top),
        decreases nsec - j,
    {
        corners.push(None);
        if top {
            corners.push(Some(j));
            corners.push(Some(j + 1));
        } else {
            corners.push(Some(j + 1));
            corners.push(Some(j));
        }
        j = j + 1;
    }
    corners
}

} // verus!
