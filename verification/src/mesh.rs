//! Mesh topology: which vertices the renderer's triangles join, for the
//! trail ribbons and the star's UV sphere. The renderer fills in positions,
//! colours and texture coordinates; the indices are decided here.

use vstd::prelude::*;

verus! {

/// Corner `k` (of six) of the two triangles bridging ribbon gap `g`, wound
/// counter-clockwise seen from above.
pub open spec fn ribbon_corner(g: int, k: int) -> int {
    let v = 2 * g;
    if k == 0 {
        v
    } else if k == 1 {
        v + 2
    } else if k == 2 {
        v + 3
    } else if k == 3 {
        v
    } else if k == 4 {
        v + 3
    } else {
        v + 1
    }
}

/// Vertices a ribbon of `n` points draws: two per point, or the three of a
/// collapsed triangle when it has no direction yet.
pub open spec fn ribbon_vertex_count(n: int) -> int {
    if n < 2 {
        3
    } else {
        2 * n
    }
}

/// The index buffer of a ribbon of `n` points: two triangles per gap between
/// neighbouring points, or a single degenerate triangle when there are fewer
/// than two points, so the mesh is never vertex-less.
pub fn ribbon_indices(n: usize) -> (idx: Vec<u32>)
    requires
        n >= 2 ==> 2 * n - 1 <= u32::MAX,
    ensures
        n < 2 ==> idx@ == seq![0u32, 1u32, 2u32],
        n >= 2 ==> idx@.len() == (n - 1) * 6,
        n >= 2 ==> forall|g: int, k: int|
            0 <= g < n - 1 && 0 <= k < 6 ==> #[trigger] idx@[g * 6 + k] == ribbon_corner(g, k),
{
    if n < 2 {
        let idx = vec![0u32, 1u32, 2u32];
        proof {
            assert(idx@ =~= seq![0u32, 1u32, 2u32]);
        }
        return idx;
    }
    let mut idx: Vec<u32> = Vec::new();
    let mut i: usize = 0;
    while i < n - 1
        invariant
            2 <= n,
            2 * n - 1 <= u32::MAX,
            i <= n - 1,
            idx@.len() == i * 6,
            forall|g: int, k: int|
                0 <= g < i && 0 <= k < 6 ==> #[trigger] idx@[g * 6 + k] == ribbon_corner(g, k),
        decreases n - 1 - i,
    {
        let v = (i * 2) as u32;
        let ghost before = idx@;
        idx.push(v);
        idx.push(v + 2);
        idx.push(v + 3);
        idx.push(v);
        idx.push(v + 3);
        idx.push(v + 1);
        proof {
            assert forall|g: int, k: int|
                0 <= g < i + 1 && 0 <= k < 6 implies #[trigger] idx@[g * 6 + k] == ribbon_corner(
                g,
                k,
            ) by {
                if g < i {
                    assert(g * 6 + k < i * 6) by (nonlinear_arith)
                        requires
                            g < i,
                            k < 6,
                    ;
                    assert(idx@[g * 6 + k] == before[g * 6 + k]);
                } else {
                    assert(g * 6 + k == i * 6 + k);
                }
            }
        }
        i = i + 1;
    }
    idx
}

/// Every index a ribbon's buffer holds names one of the vertices it draws.
pub proof fn law_ribbon_indices_in_range(n: int, g: int, k: int)
    requires
        n >= 2,
        0 <= g < n - 1,
        0 <= k < 6,
    ensures
        0 <= ribbon_corner(g, k) < ribbon_vertex_count(n),
{
}

/// The sphere's resolution as drawn: at least eight segments round and four
/// from pole to pole.
pub open spec fn sphere_longitudes(longitude_segments: u32) -> int {
    if longitude_segments > 8 {
        longitude_segments as int
    } else {
        8
    }
}

pub open spec fn sphere_latitudes(latitude_segments: u32) -> int {
    if latitude_segments > 4 {
        latitude_segments as int
    } else {
        4
    }
}

/// Corner `k` (of six) of the two triangles of sphere quad (`lat`, `lon`), in
/// a grid `stride` vertices wide.
pub open spec fn sphere_corner(stride: int, lat: int, lon: int, k: int) -> int {
    let a = lat * stride + lon;
    let b = a + stride;
    if k == 0 {
        a
    } else if k == 1 {
        b
    } else if k == 2 {
        a + 1
    } else if k == 3 {
        a + 1
    } else if k == 4 {
        b
    } else {
        b + 1
    }
}

proof fn lemma_sphere_quad_bounds(longs: int, lats: int, q: int, r: int)
    by (nonlinear_arith)
    requires
        0 <= q < lats,
        0 <= r < longs,
    ensures
        0 <= q * longs + r,
        (q * longs + r) * 6 + 6 <= lats * longs * 6,
        0 <= q * (longs + 1) + r,
        (q + 1) * (longs + 1) + r + 1 <= (lats + 1) * (longs + 1) - 1,
        q * (longs + 1) + r + (longs + 1) == (q + 1) * (longs + 1) + r,
{
}

/// The index buffer of a UV sphere: two triangles per quad of the
/// latitude/longitude grid, quads in row order.
pub fn uv_sphere_indices(longitude_segments: u32, latitude_segments: u32) -> (idx: Vec<u32>)
    requires
        (sphere_longitudes(longitude_segments) + 1) * (sphere_latitudes(latitude_segments) + 1)
            <= u32::MAX,
    ensures
        idx@.len() == sphere_longitudes(longitude_segments) * sphere_latitudes(latitude_segments)
            * 6,
        forall|q: int, r: int, k: int|
            0 <= q < sphere_latitudes(latitude_segments) && 0 <= r < sphere_longitudes(
                longitude_segments,
            ) && 0 <= k < 6 ==> #[trigger] idx@[(q * sphere_longitudes(longitude_segments) + r) * 6
                + k] == sphere_corner(sphere_longitudes(longitude_segments) + 1, q, r, k),
{
    let longitudes: u32 = if longitude_segments > 8 {
        longitude_segments
    } else {
        8
    };
    let latitudes: u32 = if latitude_segments > 4 {
        latitude_segments
    } else {
        4
    };
    let ghost longs = longitudes as int;
    let ghost lats = latitudes as int;
    proof {
        assert((longs + 1) * (lats + 1) == longs * lats + longs + lats + 1) by (nonlinear_arith);
    }
    let stride = longitudes + 1;
    let mut idx: Vec<u32> = Vec::new();
    let mut lat: u32 = 0;
    while lat < latitudes
        invariant
            longs == longitudes,
            lats == latitudes,
            stride == longitudes + 1,
            longs >= 8,
            lats >= 4,
            (longs + 1) * (lats + 1) <= u32::MAX,
            lat <= latitudes,
            idx@.len() == lat * longs * 6,
            forall|q: int, r: int, k: int|
                0 <= q < lat && 0 <= r < longs && 0 <= k < 6 ==> #[trigger] idx@[(q * longs + r) * 6
                    + k] == sphere_corner(longs + 1, q, r, k),
        decreases latitudes - lat,
    {
        let mut lon: u32 = 0;
        while lon < longitudes
            invariant
                longs == longitudes,
                lats == latitudes,
                stride == longitudes + 1,
                longs >= 8,
                lats >= 4,
                (longs + 1) * (lats + 1) <= u32::MAX,
                lat < latitudes,
                lon <= longitudes,
                idx@.len() == (lat * longs + lon) * 6,
                forall|q: int, r: int, k: int|
                    0 <= r < longs && 0 <= k < 6 && 0 <= q && (q < lat || (q == lat && r < lon))
                        ==> #[trigger] idx@[(q * longs + r) * 6 + k] == sphere_corner(
                        longs + 1,
                        q,
                        r,
                        k,
                    ),
            decreases longitudes - lon,
        {
            proof {
                lemma_sphere_quad_bounds(longs, lats, lat as int, lon as int);
            }
            let a = lat * stride + lon;
            let b = a + stride;
            let ghost before = idx@;
            idx.push(a);
            idx.push(b);
            idx.push(a + 1);
            idx.push(a + 1);
            idx.push(b);
            idx.push(b + 1);
            proof {
                assert forall|q: int, r: int, k: int|
                    0 <= r < longs && 0 <= k < 6 && 0 <= q && (q < lat || (q == lat && r < lon + 1))
                        implies #[trigger] idx@[(q * longs + r) * 6 + k] == sphere_corner(
                        longs + 1,
                        q,
                        r,
                        k,
                    ) by {
                    if q == lat && r == lon {
                        assert((q * longs + r) * 6 + k == before.len() + k);
                    } else {
                        assert((q * longs + r) * 6 + k < (lat * longs + lon) * 6) by (nonlinear_arith)
                            requires
                                0 <= r < longs,
                                0 <= k < 6,
                                0 <= q,
                                q < lat || (q == lat && r < lon),
                        ;
                        assert(idx@[(q * longs + r) * 6 + k] == before[(q * longs + r) * 6 + k]);
                    }
                }
            }
            lon = lon + 1;
        }
        proof {
            assert((lat * longs + longs) * 6 == (lat + 1) * longs * 6) by (nonlinear_arith);
        }
        lat = lat + 1;
    }
    proof {
        assert(lats * longs * 6 == longs * lats * 6) by (nonlinear_arith);
    }
    idx
}

/// Every index a sphere's buffer holds names one of its
/// `(longitudes + 1) * (latitudes + 1)` vertices.
pub proof fn law_sphere_indices_in_range(longs: int, lats: int, q: int, r: int, k: int)
    requires
        0 <= q < lats,
        0 <= r < longs,
        0 <= k < 6,
    ensures
        0 <= sphere_corner(longs + 1, q, r, k) < (longs + 1) * (lats + 1),
{
    lemma_sphere_quad_bounds(longs, lats, q, r);
    assert((q + 1) * (longs + 1) + r + 1 <= (lats + 1) * (longs + 1) - 1);
    assert((lats + 1) * (longs + 1) == (longs + 1) * (lats + 1)) by (nonlinear_arith);
}

} // verus!
