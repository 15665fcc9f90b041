//! A triangle soup: parallel vertex data plus one index triple and one cut-cap tag per triangle.
//!
//! The vertex payload is a type parameter. The soup's own business is topology: which vertices a
//! triangle names, that every name is in range, and which triangles are cut faces (`true`) rather
//! than the subject's original skin (`false`).

use vstd::prelude::*;

verus! {

/// All three corners of `t` name a vertex below `n`.
pub open spec fn tri_in_range(t: [u32; 3], n: int) -> bool {
    &&& t[0] < n
    &&& t[1] < n
    &&& t[2] < n
}

/// `t` with every corner moved up by `base`.
pub open spec fn offset_tri(t: [u32; 3], base: int) -> [u32; 3] {
    [(t[0] + base) as u32, (t[1] + base) as u32, (t[2] + base) as u32]
}

/// The triangles of `tris` whose corners all name one of `n` vertices, in order, each moved up by
/// `base`: what survives of a block of triangles appended after `base` existing vertices.
pub open spec fn kept_offset(tris: Seq<[u32; 3]>, n: int, base: int) -> Seq<[u32; 3]>
    decreases tris.len(),
{
    if tris.len() == 0 {
        Seq::empty()
    } else {
        let rest = kept_offset(tris.drop_last(), n, base);
        if tri_in_range(tris.last(), n) {
            rest.push(offset_tri(tris.last(), base))
        } else {
            rest
        }
    }
}

/// The triangle made of three fresh consecutive vertices starting at `first`.
pub open spec fn fresh_tri(first: int) -> [u32; 3] {
    [first as u32, (first + 1) as u32, (first + 2) as u32]
}

/// The vertices that fanning `poly` from its first point emits, three per triangle:
/// triangle `k` is `poly[0], poly[k + 1], poly[k + 2]`.
pub open spec fn fan_vertices<V>(poly: Seq<V>) -> Seq<V> {
    let count = if poly.len() >= 3 { poly.len() - 2 } else { 0 };
    Seq::new(
        (3 * count) as nat,
        |k: int|
            if k % 3 == 0 {
                poly[0]
            } else if k % 3 == 1 {
                poly[k / 3 + 1]
            } else {
                poly[k / 3 + 2]
            },
    )
}

/// Number of triangles a fan over `n` polygon points emits.
pub open spec fn fan_count(n: int) -> int {
    if n >= 3 {
        n - 2
    } else {
        0
    }
}

/// A triangle soup over vertex payload `V`.
///
/// `idx[t]` names the three vertices of triangle `t`; `tri_interior[t]` is `true` for a cut face
/// and `false` for the subject's own surface. See [`Soup::wf`] for what every method keeps.
#[derive(Clone)]
pub struct Soup<V> {
    pub verts: Vec<V>,
    pub idx: Vec<[u32; 3]>,
    pub tri_interior: Vec<bool>,
}

impl<V> Soup<V> {
    /// One tag per triangle, and every index names an existing vertex.
    pub open spec fn wf(&self) -> bool {
        &&& self.idx.len() == self.tri_interior.len()
        &&& forall|t: int|
            0 <= t < self.idx.len() ==> tri_in_range(#[trigger] self.idx@[t], self.verts.len() as int)
    }

    /// Corner `j` of triangle `t`, as a vertex.
    pub open spec fn corner(&self, t: int, j: int) -> V {
        self.verts@[self.idx@[t][j] as int]
    }

    /// The empty soup.
    pub fn new() -> (s: Self)
        ensures
            s.wf(),
            s.verts@.len() == 0,
            s.idx@.len() == 0,
            s.tri_interior@.len() == 0,
    {
        Soup { verts: Vec::new(), idx: Vec::new(), tri_interior: Vec::new() }
    }

    /// No triangles, whatever vertices it holds.
    pub fn is_empty(&self) -> (b: bool)
        ensures
            b == (self.idx@.len() == 0),
    {
        self.idx.len() == 0
    }

    /// Vertex `i`.
    pub fn vtx(&self, i: u32) -> (v: &V)
        requires
            i < self.verts@.len(),
        ensures
            *v == self.verts@[i as int],
    {
        &self.verts[i as usize]
    }

    /// Append one triangle of three fresh vertices `a`, `b`, `c`, tagged `interior`.
    ///
    /// Every earlier triangle keeps its corners, and the new last triangle reads back `a`, `b`, `c`.
    pub fn push_tri(&mut self, a: V, b: V, c: V, interior: bool)
        requires
            old(self).wf(),
            old(self).verts@.len() + 3 <= 0x1_0000_0000,
        ensures
            final(self).wf(),
            final(self).verts@ == old(self).verts@.push(a).push(b).push(c),
            final(self).idx@ == old(self).idx@.push(fresh_tri(old(self).verts@.len() as int)),
            final(self).tri_interior@ == old(self).tri_interior@.push(interior),
            forall|t: int, j: int|
                0 <= t < old(self).idx@.len() && 0 <= j < 3 ==> #[trigger] final(self).corner(t, j)
                    == old(self).corner(t, j),
            final(self).corner(old(self).idx@.len() as int, 0) == a,
            final(self).corner(old(self).idx@.len() as int, 1) == b,
            final(self).corner(old(self).idx@.len() as int, 2) == c,
    {
        let base = self.verts.len() as u32;
        self.verts.push(a);
        self.verts.push(b);
        self.verts.push(c);
        self.idx.push([base, base + 1, base + 2]);
        self.tri_interior.push(interior);
        proof {
            assert(fresh_tri(old(self).verts@.len() as int) == [base, (base + 1) as u32, (base + 2) as u32]);
            assert forall|t: int| 0 <= t < self.idx.len() implies tri_in_range(
                #[trigger] self.idx@[t],
                self.verts.len() as int,
            ) by {
                if t < old(self).idx@.len() {
                    assert(self.idx@[t] == old(self).idx@[t]);
                }
            }
        }
    }
}

impl<V> Soup<V> {
    /// Append a block of vertices and the triangles over it.
    ///
    /// `tris` index into `block` (from `0`). A triangle naming a vertex outside the block is
    /// dropped; every other one is moved up past the existing vertices and tagged `interior`.
    pub fn append_block(&mut self, block: Vec<V>, tris: &Vec<[u32; 3]>, interior: bool)
        requires
            old(self).wf(),
            old(self).verts@.len() + block@.len() <= 0x1_0000_0000,
        ensures
            final(self).wf(),
            final(self).verts@ == old(self).verts@ + block@,
            final(self).idx@ == old(self).idx@ + kept_offset(
                tris@,
                block@.len() as int,
                old(self).verts@.len() as int,
            ),
            final(self).tri_interior@ == old(self).tri_interior@ + Seq::new(
                kept_offset(tris@, block@.len() as int, old(self).verts@.len() as int).len(),
                |k: int| interior,
            ),
    {
        let ghost i0 = self.idx@;
        let ghost t0 = self.tri_interior@;
        let ghost v0 = self.verts@;
        let ghost b0 = block@;
        let vbase = self.verts.len() as u32;
        let n = block.len();
        let mut block = block;
        self.verts.append(&mut block);
        assert(self.verts@ =~= v0 + b0);
        let mut i: usize = 0;
        while i < tris.len()
            invariant
                0 <= i <= tris@.len(),
                n > 0 ==> vbase == v0.len(),
                v0.len() + n <= 0x1_0000_0000,
                self.verts@ == v0 + b0,
                b0.len() == n,
                self.idx@.len() == self.tri_interior@.len(),
                forall|t: int|
                    0 <= t < self.idx.len() ==> tri_in_range(
                        #[trigger] self.idx@[t],
                        self.verts.len() as int,
                    ),
                self.idx@ == i0 + kept_offset(tris@.take(i as int), n as int, v0.len() as int),
                self.tri_interior@ == t0 + Seq::new(
                    kept_offset(tris@.take(i as int), n as int, v0.len() as int).len(),
                    |k: int| interior,
                ),
            decreases tris@.len() - i,
        {
            let t = tris[i];
            proof {
                assert(tris@.take(i + 1).drop_last() =~= tris@.take(i as int));
                assert(tris@.take(i + 1).last() == t);
            }
            if (t[0] as usize) < n && (t[1] as usize) < n && (t[2] as usize) < n {
                let shifted = [t[0] + vbase, t[1] + vbase, t[2] + vbase];
                assert(shifted == offset_tri(t, v0.len() as int));
                self.idx.push(shifted);
                self.tri_interior.push(interior);
                proof {
                    assert forall|u: int| 0 <= u < self.idx.len() implies tri_in_range(
                        #[trigger] self.idx@[u],
                        self.verts.len() as int,
                    ) by {
                        if u < self.idx.len() - 1 {
                            assert(self.idx@[u] == self.idx@.drop_last()[u]);
                        }
                    }
                }
            }
            proof {
                assert(self.tri_interior@ =~= t0 + Seq::new(
                    kept_offset(tris@.take(i + 1), n as int, v0.len() as int).len(),
                    |k: int| interior,
                ));
            }
            i = i + 1;
        }
        proof {
            assert(tris@.take(tris@.len() as int) =~= tris@);
        }
    }
}

impl<V: Copy> Soup<V> {
    /// Fan-triangulate the convex polygon `poly` from its first point and append the triangles,
    /// each of three fresh vertices and tagged `interior`. Fewer than three points emit nothing.
    pub fn push_fan(&mut self, poly: &Vec<V>, interior: bool)
        requires
            old(self).wf(),
            old(self).verts@.len() + 3 * poly@.len() <= 0x1_0000_0000,
        ensures
            final(self).wf(),
            final(self).verts@ == old(self).verts@ + fan_vertices(poly@),
            final(self).idx@ == old(self).idx@ + Seq::new(
                fan_count(poly@.len() as int) as nat,
                |k: int| fresh_tri(old(self).verts@.len() + 3 * k),
            ),
            final(self).tri_interior@ == old(self).tri_interior@ + Seq::new(
                fan_count(poly@.len() as int) as nat,
                |k: int| interior,
            ),
            forall|k: int|
                #![trigger final(self).idx@[old(self).idx@.len() + k]]
                0 <= k < fan_count(poly@.len() as int) ==> {
                    &&& final(self).corner(old(self).idx@.len() + k, 0) == poly@[0]
                    &&& final(self).corner(old(self).idx@.len() + k, 1) == poly@[k + 1]
                    &&& final(self).corner(old(self).idx@.len() + k, 2) == poly@[k + 2]
                },
            forall|t: int, j: int|
                0 <= t < old(self).idx@.len() && 0 <= j < 3 ==> #[trigger] final(self).corner(t, j)
                    == old(self).corner(t, j),
    {
        let ghost v0 = self.verts@;
        let ghost i0 = self.idx@;
        let ghost t0 = self.tri_interior@;
        let n = poly.len();
        if n >= 3 {
            let mut i: usize = 1;
            while i < n - 1
                invariant
                    n == poly@.len(),
                    n >= 3,
                    1 <= i <= n - 1,
                    v0.len() + 3 * n <= 0x1_0000_0000,
                    self.wf(),
                    self.verts@.len() == v0.len() + 3 * (i - 1),
                    forall|m: int| 0 <= m < v0.len() ==> self.verts@[m] == v0[m],
                    forall|m: int|
                        0 <= m < 3 * (i - 1) ==> self.verts@[v0.len() + m] == #[trigger] fan_vertices(
                            poly@,
                        )[m],
                    self.idx@ == i0 + Seq::new((i - 1) as nat, |k: int| fresh_tri(v0.len() + 3 * k)),
                    self.tri_interior@ == t0 + Seq::new((i - 1) as nat, |k: int| interior),
                decreases n - 1 - i,
            {
                let ghost before = self.verts@;
                let ghost idx_before = self.idx@;
                let ghost tag_before = self.tri_interior@;
                self.push_tri(poly[0], poly[i], poly[i + 1], interior);
                proof {
                    let fv = fan_vertices(poly@);
                    assert(fv.len() == 3 * (n - 2));
                    assert forall|m: int| 0 <= m < 3 * i implies self.verts@[v0.len() + m] == #[trigger] fan_vertices(
                        poly@,
                    )[m] by {
                        if m >= 3 * (i - 1) {
                            let k = i - 1;
                            assert(m / 3 == k) by (nonlinear_arith)
                                requires
                                    3 * k <= m < 3 * k + 3,
                            ;
                            assert(m % 3 == m - 3 * k) by (nonlinear_arith)
                                requires
                                    3 * k <= m < 3 * k + 3,
                            ;
                        }
                    }
                    assert(self.idx@ =~= i0 + Seq::new(i as nat, |k: int| fresh_tri(v0.len() + 3 * k)));
                    assert(self.tri_interior@ =~= t0 + Seq::new(i as nat, |k: int| interior));
                }
                i = i + 1;
            }
            proof {
                assert(self.verts@ =~= v0 + fan_vertices(poly@));
            }
        } else {
            proof {
                assert(self.verts@ =~= v0 + fan_vertices(poly@));
                assert(self.idx@ =~= i0 + Seq::new(0, |k: int| fresh_tri(v0.len() + 3 * k)));
                assert(self.tri_interior@ =~= t0 + Seq::new(0, |k: int| interior));
            }
        }
        proof {
            let fv = fan_vertices(poly@);
            assert forall|k: int|
                #![trigger self.idx@[i0.len() + k]]
                0 <= k < fan_count(poly@.len() as int) implies {
                    &&& self.corner(i0.len() + k, 0) == poly@[0]
                    &&& self.corner(i0.len() + k, 1) == poly@[k + 1]
                    &&& self.corner(i0.len() + k, 2) == poly@[k + 2]
                } by {
                assert(self.idx@[i0.len() + k] == fresh_tri(v0.len() + 3 * k));
                assert((3 * k) / 3 == k && (3 * k) % 3 == 0) by (nonlinear_arith);
                assert((3 * k + 1) / 3 == k && (3 * k + 1) % 3 == 1) by (nonlinear_arith);
                assert((3 * k + 2) / 3 == k && (3 * k + 2) % 3 == 2) by (nonlinear_arith);
                assert(self.verts@[v0.len() + 3 * k] == fv[3 * k]);
                assert(self.verts@[v0.len() + 3 * k + 1] == fv[3 * k + 1]);
                assert(self.verts@[v0.len() + 3 * k + 2] == fv[3 * k + 2]);
            }
            assert forall|t: int, j: int| 0 <= t < i0.len() && 0 <= j < 3 implies #[trigger] self.corner(
                t,
                j,
            ) == old(self).corner(t, j) by {
                assert(self.idx@[t] == i0[t]);
                assert(tri_in_range(i0[t], v0.len() as int));
                assert(self.verts@[i0[t][j] as int] == v0[i0[t][j] as int]);
            }
        }
    }
}

} // verus!
