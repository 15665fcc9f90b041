//! Clipping one triangle to a half-space, as combinatorics.
//!
//! Each corner arrives already classified against the cut plane: `1` above, `-1` below, `0` on it
//! (within tolerance). Sutherland–Hodgman over the 3-gon then decides which points the kept
//! polygon has, in order: original corners, and crossings where an edge passes strictly from one
//! side to the other. Where a crossing lies is the caller's interpolation; which crossings exist,
//! and in what order, is decided here.

use vstd::prelude::*;

verus! {

/// A point of a clipped polygon.
#[derive(Clone, Copy, Debug, PartialEq, Eq, Structural)]
pub enum PolyPoint {
    /// Corner `i` of the triangle, kept as it is.
    Corner(usize),
    /// Where edge `i → j` crosses the plane.
    Crossing(usize, usize),
}

/// A class is `-1`, `0` or `1`.
pub open spec fn valid_class(c: i32) -> bool {
    -1 <= c <= 1
}

/// All three corner classes are valid.
pub open spec fn valid_classes(c: [i32; 3]) -> bool {
    valid_class(c[0]) && valid_class(c[1]) && valid_class(c[2])
}

/// A corner of class `c` belongs to the kept half-space. On-plane corners belong to both.
pub open spec fn keeps(c: i32, keep_above: bool) -> bool {
    if keep_above {
        c >= 0
    } else {
        c <= 0
    }
}

/// The edge between classes `ci` and `cj` passes strictly from one side to the other.
pub open spec fn strict_crossing(ci: i32, cj: i32) -> bool {
    ci != 0 && cj != 0 && ci != cj
}

/// What edge `i → i + 1 (mod 3)` contributes: its start corner if kept, then its crossing if any.
pub open spec fn edge_points(c: [i32; 3], keep_above: bool, i: int) -> Seq<PolyPoint> {
    let j = (i + 1) % 3;
    let corner: Seq<PolyPoint> = if keeps(c[i], keep_above) {
        seq![PolyPoint::Corner(i as usize)]
    } else {
        Seq::empty()
    };
    let cross: Seq<PolyPoint> = if strict_crossing(c[i], c[j]) {
        seq![PolyPoint::Crossing(i as usize, j as usize)]
    } else {
        Seq::empty()
    };
    corner + cross
}

/// The kept polygon of a triangle whose corners have classes `c`.
pub open spec fn clip_plan_spec(c: [i32; 3], keep_above: bool) -> Seq<PolyPoint> {
    edge_points(c, keep_above, 0) + edge_points(c, keep_above, 1) + edge_points(c, keep_above, 2)
}

/// Plan the clip of one triangle to one half-space: the kept polygon's points, in order.
pub fn clip_plan(c: [i32; 3], keep_above: bool) -> (poly: Vec<PolyPoint>)
    ensures
        poly@ == clip_plan_spec(c, keep_above),
        in_boundary_order(poly@),
{
    proof {
        lemma_clip_plan_in_boundary_order(c, keep_above);
    }
    let mut poly: Vec<PolyPoint> = Vec::new();
    let mut i: usize = 0;
    while i < 3
        invariant
            0 <= i <= 3,
            i == 0 ==> poly@ == Seq::<PolyPoint>::empty(),
            i == 1 ==> poly@ == edge_points(c, keep_above, 0),
            i == 2 ==> poly@ == edge_points(c, keep_above, 0) + edge_points(c, keep_above, 1),
            i == 3 ==> poly@ == clip_plan_spec(c, keep_above),
        decreases 3 - i,
    {
        let ghost before = poly@;
        let j = (i + 1) % 3;
        let ci = c[i];
        let cj = c[j];
        let keep_i = if keep_above {
            ci >= 0
        } else {
            ci <= 0
        };
        if keep_i {
            poly.push(PolyPoint::Corner(i));
        }
        if ci != 0 && cj != 0 && ci != cj {
            poly.push(PolyPoint::Crossing(i, j));
        }
        proof {
            assert(poly@ =~= before + edge_points(c, keep_above, i as int));
        }
        i = i + 1;
    }
    poly
}

/// A triangle clipped to a half-space keeps at most four points: a plane meets a triangle's
/// boundary in at most two crossings, and each crossing stands in for at least one dropped corner.
pub proof fn lemma_clip_plan_at_most_four(c: [i32; 3], keep_above: bool)
    requires
        valid_classes(c),
    ensures
        clip_plan_spec(c, keep_above).len() <= 4,
{
}

/// The two halves share their seam: every crossing of one half's polygon is a crossing of the
/// other's, and every on-plane corner is kept by both.
pub proof fn lemma_halves_share_seam(c: [i32; 3], p: PolyPoint)
    requires
        valid_classes(c),
        match p {
            PolyPoint::Crossing(_, _) => true,
            PolyPoint::Corner(i) => i < 3 && c[i as int] == 0,
        },
    ensures
        clip_plan_spec(c, true).contains(p) <==> clip_plan_spec(c, false).contains(p),
{
    lemma_points_of_plan(c, true, p);
    lemma_points_of_plan(c, false, p);
}

proof fn lemma_singleton_contains(x: PolyPoint, p: PolyPoint)
    ensures
        seq![x].contains(p) <==> x == p,
{
    if x == p {
        assert(seq![x][0] == p);
    }
}

proof fn lemma_edge_points_contains(c: [i32; 3], keep_above: bool, i: int, p: PolyPoint)
    requires
        0 <= i < 3,
    ensures
        edge_points(c, keep_above, i).contains(p) <==> ((p == PolyPoint::Corner(i as usize)
            && keeps(c[i], keep_above)) || (p == PolyPoint::Crossing(i as usize, ((i + 1) % 3) as usize)
            && strict_crossing(c[i], c[(i + 1) % 3]))),
{
    let j = (i + 1) % 3;
    let corner: Seq<PolyPoint> = if keeps(c[i], keep_above) {
        seq![PolyPoint::Corner(i as usize)]
    } else {
        Seq::empty()
    };
    let cross: Seq<PolyPoint> = if strict_crossing(c[i], c[j]) {
        seq![PolyPoint::Crossing(i as usize, j as usize)]
    } else {
        Seq::empty()
    };
    assert(edge_points(c, keep_above, i) == corner + cross);
    vstd::seq_lib::lemma_seq_concat_contains_all_elements(corner, cross, p);
    lemma_singleton_contains(PolyPoint::Corner(i as usize), p);
    lemma_singleton_contains(PolyPoint::Crossing(i as usize, j as usize), p);
    vstd::seq_lib::lemma_seq_empty_contains_nothing(p);
}

/// Exactly which points a plan holds.
pub proof fn lemma_points_of_plan(c: [i32; 3], keep_above: bool, p: PolyPoint)
    ensures
        clip_plan_spec(c, keep_above).contains(p) <==> match p {
            PolyPoint::Corner(i) => i < 3 && keeps(c[i as int], keep_above),
            PolyPoint::Crossing(i, j) => i < 3 && j == (i + 1) % 3 && strict_crossing(
                c[i as int],
                c[j as int],
            ),
        },
{
    let e0 = edge_points(c, keep_above, 0);
    let e1 = edge_points(c, keep_above, 1);
    let e2 = edge_points(c, keep_above, 2);
    vstd::seq_lib::lemma_seq_concat_contains_all_elements(e0, e1, p);
    vstd::seq_lib::lemma_seq_concat_contains_all_elements(e0 + e1, e2, p);
    lemma_edge_points_contains(c, keep_above, 0, p);
    lemma_edge_points_contains(c, keep_above, 1, p);
    lemma_edge_points_contains(c, keep_above, 2, p);
}

/// Every corner survives in at least one half, so clipping into both halves loses no corner.
pub proof fn lemma_every_corner_kept(c: [i32; 3], i: usize)
    requires
        i < 3,
    ensures
        clip_plan_spec(c, true).contains(PolyPoint::Corner(i)) || clip_plan_spec(c, false).contains(
            PolyPoint::Corner(i),
        ),
{
    lemma_points_of_plan(c, true, PolyPoint::Corner(i));
    lemma_points_of_plan(c, false, PolyPoint::Corner(i));
}

/// A triangle with no corner below the plane is kept whole, and unchanged, above it.
pub proof fn lemma_untouched_triangle_kept_whole(c: [i32; 3])
    requires
        valid_classes(c),
        c[0] >= 0,
        c[1] >= 0,
        c[2] >= 0,
    ensures
        clip_plan_spec(c, true) == seq![
            PolyPoint::Corner(0),
            PolyPoint::Corner(1),
            PolyPoint::Corner(2),
        ],
{
    assert(clip_plan_spec(c, true) =~= seq![
        PolyPoint::Corner(0),
        PolyPoint::Corner(1),
        PolyPoint::Corner(2),
    ]);
}

/// Where a point sits on the triangle's boundary walk `0 → 1 → 2 → 0`: corner `i` at `2i`, and
/// the crossing on the edge leaving corner `i` just after it, at `2i + 1`.
pub open spec fn boundary_pos(p: PolyPoint) -> int {
    match p {
        PolyPoint::Corner(i) => 2 * i,
        PolyPoint::Crossing(i, _) => 2 * i + 1,
    }
}

/// The points of `s` come in strictly increasing boundary position.
pub open spec fn in_boundary_order(s: Seq<PolyPoint>) -> bool {
    forall|a: int, b: int| 0 <= a < b < s.len() ==> boundary_pos(s[a]) < boundary_pos(s[b])
}

spec fn positions_within(s: Seq<PolyPoint>, lo: int, hi: int) -> bool {
    forall|a: int|
        #![trigger boundary_pos(s[a])]
        0 <= a < s.len() ==> lo <= boundary_pos(s[a]) && boundary_pos(s[a]) <= hi
}

proof fn lemma_edge_points_ordered(c: [i32; 3], keep_above: bool, i: int)
    requires
        0 <= i < 3,
    ensures
        in_boundary_order(edge_points(c, keep_above, i)),
        positions_within(edge_points(c, keep_above, i), 2 * i, 2 * i + 1),
{
    let e = edge_points(c, keep_above, i);
    let j = (i + 1) % 3;
    let corner: Seq<PolyPoint> = if keeps(c[i], keep_above) {
        seq![PolyPoint::Corner(i as usize)]
    } else {
        Seq::empty()
    };
    let cross: Seq<PolyPoint> = if strict_crossing(c[i], c[j]) {
        seq![PolyPoint::Crossing(i as usize, j as usize)]
    } else {
        Seq::empty()
    };
    assert(e == corner + cross);
    assert(e.len() <= 2);
    if corner.len() == 1 && cross.len() == 1 {
        assert(e[0] == PolyPoint::Corner(i as usize));
        assert(e[1] == PolyPoint::Crossing(i as usize, j as usize));
    } else if corner.len() == 1 {
        assert(e[0] == PolyPoint::Corner(i as usize));
    } else if cross.len() == 1 {
        assert(e[0] == PolyPoint::Crossing(i as usize, j as usize));
    }
}

proof fn lemma_concat_ordered(s: Seq<PolyPoint>, t: Seq<PolyPoint>, lo: int, mid: int, hi: int)
    requires
        in_boundary_order(s),
        in_boundary_order(t),
        positions_within(s, lo, mid),
        positions_within(t, mid + 1, hi),
        lo <= mid < hi,
    ensures
        in_boundary_order(s + t),
        positions_within(s + t, lo, hi),
{
    let u = s + t;
    assert forall|a: int, b: int| 0 <= a < b < u.len() implies boundary_pos(u[a]) < boundary_pos(
        u[b],
    ) by {
        if b < s.len() {
            assert(u[a] == s[a] && u[b] == s[b]);
        } else if a >= s.len() {
            assert(u[a] == t[a - s.len()] && u[b] == t[b - s.len()]);
        } else {
            assert(u[a] == s[a] && u[b] == t[b - s.len()]);
            assert(lo <= boundary_pos(s[a]) <= mid);
            assert(mid + 1 <= boundary_pos(t[b - s.len()]) <= hi);
        }
    }
    assert forall|a: int|
        #![trigger boundary_pos(u[a])]
        0 <= a < u.len() implies lo <= boundary_pos(u[a]) && boundary_pos(u[a]) <= hi by {
        if a < s.len() {
            assert(u[a] == s[a]);
            assert(lo <= boundary_pos(s[a]) <= mid);
        } else {
            assert(u[a] == t[a - s.len()]);
            assert(mid + 1 <= boundary_pos(t[a - s.len()]) <= hi);
        }
    }
}

/// The kept polygon lists its points in the triangle's own boundary order — corner `i`, then the
/// crossing on edge `i → i + 1`, edges walked `0, 1, 2` — so it keeps the triangle's winding and
/// its fan faces the same way. With [`lemma_points_of_plan`], which fixes which points appear,
/// this determines the plan.
pub proof fn lemma_clip_plan_in_boundary_order(c: [i32; 3], keep_above: bool)
    ensures
        in_boundary_order(clip_plan_spec(c, keep_above)),
{
    let e0 = edge_points(c, keep_above, 0);
    let e1 = edge_points(c, keep_above, 1);
    let e2 = edge_points(c, keep_above, 2);
    lemma_edge_points_ordered(c, keep_above, 0);
    lemma_edge_points_ordered(c, keep_above, 1);
    lemma_edge_points_ordered(c, keep_above, 2);
    lemma_concat_ordered(e0, e1, 0, 1, 3);
    lemma_concat_ordered(e0 + e1, e2, 0, 3, 5);
}

} // verus!
