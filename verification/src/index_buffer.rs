//! Index-buffer bookkeeping between a mesh and a triangle soup: decoding an index buffer into
//! triangles, giving every triangle its own three vertices, compacting a subset of triangles onto
//! the vertices it actually uses, and offsetting an index block appended after existing vertices.

use std::collections::HashMap;
use crate::soup::tri_in_range;
use vstd::prelude::*;

verus! {

broadcast use vstd::std_specs::hash::group_hash_axioms;

/// A mesh index buffer, in either of its two encodings.
#[derive(Clone, Debug)]
pub enum Indices {
    U16(Vec<u16>),
    U32(Vec<u32>),
}

/// The 16-bit indices, widened.
pub open spec fn widen16(v: Seq<u16>) -> Seq<u32> {
    v.map_values(|x: u16| x as u32)
}

/// The flat index list an [`Indices`] stands for.
pub open spec fn index_list(ix: Indices) -> Seq<u32> {
    match ix {
        Indices::U16(v) => widen16(v@),
        Indices::U32(v) => v@,
    }
}

/// Consecutive triples of `s`; a trailing partial triangle is dropped.
pub open spec fn triples(s: Seq<u32>) -> Seq<[u32; 3]> {
    Seq::new(s.len() / 3, |t: int| [s[3 * t], s[3 * t + 1], s[3 * t + 2]])
}

/// The triangles of a non-indexed mesh of `n` vertices: `[0, 1, 2], [3, 4, 5], …`.
pub open spec fn consecutive_triples(n: nat) -> Seq<[u32; 3]> {
    Seq::new(n / 3, |t: int| [(3 * t) as u32, (3 * t + 1) as u32, (3 * t + 2) as u32])
}

/// The triangle list a mesh's index buffer describes. `vertex_count` matters only without an
/// index buffer, and is read as a `u32` as the index type is.
pub open spec fn triangle_list(indices: Option<Indices>, vertex_count: usize) -> Seq<[u32; 3]> {
    match indices {
        Some(ix) => triples(index_list(ix)),
        None => consecutive_triples((vertex_count as u32) as nat),
    }
}

fn triples_of_u32(v: &Vec<u32>) -> (tris: Vec<[u32; 3]>)
    ensures
        tris@ == triples(v@),
{
    let mut tris: Vec<[u32; 3]> = Vec::new();
    let len = v.len();
    let count = len / 3;
    let mut t: usize = 0;
    while t < count
        invariant
            len == v@.len(),
            count == v@.len() / 3,
            0 <= t <= count,
            tris@ == triples(v@).take(t as int),
        decreases count - t,
    {
        assert(3 * t + 2 < v@.len()) by (nonlinear_arith)
            requires
                t < count,
                count == v@.len() / 3,
        ;
        let tri = [v[3 * t], v[3 * t + 1], v[3 * t + 2]];
        tris.push(tri);
        proof {
            assert(tris@ =~= triples(v@).take(t + 1));
        }
        t = t + 1;
    }
    assert(triples(v@).take(count as int) =~= triples(v@));
    tris
}

fn triples_of_u16(v: &Vec<u16>) -> (tris: Vec<[u32; 3]>)
    ensures
        tris@ == triples(widen16(v@)),
{
    let mut tris: Vec<[u32; 3]> = Vec::new();
    let len = v.len();
    let count = len / 3;
    let mut t: usize = 0;
    while t < count
        invariant
            len == v@.len(),
            count == v@.len() / 3,
            0 <= t <= count,
            tris@ == triples(widen16(v@)).take(t as int),
        decreases count - t,
    {
        assert(3 * t + 2 < v@.len()) by (nonlinear_arith)
            requires
                t < count,
                count == v@.len() / 3,
        ;
        let tri = [v[3 * t] as u32, v[3 * t + 1] as u32, v[3 * t + 2] as u32];
        tris.push(tri);
        proof {
            assert(tris@ =~= triples(widen16(v@)).take(t + 1));
        }
        t = t + 1;
    }
    assert(triples(widen16(v@)).take(count as int) =~= triples(widen16(v@)));
    tris
}

/// Decode a mesh's index buffer into a triangle list: `U16` widened, `U32` as is, and a
/// non-indexed mesh as consecutive triples over its vertices. The indices are not checked
/// against any vertex count; callers guard before dereferencing.
pub fn triangle_indices(indices: Option<&Indices>, vertex_count: usize) -> (tris: Vec<[u32; 3]>)
    ensures
        tris@ == triangle_list(
            match indices {
                Some(ix) => Some(*ix),
                None => None,
            },
            vertex_count,
        ),
        indices matches Some(ix) ==> tris@.len() == index_list(*ix).len() / 3 && forall|t: int, j: int|
            0 <= t < tris@.len() && 0 <= j < 3 ==> #[trigger] tris@[t][j] == index_list(*ix)[3 * t
                + j],
        indices is None ==> tris@.len() == (vertex_count as u32) / 3 && forall|t: int, j: int|
            0 <= t < tris@.len() && 0 <= j < 3 ==> #[trigger] tris@[t][j] == 3 * t + j,
{
    match indices {
        Some(Indices::U16(v)) => triples_of_u16(v),
        Some(Indices::U32(v)) => triples_of_u32(v),
        None => {
            #[verifier::truncate]
            let n = vertex_count as u32;
            let count = n / 3;
            let mut tris: Vec<[u32; 3]> = Vec::new();
            let mut t: u32 = 0;
            while t < count
                invariant
                    count == n / 3,
                    n == vertex_count as u32,
                    0 <= t <= count,
                    tris@ == consecutive_triples(n as nat).take(t as int),
                decreases count - t,
            {
                tris.push([3 * t, 3 * t + 1, 3 * t + 2]);
                proof {
                    assert(tris@ =~= consecutive_triples(n as nat).take(t + 1));
                }
                t = t + 1;
            }
            assert(consecutive_triples(n as nat).take(count as int) =~= consecutive_triples(n as nat));
            tris
        },
    }
}

/// Every corner of every triangle, in order: entry `3t + j` is corner `j` of triangle `t`.
pub open spec fn flatten(tris: Seq<[u32; 3]>) -> Seq<u32> {
    Seq::new(3 * tris.len(), |k: int| tris[k / 3][k % 3])
}

/// Give every triangle three vertices of its own, ignoring any sharing: returns, per output
/// vertex, the vertex it is copied from, and the output index buffer `0, 1, 2, …`.
pub fn expand_faces(tris: &Vec<[u32; 3]>) -> (r: (Vec<u32>, Vec<u32>))
    requires
        3 * tris@.len() <= 0x1_0000_0000,
    ensures
        r.0@ == flatten(tris@),
        r.1@ == Seq::new(3 * tris@.len(), |k: int| k as u32),
        r.0@.len() == 3 * tris@.len(),
        forall|t: int, j: int|
            0 <= t < tris@.len() && 0 <= j < 3 ==> r.0@[3 * t + j] == #[trigger] tris@[t][j],
{
    let mut source: Vec<u32> = Vec::new();
    let mut out: Vec<u32> = Vec::new();
    let n = tris.len();
    let mut t: usize = 0;
    while t < n
        invariant
            n == tris@.len(),
            3 * n <= 0x1_0000_0000,
            0 <= t <= n,
            source@ == flatten(tris@).take(3 * t),
            out@ == Seq::new(3 * t as nat, |k: int| k as u32),
        decreases n - t,
    {
        let tri = tris[t];
        let base = (3 * t) as u32;
        source.push(tri[0]);
        source.push(tri[1]);
        source.push(tri[2]);
        out.push(base);
        out.push(base + 1);
        out.push(base + 2);
        proof {
            let f = flatten(tris@);
            let ti = t as int;
            assert((3 * ti) / 3 == ti && (3 * ti) % 3 == 0) by (nonlinear_arith);
            assert((3 * ti + 1) / 3 == ti && (3 * ti + 1) % 3 == 1) by (nonlinear_arith);
            assert((3 * ti + 2) / 3 == ti && (3 * ti + 2) % 3 == 2) by (nonlinear_arith);
            assert(f[3 * t] == tri[0]);
            assert(f[3 * t + 1] == tri[1]);
            assert(f[3 * t + 2] == tri[2]);
            assert(source@ =~= f.take(3 * (t + 1)));
            assert(out@ =~= Seq::new(3 * (t + 1) as nat, |k: int| k as u32));
        }
        t = t + 1;
    }
    assert(flatten(tris@).take(3 * n) =~= flatten(tris@));
    (source, out)
}

/// Triangle `t` is drawn in a subset that wants tag `want` and drops degenerate triangles.
pub open spec fn selected(tag: bool, degenerate: bool, want: bool) -> bool {
    tag == want && !degenerate
}

/// The corners of the first `n` triangles that are selected, in order.
pub open spec fn selected_corners(
    tris: Seq<[u32; 3]>,
    tags: Seq<bool>,
    degenerate: Seq<bool>,
    want: bool,
    n: nat,
) -> Seq<u32>
    decreases n,
{
    if n == 0 {
        Seq::empty()
    } else {
        let rest = selected_corners(tris, tags, degenerate, want, (n - 1) as nat);
        let t = tris[n - 1];
        if selected(tags[n - 1], degenerate[n - 1], want) {
            rest.push(t[0]).push(t[1]).push(t[2])
        } else {
            rest
        }
    }
}

/// The distinct values of `s` in order of first appearance.
pub open spec fn first_seen(s: Seq<u32>) -> Seq<u32>
    decreases s.len(),
{
    if s.len() == 0 {
        Seq::empty()
    } else {
        let r = first_seen(s.drop_last());
        if r.contains(s.last()) {
            r
        } else {
            r.push(s.last())
        }
    }
}

/// `first_seen` holds each value at most once and holds exactly the values of `s`.
pub proof fn lemma_first_seen(s: Seq<u32>)
    ensures
        first_seen(s).no_duplicates(),
        first_seen(s).len() <= s.len(),
        forall|x: u32| first_seen(s).contains(x) <==> s.contains(x),
    decreases s.len(),
{
    if s.len() > 0 {
        let init = s.drop_last();
        lemma_first_seen(init);
        let r = first_seen(init);
        assert(s =~= init.push(s.last()));
        assert forall|x: u32| first_seen(s).contains(x) <==> s.contains(x) by {
            vstd::seq_lib::lemma_seq_contains_after_push(init, s.last(), x);
            vstd::seq_lib::lemma_seq_contains_after_push(r, s.last(), x);
        }
        if !r.contains(s.last()) {
            let p = r.push(s.last());
            assert forall|i: int, j: int| 0 <= i < j < p.len() implies p[i] != p[j] by {
                if j == p.len() - 1 {
                    assert(r[i] == p[i]);
                }
            }
        }
    }
}

/// What the remap loop keeps: `source` is the first-seen order of `corners`, `map` sends each of
/// them to its position, and `out[k]` names the source slot of `corners[k]`.
/// Slot `p` is used by one of the first `k` labels.
pub open spec fn label_used_before(labels: Seq<u32>, p: int, k: int) -> bool {
    exists|k2: int| 0 <= k2 < k && labels[k2] == p
}

/// Labels open new slots in order: every slot below a label was already used by an earlier one.
/// So the first label is `0`, and each label is at most one more than every label before it.
pub open spec fn labels_in_first_use_order(labels: Seq<u32>) -> bool {
    forall|k: int, p: int|
        #![trigger labels[k], label_used_before(labels, p, k)]
        0 <= k < labels.len() && 0 <= p < labels[k] ==> label_used_before(labels, p, k)
}

/// Every one of `n` slots is used by some label.
pub open spec fn every_slot_used(labels: Seq<u32>, n: int) -> bool {
    forall|p: int| 0 <= p < n ==> #[trigger] label_used_before(labels, p, labels.len() as int)
}

spec fn remap_state(map: Map<u32, u32>, source: Seq<u32>, out: Seq<u32>, corners: Seq<u32>) -> bool {
    &&& labels_in_first_use_order(out)
    &&& every_slot_used(out, source.len() as int)
    &&& source == first_seen(corners)
    &&& out.len() == corners.len()
    &&& forall|k: int| #![trigger out[k]] 0 <= k < out.len() ==> out[k] < source.len() && source[out[k] as int] == corners[k]
    &&& forall|x: u32| map.contains_key(x) <==> source.contains(x)
    &&& forall|p: int| 0 <= p < source.len() ==> map[#[trigger] source[p]] == p
}

fn remap_corner(
    remap: &mut HashMap<u32, u32>,
    source: &mut Vec<u32>,
    out: &mut Vec<u32>,
    old_id: u32,
    Ghost(corners): Ghost<Seq<u32>>,
)
    requires
        remap_state(old(remap)@, old(source)@, old(out)@, corners),
        corners.len() + 1 < 0x1_0000_0000,
    ensures
        remap_state(final(remap)@, final(source)@, final(out)@, corners.push(old_id)),
{
    proof {
        lemma_first_seen(corners);
        assert(corners.push(old_id).drop_last() =~= corners);
    }
    let found = remap.get(&old_id);
    match found {
        Some(n) => {
            let nid = *n;
            proof {
                assert(remap@.contains_key(old_id) && remap@[old_id] == nid);
                assert(source@.contains(old_id));
                let k = choose|k: int| 0 <= k < source@.len() && source@[k] == old_id;
                assert(remap@[source@[k]] == k);
                assert(nid == k);
            }
            out.push(nid);
            proof {
                assert(first_seen(corners.push(old_id)) == first_seen(corners));
                let c2 = corners.push(old_id);
                assert(out@.len() == c2.len());
                let last = out@.len() - 1;
                assert(out@[last] == nid);
                assert(c2[last] == old_id);
                assert(source@[nid as int] == old_id);
                assert forall|k: int| #![trigger out@[k]] 0 <= k < out@.len() implies out@[k] < source@.len() && source@[out@[k] as int] == c2[k] by {
                    if k < last {
                        assert(out@[k] == old(out)@[k]);
                        assert(c2[k] == corners[k]);
                        assert(old(out)@[k] < source@.len() && source@[old(out)@[k] as int] == corners[k]);
                    }
                }
                let o = old(out)@;
                assert forall|kk: int, p: int|
                    #![trigger out@[kk], label_used_before(out@, p, kk)]
                    0 <= kk < out@.len() && 0 <= p < out@[kk] implies label_used_before(out@, p, kk) by {
                    if kk < last {
                        assert(out@[kk] == o[kk]);
                        assert(label_used_before(o, p, kk));
                        let k2 = choose|k2: int| 0 <= k2 < kk && o[k2] == p;
                        assert(out@[k2] == o[k2]);
                    } else {
                        assert(label_used_before(o, p, o.len() as int));
                        let k2 = choose|k2: int| 0 <= k2 < o.len() && o[k2] == p;
                        assert(out@[k2] == o[k2]);
                    }
                }
                assert forall|p: int| 0 <= p < source@.len() implies #[trigger] label_used_before(
                    out@,
                    p,
                    out@.len() as int,
                ) by {
                    assert(label_used_before(o, p, o.len() as int));
                    let k2 = choose|k2: int| 0 <= k2 < o.len() && o[k2] == p;
                    assert(out@[k2] == o[k2]);
                }
            }
        },
        None => {
            proof {
                assert(!remap@.contains_key(old_id));
                assert(!source@.contains(old_id));
            }
            let nid = source.len() as u32;
            let ghost s0 = source@;
            source.push(old_id);
            remap.insert(old_id, nid);
            out.push(nid);
            proof {
                assert forall|x: u32| remap@.contains_key(x) <==> source@.contains(x) by {
                    vstd::seq_lib::lemma_seq_contains_after_push(s0, old_id, x);
                }
                assert forall|p: int| 0 <= p < source@.len() implies remap@[#[trigger] source@[p]] == p by {
                    if p < s0.len() {
                        assert(source@[p] == s0[p]);
                        if s0[p] == old_id {
                            assert(s0.contains(old_id));
                        }
                    }
                }
                let o = old(out)@;
                let last = out@.len() - 1;
                assert(out@[last] == s0.len());
                assert forall|kk: int, p: int|
                    #![trigger out@[kk], label_used_before(out@, p, kk)]
                    0 <= kk < out@.len() && 0 <= p < out@[kk] implies label_used_before(out@, p, kk) by {
                    if kk < last {
                        assert(out@[kk] == o[kk]);
                        assert(label_used_before(o, p, kk));
                        let k2 = choose|k2: int| 0 <= k2 < kk && o[k2] == p;
                        assert(out@[k2] == o[k2]);
                    } else {
                        assert(label_used_before(o, p, o.len() as int));
                        let k2 = choose|k2: int| 0 <= k2 < o.len() && o[k2] == p;
                        assert(out@[k2] == o[k2]);
                    }
                }
                assert forall|p: int| 0 <= p < source@.len() implies #[trigger] label_used_before(
                    out@,
                    p,
                    out@.len() as int,
                ) by {
                    if p < s0.len() {
                        assert(label_used_before(o, p, o.len() as int));
                        let k2 = choose|k2: int| 0 <= k2 < o.len() && o[k2] == p;
                        assert(out@[k2] == o[k2]);
                    } else {
                        assert(out@[last] == p);
                    }
                }
            }
        },
    }
}

/// Compact the selected triangles onto the vertices they use.
///
/// A triangle is selected when its tag equals `want_interior` and `degenerate` does not mark it.
/// Returns, in first-use order, the source vertex of each compacted vertex, and the index buffer
/// over the compacted vertices; `None` when no triangle is selected.
pub fn compact_faces(
    tris: &Vec<[u32; 3]>,
    tags: &Vec<bool>,
    degenerate: &Vec<bool>,
    want_interior: bool,
) -> (r: Option<(Vec<u32>, Vec<u32>)>)
    requires
        tags@.len() == tris@.len(),
        degenerate@.len() == tris@.len(),
        3 * tris@.len() < 0x1_0000_0000,
    ensures
        ({
            let corners = selected_corners(tris@, tags@, degenerate@, want_interior, tris@.len());
            match r {
                None => corners.len() == 0,
                Some((source, indices)) => {
                    &&& corners.len() > 0
                    &&& source@ == first_seen(corners)
                    &&& indices@.len() == corners.len()
                    &&& forall|k: int|
                        #![trigger indices@[k]]
                        0 <= k < indices@.len() ==> indices@[k] < source@.len()
                            && source@[indices@[k] as int] == corners[k]
                    &&& labels_in_first_use_order(indices@)
                    &&& every_slot_used(indices@, source@.len() as int)
                    &&& source@.no_duplicates()
                },
            }
        }),
{
    let mut remap: HashMap<u32, u32> = HashMap::new();
    let mut source: Vec<u32> = Vec::new();
    let mut out: Vec<u32> = Vec::new();
    let n = tris.len();
    let mut t: usize = 0;
    proof {
        assert(remap@ =~= Map::empty());
    }
    while t < n
        invariant
            n == tris@.len(),
            tags@.len() == n,
            degenerate@.len() == n,
            3 * n < 0x1_0000_0000,
            0 <= t <= n,
            remap_state(
                remap@,
                source@,
                out@,
                selected_corners(tris@, tags@, degenerate@, want_interior, t as nat),
            ),
            selected_corners(tris@, tags@, degenerate@, want_interior, t as nat).len() <= 3 * t,
        decreases n - t,
    {
        let ghost c0 = selected_corners(tris@, tags@, degenerate@, want_interior, t as nat);
        if tags[t] == want_interior && !degenerate[t] {
            let tri = tris[t];
            remap_corner(&mut remap, &mut source, &mut out, tri[0], Ghost(c0));
            remap_corner(&mut remap, &mut source, &mut out, tri[1], Ghost(c0.push(tri[0])));
            remap_corner(&mut remap, &mut source, &mut out, tri[2], Ghost(c0.push(tri[0]).push(tri[1])));
        }
        t = t + 1;
    }
    let ghost corners = selected_corners(tris@, tags@, degenerate@, want_interior, tris@.len());
    assert(selected_corners(tris@, tags@, degenerate@, want_interior, t as nat) == corners);
    if out.len() == 0 {
        None
    } else {
        Some((source, out))
    }
}

/// Offset an index block appended after `base` existing vertices.
pub open spec fn offset_list(ix: Seq<u32>, base: u32) -> Seq<u32> {
    Seq::new(ix.len(), |i: int| (ix[i] + base) as u32)
}

/// Every offset index still fits in `u32`.
pub open spec fn offset_fits(ix: Seq<u32>, base: u32) -> bool {
    forall|i: int| 0 <= i < ix.len() ==> ix[i] + base <= u32::MAX
}

/// Whether every index of the block still fits in `u32` once moved up by `base`: the
/// precondition of [`offset_indices`], checked.
pub fn index_list_fits(indices: Option<&Indices>, base: u32) -> (b: bool)
    ensures
        match indices {
            None => b,
            Some(ix) => b == offset_fits(index_list(*ix), base),
        },
{
    match indices {
        None => true,
        Some(ix) => {
            let ghost list = index_list(*ix);
            let n: usize = match ix {
                Indices::U16(v) => v.len(),
                Indices::U32(v) => v.len(),
            };
            let mut i: usize = 0;
            while i < n
                invariant
                    indices == Some(ix),
                    list == index_list(*ix),
                    n == list.len(),
                    0 <= i <= n,
                    forall|k: int| 0 <= k < i ==> list[k] + base <= u32::MAX,
                decreases n - i,
            {
                let x: u32 = match ix {
                    Indices::U16(v) => v[i] as u32,
                    Indices::U32(v) => v[i],
                };
                assert(x == list[i as int]);
                if x > u32::MAX - base {
                    assert(list[i as int] + base > u32::MAX);
                    assert(!offset_fits(list, base));
                    return false;
                }
                i = i + 1;
            }
            true
        },
    }
}

/// The index block of a mesh appended after `base` vertices: each index moved up by `base`.
/// `None` for a non-indexed mesh.
pub fn offset_indices(indices: Option<&Indices>, base: u32) -> (r: Option<Vec<u32>>)
    requires
        indices matches Some(ix) ==> offset_fits(index_list(*ix), base),
    ensures
        match indices {
            None => r is None,
            Some(ix) => r matches Some(v) && v@ == offset_list(index_list(*ix), base),
        },
{
    match indices {
        None => None,
        Some(ix) => {
            let ghost list = index_list(*ix);
            let n: usize = match ix {
                Indices::U16(v) => v.len(),
                Indices::U32(v) => v.len(),
            };
            let mut out: Vec<u32> = Vec::new();
            let mut i: usize = 0;
            while i < n
                invariant
                    list == index_list(*ix),
                    n == list.len(),
                    offset_fits(list, base),
                    0 <= i <= n,
                    out@ == offset_list(list, base).take(i as int),
                decreases n - i,
            {
                let x: u32 = match ix {
                    Indices::U16(v) => v[i] as u32,
                    Indices::U32(v) => v[i],
                };
                assert(x == list[i as int]);
                out.push(x + base);
                proof {
                    assert(out@ =~= offset_list(list, base).take(i + 1));
                }
                i = i + 1;
            }
            assert(offset_list(list, base).take(n as int) =~= offset_list(list, base));
            Some(out)
        },
    }
}

proof fn lemma_selected_corners_in_range(
    tris: Seq<[u32; 3]>,
    tags: Seq<bool>,
    degenerate: Seq<bool>,
    want: bool,
    m: nat,
    n: int,
)
    requires
        m <= tris.len(),
        forall|t: int| 0 <= t < tris.len() ==> tri_in_range(#[trigger] tris[t], n),
    ensures
        forall|k: int|
            0 <= k < selected_corners(tris, tags, degenerate, want, m).len() ==> #[trigger] selected_corners(
                tris,
                tags,
                degenerate,
                want,
                m,
            )[k] < n,
    decreases m,
{
    if m > 0 {
        lemma_selected_corners_in_range(tris, tags, degenerate, want, (m - 1) as nat, n);
        assert(tri_in_range(tris[m - 1], n));
        let rest = selected_corners(tris, tags, degenerate, want, (m - 1) as nat);
        let cur = selected_corners(tris, tags, degenerate, want, m);
        assert forall|k: int| 0 <= k < cur.len() implies #[trigger] cur[k] < n by {
            if k < rest.len() {
                assert(cur[k] == rest[k]);
            }
        }
    }
}

/// Compacting the triangles of a well-formed soup references only vertices the soup has: every
/// source vertex of the compacted mesh names one of the soup's `n` vertices.
pub proof fn lemma_compacted_sources_in_range(
    tris: Seq<[u32; 3]>,
    tags: Seq<bool>,
    degenerate: Seq<bool>,
    want: bool,
    n: int,
)
    requires
        forall|t: int| 0 <= t < tris.len() ==> tri_in_range(#[trigger] tris[t], n),
    ensures
        ({
            let source = first_seen(selected_corners(tris, tags, degenerate, want, tris.len()));
            forall|p: int| 0 <= p < source.len() ==> #[trigger] source[p] < n
        }),
{
    let corners = selected_corners(tris, tags, degenerate, want, tris.len());
    lemma_selected_corners_in_range(tris, tags, degenerate, want, tris.len(), n);
    lemma_first_seen(corners);
    let source = first_seen(corners);
    assert forall|p: int| 0 <= p < source.len() implies #[trigger] source[p] < n by {
        assert(source.contains(source[p]));
        assert(corners.contains(source[p]));
        let k = choose|k: int| 0 <= k < corners.len() && corners[k] == source[p];
        assert(corners[k] < n);
    }
}

} // verus!
