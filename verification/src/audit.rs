//! The record of what one finished fragment turned out to be, once its skin and cap have been
//! welded and validated together.
//!
//! The counts are the validator's; the two collider answers are `isomesh`'s documented collider
//! policy applied to them, not this crate's opinion.

use vstd::prelude::*;
use vstd::std_specs::cmp::PartialEqSpec;

verus! {

/// The counts a mesh validation reports, as plain numbers.
#[derive(Clone, Copy, Debug, PartialEq, Eq, Structural)]
pub struct ValidationCounts {
    /// Faces the validator considered.
    pub faces: u64,
    /// Faces it skipped for an out-of-range or repeated index.
    pub faces_skipped: u64,
    /// Vertices at the same position that no index shares.
    pub duplicate_vertices: u64,
    /// Triangles with no area.
    pub degenerate_triangles: u64,
    /// Indices naming a vertex that does not exist.
    pub out_of_range_indices: u64,
    /// Indices past the last complete triangle.
    pub trailing_indices: u64,
    /// Positions that are not finite.
    pub non_finite_positions: u64,
    /// Edges incident to exactly one face.
    pub boundary_edges: u64,
    /// Edges incident to three or more faces.
    pub non_manifold_edges: u64,
    /// Vertices whose incident faces are not one fan.
    pub non_manifold_vertices: u64,
    /// Edges whose two faces traverse them the same way.
    pub inconsistently_oriented_edges: u64,
    /// `V − E + F` over referenced vertices.
    pub euler_characteristic: i64,
    /// Genus, where the formula applies.
    pub genus: Option<i64>,
}

/// Usable as a trimesh, by `isomesh`'s collider policy: some triangles, and no skipped face,
/// out-of-range index, trailing partial triangle or non-finite position.
pub open spec fn usable_spec(c: ValidationCounts) -> bool {
    &&& c.faces > 0
    &&& c.faces_skipped == 0
    &&& c.out_of_range_indices == 0
    &&& c.trailing_indices == 0
    &&& c.non_finite_positions == 0
}

/// A solid for inside/outside queries, by `isomesh`'s collider policy: usable, closed, edge- and
/// vertex-manifold, consistently wound.
pub open spec fn inside_outside_spec(c: ValidationCounts) -> bool {
    &&& usable_spec(c)
    &&& c.boundary_edges == 0
    &&& c.non_manifold_edges == 0
    &&& c.non_manifold_vertices == 0
    &&& c.inconsistently_oriented_edges == 0
}

/// Calls `isomesh::collider::ColliderReadiness::is_usable` on the readiness that
/// `isomesh::collider::from_report` would build from these counts (a field-for-field copy).
/// Claims what that method's source computes: `triangles > 0` and zero skipped triangles,
/// out-of-range indices, trailing indices and non-finite positions.
#[verifier::external_body]
fn readiness_is_usable(c: &ValidationCounts) -> (b: bool)
    ensures
        b == usable_spec(*c),
{
    let r = isomesh::collider::ColliderReadiness { triangles: c.faces,
        triangles_skipped: c.faces_skipped, duplicate_vertices: c.duplicate_vertices,
        degenerate_triangles: c.degenerate_triangles, out_of_range_indices: c.out_of_range_indices,
        trailing_indices: c.trailing_indices, non_finite_positions: c.non_finite_positions,
        boundary_edges: c.boundary_edges, non_manifold_edges: c.non_manifold_edges,
        non_manifold_vertices: c.non_manifold_vertices,
        inconsistently_oriented_edges: c.inconsistently_oriented_edges };
    r.is_usable()
}

/// Calls `isomesh::collider::ColliderReadiness::supports_inside_outside` on the readiness that
/// `isomesh::collider::from_report` would build from these counts (a field-for-field copy).
/// Claims what that method's source computes: `is_usable()` and zero boundary edges,
/// non-manifold edges, non-manifold vertices and inconsistently oriented edges.
#[verifier::external_body]
fn readiness_supports_inside_outside(c: &ValidationCounts) -> (b: bool)
    ensures
        b == inside_outside_spec(*c),
{
    let r = isomesh::collider::ColliderReadiness { triangles: c.faces,
        triangles_skipped: c.faces_skipped, duplicate_vertices: c.duplicate_vertices,
        degenerate_triangles: c.degenerate_triangles, out_of_range_indices: c.out_of_range_indices,
        trailing_indices: c.trailing_indices, non_finite_positions: c.non_finite_positions,
        boundary_edges: c.boundary_edges, non_manifold_edges: c.non_manifold_edges,
        non_manifold_vertices: c.non_manifold_vertices,
        inconsistently_oriented_edges: c.inconsistently_oriented_edges };
    r.supports_inside_outside()
}

/// What one finished fragment turned out to be.
///
/// `signed_volume_bits` holds the bit pattern of the `f32` signed volume of the welded surface,
/// `(1/6)·Σ (a × b)·c`; it is a volume only when the surface is closed and consistently wound.
/// Two audits are equal when every count and flag is equal and the volumes are equal as floats
/// (see [`float_bits_eq`]).
#[derive(Clone, Copy, Debug)]
pub struct FragmentAudit {
    /// Triangles the validator actually considered.
    pub triangles: u64,
    /// Vertices in the buffer as shipped, before the audit's weld.
    pub vertices_before_weld: u64,
    /// Vertices after welding coincident positions.
    pub vertices_after_weld: u64,
    /// Edges incident to exactly one face; zero is watertight.
    pub boundary_edges: u64,
    /// Edges incident to three or more faces.
    pub non_manifold_edges: u64,
    /// Vertices whose incident faces do not form a single fan.
    pub non_manifold_vertices: u64,
    /// Edges whose two faces traverse them the same way.
    pub inconsistently_oriented_edges: u64,
    /// `V − E + F` over the welded surface; a closed shard should be `2`.
    pub euler_characteristic: i64,
    /// Genus, when the surface is a single oriented manifold component.
    pub genus: Option<i64>,
    /// The fragment can be handed to a solver as a triangle mesh at all.
    pub usable_as_trimesh: bool,
    /// The fragment is closed, manifold and consistently wound: really a solid.
    pub supports_inside_outside: bool,
    /// Bit pattern of the `f32` signed volume of the welded surface.
    pub signed_volume_bits: u32,
}

/// The magnitude bits of a single-precision pattern: everything but the sign.
pub open spec fn magnitude(bits: u32) -> int {
    bits as int % 0x8000_0000
}

/// The pattern encodes a NaN: all exponent bits set and a non-zero fraction.
pub open spec fn is_nan_bits(bits: u32) -> bool {
    magnitude(bits) > 0x7F80_0000
}

/// IEEE equality of the two floats these patterns encode: a NaN equals nothing, `+0.0` equals
/// `-0.0`, and every other value equals exactly its own pattern.
pub open spec fn float_bits_eq(a: u32, b: u32) -> bool {
    &&& !is_nan_bits(a)
    &&& !is_nan_bits(b)
    &&& (a == b || (magnitude(a) == 0 && magnitude(b) == 0))
}

/// Float equality of two single-precision bit patterns; see [`float_bits_eq`].
pub fn float_bits_equal(a: u32, b: u32) -> (r: bool)
    ensures
        r == float_bits_eq(a, b),
{
    let ma = a % 0x8000_0000;
    let mb = b % 0x8000_0000;
    if ma > 0x7F80_0000 || mb > 0x7F80_0000 {
        false
    } else {
        a == b || (ma == 0 && mb == 0)
    }
}

/// Field-wise equality of two audits, the volume compared as a float.
pub open spec fn audit_eq(a: FragmentAudit, b: FragmentAudit) -> bool {
    &&& a.triangles == b.triangles
    &&& a.vertices_before_weld == b.vertices_before_weld
    &&& a.vertices_after_weld == b.vertices_after_weld
    &&& a.boundary_edges == b.boundary_edges
    &&& a.non_manifold_edges == b.non_manifold_edges
    &&& a.non_manifold_vertices == b.non_manifold_vertices
    &&& a.inconsistently_oriented_edges == b.inconsistently_oriented_edges
    &&& a.euler_characteristic == b.euler_characteristic
    &&& a.genus == b.genus
    &&& a.usable_as_trimesh == b.usable_as_trimesh
    &&& a.supports_inside_outside == b.supports_inside_outside
    &&& float_bits_eq(a.signed_volume_bits, b.signed_volume_bits)
}

impl PartialEq for FragmentAudit {
    fn eq(&self, other: &Self) -> (r: bool) {
        let genus_eq = match (self.genus, other.genus) {
            (None, None) => true,
            (Some(x), Some(y)) => x == y,
            _ => false,
        };
        self.triangles == other.triangles && self.vertices_before_weld == other.vertices_before_weld
            && self.vertices_after_weld == other.vertices_after_weld && self.boundary_edges
            == other.boundary_edges && self.non_manifold_edges == other.non_manifold_edges
            && self.non_manifold_vertices == other.non_manifold_vertices
            && self.inconsistently_oriented_edges == other.inconsistently_oriented_edges
            && self.euler_characteristic == other.euler_characteristic && genus_eq
            && self.usable_as_trimesh == other.usable_as_trimesh && self.supports_inside_outside
            == other.supports_inside_outside && float_bits_equal(
            self.signed_volume_bits,
            other.signed_volume_bits,
        )
    }
}

impl vstd::std_specs::cmp::PartialEqSpecImpl for FragmentAudit {
    open spec fn obeys_eq_spec() -> bool {
        true
    }

    open spec fn eq_spec(&self, other: &FragmentAudit) -> bool {
        audit_eq(*self, *other)
    }
}

/// The audit of a fragment whose welded surface validated to `c`.
pub open spec fn audit_of(
    c: ValidationCounts,
    vertices_before_weld: u64,
    vertices_after_weld: u64,
    signed_volume_bits: u32,
) -> FragmentAudit {
    FragmentAudit {
        triangles: c.faces,
        vertices_before_weld,
        vertices_after_weld,
        boundary_edges: c.boundary_edges,
        non_manifold_edges: c.non_manifold_edges,
        non_manifold_vertices: c.non_manifold_vertices,
        inconsistently_oriented_edges: c.inconsistently_oriented_edges,
        euler_characteristic: c.euler_characteristic,
        genus: c.genus,
        usable_as_trimesh: usable_spec(c),
        supports_inside_outside: inside_outside_spec(c),
        signed_volume_bits,
    }
}

impl FragmentAudit {
    /// No boundary edges.
    pub open spec fn closed_spec(&self) -> bool {
        self.boundary_edges == 0
    }

    /// No non-manifold edges or vertices.
    pub open spec fn manifold_spec(&self) -> bool {
        self.non_manifold_edges == 0 && self.non_manifold_vertices == 0
    }

    /// Every structural fault, summed.
    pub open spec fn violations_spec(&self) -> int {
        self.boundary_edges + self.non_manifold_edges + self.non_manifold_vertices
            + self.inconsistently_oriented_edges
    }

    /// Build the audit from the validator's counts of the welded skin ∪ cap, the vertex counts
    /// either side of the weld, and the bits of the signed volume.
    pub fn from_counts(
        c: &ValidationCounts,
        vertices_before_weld: u64,
        vertices_after_weld: u64,
        signed_volume_bits: u32,
    ) -> (a: FragmentAudit)
        ensures
            a == audit_of(*c, vertices_before_weld, vertices_after_weld, signed_volume_bits),
            a.triangles == c.faces,
            a.vertices_before_weld == vertices_before_weld,
            a.vertices_after_weld == vertices_after_weld,
            a.boundary_edges == c.boundary_edges,
            a.non_manifold_edges == c.non_manifold_edges,
            a.non_manifold_vertices == c.non_manifold_vertices,
            a.inconsistently_oriented_edges == c.inconsistently_oriented_edges,
            a.euler_characteristic == c.euler_characteristic,
            a.genus == c.genus,
            a.signed_volume_bits == signed_volume_bits,
            a.closed_spec() <==> c.boundary_edges == 0,
            a.manifold_spec() <==> (c.non_manifold_edges == 0 && c.non_manifold_vertices == 0),
            a.violations_spec() == c.boundary_edges + c.non_manifold_edges + c.non_manifold_vertices
                + c.inconsistently_oriented_edges,
            a.usable_as_trimesh <==> (c.faces > 0 && c.faces_skipped == 0 && c.out_of_range_indices
                == 0 && c.trailing_indices == 0 && c.non_finite_positions == 0),
            a.supports_inside_outside <==> (a.usable_as_trimesh && c.boundary_edges == 0
                && c.non_manifold_edges == 0 && c.non_manifold_vertices == 0
                && c.inconsistently_oriented_edges == 0),
    {
        FragmentAudit {
            triangles: c.faces,
            vertices_before_weld,
            vertices_after_weld,
            boundary_edges: c.boundary_edges,
            non_manifold_edges: c.non_manifold_edges,
            non_manifold_vertices: c.non_manifold_vertices,
            inconsistently_oriented_edges: c.inconsistently_oriented_edges,
            euler_characteristic: c.euler_characteristic,
            genus: c.genus,
            usable_as_trimesh: readiness_is_usable(c),
            supports_inside_outside: readiness_supports_inside_outside(c),
            signed_volume_bits,
        }
    }

    /// No boundary edges: the shard's surface closes on itself.
    pub fn is_closed(&self) -> (b: bool)
        ensures
            b == self.closed_spec(),
    {
        self.boundary_edges == 0
    }

    /// No non-manifold edges or vertices.
    pub fn is_manifold(&self) -> (b: bool)
        ensures
            b == self.manifold_spec(),
    {
        self.non_manifold_edges == 0 && self.non_manifold_vertices == 0
    }

    /// Every structural fault at once — the single number to trend.
    pub fn violations(&self) -> (v: u64)
        requires
            self.violations_spec() <= u64::MAX,
        ensures
            v == self.violations_spec(),
    {
        self.boundary_edges + self.non_manifold_edges + self.non_manifold_vertices
            + self.inconsistently_oriented_edges
    }
}

/// No violations is exactly closed, manifold and consistently wound.
pub proof fn lemma_no_violations_is_clean(a: FragmentAudit)
    ensures
        a.violations_spec() == 0 <==> (a.closed_spec() && a.manifold_spec()
            && a.inconsistently_oriented_edges == 0),
{
}

/// An audited fragment that supports inside/outside queries is usable, closed, manifold and
/// free of violations; and a usable fragment with no violations supports them.
pub proof fn lemma_solid_iff_usable_and_clean(
    c: ValidationCounts,
    vertices_before_weld: u64,
    vertices_after_weld: u64,
    signed_volume_bits: u32,
)
    ensures
        ({
            let a = audit_of(c, vertices_before_weld, vertices_after_weld, signed_volume_bits);
            a.supports_inside_outside <==> (a.usable_as_trimesh && a.violations_spec() == 0)
        }),
{
}

/// The successful results of `results`, in order; every error is dropped.
pub open spec fn ok_values<T, E>(results: Seq<Result<T, E>>) -> Seq<T>
    decreases results.len(),
{
    if results.len() == 0 {
        Seq::empty()
    } else {
        let rest = ok_values(results.drop_last());
        match results.last() {
            Ok(v) => rest.push(v),
            Err(_) => rest,
        }
    }
}

/// Keep the audits that succeeded, in fragment order, and drop the fragments that could not be
/// measured: the list may be shorter than the fragments, never padded.
pub fn keep_measured<E>(results: Vec<Result<FragmentAudit, E>>) -> (audits: Vec<FragmentAudit>)
    ensures
        audits@ == ok_values(results@),
        audits@.len() <= results@.len(),
{
    let ghost all = results@;
    let mut audits: Vec<FragmentAudit> = Vec::new();
    let mut taken: Vec<Result<FragmentAudit, E>> = Vec::new();
    let mut rest = results;
    // Walk from the front: reverse once, then pop.
    let n = rest.len();
    let mut i: usize = 0;
    while i < n
        invariant
            0 <= i <= n,
            n == all.len(),
            rest@ == all.take((n - i) as int),
            taken@ == all.skip((n - i) as int).reverse(),
        decreases n - i,
    {
        let r = rest.pop().unwrap();
        taken.push(r);
        proof {
            assert(rest@ =~= all.take((n - i - 1) as int));
            assert(taken@ =~= all.skip((n - i - 1) as int).reverse());
        }
        i = i + 1;
    }
    proof {
        assert(taken@ =~= all.reverse());
    }
    let mut j: usize = 0;
    while j < n
        invariant
            0 <= j <= n,
            n == all.len(),
            taken@ == all.reverse().take((n - j) as int),
            audits@ == ok_values(all.take(j as int)),
            audits@.len() <= j,
        decreases n - j,
    {
        let r = taken.pop().unwrap();
        proof {
            assert(r == all[j as int]);
            assert(all.take(j + 1).drop_last() =~= all.take(j as int));
            assert(taken@ =~= all.reverse().take((n - j - 1) as int));
        }
        match r {
            Ok(a) => audits.push(a),
            Err(_) => {},
        }
        j = j + 1;
    }
    proof {
        assert(all.take(n as int) =~= all);
    }
    audits
}

/// An audit reports each of the validator's counts under that count's own name, and answers
/// closed, manifold and violations from exactly the counts those words name: closed from the
/// boundary edges, manifold from the non-manifold edges and vertices, violations as the sum of the
/// four fault counts, whatever the other counts hold.
pub proof fn lemma_audit_reports_counts_by_name(
    c: ValidationCounts,
    vertices_before_weld: u64,
    vertices_after_weld: u64,
    signed_volume_bits: u32,
)
    ensures
        ({
            let a = audit_of(c, vertices_before_weld, vertices_after_weld, signed_volume_bits);
            &&& a.triangles == c.faces
            &&& a.boundary_edges == c.boundary_edges
            &&& a.non_manifold_edges == c.non_manifold_edges
            &&& a.non_manifold_vertices == c.non_manifold_vertices
            &&& a.inconsistently_oriented_edges == c.inconsistently_oriented_edges
            &&& a.euler_characteristic == c.euler_characteristic
            &&& a.genus == c.genus
            &&& a.vertices_before_weld == vertices_before_weld
            &&& a.vertices_after_weld == vertices_after_weld
            &&& a.signed_volume_bits == signed_volume_bits
            &&& (a.closed_spec() <==> c.boundary_edges == 0)
            &&& (a.manifold_spec() <==> c.non_manifold_edges == 0 && c.non_manifold_vertices == 0)
            &&& a.violations_spec() == c.boundary_edges + c.non_manifold_edges
                + c.non_manifold_vertices + c.inconsistently_oriented_edges
        }),
{
}

/// Audits compare equal exactly when they agree on every count and flag and their volumes are
/// equal as floats: equal bit patterns that are not NaN, or two zeros of either sign.
pub proof fn lemma_audit_eq_is_fieldwise(a: FragmentAudit, b: FragmentAudit)
    ensures
        a.eq_spec(&b) <==> ({
            &&& a.triangles == b.triangles
            &&& a.vertices_before_weld == b.vertices_before_weld
            &&& a.vertices_after_weld == b.vertices_after_weld
            &&& a.boundary_edges == b.boundary_edges
            &&& a.non_manifold_edges == b.non_manifold_edges
            &&& a.non_manifold_vertices == b.non_manifold_vertices
            &&& a.inconsistently_oriented_edges == b.inconsistently_oriented_edges
            &&& a.euler_characteristic == b.euler_characteristic
            &&& a.genus == b.genus
            &&& a.usable_as_trimesh == b.usable_as_trimesh
            &&& a.supports_inside_outside == b.supports_inside_outside
            &&& a.signed_volume_bits % 0x8000_0000 <= 0x7F80_0000
            &&& b.signed_volume_bits % 0x8000_0000 <= 0x7F80_0000
            &&& (a.signed_volume_bits == b.signed_volume_bits || (a.signed_volume_bits
                % 0x8000_0000 == 0 && b.signed_volume_bits % 0x8000_0000 == 0))
        }),
{
}

/// Equality of audits is symmetric, and an audit whose volume is not NaN equals itself.
pub proof fn lemma_audit_eq_symmetric_and_reflexive(a: FragmentAudit, b: FragmentAudit)
    ensures
        a.eq_spec(&b) <==> b.eq_spec(&a),
        a.signed_volume_bits % 0x8000_0000 <= 0x7F80_0000 ==> a.eq_spec(&a),
{
}

} // verus!
