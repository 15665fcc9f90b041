use autogib::audit::{float_bits_equal, keep_measured, FragmentAudit, ValidationCounts};

fn closed_box() -> ValidationCounts {
    ValidationCounts {
        faces: 12,
        faces_skipped: 0,
        duplicate_vertices: 0,
        degenerate_triangles: 0,
        out_of_range_indices: 0,
        trailing_indices: 0,
        non_finite_positions: 0,
        boundary_edges: 0,
        non_manifold_edges: 0,
        non_manifold_vertices: 0,
        inconsistently_oriented_edges: 0,
        euler_characteristic: 2,
        genus: Some(0),
    }
}

#[test]
fn a_closed_box_is_a_solid() {
    let a = FragmentAudit::from_counts(&closed_box(), 36, 8, 1.0f32.to_bits());
    assert_eq!(a.triangles, 12);
    assert_eq!(a.vertices_before_weld, 36);
    assert_eq!(a.vertices_after_weld, 8);
    assert_eq!(a.euler_characteristic, 2);
    assert_eq!(a.genus, Some(0));
    assert!(a.is_closed());
    assert!(a.is_manifold());
    assert_eq!(a.violations(), 0);
    assert!(a.usable_as_trimesh);
    assert!(a.supports_inside_outside);
    assert_eq!(f32::from_bits(a.signed_volume_bits), 1.0);
}

#[test]
fn an_open_fragment_is_usable_but_not_solid() {
    let c = ValidationCounts { boundary_edges: 4, genus: None, euler_characteristic: 1, ..closed_box() };
    let a = FragmentAudit::from_counts(&c, 30, 7, 0);
    assert!(!a.is_closed());
    assert!(a.is_manifold());
    assert_eq!(a.violations(), 4);
    assert!(a.usable_as_trimesh);
    assert!(!a.supports_inside_outside);
}

#[test]
fn a_bowtie_vertex_breaks_inside_outside_support() {
    let c = ValidationCounts { non_manifold_vertices: 1, ..closed_box() };
    let a = FragmentAudit::from_counts(&c, 36, 8, 0);
    assert!(a.is_closed());
    assert!(!a.is_manifold());
    assert!(a.usable_as_trimesh);
    assert!(!a.supports_inside_outside);
}

#[test]
fn an_empty_or_malformed_mesh_is_not_usable() {
    let empty = ValidationCounts { faces: 0, ..closed_box() };
    let a = FragmentAudit::from_counts(&empty, 0, 0, 0);
    assert!(!a.usable_as_trimesh);
    assert!(!a.supports_inside_outside);
    for c in [
        ValidationCounts { faces_skipped: 1, ..closed_box() },
        ValidationCounts { out_of_range_indices: 2, ..closed_box() },
        ValidationCounts { trailing_indices: 1, ..closed_box() },
        ValidationCounts { non_finite_positions: 3, ..closed_box() },
    ] {
        let a = FragmentAudit::from_counts(&c, 36, 8, 0);
        assert!(!a.usable_as_trimesh, "{c:?}");
        assert!(!a.supports_inside_outside, "{c:?}");
    }
    // Duplicates and degenerate triangles are recorded, not structural faults.
    let c = ValidationCounts { duplicate_vertices: 5, degenerate_triangles: 2, ..closed_box() };
    assert!(FragmentAudit::from_counts(&c, 36, 8, 0).supports_inside_outside);
}

#[test]
fn violations_sum_every_structural_fault() {
    let c = ValidationCounts {
        boundary_edges: 1,
        non_manifold_edges: 2,
        non_manifold_vertices: 3,
        inconsistently_oriented_edges: 4,
        ..closed_box()
    };
    let a = FragmentAudit::from_counts(&c, 36, 8, 0);
    assert_eq!(a.violations(), 10);
    assert!(!a.is_closed());
    assert!(!a.is_manifold());
}

#[test]
fn audits_compare_their_volumes_as_floats() {
    let pos = FragmentAudit::from_counts(&closed_box(), 36, 8, 0.0f32.to_bits());
    let neg = FragmentAudit::from_counts(&closed_box(), 36, 8, (-0.0f32).to_bits());
    assert!(pos == neg, "+0.0 and -0.0 are the same volume");
    let nan = FragmentAudit::from_counts(&closed_box(), 36, 8, f32::NAN.to_bits());
    assert!(nan != nan, "a NaN volume equals nothing, itself included");
    let one = FragmentAudit::from_counts(&closed_box(), 36, 8, 1.0f32.to_bits());
    assert!(one == one);
    assert!(one != pos);
    let other = FragmentAudit::from_counts(&closed_box(), 36, 9, 1.0f32.to_bits());
    assert!(one != other);
}

#[test]
fn float_bits_equal_is_ieee_equality() {
    let xs = [0.0f32, -0.0, 1.0, -1.0, f32::INFINITY, f32::NEG_INFINITY, f32::NAN, f32::MIN_POSITIVE];
    for a in xs {
        for b in xs {
            assert_eq!(float_bits_equal(a.to_bits(), b.to_bits()), a == b, "{a} vs {b}");
        }
    }
}

#[test]
fn keep_measured_drops_failures_in_order() {
    let a = FragmentAudit::from_counts(&closed_box(), 36, 8, 1.0f32.to_bits());
    let b = FragmentAudit::from_counts(&closed_box(), 30, 8, 2.0f32.to_bits());
    let results: Vec<Result<FragmentAudit, String>> =
        vec![Err("nothing to draw".to_string()), Ok(a), Err("bad weld".to_string()), Ok(b)];
    let kept = keep_measured(results);
    assert_eq!(kept.len(), 2);
    assert_eq!(kept[0].vertices_before_weld, 36);
    assert_eq!(kept[1].vertices_before_weld, 30);
    assert!(keep_measured(Vec::<Result<FragmentAudit, String>>::new()).is_empty());
}
