use autogib::clip::{clip_plan, PolyPoint};
use autogib::clip::PolyPoint::{Corner, Crossing};

#[test]
fn a_plane_through_two_edges_splits_into_quad_and_triangle() {
    let above = clip_plan([1, 1, -1], true);
    let below = clip_plan([1, 1, -1], false);
    assert_eq!(above, vec![Corner(0), Corner(1), Crossing(1, 2), Crossing(2, 0)]);
    assert_eq!(below, vec![Crossing(1, 2), Corner(2), Crossing(2, 0)]);
}

#[test]
fn an_on_plane_corner_is_kept_by_both_halves() {
    let above = clip_plan([0, 1, -1], true);
    let below = clip_plan([0, 1, -1], false);
    assert_eq!(above, vec![Corner(0), Corner(1), Crossing(1, 2)]);
    assert_eq!(below, vec![Corner(0), Crossing(1, 2), Corner(2)]);
}

#[test]
fn a_triangle_on_one_side_is_kept_whole_or_not_at_all() {
    assert_eq!(clip_plan([1, 0, 1], true), vec![Corner(0), Corner(1), Corner(2)]);
    let below: Vec<PolyPoint> = clip_plan([1, 0, 1], false);
    assert_eq!(below, vec![Corner(1)]);
    assert!(clip_plan([1, 1, 1], false).is_empty());
}

#[test]
fn a_clipped_triangle_never_has_more_than_four_points() {
    for a in -1..=1 {
        for b in -1..=1 {
            for c in -1..=1 {
                for keep in [true, false] {
                    assert!(clip_plan([a, b, c], keep).len() <= 4);
                }
            }
        }
    }
}
