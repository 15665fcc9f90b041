use autogib::schedule::{first_containing, total_order_key, CutScheduler, CutStep};

#[test]
fn total_order_key_orders_like_total_cmp() {
    let xs = [
        f32::NEG_INFINITY, -2.5, -1.0, -f32::MIN_POSITIVE, -0.0, 0.0, f32::MIN_POSITIVE, 0.5, 1.0,
        3.0e38, f32::INFINITY, f32::NAN, -f32::NAN,
    ];
    for a in xs {
        for b in xs {
            assert_eq!(
                total_order_key(a.to_bits()).cmp(&total_order_key(b.to_bits())),
                a.total_cmp(&b),
                "{a} vs {b}"
            );
        }
    }
}

#[test]
fn the_largest_splittable_cell_is_cut_first() {
    let mut s = CutScheduler::new(4, 7, 1);
    assert_eq!(s.hard_cap, 96);
    let step = s.next(&vec![1.0f32.to_bits()]);
    assert_eq!(step, CutStep::Cut { piece: 0, seed: 8, toward_impact: true });
    s.split();
    // Equal volumes: the lower index wins.
    let step = s.next(&vec![0.5f32.to_bits(), 0.5f32.to_bits()]);
    assert_eq!(step, CutStep::Cut { piece: 0, seed: 2654435770, toward_impact: true });
    // A cell whose cut missed is never offered again.
    s.reject(0);
    let step = s.next(&vec![0.5f32.to_bits(), 0.25f32.to_bits()]);
    assert_eq!(step, CutStep::Cut { piece: 1, seed: 1013904235, toward_impact: false });
    assert_eq!(s.cut_index, 2);
    assert_eq!(s.unsplittable, vec![true, false]);
}

#[test]
fn the_scheduler_stops_at_the_target() {
    let mut s = CutScheduler::new(2, 1, 1);
    assert!(matches!(s.next(&vec![1.0f32.to_bits()]), CutStep::Cut { .. }));
    s.split();
    assert_eq!(s.next(&vec![0.5f32.to_bits(), 0.5f32.to_bits()]), CutStep::Stop);
}

#[test]
fn a_target_of_zero_still_keeps_one_piece() {
    let s = CutScheduler::new(0, 1, 1);
    assert_eq!(s.next(&vec![1.0f32.to_bits()]), CutStep::Stop);
}

#[test]
fn the_scheduler_stops_when_every_cell_is_unsplittable() {
    let mut s = CutScheduler::new(8, 3, 2);
    s.reject(0);
    s.reject(1);
    assert_eq!(s.next(&vec![2.0f32.to_bits(), 1.0f32.to_bits()]), CutStep::Stop);
}

#[test]
fn the_scheduler_stops_when_the_budget_is_spent() {
    let mut s = CutScheduler::new(1000, 3, 1);
    assert_eq!(s.hard_cap, 16_032);
    for _ in 0..s.hard_cap {
        s.reject(0);
    }
    assert_eq!(s.cut_index, s.hard_cap);
    assert_eq!(s.next(&vec![1.0f32.to_bits()]), CutStep::Stop);
}

#[test]
fn with_no_cells_there_is_nothing_to_cut() {
    let s = CutScheduler::new(4, 3, 0);
    assert_eq!(s.next(&vec![]), CutStep::Stop);
}

#[test]
fn a_triangle_rides_with_the_first_containing_cell() {
    assert_eq!(first_containing(&vec![false, true, true]), Some(1));
    assert_eq!(first_containing(&vec![true, true]), Some(0));
    assert_eq!(first_containing(&vec![false, false]), None);
    assert_eq!(first_containing(&vec![]), None);
}
