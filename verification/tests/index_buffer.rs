use autogib::index_buffer::{
    compact_faces, expand_faces, index_list_fits, offset_indices, triangle_indices, Indices,
};

#[test]
fn u16_indices_are_widened_and_a_trailing_partial_triangle_dropped() {
    let ix = Indices::U16(vec![0, 1, 2, 2, 1, 3, 7]);
    assert_eq!(triangle_indices(Some(&ix), 0), vec![[0, 1, 2], [2, 1, 3]]);
}

#[test]
fn u32_indices_are_taken_as_they_are() {
    let ix = Indices::U32(vec![9, 8, 7, 70_000, 1, 2]);
    assert_eq!(triangle_indices(Some(&ix), 3), vec![[9, 8, 7], [70_000, 1, 2]]);
}

#[test]
fn a_non_indexed_mesh_is_consecutive_triples() {
    assert_eq!(triangle_indices(None, 7), vec![[0, 1, 2], [3, 4, 5]]);
    assert!(triangle_indices(None, 2).is_empty());
}

#[test]
fn expand_faces_gives_every_triangle_its_own_vertices() {
    let (source, idx) = expand_faces(&vec![[5, 6, 7], [7, 6, 8]]);
    assert_eq!(source, vec![5, 6, 7, 7, 6, 8]);
    assert_eq!(idx, vec![0, 1, 2, 3, 4, 5]);
}

#[test]
fn compact_faces_shares_vertices_in_first_use_order() {
    let tris = vec![[0, 1, 2], [2, 1, 3], [4, 5, 6]];
    let tags = vec![false, false, true];
    let (source, idx) = compact_faces(&tris, &tags, &vec![false, false, false], false).unwrap();
    assert_eq!(source, vec![0, 1, 2, 3]);
    assert_eq!(idx, vec![0, 1, 2, 2, 1, 3]);
    let (source, idx) = compact_faces(&tris, &tags, &vec![false, false, false], true).unwrap();
    assert_eq!(source, vec![4, 5, 6]);
    assert_eq!(idx, vec![0, 1, 2]);
}

#[test]
fn compact_faces_drops_degenerate_triangles() {
    let tris = vec![[0, 1, 2], [2, 1, 3], [4, 5, 6]];
    let tags = vec![false, false, true];
    let (source, idx) = compact_faces(&tris, &tags, &vec![true, false, false], false).unwrap();
    assert_eq!(source, vec![2, 1, 3]);
    assert_eq!(idx, vec![0, 1, 2]);
    assert_eq!(compact_faces(&tris, &tags, &vec![false, false, true], true), None);
}

#[test]
fn offset_indices_moves_a_block_past_existing_vertices() {
    assert_eq!(offset_indices(Some(&Indices::U32(vec![0, 1, 2])), 10), Some(vec![10, 11, 12]));
    assert_eq!(offset_indices(Some(&Indices::U16(vec![3, 0, 65535])), 1), Some(vec![4, 1, 65536]));
    assert_eq!(offset_indices(None, 5), None);
}

#[test]
fn index_list_fits_checks_every_offset_index() {
    assert!(index_list_fits(Some(&Indices::U32(vec![0, 5])), u32::MAX - 5));
    assert!(!index_list_fits(Some(&Indices::U32(vec![0, 6])), u32::MAX - 5));
    assert!(!index_list_fits(Some(&Indices::U16(vec![1])), u32::MAX));
    assert!(index_list_fits(None, u32::MAX));
}
