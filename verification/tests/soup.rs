use autogib::soup::Soup;

#[test]
fn new_soup_is_empty() {
    let s: Soup<u8> = Soup::new();
    assert!(s.is_empty());
    assert!(s.verts.is_empty());
    assert!(s.tri_interior.is_empty());
}

#[test]
fn push_tri_allocates_three_fresh_vertices() {
    let mut s: Soup<char> = Soup::new();
    s.push_tri('a', 'b', 'c', false);
    s.push_tri('d', 'e', 'f', true);
    assert!(!s.is_empty());
    assert_eq!(s.verts, vec!['a', 'b', 'c', 'd', 'e', 'f']);
    assert_eq!(s.idx, vec![[0, 1, 2], [3, 4, 5]]);
    assert_eq!(s.tri_interior, vec![false, true]);
    // Read back what was written.
    let t = s.idx[1];
    assert_eq!((*s.vtx(t[0]), *s.vtx(t[1]), *s.vtx(t[2])), ('d', 'e', 'f'));
}

#[test]
fn append_block_offsets_and_drops_out_of_range_triangles() {
    let mut s: Soup<u32> = Soup::new();
    s.push_tri(100, 101, 102, true);
    let tris = vec![[0, 1, 2], [2, 1, 3], [0, 4, 1], [3, 2, 1]];
    s.append_block(vec![10, 11, 12, 13], &tris, false);
    assert_eq!(s.verts, vec![100, 101, 102, 10, 11, 12, 13]);
    // `[0, 4, 1]` names a vertex the block does not have and is dropped.
    assert_eq!(s.idx, vec![[0, 1, 2], [3, 4, 5], [5, 4, 6], [6, 5, 4]]);
    assert_eq!(s.tri_interior, vec![true, false, false, false]);
}

#[test]
fn push_fan_triangulates_from_the_first_point() {
    let mut s: Soup<char> = Soup::new();
    s.push_fan(&vec!['p', 'q', 'r', 's'], true);
    assert_eq!(s.verts, vec!['p', 'q', 'r', 'p', 'r', 's']);
    assert_eq!(s.idx, vec![[0, 1, 2], [3, 4, 5]]);
    assert_eq!(s.tri_interior, vec![true, true]);
}

#[test]
fn push_fan_of_fewer_than_three_points_emits_nothing() {
    let mut s: Soup<char> = Soup::new();
    s.push_fan(&vec!['p', 'q'], false);
    s.push_fan(&vec![], false);
    assert!(s.is_empty());
    assert!(s.verts.is_empty());
}
