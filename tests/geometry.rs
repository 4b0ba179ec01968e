use roa::geometry::RectangleProvider;

#[test]
fn rectangle_gives_four_corners_and_two_triangles() {
    let rect = RectangleProvider::new_from_size_components(10, 20, 'c');
    let (verts, indices) = rect.provide();
    assert_eq!(verts.len(), 4);
    let positions: Vec<(u32, u32)> = verts.iter().map(|v| v.position).collect();
    assert_eq!(positions, vec![(0, 0), (10, 0), (10, 20), (0, 20)]);
    let tex: Vec<(u32, u32)> = verts.iter().map(|v| v.tex_coords).collect();
    assert_eq!(tex, vec![(0, 0), (1, 0), (1, 1), (0, 1)]);
    assert!(verts.iter().all(|v| v.color == 'c'));
    assert_eq!(indices, Some(vec![0, 1, 2, 2, 0, 3]));
}

#[test]
fn empty_rectangle_still_has_its_corners() {
    let rect = RectangleProvider::new_from_size_components(0, 0, ());
    let (verts, indices) = rect.provide();
    assert_eq!(verts.len(), 4);
    assert!(verts.iter().all(|v| v.position == (0, 0)));
    assert_eq!(indices.map(|i| i.len()), Some(6));
}
