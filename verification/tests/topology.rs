use vzglyd_clock::topology::{mesh_indices, shape_vertex_count, IndexBuffer, Shape};

#[test]
fn quad_is_two_triangles_over_four_vertices() {
    let mut buf = IndexBuffer::new();
    buf.push_quad();
    buf.push_quad();
    assert_eq!(buf.vertex_count(), 8);
    assert_eq!(buf.into_indices(), vec![0, 1, 2, 0, 2, 3, 4, 5, 6, 4, 6, 7]);
}

#[test]
fn push_vertex_returns_consecutive_indices() {
    let mut buf = IndexBuffer::new();
    assert_eq!(buf.push_vertex(), 0);
    assert_eq!(buf.push_vertex(), 1);
    assert_eq!(buf.vertex_count(), 2);
    assert_eq!(buf.index_count(), 0);
}

#[test]
fn front_and_back_fans_wind_opposite_ways() {
    let mut front = IndexBuffer::new();
    front.push_fan(2, true);
    assert_eq!(front.vertex_count(), 5);
    assert_eq!(front.into_indices(), vec![0, 1, 2, 0, 3, 4]);

    let mut back = IndexBuffer::new();
    back.push_fan(2, false);
    assert_eq!(back.into_indices(), vec![0, 2, 1, 0, 4, 3]);
}

#[test]
fn shape_sizes() {
    assert_eq!(shape_vertex_count(Shape::Annulus), 1024);
    assert_eq!(shape_vertex_count(Shape::Disc { front_facing: true }), 129);
    assert_eq!(shape_vertex_count(Shape::Cuboid), 24);
}

#[test]
fn cuboid_plan_after_disc() {
    let indices = mesh_indices(&[Shape::Disc { front_facing: false }, Shape::Cuboid]).unwrap();
    assert_eq!(indices.len(), 192 + 36);
    assert_eq!(&indices[0..3], &[0, 2, 1]);
    assert_eq!(&indices[192..198], &[129, 130, 131, 129, 131, 132]);
    assert_eq!(*indices.iter().max().unwrap(), 129 + 23);
}

#[test]
fn plan_exactly_filling_sixteen_bit_indices() {
    let plan = vec![Shape::Annulus; 64];
    let indices = mesh_indices(&plan).unwrap();
    assert_eq!(indices.len(), 64 * 1536);
    assert_eq!(*indices.iter().max().unwrap(), u16::MAX);
}

#[test]
fn plan_beyond_sixteen_bit_indices_is_refused() {
    let plan = vec![Shape::Annulus; 65];
    assert_eq!(mesh_indices(&plan), None);
}

#[test]
fn empty_plan_has_no_indices() {
    assert_eq!(mesh_indices(&[]), Some(vec![]));
}
