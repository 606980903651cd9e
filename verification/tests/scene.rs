use vzglyd_clock::cell::{annulus_faces, cuboid_faces, Axis, CellCorner, CellFace};
use vzglyd_clock::scene::{
    body_mesh_indices, body_part_shape, body_parts, body_plan, draw_plan, effect_mesh_indices,
    effect_parts, marker_is_major, mesh_slot, sky_mesh_indices, BodyPart, DrawPlan, EffectPart,
    Pipeline, SceneMesh, BODY_INDICES, BODY_VERTICES, EFFECT_INDICES, EFFECT_VERTICES,
};
use vzglyd_clock::noise::{NOISE_TEXTURE_SIZE, TEXEL_BYTES};
use vzglyd_clock::scene::SKY_VERTICES;
use vzglyd_clock::topology::{mesh_indices, Shape};

#[test]
fn body_parts_in_layout_order() {
    let parts = body_parts();
    assert_eq!(parts.len(), 21);
    assert_eq!(
        &parts[0..5],
        &[BodyPart::Bezel, BodyPart::InnerRim, BodyPart::Face, BodyPart::Back, BodyPart::Crown]
    );
    for i in 0..12u8 {
        assert_eq!(parts[5 + i as usize], BodyPart::Marker { index: i });
    }
    assert_eq!(
        &parts[17..],
        &[BodyPart::HourHand, BodyPart::MinuteHand, BodyPart::SecondHand, BodyPart::CenterCap]
    );
}

#[test]
fn body_part_shapes() {
    assert_eq!(body_part_shape(BodyPart::Bezel), Shape::Annulus);
    assert_eq!(body_part_shape(BodyPart::CenterCap), Shape::Annulus);
    assert_eq!(body_part_shape(BodyPart::Face), Shape::Disc { front_facing: true });
    assert_eq!(body_part_shape(BodyPart::Back), Shape::Disc { front_facing: false });
    assert_eq!(body_part_shape(BodyPart::Marker { index: 4 }), Shape::Cuboid);
    assert_eq!(body_part_shape(BodyPart::SecondHand), Shape::Cuboid);
    assert_eq!(body_plan().len(), 21);
}

#[test]
fn every_third_marker_is_major() {
    let major: Vec<u8> = (0..12u8).filter(|i| marker_is_major(*i)).collect();
    assert_eq!(major, vec![0, 3, 6, 9]);
}

#[test]
fn body_mesh_size_and_range() {
    let indices = body_mesh_indices();
    assert_eq!(indices.len(), BODY_INDICES);
    assert_eq!(BODY_INDICES, 5568);
    assert_eq!(BODY_VERTICES, 3714);
    assert_eq!(*indices.iter().max().unwrap() as usize, BODY_VERTICES - 1);
    assert_eq!(Some(indices), mesh_indices(&body_plan()));
}

#[test]
fn body_mesh_layout() {
    let indices = body_mesh_indices();
    // The bezel starts with a quad over vertices 0..4.
    assert_eq!(&indices[0..6], &[0, 1, 2, 0, 2, 3]);
    // The dial starts after two rings: centre 2048, facing front.
    assert_eq!(&indices[3072..3075], &[2048, 2049, 2050]);
    // The back plate follows the dial and faces back.
    assert_eq!(&indices[3264..3267], &[2177, 2179, 2178]);
}

#[test]
fn effect_mesh_size_and_range() {
    assert_eq!(effect_parts(), vec![EffectPart::OuterHalo, EffectPart::InnerHalo, EffectPart::Glass]);
    let indices = effect_mesh_indices();
    assert_eq!(indices.len(), EFFECT_INDICES);
    assert_eq!(EFFECT_VERTICES, 387);
    assert_eq!(*indices.iter().max().unwrap() as usize, EFFECT_VERTICES - 1);
    assert_eq!(&indices[192..195], &[129, 130, 131]);
}

#[test]
fn sky_is_one_quad() {
    assert_eq!(sky_mesh_indices(), vec![0, 1, 2, 0, 2, 3]);
}

#[test]
fn draws_cover_each_mesh() {
    let draws = draw_plan(6, BODY_INDICES, EFFECT_INDICES);
    assert_eq!(
        draws,
        vec![
            DrawPlan { mesh: SceneMesh::Sky, slot: 0, pipeline: Pipeline::Opaque, index_end: 6 },
            DrawPlan { mesh: SceneMesh::Body, slot: 1, pipeline: Pipeline::Opaque, index_end: 5568 },
            DrawPlan {
                mesh: SceneMesh::Effects,
                slot: 2,
                pipeline: Pipeline::Transparent,
                index_end: 576,
            },
        ]
    );
    assert_eq!(mesh_slot(SceneMesh::Effects), 2);
}

fn point(c: CellCorner) -> [i32; 3] {
    [c.x as i32, c.y as i32, c.z as i32]
}

fn normal(a: [i32; 3], b: [i32; 3], c: [i32; 3]) -> [i32; 3] {
    let u = [b[0] - a[0], b[1] - a[1], b[2] - a[2]];
    let v = [c[0] - a[0], c[1] - a[1], c[2] - a[2]];
    [u[1] * v[2] - u[2] * v[1], u[2] * v[0] - u[0] * v[2], u[0] * v[1] - u[1] * v[0]]
}

fn outward(f: &CellFace) -> [i32; 3] {
    let s = if f.far { 1 } else { -1 };
    match f.axis {
        Axis::X => [s, 0, 0],
        Axis::Y => [0, s, 0],
        Axis::Z => [0, 0, s],
    }
}

fn check_faces(faces: &[CellFace]) {
    for f in faces {
        let p = f.corners.map(point);
        assert_eq!(normal(p[0], p[1], p[2]), outward(f));
        assert_eq!(normal(p[0], p[2], p[3]), outward(f));
    }
}

#[test]
fn cuboid_faces_wind_outward() {
    let faces = cuboid_faces();
    assert_eq!(faces.len(), 6);
    check_faces(&faces);
    assert_eq!(faces[0].axis, Axis::Z);
    assert!(faces[0].far);
    assert_eq!(faces[0].corners[0], CellCorner { x: false, y: false, z: true });
}

#[test]
fn annulus_faces_wind_outward() {
    let faces = annulus_faces();
    assert_eq!(faces.len(), 4);
    check_faces(&faces);
    assert_eq!(faces[1].axis, Axis::X);
    assert!(!faces[1].far);
}

#[test]
fn scene_fits_the_pi4_budget() {
    let limits = vzglyd_slide::Limits::pi4();
    let vertices = SKY_VERTICES + BODY_VERTICES + EFFECT_VERTICES;
    let indices = sky_mesh_indices().len() + BODY_INDICES + EFFECT_INDICES;
    assert_eq!(vertices, 4105);
    assert_eq!(indices, 6150);
    assert!(vertices as u32 <= limits.max_vertices);
    assert!(indices as u32 <= limits.max_indices);
    let texture_bytes = 4 + (NOISE_TEXTURE_SIZE * NOISE_TEXTURE_SIZE) as usize * TEXEL_BYTES;
    assert!(texture_bytes as u32 <= limits.max_texture_bytes);
    assert!(NOISE_TEXTURE_SIZE <= limits.max_texture_dim);
}
