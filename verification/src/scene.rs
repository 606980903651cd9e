//! What the clock is made of: the parts of its body and of its glow, the
//! shape of each part, the index buffers of the three meshes and the draws
//! that render them.

use vstd::prelude::*;
use crate::topology::{
    IndexBuffer, Shape, mesh_indices, plan_indices, plan_vertices, plan_index_count, quad,
    shape_vertices, shape_index_count, lemma_plan_indices_within, lemma_plan_index_count,
    lemma_plan_concat, lemma_plan_repeat, fan, lemma_fan_by_index,
};

verus! {

/// Hour markers around the dial.
pub const MARKER_COUNT: u8 = 12;

/// The parts of the clock body, each one shape.
#[derive(Clone, Copy, Debug, PartialEq, Eq, Structural)]
pub enum BodyPart {
    /// The outer ring around the dial.
    Bezel,
    /// The thin ring just inside the bezel.
    InnerRim,
    /// The dial, facing the viewer.
    Face,
    /// The back plate, facing away.
    Back,
    /// The winding crown on the rim.
    Crown,
    /// The hour marker at position `index` (0 at twelve o'clock).
    Marker { index: u8 },
    HourHand,
    MinuteHand,
    SecondHand,
    /// The cap over the hands' axle.
    CenterCap,
}

/// The translucent parts drawn over the body.
#[derive(Clone, Copy, Debug, PartialEq, Eq, Structural)]
pub enum EffectPart {
    /// The wide halo behind the clock.
    OuterHalo,
    /// The narrower halo behind the clock.
    InnerHalo,
    /// The glass over the dial.
    Glass,
}

/// The body's parts in the order their vertices are laid out.
pub open spec fn spec_body_parts() -> Seq<BodyPart> {
    seq![BodyPart::Bezel, BodyPart::InnerRim, BodyPart::Face, BodyPart::Back, BodyPart::Crown]
        + Seq::new(MARKER_COUNT as nat, |i: int| BodyPart::Marker { index: i as u8 })
        + seq![
        BodyPart::HourHand,
        BodyPart::MinuteHand,
        BodyPart::SecondHand,
        BodyPart::CenterCap,
    ]
}

/// The glow's parts in the order their vertices are laid out.
pub open spec fn spec_effect_parts() -> Seq<EffectPart> {
    seq![EffectPart::OuterHalo, EffectPart::InnerHalo, EffectPart::Glass]
}

/// The shape of each body part: the three rings are annuli, the dial a disc
/// facing front, the back plate a disc facing back, everything else a box.
pub open spec fn spec_body_part_shape(part: BodyPart) -> Shape {
    match part {
        BodyPart::Bezel | BodyPart::InnerRim | BodyPart::CenterCap => Shape::Annulus,
        BodyPart::Face => Shape::Disc { front_facing: true },
        BodyPart::Back => Shape::Disc { front_facing: false },
        _ => Shape::Cuboid,
    }
}

/// The shape of the body, part by part.
pub open spec fn spec_body_plan() -> Seq<Shape> {
    spec_body_parts().map_values(|p: BodyPart| spec_body_part_shape(p))
}

/// The glow is three front-facing discs.
pub open spec fn spec_effect_plan() -> Seq<Shape> {
    seq![
        Shape::Disc { front_facing: true },
        Shape::Disc { front_facing: true },
        Shape::Disc { front_facing: true },
    ]
}

/// Every third marker, starting at twelve o'clock, is a major one.
pub open spec fn spec_marker_is_major(index: u8) -> bool {
    index % 3 == 0
}

/// Whether marker `index` is a major one (drawn larger).
pub fn marker_is_major(index: u8) -> (major: bool)
    ensures
        major == spec_marker_is_major(index),
{
    index % 3 == 0
}

/// The body's parts in layout order.
pub fn body_parts() -> (parts: Vec<BodyPart>)
    ensures
        parts@ == spec_body_parts(),
{
    let mut parts: Vec<BodyPart> = Vec::new();
    parts.push(BodyPart::Bezel);
    parts.push(BodyPart::InnerRim);
    parts.push(BodyPart::Face);
    parts.push(BodyPart::Back);
    parts.push(BodyPart::Crown);
    let ghost head = parts@;
    let mut index: u8 = 0;
    while index < MARKER_COUNT
        invariant
            index <= MARKER_COUNT,
            parts@ == head + Seq::new(index as nat, |i: int| BodyPart::Marker { index: i as u8 }),
        decreases MARKER_COUNT - index,
    {
        parts.push(BodyPart::Marker { index });
        assert(head + Seq::new((index + 1) as nat, |i: int| BodyPart::Marker { index: i as u8 })
            =~= (head + Seq::new(index as nat, |i: int| BodyPart::Marker { index: i as u8 })).push(
            BodyPart::Marker { index },
        ));
        index = index + 1;
    }
    parts.push(BodyPart::HourHand);
    parts.push(BodyPart::MinuteHand);
    parts.push(BodyPart::SecondHand);
    parts.push(BodyPart::CenterCap);
    assert(parts@ =~= spec_body_parts());
    parts
}

/// The glow's parts in layout order.
pub fn effect_parts() -> (parts: Vec<EffectPart>)
    ensures
        parts@ == spec_effect_parts(),
{
    let mut parts: Vec<EffectPart> = Vec::new();
    parts.push(EffectPart::OuterHalo);
    parts.push(EffectPart::InnerHalo);
    parts.push(EffectPart::Glass);
    assert(parts@ =~= spec_effect_parts());
    parts
}

/// The shape of a body part.
pub fn body_part_shape(part: BodyPart) -> (shape: Shape)
    ensures
        shape == spec_body_part_shape(part),
{
    match part {
        BodyPart::Bezel | BodyPart::InnerRim | BodyPart::CenterCap => Shape::Annulus,
        BodyPart::Face => Shape::Disc { front_facing: true },
        BodyPart::Back => Shape::Disc { front_facing: false },
        _ => Shape::Cuboid,
    }
}

/// Vertices of the body mesh.
pub const BODY_VERTICES: usize = 3714;

/// Indices of the body mesh.
pub const BODY_INDICES: usize = 5568;

/// Vertices of the glow mesh.
pub const EFFECT_VERTICES: usize = 387;

/// Indices of the glow mesh.
pub const EFFECT_INDICES: usize = 576;

/// Vertices of the sky mesh: one quad.
pub const SKY_VERTICES: usize = 4;

proof fn lemma_single(shape: Shape)
    ensures
        plan_vertices(seq![shape]) == shape_vertices(shape),
        plan_index_count(seq![shape]) == shape_index_count(shape),
{
    assert(seq![shape].drop_last() =~= Seq::<Shape>::empty());
    assert(plan_vertices(Seq::<Shape>::empty()) == 0);
    assert(plan_index_count(Seq::<Shape>::empty()) == 0);
    assert(seq![shape].last() == shape);
}

/// The body has three rings, two discs and sixteen boxes: 3714 vertices and
/// 5568 indices.
pub proof fn lemma_body_plan_size()
    ensures
        plan_vertices(spec_body_plan()) == BODY_VERTICES,
        plan_index_count(spec_body_plan()) == BODY_INDICES,
        plan_indices(spec_body_plan()).len() == BODY_INDICES,
{
    let a = Shape::Annulus;
    let c = Shape::Cuboid;
    let front = Shape::Disc { front_facing: true };
    let back = Shape::Disc { front_facing: false };
    let markers = Seq::new(MARKER_COUNT as nat, |i: int| c);
    let plan = seq![a] + seq![a] + seq![front] + seq![back] + seq![c] + markers + seq![c] + seq![c]
        + seq![c] + seq![a];
    assert(spec_body_plan() =~= plan);
    lemma_single(a);
    lemma_single(c);
    lemma_single(front);
    lemma_single(back);
    lemma_plan_repeat(c, MARKER_COUNT as nat);
    lemma_plan_concat(seq![a], seq![a]);
    lemma_plan_concat(seq![a] + seq![a], seq![front]);
    lemma_plan_concat(seq![a] + seq![a] + seq![front], seq![back]);
    lemma_plan_concat(seq![a] + seq![a] + seq![front] + seq![back], seq![c]);
    lemma_plan_concat(seq![a] + seq![a] + seq![front] + seq![back] + seq![c], markers);
    lemma_plan_concat(seq![a] + seq![a] + seq![front] + seq![back] + seq![c] + markers, seq![c]);
    lemma_plan_concat(
        seq![a] + seq![a] + seq![front] + seq![back] + seq![c] + markers + seq![c],
        seq![c],
    );
    lemma_plan_concat(
        seq![a] + seq![a] + seq![front] + seq![back] + seq![c] + markers + seq![c] + seq![c],
        seq![c],
    );
    lemma_plan_concat(
        seq![a] + seq![a] + seq![front] + seq![back] + seq![c] + markers + seq![c] + seq![c]
            + seq![c],
        seq![a],
    );
    lemma_plan_index_count(spec_body_plan());
}

/// The glow is three discs: 387 vertices and 576 indices.
pub proof fn lemma_effect_plan_size()
    ensures
        plan_vertices(spec_effect_plan()) == EFFECT_VERTICES,
        plan_index_count(spec_effect_plan()) == EFFECT_INDICES,
        plan_indices(spec_effect_plan()).len() == EFFECT_INDICES,
{
    let d = Shape::Disc { front_facing: true };
    lemma_plan_repeat(d, 3);
    assert(spec_effect_plan() =~= Seq::new(3, |i: int| d));
    lemma_plan_index_count(spec_effect_plan());
}

/// The body's shapes in layout order.
pub fn body_plan() -> (plan: Vec<Shape>)
    ensures
        plan@ == spec_body_plan(),
{
    let parts = body_parts();
    let mut plan: Vec<Shape> = Vec::new();
    let mut i: usize = 0;
    while i < parts.len()
        invariant
            i <= parts.len(),
            parts@ == spec_body_parts(),
            plan@ == spec_body_parts().take(i as int).map_values(
                |p: BodyPart| spec_body_part_shape(p),
            ),
        decreases parts.len() - i,
    {
        plan.push(body_part_shape(parts[i]));
        assert(spec_body_parts().take(i + 1).map_values(|p: BodyPart| spec_body_part_shape(p))
            =~= spec_body_parts().take(i as int).map_values(
            |p: BodyPart| spec_body_part_shape(p),
        ).push(spec_body_part_shape(parts@[i as int])));
        i = i + 1;
    }
    assert(spec_body_parts().take(parts.len() as int) =~= spec_body_parts());
    plan
}

/// Index buffer of the clock body: the triangles of every body part, part
/// after part.
pub fn body_mesh_indices() -> (indices: Vec<u16>)
    ensures
        indices@.map_values(|i: u16| i as int) == plan_indices(spec_body_plan()),
        indices.len() == BODY_INDICES,
        forall|i: int| 0 <= i < indices.len() ==> #[trigger] indices[i] < BODY_VERTICES,
{
    proof {
        lemma_body_plan_size();
        lemma_plan_indices_within(spec_body_plan());
    }
    let plan = body_plan();
    match mesh_indices(plan.as_slice()) {
        Some(indices) => {
            proof {
                let values = indices@.map_values(|i: u16| i as int);
                assert(values.len() == indices.len());
                assert forall|i: int| 0 <= i < indices.len() implies #[trigger] indices[i]
                    < BODY_VERTICES by {
                    assert(values[i] == indices[i] as int);
                }
            }
            indices
        },
        None => Vec::new(),
    }
}

/// The glow's index buffer is three front-facing fans laid one after the
/// other, with centres 0, 129 and 258.
proof fn lemma_effect_indices_are_fans()
    ensures
        plan_indices(spec_effect_plan()) == fan(0, 64, true) + fan(129, 64, true) + fan(
            258,
            64,
            true,
        ),
{
    let d = Shape::Disc { front_facing: true };
    let p3 = spec_effect_plan();
    let p2 = seq![d, d];
    let p1 = seq![d];
    let p0 = Seq::<Shape>::empty();
    assert(p3.drop_last() =~= p2);
    assert(p2.drop_last() =~= p1);
    assert(p1.drop_last() =~= p0);
    assert(plan_vertices(p0) == 0);
    assert(plan_indices(p0) =~= Seq::<int>::empty());
    assert(plan_vertices(p1) == 129);
    assert(plan_vertices(p2) == 258);
    assert(plan_indices(p1) =~= fan(0, 64, true));
    assert(plan_indices(p2) =~= fan(0, 64, true) + fan(129, 64, true));
}

/// Every triangle of the glow faces front: index `i` of the glow's buffer
/// belongs to disc `i / 192`, whose centre is vertex `129 * (i / 192)`; its
/// triangle `k = (i % 192) / 3` is the centre, then rim vertices
/// `centre + 1 + 2k` and `centre + 2 + 2k` in that order.
pub proof fn lemma_effect_indices_by_index()
    ensures
        plan_indices(spec_effect_plan()).len() == EFFECT_INDICES,
        forall|i: int|
            0 <= i < EFFECT_INDICES ==> #[trigger] plan_indices(spec_effect_plan())[i] == 129 * (i
                / 192) + (if i % 3 == 0 {
                0int
            } else if i % 3 == 1 {
                1 + 2 * ((i % 192) / 3)
            } else {
                2 + 2 * ((i % 192) / 3)
            }),
{
    lemma_effect_indices_are_fans();
    lemma_fan_by_index(0, 64, true);
    lemma_fan_by_index(129, 64, true);
    lemma_fan_by_index(258, 64, true);
    let f0 = fan(0, 64, true);
    let f1 = fan(129, 64, true);
    let f2 = fan(258, 64, true);
    let all = plan_indices(spec_effect_plan());
    assert forall|i: int| 0 <= i < EFFECT_INDICES implies #[trigger] all[i] == 129 * (i / 192) + (
    if i % 3 == 0 {
        0int
    } else if i % 3 == 1 {
        1 + 2 * ((i % 192) / 3)
    } else {
        2 + 2 * ((i % 192) / 3)
    }) by {
        if i < 192 {
            assert(all[i] == f0[i]);
        } else if i < 384 {
            assert(all[i] == f1[i - 192]);
            assert((i - 192) % 3 == i % 3 && (i - 192) / 3 == (i % 192) / 3 && i / 192 == 1);
        } else {
            assert(all[i] == f2[i - 384]);
            assert((i - 384) % 3 == i % 3 && (i - 384) / 3 == (i % 192) / 3 && i / 192 == 2);
        }
    }
}

/// Index buffer of the glow: the triangles of the two halos and the glass.
pub fn effect_mesh_indices() -> (indices: Vec<u16>)
    ensures
        indices@.map_values(|i: u16| i as int) == plan_indices(spec_effect_plan()),
        indices.len() == EFFECT_INDICES,
        forall|i: int| 0 <= i < indices.len() ==> #[trigger] indices[i] < EFFECT_VERTICES,
        forall|i: int|
            0 <= i < indices.len() ==> #[trigger] indices[i] as int == 129 * (i / 192) + (if i % 3
                == 0 {
                0int
            } else if i % 3 == 1 {
                1 + 2 * ((i % 192) / 3)
            } else {
                2 + 2 * ((i % 192) / 3)
            }),
        forall|i: int|
            0 <= i < indices.len() && i % 3 == 1 ==> #[trigger] indices[i] + 1 == indices[i + 1],
{
    proof {
        lemma_effect_plan_size();
        lemma_plan_indices_within(spec_effect_plan());
        lemma_effect_indices_by_index();
    }
    let mut plan: Vec<Shape> = Vec::new();
    plan.push(Shape::Disc { front_facing: true });
    plan.push(Shape::Disc { front_facing: true });
    plan.push(Shape::Disc { front_facing: true });
    assert(plan@ =~= spec_effect_plan());
    match mesh_indices(plan.as_slice()) {
        Some(indices) => {
            proof {
                let values = indices@.map_values(|i: u16| i as int);
                assert(values.len() == indices.len());
                assert forall|i: int| 0 <= i < indices.len() implies #[trigger] indices[i]
                    < EFFECT_VERTICES by {
                    assert(values[i] == indices[i] as int);
                }
                assert forall|i: int| 0 <= i < indices.len() implies #[trigger] indices[i] as int
                    == 129 * (i / 192) + (if i % 3 == 0 {
                    0int
                } else if i % 3 == 1 {
                    1 + 2 * ((i % 192) / 3)
                } else {
                    2 + 2 * ((i % 192) / 3)
                }) by {
                    assert(values[i] == indices[i] as int);
                    assert(plan_indices(spec_effect_plan())[i] == values[i]);
                }
                assert forall|i: int| 0 <= i < indices.len() && i % 3 == 1 implies #[trigger] indices[i]
                    + 1 == indices[i + 1] by {
                    assert(values[i] == indices[i] as int);
                    assert(values[i + 1] == indices[i + 1] as int);
                    assert(plan_indices(spec_effect_plan())[i + 1] == values[i + 1]);
                    assert((i + 1) / 192 == i / 192 && (i + 1) % 3 == 2);
                    assert((i + 1) % 192 == i % 192 + 1);
                }
            }
            indices
        },
        None => Vec::new(),
    }
}

/// Index buffer of the sky: one quad over its four corners.
pub fn sky_mesh_indices() -> (indices: Vec<u16>)
    ensures
        indices@.map_values(|i: u16| i as int) == quad(0),
        indices@ == seq![0u16, 1, 2, 0, 2, 3],
{
    let mut buf = IndexBuffer::new();
    buf.push_quad();
    assert(Seq::<int>::empty() + quad(0) =~= quad(0));
    let indices = buf.into_indices();
    let ghost values = indices@.map_values(|i: u16| i as int);
    assert(values.len() == 6);
    assert forall|i: int| 0 <= i < 6 implies indices@[i] == seq![0u16, 1, 2, 0, 2, 3][i] by {
        assert(values[i] == indices@[i] as int);
    }
    assert(indices@ =~= seq![0u16, 1, 2, 0, 2, 3]);
    indices
}

/// The three static meshes of the slide, in the order they are uploaded.
#[derive(Clone, Copy, Debug, PartialEq, Eq, Structural)]
pub enum SceneMesh {
    Sky,
    Body,
    Effects,
}

/// How a draw is blended.
#[derive(Clone, Copy, Debug, PartialEq, Eq, Structural)]
pub enum Pipeline {
    Opaque,
    Transparent,
}

/// One draw call: the static mesh slot it reads, its pipeline and the end
/// of the index range it draws, which always starts at 0.
#[derive(Clone, Copy, Debug, PartialEq, Eq, Structural)]
pub struct DrawPlan {
    pub mesh: SceneMesh,
    pub slot: usize,
    pub pipeline: Pipeline,
    pub index_end: u32,
}

/// Slot of each mesh among the static meshes: sky, body, glow.
pub open spec fn spec_mesh_slot(mesh: SceneMesh) -> usize {
    match mesh {
        SceneMesh::Sky => 0,
        SceneMesh::Body => 1,
        SceneMesh::Effects => 2,
    }
}

/// Slot of a mesh among the static meshes.
pub fn mesh_slot(mesh: SceneMesh) -> (slot: usize)
    ensures
        slot == spec_mesh_slot(mesh),
{
    match mesh {
        SceneMesh::Sky => 0,
        SceneMesh::Body => 1,
        SceneMesh::Effects => 2,
    }
}

/// The draw of `mesh` over its first `index_count` indices (the count taken
/// as a `u32`, as the engine's ranges are).
pub open spec fn spec_draw(mesh: SceneMesh, pipeline: Pipeline, index_count: usize) -> DrawPlan {
    DrawPlan {
        mesh,
        slot: spec_mesh_slot(mesh),
        pipeline,
        index_end: index_count as u32,
    }
}

/// The draws of one frame: the sky and the body opaque, then the glow
/// blended over them, each over all the indices of its mesh.
pub fn draw_plan(sky_index_count: usize, body_index_count: usize, effect_index_count: usize) -> (draws: Vec<DrawPlan>)
    ensures
        draws@ == seq![
            spec_draw(SceneMesh::Sky, Pipeline::Opaque, sky_index_count),
            spec_draw(SceneMesh::Body, Pipeline::Opaque, body_index_count),
            spec_draw(SceneMesh::Effects, Pipeline::Transparent, effect_index_count),
        ],
        forall|i: int| 0 <= i < 3 ==> (#[trigger] draws[i]).slot == spec_mesh_slot(draws[i].mesh),
        sky_index_count <= u32::MAX ==> draws[0].index_end == sky_index_count,
        body_index_count <= u32::MAX ==> draws[1].index_end == body_index_count,
        effect_index_count <= u32::MAX ==> draws[2].index_end == effect_index_count,
{
    let mut draws: Vec<DrawPlan> = Vec::new();
    draws.push(
        DrawPlan {
            mesh: SceneMesh::Sky,
            slot: mesh_slot(SceneMesh::Sky),
            pipeline: Pipeline::Opaque,
            index_end: sky_index_count as u32,
        },
    );
    draws.push(
        DrawPlan {
            mesh: SceneMesh::Body,
            slot: mesh_slot(SceneMesh::Body),
            pipeline: Pipeline::Opaque,
            index_end: body_index_count as u32,
        },
    );
    draws.push(
        DrawPlan {
            mesh: SceneMesh::Effects,
            slot: mesh_slot(SceneMesh::Effects),
            pipeline: Pipeline::Transparent,
            index_end: effect_index_count as u32,
        },
    );
    assert(draws@ =~= seq![
        spec_draw(SceneMesh::Sky, Pipeline::Opaque, sky_index_count),
        spec_draw(SceneMesh::Body, Pipeline::Opaque, body_index_count),
        spec_draw(SceneMesh::Effects, Pipeline::Transparent, effect_index_count),
    ]);
    draws
}

} // verus!
