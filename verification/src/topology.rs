//! Index topology of the clock's meshes.
//!
//! Every mesh is a run of shapes, each appending its own vertices and the
//! triangles over them to a 16-bit index buffer. Which vertex a position
//! belongs to is fixed here; where the vertex lies in space is not.

use vstd::prelude::*;

verus! {

/// Number of vertices that a 16-bit index buffer can address.
pub const MAX_INDEXED_VERTICES: usize = 65536;

/// Segments around every round shape of the clock.
pub const CLOCK_SEGMENTS: usize = 64;

/// Quads per annulus segment: outer wall, inner wall, front ring, back ring.
pub const ANNULUS_FACES: usize = 4;

/// Faces of a cuboid.
pub const CUBOID_FACES: usize = 6;

/// The two triangles `(0, 1, 2)` and `(0, 2, 3)` over the four vertices of a
/// quad that starts at vertex `base`.
pub open spec fn quad(base: int) -> Seq<int> {
    seq![base, base + 1, base + 2, base, base + 2, base + 3]
}

/// `count` quads over consecutive blocks of four vertices from `base`.
pub open spec fn quad_run(base: int, count: nat) -> Seq<int>
    decreases count,
{
    if count == 0 {
        seq![]
    } else {
        quad_run(base, (count - 1) as nat) + quad(base + 4 * (count - 1))
    }
}

/// Triangle `step` of a fan around `center`: each step owns the two rim
/// vertices after the ones of the steps before it; a front-facing fan lists
/// them in order, a back-facing one reversed.
pub open spec fn fan_triangle(center: int, step: int, front_facing: bool) -> Seq<int> {
    let first = center + 1 + 2 * step;
    if front_facing {
        seq![center, first, first + 1]
    } else {
        seq![center, first + 1, first]
    }
}

/// The `steps` triangles of a fan whose centre vertex is `center`.
pub open spec fn fan(center: int, steps: nat, front_facing: bool) -> Seq<int>
    decreases steps,
{
    if steps == 0 {
        seq![]
    } else {
        fan(center, (steps - 1) as nat, front_facing) + fan_triangle(
            center,
            steps - 1,
            front_facing,
        )
    }
}

/// `s` read as triangles, with the last two vertices of each swapped: the
/// same triangles wound the other way.
pub open spec fn flip_triangles(s: Seq<int>) -> Seq<int> {
    Seq::new(
        s.len(),
        |i: int|
            if i % 3 == 1 {
                s[i + 1]
            } else if i % 3 == 2 {
                s[i - 1]
            } else {
                s[i]
            },
    )
}

/// A back-facing fan is the front-facing fan with every triangle wound the
/// other way.
pub proof fn lemma_back_fan_flips_front(center: int, steps: nat)
    ensures
        fan(center, steps, false) == flip_triangles(fan(center, steps, true)),
    decreases steps,
{
    if steps > 0 {
        let n = (steps - 1) as nat;
        lemma_back_fan_flips_front(center, n);
        lemma_fan(center, n, true);
        let front = fan(center, steps, true);
        let prev = fan(center, n, true);
        assert(prev.len() == 3 * n);
        assert forall|i: int| 0 <= i < front.len() implies #[trigger] flip_triangles(front)[i]
            == fan(center, steps, false)[i] by {
            if i < 3 * n {
                assert(i % 3 == 1 ==> i + 1 < 3 * n);
                assert(i % 3 == 2 ==> i - 1 >= 0);
            } else {
                assert(i - 3 * n == 0 || i - 3 * n == 1 || i - 3 * n == 2);
            }
        }
        assert(fan(center, steps, false) =~= flip_triangles(front));
    }
}

/// The kinds of shape the clock is built from.
#[derive(Clone, Copy, Debug, PartialEq, Eq, Structural)]
pub enum Shape {
    /// A ring with thickness: per segment an outer wall, an inner wall, a
    /// front ring and a back ring, each a quad.
    Annulus,
    /// A flat disc: a centre vertex and a fan of one triangle per segment,
    /// facing front or back.
    Disc { front_facing: bool },
    /// A box of six quads.
    Cuboid,
}

/// Vertices that one shape appends.
pub open spec fn shape_vertices(shape: Shape) -> nat {
    match shape {
        Shape::Annulus => (CLOCK_SEGMENTS * ANNULUS_FACES * 4) as nat,
        Shape::Disc { .. } => (1 + 2 * CLOCK_SEGMENTS) as nat,
        Shape::Cuboid => (CUBOID_FACES * 4) as nat,
    }
}

/// Indices that one shape appends when its first vertex is `base`.
pub open spec fn shape_indices(shape: Shape, base: int) -> Seq<int> {
    match shape {
        Shape::Annulus => quad_run(base, (CLOCK_SEGMENTS * ANNULUS_FACES) as nat),
        Shape::Disc { front_facing } => fan(base, CLOCK_SEGMENTS as nat, front_facing),
        Shape::Cuboid => quad_run(base, CUBOID_FACES as nat),
    }
}

/// Vertices of a mesh made of the shapes of `plan`, in order.
pub open spec fn plan_vertices(plan: Seq<Shape>) -> nat
    decreases plan.len(),
{
    if plan.len() == 0 {
        0
    } else {
        plan_vertices(plan.drop_last()) + shape_vertices(plan.last())
    }
}

/// Index buffer of a mesh made of the shapes of `plan`, in order.
pub open spec fn plan_indices(plan: Seq<Shape>) -> Seq<int>
    decreases plan.len(),
{
    if plan.len() == 0 {
        seq![]
    } else {
        plan_indices(plan.drop_last()) + shape_indices(
            plan.last(),
            plan_vertices(plan.drop_last()) as int,
        )
    }
}

/// Indices that one shape appends.
pub open spec fn shape_index_count(shape: Shape) -> nat {
    match shape {
        Shape::Annulus => (CLOCK_SEGMENTS * ANNULUS_FACES * 6) as nat,
        Shape::Disc { .. } => (3 * CLOCK_SEGMENTS) as nat,
        Shape::Cuboid => (CUBOID_FACES * 6) as nat,
    }
}

/// Indices of a mesh made of the shapes of `plan`.
pub open spec fn plan_index_count(plan: Seq<Shape>) -> nat
    decreases plan.len(),
{
    if plan.len() == 0 {
        0
    } else {
        plan_index_count(plan.drop_last()) + shape_index_count(plan.last())
    }
}

/// Every index of `s` lies in `lo..hi`.
pub open spec fn all_within(s: Seq<int>, lo: int, hi: int) -> bool {
    forall|i: int| 0 <= i < s.len() ==> lo <= #[trigger] s[i] < hi
}

proof fn lemma_quad_run(base: int, count: nat)
    ensures
        quad_run(base, count).len() == 6 * count,
        all_within(quad_run(base, count), base, base + 4 * count),
    decreases count,
{
    if count > 0 {
        lemma_quad_run(base, (count - 1) as nat);
        let prev = quad_run(base, (count - 1) as nat);
        let last = quad(base + 4 * (count - 1));
        assert forall|i: int| 0 <= i < quad_run(base, count).len() implies base
            <= #[trigger] quad_run(base, count)[i] < base + 4 * count by {
            if i < prev.len() {
                assert(quad_run(base, count)[i] == prev[i]);
            } else {
                assert(quad_run(base, count)[i] == last[i - prev.len()]);
            }
        }
    }
}

proof fn lemma_fan(center: int, steps: nat, front_facing: bool)
    ensures
        fan(center, steps, front_facing).len() == 3 * steps,
        all_within(fan(center, steps, front_facing), center, center + 1 + 2 * steps),
    decreases steps,
{
    if steps > 0 {
        lemma_fan(center, (steps - 1) as nat, front_facing);
        let prev = fan(center, (steps - 1) as nat, front_facing);
        let last = fan_triangle(center, steps - 1, front_facing);
        assert forall|i: int| 0 <= i < fan(center, steps, front_facing).len() implies center
            <= #[trigger] fan(center, steps, front_facing)[i] < center + 1 + 2 * steps by {
            if i < prev.len() {
                assert(fan(center, steps, front_facing)[i] == prev[i]);
            } else {
                assert(fan(center, steps, front_facing)[i] == last[i - prev.len()]);
            }
        }
    }
}

/// Which of a quad's four vertices the `r`-th of its six indices names:
/// 0, 1, 2, 0, 2, 3.
pub open spec fn quad_corner_offset(r: int) -> int {
    if r == 0 || r == 3 {
        0
    } else if r == 1 {
        1
    } else if r == 2 || r == 4 {
        2
    } else {
        3
    }
}

/// A run of quads, read index by index: quad `i / 6` starts at vertex
/// `base + 4 * (i / 6)`, and every quad is the triangles `(0, 1, 2)` and
/// `(0, 2, 3)` over its four vertices, whatever its base.
pub proof fn lemma_quad_run_by_index(base: int, count: nat)
    ensures
        quad_run(base, count).len() == 6 * count,
        forall|i: int|
            0 <= i < 6 * count ==> #[trigger] quad_run(base, count)[i] == base + 4 * (i / 6) + quad_corner_offset(i % 6),
    decreases count,
{
    lemma_quad_run(base, count);
    if count > 0 {
        let n = (count - 1) as nat;
        lemma_quad_run_by_index(base, n);
        let prev = quad_run(base, n);
        let last = quad(base + 4 * n);
        assert forall|i: int| 0 <= i < 6 * count implies #[trigger] quad_run(base, count)[i]
            == base + 4 * (i / 6) + quad_corner_offset(i % 6) by {
            if i < 6 * n {
                assert(quad_run(base, count)[i] == prev[i]);
            } else {
                let r = i - 6 * n;
                assert(quad_run(base, count)[i] == last[r]);
                assert(i / 6 == n && i % 6 == r);
            }
        }
    }
}

/// A fan, read index by index: triangle `k = i / 3` is the centre followed
/// by the rim vertices `center + 1 + 2k` and `center + 2 + 2k`, in that
/// order when front-facing and swapped otherwise, for every `k` alike.
pub proof fn lemma_fan_by_index(center: int, steps: nat, front_facing: bool)
    ensures
        fan(center, steps, front_facing).len() == 3 * steps,
        forall|i: int|
            0 <= i < 3 * steps ==> #[trigger] fan(center, steps, front_facing)[i] == (
            if i % 3 == 0 {
                center
            } else if (i % 3 == 1) == front_facing {
                center + 1 + 2 * (i / 3)
            } else {
                center + 2 + 2 * (i / 3)
            }),
    decreases steps,
{
    lemma_fan(center, steps, front_facing);
    if steps > 0 {
        let n = (steps - 1) as nat;
        lemma_fan_by_index(center, n, front_facing);
        let prev = fan(center, n, front_facing);
        let last = fan_triangle(center, n as int, front_facing);
        assert forall|i: int| 0 <= i < 3 * steps implies #[trigger] fan(
            center,
            steps,
            front_facing,
        )[i] == (if i % 3 == 0 {
            center
        } else if (i % 3 == 1) == front_facing {
            center + 1 + 2 * (i / 3)
        } else {
            center + 2 + 2 * (i / 3)
        }) by {
            if i < 3 * n {
                assert(fan(center, steps, front_facing)[i] == prev[i]);
            } else {
                let r = i - 3 * n;
                assert(fan(center, steps, front_facing)[i] == last[r]);
                assert(i / 3 == n && i % 3 == r);
            }
        }
    }
}

/// The indices of a shape address exactly its own block of vertices.
pub proof fn lemma_shape_indices_within(shape: Shape, base: int)
    ensures
        all_within(shape_indices(shape, base), base, base + shape_vertices(shape)),
{
    match shape {
        Shape::Annulus => lemma_quad_run(base, (CLOCK_SEGMENTS * ANNULUS_FACES) as nat),
        Shape::Disc { front_facing } => lemma_fan(base, CLOCK_SEGMENTS as nat, front_facing),
        Shape::Cuboid => lemma_quad_run(base, CUBOID_FACES as nat),
    }
}

/// A plan's index buffer has as many indices as its shapes append.
pub proof fn lemma_plan_index_count(plan: Seq<Shape>)
    ensures
        plan_indices(plan).len() == plan_index_count(plan),
    decreases plan.len(),
{
    if plan.len() > 0 {
        lemma_plan_index_count(plan.drop_last());
        let base = plan_vertices(plan.drop_last()) as int;
        match plan.last() {
            Shape::Annulus => lemma_quad_run(base, (CLOCK_SEGMENTS * ANNULUS_FACES) as nat),
            Shape::Disc { front_facing } => lemma_fan(base, CLOCK_SEGMENTS as nat, front_facing),
            Shape::Cuboid => lemma_quad_run(base, CUBOID_FACES as nat),
        }
    }
}

/// Vertices and indices of two plans laid one after the other add up.
pub proof fn lemma_plan_concat(a: Seq<Shape>, b: Seq<Shape>)
    ensures
        plan_vertices(a + b) == plan_vertices(a) + plan_vertices(b),
        plan_index_count(a + b) == plan_index_count(a) + plan_index_count(b),
    decreases b.len(),
{
    if b.len() == 0 {
        assert(a + b =~= a);
    } else {
        assert((a + b).drop_last() =~= a + b.drop_last());
        assert((a + b).last() == b.last());
        lemma_plan_concat(a, b.drop_last());
    }
}

/// A plan of `n` copies of one shape.
pub proof fn lemma_plan_repeat(shape: Shape, n: nat)
    ensures
        plan_vertices(Seq::new(n, |i: int| shape)) == n * shape_vertices(shape),
        plan_index_count(Seq::new(n, |i: int| shape)) == n * shape_index_count(shape),
    decreases n,
{
    if n > 0 {
        assert(Seq::new(n, |i: int| shape).drop_last() =~= Seq::new((n - 1) as nat, |i: int| shape));
        lemma_plan_repeat(shape, (n - 1) as nat);
        let m = (n - 1) as nat;
        let v = shape_vertices(shape);
        let c = shape_index_count(shape);
        vstd::arithmetic::mul::lemma_mul_is_distributive_add_other_way(v as int, m as int, 1);
        vstd::arithmetic::mul::lemma_mul_is_distributive_add_other_way(c as int, m as int, 1);
        assert(n * v == m * v + v);
        assert(n * c == m * c + c);
        let full = Seq::new(n, |i: int| shape);
        assert(full.last() == shape);
        assert(plan_vertices(full) == plan_vertices(full.drop_last()) + v);
        assert(plan_index_count(full) == plan_index_count(full.drop_last()) + c);
        assert(plan_vertices(full.drop_last()) == m * v);
        assert(plan_index_count(full.drop_last()) == m * c);
    } else {
        assert(0 * shape_vertices(shape) == 0);
        assert(0 * shape_index_count(shape) == 0);
    }
}

/// Every index of a mesh built from a plan addresses one of the mesh's
/// vertices.
pub proof fn lemma_plan_indices_within(plan: Seq<Shape>)
    ensures
        all_within(plan_indices(plan), 0, plan_vertices(plan) as int),
    decreases plan.len(),
{
    if plan.len() > 0 {
        let rest = plan.drop_last();
        lemma_plan_indices_within(rest);
        let base = plan_vertices(rest) as int;
        lemma_shape_indices_within(plan.last(), base);
        let prev = plan_indices(rest);
        let last = shape_indices(plan.last(), base);
        assert forall|i: int| 0 <= i < plan_indices(plan).len() implies 0
            <= #[trigger] plan_indices(plan)[i] < plan_vertices(plan) by {
            if i < prev.len() {
                assert(plan_indices(plan)[i] == prev[i]);
            } else {
                assert(plan_indices(plan)[i] == last[i - prev.len()]);
            }
        }
    }
}

/// A 16-bit index buffer together with the number of vertices it may
/// address.
pub struct IndexBuffer {
    vertex_count: usize,
    indices: Vec<u16>,
}

impl IndexBuffer {
    /// Number of vertices appended so far.
    pub closed spec fn vertices(&self) -> nat {
        self.vertex_count as nat
    }

    /// The indices appended so far, as integers.
    pub closed spec fn values(&self) -> Seq<int> {
        self.indices@.map_values(|i: u16| i as int)
    }

    /// At most [`MAX_INDEXED_VERTICES`] vertices, and every index addresses
    /// one of them.
    pub closed spec fn well_formed(&self) -> bool {
        &&& self.vertex_count <= MAX_INDEXED_VERTICES
        &&& all_within(self.values(), 0, self.vertex_count as int)
    }

    /// An empty buffer.
    pub fn new() -> (buf: Self)
        ensures
            buf.well_formed(),
            buf.vertices() == 0,
            buf.values() == Seq::<int>::empty(),
    {
        let buf = IndexBuffer { vertex_count: 0, indices: Vec::new() };
        assert(buf.values() =~= Seq::<int>::empty());
        buf
    }

    /// Number of vertices appended so far.
    pub fn vertex_count(&self) -> (n: usize)
        ensures
            n == self.vertices(),
    {
        self.vertex_count
    }

    /// Number of indices appended so far.
    pub fn index_count(&self) -> (n: usize)
        ensures
            n == self.values().len(),
    {
        self.indices.len()
    }

    /// Appends one vertex and returns its index.
    pub fn push_vertex(&mut self) -> (index: u16)
        requires
            old(self).well_formed(),
            old(self).vertices() < MAX_INDEXED_VERTICES,
        ensures
            final(self).well_formed(),
            index == old(self).vertices(),
            final(self).vertices() == old(self).vertices() + 1,
            final(self).values() == old(self).values(),
    {
        let index = self.vertex_count as u16;
        self.vertex_count = self.vertex_count + 1;
        index
    }

    /// Appends the index of an existing vertex.
    fn push_index(&mut self, index: u16)
        requires
            old(self).well_formed(),
            index < old(self).vertices(),
        ensures
            final(self).well_formed(),
            final(self).vertices() == old(self).vertices(),
            final(self).values() == old(self).values().push(index as int),
    {
        let ghost before = self.values();
        self.indices.push(index);
        assert(self.values() =~= before.push(index as int));
    }

    /// Appends a quad: four vertices and the triangles `(0, 1, 2)` and
    /// `(0, 2, 3)` over them.
    pub fn push_quad(&mut self)
        requires
            old(self).well_formed(),
            old(self).vertices() + 4 <= MAX_INDEXED_VERTICES,
        ensures
            final(self).well_formed(),
            final(self).vertices() == old(self).vertices() + 4,
            final(self).values() == old(self).values() + quad(old(self).vertices() as int),
            final(self).values() == old(self).values() + seq![
                old(self).vertices() as int,
                old(self).vertices() as int + 1,
                old(self).vertices() as int + 2,
                old(self).vertices() as int,
                old(self).vertices() as int + 2,
                old(self).vertices() as int + 3,
            ],
    {
        let base = self.push_vertex();
        let b1 = self.push_vertex();
        let b2 = self.push_vertex();
        let b3 = self.push_vertex();
        self.push_index(base);
        self.push_index(b1);
        self.push_index(b2);
        self.push_index(base);
        self.push_index(b2);
        self.push_index(b3);
        assert(self.values() =~= old(self).values() + quad(old(self).vertices() as int));
    }

    /// Appends `count` quads.
    pub fn push_quads(&mut self, count: usize)
        requires
            old(self).well_formed(),
            old(self).vertices() + 4 * count <= MAX_INDEXED_VERTICES,
        ensures
            final(self).well_formed(),
            final(self).vertices() == old(self).vertices() + 4 * count,
            final(self).values() == old(self).values() + quad_run(
                old(self).vertices() as int,
                count as nat,
            ),
            final(self).values().len() == old(self).values().len() + 6 * count,
            final(self).values().take(old(self).values().len() as int) == old(self).values(),
            forall|j: int|
                old(self).values().len() <= j < final(self).values().len() ==>
                    #[trigger] final(self).values()[j] == old(self).vertices()
                    + 4 * ((j - old(self).values().len()) / 6)
                    + quad_corner_offset((j - old(self).values().len()) % 6),
    {
        let ghost base = self.vertices() as int;
        let ghost start = self.values();
        let mut k: usize = 0;
        assert(start + quad_run(base, 0) =~= start);
        while k < count
            invariant
                k <= count,
                self.well_formed(),
                base + 4 * count <= MAX_INDEXED_VERTICES,
                self.vertices() == base + 4 * k,
                self.values() == start + quad_run(base, k as nat),
            decreases count - k,
        {
            let ghost prev = self.values();
            self.push_quad();
            assert(start + quad_run(base, (k + 1) as nat) =~= prev + quad(base + 4 * k));
            k = k + 1;
        }
        proof {
            lemma_quad_run_by_index(base, count as nat);
            let run = quad_run(base, count as nat);
            assert(self.values().take(start.len() as int) =~= start);
            assert forall|j: int| start.len() <= j < self.values().len() implies #[trigger] self.values()[j]
                == run[j - start.len()] by {}
        }
    }

    /// Appends a fan of `steps` triangles: a centre vertex, then per step two
    /// rim vertices and the triangle over the centre and them, wound as
    /// `front_facing` asks.
    pub fn push_fan(&mut self, steps: usize, front_facing: bool)
        requires
            old(self).well_formed(),
            old(self).vertices() + 1 + 2 * steps <= MAX_INDEXED_VERTICES,
        ensures
            final(self).well_formed(),
            final(self).vertices() == old(self).vertices() + 1 + 2 * steps,
            final(self).values() == old(self).values() + fan(
                old(self).vertices() as int,
                steps as nat,
                front_facing,
            ),
            final(self).values().len() == old(self).values().len() + 3 * steps,
            final(self).values().take(old(self).values().len() as int) == old(self).values(),
            forall|j: int|
                old(self).values().len() <= j < final(self).values().len() ==>
                    #[trigger] final(self).values()[j] == (if (j - old(self).values().len()) % 3 == 0 {
                        old(self).vertices() as int
                    } else if ((j - old(self).values().len()) % 3 == 1) == front_facing {
                        old(self).vertices() + 1 + 2 * ((j - old(self).values().len()) / 3)
                    } else {
                        old(self).vertices() + 2 + 2 * ((j - old(self).values().len()) / 3)
                    }),
    {
        let ghost start = self.values();
        let center = self.push_vertex();
        let mut k: usize = 0;
        assert(start + fan(center as int, 0, front_facing) =~= start);
        while k < steps
            invariant
                k <= steps,
                self.well_formed(),
                center + 1 + 2 * steps <= MAX_INDEXED_VERTICES,
                self.vertices() == center + 1 + 2 * k,
                self.values() == start + fan(center as int, k as nat, front_facing),
            decreases steps - k,
        {
            let ghost prev = self.values();
            let i0 = self.push_vertex();
            let i1 = self.push_vertex();
            self.push_index(center);
            if front_facing {
                self.push_index(i0);
                self.push_index(i1);
            } else {
                self.push_index(i1);
                self.push_index(i0);
            }
            assert(self.values() =~= prev + fan_triangle(center as int, k as int, front_facing));
            assert(start + fan(center as int, (k + 1) as nat, front_facing) =~= prev
                + fan_triangle(center as int, k as int, front_facing));
            k = k + 1;
        }
        proof {
            lemma_fan_by_index(center as int, steps as nat, front_facing);
            let f = fan(center as int, steps as nat, front_facing);
            assert(self.values().take(start.len() as int) =~= start);
            assert forall|j: int| start.len() <= j < self.values().len() implies #[trigger] self.values()[j]
                == f[j - start.len()] by {}
        }
    }

    /// Appends the vertices and triangles of one shape.
    pub fn push_shape(&mut self, shape: Shape)
        requires
            old(self).well_formed(),
            old(self).vertices() + shape_vertices(shape) <= MAX_INDEXED_VERTICES,
        ensures
            final(self).well_formed(),
            final(self).vertices() == old(self).vertices() + shape_vertices(shape),
            final(self).values() == old(self).values() + shape_indices(
                shape,
                old(self).vertices() as int,
            ),
    {
        match shape {
            Shape::Annulus => self.push_quads(CLOCK_SEGMENTS * ANNULUS_FACES),
            Shape::Disc { front_facing } => self.push_fan(CLOCK_SEGMENTS, front_facing),
            Shape::Cuboid => self.push_quads(CUBOID_FACES),
        }
    }

    /// Hands out the indices.
    pub fn into_indices(self) -> (indices: Vec<u16>)
        ensures
            indices@.map_values(|i: u16| i as int) == self.values(),
    {
        self.indices
    }
}

/// Vertices that one shape appends.
pub fn shape_vertex_count(shape: Shape) -> (n: usize)
    ensures
        n == shape_vertices(shape),
{
    match shape {
        Shape::Annulus => CLOCK_SEGMENTS * ANNULUS_FACES * 4,
        Shape::Disc { .. } => 1 + 2 * CLOCK_SEGMENTS,
        Shape::Cuboid => CUBOID_FACES * 4,
    }
}

proof fn lemma_plan_prefix(plan: Seq<Shape>, j: int)
    requires
        0 <= j <= plan.len(),
    ensures
        plan_vertices(plan.take(j)) <= plan_vertices(plan),
    decreases plan.len(),
{
    if j < plan.len() {
        let rest = plan.drop_last();
        assert(plan.take(j) =~= rest.take(j));
        lemma_plan_prefix(rest, j);
    } else {
        assert(plan.take(j) =~= plan);
    }
}

proof fn lemma_plan_step(plan: Seq<Shape>, i: int)
    requires
        0 <= i < plan.len(),
    ensures
        plan_vertices(plan.take(i + 1)) == plan_vertices(plan.take(i)) + shape_vertices(plan[i]),
        plan_indices(plan.take(i + 1)) == plan_indices(plan.take(i)) + shape_indices(
            plan[i],
            plan_vertices(plan.take(i)) as int,
        ),
{
    assert(plan.take(i + 1).drop_last() =~= plan.take(i));
}

/// The index buffer of a mesh made of the shapes of `plan`, in order, or
/// `None` when the mesh would have more vertices than 16-bit indices reach.
pub fn mesh_indices(plan: &[Shape]) -> (indices: Option<Vec<u16>>)
    ensures
        match indices {
            Some(v) => {
                &&& plan_vertices(plan@) <= MAX_INDEXED_VERTICES
                &&& v@.map_values(|i: u16| i as int) == plan_indices(plan@)
            },
            None => plan_vertices(plan@) > MAX_INDEXED_VERTICES,
        },
{
    let mut buf = IndexBuffer::new();
    let mut i: usize = 0;
    assert(plan@.take(0) =~= Seq::<Shape>::empty());
    while i < plan.len()
        invariant
            i <= plan.len(),
            buf.well_formed(),
            buf.vertices() == plan_vertices(plan@.take(i as int)),
            buf.values() == plan_indices(plan@.take(i as int)),
        decreases plan.len() - i,
    {
        let shape = plan[i];
        proof {
            lemma_plan_step(plan@, i as int);
        }
        if buf.vertex_count() > MAX_INDEXED_VERTICES - shape_vertex_count(shape) {
            proof {
                lemma_plan_prefix(plan@, i + 1);
            }
            return None;
        }
        buf.push_shape(shape);
        i = i + 1;
    }
    assert(plan@.take(plan.len() as int) =~= plan@);
    Some(buf.into_indices())
}

} // verus!
