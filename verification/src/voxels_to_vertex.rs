//! Surface extraction: from the samples at the eight corners of a unit
//! cell to the triangles of the surface inside the cell.
//!
//! An edge of the cell carries a node of the surface where exactly one of
//! its two corners is solid. The node lies where the density, taken to
//! change linearly along the edge, crosses zero. Which corners are solid
//! selects a row of the case table, and each triple of edges in the row
//! becomes one triangle with its corners at the nodes of those edges.

use vstd::prelude::*;
use crate::chunk::Chunk;
use crate::fixed::ONE;
use crate::grid::{chunk_origin, grid_index, in_chunk, origin_coordinate, CHUNK_REAL_SIZE};
use crate::mesh::Vertex;
use crate::position::{Point, Position};
use crate::triangulation_table::{
    corner_bit, edge_cut, edge_first, edge_second, entry, row_entry, row_ok, triple_ok,
    NODES_POS_COUNT, SENTINEL, TABLE,
};
use crate::triangulation_table_proof::lemma_table_rows_ok;
use crate::vec3::{unit_component, Vec3};
use crate::voxel::{Voxel, VoxelId};

verus! {

/// Where `corner` lies in its cell, in grid steps from the cell's
/// position.
pub open spec fn corner_offset(corner: u64) -> Point {
    if corner == 0 {
        Point { x: 0, y: 0, z: 1 }
    } else if corner == 1 {
        Point { x: 1, y: 0, z: 1 }
    } else if corner == 2 {
        Point { x: 1, y: 0, z: 0 }
    } else if corner == 3 {
        Point { x: 0, y: 0, z: 0 }
    } else if corner == 4 {
        Point { x: 0, y: 1, z: 1 }
    } else if corner == 5 {
        Point { x: 1, y: 1, z: 1 }
    } else if corner == 6 {
        Point { x: 1, y: 1, z: 0 }
    } else {
        Point { x: 0, y: 1, z: 0 }
    }
}

/// The axis along which `edge` runs: 0 for `x`, 1 for `y`, 2 for `z`.
pub open spec fn edge_axis(edge: u64) -> int {
    if edge >= 8 {
        1
    } else if edge % 2 == 0 {
        0
    } else {
        2
    }
}

/// Whether the cell at the local position `cell` has all eight corners
/// inside the grid.
pub open spec fn cell_in_chunk(cell: Point) -> bool {
    in_chunk(cell) && in_chunk(Point { x: cell.x + 1, y: cell.y + 1, z: cell.z + 1 })
}

/// The samples at the eight corners of the cell at the local position
/// `cell`, by corner; `None` where a corner lies outside the grid.
pub open spec fn cell_corners(voxels: Seq<Voxel>, cell: Point) -> Option<Seq<Voxel>> {
    if cell_in_chunk(cell) {
        Some(Seq::new(8, |c: int| voxels[grid_index(cell.plus(corner_offset(c as u64)))]))
    } else {
        None
    }
}

/// One for a solid sample, zero for an empty one.
pub open spec fn solid_bit(v: Voxel) -> u64 {
    if v.solid() {
        1
    } else {
        0
    }
}

/// The pattern of the corners: bit `i` is set where corner `i` is solid.
pub open spec fn case_index(corners: Seq<Voxel>) -> u64 {
    solid_bit(corners[0]) | (solid_bit(corners[1]) << 1) | (solid_bit(corners[2]) << 2) | (
    solid_bit(corners[3]) << 3) | (solid_bit(corners[4]) << 4) | (solid_bit(corners[5]) << 5) | (
    solid_bit(corners[6]) << 6) | (solid_bit(corners[7]) << 7)
}

/// Whether `edge` carries a node: exactly one of its corners is solid.
pub open spec fn node_active(corners: Seq<Voxel>, edge: u64) -> bool {
    corners[edge_first(edge) as int].solid() != corners[edge_second(edge) as int].solid()
}

/// One where `edge` carries a node, zero where it does not.
pub open spec fn node_count(corners: Seq<Voxel>, edge: u64) -> int {
    if node_active(corners, edge) {
        1
    } else {
        0
    }
}

/// How many of the twelve edges carry a node.
pub open spec fn active_nodes(corners: Seq<Voxel>) -> int {
    node_count(corners, 0) + node_count(corners, 1) + node_count(corners, 2) + node_count(
        corners,
        3,
    ) + node_count(corners, 4) + node_count(corners, 5) + node_count(corners, 6) + node_count(
        corners,
        7,
    ) + node_count(corners, 8) + node_count(corners, 9) + node_count(corners, 10) + node_count(
        corners,
        11,
    )
}

/// How far from a solid corner of density `inside` the surface crosses
/// the edge to an empty corner of density `outside`, as a fixed-point
/// fraction of the edge: `inside / (inside - outside)`, rounded down.
pub open spec fn crossing(inside: int, outside: int) -> int {
    (inside * ONE) / (inside - outside)
}

/// The node between the samples `a` and `b` at the lower and upper end of
/// an edge: `None` where both or neither are solid. Otherwise a sample
/// whose `value` is the fixed-point distance of the crossing from the
/// lower end, and whose `id` is the material of the solid end.
pub open spec fn node_between(a: Voxel, b: Voxel) -> Option<Voxel> {
    if a.solid() && !b.solid() {
        Some(Voxel { value: crossing(a.value as int, b.value as int) as i32, id: a.id })
    } else if !a.solid() && b.solid() {
        Some(Voxel { value: (ONE - crossing(b.value as int, a.value as int)) as i32, id: b.id })
    } else {
        None
    }
}

/// The node on `edge` of a cell with the given corners.
pub open spec fn node_on(corners: Seq<Voxel>, edge: u64) -> Option<Voxel> {
    node_between(corners[edge_first(edge) as int], corners[edge_second(edge) as int])
}

/// The fixed-point position within its cell of a node at distance `value`
/// along `edge`.
pub open spec fn node_position(edge: u64, value: int) -> Point {
    let low = corner_offset(edge_first(edge));
    if edge_axis(edge) == 0 {
        Point { x: value, y: low.y * ONE, z: low.z * ONE }
    } else if edge_axis(edge) == 1 {
        Point { x: low.x * ONE, y: value, z: low.z * ONE }
    } else {
        Point { x: low.x * ONE, y: low.y * ONE, z: value }
    }
}

/// The cross product of two vectors.
pub open spec fn cross(u: Point, v: Point) -> Point {
    Point { x: u.y * v.z - u.z * v.y, y: u.z * v.x - u.x * v.z, z: u.x * v.y - u.y * v.x }
}

/// The squared Euclidean length of a vector.
pub open spec fn sq_length(n: Point) -> int {
    n.x * n.x + n.y * n.y + n.z * n.z
}

/// The fixed-point unit normal of the triangle `a`, `b`, `c`: the cross
/// product of the edge vectors `b - a` and `c - a`, normalised. A triangle
/// without area has the zero vector for its normal.
pub open spec fn unit_normal(a: Point, b: Point, c: Point) -> Point {
    let n = cross(b.minus(a), c.minus(a));
    let sq = sq_length(n);
    Point { x: unit_component(n.x, sq), y: unit_component(n.y, sq), z: unit_component(n.z, sq) }
}

/// The vector of `p`, where its components fit 64 bits.
pub open spec fn to_vec3(p: Point) -> Vec3<i64> {
    Vec3 { x: p.x as i64, y: p.y as i64, z: p.z as i64 }
}

/// The fixed-point world position of the first corner of the cell at the
/// local position `cell` of the chunk at `chunk`.
pub open spec fn cell_origin(chunk: Point, cell: Point) -> Point {
    chunk_origin(chunk).plus(cell).scaled(ONE as int)
}

/// The vertex at the position `p` within the cell at the fixed-point
/// world position `origin`.
pub open spec fn vertex_at(origin: Point, p: Point, normal: Point, id: VoxelId) -> Vertex {
    Vertex { position: to_vec3(origin.plus(p)), normal: to_vec3(normal), id }
}

/// The three vertices of the triangle on the nodes `a`, `b` and `c`, for a
/// cell at the fixed-point world position `origin`.
pub open spec fn triangle(origin: Point, a: (u64, Voxel), b: (u64, Voxel), c: (u64, Voxel)) -> Seq<
    Vertex,
> {
    let pa = node_position(a.0, a.1.value as int);
    let pb = node_position(b.0, b.1.value as int);
    let pc = node_position(c.0, c.1.value as int);
    let normal = unit_normal(pa, pb, pc);
    seq![
        vertex_at(origin, pa, normal, a.1.id),
        vertex_at(origin, pb, normal, b.1.id),
        vertex_at(origin, pc, normal, c.1.id),
    ]
}

/// The vertices of the triangle on three edges of a cell, or none where
/// one of the edges carries no node.
pub open spec fn triangle_on(corners: Seq<Voxel>, origin: Point, a: u64, b: u64, c: u64) -> Seq<
    Vertex,
> {
    match (node_on(corners, a), node_on(corners, b), node_on(corners, c)) {
        (Some(na), Some(nb), Some(nc)) => triangle(origin, (a, na), (b, nb), (c, nc)),
        _ => Seq::empty(),
    }
}

/// The vertices of the triangles that the row `code` lists from entry
/// `at` on, in the order of the row.
pub open spec fn row_vertices(code: u64, corners: Seq<Voxel>, origin: Point, at: u64) -> Seq<
    Vertex,
>
    decreases 15 - at,
{
    if at >= 13 || row_entry(code, at) == SENTINEL {
        Seq::empty()
    } else {
        triangle_on(
            corners,
            origin,
            row_entry(code, at),
            row_entry(code, (at + 1) as u64),
            row_entry(code, (at + 2) as u64),
        ) + row_vertices(code, corners, origin, (at + 3) as u64)
    }
}

/// The vertices of the surface inside the cell at the local position
/// `cell` of the chunk at `chunk`, three per triangle. A cell with a
/// corner outside the grid has none.
pub open spec fn cell_vertices(voxels: Seq<Voxel>, chunk: Point, cell: Point) -> Seq<Vertex> {
    match cell_corners(voxels, cell) {
        Some(corners) => row_vertices(
            TABLE[case_index(corners) as int],
            corners,
            cell_origin(chunk, cell),
            0,
        ),
        None => Seq::empty(),
    }
}

/// Whether a node, if there is one, lies between the ends of its edge.
pub open spec fn node_in_edge(node: Option<Voxel>) -> bool {
    node matches Some(n) ==> 0 <= n.value <= ONE
}

/// Whether `nodes` holds the nodes of a cell with the given corners, by
/// edge.
pub open spec fn nodes_of(nodes: Seq<Option<Voxel>>, corners: Seq<Voxel>) -> bool {
    &&& nodes.len() == 12
    &&& forall|edge: int|
        0 <= edge < 12 ==> #[trigger] nodes[edge] == node_on(corners, edge as u64) && node_in_edge(
            nodes[edge],
        )
}

/// A node lies on its edge: its distance from the lower end is between
/// zero and one.
pub proof fn lemma_node_on_edge(a: Voxel, b: Voxel)
    ensures
        node_between(a, b) matches Some(node) ==> 0 <= node.value <= ONE,
        node_between(a, b).is_some() <==> a.solid() != b.solid(),
{
    if a.solid() && !b.solid() {
        crate::fixed::lemma_ratio_bounds(a.value as int, a.value - b.value, ONE as int);
    } else if !a.solid() && b.solid() {
        crate::fixed::lemma_ratio_bounds(b.value as int, b.value - a.value, ONE as int);
    }
}

/// The sample at the local position `pos` of `chunk`, or `None` where the
/// position lies outside the grid.
fn get_voxel(chunk: &Chunk, pos: Position) -> (r: Option<Voxel>)
    ensures
        r == crate::grid::grid_get(chunk.voxels(), pos@),
{
    chunk.get_voxel(pos)
}

/// The samples at the eight corners of the cell at the local position
/// `base_pos`, by corner, or `None` where a corner lies outside the grid.
pub fn get_voxels_for_vertex(chunk: &Chunk, base_pos: Position) -> (r: Option<[Voxel; 8]>)
    ensures
        r.is_some() == cell_in_chunk(base_pos@),
        r matches Some(corners) ==> Some(corners@) == cell_corners(chunk.voxels(), base_pos@),
{
    if !Chunk::check_pos_in_chunk(base_pos) {
        return None;
    }
    let (x, y, z) = (base_pos.x, base_pos.y, base_pos.z);
    if !Chunk::check_pos_in_chunk(Position::new(x + 1, y + 1, z + 1)) {
        return None;
    }
    let c0 = get_voxel(chunk, Position::new(x, y, z + 1));
    let c1 = get_voxel(chunk, Position::new(x + 1, y, z + 1));
    let c2 = get_voxel(chunk, Position::new(x + 1, y, z));
    let c3 = get_voxel(chunk, Position::new(x, y, z));
    let c4 = get_voxel(chunk, Position::new(x, y + 1, z + 1));
    let c5 = get_voxel(chunk, Position::new(x + 1, y + 1, z + 1));
    let c6 = get_voxel(chunk, Position::new(x + 1, y + 1, z));
    let c7 = get_voxel(chunk, Position::new(x, y + 1, z));
    match (c0, c1, c2, c3, c4, c5, c6, c7) {
        (Some(v0), Some(v1), Some(v2), Some(v3), Some(v4), Some(v5), Some(v6), Some(v7)) => {
            let corners = [v0, v1, v2, v3, v4, v5, v6, v7];
            assert(corners@ =~= cell_corners(chunk.voxels(), base_pos@).unwrap());
            Some(corners)
        },
        _ => None,
    }
}

/// The pattern of the corners: bit `i` is set where corner `i` is solid.
pub fn get_index_by_voxels(corners: &[Voxel; 8]) -> (r: usize)
    ensures
        r == case_index(corners@),
        r < 256,
{
    let b0: u64 = bit_of(&corners[0]);
    let b1: u64 = bit_of(&corners[1]);
    let b2: u64 = bit_of(&corners[2]);
    let b3: u64 = bit_of(&corners[3]);
    let b4: u64 = bit_of(&corners[4]);
    let b5: u64 = bit_of(&corners[5]);
    let b6: u64 = bit_of(&corners[6]);
    let b7: u64 = bit_of(&corners[7]);
    let index = b0 | (b1 << 1) | (b2 << 2) | (b3 << 3) | (b4 << 4) | (b5 << 5) | (b6 << 6) | (b7
        << 7);
    assert(index < 256) by (bit_vector)
        requires
            index == b0 | (b1 << 1) | (b2 << 2) | (b3 << 3) | (b4 << 4) | (b5 << 5) | (b6 << 6) | (
            b7 << 7),
            b0 <= 1,
            b1 <= 1,
            b2 <= 1,
            b3 <= 1,
            b4 <= 1,
            b5 <= 1,
            b6 <= 1,
            b7 <= 1,
    ;
    index as usize
}

/// One for a solid sample, zero for an empty one.
fn bit_of(v: &Voxel) -> (r: u64)
    ensures
        r == solid_bit(*v),
        r <= 1,
{
    if v.is_solid() {
        1
    } else {
        0
    }
}

/// `inside / (inside - outside)` as a fixed-point number, rounded down.
fn crossing_of(inside: i32, outside: i32) -> (r: i32)
    requires
        inside >= 0,
        outside < 0,
    ensures
        r == crossing(inside as int, outside as int),
        0 <= r < ONE,
{
    proof {
        crate::fixed::lemma_ratio_bounds(inside as int, inside - outside, ONE as int);
    }
    let numerator: u64 = inside as u64 * ONE as u64;
    let denominator: u64 = (inside as i64 - outside as i64) as u64;
    (numerator / denominator) as i32
}

/// The node between the samples `a` and `b` at the lower and upper end of
/// an edge, or `None` where both or neither are solid.
pub fn chose_voxel_for_node(a: Voxel, b: Voxel) -> (r: Option<Voxel>)
    ensures
        r == node_between(a, b),
        r matches Some(node) ==> 0 <= node.value <= ONE,
{
    if a.is_solid() && !b.is_solid() {
        Some(Voxel { value: crossing_of(a.value, b.value), id: a.id })
    } else if !a.is_solid() && b.is_solid() {
        Some(Voxel { value: ONE as i32 - crossing_of(b.value, a.value), id: b.id })
    } else {
        None
    }
}

/// The nodes of a cell with the given corners, by edge.
pub fn get_vertex_nodes(corners: &[Voxel; 8]) -> (r: [Option<Voxel>; 12])
    ensures
        nodes_of(r@, corners@),
{
    let r = [
        chose_voxel_for_node(corners[0], corners[1]),
        chose_voxel_for_node(corners[2], corners[1]),
        chose_voxel_for_node(corners[3], corners[2]),
        chose_voxel_for_node(corners[3], corners[0]),
        chose_voxel_for_node(corners[4], corners[5]),
        chose_voxel_for_node(corners[6], corners[5]),
        chose_voxel_for_node(corners[7], corners[6]),
        chose_voxel_for_node(corners[7], corners[4]),
        chose_voxel_for_node(corners[0], corners[4]),
        chose_voxel_for_node(corners[1], corners[5]),
        chose_voxel_for_node(corners[2], corners[6]),
        chose_voxel_for_node(corners[3], corners[7]),
    ];
    assert forall|edge: int| 0 <= edge < 12 implies #[trigger] r@[edge] == node_on(
        corners@,
        edge as u64,
    ) && node_in_edge(r@[edge]) by {
        if edge == 0 {
        } else if edge == 1 {
        } else if edge == 2 {
        } else if edge == 3 {
        } else if edge == 4 {
        } else if edge == 5 {
        } else if edge == 6 {
        } else if edge == 7 {
        } else if edge == 8 {
        } else if edge == 9 {
        } else if edge == 10 {
        } else {
        }
    }
    r
}

/// The fixed-point position within its cell of a node at distance `value`
/// along `edge`.
pub fn shift_node_pos(edge: usize, value: i64) -> (r: Vec3<i64>)
    requires
        edge < NODES_POS_COUNT,
        0 <= value <= ONE,
    ensures
        r@ == node_position(edge as u64, value as int),
        in_unit_cell(r@),
{
    if edge == 0 {
        Vec3::new(value, 0, ONE)
    } else if edge == 1 {
        Vec3::new(ONE, 0, value)
    } else if edge == 2 {
        Vec3::new(value, 0, 0)
    } else if edge == 3 {
        Vec3::new(0, 0, value)
    } else if edge == 4 {
        Vec3::new(value, ONE, ONE)
    } else if edge == 5 {
        Vec3::new(ONE, ONE, value)
    } else if edge == 6 {
        Vec3::new(value, ONE, 0)
    } else if edge == 7 {
        Vec3::new(0, ONE, value)
    } else if edge == 8 {
        Vec3::new(0, value, ONE)
    } else if edge == 9 {
        Vec3::new(ONE, value, ONE)
    } else if edge == 10 {
        Vec3::new(ONE, value, 0)
    } else {
        Vec3::new(0, value, 0)
    }
}

/// Whether a vector lies in the unit cell: each component between zero
/// and one.
pub open spec fn in_unit_cell(p: Point) -> bool {
    0 <= p.x <= ONE && 0 <= p.y <= ONE && 0 <= p.z <= ONE
}

/// The fixed-point unit normal of the triangle `a`, `b`, `c`.
fn unit_normal_of(a: Vec3<i64>, b: Vec3<i64>, c: Vec3<i64>) -> (r: Vec3<i64>)
    requires
        in_unit_cell(a@),
        in_unit_cell(b@),
        in_unit_cell(c@),
    ensures
        r@ == unit_normal(a@, b@, c@),
{
    let u = b - a;
    let v = c - a;
    proof {
        lemma_product_range(u.y as int, v.z as int);
        lemma_product_range(u.z as int, v.y as int);
        lemma_product_range(u.z as int, v.x as int);
        lemma_product_range(u.x as int, v.z as int);
        lemma_product_range(u.x as int, v.y as int);
        lemma_product_range(u.y as int, v.x as int);
    }
    let n = u.cross(v);
    assert(n@ == cross(b@.minus(a@), c@.minus(a@)));
    n.normalize()
}

/// The range of a product of two differences within the unit cell.
proof fn lemma_product_range(a: int, b: int)
    requires
        -ONE <= a <= ONE,
        -ONE <= b <= ONE,
    ensures
        -1_000_000_000_000 <= a * b <= 1_000_000_000_000,
{
    assert(-1_000_000_000_000 <= a * b <= 1_000_000_000_000) by (nonlinear_arith)
        requires
            -1_000_000 <= a <= 1_000_000,
            -1_000_000 <= b <= 1_000_000,
    ;
}

/// The vertices of the triangle on the edges `a`, `b` and `c`, or none
/// where one of the edges carries no node.
pub open spec fn triangle_of_nodes(
    nodes: Seq<Option<Voxel>>,
    origin: Point,
    a: u64,
    b: u64,
    c: u64,
) -> Seq<Vertex> {
    match (nodes[a as int], nodes[b as int], nodes[c as int]) {
        (Some(na), Some(nb), Some(nc)) => triangle(origin, (a, na), (b, nb), (c, nc)),
        _ => Seq::empty(),
    }
}

/// Whether a cell at the fixed-point world position `origin` has all its
/// points within 64 bits.
pub open spec fn origin_fits(origin: Point) -> bool {
    &&& i64::MIN <= origin.x && origin.x + ONE <= i64::MAX
    &&& i64::MIN <= origin.y && origin.y + ONE <= i64::MAX
    &&& i64::MIN <= origin.z && origin.z + ONE <= i64::MAX
}

/// Appends the triangle on the edges `a`, `b` and `c` of the cell at the
/// fixed-point world position `origin`: three vertices, in this order,
/// that share the triangle's unit normal. Appends nothing where one of
/// the edges carries no node.
pub fn append_triangle(
    origin: Vec3<i64>,
    vertex: &mut Vec<Vertex>,
    nodes: &[Option<Voxel>; 12],
    a: usize,
    b: usize,
    c: usize,
)
    requires
        a < NODES_POS_COUNT,
        b < NODES_POS_COUNT,
        c < NODES_POS_COUNT,
        origin_fits(origin@),
        forall|edge: int| 0 <= edge < 12 ==> node_in_edge(#[trigger] nodes@[edge]),
    ensures
        final(vertex)@ == old(vertex)@ + triangle_of_nodes(
            nodes@,
            origin@,
            a as u64,
            b as u64,
            c as u64,
        ),
{
    match (nodes[a], nodes[b], nodes[c]) {
        (Some(na), Some(nb), Some(nc)) => {
            assert(node_in_edge(nodes@[a as int]));
            assert(node_in_edge(nodes@[b as int]));
            assert(node_in_edge(nodes@[c as int]));
            let a_pos = shift_node_pos(a, na.value as i64);
            let b_pos = shift_node_pos(b, nb.value as i64);
            let c_pos = shift_node_pos(c, nc.value as i64);
            let normal = unit_normal_of(a_pos, b_pos, c_pos);
            let va = make_vertex(origin, a_pos, normal, na.id);
            let vb = make_vertex(origin, b_pos, normal, nb.id);
            let vc = make_vertex(origin, c_pos, normal, nc.id);
            let ghost before = vertex@;
            vertex.push(va);
            vertex.push(vb);
            vertex.push(vc);
            assert(vertex@ =~= before + seq![va, vb, vc]);
        },
        _ => {
            assert(vertex@ =~= vertex@ + Seq::<Vertex>::empty());
        },
    }
}

/// The vertex at the position `p` within the cell at the fixed-point
/// world position `origin`.
fn make_vertex(origin: Vec3<i64>, p: Vec3<i64>, normal: Vec3<i64>, id: VoxelId) -> (r: Vertex)
    requires
        origin_fits(origin@),
        in_unit_cell(p@),
    ensures
        r == vertex_at(origin@, p@, normal@, id),
{
    Vertex {
        position: Vec3::new(origin.x + p.x, origin.y + p.y, origin.z + p.z),
        normal,
        id,
    }
}

/// Appends the triangles of the surface inside the cell at the local
/// position `pos` of `chunk`, three vertices per triangle, in world
/// space. Appends nothing for a cell with a corner outside the grid.
pub fn append_vertex(pos: Position, chunk: &Chunk, vertex: &mut Vec<Vertex>)
    ensures
        final(vertex)@ == old(vertex)@ + cell_vertices(chunk.voxels(), chunk.position()@, pos@),
{
    let ghost before = vertex@;
    let corners = match get_voxels_for_vertex(chunk, pos) {
        Some(corners) => corners,
        None => {
            assert(vertex@ =~= before + Seq::<Vertex>::empty());
            return ;
        },
    };
    let nodes = get_vertex_nodes(&corners);
    let pattern = get_index_by_voxels(&corners);
    let code = TABLE[pattern];
    let chunk_pos = chunk.get_position();
    let origin = Vec3::<i64>::new(
        (origin_coordinate(chunk_pos.x) + pos.x) * ONE,
        (origin_coordinate(chunk_pos.y) + pos.y) * ONE,
        (origin_coordinate(chunk_pos.z) + pos.z) * ONE,
    );
    assert(origin@ == cell_origin(chunk.position()@, pos@));
    proof {
        lemma_table_rows_ok(pattern as u64);
    }
    let ghost all = row_vertices(code, corners@, origin@, 0);
    let mut at: usize = 0;
    while at < 13 && entry(code, at) != SENTINEL
        invariant
            at <= 15,
            at % 3 == 0,
            row_ok(code, pattern as u64),
            nodes_of(nodes@, corners@),
            origin_fits(origin@),
            before + all == vertex@ + row_vertices(code, corners@, origin@, at as u64),
        decreases 15 - at,
    {
        assert(triple_ok(code, pattern as u64, at as u64));
        let a = entry(code, at) as usize;
        let b = entry(code, at + 1) as usize;
        let c = entry(code, at + 2) as usize;
        let ghost so_far = vertex@;
        append_triangle(origin, vertex, &nodes, a, b, c);
        proof {
            let rest = row_vertices(code, corners@, origin@, (at + 3) as u64);
            let this = triangle_on(corners@, origin@, a as u64, b as u64, c as u64);
            assert(triangle_of_nodes(nodes@, origin@, a as u64, b as u64, c as u64) == this);
            assert(row_vertices(code, corners@, origin@, at as u64) == this + rest);
            assert(so_far + (this + rest) =~= (so_far + this) + rest);
        }
        at += 3;
    }
    assert(row_vertices(code, corners@, origin@, at as u64) =~= Seq::<Vertex>::empty());
    assert(vertex@ =~= before + all);
}

/// The number of unit cells in a chunk: the cube of its edge length.
pub const CHUNK_CELLS: usize = 4096;

/// The local position of the `n`-th cell of a chunk: cells are taken with
/// `z` running fastest, then `y`, then `x`.
pub open spec fn cell_at(n: int) -> Point {
    Point {
        x: n / (CHUNK_REAL_SIZE * CHUNK_REAL_SIZE) as int,
        y: (n / CHUNK_REAL_SIZE as int) % (CHUNK_REAL_SIZE as int),
        z: n % (CHUNK_REAL_SIZE as int),
    }
}

/// The vertices of the surface inside the first `n` cells of the chunk at
/// `chunk`, cell after cell.
pub open spec fn chunk_vertices(voxels: Seq<Voxel>, chunk: Point, n: int) -> Seq<Vertex>
    decreases n,
{
    if n <= 0 {
        Seq::empty()
    } else {
        chunk_vertices(voxels, chunk, n - 1) + cell_vertices(voxels, chunk, cell_at(n - 1))
    }
}

/// The local position of the `n`-th cell of a chunk.
pub fn cell_position(n: usize) -> (r: Position)
    requires
        n < CHUNK_CELLS,
    ensures
        r@ == cell_at(n as int),
        cell_in_chunk(r@),
{
    Position::new(
        (n / (CHUNK_REAL_SIZE * CHUNK_REAL_SIZE)) as i64,
        ((n / CHUNK_REAL_SIZE) % CHUNK_REAL_SIZE) as i64,
        (n % CHUNK_REAL_SIZE) as i64,
    )
}

/// The vertices of the whole surface of `chunk`, in world space.
pub fn chunk_mesh(chunk: &Chunk) -> (r: Vec<Vertex>)
    ensures
        r@ == chunk_vertices(chunk.voxels(), chunk.position()@, CHUNK_CELLS as int),
{
    let mut vertex: Vec<Vertex> = Vec::new();
    let mut n: usize = 0;
    while n < CHUNK_CELLS
        invariant
            n <= CHUNK_CELLS,
            vertex@ == chunk_vertices(chunk.voxels(), chunk.position()@, n as int),
        decreases CHUNK_CELLS - n,
    {
        append_vertex(cell_position(n), chunk, &mut vertex);
        n += 1;
    }
    vertex
}

/// The bits of a pattern are the corners: bit `i` is set exactly where
/// corner `i` is solid, so an edge is cut exactly where it carries a node.
pub proof fn lemma_case_index_bits(corners: Seq<Voxel>)
    requires
        corners.len() == 8,
    ensures
        case_index(corners) < 256,
        forall|corner: u64|
            corner < 8 ==> #[trigger] corner_bit(case_index(corners), corner)
                == corners[corner as int].solid(),
        forall|edge: u64|
            edge < 12 ==> #[trigger] edge_cut(case_index(corners), edge) == node_active(
                corners,
                edge,
            ),
{
    let b0 = solid_bit(corners[0]);
    let b1 = solid_bit(corners[1]);
    let b2 = solid_bit(corners[2]);
    let b3 = solid_bit(corners[3]);
    let b4 = solid_bit(corners[4]);
    let b5 = solid_bit(corners[5]);
    let b6 = solid_bit(corners[6]);
    let b7 = solid_bit(corners[7]);
    let p = case_index(corners);
    assert(p < 256 && ((p >> 0) & 1 == b0) && ((p >> 1) & 1 == b1) && ((p >> 2) & 1 == b2) && ((p
        >> 3) & 1 == b3) && ((p >> 4) & 1 == b4) && ((p >> 5) & 1 == b5) && ((p >> 6) & 1 == b6)
        && ((p >> 7) & 1 == b7)) by (bit_vector)
        requires
            p == b0 | (b1 << 1) | (b2 << 2) | (b3 << 3) | (b4 << 4) | (b5 << 5) | (b6 << 6) | (b7
                << 7),
            b0 <= 1,
            b1 <= 1,
            b2 <= 1,
            b3 <= 1,
            b4 <= 1,
            b5 <= 1,
            b6 <= 1,
            b7 <= 1,
    ;
    assert forall|corner: u64| corner < 8 implies #[trigger] corner_bit(p, corner)
        == corners[corner as int].solid() by {
        if corner == 0 {
        } else if corner == 1 {
        } else if corner == 2 {
        } else if corner == 3 {
        } else if corner == 4 {
        } else if corner == 5 {
        } else if corner == 6 {
        } else {
        }
    }
    assert forall|edge: u64| edge < 12 implies #[trigger] edge_cut(p, edge) == node_active(
        corners,
        edge,
    ) by {
        assert(edge_first(edge) < 8 && edge_second(edge) < 8);
        assert(corner_bit(p, edge_first(edge)) == corners[edge_first(edge) as int].solid());
        assert(corner_bit(p, edge_second(edge)) == corners[edge_second(edge) as int].solid());
    }
}

/// The table lists only edges that carry a node: every triangle of a
/// cell's row has three nodes to stand on.
pub proof fn lemma_listed_edges_carry_nodes(corners: Seq<Voxel>, at: u64)
    requires
        corners.len() == 8,
        at == 0 || at == 3 || at == 6 || at == 9 || at == 12,
        row_entry(TABLE[case_index(corners) as int], at) != SENTINEL,
    ensures
        node_on(corners, row_entry(TABLE[case_index(corners) as int], at)).is_some(),
        node_on(corners, row_entry(TABLE[case_index(corners) as int], (at + 1) as u64)).is_some(),
        node_on(corners, row_entry(TABLE[case_index(corners) as int], (at + 2) as u64)).is_some(),
{
    let p = case_index(corners);
    lemma_case_index_bits(corners);
    lemma_table_rows_ok(p);
    assert(triple_ok(TABLE[p as int], p, at));
    let a = row_entry(TABLE[p as int], at);
    let b = row_entry(TABLE[p as int], (at + 1) as u64);
    let c = row_entry(TABLE[p as int], (at + 2) as u64);
    assert(edge_cut(p, a) == node_active(corners, a));
    assert(edge_cut(p, b) == node_active(corners, b));
    assert(edge_cut(p, c) == node_active(corners, c));
    lemma_node_on_edge(corners[edge_first(a) as int], corners[edge_second(a) as int]);
    lemma_node_on_edge(corners[edge_first(b) as int], corners[edge_second(b) as int]);
    lemma_node_on_edge(corners[edge_first(c) as int], corners[edge_second(c) as int]);
}

/// How many triangles the row `code` lists from entry `at` on.
pub open spec fn listed_triangles(code: u64, at: u64) -> int
    decreases 15 - at,
{
    if at >= 13 || row_entry(code, at) == SENTINEL {
        0
    } else {
        1 + listed_triangles(code, (at + 3) as u64)
    }
}

/// Every triangle that the table lists for a cell is part of the cell's
/// surface: the surface has three vertices for each, and no more than
/// five triangles.
pub proof fn lemma_every_listed_triangle_appears(corners: Seq<Voxel>, origin: Point, at: u64)
    requires
        corners.len() == 8,
        at == 0 || at == 3 || at == 6 || at == 9 || at == 12 || at == 15,
    ensures
        row_vertices(TABLE[case_index(corners) as int], corners, origin, at).len() == 3
            * listed_triangles(TABLE[case_index(corners) as int], at),
        0 <= listed_triangles(TABLE[case_index(corners) as int], at) <= (15 - at) / 3,
    decreases 15 - at,
{
    let code = TABLE[case_index(corners) as int];
    if at >= 13 || row_entry(code, at) == SENTINEL {
    } else {
        lemma_listed_edges_carry_nodes(corners, at);
        lemma_every_listed_triangle_appears(corners, origin, (at + 3) as u64);
        let first = triangle_on(
            corners,
            origin,
            row_entry(code, at),
            row_entry(code, (at + 1) as u64),
            row_entry(code, (at + 2) as u64),
        );
        assert(first.len() == 3);
    }
}

/// A cell whose corners are all solid, or all empty, has no node and no
/// triangle.
pub proof fn lemma_uniform_cell_is_empty(corners: Seq<Voxel>, origin: Point)
    requires
        corners.len() == 8,
        forall|c: int| 0 <= c < 8 ==> (#[trigger] corners[c]).solid() == corners[0].solid(),
    ensures
        active_nodes(corners) == 0,
        row_vertices(TABLE[case_index(corners) as int], corners, origin, 0) == Seq::<
            Vertex,
        >::empty(),
{
    let b = solid_bit(corners[0]);
    let p = case_index(corners);
    assert(solid_bit(corners[1]) == b && solid_bit(corners[2]) == b && solid_bit(corners[3]) == b
        && solid_bit(corners[4]) == b && solid_bit(corners[5]) == b && solid_bit(corners[6]) == b
        && solid_bit(corners[7]) == b);
    assert(p == 0 || p == 255) by (bit_vector)
        requires
            p == b | (b << 1) | (b << 2) | (b << 3) | (b << 4) | (b << 5) | (b << 6) | (b << 7),
            b <= 1,
    ;
    lemma_table_rows_ok(p);
    assert forall|edge: u64| edge < 12 implies !node_active(corners, edge) by {
        assert(edge_first(edge) < 8 && edge_second(edge) < 8);
    }
}

/// A cell with exactly one corner that differs from the other seven has
/// exactly three nodes and exactly one triangle.
pub proof fn lemma_lone_corner_has_one_triangle(corners: Seq<Voxel>, origin: Point, lone: int)
    requires
        corners.len() == 8,
        0 <= lone < 8,
        forall|c: int|
            0 <= c < 8 && c != lone ==> (#[trigger] corners[c]).solid() != corners[lone].solid(),
    ensures
        active_nodes(corners) == 3,
        row_vertices(TABLE[case_index(corners) as int], corners, origin, 0).len() == 3,
{
    let p = case_index(corners);
    let code = TABLE[p as int];
    lemma_case_index_bits(corners);
    lemma_table_rows_ok(p);
    let b0 = solid_bit(corners[0]);
    let b1 = solid_bit(corners[1]);
    let b2 = solid_bit(corners[2]);
    let b3 = solid_bit(corners[3]);
    let b4 = solid_bit(corners[4]);
    let b5 = solid_bit(corners[5]);
    let b6 = solid_bit(corners[6]);
    let b7 = solid_bit(corners[7]);
    let sum = b0 + b1 + b2 + b3 + b4 + b5 + b6 + b7;
    assert(sum == 1 || sum == 7) by {
        if lone == 0 {
        } else if lone == 1 {
        } else if lone == 2 {
        } else if lone == 3 {
        } else if lone == 4 {
        } else if lone == 5 {
        } else if lone == 6 {
        } else {
        }
    }
    assert(crate::triangulation_table::lone_corner(p)) by (bit_vector)
        requires
            p == b0 | (b1 << 1) | (b2 << 2) | (b3 << 3) | (b4 << 4) | (b5 << 5) | (b6 << 6) | (b7
                << 7),
            b0 <= 1,
            b1 <= 1,
            b2 <= 1,
            b3 <= 1,
            b4 <= 1,
            b5 <= 1,
            b6 <= 1,
            b7 <= 1,
            b0 + b1 + b2 + b3 + b4 + b5 + b6 + b7 == 1 || b0 + b1 + b2 + b3 + b4 + b5 + b6 + b7
                == 7,
    ;
    // One triangle: three listed edges, then the sentinel.
    lemma_listed_edges_carry_nodes(corners, 0);
    assert(triple_ok(code, p, 0));
    let rest = row_vertices(code, corners, origin, 3);
    assert(rest =~= Seq::<Vertex>::empty());
    let first = triangle_on(corners, origin, row_entry(code, 0), row_entry(code, 1), row_entry(code, 2));
    assert(first.len() == 3);
    assert(row_vertices(code, corners, origin, 0) == first + rest);
    // Three nodes: the edges that meet at the lone corner.
    assert(active_nodes(corners) == 3) by {
        if lone == 0 {
        } else if lone == 1 {
        } else if lone == 2 {
        } else if lone == 3 {
        } else if lone == 4 {
        } else if lone == 5 {
        } else if lone == 6 {
        } else {
        }
    }
}

} // verus!
