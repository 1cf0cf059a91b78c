use voxel_terrain::chunk::Chunk;
use voxel_terrain::mesh::{Mesh, Vertex};
use voxel_terrain::position::Position;
use voxel_terrain::triangulation_table::{entry, TABLE};
use voxel_terrain::vec3::Vec3;
use voxel_terrain::voxel::Voxel;
use voxel_terrain::voxels_to_vertex::{
    append_triangle, append_vertex, cell_position, chose_voxel_for_node, chunk_mesh,
    get_index_by_voxels, get_vertex_nodes, get_voxels_for_vertex, shift_node_pos,
};

const CORNERS: [(i64, i64, i64); 8] = [
    (0, 0, 1),
    (1, 0, 1),
    (1, 0, 0),
    (0, 0, 0),
    (0, 1, 1),
    (1, 1, 1),
    (1, 1, 0),
    (0, 1, 0),
];

const EDGES: [(usize, usize); 12] = [
    (0, 1),
    (2, 1),
    (3, 2),
    (3, 0),
    (4, 5),
    (6, 5),
    (7, 6),
    (7, 4),
    (0, 4),
    (1, 5),
    (2, 6),
    (3, 7),
];

fn solid() -> Voxel {
    Voxel { value: 500_000, id: 4 }
}

fn empty() -> Voxel {
    Voxel { value: -500_000, id: 0 }
}

fn corners_of(pattern: usize) -> [Voxel; 8] {
    let mut corners = [empty(); 8];
    for (i, corner) in corners.iter_mut().enumerate() {
        if (pattern >> i) & 1 == 1 {
            *corner = solid();
        }
    }
    corners
}

fn row(pattern: usize) -> Vec<u64> {
    let mut entries = Vec::new();
    for i in 0..16 {
        let e = entry(TABLE[pattern], i);
        if e == 15 {
            break;
        }
        entries.push(e);
    }
    entries
}

fn chunk_with_cell(chunk_pos: Position, cell: Position, corners: &[Voxel; 8]) -> Chunk {
    let mut chunk = Chunk::new(chunk_pos);
    for x in 0..17 {
        for y in 0..17 {
            for z in 0..17 {
                chunk.set_voxel(Position::new(x, y, z), empty());
            }
        }
    }
    for (i, (dx, dy, dz)) in CORNERS.iter().enumerate() {
        chunk.set_voxel(Position::new(cell.x + dx, cell.y + dy, cell.z + dz), corners[i]);
    }
    chunk
}

#[test]
fn table_rows_are_whole_triangles_on_cut_edges() {
    for pattern in 0..256usize {
        let entries = row(pattern);
        assert_eq!(entries.len() % 3, 0);
        assert!(entries.len() <= 15);
        // Sentinels to the end of the row.
        for i in entries.len()..16 {
            assert_eq!(entry(TABLE[pattern], i), 15);
        }
        let mut used = [false; 12];
        for e in &entries {
            let (a, b) = EDGES[*e as usize];
            assert_ne!((pattern >> a) & 1, (pattern >> b) & 1);
            used[*e as usize] = true;
        }
        // Every cut edge carries a corner of some triangle.
        for (e, (a, b)) in EDGES.iter().enumerate() {
            assert_eq!(used[e], (pattern >> a) & 1 != (pattern >> b) & 1);
        }
    }
}

#[test]
fn table_rows_by_example() {
    assert_eq!(row(0), Vec::<u64>::new());
    assert_eq!(row(255), Vec::<u64>::new());
    assert_eq!(row(1), vec![0, 3, 8]);
    assert_eq!(row(8), vec![2, 11, 3]);
    assert_eq!(row(15), vec![8, 9, 10, 8, 10, 11]);
    assert_eq!(TABLE[1], 0x038F_FFFF_FFFF_FFFF);
}

#[test]
fn pattern_has_one_bit_per_solid_corner() {
    for pattern in 0..256usize {
        assert_eq!(get_index_by_voxels(&corners_of(pattern)), pattern);
    }
    // Zero counts as solid.
    let mut corners = [empty(); 8];
    corners[5] = Voxel { value: 0, id: 0 };
    assert_eq!(get_index_by_voxels(&corners), 32);
}

#[test]
fn node_lies_where_the_density_crosses_zero() {
    let node = |a: i32, b: i32| {
        chose_voxel_for_node(Voxel { value: a, id: 1 }, Voxel { value: b, id: 2 })
    };
    assert_eq!(node(500_000, -500_000), Some(Voxel { value: 500_000, id: 1 }));
    assert_eq!(node(-500_000, 500_000), Some(Voxel { value: 500_000, id: 2 }));
    assert_eq!(node(250_000, -750_000), Some(Voxel { value: 250_000, id: 1 }));
    assert_eq!(node(-750_000, 250_000), Some(Voxel { value: 750_000, id: 2 }));
    assert_eq!(node(0, -1), Some(Voxel { value: 0, id: 1 }));
    assert_eq!(node(-1, 0), Some(Voxel { value: 1_000_000, id: 2 }));
    assert_eq!(node(1, -2), Some(Voxel { value: 333_333, id: 1 }));
    assert_eq!(node(-2, 1), Some(Voxel { value: 666_667, id: 2 }));
    assert_eq!(node(i32::MAX, i32::MIN), Some(Voxel { value: 499_999, id: 1 }));
    assert_eq!(node(i32::MIN, i32::MAX), Some(Voxel { value: 500_001, id: 2 }));
    // Both solid, or both empty: no node.
    assert_eq!(node(1, 0), None);
    assert_eq!(node(0, 0), None);
    assert_eq!(node(-1, -5), None);
}

#[test]
fn nodes_of_a_cell_by_edge() {
    for pattern in 0..256usize {
        let corners = corners_of(pattern);
        let nodes = get_vertex_nodes(&corners);
        for (e, (a, b)) in EDGES.iter().enumerate() {
            assert_eq!(nodes[e], chose_voxel_for_node(corners[*a], corners[*b]));
        }
    }
}

#[test]
fn node_position_replaces_the_coordinate_along_the_edge() {
    let t = 250_000;
    let one = 1_000_000;
    let expected = [
        (t, 0, one),
        (one, 0, t),
        (t, 0, 0),
        (0, 0, t),
        (t, one, one),
        (one, one, t),
        (t, one, 0),
        (0, one, t),
        (0, t, one),
        (one, t, one),
        (one, t, 0),
        (0, t, 0),
    ];
    for (edge, (x, y, z)) in expected.iter().enumerate() {
        assert_eq!(shift_node_pos(edge, t), Vec3::new(*x, *y, *z));
    }
}

#[test]
fn uniform_cells_have_no_triangle() {
    for corners in [[solid(); 8], [empty(); 8], [Voxel { value: 0, id: 0 }; 8]] {
        let chunk = chunk_with_cell(Position::new(0, 0, 0), Position::new(3, 4, 5), &corners);
        let mut vertex: Vec<Vertex> = Vec::new();
        append_vertex(Position::new(3, 4, 5), &chunk, &mut vertex);
        assert!(vertex.is_empty());
        let nodes = get_vertex_nodes(&corners);
        assert!(nodes.iter().all(|n| n.is_none()));
    }
}

#[test]
fn one_differing_corner_gives_three_nodes_and_one_triangle() {
    for lone in 0..8usize {
        for pattern in [1usize << lone, 255 ^ (1usize << lone)] {
            let corners = corners_of(pattern);
            let nodes = get_vertex_nodes(&corners);
            assert_eq!(nodes.iter().filter(|n| n.is_some()).count(), 3);
            let chunk = chunk_with_cell(Position::new(0, 0, 0), Position::new(3, 4, 5), &corners);
            let mut vertex: Vec<Vertex> = Vec::new();
            append_vertex(Position::new(3, 4, 5), &chunk, &mut vertex);
            assert_eq!(vertex.len(), 3);
            // The normal points from the solid side to the empty side.
            let (cx, cy, cz) = CORNERS[lone];
            let sign = if pattern == 1 << lone { 1 } else { -1 };
            let away = |c: i64| if c == 0 { 577_350 } else { -577_350 };
            assert_eq!(
                vertex[0].normal,
                Vec3::new(sign * away(cx), sign * away(cy), sign * away(cz))
            );
        }
    }
}

#[test]
fn triangle_of_a_lone_corner_in_world_space() {
    // Corner 3, the cell's own position, is solid.
    let corners = corners_of(8);
    let chunk_pos = Position::new(1, 0, -1);
    let cell = Position::new(2, 3, 4);
    let chunk = chunk_with_cell(chunk_pos, cell, &corners);
    let mut vertex: Vec<Vertex> = vec![Vertex {
        position: Vec3::new(1, 2, 3),
        normal: Vec3::new(0, 0, 0),
        id: 77,
    }];
    append_vertex(cell, &chunk, &mut vertex);
    let normal = Vec3::new(577_350, 577_350, 577_350);
    assert_eq!(
        vertex,
        vec![
            Vertex { position: Vec3::new(1, 2, 3), normal: Vec3::new(0, 0, 0), id: 77 },
            Vertex { position: Vec3::new(18_500_000, 3_000_000, -12_000_000), normal, id: 4 },
            Vertex { position: Vec3::new(18_000_000, 3_500_000, -12_000_000), normal, id: 4 },
            Vertex { position: Vec3::new(18_000_000, 3_000_000, -11_500_000), normal, id: 4 },
        ]
    );
}

#[test]
fn cell_outside_the_grid_has_no_triangle() {
    let corners = corners_of(8);
    let chunk = chunk_with_cell(Position::new(0, 0, 0), Position::new(15, 15, 15), &corners);
    for cell in [
        Position::new(16, 0, 0),
        Position::new(0, 16, 0),
        Position::new(0, 0, 16),
        Position::new(-1, 0, 0),
        Position::new(0, 0, -1),
        Position::new(i64::MAX, i64::MAX, i64::MAX),
        Position::new(i64::MIN, 0, 0),
    ] {
        assert!(get_voxels_for_vertex(&chunk, cell).is_none());
        let mut vertex: Vec<Vertex> = Vec::new();
        append_vertex(cell, &chunk, &mut vertex);
        assert!(vertex.is_empty());
    }
    // The last cell of the chunk has all its corners.
    assert_eq!(get_voxels_for_vertex(&chunk, Position::new(15, 15, 15)), Some(corners));
}

#[test]
fn triangle_without_a_node_is_left_out() {
    let corners = corners_of(8);
    let nodes = get_vertex_nodes(&corners);
    let mut vertex: Vec<Vertex> = Vec::new();
    append_triangle(Vec3::new(0, 0, 0), &mut vertex, &nodes, 2, 11, 0);
    assert!(vertex.is_empty());
    append_triangle(Vec3::new(0, 0, 0), &mut vertex, &nodes, 2, 11, 3);
    assert_eq!(vertex.len(), 3);
}

#[test]
fn triangle_without_area_has_no_normal() {
    // The three nodes of the lone corner fall onto the corner itself.
    let mut corners = [Voxel { value: -1_000_000, id: 0 }; 8];
    corners[3] = Voxel { value: 0, id: 4 };
    let nodes = get_vertex_nodes(&corners);
    let mut vertex: Vec<Vertex> = Vec::new();
    append_triangle(Vec3::new(5_000_000, 0, 0), &mut vertex, &nodes, 2, 11, 3);
    assert_eq!(vertex.len(), 3);
    for v in &vertex {
        assert_eq!(v.position, Vec3::new(5_000_000, 0, 0));
        assert_eq!(v.normal, Vec3::new(0, 0, 0));
    }
}

#[test]
fn flat_ground_meshes_to_a_plane() {
    let mut chunk = Chunk::new(Position::new(0, 2, 0));
    for x in 0..17 {
        for y in 0..17 {
            for z in 0..17 {
                let value = if y <= 4 { 250_000 } else { -750_000 };
                chunk.set_voxel(Position::new(x, y, z), Voxel { value, id: 2 });
            }
        }
    }
    chunk.update_mesh();
    let mesh = chunk.get_mesh().expect("no mesh");
    assert_eq!(mesh.size(), 16 * 16 * 2 * 3);
    assert_eq!(mesh.vertices, chunk_mesh(&chunk));
    for v in &mesh.vertices {
        assert_eq!(v.position.y, (2 * 16 + 4) * 1_000_000 + 250_000);
        assert_eq!(v.normal, Vec3::new(0, 1_000_000, 0));
        assert_eq!(v.id, 2);
        assert!(0 <= v.position.x && v.position.x <= 16_000_000);
        assert!(0 <= v.position.z && v.position.z <= 16_000_000);
    }
    // Cells are taken with z running fastest: the first triangles are in the
    // cell (0, 4, 0).
    assert_eq!(mesh.vertices[0].position, Vec3::new(0, 36_250_000, 1_000_000));
    assert_eq!(mesh.vertices[1].position, Vec3::new(1_000_000, 36_250_000, 1_000_000));
    assert_eq!(mesh.vertices[2].position, Vec3::new(1_000_000, 36_250_000, 0));
    // Building again replaces the mesh by an equal one.
    chunk.update_mesh();
    assert_eq!(chunk.get_mesh().unwrap().size(), 1536);
}

#[test]
fn solid_chunk_meshes_to_nothing() {
    let mut chunk = Chunk::new(Position::new(0, 0, 0));
    assert!(chunk.get_mesh().is_none());
    chunk.update_mesh();
    assert_eq!(chunk.get_mesh().expect("no mesh").size(), 0);
}

#[test]
fn cells_run_z_fastest() {
    assert_eq!(cell_position(0), Position::new(0, 0, 0));
    assert_eq!(cell_position(1), Position::new(0, 0, 1));
    assert_eq!(cell_position(16), Position::new(0, 1, 0));
    assert_eq!(cell_position(256), Position::new(1, 0, 0));
    assert_eq!(cell_position(4095), Position::new(15, 15, 15));
}

#[test]
fn mesh_counts_its_vertices() {
    let v = Vertex { position: Vec3::new(1, 2, 3), normal: Vec3::new(0, 0, 1_000_000), id: 1 };
    let mesh = Mesh::new(vec![v, v, v]);
    assert_eq!(mesh.size(), 3);
    assert_eq!(mesh.vertices[2], v);
    assert_eq!(Mesh::new(Vec::new()).size(), 0);
}
