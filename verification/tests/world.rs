use voxel_terrain::chunk::Chunk;
use voxel_terrain::chunk_map::ChunkMap;
use voxel_terrain::input::{GameInput, InputKey, InputState};
use voxel_terrain::position::Position;
use voxel_terrain::time::GameTime;
use voxel_terrain::vec3::Vec3;
use voxel_terrain::voxel::Voxel;
use voxel_terrain::world::sculpt::{edit_amount, EditOutcome};
use voxel_terrain::world::World;

const CHUNK: i64 = 16_000_000;

fn viewer_in(chunk: Position) -> Vec3<i64> {
    Vec3::new(chunk.x * CHUNK + 500_000, chunk.y * CHUNK + 500_000, chunk.z * CHUNK + 500_000)
}

/// A chunk that is solid up to the local height 4 and empty above.
fn ground(pos: Position) -> Chunk {
    let mut chunk = Chunk::new(pos);
    for x in 0..17 {
        for y in 0..17 {
            for z in 0..17 {
                let value = if y <= 4 { 250_000 } else { -750_000 };
                chunk.set_voxel(Position::new(x, y, z), Voxel { value, id: 2 });
            }
        }
    }
    chunk
}

fn generate(world: &mut World, positions: &[Position]) {
    let chunks: Vec<Chunk> = positions.iter().map(|p| ground(*p)).collect();
    world.insert_chunks(chunks);
}

#[test]
fn render_distance_zero_loads_the_viewers_chunk_alone() {
    let mut world = World::new(0, 4);
    assert_eq!(world.get_max_chunk(), 1);
    let home = Position::new(3, -1, 2);
    let asked = world.update(viewer_in(home));
    assert_eq!(asked, vec![home]);
    generate(&mut world, &asked);
    assert_eq!(world.chunk_count(), 1);
    assert!(world.get_chunk(home).is_some());
    for _ in 0..5 {
        assert_eq!(world.update(viewer_in(home)), Vec::<Position>::new());
        assert_eq!(world.evict(viewer_in(home), false), None);
        assert_eq!(world.chunk_count(), 1);
    }
    // The cap holds while the viewer moves next door: nothing is asked for,
    // and a chunk one away is not yet too far.
    let next = Position::new(4, -1, 2);
    assert_eq!(world.update(viewer_in(next)), Vec::<Position>::new());
    assert_eq!(world.evict(viewer_in(next), false), None);
    // Two away it is given up, and the next frame asks for the new one.
    let far = Position::new(5, -1, 2);
    assert_eq!(world.update(viewer_in(far)), Vec::<Position>::new());
    assert_eq!(world.evict(viewer_in(far), false), Some(home));
    assert_eq!(world.chunk_count(), 0);
    assert_eq!(world.update(viewer_in(far)), vec![far]);
}

#[test]
fn chunks_are_asked_for_nearest_first_a_few_per_frame() {
    let mut world = World::new(1, 4);
    assert_eq!(world.get_max_chunk(), 27);
    let home = Position::new(0, 0, 0);
    let mut all = Vec::new();
    let first = world.update(viewer_in(home));
    assert_eq!(
        first,
        vec![
            Position::new(0, 0, 0),
            Position::new(-1, -1, -1),
            Position::new(-1, -1, 0),
            Position::new(-1, -1, 1),
        ]
    );
    generate(&mut world, &first);
    all.extend(first);
    for frame in 1..7 {
        let asked = world.update(viewer_in(home));
        assert_eq!(asked.len(), if frame < 6 { 4 } else { 3 });
        generate(&mut world, &asked);
        all.extend(asked);
    }
    assert_eq!(all.len(), 27);
    assert_eq!(world.chunk_count(), 27);
    assert_eq!(all[26], Position::new(1, 1, 1));
    for p in &all {
        assert!(p.chebyshev_distance(&home) <= 1);
        assert!(world.get_chunk(*p).is_some());
    }
    assert_eq!(world.update(viewer_in(home)), Vec::<Position>::new());
}

#[test]
fn resident_chunks_are_not_asked_for_again() {
    let mut world = World::new(1, 100);
    let home = Position::new(0, 0, 0);
    generate(&mut world, &[Position::new(0, 0, 0), Position::new(-1, -1, 0), Position::new(1, 1, 1)]);
    let asked = world.update(viewer_in(home));
    assert_eq!(asked.len(), 24);
    assert!(!asked.contains(&Position::new(0, 0, 0)));
    assert!(!asked.contains(&Position::new(-1, -1, 0)));
    assert!(!asked.contains(&Position::new(1, 1, 1)));
    assert_eq!(asked[0], Position::new(-1, -1, -1));
    assert_eq!(asked[1], Position::new(-1, -1, 1));
    // The ring ends with a resident chunk. Once it is used up it starts anew:
    // what was asked for and not handed in is asked for again.
    assert_eq!(world.update(viewer_in(home)), Vec::<Position>::new());
    assert_eq!(world.update(viewer_in(home)), asked);
    generate(&mut world, &asked);
    // Now the cap is reached.
    assert_eq!(world.chunk_count(), 27);
    assert_eq!(world.update(viewer_in(home)), Vec::<Position>::new());
}

#[test]
fn radius_zero_asks_for_the_viewers_chunk_until_it_is_handed_in() {
    let mut world = World::new(0, 1);
    let home = Position::new(-7, 0, 3);
    for _ in 0..3 {
        assert_eq!(world.update(viewer_in(home)), vec![home]);
        assert_eq!(world.chunk_count(), 0);
    }
    generate(&mut world, &[home]);
    assert_eq!(world.update(viewer_in(home)), Vec::<Position>::new());
    assert_eq!(world.chunk_count(), 1);
}

#[test]
fn the_cap_leaves_room_for_fewer_than_a_frames_worth() {
    let mut world = World::new(1, 4);
    let home = Position::new(0, 0, 0);
    // Twenty-five chunks elsewhere fill the map up to two below the cap.
    let elsewhere: Vec<Position> = (0..25).map(|i| Position::new(100 + i, 0, 0)).collect();
    generate(&mut world, &elsewhere);
    assert_eq!(world.chunk_count(), 25);
    let asked = world.update(viewer_in(home));
    assert_eq!(asked, vec![Position::new(0, 0, 0), Position::new(-1, -1, -1)]);
    generate(&mut world, &asked);
    assert_eq!(world.update(viewer_in(home)), Vec::<Position>::new());
}

#[test]
fn a_viewer_in_another_chunk_starts_a_new_ring() {
    let mut world = World::new(1, 2);
    let asked = world.update(viewer_in(Position::new(0, 0, 0)));
    assert_eq!(asked, vec![Position::new(0, 0, 0), Position::new(-1, -1, -1)]);
    let moved = world.update(viewer_in(Position::new(10, 0, 0)));
    assert_eq!(moved, vec![Position::new(10, 0, 0), Position::new(9, -1, -1)]);
    // Staying put goes on with the ring.
    let on = world.update(viewer_in(Position::new(10, 0, 0)));
    assert_eq!(on, vec![Position::new(9, -1, 0), Position::new(9, -1, 1)]);
}

#[test]
fn viewer_chunk_rounds_down() {
    assert_eq!(World::get_chunk_cord_by_vec(Vec3::new(0, 0, 0)), Position::new(0, 0, 0));
    assert_eq!(
        World::get_chunk_cord_by_vec(Vec3::new(15_999_999, 16_000_000, -1)),
        Position::new(0, 1, -1)
    );
    assert_eq!(
        World::get_chunk_cord_by_vec(Vec3::new(-16_000_000, -16_000_001, 47_999_999)),
        Position::new(-1, -2, 2)
    );
    assert_eq!(
        World::get_chunk_cord_by_vec(Vec3::new(i64::MIN, i64::MAX, 0)),
        Position::new(-576_460_752_304, 576_460_752_303, 0)
    );
}

#[test]
fn chunks_outside_the_worlds_bounds_are_not_asked_for() {
    // The viewer's own chunk lies one beyond the bounds: of the ring around it
    // only the nine chunks on the near side are asked for.
    let mut world = World::new(1, 100);
    let asked = world.update(Vec3::new(i64::MAX, 0, 0));
    assert_eq!(asked.len(), 9);
    assert!(asked.iter().all(|p| p.x == 576_460_752_302));
    // Two beyond, nothing is.
    let mut world = World::new(0, 100);
    assert_eq!(world.update(Vec3::new(i64::MAX, 0, 0)), Vec::<Position>::new());
    let mut world = World::new(1, 100);
    assert_eq!(world.update(Vec3::new(i64::MIN, 0, 0)), Vec::<Position>::new());
    let edge = Position::new(576_460_752_302, 0, 0);
    let asked = world.update(viewer_in(edge));
    assert_eq!(asked.len(), 18);
    assert!(asked.iter().all(|p| p.x <= 576_460_752_302));
}

#[test]
fn one_far_chunk_is_given_up_per_frame() {
    let mut world = World::new(1, 4);
    generate(
        &mut world,
        &[
            Position::new(0, 0, 0),
            Position::new(2, 0, 0),
            Position::new(3, 0, 0),
            Position::new(0, -3, 0),
            Position::new(-3, 5, 5),
        ],
    );
    let viewer = viewer_in(Position::new(0, 0, 0));
    // More than render distance + 1 away, in ascending order of positions.
    assert_eq!(world.get_chunk_to_unload(viewer), Some(Position::new(-3, 5, 5)));
    assert_eq!(world.unload_chunk(viewer), Some(Position::new(-3, 5, 5)));
    assert_eq!(world.evict(viewer, false), Some(Position::new(0, -3, 0)));
    assert_eq!(world.evict(viewer, false), Some(Position::new(3, 0, 0)));
    assert_eq!(world.evict(viewer, false), None);
    assert_eq!(world.chunk_count(), 2);
    assert!(world.get_chunk(Position::new(2, 0, 0)).is_some());
    assert!(world.get_chunk(Position::new(3, 0, 0)).is_none());
}

#[test]
fn generation_can_be_frozen() {
    let mut world = World::new(1, 4);
    generate(&mut world, &[Position::new(9, 9, 9)]);
    let viewer = viewer_in(Position::new(0, 0, 0));
    assert!(world.is_generation_enabled());
    assert_eq!(world.evict(viewer, true), None);
    assert!(!world.is_generation_enabled());
    assert_eq!(world.update(viewer), Vec::<Position>::new());
    assert_eq!(world.evict(viewer, false), None);
    assert_eq!(world.chunk_count(), 1);
    // Thawed: the far chunk goes, and chunks are asked for.
    assert_eq!(world.evict(viewer, true), Some(Position::new(9, 9, 9)));
    assert!(world.is_generation_enabled());
    assert_eq!(world.update(viewer).len(), 4);
}

#[test]
fn inserting_replaces_the_chunk_at_the_position() {
    let mut world = World::new(1, 4);
    let pos = Position::new(1, 2, 3);
    let mut first = Chunk::new(pos);
    first.set_voxel(Position::new(0, 0, 0), Voxel { value: 11, id: 1 });
    let mut second = Chunk::new(pos);
    second.set_voxel(Position::new(0, 0, 0), Voxel { value: 22, id: 2 });
    world.insert_chunks(vec![first, second]);
    assert_eq!(world.chunk_count(), 1);
    assert_eq!(
        world.get_voxel(Position::new(16, 32, 48)),
        Some(Voxel { value: 22, id: 2 })
    );
}

#[test]
fn samples_are_found_by_world_position() {
    let mut world = World::new(1, 4);
    let mut chunk = Chunk::new(Position::new(-1, 0, 2));
    chunk.set_voxel(Position::new(15, 0, 1), Voxel { value: 5, id: 6 });
    world.insert_chunks(vec![chunk]);
    assert_eq!(world.get_voxel(Position::new(-1, 0, 33)), Some(Voxel { value: 5, id: 6 }));
    assert_eq!(world.get_voxel(Position::new(-16, 15, 47)), Some(Voxel { value: 0, id: 0 }));
    assert_eq!(world.get_voxel(Position::new(0, 0, 33)), None);
    assert_eq!(world.get_voxel(Position::new(i64::MIN, i64::MAX, 0)), None);
    assert!(world.get_chunk_by_vec(Vec3::new(-1, 0, 32_000_000)).is_some());
    assert!(world.get_chunk_by_vec(Vec3::new(0, 0, 32_000_000)).is_none());
    assert_eq!(
        world.get_chunk(Position::new(-1, 0, 2)).unwrap().get_position(),
        Position::new(-1, 0, 2)
    );
}

#[test]
fn ray_without_a_chunk_hits_nothing() {
    let world = World::new(1, 4);
    let down = Vec3::new(0, -1_000_000, 0);
    assert_eq!(world.cast_ray(Vec3::new(8_500_000, 10_500_000, 8_500_000), down, 32_000_000), None);
    assert_eq!(world.cast_ray(Vec3::new(i64::MAX, i64::MIN, 0), down, i64::MAX), None);
    // Chunks elsewhere do not help.
    let mut world = World::new(1, 4);
    generate(&mut world, &[Position::new(5, 5, 5)]);
    assert_eq!(world.cast_ray(Vec3::new(8_500_000, 10_500_000, 8_500_000), down, 32_000_000), None);
}

#[test]
fn ray_hits_the_first_solid_sample() {
    let mut world = World::new(1, 4);
    generate(&mut world, &[Position::new(0, 0, 0)]);
    let from = Vec3::new(8_500_000, 10_500_000, 8_500_000);
    let down = Vec3::new(0, -1_000_000, 0);
    assert_eq!(
        world.cast_ray(from, down, 32_000_000),
        Some((Position::new(8, 4, 8), Voxel { value: 250_000, id: 2 }))
    );
    // Too short a ray stops above the ground: the ground is 5.5 away.
    assert_eq!(world.cast_ray(from, down, 5_500_000), None);
    assert_eq!(world.cast_ray(from, down, 5_510_001), Some((Position::new(8, 4, 8), Voxel { value: 250_000, id: 2 })));
    assert_eq!(world.cast_ray(from, down, 0), None);
    assert_eq!(world.cast_ray(from, down, -5), None);
    // Upwards the ray leaves the chunk and finds none.
    assert_eq!(world.cast_ray(from, Vec3::new(0, 1_000_000, 0), 32_000_000), None);
    // A ray that starts in the ground hits at once.
    assert_eq!(
        world.cast_ray(Vec3::new(3_000_000, 2_999_999, 15_999_999), down, 32_000_000),
        Some((Position::new(3, 2, 15), Voxel { value: 250_000, id: 2 }))
    );
    // Slanted: x grows by 0.6 and y falls by 0.8 per unit.
    assert_eq!(
        world.cast_ray(from, Vec3::new(600_000, -800_000, 0), 32_000_000),
        Some((Position::new(12, 4, 8), Voxel { value: 250_000, id: 2 }))
    );
}

#[test]
fn ray_crosses_into_the_next_chunk() {
    let mut world = World::new(1, 4);
    generate(&mut world, &[Position::new(0, 1, 0), Position::new(0, 0, 0)]);
    let from = Vec3::new(8_500_000, 16_000_000 + 10_500_000, 8_500_000);
    let down = Vec3::new(0, -1_000_000, 0);
    // The upper chunk has its own ground at its local height 4.
    assert_eq!(
        world.cast_ray(from, down, 32_000_000),
        Some((Position::new(8, 20, 8), Voxel { value: 250_000, id: 2 }))
    );
    // Sideways above the ground the ray crosses chunks until one is missing.
    generate(&mut world, &[Position::new(1, 1, 0)]);
    assert_eq!(world.cast_ray(from, Vec3::new(1_000_000, 0, 0), 32_000_000), None);
}

#[test]
fn chunks_missing_around_an_edit() {
    let mut world = World::new(1, 4);
    generate(&mut world, &[Position::new(0, 0, 0), Position::new(1, 0, 0)]);
    let missing = world.missing_chunks(Position::new(8, 4, 8));
    assert_eq!(missing.len(), 25);
    assert!(!missing.contains(&Position::new(0, 0, 0)));
    assert!(!missing.contains(&Position::new(1, 0, 0)));
    for p in &missing {
        assert!(p.chebyshev_distance(&Position::new(0, 0, 0)) == 1);
    }
    generate(&mut world, &missing);
    assert_eq!(world.missing_chunks(Position::new(8, 4, 8)), Vec::<Position>::new());
    // The chunk that holds the position decides, also for negative positions.
    let around = world.missing_chunks(Position::new(-1, 4, 8));
    assert_eq!(around.len(), 9);
    assert!(around.iter().all(|p| p.x == -2));
}

/// A chunk with every sample at the floor of the edits.
fn hollow(pos: Position) -> Chunk {
    let mut chunk = Chunk::new(pos);
    for x in 0..17 {
        for y in 0..17 {
            for z in 0..17 {
                chunk.set_voxel(Position::new(x, y, z), Voxel { value: -100_000, id: 0 });
            }
        }
    }
    chunk
}

fn around(center: Position) -> Vec<Position> {
    let mut all = Vec::new();
    for dx in -1..=1 {
        for dy in -1..=1 {
            for dz in -1..=1 {
                all.push(Position::new(center.x + dx, center.y + dy, center.z + dz));
            }
        }
    }
    all
}

#[test]
fn mining_digs_where_the_viewer_looks() {
    let mut world = World::new(1, 4);
    generate(&mut world, &around(Position::new(0, 0, 0)));
    let from = Vec3::new(8_500_000, 10_500_000, 8_500_000);
    let down = Vec3::new(0, -1_000_000, 0);
    // Every chunk in reach is resident: the edit is done at once.
    let outcome = world.mine(from, down, 60_000, Vec::new());
    // The sphere of radius 6 around (8, 4, 8) stays inside the first chunk.
    assert_eq!(outcome, EditOutcome::Done(vec![Position::new(0, 0, 0)]));
    assert_eq!(world.get_voxel(Position::new(8, 4, 8)).unwrap().value, 190_000);
    assert_eq!(world.get_voxel(Position::new(11, 4, 8)).unwrap().value, 220_000);
    // Empty samples are left alone.
    assert_eq!(world.get_voxel(Position::new(8, 5, 8)).unwrap().value, -750_000);
    assert!(world.get_chunk(Position::new(0, 0, 0)).unwrap().get_mesh().is_some());
    assert!(world.get_chunk(Position::new(1, 0, 0)).unwrap().get_mesh().is_none());
    assert_eq!(world.chunk_count(), 27);
    // Looking at nothing digs nothing: upwards, from above the ground of the
    // chunk above, the ray leaves the resident chunks.
    let high = Vec3::new(8_500_000, 26_500_000, 8_500_000);
    assert_eq!(
        world.mine(high, Vec3::new(0, 1_000_000, 0), 60_000, Vec::new()),
        EditOutcome::NoHit
    );
    assert_eq!(world.get_voxel(Position::new(8, 4, 8)).unwrap().value, 190_000);
    assert_eq!(world.chunk_count(), 27);
}

#[test]
fn mining_at_the_frontier_asks_for_the_missing_chunks() {
    let mut world = World::new(1, 4);
    generate(&mut world, &[Position::new(0, 0, 0), Position::new(1, 0, 0)]);
    let from = Vec3::new(14_500_000, 10_500_000, 8_500_000);
    let down = Vec3::new(0, -1_000_000, 0);
    // Twenty-five chunks around the hit are missing: nothing is dug yet.
    let missing = match world.mine(from, down, 60_000, Vec::new()) {
        EditOutcome::Missing(list) => list,
        other => panic!("expected the missing chunks, got {:?}", other),
    };
    assert_eq!(missing, world.missing_chunks(Position::new(14, 4, 8)));
    assert_eq!(missing.len(), 25);
    assert_eq!(world.chunk_count(), 2);
    assert_eq!(world.get_voxel(Position::new(14, 4, 8)).unwrap().value, 250_000);
    // Chunks that are not the missing ones are turned down, and nothing
    // changes either.
    let too_few: Vec<Chunk> = missing[1..].iter().map(|p| ground(*p)).collect();
    assert_eq!(
        world.mine(from, down, 60_000, too_few),
        EditOutcome::Missing(missing.clone())
    );
    let mut out_of_order: Vec<Chunk> = missing.iter().map(|p| ground(*p)).collect();
    out_of_order.swap(0, 1);
    assert_eq!(
        world.mine(from, down, 60_000, out_of_order),
        EditOutcome::Missing(missing.clone())
    );
    assert_eq!(world.chunk_count(), 2);
    assert_eq!(world.get_voxel(Position::new(14, 4, 8)).unwrap().value, 250_000);
    // With the missing chunks handed over the edit is done, in all of them.
    let fresh: Vec<Chunk> = missing.iter().map(|p| ground(*p)).collect();
    let outcome = world.mine(from, down, 60_000, fresh);
    assert_eq!(
        outcome,
        EditOutcome::Done(vec![Position::new(0, 0, 0), Position::new(1, 0, 0)])
    );
    assert_eq!(world.chunk_count(), 27);
    for p in around(Position::new(0, 0, 0)) {
        assert!(world.get_chunk(p).is_some());
    }
    assert_eq!(world.missing_chunks(Position::new(14, 4, 8)), Vec::<Position>::new());
    assert_eq!(world.get_voxel(Position::new(14, 4, 8)).unwrap().value, 190_000);
}

#[test]
fn mining_reaches_into_the_chunks_around() {
    let mut world = World::new(1, 4);
    generate(&mut world, &around(Position::new(0, 0, 0)));
    generate(&mut world, &[Position::new(5, 0, 0)]);
    // Looking down at (14, 4, 8): the sphere reaches the chunk to the east.
    let from = Vec3::new(14_500_000, 10_500_000, 8_500_000);
    let outcome = world.mine(from, Vec3::new(0, -1_000_000, 0), 60_000, Vec::new());
    assert_eq!(
        outcome,
        EditOutcome::Done(vec![Position::new(0, 0, 0), Position::new(1, 0, 0)])
    );
    // World position (17, 4, 8) is three away from the hit.
    assert_eq!(world.get_voxel(Position::new(17, 4, 8)).unwrap().value, 220_000);
    // The shared samples at x = 16 agree in both chunks.
    let west = world.get_chunk(Position::new(0, 0, 0)).unwrap();
    let east = world.get_chunk(Position::new(1, 0, 0)).unwrap();
    assert_eq!(
        west.get_voxel(Position::new(16, 4, 8)),
        east.get_voxel(Position::new(0, 4, 8))
    );
    // Two away from the hit: 60_000 * 4 / 6 less.
    assert_eq!(west.get_voxel(Position::new(16, 4, 8)).unwrap().value, 210_000);
    assert!(world.get_chunk(Position::new(5, 0, 0)).unwrap().get_mesh().is_none());
}

#[test]
fn a_fresh_chunk_is_edited_like_the_others() {
    let mut world = World::new(1, 4);
    generate(&mut world, &[Position::new(0, 0, 0)]);
    let from = Vec3::new(14_500_000, 10_500_000, 8_500_000);
    let down = Vec3::new(0, -1_000_000, 0);
    let missing = world.missing_chunks(Position::new(14, 4, 8));
    assert_eq!(missing.len(), 26);
    let fresh: Vec<Chunk> = missing.iter().map(|p| ground(*p)).collect();
    let outcome = world.mine(from, down, 60_000, fresh);
    assert_eq!(
        outcome,
        EditOutcome::Done(vec![Position::new(0, 0, 0), Position::new(1, 0, 0)])
    );
    // The chunk to the east came with the request and is dug and meshed.
    assert_eq!(world.get_voxel(Position::new(17, 4, 8)).unwrap().value, 220_000);
    assert!(world.get_chunk(Position::new(1, 0, 0)).unwrap().get_mesh().is_some());
    // A fresh chunk out of the sphere's way is resident and has no mesh.
    assert!(world.get_chunk(Position::new(-1, 1, -1)).unwrap().get_mesh().is_none());
}

#[test]
fn filling_raises_the_air_above_the_hit() {
    let mut world = World::new(1, 4);
    let mut chunk = ground(Position::new(0, 0, 0));
    for x in 0..17 {
        for z in 0..17 {
            for y in 5..17 {
                chunk.set_voxel(Position::new(x, y, z), Voxel { value: -50_000, id: 0 });
            }
        }
    }
    world.insert_chunks(vec![chunk]);
    let from = Vec3::new(8_500_000, 10_500_000, 8_500_000);
    let down = Vec3::new(0, -1_000_000, 0);
    let missing = match world.fill(from, down, 60_000, Vec::new()) {
        EditOutcome::Missing(list) => list,
        other => panic!("expected the missing chunks, got {:?}", other),
    };
    assert_eq!(missing.len(), 26);
    assert_eq!(world.get_voxel(Position::new(8, 5, 8)).unwrap().value, -50_000);
    let fresh: Vec<Chunk> = missing.iter().map(|p| hollow(*p)).collect();
    // The chunk below shares the samples at its top with the sphere.
    let outcome = world.fill(from, down, 60_000, fresh);
    assert_eq!(
        outcome,
        EditOutcome::Done(vec![Position::new(0, 0, 0), Position::new(0, -1, 0)])
    );
    // One above the hit: 60_000 * 5 / 6 more, and the material of the hit.
    assert_eq!(
        world.get_voxel(Position::new(8, 5, 8)),
        Some(Voxel { value: 0, id: 2 })
    );
    assert_eq!(
        world.get_voxel(Position::new(8, 7, 8)),
        Some(Voxel { value: -20_000, id: 2 })
    );
    // Solid samples are left alone.
    assert_eq!(world.get_voxel(Position::new(8, 4, 8)).unwrap().value, 250_000);
    assert_eq!(
        world.fill(from, Vec3::new(0, 1_000_000, 0), 60_000, Vec::new()),
        EditOutcome::NoHit
    );
}

#[test]
fn an_edit_that_touches_nothing_builds_no_mesh() {
    let mut world = World::new(1, 4);
    let all: Vec<Chunk> = around(Position::new(0, 0, 0)).iter().map(|p| hollow(*p)).collect();
    world.insert_chunks(all);
    let outcome = world.edit_with(Position::new(8, 8, 8), Vec::new(), None, 500_000);
    assert_eq!(outcome, EditOutcome::Done(Vec::new()));
    assert!(world.get_chunk(Position::new(0, 0, 0)).unwrap().get_mesh().is_none());
    let outcome = world.edit_with(
        Position::new(8, 8, 8),
        Vec::new(),
        Some(Voxel { value: 0, id: 3 }),
        500_000,
    );
    assert_eq!(outcome, EditOutcome::Done(vec![Position::new(0, 0, 0)]));
    assert!(world.get_chunk(Position::new(0, 0, 0)).unwrap().get_mesh().is_some());
    assert!(world.get_chunk(Position::new(1, 0, 0)).unwrap().get_mesh().is_none());
}

#[test]
fn an_edit_at_the_edge_of_the_world_leaves_out_what_lies_beyond() {
    let mut world = World::new(1, 4);
    let edge = Position::new(576_460_752_302, 0, 0);
    let hit = Position::new(edge.x * 16 + 8, 8, 8);
    let missing = world.missing_chunks(hit);
    assert_eq!(missing.len(), 18);
    assert!(missing.iter().all(|p| p.x <= edge.x));
    let fresh: Vec<Chunk> = missing.iter().map(|p| Chunk::new(*p)).collect();
    let outcome = world.edit_with(hit, fresh, None, 60_000);
    assert_eq!(outcome, EditOutcome::Done(vec![edge]));
    assert_eq!(world.chunk_count(), 18);
    assert_eq!(world.get_voxel(hit).unwrap().value, -60_000);
}

#[test]
fn keys_choose_the_edit() {
    let from = Vec3::new(8_500_000, 10_500_000, 8_500_000);
    let down = Vec3::new(0, -1_000_000, 0);
    let mut input = GameInput::new();

    let mut world = World::new(1, 4);
    generate(&mut world, &[Position::new(0, 0, 0)]);
    let others: Vec<Chunk> = world
        .missing_chunks(Position::new(8, 4, 8))
        .iter()
        .map(|p| hollow(*p))
        .collect();
    world.insert_chunks(others);
    assert_eq!(
        world.process_input(&input, from, down, 16, Vec::new()),
        EditOutcome::NotAsked
    );
    assert_eq!(world.get_voxel(Position::new(8, 4, 8)).unwrap().value, 250_000);

    input.press_key(InputKey::Fill);
    assert_eq!(
        world.process_input(&input, from, down, 16, Vec::new()),
        EditOutcome::Done(vec![Position::new(0, 0, 0), Position::new(0, -1, 0)])
    );
    assert_eq!(world.get_voxel(Position::new(8, 4, 8)).unwrap().value, 250_000);
    // One above the hit: from the floor, 800 * 5 / 6 up.
    assert_eq!(world.get_voxel(Position::new(8, 5, 8)).unwrap().value, -100_000 + 666);

    // Mining goes first where both keys are held.
    input.press_key(InputKey::Mine);
    assert_eq!(
        world.process_input(&input, from, down, 16, Vec::new()),
        EditOutcome::Done(vec![Position::new(0, 0, 0)])
    );
    assert_eq!(world.get_voxel(Position::new(8, 4, 8)).unwrap().value, 250_000 - 800);
    assert_eq!(world.get_voxel(Position::new(8, 5, 8)).unwrap().value, -100_000 + 666);
    // Looking at nothing.
    assert_eq!(
        world.process_input(&input, from, Vec3::new(0, 1_000_000, 0), 16, Vec::new()),
        EditOutcome::NoHit
    );
}

#[test]
fn edit_amount_is_a_twentieth_of_the_frame() {
    assert_eq!(edit_amount(0), 0);
    assert_eq!(edit_amount(16), 800);
    assert_eq!(edit_amount(1000), 50_000);
    assert_eq!(edit_amount(85_899_345), 4_294_967_250);
    assert_eq!(edit_amount(85_899_346), u32::MAX);
    assert_eq!(edit_amount(u128::MAX), u32::MAX);
}

#[test]
fn chunk_map_keeps_the_order_of_positions() {
    let mut map = ChunkMap::new();
    assert_eq!(map.len(), 0);
    assert!(map.get(Position::new(0, 0, 0)).is_none());
    assert!(map.remove(Position::new(0, 0, 0)).is_none());
    for p in [
        Position::new(1, 0, 0),
        Position::new(-1, 5, 5),
        Position::new(0, 0, 1),
        Position::new(0, 0, -1),
        Position::new(0, -1, 9),
    ] {
        assert!(map.insert(Chunk::new(p)).is_none());
    }
    assert_eq!(map.len(), 5);
    let order: Vec<Position> = (0..5).map(|i| map.get_at(i).get_position()).collect();
    assert_eq!(
        order,
        vec![
            Position::new(-1, 5, 5),
            Position::new(0, -1, 9),
            Position::new(0, 0, -1),
            Position::new(0, 0, 1),
            Position::new(1, 0, 0),
        ]
    );
    assert_eq!(map.search(Position::new(0, 0, -1)), (2, true));
    assert_eq!(map.search(Position::new(0, 0, 0)), (3, false));
    assert_eq!(map.search(Position::new(-5, 0, 0)), (0, false));
    assert_eq!(map.search(Position::new(5, 0, 0)), (5, false));
    assert!(map.contains(Position::new(1, 0, 0)));
    assert!(!map.contains(Position::new(1, 0, 1)));
    // Inserting at a held position replaces, and hands the old chunk back.
    let mut marked = Chunk::new(Position::new(0, 0, 1));
    marked.set_voxel(Position::new(0, 0, 0), Voxel { value: 9, id: 9 });
    let old = map.insert(marked).expect("nothing replaced");
    assert_eq!(old.get_voxel(Position::new(0, 0, 0)), Some(Voxel { value: 0, id: 0 }));
    assert_eq!(map.len(), 5);
    assert_eq!(
        map.get(Position::new(0, 0, 1)).unwrap().get_voxel(Position::new(0, 0, 0)),
        Some(Voxel { value: 9, id: 9 })
    );
    let gone = map.remove(Position::new(0, 0, 1)).expect("nothing removed");
    assert_eq!(gone.get_position(), Position::new(0, 0, 1));
    assert_eq!(map.len(), 4);
    assert!(!map.contains(Position::new(0, 0, 1)));
    assert_eq!(map.get_at(3).get_position(), Position::new(1, 0, 0));
}

#[test]
fn keys_change_state_once_per_report() {
    let mut input = GameInput::new();
    assert_eq!(input.get_input_state(InputKey::Mine), InputState::Released);
    assert!(!input.is_pressed(InputKey::Mine));
    assert!(input.press_key(InputKey::Mine));
    assert_eq!(input.get_input_state(InputKey::Mine), InputState::JustPressed);
    assert!(input.is_pressed(InputKey::Mine));
    assert!(input.is_just_pressed(InputKey::Mine));
    // A repeated report settles the key; a further one changes nothing.
    assert!(input.press_key(InputKey::Mine));
    assert_eq!(input.get_input_state(InputKey::Mine), InputState::Pressed);
    assert!(!input.press_key(InputKey::Mine));
    assert!(!input.is_just_pressed(InputKey::Mine));
    assert!(input.release_key(InputKey::Mine));
    assert_eq!(input.get_input_state(InputKey::Mine), InputState::JustReleased);
    assert!(!input.is_pressed(InputKey::Mine));
    assert!(input.release_key(InputKey::Mine));
    assert_eq!(input.get_input_state(InputKey::Mine), InputState::Released);
    assert!(!input.release_key(InputKey::Mine));
    // Other keys are untouched.
    assert_eq!(input.get_input_state(InputKey::Fill), InputState::Released);
    assert_eq!(input.get_input_state(InputKey::MoveFront), InputState::Released);
    assert_eq!(input.get_input_state(InputKey::ChunkGeneration), InputState::Released);
}

#[test]
fn keys_settle_at_the_end_of_a_frame() {
    let mut input = GameInput::new();
    input.handle_key_action(InputKey::MoveUp, true);
    input.handle_key_action(InputKey::Fill, true);
    input.handle_key_action(InputKey::Fill, false);
    input.handle_key_action(InputKey::ChunkGeneration, true);
    input.handle_key_action(InputKey::ChunkGeneration, true);
    assert_eq!(input.get_input_state(InputKey::MoveUp), InputState::JustPressed);
    assert_eq!(input.get_input_state(InputKey::Fill), InputState::JustReleased);
    assert_eq!(input.get_input_state(InputKey::ChunkGeneration), InputState::Pressed);
    input.post_update();
    assert_eq!(input.get_input_state(InputKey::MoveUp), InputState::Pressed);
    assert_eq!(input.get_input_state(InputKey::Fill), InputState::Released);
    assert_eq!(input.get_input_state(InputKey::ChunkGeneration), InputState::Pressed);
    assert_eq!(input.get_input_state(InputKey::MoveDown), InputState::Released);
    assert!(input.is_window_in_focus());
    input.set_focus(false);
    assert!(!input.is_window_in_focus());
    assert_eq!(InputKey::MoveFront.index(), 0);
    assert_eq!(InputKey::ChunkGeneration.index(), 10);
}

#[test]
fn frame_time_is_the_time_since_the_last_frame() {
    let mut time = GameTime::new(1_000);
    assert_eq!(time.get_delta_time(), 16);
    assert_eq!(time.get_last_time(), 1_000);
    time.pre_update(1_040);
    assert_eq!(time.get_delta_time(), 40);
    time.pre_update(1_040);
    assert_eq!(time.get_delta_time(), 0);
    time.pre_update(2_500);
    assert_eq!(time.get_delta_time(), 1_460);
    assert_eq!(time.get_time_from_start(2_500), 1_500);
    assert_eq!(time.get_last_time(), 2_500);
}
