use voxel_terrain::chunk::Chunk;
use voxel_terrain::edit::{strength_at, DENSITY_CEILING, DENSITY_FLOOR};
use voxel_terrain::fixed::{isqrt, mul_ratio, ONE};
use voxel_terrain::position::Position;
use voxel_terrain::voxel::Voxel;

const RADIUS: u32 = 6_000_000;

fn chunk_of_density(pos: Position, value: i32) -> Chunk {
    let mut chunk = Chunk::new(pos);
    for x in 0..17 {
        for y in 0..17 {
            for z in 0..17 {
                chunk.set_voxel(Position::new(x, y, z), Voxel { value, id: 3 });
            }
        }
    }
    chunk
}

fn squared_distance(a: Position, b: Position) -> i64 {
    (a.x - b.x).pow(2) + (a.y - b.y).pow(2) + (a.z - b.z).pow(2)
}

fn in_sphere_count(chunk: Position, center: Position, radius_steps: i64) -> usize {
    let mut n = 0;
    for x in 0..17 {
        for y in 0..17 {
            for z in 0..17 {
                let p = Position::new(chunk.x * 16 + x, chunk.y * 16 + y, chunk.z * 16 + z);
                if squared_distance(p, center) < radius_steps * radius_steps {
                    n += 1;
                }
            }
        }
    }
    n
}

#[test]
fn fixed_point_one_is_a_million() {
    assert_eq!(ONE, 1_000_000);
    assert_eq!(DENSITY_FLOOR, -100_000);
    assert_eq!(DENSITY_CEILING, 1_000_000);
}

#[test]
fn isqrt_rounds_down() {
    assert_eq!(isqrt(0), 0);
    assert_eq!(isqrt(1), 1);
    assert_eq!(isqrt(3), 1);
    assert_eq!(isqrt(4), 2);
    assert_eq!(isqrt(99), 9);
    assert_eq!(isqrt(100), 10);
    assert_eq!(isqrt(2_000_000_000_000), 1_414_213);
    assert_eq!(isqrt(134_000_000), 11_575);
    assert_eq!(isqrt(u128::MAX), u64::MAX);
    assert_eq!(isqrt((u64::MAX as u128) * (u64::MAX as u128) - 1), u64::MAX - 1);
}

#[test]
fn mul_ratio_rounds_down() {
    assert_eq!(mul_ratio(60_000, 6_000_000, 6_000_000), 60_000);
    assert_eq!(mul_ratio(60_000, 4_585_787, 6_000_000), 45_857);
    assert_eq!(mul_ratio(60_000, 0, 6_000_000), 0);
    assert_eq!(mul_ratio(u32::MAX, u64::MAX, u64::MAX), u32::MAX);
    assert_eq!(mul_ratio(7, 1, 2), 3);
}

#[test]
fn strength_falls_off_with_distance() {
    let chunk = Position::new(0, 0, 0);
    let center = Position::new(8, 8, 8);
    let index = |x: i64, y: i64, z: i64| (x + y * 17 + z * 289) as usize;
    assert_eq!(strength_at(chunk, index(8, 8, 8), center, RADIUS, 60_000), Some(60_000));
    assert_eq!(strength_at(chunk, index(11, 8, 8), center, RADIUS, 60_000), Some(30_000));
    assert_eq!(strength_at(chunk, index(9, 9, 8), center, RADIUS, 60_000), Some(45_857));
    // At the radius and beyond there is none.
    assert_eq!(strength_at(chunk, index(14, 8, 8), center, RADIUS, 60_000), None);
    assert_eq!(strength_at(chunk, index(16, 16, 16), center, RADIUS, 60_000), None);
    // Just inside: sqrt(35) is below 6.
    assert_eq!(strength_at(chunk, index(13, 11, 9), center, RADIUS, 60_000), Some(839));
    // A radius of nothing reaches nothing, not even the centre.
    assert_eq!(strength_at(chunk, index(8, 8, 8), center, 0, 60_000), None);
    // A far centre is out of reach without overflow.
    assert_eq!(
        strength_at(chunk, 0, Position::new(i64::MIN, i64::MAX, i64::MIN), u32::MAX, u32::MAX),
        None
    );
    // The chunk's position counts.
    assert_eq!(
        strength_at(Position::new(1, 0, 0), index(0, 8, 8), Position::new(19, 8, 8), RADIUS, 60_000),
        Some(30_000)
    );
}

#[test]
fn dig_lowers_solid_samples_in_the_sphere() {
    let mut chunk = Chunk::new(Position::new(0, 0, 0));
    let center = Position::new(8, 8, 8);
    let count = chunk.dig(center, RADIUS, 60_000);
    assert_eq!(count, in_sphere_count(Position::new(0, 0, 0), center, 6));
    assert_eq!(chunk.get_voxel(Position::new(8, 8, 8)).unwrap().value, -60_000);
    assert_eq!(chunk.get_voxel(Position::new(11, 8, 8)).unwrap().value, -30_000);
    assert_eq!(chunk.get_voxel(Position::new(9, 9, 8)).unwrap().value, -45_857);
    assert_eq!(chunk.get_voxel(Position::new(13, 11, 9)).unwrap().value, -839);
    assert_eq!(chunk.get_voxel(Position::new(14, 8, 8)).unwrap().value, 0);
    assert_eq!(chunk.get_voxel(Position::new(0, 0, 0)).unwrap().value, 0);
    // The material stays.
    assert_eq!(chunk.get_voxel(Position::new(8, 8, 8)).unwrap().id, 0);
    assert!(chunk.get_mesh().is_none());
}

#[test]
fn dig_stops_at_the_floor() {
    let mut chunk = Chunk::new(Position::new(0, 0, 0));
    let center = Position::new(8, 8, 8);
    chunk.dig(center, RADIUS, 900_000);
    assert_eq!(chunk.get_voxel(Position::new(8, 8, 8)).unwrap().value, -100_000);
    assert_eq!(chunk.get_voxel(Position::new(11, 8, 8)).unwrap().value, -100_000);
    // 900_000 * (6 - sqrt(35)) / 6 is below the floor's depth.
    assert_eq!(chunk.get_voxel(Position::new(13, 11, 9)).unwrap().value, -12_588);
}

#[test]
fn dig_at_the_floor_touches_nothing() {
    let center = Position::new(8, 8, 8);
    for value in [-100_000, -100_001, -1_000_000, i32::MIN] {
        let mut chunk = chunk_of_density(Position::new(0, 0, 0), value);
        assert_eq!(chunk.dig(center, RADIUS, 500_000), 0);
        assert_eq!(chunk.get_voxel(center).unwrap(), Voxel { value, id: 3 });
    }
    // Digging twice: once the sphere is below zero a second dig is idle.
    let mut chunk = Chunk::new(Position::new(0, 0, 0));
    assert!(chunk.dig(center, RADIUS, 2_000_000) > 0);
    let after_first = chunk.get_voxel(Position::new(9, 9, 8));
    assert_eq!(chunk.dig(center, RADIUS, 2_000_000), 0);
    assert_eq!(chunk.get_voxel(Position::new(9, 9, 8)), after_first);
}

#[test]
fn fill_raises_empty_samples_and_paints_them() {
    let mut chunk = chunk_of_density(Position::new(0, 0, 0), -1_000_000);
    let center = Position::new(8, 8, 8);
    let paint = Voxel { value: 123, id: 9 };
    let count = chunk.fill(center, RADIUS, paint, 200_000);
    assert_eq!(count, in_sphere_count(Position::new(0, 0, 0), center, 6));
    // From the floor, not from the density it had.
    assert_eq!(
        chunk.get_voxel(Position::new(8, 8, 8)).unwrap(),
        Voxel { value: 100_000, id: 9 }
    );
    assert_eq!(
        chunk.get_voxel(Position::new(9, 9, 8)).unwrap(),
        Voxel { value: 52_859, id: 9 }
    );
    assert_eq!(
        chunk.get_voxel(Position::new(11, 8, 8)).unwrap(),
        Voxel { value: 0, id: 9 }
    );
    assert_eq!(
        chunk.get_voxel(Position::new(14, 8, 8)).unwrap(),
        Voxel { value: -1_000_000, id: 3 }
    );
}

#[test]
fn fill_stops_at_the_ceiling_and_leaves_solid_samples() {
    let mut chunk = chunk_of_density(Position::new(0, 0, 0), -1);
    let center = Position::new(8, 8, 8);
    chunk.set_voxel(Position::new(8, 9, 8), Voxel { value: 0, id: 3 });
    chunk.set_voxel(Position::new(8, 7, 8), Voxel { value: 40, id: 3 });
    let paint = Voxel { value: 0, id: 9 };
    let count = chunk.fill(center, RADIUS, paint, 3_000_000);
    assert_eq!(count, in_sphere_count(Position::new(0, 0, 0), center, 6) - 2);
    assert_eq!(
        chunk.get_voxel(center).unwrap(),
        Voxel { value: 1_000_000, id: 9 }
    );
    assert_eq!(chunk.get_voxel(Position::new(8, 9, 8)).unwrap(), Voxel { value: 0, id: 3 });
    assert_eq!(chunk.get_voxel(Position::new(8, 7, 8)).unwrap(), Voxel { value: 40, id: 3 });
}

#[test]
fn fill_then_dig_restores_the_density() {
    let center = Position::new(8, 8, 8);
    for (place, start) in [
        (Position::new(8, 8, 8), -50_000),
        (Position::new(9, 9, 8), -100_000),
        (Position::new(11, 8, 8), -1),
    ] {
        let mut chunk = chunk_of_density(Position::new(0, 0, 0), -1_000_000);
        chunk.set_voxel(place, Voxel { value: start, id: 3 });
        chunk.fill(center, RADIUS, Voxel { value: 0, id: 9 }, 200_000);
        let raised = chunk.get_voxel(place).unwrap().value;
        assert!(0 <= raised && raised < 1_000_000);
        chunk.dig(center, RADIUS, 200_000);
        assert_eq!(chunk.get_voxel(place).unwrap().value, start);
    }
}

#[test]
fn fill_that_leaves_a_sample_empty_is_not_undone_by_a_dig() {
    let center = Position::new(8, 8, 8);
    let mut chunk = chunk_of_density(Position::new(0, 0, 0), -1_000_000);
    chunk.set_voxel(center, Voxel { value: -50_000, id: 3 });
    chunk.fill(center, RADIUS, Voxel { value: 0, id: 9 }, 10_000);
    assert_eq!(chunk.get_voxel(center).unwrap().value, -40_000);
    assert_eq!(chunk.dig(center, RADIUS, 10_000), 0);
    assert_eq!(chunk.get_voxel(center).unwrap().value, -40_000);
}

#[test]
fn edit_in_a_chunk_away_from_the_origin() {
    let pos = Position::new(-2, 1, 3);
    let mut chunk = Chunk::new(pos);
    let center = Position::new(-32, 16, 48);
    let count = chunk.dig(center, RADIUS, 60_000);
    assert_eq!(count, in_sphere_count(pos, center, 6));
    assert!(count > 0);
    assert_eq!(chunk.get_voxel(Position::new(0, 0, 0)).unwrap().value, -60_000);
    assert_eq!(chunk.get_voxel(Position::new(3, 0, 0)).unwrap().value, -30_000);
    // A sphere that misses the chunk.
    let mut far = Chunk::new(pos);
    assert_eq!(far.dig(Position::new(100, 100, 100), RADIUS, 60_000), 0);
    assert_eq!(far.fill(Position::new(-32, 16, 48), RADIUS, Voxel { value: 0, id: 1 }, 60_000), 0);
}
