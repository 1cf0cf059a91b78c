use voxel_terrain::chunk::Chunk;
use voxel_terrain::generator::{Generator, NoiseSample, MATERIAL_GRASS, MATERIAL_ROCK};
use voxel_terrain::position::Position;
use voxel_terrain::voxel::Voxel;

fn noise(warp: i32, fine: i32, detail: i32, mask: i32, jitter: i32) -> NoiseSample {
    NoiseSample { warp, fine, detail, mask, jitter }
}

#[test]
fn density_is_detail_less_level() {
    let field = Generator::new();
    // Level: (0 + 10.0 + 0.001 - 0.6) * 0.1 / 100 = 0.009401.
    // Detail: (0.5 - 0.5 * 0.6) * 10 * 0.1 = 0.2.
    assert_eq!(
        field.generate_voxel(Position::new(0, 0, 0), noise(0, 0, 0, 0, 0)),
        Voxel { value: 200_000 - 9_401, id: MATERIAL_GRASS }
    );
    // A hundred steps up the level is 0.1 more.
    assert_eq!(
        field.generate_voxel(Position::new(7, 100, -3), noise(0, 0, 0, 0, 0)),
        Voxel { value: 200_000 - 109_401, id: MATERIAL_GRASS }
    );
    // Far up the field is empty, far down solid.
    assert!(field.generate_voxel(Position::new(0, 1000, 0), noise(0, 0, 0, 0, 0)).value < 0);
    assert!(field.generate_voxel(Position::new(0, -1000, 0), noise(0, 0, 0, 0, 0)).value > 0);
}

#[test]
fn noise_moves_the_density() {
    let field = Generator::new();
    let at = Position::new(0, 0, 0);
    // Detail noise of one: (1.0 - 0.3) * 1.0 = 0.7.
    assert_eq!(
        field.generate_voxel(at, noise(0, 0, 1_000_000, 0, 0)).value,
        700_000 - 9_401
    );
    // Mask of one takes the whole threshold: (0.5 - 0.6) * 1.0 = -0.1.
    assert_eq!(
        field.generate_voxel(at, noise(0, 0, 0, 1_000_000, 0)).value,
        -100_000 - 9_401
    );
    // Warp of minus one takes ten steps off the level.
    assert_eq!(
        field.generate_voxel(at, noise(-1_000_000, 0, 0, 0, 0)).value,
        200_000 + 599
    );
    // Fine noise counts for a thousandth.
    assert_eq!(
        field.generate_voxel(at, noise(0, 1_000_000, 0, 0, 0)).value,
        200_000 - 9_402
    );
}

#[test]
fn material_follows_the_level_and_the_jitter() {
    let field = Generator::new();
    // Near the surface the level is small: grass.
    assert_eq!(
        field.generate_voxel(Position::new(0, 0, 0), noise(0, 0, 0, 0, 0)).id,
        MATERIAL_GRASS
    );
    // Deep down the level term is far below: rock.
    assert_eq!(
        field.generate_voxel(Position::new(0, -100, 0), noise(0, 0, 0, 0, 0)).id,
        MATERIAL_ROCK
    );
    // At y = -12 the level is -0.002599; a twentieth of the jitter decides.
    let at = Position::new(0, -12, 0);
    assert_eq!(field.generate_voxel(at, noise(0, 0, 0, 0, 0)).id, MATERIAL_GRASS);
    assert_eq!(field.generate_voxel(at, noise(0, 0, 0, 0, 8_019)).id, MATERIAL_GRASS);
    assert_eq!(field.generate_voxel(at, noise(0, 0, 0, 0, 8_020)).id, MATERIAL_ROCK);
    assert_eq!(field.generate_voxel(at, noise(0, 0, 0, 0, -1_000_000)).id, MATERIAL_GRASS);
}

#[test]
fn sample_is_reproducible() {
    let field = Generator::new();
    let again = Generator::new();
    for y in [-50i64, -1, 0, 3, 77] {
        let n = noise(123_456, -654_321, 333_333, -999_999, 50_000);
        let first = field.generate_voxel(Position::new(5, y, -9), n);
        for _ in 0..3 {
            assert_eq!(field.generate_voxel(Position::new(5, y, -9), n), first);
            assert_eq!(again.generate_voxel(Position::new(5, y, -9), n), first);
        }
    }
    assert_eq!(field, again);
}

#[test]
fn extreme_inputs_are_cut_off() {
    let field = Generator::new();
    let n = noise(i32::MAX, i32::MAX, i32::MIN, i32::MAX, i32::MIN);
    assert_eq!(
        field.generate_voxel(Position::new(0, i64::MAX, 0), n).value,
        i32::MIN
    );
    assert_eq!(
        field.generate_voxel(Position::new(0, i64::MIN, 0), n).value,
        i32::MAX
    );
    let wild = Generator::with_parameters(i32::MIN, i32::MAX);
    let v = wild.generate_voxel(Position::new(i64::MIN, i64::MIN, i64::MAX), n);
    assert_eq!(v, wild.generate_voxel(Position::new(i64::MIN, i64::MIN, i64::MAX), n));
}

#[test]
fn other_parameters() {
    let field = Generator::with_parameters(500_000, 200_000);
    // Level: (0 + 10.0 + 0.001 - 0.2) * 0.5 / 100 = 0.049005.
    // Detail: (0.5 - 0.5 * 0.2) * 10 * 0.5 = 2.0.
    assert_eq!(
        field.generate_voxel(Position::new(0, 0, 0), noise(0, 0, 0, 0, 0)),
        Voxel { value: 2_000_000 - 49_005, id: MATERIAL_GRASS }
    );
}

#[test]
fn chunk_is_filled_from_the_field() {
    let field = Generator::new();
    let mut samples = Vec::new();
    for index in 0..4913usize {
        samples.push(noise((index % 7) as i32 * 10_000, 0, (index % 5) as i32 * 100_000, 0, 0));
    }
    let pos = Position::new(1, -1, 2);
    let mut chunk = Chunk::new(pos);
    assert!(chunk.generate_voxels(&field, &samples));
    assert!(chunk.get_mesh().is_none());
    for index in [0usize, 1, 17, 289, 1234, 4912] {
        let local = Chunk::index_to_pos(index);
        let world = pos.mul_scalar(16) + local;
        assert_eq!(
            chunk.get_voxel(local),
            Some(field.generate_voxel(world, samples[index]))
        );
    }
    // With the mesh.
    let mut meshed = Chunk::new(pos);
    assert!(meshed.generate(&field, &samples));
    assert!(meshed.get_mesh().is_some());
    assert_eq!(meshed.get_voxel(Position::new(3, 4, 5)), chunk.get_voxel(Position::new(3, 4, 5)));
}

#[test]
fn noise_of_the_wrong_length_changes_nothing() {
    let field = Generator::new();
    let mut chunk = Chunk::new(Position::new(0, 0, 0));
    chunk.set_voxel(Position::new(1, 1, 1), Voxel { value: 5, id: 6 });
    let short = vec![noise(0, 0, 0, 0, 0); 4912];
    assert!(!chunk.generate_voxels(&field, &short));
    assert!(!chunk.generate(&field, &Vec::new()));
    assert_eq!(chunk.get_voxel(Position::new(1, 1, 1)), Some(Voxel { value: 5, id: 6 }));
    assert_eq!(chunk.get_voxel(Position::new(0, 0, 0)), Some(Voxel { value: 0, id: 0 }));
    assert!(chunk.get_mesh().is_none());
}
