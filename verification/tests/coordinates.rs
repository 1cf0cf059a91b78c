use std::cmp::Ordering;
use std::collections::BTreeSet;
use voxel_terrain::direction::Direction;
use voxel_terrain::position::Position;
use voxel_terrain::ring::PositionAroundIterator;
use voxel_terrain::true_mod::true_mod;

fn drain(mut it: PositionAroundIterator) -> Vec<Position> {
    let mut all = Vec::new();
    while let Some(p) = it.next() {
        all.push(p);
    }
    assert_eq!(it.next(), None);
    assert!(it.is_done());
    all
}

fn chebyshev(a: Position, b: Position) -> i64 {
    (a.x - b.x).abs().max((a.y - b.y).abs()).max((a.z - b.z).abs())
}

#[test]
fn neighbor_and_back_is_the_start() {
    let directions = Direction::all();
    assert_eq!(directions.len(), 6);
    for p in [
        Position::new(0, 0, 0),
        Position::new(-7, 12, 100),
        Position::new(i64::MAX - 1, i64::MIN + 1, 0),
    ] {
        for d in directions {
            assert_eq!(p.get_neighbor(d).get_neighbor(d.opposite()), p);
            assert_ne!(p.get_neighbor(d), p);
        }
    }
}

#[test]
fn opposite_directions() {
    assert_eq!(Direction::East.opposite(), Direction::West);
    assert_eq!(Direction::West.opposite(), Direction::East);
    assert_eq!(Direction::Up.opposite(), Direction::Down);
    assert_eq!(Direction::Down.opposite(), Direction::Up);
    assert_eq!(Direction::North.opposite(), Direction::South);
    assert_eq!(Direction::South.opposite(), Direction::North);
}

#[test]
fn checked_neighbor_stops_at_the_edge_of_the_range() {
    let edge = Position::new(i64::MAX, i64::MIN, 0);
    assert_eq!(edge.checked_neighbor(Direction::East), None);
    assert_eq!(edge.checked_neighbor(Direction::Down), None);
    assert_eq!(
        edge.checked_neighbor(Direction::West),
        Some(Position::new(i64::MAX - 1, i64::MIN, 0))
    );
    assert_eq!(
        edge.checked_neighbor(Direction::North),
        Some(Position::new(i64::MAX, i64::MIN, 1))
    );
}

#[test]
fn positions_add_subtract_and_scale() {
    let a = Position::new(1, -2, 3);
    let b = Position::new(10, 20, -30);
    assert_eq!(a + b, Position::new(11, 18, -27));
    assert_eq!(a - b, Position::new(-9, -22, 33));
    assert_eq!(a.mul_scalar(-4), Position::new(-4, 8, -12));
}

#[test]
fn positions_are_ordered_by_x_then_y_then_z() {
    let a = Position::new(1, 5, 9);
    assert_eq!(a.compare(&Position::new(1, 5, 9)), Ordering::Equal);
    assert_eq!(a.compare(&Position::new(2, 0, 0)), Ordering::Less);
    assert_eq!(a.compare(&Position::new(0, 9, 9)), Ordering::Greater);
    assert_eq!(a.compare(&Position::new(1, 6, 0)), Ordering::Less);
    assert_eq!(a.compare(&Position::new(1, 4, 99)), Ordering::Greater);
    assert_eq!(a.compare(&Position::new(1, 5, 10)), Ordering::Less);
    assert_eq!(a.compare(&Position::new(1, 5, 8)), Ordering::Greater);
    assert!(a < Position::new(1, 5, 10));
    assert!(a > Position::new(1, 5, 8));
    assert!(a <= a);
    assert_eq!(a.partial_cmp(&Position::new(2, 0, 0)), Some(Ordering::Less));
    // The derived total order agrees.
    assert_eq!(a.cmp(&Position::new(1, 6, 0)), Ordering::Less);
    assert_eq!(a.cmp(&Position::new(0, 9, 9)), Ordering::Greater);
}

#[test]
fn chebyshev_distance_is_the_largest_axis_distance() {
    let a = Position::new(1, -2, 3);
    assert_eq!(a.chebyshev_distance(&a), 0);
    assert_eq!(a.chebyshev_distance(&Position::new(4, -2, 3)), 3);
    assert_eq!(a.chebyshev_distance(&Position::new(0, 5, 3)), 7);
    assert_eq!(a.chebyshev_distance(&Position::new(0, -3, -9)), 12);
    assert_eq!(
        Position::new(i64::MIN, 0, 0).chebyshev_distance(&Position::new(i64::MAX, 0, 0)),
        u64::MAX
    );
}

#[test]
fn true_mod_takes_the_sign_of_the_divisor() {
    assert_eq!(true_mod(5, 16), 5);
    assert_eq!(true_mod(16, 16), 0);
    assert_eq!(true_mod(-1, 16), 15);
    assert_eq!(true_mod(-16, 16), 0);
    assert_eq!(true_mod(-17, 16), 15);
    assert_eq!(true_mod(5, -3), -1);
    assert_eq!(true_mod(-5, -3), -2);
    assert_eq!(true_mod(6, -3), 0);
    assert_eq!(true_mod(i64::MIN, -1), 0);
    assert_eq!(true_mod(i64::MIN, i64::MIN), 0);
    assert_eq!(true_mod(i64::MAX, i64::MIN), -1);
    assert_eq!(true_mod(i64::MIN, i64::MAX), i64::MAX - 1);
}

#[test]
fn ring_of_radius_zero_is_the_center() {
    let center = Position::new(4, -5, 6);
    assert_eq!(drain(center.iter_around(0)), vec![center]);
}

#[test]
fn ring_of_radius_one_in_order() {
    let center = Position::new(10, 20, 30);
    let all = drain(PositionAroundIterator::new(center, 1));
    assert_eq!(all.len(), 27);
    assert_eq!(all[0], center);
    // The shell is walked in ascending order of (x, y, z).
    assert_eq!(all[1], Position::new(9, 19, 29));
    assert_eq!(all[2], Position::new(9, 19, 30));
    assert_eq!(all[3], Position::new(9, 19, 31));
    assert_eq!(all[4], Position::new(9, 20, 29));
    assert_eq!(all[9], Position::new(9, 21, 31));
    assert_eq!(all[10], Position::new(10, 19, 29));
    assert_eq!(all[13], Position::new(10, 20, 29));
    assert_eq!(all[14], Position::new(10, 20, 31));
    assert_eq!(all[15], Position::new(10, 21, 29));
    assert_eq!(all[17], Position::new(10, 21, 31));
    assert_eq!(all[18], Position::new(11, 19, 29));
    assert_eq!(all[26], Position::new(11, 21, 31));
    let mut sorted: Vec<Position> = all[1..].to_vec();
    sorted.sort();
    assert_eq!(sorted, all[1..].to_vec());
}

#[test]
fn ring_yields_every_position_of_the_cube_once() {
    for radius in 0..5usize {
        let center = Position::new(-3, 7, 1);
        let all = drain(center.iter_around(radius));
        let side = 2 * radius + 1;
        assert_eq!(all.len(), side * side * side);
        let distinct: BTreeSet<Position> = all.iter().copied().collect();
        assert_eq!(distinct.len(), all.len());
        let r = radius as i64;
        for dx in -r..=r {
            for dy in -r..=r {
                for dz in -r..=r {
                    assert!(distinct.contains(&Position::new(
                        center.x + dx,
                        center.y + dy,
                        center.z + dz
                    )));
                }
            }
        }
        assert_eq!(all.iter().filter(|p| **p == center).count(), 1);
        assert_eq!(all[0], center);
    }
}

#[test]
fn ring_is_nearest_shell_first() {
    let center = Position::new(0, 0, 0);
    let all = drain(center.iter_around(4));
    for pair in all.windows(2) {
        assert!(chebyshev(pair[0], center) <= chebyshev(pair[1], center));
    }
    // Shell s ends after (2s + 1)^3 positions.
    for (k, p) in all.iter().enumerate() {
        let s = chebyshev(*p, center) as usize;
        assert!(k < (2 * s + 1).pow(3));
        if s > 0 {
            assert!(k >= (2 * s - 1).pow(3));
        }
    }
}

#[test]
fn ring_resumes_where_it_stopped() {
    let center = Position::new(1, 1, 1);
    let whole = drain(center.iter_around(2));
    let mut it = center.iter_around(2);
    let mut pieces = Vec::new();
    for _ in 0..40 {
        pieces.push(it.next().unwrap());
    }
    assert!(!it.is_done());
    let copy = it;
    while let Some(p) = it.next() {
        pieces.push(p);
    }
    assert_eq!(pieces, whole);
    assert_eq!(it.get_center(), center);
    assert_eq!(it.get_radius(), 2);
    // A copy keeps its own place.
    assert_eq!(drain(copy), whole[40..].to_vec());
}

#[test]
fn ring_at_the_edge_of_the_coordinate_range() {
    let center = Position::new(i64::MAX - 1, i64::MIN + 1, 0);
    let all = drain(center.iter_around(1));
    assert_eq!(all.len(), 27);
    assert!(all.contains(&Position::new(i64::MAX, i64::MIN, 1)));
}
