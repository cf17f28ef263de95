use terrain_flow::analysis::{analyze_terrain, find_extreme_elevations, get_wave_directions, is_clear, nearest_minimum};
use terrain_flow::grid::{elevation_grid, elevation_key, write_directions, Point, NAN_KEY};

fn texels(elevations: &[f32]) -> Vec<u32> {
    let mut words = Vec::new();
    for e in elevations {
        words.push(e.to_bits());
        words.push(0);
        words.push(0);
        words.push(7);
    }
    words
}

fn pt(elevation: i64, x: u32, y: u32) -> Point {
    Point { elevation, x, y }
}

fn normalize(d: (i64, i64)) -> (f32, f32) {
    let (x, y) = (d.0 as f32, d.1 as f32);
    let len = (x * x + y * y).sqrt();
    if len == 0.0 {
        (0.0, 0.0)
    } else {
        (x / len, y / len)
    }
}

fn four_by_four_with_minimum_at_1_2() -> Vec<u32> {
    let mut e = Vec::new();
    for i in 0..16 {
        e.push(10.0 + i as f32);
    }
    e[2 * 4 + 1] = -3.5;
    texels(&e)
}

#[test]
fn manhattan_distance_example() {
    assert_eq!(pt(0, 0, 0).manhattan_distance(&pt(0, 3, 2)), 5);
    assert_eq!(pt(0, 3, 2).manhattan_distance(&pt(0, 0, 0)), 5);
}

#[test]
fn manhattan_distance_does_not_overflow() {
    let a = pt(0, 0, 0);
    let b = pt(0, u32::MAX, u32::MAX);
    assert_eq!(a.manhattan_distance(&b), 2 * u32::MAX as u64);
}

#[test]
fn single_minimum_grid_example() {
    let words = four_by_four_with_minimum_at_1_2();
    let grid = elevation_grid(&words, 4);
    assert_eq!(grid.len(), 16);
    let minima = find_extreme_elevations(&grid, 1, 0);
    assert_eq!(minima.len(), 1);
    assert_eq!((minima[0].x, minima[0].y), (1, 2));
    let dirs = get_wave_directions(&grid, &minima);
    assert_eq!(dirs[3], (2, -2));
    let (dx, dy) = normalize(dirs[3]);
    assert!((dx - 0.70710677).abs() < 1e-5);
    assert!((dy + 0.70710677).abs() < 1e-5);
    assert_eq!(dirs[2 * 4 + 1], (0, 0));
}

#[test]
fn grid_coordinates_are_row_major() {
    let words = texels(&[1.0, 2.0, 3.0, 4.0, 5.0, 6.0]);
    let grid = elevation_grid(&words, 3);
    assert_eq!(grid.len(), 6);
    assert_eq!((grid[4].x, grid[4].y), (1, 1));
    assert_eq!((grid[2].x, grid[2].y), (2, 0));
    assert_eq!(grid[5].elevation, elevation_key(6.0f32.to_bits()));
}

#[test]
fn grid_ignores_partial_texel() {
    let mut words = texels(&[1.0, 2.0]);
    words.push(0);
    words.push(0);
    assert_eq!(elevation_grid(&words, 2).len(), 2);
}

#[test]
fn elevation_keys_follow_value_order() {
    let values = [f32::NEG_INFINITY, -1000.5, -1.0, -0.5, 0.0, 1e-30, 0.5, 1.0, 1e30, f32::MAX];
    for w in values.windows(2) {
        assert!(elevation_key(w[0].to_bits()) < elevation_key(w[1].to_bits()), "{} {}", w[0], w[1]);
    }
    assert_eq!(elevation_key((-0.0f32).to_bits()), elevation_key(0.0f32.to_bits()));
    assert_eq!(elevation_key(f32::NAN.to_bits()), NAN_KEY);
    assert_eq!(elevation_key((-f32::NAN).to_bits()), NAN_KEY);
    assert!(elevation_key(f32::MAX.to_bits()) < elevation_key(f32::INFINITY.to_bits()));
    assert!(elevation_key(f32::INFINITY.to_bits()) < NAN_KEY);
}

#[test]
fn nan_samples_are_never_chosen() {
    let words = texels(&[f32::NAN, f32::INFINITY, f32::MAX, -f32::NAN]);
    let grid = elevation_grid(&words, 2);
    let minima = find_extreme_elevations(&grid, 3, 0);
    assert_eq!(minima.len(), 2);
    assert_eq!((minima[0].x, minima[0].y), (0, 1));
    assert_eq!((minima[1].x, minima[1].y), (1, 0));
    let words = texels(&[f32::NAN, 5.0, f32::NEG_INFINITY, -f32::NAN]);
    let grid = elevation_grid(&words, 2);
    let minima = find_extreme_elevations(&grid, 4, 0);
    assert_eq!(minima.len(), 2);
    assert_eq!((minima[0].x, minima[0].y), (0, 1));
    assert_eq!((minima[1].x, minima[1].y), (1, 0));
}

#[test]
fn infinite_sample_is_chosen_when_alone() {
    let grid = elevation_grid(&texels(&[f32::INFINITY]), 1);
    let minima = find_extreme_elevations(&grid, 1, 0);
    assert_eq!(minima.len(), 1);
    assert_eq!((minima[0].x, minima[0].y), (0, 0));
    let grid = elevation_grid(&texels(&[f32::MAX]), 1);
    assert_eq!(find_extreme_elevations(&grid, 1, 0).len(), 1);
}

#[test]
fn minima_respect_exclusion_radius() {
    // 8x8 grid whose elevation falls towards the corner (0,0).
    let mut e = Vec::new();
    for y in 0..8 {
        for x in 0..8 {
            e.push((x + y) as f32);
        }
    }
    let grid = elevation_grid(&texels(&e), 8);
    let r = 3;
    let minima = find_extreme_elevations(&grid, 16, r);
    assert!(!minima.is_empty());
    assert_eq!((minima[0].x, minima[0].y), (0, 0));
    for i in 0..minima.len() {
        for j in (i + 1)..minima.len() {
            assert!(minima[i].manhattan_distance(&minima[j]) > r);
        }
    }
    // Fewer than asked for: no point is left clear of all chosen ones.
    assert!(minima.len() < 16);
    for p in &grid {
        assert!(!is_clear(p, &minima, r));
    }
}

#[test]
fn minima_second_pick_is_lowest_clear_point() {
    let grid = vec![pt(1, 0, 0), pt(0, 1, 0), pt(5, 2, 0), pt(3, 3, 0), pt(4, 4, 0)];
    let minima = find_extreme_elevations(&grid, 2, 2);
    assert_eq!(minima, vec![pt(0, 1, 0), pt(4, 4, 0)]);
}

#[test]
fn equal_elevations_go_to_first_in_scan_order() {
    let grid = vec![pt(4, 0, 0), pt(2, 1, 0), pt(2, 0, 1), pt(2, 1, 1)];
    let minima = find_extreme_elevations(&grid, 1, 0);
    assert_eq!(minima, vec![pt(2, 1, 0)]);
    let minima = find_extreme_elevations(&grid, 4, 0);
    assert_eq!(minima, vec![pt(2, 1, 0), pt(2, 0, 1), pt(2, 1, 1), pt(4, 0, 0)]);
}

#[test]
fn zero_rounds_choose_nothing() {
    let grid = vec![pt(1, 0, 0)];
    assert!(find_extreme_elevations(&grid, 0, 0).is_empty());
    assert!(find_extreme_elevations(&Vec::new(), 5, 0).is_empty());
}

#[test]
fn analysis_is_deterministic() {
    let words = four_by_four_with_minimum_at_1_2();
    let a = analyze_terrain(&words, 4, 3, 1);
    let b = analyze_terrain(&words, 4, 3, 1);
    assert_eq!(a.minima, b.minima);
    assert_eq!(a.offsets, b.offsets);
}

#[test]
fn nearest_minimum_prefers_first_on_ties() {
    let minima = vec![pt(0, 0, 0), pt(0, 4, 0), pt(0, 2, 2)];
    assert_eq!(nearest_minimum(&pt(0, 2, 0), &minima), 0);
    assert_eq!(nearest_minimum(&pt(0, 4, 1), &minima), 1);
    assert_eq!(nearest_minimum(&pt(0, 2, 3), &minima), 2);
}

#[test]
fn offsets_point_away_from_nearest_minimum() {
    let grid = vec![pt(0, 0, 0), pt(0, 5, 0), pt(0, 1, 3), pt(0, 9, 9)];
    let minima = vec![pt(0, 0, 0), pt(0, 9, 9)];
    let dirs = get_wave_directions(&grid, &minima);
    assert_eq!(dirs, vec![(0, 0), (5, 0), (1, 3), (0, 0)]);
    let (x, y) = normalize(dirs[2]);
    assert!(((x * x + y * y).sqrt() - 1.0).abs() < 1e-5);
    let (x, y) = normalize(dirs[0]);
    assert!(x == 0.0 && y == 0.0);
}

#[test]
fn offsets_are_zero_without_minima() {
    let grid = vec![pt(0, 0, 0), pt(0, 5, 3)];
    assert_eq!(get_wave_directions(&grid, &Vec::new()), vec![(0, 0), (0, 0)]);
}

#[test]
fn directions_fill_second_and_third_channel() {
    let mut words = vec![1, 2, 3, 4, 5, 6, 7, 8];
    write_directions(&mut words, &vec![(20, 30), (60, 70)]);
    assert_eq!(words, vec![1, 20, 30, 4, 5, 60, 70, 8]);
}

#[test]
fn whole_analysis_on_texels() {
    let words = four_by_four_with_minimum_at_1_2();
    let a = analyze_terrain(&words, 4, 1, 0);
    assert_eq!(a.minima.len(), 1);
    assert_eq!((a.minima[0].x, a.minima[0].y), (1, 2));
    assert_eq!(a.offsets.len(), 16);
    assert_eq!(a.offsets[0], (-1, -2));
    assert_eq!(a.offsets[15], (2, 1));
}
