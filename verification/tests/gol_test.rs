use gol_rs::cell::CellValue;
use gol_rs::grid::{
    alive_count, calculate_new_alive, cells_to_bytes, get_alive_cells, get_flipped_cells,
    neighbor_count, next_state, world_from_cells,
};
use gol_rs::params::Params;
use gol_rs::worker::{band_start, calculate_new_alive_partitioned, compute_band};

fn params(width: usize, height: usize, threads: usize, turns: usize) -> Params {
    Params { turns, threads, image_width: width, image_height: height }
}

fn world_from_rows(rows: &[&str]) -> Vec<Vec<CellValue>> {
    rows.iter()
        .map(|row| {
            row.chars()
                .map(|c| if c == '#' { CellValue::Alive } else { CellValue::Dead })
                .collect()
        })
        .collect()
}

fn block_3x3() -> Vec<Vec<CellValue>> {
    world_from_rows(&["###", "...", "###"])
}

#[test]
fn neighbor_count_counts_all_toroidal_neighbors() {
    let world = block_3x3();
    let p = params(3, 3, 1, 1);
    // Corner (0, 0): three alive above (wrapped to row 2), two alive in its
    // own row (row 0), none in row 1.
    assert_eq!(neighbor_count(&world, &p, 0, 0), 5);
    assert_eq!(neighbor_count(&world, &p, 2, 0), 5);
    assert_eq!(neighbor_count(&world, &p, 0, 2), 5);
    assert_eq!(neighbor_count(&world, &p, 2, 2), 5);
    // Center (1, 1): six alive neighbors, all of rows 0 and 2.
    assert_eq!(neighbor_count(&world, &p, 1, 1), 6);
}

#[test]
fn block_grid_dies_out_in_one_turn() {
    let world = block_3x3();
    let p = params(3, 3, 1, 1);
    let next = calculate_new_alive(&world, &p);
    for row in &next {
        for cell in row {
            assert_eq!(*cell, CellValue::Dead);
        }
    }
    assert_eq!(alive_count(&next, &p), 0);
}

#[test]
fn rule_applies_to_single_cells() {
    assert_eq!(next_state(CellValue::Alive, 1), CellValue::Dead);
    assert_eq!(next_state(CellValue::Alive, 2), CellValue::Alive);
    assert_eq!(next_state(CellValue::Alive, 3), CellValue::Alive);
    assert_eq!(next_state(CellValue::Alive, 4), CellValue::Dead);
    assert_eq!(next_state(CellValue::Dead, 2), CellValue::Dead);
    assert_eq!(next_state(CellValue::Dead, 3), CellValue::Alive);
    assert_eq!(next_state(CellValue::Dead, 4), CellValue::Dead);
}

#[test]
fn blinker_oscillates() {
    let world = world_from_rows(&[".....", "..#..", "..#..", "..#..", "....."]);
    let p = params(5, 5, 1, 1);
    let next = calculate_new_alive(&world, &p);
    let expected = world_from_rows(&[".....", ".....", ".###.", ".....", "....."]);
    assert_eq!(next, expected);
    let back = calculate_new_alive(&next, &p);
    assert_eq!(back, world);
}

#[test]
fn worker_counts_give_identical_worlds() {
    let initial = world_from_rows(&[
        "........",
        "..###...",
        "..#.....",
        "...#....",
        "........",
        "....##..",
        "....##..",
        "........",
    ]);
    let mut finals: Vec<Vec<Vec<CellValue>>> = Vec::new();
    for threads in [1usize, 2, 4, 8] {
        let p = params(8, 8, threads, 5);
        let mut world = initial.clone();
        for _ in 0..5 {
            world = calculate_new_alive_partitioned(&world, &p);
        }
        finals.push(world);
    }
    for other in &finals[1..] {
        assert_eq!(&finals[0], other);
    }
    // The partitioned turn also matches the whole-world turn.
    let p = params(8, 8, 3, 5);
    assert_eq!(
        calculate_new_alive_partitioned(&initial, &p),
        calculate_new_alive(&initial, &p)
    );
}

#[test]
fn bands_split_rows_with_remainder_first() {
    // 10 rows over 4 workers: bands of 3, 3, 2, 2 rows.
    let starts: Vec<usize> = (0..=4).map(|i| band_start(10, 4, i)).collect();
    assert_eq!(starts, vec![0, 3, 6, 8, 10]);
    // 6 rows over 6 workers: one row each.
    let even: Vec<usize> = (0..=6).map(|i| band_start(6, 6, i)).collect();
    assert_eq!(even, vec![0, 1, 2, 3, 4, 5, 6]);
    // More workers than rows: trailing bands are empty.
    assert_eq!(band_start(2, 4, 4), 2);
}

#[test]
fn compute_band_matches_whole_turn_rows() {
    let world = world_from_rows(&["..#...", "#.#...", ".##...", "......", "...##.", "...##."]);
    let p = params(6, 6, 1, 1);
    let whole = calculate_new_alive(&world, &p);
    let band = compute_band(&world, &p, 2, 5);
    assert_eq!(band.len(), 3);
    assert_eq!(band[0], whole[2]);
    assert_eq!(band[1], whole[3]);
    assert_eq!(band[2], whole[4]);
}

#[test]
fn alive_cells_come_out_row_major() {
    let world = world_from_rows(&[".#.", "#.#", "..."]);
    let p = params(3, 3, 1, 1);
    let alive = get_alive_cells(&world, &p);
    let coords: Vec<(usize, usize)> = alive.iter().map(|c| (c.x, c.y)).collect();
    assert_eq!(coords, vec![(1, 0), (0, 1), (2, 1)]);
    assert_eq!(alive_count(&world, &p), 3);
}

#[test]
fn flipped_cells_are_exactly_the_changes() {
    let world = world_from_rows(&[".....", "..#..", "..#..", "..#..", "....."]);
    let p = params(5, 5, 1, 1);
    let next = calculate_new_alive(&world, &p);
    let flips = get_flipped_cells(&world, &next, &p);
    let coords: Vec<(usize, usize)> = flips.iter().map(|c| (c.x, c.y)).collect();
    assert_eq!(coords, vec![(2, 1), (1, 2), (3, 2), (2, 3)]);
    // No change flips nothing.
    assert!(get_flipped_cells(&world, &world, &p).is_empty());
}

#[test]
fn world_survives_flatten_and_rebuild() {
    let world = world_from_rows(&["#..#", ".##.", "#..#"]);
    let p = params(4, 3, 1, 1);
    let flat = gol_rs::grid::flatten_world(&world, &p);
    assert_eq!(flat.len(), 12);
    let rebuilt = world_from_cells(&flat, &p);
    assert_eq!(rebuilt, world);
}

#[test]
fn example_world_encodes_to_the_expected_bytes() {
    // The 3x3 block world, row-major, one byte per cell.
    let world = block_3x3();
    let p = params(3, 3, 1, 1);
    let flat = gol_rs::grid::flatten_world(&world, &p);
    let bytes = cells_to_bytes(&flat);
    assert_eq!(bytes, vec![255, 255, 255, 0, 0, 0, 255, 255, 255]);
}

#[test]
fn pushed_world_reports_its_alive_count() {
    let bytes: Vec<u8> = vec![255, 255, 255, 0, 0, 0, 255, 255, 255];
    let (world, count) = gol_rs::remote::push_world(3, 3, &bytes).unwrap();
    assert_eq!(count, 6);
    assert_eq!(world.len(), 3);
    assert_eq!(world[0], vec![CellValue::Alive; 3]);
    assert_eq!(world[1], vec![CellValue::Dead; 3]);
    assert_eq!(world[2], vec![CellValue::Alive; 3]);
    // A plane whose size does not match its dimensions is rejected, and so
    // are zero dimensions.
    assert!(gol_rs::remote::push_world(3, 2, &bytes).is_err());
    assert!(gol_rs::remote::push_world(0, 9, &bytes).is_err());
}

#[test]
fn alive_count_from_bytes_matches_the_plane() {
    let bytes: Vec<u8> = vec![255, 255, 255, 0, 0, 0, 255, 255, 255];
    assert_eq!(gol_rs::grid::alive_count_from_bytes(&bytes), 6);
    // Lenient decoding: only 255 counts as alive.
    let odd: Vec<u8> = vec![254, 1, 0, 255];
    assert_eq!(gol_rs::grid::alive_count_from_bytes(&odd), 1);
    assert_eq!(gol_rs::grid::alive_count_from_bytes(&Vec::new()), 0);
}
