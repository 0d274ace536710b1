use game_of_life::grid::Grid;
use game_of_life::types::{Cell, EngineError};

fn clear_grid(g: &mut Grid) {
    let h = g.height();
    let w = g.width();
    for row in 0..h {
        for col in 0..w {
            g.set_cell(row, col, Cell::Dead).unwrap();
        }
    }
}

fn alive_positions(g: &Grid) -> Vec<(usize, usize)> {
    let mut out = Vec::new();
    for row in 0..g.height() {
        for col in 0..g.width() {
            if g.cell_at(row, col).unwrap() == Cell::Alive {
                out.push((row, col));
            }
        }
    }
    out
}

#[test]
fn fresh_grid_has_area_cells_and_only_dead_or_alive() {
    for (w, h) in [(1usize, 1usize), (5, 7), (40, 60), (64, 64)] {
        let g = Grid::new(w, h, None, None).unwrap();
        assert_eq!(g.width(), w);
        assert_eq!(g.height(), h);
        let codes = g.cell_codes();
        assert_eq!(codes.len(), w * h);
        for &c in codes.iter() {
            assert!(c == 0 || c == 1, "fresh cell holds code {}", c);
        }
    }
}

#[test]
fn new_rejects_zero_dimensions() {
    assert_eq!(Grid::new(0, 5, None, None).err().unwrap(), EngineError::Configuration);
    assert_eq!(Grid::new(5, 0, None, None).err().unwrap(), EngineError::Configuration);
    assert_eq!(Grid::new(0, 0, None, None).err().unwrap(), EngineError::Configuration);
}

#[test]
fn new_and_regenerate_reject_zero_divisions() {
    assert_eq!(
        Grid::new(8, 8, Some(0), None).err().unwrap(),
        EngineError::Configuration
    );
    assert_eq!(
        Grid::new(8, 8, None, Some(0)).err().unwrap(),
        EngineError::Configuration
    );
    let mut g = Grid::new(8, 8, None, None).unwrap();
    assert_eq!(g.regenerate(Some(0), Some(4)).unwrap_err(), EngineError::Configuration);
    assert!(g.regenerate(Some(3), Some(4)).is_ok());
}

#[test]
fn regenerate_reseeds_with_only_dead_or_alive() {
    let mut g = Grid::new(30, 30, None, None).unwrap();
    g.morph_map_next_round();
    g.regenerate(None, None).unwrap();
    for &c in g.cell_codes().iter() {
        assert!(c == 0 || c == 1);
    }
}

#[test]
fn index_for_coordinates_is_row_major() {
    let g = Grid::new(7, 5, None, None).unwrap();
    assert_eq!(g.get_index_for_coordinates(0, 0).unwrap(), 0);
    assert_eq!(g.get_index_for_coordinates(2, 3).unwrap(), 2 * 7 + 3);
    assert_eq!(g.get_index_for_coordinates(4, 6).unwrap(), 4 * 7 + 6);
    assert_eq!(g.get_index_for_coordinates(5, 0).unwrap_err(), EngineError::OutOfRange);
    assert_eq!(g.get_index_for_coordinates(0, 7).unwrap_err(), EngineError::OutOfRange);
}

#[test]
fn cell_queries_out_of_range_are_reported() {
    let mut g = Grid::new(4, 4, None, None).unwrap();
    assert_eq!(g.cell_at(4, 0).unwrap_err(), EngineError::OutOfRange);
    assert_eq!(g.cell_at(0, 4).unwrap_err(), EngineError::OutOfRange);
    assert_eq!(g.set_cell(9, 9, Cell::Alive).unwrap_err(), EngineError::OutOfRange);
    assert!(g.set_cell(3, 3, Cell::Alive).is_ok());
    assert_eq!(g.cell_at(3, 3).unwrap(), Cell::Alive);
}

#[test]
fn step_is_deterministic_in_the_previous_buffer() {
    let mut g = Grid::new(8, 8, None, None).unwrap();
    clear_grid(&mut g);
    for &(r, c) in [(2usize, 2usize), (2, 3), (2, 4), (4, 4), (5, 5)].iter() {
        g.set_cell(r, c, Cell::Alive).unwrap();
    }
    let before: Vec<u8> = g.cell_codes().clone();
    g.morph_map_next_round();
    let first: Vec<u8> = g.cell_codes().clone();

    // Restore the prior generation and step again: same result.
    for row in 0..8 {
        for col in 0..8 {
            let code = before[row * 8 + col];
            let cell = game_of_life::types::cell_from_code(code);
            g.set_cell(row, col, cell).unwrap();
        }
    }
    g.morph_map_next_round();
    let second: Vec<u8> = g.cell_codes().clone();
    assert_eq!(first, second);
}

#[test]
fn all_dead_grid_is_a_fixed_point() {
    let mut g = Grid::new(6, 9, None, None).unwrap();
    clear_grid(&mut g);
    g.morph_map_next_round();
    for &c in g.cell_codes().iter() {
        assert_eq!(c, 0);
    }
    g.morph_map_next_round();
    for &c in g.cell_codes().iter() {
        assert_eq!(c, 0);
    }
}

#[test]
fn isolated_alive_cell_starts_vanishing() {
    let mut g = Grid::new(7, 7, None, None).unwrap();
    clear_grid(&mut g);
    g.set_cell(3, 3, Cell::Alive).unwrap();
    g.morph_map_next_round();
    assert_eq!(g.cell_at(3, 3).unwrap(), Cell::Vanishing1);
    g.morph_map_next_round();
    assert_eq!(g.cell_at(3, 3).unwrap(), Cell::Vanishing2);
    g.morph_map_next_round();
    assert_eq!(g.cell_at(3, 3).unwrap(), Cell::Vanishing3);
    g.morph_map_next_round();
    assert_eq!(g.cell_at(3, 3).unwrap(), Cell::Dead);
}

#[test]
fn corner_alive_cell_starts_vanishing() {
    let mut g = Grid::new(3, 3, None, None).unwrap();
    clear_grid(&mut g);
    g.set_cell(0, 0, Cell::Alive).unwrap();
    g.morph_map_next_round();
    assert_eq!(g.cell_at(0, 0).unwrap(), Cell::Vanishing1);
}

#[test]
fn blinker_oscillates_with_period_two() {
    let mut g = Grid::new(7, 7, None, None).unwrap();
    clear_grid(&mut g);
    g.set_cell(3, 2, Cell::Alive).unwrap();
    g.set_cell(3, 3, Cell::Alive).unwrap();
    g.set_cell(3, 4, Cell::Alive).unwrap();

    g.morph_map_next_round();
    assert_eq!(alive_positions(&g), vec![(2, 3), (3, 3), (4, 3)]);

    g.morph_map_next_round();
    assert_eq!(alive_positions(&g), vec![(3, 2), (3, 3), (3, 4)]);
}

#[test]
fn subgrid_sum_matches_spec_example() {
    let mut g = Grid::new(4, 4, None, None).unwrap();
    for row in 0..4 {
        for col in 0..4 {
            g.set_cell(row, col, Cell::Alive).unwrap();
        }
    }
    // Clipped to columns 0..=2 and rows 0..=2: nine Alive cells.
    assert_eq!(g.current_map_subgrid_sum(0, 0, 2, 2), Some(9));
}

#[test]
fn subgrid_sum_distinguishes_empty_region_from_zero_sum() {
    let mut g = Grid::new(6, 6, None, None).unwrap();
    clear_grid(&mut g);
    // A region of Dead cells sums to zero but is not "no value".
    assert_eq!(g.current_map_subgrid_sum(0, 0, 3, 3), Some(0));
    // A region starting at or past the clipped stop has no value.
    assert_eq!(g.current_map_subgrid_sum(5, 0, 3, 3), None);
    assert_eq!(g.current_map_subgrid_sum(0, 5, 3, 3), None);
    // Zero-sized lattice cells clip to an empty rectangle.
    assert_eq!(g.current_map_subgrid_sum(0, 0, 0, 0), None);
}

#[test]
fn subgrid_sum_counts_vanishing_codes() {
    let mut g = Grid::new(5, 5, None, None).unwrap();
    clear_grid(&mut g);
    g.set_cell(0, 0, Cell::Vanishing3).unwrap();
    g.set_cell(0, 1, Cell::Vanishing1).unwrap();
    g.set_cell(1, 0, Cell::Alive).unwrap();
    // Rectangle 0..=2 in both axes: codes 4 + 2 + 1.
    assert_eq!(g.current_map_subgrid_sum(0, 0, 2, 2), Some(7));
}
