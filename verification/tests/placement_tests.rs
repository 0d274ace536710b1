use game_of_life::grid::Grid;
use game_of_life::placement::Placement;
use game_of_life::types::{cell_code, cell_from_code, Cell};
use game_of_life::utils::{max, min};

fn spans_overlap(a: &Placement, b: &Placement) -> bool {
    !(a.gx1 < b.gx0 || b.gx1 < a.gx0 || a.gy1 < b.gy0 || b.gy1 < a.gy0)
}

#[test]
fn placements_stay_strictly_inside_the_grid() {
    for seed_round in 0..5 {
        let w = 50 + seed_round;
        let h = 70 + seed_round;
        let g = Grid::new(w, h, Some(10), Some(14)).unwrap();
        for p in g.placements().iter() {
            let pat = g.pattern(p.pattern_index);
            assert!(p.x + pat.width() < w);
            assert!(p.y + pat.height() < h);
        }
    }
}

#[test]
fn placement_spans_are_pairwise_disjoint() {
    for _ in 0..5 {
        let g = Grid::new(80, 80, Some(16), Some(16)).unwrap();
        let ps = g.placements();
        for i in 0..ps.len() {
            for j in 0..ps.len() {
                if i != j {
                    assert!(!spans_overlap(&ps[i], &ps[j]));
                }
            }
        }
    }
}

#[test]
fn placed_patterns_appear_in_the_buffer() {
    // Every recorded placement's pattern matrix is readable back from the
    // grid wherever no later placement overwrote it; with disjoint lattice
    // spans the last placement is always intact.
    let g = Grid::new(60, 90, None, None).unwrap();
    if let Some(p) = g.placements().last() {
        let pat = g.pattern(p.pattern_index);
        let mut clean = true;
        for ly in 0..pat.height() {
            for lx in 0..pat.width() {
                let code = match g.cell_at(p.y + ly, p.x + lx).unwrap() {
                    Cell::Dead => 0u8,
                    Cell::Alive => 1,
                    _ => 9,
                };
                if code != pat.cells[ly][lx] {
                    clean = false;
                }
            }
        }
        assert!(clean, "the last placement's footprint was altered");
    }
}

#[test]
fn seeding_places_at_least_one_pattern() {
    // Each of the four hundred lattice cells independently attempts a
    // placement with probability four in ten, and a five-by-five footprint
    // fits almost everywhere, so an empty seeding is vanishingly unlikely.
    let g = Grid::new(100, 100, Some(20), Some(20)).unwrap();
    assert!(!g.placements().is_empty());
    let alive = g.cell_codes().iter().filter(|&&c| c == 1).count();
    assert!(alive > 0);
}

#[test]
fn placement_counts_match_the_recorded_placements() {
    let g = Grid::new(100, 100, Some(20), Some(20)).unwrap();
    let counts = g.placement_counts();
    assert_eq!(counts.len(), g.num_patterns());
    let mut manual = vec![0usize; g.num_patterns()];
    for p in g.placements().iter() {
        manual[p.pattern_index] += 1;
    }
    assert_eq!(counts, manual);
    let total: usize = counts.iter().sum();
    assert_eq!(total, g.placements().len());
}

#[test]
fn min_and_max_pick_the_right_operand() {
    assert_eq!(min(3, 9), 3);
    assert_eq!(min(9, 3), 3);
    assert_eq!(min(4, 4), 4);
    assert_eq!(max(3, 9), 9);
    assert_eq!(max(9, 3), 9);
    assert_eq!(max(0, 0), 0);
}

#[test]
fn cell_codes_round_trip() {
    for c in [
        Cell::Dead,
        Cell::Alive,
        Cell::Vanishing1,
        Cell::Vanishing2,
        Cell::Vanishing3,
    ] {
        assert_eq!(cell_from_code(cell_code(c)), c);
    }
    assert_eq!(cell_code(Cell::Dead), 0);
    assert_eq!(cell_code(Cell::Alive), 1);
    assert_eq!(cell_from_code(7), Cell::Vanishing3);
}
