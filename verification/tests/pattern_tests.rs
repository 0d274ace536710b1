use game_of_life::gol_patterns::{load, pick_random_weighted_pattern, Pattern};
use game_of_life::types::EngineError;

#[test]
fn library_loads_ten_padded_patterns() {
    let lib = load().unwrap();
    assert_eq!(lib.num_patterns(), 10);
    for i in 0..lib.num_patterns() {
        let p = lib.pattern(i);
        assert!(p.weight >= 1);
        let w = p.width();
        let h = p.height();
        assert!(w >= 3 && h >= 3);
        for row in p.cells.iter() {
            assert_eq!(row.len(), w);
            for &c in row.iter() {
                assert!(c <= 1);
            }
        }
        // The outermost ring is the added dead border.
        for col in 0..w {
            assert_eq!(p.cells[0][col], 0);
            assert_eq!(p.cells[h - 1][col], 0);
        }
        for row in 0..h {
            assert_eq!(p.cells[row][0], 0);
            assert_eq!(p.cells[row][w - 1], 0);
        }
    }
}

#[test]
fn library_names_and_weights_are_the_authored_ones() {
    let lib = load().unwrap();
    let expected: [(&str, u32); 10] = [
        ("blinker", 6),
        ("octagon", 8),
        ("beacon", 4),
        ("pulsar", 4),
        ("pentadecathlon", 4),
        ("unix", 2),
        ("clock", 2),
        ("bipole", 4),
        ("queen", 3),
        ("tumbler", 2),
    ];
    assert_eq!(lib.num_patterns(), expected.len());
    for (i, (name, weight)) in expected.iter().enumerate() {
        let p = lib.pattern(i);
        assert_eq!(&*p.name, *name);
        assert_eq!(p.weight, *weight);
    }
}

#[test]
fn library_keeps_the_authored_blinker() {
    let lib = load().unwrap();
    let p = lib.pattern(0);
    assert_eq!(&*p.name, "blinker");
    // The authored three-by-three blinker, framed by the dead ring.
    let expected: Vec<Vec<u8>> = vec![
        vec![0, 0, 0, 0, 0],
        vec![0, 0, 0, 0, 0],
        vec![0, 1, 1, 1, 0],
        vec![0, 0, 0, 0, 0],
        vec![0, 0, 0, 0, 0],
    ];
    assert_eq!(p.cells, expected);
}

#[test]
fn pattern_new_accepts_a_rectangular_zero_one_matrix() {
    let p = Pattern::new("pair", 2, vec![vec![1, 1], vec![0, 1]]).unwrap();
    assert_eq!(&*p.name, "pair");
    assert_eq!(p.weight, 2);
    assert_eq!(p.cells, vec![vec![1, 1], vec![0, 1]]);
    assert_eq!(p.width(), 2);
    assert_eq!(p.height(), 2);
}

#[test]
fn pattern_new_rejects_malformed_prototypes() {
    assert_eq!(
        Pattern::new("empty", 1, Vec::new()).unwrap_err(),
        EngineError::Configuration
    );
    assert_eq!(
        Pattern::new("empty_row", 1, vec![Vec::new()]).unwrap_err(),
        EngineError::Configuration
    );
    assert_eq!(
        Pattern::new("ragged", 1, vec![vec![0, 1], vec![0]]).unwrap_err(),
        EngineError::Configuration
    );
    assert_eq!(
        Pattern::new("bad_code", 1, vec![vec![0, 2]]).unwrap_err(),
        EngineError::Configuration
    );
    assert_eq!(
        Pattern::new("zero_weight", 0, vec![vec![1]]).unwrap_err(),
        EngineError::Configuration
    );
}

#[test]
fn weighted_pick_always_returns_a_library_index() {
    let lib = load().unwrap();
    let mut rng = rand::thread_rng();
    for _ in 0..200 {
        let idx = pick_random_weighted_pattern(&lib, &mut rng);
        assert!(idx < lib.num_patterns());
    }
}
