use vstd::prelude::*;

verus! {

/// The discrete state of one grid position. A dying cell does not switch to
/// `Dead` at once: it fades through the three `Vanishing` steps, one per
/// generation, so a renderer can animate the death.
#[derive(Clone, Copy, Debug, PartialEq, Eq, Structural)]
pub enum Cell {
    Dead,
    Alive,
    Vanishing1,
    Vanishing2,
    Vanishing3,
}

/// The numeric code under which a cell state is stored in the packed grid
/// buffer. `Dead` is always 0 and `Alive` is always 1.
pub open spec fn spec_cell_code(c: Cell) -> u8 {
    match c {
        Cell::Dead => 0,
        Cell::Alive => 1,
        Cell::Vanishing1 => 2,
        Cell::Vanishing2 => 3,
        Cell::Vanishing3 => 4,
    }
}

/// Executable counterpart of [`spec_cell_code`].
#[verifier::when_used_as_spec(spec_cell_code)]
pub fn cell_code(c: Cell) -> (code: u8)
    ensures
        code == spec_cell_code(c),
{
    match c {
        Cell::Dead => 0,
        Cell::Alive => 1,
        Cell::Vanishing1 => 2,
        Cell::Vanishing2 => 3,
        Cell::Vanishing3 => 4,
    }
}

/// The cell state a stored code denotes. Codes above the last vanishing step
/// are read as the last vanishing step, so the conversion is total.
pub open spec fn spec_cell_from_code(code: u8) -> Cell {
    if code == 0 {
        Cell::Dead
    } else if code == 1 {
        Cell::Alive
    } else if code == 2 {
        Cell::Vanishing1
    } else if code == 3 {
        Cell::Vanishing2
    } else {
        Cell::Vanishing3
    }
}

/// Executable counterpart of [`spec_cell_from_code`].
#[verifier::when_used_as_spec(spec_cell_from_code)]
pub fn cell_from_code(code: u8) -> (c: Cell)
    ensures
        c == spec_cell_from_code(code),
{
    match code {
        0 => Cell::Dead,
        1 => Cell::Alive,
        2 => Cell::Vanishing1,
        3 => Cell::Vanishing2,
        _ => Cell::Vanishing3,
    }
}

/// The engine's error taxonomy. `Configuration` covers invalid construction
/// inputs: zero grid dimensions, zero lattice divisions, malformed patterns,
/// and weight vectors that cannot form a distribution. `OutOfRange` reports a
/// coordinate query outside the grid bounds.
#[derive(Clone, Copy, Debug, PartialEq, Eq, Structural)]
pub enum EngineError {
    Configuration,
    OutOfRange,
}

} // verus!
