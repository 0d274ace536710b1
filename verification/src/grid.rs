//! The simulation grid: a packed row-major buffer of cell codes together
//! with the previous generation's buffer, the pattern library it is seeded
//! from, and the placements of the latest seeding pass.

use crate::gol_patterns::{
    library_is_loaded, library_patterns_wf, load, pattern_wf, rows_view, Pattern, PatternLibrary,
};
use crate::placement::{
    all_codes_at_most_one, all_dead, attempt_placement, count_placed, grid_cell_size,
    lattice_count, lemma_clear_span_disjoint, lemma_count_placed_le_len, lemma_count_placed_take,
    lemma_stamp_all_push, occ_at, placement_in_bounds, placement_on_lattice, placements_marked,
    placements_on_geometry, placements_on_lattice, placements_valid, span_marked, spans_disjoint,
    spec_cell_size, spec_lattice_count, stamp_all, stamp_spec, Placement,
};
use crate::rng::fresh_rng;
use crate::transition::{
    cell_index, count_live_neighbors, lemma_index_in_range, lemma_index_split, next_cell_code,
    next_generation,
};
use crate::types::{cell_code, cell_from_code, spec_cell_code, spec_cell_from_code, Cell, EngineError};
use vstd::prelude::*;

verus! {

/// The mathematical content of a grid: its dimensions, both cell buffers,
/// the library's patterns, and the placements of the latest seeding pass.
pub ghost struct GridView {
    pub width: int,
    pub height: int,
    pub cells: Seq<u8>,
    pub previous: Seq<u8>,
    pub patterns: Seq<Pattern>,
    pub placements: Seq<Placement>,
}

/// Every cell code of a buffer denotes a known cell state.
pub open spec fn codes_wf(cells: Seq<u8>) -> bool {
    forall|i: int| 0 <= i < cells.len() ==> #[trigger] cells[i] <= 4
}

/// The mutable simulation state. Both buffers always span exactly
/// `width * height` cells.
pub struct Grid {
    width: usize,
    height: usize,
    map: Vec<u8>,
    previous_map: Vec<u8>,
    library: PatternLibrary,
    placements: Vec<Placement>,
}

impl View for Grid {
    type V = GridView;

    closed spec fn view(&self) -> GridView {
        GridView {
            width: self.width as int,
            height: self.height as int,
            cells: self.map@,
            previous: self.previous_map@,
            patterns: self.library@,
            placements: self.placements@,
        }
    }
}

/// A valid grid view: positive dimensions, both buffers of exactly the
/// grid's area, every code a known state, a well-formed pattern library, and
/// placements that respect the grid bounds and claim disjoint lattice spans.
pub open spec fn grid_view_wf(v: GridView) -> bool {
    &&& v.width >= 1
    &&& v.height >= 1
    &&& v.cells.len() == v.width * v.height
    &&& v.previous.len() == v.width * v.height
    &&& codes_wf(v.cells)
    &&& codes_wf(v.previous)
    &&& library_patterns_wf(v.patterns)
    &&& placements_valid(v.placements, v.patterns, v.width, v.height)
}

/// The sum of the cell codes of row y, columns x0 through x1 inclusive;
/// zero when x1 lies before x0.
pub open spec fn row_sum(cells: Seq<u8>, w: int, y: int, x0: int, x1: int) -> int
    decreases x1 - x0 + 1,
{
    if x1 < x0 {
        0
    } else {
        row_sum(cells, w, y, x0, x1 - 1) + cells[y * w + x1]
    }
}

/// The sum of the cell codes of the rectangle [x0, x1] × [y0, y1], both
/// ends inclusive; zero when the rectangle is degenerate.
pub open spec fn rect_sum(cells: Seq<u8>, w: int, x0: int, x1: int, y0: int, y1: int) -> int
    decreases y1 - y0 + 1,
{
    if y1 < y0 {
        0
    } else {
        rect_sum(cells, w, x0, x1, y0, y1 - 1) + row_sum(cells, w, y1, x0, x1)
    }
}

/// A division count with the default applied where none was given.
pub open spec fn divisions_or(d: Option<usize>, dflt: int) -> int {
    if d is Some {
        d->Some_0 as int
    } else {
        dflt
    }
}

impl Grid {
    /// The library's sampler agrees with its pattern list; stated apart from
    /// the view because the distribution itself has no mathematical content.
    pub closed spec fn library_wf(&self) -> bool {
        self.library.wf()
    }

    /// The grid's full validity.
    pub open spec fn wf(&self) -> bool {
        &&& grid_view_wf(self@)
        &&& self.library_wf()
    }

    /// The grid's width in cells.
    pub fn width(&self) -> (w: usize)
        ensures
            w == self@.width,
    {
        self.width
    }

    /// The grid's height in cells.
    pub fn height(&self) -> (h: usize)
        ensures
            h == self@.height,
    {
        self.height
    }

    /// The packed row-major index of (row, col), or an out-of-range error
    /// for a coordinate outside the grid.
    pub fn get_index_for_coordinates(&self, row: usize, col: usize) -> (r: Result<
        usize,
        EngineError,
    >)
        requires
            self.wf(),
        ensures
            r is Ok <==> (row < self@.height && col < self@.width),
            r matches Ok(i) ==> i == cell_index(self@.width, col as int, row as int) && i
                < self@.cells.len(),
            r matches Err(e) ==> e == EngineError::OutOfRange,
    {
        if row < self.height && col < self.width {
            proof {
                lemma_index_in_range(
                    self@.width,
                    self@.height,
                    col as int,
                    row as int,
                );
            }
            let size = self.map.len();
            Ok(row * self.width + col)
        } else {
            Err(EngineError::OutOfRange)
        }
    }

    /// The cell state at (row, col), or an out-of-range error.
    pub fn cell_at(&self, row: usize, col: usize) -> (r: Result<Cell, EngineError>)
        requires
            self.wf(),
        ensures
            r is Ok <==> (row < self@.height && col < self@.width),
            r matches Ok(c) ==> c == spec_cell_from_code(
                self@.cells[cell_index(self@.width, col as int, row as int)],
            ),
            r matches Err(e) ==> e == EngineError::OutOfRange,
    {
        match self.get_index_for_coordinates(row, col) {
            Ok(i) => Ok(cell_from_code(self.map[i])),
            Err(e) => Err(e),
        }
    }

    /// Writes one cell state at (row, col), or reports an out-of-range
    /// error, leaving the grid unchanged; the previous generation's buffer
    /// is not touched either way.
    pub fn set_cell(&mut self, row: usize, col: usize, value: Cell) -> (r: Result<(), EngineError>)
        requires
            old(self).wf(),
        ensures
            final(self).wf(),
            r is Ok <==> (row < old(self)@.height && col < old(self)@.width),
            r is Ok ==> final(self)@ == (GridView {
                cells: old(self)@.cells.update(
                    cell_index(old(self)@.width, col as int, row as int),
                    spec_cell_code(value),
                ),
                ..old(self)@
            }),
            r is Err ==> final(self)@ == old(self)@,
            r matches Err(e) ==> e == EngineError::OutOfRange,
    {
        match self.get_index_for_coordinates(row, col) {
            Ok(i) => {
                self.map.set(i, cell_code(value));
                Ok(())
            },
            Err(e) => Err(e),
        }
    }

    /// A read-only view of the packed cell buffer, for hosts that map or
    /// copy it into a rendering structure without per-cell calls.
    pub fn cell_codes(&self) -> (r: &Vec<u8>)
        ensures
            r@ == self@.cells,
    {
        &self.map
    }

    /// The placements of the latest seeding pass.
    pub fn placements(&self) -> (r: &Vec<Placement>)
        ensures
            r@ == self@.placements,
    {
        &self.placements
    }

    /// How many patterns the grid's library holds.
    pub fn num_patterns(&self) -> (n: usize)
        ensures
            n == self@.patterns.len(),
    {
        self.library.num_patterns()
    }

    /// Builds a grid of the given dimensions and seeds it with one seeding
    /// pass over the placement lattice. A zero dimension, an area beyond
    /// the machine's address range, or a zero division count is a
    /// configuration error. A fresh grid's cells are all Dead or Alive —
    /// never a vanishing state — and its previous-generation buffer is all
    /// Dead.
    pub fn new(
        map_width: usize,
        map_height: usize,
        num_cell_divisions_x: Option<usize>,
        num_cell_divisions_y: Option<usize>,
    ) -> (r: Result<Grid, EngineError>)
        ensures
            r is Ok <==> (map_width >= 1 && map_height >= 1 && map_width * map_height <= usize::MAX
                && num_cell_divisions_x != Some(0usize) && num_cell_divisions_y != Some(0usize)),
            r matches Ok(g) ==> ({
                &&& g.wf()
                &&& g@.width == map_width
                &&& g@.height == map_height
                &&& g@.cells.len() == map_width * map_height
                &&& all_codes_at_most_one(g@.cells)
                &&& g@.previous == all_dead((map_width * map_height) as nat)
                &&& g@.cells == stamp_all(
                    all_dead((map_width * map_height) as nat),
                    map_width as int,
                    g@.placements,
                    g@.patterns,
                )
                &&& library_is_loaded(g@.patterns)
                &&& ({
                    let gcw = spec_cell_size(
                        map_width as int,
                        divisions_or(num_cell_divisions_x, 30),
                    );
                    let gch = spec_cell_size(
                        map_height as int,
                        divisions_or(num_cell_divisions_y, 60),
                    );
                    placements_on_geometry(
                        g@.placements,
                        g@.patterns,
                        gcw,
                        gch,
                        spec_lattice_count(map_width as int, gcw),
                        spec_lattice_count(map_height as int, gch),
                    )
                })
            }),
            r matches Err(e) ==> e == EngineError::Configuration,
    {
        if map_width == 0 || map_height == 0 {
            return Err(EngineError::Configuration);
        }
        let size = match map_width.checked_mul(map_height) {
            Some(s) => s,
            None => {
                return Err(EngineError::Configuration);
            },
        };
        let library = match load() {
            Ok(l) => l,
            Err(_) => {
                return Err(EngineError::Configuration);
            },
        };
        let map = zero_buffer(size);
        let previous_map = zero_buffer(size);
        let mut map_struct = Grid {
            width: map_width,
            height: map_height,
            map,
            previous_map,
            library,
            placements: Vec::new(),
        };
        match map_struct.regenerate(num_cell_divisions_x, num_cell_divisions_y) {
            Ok(()) => Ok(map_struct),
            Err(e) => Err(e),
        }
    }

    /// Clears the buffer to all-Dead, discards the recorded placements, and
    /// re-runs the seeding pass over a fresh placement lattice with the
    /// given division counts (defaults thirty across, sixty down). A zero
    /// division count is a configuration error, reported with the grid
    /// unchanged. On success every cell is Dead or Alive, and the buffer is
    /// exactly the recorded placements stamped in order onto an all-Dead
    /// grid; the previous generation's buffer is not touched.
    pub fn regenerate(
        &mut self,
        num_cell_divisions_x: Option<usize>,
        num_cell_divisions_y: Option<usize>,
    ) -> (r: Result<(), EngineError>)
        requires
            old(self).wf(),
        ensures
            final(self).wf(),
            final(self)@.width == old(self)@.width,
            final(self)@.height == old(self)@.height,
            final(self)@.previous == old(self)@.previous,
            final(self)@.patterns == old(self)@.patterns,
            r is Ok <==> (num_cell_divisions_x != Some(0usize) && num_cell_divisions_y != Some(
                0usize,
            )),
            r is Err ==> final(self)@ == old(self)@,
            r matches Err(e) ==> e == EngineError::Configuration,
            r is Ok ==> all_codes_at_most_one(final(self)@.cells),
            r is Ok ==> final(self)@.cells == stamp_all(
                all_dead((old(self)@.width * old(self)@.height) as nat),
                old(self)@.width,
                final(self)@.placements,
                old(self)@.patterns,
            ),
            r is Ok ==> ({
                let gcw = spec_cell_size(
                    old(self)@.width,
                    divisions_or(num_cell_divisions_x, 30),
                );
                let gch = spec_cell_size(
                    old(self)@.height,
                    divisions_or(num_cell_divisions_y, 60),
                );
                placements_on_geometry(
                    final(self)@.placements,
                    final(self)@.patterns,
                    gcw,
                    gch,
                    spec_lattice_count(old(self)@.width, gcw),
                    spec_lattice_count(old(self)@.height, gch),
                )
            }),
    {
        let dxv: usize = match num_cell_divisions_x {
            Some(v) => {
                if v == 0 {
                    return Err(EngineError::Configuration);
                }
                v
            },
            None => 30,
        };
        let dyv: usize = match num_cell_divisions_y {
            Some(v) => {
                if v == 0 {
                    return Err(EngineError::Configuration);
                }
                v
            },
            None => 60,
        };
        let w = self.width;
        let h = self.height;
        let size = self.map.len();
        let gcw = grid_cell_size(w, dxv);
        let gch = grid_cell_size(h, dyv);
        let gcx = lattice_count(w, gcw);
        let gcy = lattice_count(h, gch);
        proof {
            assert(gcx * gcy <= w * h) by (nonlinear_arith)
                requires
                    1 <= gcx <= w,
                    1 <= gcy <= h,
            ;
        }
        self.map = zero_buffer(size);
        self.placements = Vec::new();
        let mut occ = false_buffer(gcx * gcy);
        let mut rng = fresh_rng();
        let ghost base = self.map@;
        let ghost lib0 = self.library;
        let ghost prev0 = self.previous_map@;
        for gx in 0..gcx
            invariant
                self.width == w,
                self.height == h,
                w >= 1,
                h >= 1,
                self.library == lib0,
                lib0.wf(),
                library_patterns_wf(lib0@),
                self.previous_map@ == prev0,
                prev0.len() == w * h,
                codes_wf(prev0),
                base == all_dead((w * h) as nat),
                self.map@.len() == w * h,
                occ@.len() == gcx * gcy,
                gcw >= 1,
                gch >= 1,
                gcx >= 1,
                gcy >= 1,
                gcx * gcw <= w,
                gcy * gch <= h,
                all_codes_at_most_one(self.map@),
                self.map@ == stamp_all(base, w as int, self.placements@, lib0@),
                placements_valid(self.placements@, lib0@, w as int, h as int),
                placements_on_lattice(self.placements@, gcx as int, gcy as int),
                placements_on_geometry(
                    self.placements@,
                    lib0@,
                    gcw as int,
                    gch as int,
                    gcx as int,
                    gcy as int,
                ),
                placements_marked(self.placements@, occ@, gcx as int),
        {
            for gy in 0..gcy
                invariant
                    self.width == w,
                    self.height == h,
                    w >= 1,
                    h >= 1,
                    self.library == lib0,
                    lib0.wf(),
                    library_patterns_wf(lib0@),
                    self.previous_map@ == prev0,
                    prev0.len() == w * h,
                    codes_wf(prev0),
                    base == all_dead((w * h) as nat),
                    self.map@.len() == w * h,
                    occ@.len() == gcx * gcy,
                    gcw >= 1,
                    gch >= 1,
                    gcx >= 1,
                    gcy >= 1,
                    gcx * gcw <= w,
                    gcy * gch <= h,
                    gx < gcx,
                    all_codes_at_most_one(self.map@),
                    self.map@ == stamp_all(base, w as int, self.placements@, lib0@),
                    placements_valid(self.placements@, lib0@, w as int, h as int),
                    placements_on_lattice(self.placements@, gcx as int, gcy as int),
                    placements_on_geometry(
                        self.placements@,
                        lib0@,
                        gcw as int,
                        gch as int,
                        gcx as int,
                        gcy as int,
                    ),
                    placements_marked(self.placements@, occ@, gcx as int),
            {
                let ghost occ0 = occ@;
                let ghost map0 = self.map@;
                let ghost ps0 = self.placements@;
                let attempt = attempt_placement(
                    &mut self.map,
                    &mut occ,
                    &self.library,
                    &mut rng,
                    w,
                    h,
                    gcw,
                    gch,
                    gcx,
                    gcy,
                    gx,
                    gy,
                );
                match attempt {
                    Some(p) => {
                        proof {
                            assert forall|k: int| 0 <= k < ps0.len() implies spans_disjoint(
                                #[trigger] ps0[k],
                                p,
                            ) by {
                                lemma_clear_span_disjoint(
                                    occ0,
                                    gcx as int,
                                    gcy as int,
                                    ps0[k],
                                    p,
                                );
                            }
                            lemma_stamp_all_push(base, w as int, ps0, lib0@, p);
                        }
                        self.placements.push(p);
                        proof {
                            let m = rows_view(lib0@[p.pattern_index as int].cells);
                            assert(pattern_wf(lib0@[p.pattern_index as int]));
                            assert forall|k: int|
                                0 <= k < self.map@.len() implies #[trigger] self.map@[k] <= 1 by {
                                assert(self.map@[k] == stamp_spec(
                                    map0,
                                    w as int,
                                    m,
                                    p.x as int,
                                    p.y as int,
                                )[k]);
                                if p.y <= k / (w as int) < p.y + m.len() && p.x <= k % (w as int)
                                    < p.x + m[0].len() {
                                    assert(self.map@[k] == m[k / (w as int) - p.y][k % (w as int)
                                        - p.x]);
                                } else {
                                    assert(self.map@[k] == map0[k]);
                                }
                            }
                            assert forall|k2: int|
                                0 <= k2 < self.placements@.len() implies span_marked(
                                occ@,
                                gcx as int,
                                #[trigger] self.placements@[k2],
                            ) by {
                                let q = self.placements@[k2];
                                assert forall|i: int, j: int|
                                    q.gx0 <= i <= q.gx1 && q.gy0 <= j <= q.gy1
                                    implies #[trigger] occ_at(occ@, gcx as int, i, j) by {
                                    if k2 < ps0.len() {
                                        assert(span_marked(occ0, gcx as int, q));
                                        assert(occ_at(occ0, gcx as int, i, j));
                                    } else {
                                        assert(q == p);
                                    }
                                }
                            }
                            assert forall|k2: int|
                                0 <= k2 < self.placements@.len() implies placement_on_lattice(
                                #[trigger] self.placements@[k2],
                                lib0@,
                                gcw as int,
                                gch as int,
                                gcx as int,
                                gcy as int,
                            ) by {
                                if k2 < ps0.len() {
                                    assert(self.placements@[k2] == ps0[k2]);
                                } else {
                                    assert(self.placements@[k2] == p);
                                }
                            }
                            assert(self.map@ == stamp_all(base, w as int, self.placements@, lib0@));
                        }
                    },
                    None => {},
                }
            }
        }
        Ok(())
    }

    /// Advances the grid one generation: snapshots the current buffer into
    /// the previous-generation buffer, then writes every cell's next state,
    /// each computed from the snapshot alone, so a cell's new state never
    /// feeds its neighbors' counts within the same tick. The step is a pure
    /// function of the previous generation: its result is exactly
    /// `next_generation` of the buffer the grid held before the call.
    pub fn morph_map_next_round(&mut self)
        requires
            old(self).wf(),
        ensures
            final(self).wf(),
            final(self)@.width == old(self)@.width,
            final(self)@.height == old(self)@.height,
            final(self)@.patterns == old(self)@.patterns,
            final(self)@.placements == old(self)@.placements,
            final(self)@.previous == old(self)@.cells,
            final(self)@.cells == next_generation(
                old(self)@.cells,
                old(self)@.width,
                old(self)@.height,
            ),
    {
        let w = self.width;
        let h = self.height;
        let size = self.map.len();
        self.previous_map = copy_buffer(&self.map);
        let ghost prev = self.previous_map@;
        let ghost lib0 = self.library;
        let ghost ps0 = self.placements@;
        let mut row: usize = 0;
        while row < h
            invariant
                row <= h,
                self.width == w,
                self.height == h,
                w >= 1,
                h >= 1,
                self.library == lib0,
                lib0.wf(),
                library_patterns_wf(lib0@),
                placements_valid(ps0, lib0@, w as int, h as int),
                self.placements@ == ps0,
                self.previous_map@ == prev,
                prev.len() == w * h,
                codes_wf(prev),
                size == w * h,
                self.map@.len() == w * h,
                forall|k: int|
                    0 <= k < row * w ==> #[trigger] self.map@[k] == next_generation(
                        prev,
                        w as int,
                        h as int,
                    )[k],
                codes_wf(self.map@),
            decreases h - row,
        {
            let mut col: usize = 0;
            while col < w
                invariant
                    col <= w,
                    self.width == w,
                    self.height == h,
                    w >= 1,
                    h >= 1,
                    row < h,
                    self.library == lib0,
                    lib0.wf(),
                    library_patterns_wf(lib0@),
                    placements_valid(ps0, lib0@, w as int, h as int),
                    self.placements@ == ps0,
                    self.previous_map@ == prev,
                    prev.len() == w * h,
                    codes_wf(prev),
                    size == w * h,
                    self.map@.len() == w * h,
                    forall|k: int|
                        0 <= k < row * w + col ==> #[trigger] self.map@[k] == next_generation(
                            prev,
                            w as int,
                            h as int,
                        )[k],
                    codes_wf(self.map@),
                decreases w - col,
            {
                proof {
                    lemma_index_in_range(w as int, h as int, col as int, row as int);
                    lemma_index_split(w as int, col as int, row as int);
                }
                let n = count_live_neighbors(&self.previous_map, w, h, col, row);
                let idx = row * w + col;
                let prev_code = self.previous_map[idx];
                let v = next_cell_code(prev_code, n);
                let ghost pre = self.map@;
                self.map.set(idx, v);
                proof {
                    assert(next_generation(prev, w as int, h as int)[idx as int] == v);
                    assert forall|k: int|
                        0 <= k < row * w + col + 1 implies #[trigger] self.map@[k]
                        == next_generation(prev, w as int, h as int)[k] by {
                        if k < idx {
                            assert(pre[k] == next_generation(prev, w as int, h as int)[k]);
                            assert(self.map@[k] == pre[k]);
                        }
                    }
                }
                col = col + 1;
            }
            proof {
                assert((row + 1) * w == row * w + w) by (nonlinear_arith);
            }
            row = row + 1;
        }
        proof {
            assert(h * w == w * h) by (nonlinear_arith);
            assert(self.map@ =~= next_generation(prev, w as int, h as int));
        }
    }

    /// Sums the cell codes of the requested lattice rectangle, clipped to
    /// the grid: columns from `gx * grid_size_x` through the smaller of
    /// `(gx + 1) * grid_size_x` and the last column, rows likewise. Reports
    /// no value — distinct from a zero sum — exactly when the clipped
    /// rectangle is empty, that is, when a clipped stop does not exceed its
    /// start. The bound on the grid's area is what lets the sum of codes
    /// fit the result type.
    pub fn current_map_subgrid_sum(
        &self,
        gx: usize,
        gy: usize,
        grid_size_x: usize,
        grid_size_y: usize,
    ) -> (r: Option<u32>)
        requires
            self.wf(),
            gx < usize::MAX,
            gy < usize::MAX,
            (gx + 1) * grid_size_x <= usize::MAX,
            (gy + 1) * grid_size_y <= usize::MAX,
            4 * self@.width * self@.height <= u32::MAX,
        ensures
            ({
                let start_x = gx * grid_size_x;
                let start_y = gy * grid_size_y;
                let stop_x = vstd::math::min((gx + 1) * grid_size_x, self@.width - 1);
                let stop_y = vstd::math::min((gy + 1) * grid_size_y, self@.height - 1);
                &&& (r is None <==> (stop_y <= start_y || stop_x <= start_x))
                &&& (r matches Some(s) ==> s == rect_sum(
                    self@.cells,
                    self@.width,
                    start_x,
                    stop_x,
                    start_y,
                    stop_y,
                ))
            }),
    {
        let w = self.width;
        let h = self.height;
        let size = self.map.len();
        proof {
            assert(gy * grid_size_y <= (gy + 1) * grid_size_y && gx * grid_size_x <= (gx + 1)
                * grid_size_x) by (nonlinear_arith)
                requires
                    gx >= 0,
                    gy >= 0,
                    grid_size_x >= 0,
                    grid_size_y >= 0,
            ;
        }
        let start_y = gy * grid_size_y;
        let start_x = gx * grid_size_x;
        let stop_y = crate::utils::min((gy + 1) * grid_size_y, h - 1);
        let stop_x = crate::utils::min((gx + 1) * grid_size_x, w - 1);
        if stop_y <= start_y || stop_x <= start_x {
            return None;
        }
        let ghost cells = self.map@;
        let mut sum: u32 = 0;
        let mut iy = start_y;
        while iy <= stop_y
            invariant
                w >= 1,
                h >= 1,
                cells == self.map@,
                cells.len() == w * h,
                size == w * h,
                codes_wf(cells),
                4 * w * h <= u32::MAX,
                start_x < stop_x <= w - 1,
                start_y < stop_y <= h - 1,
                start_y <= iy <= stop_y + 1,
                sum == rect_sum(cells, w as int, start_x as int, stop_x as int, start_y as int, iy - 1),
                sum <= 4 * ((iy - start_y) * (stop_x - start_x + 1)),
            decreases stop_y + 1 - iy,
        {
            let mut ix = start_x;
            while ix <= stop_x
                invariant
                    w >= 1,
                    h >= 1,
                    cells == self.map@,
                    cells.len() == w * h,
                    size == w * h,
                    codes_wf(cells),
                    4 * w * h <= u32::MAX,
                    start_x < stop_x <= w - 1,
                    start_y < stop_y <= h - 1,
                    start_y <= iy <= stop_y,
                    start_x <= ix <= stop_x + 1,
                    sum == rect_sum(cells, w as int, start_x as int, stop_x as int, start_y as int, iy - 1)
                        + row_sum(cells, w as int, iy as int, start_x as int, ix - 1),
                    sum <= 4 * ((iy - start_y) * (stop_x - start_x + 1) + (ix - start_x)),
                decreases stop_x + 1 - ix,
            {
                proof {
                    lemma_index_in_range(w as int, h as int, ix as int, iy as int);
                    assert((iy - start_y) * (stop_x - start_x + 1) + (ix - start_x) <= (h - 1) * w
                        + (w - 1)) by (nonlinear_arith)
                        requires
                            0 <= iy - start_y <= h - 1,
                            0 <= ix - start_x <= stop_x - start_x <= w - 1,
                            1 <= stop_x - start_x + 1 <= w,
                            w >= 1,
                            h >= 1,
                    ;
                    assert((h - 1) * w + (w - 1) < h * w) by (nonlinear_arith)
                        requires
                            w >= 1,
                            h >= 1,
                    ;
                }
                let idx = iy * w + ix;
                let code = self.map[idx];
                proof {
                    assert(cells[idx as int] <= 4);
                    assert(sum + 4 <= 4 * w * h) by (nonlinear_arith)
                        requires
                            sum <= 4 * ((iy - start_y) * (stop_x - start_x + 1) + (ix - start_x)),
                            (iy - start_y) * (stop_x - start_x + 1) + (ix - start_x) <= (h - 1) * w
                                + (w - 1),
                            (h - 1) * w + (w - 1) < h * w,
                            w >= 1,
                            h >= 1,
                    ;
                }
                sum = sum + (code as u32);
                ix = ix + 1;
            }
            proof {
                assert((iy - start_y) * (stop_x - start_x + 1) + (stop_x - start_x + 1) == (iy + 1
                    - start_y) * (stop_x - start_x + 1)) by (nonlinear_arith);
            }
            iy = iy + 1;
        }
        Some(sum)
    }

    /// How many placements of the latest seeding pass used each pattern:
    /// one counter per library pattern, index-aligned.
    pub fn placement_counts(&self) -> (counts: Vec<usize>)
        requires
            self.wf(),
        ensures
            counts@.len() == self@.patterns.len(),
            forall|i: int|
                0 <= i < counts@.len() ==> #[trigger] counts@[i] == count_placed(
                    self@.placements,
                    i,
                ),
    {
        let n = self.library.num_patterns();
        let mut counts: Vec<usize> = Vec::new();
        for i in 0..n
            invariant
                counts@.len() == i,
                forall|t: int| 0 <= t < i ==> #[trigger] counts@[t] == 0,
        {
            counts.push(0);
        }
        let total = self.placements.len();
        let mut k: usize = 0;
        while k < total
            invariant
                self.wf(),
                n == self@.patterns.len(),
                total == self@.placements.len(),
                k <= total,
                counts@.len() == n,
                forall|i: int|
                    0 <= i < n ==> #[trigger] counts@[i] == count_placed(
                        self@.placements.take(k as int),
                        i,
                    ),
            decreases total - k,
        {
            let pi = self.placements[k].pattern_index;
            proof {
                assert(placement_in_bounds(self@.placements[k as int], self@.patterns, self@.width, self@.height));
                lemma_count_placed_le_len(self@.placements.take(k as int), pi as int);
                assert(self@.placements.take(k as int).len() == k);
                assert forall|i: int| 0 <= i < n implies count_placed(
                    self@.placements.take(k as int + 1),
                    i,
                ) == count_placed(self@.placements.take(k as int), i) + (
                if self@.placements[k as int].pattern_index == i {
                    1int
                } else {
                    0int
                }) by {
                    lemma_count_placed_take(self@.placements, k as int, i);
                }
            }
            let c = counts[pi];
            counts.set(pi, c + 1);
            k = k + 1;
        }
        proof {
            assert(self@.placements.take(total as int) =~= self@.placements);
        }
        counts
    }

    /// The library pattern at an index.
    pub fn pattern(&self, i: usize) -> (p: &Pattern)
        requires
            i < self@.patterns.len(),
        ensures
            *p == self@.patterns[i as int],
    {
        self.library.pattern(i)
    }
}

/// A buffer of `n` Dead cells.
fn zero_buffer(n: usize) -> (r: Vec<u8>)
    ensures
        r@ == all_dead(n as nat),
{
    let mut r: Vec<u8> = Vec::new();
    for i in 0..n
        invariant
            r@.len() == i,
            forall|k: int| 0 <= k < i ==> #[trigger] r@[k] == 0,
    {
        r.push(0);
    }
    proof {
        assert(r@ =~= all_dead(n as nat));
    }
    r
}

/// A buffer of `n` unclaimed lattice cells.
fn false_buffer(n: usize) -> (r: Vec<bool>)
    ensures
        r@.len() == n,
        forall|k: int| 0 <= k < n ==> !(#[trigger] r@[k]),
{
    let mut r: Vec<bool> = Vec::new();
    for i in 0..n
        invariant
            r@.len() == i,
            forall|k: int| 0 <= k < i ==> !(#[trigger] r@[k]),
    {
        r.push(false);
    }
    r
}

/// A copy of a cell buffer.
fn copy_buffer(src: &Vec<u8>) -> (r: Vec<u8>)
    ensures
        r@ == src@,
{
    let mut r: Vec<u8> = Vec::new();
    let n = src.len();
    for i in 0..n
        invariant
            n == src@.len(),
            r@.len() == i,
            forall|k: int| 0 <= k < i ==> #[trigger] r@[k] == src@[k],
    {
        r.push(src[i]);
    }
    proof {
        assert(r@ =~= src@);
    }
    r
}

} // verus!
