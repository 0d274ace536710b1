//! The placement engine: the grid is partitioned into a coarse lattice, and
//! each lattice cell may receive one weighted-randomly chosen pattern at a
//! jittered anchor. A placement is rejected when its padded footprint would
//! reach the grid's last row or column, when its lattice span would leave the
//! lattice, or when any lattice cell of the span is already claimed.

use crate::gol_patterns::{
    matrix_wf, pattern_wf, pick_random_weighted_pattern, rows_view, Pattern, PatternLibrary,
};
use crate::rng::rand_upto;
use crate::transition::{cell_index, lemma_index_in_range, lemma_index_split};
use vstd::arithmetic::div_mod::{
    lemma_fundamental_div_mod, lemma_fundamental_div_mod_converse,
    lemma_mod_division_less_than_divisor,
};
use vstd::prelude::*;

verus! {

/// One successful placement of a seeding pass: which pattern was stamped,
/// the pixel anchor of its top-left corner, and the claimed span of lattice
/// cells, both ends inclusive.
#[derive(Clone, Copy, Debug, PartialEq, Eq, Structural)]
pub struct Placement {
    pub pattern_index: usize,
    pub x: usize,
    pub y: usize,
    pub gx0: usize,
    pub gx1: usize,
    pub gy0: usize,
    pub gy1: usize,
}

/// Two claimed lattice-cell spans share no lattice cell.
pub open spec fn spans_disjoint(a: Placement, b: Placement) -> bool {
    a.gx1 < b.gx0 || b.gx1 < a.gx0 || a.gy1 < b.gy0 || b.gy1 < a.gy0
}

/// A span is oriented and lies on a lattice of the given dimensions.
pub open spec fn span_in_lattice(p: Placement, gcx: int, gcy: int) -> bool {
    p.gx0 <= p.gx1 < gcx && p.gy0 <= p.gy1 < gcy
}

/// A placement names a pattern of the library and its footprint stays
/// strictly inside the grid: the stamped pattern never touches the last
/// pixel column or row.
pub open spec fn placement_in_bounds(p: Placement, patterns: Seq<Pattern>, w: int, h: int) -> bool {
    &&& p.pattern_index < patterns.len()
    &&& p.x + rows_view(patterns[p.pattern_index as int].cells)[0].len() < w
    &&& p.y + rows_view(patterns[p.pattern_index as int].cells).len() < h
}

/// What holds of the placements of one seeding pass: every placement is in
/// bounds, and the claimed lattice spans of any two distinct placements are
/// disjoint.
pub open spec fn placements_valid(ps: Seq<Placement>, patterns: Seq<Pattern>, w: int, h: int) -> bool {
    &&& forall|i: int| 0 <= i < ps.len() ==> placement_in_bounds(#[trigger] ps[i], patterns, w, h)
    &&& forall|i: int, j: int|
        0 <= i < ps.len() && 0 <= j < ps.len() && i != j ==> spans_disjoint(
            #[trigger] ps[i],
            #[trigger] ps[j],
        )
}

/// Every span lies on the lattice.
pub open spec fn placements_on_lattice(ps: Seq<Placement>, gcx: int, gcy: int) -> bool {
    forall|i: int| 0 <= i < ps.len() ==> span_in_lattice(#[trigger] ps[i], gcx, gcy)
}

/// The pixel size of one lattice cell along a dimension: the dimension over
/// the division count, rounded up, and at least one.
pub open spec fn spec_cell_size(dim: int, divisions: int) -> int {
    if (dim + divisions - 1) / divisions >= 1 {
        (dim + divisions - 1) / divisions
    } else {
        1
    }
}

/// How many lattice cells of one pixel size fit along a dimension, at least
/// one.
pub open spec fn spec_lattice_count(dim: int, cell_size: int) -> int {
    if dim / cell_size >= 1 {
        dim / cell_size
    } else {
        1
    }
}

/// How one placement sits on a seeding lattice of gcx × gcy cells, each
/// gcw × gch pixels: its span lies on the lattice; its anchor lies in the
/// span's first cell, jittered right and down by at most one full cell
/// size; and the span is the least one whose pixel extent covers the
/// pattern's padded footprint.
pub open spec fn placement_on_lattice(p: Placement, patterns: Seq<Pattern>, gcw: int, gch: int, gcx: int, gcy: int) -> bool {
    &&& span_in_lattice(p, gcx, gcy)
    &&& p.gx0 * gcw <= p.x <= p.gx0 * gcw + gcw
    &&& p.gy0 * gch <= p.y <= p.gy0 * gch + gch
    &&& (p.gx1 - p.gx0 + 1) * gcw >= rows_view(patterns[p.pattern_index as int].cells)[0].len()
    &&& (p.gx1 - p.gx0) * gcw < rows_view(patterns[p.pattern_index as int].cells)[0].len()
    &&& (p.gy1 - p.gy0 + 1) * gch >= rows_view(patterns[p.pattern_index as int].cells).len()
    &&& (p.gy1 - p.gy0) * gch < rows_view(patterns[p.pattern_index as int].cells).len()
}

/// Every placement of a pass sits on the seeding lattice.
pub open spec fn placements_on_geometry(ps: Seq<Placement>, patterns: Seq<Pattern>, gcw: int, gch: int, gcx: int, gcy: int) -> bool {
    forall|i: int|
        0 <= i < ps.len() ==> placement_on_lattice(#[trigger] ps[i], patterns, gcw, gch, gcx, gcy)
}

/// The occupancy buffer stores lattice cell (gx, gy) at `gy * gcx + gx`.
pub open spec fn occ_at(occ: Seq<bool>, gcx: int, gx: int, gy: int) -> bool {
    occ[cell_index(gcx, gx, gy)]
}

/// A placement's whole span is claimed in the occupancy buffer.
pub open spec fn span_marked(occ: Seq<bool>, gcx: int, p: Placement) -> bool {
    forall|i: int, j: int|
        p.gx0 <= i <= p.gx1 && p.gy0 <= j <= p.gy1 ==> #[trigger] occ_at(occ, gcx, i, j)
}

/// No lattice cell of a placement's span is claimed.
pub open spec fn span_clear(occ: Seq<bool>, gcx: int, p: Placement) -> bool {
    forall|i: int, j: int|
        p.gx0 <= i <= p.gx1 && p.gy0 <= j <= p.gy1 ==> !#[trigger] occ_at(occ, gcx, i, j)
}

/// Every placement's span is claimed in the occupancy buffer.
pub open spec fn placements_marked(ps: Seq<Placement>, occ: Seq<bool>, gcx: int) -> bool {
    forall|k: int| 0 <= k < ps.len() ==> span_marked(occ, gcx, #[trigger] ps[k])
}

/// Every cell code of a buffer is Dead or Alive.
pub open spec fn all_codes_at_most_one(cells: Seq<u8>) -> bool {
    forall|i: int| 0 <= i < cells.len() ==> #[trigger] cells[i] <= 1
}

/// A buffer of Dead cells only.
pub open spec fn all_dead(n: nat) -> Seq<u8> {
    Seq::new(n, |i: int| 0u8)
}

/// One pattern matrix stamped onto a buffer at pixel anchor (x, y): inside
/// the footprint the buffer takes the matrix entry, elsewhere it is
/// unchanged.
pub open spec fn stamp_spec(cells: Seq<u8>, w: int, m: Seq<Seq<u8>>, x: int, y: int) -> Seq<u8> {
    Seq::new(
        cells.len(),
        |k: int|
            if y <= k / (w as int) < y + m.len() && x <= k % (w as int) < x + m[0].len() {
                m[k / (w as int) - y][k % (w as int) - x]
            } else {
                cells[k]
            },
    )
}

/// A whole seeding pass read off its placements: every placement's pattern
/// stamped in order onto the base buffer.
pub open spec fn stamp_all(base: Seq<u8>, w: int, ps: Seq<Placement>, patterns: Seq<Pattern>) -> Seq<
    u8,
>
    decreases ps.len(),
{
    if ps.len() == 0 {
        base
    } else {
        stamp_spec(
            stamp_all(base, w, ps.drop_last(), patterns),
            w,
            rows_view(patterns[ps.last().pattern_index as int].cells),
            ps.last().x as int,
            ps.last().y as int,
        )
    }
}

/// Appending a placement stamps its pattern onto the result so far.
pub proof fn lemma_stamp_all_push(base: Seq<u8>, w: int, ps: Seq<Placement>, patterns: Seq<Pattern>, p: Placement)
    ensures
        stamp_all(base, w, ps.push(p), patterns) == stamp_spec(
            stamp_all(base, w, ps, patterns),
            w,
            rows_view(patterns[p.pattern_index as int].cells),
            p.x as int,
            p.y as int,
        ),
{
    assert(ps.push(p).drop_last() =~= ps);
    assert(ps.push(p).last() == p);
}

/// A span whose lattice cells are all unclaimed is disjoint from any span
/// whose lattice cells are all claimed.
pub proof fn lemma_clear_span_disjoint(occ: Seq<bool>, gcx: int, gcy: int, claimed: Placement, clear: Placement)
    requires
        span_in_lattice(claimed, gcx, gcy),
        span_in_lattice(clear, gcx, gcy),
        span_marked(occ, gcx, claimed),
        span_clear(occ, gcx, clear),
    ensures
        spans_disjoint(claimed, clear),
{
    if !spans_disjoint(claimed, clear) {
        let i = if claimed.gx0 >= clear.gx0 {
            claimed.gx0 as int
        } else {
            clear.gx0 as int
        };
        let j = if claimed.gy0 >= clear.gy0 {
            claimed.gy0 as int
        } else {
            clear.gy0 as int
        };
        assert(occ_at(occ, gcx, i, j));
        assert(!occ_at(occ, gcx, i, j));
    }
}

/// The pixel size of one lattice cell along a dimension: the dimension
/// divided by the requested number of divisions, rounded up, and at least
/// one.
pub(crate) fn grid_cell_size(dim: usize, divisions: usize) -> (r: usize)
    requires
        dim >= 1,
        divisions >= 1,
    ensures
        1 <= r <= dim,
        r * divisions >= dim,
        (r - 1) * divisions < dim,
        r == spec_cell_size(dim as int, divisions as int),
{
    let q = dim / divisions;
    let rem = dim % divisions;
    proof {
        lemma_fundamental_div_mod(dim as int, divisions as int);
        lemma_mod_division_less_than_divisor(dim as int, divisions as int);
        assert(dim == divisions * q + rem);
        if rem == 0 {
            assert(1 <= q <= dim && q * divisions >= dim && q * divisions < dim + divisions)
                by (nonlinear_arith)
                requires
                    dim == divisions * q + rem,
                    rem == 0,
                    dim >= 1,
                    divisions >= 1,
                    q >= 0,
            ;
        } else {
            assert(1 <= q + 1 <= dim && (q + 1) * divisions >= dim && (q + 1) * divisions < dim
                + divisions) by (nonlinear_arith)
                requires
                    dim == divisions * q + rem,
                    0 < rem < divisions,
                    dim >= 1,
                    divisions >= 1,
                    q >= 0,
            ;
        }
    }
    let r_val = if rem == 0 {
        q
    } else {
        q + 1
    };
    proof {
        assert((r_val - 1) * divisions == r_val * divisions - divisions) by (nonlinear_arith);
        let s = dim as int + divisions as int - 1;
        assert(s == r_val * divisions + (s - r_val * divisions));
        lemma_fundamental_div_mod_converse(
            s,
            divisions as int,
            r_val as int,
            s - r_val * divisions,
        );
        assert(s / (divisions as int) == r_val);
    }
    r_val
}

/// How many lattice cells of the given pixel size fit along a dimension, at
/// least one; the lattice never reaches past the dimension.
pub(crate) fn lattice_count(dim: usize, cell_size: usize) -> (r: usize)
    requires
        1 <= cell_size <= dim,
    ensures
        1 <= r <= dim,
        r * cell_size <= dim,
        r == dim as int / cell_size as int,
        r == spec_lattice_count(dim as int, cell_size as int),
{
    proof {
        lemma_fundamental_div_mod(dim as int, cell_size as int);
        lemma_mod_division_less_than_divisor(dim as int, cell_size as int);
        let q = dim as int / cell_size as int;
        let rem = dim as int % cell_size as int;
        assert(1 <= q <= dim && q * cell_size <= dim) by (nonlinear_arith)
            requires
                dim == cell_size * q + rem,
                0 <= rem < cell_size,
                1 <= cell_size <= dim,
                q >= 0,
        ;
    }
    dim / cell_size
}

/// Greedily extends a span of lattice cells from `g0` until its pixel extent
/// covers `target`, or reports that no span inside the lattice can: the
/// returned end cell is the least one whose span covers the target.
pub(crate) fn compute_span(g0: usize, cell_size: usize, count: usize, target: usize) -> (r: Option<
    usize,
>)
    requires
        cell_size >= 1,
        target >= 1,
        g0 < count,
        count * cell_size <= usize::MAX,
    ensures
        r matches Some(c) ==> ({
            &&& g0 <= c < count
            &&& (c - g0 + 1) * cell_size >= target
            &&& (c - g0) * cell_size < target
        }),
        r is None ==> (count - g0) * cell_size < target,
{
    let mut c = g0;
    loop
        invariant
            cell_size >= 1,
            target >= 1,
            g0 <= c < count,
            count * cell_size <= usize::MAX,
            (c - g0) * cell_size < target,
        ensures
            g0 <= c < count,
            (c - g0 + 1) * cell_size >= target,
            (c - g0) * cell_size < target,
        decreases count - c,
    {
        proof {
            assert((c - g0 + 1) * cell_size <= (count - g0) * cell_size) by (nonlinear_arith)
                requires
                    c < count,
                    g0 <= c,
                    cell_size >= 1,
            ;
            assert((count - g0) * cell_size <= count * cell_size) by (nonlinear_arith)
                requires
                    g0 >= 0,
                    count >= 0,
                    cell_size >= 1,
            ;
        }
        if (c - g0 + 1) * cell_size >= target {
            break ;
        }
        if c + 1 >= count {
            proof {
                assert((count - g0) * cell_size == (c - g0 + 1) * cell_size);
            }
            return None;
        }
        c = c + 1;
    }
    Some(c)
}


/// Whether no lattice cell of the span is claimed yet.
pub(crate) fn span_is_free(occ: &Vec<bool>, gcx: usize, gcy: usize, p: Placement) -> (free: bool)
    requires
        gcx >= 1,
        gcy >= 1,
        occ@.len() == gcx * gcy,
        span_in_lattice(p, gcx as int, gcy as int),
    ensures
        free <==> span_clear(occ@, gcx as int, p),
{
    let total = occ.len();
    let mut j = p.gy0;
    while j <= p.gy1
        invariant
            gcx >= 1,
            gcy >= 1,
            occ@.len() == gcx * gcy,
            total == occ@.len(),
            span_in_lattice(p, gcx as int, gcy as int),
            p.gy0 <= j <= p.gy1 + 1,
            forall|i2: int, j2: int|
                p.gx0 <= i2 <= p.gx1 && p.gy0 <= j2 < j ==> !#[trigger] occ_at(
                    occ@,
                    gcx as int,
                    i2,
                    j2,
                ),
        decreases p.gy1 + 1 - j,
    {
        let mut i = p.gx0;
        while i <= p.gx1
            invariant
                gcx >= 1,
                gcy >= 1,
                occ@.len() == gcx * gcy,
                span_in_lattice(p, gcx as int, gcy as int),
                total == occ@.len(),
                p.gy0 <= j <= p.gy1,
                p.gx0 <= i <= p.gx1 + 1,
                forall|i2: int, j2: int|
                    p.gx0 <= i2 <= p.gx1 && p.gy0 <= j2 < j ==> !#[trigger] occ_at(
                        occ@,
                        gcx as int,
                        i2,
                        j2,
                    ),
                forall|i2: int|
                    p.gx0 <= i2 < i ==> !#[trigger] occ_at(occ@, gcx as int, i2, j as int),
            decreases p.gx1 + 1 - i,
        {
            proof {
                lemma_index_in_range(gcx as int, gcy as int, i as int, j as int);
            }
            if occ[j * gcx + i] {
                proof {
                    assert(occ_at(occ@, gcx as int, i as int, j as int));
                }
                return false;
            }
            i = i + 1;
        }
        j = j + 1;
    }
    true
}

/// Claims every lattice cell of the span in the occupancy buffer; all other
/// lattice cells keep their state.
pub(crate) fn mark_span(occ: &mut Vec<bool>, gcx: usize, gcy: usize, p: Placement)
    requires
        gcx >= 1,
        gcy >= 1,
        old(occ)@.len() == gcx * gcy,
        span_in_lattice(p, gcx as int, gcy as int),
    ensures
        final(occ)@.len() == old(occ)@.len(),
        forall|i: int, j: int|
            0 <= i < gcx && 0 <= j < gcy ==> #[trigger] occ_at(final(occ)@, gcx as int, i, j) == (
            occ_at(old(occ)@, gcx as int, i, j) || (p.gx0 <= i <= p.gx1 && p.gy0 <= j <= p.gy1)),
{
    let ghost orig = old(occ)@;
    let total = occ.len();
    let mut j = p.gy0;
    while j <= p.gy1
        invariant
            gcx >= 1,
            gcy >= 1,
            occ@.len() == gcx * gcy,
            total == occ@.len(),
            orig.len() == gcx * gcy,
            span_in_lattice(p, gcx as int, gcy as int),
            p.gy0 <= j <= p.gy1 + 1,
            forall|i2: int, j2: int|
                0 <= i2 < gcx && 0 <= j2 < gcy ==> #[trigger] occ_at(occ@, gcx as int, i2, j2) == (
                occ_at(orig, gcx as int, i2, j2) || (p.gx0 <= i2 <= p.gx1 && p.gy0 <= j2 < j)),
        decreases p.gy1 + 1 - j,
    {
        let mut i = p.gx0;
        while i <= p.gx1
            invariant
                gcx >= 1,
                gcy >= 1,
                occ@.len() == gcx * gcy,
                total == occ@.len(),
                orig.len() == gcx * gcy,
                span_in_lattice(p, gcx as int, gcy as int),
                p.gy0 <= j <= p.gy1,
                p.gx0 <= i <= p.gx1 + 1,
                forall|i2: int, j2: int|
                    0 <= i2 < gcx && 0 <= j2 < gcy ==> #[trigger] occ_at(occ@, gcx as int, i2, j2)
                        == (occ_at(orig, gcx as int, i2, j2) || (p.gx0 <= i2 <= p.gx1 && p.gy0 <= j2
                        < j) || (p.gx0 <= i2 < i && j2 == j)),
            decreases p.gx1 + 1 - i,
        {
            proof {
                lemma_index_in_range(gcx as int, gcy as int, i as int, j as int);
            }
            let ghost pre = occ@;
            occ.set(j * gcx + i, true);
            proof {
                assert forall|i2: int, j2: int|
                    0 <= i2 < gcx && 0 <= j2 < gcy implies #[trigger] occ_at(
                    occ@,
                    gcx as int,
                    i2,
                    j2,
                ) == (occ_at(orig, gcx as int, i2, j2) || (p.gx0 <= i2 <= p.gx1 && p.gy0 <= j2 < j)
                    || (p.gx0 <= i2 < i + 1 && j2 == j)) by {
                    lemma_index_in_range(gcx as int, gcy as int, i2, j2);
                    assert(occ_at(pre, gcx as int, i2, j2) == (occ_at(orig, gcx as int, i2, j2) || (
                    p.gx0 <= i2 <= p.gx1 && p.gy0 <= j2 < j) || (p.gx0 <= i2 < i && j2 == j)));
                    if cell_index(gcx as int, i2, j2) == cell_index(gcx as int, i as int, j as int) {
                        lemma_index_split(gcx as int, i2, j2);
                        lemma_index_split(gcx as int, i as int, j as int);
                        assert(i2 == i && j2 == j);
                    } else {
                        assert(occ@[cell_index(gcx as int, i2, j2)] == pre[cell_index(
                            gcx as int,
                            i2,
                            j2,
                        )]);
                    }
                }
            }
            i = i + 1;
        }
        j = j + 1;
    }
}

/// Stamps a pattern's whole padded matrix onto the grid buffer at a pixel
/// anchor: every cell of the footprint takes the pattern's code, dead border
/// included, and no other cell changes.
pub(crate) fn stamp_pattern(map: &mut Vec<u8>, w: usize, h: usize, pat: &Pattern, x: usize, y: usize)
    requires
        w >= 1,
        h >= 1,
        old(map)@.len() == w * h,
        matrix_wf(rows_view(pat.cells)),
        x + rows_view(pat.cells)[0].len() <= w,
        y + rows_view(pat.cells).len() <= h,
    ensures
        final(map)@ == stamp_spec(old(map)@, w as int, rows_view(pat.cells), x as int, y as int),
{
    let ghost m = rows_view(pat.cells);
    let ghost orig = old(map)@;
    let total = map.len();
    let ph = pat.height();
    let pw = pat.width();
    for ly in 0..ph
        invariant
            w >= 1,
            h >= 1,
            m == rows_view(pat.cells),
            matrix_wf(m),
            ph == m.len(),
            pw == m[0].len(),
            x + pw <= w,
            y + ph <= h,
            map@.len() == w * h,
            total == map@.len(),
            orig.len() == w * h,
            forall|k: int|
                0 <= k < map@.len() ==> #[trigger] map@[k] == (if y <= k / (w as int) < y + ly && x <= k % (w as int)
                    < x + pw {
                    m[k / (w as int) - y][k % (w as int) - x]
                } else {
                    orig[k]
                }),
    {
        let row = &pat.cells[ly];
        proof {
            assert(row@ == m[ly as int]);
        }
        for lx in 0..pw
            invariant
                w >= 1,
                h >= 1,
                m == rows_view(pat.cells),
                matrix_wf(m),
                ph == m.len(),
                pw == m[0].len(),
                0 <= ly < ph,
                x + pw <= w,
                y + ph <= h,
                map@.len() == w * h,
                total == map@.len(),
                orig.len() == w * h,
                row@ == m[ly as int],
                forall|k: int|
                    0 <= k < map@.len() ==> #[trigger] map@[k] == (if (y <= k / (w as int) < y + ly && x <= k
                        % (w as int) < x + pw) || (k / (w as int) == y + ly && x <= k % (w as int) < x + lx) {
                        m[k / (w as int) - y][k % (w as int) - x]
                    } else {
                        orig[k]
                    }),
        {
            proof {
                lemma_index_in_range(w as int, h as int, (x + lx) as int, (y + ly) as int);
                lemma_index_split(w as int, (x + lx) as int, (y + ly) as int);
            }
            let idx = (y + ly) * w + (x + lx);
            let ghost pre = map@;
            map.set(idx, row[lx]);
            proof {
                assert forall|k: int|
                    0 <= k < map@.len() implies #[trigger] map@[k] == (if (y <= k / (w as int) < y
                    + ly && x <= k % (w as int) < x + pw) || (k / (w as int) == y + ly && x <= k % (
                w as int) < x + lx + 1) {
                    m[k / (w as int) - y][k % (w as int) - x]
                } else {
                    orig[k]
                }) by {
                    assert(pre[k] == (if (y <= k / (w as int) < y + ly && x <= k % (w as int) < x
                        + pw) || (k / (w as int) == y + ly && x <= k % (w as int) < x + lx) {
                        m[k / (w as int) - y][k % (w as int) - x]
                    } else {
                        orig[k]
                    }));
                    lemma_fundamental_div_mod(k, w as int);
                    if k != idx {
                        assert(map@[k] == pre[k]);
                        if k / (w as int) == y + ly && k % (w as int) == x + lx {
                            assert(k == (w as int) * (k / (w as int)) + k % (w as int));
                            assert(k == (y + ly) * (w as int) + (x + lx)) by (nonlinear_arith)
                                requires
                                    k == (w as int) * (y + ly) + (x + lx),
                            ;
                            assert(false);
                        }
                    } else {
                        assert(k / (w as int) == y + ly && k % (w as int) == x + lx);
                        assert(map@[k] == m[ly as int][lx as int]);
                    }
                }
            }
        }
    }
    proof {
        assert(map@ =~= stamp_spec(orig, w as int, m, x as int, y as int));
    }
}


/// One placement attempt for lattice cell (gx, gy): with probability four in
/// ten, samples a pattern, jitters an anchor inside the lattice cell (both
/// uniform draws inclusive of the cell size), and stamps the pattern if its
/// footprint stays strictly inside the grid, its lattice span stays on the
/// lattice, and no lattice cell of the span is claimed yet. On success the
/// span is claimed and the placement is returned; otherwise nothing changes.
pub(crate) fn attempt_placement(
    map: &mut Vec<u8>,
    occ: &mut Vec<bool>,
    lib: &PatternLibrary,
    rng: &mut rand::rngs::ThreadRng,
    w: usize,
    h: usize,
    gcw: usize,
    gch: usize,
    gcx: usize,
    gcy: usize,
    gx: usize,
    gy: usize,
) -> (r: Option<Placement>)
    requires
        w >= 1,
        h >= 1,
        old(map)@.len() == w * h,
        lib.wf(),
        gcw >= 1,
        gch >= 1,
        gcx >= 1,
        gcy >= 1,
        gcx * gcw <= w,
        gcy * gch <= h,
        old(occ)@.len() == gcx * gcy,
        gx < gcx,
        gy < gcy,
    ensures
        final(occ)@.len() == old(occ)@.len(),
        final(map)@.len() == old(map)@.len(),
        r is None ==> final(map)@ == old(map)@ && final(occ)@ == old(occ)@,
        r matches Some(p) ==> ({
            &&& placement_in_bounds(p, lib@, w as int, h as int)
            &&& p.gx0 == gx && p.gy0 == gy
            &&& placement_on_lattice(p, lib@, gcw as int, gch as int, gcx as int, gcy as int)
            &&& span_clear(old(occ)@, gcx as int, p)
            &&& forall|i: int, j: int|
                0 <= i < gcx && 0 <= j < gcy ==> #[trigger] occ_at(final(occ)@, gcx as int, i, j)
                    == (occ_at(old(occ)@, gcx as int, i, j) || (p.gx0 <= i <= p.gx1 && p.gy0 <= j
                    <= p.gy1))
            &&& final(map)@ == stamp_spec(
                old(map)@,
                w as int,
                rows_view(lib@[p.pattern_index as int].cells),
                p.x as int,
                p.y as int,
            )
        }),
{
    if rand_upto(rng, 9) >= 4 {
        return None;
    }
    proof {
        lib.lemma_wf_patterns();
    }
    let idx = pick_random_weighted_pattern(lib, rng);
    let pat = lib.pattern(idx);
    proof {
        assert(pattern_wf(lib@[idx as int]));
    }
    let tw = pat.width();
    let th = pat.height();
    proof {
        assert(gx * gcw + gcw <= gcx * gcw) by (nonlinear_arith)
            requires
                gx < gcx,
                gcw >= 1,
                gx >= 0,
                gcx >= 1,
        ;
        assert(gy * gch + gch <= gcy * gch) by (nonlinear_arith)
            requires
                gy < gcy,
                gch >= 1,
                gy >= 0,
                gcy >= 1,
        ;
    }
    let jx = rand_upto(rng, gcw);
    let jy = rand_upto(rng, gch);
    let x = gx * gcw + jx;
    let y = gy * gch + jy;
    let cgx = match compute_span(gx, gcw, gcx, tw) {
        Some(c) => c,
        None => {
            return None;
        },
    };
    let cgy = match compute_span(gy, gch, gcy, th) {
        Some(c) => c,
        None => {
            return None;
        },
    };
    if !(x < w && w - x > tw) {
        return None;
    }
    if !(y < h && h - y > th) {
        return None;
    }
    let p = Placement { pattern_index: idx, x, y, gx0: gx, gx1: cgx, gy0: gy, gy1: cgy };
    if !span_is_free(occ, gcx, gcy, p) {
        return None;
    }
    mark_span(occ, gcx, gcy, p);
    stamp_pattern(map, w, h, pat, x, y);
    Some(p)
}


/// How many placements of a pass used the pattern at an index.
pub open spec fn count_placed(ps: Seq<Placement>, idx: int) -> nat
    decreases ps.len(),
{
    if ps.len() == 0 {
        0
    } else {
        count_placed(ps.drop_last(), idx) + (if ps.last().pattern_index == idx {
            1nat
        } else {
            0nat
        })
    }
}

/// One more placement raises exactly its own pattern's count.
pub proof fn lemma_count_placed_take(ps: Seq<Placement>, k: int, idx: int)
    requires
        0 <= k < ps.len(),
    ensures
        count_placed(ps.take(k + 1), idx) == count_placed(ps.take(k), idx) + (
        if ps[k].pattern_index == idx {
            1int
        } else {
            0int
        }),
{
    assert(ps.take(k + 1).drop_last() =~= ps.take(k));
    assert(ps.take(k + 1).last() == ps[k]);
}

/// A pattern's count never exceeds the number of placements.
pub proof fn lemma_count_placed_le_len(ps: Seq<Placement>, idx: int)
    ensures
        count_placed(ps, idx) <= ps.len(),
    decreases ps.len(),
{
    if ps.len() > 0 {
        lemma_count_placed_le_len(ps.drop_last(), idx);
    }
}


} // verus!
